//! Values as they travel over the socket.

use vstd::prelude::*;
use vstd::string::*;
use crate::text;

verus! {

/// A value of a message. A level is a 32-bit floating-point number, held as its bit pattern.
#[derive(Debug)]
pub enum Json {
    Null,
    Bool(bool),
    Uint(u64),
    Level(u32),
    Text(String),
    List(Vec<Json>),
    Object(Vec<(String, Json)>),
}

/// What a value says.
#[verifier::ext_equal]
pub enum JsonText {
    Null,
    Bool(bool),
    Uint(u64),
    Level(u32),
    Text(Seq<char>),
    List(Seq<JsonText>),
    Object(Seq<(Seq<char>, JsonText)>),
}

impl Json {
    pub open spec fn view(&self) -> JsonText
        decreases self,
    {
        match self {
            Json::Null => JsonText::Null,
            Json::Bool(b) => JsonText::Bool(*b),
            Json::Uint(n) => JsonText::Uint(*n),
            Json::Level(bits) => JsonText::Level(*bits),
            Json::Text(s) => JsonText::Text(s@),
            Json::List(items) => JsonText::List(
                Seq::new(
                    items@.len(),
                    |i: int|
                        if 0 <= i < items@.len() {
                            items@[i].view()
                        } else {
                            JsonText::Null
                        },
                ),
            ),
            Json::Object(members) => JsonText::Object(
                Seq::new(
                    members@.len(),
                    |i: int|
                        if 0 <= i < members@.len() {
                            (members@[i].0@, members@[i].1.view())
                        } else {
                            (Seq::empty(), JsonText::Null)
                        },
                ),
            ),
        }
    }

    /// The member of an object with a key. What has no such member has none.
    pub fn member(&self, key: &str) -> (r: Option<&Json>)
        ensures
            match r {
                Some(value) => self@.member(key@) == Some(value@),
                None => self@.member(key@) is None,
            },
    {
        match self {
            Json::Object(members) => {
                let ghost all = self@->Object_0;
                let len: usize = members.len();
                let mut i: usize = 0;
                assert(all.skip(0) =~= all);
                while i < len
                    invariant
                        len == members@.len(),
                        i <= len,
                        all.len() == len,
                        self@.member(key@) == first_member(all, key@),
                        forall|k: int|
                            0 <= k < len ==> #[trigger] all[k] == (
                                members@[k].0@,
                                members@[k].1.view(),
                            ),
                        first_member(all, key@) == first_member(all.skip(i as int), key@),
                    decreases len - i,
                {
                    let ghost rest = all.skip(i as int);
                    assert(rest[0] == all[i as int]);
                    assert(rest.drop_first() =~= all.skip(i + 1));
                    if text::same(members[i].0.as_str(), key) {
                        return Some(&members[i].1);
                    }
                    i += 1;
                }
                assert(all.skip(len as int) =~= Seq::empty());
                None
            },
            _ => None,
        }
    }

    /// The text of a member, or a question mark.
    pub fn text_of(&self, key: &str) -> (r: String)
        ensures
            r@ == self@.shown_text(key@),
    {
        match self.member(key) {
            Some(Json::Text(s)) => s.clone(),
            _ => "?".to_owned(),
        }
    }

    /// The number of a member, or zero.
    pub fn number_of(&self, key: &str) -> (r: u64)
        ensures
            r == self@.shown_number(key@),
    {
        match self.member(key) {
            Some(Json::Uint(n)) => *n,
            _ => 0,
        }
    }

    /// Whether a member is a truth value, and this one.
    pub fn is_bool(&self, key: &str, value: bool) -> (r: bool)
        ensures
            r == (self@.member(key@) == Some(JsonText::Bool(value))),
    {
        match self.member(key) {
            Some(Json::Bool(b)) => *b == value,
            _ => false,
        }
    }
}

/// The first member with a key.
pub open spec fn first_member(members: Seq<(Seq<char>, JsonText)>, key: Seq<char>) -> Option<
    JsonText,
>
    decreases members.len(),
{
    if members.len() == 0 {
        None
    } else if members[0].0 == key {
        Some(members[0].1)
    } else {
        first_member(members.drop_first(), key)
    }
}

impl JsonText {
    /// The member of an object with a key. What has no such member has none.
    pub open spec fn member(self, key: Seq<char>) -> Option<JsonText> {
        match self {
            JsonText::Object(members) => first_member(members, key),
            _ => None,
        }
    }

    /// The text of a member, or a question mark.
    pub open spec fn shown_text(self, key: Seq<char>) -> Seq<char> {
        match self.member(key) {
            Some(JsonText::Text(s)) => s,
            _ => "?"@,
        }
    }

    /// The number of a member, or zero.
    pub open spec fn shown_number(self, key: Seq<char>) -> u64 {
        match self.member(key) {
            Some(JsonText::Uint(n)) => n,
            _ => 0,
        }
    }
}

/// An object under construction.
pub struct Members {
    list: Vec<(String, Json)>,
}

impl Members {
    pub closed spec fn view(&self) -> Seq<(Seq<char>, JsonText)> {
        Json::Object(self.list)@->Object_0
    }

    pub fn new() -> (r: Members)
        ensures
            r@ == Seq::<(Seq<char>, JsonText)>::empty(),
    {
        let r = Members { list: Vec::new() };
        assert(r@ =~= Seq::<(Seq<char>, JsonText)>::empty());
        r
    }

    /// Adds a member.
    pub fn put(&mut self, key: &str, value: Json)
        ensures
            final(self)@ == old(self)@.push((key@, value@)),
    {
        let ghost before = self.list@;
        self.list.push((key.to_owned(), value));
        let ghost after = self.list@;
        assert(forall|k: int| 0 <= k < before.len() ==> after[k] == before[k]);
        assert(self@ =~= old(self)@.push((key@, value@)));
    }

    pub fn object(self) -> (r: Json)
        ensures
            r@ == JsonText::Object(self@),
    {
        Json::Object(self.list)
    }
}

/// Some values as a list.
pub open spec fn all_views(items: Seq<Json>) -> Seq<JsonText> {
    Seq::new(items.len(), |i: int| items[i]@)
}

/// A list of values.
pub fn list(items: Vec<Json>) -> (r: Json)
    ensures
        r@ == JsonText::List(all_views(items@)),
{
    let r = Json::List(items);
    assert(r@->List_0 =~= all_views(items@));
    r
}

/// A key that is not in the first part of an object is looked up in the rest.
pub proof fn lemma_member_behind(
    a: Seq<(Seq<char>, JsonText)>,
    b: Seq<(Seq<char>, JsonText)>,
    key: Seq<char>,
)
    requires
        forall|i: int| 0 <= i < a.len() ==> (#[trigger] a[i]).0 != key,
    ensures
        first_member(a + b, key) == first_member(b, key),
    decreases a.len(),
{
    if a.len() == 0 {
        assert(a + b =~= b);
    } else {
        assert((a + b).drop_first() =~= a.drop_first() + b);
        assert((a + b)[0] == a[0]);
        assert forall|i: int| 0 <= i < a.drop_first().len() implies (#[trigger] a.drop_first()[i]).0
            != key by {
            assert(a.drop_first()[i] == a[i + 1]);
        }
        lemma_member_behind(a.drop_first(), b, key);
    }
}

/// A lookup finds the value behind the first key that is the one asked for, wherever it stands, and
/// nothing where there is none.
pub proof fn law_first_key_is_found(
    members: Seq<(Seq<char>, JsonText)>,
    key: Seq<char>,
    i: int,
)
    ensures
        0 <= i < members.len() && members[i].0 == key && (forall|j: int|
            0 <= j < i ==> (#[trigger] members[j]).0 != key) ==> JsonText::Object(members).member(
            key,
        ) == Some(members[i].1),
        (forall|j: int| 0 <= j < members.len() ==> (#[trigger] members[j]).0 != key)
            ==> JsonText::Object(members).member(key) is None,
{
    if 0 <= i < members.len() && members[i].0 == key && (forall|j: int|
        0 <= j < i ==> (#[trigger] members[j]).0 != key) {
        let a = members.take(i);
        let b = members.skip(i);
        assert(members =~= a + b);
        assert forall|j: int| 0 <= j < a.len() implies (#[trigger] a[j]).0 != key by {
            assert(a[j] == members[j]);
        }
        lemma_member_behind(a, b, key);
        assert(b[0] == members[i]);
    }
    if forall|j: int| 0 <= j < members.len() ==> (#[trigger] members[j]).0 != key {
        let none = Seq::<(Seq<char>, JsonText)>::empty();
        assert(members =~= members + none);
        lemma_member_behind(members, none, key);
    }
}

/// A text or a number that is shown is the one found, and a stand-in where none is found. Nothing
/// but an object has members.
pub proof fn law_shown_members_are_those_found(data: JsonText, key: Seq<char>, s: Seq<char>, n: u64)
    ensures
        data.member(key) == Some(JsonText::Text(s)) ==> data.shown_text(key) == s,
        data.member(key) == Some(JsonText::Uint(n)) ==> data.shown_number(key) == n,
        data.member(key) is None ==> data.shown_text(key) == "?"@ && data.shown_number(key) == 0,
        !(data is Object) ==> data.member(key) is None,
{
}

} // verus!
