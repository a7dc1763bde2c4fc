//! Device discovery and the "which microphone should we actually use" rule.
//!
//! Rule: follow the system default input, but never pick a virtual, loopback or aggregate device
//! automatically. Those produce silence in practice. An explicitly chosen device is used or the
//! choice fails.

use vstd::prelude::*;
use crate::sequences;
use crate::text;

verus! {

#[derive(Debug)]
pub struct InputDevice {
    pub name: String,
    pub is_default: bool,
    /// True for devices that are never picked automatically.
    pub is_virtual: bool,
}

impl Clone for InputDevice {
    fn clone(&self) -> (r: InputDevice)
        ensures
            r == *self,
    {
        InputDevice {
            name: self.name.clone(),
            is_default: self.is_default,
            is_virtual: self.is_virtual,
        }
    }
}

/// The transport type of virtual devices, the characters `virt`.
pub const TRANSPORT_VIRTUAL: u32 = 0x7669_7274;

/// The transport type of aggregate devices, the characters `grup`.
pub const TRANSPORT_AGGREGATE: u32 = 0x6772_7570;

/// What the audio system tells of a device, as far as it can be read: whether it is the default
/// input, its name, its transport type, and the channel count of each input buffer.
pub struct FoundDevice {
    pub is_default: bool,
    pub name: Option<String>,
    pub transport: Option<u32>,
    pub input_channels: Option<Vec<u32>>,
}

/// The lower case of a string.
pub uninterp spec fn lowercased(s: Seq<char>) -> Seq<char>;

/// The lower case of an ASCII character.
pub open spec fn ascii_lowercase(c: char) -> char {
    if 'A' <= c <= 'Z' {
        (c as int + 32) as char
    } else {
        c
    }
}

/// `str::to_lowercase`. Its result is a function of the string, named `lowercased`; of an ASCII
/// string it is the string with its letters from A to Z put in lower case. Of other strings
/// nothing is said.
#[verifier::external_body]
fn to_lowercase(s: &str) -> (r: String)
    ensures
        r@ == lowercased(s@),
        vstd::utf8::is_ascii_chars(s@) ==> r@ == s@.map_values(|c: char| ascii_lowercase(c)),
{
    s.to_lowercase()
}

/// What the names of virtual devices contain, in lower case.
pub open spec fn virtual_name_hints() -> Seq<Seq<char>> {
    seq![
        "blackhole"@,
        "jump desktop"@,
        "multi-input"@,
        "multi-output"@,
        "aggregate"@,
        "loopback"@,
        "soundflower"@,
        "vb-cable"@,
    ]
}

/// Whether a name in lower case contains one of the hints.
pub open spec fn hints_at_virtual(lowercase: Seq<char>) -> bool {
    exists|i: int|
        0 <= i < virtual_name_hints().len() && text::is_substring(
            #[trigger] virtual_name_hints()[i],
            lowercase,
        )
}

/// Whether a name in lower case looks like that of a virtual device.
pub fn contains_virtual_hint(lowercase: &str) -> (r: bool)
    ensures
        r == hints_at_virtual(lowercase@),
        r <==> {
            ||| text::is_substring("blackhole"@, lowercase@)
            ||| text::is_substring("jump desktop"@, lowercase@)
            ||| text::is_substring("multi-input"@, lowercase@)
            ||| text::is_substring("multi-output"@, lowercase@)
            ||| text::is_substring("aggregate"@, lowercase@)
            ||| text::is_substring("loopback"@, lowercase@)
            ||| text::is_substring("soundflower"@, lowercase@)
            ||| text::is_substring("vb-cable"@, lowercase@)
        },
{
    let ghost hints = virtual_name_hints();
    assert(hints[0] == "blackhole"@ && hints[1] == "jump desktop"@ && hints[2] == "multi-input"@
        && hints[3] == "multi-output"@ && hints[4] == "aggregate"@ && hints[5] == "loopback"@
        && hints[6] == "soundflower"@ && hints[7] == "vb-cable"@);
    text::contains(lowercase, "blackhole") || text::contains(lowercase, "jump desktop")
        || text::contains(lowercase, "multi-input") || text::contains(lowercase, "multi-output")
        || text::contains(lowercase, "aggregate") || text::contains(lowercase, "loopback")
        || text::contains(lowercase, "soundflower") || text::contains(lowercase, "vb-cable")
}

/// Whether a name looks like that of a virtual device, whatever its case.
pub fn looks_virtual(name: &str) -> (r: bool)
    ensures
        r == hints_at_virtual(lowercased(name@)),
        vstd::utf8::is_ascii_chars(name@) ==> r == hints_at_virtual(
            name@.map_values(|c: char| ascii_lowercase(c)),
        ),
{
    let lowercase = to_lowercase(name);
    contains_virtual_hint(lowercase.as_str())
}

/// Whether any of the buffers has channels.
pub open spec fn any_channels(channels: Seq<u32>) -> bool {
    exists|i: int| 0 <= i < channels.len() && #[trigger] channels[i] > 0
}

/// Whether a device has input channels, as far as its configuration can be read.
pub open spec fn can_record(d: FoundDevice) -> bool {
    d.input_channels matches Some(channels) && any_channels(channels@)
}

fn has_input_channels(d: &FoundDevice) -> (r: bool)
    ensures
        r == can_record(*d),
{
    match &d.input_channels {
        None => false,
        Some(channels) => {
            let mut i: usize = 0;
            while i < channels.len()
                invariant
                    i <= channels@.len(),
                    d.input_channels == Some(*channels),
                    forall|k: int| 0 <= k < i ==> channels@[k] == 0,
                decreases channels@.len() - i,
            {
                if channels[i] > 0 {
                    return true;
                }
                i += 1;
            }
            false
        },
    }
}

/// Whether a device counts as virtual, by its transport or by its name.
pub open spec fn counts_as_virtual(d: FoundDevice) -> bool {
    ||| d.transport == Some(TRANSPORT_VIRTUAL)
    ||| d.transport == Some(TRANSPORT_AGGREGATE)
    ||| hints_at_virtual(lowercased(d.name->0@))
}

/// Whether a device is listed: it can record and its name can be read.
pub open spec fn is_listed(d: FoundDevice) -> bool {
    can_record(d) && d.name is Some
}

/// The entry of a listed device.
pub open spec fn listed_as(d: FoundDevice, entry: InputDevice) -> bool {
    &&& entry.name == d.name->0
    &&& entry.is_default == d.is_default
    &&& entry.is_virtual == counts_as_virtual(d)
}

/// The devices that can record, in the order in which they were found.
pub fn list_inputs(found: &Vec<FoundDevice>) -> (r: Vec<InputDevice>)
    ensures
        r@.len() == found@.filter(|d: FoundDevice| is_listed(d)).len(),
        forall|i: int|
            0 <= i < r@.len() ==> listed_as(
                found@.filter(|d: FoundDevice| is_listed(d))[i],
                #[trigger] r@[i],
            ),
        is_device_list(found@, r@),
        forall|k: int|
            0 <= k < found@.len() && (#[trigger] found@[k]).name is Some
                && found@[k].input_channels is Some && (exists|c: int|
                0 <= c < found@[k].input_channels->0@.len()
                    && #[trigger] found@[k].input_channels->0@[c] > 0) ==> exists|i: int|
                0 <= i < r@.len() && (#[trigger] r@[i]).name == found@[k].name->0
                    && r@[i].is_default == found@[k].is_default && (r@[i].is_virtual <==> {
                    ||| found@[k].transport == Some(TRANSPORT_VIRTUAL)
                    ||| found@[k].transport == Some(TRANSPORT_AGGREGATE)
                    ||| text::is_substring("blackhole"@, lowercased(found@[k].name->0@))
                    ||| text::is_substring("jump desktop"@, lowercased(found@[k].name->0@))
                    ||| text::is_substring("multi-input"@, lowercased(found@[k].name->0@))
                    ||| text::is_substring("multi-output"@, lowercased(found@[k].name->0@))
                    ||| text::is_substring("aggregate"@, lowercased(found@[k].name->0@))
                    ||| text::is_substring("loopback"@, lowercased(found@[k].name->0@))
                    ||| text::is_substring("soundflower"@, lowercased(found@[k].name->0@))
                    ||| text::is_substring("vb-cable"@, lowercased(found@[k].name->0@))
                }),
{
    let ghost keep = |d: FoundDevice| is_listed(d);
    let mut r: Vec<InputDevice> = Vec::new();
    let mut i: usize = 0;
    assert(found@.take(0).filter(keep) =~= Seq::<FoundDevice>::empty()) by {
        reveal(Seq::filter);
    }
    while i < found.len()
        invariant
            i <= found@.len(),
            keep == (|d: FoundDevice| is_listed(d)),
            r@.len() == found@.take(i as int).filter(keep).len(),
            forall|k: int|
                0 <= k < r@.len() ==> listed_as(
                    found@.take(i as int).filter(keep)[k],
                    #[trigger] r@[k],
                ),
        decreases found@.len() - i,
    {
        let d = &found[i];
        let ghost kept = found@.take(i as int).filter(keep);
        assert(found@.take(i + 1).drop_last() =~= found@.take(i as int));
        assert(found@.take(i + 1).filter(keep) == if keep(*d) {
            kept.push(*d)
        } else {
            kept
        }) by {
            reveal(Seq::filter);
        }
        if has_input_channels(d) {
            match &d.name {
                Some(name) => {
                    let transport_virtual = match d.transport {
                        Some(t) => t == TRANSPORT_VIRTUAL || t == TRANSPORT_AGGREGATE,
                        None => false,
                    };
                    let is_virtual = transport_virtual || looks_virtual(name.as_str());
                    r.push(
                        InputDevice { name: name.clone(), is_default: d.is_default, is_virtual },
                    );
                },
                None => {},
            }
        }
        i += 1;
    }
    assert(found@.take(found@.len() as int) =~= found@);
    proof {
        let at = law_virtual_devices_are_marked(found@, r@);
        assert forall|k: int| 0 <= k < found@.len() && can_record(#[trigger] found@[k])
            && found@[k].name is Some implies exists|i: int|
            0 <= i < r@.len() && at[i] == k && listed_as(found@[k], #[trigger] r@[i]) by {
            let i = choose|i: int| 0 <= i < at.len() && at[i] == k;
            lemma_hints(lowercased(found@[at[i]].name->0@));
            assert(listed_as(found@[k], r@[i]));
        }
        assert forall|k: int| 0 <= k < found@.len() implies counts_as_virtual(#[trigger] found@[k])
            == {
            ||| found@[k].transport == Some(TRANSPORT_VIRTUAL)
            ||| found@[k].transport == Some(TRANSPORT_AGGREGATE)
            ||| text::is_substring("blackhole"@, lowercased(found@[k].name->0@))
            ||| text::is_substring("jump desktop"@, lowercased(found@[k].name->0@))
            ||| text::is_substring("multi-input"@, lowercased(found@[k].name->0@))
            ||| text::is_substring("multi-output"@, lowercased(found@[k].name->0@))
            ||| text::is_substring("aggregate"@, lowercased(found@[k].name->0@))
            ||| text::is_substring("loopback"@, lowercased(found@[k].name->0@))
            ||| text::is_substring("soundflower"@, lowercased(found@[k].name->0@))
            ||| text::is_substring("vb-cable"@, lowercased(found@[k].name->0@))
        } by {
            lemma_hints(lowercased(found@[k].name->0@));
        }
    }
    r
}

/// Whether a list has the entries of the listed devices, in the order in which they were found.
pub open spec fn is_device_list(found: Seq<FoundDevice>, list: Seq<InputDevice>) -> bool {
    let listed = found.filter(|d: FoundDevice| is_listed(d));
    &&& list.len() == listed.len()
    &&& forall|i: int| 0 <= i < list.len() ==> listed_as(listed[i], #[trigger] list[i])
}

/// The first device of a list that satisfies `wanted`, if there is one.
pub open spec fn first_where(
    list: Seq<InputDevice>,
    wanted: spec_fn(InputDevice) -> bool,
) -> Option<InputDevice>
    decreases list.len(),
{
    if list.len() == 0 {
        None
    } else if wanted(list[0]) {
        Some(list[0])
    } else {
        first_where(list.drop_first(), wanted)
    }
}

/// The microphone of automatic mode: the default input if it is physical, or else the first
/// physical input.
pub open spec fn automatic_choice(list: Seq<InputDevice>) -> Option<InputDevice> {
    match first_where(list, |d: InputDevice| d.is_default && !d.is_virtual) {
        Some(d) => Some(d),
        None => first_where(list, |d: InputDevice| !d.is_virtual),
    }
}

/// Whether a device has the given name.
pub open spec fn named(name: Seq<char>) -> spec_fn(InputDevice) -> bool {
    |d: InputDevice| d.name@ == name
}

/// The microphone to use: the one with the chosen name, or the automatic one without a choice.
pub open spec fn effective_choice(
    list: Seq<InputDevice>,
    override_name: Option<Seq<char>>,
) -> Option<InputDevice> {
    match override_name {
        Some(name) => first_where(list, named(name)),
        None => automatic_choice(list),
    }
}

/// The microphone we'd use right now in automatic mode, if any.
pub fn automatic_mic(list: &[InputDevice]) -> (r: Option<InputDevice>)
    ensures
        r == automatic_choice(list@),
{
    let ghost preferred = |d: InputDevice| d.is_default && !d.is_virtual;
    let ghost physical = |d: InputDevice| !d.is_virtual;
    let mut i: usize = 0;
    assert(list@.skip(0) =~= list@);
    while i < list.len()
        invariant
            i <= list@.len(),
            preferred == (|d: InputDevice| d.is_default && !d.is_virtual),
            first_where(list@, preferred) == first_where(list@.skip(i as int), preferred),
        decreases list@.len() - i,
    {
        if list[i].is_default && !list[i].is_virtual {
            return Some(list[i].clone());
        }
        assert(list@.skip(i as int).drop_first() =~= list@.skip(i + 1));
        i += 1;
    }
    i = 0;
    while i < list.len()
        invariant
            i <= list@.len(),
            physical == (|d: InputDevice| !d.is_virtual),
            preferred == (|d: InputDevice| d.is_default && !d.is_virtual),
            first_where(list@, preferred) is None,
            first_where(list@, physical) == first_where(list@.skip(i as int), physical),
        decreases list@.len() - i,
    {
        if !list[i].is_virtual {
            return Some(list[i].clone());
        }
        assert(list@.skip(i as int).drop_first() =~= list@.skip(i + 1));
        i += 1;
    }
    None
}

/// The text of an optional string slice.
pub open spec fn str_text(s: Option<&str>) -> Option<Seq<char>> {
    match s {
        Some(t) => Some(t@),
        None => None,
    }
}

/// Resolve the effective mic. An explicit name never silently falls back.
pub fn resolve_mic(list: &[InputDevice], override_name: Option<&str>) -> (r: Option<InputDevice>)
    ensures
        r == effective_choice(list@, str_text(override_name)),
{
    match override_name {
        None => automatic_mic(list),
        Some(name) => {
            let ghost wanted = named(name@);
            let mut i: usize = 0;
            assert(list@.skip(0) =~= list@);
            while i < list.len()
                invariant
                    i <= list@.len(),
                    override_name == Some(name),
                    wanted == named(name@),
                    first_where(list@, wanted) == first_where(list@.skip(i as int), wanted),
                decreases list@.len() - i,
            {
                if text::same(list[i].name.as_str(), name) {
                    return Some(list[i].clone());
                }
                assert(list@.skip(i as int).drop_first() =~= list@.skip(i + 1));
                i += 1;
            }
            None
        },
    }
}

/// Resolve the effective mic for a setting.
pub fn resolve_setting(list: &[InputDevice], setting: &Option<String>) -> (r: Option<InputDevice>)
    ensures
        r == effective_choice(list@, text::opt_text(*setting)),
{
    match setting {
        Some(name) => resolve_mic(list, Some(name.as_str())),
        None => resolve_mic(list, None),
    }
}

/// The name of the output device, or a stand-in where it cannot be read.
pub open spec fn output_text(name: Option<Seq<char>>) -> Seq<char> {
    match name {
        Some(n) => n,
        None => "Unknown output"@,
    }
}

/// The name of the output device, if it can be read.
pub fn default_output_name(name: Option<String>) -> (r: String)
    ensures
        r@ == output_text(text::opt_text(name)),
{
    match name {
        Some(n) => n,
        None => "Unknown output".to_owned(),
    }
}

/// Whether a device of that name is in the list.
pub open spec fn is_present(list: Seq<InputDevice>, name: Seq<char>) -> bool {
    exists|i: int| 0 <= i < list.len() && #[trigger] list[i].name@ == name
}

/// Whether a device of that name is in the list.
pub fn has_device(list: &[InputDevice], name: &str) -> (r: bool)
    ensures
        r == is_present(list@, name@),
{
    let mut i: usize = 0;
    while i < list.len()
        invariant
            i <= list@.len(),
            forall|k: int| 0 <= k < i ==> #[trigger] list@[k].name@ != name@,
        decreases list@.len() - i,
    {
        if text::same(list[i].name.as_str(), name) {
            return true;
        }
        i += 1;
    }
    false
}

proof fn lemma_first_where(list: Seq<InputDevice>, wanted: spec_fn(InputDevice) -> bool)
    ensures
        match first_where(list, wanted) {
            Some(d) => wanted(d) && list.contains(d),
            None => forall|i: int| 0 <= i < list.len() ==> !wanted(#[trigger] list[i]),
        },
    decreases list.len(),
{
    if list.len() > 0 {
        let rest = list.drop_first();
        lemma_first_where(rest, wanted);
        if wanted(list[0]) {
            assert(list.contains(list[0]));
        } else {
            match first_where(rest, wanted) {
                Some(d) => {
                    let i = choose|i: int| 0 <= i < rest.len() && rest[i] == d;
                    assert(list[i + 1] == d);
                },
                None => {
                    assert forall|i: int| 0 <= i < list.len() implies !wanted(
                        #[trigger] list[i],
                    ) by {
                        if i > 0 {
                            assert(rest[i - 1] == list[i]);
                        }
                    }
                },
            }
        }
    }
}

/// Automatic mode never picks a virtual device, follows the default input whenever that is
/// physical, and finds a microphone whenever there is a physical one.
pub proof fn law_automatic_mic_is_physical(list: Seq<InputDevice>)
    ensures
        match automatic_choice(list) {
            Some(d) => {
                &&& list.contains(d)
                &&& !d.is_virtual
                &&& d.is_default || forall|i: int|
                    0 <= i < list.len() && (#[trigger] list[i]).is_default ==> list[i].is_virtual
            },
            None => forall|i: int| 0 <= i < list.len() ==> (#[trigger] list[i]).is_virtual,
        },
{
    lemma_first_where(list, |d: InputDevice| d.is_default && !d.is_virtual);
    lemma_first_where(list, |d: InputDevice| !d.is_virtual);
}

/// A chosen microphone is used if it is there, even a virtual one. If it is not there, no other
/// device takes its place.
pub proof fn law_chosen_mic_never_falls_back(list: Seq<InputDevice>, name: Seq<char>)
    ensures
        match effective_choice(list, Some(name)) {
            Some(d) => d.name@ == name && list.contains(d),
            None => !is_present(list, name),
        },
{
    lemma_first_where(list, named(name));
}

/// The hints one by one.
proof fn lemma_hints(lowercase: Seq<char>)
    ensures
        hints_at_virtual(lowercase) <==> {
            ||| text::is_substring("blackhole"@, lowercase)
            ||| text::is_substring("jump desktop"@, lowercase)
            ||| text::is_substring("multi-input"@, lowercase)
            ||| text::is_substring("multi-output"@, lowercase)
            ||| text::is_substring("aggregate"@, lowercase)
            ||| text::is_substring("loopback"@, lowercase)
            ||| text::is_substring("soundflower"@, lowercase)
            ||| text::is_substring("vb-cable"@, lowercase)
        },
{
    let hints = virtual_name_hints();
    assert(hints[0] == "blackhole"@ && hints[1] == "jump desktop"@ && hints[2] == "multi-input"@
        && hints[3] == "multi-output"@ && hints[4] == "aggregate"@ && hints[5] == "loopback"@
        && hints[6] == "soundflower"@ && hints[7] == "vb-cable"@);
}

/// A list shows every device that has a name and an input channel, and no other, in the order in
/// which they were found. A device counts as virtual in it exactly if it is one by its transport,
/// alone or as an aggregate, or if its name in lower case contains one of the hints.
pub proof fn law_virtual_devices_are_marked(
    found: Seq<FoundDevice>,
    list: Seq<InputDevice>,
) -> (at: Seq<int>)
    requires
        is_device_list(found, list),
    ensures
        at.len() == list.len(),
        forall|i: int, j: int| 0 <= i < j < at.len() ==> #[trigger] at[i] < #[trigger] at[j],
        forall|k: int|
            0 <= k < found.len() && (#[trigger] found[k]).name is Some
                && found[k].input_channels is Some && (exists|c: int|
                0 <= c < found[k].input_channels->0@.len()
                    && #[trigger] found[k].input_channels->0@[c] > 0) ==> at.contains(k),
        forall|i: int|
            0 <= i < at.len() ==> ({
                let d = found[#[trigger] at[i]];
                let lowercase = lowercased(d.name->0@);
                &&& 0 <= at[i] < found.len()
                &&& d.name is Some
                &&& d.input_channels is Some
                &&& exists|c: int|
                    0 <= c < d.input_channels->0@.len() && #[trigger] d.input_channels->0@[c] > 0
                &&& list[i].name == d.name->0
                &&& list[i].is_default == d.is_default
                &&& list[i].is_virtual <==> {
                    ||| d.transport == Some(TRANSPORT_VIRTUAL)
                    ||| d.transport == Some(TRANSPORT_AGGREGATE)
                    ||| text::is_substring("blackhole"@, lowercase)
                    ||| text::is_substring("jump desktop"@, lowercase)
                    ||| text::is_substring("multi-input"@, lowercase)
                    ||| text::is_substring("multi-output"@, lowercase)
                    ||| text::is_substring("aggregate"@, lowercase)
                    ||| text::is_substring("loopback"@, lowercase)
                    ||| text::is_substring("soundflower"@, lowercase)
                    ||| text::is_substring("vb-cable"@, lowercase)
                }
            }),
{
    let wanted = |d: FoundDevice| is_listed(d);
    let at = sequences::lemma_filter_positions(found, wanted);
    assert forall|k: int|
        0 <= k < found.len() && (#[trigger] found[k]).name is Some && found[k].input_channels is Some
            && (exists|c: int|
            0 <= c < found[k].input_channels->0@.len() && #[trigger] found[k].input_channels->0@[c]
                > 0) implies at.contains(k) by {
        assert(wanted(found[k]));
    }
    assert forall|i: int| 0 <= i < at.len() implies ({
        let d = found[#[trigger] at[i]];
        &&& 0 <= at[i] < found.len()
        &&& is_listed(d)
        &&& listed_as(d, list[i])
    }) by {
        assert(listed_as(found.filter(wanted)[i], list[i]));
    }
    assert forall|i: int| 0 <= i < at.len() implies ({
        let lowercase = lowercased(found[#[trigger] at[i]].name->0@);
        hints_at_virtual(lowercase) <==> {
            ||| text::is_substring("blackhole"@, lowercase)
            ||| text::is_substring("jump desktop"@, lowercase)
            ||| text::is_substring("multi-input"@, lowercase)
            ||| text::is_substring("multi-output"@, lowercase)
            ||| text::is_substring("aggregate"@, lowercase)
            ||| text::is_substring("loopback"@, lowercase)
            ||| text::is_substring("soundflower"@, lowercase)
            ||| text::is_substring("vb-cable"@, lowercase)
        }
    }) by {
        lemma_hints(lowercased(found[at[i]].name->0@));
    }
    at
}

/// Automatic mode never names a device that was found to be virtual or an aggregate, or whose name
/// hints at it.
pub proof fn law_automatic_mic_is_no_virtual_device(
    found: Seq<FoundDevice>,
    list: Seq<InputDevice>,
)
    requires
        is_device_list(found, list),
        automatic_choice(list) is Some,
    ensures
        exists|k: int|
            {
                &&& 0 <= k < found.len()
                &&& (#[trigger] found[k]).name == Some(automatic_choice(list)->0.name)
                &&& found[k].transport != Some(TRANSPORT_VIRTUAL)
                &&& found[k].transport != Some(TRANSPORT_AGGREGATE)
                &&& !text::is_substring("blackhole"@, lowercased(found[k].name->0@))
                &&& !text::is_substring("jump desktop"@, lowercased(found[k].name->0@))
                &&& !text::is_substring("multi-input"@, lowercased(found[k].name->0@))
                &&& !text::is_substring("multi-output"@, lowercased(found[k].name->0@))
                &&& !text::is_substring("aggregate"@, lowercased(found[k].name->0@))
                &&& !text::is_substring("loopback"@, lowercased(found[k].name->0@))
                &&& !text::is_substring("soundflower"@, lowercased(found[k].name->0@))
                &&& !text::is_substring("vb-cable"@, lowercased(found[k].name->0@))
            },
{
    law_automatic_mic_is_physical(list);
    let at = law_virtual_devices_are_marked(found, list);
    let d = automatic_choice(list)->0;
    let i = choose|i: int| 0 <= i < list.len() && list[i] == d;
    let k = at[i];
    assert(found[k].name == Some(d.name));
}

/// Of several devices that would do, the first one in the list is used: in automatic mode the
/// first default input that is physical, or else the first physical input, and of a chosen name
/// the first device that has it.
pub proof fn law_first_suitable_mic_is_used(list: Seq<InputDevice>, name: Seq<char>)
    ensures
        effective_choice(list, None) matches Some(d) ==> exists|i: int|
            0 <= i < list.len() && #[trigger] list[i] == d && forall|j: int|
                0 <= j < i ==> (#[trigger] list[j]).is_virtual || (d.is_default
                    && !list[j].is_default),
        effective_choice(list, Some(name)) matches Some(d) ==> exists|i: int|
            0 <= i < list.len() && #[trigger] list[i] == d && d.name@ == name && forall|j: int|
                0 <= j < i ==> (#[trigger] list[j]).name@ != name,
        effective_choice(list, None) is None <==> forall|i: int|
            0 <= i < list.len() ==> (#[trigger] list[i]).is_virtual,
        effective_choice(list, Some(name)) is None <==> forall|i: int|
            0 <= i < list.len() ==> (#[trigger] list[i]).name@ != name,
{
    lemma_first_place(list, |d: InputDevice| d.is_default && !d.is_virtual);
    lemma_first_place(list, |d: InputDevice| !d.is_virtual);
    lemma_first_place(list, named(name));
}

proof fn lemma_first_place(list: Seq<InputDevice>, wanted: spec_fn(InputDevice) -> bool)
    ensures
        match first_where(list, wanted) {
            Some(d) => exists|i: int|
                0 <= i < list.len() && #[trigger] list[i] == d && wanted(d) && forall|j: int|
                    0 <= j < i ==> !wanted(#[trigger] list[j]),
            None => forall|i: int| 0 <= i < list.len() ==> !wanted(#[trigger] list[i]),
        },
    decreases list.len(),
{
    if list.len() > 0 && !wanted(list[0]) {
        let rest = list.drop_first();
        lemma_first_place(rest, wanted);
        match first_where(rest, wanted) {
            Some(d) => {
                let i = choose|i: int|
                    0 <= i < rest.len() && #[trigger] rest[i] == d && wanted(d) && forall|j: int|
                        0 <= j < i ==> !wanted(#[trigger] rest[j]);
                assert(list[i + 1] == d);
                assert forall|j: int| 0 <= j < i + 1 implies !wanted(#[trigger] list[j]) by {
                    if j > 0 {
                        assert(rest[j - 1] == list[j]);
                    }
                }
            },
            None => {
                assert forall|i: int| 0 <= i < list.len() implies !wanted(#[trigger] list[i]) by {
                    if i > 0 {
                        assert(rest[i - 1] == list[i]);
                    }
                }
            },
        }
    } else if list.len() > 0 {
        assert(list[0] == first_where(list, wanted)->0);
    }
}

/// Lower case leaves no capital ASCII letter: each becomes the small letter of the same place in
/// the alphabet, and nothing else changes.
pub proof fn law_lower_case_has_no_capitals(c: char)
    ensures
        !('A' <= ascii_lowercase(c) <= 'Z'),
        'A' <= c <= 'Z' ==> ascii_lowercase(c) as int - 'a' as int == c as int - 'A' as int,
        !('A' <= c <= 'Z') ==> ascii_lowercase(c) == c,
{
}

/// What a list says of a device that has a name and an input channel: it is virtual exactly by its
/// transport, alone or as an aggregate, or by a hint in its name in lower case. A device that is
/// virtual is not named in automatic mode unless a physical one has the same name.
pub proof fn law_listed_device_is_virtual_for_a_reason(
    found: &Vec<FoundDevice>,
    list: Vec<InputDevice>,
    k: int,
    c: int,
) -> (i: int)
    requires
        call_ensures(list_inputs, (found,), list),
        0 <= k < found@.len(),
        found@[k].name is Some,
        found@[k].input_channels is Some,
        0 <= c < found@[k].input_channels->0@.len(),
        found@[k].input_channels->0@[c] > 0,
    ensures
        0 <= i < list@.len(),
        list@[i].name == found@[k].name->0,
        list@[i].is_default == found@[k].is_default,
        ({
            let lowercase = lowercased(found@[k].name->0@);
            list@[i].is_virtual <==> {
                ||| found@[k].transport == Some(0x7669_7274u32)
                ||| found@[k].transport == Some(0x6772_7570u32)
                ||| text::is_substring("blackhole"@, lowercase)
                ||| text::is_substring("jump desktop"@, lowercase)
                ||| text::is_substring("multi-input"@, lowercase)
                ||| text::is_substring("multi-output"@, lowercase)
                ||| text::is_substring("aggregate"@, lowercase)
                ||| text::is_substring("loopback"@, lowercase)
                ||| text::is_substring("soundflower"@, lowercase)
                ||| text::is_substring("vb-cable"@, lowercase)
            }
        }),
        list@[i].is_virtual ==> automatic_choice(list@) != Some(list@[i]),
        automatic_choice(list@) is Some ==> !automatic_choice(list@)->0.is_virtual,
{
    let at = law_virtual_devices_are_marked(found@, list@);
    law_automatic_mic_is_physical(list@);
    assert(found@[k].input_channels->0@[c] > 0);
    assert(at.contains(k));
    let i = choose|i: int| 0 <= i < at.len() && at[i] == k;
    assert(found@[at[i]] == found@[k]);
    i
}

} // verus!
