//! Where things are kept: everything lives under `~/Sori`, private to the current account.

use vstd::prelude::*;
use vstd::string::*;
use std::path::Path;
use crate::stamp::Stamp;
use crate::stamp;
use crate::text;

verus! {

/// The mode of every directory: access for the owner alone.
pub const PRIVATE_DIR_MODE: u32 = 448;

/// The mode of every file: reading and writing for the owner alone.
pub const PRIVATE_FILE_MODE: u32 = 384;

/// A file below the directory of the app.
pub open spec fn in_sori(home: Seq<char>, name: Seq<char>) -> Seq<char> {
    text::joined(text::joined(home, "Sori"@), name)
}

/// `~/Sori`
pub fn sori_dir(home: &str) -> (r: String)
    ensures
        r@ == text::joined(home@, "Sori"@),
{
    text::join(home, "Sori")
}

/// `~/Sori/recordings`
pub fn recordings_dir(home: &str) -> (r: String)
    ensures
        r@ == in_sori(home@, "recordings"@),
{
    text::join(sori_dir(home).as_str(), "recordings")
}

/// `~/Sori/recordings/latest`, a link to the newest finished recording.
pub fn latest_link(home: &str) -> (r: String)
    ensures
        r@ == text::joined(in_sori(home@, "recordings"@), "latest"@),
{
    text::join(recordings_dir(home).as_str(), "latest")
}

/// `~/Sori/state.json`, the state of the core, rewritten on every change.
pub fn state_file(home: &str) -> (r: String)
    ensures
        r@ == in_sori(home@, "state.json"@),
{
    text::join(sori_dir(home).as_str(), "state.json")
}

/// `~/Sori/sori.sock`, the socket that the command line talks to.
pub fn socket_path(home: &str) -> (r: String)
    ensures
        r@ == in_sori(home@, "sori.sock"@),
{
    text::join(sori_dir(home).as_str(), "sori.sock")
}

/// `~/Sori/on-finish`, run with the folder of a finished recording if it is there.
pub fn hook_path(home: &str) -> (r: String)
    ensures
        r@ == in_sori(home@, "on-finish"@),
{
    text::join(sori_dir(home).as_str(), "on-finish")
}

/// `~/Sori/settings.json`
pub fn settings_file(home: &str) -> (r: String)
    ensures
        r@ == in_sori(home@, "settings.json"@),
{
    text::join(sori_dir(home).as_str(), "settings.json")
}

/// `~/Sori/sori.log`
pub fn log_file(home: &str) -> (r: String)
    ensures
        r@ == in_sori(home@, "sori.log"@),
{
    text::join(sori_dir(home).as_str(), "sori.log")
}

/// `~/Sori/core.lock`, held by the running core.
pub fn lock_file(home: &str) -> (r: String)
    ensures
        r@ == in_sori(home@, "core.lock"@),
{
    text::join(sori_dir(home).as_str(), "core.lock")
}

/// The directories that have to be there, in the order in which they are created.
pub fn ensure_dirs(home: &str) -> (r: Vec<String>)
    ensures
        text::texts(r@) == seq![text::joined(home@, "Sori"@), in_sori(home@, "recordings"@)],
{
    let mut r: Vec<String> = Vec::new();
    r.push(sori_dir(home));
    r.push(recordings_dir(home));
    assert(text::texts(r@) =~= seq![
        text::joined(home@, "Sori"@),
        in_sori(home@, "recordings"@),
    ]);
    r
}

/// What stands at a path. Links are not followed.
#[derive(Clone, Copy, Debug, PartialEq, Eq, Structural)]
pub enum EntryKind {
    File,
    Dir,
    Other,
}

/// A path and what stands there.
pub struct Entry {
    pub path: String,
    pub kind: EntryKind,
}

/// An entry of the recordings directory, with the entries in it if it is a directory.
pub struct FolderEntry {
    pub entry: Entry,
    pub inside: Vec<Entry>,
}

/// A mode to be set on a path.
pub struct ModeChange {
    pub path: String,
    pub mode: u32,
}

/// The changes of mode as pairs.
pub open spec fn changes(list: Seq<ModeChange>) -> Seq<(Seq<char>, u32)> {
    Seq::new(list.len(), |i: int| (list[i].path@, list[i].mode))
}

/// The files below the directory of the app that are kept private.
pub fn private_files(home: &str) -> (r: Vec<String>)
    ensures
        text::texts(r@) == seq![
            in_sori(home@, "state.json"@),
            in_sori(home@, "settings.json"@),
            in_sori(home@, "sori.log"@),
            in_sori(home@, "core.lock"@),
        ],
{
    let mut r: Vec<String> = Vec::new();
    r.push(state_file(home));
    r.push(settings_file(home));
    r.push(log_file(home));
    r.push(lock_file(home));
    assert(text::texts(r@) =~= seq![
        in_sori(home@, "state.json"@),
        in_sori(home@, "settings.json"@),
        in_sori(home@, "sori.log"@),
        in_sori(home@, "core.lock"@),
    ]);
    r
}

/// The regular files among some entries, each with the mode of a private file.
pub open spec fn files_made_private(entries: Seq<Entry>) -> Seq<(Seq<char>, u32)>
    decreases entries.len(),
{
    if entries.len() == 0 {
        Seq::empty()
    } else if entries.last().kind == EntryKind::File {
        files_made_private(entries.drop_last()).push((entries.last().path@, PRIVATE_FILE_MODE))
    } else {
        files_made_private(entries.drop_last())
    }
}

/// The directories among some entries and the regular files in them, made private.
pub open spec fn folders_made_private(folders: Seq<FolderEntry>) -> Seq<(Seq<char>, u32)>
    decreases folders.len(),
{
    if folders.len() == 0 {
        Seq::empty()
    } else if folders.last().entry.kind == EntryKind::Dir {
        folders_made_private(folders.drop_last()).push(
            (folders.last().entry.path@, PRIVATE_DIR_MODE),
        ) + files_made_private(folders.last().inside@)
    } else {
        folders_made_private(folders.drop_last())
    }
}

fn secure_files(entries: &Vec<Entry>, out: &mut Vec<ModeChange>)
    ensures
        changes(final(out)@) == changes(old(out)@) + files_made_private(entries@),
{
    let ghost start = changes(out@);
    let mut i: usize = 0;
    assert(entries@.take(0) =~= Seq::empty());
    while i < entries.len()
        invariant
            i <= entries@.len(),
            changes(out@) =~= start + files_made_private(entries@.take(i as int)),
        decreases entries@.len() - i,
    {
        let ghost before = out@;
        assert(entries@.take(i + 1).drop_last() =~= entries@.take(i as int));
        assert(entries@.take(i + 1).last() == entries@[i as int]);
        if entries[i].kind == EntryKind::File {
            out.push(ModeChange { path: entries[i].path.clone(), mode: PRIVATE_FILE_MODE });
            assert(changes(out@) =~= changes(before).push(
                (entries@[i as int].path@, PRIVATE_FILE_MODE),
            ));
        }
        i += 1;
    }
    assert(entries@.take(i as int) =~= entries@);
}

/// The modes to be set on data that is already there: private files among the named ones, and
/// private folders with private files among the recordings.
pub fn secure_existing_data(named: &Vec<Entry>, recordings: &Vec<FolderEntry>) -> (r: Vec<
    ModeChange,
>)
    ensures
        changes(r@) == files_made_private(named@) + folders_made_private(recordings@),
{
    let mut out: Vec<ModeChange> = Vec::new();
    assert(changes(out@) =~= Seq::empty());
    secure_files(named, &mut out);
    let ghost start = changes(out@);
    assert(start =~= files_made_private(named@));
    let mut i: usize = 0;
    assert(recordings@.take(0) =~= Seq::empty());
    while i < recordings.len()
        invariant
            i <= recordings@.len(),
            changes(out@) =~= start + folders_made_private(recordings@.take(i as int)),
        decreases recordings@.len() - i,
    {
        let ghost before = out@;
        assert(recordings@.take(i + 1).drop_last() =~= recordings@.take(i as int));
        assert(recordings@.take(i + 1).last() == recordings@[i as int]);
        if recordings[i].entry.kind == EntryKind::Dir {
            out.push(
                ModeChange { path: recordings[i].entry.path.clone(), mode: PRIVATE_DIR_MODE },
            );
            assert(changes(out@) =~= changes(before).push(
                (recordings@[i as int].entry.path@, PRIVATE_DIR_MODE),
            ));
            secure_files(&recordings[i].inside, &mut out);
        }
        i += 1;
    }
    assert(recordings@.take(i as int) =~= recordings@);
    out
}

/// The folder name tried at the `n`th attempt: the plain name first, then the name with a number.
pub open spec fn candidate(base: Seq<char>, n: nat) -> Seq<char> {
    if n <= 1 {
        base
    } else {
        base + "-"@ + text::decimal(n)
    }
}

/// Whether a name is among the names that are taken.
pub open spec fn is_taken(taken: Seq<String>, name: Seq<char>) -> bool {
    exists|i: int| 0 <= i < taken.len() && (#[trigger] taken[i])@ == name
}

/// Whether `n` is the first attempt whose name is free.
pub open spec fn first_free(base: Seq<char>, taken: Seq<String>, n: nat) -> bool {
    &&& n >= 1
    &&& !is_taken(taken, candidate(base, n))
    &&& forall|k: nat| 1 <= k < n ==> is_taken(taken, #[trigger] candidate(base, k))
}

proof fn lemma_candidates_differ(base: Seq<char>, a: nat, b: nat)
    requires
        1 <= a,
        1 <= b,
        candidate(base, a) == candidate(base, b),
    ensures
        a == b,
{
    text::lemma_decimal_nonempty(a);
    text::lemma_decimal_nonempty(b);
    reveal_strlit("-");
    if a >= 2 && b >= 2 {
        assert(candidate(base, a).skip(base.len() as int + 1) =~= text::decimal(a));
        assert(candidate(base, b).skip(base.len() as int + 1) =~= text::decimal(b));
        text::lemma_decimal_injective(a, b);
    }
}

/// The attempts before the `n`th cannot outnumber the names that are taken.
proof fn lemma_attempts_bounded(base: Seq<char>, taken: Seq<String>, n: nat)
    requires
        n >= 1,
        forall|k: nat| 1 <= k < n ==> is_taken(taken, #[trigger] candidate(base, k)),
    ensures
        n - 1 <= taken.len(),
{
    let names = text::texts(taken);
    let tried = Seq::new((n - 1) as nat, |k: int| candidate(base, (k + 1) as nat));
    assert(tried.no_duplicates()) by {
        assert forall|i: int, j: int| 0 <= i < tried.len() && 0 <= j < tried.len() && i != j implies tried[i]
            != tried[j] by {
            if tried[i] == tried[j] {
                lemma_candidates_differ(base, (i + 1) as nat, (j + 1) as nat);
            }
        }
    }
    tried.unique_seq_to_set();
    names.lemma_cardinality_of_set();
    assert(tried.to_set().subset_of(names.to_set())) by {
        assert forall|x: Seq<char>| tried.to_set().contains(x) implies names.to_set().contains(x) by {
            let k = choose|k: int| 0 <= k < tried.len() && tried[k] == x;
            assert(is_taken(taken, candidate(base, (k + 1) as nat)));
            let i = choose|i: int| 0 <= i < taken.len() && (#[trigger] taken[i])@ == x;
            assert(names[i] == x);
        }
    }
    vstd::set_lib::lemma_len_subset(tried.to_set(), names.to_set());
}

fn is_among(taken: &Vec<String>, name: &str) -> (r: bool)
    ensures
        r == is_taken(taken@, name@),
{
    let mut i: usize = 0;
    while i < taken.len()
        invariant
            i <= taken@.len(),
            forall|k: int| 0 <= k < i ==> (#[trigger] taken@[k])@ != name@,
        decreases taken@.len() - i,
    {
        if text::same(taken[i].as_str(), name) {
            return true;
        }
        i += 1;
    }
    false
}

/// A folder name that is not taken: `base` if it is free, else `base` with the first number from
/// two on that makes it free.
pub fn unused_name(base: &str, taken: &Vec<String>) -> (r: String)
    requires
        taken@.len() < usize::MAX,
    ensures
        exists|n: nat| first_free(base@, taken@, n) && r@ == #[trigger] candidate(base@, n),
        forall|i: int| 0 <= i < taken@.len() ==> (#[trigger] taken@[i])@ != r@,
        (forall|i: int| 0 <= i < taken@.len() ==> (#[trigger] taken@[i])@ != base@) ==> r@ == base@,
        base@.is_prefix_of(r@),
{
    let total: usize = taken.len();
    let mut name = base.to_owned();
    let mut n: u64 = 1;
    while is_among(taken, name.as_str())
        invariant
            total == taken@.len(),
            total < usize::MAX,
            1 <= n <= total + 1,
            name@ == candidate(base@, n as nat),
            forall|k: nat| 1 <= k < n ==> is_taken(taken@, #[trigger] candidate(base@, k)),
        ensures
            first_free(base@, taken@, n as nat),
            name@ == candidate(base@, n as nat),
        decreases total + 1 - n,
    {
        proof {
            assert forall|k: nat| 1 <= k < n + 1 implies is_taken(
                taken@,
                #[trigger] candidate(base@, k),
            ) by {
                if k == n {
                }
            }
            lemma_attempts_bounded(base@, taken@, (n + 1) as nat);
        }
        n = n + 1;
        name = base.to_owned();
        name.append("-");
        text::push_decimal(&mut name, n);
    }
    proof {
        law_numbered_name_reads_back(base@, n as nat);
        if n > 1 {
            assert(is_taken(taken@, candidate(base@, 1)));
        }
        assert forall|i: int| 0 <= i < taken@.len() implies (#[trigger] taken@[i])@ != name@ by {
            if taken@[i]@ == name@ {
                assert(is_taken(taken@, name@));
            }
        }
    }
    name
}

/// The folder of a new recording: named after the time at which it starts, with a number behind
/// the name where the name is taken.
pub open spec fn is_new_folder(
    home: Seq<char>,
    now: Stamp,
    taken: Seq<String>,
    folder: Seq<char>,
) -> bool {
    let base = stamp::formatted(now.secs, now.nanos, now.offset, stamp::FOLDER_FORMAT@);
    exists|n: nat|
        first_free(base, taken, n) && folder == text::joined(
            in_sori(home, "recordings"@),
            #[trigger] candidate(base, n),
        )
}

/// Whether a path is that of something with a plain name in a directory.
pub open spec fn is_plain_child(dir: Seq<char>, path: Seq<char>) -> bool {
    exists|name: Seq<char>|
        path == #[trigger] text::joined(dir, name) && name.len() > 2 && !name.contains('/')
}

/// The folder of a recording that starts now, given the names taken in the recordings directory.
pub fn new_recording_folder(home: &str, now: &Stamp, taken: &Vec<String>) -> (r: String)
    requires
        now.valid(),
        taken@.len() < usize::MAX,
    ensures
        is_new_folder(home@, *now, taken@, r@),
        is_plain_child(in_sori(home@, "recordings"@), r@),
{
    let base = stamp::format_stamp(now, stamp::FOLDER_FORMAT);
    let name = unused_name(base.as_str(), taken);
    proof {
        let n = choose|n: nat| first_free(base@, taken@, n) && name@ == #[trigger] candidate(base@, n);
        reveal_strlit("-");
        text::lemma_decimal_digits(n);
        assert forall|i: int| 0 <= i < name@.len() implies #[trigger] name@[i] != '/' by {
            if i < base@.len() {
                assert(name@[i] == base@[i]);
            } else if i > base@.len() {
                assert(name@[i] == text::decimal(n)[i - base@.len() - 1]);
            }
        }
        assert(!name@.contains('/'));
    }
    text::join(recordings_dir(home).as_str(), name.as_str())
}

/// The last component of a path, if it has one.
pub uninterp spec fn last_component(path: Seq<char>) -> Option<Seq<char>>;

/// Whether `component` is the name where a path is a directory, a slash and a plain name.
pub open spec fn is_plain_component(path: Seq<char>, component: Option<Seq<char>>) -> bool {
    forall|dir: Seq<char>, name: Seq<char>|
        path == #[trigger] text::joined(dir, name) && name.len() > 2 && !name.contains('/')
            ==> component == Some(name)
}

/// `Path::file_name` of std: the last component of a path, a function of the path.
///
/// Of a directory, a slash and a name without slashes and longer than the two special names, it
/// is that name.
#[verifier::external_body]
fn file_name(path: &str) -> (r: Option<String>)
    ensures
        text::opt_text(r) == last_component(path@),
        is_plain_component(path@, text::opt_text(r)),
{
    Path::new(path).file_name().and_then(|n| n.to_str()).map(|n| n.to_string())
}

/// What a link to `folder` from the directory beside it points at: the last component, or the
/// folder itself where there is none.
pub open spec fn link_target(folder: Seq<char>, component: Option<Seq<char>>) -> Seq<char> {
    match component {
        Some(name) => name,
        None => folder,
    }
}

/// The last component of a folder, or the folder itself where there is none.
pub fn component_or_folder(folder: &str, component: Option<String>) -> (r: String)
    ensures
        r@ == link_target(folder@, text::opt_text(component)),
{
    match component {
        Some(name) => name,
        None => folder.to_owned(),
    }
}

/// What `recordings/latest` points at for a folder.
pub fn update_latest_link(folder: &str) -> (r: String)
    ensures
        r@ == link_target(folder@, last_component(folder@)),
        is_plain_component(folder@, last_component(folder@)),
{
    component_or_folder(folder, file_name(folder))
}

/// A new folder never has a name that is taken: an earlier recording is not written over.
pub proof fn law_new_folder_is_unused(
    home: Seq<char>,
    now: Stamp,
    taken: Seq<String>,
    folder: Seq<char>,
    i: int,
)
    requires
        is_new_folder(home, now, taken, folder),
        0 <= i < taken.len(),
    ensures
        folder != text::joined(in_sori(home, "recordings"@), taken[i]@),
{
    let base = stamp::formatted(now.secs, now.nanos, now.offset, stamp::FOLDER_FORMAT@);
    let dir = in_sori(home, "recordings"@);
    let n = choose|n: nat|
        first_free(base, taken, n) && folder == text::joined(dir, #[trigger] candidate(base, n));
    let name = candidate(base, n);
    if folder == text::joined(dir, taken[i]@) {
        let start = if dir.len() == 0 || dir.last() == '/' {
            dir.len() as int
        } else {
            dir.len() as int + 1
        };
        assert(text::joined(dir, name).skip(start) =~= name);
        assert(text::joined(dir, taken[i]@).skip(start) =~= taken[i]@);
        assert(is_taken(taken, name));
    }
}

/// A link in a directory that points at the last component of a path in that directory leads
/// there.
pub proof fn law_latest_link_leads_to_the_folder(
    dir: Seq<char>,
    folder: Seq<char>,
    component: Option<Seq<char>>,
)
    requires
        is_plain_child(dir, folder),
        is_plain_component(folder, component),
    ensures
        text::joined(dir, link_target(folder, component)) == folder,
{
}

/// Securing old data touches regular files and directories alone, and leaves them private.
pub proof fn law_secured_data_is_private(named: Seq<Entry>, recordings: Seq<FolderEntry>, i: int)
    requires
        0 <= i < (files_made_private(named) + folders_made_private(recordings)).len(),
    ensures
        ({
            let change = (files_made_private(named) + folders_made_private(recordings))[i];
            ||| change.1 == PRIVATE_FILE_MODE && is_file_at(named, change.0)
            ||| change.1 == PRIVATE_FILE_MODE && exists|k: int|
                0 <= k < recordings.len() && recordings[k].entry.kind == EntryKind::Dir
                    && is_file_at((#[trigger] recordings[k]).inside@, change.0)
            ||| change.1 == PRIVATE_DIR_MODE && exists|k: int|
                0 <= k < recordings.len() && recordings[k].entry.kind == EntryKind::Dir
                    && (#[trigger] recordings[k]).entry.path@ == change.0
        }),
{
    let a = files_made_private(named);
    if i < a.len() {
        lemma_files_made_private(named, i);
    } else {
        lemma_folders_made_private(recordings, i - a.len());
    }
}

/// Whether a regular file stands at a path among some entries.
pub open spec fn is_file_at(entries: Seq<Entry>, path: Seq<char>) -> bool {
    exists|k: int|
        0 <= k < entries.len() && entries[k].kind == EntryKind::File && (#[trigger] entries[k]).path@
            == path
}

proof fn lemma_files_made_private(entries: Seq<Entry>, i: int)
    requires
        0 <= i < files_made_private(entries).len(),
    ensures
        files_made_private(entries)[i].1 == PRIVATE_FILE_MODE,
        is_file_at(entries, files_made_private(entries)[i].0),
    decreases entries.len(),
{
    let init = entries.drop_last();
    if i < files_made_private(init).len() {
        lemma_files_made_private(init, i);
        let path = files_made_private(entries)[i].0;
        let k = choose|k: int|
            0 <= k < init.len() && init[k].kind == EntryKind::File && (#[trigger] init[k]).path@
                == path;
        assert(entries[k] == init[k]);
    } else {
        assert(entries[entries.len() - 1] == entries.last());
    }
}

proof fn lemma_folders_made_private(folders: Seq<FolderEntry>, i: int)
    requires
        0 <= i < folders_made_private(folders).len(),
    ensures
        ({
            let change = folders_made_private(folders)[i];
            ||| change.1 == PRIVATE_FILE_MODE && exists|k: int|
                0 <= k < folders.len() && folders[k].entry.kind == EntryKind::Dir && is_file_at(
                    (#[trigger] folders[k]).inside@,
                    change.0,
                )
            ||| change.1 == PRIVATE_DIR_MODE && exists|k: int|
                0 <= k < folders.len() && folders[k].entry.kind == EntryKind::Dir
                    && (#[trigger] folders[k]).entry.path@ == change.0
        }),
    decreases folders.len(),
{
    let init = folders.drop_last();
    let change = folders_made_private(folders)[i];
    let n = folders_made_private(init).len();
    if i < n {
        lemma_folders_made_private(init, i);
        if change.1 == PRIVATE_FILE_MODE {
            let k = choose|k: int|
                0 <= k < init.len() && init[k].entry.kind == EntryKind::Dir && is_file_at(
                    (#[trigger] init[k]).inside@,
                    change.0,
                );
            assert(folders[k] == init[k]);
        } else {
            let k = choose|k: int|
                0 <= k < init.len() && init[k].entry.kind == EntryKind::Dir
                    && (#[trigger] init[k]).entry.path@ == change.0;
            assert(folders[k] == init[k]);
        }
    } else {
        assert(folders[folders.len() - 1] == folders.last());
        if i > n {
            lemma_files_made_private(folders.last().inside@, i - n - 1);
        }
    }
}

/// The first name that is tried is the plain one. The others are that name, a hyphen and a number
/// that reads back as the number of the attempt.
pub proof fn law_numbered_name_reads_back(base: Seq<char>, n: nat)
    ensures
        n <= 1 ==> candidate(base, n) == base,
        base.is_prefix_of(candidate(base, n)),
        n >= 2 ==> ({
            let name = candidate(base, n);
            let number = name.skip(base.len() as int + 1);
            &&& name.len() > base.len() + 1
            &&& name[base.len() as int] == '-'
            &&& text::all_digits(number)
            &&& text::digits_value(number) == n
        }),
{
    reveal_strlit("-");
    let name = candidate(base, n);
    text::law_decimal_reads_back(n);
    assert(base =~= name.subrange(0, base.len() as int));
    if n >= 2 {
        assert(name.skip(base.len() as int + 1) =~= text::decimal(n));
    }
}

/// A new folder has a name that is not taken, and every name that would have been tried before it
/// is.
pub proof fn law_no_free_name_is_passed_over(base: Seq<char>, taken: Seq<String>, n: nat)
    requires
        first_free(base, taken, n),
    ensures
        n >= 1,
        forall|i: int| 0 <= i < taken.len() ==> (#[trigger] taken[i])@ != candidate(base, n),
        forall|k: nat|
            1 <= k < n ==> exists|i: int|
                0 <= i < taken.len() && (#[trigger] taken[i])@ == #[trigger] candidate(base, k),
        n > 1 ==> exists|i: int| 0 <= i < taken.len() && (#[trigger] taken[i])@ == base,
{
    assert forall|i: int| 0 <= i < taken.len() implies (#[trigger] taken[i])@ != candidate(
        base,
        n,
    ) by {
        if taken[i]@ == candidate(base, n) {
            assert(is_taken(taken, candidate(base, n)));
        }
    }
    assert forall|k: nat| 1 <= k < n implies exists|i: int|
        0 <= i < taken.len() && (#[trigger] taken[i])@ == #[trigger] candidate(base, k) by {
        assert(is_taken(taken, candidate(base, k)));
    }
    if n > 1 {
        assert(is_taken(taken, candidate(base, 1)));
    }
}

/// Everything that the app keeps lies in one directory below the home directory.
pub proof fn law_files_lie_below_one_directory(home: Seq<char>, name: Seq<char>)
    ensures
        home.is_prefix_of(in_sori(home, name)),
        (seq!['S', 'o', 'r', 'i', '/'] + name).is_suffix_of(in_sori(home, name)),
        home.len() > 0 && home.last() != '/' ==> in_sori(home, name) == home + seq![
            '/',
            'S',
            'o',
            'r',
            'i',
            '/',
        ] + name,
{
    reveal_strlit("Sori");
    let path = in_sori(home, name);
    let tail = seq!['S', 'o', 'r', 'i', '/'] + name;
    assert(text::joined(home, "Sori"@).last() == 'i');
    assert(home =~= path.subrange(0, home.len() as int));
    assert(tail =~= path.subrange(path.len() - tail.len(), path.len() as int));
    if home.len() > 0 && home.last() != '/' {
        assert(path =~= home + seq!['/', 'S', 'o', 'r', 'i', '/'] + name);
    }
}

/// No old data is left open to others: every regular file among the named ones, every folder among
/// the recordings and every regular file in one is made private.
pub proof fn law_all_old_data_is_secured(
    named: Seq<Entry>,
    recordings: Seq<FolderEntry>,
    k: int,
    j: int,
)
    ensures
        ({
            let all = files_made_private(named) + folders_made_private(recordings);
            &&& 0 <= k < named.len() && named[k].kind == EntryKind::File ==> all.contains(
                (named[k].path@, 0o600),
            )
            &&& 0 <= k < recordings.len() && recordings[k].entry.kind == EntryKind::Dir
                ==> all.contains((recordings[k].entry.path@, 0o700))
            &&& 0 <= k < recordings.len() && recordings[k].entry.kind == EntryKind::Dir && 0 <= j
                < recordings[k].inside@.len() && recordings[k].inside@[j].kind == EntryKind::File
                ==> all.contains((recordings[k].inside@[j].path@, 0o600))
        }),
{
    let a = files_made_private(named);
    let b = folders_made_private(recordings);
    let all = a + b;
    if 0 <= k < named.len() && named[k].kind == EntryKind::File {
        lemma_file_is_made_private(named, k);
        let i = choose|i: int| 0 <= i < a.len() && a[i] == (named[k].path@, PRIVATE_FILE_MODE);
        assert(all[i] == a[i]);
    }
    if 0 <= k < recordings.len() && recordings[k].entry.kind == EntryKind::Dir {
        lemma_folder_is_made_private(recordings, k, j);
        let i = choose|i: int|
            0 <= i < b.len() && b[i] == (recordings[k].entry.path@, PRIVATE_DIR_MODE);
        assert(all[a.len() + i] == b[i]);
        if 0 <= j < recordings[k].inside@.len() && recordings[k].inside@[j].kind
            == EntryKind::File {
            let m = choose|m: int|
                0 <= m < b.len() && b[m] == (recordings[k].inside@[j].path@, PRIVATE_FILE_MODE);
            assert(all[a.len() + m] == b[m]);
        }
    }
}

proof fn lemma_file_is_made_private(entries: Seq<Entry>, k: int)
    requires
        0 <= k < entries.len(),
        entries[k].kind == EntryKind::File,
    ensures
        files_made_private(entries).contains((entries[k].path@, PRIVATE_FILE_MODE)),
    decreases entries.len(),
{
    let init = entries.drop_last();
    let all = files_made_private(entries);
    if k < init.len() {
        lemma_file_is_made_private(init, k);
        let before = files_made_private(init);
        let i = choose|i: int|
            0 <= i < before.len() && before[i] == (entries[k].path@, PRIVATE_FILE_MODE);
        assert(all[i] == before[i]);
    } else {
        assert(all[all.len() - 1] == (entries[k].path@, PRIVATE_FILE_MODE));
    }
}

proof fn lemma_folder_is_made_private(folders: Seq<FolderEntry>, k: int, j: int)
    requires
        0 <= k < folders.len(),
        folders[k].entry.kind == EntryKind::Dir,
    ensures
        folders_made_private(folders).contains((folders[k].entry.path@, PRIVATE_DIR_MODE)),
        0 <= j < folders[k].inside@.len() && folders[k].inside@[j].kind == EntryKind::File
            ==> folders_made_private(folders).contains(
            (folders[k].inside@[j].path@, PRIVATE_FILE_MODE),
        ),
    decreases folders.len(),
{
    let init = folders.drop_last();
    let all = folders_made_private(folders);
    let before = folders_made_private(init);
    let inside = folders[k].inside@;
    let wanted = 0 <= j < inside.len() && inside[j].kind == EntryKind::File;
    if k < init.len() {
        lemma_folder_is_made_private(init, k, j);
        let i = choose|i: int|
            0 <= i < before.len() && before[i] == (folders[k].entry.path@, PRIVATE_DIR_MODE);
        assert(all[i] == before[i]);
        if wanted {
            let m = choose|m: int|
                0 <= m < before.len() && before[m] == (inside[j].path@, PRIVATE_FILE_MODE);
            assert(all[m] == before[m]);
        }
    } else {
        let files = files_made_private(inside);
        assert(all[before.len() as int] == (folders[k].entry.path@, PRIVATE_DIR_MODE));
        if wanted {
            lemma_file_is_made_private(inside, j);
            let m = choose|m: int|
                0 <= m < files.len() && files[m] == (inside[j].path@, PRIVATE_FILE_MODE);
            assert(all[before.len() + 1 + m] == files[m]);
        }
    }
}

/// The link to the latest recording leads to the folder that was made for it.
pub proof fn law_latest_leads_to_the_new_folder(
    home: &str,
    now: &Stamp,
    taken: &Vec<String>,
    folder: String,
    made: &str,
    target: String,
    dir: String,
)
    requires
        now.valid(),
        taken@.len() < usize::MAX,
        call_ensures(new_recording_folder, (home, now, taken), folder),
        made@ == folder@,
        call_ensures(update_latest_link, (made,), target),
        call_ensures(recordings_dir, (home,), dir),
    ensures
        text::joined(dir@, target@) == folder@,
        forall|i: int|
            0 <= i < taken@.len() ==> folder@ != text::joined(dir@, (#[trigger] taken@[i])@),
{
    law_latest_link_leads_to_the_folder(dir@, folder@, last_component(folder@));
    assert forall|i: int| 0 <= i < taken@.len() implies folder@ != text::joined(
        dir@,
        (#[trigger] taken@[i])@,
    ) by {
        law_new_folder_is_unused(home@, *now, taken@, folder@, i);
    }
}

/// Where everything is kept.
pub proof fn law_everything_has_its_place(
    home: &str,
    recordings: String,
    latest: String,
    state: String,
    socket: String,
    hook: String,
    settings: String,
)
    requires
        call_ensures(recordings_dir, (home,), recordings),
        call_ensures(latest_link, (home,), latest),
        call_ensures(state_file, (home,), state),
        call_ensures(socket_path, (home,), socket),
        call_ensures(hook_path, (home,), hook),
        call_ensures(settings_file, (home,), settings),
    ensures
        "recordings"@.is_suffix_of(recordings@),
        "latest"@.is_suffix_of(latest@),
        recordings@.is_prefix_of(latest@),
        "state.json"@.is_suffix_of(state@),
        "sori.sock"@.is_suffix_of(socket@),
        "on-finish"@.is_suffix_of(hook@),
        "settings.json"@.is_suffix_of(settings@),
        home@.is_prefix_of(recordings@),
        home@.is_prefix_of(state@),
        home@.is_prefix_of(socket@),
        home@.is_prefix_of(hook@),
        home@.is_prefix_of(settings@),
{
    let sori = text::joined(home@, "Sori"@);
    text::law_joined_path_has_both_parts(sori, "recordings"@);
    text::law_joined_path_has_both_parts(recordings@, "latest"@);
    text::law_joined_path_has_both_parts(sori, "state.json"@);
    text::law_joined_path_has_both_parts(sori, "sori.sock"@);
    text::law_joined_path_has_both_parts(sori, "on-finish"@);
    text::law_joined_path_has_both_parts(sori, "settings.json"@);
    law_files_lie_below_one_directory(home@, "recordings"@);
    law_files_lie_below_one_directory(home@, "state.json"@);
    law_files_lie_below_one_directory(home@, "sori.sock"@);
    law_files_lie_below_one_directory(home@, "on-finish"@);
    law_files_lie_below_one_directory(home@, "settings.json"@);
}

/// The log, the lock, the state and the settings are kept private, and both directories are made,
/// the outer one first.
pub proof fn law_private_files_are_all_named(
    home: &str,
    files: Vec<String>,
    dirs: Vec<String>,
    state: String,
    settings: String,
    log: String,
    lock: String,
    outer: String,
    inner: String,
)
    requires
        call_ensures(private_files, (home,), files),
        call_ensures(ensure_dirs, (home,), dirs),
        call_ensures(state_file, (home,), state),
        call_ensures(settings_file, (home,), settings),
        call_ensures(log_file, (home,), log),
        call_ensures(lock_file, (home,), lock),
        call_ensures(sori_dir, (home,), outer),
        call_ensures(recordings_dir, (home,), inner),
    ensures
        text::texts(files@).contains(state@),
        text::texts(files@).contains(settings@),
        text::texts(files@).contains(log@),
        text::texts(files@).contains(lock@),
        "sori.log"@.is_suffix_of(log@),
        "core.lock"@.is_suffix_of(lock@),
        dirs@.len() == 2,
        dirs@[0]@ == outer@,
        dirs@[1]@ == inner@,
        outer@.is_prefix_of(inner@),
        home@.is_prefix_of(outer@),
{
    let all = text::texts(files@);
    assert(all[0] == state@ && all[1] == settings@ && all[2] == log@ && all[3] == lock@);
    let made = text::texts(dirs@);
    assert(made.len() == dirs@.len());
    assert(made[0] == dirs@[0]@ && made[1] == dirs@[1]@);
    text::law_joined_path_has_both_parts(home@, "Sori"@);
    text::law_joined_path_has_both_parts(outer@, "recordings"@);
    text::law_joined_path_has_both_parts(outer@, "sori.log"@);
    text::law_joined_path_has_both_parts(outer@, "core.lock"@);
}

/// The folder of a recording lies among the recordings and is named after the time at which it
/// starts.
pub proof fn law_new_folder_is_named_after_its_start(
    home: &str,
    now: &Stamp,
    taken: &Vec<String>,
    folder: String,
    dir: String,
) -> (name: Seq<char>)
    requires
        now.valid(),
        taken@.len() < usize::MAX,
        call_ensures(new_recording_folder, (home, now, taken), folder),
        call_ensures(recordings_dir, (home,), dir),
    ensures
        folder@ == text::joined(dir@, name),
        stamp::formatted(now.secs, now.nanos, now.offset, stamp::FOLDER_FORMAT@).is_prefix_of(name),
        (forall|i: int|
            0 <= i < taken@.len() ==> (#[trigger] taken@[i])@ != stamp::formatted(
                now.secs,
                now.nanos,
                now.offset,
                stamp::FOLDER_FORMAT@,
            )) ==> name == stamp::formatted(now.secs, now.nanos, now.offset, stamp::FOLDER_FORMAT@),
{
    let base = stamp::formatted(now.secs, now.nanos, now.offset, stamp::FOLDER_FORMAT@);
    let n = choose|n: nat|
        first_free(base, taken@, n) && folder@ == text::joined(
            in_sori(home@, "recordings"@),
            #[trigger] candidate(base, n),
        );
    law_numbered_name_reads_back(base, n);
    law_no_free_name_is_passed_over(base, taken@, n);
    candidate(base, n)
}

} // verus!
