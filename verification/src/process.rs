//! Process enumeration utilities for finding KakaoTalk process
//!
//! The caller takes the snapshot of the running processes; the library picks
//! out the ones whose executable is the target. Names are compared without
//! regard to case, and the NUL padding that a fixed-size name buffer leaves
//! round a name is not part of it.

use vstd::prelude::*;
use crate::text::{chars_of, str_equal};

verus! {

/// Target executable name (case-insensitive)
pub const KAKAOTALK_EXE: &'static str = "kakaotalk.exe";

/// One entry of a process snapshot: the name of the executable, as the
/// system's buffer held it, and the process identifier.
#[derive(Clone, Debug, PartialEq, Eq)]
pub struct ProcessEntry {
    pub exe_file: String,
    pub pid: u32,
}

/// The lowercase form of a string, as `str::to_lowercase` of the standard
/// library gives it.
pub uninterp spec fn lowercase(s: Seq<char>) -> Seq<char>;

/// Number of NUL characters at the start of `s`.
pub open spec fn leading_nuls(s: Seq<char>) -> nat
    decreases s.len(),
{
    if s.len() > 0 && s[0] == '\0' {
        1 + leading_nuls(s.skip(1))
    } else {
        0
    }
}

/// Number of NUL characters at the end of `s`.
pub open spec fn trailing_nuls(s: Seq<char>) -> nat
    decreases s.len(),
{
    if s.len() > 0 && s.last() == '\0' {
        1 + trailing_nuls(s.drop_last())
    } else {
        0
    }
}

/// `s` without the NUL characters at its start and at its end.
pub open spec fn trim_nuls(s: Seq<char>) -> Seq<char> {
    if leading_nuls(s) == s.len() {
        Seq::<char>::empty()
    } else {
        s.subrange(leading_nuls(s) as int, s.len() - trailing_nuls(s))
    }
}

/// The identifiers of the entries in `entries` whose name is exactly `name`,
/// in order.
pub open spec fn pids_named(entries: Seq<ProcessEntry>, name: Seq<char>) -> Seq<u32>
    decreases entries.len(),
{
    if entries.len() == 0 {
        Seq::<u32>::empty()
    } else {
        let before = pids_named(entries.drop_last(), name);
        if entries.last().exe_file@ == name {
            before.push(entries.last().pid)
        } else {
            before
        }
    }
}

/// Whether `plain` is `entry` with its name freed of NUL padding and put in
/// lower case.
pub open spec fn is_plain_form(plain: ProcessEntry, entry: ProcessEntry) -> bool {
    plain.exe_file@ == lowercase(trim_nuls(entry.exe_file@)) && plain.pid == entry.pid
}

/// Whether `plain` is `snapshot`, entry by entry, with the names freed of
/// NUL padding and put in lower case.
pub open spec fn are_plain_forms(plain: Seq<ProcessEntry>, snapshot: Seq<ProcessEntry>) -> bool {
    plain.len() == snapshot.len() && forall|i: int|
        0 <= i < plain.len() ==> is_plain_form(#[trigger] plain[i], snapshot[i])
}

/// Whether a snapshot entry with executable name `exe_file` is a process of
/// the executable `exe_name`.
pub open spec fn names_process(exe_file: Seq<char>, exe_name: Seq<char>) -> bool {
    lowercase(trim_nuls(exe_file)) == lowercase(exe_name)
}

/// The identifiers of the processes in `snapshot` whose executable is
/// `exe_name`, in the order of the snapshot.
pub open spec fn matching_pids(snapshot: Seq<ProcessEntry>, exe_name: Seq<char>) -> Seq<u32>
    decreases snapshot.len(),
{
    if snapshot.len() == 0 {
        Seq::<u32>::empty()
    } else {
        let before = matching_pids(snapshot.drop_last(), exe_name);
        if names_process(snapshot.last().exe_file@, exe_name) {
            before.push(snapshot.last().pid)
        } else {
            before
        }
    }
}

/// Calls `str::to_lowercase` of the standard library, which returns the
/// lowercase equivalent of its argument as a new string. The contract only
/// gives that result its name.
#[verifier::external_body]
fn to_lowercase(s: &str) -> (lower: String)
    ensures
        lower@ == lowercase(s@),
{
    s.to_lowercase()
}

proof fn lemma_leading_nuls(s: Seq<char>, n: int)
    requires
        0 <= n <= s.len(),
        forall|i: int| 0 <= i < n ==> s[i] == '\0',
        n < s.len() ==> s[n] != '\0',
    ensures
        leading_nuls(s) == n,
    decreases n,
{
    if n > 0 {
        lemma_leading_nuls(s.skip(1), n - 1);
    }
}

proof fn lemma_trailing_nuls(s: Seq<char>, n: int)
    requires
        0 <= n <= s.len(),
        forall|i: int| s.len() - n <= i < s.len() ==> s[i] == '\0',
        n < s.len() ==> s[s.len() - n - 1] != '\0',
    ensures
        trailing_nuls(s) == n,
    decreases n,
{
    if n > 0 {
        lemma_trailing_nuls(s.drop_last(), n - 1);
    }
}

/// Strips the NUL characters from both ends of `s`.
pub fn trim_nul(s: &str) -> (trimmed: &str)
    ensures
        trimmed@ == trim_nuls(s@),
{
    let chars = chars_of(s);
    let n = chars.len();
    let mut from: usize = 0;
    while from < n && chars[from] == '\0'
        invariant
            from <= n == chars.len(),
            forall|i: int| 0 <= i < from ==> chars@[i] == '\0',
        decreases n - from,
    {
        from += 1;
    }
    proof {
        lemma_leading_nuls(chars@, from as int);
    }
    if from == n {
        return s.substring_char(0, 0);
    }
    let mut to: usize = n;
    while to > from && chars[to - 1] == '\0'
        invariant
            from < to <= n == chars.len(),
            chars@[from as int] != '\0',
            forall|i: int| to <= i < n ==> chars@[i] == '\0',
        decreases to,
    {
        to -= 1;
    }
    proof {
        lemma_trailing_nuls(chars@, n - to);
    }
    s.substring_char(from, to)
}

/// The identifiers of the entries whose name is exactly `name`, in order.
pub fn select_pids(entries: &Vec<ProcessEntry>, name: &str) -> (pids: Vec<u32>)
    ensures
        pids@ == pids_named(entries@, name@),
{
    let mut pids: Vec<u32> = Vec::new();
    let mut i: usize = 0;
    assert(entries@.take(0) == Seq::<ProcessEntry>::empty());
    while i < entries.len()
        invariant
            i <= entries.len(),
            pids@ == pids_named(entries@.take(i as int), name@),
        decreases entries.len() - i,
    {
        assert(entries@.take(i + 1).drop_last() == entries@.take(i as int));
        if str_equal(entries[i].exe_file.as_str(), name) {
            pids.push(entries[i].pid);
        }
        i += 1;
    }
    assert(entries@.take(entries.len() as int) == entries@);
    pids
}

/// The entries of a snapshot with their names freed of NUL padding and put
/// in lower case.
pub fn plain_entries(snapshot: &Vec<ProcessEntry>) -> (plain: Vec<ProcessEntry>)
    ensures
        are_plain_forms(plain@, snapshot@),
{
    let mut plain: Vec<ProcessEntry> = Vec::new();
    let mut i: usize = 0;
    while i < snapshot.len()
        invariant
            i <= snapshot.len(),
            are_plain_forms(plain@, snapshot@.take(i as int)),
        decreases snapshot.len() - i,
    {
        let exe_file = to_lowercase(trim_nul(snapshot[i].exe_file.as_str()));
        plain.push(ProcessEntry { exe_file, pid: snapshot[i].pid });
        i += 1;
    }
    assert(snapshot@.take(snapshot.len() as int) == snapshot@);
    plain
}

/// Picking by exact name among the plain forms is picking by name, without
/// regard to case or padding, in the snapshot.
pub proof fn lemma_pids_of_plain_forms(
    plain: Seq<ProcessEntry>,
    snapshot: Seq<ProcessEntry>,
    exe_name: Seq<char>,
)
    requires
        are_plain_forms(plain, snapshot),
    ensures
        pids_named(plain, lowercase(exe_name)) == matching_pids(snapshot, exe_name),
    decreases plain.len(),
{
    if plain.len() > 0 {
        assert(is_plain_form(plain[plain.len() - 1], snapshot[plain.len() - 1]));
        assert(are_plain_forms(plain.drop_last(), snapshot.drop_last())) by {
            assert forall|i: int| 0 <= i < plain.drop_last().len() implies is_plain_form(
                #[trigger] plain.drop_last()[i],
                snapshot.drop_last()[i],
            ) by {
                assert(is_plain_form(plain[i], snapshot[i]));
            }
        }
        lemma_pids_of_plain_forms(plain.drop_last(), snapshot.drop_last(), exe_name);
    }
}

/// Find all process IDs matching the given executable name
pub fn find_process_ids(snapshot: &Vec<ProcessEntry>, exe_name: &str) -> (pids: Vec<u32>)
    ensures
        pids@ == matching_pids(snapshot@, exe_name@),
{
    let target = to_lowercase(exe_name);
    let plain = plain_entries(snapshot);
    proof {
        lemma_pids_of_plain_forms(plain@, snapshot@, exe_name@);
    }
    select_pids(&plain, target.as_str())
}

} // verus!
