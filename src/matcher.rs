//! Picks, out of a snapshot of the running processes, those that belong to
//! a game hosted by the Java runtime.
use vstd::prelude::*;

use crate::text::{contains_ignoring_ascii_case, contains_text, occurs_in};

verus! {

/// The marker that a game's launch command line carries.
pub const MINECRAFT_MARKER: &'static str = "minecraft";

/// A process that discovery picked: its id and its executable name.
#[derive(Debug, Clone, PartialEq, Eq)]
pub struct MinecraftInfo {
    pub pid: u32,
    pub name: String,
}

impl View for MinecraftInfo {
    type V = (u32, Seq<char>);

    open spec fn view(&self) -> (u32, Seq<char>) {
        (self.pid, self.name@)
    }
}

/// One row of the process directory. A field is `None` when the directory
/// left it out or gave it in an unexpected form.
#[derive(Debug, Clone, PartialEq, Eq)]
pub struct DirectoryEntry {
    pub pid: Option<u32>,
    pub name: Option<String>,
    pub command_line: Option<String>,
}

/// The part of an executable name that marks the Java runtime (the letters
/// may come in either case).
pub open spec fn runtime_signature() -> Seq<char> {
    seq!['j', 'a', 'v', 'a']
}

/// The entry has every field, its name carries the runtime signature and its
/// command line carries `marker`.
pub open spec fn entry_matches(e: DirectoryEntry, marker: Seq<char>) -> bool {
    &&& e.pid is Some
    &&& e.name is Some
    &&& e.command_line is Some
    &&& occurs_in(e.name->0@, runtime_signature(), true)
    &&& occurs_in(e.command_line->0@, marker, false)
}

/// The record that a matching entry gives.
pub open spec fn record_of(e: DirectoryEntry) -> (u32, Seq<char>) {
    (e.pid->0, e.name->0@)
}

/// The records of the matching entries, in directory order.
pub open spec fn matched(entries: Seq<DirectoryEntry>, marker: Seq<char>) -> Seq<(u32, Seq<char>)>
    decreases entries.len(),
{
    if entries.len() == 0 {
        seq![]
    } else {
        let rest = matched(entries.drop_last(), marker);
        if entry_matches(entries.last(), marker) {
            rest.push(record_of(entries.last()))
        } else {
            rest
        }
    }
}

/// The views of a sequence of records.
pub open spec fn records(v: Seq<MinecraftInfo>) -> Seq<(u32, Seq<char>)> {
    v.map_values(|x: MinecraftInfo| x@)
}

/// The record of `e`, if it matches `marker`; an entry that lacks a field
/// gives `None`.
pub fn match_entry(e: &DirectoryEntry, marker: &str) -> (r: Option<MinecraftInfo>)
    ensures
        r is Some <==> entry_matches(*e, marker@),
        r is Some ==> r->0@ == record_of(*e),
{
    let signature = "java";
    proof {
        reveal_strlit("java");
        assert(signature@ =~= runtime_signature());
    }
    match (e.pid, &e.name, &e.command_line) {
        (Some(pid), Some(name), Some(line)) => {
            if contains_ignoring_ascii_case(name.as_str(), signature) && contains_text(
                line.as_str(),
                marker,
            ) {
                Some(MinecraftInfo { pid, name: name.clone() })
            } else {
                None
            }
        },
        _ => None,
    }
}

/// The records of the entries that match `marker`, in directory order.
/// Entries with missing fields are left out; they never stop the others.
pub fn match_processes(entries: &Vec<DirectoryEntry>, marker: &str) -> (r: Vec<MinecraftInfo>)
    ensures
        records(r@) == matched(entries@, marker@),
{
    let mut r: Vec<MinecraftInfo> = Vec::new();
    let mut i: usize = 0;
    while i < entries.len()
        invariant
            i <= entries@.len(),
            records(r@) == matched(entries@.take(i as int), marker@),
        decreases entries@.len() - i,
    {
        let found = match_entry(&entries[i], marker);
        proof {
            assert(entries@.take(i + 1).drop_last() =~= entries@.take(i as int));
            assert(entries@.take(i + 1).last() == entries@[i as int]);
        }
        match found {
            Some(info) => {
                r.push(info);
                assert(records(r@) =~= matched(entries@.take(i + 1), marker@));
            },
            None => {},
        }
        i = i + 1;
    }
    assert(entries@.take(i as int) =~= entries@);
    r
}

/// The game processes of the directory: Java runtimes whose command line
/// carries the game's marker.
pub fn find_minecrafts(entries: &Vec<DirectoryEntry>) -> (r: Vec<MinecraftInfo>)
    ensures
        records(r@) == matched(entries@, MINECRAFT_MARKER@),
{
    match_processes(entries, MINECRAFT_MARKER)
}

/// A record stands in the result of matching exactly when some entry of the
/// directory matches and gives it; entries that lack a field never do.
pub proof fn lemma_matched_is_exact_subset(entries: Seq<DirectoryEntry>, marker: Seq<char>)
    ensures
        forall|r: (u32, Seq<char>)|
            #[trigger] matched(entries, marker).contains(r) <==> exists|j: int|
                0 <= j < entries.len() && entry_matches(entries[j], marker) && record_of(
                    entries[j],
                ) == r,
        forall|j: int|
            0 <= j < entries.len() && (entries[j].pid is None || entries[j].name is None
                || entries[j].command_line is None) ==> !entry_matches(#[trigger] entries[j], marker),
    decreases entries.len(),
{
    if entries.len() > 0 {
        let init = entries.drop_last();
        lemma_matched_is_exact_subset(init, marker);
        let m = matched(entries, marker);
        let rest = matched(init, marker);
        if entry_matches(entries.last(), marker) {
            assert(m == rest.push(record_of(entries.last())));
        } else {
            assert(m == rest);
        }
        assert forall|r: (u32, Seq<char>)|
            #[trigger] m.contains(r) <==> exists|j: int|
                0 <= j < entries.len() && entry_matches(entries[j], marker) && record_of(entries[j])
                    == r by {
            if m.contains(r) {
                if matched(init, marker).contains(r) {
                    let j = choose|j: int|
                        0 <= j < init.len() && entry_matches(init[j], marker) && record_of(init[j])
                            == r;
                    assert(entries[j] == init[j]);
                } else {
                    let k = choose|k: int| 0 <= k < m.len() && m[k] == r;
                    assert(m[k] == record_of(entries.last()));
                    assert(entries[entries.len() - 1] == entries.last());
                }
            }
            if exists|j: int|
                0 <= j < entries.len() && entry_matches(entries[j], marker) && record_of(entries[j])
                    == r {
                let j = choose|j: int|
                    0 <= j < entries.len() && entry_matches(entries[j], marker) && record_of(
                        entries[j],
                    ) == r;
                if j < entries.len() - 1 {
                    assert(init[j] == entries[j]);
                    assert(rest.contains(r));
                    let k = choose|k: int| 0 <= k < rest.len() && rest[k] == r;
                    if entry_matches(entries.last(), marker) {
                        assert(m[k] == rest[k]);
                        assert(m.contains(r));
                    }
                } else {
                    assert(m[m.len() - 1] == r);
                }
            }
        }
    }
}

} // verus!
