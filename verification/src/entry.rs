//! The entries of a directory: what a listing yields, and which of them a
//! pattern selects.

use vstd::prelude::*;
use crate::path::{join, joined};
use crate::text::{is_match, name_matches};

verus! {

/// One entry of a directory, a file or a subdirectory: its name and the path
/// it has under the directory that lists it.
#[derive(Clone, Debug, PartialEq, Eq)]
pub struct DirectoryEntry {
    pub name: String,
    pub path: String,
}

/// What a [`DirectoryEntry`] stands for.
pub struct EntryView {
    pub name: Seq<char>,
    pub path: Seq<char>,
}

impl View for DirectoryEntry {
    type V = EntryView;

    open spec fn view(&self) -> EntryView {
        EntryView { name: self.name@, path: self.path@ }
    }
}

impl DeepView for DirectoryEntry {
    type V = EntryView;

    open spec fn deep_view(&self) -> EntryView {
        self@
    }
}

/// The entry that `name` is under `dir`.
pub open spec fn entry_under(dir: Seq<char>, name: Seq<char>) -> EntryView {
    EntryView { name, path: joined(dir, name) }
}

/// The entries of `dir`, given the names found in it, in the order found.
pub open spec fn listing(dir: Seq<char>, names: Seq<Seq<char>>) -> Seq<EntryView> {
    Seq::new(names.len(), |i: int| entry_under(dir, names[i]))
}

/// The test that the pattern puts to an entry: whether it selects its name.
pub open spec fn wanted(pattern: Seq<char>) -> spec_fn(EntryView) -> bool {
    |e: EntryView| name_matches(e.name, pattern)
}

/// The entries whose names the pattern selects, in their order.
pub open spec fn selected(entries: Seq<EntryView>, pattern: Seq<char>) -> Seq<EntryView> {
    entries.filter(wanted(pattern))
}

/// A pattern selects exactly the entries of the listing whose names contain
/// it, case aside.
pub proof fn law_selection_is_exact(entries: Seq<EntryView>, pattern: Seq<char>, entry: EntryView)
    ensures
        selected(entries, pattern).contains(entry) <==> entries.contains(entry) && name_matches(
            entry.name,
            pattern,
        ),
{
    let picked = selected(entries, pattern);
    if picked.contains(entry) {
        let i = choose|i: int| 0 <= i < picked.len() && picked[i] == entry;
        entries.lemma_filter_pred(wanted(pattern), i);
        entries.lemma_filter_contains_rev(wanted(pattern), entry);
    }
    if entries.contains(entry) && name_matches(entry.name, pattern) {
        let i = choose|i: int| 0 <= i < entries.len() && entries[i] == entry;
        entries.lemma_filter_contains(wanted(pattern), i);
    }
}

impl DirectoryEntry {
    /// The entry that `name` is under `dir`.
    pub fn under(dir: &str, name: &str) -> (entry: DirectoryEntry)
        ensures
            entry@ == entry_under(dir@, name@),
    {
        DirectoryEntry { name: String::from_str(name), path: join(dir, name) }
    }
}

/// Turns the names found in `dir` into its entries, keeping their order.
pub fn scan(dir: &str, names: &Vec<String>) -> (entries: Vec<DirectoryEntry>)
    ensures
        entries.deep_view() == listing(dir@, names.deep_view()),
{
    let mut entries: Vec<DirectoryEntry> = Vec::new();
    let mut i: usize = 0;
    while i < names.len()
        invariant
            i <= names.len(),
            entries.deep_view() == listing(dir@, names.deep_view()).take(i as int),
        decreases names.len() - i,
    {
        entries.push(DirectoryEntry::under(dir, names[i].as_str()));
        proof {
            let all = listing(dir@, names.deep_view());
            assert(all.take(i + 1) =~= all.take(i as int).push(all[i as int]));
        }
        i += 1;
    }
    entries
}

/// Keeps the entries whose names the pattern selects, in their order.
pub fn select(entries: Vec<DirectoryEntry>, pattern: &str) -> (picked: Vec<DirectoryEntry>)
    ensures
        picked.deep_view() == selected(entries.deep_view(), pattern@),
{
    let ghost all = entries.deep_view();
    let mut picked: Vec<DirectoryEntry> = Vec::new();
    for entry in it: entries
        invariant
            it.seq().len() == all.len(),
            forall|k: int| 0 <= k < all.len() ==> it.seq()[k]@ == all[k],
            picked.deep_view() == all.take(it.index() as int).filter(wanted(pattern@)),
    {
        proof {
            reveal(Seq::filter);
            let k = it.index() as int;
            assert(all.take(k + 1).drop_last() =~= all.take(k));
        }
        if is_match(entry.name.as_str(), pattern) {
            picked.push(entry);
        }
    }
    assert(all.take(all.len() as int) =~= all);
    picked
}

} // verus!
