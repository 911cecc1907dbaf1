//! Finding the interface definitions among the entries of a directory.

use vstd::prelude::*;
use vstd::string::*;

use crate::names::{carries_extension, has_extension, join, joined};

verus! {

/// One entry of a directory listing.
#[derive(Debug, PartialEq, Eq)]
pub struct Entry {
    /// The entry's name, without the directory.
    pub name: String,
    /// Whether the entry is itself a directory.
    pub is_dir: bool,
}

/// An [`Entry`] with its name as a sequence of characters.
pub struct EntryView {
    pub name: Seq<char>,
    pub is_dir: bool,
}

impl View for Entry {
    type V = EntryView;

    open spec fn view(&self) -> EntryView {
        EntryView { name: self.name@, is_dir: self.is_dir }
    }
}

impl DeepView for Entry {
    type V = EntryView;

    open spec fn deep_view(&self) -> EntryView {
        self@
    }
}

impl Clone for Entry {
    fn clone(&self) -> (r: Self)
        ensures
            r@ == self@,
    {
        Entry { name: self.name.clone(), is_dir: self.is_dir }
    }
}

/// The extension of an interface definition.
pub open spec fn proto_ext() -> Seq<char> {
    "proto"@
}

/// An entry is an input when it is no directory and its name carries the
/// extension of an interface definition.
pub open spec fn is_proto_file(entry: EntryView) -> bool {
    !entry.is_dir && has_extension(entry.name, proto_ext())
}

/// Selects the inputs among entries.
pub open spec fn is_input() -> spec_fn(EntryView) -> bool {
    |entry: EntryView| is_proto_file(entry)
}

/// Gives the path of an entry of the directory `dir`.
pub open spec fn to_path(dir: Seq<char>) -> spec_fn(EntryView) -> Seq<char> {
    |entry: EntryView| joined(dir, entry.name)
}

/// The inputs found in the directory `dir`, whose listing is `entries`: the
/// path of each entry that is an input, in the order of the listing.
pub open spec fn discovered(dir: Seq<char>, entries: Seq<EntryView>) -> Seq<Seq<char>> {
    entries.filter(is_input()).map_values(to_path(dir))
}

/// One more entry in a listing adds its path at the end if it is an input,
/// and nothing if it is not.
pub proof fn lemma_discovered_push(dir: Seq<char>, entries: Seq<EntryView>, entry: EntryView)
    ensures
        discovered(dir, entries.push(entry)) == if is_proto_file(entry) {
            discovered(dir, entries).push(joined(dir, entry.name))
        } else {
            discovered(dir, entries)
        },
{
    entries.lemma_filter_push(entry, is_input());
    if is_proto_file(entry) {
        assert(entries.filter(is_input()).push(entry).map_values(to_path(dir)) =~= discovered(
            dir,
            entries,
        ).push(joined(dir, entry.name)));
    }
}

/// Discovery selects exactly the inputs: a path is found if and only if it
/// is the path of an entry that is no directory and whose name carries the
/// extension of an interface definition; and no more paths are found than
/// there are such entries.
pub proof fn lemma_discovered_exactly(dir: Seq<char>, entries: Seq<EntryView>)
    ensures
        forall|path: Seq<char>|
            discovered(dir, entries).contains(path) <==> exists|i: int|
                0 <= i < entries.len() && is_proto_file(#[trigger] entries[i]) && path == joined(
                    dir,
                    entries[i].name,
                ),
        discovered(dir, entries).len() == entries.filter(is_input()).len(),
        discovered(dir, entries).len() <= entries.len(),
    decreases entries.len(),
{
    let found = discovered(dir, entries);
    if entries.len() == 0 {
        reveal(Seq::filter);
        assert(found =~= Seq::<Seq<char>>::empty());
    } else {
        let front = entries.drop_last();
        let entry = entries.last();
        assert(entries =~= front.push(entry));
        lemma_discovered_exactly(dir, front);
        lemma_discovered_push(dir, front, entry);
        let before = discovered(dir, front);
        assert forall|path: Seq<char>| found.contains(path) <==> exists|i: int|
            0 <= i < entries.len() && is_proto_file(#[trigger] entries[i]) && path == joined(
                dir,
                entries[i].name,
            ) by {
            if found.contains(path) {
                let k = choose|k: int| 0 <= k < found.len() && found[k] == path;
                if k < before.len() {
                    assert(before[k] == path);
                    assert(before.contains(path));
                    let i = choose|i: int|
                        0 <= i < front.len() && is_proto_file(#[trigger] front[i]) && path
                            == joined(dir, front[i].name);
                    assert(entries[i] == front[i]);
                } else {
                    assert(entries[entries.len() - 1] == entry);
                }
            }
            if exists|i: int|
                0 <= i < entries.len() && is_proto_file(#[trigger] entries[i]) && path == joined(
                    dir,
                    entries[i].name,
                ) {
                let i = choose|i: int|
                    0 <= i < entries.len() && is_proto_file(#[trigger] entries[i]) && path
                        == joined(dir, entries[i].name);
                if i < front.len() {
                    assert(front[i] == entries[i]);
                    assert(before.contains(path));
                    let k = choose|k: int| 0 <= k < before.len() && before[k] == path;
                    assert(found[k] == path);
                } else {
                    assert(found[found.len() - 1] == path);
                }
            }
        }
        entries.lemma_filter_len(is_input());
    }
}

/// Tells whether `entry` is an input.
pub fn is_proto(entry: &Entry) -> (r: bool)
    ensures
        r == is_proto_file(entry@),
{
    !entry.is_dir && carries_extension(entry.name.as_str(), "proto")
}

/// The inputs found in the directory `dir`, given its listing: the path of
/// each entry that is an input, in the order of the listing.
pub fn select_protos(dir: &str, entries: &[Entry]) -> (files: Vec<String>)
    ensures
        files.deep_view() == discovered(dir@, entries.deep_view()),
{
    let mut files: Vec<String> = Vec::new();
    let mut i: usize = 0;
    proof {
        reveal(Seq::filter);
        assert(entries.deep_view().take(0) =~= Seq::<EntryView>::empty());
        assert(discovered(dir@, Seq::<EntryView>::empty()) =~= Seq::<Seq<char>>::empty());
        assert(files.deep_view() =~= Seq::<Seq<char>>::empty());
    }
    while i < entries.len()
        invariant
            i <= entries.len(),
            files.deep_view() == discovered(dir@, entries.deep_view().take(i as int)),
        decreases entries.len() - i,
    {
        let ghost seen = entries.deep_view().take(i as int);
        let ghost kept = files.deep_view();
        proof {
            assert(entries.deep_view().take(i + 1) =~= seen.push(entries[i as int]@));
            lemma_discovered_push(dir@, seen, entries[i as int]@);
        }
        if is_proto(&entries[i]) {
            files.push(join(dir, entries[i].name.as_str()));
            assert(files.deep_view() =~= kept.push(joined(dir@, entries[i as int]@.name)));
        }
        i += 1;
    }
    assert(entries.deep_view().take(entries.len() as int) =~= entries.deep_view());
    files
}

} // verus!
