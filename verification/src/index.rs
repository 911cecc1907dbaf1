//! The index of a directory of generated sources: one declaration for each
//! module found there, in the order of their names.

use vstd::prelude::*;
use vstd::seq_lib::*;
use vstd::string::*;

use crate::names::{carries_extension, has_extension, stem, strip_extension};
use crate::names::{lemma_extension_of_built_name, lemma_stem_and_extension};
use crate::order::{in_name_order, sort_names, sorted_names};
use crate::order::{lemma_sorted_names, lemma_sorted_names_of_permutation};

verus! {

/// The extension of a generated source file.
pub open spec fn source_ext() -> Seq<char> {
    "rs"@
}

/// The stem of the index file itself, which the index never declares.
pub open spec fn index_stem() -> Seq<char> {
    "mod"@
}

/// The name of the index file.
pub open spec fn index_file_name() -> Seq<char> {
    "mod.rs"@
}

/// Selects the names that carry the source extension.
pub open spec fn is_source() -> spec_fn(Seq<char>) -> bool {
    |name: Seq<char>| has_extension(name, source_ext())
}

/// Takes the source extension off a name.
pub open spec fn to_stem() -> spec_fn(Seq<char>) -> Seq<char> {
    |name: Seq<char>| stem(name, source_ext())
}

/// Selects the stems that the index declares: all but its own.
pub open spec fn is_declared() -> spec_fn(Seq<char>) -> bool {
    |module: Seq<char>| module != index_stem()
}

/// The names of `listing` that carry the source extension, as listed.
pub open spec fn source_files(listing: Seq<Seq<char>>) -> Seq<Seq<char>> {
    listing.filter(is_source())
}

/// The modules found in `listing`, as listed: the stem of each source file
/// but the index file.
pub open spec fn module_names(listing: Seq<Seq<char>>) -> Seq<Seq<char>> {
    source_files(listing).map_values(to_stem()).filter(is_declared())
}

/// The modules that the index of `listing` declares, in order.
pub open spec fn index_modules(listing: Seq<Seq<char>>) -> Seq<Seq<char>> {
    sorted_names(module_names(listing))
}

/// The line that declares `module`.
pub open spec fn declaration(module: Seq<char>) -> Seq<char> {
    "pub mod "@ + module + ";\n"@
}

/// The declarations of `modules`, one after the other.
pub open spec fn rendered(modules: Seq<Seq<char>>) -> Seq<char>
    decreases modules.len(),
{
    if modules.len() == 0 {
        Seq::empty()
    } else {
        rendered(modules.drop_last()) + declaration(modules.last())
    }
}

/// What the index file of a directory that lists `listing` holds.
pub open spec fn index_content(listing: Seq<Seq<char>>) -> Seq<char> {
    rendered(index_modules(listing))
}

/// One more name in a listing adds its module, if it has one, at the end.
pub proof fn lemma_module_names_push(listing: Seq<Seq<char>>, name: Seq<char>)
    ensures
        module_names(listing.push(name)) == if has_extension(name, source_ext()) && stem(
            name,
            source_ext(),
        ) != index_stem() {
            module_names(listing).push(stem(name, source_ext()))
        } else {
            module_names(listing)
        },
{
    listing.lemma_filter_push(name, is_source());
    let files = source_files(listing);
    if has_extension(name, source_ext()) {
        let module = stem(name, source_ext());
        assert(files.push(name).map_values(to_stem()) =~= files.map_values(to_stem()).push(
            module,
        ));
        files.map_values(to_stem()).lemma_filter_push(module, is_declared());
    }
}

/// How often the listing's modules hold `module`: as often as the listing
/// holds the source file of that module, and never for the index's own stem.
pub proof fn lemma_module_count(listing: Seq<Seq<char>>, module: Seq<char>)
    ensures
        module_names(listing).to_multiset().count(module) == if module.len() > 0 && module
            != index_stem() {
            listing.to_multiset().count(module + seq!['.'] + source_ext())
        } else {
            0
        },
    decreases listing.len(),
{
    broadcast use vstd::multiset::group_multiset_axioms;

    if listing.len() == 0 {
        lemma_module_names_empty();
        assert(listing.to_multiset().len() == 0) by {
            to_multiset_len(listing);
        }
        to_multiset_len(module_names(listing));
    } else {
        let front = listing.drop_last();
        let name = listing.last();
        assert(listing =~= front.push(name));
        lemma_module_count(front, module);
        lemma_module_names_push(front, name);
        to_multiset_build(front, name);
        if has_extension(name, source_ext()) {
            lemma_stem_and_extension(name, source_ext());
            to_multiset_build(module_names(front), stem(name, source_ext()));
        }
        if module.len() > 0 {
            lemma_extension_of_built_name(module, source_ext());
        }
    }
}

/// An empty listing has no modules.
pub proof fn lemma_module_names_empty()
    ensures
        module_names(Seq::empty()) == Seq::<Seq<char>>::empty(),
{
    reveal(Seq::filter);
    let none = Seq::<Seq<char>>::empty();
    assert(source_files(none) =~= none);
    assert(none.map_values(to_stem()) =~= none);
}

/// The index does not depend on the order in which the directory was listed:
/// two listings that hold the same names, each as often, have the same
/// modules in the same order, and so the same index content.
pub proof fn lemma_index_ignores_listing_order(a: Seq<Seq<char>>, b: Seq<Seq<char>>)
    requires
        a.to_multiset() == b.to_multiset(),
    ensures
        index_modules(a) == index_modules(b),
        index_content(a) == index_content(b),
{
    assert forall|module: Seq<char>|
        module_names(a).to_multiset().count(module) == module_names(b).to_multiset().count(
            module,
        ) by {
        lemma_module_count(a, module);
        lemma_module_count(b, module);
    }
    assert(module_names(a).to_multiset() =~= module_names(b).to_multiset());
    lemma_sorted_names_of_permutation(module_names(a), module_names(b));
}

/// The index does not count itself: a listing taken after the index file was
/// written gives the same index as one taken before.
pub proof fn lemma_index_ignores_itself(listing: Seq<Seq<char>>)
    ensures
        index_modules(listing.push(index_file_name())) == index_modules(listing),
        index_content(listing.push(index_file_name())) == index_content(listing),
{
    reveal_strlit("mod.rs");
    reveal_strlit("mod");
    reveal_strlit("rs");
    assert(index_file_name() =~= index_stem() + seq!['.'] + source_ext());
    lemma_extension_of_built_name(index_stem(), source_ext());
    lemma_module_names_push(listing, index_file_name());
}

/// The modules of an index are in order, none is the index's own stem, and
/// each is the stem of a source file of the listing.
pub proof fn lemma_index_modules(listing: Seq<Seq<char>>)
    ensures
        in_name_order(index_modules(listing)),
        forall|i: int|
            0 <= i < index_modules(listing).len() ==> (#[trigger] index_modules(listing)[i])
                != index_stem(),
        forall|i: int|
            0 <= i < index_modules(listing).len() ==> listing.contains(
                (#[trigger] index_modules(listing)[i]) + seq!['.'] + source_ext(),
            ),
{
    broadcast use vstd::multiset::group_multiset_axioms;

    lemma_sorted_names(module_names(listing));
    let modules = index_modules(listing);
    assert forall|i: int| 0 <= i < modules.len() implies (#[trigger] modules[i]) != index_stem()
        && listing.contains(modules[i] + seq!['.'] + source_ext()) by {
        let module = modules[i];
        assert(modules.contains(module));
        to_multiset_contains(modules, module);
        lemma_module_count(listing, module);
        to_multiset_contains(listing, module + seq!['.'] + source_ext());
    }
}

/// The names of `listing` that carry the source extension, as listed.
pub fn list_rs_files(listing: &[String]) -> (files: Vec<String>)
    ensures
        files.deep_view() == source_files(listing.deep_view()),
{
    let mut files: Vec<String> = Vec::new();
    let mut i: usize = 0;
    proof {
        reveal(Seq::filter);
        assert(listing.deep_view().take(0) =~= Seq::<Seq<char>>::empty());
        assert(files.deep_view() =~= Seq::<Seq<char>>::empty());
    }
    while i < listing.len()
        invariant
            i <= listing.len(),
            files.deep_view() == source_files(listing.deep_view().take(i as int)),
        decreases listing.len() - i,
    {
        let ghost seen = listing.deep_view().take(i as int);
        let ghost kept = files.deep_view();
        proof {
            assert(listing.deep_view().take(i + 1) =~= seen.push(listing[i as int]@));
            seen.lemma_filter_push(listing[i as int]@, is_source());
        }
        if carries_extension(listing[i].as_str(), "rs") {
            files.push(listing[i].clone());
            assert(files.deep_view() =~= kept.push(listing[i as int]@));
        }
        i += 1;
    }
    assert(listing.deep_view().take(listing.len() as int) =~= listing.deep_view());
    files
}

/// The modules that the index of a directory declares, in the order of
/// their names, given the names that the directory lists.
pub fn index_modules_of(listing: &[String]) -> (modules: Vec<String>)
    ensures
        modules.deep_view() == index_modules(listing.deep_view()),
        in_name_order(modules.deep_view()),
        forall|i: int| 0 <= i < modules.len() ==> (#[trigger] modules[i])@ != index_stem(),
{
    let files = list_rs_files(listing);
    let own = String::from_str("mod");
    let mut found: Vec<String> = Vec::new();
    let mut i: usize = 0;
    let ghost sources = files.deep_view();
    proof {
        reveal(Seq::filter);
        assert(sources.take(0).map_values(to_stem()) =~= Seq::<Seq<char>>::empty());
        assert(found.deep_view() =~= Seq::<Seq<char>>::empty());
    }
    while i < files.len()
        invariant
            i <= files.len(),
            own@ == index_stem(),
            sources == files.deep_view(),
            sources == source_files(listing.deep_view()),
            found.deep_view() == sources.take(i as int).map_values(to_stem()).filter(
                is_declared(),
            ),
        decreases files.len() - i,
    {
        let ghost seen = sources.take(i as int).map_values(to_stem());
        let ghost kept = found.deep_view();
        proof {
            assert(sources[i as int] == files[i as int]@);
            listing.deep_view().lemma_filter_pred(is_source(), i as int);
            assert(has_extension(files[i as int]@, source_ext()));
            assert(sources.take(i + 1).map_values(to_stem()) =~= seen.push(
                stem(files[i as int]@, source_ext()),
            ));
            seen.lemma_filter_push(stem(files[i as int]@, source_ext()), is_declared());
        }
        if let Some(module) = strip_extension(files[i].as_str(), "rs") {
            if module != own {
                found.push(module);
                assert(found.deep_view() =~= kept.push(stem(files[i as int]@, source_ext())));
            }
        }
        i += 1;
    }
    assert(sources.take(files.len() as int) =~= sources);
    let modules = sort_names(found);
    proof {
        lemma_index_modules(listing.deep_view());
        assert forall|i: int| 0 <= i < modules.len() implies (#[trigger] modules[i])@
            != index_stem() by {
            assert(modules.deep_view()[i] == modules[i]@);
        }
    }
    modules
}

/// The text of an index that declares `modules`, in the order given.
pub fn render_index(modules: &[String]) -> (text: String)
    ensures
        text@ == rendered(modules.deep_view()),
{
    let mut text = String::new();
    let mut i: usize = 0;
    assert(modules.deep_view().take(0) =~= Seq::<Seq<char>>::empty());
    while i < modules.len()
        invariant
            i <= modules.len(),
            text@ == rendered(modules.deep_view().take(i as int)),
        decreases modules.len() - i,
    {
        let ghost line = declaration(modules[i as int]@);
        let ghost so_far = text@;
        text.append("pub mod ");
        text.append(modules[i].as_str());
        text.append(";\n");
        proof {
            let next = modules.deep_view().take(i + 1);
            assert(next.drop_last() =~= modules.deep_view().take(i as int));
            assert(next.last() == modules[i as int]@);
            assert(text@ =~= so_far + line);
        }
        i += 1;
    }
    assert(modules.deep_view().take(modules.len() as int) =~= modules.deep_view());
    text
}

} // verus!
