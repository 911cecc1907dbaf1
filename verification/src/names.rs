//! File names and paths as sequences of characters.

use vstd::prelude::*;
use vstd::string::*;

verus! {

/// `name` is a non-empty stem, a dot, and then exactly `ext`.
///
/// A name that is only the dot and the extension, such as `.proto`, is a
/// hidden file without an extension, so it does not qualify.
pub open spec fn has_extension(name: Seq<char>, ext: Seq<char>) -> bool {
    &&& name.len() > ext.len() + 1
    &&& name[name.len() - ext.len() - 1] == '.'
    &&& name.skip(name.len() - ext.len()) == ext
}

/// What is left of `name` once the dot and the extension `ext` are taken off.
pub open spec fn stem(name: Seq<char>, ext: Seq<char>) -> Seq<char>
    recommends
        has_extension(name, ext),
{
    name.take(name.len() - ext.len() - 1)
}

/// The path of `name` below the directory `dir`.
pub open spec fn joined(dir: Seq<char>, name: Seq<char>) -> Seq<char> {
    dir + seq!['/'] + name
}

/// A name with the extension `ext` is its stem, a dot and `ext` again.
pub proof fn lemma_stem_and_extension(name: Seq<char>, ext: Seq<char>)
    requires
        has_extension(name, ext),
    ensures
        name == stem(name, ext) + seq!['.'] + ext,
        stem(name, ext).len() > 0,
{
    assert(name =~= stem(name, ext) + seq!['.'] + ext);
}

/// Putting a dot and `ext` behind a non-empty `base` gives a name with that
/// extension whose stem is `base`.
pub proof fn lemma_extension_of_built_name(base: Seq<char>, ext: Seq<char>)
    requires
        base.len() > 0,
    ensures
        has_extension(base + seq!['.'] + ext, ext),
        stem(base + seq!['.'] + ext, ext) == base,
{
    let name = base + seq!['.'] + ext;
    assert(name.skip(name.len() - ext.len()) =~= ext);
    assert(stem(name, ext) =~= base);
}

/// The characters of `s`, one by one.
pub fn chars_of(s: &str) -> (v: Vec<char>)
    ensures
        v@ == s@,
{
    let mut v: Vec<char> = Vec::new();
    for c in it: s.chars()
        invariant
            it.seq() == s@,
            v@ == it.seq().take(it.index() as int),
    {
        v.push(c);
    }
    v
}

/// Tells whether `name` carries the extension `ext`.
pub fn carries_extension(name: &str, ext: &str) -> (r: bool)
    ensures
        r == has_extension(name@, ext@),
{
    let n = chars_of(name);
    let e = chars_of(ext);
    if n.len() <= e.len() || n.len() - e.len() < 2 {
        return false;
    }
    let base: usize = n.len() - e.len();
    if n[base - 1] != '.' {
        return false;
    }
    let mut i: usize = 0;
    while i < e.len()
        invariant
            n@ == name@,
            e@ == ext@,
            base + e.len() == n.len(),
            i <= e.len(),
            forall|j: int| 0 <= j < i ==> n@[base + j] == e@[j],
        decreases e.len() - i,
    {
        if n[base + i] != e[i] {
            assert(n@.skip(base as int)[i as int] != e@[i as int]);
            return false;
        }
        i += 1;
    }
    assert(n@.skip(base as int) =~= e@);
    true
}

/// The stem of `name` if it carries the extension `ext`, and nothing if it
/// does not.
pub fn strip_extension(name: &str, ext: &str) -> (r: Option<String>)
    ensures
        r is Some <==> has_extension(name@, ext@),
        r is Some ==> r->Some_0@ == stem(name@, ext@),
{
    if !carries_extension(name, ext) {
        return None;
    }
    let n: usize = name.unicode_len();
    let e: usize = ext.unicode_len();
    let head = name.substring_char(0, n - e - 1);
    assert(head@ =~= stem(name@, ext@));
    Some(String::from_str(head))
}

/// A copy of each name of `names`, in the same order.
pub fn copy_names(names: &[String]) -> (r: Vec<String>)
    ensures
        r.deep_view() == names.deep_view(),
{
    let mut r: Vec<String> = Vec::new();
    let mut i: usize = 0;
    assert(names.deep_view().take(0) =~= r.deep_view());
    while i < names.len()
        invariant
            i <= names.len(),
            r.deep_view() == names.deep_view().take(i as int),
        decreases names.len() - i,
    {
        let ghost before = r.deep_view();
        r.push(names[i].clone());
        assert(r.deep_view() =~= before.push(names[i as int]@));
        assert(names.deep_view().take(i + 1) =~= before.push(names[i as int]@));
        i += 1;
    }
    assert(names.deep_view().take(names.len() as int) =~= names.deep_view());
    r
}

/// The path of `name` below `dir`: the two with a slash between them.
pub fn join(dir: &str, name: &str) -> (r: String)
    ensures
        r@ == joined(dir@, name@),
{
    let mut path = String::from_str(dir);
    path.append("/");
    path.append(name);
    proof {
        reveal_strlit("/");
        assert("/"@ =~= seq!['/']);
    }
    path
}

} // verus!
