//! The order in which names are listed: character by character, by code
//! point, a proper prefix before what extends it. On the UTF-8 bytes of the
//! names this is plain byte order; case and locale play no part.

use vstd::prelude::*;
use vstd::relations::*;
use vstd::seq_lib::*;
use vstd::string::*;
use vstd::std_specs::iter::IteratorSpec;

use crate::byte_order::{bytes_le, lemma_name_order_is_byte_order};

verus! {

/// `a` comes no later than `b`.
pub open spec fn name_le(a: Seq<char>, b: Seq<char>) -> bool
    decreases a.len(),
{
    if a.len() == 0 {
        true
    } else if b.len() == 0 {
        false
    } else if a[0] == b[0] {
        name_le(a.drop_first(), b.drop_first())
    } else {
        (a[0] as u32) < (b[0] as u32)
    }
}

/// [`name_le`] as a relation, for the sequence library.
pub open spec fn name_order() -> spec_fn(Seq<char>, Seq<char>) -> bool {
    |a: Seq<char>, b: Seq<char>| name_le(a, b)
}

/// No name of `names` comes before one that stands earlier.
pub open spec fn in_name_order(names: Seq<Seq<char>>) -> bool {
    forall|i: int, j: int| 0 <= i < j < names.len() ==> name_le(names[i], names[j])
}

/// The names of `names`, each as often as it occurs there, in order.
pub open spec fn sorted_names(names: Seq<Seq<char>>) -> Seq<Seq<char>> {
    names.sort_by(name_order())
}

/// Characters that differ have code points that differ.
pub proof fn lemma_code_points_differ(c: char, d: char)
    requires
        c != d,
    ensures
        (c as u32) != (d as u32),
{
    vstd::utf8::char_u32_cast(c, c as u32);
    vstd::utf8::char_u32_cast(d, d as u32);
}

/// A name comes no later than itself.
pub proof fn lemma_name_le_reflexive(a: Seq<char>)
    ensures
        name_le(a, a),
    decreases a.len(),
{
    if a.len() > 0 {
        lemma_name_le_reflexive(a.drop_first());
    }
}

/// Two names that each come no later than the other are the same name.
pub proof fn lemma_name_le_antisymmetric(a: Seq<char>, b: Seq<char>)
    requires
        name_le(a, b),
        name_le(b, a),
    ensures
        a == b,
    decreases a.len(),
{
    if a.len() == 0 || b.len() == 0 {
        assert(a =~= b);
    } else {
        lemma_name_le_antisymmetric(a.drop_first(), b.drop_first());
        assert(a =~= seq![a[0]] + a.drop_first());
        assert(b =~= seq![b[0]] + b.drop_first());
    }
}

/// What comes no later than a name comes no later than any name behind it.
pub proof fn lemma_name_le_transitive(a: Seq<char>, b: Seq<char>, c: Seq<char>)
    requires
        name_le(a, b),
        name_le(b, c),
    ensures
        name_le(a, c),
    decreases a.len(),
{
    if a.len() > 0 && a[0] == b[0] && b[0] == c[0] {
        lemma_name_le_transitive(a.drop_first(), b.drop_first(), c.drop_first());
    }
}

/// Of two names, one comes no later than the other.
pub proof fn lemma_name_le_total(a: Seq<char>, b: Seq<char>)
    ensures
        name_le(a, b) || name_le(b, a),
    decreases a.len(),
{
    if a.len() > 0 && b.len() > 0 {
        if a[0] == b[0] {
            lemma_name_le_total(a.drop_first(), b.drop_first());
        } else {
            lemma_code_points_differ(a[0], b[0]);
        }
    }
}

/// The order of names is total: any two names compare, and only equal names
/// compare both ways.
pub proof fn lemma_name_order_total()
    ensures
        total_ordering(name_order()),
{
    let r = name_order();
    assert forall|a: Seq<char>| #[trigger] r(a, a) by {
        lemma_name_le_reflexive(a);
    }
    assert forall|a: Seq<char>, b: Seq<char>| #[trigger] r(a, b) && #[trigger] r(b, a) implies a
        == b by {
        lemma_name_le_antisymmetric(a, b);
    }
    assert forall|a: Seq<char>, b: Seq<char>, c: Seq<char>| #[trigger] r(a, b) && #[trigger] r(
        b,
        c,
    ) implies r(a, c) by {
        lemma_name_le_transitive(a, b, c);
    }
    assert forall|a: Seq<char>, b: Seq<char>| #[trigger] r(a, b) || #[trigger] r(b, a) by {
        lemma_name_le_total(a, b);
    }
}

/// [`sorted_names`] is in order and keeps every name as often as it occurs.
pub proof fn lemma_sorted_names(names: Seq<Seq<char>>)
    ensures
        in_name_order(sorted_names(names)),
        sorted_names(names).to_multiset() == names.to_multiset(),
        sorted_names(names).len() == names.len(),
{
    lemma_name_order_total();
    names.lemma_sort_by_ensures(name_order());
    let s = sorted_names(names);
    assert forall|i: int, j: int| 0 <= i < j < s.len() implies name_le(s[i], s[j]) by {
        assert(name_order()(s[i], s[j]));
    }
    to_multiset_len(s);
    to_multiset_len(names);
}

/// There is one way only to put names in order: a sequence in order that
/// holds the names of `names`, each as often, is `sorted_names(names)`.
pub proof fn lemma_sorted_names_unique(ordered: Seq<Seq<char>>, names: Seq<Seq<char>>)
    requires
        in_name_order(ordered),
        ordered.to_multiset() == names.to_multiset(),
    ensures
        ordered == sorted_names(names),
{
    lemma_name_order_total();
    lemma_sorted_names(names);
    let s = sorted_names(names);
    assert(sorted_by(ordered, name_order()));
    assert(sorted_by(s, name_order()));
    lemma_sorted_unique(ordered, s, name_order());
}

/// The order in which names are given does not show in the result.
pub proof fn lemma_sorted_names_of_permutation(a: Seq<Seq<char>>, b: Seq<Seq<char>>)
    requires
        a.to_multiset() == b.to_multiset(),
    ensures
        sorted_names(a) == sorted_names(b),
{
    lemma_sorted_names(a);
    lemma_sorted_names_unique(sorted_names(a), b);
}

/// Tells whether the code point of `c` is below that of `d`.
fn code_point_lt(c: char, d: char) -> (r: bool)
    ensures
        r == ((c as u32) < (d as u32)),
{
    c < d
}

/// Tells whether `a` comes no later than `b`: by code points, which is to
/// say by the bytes of the two strings.
pub fn precedes(a: &str, b: &str) -> (r: bool)
    ensures
        r == name_le(a@, b@),
        r == bytes_le(a.spec_bytes(), b.spec_bytes()),
{
    proof {
        lemma_name_order_is_byte_order(a@, b@);
    }
    let mut rest = b.chars();
    assert(a@.skip(0) =~= a@ && b@.skip(0) =~= b@);
    for ca in it: a.chars()
        invariant
            it.seq() == a@,
            rest.remaining() == b@.skip(it.index() as int),
            it.index() <= b@.len(),
            name_le(a@, b@) == name_le(a@.skip(it.index() as int), b@.skip(it.index() as int)),
            name_le(a@, b@) == bytes_le(a.spec_bytes(), b.spec_bytes()),
    {
        let ghost k = it.index() as int;
        assert(a@.skip(k).drop_first() =~= a@.skip(k + 1));
        assert(b@.skip(k).len() > 0 ==> b@.skip(k).drop_first() =~= b@.skip(k + 1));
        match rest.next() {
            None => {
                return false;
            },
            Some(cb) => {
                if ca != cb {
                    return code_point_lt(ca, cb);
                }
            },
        }
    }
    true
}

/// Puts `names` in order: the result holds the same names, each as often,
/// and none of them before one that stands earlier.
pub fn sort_names(names: Vec<String>) -> (r: Vec<String>)
    ensures
        r.deep_view() == sorted_names(names.deep_view()),
        in_name_order(r.deep_view()),
        r.deep_view().to_multiset() == names.deep_view().to_multiset(),
{
    let ghost given = names.deep_view();
    let mut todo = names;
    let mut done: Vec<String> = Vec::new();
    assert(done.deep_view() =~= Seq::<Seq<char>>::empty());
    assert(todo.deep_view() + done.deep_view() =~= given);
    while todo.len() > 0
        invariant
            in_name_order(done.deep_view()),
            (todo.deep_view() + done.deep_view()).to_multiset() == given.to_multiset(),
        decreases todo.len(),
    {
        let ghost before = todo.deep_view() + done.deep_view();
        let ghost placed = done.deep_view();
        let name = todo.pop().unwrap();
        let mut at: usize = 0;
        while at < done.len() && precedes(done[at].as_str(), name.as_str())
            invariant
                at <= done.len(),
                done.deep_view() == placed,
                forall|j: int| 0 <= j < at ==> name_le(placed[j], name@),
            decreases done.len() - at,
        {
            at += 1;
        }
        done.insert(at, name);
        proof {
            let grown = placed.insert(at as int, name@);
            assert(done.deep_view() =~= grown);
            assert forall|i: int, j: int| 0 <= i < j < grown.len() implies name_le(
                grown[i],
                grown[j],
            ) by {
                if j == at {
                } else if i == at {
                    lemma_name_le_total(placed[at as int], name@);
                    if j - 1 > at {
                        lemma_name_le_transitive(name@, placed[at as int], placed[j - 1]);
                    }
                } else {
                    let pi = if i < at { i } else { i - 1 };
                    let pj = if j < at { j } else { j - 1 };
                    assert(name_le(placed[pi], placed[pj]));
                }
            }
            let left = todo.deep_view();
            assert(before =~= (left + placed).insert(left.len() as int, name@));
            assert(left + grown =~= (left + placed).insert(left.len() + at, name@));
            to_multiset_insert(left + placed, left.len() as int, name@);
            to_multiset_insert(left + placed, left.len() + at, name@);
        }
    }
    proof {
        assert(todo.deep_view() + done.deep_view() =~= done.deep_view());
        lemma_sorted_names_unique(done.deep_view(), given);
    }
    done
}

} // verus!
