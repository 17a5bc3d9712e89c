//! Lexicographic order on names and a verified sort.
//!
//! Frame files are numbered with zero-padded names, so sorting them
//! lexicographically recovers the intended frame order whatever order a
//! directory walk produced them in.

use vstd::prelude::*;
use vstd::relations::{sorted_by, total_ordering};
use vstd::seq_lib::{lemma_multiset_commutative, lemma_sorted_unique};
use vstd::string::StrSliceExecFns;

verus! {

broadcast use {vstd::seq_lib::group_to_multiset_ensures, vstd::multiset::group_multiset_axioms};

/// Lexicographic order on character sequences, by code point: a prefix
/// precedes its extensions, otherwise the first differing position decides.
pub open spec fn lex_le(a: Seq<char>, b: Seq<char>) -> bool
    decreases a.len(),
{
    if a.len() == 0 {
        true
    } else if b.len() == 0 {
        false
    } else if a[0] != b[0] {
        a[0] < b[0]
    } else {
        lex_le(a.drop_first(), b.drop_first())
    }
}

/// The order as a function value, for sorting specifications.
pub open spec fn lex_leq() -> spec_fn(Seq<char>, Seq<char>) -> bool {
    |a: Seq<char>, b: Seq<char>| lex_le(a, b)
}

proof fn lemma_lex_refl(a: Seq<char>)
    ensures
        lex_le(a, a),
    decreases a.len(),
{
    if a.len() > 0 {
        lemma_lex_refl(a.drop_first());
    }
}

proof fn lemma_lex_connected(a: Seq<char>, b: Seq<char>)
    ensures
        lex_le(a, b) || lex_le(b, a),
    decreases a.len(),
{
    if a.len() == 0 {
        assert(lex_le(a, b));
    } else if b.len() == 0 {
        assert(lex_le(b, a));
    } else if a[0] == b[0] {
        lemma_lex_connected(a.drop_first(), b.drop_first());
    } else {
        assert(a[0] < b[0] || b[0] < a[0]);
    }
}

proof fn lemma_lex_antisym(a: Seq<char>, b: Seq<char>)
    requires
        lex_le(a, b),
        lex_le(b, a),
    ensures
        a == b,
    decreases a.len(),
{
    if a.len() == 0 {
        assert(a =~= b);
    } else {
        assert(b.len() > 0);
        assert(a[0] == b[0]);
        lemma_lex_antisym(a.drop_first(), b.drop_first());
        assert forall|i: int| 0 <= i < a.len() implies a[i] == b[i] by {
            if i > 0 {
                assert(a[i] == a.subrange(1, a.len() as int)[i - 1]);
                assert(b[i] == b.subrange(1, b.len() as int)[i - 1]);
                assert(a.drop_first()[i - 1] == b.drop_first()[i - 1]);
            }
        }
        assert(a =~= b);
    }
}

proof fn lemma_lex_trans(a: Seq<char>, b: Seq<char>, c: Seq<char>)
    requires
        lex_le(a, b),
        lex_le(b, c),
    ensures
        lex_le(a, c),
    decreases a.len(),
{
    if a.len() > 0 && b.len() > 0 && c.len() > 0 && a[0] == b[0] && b[0] == c[0] {
        lemma_lex_trans(a.drop_first(), b.drop_first(), c.drop_first());
    }
}

/// Law: the lexicographic order is a total ordering, so sorting by it has a
/// single possible outcome.
pub proof fn lemma_lex_total_ordering()
    ensures
        total_ordering(lex_leq()),
{
    assert forall|a: Seq<char>| #[trigger] lex_leq()(a, a) by {
        lemma_lex_refl(a);
    }
    assert forall|a: Seq<char>, b: Seq<char>|
        #[trigger] lex_leq()(a, b) && #[trigger] lex_leq()(b, a) implies a == b by {
        lemma_lex_antisym(a, b);
    }
    assert forall|a: Seq<char>, b: Seq<char>, c: Seq<char>|
        #[trigger] lex_leq()(a, b) && #[trigger] lex_leq()(b, c) implies lex_leq()(a, c) by {
        lemma_lex_trans(a, b, c);
    }
    assert forall|a: Seq<char>, b: Seq<char>| #[trigger] lex_leq()(a, b) || #[trigger] lex_leq()(
        b,
        a,
    ) by {
        lemma_lex_connected(a, b);
    }
}

proof fn lemma_lex_skip(a: Seq<char>, b: Seq<char>, i: int)
    requires
        0 <= i <= a.len(),
        i <= b.len(),
        forall|j: int| 0 <= j < i ==> a[j] == b[j],
    ensures
        lex_le(a, b) == lex_le(a.skip(i), b.skip(i)),
    decreases i,
{
    if i > 0 {
        assert(a[0] == b[0]);
        lemma_lex_skip(a.drop_first(), b.drop_first(), i - 1);
        assert(a.drop_first().skip(i - 1) =~= a.skip(i));
        assert(b.drop_first().skip(i - 1) =~= b.skip(i));
    } else {
        assert(a.skip(0) =~= a);
        assert(b.skip(0) =~= b);
    }
}

/// Decides the lexicographic order on two strings.
pub fn str_lex_le(a: &str, b: &str) -> (r: bool)
    ensures
        r == lex_le(a@, b@),
{
    let alen = a.unicode_len();
    let blen = b.unicode_len();
    let mut i: usize = 0;
    while i < alen && i < blen
        invariant
            alen == a@.len(),
            blen == b@.len(),
            i <= alen,
            i <= blen,
            forall|j: int| 0 <= j < i ==> a@[j] == b@[j],
        decreases alen - i,
    {
        let ca = a.get_char(i);
        let cb = b.get_char(i);
        if ca != cb {
            proof {
                lemma_lex_skip(a@, b@, i as int);
            }
            return ca < cb;
        }
        i = i + 1;
    }
    proof {
        lemma_lex_skip(a@, b@, i as int);
    }
    alen <= blen
}

/// The character sequences of a sequence of strings.
pub open spec fn views(s: Seq<String>) -> Seq<Seq<char>> {
    s.map_values(|x: String| x@)
}

fn insert_sorted(out: &mut Vec<String>, x: String)
    requires
        sorted_by(views(old(out)@), lex_leq()),
    ensures
        sorted_by(views(final(out)@), lex_leq()),
        views(final(out)@).to_multiset() == views(old(out)@).to_multiset().insert(x@),
        final(out)@.len() == old(out)@.len() + 1,
{
    let mut k: usize = 0;
    while k < out.len() && str_lex_le(out[k].as_str(), x.as_str())
        invariant
            sorted_by(views(out@), lex_leq()),
            k <= out@.len(),
            *out == *old(out),
            forall|j: int| 0 <= j < k ==> lex_le(#[trigger] views(out@)[j], x@),
        decreases out@.len() - k,
    {
        k = k + 1;
    }
    proof {
        if k < out@.len() {
            lemma_lex_connected(views(out@)[k as int], x@);
        }
    }
    let ghost u = views(out@);
    out.insert(k, x);
    proof {
        let w = views(out@);
        let ki = k as int;
        assert(w =~= u.insert(ki, x@)) by {
            assert(out@ == old(out)@.insert(ki, x));
            assert forall|j: int| 0 <= j < w.len() implies w[j] == u.insert(ki, x@)[j] by {
                assert(w[j] == out@[j]@);
            }
        }
        // Every element before the insertion point is at most `x`, every one
        // at or after it is at least `x`, so the result stays sorted.
        assert forall|i: int, j: int| 0 <= i < j < w.len() implies #[trigger] lex_leq()(
            w[i],
            w[j],
        ) by {
            if j < ki {
                assert(lex_leq()(u[i], u[j]));
            } else if i < ki && j == ki {
                assert(lex_le(u[i], x@));
            } else if i < ki && j > ki {
                assert(lex_leq()(u[i], u[j - 1]));
            } else if i == ki {
                assert(lex_le(x@, u[ki]));
                if j - 1 > ki {
                    assert(lex_leq()(u[ki], u[j - 1]));
                    lemma_lex_trans(x@, u[ki], u[j - 1]);
                }
            } else {
                assert(lex_leq()(u[i - 1], u[j - 1]));
            }
        }
        // The new contents are the old contents plus `x`.
        assert(u.take(ki) =~= u.subrange(0, ki));
        assert(u.skip(ki) =~= u.subrange(ki, u.len() as int));
        assert(u =~= u.subrange(0, ki) + u.subrange(ki, u.len() as int));
        lemma_multiset_commutative(u.subrange(0, ki).push(x@), u.subrange(ki, u.len() as int));
        lemma_multiset_commutative(u.subrange(0, ki), u.subrange(ki, u.len() as int));
        assert(w.to_multiset() =~= u.to_multiset().insert(x@));
    }
}

/// Sorts names lexicographically. The result is the unique sorted
/// arrangement of the given names.
pub fn sort_names(v: &Vec<String>) -> (r: Vec<String>)
    ensures
        views(r@) == views(v@).sort_by(lex_leq()),
        r@.len() == v@.len(),
{
    let mut out: Vec<String> = Vec::new();
    let mut i: usize = 0;
    while i < v.len()
        invariant
            i <= v@.len(),
            out@.len() == i,
            sorted_by(views(out@), lex_leq()),
            views(out@).to_multiset() == views(v@.take(i as int)).to_multiset(),
        decreases v@.len() - i,
    {
        let x = v[i].clone();
        proof {
            let prefix = views(v@.take(i as int));
            assert(views(v@.take(i + 1)) =~= prefix.push(v@[i as int]@));
        }
        insert_sorted(&mut out, x);
        i = i + 1;
    }
    proof {
        assert(v@.take(v@.len() as int) =~= v@);
        lemma_lex_total_ordering();
        views(v@).lemma_sort_by_ensures(lex_leq());
        lemma_sorted_unique(views(out@), views(v@).sort_by(lex_leq()), lex_leq());
        assert(views(out@) =~= views(v@).sort_by(lex_leq()));
        assert(views(out@).len() == out@.len());
        assert(views(v@).len() == v@.len());
        views(v@).lemma_sort_by_ensures(lex_leq());
    }
    out
}

} // verus!
