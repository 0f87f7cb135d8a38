use vstd::prelude::*;
use vstd::multiset::Multiset;
use vstd::relations::{sorted_by, total_ordering};
use vstd::string::StrSliceExecFns;

use crate::strutil::{lemma_strs_deep, strs_deep};
use crate::value::DVal;

verus! {

/// Lexicographic order on character sequences, by code point.
pub open spec fn lex_le(a: Seq<char>, b: Seq<char>) -> bool
    decreases a.len(),
{
    if a.len() == 0 {
        true
    } else if b.len() == 0 {
        false
    } else if a[0] != b[0] {
        (a[0] as u32) < (b[0] as u32)
    } else {
        lex_le(a.drop_first(), b.drop_first())
    }
}

/// The order as a function value, for sortedness statements.
pub open spec fn lex_leq() -> spec_fn(Seq<char>, Seq<char>) -> bool {
    |x: Seq<char>, y: Seq<char>| lex_le(x, y)
}

pub proof fn lemma_lex_refl(a: Seq<char>)
    ensures
        lex_le(a, a),
    decreases a.len(),
{
    if a.len() > 0 {
        lemma_lex_refl(a.drop_first());
    }
}

pub proof fn lemma_lex_connected(a: Seq<char>, b: Seq<char>)
    ensures
        lex_le(a, b) || lex_le(b, a),
    decreases a.len(),
{
    if a.len() > 0 && b.len() > 0 {
        if a[0] == b[0] {
            lemma_lex_connected(a.drop_first(), b.drop_first());
        } else {
            if (a[0] as u32) == (b[0] as u32) {
                vstd::utf8::char_u32_cast(a[0], a[0] as u32);
                vstd::utf8::char_u32_cast(b[0], b[0] as u32);
            }
        }
    }
}

pub proof fn lemma_lex_antisym(a: Seq<char>, b: Seq<char>)
    requires
        lex_le(a, b),
        lex_le(b, a),
    ensures
        a == b,
    decreases a.len(),
{
    if a.len() == 0 {
        assert(b.len() == 0);
        assert(a =~= b);
    } else {
        assert(a[0] == b[0]);
        lemma_lex_antisym(a.drop_first(), b.drop_first());
        assert(a =~= seq![a[0]] + a.drop_first());
        assert(b =~= seq![b[0]] + b.drop_first());
    }
}

pub proof fn lemma_lex_trans(a: Seq<char>, b: Seq<char>, c: Seq<char>)
    requires
        lex_le(a, b),
        lex_le(b, c),
    ensures
        lex_le(a, c),
    decreases a.len(),
{
    if a.len() > 0 && b.len() > 0 && c.len() > 0 && a[0] == b[0] && b[0] == c[0] {
        lemma_lex_trans(a.drop_first(), b.drop_first(), c.drop_first());
    }
}

/// The lexicographic order is a total ordering.
pub proof fn lemma_lex_total_ordering()
    ensures
        total_ordering(lex_leq()),
{
    let leq = lex_leq();
    assert forall|a: Seq<char>| #[trigger] leq(a, a) by { lemma_lex_refl(a) };
    assert forall|a: Seq<char>, b: Seq<char>| #[trigger] leq(a, b) && #[trigger] leq(b, a)
        implies a == b by { lemma_lex_antisym(a, b) };
    assert forall|a: Seq<char>, b: Seq<char>, c: Seq<char>|
        #[trigger] leq(a, b) && #[trigger] leq(b, c) implies leq(a, c) by {
        lemma_lex_trans(a, b, c)
    };
    assert forall|a: Seq<char>, b: Seq<char>| #[trigger] leq(a, b) || #[trigger] leq(b, a) by {
        lemma_lex_connected(a, b)
    };
}

proof fn lemma_lex_skip(a: Seq<char>, b: Seq<char>, i: int)
    requires
        0 <= i <= a.len(),
        i <= b.len(),
        forall|j: int| 0 <= j < i ==> a[j] == b[j],
    ensures
        lex_le(a, b) == lex_le(a.skip(i), b.skip(i)),
    decreases i,
{
    if i == 0 {
        assert(a.skip(0) =~= a);
        assert(b.skip(0) =~= b);
    } else {
        assert(a.len() > 0 && b.len() > 0 && a[0] == b[0]);
        assert(a.drop_first().skip(i - 1) =~= a.skip(i));
        assert(b.drop_first().skip(i - 1) =~= b.skip(i));
        lemma_lex_skip(a.drop_first(), b.drop_first(), i - 1);
    }
}

/// Decides the lexicographic order on two strings.
pub fn lex_le_str(a: &str, b: &str) -> (r: bool)
    ensures
        r == lex_le(a@, b@),
{
    let alen = a.unicode_len();
    let blen = b.unicode_len();
    let mut i: usize = 0;
    loop
        invariant
            0 <= i,
            i <= alen,
            i <= blen,
            alen == a@.len(),
            blen == b@.len(),
            forall|j: int| 0 <= j < i ==> a@[j] == b@[j],
        decreases alen - i,
    {
        if i >= alen {
            proof {
                lemma_lex_skip(a@, b@, i as int);
            }
            return true;
        }
        if i >= blen {
            proof {
                lemma_lex_skip(a@, b@, i as int);
            }
            return false;
        }
        let ca = a.get_char(i);
        let cb = b.get_char(i);
        if ca != cb {
            proof {
                lemma_lex_skip(a@, b@, i as int);
            }
            return (ca as u32) < (cb as u32);
        }
        i += 1;
    }
}

/// The keys of an object's field list, in order.
pub open spec fn obj_keys_of(f: Seq<(Seq<char>, DVal)>) -> Seq<Seq<char>> {
    Seq::new(f.len(), |i: int| f[i].0)
}

/// Whether the keys of an object's field list are pairwise distinct.
pub open spec fn unique_keys(f: Seq<(Seq<char>, DVal)>) -> bool {
    forall|i: int, j: int| 0 <= i < j < f.len() ==> f[i].0 != f[j].0
}

/// Inserts `x` into a sequence, before the first element that is at least `x`.
pub open spec fn lex_ins(s: Seq<Seq<char>>, x: Seq<char>) -> Seq<Seq<char>>
    decreases s.len(),
{
    if s.len() == 0 {
        seq![x]
    } else if lex_le(x, s.first()) {
        seq![x] + s
    } else {
        seq![s.first()] + lex_ins(s.drop_first(), x)
    }
}

/// Sorts a sequence by repeated insertion.
pub open spec fn lex_sort(s: Seq<Seq<char>>) -> Seq<Seq<char>>
    decreases s.len(),
{
    if s.len() == 0 {
        Seq::empty()
    } else {
        lex_ins(lex_sort(s.drop_last()), s.last())
    }
}

pub proof fn lemma_lex_ins_sorted(s: Seq<Seq<char>>, x: Seq<char>)
    requires
        sorted_by(s, lex_leq()),
    ensures
        sorted_by(lex_ins(s, x), lex_leq()),
        lex_ins(s, x).to_multiset() == s.to_multiset().insert(x),
        lex_ins(s, x).len() == s.len() + 1,
    decreases s.len(),
{
    broadcast use vstd::seq_lib::group_to_multiset_ensures;

    let r = lex_ins(s, x);
    if s.len() == 0 {
        assert(r =~= Seq::empty().push(x));
        assert(r.to_multiset() =~= s.to_multiset().insert(x));
    } else if lex_le(x, s.first()) {
        assert(r =~= (seq![x] + s));
        assert forall|i: int, j: int| 0 <= i < j < r.len() implies lex_leq()(r[i], r[j]) by {
            if i == 0 {
                if j == 0 {
                } else {
                    lemma_lex_trans_first(s, x, j - 1);
                }
            } else {
                assert(lex_leq()(s[i - 1], s[j - 1]));
            }
        }
        lemma_seq_to_multiset_cons(s, x);
    } else {
        lemma_lex_connected(x, s.first());
        assert(lex_le(s.first(), x));
        let t = lex_ins(s.drop_first(), x);
        assert(r =~= seq![s.first()] + t);
        if s.len() > 1 {
            assert(sorted_by(s.drop_first(), lex_leq())) by {
                assert(forall|i: int, j: int|
                    0 <= i < j < s.drop_first().len() ==> lex_leq()(
                        s.drop_first()[i],
                        s.drop_first()[j],
                    ));
            }
        }
        lemma_lex_ins_sorted(s.drop_first(), x);
        assert forall|i: int, j: int| 0 <= i < j < r.len() implies lex_leq()(r[i], r[j]) by {
            if i == 0 {
                // the head is at most every element of the inserted tail
                assert forall|k: int| 0 <= k < s.drop_first().len() implies lex_le(
                    s.first(),
                    s.drop_first()[k],
                ) by {
                    assert(lex_leq()(s[0], s[k + 1]));
                }
                lemma_lex_ins_head_bound(s.drop_first(), x, s.first(), j - 1);
            } else {
                assert(lex_leq()(t[i - 1], t[j - 1]));
            }
        }
        lemma_seq_to_multiset_cons(t, s.first());
        lemma_seq_to_multiset_cons(s.drop_first(), s.first());
        assert(s =~= seq![s.first()] + s.drop_first());
        assert(r.to_multiset() =~= s.to_multiset().insert(x));
    }
}

/// The head stays a lower bound after inserting a larger element.
proof fn lemma_lex_ins_head_bound(s: Seq<Seq<char>>, x: Seq<char>, h: Seq<char>, j: int)
    requires
        sorted_by(s, lex_leq()),
        forall|k: int| 0 <= k < s.len() ==> lex_le(h, s[k]),
        lex_le(h, x),
        0 <= j < lex_ins(s, x).len(),
    ensures
        lex_le(h, lex_ins(s, x)[j]),
    decreases s.len(),
{
    if s.len() == 0 {
    } else if lex_le(x, s.first()) {
    } else {
        if j == 0 {
        } else {
            if s.len() > 1 {
                assert(sorted_by(s.drop_first(), lex_leq())) by {
                    assert(forall|i: int, k: int|
                        0 <= i < k < s.drop_first().len() ==> lex_leq()(
                            s.drop_first()[i],
                            s.drop_first()[k],
                        ));
                }
            }
            lemma_lex_connected(x, s.first());
            lemma_lex_ins_head_bound(s.drop_first(), x, h, j - 1);
        }
    }
}

/// An ordered head below a sorted tail: `x <= s[0] <= s[j]`.
proof fn lemma_lex_trans_first(s: Seq<Seq<char>>, x: Seq<char>, j: int)
    requires
        sorted_by(s, lex_leq()),
        s.len() > 0,
        lex_le(x, s.first()),
        0 <= j < s.len(),
    ensures
        lex_le(x, s[j]),
{
    if j > 0 {
        assert(lex_leq()(s[0], s[j]));
        lemma_lex_trans(x, s[0], s[j]);
    }
}

/// `to_multiset` of a cons.
proof fn lemma_seq_to_multiset_cons(s: Seq<Seq<char>>, x: Seq<char>)
    ensures
        (seq![x] + s).to_multiset() == s.to_multiset().insert(x),
    decreases s.len(),
{
    broadcast use vstd::seq_lib::group_to_multiset_ensures;

    vstd::seq_lib::lemma_multiset_commutative(seq![x], s);
    assert(seq![x].to_multiset() =~= Multiset::empty().insert(x)) by {
        assert(seq![x] =~= Seq::empty().push(x));
    }
    assert((seq![x] + s).to_multiset() =~= s.to_multiset().insert(x));
}

/// The sort is sorted and a permutation.
pub proof fn lemma_lex_sort_ensures(s: Seq<Seq<char>>)
    ensures
        sorted_by(lex_sort(s), lex_leq()),
        lex_sort(s).to_multiset() == s.to_multiset(),
        lex_sort(s).len() == s.len(),
    decreases s.len(),
{
    broadcast use vstd::seq_lib::group_to_multiset_ensures;

    if s.len() > 0 {
        lemma_lex_sort_ensures(s.drop_last());
        lemma_lex_ins_sorted(lex_sort(s.drop_last()), s.last());
        assert(s =~= s.drop_last().push(s.last()));
        assert(s.drop_last().push(s.last()).to_multiset() == s.drop_last().to_multiset().insert(
            s.last(),
        ));
    }
}

/// Sorted permutations are unique: two sorted sequences with the same
/// multiset of elements are equal.
pub proof fn lemma_lex_sorted_unique(x: Seq<Seq<char>>, y: Seq<Seq<char>>)
    requires
        sorted_by(x, lex_leq()),
        sorted_by(y, lex_leq()),
        x.to_multiset() == y.to_multiset(),
    ensures
        x == y,
{
    lemma_lex_total_ordering();
    vstd::seq_lib::lemma_sorted_unique(x, y, lex_leq());
}

/// The characterization of `lex_ins` as take/insert/skip, at the first
/// position whose element is at least `x`.
proof fn lemma_lex_ins_at(s: Seq<Seq<char>>, x: Seq<char>, pos: int)
    requires
        0 <= pos <= s.len(),
        forall|j: int| 0 <= j < pos ==> !lex_le(x, s[j]),
        pos < s.len() ==> lex_le(x, s[pos]),
    ensures
        lex_ins(s, x) == s.take(pos) + seq![x] + s.skip(pos),
    decreases s.len(),
{
    if s.len() == 0 {
        assert(lex_ins(s, x) =~= s.take(0) + seq![x] + s.skip(0));
    } else if lex_le(x, s.first()) {
        assert(pos == 0);
        assert(s.skip(0) =~= s);
        assert(lex_ins(s, x) =~= s.take(0) + seq![x] + s.skip(0));
    } else {
        assert(pos > 0);
        assert(s.drop_first().take(pos - 1) =~= s.take(pos).drop_first());
        lemma_lex_ins_at(s.drop_first(), x, pos - 1);
        assert(lex_ins(s, x) =~= s.take(pos) + seq![x] + s.skip(pos)) by {
            assert(s.drop_first().skip(pos - 1) =~= s.skip(pos));
            assert(seq![s.first()] + (s.take(pos).drop_first() + seq![x] + s.skip(pos)) =~= s.take(
                pos,
            ) + seq![x] + s.skip(pos));
        }
    }
}

/// Sorts strings into lexicographic order by insertion.
#[verifier::loop_isolation(false)]
pub fn sort_strings(items: Vec<String>) -> (r: Vec<String>)
    ensures
        strs_deep(r@) == lex_sort(strs_deep(items@)),
{
    broadcast use lemma_strs_deep;

    let mut out: Vec<String> = Vec::new();
    let mut i: usize = 0;
    while i < items.len()
        invariant
            i <= items@.len(),
            strs_deep(out@) == lex_sort(strs_deep(items@).take(i as int)),
        decreases items@.len() - i,
    {
        let x = items[i].clone();
        let mut pos: usize = 0;
        while pos < out.len() && !lex_le_str(x.as_str(), out[pos].as_str())
            invariant
                pos <= out@.len(),
                forall|j: int| 0 <= j < pos ==> !lex_le(x@, strs_deep(out@)[j]),
            decreases out@.len() - pos,
        {
            pos += 1;
        }
        let ghost pre = strs_deep(out@);
        out.insert(pos, x);
        proof {
            lemma_lex_ins_at(pre, x@, pos as int);
            assert(strs_deep(out@) =~= pre.take(pos as int) + seq![x@] + pre.skip(pos as int));
            assert(strs_deep(items@).take((i + 1) as int).drop_last() =~= strs_deep(items@).take(
                i as int,
            ));
            assert(strs_deep(items@).take((i + 1) as int).last() == items@[i as int]@);
        }
        i += 1;
    }
    proof {
        assert(strs_deep(items@).take(items@.len() as int) =~= strs_deep(items@));
    }
    out
}

} // verus!
