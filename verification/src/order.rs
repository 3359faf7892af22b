//! Ordering machinery: sorting post lists newest-first and name lists
//! ascending, with the lemmas that carry filtered counts and memberships
//! across reorderings.

use vstd::prelude::*;
use vstd::seq_lib::group_seq_properties;
use vstd::multiset::Multiset;
use vstd::seq_lib::lemma_multiset_commutative;
use vstd::string::StrSliceExecFns;
use crate::model::{date_key, date_le, name_in, sorted_newest_first, Post};

verus! {

/// Ascending lexicographic order on names, by character code: the empty
/// name first, then by the first differing character.
pub open spec fn name_le(a: Seq<char>, b: Seq<char>) -> bool
    decreases a.len(),
{
    if a.len() == 0 {
        true
    } else if b.len() == 0 {
        false
    } else if (a[0] as u32) < (b[0] as u32) {
        true
    } else if (a[0] as u32) > (b[0] as u32) {
        false
    } else {
        name_le(a.drop_first(), b.drop_first())
    }
}

/// Names in ascending order.
pub open spec fn sorted_names(s: Seq<String>) -> bool {
    forall|i: int, j: int|
        0 <= i < j < s.len() ==> name_le((#[trigger] s[i])@, (#[trigger] s[j])@)
}

/// The order is total: one direction always holds.
pub proof fn lemma_name_le_total(a: Seq<char>, b: Seq<char>)
    ensures
        name_le(a, b) || name_le(b, a),
    decreases a.len(),
{
    if a.len() != 0 && b.len() != 0 && (a[0] as u32) == (b[0] as u32) {
        lemma_name_le_total(a.drop_first(), b.drop_first());
    }
}

/// The order chains: below and below is below.
pub proof fn lemma_name_le_trans(a: Seq<char>, b: Seq<char>, c: Seq<char>)
    requires
        name_le(a, b),
        name_le(b, c),
    ensures
        name_le(a, c),
    decreases a.len(),
{
    if a.len() != 0 && b.len() != 0 && c.len() != 0 && (a[0] as u32) == (b[0] as u32) && (
    b[0] as u32) == (c[0] as u32) {
        lemma_name_le_trans(a.drop_first(), b.drop_first(), c.drop_first());
    }
}

/// Decide `name_le(a@, b@)` executably.
pub fn name_le_exec(a: &String, b: &String) -> (r: bool)
    ensures
        r == name_le(a@, b@),
{
    let an = a.as_str().unicode_len();
    let bn = b.as_str().unicode_len();
    let mut i: usize = 0;
    proof {
        assert(a@.skip(0int) =~= a@);
        assert(b@.skip(0int) =~= b@);
    }
    while i < an && i < bn
        invariant
            an == a@.len(),
            bn == b@.len(),
            i <= an,
            i <= bn,
            name_le(a@, b@) == name_le(a@.skip(i as int), b@.skip(i as int)),
            name_le(b@, a@) == name_le(b@.skip(i as int), a@.skip(i as int)),
        decreases an - i,
    {
        let ca = a.as_str().get_char(i) as u32;
        let cb = b.as_str().get_char(i) as u32;
        proof {
            assert(a@.skip(i as int)[0] == a@[i as int]);
            assert(b@.skip(i as int)[0] == b@[i as int]);
        }
        if ca < cb {
            return true;
        }
        if ca > cb {
            return false;
        }
        proof {
            assert(a@.skip(i as int).drop_first() =~= a@.skip(i + 1));
            assert(b@.skip(i as int).drop_first() =~= b@.skip(i + 1));
        }
        i += 1;
    }
    proof {
        if i == an {
            assert(a@.skip(i as int).len() == 0);
        } else {
            assert(i == bn);
            assert(b@.skip(i as int).len() == 0);
            assert(a@.skip(i as int).len() > 0);
        }
    }
    an <= bn
}

/// `x` slotted into an ascending name list, before the first name it does
/// not exceed.
pub open spec fn insert_sorted(s: Seq<String>, x: String) -> Seq<String>
    decreases s.len(),
{
    if s.len() == 0 {
        seq![x]
    } else if name_le(x@, s[0]@) {
        seq![x] + s
    } else {
        seq![s[0]] + insert_sorted(s.drop_first(), x)
    }
}

/// The names of `s`, in ascending order, by repeated insertion.
pub open spec fn sort_names(s: Seq<String>) -> Seq<String>
    decreases s.len(),
{
    if s.len() == 0 {
        s
    } else {
        insert_sorted(sort_names(s.drop_last()), s.last())
    }
}

/// Where the insertion lands: at the first index whose name `x` does not
/// exceed.
pub proof fn lemma_insert_sorted_at(s: Seq<String>, x: String, j: int)
    requires
        0 <= j <= s.len(),
        forall|t: int| 0 <= t < j ==> !name_le(x@, (#[trigger] s[t])@),
        j < s.len() ==> name_le(x@, s[j]@),
    ensures
        insert_sorted(s, x) == s.take(j) + seq![x] + s.skip(j),
    decreases j,
{
    if j == 0 {
        if s.len() == 0 {
            assert(insert_sorted(s, x) =~= s.take(0) + seq![x] + s.skip(0));
        } else {
            assert(insert_sorted(s, x) == seq![x] + s);
            assert(seq![x] + s =~= s.take(0) + seq![x] + s.skip(0));
        }
    } else {
        let sd = s.drop_first();
        assert(!name_le(x@, s[0]@));
        assert forall|t: int| 0 <= t < j - 1 implies !name_le(x@, (#[trigger] sd[t])@) by {
            assert(sd[t] == s[t + 1]);
        }
        if j - 1 < sd.len() {
            assert(sd[j - 1] == s[j]);
        }
        lemma_insert_sorted_at(sd, x, j - 1);
        assert(insert_sorted(s, x) == seq![s[0]] + (sd.take(j - 1) + seq![x] + sd.skip(j - 1)));
        assert(seq![s[0]] + (sd.take(j - 1) + seq![x] + sd.skip(j - 1)) =~= s.take(j) + seq![x]
            + s.skip(j));
    }
}

/// Insertion keeps exactly the old names plus the new one, and grows the
/// list by one.
pub proof fn lemma_insert_sorted_names(s: Seq<String>, x: String)
    ensures
        insert_sorted(s, x).len() == s.len() + 1,
        forall|n: Seq<char>|
            #[trigger] name_in(insert_sorted(s, x), n) <==> (name_in(s, n) || x@ == n),
    decreases s.len(),
{
    let out = insert_sorted(s, x);
    if s.len() == 0 {
        assert forall|n: Seq<char>| #[trigger] name_in(out, n) implies (name_in(s, n) || x@
            == n) by {
            let w = choose|w: int| 0 <= w < out.len() && (#[trigger] out[w])@ == n;
        }
        assert(out[0] == x);
    } else if name_le(x@, s[0]@) {
        assert(out == seq![x] + s);
        assert forall|n: Seq<char>| #[trigger] name_in(out, n) implies (name_in(s, n) || x@
            == n) by {
            let w = choose|w: int| 0 <= w < out.len() && (#[trigger] out[w])@ == n;
            if w > 0 {
                assert(out[w] == s[w - 1]);
            }
        }
        assert forall|n: Seq<char>| name_in(s, n) || x@ == n implies #[trigger] name_in(
            out,
            n,
        ) by {
            if name_in(s, n) {
                let w = choose|w: int| 0 <= w < s.len() && (#[trigger] s[w])@ == n;
                assert(out[w + 1]@ == n);
            } else {
                assert(out[0]@ == n);
            }
        }
    } else {
        let sd = s.drop_first();
        lemma_insert_sorted_names(sd, x);
        let inner = insert_sorted(sd, x);
        assert(out == seq![s[0]] + inner);
        assert forall|n: Seq<char>| #[trigger] name_in(out, n) implies (name_in(s, n) || x@
            == n) by {
            let w = choose|w: int| 0 <= w < out.len() && (#[trigger] out[w])@ == n;
            if w == 0 {
                assert(s[0]@ == n);
            } else {
                assert(inner[w - 1]@ == n);
                assert(name_in(inner, n));
                if name_in(sd, n) {
                    let u = choose|u: int| 0 <= u < sd.len() && (#[trigger] sd[u])@ == n;
                    assert(s[u + 1]@ == n);
                }
            }
        }
        assert forall|n: Seq<char>| name_in(s, n) || x@ == n implies #[trigger] name_in(
            out,
            n,
        ) by {
            if name_in(s, n) {
                let w = choose|w: int| 0 <= w < s.len() && (#[trigger] s[w])@ == n;
                if w == 0 {
                    assert(out[0]@ == n);
                } else {
                    assert(sd[w - 1]@ == n);
                    assert(name_in(sd, n));
                    assert(name_in(inner, n));
                    let u = choose|u: int| 0 <= u < inner.len() && (#[trigger] inner[u])@ == n;
                    assert(out[u + 1]@ == n);
                }
            } else {
                assert(name_in(inner, n));
                let u = choose|u: int| 0 <= u < inner.len() && (#[trigger] inner[u])@ == n;
                assert(out[u + 1]@ == n);
            }
        }
    }
}

/// Sorting keeps exactly the names of the input, and its length.
pub proof fn lemma_sort_names_names(s: Seq<String>)
    ensures
        sort_names(s).len() == s.len(),
        forall|n: Seq<char>| #[trigger] name_in(sort_names(s), n) <==> name_in(s, n),
    decreases s.len(),
{
    if s.len() != 0 {
        let sp = s.drop_last();
        lemma_sort_names_names(sp);
        lemma_insert_sorted_names(sort_names(sp), s.last());
        assert forall|n: Seq<char>| #[trigger] name_in(sort_names(s), n) implies name_in(
            s,
            n,
        ) by {
            if name_in(sp, n) {
                let w = choose|w: int| 0 <= w < sp.len() && (#[trigger] sp[w])@ == n;
                assert(s[w]@ == n);
            } else {
                assert(s.last()@ == n);
                assert(s[s.len() - 1]@ == n);
            }
        }
        assert forall|n: Seq<char>| name_in(s, n) implies #[trigger] name_in(
            sort_names(s),
            n,
        ) by {
            let w = choose|w: int| 0 <= w < s.len() && (#[trigger] s[w])@ == n;
            if w < s.len() - 1 {
                assert(sp[w]@ == n);
                assert(name_in(sp, n));
            } else {
                assert(s.last()@ == n);
            }
        }
    }
}

/// Sort a duplicate-free name list ascending: the result is exactly
/// [`sort_names`] of the input — ascending, still duplicate-free, with the
/// same names.
pub fn sort_names_exec(v: Vec<String>) -> (r: Vec<String>)
    requires
        crate::store::names_distinct(v@),
    ensures
        r@ == sort_names(v@),
        sorted_names(r@),
        crate::store::names_distinct(r@),
        r@.len() == v@.len(),
        forall|n: Seq<char>| #[trigger] name_in(r@, n) <==> name_in(v@, n),
{
    let mut r: Vec<String> = Vec::new();
    let mut i: usize = 0;
    proof {
        assert(v@.take(0int) =~= Seq::<String>::empty());
    }
    while i < v.len()
        invariant
            crate::store::names_distinct(v@),
            i <= v@.len(),
            r@ == sort_names(v@.take(i as int)),
            sorted_names(r@),
            crate::store::names_distinct(r@),
            r@.len() == i,
            forall|n: Seq<char>| #[trigger] name_in(r@, n) <==> name_in(v@.take(i as int), n),
        decreases v@.len() - i,
    {
        let x = v[i].clone();
        let ghost prev = r@;
        let mut j: usize = 0;
        while j < r.len() && !name_le_exec(&x, &r[j])
            invariant
                j <= r@.len(),
                r@ == prev,
                x == v@[i as int],
                forall|t: int| 0 <= t < j ==> !name_le(x@, (#[trigger] r@[t])@),
            decreases r@.len() - j,
        {
            j += 1;
        }
        r.insert(j, x);
        proof {
            lemma_insert_sorted_at(prev, v@[i as int], j as int);
            assert(r@ =~= prev.take(j as int) + seq![v@[i as int]] + prev.skip(j as int));
            assert(r@ == insert_sorted(prev, v@[i as int]));
            assert(v@.take(i + 1).drop_last() =~= v@.take(i as int));
            assert(v@.take(i + 1).last() == v@[i as int]);
            lemma_insert_sorted_names(prev, v@[i as int]);
            // The inserted name is new: it was not among the first i names.
            assert(!name_in(prev, v@[i as int]@)) by {
                if name_in(prev, v@[i as int]@) {
                    assert(name_in(v@.take(i as int), v@[i as int]@));
                    let w = choose|w: int|
                        0 <= w < v@.take(i as int).len() && (#[trigger] v@.take(
                            i as int,
                        )[w])@ == v@[i as int]@;
                    assert(v@[w]@ == v@[i as int]@);
                    assert(false);
                }
            }
            // Ascending order is kept on both sides of the insertion.
            assert forall|a: int, b: int| 0 <= a < b < r@.len() implies name_le(
                (#[trigger] r@[a])@,
                (#[trigger] r@[b])@,
            ) by {
                if b < j {
                } else if a < j && b == j {
                    lemma_name_le_total(prev[a]@, v@[i as int]@);
                } else if a < j && b > j {
                    assert(r@[b] == prev[b - 1]);
                } else if a == j {
                    assert(r@[b] == prev[b - 1]);
                    if j < prev.len() {
                        assert(name_le(v@[i as int]@, prev[j as int]@));
                        if b - 1 > j {
                            lemma_name_le_trans(
                                v@[i as int]@,
                                prev[j as int]@,
                                prev[b - 1]@,
                            );
                        }
                    }
                } else {
                    assert(r@[a] == prev[a - 1]);
                    assert(r@[b] == prev[b - 1]);
                }
            }
            // Distinctness is kept: the new name differs from every old one.
            assert forall|a: int, b: int| 0 <= a < b < r@.len() implies (#[trigger] r@[a])@
                != (#[trigger] r@[b])@ by {
                if a == j || b == j {
                    let other = if a == j {
                        b
                    } else {
                        a
                    };
                    let o = if other < j {
                        other
                    } else {
                        other - 1
                    };
                    assert(r@[other] == prev[o]);
                    if r@[a]@ == r@[b]@ {
                        assert(name_in(prev, v@[i as int]@));
                        assert(false);
                    }
                } else {
                    let a0 = if a < j {
                        a
                    } else {
                        a - 1
                    };
                    let b0 = if b < j {
                        b
                    } else {
                        b - 1
                    };
                    assert(r@[a] == prev[a0] && r@[b] == prev[b0]);
                }
            }
            assert forall|n: Seq<char>| #[trigger] name_in(r@, n) implies name_in(
                v@.take(i + 1),
                n,
            ) by {
                assert(name_in(prev, n) || v@[i as int]@ == n);
                if name_in(prev, n) {
                    let w = choose|w: int|
                        0 <= w < v@.take(i as int).len() && (#[trigger] v@.take(
                            i as int,
                        )[w])@ == n;
                    assert(v@.take(i + 1)[w]@ == n);
                } else {
                    assert(v@.take(i + 1)[i as int]@ == n);
                }
            }
            assert forall|n: Seq<char>| name_in(v@.take(i + 1), n) implies #[trigger] name_in(
                r@,
                n,
            ) by {
                let w = choose|w: int|
                    0 <= w < v@.take(i + 1).len() && (#[trigger] v@.take(i + 1)[w])@ == n;
                if w < i as int {
                    assert(v@.take(i as int)[w]@ == n);
                    assert(name_in(v@.take(i as int), n));
                } else {
                    assert(v@[i as int]@ == n);
                }
            }
        }
        i += 1;
    }
    proof {
        assert(v@.take(v@.len() as int) =~= v@);
    }
    r
}

/// A sequence filtered by any predicate keeps its length under any
/// rearrangement: equal multisets give equal filtered lengths.
pub proof fn lemma_filter_len_multiset(
    s1: Seq<Post>,
    s2: Seq<Post>,
    pred: spec_fn(Post) -> bool,
)
    requires
        s1.to_multiset() == s2.to_multiset(),
    ensures
        s1.filter(pred).len() == s2.filter(pred).len(),
    decreases s1.len(),
{
    broadcast use vstd::seq_lib::group_to_multiset_ensures;
    broadcast use Seq::filter_distributes_over_add;

    if s1.len() == 0 {
        assert(s2.to_multiset().len() == 0);
        assert(s2.len() == 0);
    } else {
        let x = s1.last();
        let s1p = s1.drop_last();
        assert(s1 == s1p.push(x));
        assert(s1.to_multiset().count(x) > 0);
        assert(s2.to_multiset().count(x) > 0);
        assert(s2.contains(x));
        let j = choose|j: int| 0 <= j < s2.len() && s2[j] == x;
        let s2p = s2.remove(j);
        assert(s1p.to_multiset() == s1.to_multiset().remove(x));
        assert(s2p.to_multiset() == s2.to_multiset().remove(x));
        lemma_filter_len_multiset(s1p, s2p, pred);
        // Relate the filtered length of a sequence to that of the sequence
        // with one occurrence of x removed.
        lemma_filter_len_remove(s1, s1.len() - 1, pred);
        lemma_filter_len_remove(s2, j, pred);
    }
}

/// Removing one element from a sequence lowers the filtered length by one
/// exactly when the element passes the predicate.
pub proof fn lemma_filter_len_remove(s: Seq<Post>, i: int, pred: spec_fn(Post) -> bool)
    requires
        0 <= i < s.len(),
    ensures
        s.filter(pred).len() == s.remove(i).filter(pred).len() + (if pred(s[i]) {
            1int
        } else {
            0int
        }),
{
    broadcast use Seq::filter_distributes_over_add;

    let left = s.subrange(0, i);
    let mid = seq![s[i]];
    let right = s.subrange(i + 1, s.len() as int);
    assert(s == left + mid + right);
    assert(s.remove(i) == left + right);
    lemma_filter_singleton(s[i], pred);
    assert((left + mid + right).filter(pred) == left.filter(pred) + mid.filter(pred)
        + right.filter(pred));
    assert((left + right).filter(pred) == left.filter(pred) + right.filter(pred));
}

/// The filtered form of a one-element sequence.
pub proof fn lemma_filter_singleton(x: Post, pred: spec_fn(Post) -> bool)
    ensures
        seq![x].filter(pred) == if pred(x) {
            seq![x]
        } else {
            Seq::<Post>::empty()
        },
{
    reveal(Seq::filter);
    assert(seq![x].drop_last() == Seq::<Post>::empty());
    assert(seq![x].last() == x);
    assert(Seq::<Post>::empty().filter(pred) == Seq::<Post>::empty());
    if pred(x) {
        assert(seq![x].filter(pred) == Seq::<Post>::empty().push(x));
        assert(Seq::<Post>::empty().push(x) == seq![x]);
    }
}

/// Filtering commutes with forgetting order: the multiset of a filtered
/// sequence is the filtered multiset.
pub proof fn lemma_filter_to_multiset<A>(s: Seq<A>, pred: spec_fn(A) -> bool)
    ensures
        s.filter(pred).to_multiset() == s.to_multiset().filter(pred),
    decreases s.len(),
{
    broadcast use vstd::seq_lib::group_to_multiset_ensures;
    broadcast use vstd::multiset::group_multiset_axioms;

    reveal(Seq::filter);
    if s.len() == 0 {
        assert(s.to_multiset() =~= Multiset::<A>::empty());
        assert(s.filter(pred).to_multiset() =~= Multiset::<A>::empty());
        assert(s.to_multiset().filter(pred) =~= Multiset::<A>::empty());
    } else {
        let sp = s.drop_last();
        let x = s.last();
        lemma_filter_to_multiset(sp, pred);
        assert(s == sp.push(x));
        assert(s.to_multiset() == sp.to_multiset().insert(x));
        if pred(x) {
            assert(s.filter(pred) == sp.filter(pred).push(x));
            assert(s.filter(pred).to_multiset() == sp.filter(pred).to_multiset().insert(x));
            assert(sp.to_multiset().insert(x).filter(pred) =~= sp.to_multiset().filter(
                pred,
            ).insert(x));
        } else {
            assert(s.filter(pred) == sp.filter(pred));
            assert(sp.to_multiset().insert(x).filter(pred) =~= sp.to_multiset().filter(pred));
        }
    }
}

/// A filter that every element passes keeps the sequence whole.
pub proof fn lemma_filter_all<A>(s: Seq<A>, pred: spec_fn(A) -> bool)
    requires
        forall|i: int| 0 <= i < s.len() ==> pred(#[trigger] s[i]),
    ensures
        s.filter(pred) == s,
    decreases s.len(),
{
    reveal(Seq::filter);
    if s.len() != 0 {
        lemma_filter_all(s.drop_last(), pred);
        assert(s.drop_last().push(s.last()) =~= s);
    }
}

/// Filtering preserves pairwise distinctness of any derived key.
pub proof fn lemma_filter_keeps_distinct<A, K>(
    s: Seq<A>,
    pred: spec_fn(A) -> bool,
    key: spec_fn(A) -> K,
)
    requires
        forall|i: int, j: int| 0 <= i < j < s.len() ==> key(#[trigger] s[i]) != key(
            #[trigger] s[j],
        ),
    ensures
        forall|i: int, j: int|
            0 <= i < j < s.filter(pred).len() ==> key(#[trigger] s.filter(pred)[i]) != key(
                #[trigger] s.filter(pred)[j],
            ),
    decreases s.len(),
{
    broadcast use Seq::lemma_filter_contains_rev;

    reveal(Seq::filter);
    if s.len() != 0 {
        let sp = s.drop_last();
        lemma_filter_keeps_distinct(sp, pred, key);
        let out = s.filter(pred);
        if pred(s.last()) {
            assert(out == sp.filter(pred).push(s.last()));
            assert forall|i: int, j: int| 0 <= i < j < out.len() implies key(#[trigger] out[i])
                != key(#[trigger] out[j]) by {
                if j == out.len() - 1 {
                    assert(out[j] == s.last());
                    assert(sp.filter(pred).contains(out[i]));
                    assert(sp.contains(out[i]));
                    let t = choose|t: int| 0 <= t < sp.len() && sp[t] == out[i];
                    assert(s[t] == out[i]);
                    assert(key(s[t]) != key(s[s.len() - 1]));
                } else {
                    assert(out[i] == sp.filter(pred)[i] && out[j] == sp.filter(pred)[j]);
                }
            }
        }
    }
}

/// Sort posts newest-first by insertion, preserving the multiset of posts.
pub fn sort_posts_newest_first(v: Vec<Post>) -> (r: Vec<Post>)
    ensures
        sorted_newest_first(r@),
        r@.to_multiset() == v@.to_multiset(),
        r@.len() == v@.len(),
{
    broadcast use vstd::seq_lib::group_to_multiset_ensures;
    broadcast use vstd::seq_lib::to_multiset_insert;

    let mut r: Vec<Post> = Vec::new();
    let mut i: usize = 0;
    assert(v@.take(0int) == Seq::<Post>::empty());
    while i < v.len()
        invariant
            i <= v.len(),
            sorted_newest_first(r@),
            r@.to_multiset() == v@.take(i as int).to_multiset(),
            r@.len() == i,
        decreases v.len() - i,
    {
        let x = v[i].duplicate();
        let ghost prev = r@;
        // Find the first position whose element publishes before x.
        let mut j: usize = 0;
        while j < r.len() && r[j].date_le_exec(&x) == false
            invariant
                j <= r.len(),
                sorted_newest_first(r@),
                r@ == prev,
                forall|t: int| 0 <= t < j ==> !date_le(#[trigger] r@[t], x),
            decreases r.len() - j,
        {
            j += 1;
        }
        r.insert(j, x);
        proof {
            broadcast use vstd::seq_lib::group_to_multiset_ensures;
            broadcast use vstd::seq_lib::to_multiset_insert;

            assert(r@ == prev.insert(j as int, x));
            assert forall|a: int, b: int| 0 <= a < b < r@.len() implies date_key(
                #[trigger] r@[b],
            ) <= date_key(#[trigger] r@[a]) by {
                if b < j {
                } else if a < j && b == j {
                    assert(!date_le(prev[a], x));
                } else if a < j && b > j {
                    assert(r@[b] == prev[b - 1]);
                } else if a == j {
                    assert(r@[b] == prev[b - 1]);
                    if j < prev.len() {
                        assert(date_le(prev[j as int], x));
                        assert(date_key(prev[b - 1]) <= date_key(prev[j as int]));
                    }
                } else {
                    assert(r@[a] == prev[a - 1]);
                    assert(r@[b] == prev[b - 1]);
                }
            }
            assert(prev.insert(j as int, x).to_multiset() == prev.to_multiset().insert(x));
            assert(v@.take(i + 1).drop_last() == v@.take(i as int));
            assert(v@.take(i + 1).last() == v@[i as int]);
            assert(v@.take(i + 1) == v@.take(i as int).push(v@[i as int]));
            assert(v@.take(i as int).push(v@[i as int]).to_multiset() == v@.take(
                i as int,
            ).to_multiset().insert(v@[i as int]));
        }
        i += 1;
    }
    assert(v@.take(v@.len() as int) == v@);
    r
}

/// Keep only the newest `k` posts of an already sorted list.
pub fn truncate_posts(v: &mut Vec<Post>, k: usize)
    requires
        sorted_newest_first(old(v)@),
    ensures
        sorted_newest_first(final(v)@),
        final(v)@ == old(v)@.take(if k < old(v)@.len() {
            k as int
        } else {
            old(v)@.len() as int
        }),
        final(v)@.len() == if k < old(v)@.len() {
            k as int
        } else {
            old(v)@.len() as int
        },
{
    v.truncate(k);
    proof {
        if k < old(v)@.len() {
            assert(v@ == old(v)@.subrange(0, k as int));
        } else {
            assert(old(v)@.take(old(v)@.len() as int) == old(v)@);
        }
    }
}

} // verus!
