//! Ordering items by a text key computed from each, as `sort_by` on that key does.
use vstd::prelude::*;
use crate::discovery::{lemma_text_le_total, lemma_text_le_trans, text_le, text_le_exec};

verus! {

/// The items ordered by a key computed from each.
pub open spec fn sorted_by_fn<T>(s: Seq<T>, key: spec_fn(T) -> Seq<char>) -> bool {
    forall|i: int, j: int| 0 <= i < j < s.len() ==> text_le(key(s[i]), key(s[j]))
}

/// Whether an item's key is `c`.
pub open spec fn has_key<T>(key: spec_fn(T) -> Seq<char>, c: Seq<char>) -> spec_fn(T) -> bool {
    |x: T| key(x) == c
}

/// Items of the same key come in `r` in the order they came in `v`.
pub open spec fn keeps_order_of_ties<T>(r: Seq<T>, v: Seq<T>, key: spec_fn(T) -> Seq<char>) -> bool {
    forall|c: Seq<char>| #[trigger] r.filter(has_key(key, c)) == v.filter(has_key(key, c))
}

proof fn lemma_text_le_refl(a: Seq<char>)
    ensures
        text_le(a, a),
    decreases a.len(),
{
    if a.len() > 0 {
        lemma_text_le_refl(a.drop_first());
    }
}

proof fn lemma_filter_none<T>(s: Seq<T>, p: spec_fn(T) -> bool)
    requires
        forall|i: int| 0 <= i < s.len() ==> !p(#[trigger] s[i]),
    ensures
        s.filter(p) == Seq::<T>::empty(),
    decreases s.len(),
{
    reveal(Seq::filter);
    if s.len() > 0 {
        assert forall|i: int| 0 <= i < s.drop_last().len() implies !p(#[trigger] s.drop_last()[i]) by {
            assert(s.drop_last()[i] == s[i]);
        }
        lemma_filter_none(s.drop_last(), p);
        assert(!p(s[s.len() - 1]));
    }
}

proof fn lemma_filter_one<T>(x: T, p: spec_fn(T) -> bool)
    ensures
        seq![x].filter(p) == (if p(x) {
            seq![x]
        } else {
            Seq::<T>::empty()
        }),
{
    reveal(Seq::filter);
    assert(seq![x].drop_last() =~= Seq::<T>::empty());
    assert(Seq::<T>::empty().filter(p) =~= Seq::<T>::empty());
    if p(x) {
        assert(Seq::<T>::empty().push(x) =~= seq![x]);
    }
}

/// The items ordered by `key` (`sk` in specifications); an item goes after
/// those whose key is at most its own, so items of the same key keep their
/// order.
pub fn sort_with_key<T, F: Fn(&T) -> String>(v: Vec<T>, key: &F, Ghost(sk): Ghost<
    spec_fn(T) -> Seq<char>,
>) -> (r: Vec<T>)
    requires
        forall|x: &T| #[trigger] key.requires((x,)),
        forall|x: &T, s: String| key.ensures((x,), s) ==> s@ == sk(*x),
    ensures
        sorted_by_fn(r@, sk),
        r@.to_multiset() == v@.to_multiset(),
        keeps_order_of_ties(r@, v@, sk),
{
    let mut out: Vec<T> = Vec::new();
    let mut rest = v;
    let ghost orig = rest@;
    broadcast use vstd::seq_lib::group_to_multiset_ensures;

    proof {
        reveal(Seq::filter);
        assert forall|c: Seq<char>| #![trigger has_key(sk, c)]
            out@.filter(has_key(sk, c)) + rest@.filter(has_key(sk, c)) == orig.filter(
                has_key(sk, c),
            ) by {
            assert(out@.filter(has_key(sk, c)) =~= Seq::<T>::empty());
            assert(Seq::<T>::empty() + orig.filter(has_key(sk, c)) =~= orig.filter(has_key(sk, c)));
        }
    }
    while rest.len() > 0
        invariant
            forall|x: &T| #[trigger] key.requires((x,)),
            forall|x: &T, s: String| key.ensures((x,), s) ==> s@ == sk(*x),
            sorted_by_fn(out@, sk),
            out@.to_multiset().add(rest@.to_multiset()) == orig.to_multiset(),
            forall|c: Seq<char>| #![trigger has_key(sk, c)]
                out@.filter(has_key(sk, c)) + rest@.filter(has_key(sk, c)) == orig.filter(
                    has_key(sk, c),
                ),
        decreases rest.len(),
    {
        let ghost rb = rest@;
        let x = rest.remove(0);
        assert(rb[0] == x);
        assert(rest@ == rb.remove(0));
        let kx = key(&x);
        let mut k: usize = out.len();
        while k > 0 && !text_le_exec(key(&out[k - 1]).as_str(), kx.as_str())
            invariant
                forall|x: &T| #[trigger] key.requires((x,)),
                forall|x: &T, s: String| key.ensures((x,), s) ==> s@ == sk(*x),
                kx@ == sk(x),
                k <= out.len(),
                sorted_by_fn(out@, sk),
                forall|m: int| k <= m < out.len() ==> !text_le(sk(#[trigger] out@[m]), sk(x)),
            decreases k,
        {
            k = k - 1;
        }
        proof {
            assert forall|m: int| k <= m < out.len() implies text_le(sk(x), sk(#[trigger] out@[m])) by {
                lemma_text_le_total(sk(x), sk(out@[m]));
            }
            if k > 0 {
                assert forall|m: int| 0 <= m < k implies text_le(sk(#[trigger] out@[m]), sk(x)) by {
                    if m < k - 1 {
                        lemma_text_le_trans(sk(out@[m]), sk(out@[k - 1]), sk(x));
                    }
                }
            }
        }
        let ghost before = out@;
        out.insert(k, x);
        proof {
            assert(out@.remove(k as int) =~= before);
            assert(out@[k as int] == x);
            out@.to_multiset_ensures();
            rb.to_multiset_ensures();
            assert(out@.remove(k as int).to_multiset() == out@.to_multiset().remove(out@[k as int]));
            assert(rb.remove(0).to_multiset() == rb.to_multiset().remove(rb[0]));
            assert(rb.contains(x));
            assert(out@.contains(x));
            assert(out@.to_multiset().add(rest@.to_multiset()) =~= orig.to_multiset());
            assert forall|i: int, j: int| 0 <= i < j < out@.len() implies text_le(
                sk(out@[i]),
                sk(out@[j]),
            ) by {
                if i < k && j > k {
                    lemma_text_le_trans(sk(out@[i]), sk(x), sk(out@[j]));
                }
                if i == k {
                    assert(out@[j] == before[j - 1]);
                }
                if j == k {
                    assert(out@[i] == before[i]);
                }
                if i != k && j != k {
                    let bi = if i < k { i } else { i - 1 };
                    let bj = if j < k { j } else { j - 1 };
                    assert(out@[i] == before[bi]);
                    assert(out@[j] == before[bj]);
                }
            }
            // Items of the key of `x` after its place all have larger keys.
            let front = before.take(k as int);
            let back = before.skip(k as int);
            assert(out@ =~= front + seq![x] + back);
            assert(before =~= front + back);
            assert(rb =~= seq![x] + rest@);
            assert forall|c: Seq<char>| #![trigger has_key(sk, c)]
                out@.filter(has_key(sk, c)) + rest@.filter(has_key(sk, c)) == orig.filter(
                    has_key(sk, c),
                ) by {
                let p = has_key(sk, c);
                Seq::filter_distributes_over_add(front + seq![x], back, p);
                Seq::filter_distributes_over_add(front, seq![x], p);
                Seq::filter_distributes_over_add(front, back, p);
                rest@.lemma_filter_prepend(x, p);
                lemma_filter_one(x, p);
                if c == sk(x) {
                    assert forall|i: int| 0 <= i < back.len() implies !p(#[trigger] back[i]) by {
                        assert(back[i] == before[k + i]);
                        lemma_text_le_refl(sk(x));
                    }
                    lemma_filter_none(back, p);
                    assert(out@.filter(p) =~= front.filter(p) + seq![x]);
                    assert(before.filter(p) =~= front.filter(p));
                    assert(rb.filter(p) =~= seq![x] + rest@.filter(p));
                    assert(out@.filter(p) + rest@.filter(p) =~= before.filter(p) + rb.filter(p));
                } else {
                    assert(out@.filter(p) =~= before.filter(p));
                    assert(rb.filter(p) =~= rest@.filter(p));
                }
            }
        }
    }
    proof {
        reveal(Seq::filter);
        assert forall|c: Seq<char>| #[trigger] out@.filter(has_key(sk, c)) == orig.filter(
            has_key(sk, c),
        ) by {
            assert(rest@.filter(has_key(sk, c)) =~= Seq::<T>::empty());
            assert(out@.filter(has_key(sk, c)) + rest@.filter(has_key(sk, c)) =~= out@.filter(
                has_key(sk, c),
            ));
        }
    }
    assert(rest@ =~= Seq::<T>::empty());
    out
}

} // verus!
