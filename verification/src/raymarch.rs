//! Which bodies the raymarcher draws, and in which slots: the bodies in the
//! order of their ids, as many as it has slots for.

use vstd::prelude::*;
use crate::script::strings_view;
use crate::text::{lemma_text_lt_asymmetric, lemma_text_lt_transitive, str_lt, text_lt};

verus! {

/// How many bodies the raymarcher draws.
pub const MAX_RAYMARCH_BODIES: usize = 8;

/// Of two texts, one comes first or they are equal.
pub proof fn lemma_text_lt_total(a: Seq<char>, b: Seq<char>)
    ensures
        text_lt(a, b) || text_lt(b, a) || a == b,
    decreases a.len(),
{
    if a.len() > 0 && b.len() > 0 && a[0] == b[0] {
        lemma_text_lt_total(a.drop_first(), b.drop_first());
        if a.drop_first() == b.drop_first() {
            assert(a =~= seq![a[0]] + a.drop_first());
            assert(b =~= seq![b[0]] + b.drop_first());
        }
    } else if a.len() == 0 && b.len() == 0 {
        assert(a =~= b);
    } else if a.len() > 0 && b.len() > 0 {
        assert((a[0] as int) != (b[0] as int));
    }
}

/// `order` lists every index of `ids` once, the ids in text order, and
/// equal ids in the order of their indices.
pub open spec fn is_id_order(ids: Seq<Seq<char>>, order: Seq<int>) -> bool {
    &&& order.len() == ids.len()
    &&& forall|i: int| 0 <= i < order.len() ==> 0 <= #[trigger] order[i] < ids.len()
    &&& forall|i: int, j: int| 0 <= i < j < order.len() ==> #[trigger] order[i] != #[trigger] order[j]
    &&& forall|i: int, j: int|
        0 <= i < j < order.len() ==> !text_lt(ids[#[trigger] order[j]], ids[#[trigger] order[i]])
    &&& forall|i: int, j: int|
        0 <= i < j < order.len() && ids[#[trigger] order[i]] == ids[#[trigger] order[j]] ==> order[i]
            < order[j]
}

pub open spec fn usizes_as_ints(v: Seq<usize>) -> Seq<int> {
    v.map_values(|x: usize| x as int)
}

/// The slots of the bodies with `ids`: their indices in the order of their
/// ids (equal ids in the order they came), at most `MAX_RAYMARCH_BODIES`.
pub fn body_draw_order(ids: &Vec<String>) -> (r: Vec<usize>)
    ensures
        r@.len() == (if ids@.len() < MAX_RAYMARCH_BODIES {
            ids@.len()
        } else {
            MAX_RAYMARCH_BODIES as nat
        }),
        exists|order: Seq<int>|
            is_id_order(strings_view(ids@), order) && usizes_as_ints(r@) == order.take(
                r@.len() as int,
            ),
{
    let ghost sv = strings_view(ids@);
    let n = ids.len();
    let mut out: Vec<usize> = Vec::new();
    let mut k: usize = 0;
    while k < n
        invariant
            n == ids@.len(),
            sv == strings_view(ids@),
            k <= n,
            out@.len() == k,
            forall|i: int| 0 <= i < k ==> #[trigger] out@[i] < k,
            forall|i: int, j: int| 0 <= i < j < k ==> #[trigger] out@[i] != #[trigger] out@[j],
            forall|i: int, j: int|
                0 <= i < j < k ==> !text_lt(sv[#[trigger] out@[j] as int], sv[#[trigger] out@[i] as int]),
            forall|i: int, j: int|
                0 <= i < j < k && sv[#[trigger] out@[i] as int] == sv[#[trigger] out@[j] as int]
                    ==> out@[i] < out@[j],
        decreases n - k,
    {
        let mut pos: usize = 0;
        while pos < out.len() && !str_lt(ids[k].as_str(), ids[out[pos]].as_str())
            invariant
                n == ids@.len(),
                sv == strings_view(ids@),
                k < n,
                pos <= out@.len(),
                forall|i: int| 0 <= i < out@.len() ==> #[trigger] out@[i] < k,
                forall|i: int| 0 <= i < pos ==> !text_lt(sv[k as int], sv[#[trigger] out@[i] as int]),
            decreases out@.len() - pos,
        {
            proof {
                assert(sv[out@[pos as int] as int] == ids@[out@[pos as int] as int]@);
            }
            pos = pos + 1;
        }
        proof {
            assert(sv[k as int] == ids@[k as int]@);
            if pos < out@.len() {
                assert(sv[out@[pos as int] as int] == ids@[out@[pos as int] as int]@);
            }
        }
        let ghost old_out = out@;
        out.insert(pos, k);
        proof {
            let kk = k as int;
            let p = pos as int;
            assert forall|i: int| 0 <= i < kk + 1 implies #[trigger] out@[i] < kk + 1 by {
                if i < p {
                    assert(out@[i] == old_out[i]);
                } else if i > p {
                    assert(out@[i] == old_out[i - 1]);
                }
            }
            assert forall|i: int, j: int| 0 <= i < j < kk + 1 implies #[trigger] out@[i]
                != #[trigger] out@[j] by {
                if i < p && j < p {
                    assert(out@[i] == old_out[i] && out@[j] == old_out[j]);
                } else if i < p && j == p {
                    assert(out@[i] == old_out[i]);
                } else if i < p && j > p {
                    assert(out@[i] == old_out[i] && out@[j] == old_out[j - 1]);
                } else if i == p {
                    assert(out@[j] == old_out[j - 1]);
                } else {
                    assert(out@[i] == old_out[i - 1] && out@[j] == old_out[j - 1]);
                }
            }
            assert forall|i: int, j: int| 0 <= i < j < kk + 1 implies !text_lt(
                sv[#[trigger] out@[j] as int],
                sv[#[trigger] out@[i] as int],
            ) by {
                if i < p && j < p {
                    assert(out@[i] == old_out[i] && out@[j] == old_out[j]);
                } else if i < p && j == p {
                    assert(out@[i] == old_out[i]);
                } else if i < p && j > p {
                    assert(out@[i] == old_out[i] && out@[j] == old_out[j - 1]);
                } else if i == p {
                    assert(out@[j] == old_out[j - 1]);
                    let first = sv[old_out[p] as int];
                    assert(text_lt(sv[kk], first));
                    if j - 1 > p {
                        assert(!text_lt(sv[old_out[j - 1] as int], first));
                        lemma_text_lt_total(sv[old_out[j - 1] as int], first);
                        if text_lt(first, sv[old_out[j - 1] as int]) {
                            lemma_text_lt_transitive(sv[kk], first, sv[old_out[j - 1] as int]);
                        }
                    }
                    lemma_text_lt_asymmetric(sv[kk], sv[old_out[j - 1] as int]);
                } else {
                    assert(out@[i] == old_out[i - 1] && out@[j] == old_out[j - 1]);
                }
            }
            assert forall|i: int, j: int|
                0 <= i < j < kk + 1 && sv[#[trigger] out@[i] as int] == sv[#[trigger] out@[
                    j
                ] as int] implies out@[i] < out@[j] by {
                if i < p && j < p {
                    assert(out@[i] == old_out[i] && out@[j] == old_out[j]);
                } else if i < p && j == p {
                    assert(out@[i] == old_out[i]);
                } else if i < p && j > p {
                    assert(out@[i] == old_out[i] && out@[j] == old_out[j - 1]);
                } else if i == p {
                    assert(out@[j] == old_out[j - 1]);
                    let first = sv[old_out[p] as int];
                    assert(text_lt(sv[kk], first));
                    if j - 1 > p {
                        assert(!text_lt(sv[old_out[j - 1] as int], first));
                        lemma_text_lt_total(sv[old_out[j - 1] as int], first);
                        if text_lt(first, sv[old_out[j - 1] as int]) {
                            lemma_text_lt_transitive(sv[kk], first, sv[old_out[j - 1] as int]);
                        }
                    }
                    lemma_text_lt_asymmetric(sv[kk], sv[kk]);
                } else {
                    assert(out@[i] == old_out[i - 1] && out@[j] == old_out[j - 1]);
                }
            }
        }
        k = k + 1;
    }
    let ghost order = usizes_as_ints(out@);
    proof {
        assert(is_id_order(sv, order));
    }
    let keep: usize = if n < MAX_RAYMARCH_BODIES {
        n
    } else {
        MAX_RAYMARCH_BODIES
    };
    out.truncate(keep);
    proof {
        assert(usizes_as_ints(out@) =~= order.take(keep as int));
    }
    out
}

} // verus!
