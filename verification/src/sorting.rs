//! Stable orders of lists by a key: the positions of the elements from the
//! smallest key to the largest, keeping the order of the input among equal
//! keys.
use crate::text::{lexicographic_lt, str_lt};
use vstd::prelude::*;

verus! {

/// `order` lists every position of `keys` once, by increasing key, and
/// by increasing position among equal keys.
pub open spec fn is_stable_order(order: Seq<usize>, keys: Seq<i64>) -> bool {
    &&& keys.len() <= usize::MAX
    &&& order.len() == keys.len()
    &&& forall|k: int| 0 <= k < order.len() ==> #[trigger] order[k] < keys.len()
    &&& forall|k: int, l: int|
        0 <= k < l < order.len() ==> {
            let a = #[trigger] order[k] as int;
            let b = #[trigger] order[l] as int;
            keys[a] < keys[b] || (keys[a] == keys[b] && a < b)
        }
    &&& forall|p: int| 0 <= p < keys.len() ==> #[trigger] order.contains(p as usize)
}

/// The stable order of `keys`.
pub fn stable_order(keys: &[i64]) -> (r: Vec<usize>)
    ensures
        is_stable_order(r@, keys@),
{
    let n: usize = keys.len();
    let mut order: Vec<usize> = Vec::new();
    let mut i: usize = 0;
    while i < n
        invariant
            n == keys@.len(),
            i <= n,
            order@.len() == i,
            forall|k: int| 0 <= k < order@.len() ==> #[trigger] order@[k] < i,
            forall|k: int, l: int|
                0 <= k < l < order@.len() ==> {
                    let a = #[trigger] order@[k] as int;
                    let b = #[trigger] order@[l] as int;
                    keys@[a] < keys@[b] || (keys@[a] == keys@[b] && a < b)
                },
            forall|p: int| 0 <= p < i ==> #[trigger] order@.contains(p as usize),
        decreases n - i,
    {
        let mut pos: usize = 0;
        while pos < order.len() && keys[order[pos]] <= keys[i]
            invariant
                n == keys@.len(),
                i < n,
                pos <= order@.len(),
                forall|k: int| 0 <= k < order@.len() ==> #[trigger] order@[k] < i,
                forall|k: int| 0 <= k < pos ==> keys@[#[trigger] order@[k] as int] <= keys@[i as int],
            decreases order@.len() - pos,
        {
            pos = pos + 1;
        }
        let ghost before = order@;
        proof {
            assert forall|k: int| pos <= k < before.len() implies keys@[#[trigger] before[k] as int]
                > keys@[i as int] by {
                if pos < before.len() {
                    assert(keys@[before[pos as int] as int] > keys@[i as int]);
                    if k > pos {
                        let a = before[pos as int] as int;
                        let b = before[k] as int;
                        assert(keys@[a] < keys@[b] || (keys@[a] == keys@[b] && a < b));
                    }
                }
            }
        }
        order.insert(pos, i);
        proof {
            let after = order@;
            assert(after =~= before.insert(pos as int, i));
            assert forall|k: int| 0 <= k < after.len() implies #[trigger] after[k] < i + 1 by {
                if k < pos {
                    assert(after[k] == before[k]);
                } else if k > pos {
                    assert(after[k] == before[k - 1]);
                }
            }
            assert forall|k: int, l: int| 0 <= k < l < after.len() implies {
                let a = #[trigger] after[k] as int;
                let b = #[trigger] after[l] as int;
                keys@[a] < keys@[b] || (keys@[a] == keys@[b] && a < b)
            } by {
                if l < pos {
                    assert(after[k] == before[k] && after[l] == before[l]);
                } else if l == pos {
                    assert(after[k] == before[k]);
                } else if k < pos {
                    assert(after[k] == before[k] && after[l] == before[l - 1]);
                    assert(keys@[before[l - 1] as int] > keys@[i as int]);
                } else if k == pos {
                    assert(after[l] == before[l - 1]);
                } else {
                    assert(after[k] == before[k - 1] && after[l] == before[l - 1]);
                }
            }
            assert forall|p: int| 0 <= p < i + 1 implies #[trigger] after.contains(p as usize) by {
                if p == i {
                    assert(after[pos as int] == i);
                } else {
                    assert(before.contains(p as usize));
                    let k = choose|k: int| 0 <= k < before.len() && before[k] == p as usize;
                    if k < pos {
                        assert(after[k] == before[k]);
                    } else {
                        assert(after[k + 1] == before[k]);
                    }
                }
            }
        }
        i = i + 1;
    }
    order
}

/// The lexicographic order is a strict total order: no text comes before
/// itself, two different texts come one before the other, and coming
/// before is transitive.
pub proof fn lemma_lexicographic_total(a: Seq<char>, b: Seq<char>)
    ensures
        !lexicographic_lt(a, a),
        a != b ==> lexicographic_lt(a, b) || lexicographic_lt(b, a),
        !(lexicographic_lt(a, b) && lexicographic_lt(b, a)),
    decreases a.len(),
{
    if a.len() > 0 {
        lemma_lexicographic_total(a.drop_first(), a.drop_first());
        if b.len() > 0 && a[0] == b[0] {
            lemma_lexicographic_total(a.drop_first(), b.drop_first());
            if a != b {
                assert(a.drop_first() != b.drop_first()) by {
                    if a.drop_first() == b.drop_first() {
                        assert(a =~= seq![a[0]] + a.drop_first());
                        assert(b =~= seq![b[0]] + b.drop_first());
                    }
                }
            }
        }
        if b.len() > 0 && a[0] != b[0] {
            assert((a[0] as int) != (b[0] as int));
        }
    } else {
        if b.len() > 0 {
        } else {
            assert(a =~= b);
        }
    }
}

/// Coming before is transitive.
pub proof fn lemma_lexicographic_transitive(a: Seq<char>, b: Seq<char>, c: Seq<char>)
    requires
        lexicographic_lt(a, b),
        lexicographic_lt(b, c),
    ensures
        lexicographic_lt(a, c),
    decreases a.len(),
{
    if a.len() > 0 && b.len() > 0 && c.len() > 0 {
        if a[0] == b[0] && b[0] == c[0] {
            lemma_lexicographic_transitive(a.drop_first(), b.drop_first(), c.drop_first());
        }
    }
}

/// `order` lists every position of `keys` once, by lexicographic order of
/// the texts, and by increasing position among equal texts.
pub open spec fn is_stable_text_order(order: Seq<usize>, keys: Seq<Seq<char>>) -> bool {
    &&& keys.len() <= usize::MAX
    &&& order.len() == keys.len()
    &&& forall|k: int| 0 <= k < order.len() ==> #[trigger] order[k] < keys.len()
    &&& forall|k: int, l: int|
        0 <= k < l < order.len() ==> {
            let a = #[trigger] order[k] as int;
            let b = #[trigger] order[l] as int;
            lexicographic_lt(keys[a], keys[b]) || (keys[a] == keys[b] && a < b)
        }
    &&& forall|p: int| 0 <= p < keys.len() ==> #[trigger] order.contains(p as usize)
}

/// The texts of a list of strings.
pub open spec fn texts(v: Seq<String>) -> Seq<Seq<char>> {
    v.map_values(|s: String| s@)
}

/// The stable lexicographic order of `keys`.
pub fn stable_text_order(keys: &Vec<String>) -> (r: Vec<usize>)
    ensures
        is_stable_text_order(r@, texts(keys@)),
{
    let ghost t = texts(keys@);
    let n: usize = keys.len();
    let mut order: Vec<usize> = Vec::new();
    let mut i: usize = 0;
    while i < n
        invariant
            n == keys@.len(),
            t == texts(keys@),
            i <= n,
            order@.len() == i,
            forall|k: int| 0 <= k < order@.len() ==> #[trigger] order@[k] < i,
            forall|k: int, l: int|
                0 <= k < l < order@.len() ==> {
                    let a = #[trigger] order@[k] as int;
                    let b = #[trigger] order@[l] as int;
                    lexicographic_lt(t[a], t[b]) || (t[a] == t[b] && a < b)
                },
            forall|p: int| 0 <= p < i ==> #[trigger] order@.contains(p as usize),
        decreases n - i,
    {
        let mut pos: usize = 0;
        while pos < order.len() && !str_lt(keys[i].as_str(), keys[order[pos]].as_str())
            invariant
                n == keys@.len(),
                t == texts(keys@),
                i < n,
                pos <= order@.len(),
                forall|k: int| 0 <= k < order@.len() ==> #[trigger] order@[k] < i,
                forall|k: int|
                    0 <= k < pos ==> !lexicographic_lt(t[i as int], t[#[trigger] order@[k] as int]),
            decreases order@.len() - pos,
        {
            proof {
                assert(t[order@[pos as int] as int] == keys@[order@[pos as int] as int]@);
            }
            pos = pos + 1;
        }
        let ghost before = order@;
        proof {
            if pos < before.len() {
                assert(t[before[pos as int] as int] == keys@[before[pos as int] as int]@);
                assert(t[i as int] == keys@[i as int]@);
            }
            assert forall|k: int| pos <= k < before.len() implies lexicographic_lt(
                t[i as int],
                t[#[trigger] before[k] as int],
            ) by {
                let a = before[pos as int] as int;
                let b = before[k] as int;
                if k > pos {
                    if lexicographic_lt(t[a], t[b]) {
                        lemma_lexicographic_transitive(t[i as int], t[a], t[b]);
                    }
                }
            }
        }
        order.insert(pos, i);
        proof {
            let after = order@;
            assert(after =~= before.insert(pos as int, i));
            assert forall|k: int| 0 <= k < after.len() implies #[trigger] after[k] < i + 1 by {
                if k < pos {
                    assert(after[k] == before[k]);
                } else if k > pos {
                    assert(after[k] == before[k - 1]);
                }
            }
            assert forall|k: int, l: int| 0 <= k < l < after.len() implies {
                let a = #[trigger] after[k] as int;
                let b = #[trigger] after[l] as int;
                lexicographic_lt(t[a], t[b]) || (t[a] == t[b] && a < b)
            } by {
                if l < pos {
                    assert(after[k] == before[k] && after[l] == before[l]);
                } else if l == pos {
                    assert(after[k] == before[k]);
                    let a = before[k] as int;
                    lemma_lexicographic_total(t[a], t[i as int]);
                } else if k < pos {
                    assert(after[k] == before[k] && after[l] == before[l - 1]);
                } else if k == pos {
                    assert(after[l] == before[l - 1]);
                } else {
                    assert(after[k] == before[k - 1] && after[l] == before[l - 1]);
                }
            }
            assert forall|p: int| 0 <= p < i + 1 implies #[trigger] after.contains(p as usize) by {
                if p == i {
                    assert(after[pos as int] == i);
                } else {
                    assert(before.contains(p as usize));
                    let k = choose|k: int| 0 <= k < before.len() && before[k] == p as usize;
                    if k < pos {
                        assert(after[k] == before[k]);
                    } else {
                        assert(after[k + 1] == before[k]);
                    }
                }
            }
        }
        i = i + 1;
    }
    order
}

} // verus!
