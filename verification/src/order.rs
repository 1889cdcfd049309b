//! Stable ordering by an integer key: the order the engine lists runtimes,
//! releases and versions in.

use vstd::prelude::*;

verus! {

/// `order` lists every index of `keys` once, by ascending key, and equal
/// keys in the order they stand in `keys`.
pub open spec fn stable_order(keys: Seq<i64>, order: Seq<usize>) -> bool {
    &&& order.len() == keys.len()
    &&& forall|i: int| 0 <= i < order.len() ==> #[trigger] order[i] < keys.len()
    &&& forall|i: int, j: int|
        0 <= i < j < order.len() ==> {
            let a = #[trigger] order[i];
            let b = #[trigger] order[j];
            keys[a as int] < keys[b as int] || (keys[a as int] == keys[b as int] && a < b)
        }
}

/// The stable ascending order of `keys`, as the list of their indices.
pub fn stable_sort_order(keys: &Vec<i64>) -> (order: Vec<usize>)
    ensures
        stable_order(keys@, order@),
{
    let mut order: Vec<usize> = Vec::new();
    let mut k: usize = 0;
    while k < keys.len()
        invariant
            k <= keys@.len(),
            order@.len() == k,
            forall|i: int| 0 <= i < order@.len() ==> #[trigger] order@[i] < k,
            forall|i: int, j: int|
                0 <= i < j < order@.len() ==> {
                    let a = #[trigger] order@[i];
                    let b = #[trigger] order@[j];
                    keys@[a as int] < keys@[b as int] || (keys@[a as int] == keys@[b as int] && a < b)
                },
        decreases keys.len() - k,
    {
        let key = keys[k];
        let mut p: usize = order.len();
        while p > 0 && keys[order[p - 1]] > key
            invariant
                p <= order@.len(),
                order@.len() == k,
                k < keys@.len(),
                key == keys@[k as int],
                forall|i: int| 0 <= i < order@.len() ==> #[trigger] order@[i] < k,
                forall|i: int| p <= i < order@.len() ==> keys@[#[trigger] order@[i] as int] > key,
            decreases p,
        {
            p -= 1;
        }
        let ghost before = order@;
        proof {
            // Everything left of `p` has a key no greater than `key`.
            assert forall|i: int| 0 <= i < p implies keys@[#[trigger] before[i] as int] <= key by {
                if i < p - 1 {
                    let a = before[i];
                    let b = before[p - 1];
                    assert(keys@[a as int] <= keys@[b as int]);
                }
            }
        }
        order.insert(p, k);
        proof {
            before.insert_ensures(p as int, k);
            assert forall|i: int, j: int| 0 <= i < j < order@.len() implies {
                let a = #[trigger] order@[i];
                let b = #[trigger] order@[j];
                keys@[a as int] < keys@[b as int] || (keys@[a as int] == keys@[b as int] && a < b)
            } by {
                if j < p {
                    assert(order@[i] == before[i] && order@[j] == before[j]);
                } else if j == p {
                    assert(order@[i] == before[i]);
                    assert(keys@[before[i] as int] <= key);
                } else if i == p {
                    assert(order@[j] == before[j - 1]);
                    assert(keys@[before[j - 1] as int] > key);
                } else if i < p {
                    assert(order@[i] == before[i] && order@[j] == before[j - 1]);
                    let a = before[i];
                    let b = before[j - 1];
                    assert(keys@[a as int] < keys@[b as int] || (keys@[a as int] == keys@[b as int]
                        && a < b));
                } else {
                    assert(order@[i] == before[i - 1] && order@[j] == before[j - 1]);
                    let a = before[i - 1];
                    let b = before[j - 1];
                    assert(keys@[a as int] < keys@[b as int] || (keys@[a as int] == keys@[b as int]
                        && a < b));
                }
            }
            assert forall|i: int| 0 <= i < order@.len() implies #[trigger] order@[i] < k + 1 by {
                if i < p {
                    assert(order@[i] == before[i]);
                } else if i > p {
                    assert(order@[i] == before[i - 1]);
                }
            }
        }
        k += 1;
    }
    order
}


/// A stable order lists no index twice.
pub proof fn lemma_stable_order_distinct(keys: Seq<i64>, order: Seq<usize>, i: int, j: int)
    requires
        stable_order(keys, order),
        0 <= i < j < order.len(),
    ensures
        order[i] != order[j],
        keys[order[i] as int] <= keys[order[j] as int],
{
    let a = order[i];
    let b = order[j];
    assert(keys[a as int] < keys[b as int] || (keys[a as int] == keys[b as int] && a < b));
}

/// `a` comes strictly before `b` in code-point order, the order `str`
/// compares in.
pub open spec fn lex_lt(a: Seq<char>, b: Seq<char>) -> bool
    decreases a.len(),
{
    if a.len() == 0 {
        b.len() > 0
    } else if b.len() == 0 {
        false
    } else if a[0] != b[0] {
        a[0] < b[0]
    } else {
        lex_lt(a.skip(1), b.skip(1))
    }
}

proof fn lemma_lex_irreflexive(a: Seq<char>)
    ensures
        !lex_lt(a, a),
    decreases a.len(),
{
    if a.len() > 0 {
        lemma_lex_irreflexive(a.skip(1));
    }
}

proof fn lemma_lex_two(a: Seq<char>, b: Seq<char>)
    ensures
        lex_lt(a, b) ==> !lex_lt(b, a),
        a != b ==> lex_lt(a, b) || lex_lt(b, a),
    decreases a.len(),
{
    if a.len() == 0 && b.len() == 0 {
        assert(a =~= b);
    }
    if a.len() > 0 && b.len() > 0 {
        lemma_lex_two(a.skip(1), b.skip(1));
        if a[0] == b[0] && a.skip(1) == b.skip(1) {
            assert(a =~= seq![a[0]] + a.skip(1));
            assert(b =~= seq![b[0]] + b.skip(1));
        }
    }
}

proof fn lemma_lex_transitive(a: Seq<char>, b: Seq<char>, c: Seq<char>)
    ensures
        lex_lt(a, b) && lex_lt(b, c) ==> lex_lt(a, c),
    decreases a.len(),
{
    if a.len() > 0 && b.len() > 0 && c.len() > 0 {
        lemma_lex_transitive(a.skip(1), b.skip(1), c.skip(1));
    }
}

/// Code-point order is a strict total order: irreflexive, asymmetric,
/// transitive, and any two different texts are ordered one way.
pub proof fn lemma_lex_order(a: Seq<char>, b: Seq<char>, c: Seq<char>)
    ensures
        !lex_lt(a, a),
        lex_lt(a, b) ==> !lex_lt(b, a),
        lex_lt(a, b) && lex_lt(b, c) ==> lex_lt(a, c),
        a != b ==> lex_lt(a, b) || lex_lt(b, a),
{
    lemma_lex_irreflexive(a);
    lemma_lex_two(a, b);
    lemma_lex_transitive(a, b, c);
}

/// Whether `a` comes strictly before `b` in code-point order.
pub fn lex_less(a: &str, b: &str) -> (r: bool)
    ensures
        r == lex_lt(a@, b@),
{
    let ac = crate::text::chars_of(a);
    let bc = crate::text::chars_of(b);
    let mut i: usize = 0;
    assert(a@.skip(0) =~= a@);
    assert(b@.skip(0) =~= b@);
    while i < ac.len() && i < bc.len()
        invariant
            ac@ == a@,
            bc@ == b@,
            i <= ac@.len(),
            i <= bc@.len(),
            lex_lt(a@, b@) == lex_lt(a@.skip(i as int), b@.skip(i as int)),
        decreases ac.len() - i,
    {
        if ac[i] != bc[i] {
            assert(a@.skip(i as int)[0] == ac@[i as int]);
            assert(b@.skip(i as int)[0] == bc@[i as int]);
            return ac[i] < bc[i];
        }
        assert(a@.skip(i as int).skip(1) =~= a@.skip(i + 1));
        assert(b@.skip(i as int).skip(1) =~= b@.skip(i + 1));
        i += 1;
    }
    i < bc.len()
}

/// Every text of `s` strictly before every later one.
pub open spec fn strictly_sorted(s: Seq<Seq<char>>) -> bool {
    forall|i: int, j: int| 0 <= i < j < s.len() ==> lex_lt(#[trigger] s[i], #[trigger] s[j])
}

/// The texts of `items`, each once, in code-point order.
pub fn sorted_unique(items: &Vec<String>) -> (r: Vec<String>)
    ensures
        strictly_sorted(r.deep_view()),
        forall|x: Seq<char>| #[trigger] r.deep_view().contains(x) <==> items.deep_view().contains(x),
{
    let ghost all = items.deep_view();
    let mut out: Vec<String> = Vec::new();
    let mut k: usize = 0;
    while k < items.len()
        invariant
            all == items.deep_view(),
            k <= all.len(),
            strictly_sorted(out.deep_view()),
            forall|x: Seq<char>| #[trigger] out.deep_view().contains(x) <==> all.take(k as int).contains(x),
        decreases items.len() - k,
    {
        let x = items[k].clone();
        let ghost xv = x@;
        assert(xv == all[k as int]);
        let ghost before = out.deep_view();
        let mut p: usize = 0;
        while p < out.len()
            invariant
                before == out.deep_view(),
                xv == x@,
                p <= before.len(),
                forall|i: int| 0 <= i < p ==> lex_lt(#[trigger] before[i], xv),
            ensures
                p <= before.len(),
                forall|i: int| 0 <= i < p ==> lex_lt(#[trigger] before[i], xv),
                p == before.len() || !lex_lt(before[p as int], xv),
            decreases out.len() - p,
        {
            let current = out[p].as_str();
            let wanted = x.as_str();
            assert(current@ == before[p as int]);
            assert(wanted@ == xv);
            if !lex_less(current, wanted) {
                break;
            }
            p += 1;
        }
        let ghost prev = all.take(k as int);
        let ghost next = all.take(k + 1);
        assert(next =~= prev.push(xv));
        if p < out.len() && out[p] == x {
            assert(before[p as int] == xv);
            assert forall|y: Seq<char>| #[trigger] out.deep_view().contains(y) <==> next.contains(y) by {
                if next.contains(y) {
                    let w = choose|w: int| 0 <= w < next.len() && next[w] == y;
                    if w < k {
                        assert(prev[w] == y);
                    }
                }
                if out.deep_view().contains(y) {
                    assert(prev.contains(y));
                    let w = choose|w: int| 0 <= w < prev.len() && prev[w] == y;
                    assert(next[w] == y);
                }
            }
        } else {
            proof {
                // Everything from `p` on comes after `x`.
                assert forall|i: int| p <= i < before.len() implies lex_lt(xv, #[trigger] before[i]) by {
                    if i == p {
                        lemma_lex_order(before[i], xv, xv);
                    } else {
                        lemma_lex_order(before[p as int], xv, xv);
                        lemma_lex_order(xv, before[p as int], before[i]);
                    }
                }
            }
            out.insert(p, x);
            let ghost after = out.deep_view();
            assert(after =~= before.insert(p as int, xv));
            assert forall|i: int, j: int| 0 <= i < j < after.len() implies lex_lt(#[trigger] after[i], #[trigger] after[j]) by {
                if j < p {
                    assert(after[i] == before[i] && after[j] == before[j]);
                } else if j == p {
                    assert(after[i] == before[i]);
                } else if i == p {
                    assert(after[j] == before[j - 1]);
                } else if i < p {
                    assert(after[i] == before[i] && after[j] == before[j - 1]);
                } else {
                    assert(after[i] == before[i - 1] && after[j] == before[j - 1]);
                }
            }
            assert forall|y: Seq<char>| #[trigger] after.contains(y) <==> next.contains(y) by {
                if after.contains(y) {
                    let w = choose|w: int| 0 <= w < after.len() && after[w] == y;
                    if w < p {
                        assert(before[w] == y);
                        assert(before.contains(y));
                    } else if w > p {
                        assert(before[w - 1] == y);
                        assert(before.contains(y));
                    }
                    if y != xv {
                        let v = choose|v: int| 0 <= v < prev.len() && prev[v] == y;
                        assert(next[v] == y);
                    } else {
                        assert(next[k as int] == y);
                    }
                }
                if next.contains(y) {
                    let w = choose|w: int| 0 <= w < next.len() && next[w] == y;
                    if w < k {
                        assert(prev[w] == y);
                        assert(before.contains(y));
                        let v = choose|v: int| 0 <= v < before.len() && before[v] == y;
                        if v < p {
                            assert(after[v] == y);
                        } else {
                            assert(after[v + 1] == y);
                        }
                    } else {
                        assert(after[p as int] == y);
                    }
                }
            }
        }
        k += 1;
    }
    assert(all.take(all.len() as int) =~= all);
    out
}

/// Whether entry `a` (taken at `ta`, file `fa`) lists before entry `b`:
/// newer first, and by file name among those taken at the same second.
pub open spec fn shot_before(ta: i64, fa: Seq<char>, tb: i64, fb: Seq<char>) -> bool {
    ta > tb || (ta == tb && lex_lt(fa, fb))
}

/// `order` lists every index of the entries once, newest first, by file
/// name within a second, and entries alike in both in their given order.
pub open spec fn newest_first_order(taken: Seq<i64>, files: Seq<Seq<char>>, order: Seq<usize>) -> bool {
    &&& order.len() == taken.len()
    &&& forall|i: int| 0 <= i < order.len() ==> #[trigger] order[i] < taken.len()
    &&& forall|i: int, j: int|
        0 <= i < j < order.len() ==> {
            let a = #[trigger] order[i] as int;
            let b = #[trigger] order[j] as int;
            shot_before(taken[a], files[a], taken[b], files[b]) || (taken[a] == taken[b] && files[a]
                == files[b] && a < b)
        }
}

proof fn lemma_shot_order(ta: i64, fa: Seq<char>, tb: i64, fb: Seq<char>, tc: i64, fc: Seq<char>)
    ensures
        !shot_before(ta, fa, tb, fb) ==> shot_before(tb, fb, ta, fa) || (ta == tb && fa == fb),
        shot_before(ta, fa, tb, fb) && shot_before(tb, fb, tc, fc) ==> shot_before(ta, fa, tc, fc),
        shot_before(ta, fa, tb, fb) ==> !shot_before(tb, fb, ta, fa),
{
    lemma_lex_order(fa, fb, fc);
    lemma_lex_order(fb, fa, fa);
}

/// The listing order of entries taken at `taken` with file names `files`,
/// as the list of their indices: newest first, by file name within a second,
/// stable otherwise.
pub fn newest_first(taken: &Vec<i64>, files: &Vec<String>) -> (order: Vec<usize>)
    requires
        taken@.len() == files@.len(),
    ensures
        newest_first_order(taken@, files.deep_view(), order@),
{
    let ghost fv = files.deep_view();
    let mut order: Vec<usize> = Vec::new();
    let mut k: usize = 0;
    while k < taken.len()
        invariant
            taken@.len() == files@.len(),
            fv == files.deep_view(),
            k <= taken@.len(),
            order@.len() == k,
            forall|i: int| 0 <= i < order@.len() ==> #[trigger] order@[i] < k,
            forall|i: int, j: int|
                0 <= i < j < order@.len() ==> {
                    let a = #[trigger] order@[i] as int;
                    let b = #[trigger] order@[j] as int;
                    shot_before(taken@[a], fv[a], taken@[b], fv[b]) || (taken@[a] == taken@[b] && fv[a] == fv[b] && a < b)
                },
        decreases taken.len() - k,
    {
        let t = taken[k];
        let f = files[k].as_str();
        assert(f@ == fv[k as int]);
        let mut p: usize = order.len();
        while p > 0
            invariant
                taken@.len() == files@.len(),
                fv == files.deep_view(),
                p <= order@.len(),
                order@.len() == k,
                k < taken@.len(),
                t == taken@[k as int],
                f@ == fv[k as int],
                forall|i: int| 0 <= i < order@.len() ==> #[trigger] order@[i] < k,
                forall|i: int| p <= i < order@.len() ==> shot_before(t, f@, taken@[#[trigger] order@[i] as int], fv[order@[i] as int]),
            ensures
                p <= order@.len(),
                forall|i: int| p <= i < order@.len() ==> shot_before(t, f@, taken@[#[trigger] order@[i] as int], fv[order@[i] as int]),
                p == 0 || !shot_before(t, f@, taken@[order@[p - 1] as int], fv[order@[p - 1] as int]),
            decreases p,
        {
            let q = order[p - 1];
            let other = files[q].as_str();
            assert(other@ == fv[q as int]);
            let before = t > taken[q] || (t == taken[q] && lex_less(f, other));
            if !before {
                break;
            }
            p -= 1;
        }
        let ghost before = order@;
        proof {
            // Everything left of `p` lists no later than the new entry.
            assert forall|i: int| 0 <= i < p implies ({
                let a = #[trigger] before[i] as int;
                shot_before(taken@[a], fv[a], t, f@) || (taken@[a] == t && fv[a] == f@)
            }) by {
                let c = before[p - 1] as int;
                lemma_shot_order(t, f@, taken@[c], fv[c], t, f@);
                if i < p - 1 {
                    let a = before[i] as int;
                    lemma_shot_order(taken@[a], fv[a], taken@[c], fv[c], t, f@);
                }
            }
        }
        order.insert(p, k);
        proof {
            before.insert_ensures(p as int, k);
            assert forall|i: int, j: int| 0 <= i < j < order@.len() implies {
                let a = #[trigger] order@[i] as int;
                let b = #[trigger] order@[j] as int;
                shot_before(taken@[a], fv[a], taken@[b], fv[b]) || (taken@[a] == taken@[b] && fv[a] == fv[b] && a < b)
            } by {
                if j < p {
                    assert(order@[i] == before[i] && order@[j] == before[j]);
                } else if j == p {
                    assert(order@[i] == before[i]);
                } else if i == p {
                    assert(order@[j] == before[j - 1]);
                } else if i < p {
                    assert(order@[i] == before[i] && order@[j] == before[j - 1]);
                } else {
                    assert(order@[i] == before[i - 1] && order@[j] == before[j - 1]);
                }
            }
            assert forall|i: int| 0 <= i < order@.len() implies #[trigger] order@[i] < k + 1 by {
                if i < p {
                    assert(order@[i] == before[i]);
                } else if i > p {
                    assert(order@[i] == before[i - 1]);
                }
            }
        }
        k += 1;
    }
    order
}

} // verus!
