use vstd::prelude::*;

use crate::num::Stat;
use crate::output::covers_columns;
use crate::profiler::types::{ColumnProfile, CorrelationMatrix};

verus! {

/// Entry `a` ranks before entry `b`: its key is larger, or the keys are
/// equal and `a` comes first. This is the order a stable sort by key,
/// largest first, leaves the entries in.
pub open spec fn ranks_before(keys: Seq<u64>, a: int, b: int) -> bool {
    keys[a] > keys[b] || (keys[a] == keys[b] && a < b)
}

/// Index `c` is one of `idx`.
pub open spec fn listed(idx: Seq<usize>, c: int) -> bool {
    exists|i: int| 0 <= i < idx.len() && idx[i] == c
}

/// `idx` lists the first `k` entries of `keys` in the order of a stable
/// sort by key, largest first: each index is in range, they come in rank
/// order, and an entry is left out only when `k` entries rank before it.
pub open spec fn top_ranked(keys: Seq<u64>, k: nat, idx: Seq<usize>) -> bool {
    &&& idx.len() <= k
    &&& forall|i: int| 0 <= i < idx.len() ==> #[trigger] idx[i] < keys.len()
    &&& forall|i: int, j: int|
        0 <= i < j < idx.len() ==> ranks_before(keys, #[trigger] idx[i] as int, #[trigger] idx[j] as int)
    &&& forall|c: int|
        0 <= c < keys.len() ==> #[trigger] listed(idx, c) || (idx.len() == k && (k == 0 || ranks_before(
            keys,
            idx[k - 1] as int,
            c,
        )))
}

/// The indices of the `k` entries with the largest keys, largest first and
/// equal keys in their order (a stable sort by key, descending, then
/// truncated to `k`).
pub fn rank_desc(keys: &Vec<u64>, k: usize) -> (idx: Vec<usize>)
    ensures
        top_ranked(keys@, k as nat, idx@),
{
    let n = keys.len();
    let mut taken: Vec<bool> = Vec::new();
    for j in 0..n
        invariant
            taken.len() == j,
            forall|a: int| 0 <= a < j ==> !#[trigger] taken@[a],
    {
        taken.push(false);
    }
    let mut idx: Vec<usize> = Vec::new();
    while idx.len() < k
        invariant
            n == keys.len(),
            taken.len() == n,
            idx.len() <= k,
            forall|i: int| 0 <= i < idx.len() ==> #[trigger] idx@[i] < n && taken@[idx@[i] as int],
            forall|c: int|
                0 <= c < n && #[trigger] taken@[c] ==> exists|i: int| 0 <= i < idx.len() && #[trigger] idx@[i] == c,
            forall|i: int, j: int|
                0 <= i < j < idx.len() ==> ranks_before(keys@, #[trigger] idx@[i] as int, #[trigger] idx@[j] as int),
            forall|i: int, c: int|
                #![trigger idx@[i], taken@[c]]
                0 <= i < idx.len() && 0 <= c < n && !taken@[c] ==> ranks_before(keys@, idx@[i] as int, c),
        ensures
            idx.len() == k || forall|c: int| 0 <= c < n ==> #[trigger] taken@[c],
        decreases k - idx.len(),
    {
        let mut best: Option<usize> = None;
        for j in 0..n
            invariant
                n == keys.len(),
                taken.len() == n,
                best matches Some(b) ==> b < j && !taken@[b as int] && forall|c: int|
                    0 <= c < j && !taken@[c] && c != b ==> ranks_before(keys@, b as int, c),
                best is None ==> forall|c: int| 0 <= c < j ==> #[trigger] taken@[c],
        {
            if !taken[j] {
                match best {
                    None => {
                        best = Some(j);
                    },
                    Some(b) => {
                        if keys[j] > keys[b] {
                            best = Some(j);
                        }
                    },
                }
            }
        }
        match best {
            None => {
                break;
            },
            Some(b) => {
                let ghost old_idx = idx@;
                let ghost old_taken = taken@;
                taken.set(b, true);
                idx.push(b);
                assert forall|c: int| 0 <= c < n && #[trigger] taken@[c] implies exists|i: int|
                    0 <= i < idx.len() && #[trigger] idx@[i] == c by {
                    if c == b {
                        assert(idx@[idx.len() - 1] == c);
                    } else {
                        assert(old_taken[c]);
                        let i = choose|i: int| 0 <= i < old_idx.len() && #[trigger] old_idx[i] == c;
                        assert(idx@[i] == c);
                    }
                }
                assert forall|i: int| 0 <= i < idx.len() implies #[trigger] idx@[i] < n && taken@[idx@[i] as int] by {
                    if i < old_idx.len() {
                        assert(idx@[i] == old_idx[i]);
                    }
                }
                assert forall|i: int, j: int|
                    0 <= i < j < idx.len() implies ranks_before(keys@, #[trigger] idx@[i] as int, #[trigger] idx@[j] as int) by {
                    assert(idx@[i] == old_idx[i]);
                    if j < old_idx.len() {
                        assert(idx@[j] == old_idx[j]);
                    }
                }
                assert forall|i: int, c: int|
                    #![trigger idx@[i], taken@[c]]
                    0 <= i < idx.len() && 0 <= c < n && !taken@[c] implies ranks_before(keys@, idx@[i] as int, c) by {
                    assert(!old_taken[c] && c != b);
                    if i < old_idx.len() {
                        assert(idx@[i] == old_idx[i]);
                    }
                }
            },
        }
    }
    assert forall|c: int| 0 <= c < keys@.len() implies #[trigger] listed(idx@, c) || (idx@.len() == k && (k
        == 0 || ranks_before(keys@, idx@[k - 1] as int, c))) by {
        if !taken@[c] {
            assert(idx.len() == k);
        } else {
            let i = choose|i: int| 0 <= i < idx.len() && #[trigger] idx@[i] == c;
            assert(idx@[i] == c);
        }
    }
    assert(top_ranked(keys@, k as nat, idx@));
    idx
}

/// A ranked selection holds `k` entries, or every entry when there are
/// fewer than `k`.
pub proof fn lemma_top_ranked_len(keys: Seq<u64>, k: nat, idx: Seq<usize>)
    requires
        top_ranked(keys, k, idx),
    ensures
        idx.len() == if k < keys.len() {
            k
        } else {
            keys.len()
        },
{
    broadcast use vstd::seq_lib::seq_to_set_is_finite;

    let s = idx.map_values(|x: usize| x as int);
    assert forall|i: int, j: int| 0 <= i < s.len() && 0 <= j < s.len() && i != j implies s[i] != s[j] by {
        if i < j {
            assert(ranks_before(keys, idx[i] as int, idx[j] as int));
        } else {
            assert(ranks_before(keys, idx[j] as int, idx[i] as int));
        }
    }
    assert(s.no_duplicates());
    s.unique_seq_to_set();
    let range = vstd::set_lib::set_int_range(0, keys.len() as int);
    vstd::set_lib::lemma_int_range(0, keys.len() as int);
    assert forall|x: int| s.to_set().contains(x) implies range.contains(x) by {
        let i = choose|i: int| 0 <= i < s.len() && s[i] == x;
        assert(idx[i] < keys.len());
    }
    vstd::set_lib::lemma_len_subset(s.to_set(), range);
    if idx.len() < k {
        assert forall|c: int| range.contains(c) implies s.to_set().contains(c) by {
            assert(listed(idx, c));
            let i = choose|i: int| 0 <= i < idx.len() && idx[i] == c;
            assert(s[i] == c);
        }
        vstd::set_lib::lemma_len_subset(range, s.to_set());
    }
}

/// The magnitude keys of the null percentages, one per profile.
pub open spec fn null_keys(profiles: Seq<ColumnProfile>) -> Seq<u64> {
    Seq::new(profiles.len(), |i: int| profiles[i].null_pct.magnitude_key())
}

/// The indices of the `k` profiles with the most missing values, most first
/// and equal percentages in profile order. Percentages are not negative, so
/// their magnitude keys order them as their values do.
pub fn most_missing(profiles: &Vec<ColumnProfile>, k: usize) -> (idx: Vec<usize>)
    ensures
        top_ranked(null_keys(profiles@), k as nat, idx@),
{
    let mut keys: Vec<u64> = Vec::new();
    for i in 0..profiles.len()
        invariant
            keys@ == null_keys(profiles@).take(i as int),
    {
        keys.push(profiles[i].null_pct.magnitude());
        assert(keys@ =~= null_keys(profiles@).take(i + 1));
    }
    assert(keys@ =~= null_keys(profiles@));
    rank_desc(&keys, k)
}

/// The correlation at row `i`, column `j` is present and finite.
pub open spec fn finite_at(values: Seq<Vec<Option<Stat>>>, i: int, j: int) -> bool {
    values[i]@[j] matches Some(s) && s.finite()
}

/// The pairs `(i, t)` with `i < t < j` whose correlation is present and
/// finite, by increasing `t`.
pub open spec fn row_pairs(values: Seq<Vec<Option<Stat>>>, i: int, j: int) -> Seq<(usize, usize)>
    decreases j - i,
{
    if j <= i + 1 {
        Seq::empty()
    } else {
        let rest = row_pairs(values, i, j - 1);
        if finite_at(values, i, j - 1) {
            rest.push((i as usize, (j - 1) as usize))
        } else {
            rest
        }
    }
}

/// The pairs of distinct columns `i < j < n`, from the first `rows` rows, whose
/// correlation is present and finite, row by row.
pub open spec fn upper_pairs(values: Seq<Vec<Option<Stat>>>, n: int, rows: int) -> Seq<(usize, usize)>
    decreases rows,
{
    if rows <= 0 {
        Seq::empty()
    } else {
        upper_pairs(values, n, rows - 1) + row_pairs(values, rows - 1, n)
    }
}

/// Pair `p` comes before pair `q` in row-major order.
pub open spec fn pair_lt(p: (usize, usize), q: (usize, usize)) -> bool {
    p.0 < q.0 || (p.0 == q.0 && p.1 < q.1)
}

/// The pairs of distinct columns with a finite correlation, in row-major order.
pub fn correlation_pairs(corr: &CorrelationMatrix) -> (res: Vec<(usize, usize)>)
    requires
        covers_columns(*corr),
    ensures
        res@ == upper_pairs(corr.values@, corr.columns.len() as int, corr.columns.len() as int),
        forall|u: int, v: int| 0 <= u < v < res.len() ==> pair_lt(#[trigger] res@[u], #[trigger] res@[v]),
        forall|u: int|
            0 <= u < res.len() ==> (#[trigger] res@[u]).0 < res@[u].1 < corr.columns.len() && finite_at(
                corr.values@,
                res@[u].0 as int,
                res@[u].1 as int,
            ),
{
    let n = corr.columns.len();
    let ghost values = corr.values@;
    let mut out: Vec<(usize, usize)> = Vec::new();
    for i in 0..n
        invariant
            n == corr.columns.len(),
            values == corr.values@,
            covers_columns(*corr),
            out@ == upper_pairs(values, n as int, i as int),
            forall|u: int, v: int| 0 <= u < v < out.len() ==> pair_lt(#[trigger] out@[u], #[trigger] out@[v]),
            forall|u: int|
                0 <= u < out.len() ==> (#[trigger] out@[u]).0 < i && out@[u].0 < out@[u].1 < n && finite_at(
                    values,
                    out@[u].0 as int,
                    out@[u].1 as int,
                ),
    {
        let ghost before = out@;
        assert(corr.values@[i as int].len() >= n);
        for j in i + 1..n
            invariant
                n == corr.columns.len(),
                values == corr.values@,
                covers_columns(*corr),
                i < n,
                out@ == before + row_pairs(values, i as int, j as int),
                forall|u: int, v: int| 0 <= u < v < out.len() ==> pair_lt(#[trigger] out@[u], #[trigger] out@[v]),
                forall|u: int|
                    0 <= u < out.len() ==> ((#[trigger] out@[u]).0 < i || (out@[u].0 == i && out@[u].1 < j))
                        && out@[u].0 < out@[u].1 < n && finite_at(values, out@[u].0 as int, out@[u].1 as int),
        {
            assert(corr.values@[i as int].len() >= n);
            let keep = match &corr.values[i][j] {
                Some(s) => s.is_finite(),
                None => false,
            };
            if keep {
                let ghost prev = out@;
                out.push((i, j));
                assert(out@ =~= before + row_pairs(values, i as int, j + 1));
                assert forall|u: int, v: int| 0 <= u < v < out.len() implies pair_lt(#[trigger] out@[u], #[trigger] out@[v]) by {
                    assert(out@[u] == prev[u]);
                    if v < prev.len() {
                        assert(out@[v] == prev[v]);
                    }
                }
                assert forall|u: int| 0 <= u < out.len() implies ((#[trigger] out@[u]).0 < i || (out@[u].0 == i
                    && out@[u].1 < j + 1)) && out@[u].0 < out@[u].1 < n && finite_at(
                    values,
                    out@[u].0 as int,
                    out@[u].1 as int,
                ) by {
                    if u < prev.len() {
                        assert(out@[u] == prev[u]);
                    }
                }
            } else {
                assert(out@ =~= before + row_pairs(values, i as int, j + 1));
            }
        }
        assert(out@ =~= upper_pairs(values, n as int, i + 1));
    }
    out
}

/// The key of a pair: the magnitude of its correlation.
pub open spec fn pair_key(values: Seq<Vec<Option<Stat>>>, p: (usize, usize)) -> u64 {
    (values[p.0 as int]@[p.1 as int]->0).magnitude_key()
}

/// Pair `p` ranks before pair `q`: a stronger correlation, or an equally
/// strong one earlier in row-major order.
pub open spec fn pair_before(values: Seq<Vec<Option<Stat>>>, p: (usize, usize), q: (usize, usize)) -> bool {
    pair_key(values, p) > pair_key(values, q) || (pair_key(values, p) == pair_key(values, q) && pair_lt(p, q))
}

/// The `k` pairs of distinct columns with the strongest finite correlation,
/// strongest first and equally strong ones in row-major order (a stable
/// sort of the row-major pairs by magnitude, then truncated to `k`).
pub fn strongest_pairs(corr: &CorrelationMatrix, k: usize) -> (res: Vec<(usize, usize)>)
    requires
        covers_columns(*corr),
    ensures
        res.len() <= k,
        forall|a: int|
            0 <= a < res.len() ==> upper_pairs(corr.values@, corr.columns.len() as int, corr.columns.len() as int).contains(
                #[trigger] res@[a],
            ),
        forall|a: int, b: int| 0 <= a < b < res.len() ==> pair_before(corr.values@, #[trigger] res@[a], #[trigger] res@[b]),
        forall|p: (usize, usize)|
            #[trigger] upper_pairs(corr.values@, corr.columns.len() as int, corr.columns.len() as int).contains(p) ==> (
            exists|a: int| 0 <= a < res.len() && #[trigger] res@[a] == p) || (res.len() == k && (k == 0
                || pair_before(corr.values@, res@[k - 1], p))),
{
    let cands = correlation_pairs(corr);
    let ghost values = corr.values@;
    let mut keys: Vec<u64> = Vec::new();
    for t in 0..cands.len()
        invariant
            covers_columns(*corr),
            values == corr.values@,
            forall|u: int|
                0 <= u < cands.len() ==> (#[trigger] cands@[u]).0 < cands@[u].1 < corr.columns.len() && finite_at(
                    values,
                    cands@[u].0 as int,
                    cands@[u].1 as int,
                ),
            keys.len() == t,
            forall|u: int| 0 <= u < t ==> #[trigger] keys@[u] == pair_key(values, cands@[u]),
    {
        let (i, j) = cands[t];
        assert(corr.values@[i as int].len() >= corr.columns.len());
        let key = match &corr.values[i][j] {
            Some(s) => s.magnitude(),
            None => 0,
        };
        assert(key == pair_key(values, cands@[t as int]));
        let ghost old_keys = keys@;
        keys.push(key);
        assert forall|u: int| 0 <= u < t + 1 implies #[trigger] keys@[u] == pair_key(values, cands@[u]) by {
            if u < t {
                assert(keys@[u] == old_keys[u]);
            }
        }
    }
    let idx = rank_desc(&keys, k);
    let mut res: Vec<(usize, usize)> = Vec::new();
    for a in 0..idx.len()
        invariant
            top_ranked(keys@, k as nat, idx@),
            keys.len() == cands.len(),
            res.len() == a,
            forall|b: int| 0 <= b < a ==> #[trigger] res@[b] == cands@[idx@[b] as int],
    {
        assert(idx@[a as int] < keys.len());
        let ghost old_res = res@;
        res.push(cands[idx[a]]);
        assert forall|b: int| 0 <= b < a + 1 implies #[trigger] res@[b] == cands@[idx@[b] as int] by {
            if b < a {
                assert(res@[b] == old_res[b]);
            }
        }
    }
    assert forall|a: int| 0 <= a < res.len() implies upper_pairs(values, corr.columns.len() as int, corr.columns.len() as int).contains(
        #[trigger] res@[a]) by {
        assert(idx@[a] < keys.len());
        assert(cands@[idx@[a] as int] == res@[a]);
    }
    assert forall|a: int, b: int| 0 <= a < b < res.len() implies pair_before(values, #[trigger] res@[a], #[trigger] res@[b]) by {
        let x = idx@[a] as int;
        let y = idx@[b] as int;
        assert(ranks_before(keys@, x, y));
        assert(x < keys.len() && y < keys.len());
        if keys@[x] == keys@[y] {
            assert(x < y);
            assert(pair_lt(cands@[x], cands@[y]));
        }
    }
    assert forall|p: (usize, usize)|
        #[trigger] upper_pairs(values, corr.columns.len() as int, corr.columns.len() as int).contains(p) implies (
        exists|a: int| 0 <= a < res.len() && #[trigger] res@[a] == p) || (res.len() == k && (k == 0
            || pair_before(values, res@[k - 1], p))) by {
        let c = choose|c: int| 0 <= c < cands.len() && cands@[c] == p;
        assert(keys@[c] == pair_key(values, p));
        if listed(idx@, c) {
            let i = choose|i: int| 0 <= i < idx.len() && #[trigger] idx@[i] == c;
            assert(res@[i] == p);
        } else {
            assert(res.len() == k);
            if k > 0 {
                let last = idx@[k - 1] as int;
                assert(ranks_before(keys@, last, c));
                if keys@[last] == keys@[c] {
                    assert(pair_lt(cands@[last], cands@[c]));
                }
            }
        }
    }
    res
}

} // verus!
