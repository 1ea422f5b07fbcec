use vstd::prelude::*;

use vstd::hash_map::StringHashMap;

use crate::text::{
    chars_lt, chars_of, lemma_text_lt_irreflexive, lemma_text_lt_total, lemma_text_lt_transitive, text_lt,
    text_of,
};

verus! {

broadcast use vstd::hash_map::group_hash_map_axioms;

/// How many of `values` are present and equal to `s`.
pub open spec fn occurrences(values: Seq<Option<String>>, s: Seq<char>) -> nat
    decreases values.len(),
{
    if values.len() == 0 {
        0
    } else {
        occurrences(values.drop_last(), s) + (if values.last() matches Some(v) && v@ == s {
            1nat
        } else {
            0nat
        })
    }
}

proof fn lemma_occurrences_bound(values: Seq<Option<String>>, s: Seq<char>)
    ensures
        occurrences(values, s) <= values.len(),
    decreases values.len(),
{
    if values.len() > 0 {
        lemma_occurrences_bound(values.drop_last(), s);
    }
}

/// The distinct present values of `values` in order of first appearance,
/// each with how often it occurs.
fn count_values(values: &Vec<Option<String>>) -> (res: (Vec<String>, StringHashMap<u64>))
    ensures
        forall|i: int, j: int|
            0 <= i < j < res.0.len() ==> #[trigger] res.0@[i]@ != #[trigger] res.0@[j]@,
        forall|s: Seq<char>| #[trigger]
            res.1@.contains_key(s) <==> occurrences(values@, s) > 0,
        forall|s: Seq<char>| #[trigger]
            res.1@.contains_key(s) ==> res.1@[s] == occurrences(values@, s),
        forall|s: Seq<char>| #![trigger res.1@.contains_key(s)]
            res.1@.contains_key(s) <==> exists|i: int| 0 <= i < res.0@.len() && #[trigger] res.0@[i]@ == s,
{
    let mut keys: Vec<String> = Vec::new();
    let mut counts: StringHashMap<u64> = StringHashMap::new();
    for k in 0..values.len()
        invariant
            forall|i: int, j: int|
                0 <= i < j < keys.len() ==> #[trigger] keys@[i]@ != #[trigger] keys@[j]@,
            forall|s: Seq<char>| #[trigger]
                counts@.contains_key(s) <==> occurrences(values@.take(k as int), s) > 0,
            forall|s: Seq<char>| #[trigger]
                counts@.contains_key(s) ==> counts@[s] == occurrences(values@.take(k as int), s),
            forall|s: Seq<char>| #![trigger counts@.contains_key(s)]
                counts@.contains_key(s) <==> exists|i: int| 0 <= i < keys.len() && #[trigger] keys@[i]@ == s,
    {
        let ghost prev = values@.take(k as int);
        assert(values@.take(k + 1).drop_last() =~= prev);
        match &values[k] {
            Some(v) => {
                let key = v.as_str();
                proof {
                    lemma_occurrences_bound(prev, key@);
                }
                match counts.get(key) {
                    Some(c) => {
                        let c = *c;
                        counts.insert(v.clone(), c + 1);
                    },
                    None => {
                        let ghost old_keys = keys@;
                        counts.insert(v.clone(), 1);
                        keys.push(v.clone());
                        assert(keys@[keys.len() - 1]@ == key@);
                        assert forall|s: Seq<char>|
                            counts@.contains_key(s) <==> exists|i: int|
                                0 <= i < keys.len() && #[trigger] keys@[i]@ == s by {
                            if s == key@ {
                                assert(keys@[keys.len() - 1]@ == s);
                            } else if counts@.contains_key(s) {
                                let i = choose|i: int| 0 <= i < old_keys.len() && #[trigger] old_keys[i]@ == s;
                                assert(keys@[i]@ == s);
                            } else {
                                assert forall|i: int| 0 <= i < keys.len() implies #[trigger] keys@[i]@ != s by {
                                    if i < old_keys.len() {
                                        assert(keys@[i] == old_keys[i]);
                                    }
                                }
                            }
                        }
                    },
                }
                assert forall|s: Seq<char>| #[trigger]
                    counts@.contains_key(s) <==> occurrences(values@.take(k + 1), s) > 0 by {}
            },
            None => {},
        }
    }
    assert(values@.take(values.len() as int) =~= values@);
    let ghost kv = keys@;
    let ghost cv = counts@;
    let res = (keys, counts);
    assert(res.0@ == kv);
    assert(res.1@ == cv);
    assert forall|s: Seq<char>| #![trigger res.1@.contains_key(s)]
        res.1@.contains_key(s) <==> exists|i: int| 0 <= i < res.0@.len() && #[trigger] res.0@[i]@ == s by {
        if res.1@.contains_key(s) {
            assert(cv.contains_key(s));
            let i = choose|i: int| 0 <= i < kv.len() && #[trigger] kv[i]@ == s;
            assert(res.0@[i]@ == s);
        }
    }
    res
}


/// Entry `i` of `values` is present and equal to `s`.
pub open spec fn present_at(values: Seq<Option<String>>, i: int, s: Seq<char>) -> bool {
    values[i] matches Some(v) && v@ == s
}

proof fn lemma_occurs_somewhere(values: Seq<Option<String>>, s: Seq<char>)
    requires
        occurrences(values, s) > 0,
    ensures
        exists|i: int| 0 <= i < values.len() && #[trigger] present_at(values, i, s),
    decreases values.len(),
{
    let n = values.len();
    if present_at(values, n - 1, s) {
    } else {
        lemma_occurs_somewhere(values.drop_last(), s);
        let i = choose|i: int| 0 <= i < n - 1 && #[trigger] present_at(values.drop_last(), i, s);
        assert(values.drop_last()[i] == values[i]);
        assert(present_at(values, i, s));
    }
}

/// The values that occur at least once.
pub open spec fn present_values(values: Seq<Option<String>>) -> Set<Seq<char>> {
    Set::new(|s: Seq<char>| occurrences(values, s) > 0)
}

/// A category selection as `top_categories` returns it holds `k` entries,
/// or every present value when there are fewer than `k`.
pub proof fn lemma_top_categories_len(values: Seq<Option<String>>, k: nat, res: Seq<(String, u64)>)
    requires
        res.len() <= k,
        ranked(res),
        forall|i: int|
            0 <= i < res.len() ==> #[trigger] res[i].1 == occurrences(values, res[i].0@) && res[i].1 > 0,
        forall|s: Seq<char>|
            occurrences(values, s) > 0 ==> (exists|i: int| 0 <= i < res.len() && #[trigger] res[i].0@ == s)
                || (res.len() == k && (k == 0 || outranks_by(
                res[k - 1].0@,
                res[k - 1].1 as int,
                s,
                occurrences(values, s) as int,
            ))),
    ensures
        present_values(values).finite(),
        res.len() == if k < present_values(values).len() {
            k
        } else {
            present_values(values).len()
        },
{
    broadcast use vstd::seq_lib::seq_to_set_is_finite;

    let present = present_values(values);
    let all = Seq::new(values.len(), |i: int| match values[i] {
        Some(v) => v@,
        None => Seq::<char>::empty(),
    });
    assert forall|s: Seq<char>| present.contains(s) implies all.to_set().contains(s) by {
        lemma_occurs_somewhere(values, s);
        let i = choose|i: int| 0 <= i < values.len() && #[trigger] present_at(values, i, s);
        assert(all[i] == s);
    }
    vstd::set_lib::lemma_len_subset(present, all.to_set());

    let names = res.map_values(|e: (String, u64)| e.0@);
    assert forall|i: int, j: int| 0 <= i < names.len() && 0 <= j < names.len() && i != j implies names[i]
        != names[j] by {
        let (a, b) = if i < j { (i, j) } else { (j, i) };
        assert(outranks(res[a], res[b]));
        if res[a].1 == res[b].1 {
            lemma_text_lt_irreflexive(res[a].0@);
        }
    }
    assert(names.no_duplicates());
    names.unique_seq_to_set();
    assert forall|s: Seq<char>| names.to_set().contains(s) implies present.contains(s) by {
        let i = choose|i: int| 0 <= i < names.len() && names[i] == s;
        assert(res[i].1 == occurrences(values, res[i].0@));
    }
    vstd::set_lib::lemma_len_subset(names.to_set(), present);
    if res.len() < k {
        assert forall|s: Seq<char>| present.contains(s) implies names.to_set().contains(s) by {
            let i = choose|i: int| 0 <= i < res.len() && #[trigger] res[i].0@ == s;
            assert(names[i] == s);
        }
        vstd::set_lib::lemma_len_subset(present, names.to_set());
    }
}

/// Category `(a_name, a_count)` ranks before `(b_name, b_count)`: it occurs
/// more often, or as often with a name that sorts first.
pub open spec fn outranks_by(a_name: Seq<char>, a_count: int, b_name: Seq<char>, b_count: int) -> bool {
    a_count > b_count || (a_count == b_count && text_lt(a_name, b_name))
}

/// Entry `a` ranks before entry `b`.
pub open spec fn outranks(a: (String, u64), b: (String, u64)) -> bool {
    outranks_by(a.0@, a.1 as int, b.0@, b.1 as int)
}

/// Every entry ranks before all later ones.
pub open spec fn ranked(s: Seq<(String, u64)>) -> bool {
    forall|i: int, j: int| 0 <= i < j < s.len() ==> outranks(#[trigger] s[i], #[trigger] s[j])
}

proof fn lemma_outranks_by_transitive(
    a: Seq<char>,
    ac: int,
    b: Seq<char>,
    bc: int,
    c: Seq<char>,
    cc: int,
)
    requires
        outranks_by(a, ac, b, bc),
        outranks_by(b, bc, c, cc),
    ensures
        outranks_by(a, ac, c, cc),
{
    if ac == bc && bc == cc {
        lemma_text_lt_transitive(a, b, c);
    }
}

/// Candidate `a` ranks before candidate `b`.
spec fn beats(names: Seq<Vec<char>>, counts: Seq<u64>, a: int, b: int) -> bool {
    outranks_by(names[a]@, counts[a] as int, names[b]@, counts[b] as int)
}

fn beats_exec(names: &Vec<Vec<char>>, counts: &Vec<u64>, a: usize, b: usize) -> (res: bool)
    requires
        a < names.len(),
        b < names.len(),
        names.len() == counts.len(),
    ensures
        res == beats(names@, counts@, a as int, b as int),
{
    if counts[a] > counts[b] {
        true
    } else if counts[a] == counts[b] {
        chars_lt(&names[a], &names[b])
    } else {
        false
    }
}

/// The indices of the best `k` candidates, best first. Names are distinct.
fn select_top(names: &Vec<Vec<char>>, counts: &Vec<u64>, k: usize) -> (idx: Vec<usize>)
    requires
        names.len() == counts.len(),
        forall|a: int, b: int| 0 <= a < b < names.len() ==> #[trigger] names@[a]@ != #[trigger] names@[b]@,
    ensures
        idx.len() <= k,
        forall|i: int| 0 <= i < idx.len() ==> #[trigger] idx@[i] < names.len(),
        forall|i: int, j: int|
            0 <= i < j < idx.len() ==> beats(names@, counts@, #[trigger] idx@[i] as int, #[trigger] idx@[j] as int),
        forall|c: int| #![trigger names@[c]]
            0 <= c < names.len() ==> (exists|i: int| 0 <= i < idx.len() && #[trigger] idx@[i] == c) || (
            idx.len() == k && (k == 0 || beats(names@, counts@, idx@[k - 1] as int, c))),
{
    let n = names.len();
    let mut taken: Vec<bool> = Vec::new();
    for j in 0..n
        invariant
            taken.len() == j,
            forall|a: int| 0 <= a < j ==> !#[trigger] taken@[a],
    {
        taken.push(false);
    }
    let mut idx: Vec<usize> = Vec::new();
    while idx.len() < k
        invariant
            n == names.len(),
            names.len() == counts.len(),
            forall|a: int, b: int| 0 <= a < b < names.len() ==> #[trigger] names@[a]@ != #[trigger] names@[b]@,
            taken.len() == n,
            idx.len() <= k,
            forall|i: int| 0 <= i < idx.len() ==> #[trigger] idx@[i] < n && taken@[idx@[i] as int],
            forall|c: int| 0 <= c < n && #[trigger] taken@[c] ==> exists|i: int| 0 <= i < idx.len() && #[trigger] idx@[i] == c,
            forall|i: int, j: int|
                0 <= i < j < idx.len() ==> beats(names@, counts@, #[trigger] idx@[i] as int, #[trigger] idx@[j] as int),
            forall|i: int, c: int| #![trigger idx@[i], taken@[c]]
                0 <= i < idx.len() && 0 <= c < n && !taken@[c] ==> beats(names@, counts@, idx@[i] as int, c),
        ensures
            idx.len() == k || forall|c: int| 0 <= c < n ==> #[trigger] taken@[c],
        decreases k - idx.len(),
    {
        let mut best: Option<usize> = None;
        for j in 0..n
            invariant
                n == names.len(),
                names.len() == counts.len(),
                forall|a: int, b: int| 0 <= a < b < names.len() ==> #[trigger] names@[a]@ != #[trigger] names@[b]@,
                taken.len() == n,
                best matches Some(b) ==> b < j && !taken@[b as int] && forall|c: int|
                    0 <= c < j && !taken@[c] && c != b ==> beats(names@, counts@, b as int, c),
                best is None ==> forall|c: int| 0 <= c < j ==> #[trigger] taken@[c],
        {
            if !taken[j] {
                match best {
                    None => {
                        best = Some(j);
                    },
                    Some(b) => {
                        if beats_exec(names, counts, j, b) {
                            assert forall|c: int|
                                0 <= c < j + 1 && !taken@[c] && c != j implies beats(names@, counts@, j as int, c) by {
                                if c != b {
                                    lemma_outranks_by_transitive(
                                        names@[j as int]@, counts@[j as int] as int,
                                        names@[b as int]@, counts@[b as int] as int,
                                        names@[c]@, counts@[c] as int,
                                    );
                                }
                            }
                            best = Some(j);
                        } else {
                            proof {
                                if b < j {
                                    lemma_text_lt_total(names@[b as int]@, names@[j as int]@);
                                } else {
                                    lemma_text_lt_total(names@[j as int]@, names@[b as int]@);
                                }
                            }
                        }
                    },
                }
            }
        }
        match best {
            None => {
                break;
            },
            Some(b) => {
                let ghost old_idx = idx@;
                let ghost old_taken = taken@;
                taken.set(b, true);
                idx.push(b);
                assert forall|c: int| 0 <= c < n && #[trigger] taken@[c] implies exists|i: int|
                    0 <= i < idx.len() && #[trigger] idx@[i] == c by {
                    if c == b {
                        assert(idx@[idx.len() - 1] == c);
                    } else {
                        assert(old_taken[c]);
                        let i = choose|i: int| 0 <= i < old_idx.len() && #[trigger] old_idx[i] == c;
                        assert(idx@[i] == c);
                    }
                }
                assert forall|i: int| 0 <= i < idx.len() implies #[trigger] idx@[i] < n && taken@[idx@[i] as int] by {
                    if i < old_idx.len() {
                        assert(idx@[i] == old_idx[i]);
                    }
                }
                assert forall|i: int, j: int|
                    0 <= i < j < idx.len() implies beats(names@, counts@, #[trigger] idx@[i] as int, #[trigger] idx@[j] as int) by {
                    assert(idx@[i] == old_idx[i]);
                    if j < old_idx.len() {
                        assert(idx@[j] == old_idx[j]);
                    }
                }
                assert forall|i: int, c: int| #![trigger idx@[i], taken@[c]]
                    0 <= i < idx.len() && 0 <= c < n && !taken@[c] implies beats(names@, counts@, idx@[i] as int, c) by {
                    assert(!old_taken[c] && c != b);
                    if i < old_idx.len() {
                        assert(idx@[i] == old_idx[i]);
                    }
                }
            },
        }
    }
    assert forall|c: int| #![trigger names@[c]] 0 <= c < names.len() implies (exists|i: int| 0 <= i < idx.len() && #[trigger] idx@[i] == c) || (
        idx.len() == k && (k == 0 || beats(names@, counts@, idx@[k - 1] as int, c))) by {
        if !taken@[c] {
            assert(idx.len() == k);
            if k > 0 {
                let last = idx@[k - 1];
                assert(!taken@[c]);
            }
        } else {
            let i = choose|i: int| 0 <= i < idx.len() && #[trigger] idx@[i] == c;
        }
    }
    idx
}


/// The `k` most frequent present values of `values` with their counts, most
/// frequent first and equally frequent ones by name: every entry's count is
/// its number of occurrences, and a present value is left out only when
/// `k` entries rank before it.
pub fn top_categories(values: &Vec<Option<String>>, k: usize) -> (res: Vec<(String, u64)>)
    ensures
        res.len() <= k,
        ranked(res@),
        forall|i: int|
            0 <= i < res.len() ==> #[trigger] res@[i].1 == occurrences(values@, res@[i].0@)
                && res@[i].1 > 0,
        forall|s: Seq<char>|
            occurrences(values@, s) > 0 ==> (exists|i: int|
                0 <= i < res.len() && #[trigger] res@[i].0@ == s) || (res.len() == k && (k == 0
                || outranks_by(res@[k - 1].0@, res@[k - 1].1 as int, s, occurrences(values@, s) as int))),
{
    let (keys, counts) = count_values(values);
    let mut names: Vec<Vec<char>> = Vec::new();
    let mut cnt: Vec<u64> = Vec::new();
    let mut j: usize = 0;
    while j < keys.len()
        invariant
            j <= keys.len(),
            names.len() == j,
            cnt.len() == j,
            forall|s: Seq<char>| #[trigger]
                counts@.contains_key(s) ==> counts@[s] == occurrences(values@, s),
            forall|s: Seq<char>| #![trigger counts@.contains_key(s)]
                counts@.contains_key(s) <==> exists|i: int| 0 <= i < keys.len() && #[trigger] keys@[i]@ == s,
            forall|a: int| 0 <= a < j ==> #[trigger] names@[a]@ == keys@[a]@ && cnt@[a] == occurrences(values@, keys@[a]@),
        decreases keys.len() - j,
    {
        let key = keys[j].as_str();
        assert(counts@.contains_key(keys@[j as int]@));
        let c: u64 = match counts.get(key) {
            Some(c) => *c,
            None => 0,
        };
        let cs = chars_of(key);
        assert(cs@ == keys@[j as int]@);
        assert(c == occurrences(values@, keys@[j as int]@));
        let ghost old_names = names@;
        let ghost old_cnt = cnt@;
        names.push(cs);
        cnt.push(c);
        assert forall|a: int| 0 <= a < j + 1 implies #[trigger] names@[a]@ == keys@[a]@ && cnt@[a]
            == occurrences(values@, keys@[a]@) by {
            if a < j {
                assert(names@[a] == old_names[a] && cnt@[a] == old_cnt[a]);
            }
        }
        j = j + 1;
    }
    let idx = select_top(&names, &cnt, k);
    let mut res: Vec<(String, u64)> = Vec::new();
    let mut i: usize = 0;
    while i < idx.len()
        invariant
            i <= idx.len(),
            names.len() == keys.len(),
            cnt.len() == keys.len(),
            forall|a: int| 0 <= a < idx.len() ==> #[trigger] idx@[a] < names.len(),
            forall|a: int| 0 <= a < keys.len() ==> #[trigger] names@[a]@ == keys@[a]@ && cnt@[a] == occurrences(values@, keys@[a]@),
            res.len() == i,
            forall|a: int| 0 <= a < i ==> #[trigger] res@[a].0@ == names@[idx@[a] as int]@ && res@[a].1 == cnt@[idx@[a] as int],
        decreases idx.len() - i,
    {
        let j = idx[i];
        let name = text_of(keys[j].as_str());
        assert(name@ == names@[j as int]@);
        let ghost old_res = res@;
        res.push((name, cnt[j]));
        assert forall|a: int| 0 <= a < i + 1 implies #[trigger] res@[a].0@ == names@[idx@[a] as int]@ && res@[a].1 == cnt@[idx@[a] as int] by {
            if a < i {
                assert(res@[a] == old_res[a]);
            }
        }
        i = i + 1;
    }
    assert forall|i: int, j: int| 0 <= i < j < res.len() implies outranks(#[trigger] res@[i], #[trigger] res@[j]) by {
        assert(beats(names@, cnt@, idx@[i] as int, idx@[j] as int));
    }
    assert(res.len() == idx.len());
    assert forall|i: int| 0 <= i < res.len() implies #[trigger] res@[i].1 == occurrences(values@, res@[i].0@)
        && res@[i].1 > 0 by {
        let j = idx@[i] as int;
        assert(0 <= j < keys.len());
        assert(names@[j]@ == keys@[j]@);
        assert(res@[i].0@ == names@[j]@);
        assert(res@[i].1 == cnt@[j]);
        assert(counts@.contains_key(keys@[j]@));
    }
    assert forall|s: Seq<char>| occurrences(values@, s) > 0 implies (exists|i: int|
        0 <= i < res.len() && #[trigger] res@[i].0@ == s) || (res.len() == k && (k == 0
        || outranks_by(res@[k - 1].0@, res@[k - 1].1 as int, s, occurrences(values@, s) as int))) by {
        assert(counts@.contains_key(s));
        let c = choose|c: int| 0 <= c < keys.len() && #[trigger] keys@[c]@ == s;
        assert(names@[c]@ == s);
        if exists|i: int| 0 <= i < idx.len() && #[trigger] idx@[i] == c {
            let i = choose|i: int| 0 <= i < idx.len() && #[trigger] idx@[i] == c;
            assert(res@[i].0@ == s);
        }
    }
    res
}

} // verus!
