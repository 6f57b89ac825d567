use vstd::prelude::*;
use crate::tag_data::{has_key, key_index, named_view, unique_keys, TagData};

verus! {

/// How many keys a ranking keeps.
pub const TOP_K: usize = 10;

/// The characters of each name in `v`.
pub open spec fn names(v: Seq<String>) -> Seq<Seq<char>> {
    v.map_values(|k: String| k@)
}

/// Words per question, truncated (requires `d.questions > 0`).
pub open spec fn ratio(d: TagData) -> nat {
    (d.words / d.questions) as nat
}

/// Every entry has at least one question.
pub open spec fn all_positive(s: Seq<(Seq<char>, TagData)>) -> bool {
    forall|i: int| 0 <= i < s.len() ==> s[i].1.questions > 0
}

pub open spec fn min_nat(a: nat, b: nat) -> nat {
    if a <= b {
        a
    } else {
        b
    }
}

/// `r` is a top-ranking of `s` chosen at the positions `idx`: it holds the
/// keys of `min(TOP_K, |s|)` distinct entries in order of non-increasing
/// ratio, and no entry left out has a higher ratio than one taken.
/// Entries of equal ratio may come in any order.
pub open spec fn is_top_ranking(s: Seq<(Seq<char>, TagData)>, r: Seq<Seq<char>>, idx: Seq<int>) -> bool {
    &&& r.len() == min_nat(TOP_K as nat, s.len())
    &&& idx.len() == r.len()
    &&& forall|j: int| 0 <= j < idx.len() ==> 0 <= #[trigger] idx[j] < s.len() && r[j] == s[idx[j]].0
    &&& forall|j1: int, j2: int|
        0 <= j1 < j2 < idx.len() ==> idx[j1] != idx[j2] && ratio(s[idx[j1]].1) >= ratio(s[idx[j2]].1)
    &&& forall|i: int, j: int|
        0 <= i < s.len() && !idx.contains(i) && 0 <= j < idx.len() ==> ratio(s[i].1) <= ratio(
            s[idx[j]].1,
        )
}

/// A top ranking holds at most ten keys, each a key of the input, and their
/// entries come in order of non-increasing ratio.
pub proof fn lemma_top_ranking_bounds(s: Seq<(Seq<char>, TagData)>, r: Seq<Seq<char>>, idx: Seq<int>)
    requires
        is_top_ranking(s, r, idx),
        unique_keys(s),
    ensures
        r.len() <= TOP_K,
        forall|j: int| 0 <= j < r.len() ==> has_key(s, #[trigger] r[j]),
        forall|j1: int, j2: int|
            0 <= j1 < j2 < r.len() ==> ratio(s[key_index(s, r[j1])].1) >= ratio(
                s[key_index(s, r[j2])].1,
            ),
{
    assert forall|j: int| 0 <= j < r.len() implies has_key(s, #[trigger] r[j]) by {
        assert(s[idx[j]].0 == r[j]);
    }
    assert forall|j1: int, j2: int| 0 <= j1 < j2 < r.len() implies ratio(
        s[key_index(s, r[j1])].1,
    ) >= ratio(s[key_index(s, r[j2])].1) by {
        assert(s[idx[j1]].0 == r[j1]);
        assert(s[idx[j2]].0 == r[j2]);
        assert(key_index(s, r[j1]) == idx[j1]);
        assert(key_index(s, r[j2]) == idx[j2]);
    }
}

proof fn lemma_some_left(idx: Seq<int>, n: int)
    requires
        idx.len() < n,
        forall|j1: int, j2: int| 0 <= j1 < j2 < idx.len() ==> idx[j1] != idx[j2],
    ensures
        exists|i: int| 0 <= i < n && !idx.contains(i),
{
    if forall|i: int| 0 <= i < n ==> idx.contains(i) {
        vstd::set_lib::lemma_int_range(0, n);
        idx.lemma_cardinality_of_set();
        assert(vstd::set_lib::set_int_range(0, n).subset_of(idx.to_set()));
        vstd::set_lib::lemma_len_subset(vstd::set_lib::set_int_range(0, n), idx.to_set());
    }
}

/// The keys of the (up to) ten entries with the highest words-per-question
/// ratio, highest first.
pub fn top_ten(entries: &Vec<(String, TagData)>) -> (r: Vec<String>)
    requires
        all_positive(named_view(entries@)),
    ensures
        exists|idx: Seq<int>|
            #[trigger] is_top_ranking(named_view(entries@), names(r@), idx),
{
    let ghost s = named_view(entries@);
    let n = entries.len();
    let mut taken: Vec<bool> = Vec::new();
    let mut t: usize = 0;
    while t < n
        invariant
            t <= n,
            taken@.len() == t,
            forall|i: int| 0 <= i < t ==> !taken@[i],
        decreases n - t,
    {
        taken.push(false);
        t += 1;
    }
    let mut out: Vec<String> = Vec::new();
    let ghost mut idx: Seq<int> = Seq::empty();
    while out.len() < TOP_K && out.len() < n
        invariant
            s == named_view(entries@),
            n == s.len(),
            all_positive(s),
            taken@.len() == n,
            out@.len() <= TOP_K,
            out@.len() <= n,
            idx.len() == out@.len(),
            forall|i: int| 0 <= i < n ==> (taken@[i] <==> idx.contains(i)),
            forall|j: int| 0 <= j < idx.len() ==> 0 <= #[trigger] idx[j] < n && out@[j]@ == s[idx[j]].0,
            forall|j1: int, j2: int|
                0 <= j1 < j2 < idx.len() ==> idx[j1] != idx[j2] && ratio(s[idx[j1]].1) >= ratio(
                    s[idx[j2]].1,
                ),
            forall|i: int, j: int|
                0 <= i < n && !idx.contains(i) && 0 <= j < idx.len() ==> ratio(s[i].1) <= ratio(
                    s[idx[j]].1,
                ),
        decreases n - out@.len(),
    {
        proof {
            lemma_some_left(idx, n as int);
        }
        let mut best: usize = n;
        let mut best_ratio: usize = 0;
        let mut i: usize = 0;
        while i < n
            invariant
                s == named_view(entries@),
                n == s.len(),
                all_positive(s),
                taken@.len() == n,
                i <= n,
                best == n || (best < i && !taken@[best as int] && best_ratio == ratio(
                    s[best as int].1,
                )),
                forall|k: int| 0 <= k < i && !taken@[k] ==> best < n && ratio(s[k].1) <= best_ratio,
            decreases n - i,
        {
            if !taken[i] {
                let d = entries[i].1;
                assert(d == s[i as int].1);
                let q = d.words / d.questions;
                if best == n || q > best_ratio {
                    best = i;
                    best_ratio = q;
                }
            }
            i += 1;
        }
        assert(best < n) by {
            let k = choose|k: int| 0 <= k < n && !idx.contains(k);
            assert(!taken@[k]);
        }
        let ghost old_idx = idx;
        out.push(entries[best].0.clone());
        taken.set(best, true);
        proof {
            idx = idx.push(best as int);
            assert forall|k: int| 0 <= k < n implies (taken@[k] <==> idx.contains(k)) by {
                if k == best as int {
                    assert(idx[idx.len() - 1] == k);
                } else if old_idx.contains(k) {
                    let j = choose|j: int| 0 <= j < old_idx.len() && old_idx[j] == k;
                    assert(idx[j] == k);
                } else if idx.contains(k) {
                    let j = choose|j: int| 0 <= j < idx.len() && idx[j] == k;
                    assert(j < old_idx.len() ==> old_idx[j] == k);
                }
            }
            assert forall|j1: int, j2: int| 0 <= j1 < j2 < idx.len() implies idx[j1] != idx[j2]
                && ratio(s[idx[j1]].1) >= ratio(s[idx[j2]].1) by {
                if j2 == idx.len() - 1 {
                    assert(old_idx[j1] == idx[j1]);
                    assert(!old_idx.contains(best as int));
                }
            }
            assert forall|k: int, j: int|
                0 <= k < n && !idx.contains(k) && 0 <= j < idx.len() implies ratio(s[k].1) <= ratio(
                s[idx[j]].1,
            ) by {
                assert(!taken@[k]);
                if j < old_idx.len() {
                    assert(old_idx[j] == idx[j]);
                    assert(!old_idx.contains(k)) by {
                        if old_idx.contains(k) {
                            let j3 = choose|j3: int| 0 <= j3 < old_idx.len() && old_idx[j3] == k;
                            assert(idx[j3] == k);
                        }
                    }
                }
            }
        }
    }
    proof {
        let r = names(out@);
        assert(is_top_ranking(s, r, idx));
    }
    out
}

} // verus!
