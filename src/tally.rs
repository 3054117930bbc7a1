use vstd::prelude::*;
use crate::state::{OracleVote, ResultHash, eq32};

verus! {

/// How many of `votes` report `h`.
pub open spec fn count_of(votes: Seq<OracleVote>, h: ResultHash) -> nat
    decreases votes.len(),
{
    if votes.len() == 0 {
        0
    } else {
        count_of(votes.drop_last(), h) + if votes.last().response_hash == h { 1nat } else { 0nat }
    }
}

/// The distinct hashes of `votes`, in the order they were first reported.
pub open spec fn distinct_hashes(votes: Seq<OracleVote>) -> Seq<ResultHash>
    decreases votes.len(),
{
    if votes.len() == 0 {
        Seq::empty()
    } else {
        let d = distinct_hashes(votes.drop_last());
        if d.contains(votes.last().response_hash) {
            d
        } else {
            d.push(votes.last().response_hash)
        }
    }
}

/// The index of the first entry with the largest count.
pub open spec fn best_index(t: Seq<(ResultHash, u8)>) -> int
    decreases t.len(),
{
    if t.len() <= 1 {
        0
    } else {
        let k = best_index(t.drop_last());
        if t.last().1 > t[k].1 {
            t.len() - 1
        } else {
            k
        }
    }
}

/// `t` pairs each distinct hash of `votes`, in first-seen order, with its count.
pub open spec fn is_tally_of(t: Seq<(ResultHash, u8)>, votes: Seq<OracleVote>) -> bool {
    &&& t.len() == distinct_hashes(votes).len()
    &&& forall|i: int|
        0 <= i < t.len() ==> (#[trigger] t[i]).0 == distinct_hashes(votes)[i] && t[i].1 as nat
            == count_of(votes, t[i].0)
}

pub proof fn lemma_count_bounded(votes: Seq<OracleVote>, h: ResultHash)
    ensures
        count_of(votes, h) <= votes.len(),
    decreases votes.len(),
{
    if votes.len() > 0 {
        lemma_count_bounded(votes.drop_last(), h);
    }
}

/// Groups the votes by hash: each distinct hash in first-seen order, with the
/// number of votes that report it.
pub fn count_votes(votes: &Vec<OracleVote>) -> (r: Vec<(ResultHash, u8)>)
    requires
        votes@.len() < 256,
    ensures
        is_tally_of(r@, votes@),
        r@ == spec_tally(votes@),
{
    let mut hash_counts: Vec<(ResultHash, u8)> = Vec::new();
    let mut i: usize = 0;
    while i < votes.len()
        invariant
            0 <= i <= votes@.len() < 256,
            is_tally_of(hash_counts@, votes@.take(i as int)),
        decreases votes@.len() - i,
    {
        let ghost prefix = votes@.take(i as int);
        let ghost next = votes@.take(i as int + 1);
        let v = votes[i];
        assert(next.drop_last() =~= prefix);
        assert(next.last() == v);
        let mut j: usize = 0;
        let mut found = false;
        while j < hash_counts.len() && !found
            invariant
                0 <= j <= hash_counts@.len(),
                is_tally_of(hash_counts@, prefix),
                found ==> j < hash_counts@.len() && hash_counts@[j as int].0 == v.response_hash,
                !found ==> forall|k: int| 0 <= k < j ==> hash_counts@[k].0 != v.response_hash,
            decreases hash_counts@.len() - j + if found { 0int } else { 1int },
        {
            if eq32(&hash_counts[j].0, &v.response_hash) {
                found = true;
            } else {
                j = j + 1;
            }
        }
        proof {
            lemma_count_bounded(prefix, v.response_hash);
        }
        if found {
            let (h, c) = hash_counts[j];
            assert(c as nat == count_of(prefix, h));
            hash_counts.set(j, (h, c + 1));
            assert(distinct_hashes(prefix).contains(v.response_hash));
            assert forall|k: int| 0 <= k < hash_counts@.len() implies (#[trigger] hash_counts@[k]).0
                == distinct_hashes(next)[k] && hash_counts@[k].1 as nat == count_of(
                next,
                hash_counts@[k].0,
            ) by {
                if k != j {
                    assert(hash_counts@[k].0 != v.response_hash) by {
                        assert(distinct_hashes(prefix)[k] != distinct_hashes(prefix)[j as int])
                            by {
                            lemma_distinct_unique(prefix);
                        }
                    }
                }
            }
        } else {
            assert(!distinct_hashes(prefix).contains(v.response_hash)) by {
                if distinct_hashes(prefix).contains(v.response_hash) {
                    let k = choose|k: int|
                        0 <= k < distinct_hashes(prefix).len() && distinct_hashes(prefix)[k]
                            == v.response_hash;
                    assert(hash_counts@[k].0 == v.response_hash);
                }
            }
            proof {
                lemma_count_absent(prefix, v.response_hash);
            }
            hash_counts.push((v.response_hash, 1));
            assert forall|k: int| 0 <= k < hash_counts@.len() implies (#[trigger] hash_counts@[k]).0
                == distinct_hashes(next)[k] && hash_counts@[k].1 as nat == count_of(
                next,
                hash_counts@[k].0,
            ) by {
                if k < hash_counts@.len() - 1 {
                    assert(distinct_hashes(prefix).contains(hash_counts@[k].0));
                }
            }
        }
        i = i + 1;
    }
    assert(votes@.take(votes@.len() as int) =~= votes@);
    proof {
        lemma_tally_is_spec(hash_counts@, votes@);
    }
    hash_counts
}

/// Each distinct hash appears once.
pub proof fn lemma_distinct_unique(votes: Seq<OracleVote>)
    ensures
        distinct_hashes(votes).no_duplicates(),
    decreases votes.len(),
{
    if votes.len() > 0 {
        lemma_distinct_unique(votes.drop_last());
    }
}

/// A hash that is not among the distinct hashes has no votes.
pub proof fn lemma_count_absent(votes: Seq<OracleVote>, h: ResultHash)
    requires
        !distinct_hashes(votes).contains(h),
    ensures
        count_of(votes, h) == 0,
    decreases votes.len(),
{
    if votes.len() > 0 {
        let d = distinct_hashes(votes.drop_last());
        if d.contains(h) {
            let k = choose|k: int| 0 <= k < d.len() && d[k] == h;
            if !d.contains(votes.last().response_hash) {
                assert(distinct_hashes(votes)[k] == h);
            } else {
                assert(distinct_hashes(votes)[k] == h);
            }
        } else {
            if votes.last().response_hash == h {
                assert(distinct_hashes(votes).last() == h);
                assert(distinct_hashes(votes).contains(h));
            }
            lemma_count_absent(votes.drop_last(), h);
        }
    }
}

} // verus!

verus! {

/// The tally of `votes` as a sequence: each distinct hash with its count.
pub open spec fn spec_tally(votes: Seq<OracleVote>) -> Seq<(ResultHash, u8)> {
    distinct_hashes(votes).map_values(|h: ResultHash| (h, count_of(votes, h) as u8))
}

/// The leading entry: the first one with the largest count.
pub open spec fn leader_of(votes: Seq<OracleVote>) -> (ResultHash, u8) {
    spec_tally(votes)[best_index(spec_tally(votes))]
}

pub proof fn lemma_tally_is_spec(t: Seq<(ResultHash, u8)>, votes: Seq<OracleVote>)
    requires
        is_tally_of(t, votes),
        votes.len() < 256,
    ensures
        t == spec_tally(votes),
{
    assert forall|i: int| 0 <= i < t.len() implies #[trigger] t[i] == spec_tally(votes)[i] by {
        lemma_count_bounded(votes, t[i].0);
    }
    assert(t =~= spec_tally(votes));
}

/// The first entry with the largest count is in range, no entry has more,
/// and every earlier entry has less.
pub proof fn lemma_best_index(t: Seq<(ResultHash, u8)>)
    requires
        t.len() > 0,
    ensures
        0 <= best_index(t) < t.len(),
        forall|j: int| 0 <= j < t.len() ==> (#[trigger] t[j]).1 <= t[best_index(t)].1,
        forall|j: int| 0 <= j < best_index(t) ==> (#[trigger] t[j]).1 < t[best_index(t)].1,
    decreases t.len(),
{
    if t.len() > 1 {
        let d = t.drop_last();
        lemma_best_index(d);
        let k = best_index(d);
        assert(t[k] == d[k]);
        assert forall|j: int| 0 <= j < t.len() implies (#[trigger] t[j]).1 <= t[best_index(t)].1 by {
            if j < t.len() - 1 {
                assert(t[j] == d[j]);
            }
        }
        assert forall|j: int| 0 <= j < best_index(t) implies (#[trigger] t[j]).1 < t[best_index(
            t,
        )].1 by {
            assert(t[j] == d[j]);
        }
    }
}

/// The index of the first entry with the largest count.
pub fn pick_leader(counts: &Vec<(ResultHash, u8)>) -> (r: usize)
    requires
        counts@.len() > 0,
    ensures
        r as int == best_index(counts@),
        r < counts@.len(),
{
    let mut best: usize = 0;
    let mut i: usize = 1;
    while i < counts.len()
        invariant
            1 <= i <= counts@.len(),
            best as int == best_index(counts@.take(i as int)),
            best < i,
        decreases counts@.len() - i,
    {
        let ghost next = counts@.take(i as int + 1);
        assert(next.drop_last() =~= counts@.take(i as int));
        assert(next[best as int] == counts@[best as int]);
        if counts[i].1 > counts[best].1 {
            best = i;
        }
        i = i + 1;
    }
    assert(counts@.take(counts@.len() as int) =~= counts@);
    best
}

} // verus!
