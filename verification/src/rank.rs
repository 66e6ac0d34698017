//! The ranking engine: scores every candidate against the query and orders
//! the merged list by descending score, truncating to a caller-supplied
//! limit only after the full sort.

use vstd::prelude::*;

use crate::candidate::Candidate;
use crate::text::contains_sub;
use crate::text::edit_dist;
use crate::text::edit_distance;
use crate::text::lower_of;
use crate::text::lowercase;
use crate::text::split_words;
use crate::text::str_contains;
use crate::text::words_of;

verus! {

/// How many of the given query words occur, case-insensitively, in the
/// already-lowercased description. Each word position of the query counts
/// at most once, however often it occurs in the description.
pub open spec fn bonus_count(words: Seq<Seq<char>>, desc_lower: Seq<char>) -> int
    decreases words.len(),
{
    if words.len() == 0 {
        0
    } else {
        bonus_count(words.drop_last(), desc_lower) + (if contains_sub(
            desc_lower,
            lower_of(words.last()),
        ) {
            1int
        } else {
            0int
        })
    }
}

/// The relevance score of a candidate: 1000 minus the case-sensitive edit
/// distance between its name and the full query, plus a bonus of 50 for
/// each whitespace-delimited query word that occurs case-insensitively in
/// its description.
pub open spec fn score_spec(name: Seq<char>, description: Seq<char>, query: Seq<char>) -> int {
    1000 - edit_dist(name, query) + 50 * bonus_count(words_of(query), lower_of(description))
}

/// The score of a candidate against a query.
pub open spec fn cand_score(c: Candidate, query: Seq<char>) -> int {
    score_spec(c.name@, c.description@, query)
}

proof fn lemma_bonus_count_bounds(words: Seq<Seq<char>>, desc_lower: Seq<char>)
    ensures
        0 <= bonus_count(words, desc_lower) <= words.len(),
    decreases words.len(),
{
    if words.len() > 0 {
        lemma_bonus_count_bounds(words.drop_last(), desc_lower);
    }
}

/// Scores one candidate, given the query's words already split out.
fn score_with_words(c: &Candidate, query: &str, words: &Vec<String>) -> (s: i128)
    requires
        words@.map_values(|w: String| w@) == words_of(query@),
    ensures
        s == cand_score(*c, query@),
{
    let d: usize = edit_distance(c.name.as_str(), query);
    let mut s: i128 = 1000 - (d as i128);
    let desc_lower = lowercase(c.description.as_str());
    let ghost wseq = words_of(query@);
    let n: usize = words.len();
    let mut i: usize = 0;
    while i < n
        invariant
            n == words@.len(),
            words@.map_values(|w: String| w@) == wseq,
            i <= n,
            desc_lower@ == lower_of(c.description@),
            d <= usize::MAX,
            s == 1000 - (d as int) + 50 * bonus_count(wseq.take(i as int), desc_lower@),
        decreases n - i,
    {
        proof {
            lemma_bonus_count_bounds(wseq.take(i as int), desc_lower@);
            assert(words@.map_values(|w: String| w@)[i as int] == words@[i as int]@);
        }
        let wl = lowercase(words[i].as_str());
        if str_contains(desc_lower.as_str(), wl.as_str()) {
            s = s + 50;
        }
        proof {
            assert(wseq.take(i + 1).drop_last() =~= wseq.take(i as int));
            assert(wseq.take(i + 1).last() == wseq[i as int]);
        }
        i += 1;
    }
    proof {
        assert(wseq.take(n as int) =~= wseq);
    }
    s
}

/// Scores one candidate against the full query string.
pub fn score_candidate(c: &Candidate, query: &str) -> (s: i128)
    ensures
        s == cand_score(*c, query@),
{
    let words = split_words(query);
    score_with_words(c, query, &words)
}

/// Inserts `c` into `s` after every element scoring at least as high:
/// within equal scores, earlier arrivals stay in front.
pub open spec fn insert_desc(s: Seq<Candidate>, c: Candidate, q: Seq<char>) -> Seq<Candidate>
    decreases s.len(),
{
    if s.len() == 0 {
        seq![c]
    } else if cand_score(s[0], q) >= cand_score(c, q) {
        seq![s[0]] + insert_desc(s.skip(1), c, q)
    } else {
        seq![c] + s
    }
}

/// Stable sort by descending score: elements are taken in their original
/// order and each is inserted after all earlier elements of equal or
/// higher score, so equal scores keep the order of arrival (the tie-break
/// this crate commits to).
pub open spec fn sort_by_score(s: Seq<Candidate>, q: Seq<char>) -> Seq<Candidate>
    decreases s.len(),
{
    if s.len() == 0 {
        Seq::empty()
    } else {
        insert_desc(sort_by_score(s.drop_last(), q), s.last(), q)
    }
}

/// What ranking returns: the full stable sorted order, cut to at most
/// `limit` entries only after sorting.
pub open spec fn rank_spec(s: Seq<Candidate>, q: Seq<char>, limit: int) -> Seq<Candidate> {
    sort_by_score(s, q).take(if limit <= s.len() {
        limit
    } else {
        s.len() as int
    })
}

pub proof fn lemma_insert_desc_len(s: Seq<Candidate>, c: Candidate, q: Seq<char>)
    ensures
        insert_desc(s, c, q).len() == s.len() + 1,
    decreases s.len(),
{
    if s.len() > 0 && cand_score(s[0], q) >= cand_score(c, q) {
        lemma_insert_desc_len(s.skip(1), c, q);
    }
}

/// Sorting keeps the length.
pub proof fn lemma_sort_by_score_len(s: Seq<Candidate>, q: Seq<char>)
    ensures
        sort_by_score(s, q).len() == s.len(),
    decreases s.len(),
{
    if s.len() > 0 {
        lemma_sort_by_score_len(s.drop_last(), q);
        lemma_insert_desc_len(sort_by_score(s.drop_last(), q), s.last(), q);
    }
}

/// Inserting at the first position whose score is strictly below `c`'s is
/// exactly what `insert_desc` does.
proof fn lemma_insert_desc_position(s: Seq<Candidate>, c: Candidate, q: Seq<char>, j: int)
    requires
        0 <= j <= s.len(),
        forall|k: int| 0 <= k < j ==> cand_score(#[trigger] s[k], q) >= cand_score(c, q),
        j < s.len() ==> cand_score(s[j], q) < cand_score(c, q),
    ensures
        insert_desc(s, c, q) == s.insert(j, c),
    decreases s.len(),
{
    if s.len() == 0 {
        assert(insert_desc(s, c, q) =~= s.insert(0, c));
    } else if j == 0 {
        assert(insert_desc(s, c, q) =~= s.insert(0, c));
    } else {
        assert(cand_score(s[0], q) >= cand_score(c, q));
        lemma_insert_desc_position(s.skip(1), c, q, j - 1);
        assert(insert_desc(s, c, q) =~= s.insert(j, c));
    }
}

/// Ranks an already-merged candidate list: stable descending sort by
/// score, then truncation to at most `limit` entries.
pub fn rank(candidates: Vec<Candidate>, query: &str, limit: usize) -> (r: Vec<Candidate>)
    ensures
        r@ == rank_spec(candidates@, query@, limit as int),
        r@.len() <= limit,
{
    let words = split_words(query);
    let ghost all = candidates@;
    let ghost q = query@;
    let mut rest = candidates;
    let mut sorted: Vec<Candidate> = Vec::new();
    let mut scores: Vec<i128> = Vec::new();
    while rest.len() > 0
        invariant
            words@.map_values(|w: String| w@) == words_of(q),
            query@ == q,
            all == all.take(all.len() - rest@.len()) + rest@,
            sorted@ == sort_by_score(all.take(all.len() - rest@.len()), q),
            scores@.len() == sorted@.len(),
            forall|m: int|
                0 <= m < scores@.len() ==> scores@[m] == cand_score(#[trigger] sorted@[m], q),
        decreases rest@.len(),
    {
        let ghost done = all.len() - rest@.len();
        let c = rest.remove(0);
        proof {
            assert(all.take(done + 1).drop_last() =~= all.take(done as int));
            assert(c == all[done as int]);
        }
        let sc: i128 = score_with_words(&c, query, &words);
        let mut j: usize = 0;
        while j < sorted.len() && scores[j] >= sc
            invariant
                scores@.len() == sorted@.len(),
                j <= sorted@.len(),
                forall|k: int| 0 <= k < j ==> scores@[k] >= sc,
            decreases sorted@.len() - j,
        {
            j += 1;
        }
        proof {
            lemma_insert_desc_position(sorted@, c, q, j as int);
        }
        sorted.insert(j, c);
        scores.insert(j, sc);
    }
    proof {
        assert(all.take(all.len() as int) =~= all);
        lemma_sort_by_score_len(all, q);
    }
    sorted.truncate(limit);
    proof {
        if limit > all.len() {
            assert(sort_by_score(all, q).take(all.len() as int) =~= sort_by_score(all, q));
        }
    }
    sorted
}

/// The ranked order: scores never increase from front to back.
pub open spec fn sorted_desc(s: Seq<Candidate>, q: Seq<char>) -> bool {
    forall|i: int, j: int|
        0 <= i <= j < s.len() ==> cand_score(#[trigger] s[i], q) >= cand_score(#[trigger] s[j], q)
}

/// The position `insert_desc` puts an element at: right after the longest
/// prefix of equal-or-higher scores.
pub open spec fn insert_pos(s: Seq<Candidate>, c: Candidate, q: Seq<char>) -> int
    decreases s.len(),
{
    if s.len() == 0 {
        0
    } else if cand_score(s[0], q) >= cand_score(c, q) {
        1 + insert_pos(s.skip(1), c, q)
    } else {
        0
    }
}

proof fn lemma_insert_pos_props(s: Seq<Candidate>, c: Candidate, q: Seq<char>)
    ensures
        0 <= insert_pos(s, c, q) <= s.len(),
        forall|k: int|
            0 <= k < insert_pos(s, c, q) ==> cand_score(#[trigger] s[k], q) >= cand_score(c, q),
        insert_pos(s, c, q) < s.len() ==> cand_score(s[insert_pos(s, c, q)], q) < cand_score(
            c,
            q,
        ),
        insert_desc(s, c, q) == s.insert(insert_pos(s, c, q), c),
    decreases s.len(),
{
    if s.len() > 0 && cand_score(s[0], q) >= cand_score(c, q) {
        lemma_insert_pos_props(s.skip(1), c, q);
        assert forall|k: int| 0 <= k < insert_pos(s, c, q) implies cand_score(#[trigger] s[k], q)
            >= cand_score(c, q) by {
            if k > 0 {
                assert(s.skip(1)[k - 1] == s[k]);
            }
        }
        if insert_pos(s, c, q) < s.len() {
            assert(s.skip(1)[insert_pos(s.skip(1), c, q)] == s[insert_pos(s, c, q)]);
        }
    }
    lemma_insert_desc_position(s, c, q, insert_pos(s, c, q));
}

proof fn lemma_insert_desc_sorted(s: Seq<Candidate>, c: Candidate, q: Seq<char>)
    requires
        sorted_desc(s, q),
    ensures
        sorted_desc(insert_desc(s, c, q), q),
{
    lemma_insert_pos_props(s, c, q);
    let p = insert_pos(s, c, q);
    let r = s.insert(p, c);
    assert forall|i: int, j: int| 0 <= i <= j < r.len() implies cand_score(#[trigger] r[i], q)
        >= cand_score(#[trigger] r[j], q) by {
        if i < p {
            assert(r[i] == s[i]);
        }
        if j < p {
            assert(r[j] == s[j]);
        }
        if i > p {
            assert(r[i] == s[i - 1]);
        }
        if j > p {
            assert(r[j] == s[j - 1]);
        }
    }
}

/// The full sorted order really is sorted by descending score.
pub proof fn lemma_sort_by_score_sorted(s: Seq<Candidate>, q: Seq<char>)
    ensures
        sorted_desc(sort_by_score(s, q), q),
    decreases s.len(),
{
    if s.len() > 0 {
        lemma_sort_by_score_sorted(s.drop_last(), q);
        lemma_insert_desc_sorted(sort_by_score(s.drop_last(), q), s.last(), q);
    }
}

proof fn lemma_insert_desc_multiset(s: Seq<Candidate>, c: Candidate, q: Seq<char>)
    ensures
        insert_desc(s, c, q).to_multiset() == s.to_multiset().insert(c),
    decreases s.len(),
{
    broadcast use vstd::seq_lib::group_to_multiset_ensures;

    if s.len() == 0 {
        assert(seq![c] =~= Seq::<Candidate>::empty().push(c));
    } else if cand_score(s[0], q) >= cand_score(c, q) {
        lemma_insert_desc_multiset(s.skip(1), c, q);
        vstd::seq_lib::lemma_multiset_commutative(seq![s[0]], insert_desc(s.skip(1), c, q));
        vstd::seq_lib::lemma_multiset_commutative(seq![s[0]], s.skip(1));
        assert(s =~= seq![s[0]] + s.skip(1));
        assert(seq![s[0]] =~= Seq::<Candidate>::empty().push(s[0]));
        assert(insert_desc(s, c, q).to_multiset() =~= s.to_multiset().insert(c));
    } else {
        vstd::seq_lib::lemma_multiset_commutative(seq![c], s);
        assert(seq![c] =~= Seq::<Candidate>::empty().push(c));
        assert(insert_desc(s, c, q).to_multiset() =~= s.to_multiset().insert(c));
    }
}

/// The full sorted order is a permutation of the input: sorting neither
/// drops, duplicates nor invents candidates.
pub proof fn lemma_sort_by_score_permutes(s: Seq<Candidate>, q: Seq<char>)
    ensures
        sort_by_score(s, q).to_multiset() == s.to_multiset(),
    decreases s.len(),
{
    broadcast use vstd::seq_lib::group_to_multiset_ensures;

    if s.len() > 0 {
        lemma_sort_by_score_permutes(s.drop_last(), q);
        lemma_insert_desc_multiset(sort_by_score(s.drop_last(), q), s.last(), q);
        assert(s =~= s.drop_last().push(s.last()));
    }
}

/// Holding the description fixed, a larger edit distance between name and
/// query never yields a larger score.
pub proof fn lemma_score_monotone_in_distance(
    name1: Seq<char>,
    name2: Seq<char>,
    description: Seq<char>,
    query: Seq<char>,
)
    requires
        edit_dist(name1, query) <= edit_dist(name2, query),
    ensures
        score_spec(name1, description, query) >= score_spec(name2, description, query),
{
}

proof fn lemma_sorted_sort_identity(s: Seq<Candidate>, q: Seq<char>)
    requires
        sorted_desc(s, q),
    ensures
        sort_by_score(s, q) == s,
    decreases s.len(),
{
    if s.len() > 0 {
        assert forall|i: int, j: int| 0 <= i <= j < s.drop_last().len() implies cand_score(
            #[trigger] s.drop_last()[i],
            q,
        ) >= cand_score(#[trigger] s.drop_last()[j], q) by {
            assert(s.drop_last()[i] == s[i]);
            assert(s.drop_last()[j] == s[j]);
        }
        lemma_sorted_sort_identity(s.drop_last(), q);
        lemma_insert_pos_props(s.drop_last(), s.last(), q);
        let p = insert_pos(s.drop_last(), s.last(), q);
        if p < s.drop_last().len() {
            assert(cand_score(s.drop_last()[p], q) == cand_score(s[p], q));
            assert(cand_score(s[p], q) >= cand_score(s[s.len() - 1], q));
        }
        assert(p == s.drop_last().len());
        assert(s.drop_last().insert(p, s.last()) =~= s);
    }
}

/// Ranking is idempotent: re-ranking an already-ranked, non-truncated list
/// with the same query and a limit at least its length keeps the order.
pub proof fn lemma_rank_idempotent(s: Seq<Candidate>, q: Seq<char>, limit: int)
    requires
        limit >= s.len(),
    ensures
        rank_spec(rank_spec(s, q, limit), q, limit) == rank_spec(s, q, limit),
{
    let t = sort_by_score(s, q);
    lemma_sort_by_score_len(s, q);
    assert(t.take(t.len() as int) =~= t);
    assert(rank_spec(s, q, limit) == t);
    lemma_sort_by_score_sorted(s, q);
    lemma_sorted_sort_identity(t, q);
    assert(rank_spec(t, q, limit) == t);
}

/// Truncation never drops a higher-scored candidate in favor of a lower
/// one: the ranked output is exactly the first `limit` entries of the full
/// sorted order, and every kept entry scores at least as high as every
/// entry that was cut.
pub proof fn lemma_truncation_keeps_top(s: Seq<Candidate>, q: Seq<char>, limit: int)
    requires
        0 <= limit <= s.len(),
    ensures
        rank_spec(s, q, limit) == sort_by_score(s, q).take(limit),
        forall|i: int, j: int|
            0 <= i < limit && limit <= j < s.len() ==> cand_score(
                #[trigger] rank_spec(s, q, limit)[i],
                q,
            ) >= cand_score(#[trigger] sort_by_score(s, q)[j], q),
{
    lemma_sort_by_score_len(s, q);
    lemma_sort_by_score_sorted(s, q);
}

/// The engine's entry point for a search: merges the two sources' lists
/// (official first, preserving each list's order) and ranks the result.
pub fn rank_results(
    official: Vec<Candidate>,
    aur: Vec<Candidate>,
    query: &str,
    max_results: usize,
) -> (r: Vec<Candidate>)
    ensures
        r@ == rank_spec(official@ + aur@, query@, max_results as int),
        r@.len() <= max_results,
{
    let mut combined = official;
    let mut aur = aur;
    combined.append(&mut aur);
    rank(combined, query, max_results)
}

} // verus!
