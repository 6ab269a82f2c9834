use crate::select::{
    is_permutation, order_holds, ranks_before, select_top, separated, sorted_between,
};
use vstd::prelude::*;

verus! {

/// What `textdistance::str::jaro_winkler(candidate, query)` returns, as the
/// bit pattern of the `f64`.
pub uninterp spec fn jaro_winkler_bits(candidate: Seq<char>, query: Seq<char>) -> u64;

/// What `str::to_lowercase` returns for `s`.
pub uninterp spec fn lower_of(s: Seq<char>) -> Seq<char>;

/// Relies on `textdistance::str::jaro_winkler`, a similarity in `[0.0, 1.0]`
/// that depends on the two strings alone. The result is handed on as its bit
/// pattern: for non-negative floats the bit patterns, read as unsigned
/// integers, are ordered as the numbers are, which is the order
/// `f64::total_cmp` gives them.
#[verifier::external_body]
fn jaro_winkler_of(candidate: &str, query: &str) -> (r: u64)
    ensures
        r == jaro_winkler_bits(candidate@, query@),
{
    textdistance::str::jaro_winkler(candidate, query).to_bits()
}

/// Relies on `str::to_lowercase`: the lowercase form of `s`, a function of
/// its characters alone.
#[verifier::external_body]
fn lowercase(s: &str) -> (r: String)
    ensures
        r@ == lower_of(s@),
{
    s.to_lowercase()
}

/// Relies on `jiff::tz::db().available()`: the identifiers of the time zones
/// that the database on this machine holds. What comes back depends on the
/// machine, so nothing is stated of it.
#[verifier::external_body]
fn available_timezones() -> (r: Vec<String>) {
    jiff::tz::db().available().map(|name| name.as_str().to_string()).collect()
}

/// How similar `candidate` is to `query`, ignoring case: the Jaro-Winkler
/// similarity of their lowercase forms, as an order-preserving integer.
pub open spec fn score(candidate: Seq<char>, query: Seq<char>) -> u64 {
    jaro_winkler_bits(lower_of(candidate), lower_of(query))
}

/// The selection key of a candidate: the higher its score, the smaller the key.
pub open spec fn rank_key(candidate: Seq<char>, query: Seq<char>) -> u64 {
    (u64::MAX - score(candidate, query)) as u64
}

/// The selection keys of all candidates, by position.
pub open spec fn rank_keys(candidates: Seq<Seq<char>>, query: Seq<char>) -> Seq<u64> {
    candidates.map_values(|c: Seq<char>| rank_key(c, query))
}

/// The texts of a sequence of strings.
pub open spec fn texts(v: Seq<String>) -> Seq<Seq<char>> {
    v.map_values(|s: String| s@)
}

/// `ranked` is `candidates` reordered so that its first `count + 1` entries
/// are the best scoring candidates, best first, earlier candidates first
/// among equal scores.
pub open spec fn is_top_ranking(
    query: Seq<char>,
    candidates: Seq<Seq<char>>,
    count: int,
    ranked: Seq<Seq<char>>,
) -> bool {
    exists|order: Seq<usize>|
        {
            &&& is_permutation(order, candidates.len())
            &&& ranked == order.map_values(|p: usize| candidates[p as int])
            &&& sorted_between(rank_keys(candidates, query), order, 0, count + 1)
            &&& separated(rank_keys(candidates, query), order, count + 1)
        }
}

/// Scores `candidate` against `query`, ignoring case.
pub fn similarity(candidate: &str, query: &str) -> (r: u64)
    ensures
        r == score(candidate@, query@),
{
    let c = lowercase(candidate);
    let q = lowercase(query);
    jaro_winkler_of(c.as_str(), q.as_str())
}

/// Ranks `candidates` against `query`: the result holds the same candidates,
/// its first `count` entries the `count` best scoring ones, best first, ties
/// going to the earlier candidate. Each candidate is scored exactly once, and
/// only the first `count + 1` entries are ordered.
pub fn rank_candidates(query: &str, candidates: &Vec<String>, count: usize) -> (r: Vec<String>)
    requires
        count < candidates@.len(),
    ensures
        is_top_ranking(query@, texts(candidates@), count as int, texts(r@)),
        r@.len() == candidates@.len(),
        forall|i: int, j: int|
            0 <= i < count <= j < r@.len() ==> score(#[trigger] r@[i]@, query@) >= score(
                #[trigger] r@[j]@,
                query@,
            ),
        forall|i: int, j: int|
            0 <= i < j <= count ==> score(#[trigger] r@[i]@, query@) >= score(
                #[trigger] r@[j]@,
                query@,
            ),
{
    let n = candidates.len();
    let ghost all = texts(candidates@);
    let ghost want = rank_keys(all, query@);
    let q = lowercase(query);
    let mut keys: Vec<u64> = Vec::new();
    let mut i: usize = 0;
    while i < n
        invariant
            i <= n == candidates@.len(),
            q@ == lower_of(query@),
            all == texts(candidates@),
            want == rank_keys(all, query@),
            keys@ == want.take(i as int),
        decreases n - i,
    {
        let c = lowercase(candidates[i].as_str());
        let s = jaro_winkler_of(c.as_str(), q.as_str());
        keys.push(u64::MAX - s);
        proof {
            assert(want[i as int] == rank_key(all[i as int], query@));
            assert(keys@ =~= want.take(i + 1));
        }
        i += 1;
    }
    assert(keys@ =~= want);
    let order = select_top(&keys, count);
    let mut ranked: Vec<String> = Vec::new();
    let mut j: usize = 0;
    while j < n
        invariant
            j <= n == candidates@.len() == order@.len(),
            all == texts(candidates@),
            is_permutation(order@, n as nat),
            ranked@.len() == j,
            forall|k: int| 0 <= k < j ==> #[trigger] ranked@[k]@ == all[order@[k] as int],
        decreases n - j,
    {
        let c = candidates[order[j]].clone();
        ranked.push(c);
        j += 1;
    }
    proof {
        let ranked_texts = texts(ranked@);
        assert(ranked_texts =~= order@.map_values(|p: usize| all[p as int]));
        assert(ranked@.len() == n);
        assert forall|a: int, b: int| 0 <= a < count <= b < ranked@.len() implies score(
            #[trigger] ranked@[a]@,
            query@,
        ) >= score(#[trigger] ranked@[b]@, query@) by {
            assert(ranked_texts[a] == ranked@[a]@ && ranked_texts[b] == ranked@[b]@);
            assert(order@[a] < n && order@[b] < n);
            assert(ranks_before(want, order@[a] as int, order@[b] as int));
        }
        assert forall|a: int, b: int| 0 <= a < b <= count implies score(
            #[trigger] ranked@[a]@,
            query@,
        ) >= score(#[trigger] ranked@[b]@, query@) by {
            assert(ranked_texts[a] == ranked@[a]@ && ranked_texts[b] == ranked@[b]@);
            assert(order@[a] < n && order@[b] < n);
            assert(ranks_before(want, order@[a] as int, order@[b] as int));
        }
    }
    ranked
}

/// The identifiers of the time zones known on this machine. Loading them
/// reads the time zone database, so callers load them once and keep them.
pub fn load_catalog() -> Vec<String> {
    available_timezones()
}

/// `r` is what ranking `catalog` against `query` for the best `count` gives:
/// nothing where `count` is not below the catalog's length, else a top
/// ranking of the catalog.
pub open spec fn autocomplete_result(
    query: Seq<char>,
    catalog: Seq<Seq<char>>,
    count: int,
    r: Option<Vec<String>>,
) -> bool {
    &&& r is Some <==> count < catalog.len()
    &&& r is Some ==> is_top_ranking(query, catalog, count, texts(r->Some_0@))
}

/// Ranks the time zone identifiers of this machine against `query`; the first
/// `count` entries of the result are the best matches, best first. A `count`
/// that is not below the number of identifiers gives `None`.
pub fn autocomplete_tz(query: &str, count: usize) -> (r: Option<Vec<String>>)
    ensures
        exists|catalog: Seq<Seq<char>>|
            #[trigger] autocomplete_result(query@, catalog, count as int, r),
{
    let catalog = load_catalog();
    if count < catalog.len() {
        let r = Some(rank_candidates(query, &catalog, count));
        assert(autocomplete_result(query@, texts(catalog@), count as int, r));
        r
    } else {
        assert(autocomplete_result(query@, texts(catalog@), count as int, None::<Vec<String>>));
        None
    }
}

/// A ranking keeps exactly the candidates: each ranked entry is a candidate
/// and each candidate is ranked.
pub proof fn lemma_ranking_keeps_candidates(
    query: Seq<char>,
    candidates: Seq<Seq<char>>,
    count: int,
    ranked: Seq<Seq<char>>,
)
    requires
        is_top_ranking(query, candidates, count, ranked),
    ensures
        ranked.len() == candidates.len(),
        forall|i: int| 0 <= i < ranked.len() ==> candidates.contains(#[trigger] ranked[i]),
        forall|j: int| 0 <= j < candidates.len() ==> ranked.contains(#[trigger] candidates[j]),
{
    let order = choose|order: Seq<usize>|
        {
            &&& is_permutation(order, candidates.len())
            &&& ranked == order.map_values(|p: usize| candidates[p as int])
            &&& sorted_between(rank_keys(candidates, query), order, 0, count + 1)
            &&& separated(rank_keys(candidates, query), order, count + 1)
        };
    assert forall|i: int| 0 <= i < ranked.len() implies candidates.contains(
        #[trigger] ranked[i],
    ) by {
        assert(order[i] < candidates.len());
        assert(ranked[i] == candidates[order[i] as int]);
    }
    assert forall|j: int| 0 <= j < candidates.len() implies ranked.contains(
        #[trigger] candidates[j],
    ) by {
        assert(order_holds(order, j));
        let w = choose|w: int| 0 <= w < order.len() && order[w] == j;
        assert(ranked[w] == candidates[j]);
    }
}

/// The first `count` entries of a top ranking are `count` candidates, and
/// none of them scores below any candidate left out of them.
pub proof fn lemma_top_k_is_best(
    query: Seq<char>,
    candidates: Seq<Seq<char>>,
    count: int,
    ranked: Seq<Seq<char>>,
)
    requires
        0 <= count < candidates.len(),
        is_top_ranking(query, candidates, count, ranked),
    ensures
        ranked.take(count).len() == count,
        forall|i: int| 0 <= i < count ==> candidates.contains(#[trigger] ranked[i]),
        forall|i: int, j: int|
            0 <= i < count <= j < ranked.len() ==> score(#[trigger] ranked[i], query) >= score(
                #[trigger] ranked[j],
                query,
            ),
{
    lemma_ranking_keeps_candidates(query, candidates, count, ranked);
    let keys = rank_keys(candidates, query);
    let order = choose|order: Seq<usize>|
        {
            &&& is_permutation(order, candidates.len())
            &&& ranked == order.map_values(|p: usize| candidates[p as int])
            &&& sorted_between(keys, order, 0, count + 1)
            &&& separated(keys, order, count + 1)
        };
    assert forall|i: int, j: int| 0 <= i < count <= j < ranked.len() implies score(
        #[trigger] ranked[i],
        query,
    ) >= score(#[trigger] ranked[j], query) by {
        assert(order[i] < candidates.len() && order[j] < candidates.len());
        assert(ranked[i] == candidates[order[i] as int] && ranked[j] == candidates[order[j] as int]);
        if j == count {
            assert(ranks_before(keys, order[i] as int, order[j] as int));
        } else {
            assert(ranks_before(keys, order[i] as int, order[j] as int));
        }
    }
}

/// Selecting no entries selects nothing; selecting all but one leaves out
/// exactly one candidate, and it is one with the lowest score.
pub proof fn lemma_top_extremes(query: Seq<char>, candidates: Seq<Seq<char>>, ranked: Seq<Seq<char>>)
    requires
        candidates.len() > 0,
        is_top_ranking(query, candidates, candidates.len() - 1, ranked),
    ensures
        ranked.take(0).len() == 0,
        ranked.len() == candidates.len(),
        candidates.contains(ranked.last()),
        forall|j: int|
            0 <= j < candidates.len() ==> score(#[trigger] candidates[j], query) >= score(
                ranked.last(),
                query,
            ),
{
    lemma_ranking_keeps_candidates(query, candidates, candidates.len() - 1, ranked);
    let n = candidates.len() as int;
    let keys = rank_keys(candidates, query);
    let order = choose|order: Seq<usize>|
        {
            &&& is_permutation(order, candidates.len())
            &&& ranked == order.map_values(|p: usize| candidates[p as int])
            &&& sorted_between(keys, order, 0, n)
            &&& separated(keys, order, n)
        };
    assert(ranked.last() == ranked[n - 1]);
    assert forall|j: int| 0 <= j < n implies score(#[trigger] candidates[j], query) >= score(
        ranked.last(),
        query,
    ) by {
        assert(order_holds(order, j));
        let w = choose|w: int| 0 <= w < order.len() && order[w] == j;
        assert(order[n - 1] < n);
        if w < n - 1 {
            assert(ranks_before(keys, order[w] as int, order[n - 1] as int));
        }
    }
}

/// Scores ignore case: texts with the same lowercase forms score alike.
pub proof fn lemma_score_ignores_case(c1: Seq<char>, c2: Seq<char>, q1: Seq<char>, q2: Seq<char>)
    requires
        lower_of(c1) == lower_of(c2),
        lower_of(q1) == lower_of(q2),
    ensures
        score(c1, q1) == score(c2, q2),
        rank_key(c1, q1) == rank_key(c2, q2),
{
}

} // verus!
