//! Fuzzy ranking of repositories against a query.
use vstd::prelude::*;
use nucleo::{Config, Matcher, Utf32Str};
use crate::repo::{Repository, full_names};

verus! {

#[verifier::external_type_specification]
#[verifier::external_body]
pub struct ExMatcher(Matcher);

/// Name for the score that nucleo's matcher, configured for path-like
/// haystacks, gives `needle` in `haystack` (`None`: no subsequence match).
pub uninterp spec fn path_match_score(haystack: Seq<char>, needle: Seq<char>) -> Option<u16>;

/// Relies on `nucleo::Matcher::new` with `Config::DEFAULT.match_paths()`.
#[verifier::external_body]
fn new_path_matcher() -> (m: Matcher) {
    Matcher::new(Config::DEFAULT.match_paths())
}

/// The longest qualified name, in scalars, that the matcher is given.
/// `Utf32Str::new` may hand a name on as its UTF-8 bytes, so this is at most
/// 2048 matcher units; at no more than 26 points per matched unit, plus the
/// first-character and prefix bonuses, the score stays within `u16`.
pub const MAX_NAME_LEN: usize = 512;

/// Relies on `nucleo::Matcher::fuzzy_match`: the best score of `needle` as a
/// fuzzy subsequence of `haystack`. Its scratch memory does not affect the
/// score, so the result depends on the two texts and the configuration. The
/// only `Matcher` this library builds is the private field of `FuzzyMatcher`,
/// set by `new_path_matcher` alone, so the configuration is always the path
/// one. The score is summed in a `u16` without a check, and the haystack
/// length is asserted to fit `u32`: `MAX_NAME_LEN` keeps both in range.
#[verifier::external_body]
fn fuzzy_score(m: &mut Matcher, haystack: &str, needle: &str) -> (r: Option<u16>)
    requires
        haystack@.len() <= MAX_NAME_LEN,
    ensures
        r == path_match_score(haystack@, needle@),
{
    let mut hbuf = Vec::new();
    let mut nbuf = Vec::new();
    m.fuzzy_match(Utf32Str::new(haystack, &mut hbuf), Utf32Str::new(needle, &mut nbuf))
}

/// `i` comes before `j` in a ranking: higher score first, then lower index.
pub open spec fn rank_before(scores: Seq<Option<u16>>, i: int, j: int) -> bool {
    scores[i]->0 > scores[j]->0 || (scores[i]->0 == scores[j]->0 && i < j)
}

/// `r` lists every index whose score is present, exactly once, by descending
/// score, ties in ascending index order.
pub open spec fn is_ranking(scores: Seq<Option<u16>>, r: Seq<usize>) -> bool {
    &&& forall|k: int| 0 <= k < r.len() ==> (#[trigger] r[k]) < scores.len() && scores[r[k] as int] is Some
    &&& forall|i: int| 0 <= i < scores.len() && (#[trigger] scores[i]) is Some ==> r.contains(i as usize)
    &&& forall|a: int, b: int| 0 <= a < b < r.len() ==> rank_before(scores, #[trigger] r[a] as int, #[trigger] r[b] as int)
}

/// The scores of each name against a non-empty query.
pub open spec fn scores_of(names: Seq<Seq<char>>, query: Seq<char>) -> Seq<Option<u16>> {
    names.map_values(|h: Seq<char>| path_match_score(h, query))
}

/// The identity ordering `0..n`.
pub open spec fn identity(n: nat) -> Seq<usize> {
    Seq::new(n, |i: int| i as usize)
}

/// What fuzzy ranking yields for a collection and a query.
pub open spec fn is_fuzzy_ranking(repos: Seq<Repository>, query: Seq<char>, r: Seq<usize>) -> bool {
    if query.len() == 0 {
        r == identity(repos.len())
    } else {
        is_ranking(scores_of(full_names(repos), query), r)
    }
}

/// Every name fits the matcher's limit.
pub open spec fn names_fit(repos: Seq<Repository>) -> bool {
    forall|i: int| 0 <= i < repos.len() ==> (#[trigger] repos[i]).full_name@.len() <= MAX_NAME_LEN
}

proof fn lemma_insert_contains(s: Seq<usize>, j: int, x: usize, y: usize)
    requires
        0 <= j <= s.len(),
    ensures
        s.insert(j, x).contains(y) <==> (s.contains(y) || y == x),
{
    let t = s.insert(j, x);
    if s.contains(y) {
        let k = choose|k: int| 0 <= k < s.len() && s[k] == y;
        if k < j {
            assert(t[k] == y);
        } else {
            assert(t[k + 1] == y);
        }
    }
    if y == x {
        assert(t[j] == x);
    }
    if t.contains(y) {
        let k = choose|k: int| 0 <= k < t.len() && t[k] == y;
        if k < j {
            assert(s[k] == y);
        } else if k > j {
            assert(s[k - 1] == y);
        }
    }
}

fn outscores(s: u16, t: Option<u16>) -> (b: bool)
    ensures
        b == (t is Some && s > t->0),
{
    match t {
        Some(t) => s > t,
        None => false,
    }
}

/// Orders the indices whose score is present by descending score; equal
/// scores keep their index order.
pub fn rank_by_score(scores: &Vec<Option<u16>>) -> (r: Vec<usize>)
    ensures
        is_ranking(scores@, r@),
{
    let mut r: Vec<usize> = Vec::new();
    let mut i: usize = 0;
    while i < scores.len()
        invariant
            i <= scores@.len(),
            forall|k: int| 0 <= k < r@.len() ==> (#[trigger] r@[k]) < i && scores@[r@[k] as int] is Some,
            forall|m: int| 0 <= m < i && (#[trigger] scores@[m]) is Some ==> r@.contains(m as usize),
            forall|a: int, b: int| 0 <= a < b < r@.len() ==> rank_before(scores@, #[trigger] r@[a] as int, #[trigger] r@[b] as int),
        decreases scores@.len() - i,
    {
        match scores[i] {
            None => {},
            Some(s) => {
                let mut j: usize = r.len();
                while j > 0 && outscores(s, scores[r[j - 1]])
                    invariant
                        j <= r@.len(),
                        i < scores@.len(),
                        scores@[i as int] == Some(s),
                        forall|k: int| 0 <= k < r@.len() ==> (#[trigger] r@[k]) < i && scores@[r@[k] as int] is Some,
                        forall|k: int| j <= k < r@.len() ==> rank_before(scores@, i as int, #[trigger] r@[k] as int),
                    decreases j,
                {
                    j = j - 1;
                }
                let ghost old_r = r@;
                r.insert(j, i);
                proof {
                    assert forall|m: int| 0 <= m <= i && (#[trigger] scores@[m]) is Some implies r@.contains(m as usize) by {
                        lemma_insert_contains(old_r, j as int, i, m as usize);
                    }
                    assert forall|a: int, b: int| 0 <= a < b < r@.len() implies rank_before(scores@, #[trigger] r@[a] as int, #[trigger] r@[b] as int) by {
                        if b < j {
                            assert(r@[a] == old_r[a] && r@[b] == old_r[b]);
                        } else if b == j {
                            assert(r@[a] == old_r[a]);
                            assert(rank_before(scores@, old_r[a] as int, old_r[j - 1] as int) || a == j - 1);
                        } else if a == j {
                            assert(r@[b] == old_r[b - 1]);
                        } else if a < j {
                            assert(r@[a] == old_r[a] && r@[b] == old_r[b - 1]);
                        } else {
                            assert(r@[a] == old_r[a - 1] && r@[b] == old_r[b - 1]);
                        }
                    }
                }
            },
        }
        i = i + 1;
    }
    r
}

/// Scores and orders repositories against a query by their qualified names.
pub struct FuzzyMatcher {
    matcher: Matcher,
}

impl FuzzyMatcher {
    pub fn new() -> (m: Self) {
        FuzzyMatcher { matcher: new_path_matcher() }
    }

    /// Empty query: the identity ordering. Otherwise the indices of the names
    /// that match, by descending score, ties in collection order.
    pub fn filter(&mut self, repos: &[Repository], query: &str) -> (r: Vec<usize>)
        requires
            names_fit(repos@),
        ensures
            is_fuzzy_ranking(repos@, query@, r@),
    {
        if query.unicode_len() == 0 {
            let mut r: Vec<usize> = Vec::new();
            let mut i: usize = 0;
            while i < repos.len()
                invariant
                    i <= repos@.len(),
                    r@ == identity(i as nat),
                decreases repos@.len() - i,
            {
                r.push(i);
                i = i + 1;
                assert(r@ =~= identity(i as nat));
            }
            return r;
        }
        let mut scores: Vec<Option<u16>> = Vec::new();
        let mut i: usize = 0;
        while i < repos.len()
            invariant
                i <= repos@.len(),
                names_fit(repos@),
                scores@ == scores_of(full_names(repos@), query@).subrange(0, i as int),
            decreases repos@.len() - i,
        {
            let s = fuzzy_score(&mut self.matcher, repos[i].full_name.as_str(), query);
            scores.push(s);
            i = i + 1;
            assert(scores@ =~= scores_of(full_names(repos@), query@).subrange(0, i as int));
        }
        assert(scores@ =~= scores_of(full_names(repos@), query@));
        rank_by_score(&scores)
    }
}

} // verus!
