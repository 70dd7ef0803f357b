//! The filter and sort stages that turn a fuzzy ranking into the view.
use vstd::prelude::*;
use crate::repo::Repository;
use crate::state::SortMode;
use crate::text::{lex_cmp, lower_of, compare_text, lowercase, lemma_lex_cmp_range, lemma_lex_cmp_antisym, lemma_lex_cmp_trans};

verus! {

pub open spec fn opt_text(o: Option<String>) -> Option<Seq<char>> {
    match o {
        Some(s) => Some(s@),
        None => None,
    }
}

/// Three-way comparison of optional texts; an absent text orders first.
pub open spec fn opt_cmp(a: Option<Seq<char>>, b: Option<Seq<char>>) -> int {
    match (a, b) {
        (None, None) => 0,
        (None, Some(_)) => -1,
        (Some(_), None) => 1,
        (Some(x), Some(y)) => lex_cmp(x, y),
    }
}

pub open spec fn int_cmp(a: int, b: int) -> int {
    if a < b { -1 } else if a > b { 1 } else { 0 }
}

/// Three-way comparison of two repositories in display order: negative when
/// `a` shows before `b`. Timestamps and stars descend; names ascend by their
/// lowercase form.
pub open spec fn key_cmp(mode: SortMode, a: Repository, b: Repository) -> int {
    match mode {
        SortMode::LastUpdated => opt_cmp(opt_text(b.updated_at), opt_text(a.updated_at)),
        SortMode::Created => opt_cmp(opt_text(b.created_at), opt_text(a.created_at)),
        SortMode::Name => lex_cmp(lower_of(a.full_name@), lower_of(b.full_name@)),
        SortMode::Stars => int_cmp(b.stargazers_count as int, a.stargazers_count as int),
    }
}

pub proof fn lemma_key_cmp_antisym(mode: SortMode, a: Repository, b: Repository)
    ensures
        key_cmp(mode, a, b) == -key_cmp(mode, b, a),
        -1 <= key_cmp(mode, a, b) <= 1,
{
    match mode {
        SortMode::LastUpdated => if a.updated_at is Some && b.updated_at is Some {
            lemma_lex_cmp_antisym(b.updated_at->0@, a.updated_at->0@);
            lemma_lex_cmp_range(b.updated_at->0@, a.updated_at->0@);
        },
        SortMode::Created => if a.created_at is Some && b.created_at is Some {
            lemma_lex_cmp_antisym(b.created_at->0@, a.created_at->0@);
            lemma_lex_cmp_range(b.created_at->0@, a.created_at->0@);
        },
        SortMode::Name => {
            lemma_lex_cmp_antisym(lower_of(a.full_name@), lower_of(b.full_name@));
            lemma_lex_cmp_range(lower_of(a.full_name@), lower_of(b.full_name@));
        },
        SortMode::Stars => {},
    }
}

pub proof fn lemma_key_cmp_trans(mode: SortMode, a: Repository, b: Repository, c: Repository)
    requires
        key_cmp(mode, a, b) <= 0,
        key_cmp(mode, b, c) <= 0,
    ensures
        key_cmp(mode, a, c) <= 0,
        key_cmp(mode, a, b) < 0 || key_cmp(mode, b, c) < 0 ==> key_cmp(mode, a, c) < 0,
{
    match mode {
        SortMode::LastUpdated => if a.updated_at is Some && b.updated_at is Some && c.updated_at is Some {
            lemma_lex_cmp_trans(c.updated_at->0@, b.updated_at->0@, a.updated_at->0@);
        },
        SortMode::Created => if a.created_at is Some && b.created_at is Some && c.created_at is Some {
            lemma_lex_cmp_trans(c.created_at->0@, b.created_at->0@, a.created_at->0@);
        },
        SortMode::Name => {
            lemma_lex_cmp_trans(lower_of(a.full_name@), lower_of(b.full_name@), lower_of(c.full_name@));
        },
        SortMode::Stars => {},
    }
}

/// Whether a repository passes the active filter toggles.
pub open spec fn passes(r: Repository, private_only: bool, forks_only: bool) -> bool {
    (!private_only || r.private) && (!forks_only || r.fork)
}

pub open spec fn filter_pred(repos: Seq<Repository>, private_only: bool, forks_only: bool) -> spec_fn(usize) -> bool {
    |i: usize| passes(repos[i as int], private_only, forks_only)
}

/// Position `p` of `input` shows before position `q`: by key, then by position.
pub open spec fn pos_before(repos: Seq<Repository>, mode: SortMode, input: Seq<usize>, p: int, q: int) -> bool {
    let c = key_cmp(mode, repos[input[p] as int], repos[input[q] as int]);
    c < 0 || (c == 0 && p < q)
}

pub open spec fn is_sort_perm(repos: Seq<Repository>, mode: SortMode, input: Seq<usize>, out: Seq<usize>, perm: Seq<int>) -> bool {
    &&& perm.len() == input.len()
    &&& out.len() == input.len()
    &&& forall|i: int| 0 <= i < perm.len() ==> 0 <= #[trigger] perm[i] < input.len() && out[i] == input[perm[i]]
    &&& forall|a: int, b: int| 0 <= a < b < perm.len() ==> pos_before(repos, mode, input, #[trigger] perm[a], #[trigger] perm[b])
}

/// `out` is `input` ordered by `mode`; entries with equal keys keep their
/// relative order from `input`.
pub open spec fn is_stable_sort(repos: Seq<Repository>, mode: SortMode, input: Seq<usize>, out: Seq<usize>) -> bool {
    exists|perm: Seq<int>| is_sort_perm(repos, mode, input, out, perm)
}

pub open spec fn indices_in(repos: Seq<Repository>, s: Seq<usize>) -> bool {
    forall|k: int| 0 <= k < s.len() ==> (#[trigger] s[k]) < repos.len()
}

/// The lowercase names used by the name sort, one per repository.
pub open spec fn lowers_of(repos: Seq<Repository>, lowers: Seq<String>) -> bool {
    &&& lowers.len() == repos.len()
    &&& forall|i: int| 0 <= i < repos.len() ==> (#[trigger] lowers[i])@ == lower_of(repos[i].full_name@)
}

fn compare_opt(a: &Option<String>, b: &Option<String>) -> (r: i8)
    ensures
        r as int == opt_cmp(opt_text(*a), opt_text(*b)),
{
    match (a, b) {
        (None, None) => 0,
        (None, Some(_)) => -1,
        (Some(_), None) => 1,
        (Some(x), Some(y)) => compare_text(x.as_str(), y.as_str()),
    }
}

fn compare_keys(repos: &Vec<Repository>, lowers: &Vec<String>, mode: SortMode, a: usize, b: usize) -> (r: i8)
    requires
        a < repos@.len(),
        b < repos@.len(),
        mode == SortMode::Name ==> lowers_of(repos@, lowers@),
    ensures
        r as int == key_cmp(mode, repos@[a as int], repos@[b as int]),
{
    match mode {
        SortMode::LastUpdated => compare_opt(&repos[b].updated_at, &repos[a].updated_at),
        SortMode::Created => compare_opt(&repos[b].created_at, &repos[a].created_at),
        SortMode::Name => compare_text(lowers[a].as_str(), lowers[b].as_str()),
        SortMode::Stars => {
            let x = repos[b].stargazers_count;
            let y = repos[a].stargazers_count;
            if x < y { -1 } else if x > y { 1 } else { 0 }
        },
    }
}

/// The lowercase form of every repository's qualified name.
fn lowercase_names(repos: &Vec<Repository>) -> (lowers: Vec<String>)
    ensures
        lowers_of(repos@, lowers@),
{
    let mut lowers: Vec<String> = Vec::new();
    let mut i: usize = 0;
    while i < repos.len()
        invariant
            i <= repos@.len(),
            lowers@.len() == i,
            forall|k: int| 0 <= k < i ==> (#[trigger] lowers@[k])@ == lower_of(repos@[k].full_name@),
        decreases repos@.len() - i,
    {
        lowers.push(lowercase(repos[i].full_name.as_str()));
        i = i + 1;
    }
    lowers
}

/// Keeps the indices whose repository passes the toggles, in order.
pub fn retain_passing(repos: &Vec<Repository>, input: &Vec<usize>, private_only: bool, forks_only: bool) -> (out: Vec<usize>)
    requires
        indices_in(repos@, input@),
    ensures
        out@ == input@.filter(filter_pred(repos@, private_only, forks_only)),
{
    let ghost pred = filter_pred(repos@, private_only, forks_only);
    let mut out: Vec<usize> = Vec::new();
    let mut i: usize = 0;
    proof {
        reveal(Seq::filter);
        assert(input@.subrange(0, 0) =~= Seq::<usize>::empty());
    }
    while i < input.len()
        invariant
            i <= input@.len(),
            indices_in(repos@, input@),
            pred == filter_pred(repos@, private_only, forks_only),
            out@ == input@.subrange(0, i as int).filter(pred),
        decreases input@.len() - i,
    {
        let idx = input[i];
        let r = &repos[idx];
        proof {
            let s = input@.subrange(0, i + 1);
            assert(s.drop_last() =~= input@.subrange(0, i as int));
            assert(s.last() == idx);
            reveal(Seq::filter);
            assert(pred(idx) == passes(repos@[idx as int], private_only, forks_only));
            assert(s.filter(pred) == (if pred(idx) {
                input@.subrange(0, i as int).filter(pred).push(idx)
            } else {
                input@.subrange(0, i as int).filter(pred)
            }));
        }
        if (!private_only || r.private) && (!forks_only || r.fork) {
            out.push(idx);
        }
        i = i + 1;
    }
    assert(input@.subrange(0, input@.len() as int) =~= input@);
    out
}

/// Orders `input` by `mode`, keeping the input order among equal keys.
pub fn stable_sort_by_mode(repos: &Vec<Repository>, input: &Vec<usize>, mode: SortMode) -> (out: Vec<usize>)
    requires
        indices_in(repos@, input@),
    ensures
        is_stable_sort(repos@, mode, input@, out@),
        indices_in(repos@, out@),
{
    let lowers = if mode == SortMode::Name {
        lowercase_names(repos)
    } else {
        Vec::new()
    };
    let ghost rs = repos@;
    let ghost ins = input@;
    let mut ps: Vec<usize> = Vec::new();
    let mut k: usize = 0;
    while k < input.len()
        invariant
            k <= ins.len(),
            rs == repos@,
            ins == input@,
            indices_in(rs, ins),
            mode == SortMode::Name ==> lowers_of(repos@, lowers@),
            ps@.len() == k,
            forall|m: int| 0 <= m < ps@.len() ==> (#[trigger] ps@[m]) < k,
            forall|a: int, b: int| 0 <= a < b < ps@.len() ==> pos_before(rs, mode, ins, #[trigger] ps@[a] as int, #[trigger] ps@[b] as int),
        decreases ins.len() - k,
    {
        let mut j: usize = ps.len();
        while j > 0 && compare_keys(repos, &lowers, mode, input[k], input[ps[j - 1]]) < 0
            invariant
                j <= ps@.len(),
                k < ins.len(),
                rs == repos@,
                ins == input@,
                indices_in(rs, ins),
                mode == SortMode::Name ==> lowers_of(repos@, lowers@),
                forall|m: int| 0 <= m < ps@.len() ==> (#[trigger] ps@[m]) < k,
                forall|m: int| j <= m < ps@.len() ==> key_cmp(mode, rs[ins[k as int] as int], rs[ins[#[trigger] ps@[m] as int] as int]) < 0,
            decreases j,
        {
            j = j - 1;
        }
        let ghost old_ps = ps@;
        ps.insert(j, k);
        proof {
            assert forall|a: int, b: int| 0 <= a < b < ps@.len() implies pos_before(rs, mode, ins, #[trigger] ps@[a] as int, #[trigger] ps@[b] as int) by {
                if b < j {
                    assert(ps@[a] == old_ps[a] && ps@[b] == old_ps[b]);
                } else if b == j {
                    let x = rs[ins[old_ps[a] as int] as int];
                    let y = rs[ins[old_ps[j - 1] as int] as int];
                    let z = rs[ins[k as int] as int];
                    assert(ps@[a] == old_ps[a]);
                    lemma_key_cmp_antisym(mode, z, y);
                    lemma_key_cmp_antisym(mode, x, y);
                    if a < j - 1 {
                        assert(pos_before(rs, mode, ins, old_ps[a] as int, old_ps[j - 1] as int));
                        lemma_key_cmp_trans(mode, x, y, z);
                    }
                } else if a == j {
                    assert(ps@[b] == old_ps[b - 1]);
                } else if a < j {
                    assert(ps@[a] == old_ps[a] && ps@[b] == old_ps[b - 1]);
                } else {
                    assert(ps@[a] == old_ps[a - 1] && ps@[b] == old_ps[b - 1]);
                }
            }
        }
        k = k + 1;
    }
    let mut out: Vec<usize> = Vec::new();
    let mut i: usize = 0;
    while i < ps.len()
        invariant
            i <= ps@.len(),
            ps@.len() == ins.len(),
            ins == input@,
            indices_in(rs, ins),
            rs == repos@,
            forall|m: int| 0 <= m < ps@.len() ==> (#[trigger] ps@[m]) < ins.len(),
            out@.len() == i,
            forall|m: int| 0 <= m < i ==> (#[trigger] out@[m]) == ins[ps@[m] as int],
        decreases ps@.len() - i,
    {
        out.push(input[ps[i]]);
        i = i + 1;
    }
    let ghost perm = ps@.map_values(|p: usize| p as int);
    assert(is_sort_perm(rs, mode, ins, out@, perm));
    out
}

} // verus!
