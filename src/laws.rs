//! Properties that relate the library's operations, proved over the spec
//! functions their contracts use.
use vstd::prelude::*;
use crate::repo::{Repository, full_names};
use crate::state::{AppMode, AppState, SortMode, StatusLevel, toggled};
use crate::pipeline::{key_cmp, passes, filter_pred, is_sort_perm, pos_before, opt_cmp, opt_text};
use crate::text::{lex_cmp, lower_of, dec};
use crate::app::{is_view, search_step, status_is, summary_text, without_names, Command, Action};

verus! {

/// Every index of a view is in range, and its repository passes every
/// active filter toggle.
pub proof fn lemma_view_passes_filters(repos: Seq<Repository>, query: Seq<char>, private_only: bool, forks_only: bool, mode: SortMode, v: Seq<usize>)
    requires
        is_view(repos, query, private_only, forks_only, mode, v),
    ensures
        forall|k: int| 0 <= k < v.len() ==> (#[trigger] v[k]) < repos.len() && passes(repos[v[k] as int], private_only, forks_only),
{
    broadcast use vstd::seq_lib::group_filter_ensures;
    let base = choose|base: Seq<usize>| crate::fuzzy::is_fuzzy_ranking(repos, query, base)
        && #[trigger] crate::pipeline::is_stable_sort(repos, mode, base.filter(filter_pred(repos, private_only, forks_only)), v);
    let pred = filter_pred(repos, private_only, forks_only);
    let input = base.filter(pred);
    let perm = choose|perm: Seq<int>| is_sort_perm(repos, mode, input, v, perm);
    if query.len() > 0 {
        assert(crate::fuzzy::scores_of(full_names(repos), query).len() == repos.len());
    }
    assert forall|k: int| 0 <= k < v.len() implies (#[trigger] v[k]) < repos.len() && passes(repos[v[k] as int], private_only, forks_only) by {
        let p = perm[k];
        assert(v[k] == input[p]);
        assert(pred(input[p]));
        assert(input.contains(input[p]));
        base.lemma_filter_contains_rev(pred, input[p]);
    }
}

/// A view is ordered by its sort key: names ascend by lowercase form; stars
/// and both timestamps descend.
pub proof fn lemma_view_ordered(repos: Seq<Repository>, query: Seq<char>, private_only: bool, forks_only: bool, mode: SortMode, v: Seq<usize>)
    requires
        is_view(repos, query, private_only, forks_only, mode, v),
    ensures
        forall|i: int, j: int| 0 <= i < j < v.len() ==> key_cmp(mode, repos[#[trigger] v[i] as int], repos[#[trigger] v[j] as int]) <= 0,
        mode == SortMode::Name ==> forall|i: int, j: int| 0 <= i < j < v.len()
            ==> lex_cmp(lower_of(repos[#[trigger] v[i] as int].full_name@), lower_of(repos[#[trigger] v[j] as int].full_name@)) <= 0,
        mode == SortMode::Stars ==> forall|i: int, j: int| 0 <= i < j < v.len()
            ==> repos[#[trigger] v[i] as int].stargazers_count >= repos[#[trigger] v[j] as int].stargazers_count,
        mode == SortMode::LastUpdated ==> forall|i: int, j: int| 0 <= i < j < v.len()
            ==> opt_cmp(opt_text(repos[#[trigger] v[j] as int].updated_at), opt_text(repos[#[trigger] v[i] as int].updated_at)) <= 0,
        mode == SortMode::Created ==> forall|i: int, j: int| 0 <= i < j < v.len()
            ==> opt_cmp(opt_text(repos[#[trigger] v[j] as int].created_at), opt_text(repos[#[trigger] v[i] as int].created_at)) <= 0,
{
    let base = choose|base: Seq<usize>| crate::fuzzy::is_fuzzy_ranking(repos, query, base)
        && #[trigger] crate::pipeline::is_stable_sort(repos, mode, base.filter(filter_pred(repos, private_only, forks_only)), v);
    let input = base.filter(filter_pred(repos, private_only, forks_only));
    let perm = choose|perm: Seq<int>| is_sort_perm(repos, mode, input, v, perm);
    assert forall|i: int, j: int| 0 <= i < j < v.len() implies key_cmp(mode, repos[#[trigger] v[i] as int], repos[#[trigger] v[j] as int]) <= 0 by {
        assert(pos_before(repos, mode, input, perm[i], perm[j]));
        assert(v[i] == input[perm[i]] && v[j] == input[perm[j]]);
    }
}

/// Toggling the same name twice leaves the staged set as it was.
pub proof fn lemma_toggle_twice(staged: Set<Seq<char>>, name: Seq<char>)
    ensures
        toggled(toggled(staged, name), name) == staged,
{
    if staged.contains(name) {
        assert(staged.remove(name).insert(name) =~= staged);
    } else {
        assert(staged.insert(name).remove(name) =~= staged);
    }
}

/// With nothing staged, the command to enter Staging leaves the mode at
/// Search and sets a warning.
pub proof fn lemma_empty_staging_refused(o: AppState, n: AppState, a: Action)
    requires
        o.staged_for_deletion@.len() == 0,
        search_step(o, n, Command::EnterStaging, a),
    ensures
        n.mode == AppMode::Search,
        a == Action::Continue,
        status_is(n, "No repos staged for deletion"@, StatusLevel::Warning),
{
}

/// A run over two staged names `a` and `b` where `a` is deleted and `b`
/// fails: `a` leaves the collection and the staged set, `b` stays in both,
/// and the summary reports one deletion and one failure.
pub proof fn lemma_partial_failure(repos: Seq<Repository>, staged: Set<Seq<char>>, a: Seq<char>, b: Seq<char>, dry_run: bool, reason: Seq<char>)
    requires
        a != b,
        staged.contains(a),
        staged.contains(b),
        full_names(repos).contains(b),
    ensures
        !full_names(without_names(repos, seq![a])).contains(a),
        full_names(without_names(repos, seq![a])).contains(b),
        !staged.difference(seq![a].to_set()).contains(a),
        staged.difference(seq![a].to_set()).contains(b),
        summary_text(dry_run, 1, 1, reason) == "Deleted 1, failed 1: "@ + reason,
{
    broadcast use vstd::seq_lib::group_filter_ensures;
    let g = seq![a];
    let p = |r: Repository| !g.contains(r.full_name@);
    let kept = repos.filter(p);
    assert(g.contains(a)) by {
        assert(g[0] == a);
    }
    assert(!g.contains(b));
    assert(seq![a].to_set().contains(a));
    if full_names(kept).contains(a) {
        let k = choose|k: int| 0 <= k < kept.len() && #[trigger] full_names(kept)[k] == a;
        assert(p(kept[k]));
    }
    let k = choose|k: int| 0 <= k < repos.len() && #[trigger] full_names(repos)[k] == b;
    assert(p(repos[k]));
    assert(kept.contains(repos[k]));
    let m = choose|m: int| 0 <= m < kept.len() && #[trigger] kept[m] == repos[k];
    assert(full_names(kept)[m] == b);
    assert(dec(1) =~= seq!['1']);
    reveal_strlit("Deleted ");
    reveal_strlit(", failed ");
    reveal_strlit(": ");
    reveal_strlit("Deleted 1, failed 1: ");
    assert(summary_text(dry_run, 1, 1, reason) =~= "Deleted 1, failed 1: "@ + reason);
}

} // verus!
