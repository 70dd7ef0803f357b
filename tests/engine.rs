use prune::app::{Action, App, Event, KeyCode, KeyPress, Modifiers};
use prune::deletion::{DeletionRun, DeletionStep};
use prune::fuzzy::{rank_by_score, FuzzyMatcher};
use prune::repo::Repository;
use prune::state::{AppMode, AppState, SortMode, StatusLevel};
use prune::text::{compare_text, decimal_string, is_decimal_of, relative_age};

fn repo(name: &str, stars: u32) -> Repository {
    Repository {
        id: 0,
        name: name.rsplit('/').next().unwrap_or(name).to_string(),
        full_name: name.to_string(),
        description: None,
        private: false,
        fork: false,
        archived: false,
        stargazers_count: stars,
        language: None,
        created_at: None,
        updated_at: None,
        html_url: format!("https://example.com/{}", name),
    }
}

fn key(code: KeyCode) -> KeyPress {
    KeyPress { code, modifiers: Modifiers::Plain }
}

fn ctrl(c: char) -> KeyPress {
    KeyPress { code: KeyCode::Char(c), modifiers: Modifiers::Control }
}

fn loaded(repos: Vec<Repository>) -> App {
    let mut app = App::new(false, false, false);
    app.apply_loaded(repos);
    app
}

fn status_text(s: &AppState) -> String {
    s.status_message.as_ref().map(|m| m.0.clone()).unwrap_or_default()
}

#[test]
fn empty_query_is_identity() {
    let repos = vec![repo("z/c", 1), repo("a/b", 2), repo("m/x", 3)];
    let mut m = FuzzyMatcher::new();
    assert_eq!(m.filter(&repos, ""), vec![0, 1, 2]);
    assert_eq!(m.filter(&[], ""), Vec::<usize>::new());
}

#[test]
fn subsequence_match_ranks_contiguous_first() {
    let repos = vec![repo("abc", 0), repo("xyb", 0), repo("a-b-c", 0)];
    let mut m = FuzzyMatcher::new();
    let r = m.filter(&repos, "ab");
    assert_eq!(r[0], 0);
    assert!(r.contains(&2));
    // "xyb" has no 'a', so it is no subsequence match of "ab"
    assert!(!r.contains(&1));
}

#[test]
fn rank_by_score_orders_descending_and_stable() {
    let scores = vec![Some(3u16), None, Some(7), Some(3), Some(9)];
    assert_eq!(rank_by_score(&scores), vec![4, 2, 0, 3]);
    assert_eq!(rank_by_score(&vec![None, None]), Vec::<usize>::new());
}

#[test]
fn stars_sort_with_empty_query() {
    let mut app = App::new(false, false, false);
    app.state.sort_mode = SortMode::Stars;
    app.apply_loaded(vec![repo("x/a", 5), repo("x/b", 10)]);
    assert_eq!(app.state.filtered_indices, vec![1, 0]);
}

#[test]
fn name_sort_is_case_insensitive_ascending() {
    let mut app = App::new(false, false, false);
    app.state.sort_mode = SortMode::Name;
    app.apply_loaded(vec![repo("b/Zeta", 0), repo("B/alpha", 0), repo("a/Mid", 0)]);
    let names: Vec<String> = app
        .state
        .filtered_indices
        .iter()
        .map(|&i| app.state.repositories[i].full_name.to_lowercase())
        .collect();
    assert_eq!(names, vec!["a/mid", "b/alpha", "b/zeta"]);
}

#[test]
fn updated_sort_is_most_recent_first_and_stable() {
    let mut a = repo("o/a", 0);
    a.updated_at = Some("2023-01-01 00:00:00 UTC".to_string());
    let mut b = repo("o/b", 0);
    b.updated_at = Some("2024-06-01 00:00:00 UTC".to_string());
    let c = repo("o/c", 0);
    let mut d = repo("o/d", 0);
    d.updated_at = Some("2023-01-01 00:00:00 UTC".to_string());
    let app = loaded(vec![a, b, c, d]);
    assert_eq!(app.state.filtered_indices, vec![1, 0, 3, 2]);
}

#[test]
fn created_sort_descends() {
    let mut app = App::new(false, false, false);
    app.state.sort_mode = SortMode::Created;
    let mut a = repo("o/a", 0);
    a.created_at = Some("2020".to_string());
    let mut b = repo("o/b", 0);
    b.created_at = Some("2022".to_string());
    app.apply_loaded(vec![a, b]);
    assert_eq!(app.state.filtered_indices, vec![1, 0]);
}

#[test]
fn private_and_fork_filters_combine() {
    let mut p = repo("o/p", 0);
    p.private = true;
    let mut f = repo("o/f", 0);
    f.fork = true;
    let mut pf = repo("o/pf", 0);
    pf.private = true;
    pf.fork = true;
    let mut app = App::new(false, true, false);
    app.apply_loaded(vec![p, f, pf, repo("o/x", 0)]);
    let mut got = app.state.filtered_indices.clone();
    got.sort();
    assert_eq!(got, vec![0, 2]);
    assert_eq!(app.handle_key(ctrl('f')), Action::Continue);
    assert_eq!(app.state.filtered_indices, vec![2]);
    assert_eq!(status_text(&app.state), "Filter: forks only");
    app.handle_key(ctrl('p'));
    let mut got = app.state.filtered_indices.clone();
    got.sort();
    assert_eq!(got, vec![1, 2]);
    assert_eq!(status_text(&app.state), "Filter: showing all repos");
}

#[test]
fn stage_then_unstage_restores_set() {
    let mut app = loaded(vec![repo("o/a", 0), repo("o/b", 0)]);
    app.state.staged_for_deletion.push("o/b".to_string());
    let before = app.state.staged_repos_sorted();
    app.state.toggle_stage();
    assert_eq!(app.state.staged_for_deletion.len(), 2);
    app.state.toggle_stage();
    assert_eq!(app.state.staged_repos_sorted(), before);
}

#[test]
fn recompute_resets_cursor_past_end() {
    let mut app = loaded(vec![repo("o/alpha", 0), repo("o/beta", 0), repo("o/gamma", 0)]);
    app.handle_key(key(KeyCode::Down));
    app.handle_key(key(KeyCode::Down));
    assert_eq!(app.state.selected_index, 2);
    for c in "alpha".chars() {
        app.handle_key(key(KeyCode::Char(c)));
    }
    assert_eq!(app.state.search_query, "alpha");
    assert_eq!(app.state.filtered_indices.len(), 1);
    assert_eq!(app.state.selected_index, 0);
    app.handle_key(key(KeyCode::Esc));
    assert_eq!(app.state.search_query, "");
    assert_eq!(app.state.filtered_indices.len(), 3);
}

#[test]
fn cursor_wraps_both_ways() {
    let mut app = loaded(vec![repo("o/a", 0), repo("o/b", 0), repo("o/c", 0)]);
    app.state.move_selection(-1);
    assert_eq!(app.state.selected_index, 2);
    app.state.move_selection(1);
    assert_eq!(app.state.selected_index, 0);
    app.state.move_selection(7);
    assert_eq!(app.state.selected_index, 1);
    app.state.move_selection(-8);
    assert_eq!(app.state.selected_index, 2);
}

#[test]
fn partial_failure_reconciles() {
    let mut app = loaded(vec![repo("o/A", 0), repo("o/B", 0), repo("o/C", 0)]);
    app.handle_key(key(KeyCode::Enter));
    app.handle_key(key(KeyCode::Enter));
    assert_eq!(app.state.staged_for_deletion.len(), 2);
    let mut run = app.begin_deletion();
    assert_eq!(app.state.mode, AppMode::Deleting);
    while let DeletionStep::Delete(name) = app.next_deletion(&run) {
        assert_eq!(app.state.deleting_repo.as_deref(), Some(name.as_str()));
        if name == "o/A" {
            run.record(Ok(()));
        } else {
            run.record(Err("forbidden".to_string()));
        }
    }
    app.finish_deletion(run);
    let names: Vec<&str> = app.state.repositories.iter().map(|r| r.full_name.as_str()).collect();
    assert!(!names.contains(&"o/A"));
    assert!(names.contains(&"o/B"));
    assert_eq!(app.state.staged_for_deletion, vec!["o/B".to_string()]);
    assert_eq!(status_text(&app.state), "Deleted 1, failed 1: forbidden");
    assert_eq!(app.state.status_message.as_ref().unwrap().1, StatusLevel::Error);
    assert_eq!(app.state.mode, AppMode::Search);
    assert_eq!(app.state.deletion_progress, None);
    assert_eq!(app.state.filtered_indices.len(), 2);
}

#[test]
fn rehearsal_run_reports_would_delete() {
    let mut app = App::new(true, false, false);
    app.apply_loaded(vec![repo("o/A", 0), repo("o/B", 0)]);
    app.handle_key(key(KeyCode::Enter));
    let mut run = app.begin_deletion();
    let mut seen = 0;
    loop {
        match app.next_deletion(&run) {
            DeletionStep::Rehearse(_) => {
                seen += 1;
                assert_eq!(app.state.deletion_progress, Some((seen, 1)));
                app.state.advance_spinner();
                run.record(Ok(()));
            }
            DeletionStep::Delete(_) => panic!("rehearsal must not delete"),
            DeletionStep::Finished => break,
        }
    }
    app.finish_deletion(run);
    assert_eq!(seen, 1);
    assert_eq!(status_text(&app.state), "[DRY RUN] Would have deleted 1 repos");
    assert_eq!(app.state.repositories.len(), 1);
}

#[test]
fn empty_staging_is_refused() {
    let mut app = loaded(vec![repo("o/a", 0)]);
    assert_eq!(app.handle_key(key(KeyCode::Tab)), Action::Continue);
    assert_eq!(app.state.mode, AppMode::Search);
    assert_eq!(status_text(&app.state), "No repos staged for deletion");
    assert_eq!(app.state.status_message.as_ref().unwrap().1, StatusLevel::Warning);
}

fn app_at_confirm() -> App {
    let mut app = loaded(vec![repo("o/a", 0), repo("o/b", 0), repo("o/c", 0)]);
    for _ in 0..3 {
        app.handle_key(key(KeyCode::Enter));
    }
    assert_eq!(app.state.staged_for_deletion.len(), 3);
    app.handle_key(key(KeyCode::Tab));
    assert_eq!(app.state.mode, AppMode::Staging);
    app.handle_key(key(KeyCode::Enter));
    assert_eq!(app.state.mode, AppMode::ConfirmDeletion);
    app
}

#[test]
fn confirmation_accepts_exact_count() {
    let mut app = app_at_confirm();
    app.handle_key(key(KeyCode::Char('3')));
    assert_eq!(app.handle_key(key(KeyCode::Enter)), Action::ExecuteDeletion);
    assert_eq!(app.state.mode, AppMode::Deleting);
    // keys are ignored while deleting
    assert_eq!(app.handle_key(key(KeyCode::Char('q'))), Action::Continue);
    assert_eq!(app.state.mode, AppMode::Deleting);
}

#[test]
fn confirmation_rejects_padded_count() {
    let mut app = app_at_confirm();
    app.handle_key(key(KeyCode::Char('0')));
    app.handle_key(key(KeyCode::Char('3')));
    assert_eq!(app.handle_key(key(KeyCode::Enter)), Action::Continue);
    assert_eq!(app.state.mode, AppMode::ConfirmDeletion);
    app.handle_key(key(KeyCode::Backspace));
    app.handle_key(key(KeyCode::Backspace));
    app.handle_key(key(KeyCode::Char('3')));
    app.handle_key(key(KeyCode::Char(' ')));
    assert_eq!(app.handle_key(key(KeyCode::Enter)), Action::Continue);
    assert_eq!(app.state.mode, AppMode::ConfirmDeletion);
    app.handle_key(key(KeyCode::Esc));
    assert_eq!(app.state.mode, AppMode::Staging);
    assert_eq!(app.state.confirm_input, "");
}

#[test]
fn decimal_rendering_is_exact() {
    assert_eq!(decimal_string(0), "0");
    assert_eq!(decimal_string(3), "3");
    assert_eq!(decimal_string(1207), "1207");
    assert!(is_decimal_of("3", 3));
    assert!(!is_decimal_of("03", 3));
    assert!(!is_decimal_of("3 ", 3));
    assert!(!is_decimal_of("", 0));
}

#[test]
fn text_comparison_by_code_point() {
    assert_eq!(compare_text("abc", "abd"), -1);
    assert_eq!(compare_text("abc", "ab"), 1);
    assert_eq!(compare_text("", ""), 0);
    assert_eq!(compare_text("Z", "a"), -1);
    assert_eq!(compare_text("é", "z"), 1);
}

#[test]
fn unstage_keeps_cursor_off_the_top() {
    let mut app = loaded(vec![repo("o/a", 0), repo("o/b", 0), repo("o/c", 0)]);
    for _ in 0..3 {
        app.handle_key(key(KeyCode::Enter));
    }
    app.handle_key(key(KeyCode::Tab));
    app.handle_key(key(KeyCode::Up));
    assert_eq!(app.state.staged_selected_index, 2);
    app.handle_key(key(KeyCode::Delete));
    assert_eq!(app.state.staged_repos_sorted(), vec!["o/a".to_string(), "o/b".to_string()]);
    assert_eq!(app.state.staged_selected_index, 1);
    app.state.staged_selected_index = 0;
    app.handle_key(key(KeyCode::Backspace));
    assert_eq!(app.state.staged_repos_sorted(), vec!["o/b".to_string()]);
    assert_eq!(app.state.staged_selected_index, 0);
    app.handle_key(key(KeyCode::Backspace));
    assert!(app.state.staged_for_deletion.is_empty());
    assert_eq!(app.state.mode, AppMode::Search);
}

#[test]
fn staged_repos_follow_collection_order() {
    let mut app = loaded(vec![repo("o/z", 0), repo("o/a", 0), repo("o/m", 0)]);
    app.state.staged_for_deletion = vec!["o/m".to_string(), "o/z".to_string()];
    let staged: Vec<&str> = app.state.staged_repos().iter().map(|r| r.full_name.as_str()).collect();
    assert_eq!(staged, vec!["o/z", "o/m"]);
    assert_eq!(app.state.staged_repos_sorted(), vec!["o/m".to_string(), "o/z".to_string()]);
}

#[test]
fn reload_drops_vanished_staged_names() {
    let mut app = loaded(vec![repo("o/a", 0), repo("o/b", 0)]);
    app.state.staged_for_deletion = vec!["o/a".to_string(), "o/b".to_string()];
    app.apply_loaded(vec![repo("o/b", 0), repo("o/c", 0), repo("o/d", 0)]);
    assert_eq!(app.state.staged_for_deletion, vec!["o/b".to_string()]);
    assert_eq!(status_text(&app.state), "Loaded 3 repositories");
    assert!(!app.state.loading);
}

#[test]
fn load_error_keeps_collection() {
    let mut app = loaded(vec![repo("o/a", 0)]);
    app.state.loading = true;
    app.apply_load_error("timed out");
    assert_eq!(app.state.repositories.len(), 1);
    assert!(!app.state.loading);
    assert_eq!(status_text(&app.state), "Failed to load repos: timed out");
    assert_eq!(app.state.status_message.as_ref().unwrap().1, StatusLevel::Error);
}

#[test]
fn sort_cycle_and_labels() {
    assert_eq!(SortMode::default(), SortMode::LastUpdated);
    assert_eq!(SortMode::LastUpdated.next(), SortMode::Created);
    assert_eq!(SortMode::Created.next(), SortMode::Name);
    assert_eq!(SortMode::Name.next(), SortMode::Stars);
    assert_eq!(SortMode::Stars.next(), SortMode::LastUpdated);
    assert_eq!(SortMode::LastUpdated.label(), "Updated");
    assert_eq!(SortMode::Stars.label(), "Stars");
    let mut app = loaded(vec![repo("o/a", 1), repo("o/b", 2)]);
    app.handle_key(ctrl('s'));
    assert_eq!(app.state.sort_mode, SortMode::Created);
    assert_eq!(status_text(&app.state), "Sort: Created");
}

#[test]
fn spinner_cycles_through_ten_frames() {
    let mut s = AppState::new(false);
    let first = s.spinner();
    for _ in 0..10 {
        s.advance_spinner();
    }
    assert_eq!(s.spinner_frame, 0);
    assert_eq!(s.spinner(), first);
    s.advance_spinner();
    assert_ne!(s.spinner(), first);
}

#[test]
fn events_tick_clears_status_and_quit_keys() {
    let mut app = loaded(vec![repo("o/a", 0)]);
    assert!(app.state.status_message.is_some());
    assert_eq!(app.handle_event(Event::Tick), Action::Continue);
    assert!(app.state.status_message.is_none());
    assert_eq!(app.handle_event(Event::Resize(80, 24)), Action::Continue);
    assert_eq!(app.handle_event(Event::Key(ctrl('r'))), Action::Refresh);
    assert_eq!(app.handle_event(Event::Key(key(KeyCode::Char('q')))), Action::Quit);
    assert_eq!(app.handle_event(Event::Key(ctrl('c'))), Action::Quit);
}

#[test]
fn selected_repo_and_query_editing() {
    let mut app = loaded(vec![repo("o/one", 0), repo("o/two", 0)]);
    assert_eq!(app.state.selected_repo().map(|r| r.full_name.as_str()), Some("o/one"));
    app.handle_key(KeyPress { code: KeyCode::Char('T'), modifiers: Modifiers::Shift });
    assert_eq!(app.state.search_query, "T");
    app.handle_key(key(KeyCode::Backspace));
    assert_eq!(app.state.search_query, "");
    app.state.clear_status();
    app.state.set_status("hi".to_string(), StatusLevel::Info);
    assert_eq!(status_text(&app.state), "hi");
    let run = DeletionRun::new(vec![]);
    assert_eq!(run.position, 0);
    assert!(matches!(app.next_deletion(&run), DeletionStep::Finished));
}

#[test]
fn relative_age_buckets() {
    assert_eq!(relative_age(0, 0), "now");
    assert_eq!(relative_age(0, 5), "5h");
    assert_eq!(relative_age(3, 80), "3d");
    assert_eq!(relative_age(65, 0), "2mo");
    assert_eq!(relative_age(800, 0), "2y");
    assert_eq!(relative_age(-2, -50), "now");
}

#[test]
fn cursor_keeps_place_after_deletion_run() {
    let mut app = loaded(vec![repo("o/a", 0), repo("o/b", 0), repo("o/c", 0)]);
    app.handle_key(key(KeyCode::Up));
    app.handle_key(key(KeyCode::Enter));
    assert_eq!(app.state.selected_index, 0);
    app.handle_key(key(KeyCode::Down));
    assert_eq!(app.state.selected_index, 1);
    let mut run = app.begin_deletion();
    while let DeletionStep::Delete(_) = app.next_deletion(&run) {
        run.record(Ok(()));
    }
    app.finish_deletion(run);
    assert_eq!(app.state.repositories.len(), 2);
    assert_eq!(app.state.selected_index, 1);
}

#[test]
fn longest_admitted_name_scores_without_overflow() {
    let long = format!("b{}", "a".repeat(prune::fuzzy::MAX_NAME_LEN - 1));
    let query = "a".repeat(prune::fuzzy::MAX_NAME_LEN - 1);
    let repos = vec![repo(&long, 0), repo("o/x", 0)];
    let mut m = FuzzyMatcher::new();
    assert_eq!(m.filter(&repos, &query), vec![0]);
}
