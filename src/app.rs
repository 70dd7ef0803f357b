//! The mode state machine and the deletion executor, driven by abstract key
//! presses and events; the caller performs the actions it asks for.
use vstd::prelude::*;
use vstd::string::*;
use crate::repo::Repository;
use crate::fuzzy::{FuzzyMatcher, is_fuzzy_ranking, scores_of, identity, names_fit};
use crate::pipeline::{is_stable_sort, filter_pred, indices_in, retain_passing, stable_sort_by_mode};
use crate::state::{AppMode, AppState, SortMode, StatusLevel, toggled, wrapped, unstage_effect, names_of, find_name, lemma_names_push};
use crate::deletion::{DeletionRun, DeletionStep};
use crate::repo::full_names;
use crate::text::{dec, pop_char, push_char, decimal_string, is_decimal_of};

verus! {

/// The view that the pipeline yields for a collection, a query, the filter
/// toggles and a sort mode: the fuzzy ranking, restricted to the repositories
/// that pass the toggles, stably ordered by the sort key.
pub open spec fn is_view(repos: Seq<Repository>, query: Seq<char>, private_only: bool, forks_only: bool, mode: SortMode, v: Seq<usize>) -> bool {
    exists|base: Seq<usize>| is_fuzzy_ranking(repos, query, base)
        && #[trigger] is_stable_sort(repos, mode, base.filter(filter_pred(repos, private_only, forks_only)), v)
}

/// The state's view is the one its inputs give.
pub open spec fn view_current(s: AppState) -> bool {
    is_view(s.repositories@, s.search_query@, s.filter_private, s.filter_forks, s.sort_mode, s.filtered_indices@)
}

/// The status line holds `text` at `level`.
pub open spec fn status_is(s: AppState, text: Seq<char>, level: StatusLevel) -> bool {
    match s.status_message {
        Some((t, l)) => t@ == text && l == level,
        None => false,
    }
}

/// What the caller is asked to do after a key press.
#[derive(Debug, Clone, Copy, PartialEq, Eq, Structural)]
pub enum Action {
    Continue,
    Quit,
    Refresh,
    ExecuteDeletion,
}

/// A key, as far as the bindings tell keys apart.
#[derive(Debug, Clone, Copy, PartialEq, Eq, Structural)]
pub enum KeyCode {
    Char(char),
    Up,
    Down,
    Enter,
    Tab,
    Esc,
    Backspace,
    Delete,
    Other,
}

/// The modifiers held with a key: none, exactly Control, exactly Shift, or
/// any other combination.
#[derive(Debug, Clone, Copy, PartialEq, Eq, Structural)]
pub enum Modifiers {
    Plain,
    Control,
    Shift,
    Combined,
}

#[derive(Debug, Clone, Copy, PartialEq, Eq, Structural)]
pub struct KeyPress {
    pub code: KeyCode,
    pub modifiers: Modifiers,
}

/// One input to the control loop.
#[derive(Debug, Clone, Copy, PartialEq, Eq, Structural)]
pub enum Event {
    Key(KeyPress),
    Tick,
    Resize(u16, u16),
}

/// What a key press means in the current mode.
#[derive(Debug, Clone, Copy, PartialEq, Eq, Structural)]
pub enum Command {
    Quit,
    Down,
    Up,
    ToggleStage,
    EnterStaging,
    Refresh,
    TogglePrivate,
    ToggleForks,
    CycleSort,
    ClearQuery,
    PopChar,
    PushChar(char),
    Unstage,
    Confirm,
    Cancel,
    Ignore,
}

pub open spec fn is_ctrl(k: KeyPress, c: char) -> bool {
    k.code == KeyCode::Char(c) && k.modifiers == Modifiers::Control
}

pub open spec fn is_plain(k: KeyPress, code: KeyCode) -> bool {
    k.code == code && k.modifiers == Modifiers::Plain
}

pub open spec fn is_quit_key(k: KeyPress) -> bool {
    is_ctrl(k, 'c') || is_plain(k, KeyCode::Char('q'))
}

pub open spec fn is_down_key(k: KeyPress) -> bool {
    is_ctrl(k, 'j') || k.code == KeyCode::Down
}

pub open spec fn is_up_key(k: KeyPress) -> bool {
    is_ctrl(k, 'k') || k.code == KeyCode::Up
}

/// The character a key types, when it types one (no modifier, or Shift).
pub open spec fn typed_char(k: KeyPress) -> Option<char> {
    match k.code {
        KeyCode::Char(c) => if k.modifiers == Modifiers::Plain || k.modifiers == Modifiers::Shift {
            Some(c)
        } else {
            None
        },
        _ => None,
    }
}

/// Key bindings in Search mode.
pub open spec fn search_command(k: KeyPress) -> Command {
    if is_quit_key(k) { Command::Quit }
    else if is_down_key(k) { Command::Down }
    else if is_up_key(k) { Command::Up }
    else if is_plain(k, KeyCode::Enter) { Command::ToggleStage }
    else if is_plain(k, KeyCode::Tab) { Command::EnterStaging }
    else if is_ctrl(k, 'r') { Command::Refresh }
    else if is_ctrl(k, 'p') { Command::TogglePrivate }
    else if is_ctrl(k, 'f') { Command::ToggleForks }
    else if is_ctrl(k, 's') { Command::CycleSort }
    else if k.code == KeyCode::Esc { Command::ClearQuery }
    else if k.code == KeyCode::Backspace { Command::PopChar }
    else if typed_char(k) is Some { Command::PushChar(typed_char(k)->0) }
    else { Command::Ignore }
}

/// Key bindings in Staging mode.
pub open spec fn staging_command(k: KeyPress) -> Command {
    if is_quit_key(k) { Command::Quit }
    else if is_down_key(k) { Command::Down }
    else if is_up_key(k) { Command::Up }
    else if k.code == KeyCode::Backspace || k.code == KeyCode::Delete { Command::Unstage }
    else if is_plain(k, KeyCode::Enter) { Command::Confirm }
    else if is_plain(k, KeyCode::Tab) || k.code == KeyCode::Esc { Command::Cancel }
    else { Command::Ignore }
}

/// Key bindings at the deletion confirmation prompt.
pub open spec fn confirm_command(k: KeyPress) -> Command {
    if is_ctrl(k, 'c') { Command::Quit }
    else if is_plain(k, KeyCode::Enter) { Command::Confirm }
    else if k.code == KeyCode::Esc { Command::Cancel }
    else if k.code == KeyCode::Backspace { Command::PopChar }
    else if typed_char(k) is Some { Command::PushChar(typed_char(k)->0) }
    else { Command::Ignore }
}

/// Fields that no key press in Search mode touches.
pub open spec fn same_core(o: AppState, n: AppState) -> bool {
    &&& n.repositories@ == o.repositories@
    &&& n.confirm_input@ == o.confirm_input@
    &&& n.loading == o.loading
    &&& n.deletion_progress == o.deletion_progress
    &&& n.deleting_repo == o.deleting_repo
    &&& n.spinner_frame == o.spinner_frame
    &&& n.dry_run == o.dry_run
}

/// The pipeline's inputs are unchanged.
pub open spec fn same_inputs(o: AppState, n: AppState) -> bool {
    &&& n.search_query@ == o.search_query@
    &&& n.filter_private == o.filter_private
    &&& n.filter_forks == o.filter_forks
    &&& n.sort_mode == o.sort_mode
}

/// Nothing observable changed.
pub open spec fn unchanged(o: AppState, n: AppState) -> bool {
    &&& same_core(o, n)
    &&& same_inputs(o, n)
    &&& n.mode == o.mode
    &&& n.filtered_indices@ == o.filtered_indices@
    &&& n.selected_index == o.selected_index
    &&& n.staged_for_deletion@ == o.staged_for_deletion@
    &&& n.staged_selected_index == o.staged_selected_index
    &&& n.status_message == o.status_message
}

/// A cursor moved by `delta` over a list of `len`, unchanged when empty.
pub open spec fn moved(cur: usize, delta: int, len: nat) -> usize {
    if len > 0 { wrapped(cur as int, delta, len as int) as usize } else { cur }
}

/// After a recompute: the view is current and the cursor clamped.
pub open spec fn recomputed(o: AppState, n: AppState) -> bool {
    &&& view_current(n)
    &&& n.selected_index == (if o.selected_index >= n.filtered_indices@.len() { 0 } else { o.selected_index })
    &&& n.mode == o.mode
    &&& n.staged_for_deletion@ == o.staged_for_deletion@
    &&& n.staged_selected_index == o.staged_selected_index
}

/// One command in Search mode.
pub open spec fn search_step(o: AppState, n: AppState, c: Command, a: Action) -> bool {
    match c {
        Command::Down => a == Action::Continue && n.selected_index == moved(o.selected_index, 1, o.filtered_indices@.len())
            && same_core(o, n) && same_inputs(o, n) && n.mode == o.mode && n.filtered_indices@ == o.filtered_indices@
            && n.staged_for_deletion@ == o.staged_for_deletion@ && n.staged_selected_index == o.staged_selected_index && n.status_message == o.status_message,
        Command::Up => a == Action::Continue && n.selected_index == moved(o.selected_index, -1, o.filtered_indices@.len())
            && same_core(o, n) && same_inputs(o, n) && n.mode == o.mode && n.filtered_indices@ == o.filtered_indices@
            && n.staged_for_deletion@ == o.staged_for_deletion@ && n.staged_selected_index == o.staged_selected_index && n.status_message == o.status_message,
        Command::ToggleStage => a == Action::Continue
            && (o.selected_name() is Some ==> n.staged() == toggled(o.staged(), o.selected_name()->0))
            && (o.selected_name() is None ==> n.staged_for_deletion@ == o.staged_for_deletion@)
            && n.selected_index == moved(o.selected_index, 1, o.filtered_indices@.len())
            && same_core(o, n) && same_inputs(o, n) && n.mode == o.mode && n.filtered_indices@ == o.filtered_indices@
            && n.status_message == o.status_message,
        Command::EnterStaging => a == Action::Continue && same_core(o, n) && same_inputs(o, n)
            && n.filtered_indices@ == o.filtered_indices@ && n.selected_index == o.selected_index
            && n.staged_for_deletion@ == o.staged_for_deletion@
            && if o.staged_for_deletion@.len() > 0 {
                n.mode == AppMode::Staging && n.staged_selected_index == 0 && n.status_message == o.status_message
            } else {
                n.mode == AppMode::Search && n.staged_selected_index == o.staged_selected_index
                    && status_is(n, "No repos staged for deletion"@, StatusLevel::Warning)
            },
        Command::TogglePrivate => a == Action::Continue && same_core(o, n) && recomputed(o, n)
            && n.filter_private == !o.filter_private && n.filter_forks == o.filter_forks
            && n.search_query@ == o.search_query@ && n.sort_mode == o.sort_mode
            && status_is(n, if n.filter_private { "Filter: private repos only"@ } else { "Filter: showing all repos"@ }, StatusLevel::Info),
        Command::ToggleForks => a == Action::Continue && same_core(o, n) && recomputed(o, n)
            && n.filter_forks == !o.filter_forks && n.filter_private == o.filter_private
            && n.search_query@ == o.search_query@ && n.sort_mode == o.sort_mode
            && status_is(n, if n.filter_forks { "Filter: forks only"@ } else { "Filter: showing all repos"@ }, StatusLevel::Info),
        Command::CycleSort => a == Action::Continue && same_core(o, n) && recomputed(o, n)
            && n.sort_mode == o.sort_mode.spec_next() && n.filter_private == o.filter_private
            && n.filter_forks == o.filter_forks && n.search_query@ == o.search_query@
            && status_is(n, "Sort: "@ + n.sort_mode.spec_label(), StatusLevel::Info),
        Command::ClearQuery => a == Action::Continue && same_core(o, n) && recomputed(o, n)
            && n.search_query@.len() == 0 && n.filter_private == o.filter_private
            && n.filter_forks == o.filter_forks && n.sort_mode == o.sort_mode && n.status_message == o.status_message,
        Command::PopChar => a == Action::Continue && same_core(o, n) && recomputed(o, n)
            && n.search_query@ == (if o.search_query@.len() > 0 { o.search_query@.drop_last() } else { o.search_query@ })
            && n.filter_private == o.filter_private
            && n.filter_forks == o.filter_forks && n.sort_mode == o.sort_mode && n.status_message == o.status_message,
        Command::PushChar(ch) => a == Action::Continue && same_core(o, n) && recomputed(o, n)
            && n.search_query@ == o.search_query@.push(ch) && n.filter_private == o.filter_private
            && n.filter_forks == o.filter_forks && n.sort_mode == o.sort_mode && n.status_message == o.status_message,
        Command::Quit => a == Action::Quit && unchanged(o, n),
        Command::Refresh => a == Action::Refresh && unchanged(o, n),
        _ => a == Action::Continue && unchanged(o, n),
    }
}

/// One command in Staging mode.
pub open spec fn staging_step(o: AppState, n: AppState, c: Command, a: Action) -> bool {
    match c {
        Command::Down | Command::Up => a == Action::Continue
            && n.staged_selected_index == moved(o.staged_selected_index, if c == Command::Down { 1 } else { -1 }, o.staged_for_deletion@.len())
            && same_core(o, n) && same_inputs(o, n) && n.mode == o.mode && n.filtered_indices@ == o.filtered_indices@
            && n.selected_index == o.selected_index && n.staged_for_deletion@ == o.staged_for_deletion@ && n.status_message == o.status_message,
        Command::Unstage => a == Action::Continue && unstage_effect(o, n)
            && n.mode == (if n.staged_for_deletion@.len() == 0 { AppMode::Search } else { AppMode::Staging })
            && same_core(o, n) && same_inputs(o, n) && n.filtered_indices@ == o.filtered_indices@
            && n.selected_index == o.selected_index && n.status_message == o.status_message,
        Command::Confirm => a == Action::Continue
            && n.mode == (if o.staged_for_deletion@.len() > 0 { AppMode::ConfirmDeletion } else { AppMode::Search })
            && n.confirm_input@.len() == 0
            && n.repositories@ == o.repositories@ && n.loading == o.loading && n.deletion_progress == o.deletion_progress
            && n.deleting_repo == o.deleting_repo && n.spinner_frame == o.spinner_frame && n.dry_run == o.dry_run
            && same_inputs(o, n) && n.filtered_indices@ == o.filtered_indices@ && n.selected_index == o.selected_index
            && n.staged_for_deletion@ == o.staged_for_deletion@ && n.staged_selected_index == o.staged_selected_index
            && n.status_message == o.status_message,
        Command::Cancel => a == Action::Continue && n.mode == AppMode::Search && same_core(o, n) && same_inputs(o, n)
            && n.filtered_indices@ == o.filtered_indices@ && n.selected_index == o.selected_index
            && n.staged_for_deletion@ == o.staged_for_deletion@ && n.staged_selected_index == o.staged_selected_index
            && n.status_message == o.status_message,
        Command::Quit => a == Action::Quit && unchanged(o, n),
        _ => a == Action::Continue && unchanged(o, n),
    }
}

/// Everything but the mode and the confirmation text is unchanged.
pub open spec fn same_but_prompt(o: AppState, n: AppState) -> bool {
    &&& n.repositories@ == o.repositories@
    &&& n.loading == o.loading
    &&& n.deletion_progress == o.deletion_progress
    &&& n.deleting_repo == o.deleting_repo
    &&& n.spinner_frame == o.spinner_frame
    &&& n.dry_run == o.dry_run
    &&& same_inputs(o, n)
    &&& n.filtered_indices@ == o.filtered_indices@
    &&& n.selected_index == o.selected_index
    &&& n.staged_for_deletion@ == o.staged_for_deletion@
    &&& n.staged_selected_index == o.staged_selected_index
    &&& n.status_message == o.status_message
}

/// One command at the confirmation prompt: deletion proceeds only when the
/// typed text is exactly the decimal staged count.
pub open spec fn confirm_step(o: AppState, n: AppState, c: Command, a: Action) -> bool {
    match c {
        Command::Confirm => same_but_prompt(o, n) && n.confirm_input@ == o.confirm_input@
            && if o.confirm_input@ == dec(o.staged_for_deletion@.len()) {
                a == Action::ExecuteDeletion && n.mode == AppMode::Deleting
            } else {
                a == Action::Continue && n.mode == AppMode::ConfirmDeletion
            },
        Command::Cancel => a == Action::Continue && same_but_prompt(o, n) && n.mode == AppMode::Staging
            && n.confirm_input@.len() == 0,
        Command::PopChar => a == Action::Continue && same_but_prompt(o, n) && n.mode == o.mode
            && n.confirm_input@ == (if o.confirm_input@.len() > 0 { o.confirm_input@.drop_last() } else { o.confirm_input@ }),
        Command::PushChar(ch) => a == Action::Continue && same_but_prompt(o, n) && n.mode == o.mode
            && n.confirm_input@ == o.confirm_input@.push(ch),
        Command::Quit => a == Action::Quit && unchanged(o, n),
        _ => a == Action::Continue && unchanged(o, n),
    }
}

/// What a key press does in each mode; none does anything while deleting.
pub open spec fn key_step(o: AppState, n: AppState, k: KeyPress, a: Action) -> bool {
    match o.mode {
        AppMode::Search => search_step(o, n, search_command(k), a),
        AppMode::Staging => staging_step(o, n, staging_command(k), a),
        AppMode::ConfirmDeletion => confirm_step(o, n, confirm_command(k), a),
        AppMode::Deleting => a == Action::Continue && unchanged(o, n),
    }
}

fn key_is_ctrl(k: KeyPress, c: char) -> (b: bool)
    ensures
        b == is_ctrl(k, c),
{
    k.code == KeyCode::Char(c) && k.modifiers == Modifiers::Control
}

fn key_is_plain(k: KeyPress, code: KeyCode) -> (b: bool)
    ensures
        b == is_plain(k, code),
{
    k.code == code && k.modifiers == Modifiers::Plain
}

fn key_typed_char(k: KeyPress) -> (r: Option<char>)
    ensures
        r == typed_char(k),
{
    match k.code {
        KeyCode::Char(c) => if k.modifiers == Modifiers::Plain || k.modifiers == Modifiers::Shift {
            Some(c)
        } else {
            None
        },
        _ => None,
    }
}

/// The Search-mode meaning of a key.
pub fn search_command_of(k: KeyPress) -> (c: Command)
    ensures
        c == search_command(k),
{
    if key_is_ctrl(k, 'c') || key_is_plain(k, KeyCode::Char('q')) { return Command::Quit; }
    if key_is_ctrl(k, 'j') || k.code == KeyCode::Down { return Command::Down; }
    if key_is_ctrl(k, 'k') || k.code == KeyCode::Up { return Command::Up; }
    if key_is_plain(k, KeyCode::Enter) { return Command::ToggleStage; }
    if key_is_plain(k, KeyCode::Tab) { return Command::EnterStaging; }
    if key_is_ctrl(k, 'r') { return Command::Refresh; }
    if key_is_ctrl(k, 'p') { return Command::TogglePrivate; }
    if key_is_ctrl(k, 'f') { return Command::ToggleForks; }
    if key_is_ctrl(k, 's') { return Command::CycleSort; }
    if k.code == KeyCode::Esc { return Command::ClearQuery; }
    if k.code == KeyCode::Backspace { return Command::PopChar; }
    match key_typed_char(k) {
        Some(c) => Command::PushChar(c),
        None => Command::Ignore,
    }
}

/// The Staging-mode meaning of a key.
pub fn staging_command_of(k: KeyPress) -> (c: Command)
    ensures
        c == staging_command(k),
{
    if key_is_ctrl(k, 'c') || key_is_plain(k, KeyCode::Char('q')) { return Command::Quit; }
    if key_is_ctrl(k, 'j') || k.code == KeyCode::Down { return Command::Down; }
    if key_is_ctrl(k, 'k') || k.code == KeyCode::Up { return Command::Up; }
    if k.code == KeyCode::Backspace || k.code == KeyCode::Delete { return Command::Unstage; }
    if key_is_plain(k, KeyCode::Enter) { return Command::Confirm; }
    if key_is_plain(k, KeyCode::Tab) || k.code == KeyCode::Esc { return Command::Cancel; }
    Command::Ignore
}

/// The meaning of a key at the confirmation prompt.
pub fn confirm_command_of(k: KeyPress) -> (c: Command)
    ensures
        c == confirm_command(k),
{
    if key_is_ctrl(k, 'c') { return Command::Quit; }
    if key_is_plain(k, KeyCode::Enter) { return Command::Confirm; }
    if k.code == KeyCode::Esc { return Command::Cancel; }
    if k.code == KeyCode::Backspace { return Command::PopChar; }
    match key_typed_char(k) {
        Some(c) => Command::PushChar(c),
        None => Command::Ignore,
    }
}


/// The status text after a deletion run.
pub open spec fn summary_text(dry_run: bool, deleted: nat, failed: nat, first_reason: Seq<char>) -> Seq<char> {
    if failed == 0 {
        if dry_run {
            "[DRY RUN] Would have deleted "@ + dec(deleted) + " repos"@
        } else {
            "Successfully deleted "@ + dec(deleted) + " repos"@
        }
    } else {
        "Deleted "@ + dec(deleted) + ", failed "@ + dec(failed) + ": "@ + first_reason
    }
}

/// The collection without the repositories named in `gone`.
pub open spec fn without_names(repos: Seq<Repository>, gone: Seq<Seq<char>>) -> Seq<Repository> {
    repos.filter(|r: Repository| !gone.contains(r.full_name@))
}

/// The qualified names of a collection.
fn repo_names(repos: &Vec<Repository>) -> (r: Vec<String>)
    ensures
        names_of(r@) == full_names(repos@),
{
    let mut r: Vec<String> = Vec::new();
    let mut i: usize = 0;
    while i < repos.len()
        invariant
            i <= repos@.len(),
            r@.len() == i,
            forall|k: int| 0 <= k < i ==> (#[trigger] r@[k])@ == repos@[k].full_name@,
        decreases repos@.len() - i,
    {
        r.push(repos[i].full_name.clone());
        i = i + 1;
    }
    assert(names_of(r@) =~= full_names(repos@));
    r
}

/// The names of `v` that are (`member`) or are not (`!member`) among `other`,
/// in order.
fn keep_if_member(v: &Vec<String>, other: &Vec<String>, member: bool) -> (out: Vec<String>)
    requires
        names_of(v@).no_duplicates(),
    ensures
        names_of(out@).no_duplicates(),
        member ==> names_of(out@).to_set() == names_of(v@).to_set().intersect(names_of(other@).to_set()),
        !member ==> names_of(out@).to_set() == names_of(v@).to_set().difference(names_of(other@).to_set()),
{
    let ghost src = names_of(v@);
    let ghost oth = names_of(other@);
    let mut out: Vec<String> = Vec::new();
    let mut k: usize = 0;
    while k < v.len()
        invariant
            k <= v@.len(),
            src == names_of(v@),
            oth == names_of(other@),
            src.no_duplicates(),
            names_of(out@).no_duplicates(),
            forall|n: Seq<char>| #[trigger] names_of(out@).contains(n) <==> (src.subrange(0, k as int).contains(n) && oth.contains(n) == member),
        decreases v@.len() - k,
    {
        let name = &v[k];
        let ghost s0 = src.subrange(0, k as int);
        let found = match find_name(other, name) {
            Some(i) => {
                assert(oth[i as int] == name@);
                true
            },
            None => false,
        };
        proof {
            assert(src[k as int] == name@);
            assert forall|n: Seq<char>| src.subrange(0, k + 1).contains(n) <==> (src.subrange(0, k as int).contains(n) || n == name@) by {
                let s1 = src.subrange(0, k + 1);
                if s1.contains(n) {
                    let q = choose|q: int| 0 <= q < k + 1 && #[trigger] s1[q] == n;
                    if q < k {
                        assert(s0[q] == n);
                    }
                }
                if s0.contains(n) {
                    let q = choose|q: int| 0 <= q < k && #[trigger] s0[q] == n;
                    assert(s1[q] == n);
                }
                if n == name@ {
                    assert(src.subrange(0, k + 1)[k as int] == n);
                }
            }
            if s0.contains(name@) {
                let q = choose|q: int| 0 <= q < k && #[trigger] s0[q] == name@;
                assert(src[q] == src[k as int]);
            }
        }
        assert(!s0.contains(name@));
        assert(!names_of(out@).contains(name@));
        let ghost old_out = out@;
        if found == member {
            let copy = name.clone();
            proof {
                lemma_names_push(out@, copy);
            }
            out.push(copy);
        }
        proof {
            let s1 = src.subrange(0, k + 1);
            assert forall|n: Seq<char>| names_of(out@).contains(n) <==> (s1.contains(n) && oth.contains(n) == member) by {
                assert(names_of(old_out).contains(n) <==> (s0.contains(n) && oth.contains(n) == member));
                assert(s1.contains(n) <==> (s0.contains(n) || n == name@));
                assert(names_of(out@).to_set().contains(n) == names_of(out@).contains(n));
                assert(names_of(old_out).to_set().contains(n) == names_of(old_out).contains(n));
            }
        }
        k = k + 1;
    }
    assert(src.subrange(0, v@.len() as int) =~= src);
    assert forall|n: Seq<char>| names_of(out@).contains(n) <==> (src.contains(n) && oth.contains(n) == member) by {
        assert(names_of(out@).contains(n) <==> (src.subrange(0, v@.len() as int).contains(n) && oth.contains(n) == member));
    }
    if member {
        assert(names_of(out@).to_set() =~= src.to_set().intersect(oth.to_set()));
    } else {
        assert(names_of(out@).to_set() =~= src.to_set().difference(oth.to_set()));
    }
    out
}

/// Removes, in place, every repository whose name is in `gone`.
fn remove_named(repos: &mut Vec<Repository>, gone: &Vec<String>)
    ensures
        final(repos)@ == without_names(old(repos)@, names_of(gone@)),
{
    let ghost o = old(repos)@;
    let ghost g = names_of(gone@);
    let ghost pred = |r: Repository| !g.contains(r.full_name@);
    let ghost mut j: int = 0;
    let mut i: usize = 0;
    proof {
        reveal(Seq::filter);
        assert(o.subrange(0, 0) =~= Seq::<Repository>::empty());
        assert(repos@.subrange(0, repos@.len() as int) =~= o.subrange(0, o.len() as int));
    }
    while i < repos.len()
        invariant
            0 <= i <= j <= o.len(),
            i <= repos@.len(),
            g == names_of(gone@),
            pred == (|r: Repository| !g.contains(r.full_name@)),
            repos@.subrange(0, i as int) == o.subrange(0, j).filter(pred),
            repos@.subrange(i as int, repos@.len() as int) == o.subrange(j, o.len() as int),
        decreases repos@.len() - i,
    {
        let ghost before = repos@;
        proof {
            assert(o.subrange(j, o.len() as int).len() == before.len() - i);
            assert(j < o.len());
            assert forall|t: int| 0 <= t < before.len() - i - 1 implies #[trigger] before[i + 1 + t] == o[j + 1 + t] by {
                assert(before.subrange(i as int, before.len() as int)[t + 1] == o.subrange(j, o.len() as int)[t + 1]);
            }
            assert(before.subrange(i as int, before.len() as int)[0] == before[i as int]);
            assert(before.subrange(i as int, before.len() as int)[0] == o[j]);
            reveal(Seq::filter);
            let s = o.subrange(0, j + 1);
            assert(s.drop_last() =~= o.subrange(0, j));
            assert(s.last() == o[j]);
        }
        let hit = match find_name(gone, &repos[i].full_name) {
            Some(q) => {
                assert(g[q as int] == repos@[i as int].full_name@);
                true
            },
            None => false,
        };
        if hit {
            repos.remove(i);
            proof {
                assert(repos@.subrange(0, i as int) =~= before.subrange(0, i as int));
                assert(repos@.len() - i == o.len() - (j + 1));
                assert forall|t: int| 0 <= t < repos@.len() - i implies #[trigger] repos@.subrange(i as int, repos@.len() as int)[t] == o.subrange(j + 1, o.len() as int)[t] by {
                    assert(repos@[i + t] == before[i + 1 + t]);
                    assert(before[i + 1 + t] == o[j + 1 + t]);
                }
                assert(repos@.subrange(i as int, repos@.len() as int) =~= o.subrange(j + 1, o.len() as int));
                j = j + 1;
            }
        } else {
            i = i + 1;
            proof {
                assert(repos@.subrange(0, i as int) =~= before.subrange(0, i - 1).push(o[j]));
                assert(repos@.len() - i == o.len() - (j + 1));
                assert forall|t: int| 0 <= t < repos@.len() - i implies #[trigger] repos@.subrange(i as int, repos@.len() as int)[t] == o.subrange(j + 1, o.len() as int)[t] by {
                    assert(repos@[i + t] == before[(i - 1) + 1 + t]);
                    assert(before[(i - 1) + 1 + t] == o[j + 1 + t]);
                }
                assert(repos@.subrange(i as int, repos@.len() as int) =~= o.subrange(j + 1, o.len() as int));
                j = j + 1;
            }
        }
    }
    assert(repos@ =~= repos@.subrange(0, i as int));
    assert(o.subrange(j, o.len() as int).len() == 0);
    assert(o.subrange(0, j) =~= o);
}

proof fn lemma_without_names_fit(repos: Seq<Repository>, gone: Seq<Seq<char>>)
    requires
        names_fit(repos),
    ensures
        names_fit(without_names(repos, gone)),
{
    let p = |r: Repository| !gone.contains(r.full_name@);
    assert forall|k: int| 0 <= k < repos.filter(p).len() implies (#[trigger] repos.filter(p)[k]).full_name@.len() <= crate::fuzzy::MAX_NAME_LEN by {
        let x = repos.filter(p)[k];
        assert(repos.filter(p).contains(x));
        repos.lemma_filter_contains_rev(p, x);
        let j = choose|j: int| 0 <= j < repos.len() && repos[j] == x;
        assert(repos[j].full_name@.len() <= crate::fuzzy::MAX_NAME_LEN);
    }
}

/// The application: its state and the matcher that ranks the collection.
pub struct App {
    pub state: AppState,
    pub fuzzy: FuzzyMatcher,
}

proof fn lemma_ranking_in_range(repos: Seq<Repository>, query: Seq<char>, base: Seq<usize>)
    requires
        is_fuzzy_ranking(repos, query, base),
    ensures
        indices_in(repos, base),
{
    if query.len() > 0 {
        assert(scores_of(crate::repo::full_names(repos), query).len() == repos.len());
    }
}

proof fn lemma_filter_in_range(repos: Seq<Repository>, s: Seq<usize>, p: spec_fn(usize) -> bool)
    requires
        indices_in(repos, s),
    ensures
        indices_in(repos, s.filter(p)),
{
    broadcast use vstd::seq_lib::group_filter_ensures;
    assert forall|k: int| 0 <= k < s.filter(p).len() implies (#[trigger] s.filter(p)[k]) < repos.len() by {
        let x = s.filter(p)[k];
        assert(s.filter(p).contains(x));
        s.lemma_filter_contains_rev(p, x);
        let j = choose|j: int| 0 <= j < s.len() && s[j] == x;
        assert(s[j] < repos.len());
    }
}

impl App {
    /// A fresh application in Search mode with an empty collection, still
    /// loading, with the given rehearsal flag and filter presets.
    pub fn new(dry_run: bool, private_only: bool, forks_only: bool) -> (a: Self)
        ensures
            a.state.wf(),
            a.state.mode == AppMode::Search,
            a.state.repositories@.len() == 0,
            a.state.filtered_indices@.len() == 0,
            a.state.staged_for_deletion@.len() == 0,
            a.state.search_query@.len() == 0,
            a.state.loading,
            a.state.dry_run == dry_run,
            a.state.filter_private == private_only,
            a.state.filter_forks == forks_only,
            a.state.sort_mode == SortMode::LastUpdated,
            a.state.selected_index == 0,
            a.state.staged_selected_index == 0,
            a.state.confirm_input@.len() == 0,
            a.state.status_message is None,
            a.state.deletion_progress is None,
            a.state.deleting_repo is None,
            a.state.spinner_frame == 0,
            view_current(a.state),
    {
        let mut state = AppState::new(dry_run);
        state.filter_private = private_only;
        state.filter_forks = forks_only;
        proof {
            let e = Seq::<usize>::empty();
            assert(identity(0) =~= e);
            reveal(Seq::filter);
            assert(e.filter(filter_pred(state.repositories@, private_only, forks_only)) =~= e);
            let perm = Seq::<int>::empty();
            assert(crate::pipeline::is_sort_perm(state.repositories@, state.sort_mode, e, e, perm));
            assert(state.filtered_indices@ =~= e);
            assert(is_stable_sort(state.repositories@, state.sort_mode, e.filter(filter_pred(state.repositories@, private_only, forks_only)), state.filtered_indices@));
        }
        App { state, fuzzy: FuzzyMatcher::new() }
    }

    /// Recomputes the view from the collection, query, toggles and sort mode,
    /// then resets the search cursor to `0` if it fell off the end.
    pub fn update_filtered(&mut self)
        requires
            old(self).state.wf_base(),
        ensures
            final(self).state.wf(),
            view_current(final(self).state),
            final(self).state.selected_index == (if old(self).state.selected_index >= final(self).state.filtered_indices@.len() {
                0
            } else {
                old(self).state.selected_index
            }),
            final(self).state.same_but_view(&old(self).state),
            final(self).state.selected_index == 0 || final(self).state.selected_index < final(self).state.filtered_indices@.len(),
    {
        let base = self.fuzzy.filter(self.state.repositories.as_slice(), self.state.search_query.as_str());
        proof {
            lemma_ranking_in_range(self.state.repositories@, self.state.search_query@, base@);
        }
        let kept = retain_passing(&self.state.repositories, &base, self.state.filter_private, self.state.filter_forks);
        proof {
            lemma_filter_in_range(self.state.repositories@, base@, filter_pred(self.state.repositories@, self.state.filter_private, self.state.filter_forks));
        }
        let sorted = stable_sort_by_mode(&self.state.repositories, &kept, self.state.sort_mode);
        self.state.filtered_indices = sorted;
        if self.state.selected_index >= self.state.filtered_indices.len() {
            self.state.selected_index = 0;
        }
        assert(is_stable_sort(self.state.repositories@, self.state.sort_mode, base@.filter(filter_pred(self.state.repositories@, self.state.filter_private, self.state.filter_forks)), self.state.filtered_indices@));
    }

    /// Toggles the private-only filter and recomputes the view.
    fn toggle_private(&mut self)
        requires
            old(self).state.wf(),
        ensures
            final(self).state.wf(),
            search_step(old(self).state, final(self).state, Command::TogglePrivate, Action::Continue),
    {
        self.state.filter_private = !self.state.filter_private;
        let text = if self.state.filter_private { "Filter: private repos only" } else { "Filter: showing all repos" };
        self.state.set_status(text.to_owned(), StatusLevel::Info);
        self.update_filtered();
    }

    /// Toggles the forks-only filter and recomputes the view.
    fn toggle_forks(&mut self)
        requires
            old(self).state.wf(),
        ensures
            final(self).state.wf(),
            search_step(old(self).state, final(self).state, Command::ToggleForks, Action::Continue),
    {
        self.state.filter_forks = !self.state.filter_forks;
        let text = if self.state.filter_forks { "Filter: forks only" } else { "Filter: showing all repos" };
        self.state.set_status(text.to_owned(), StatusLevel::Info);
        self.update_filtered();
    }

    /// Moves to the next sort mode and recomputes the view.
    fn cycle_sort(&mut self)
        requires
            old(self).state.wf(),
        ensures
            final(self).state.wf(),
            search_step(old(self).state, final(self).state, Command::CycleSort, Action::Continue),
    {
        self.state.sort_mode = self.state.sort_mode.next();
        let mut text = "Sort: ".to_owned();
        text.append(self.state.sort_mode.label());
        self.state.set_status(text, StatusLevel::Info);
        self.update_filtered();
    }

    /// Search mode: browse, stage, filter, sort and edit the query.
    pub fn handle_search_key(&mut self, key: KeyPress) -> (a: Action)
        requires
            old(self).state.wf(),
            old(self).state.mode == AppMode::Search,
        ensures
            final(self).state.wf(),
            search_step(old(self).state, final(self).state, search_command(key), a),
    {
        let cmd = search_command_of(key);
        match cmd {
            Command::Quit => Action::Quit,
            Command::Down => {
                self.state.move_selection(1);
                Action::Continue
            },
            Command::Up => {
                self.state.move_selection(-1);
                Action::Continue
            },
            Command::ToggleStage => {
                self.state.toggle_stage();
                self.state.move_selection(1);
                Action::Continue
            },
            Command::EnterStaging => {
                if self.state.staged_for_deletion.len() > 0 {
                    self.state.mode = AppMode::Staging;
                    self.state.staged_selected_index = 0;
                } else {
                    self.state.set_status("No repos staged for deletion".to_owned(), StatusLevel::Warning);
                }
                Action::Continue
            },
            Command::Refresh => Action::Refresh,
            Command::TogglePrivate => {
                self.toggle_private();
                Action::Continue
            },
            Command::ToggleForks => {
                self.toggle_forks();
                Action::Continue
            },
            Command::CycleSort => {
                self.cycle_sort();
                Action::Continue
            },
            Command::ClearQuery => {
                self.state.search_query = String::new();
                self.update_filtered();
                Action::Continue
            },
            Command::PopChar => {
                pop_char(&mut self.state.search_query);
                self.update_filtered();
                Action::Continue
            },
            Command::PushChar(c) => {
                push_char(&mut self.state.search_query, c);
                self.update_filtered();
                Action::Continue
            },
            _ => Action::Continue,
        }
    }

    /// Staging mode: review and unstage, confirm, or go back.
    pub fn handle_staging_key(&mut self, key: KeyPress) -> (a: Action)
        requires
            old(self).state.wf(),
            old(self).state.mode == AppMode::Staging,
        ensures
            final(self).state.wf(),
            staging_step(old(self).state, final(self).state, staging_command(key), a),
    {
        let cmd = staging_command_of(key);
        match cmd {
            Command::Quit => Action::Quit,
            Command::Down => {
                self.state.move_selection(1);
                Action::Continue
            },
            Command::Up => {
                self.state.move_selection(-1);
                Action::Continue
            },
            Command::Unstage => {
                self.state.unstage_selected();
                if self.state.staged_for_deletion.len() == 0 {
                    self.state.mode = AppMode::Search;
                }
                Action::Continue
            },
            Command::Confirm => {
                if self.state.staged_for_deletion.len() > 0 {
                    self.state.mode = AppMode::ConfirmDeletion;
                } else {
                    self.state.mode = AppMode::Search;
                }
                self.state.confirm_input = String::new();
                Action::Continue
            },
            Command::Cancel => {
                self.state.mode = AppMode::Search;
                Action::Continue
            },
            _ => Action::Continue,
        }
    }

    /// The confirmation prompt: type the staged count, then confirm.
    pub fn handle_confirm_key(&mut self, key: KeyPress) -> (a: Action)
        requires
            old(self).state.wf(),
            old(self).state.mode == AppMode::ConfirmDeletion,
        ensures
            final(self).state.wf(),
            confirm_step(old(self).state, final(self).state, confirm_command(key), a),
    {
        let cmd = confirm_command_of(key);
        match cmd {
            Command::Quit => Action::Quit,
            Command::Confirm => {
                if is_decimal_of(self.state.confirm_input.as_str(), self.state.staged_for_deletion.len()) {
                    self.state.mode = AppMode::Deleting;
                    Action::ExecuteDeletion
                } else {
                    Action::Continue
                }
            },
            Command::Cancel => {
                self.state.mode = AppMode::Staging;
                self.state.confirm_input = String::new();
                Action::Continue
            },
            Command::PopChar => {
                pop_char(&mut self.state.confirm_input);
                Action::Continue
            },
            Command::PushChar(c) => {
                push_char(&mut self.state.confirm_input, c);
                Action::Continue
            },
            _ => Action::Continue,
        }
    }

    /// Dispatches a key press on the current mode.
    pub fn handle_key(&mut self, key: KeyPress) -> (a: Action)
        requires
            old(self).state.wf(),
        ensures
            final(self).state.wf(),
            key_step(old(self).state, final(self).state, key, a),
    {
        match self.state.mode {
            AppMode::Search => self.handle_search_key(key),
            AppMode::Staging => self.handle_staging_key(key),
            AppMode::ConfirmDeletion => self.handle_confirm_key(key),
            AppMode::Deleting => Action::Continue,
        }
    }

    /// One event of the control loop: keys go to the current mode, a tick
    /// clears the status line, a resize changes nothing.
    pub fn handle_event(&mut self, event: Event) -> (a: Action)
        requires
            old(self).state.wf(),
        ensures
            final(self).state.wf(),
            event is Key ==> key_step(old(self).state, final(self).state, event->Key_0, a),
            event is Tick ==> a == Action::Continue && final(self).state.status_message is None
                && final(self).state.same_but_status(&old(self).state),
            event is Resize ==> a == Action::Continue && unchanged(old(self).state, final(self).state),
    {
        match event {
            Event::Key(k) => self.handle_key(k),
            Event::Tick => {
                self.state.clear_status();
                Action::Continue
            },
            Event::Resize(_, _) => Action::Continue,
        }
    }

    /// Starts a deletion run over a snapshot of the staged names.
    pub fn begin_deletion(&mut self) -> (run: DeletionRun)
        requires
            old(self).state.wf(),
        ensures
            final(self).state.wf(),
            final(self).state.mode == AppMode::Deleting,
            unchanged(old(self).state, AppState { mode: old(self).state.mode, ..final(self).state }),
            run.wf(),
            names_of(run.names@) == names_of(old(self).state.staged_for_deletion@),
            run.position == 0,
            run.deleted@.len() == 0,
            run.failed@.len() == 0,
    {
        self.state.mode = AppMode::Deleting;
        let mut names: Vec<String> = Vec::new();
        let mut i: usize = 0;
        while i < self.state.staged_for_deletion.len()
            invariant
                i <= self.state.staged_for_deletion@.len(),
                names@.len() == i,
                forall|k: int| 0 <= k < i ==> (#[trigger] names@[k])@ == self.state.staged_for_deletion@[k]@,
            decreases self.state.staged_for_deletion@.len() - i,
        {
            names.push(self.state.staged_for_deletion[i].clone());
            i = i + 1;
        }
        assert(names_of(names@) =~= names_of(self.state.staged_for_deletion@));
        DeletionRun::new(names)
    }

    /// Announces the next attempt of a run: sets the progress `(i, total)`
    /// and the name in flight, and says whether to delete or rehearse it.
    pub fn next_deletion(&mut self, run: &DeletionRun) -> (step: DeletionStep)
        requires
            old(self).state.wf(),
            run.wf(),
        ensures
            final(self).state.wf(),
            run.position < run.names@.len() ==> ({
                let name = run.names@[run.position as int]@;
                &&& final(self).state.deletion_progress == Some(((run.position + 1) as usize, run.names@.len() as usize))
                &&& final(self).state.deleting_repo is Some && final(self).state.deleting_repo->0@ == name
                &&& if old(self).state.dry_run {
                    step is Rehearse && step->Rehearse_0@ == name
                } else {
                    step is Delete && step->Delete_0@ == name
                }
                &&& unchanged(old(self).state, AppState {
                    deletion_progress: old(self).state.deletion_progress,
                    deleting_repo: old(self).state.deleting_repo,
                    ..final(self).state
                })
            }),
            run.position >= run.names@.len() ==> step is Finished && unchanged(old(self).state, final(self).state)
                && final(self).state.deletion_progress == old(self).state.deletion_progress
                && final(self).state.deleting_repo == old(self).state.deleting_repo,
    {
        if run.position >= run.names.len() {
            return DeletionStep::Finished;
        }
        let name = &run.names[run.position];
        self.state.deletion_progress = Some((run.position + 1, run.names.len()));
        self.state.deleting_repo = Some(name.clone());
        if self.state.dry_run {
            DeletionStep::Rehearse(name.clone())
        } else {
            DeletionStep::Delete(name.clone())
        }
    }

    /// Ends a run: every deleted name leaves the staged set and the
    /// collection, failed names stay staged, the view is recomputed, the
    /// progress is cleared, the mode returns to Search and the status sums up.
    pub fn finish_deletion(&mut self, run: DeletionRun)
        requires
            old(self).state.wf(),
            run.wf(),
        ensures
            final(self).state.wf(),
            final(self).state.staged() == old(self).state.staged().difference(names_of(run.deleted@).to_set()),
            final(self).state.repositories@ == without_names(old(self).state.repositories@, names_of(run.deleted@)),
            view_current(final(self).state),
            final(self).state.mode == AppMode::Search,
            final(self).state.deletion_progress is None,
            final(self).state.deleting_repo is None,
            status_is(final(self).state, summary_text(old(self).state.dry_run, run.deleted@.len(), run.failed@.len(),
                if run.failed@.len() > 0 { run.failed@[0].1@ } else { Seq::empty() }),
                if run.failed@.len() == 0 { StatusLevel::Success } else { StatusLevel::Error }),
            final(self).state.dry_run == old(self).state.dry_run,
            same_inputs(old(self).state, final(self).state),
            final(self).state.selected_index == (if old(self).state.selected_index >= final(self).state.filtered_indices@.len() {
                0
            } else {
                old(self).state.selected_index
            }),
    {
        let kept = keep_if_member(&self.state.staged_for_deletion, &run.deleted, false);
        self.state.staged_for_deletion = kept;
        if self.state.staged_selected_index >= self.state.staged_for_deletion.len() {
            self.state.staged_selected_index = 0;
        }
        remove_named(&mut self.state.repositories, &run.deleted);
        proof {
            lemma_without_names_fit(old(self).state.repositories@, names_of(run.deleted@));
        }
        self.update_filtered();
        self.state.deletion_progress = None;
        self.state.deleting_repo = None;
        self.state.mode = AppMode::Search;
        let d = decimal_string(run.deleted.len());
        if run.failed.len() == 0 {
            let mut text = if self.state.dry_run {
                "[DRY RUN] Would have deleted ".to_owned()
            } else {
                "Successfully deleted ".to_owned()
            };
            text.append(d.as_str());
            text.append(" repos");
            self.state.set_status(text, StatusLevel::Success);
        } else {
            let f = decimal_string(run.failed.len());
            let mut text = "Deleted ".to_owned();
            text.append(d.as_str());
            text.append(", failed ");
            text.append(f.as_str());
            text.append(": ");
            text.append(run.failed[0].1.as_str());
            self.state.set_status(text, StatusLevel::Error);
        }
    }

    /// Replaces the collection with a freshly listed one. Staged names whose
    /// repository is gone are dropped; the view is recomputed.
    pub fn apply_loaded(&mut self, repos: Vec<Repository>)
        requires
            old(self).state.wf(),
            names_fit(repos@),
        ensures
            final(self).state.wf(),
            final(self).state.repositories@ == repos@,
            final(self).state.staged() == old(self).state.staged().intersect(full_names(repos@).to_set()),
            view_current(final(self).state),
            !final(self).state.loading,
            status_is(final(self).state, "Loaded "@ + dec(repos@.len()) + " repositories"@, StatusLevel::Success),
            final(self).state.mode == old(self).state.mode,
            same_inputs(old(self).state, final(self).state),
            final(self).state.selected_index == (if old(self).state.selected_index >= final(self).state.filtered_indices@.len() {
                0
            } else {
                old(self).state.selected_index
            }),
    {
        let n = repos.len();
        self.state.repositories = repos;
        let names = repo_names(&self.state.repositories);
        let kept = keep_if_member(&self.state.staged_for_deletion, &names, true);
        self.state.staged_for_deletion = kept;
        if self.state.staged_selected_index >= self.state.staged_for_deletion.len() {
            self.state.staged_selected_index = 0;
        }
        self.update_filtered();
        self.state.loading = false;
        let mut text = "Loaded ".to_owned();
        let c = decimal_string(n);
        text.append(c.as_str());
        text.append(" repositories");
        self.state.set_status(text, StatusLevel::Success);
    }

    /// Listing failed: the collection stays as it is and the reason shows.
    pub fn apply_load_error(&mut self, reason: &str)
        requires
            old(self).state.wf(),
        ensures
            final(self).state.wf(),
            !final(self).state.loading,
            status_is(final(self).state, "Failed to load repos: "@ + reason@, StatusLevel::Error),
            unchanged(old(self).state, AppState {
                loading: old(self).state.loading,
                status_message: old(self).state.status_message,
                ..final(self).state
            }),
    {
        self.state.loading = false;
        let mut text = "Failed to load repos: ".to_owned();
        text.append(reason);
        self.state.set_status(text, StatusLevel::Error);
    }
}

} // verus!
