//! The application state: collection, derived view, cursors, staged names,
//! mode and status.
use vstd::prelude::*;
use crate::repo::Repository;
use crate::fuzzy::names_fit;
use crate::pipeline::indices_in;
use crate::text::{lex_cmp, compare_text, lemma_lex_cmp_antisym, lemma_lex_cmp_trans};
use vstd::arithmetic::div_mod::{lemma_add_mod_noop_right, lemma_sub_mod_noop_right, lemma_small_mod, lemma_mod_sub_multiples_vanish, lemma_mod_add_multiples_vanish};

verus! {

/// Which part of the interface has the keyboard.
#[derive(Debug, Clone, Copy, PartialEq, Eq, Structural)]
pub enum AppMode {
    Search,
    Staging,
    ConfirmDeletion,
    Deleting,
}

#[derive(Debug, Clone, Copy, PartialEq, Eq, Structural)]
pub enum StatusLevel {
    Info,
    Warning,
    Error,
    Success,
}

/// The key by which the view is ordered.
#[derive(Debug, Clone, Copy, PartialEq, Eq, Structural)]
pub enum SortMode {
    LastUpdated,
    Created,
    Name,
    Stars,
}

impl Default for SortMode {
    fn default() -> (m: Self)
        ensures
            m == SortMode::LastUpdated,
    {
        SortMode::LastUpdated
    }
}

impl SortMode {
    pub open spec fn spec_next(self) -> SortMode {
        match self {
            SortMode::LastUpdated => SortMode::Created,
            SortMode::Created => SortMode::Name,
            SortMode::Name => SortMode::Stars,
            SortMode::Stars => SortMode::LastUpdated,
        }
    }

    pub open spec fn spec_label(self) -> Seq<char> {
        match self {
            SortMode::LastUpdated => "Updated"@,
            SortMode::Created => "Created"@,
            SortMode::Name => "Name"@,
            SortMode::Stars => "Stars"@,
        }
    }

    /// The following mode in the cycle Updated, Created, Name, Stars.
    pub fn next(self) -> (m: Self)
        ensures
            m == self.spec_next(),
    {
        match self {
            SortMode::LastUpdated => SortMode::Created,
            SortMode::Created => SortMode::Name,
            SortMode::Name => SortMode::Stars,
            SortMode::Stars => SortMode::LastUpdated,
        }
    }

    pub fn label(self) -> (s: &'static str)
        ensures
            s@ == self.spec_label(),
    {
        match self {
            SortMode::LastUpdated => "Updated",
            SortMode::Created => "Created",
            SortMode::Name => "Name",
            SortMode::Stars => "Stars",
        }
    }
}

/// The number of frames of the activity spinner.
pub const SPINNER_FRAME_COUNT: usize = 10;

pub open spec fn spinner_glyph(i: int) -> Seq<char> {
    if i == 0 { "\u{280b}"@ }
    else if i == 1 { "\u{2819}"@ }
    else if i == 2 { "\u{2839}"@ }
    else if i == 3 { "\u{2838}"@ }
    else if i == 4 { "\u{283c}"@ }
    else if i == 5 { "\u{2834}"@ }
    else if i == 6 { "\u{2826}"@ }
    else if i == 7 { "\u{2827}"@ }
    else if i == 8 { "\u{2807}"@ }
    else { "\u{280f}"@ }
}

/// The texts of a sequence of names.
pub open spec fn names_of(v: Seq<String>) -> Seq<Seq<char>> {
    v.map_values(|s: String| s@)
}

/// `s` enumerates the set `names` in strictly ascending code point order.
pub open spec fn is_sorted_enum(names: Set<Seq<char>>, s: Seq<Seq<char>>) -> bool {
    &&& s.to_set() == names
    &&& forall|a: int, b: int| 0 <= a < b < s.len() ==> lex_cmp(#[trigger] s[a], #[trigger] s[b]) < 0
}

/// Adds `n` when absent, removes it when present.
pub open spec fn toggled(names: Set<Seq<char>>, n: Seq<char>) -> Set<Seq<char>> {
    if names.contains(n) { names.remove(n) } else { names.insert(n) }
}

/// The staged name under the staging cursor (in ascending order) is gone;
/// a cursor past the new end moves to the last name unless it was at the
/// first position.
pub open spec fn unstage_effect(o: AppState, n: AppState) -> bool {
    &&& exists|s: Seq<Seq<char>>| #[trigger] is_sorted_enum(o.staged(), s) && s.len() == o.staged_for_deletion@.len() && (
        if o.staged_selected_index < s.len() {
            n.staged() == o.staged().remove(s[o.staged_selected_index as int])
        } else {
            n.staged_for_deletion@ == o.staged_for_deletion@
        })
    &&& n.staged_for_deletion@.len() < o.staged_for_deletion@.len() ==> n.staged_for_deletion@.len() == o.staged_for_deletion@.len() - 1
    &&& n.staged_selected_index == (if o.staged_selected_index > 0 && o.staged_selected_index >= n.staged_for_deletion@.len() {
        if n.staged_for_deletion@.len() == 0 { 0 } else { (n.staged_for_deletion@.len() - 1) as usize }
    } else {
        o.staged_selected_index
    })
}

/// `(cur + delta) mod n`, the result in `[0, n)`.
pub open spec fn wrapped(cur: int, delta: int, n: int) -> int {
    (cur + delta) % n
}

pub(crate) proof fn lemma_names_push(v: Seq<String>, s: String)
    requires
        names_of(v).no_duplicates(),
        !names_of(v).contains(s@),
    ensures
        names_of(v.push(s)) == names_of(v).push(s@),
        names_of(v.push(s)).no_duplicates(),
        names_of(v.push(s)).to_set() == names_of(v).to_set().insert(s@),
{
    let w = names_of(v.push(s));
    assert(w =~= names_of(v).push(s@));
    assert forall|i: int, j: int| 0 <= i < w.len() && 0 <= j < w.len() && i != j implies w[i] != w[j] by {
        if i == v.len() {
            assert(names_of(v)[j] == w[j]);
        } else if j == v.len() {
            assert(names_of(v)[i] == w[i]);
        }
    }
    assert forall|n: Seq<char>| w.contains(n) <==> names_of(v).contains(n) || n == s@ by {
        if w.contains(n) {
            let k = choose|k: int| 0 <= k < w.len() && w[k] == n;
            if k < v.len() {
                assert(names_of(v)[k] == n);
            }
        }
        if names_of(v).contains(n) {
            let k = choose|k: int| 0 <= k < v.len() && names_of(v)[k] == n;
            assert(w[k] == n);
        }
        if n == s@ {
            assert(w[v.len() as int] == n);
        }
    }
    assert(w.to_set() =~= names_of(v).to_set().insert(s@));
}

pub(crate) proof fn lemma_names_remove(v: Seq<String>, i: int)
    requires
        names_of(v).no_duplicates(),
        0 <= i < v.len(),
    ensures
        names_of(v.remove(i)).no_duplicates(),
        names_of(v.remove(i)).to_set() == names_of(v).to_set().remove(v[i]@),
        names_of(v.remove(i)).len() == v.len() - 1,
{
    let u = names_of(v);
    let w = names_of(v.remove(i));
    assert(w =~= u.remove(i));
    assert forall|n: Seq<char>| w.contains(n) <==> u.contains(n) && n != v[i]@ by {
        if w.contains(n) {
            let k = choose|k: int| 0 <= k < w.len() && w[k] == n;
            assert(u[i] == v[i]@);
            if k < i {
                assert(u[k] == n);
                assert(u[k] != u[i]);
            } else {
                assert(u[k + 1] == n);
                assert(u[k + 1] != u[i]);
            }
        }
        if u.contains(n) && n != v[i]@ {
            let k = choose|k: int| 0 <= k < u.len() && u[k] == n;
            if k < i {
                assert(w[k] == n);
            } else {
                assert(k != i);
                assert(w[k - 1] == n);
            }
        }
    }
    assert(w.to_set() =~= u.to_set().remove(v[i]@));
}

/// `(cur + delta) mod n`, for a cursor `cur` in `[0, n)`.
fn wrap_step(cur: usize, delta: i32, n: usize) -> (r: usize)
    requires
        0 < n,
        cur < n,
    ensures
        r as int == wrapped(cur as int, delta as int, n as int),
        r < n,
{
    if delta >= 0 {
        let off = (delta as usize) % n;
        proof {
            lemma_add_mod_noop_right(cur as int, delta as int, n as int);
        }
        if off < n - cur {
            proof {
                lemma_small_mod((cur + off) as nat, n as nat);
            }
            cur + off
        } else {
            proof {
                lemma_mod_sub_multiples_vanish(cur + off, n as int);
                lemma_small_mod((cur + off - n) as nat, n as nat);
            }
            off - (n - cur)
        }
    } else {
        let e: usize = (-(delta as i64)) as usize;
        let em = e % n;
        proof {
            lemma_sub_mod_noop_right(cur as int, e as int, n as int);
        }
        if em <= cur {
            proof {
                lemma_small_mod((cur - em) as nat, n as nat);
            }
            cur - em
        } else {
            proof {
                lemma_mod_add_multiples_vanish(cur - em, n as int);
                lemma_small_mod((n + cur - em) as nat, n as nat);
            }
            n - (em - cur)
        }
    }
}

/// Finds the position of `name` among `v`.
pub(crate) fn find_name(v: &Vec<String>, name: &String) -> (r: Option<usize>)
    ensures
        r is Some ==> r->0 < v@.len() && v@[r->0 as int]@ == name@,
        r is None ==> !names_of(v@).contains(name@),
{
    let mut i: usize = 0;
    while i < v.len()
        invariant
            i <= v@.len(),
            forall|k: int| 0 <= k < i ==> (#[trigger] v@[k])@ != name@,
        decreases v@.len() - i,
    {
        if v[i] == *name {
            return Some(i);
        }
        i = i + 1;
    }
    proof {
        if names_of(v@).contains(name@) {
            let k = choose|k: int| 0 <= k < v@.len() && names_of(v@)[k] == name@;
            assert(v@[k]@ == name@);
        }
    }
    None
}

/// The single source of truth of the interface: the collection, the view
/// derived from it, both cursors, the staged names, the mode and the status.
pub struct AppState {
    pub mode: AppMode,
    pub repositories: Vec<Repository>,
    /// Indices into `repositories`, in display order.
    pub filtered_indices: Vec<usize>,
    /// Cursor into `filtered_indices`.
    pub selected_index: usize,
    /// Qualified names marked for deletion, in the order they were staged.
    pub staged_for_deletion: Vec<String>,
    /// Cursor into the staged names in ascending order.
    pub staged_selected_index: usize,
    pub search_query: String,
    /// What has been typed at the deletion confirmation prompt.
    pub confirm_input: String,
    pub status_message: Option<(String, StatusLevel)>,
    pub loading: bool,
    /// `(current, total)` while a deletion run is in progress.
    pub deletion_progress: Option<(usize, usize)>,
    pub deleting_repo: Option<String>,
    pub spinner_frame: usize,
    pub dry_run: bool,
    pub filter_private: bool,
    pub filter_forks: bool,
    pub sort_mode: SortMode,
}

impl AppState {
    /// The staged names as a set.
    pub open spec fn staged(&self) -> Set<Seq<char>> {
        names_of(self.staged_for_deletion@).to_set()
    }

    /// The state's invariant: staged names are distinct, view indices and
    /// cursors are in range, and every name fits the matcher.
    pub open spec fn wf(&self) -> bool {
        &&& self.wf_base()
        &&& indices_in(self.repositories@, self.filtered_indices@)
        &&& (self.selected_index == 0 || self.selected_index < self.filtered_indices@.len())
    }

    /// The invariant apart from the view, which a recompute restores.
    pub open spec fn wf_base(&self) -> bool {
        &&& names_of(self.staged_for_deletion@).no_duplicates()
        &&& (self.staged_selected_index == 0 || self.staged_selected_index < self.staged_for_deletion@.len())
        &&& self.spinner_frame < SPINNER_FRAME_COUNT
        &&& names_fit(self.repositories@)
    }

    /// The qualified name under the search cursor, if any.
    pub open spec fn selected_name(&self) -> Option<Seq<char>> {
        if self.selected_index < self.filtered_indices@.len() && self.filtered_indices@[self.selected_index as int] < self.repositories@.len() {
            Some(self.repositories@[self.filtered_indices@[self.selected_index as int] as int].full_name@)
        } else {
            None
        }
    }

    /// Everything but the staged names and the staging cursor is unchanged.
    pub open spec fn same_but_staging(&self, o: &AppState) -> bool {
        &&& self.same_fields(o)
        &&& self.selected_index == o.selected_index
    }

    /// Everything but the two cursors is unchanged.
    pub open spec fn same_but_cursors(&self, o: &AppState) -> bool {
        &&& self.same_fields(o)
        &&& self.staged_for_deletion@ == o.staged_for_deletion@
    }

    /// Everything but the cursors and the staged names is unchanged.
    pub open spec fn same_fields(&self, o: &AppState) -> bool {
        &&& self.mode == o.mode
        &&& self.repositories@ == o.repositories@
        &&& self.filtered_indices@ == o.filtered_indices@
        &&& self.search_query@ == o.search_query@
        &&& self.confirm_input@ == o.confirm_input@
        &&& self.status_message == o.status_message
        &&& self.loading == o.loading
        &&& self.deletion_progress == o.deletion_progress
        &&& self.deleting_repo == o.deleting_repo
        &&& self.spinner_frame == o.spinner_frame
        &&& self.dry_run == o.dry_run
        &&& self.filter_private == o.filter_private
        &&& self.filter_forks == o.filter_forks
        &&& self.sort_mode == o.sort_mode
    }

    pub fn new(dry_run: bool) -> (s: Self)
        ensures
            s.wf(),
            s.mode == AppMode::Search,
            s.repositories@.len() == 0,
            s.filtered_indices@.len() == 0,
            s.selected_index == 0,
            s.staged_for_deletion@.len() == 0,
            s.staged_selected_index == 0,
            s.search_query@.len() == 0,
            s.confirm_input@.len() == 0,
            s.status_message is None,
            s.loading,
            s.deletion_progress is None,
            s.deleting_repo is None,
            s.spinner_frame == 0,
            s.dry_run == dry_run,
            !s.filter_private,
            !s.filter_forks,
            s.sort_mode == SortMode::LastUpdated,
    {
        AppState {
            mode: AppMode::Search,
            repositories: Vec::new(),
            filtered_indices: Vec::new(),
            selected_index: 0,
            staged_for_deletion: Vec::new(),
            staged_selected_index: 0,
            search_query: String::new(),
            confirm_input: String::new(),
            status_message: None,
            loading: true,
            deletion_progress: None,
            deleting_repo: None,
            spinner_frame: 0,
            dry_run,
            filter_private: false,
            filter_forks: false,
            sort_mode: SortMode::default(),
        }
    }

    pub fn advance_spinner(&mut self)
        requires
            old(self).wf(),
        ensures
            final(self).wf(),
            final(self).spinner_frame == (old(self).spinner_frame + 1) % (SPINNER_FRAME_COUNT as int),
            final(self).mode == old(self).mode,
            final(self).repositories@ == old(self).repositories@,
            final(self).filtered_indices@ == old(self).filtered_indices@,
            final(self).selected_index == old(self).selected_index,
            final(self).staged_for_deletion@ == old(self).staged_for_deletion@,
            final(self).staged_selected_index == old(self).staged_selected_index,
            final(self).status_message == old(self).status_message,
            final(self).deletion_progress == old(self).deletion_progress,
            final(self).deleting_repo == old(self).deleting_repo,
            final(self).search_query@ == old(self).search_query@,
            final(self).confirm_input@ == old(self).confirm_input@,
            final(self).loading == old(self).loading,
            final(self).dry_run == old(self).dry_run,
            final(self).filter_private == old(self).filter_private,
            final(self).filter_forks == old(self).filter_forks,
            final(self).sort_mode == old(self).sort_mode,
    {
        self.spinner_frame = (self.spinner_frame + 1) % SPINNER_FRAME_COUNT;
    }

    /// The glyph of the current spinner frame.
    pub fn spinner(&self) -> (g: &'static str)
        requires
            self.spinner_frame < SPINNER_FRAME_COUNT,
        ensures
            g@ == spinner_glyph(self.spinner_frame as int),
    {
        let i = self.spinner_frame;
        if i == 0 { "\u{280b}" }
        else if i == 1 { "\u{2819}" }
        else if i == 2 { "\u{2839}" }
        else if i == 3 { "\u{2838}" }
        else if i == 4 { "\u{283c}" }
        else if i == 5 { "\u{2834}" }
        else if i == 6 { "\u{2826}" }
        else if i == 7 { "\u{2827}" }
        else if i == 8 { "\u{2807}" }
        else { "\u{280f}" }
    }

    /// The repository under the search cursor, if the view is not empty.
    pub fn selected_repo(&self) -> (r: Option<&Repository>)
        ensures
            (self.selected_index < self.filtered_indices@.len() && self.filtered_indices@[self.selected_index as int] < self.repositories@.len()) ==> r == Some(&self.repositories@[self.filtered_indices@[self.selected_index as int] as int]),
            !(self.selected_index < self.filtered_indices@.len() && self.filtered_indices@[self.selected_index as int] < self.repositories@.len()) ==> r is None,
    {
        if self.selected_index < self.filtered_indices.len() {
            let idx = self.filtered_indices[self.selected_index];
            if idx < self.repositories.len() {
                return Some(&self.repositories[idx]);
            }
        }
        None
    }

    /// Whether `name` is staged.
    pub fn is_staged(&self, name: &String) -> (b: bool)
        ensures
            b == self.staged().contains(name@),
    {
        match find_name(&self.staged_for_deletion, name) {
            Some(i) => {
                assert(names_of(self.staged_for_deletion@)[i as int] == name@);
                true
            },
            None => false,
        }
    }

    /// The repositories whose name is staged, in collection order.
    pub fn staged_repos(&self) -> (r: Vec<&Repository>)
        ensures
            r@.len() == self.repositories@.filter(|x: Repository| self.staged().contains(x.full_name@)).len(),
            forall|k: int| 0 <= k < r@.len() ==> *(#[trigger] r@[k]) == self.repositories@.filter(|x: Repository| self.staged().contains(x.full_name@))[k],
    {
        let ghost pred = |x: Repository| self.staged().contains(x.full_name@);
        let mut r: Vec<&Repository> = Vec::new();
        let mut i: usize = 0;
        proof {
            reveal(Seq::filter);
            assert(self.repositories@.subrange(0, 0) =~= Seq::<Repository>::empty());
        }
        while i < self.repositories.len()
            invariant
                i <= self.repositories@.len(),
                pred == (|x: Repository| self.staged().contains(x.full_name@)),
                r@.len() == self.repositories@.subrange(0, i as int).filter(pred).len(),
                forall|k: int| 0 <= k < r@.len() ==> *(#[trigger] r@[k]) == self.repositories@.subrange(0, i as int).filter(pred)[k],
            decreases self.repositories@.len() - i,
        {
            let repo = &self.repositories[i];
            proof {
                reveal(Seq::filter);
                let s = self.repositories@.subrange(0, i + 1);
                assert(s.drop_last() =~= self.repositories@.subrange(0, i as int));
                assert(s.last() == *repo);
            }
            if self.is_staged(&repo.full_name) {
                r.push(repo);
            }
            i = i + 1;
        }
        assert(self.repositories@.subrange(0, self.repositories@.len() as int) =~= self.repositories@);
        r
    }

    /// The staged names in ascending code point order.
    pub fn staged_repos_sorted(&self) -> (names: Vec<String>)
        requires
            names_of(self.staged_for_deletion@).no_duplicates(),
        ensures
            is_sorted_enum(self.staged(), names_of(names@)),
            names@.len() == self.staged_for_deletion@.len(),
    {
        let v = &self.staged_for_deletion;
        let ghost src = names_of(v@);
        let mut out: Vec<String> = Vec::new();
        let mut k: usize = 0;
        while k < v.len()
            invariant
                k <= v@.len(),
                src == names_of(v@),
                src.no_duplicates(),
                out@.len() == k,
                names_of(out@).to_set() == src.subrange(0, k as int).to_set(),
                forall|a: int, b: int| 0 <= a < b < out@.len() ==> lex_cmp(#[trigger] out@[a]@, #[trigger] out@[b]@) < 0,
            decreases v@.len() - k,
        {
            let name = &v[k];
            let mut j: usize = out.len();
            while j > 0 && compare_text(name.as_str(), out[j - 1].as_str()) < 0
                invariant
                    j <= out@.len(),
                    forall|m: int| j <= m < out@.len() ==> lex_cmp(name@, (#[trigger] out@[m])@) < 0,
                decreases j,
            {
                j = j - 1;
            }
            let ghost old_out = out@;
            proof {
                // the new name differs from every name placed so far
                assert forall|m: int| 0 <= m < old_out.len() implies (#[trigger] old_out[m])@ != name@ by {
                    assert(names_of(old_out).to_set().contains(names_of(old_out)[m]));
                    assert(src.subrange(0, k as int).contains(old_out[m]@));
                    let q = choose|q: int| 0 <= q < k && src.subrange(0, k as int)[q] == old_out[m]@;
                    assert(src[q] == old_out[m]@);
                    assert(src[k as int] == name@);
                }
            }
            out.insert(j, name.clone());
            proof {
                if j > 0 {
                    lemma_lex_cmp_antisym(name@, old_out[j - 1]@);
                }
                assert forall|a: int, b: int| 0 <= a < b < out@.len() implies lex_cmp(#[trigger] out@[a]@, #[trigger] out@[b]@) < 0 by {
                    if b < j {
                        assert(out@[a] == old_out[a] && out@[b] == old_out[b]);
                    } else if b == j {
                        assert(out@[a] == old_out[a]);
                        if a < j - 1 {
                            lemma_lex_cmp_trans(old_out[a]@, old_out[j - 1]@, name@);
                        }
                    } else if a == j {
                        assert(out@[b] == old_out[b - 1]);
                    } else if a < j {
                        assert(out@[a] == old_out[a] && out@[b] == old_out[b - 1]);
                    } else {
                        assert(out@[a] == old_out[a - 1] && out@[b] == old_out[b - 1]);
                    }
                }
                let no = names_of(out@);
                let sub = src.subrange(0, k + 1);
                assert forall|n: Seq<char>| no.contains(n) <==> sub.contains(n) by {
                    assert(names_of(old_out).to_set().contains(n) <==> src.subrange(0, k as int).to_set().contains(n));
                    if no.contains(n) {
                        let q = choose|q: int| 0 <= q < no.len() && no[q] == n;
                        if q == j {
                            assert(sub[k as int] == n);
                        } else {
                            let q2 = if q < j { q } else { q - 1 };
                            assert(names_of(old_out)[q2] == n);
                            assert(src.subrange(0, k as int).contains(n));
                            let t = choose|t: int| 0 <= t < k && src.subrange(0, k as int)[t] == n;
                            assert(sub[t] == n);
                        }
                    }
                    if sub.contains(n) {
                        let t = choose|t: int| 0 <= t < k + 1 && sub[t] == n;
                        if t == k {
                            assert(no[j as int] == n);
                        } else {
                            assert(src.subrange(0, k as int)[t] == n);
                            assert(names_of(old_out).to_set().contains(n));
                            let q = choose|q: int| 0 <= q < old_out.len() && names_of(old_out)[q] == n;
                            if q < j {
                                assert(no[q] == n);
                            } else {
                                assert(no[q + 1] == n);
                            }
                        }
                    }
                }
                assert(no.to_set() =~= sub.to_set());
            }
            k = k + 1;
        }
        assert(src.subrange(0, v@.len() as int) =~= src);
        out
    }

    /// Moves the cursor of the current mode by `delta`, wrapping around its
    /// list; nothing happens on an empty list or outside Search and Staging.
    pub fn move_selection(&mut self, delta: i32)
        requires
            old(self).wf(),
        ensures
            final(self).wf(),
            final(self).same_but_cursors(old(self)),
            (old(self).mode == AppMode::Search && old(self).filtered_indices@.len() > 0) ==> final(self).selected_index == wrapped(old(self).selected_index as int, delta as int, old(self).filtered_indices@.len() as int),
            !(old(self).mode == AppMode::Search && old(self).filtered_indices@.len() > 0) ==> final(self).selected_index == old(self).selected_index,
            (old(self).mode == AppMode::Staging && old(self).staged_for_deletion@.len() > 0) ==> final(self).staged_selected_index == wrapped(old(self).staged_selected_index as int, delta as int, old(self).staged_for_deletion@.len() as int),
            !(old(self).mode == AppMode::Staging && old(self).staged_for_deletion@.len() > 0) ==> final(self).staged_selected_index == old(self).staged_selected_index,
    {
        match self.mode {
            AppMode::Search => {
                if self.filtered_indices.len() == 0 {
                    return;
                }
                self.selected_index = wrap_step(self.selected_index, delta, self.filtered_indices.len());
            },
            AppMode::Staging => {
                if self.staged_for_deletion.len() == 0 {
                    return;
                }
                self.staged_selected_index = wrap_step(self.staged_selected_index, delta, self.staged_for_deletion.len());
            },
            _ => {},
        }
    }

    /// Stages the repository under the search cursor, or unstages it when it
    /// is already staged. Nothing happens on an empty view.
    pub fn toggle_stage(&mut self)
        requires
            old(self).wf(),
        ensures
            final(self).wf(),
            final(self).same_but_staging(old(self)),
            final(self).staged_selected_index == old(self).staged_selected_index
                || (final(self).staged_selected_index == 0 && old(self).staged_selected_index >= final(self).staged_for_deletion@.len()),
            old(self).selected_name() is Some ==> final(self).staged() == toggled(old(self).staged(), old(self).selected_name()->0),
            old(self).selected_name() is None ==> final(self).staged_for_deletion@ == old(self).staged_for_deletion@,
    {
        if self.selected_index < self.filtered_indices.len() {
            let idx = self.filtered_indices[self.selected_index];
            if idx < self.repositories.len() {
                let name = self.repositories[idx].full_name.clone();
                match find_name(&self.staged_for_deletion, &name) {
                    Some(i) => {
                        proof {
                            assert(names_of(self.staged_for_deletion@)[i as int] == name@);
                            lemma_names_remove(self.staged_for_deletion@, i as int);
                        }
                        self.staged_for_deletion.remove(i);
                        if self.staged_selected_index >= self.staged_for_deletion.len() {
                            self.staged_selected_index = 0;
                        }
                    },
                    None => {
                        proof {
                            lemma_names_push(self.staged_for_deletion@, name);
                        }
                        self.staged_for_deletion.push(name);
                    },
                }
            }
        }
    }

    /// Removes the staged name under the staging cursor (in ascending order).
    /// A cursor past the new end moves to the last name, unless it was at
    /// the first position.
    pub fn unstage_selected(&mut self)
        requires
            old(self).wf(),
        ensures
            final(self).wf(),
            final(self).same_but_staging(old(self)),
            unstage_effect(*old(self), *final(self)),
    {
        let names = self.staged_repos_sorted();
        let ghost s = names_of(names@);
        if self.staged_selected_index < names.len() {
            let name = &names[self.staged_selected_index];
            match find_name(&self.staged_for_deletion, name) {
                Some(i) => {
                    proof {
                        assert(names_of(self.staged_for_deletion@)[i as int] == name@);
                        lemma_names_remove(self.staged_for_deletion@, i as int);
                    }
                    self.staged_for_deletion.remove(i);
                },
                None => {
                    proof {
                        assert(s[self.staged_selected_index as int] == name@);
                        assert(s.to_set().contains(name@));
                    }
                },
            }
            if self.staged_selected_index > 0 && self.staged_selected_index >= self.staged_for_deletion.len() {
                self.staged_selected_index = if self.staged_for_deletion.len() == 0 {
                    0
                } else {
                    self.staged_for_deletion.len() - 1
                };
            }
        }
        assert(is_sorted_enum(old(self).staged(), s));
    }

    pub fn set_status(&mut self, message: String, level: StatusLevel)
        ensures
            final(self).status_message == Some((message, level)),
            final(self).same_but_status(old(self)),
    {
        self.status_message = Some((message, level));
    }

    pub fn clear_status(&mut self)
        ensures
            final(self).status_message is None,
            final(self).same_but_status(old(self)),
    {
        self.status_message = None;
    }

    /// Everything but the view and the search cursor is unchanged.
    pub open spec fn same_but_view(&self, o: &AppState) -> bool {
        &&& self.mode == o.mode
        &&& self.repositories@ == o.repositories@
        &&& self.staged_for_deletion@ == o.staged_for_deletion@
        &&& self.staged_selected_index == o.staged_selected_index
        &&& self.search_query@ == o.search_query@
        &&& self.confirm_input@ == o.confirm_input@
        &&& self.status_message == o.status_message
        &&& self.loading == o.loading
        &&& self.deletion_progress == o.deletion_progress
        &&& self.deleting_repo == o.deleting_repo
        &&& self.spinner_frame == o.spinner_frame
        &&& self.dry_run == o.dry_run
        &&& self.filter_private == o.filter_private
        &&& self.filter_forks == o.filter_forks
        &&& self.sort_mode == o.sort_mode
    }

    /// Everything but the status line is unchanged.
    pub open spec fn same_but_status(&self, o: &AppState) -> bool {
        &&& self.mode == o.mode
        &&& self.repositories@ == o.repositories@
        &&& self.filtered_indices@ == o.filtered_indices@
        &&& self.selected_index == o.selected_index
        &&& self.staged_for_deletion@ == o.staged_for_deletion@
        &&& self.staged_selected_index == o.staged_selected_index
        &&& self.search_query@ == o.search_query@
        &&& self.confirm_input@ == o.confirm_input@
        &&& self.loading == o.loading
        &&& self.deletion_progress == o.deletion_progress
        &&& self.deleting_repo == o.deleting_repo
        &&& self.spinner_frame == o.spinner_frame
        &&& self.dry_run == o.dry_run
        &&& self.filter_private == o.filter_private
        &&& self.filter_forks == o.filter_forks
        &&& self.sort_mode == o.sort_mode
    }
}

} // verus!
