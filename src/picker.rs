//! The picker: entries, query, ranked results, selection and input mode.
use crate::config::{case_ok, case_setting, flag_ok, flag_setting, parse_case_matching, parse_flag};
use crate::keys::{key_action, key_action_of, Event, InputMode, Key, KeyAction, KeyCode};
use crate::oracle::{new_matcher, CaseMatching, MAX_CANDIDATE_LEN, MAX_QUERY_LEN};
use crate::ranking::{entries_fit, lists_entry, unscored, rank_entries, ranking, result_of, results_ranked, strings_of, Entry, SearchResult};
use crate::render::{frame_text, render_frame};
use crate::text::{clear_string, pop_char, push_char};
use vstd::arithmetic::div_mod::{
    lemma_add_mod_noop_right, lemma_mod_add_multiples_vanish, lemma_mod_multiples_vanish,
    lemma_mod_self_0, lemma_small_mod,
};
use vstd::prelude::*;
use vstd::string::*;

verus! {

/// What the picker hands back when an interaction ends.
#[derive(Debug)]
pub enum Response<T> {
    /// The user selected this entry.
    Select(Entry<T>),
    /// The user closed the picker without selecting an entry.
    Cancel,
}

/// State of the picker.
pub struct Picker<T> {
    query: String,
    all_entries: Vec<Entry<T>>,
    search_results: Vec<SearchResult>,
    selected: usize,
    input_mode: InputMode,
    needs_redraw: bool,
    case_matching: CaseMatching,
    match_paths: bool,
    matcher: nucleo_matcher::Matcher,
}

/// Whether `r` selects a copy of `e`.
pub open spec fn selects<T: Clone>(r: Option<Response<T>>, e: Entry<T>) -> bool {
    match r {
        Some(Response::Select(x)) => x.string@ == e.string@ && cloned(e.data, x.data),
        _ => false,
    }
}

/// Where the selection goes when the results change from `before` (with
/// `selected` selected) to `after`: the first result with the string of the
/// one selected before, if there is one, else the first result.
pub open spec fn reconciled(before: Seq<SearchResult>, selected: int, after: Seq<SearchResult>, r: int) -> bool {
    if 0 <= selected < before.len() {
        let s = before[selected].chars@;
        if exists|k: int| 0 <= k < after.len() && #[trigger] after[k].chars@ == s {
            &&& 0 <= r < after.len()
            &&& after[r].chars@ == s
            &&& forall|i: int| 0 <= i < r ==> #[trigger] after[i].chars@ != s
        } else {
            r == 0
        }
    } else {
        r == selected
    }
}

/// Position of the first result whose string is `s`, or 0 when none is.
fn find_string(results: &Vec<SearchResult>, s: &Vec<char>) -> (r: usize)
    ensures
        (exists|k: int| 0 <= k < results@.len() && #[trigger] results@[k].chars@ == s@) ==> {
            &&& r < results@.len()
            &&& results@[r as int].chars@ == s@
            &&& forall|i: int| 0 <= i < r ==> #[trigger] results@[i].chars@ != s@
        },
        !(exists|k: int| 0 <= k < results@.len() && #[trigger] results@[k].chars@ == s@) ==> r == 0,
{
    let mut i: usize = 0;
    while i < results.len()
        invariant
            i <= results@.len(),
            forall|j: int| 0 <= j < i ==> #[trigger] results@[j].chars@ != s@,
        decreases results.len() - i,
    {
        if chars_equal(&results[i].chars, s) {
            return i;
        }
        i = i + 1;
    }
    0
}

/// Whether two character sequences are equal.
fn chars_equal(a: &Vec<char>, b: &Vec<char>) -> (r: bool)
    ensures
        r == (a@ == b@),
{
    if a.len() != b.len() {
        return false;
    }
    let mut i: usize = 0;
    while i < a.len()
        invariant
            i <= a@.len(),
            a@.len() == b@.len(),
            forall|j: int| 0 <= j < i ==> a@[j] == b@[j],
        decreases a.len() - i,
    {
        if a[i] != b[i] {
            return false;
        }
        i = i + 1;
    }
    assert(a@ =~= b@);
    true
}

/// A copy of an entry.
fn clone_entry<T: Clone>(e: &Entry<T>) -> (r: Entry<T>)
    ensures
        r.string@ == e.string@,
        cloned(e.data, r.data),
{
    Entry { string: e.string.clone(), data: e.data.clone() }
}

impl<T: Clone> Picker<T> {
    /// The query typed so far.
    pub closed spec fn query_view(&self) -> Seq<char> {
        self.query@
    }

    /// All entries, in the order they were added.
    pub closed spec fn entries_view(&self) -> Seq<Entry<T>> {
        self.all_entries@
    }

    /// The ranked results of the entries under the query.
    pub closed spec fn results_view(&self) -> Seq<SearchResult> {
        self.search_results@
    }

    /// Position of the selected result.
    pub closed spec fn selected_view(&self) -> int {
        self.selected as int
    }

    /// The input mode.
    pub closed spec fn mode_view(&self) -> InputMode {
        self.input_mode
    }

    /// Whether the picker has changed since it was last rendered.
    pub closed spec fn redraw_view(&self) -> bool {
        self.needs_redraw
    }

    /// The case matching policy.
    pub closed spec fn case_view(&self) -> CaseMatching {
        self.case_matching
    }

    /// Whether path bonuses are used when matching.
    pub closed spec fn paths_view(&self) -> bool {
        self.match_paths
    }

    /// The selection is a valid position, or 0 when there are no results.
    pub open spec fn selection_ok(&self) -> bool {
        0 <= self.selected_view() < self.results_view().len() || (self.results_view().len() == 0
            && self.selected_view() == 0)
    }

    /// The results are the ranking of the entries under the query and the
    /// matching configuration, the selection is valid, and the query and
    /// every entry's string are short enough for the matcher.
    pub open spec fn wf(&self) -> bool {
        &&& results_ranked(
            self.results_view(),
            strings_of(self.entries_view()),
            self.query_view(),
            self.case_view(),
            self.paths_view(),
        )
        &&& self.selection_ok()
        &&& entries_fit(self.entries_view())
        &&& self.query_view().len() <= MAX_QUERY_LEN
    }

    /// The entry behind the result at position `k`.
    pub open spec fn result_entry(&self, k: int) -> Entry<T> {
        self.entries_view()[self.results_view()[k].entry as int]
    }

    /// With an empty query, every entry has a result, there are as many
    /// results as entries, and each has score 0 and no matched positions.
    pub open spec fn lists_all_on_empty_query(&self) -> bool {
        self.query_view().len() == 0 ==> {
            &&& forall|i: int|
                0 <= i < self.entries_view().len() ==> #[trigger] lists_entry(self.results_view(), i)
            &&& self.results_view().len() == self.entries_view().len()
            &&& forall|k: int| 0 <= k < self.results_view().len() ==> #[trigger] unscored(self.results_view()[k])
        }
    }

    /// `self` and `other` hold the same query, entries, results and matching
    /// configuration.
    pub open spec fn same_contents(&self, other: &Self) -> bool {
        &&& self.query_view() == other.query_view()
        &&& self.entries_view() == other.entries_view()
        &&& self.results_view() == other.results_view()
        &&& self.case_view() == other.case_view()
        &&& self.paths_view() == other.paths_view()
    }

    /// `next` is `self` with the selection moved by `step` (1 down, or the
    /// number of results less one, up) cyclically; nothing changes where
    /// there are no results.
    pub open spec fn moved(&self, next: &Self, step: int) -> bool {
        &&& next.same_contents(self)
        &&& next.mode_view() == self.mode_view()
        &&& if self.results_view().len() == 0 {
            next.selected_view() == self.selected_view() && next.redraw_view() == self.redraw_view()
        } else {
            &&& next.selected_view() == (self.selected_view() + step) % (self.results_view().len() as int)
            &&& next.redraw_view()
        }
    }

    /// `next` is `self` after the query became `query`: same entries and
    /// configuration, results re-ranked, first result selected.
    pub open spec fn requeried(&self, next: &Self, query: Seq<char>) -> bool {
        &&& next.wf()
        &&& next.query_view() == query
        &&& next.entries_view() == self.entries_view()
        &&& next.case_view() == self.case_view()
        &&& next.paths_view() == self.paths_view()
        &&& next.mode_view() == self.mode_view()
        &&& next.selected_view() == 0
        &&& next.lists_all_on_empty_query()
        &&& next.redraw_view()
    }

    /// `next` is `self` with the entries now `entries`: results re-ranked and
    /// the selection reconciled.
    pub open spec fn refilled(&self, next: &Self, entries: Seq<Entry<T>>) -> bool {
        &&& next.wf()
        &&& next.entries_view() == entries
        &&& next.query_view() == self.query_view()
        &&& next.case_view() == self.case_view()
        &&& next.paths_view() == self.paths_view()
        &&& next.mode_view() == self.mode_view()
        &&& reconciled(self.results_view(), self.selected_view(), next.results_view(), next.selected_view())
        &&& next.lists_all_on_empty_query()
        &&& next.redraw_view()
    }

    /// `next` is `self` under the matching configuration `case_matching` and
    /// `match_paths`: results re-ranked and the selection reconciled. The mode
    /// is left to the caller's contract.
    pub open spec fn reconfigured(&self, next: &Self, case_matching: CaseMatching, match_paths: bool) -> bool {
        &&& next.wf()
        &&& next.entries_view() == self.entries_view()
        &&& next.query_view() == self.query_view()
        &&& next.case_view() == case_matching
        &&& next.paths_view() == match_paths
        &&& reconciled(self.results_view(), self.selected_view(), next.results_view(), next.selected_view())
        &&& next.lists_all_on_empty_query()
        &&& next.redraw_view()
    }

    /// `next` is `self` in mode `mode`, to be redrawn.
    pub open spec fn switched(&self, next: &Self, mode: InputMode) -> bool {
        &&& next.same_contents(self)
        &&& next.selected_view() == self.selected_view()
        &&& next.mode_view() == mode
        &&& next.redraw_view()
    }

    /// Moves the selection down, wrapping from the last result to the first.
    pub fn down(&mut self)
        requires
            old(self).wf(),
        ensures
            final(self).wf(),
            old(self).moved(final(self), 1),
    {
        if self.search_results.len() == 0 {
            return;
        }
        let ghost len = self.search_results.len() as int;
        if self.selected + 1 == self.search_results.len() {
            proof {
                lemma_mod_self_0(len);
            }
            self.selected = 0;
        } else {
            proof {
                lemma_small_mod((self.selected + 1) as nat, len as nat);
            }
            self.selected = self.selected + 1;
        }
        self.needs_redraw = true;
    }

    /// Moves the selection up, wrapping from the first result to the last.
    pub fn up(&mut self)
        requires
            old(self).wf(),
        ensures
            final(self).wf(),
            old(self).moved(final(self), old(self).results_view().len() - 1),
    {
        if self.search_results.len() == 0 {
            return;
        }
        let ghost len = self.search_results.len() as int;
        if self.selected == 0 {
            proof {
                lemma_small_mod((len - 1) as nat, len as nat);
            }
            self.selected = self.search_results.len() - 1;
        } else {
            proof {
                lemma_mod_add_multiples_vanish(self.selected - 1, len);
                lemma_small_mod((self.selected - 1) as nat, len as nat);
            }
            self.selected = self.selected - 1;
        }
        self.needs_redraw = true;
    }

    /// Returns true if the picker has changed since it was last rendered.
    pub fn needs_redraw(&self) -> (r: bool)
        ensures
            r == self.redraw_view(),
    {
        self.needs_redraw
    }

    /// The current list of entries.
    pub fn entries(&self) -> (r: &[Entry<T>])
        ensures
            r@ == self.entries_view(),
    {
        self.all_entries.as_slice()
    }

    /// Forces the result at position `idx` to be selected.
    pub fn select(&mut self, idx: usize)
        requires
            old(self).wf(),
            idx < old(self).results_view().len(),
        ensures
            final(self).wf(),
            final(self).same_contents(old(self)),
            final(self).mode_view() == old(self).mode_view(),
            final(self).selected_view() == idx,
            final(self).redraw_view(),
    {
        self.selected = idx;
        self.needs_redraw = true;
    }

    /// Removes all entries.
    pub fn clear(&mut self)
        requires
            old(self).wf(),
        ensures
            old(self).refilled(final(self), Seq::empty()),
    {
        self.all_entries.clear();
        self.search();
    }

    /// Adds new entries after the present ones.
    pub fn extend(&mut self, entries: Vec<Entry<T>>)
        requires
            old(self).wf(),
            entries_fit(entries@),
        ensures
            old(self).refilled(final(self), old(self).entries_view() + entries@),
    {
        let mut entries = entries;
        let ghost added = entries@;
        self.all_entries.append(&mut entries);
        assert(entries_fit(self.all_entries@)) by {
            assert forall|i: int| 0 <= i < self.all_entries@.len() implies #[trigger] self.all_entries@[i].string@.len() <= MAX_CANDIDATE_LEN by {
                if i >= old(self).all_entries@.len() {
                    assert(self.all_entries@[i] == added[i - old(self).all_entries@.len()]);
                    assert(added[i - old(self).all_entries@.len()].string@.len() <= MAX_CANDIDATE_LEN);
                } else {
                    assert(self.all_entries@[i] == old(self).all_entries@[i]);
                    assert(old(self).all_entries@[i].string@.len() <= MAX_CANDIDATE_LEN);
                }
            }
        }
        self.search();
    }

    /// Respect case when matching.
    pub fn use_case_matching_respect(&mut self)
        requires
            old(self).wf(),
        ensures
            old(self).reconfigured(final(self), CaseMatching::Respect, old(self).paths_view()),
            final(self).mode_view() == old(self).mode_view(),
    {
        self.case_matching = CaseMatching::Respect;
        self.search();
    }

    /// Ignore case when matching.
    pub fn use_case_matching_ignore(&mut self)
        requires
            old(self).wf(),
        ensures
            old(self).reconfigured(final(self), CaseMatching::Ignore, old(self).paths_view()),
            final(self).mode_view() == old(self).mode_view(),
    {
        self.case_matching = CaseMatching::Ignore;
        self.search();
    }

    /// Respect case when the query holds an uppercase character, ignore it
    /// otherwise. This is the default.
    pub fn use_case_matching_smart(&mut self)
        requires
            old(self).wf(),
        ensures
            old(self).reconfigured(final(self), CaseMatching::Smart, old(self).paths_view()),
            final(self).mode_view() == old(self).mode_view(),
    {
        self.case_matching = CaseMatching::Smart;
        self.search();
    }

    /// Use the matching bonuses suited to file paths.
    pub fn set_match_paths(&mut self)
        requires
            old(self).wf(),
        ensures
            old(self).reconfigured(final(self), old(self).case_view(), true),
            final(self).mode_view() == old(self).mode_view(),
    {
        self.match_paths = true;
        self.search();
    }

    /// Use the matching bonuses suited to arbitrary strings. This is the
    /// default.
    pub fn clear_match_paths(&mut self)
        requires
            old(self).wf(),
        ensures
            old(self).reconfigured(final(self), old(self).case_view(), false),
            final(self).mode_view() == old(self).mode_view(),
    {
        self.match_paths = false;
        self.search();
    }

    /// Puts the picker into search mode, as `/` does in normal mode.
    pub fn enter_search_mode(&mut self)
        requires
            old(self).wf(),
        ensures
            final(self).wf(),
            old(self).switched(final(self), InputMode::Search),
    {
        self.input_mode = InputMode::Search;
        self.needs_redraw = true;
    }

    /// Puts the picker into normal mode, as Escape does. This is the default.
    pub fn enter_normal_mode(&mut self)
        requires
            old(self).wf(),
        ensures
            final(self).wf(),
            old(self).switched(final(self), InputMode::Normal),
    {
        self.input_mode = InputMode::Normal;
        self.needs_redraw = true;
    }

    /// What `handle_key` does with a key press whose binding is `action`,
    /// from `self` to `next`, answering `r`.
    pub open spec fn key_handled(&self, next: &Self, action: KeyAction, r: Option<Response<T>>) -> bool {
        let n = self.results_view().len();
        match action {
            KeyAction::Down => r is None && self.moved(next, 1),
            KeyAction::Up => r is None && self.moved(next, n - 1),
            KeyAction::EnterNormal => r is None && self.switched(next, InputMode::Normal),
            KeyAction::EnterSearch => r is None && self.switched(next, InputMode::Search),
            KeyAction::Cancel => *next == *self && r matches Some(Response::Cancel),
            KeyAction::Accept => *next == *self && if n > 0 {
                selects(r, self.result_entry(self.selected_view()))
            } else {
                r is None
            },
            KeyAction::Pick(p) => *next == *self && if p < n {
                selects(r, self.result_entry(p as int))
            } else {
                r is None
            },
            KeyAction::PickLast => *next == *self && if n > 0 {
                selects(r, self.result_entry(n - 1))
            } else {
                r is None
            },
            KeyAction::Type(c) => r is None && if self.query_view().len() < MAX_QUERY_LEN {
                self.requeried(next, self.query_view().push(c))
            } else {
                *next == *self
            },
            KeyAction::ClearQuery => r is None && self.requeried(next, Seq::empty()),
            KeyAction::DeleteChar => r is None && self.requeried(
                next,
                if self.query_view().len() == 0 {
                    self.query_view()
                } else {
                    self.query_view().drop_last()
                },
            ),
            KeyAction::Ignore => *next == *self && r is None,
        }
    }

    /// A response that selects the entry behind the result at position `k`.
    fn respond_with(&self, k: usize) -> (r: Option<Response<T>>)
        requires
            self.wf(),
            k < self.results_view().len(),
        ensures
            selects(r, self.result_entry(k as int)),
    {
        let idx = self.search_results[k].entry;
        assert(result_of(
            self.search_results@[k as int],
            strings_of(self.all_entries@),
            self.query@,
            self.case_matching,
            self.match_paths,
            ranking(strings_of(self.all_entries@), self.query@, self.case_matching, self.match_paths)[k as int],
        ));
        Some(Response::Select(clone_entry(&self.all_entries[idx])))
    }

    /// Handles a key press: global bindings first, then those of the mode.
    /// Returns a response when an entry was selected or the picker closed.
    pub fn handle_key(&mut self, key: &Key) -> (r: Option<Response<T>>)
        requires
            old(self).wf(),
        ensures
            final(self).wf(),
            old(self).key_handled(final(self), key_action(old(self).mode_view(), *key), r),
    {
        let action = key_action_of(self.input_mode, key);
        match action {
            KeyAction::Down => {
                self.down();
                None
            },
            KeyAction::Up => {
                self.up();
                None
            },
            KeyAction::EnterNormal => {
                self.enter_normal_mode();
                None
            },
            KeyAction::EnterSearch => {
                self.enter_search_mode();
                None
            },
            KeyAction::Cancel => Some(Response::Cancel),
            KeyAction::Accept => {
                if self.search_results.len() > 0 {
                    self.respond_with(self.selected)
                } else {
                    None
                }
            },
            KeyAction::Pick(p) => {
                if p < self.search_results.len() {
                    self.respond_with(p)
                } else {
                    None
                }
            },
            KeyAction::PickLast => {
                if self.search_results.len() > 0 {
                    self.respond_with(self.search_results.len() - 1)
                } else {
                    None
                }
            },
            KeyAction::Type(c) => {
                if self.query.as_str().unicode_len() >= MAX_QUERY_LEN {
                    return None;
                }
                push_char(&mut self.query, c);
                self.search();
                self.selected = 0;
                None
            },
            KeyAction::ClearQuery => {
                clear_string(&mut self.query);
                self.search();
                self.selected = 0;
                None
            },
            KeyAction::DeleteChar => {
                pop_char(&mut self.query);
                self.search();
                self.selected = 0;
                None
            },
            KeyAction::Ignore => None,
        }
    }

    /// Handles an event from the host. Returns a response when an entry was
    /// selected or the picker closed.
    pub fn update(&mut self, event: &Event) -> (r: Option<Response<T>>)
        requires
            old(self).wf(),
        ensures
            final(self).wf(),
            match *event {
                Event::Key(key) => old(self).key_handled(final(self), key_action(old(self).mode_view(), key), r),
                Event::Other => *final(self) == *old(self) && r is None,
            },
    {
        match event {
            Event::Key(key) => self.handle_key(key),
            Event::Other => None,
        }
    }

    /// Applies the configuration options `nucleo_case_matching`,
    /// `nucleo_match_paths` and `nucleo_start_in_search_mode`, each given or
    /// not. Each value given must be one that the option recognises
    /// (`parse_case_matching`, `parse_flag`): an unrecognised value is fatal
    /// to the caller, which checks first. Giving no option leaves the picker
    /// as it was.
    pub fn load(
        &mut self,
        case_matching: Option<&str>,
        match_paths: Option<&str>,
        start_in_search_mode: Option<&str>,
    )
        requires
            old(self).wf(),
            case_ok(case_matching),
            flag_ok(match_paths),
            flag_ok(start_in_search_mode),
        ensures
            final(self).wf(),
            case_matching is None && match_paths is None && start_in_search_mode is None ==> (*final(self)
                == *old(self)),
            !(case_matching is None && match_paths is None && start_in_search_mode is None) ==> {
                &&& old(self).reconfigured(
                    final(self),
                    match case_matching {
                        Some(v) => case_setting(v@).unwrap(),
                        None => old(self).case_view(),
                    },
                    match match_paths {
                        Some(v) => flag_setting(v@).unwrap(),
                        None => old(self).paths_view(),
                    },
                )
                &&& final(self).mode_view() == match start_in_search_mode {
                    Some(v) => if flag_setting(v@).unwrap() {
                        InputMode::Search
                    } else {
                        InputMode::Normal
                    },
                    None => old(self).mode_view(),
                }
            },
    {
        if case_matching.is_none() && match_paths.is_none() && start_in_search_mode.is_none() {
            return;
        }
        if let Some(v) = case_matching {
            if let Some(c) = parse_case_matching(v) {
                self.case_matching = c;
            }
        }
        if let Some(v) = match_paths {
            if let Some(b) = parse_flag(v) {
                self.match_paths = b;
            }
        }
        if let Some(v) = start_in_search_mode {
            match parse_flag(v) {
                Some(true) => {
                    self.input_mode = InputMode::Search;
                },
                Some(false) => {
                    self.input_mode = InputMode::Normal;
                },
                None => {},
            }
        }
        self.search();
    }

    /// Renders the picker into a frame of `rows` rows and `cols` columns and
    /// returns its text. Nothing is rendered, and nothing changes, when there
    /// are no rows; otherwise the picker no longer needs a redraw.
    pub fn render(&mut self, rows: usize, cols: usize) -> (r: String)
        requires
            old(self).wf(),
        ensures
            final(self).wf(),
            r@ == frame_text(
                old(self).results_view(),
                old(self).selected_view(),
                old(self).query_view(),
                old(self).mode_view(),
                rows as int,
                cols as int,
            ),
            final(self).same_contents(old(self)),
            final(self).selected_view() == old(self).selected_view(),
            final(self).mode_view() == old(self).mode_view(),
            final(self).redraw_view() == (old(self).redraw_view() && rows == 0),
    {
        let frame = render_frame(
            &self.search_results,
            self.selected,
            self.query.as_str(),
            self.input_mode,
            rows,
            cols,
        );
        if rows > 0 {
            self.needs_redraw = false;
        }
        frame
    }

    /// The ranked results of the current query.
    pub fn search_results(&self) -> (r: &[SearchResult])
        ensures
            r@ == self.results_view(),
    {
        self.search_results.as_slice()
    }

    /// Position of the selected result.
    pub fn selected_index(&self) -> (r: usize)
        ensures
            r == self.selected_view(),
    {
        self.selected
    }

    /// The input mode.
    pub fn input_mode(&self) -> (r: InputMode)
        ensures
            r == self.mode_view(),
    {
        self.input_mode
    }

    /// The query typed so far.
    pub fn query(&self) -> (r: &str)
        ensures
            r@ == self.query_view(),
    {
        self.query.as_str()
    }

    /// An empty picker in normal mode, with smart case matching and without
    /// path bonuses.
    pub fn new() -> (r: Picker<T>)
        ensures
            r.wf(),
            r.query_view().len() == 0,
            r.entries_view().len() == 0,
            r.results_view().len() == 0,
            r.selected_view() == 0,
            r.mode_view() == InputMode::Normal,
            !r.redraw_view(),
            r.case_view() == CaseMatching::Smart,
            !r.paths_view(),
    {
        let r = Picker {
            query: String::new(),
            all_entries: Vec::new(),
            search_results: Vec::new(),
            selected: 0,
            input_mode: InputMode::Normal,
            needs_redraw: false,
            case_matching: CaseMatching::Smart,
            match_paths: false,
            matcher: new_matcher(),
        };
        r
    }

    /// Re-ranks the entries under the query and keeps the selected entry
    /// selected where it is still among the results.
    fn search(&mut self)
        requires
            old(self).selection_ok(),
            entries_fit(old(self).entries_view()),
            old(self).query_view().len() <= MAX_QUERY_LEN,
        ensures
            results_ranked(
                final(self).results_view(),
                strings_of(final(self).entries_view()),
                final(self).query_view(),
                final(self).case_view(),
                final(self).paths_view(),
            ),
            final(self).selection_ok(),
            reconciled(old(self).results_view(), old(self).selected_view(), final(self).results_view(), final(self).selected_view()),
            final(self).lists_all_on_empty_query(),
            final(self).redraw_view(),
            final(self).query_view() == old(self).query_view(),
            final(self).entries_view() == old(self).entries_view(),
            final(self).mode_view() == old(self).mode_view(),
            final(self).case_view() == old(self).case_view(),
            final(self).paths_view() == old(self).paths_view(),
    {
        let prev: Option<Vec<char>> = if self.selected < self.search_results.len() {
            Some(self.search_results[self.selected].chars.clone())
        } else {
            None
        };
        self.search_results = rank_entries(
            &self.all_entries,
            self.query.as_str(),
            self.case_matching,
            self.match_paths,
            &mut self.matcher,
        );
        if let Some(p) = prev {
            self.selected = find_string(&self.search_results, &p);
        }
        self.needs_redraw = true;
    }
}

/// After `i` moves by `step`, the selection has advanced by `i * step`,
/// cyclically.
proof fn lemma_moves<T: Clone>(states: Seq<Picker<T>>, step: int, i: nat)
    requires
        states.len() > 0,
        states[0].results_view().len() > 0,
        states[0].selection_ok(),
        step >= 0,
        i < states.len(),
        forall|j: int| 0 <= j < states.len() - 1 ==> #[trigger] states[j].moved(&states[j + 1], step),
    ensures
        states[i as int].results_view() == states[0].results_view(),
        states[i as int].selected_view() == (states[0].selected_view() + i * step) % (
        states[0].results_view().len() as int),
    decreases i,
{
    let n = states[0].results_view().len() as int;
    let s = states[0].selected_view();
    if i == 0 {
        lemma_small_mod(s as nat, n as nat);
    } else {
        lemma_moves(states, step, (i - 1) as nat);
        let j = i - 1;
        assert(states[j].moved(&states[j + 1], step));
        lemma_add_mod_noop_right(step, s + (i - 1) * step, n);
        assert(step + (s + (i - 1) * step) == s + i * step) by (nonlinear_arith);
    }
}

/// How far one move goes among `n` results: one down, or `n - 1` down,
/// which is one up.
pub open spec fn nav_step(n: int, up: bool) -> int {
    if up {
        n - 1
    } else {
        1
    }
}

/// Cyclic navigation: moving the selection down (step 1), or up (step one
/// less than the number of results), as many times as there are results
/// brings it back to where it started.
pub proof fn lemma_cyclic_navigation<T: Clone>(states: Seq<Picker<T>>, up: bool)
    requires
        states.len() > 0,
        states[0].wf(),
        states.len() == states[0].results_view().len() + 1,
        forall|j: int|
            0 <= j < states.len() - 1 ==> #[trigger] states[j].moved(
                &states[j + 1],
                nav_step(states[0].results_view().len() as int, up),
            ),
    ensures
        states[states.len() - 1].selected_view() == states[0].selected_view(),
{
    let n = states[0].results_view().len() as int;
    if n > 0 {
        let step = nav_step(n, up);
        let s = states[0].selected_view();
        lemma_moves(states, step, n as nat);
        lemma_mod_multiples_vanish(step, s, n);
        assert(s + n * step == n * step + s) by (nonlinear_arith);
        lemma_small_mod(s as nat, n as nat);
    }
}

/// Reconciliation keeps the selected entry: where a result with the string
/// of the one selected before is still there, the selection is on the first
/// such result; where none is, the selection is on the first result.
pub proof fn lemma_reconciliation(before: Seq<SearchResult>, selected: int, after: Seq<SearchResult>, r: int)
    requires
        reconciled(before, selected, after, r),
        0 <= selected < before.len(),
    ensures
        (exists|k: int| 0 <= k < after.len() && #[trigger] after[k].chars@ == before[selected].chars@)
            ==> 0 <= r < after.len() && after[r].chars@ == before[selected].chars@,
        !(exists|k: int| 0 <= k < after.len() && #[trigger] after[k].chars@ == before[selected].chars@)
            ==> r == 0,
{
}

/// A key with no modifier held.
pub open spec fn plain_key(code: KeyCode) -> Key {
    Key { code, ctrl: false, alt: false, shift: false, super_key: false }
}

/// Mode transitions: in normal mode `/` switches to search mode; Escape
/// switches to normal mode; Ctrl+C cancels in either mode.
pub proof fn lemma_mode_transitions<T: Clone>(p: Picker<T>, next: Picker<T>, key: Key, r: Option<Response<T>>)
    requires
        p.key_handled(&next, key_action(p.mode_view(), key), r),
    ensures
        p.mode_view() == InputMode::Normal && key == plain_key(KeyCode::Char('/')) ==> {
            &&& next.mode_view() == InputMode::Search
            &&& r is None
            &&& next.same_contents(&p)
            &&& next.selected_view() == p.selected_view()
            &&& next.redraw_view()
        },
        key == plain_key(KeyCode::Esc) ==> {
            &&& next.mode_view() == InputMode::Normal
            &&& r is None
            &&& next.same_contents(&p)
            &&& next.selected_view() == p.selected_view()
            &&& next.redraw_view()
        },
        key.code == KeyCode::Char('c') && key.ctrl ==> (r matches Some(Response::Cancel)) && next == p,
{
}

impl<T: Clone> Default for Picker<T> {
    /// An empty picker, as `Picker::new` makes it.
    fn default() -> (r: Picker<T>)
        ensures
            r.wf(),
            r.entries_view().len() == 0,
            r.query_view().len() == 0,
            r.mode_view() == InputMode::Normal,
    {
        Picker::new()
    }
}

} // verus!
