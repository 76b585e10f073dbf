use vstd::prelude::*;
use crate::catalog::{
    AppEntry, members, members_of, ranked, rank, matched_any, in_catalog, lemma_ranked, key_at,
    lemma_ranked_complete, increasing,
};

verus! {

/// Where the search bar sits relative to the lists.
#[derive(Clone, Copy, Debug, PartialEq, Eq, Structural)]
pub enum SearchPosition {
    Top,
    Bottom,
}

/// Which part of the screen receives keystrokes.
#[derive(Clone, Copy, Debug, PartialEq, Eq, Structural)]
pub enum Focus {
    Search,
    Categories,
    Apps,
}

/// One flat list, or a category list beside the entries of the selected category.
#[derive(Clone, Copy, Debug, PartialEq, Eq, Structural)]
pub enum Mode {
    SinglePane,
    DualPane,
}

/// The settings that steer navigation.
#[derive(Clone, Copy, Debug, PartialEq, Eq, Structural)]
pub struct Config {
    pub search_position: SearchPosition,
    pub focus_search_on_switch: bool,
}

/// The state of one launcher session.
pub struct App {
    /// The catalog, fixed for the session.
    pub apps: Vec<AppEntry>,
    /// Category names in display order.
    pub categories: Vec<String>,
    /// Names of recently launched entries, most recent first.
    pub recent_apps: Vec<String>,
    pub config: Config,
    /// The search text and its cursor, counted in characters.
    pub query: String,
    pub cursor: usize,
    /// What the matcher said of each entry's name against the current query.
    pub scores: Vec<Option<i64>>,
    pub focus: Focus,
    pub mode: Mode,
    pub selected_category: usize,
    pub selected_app: usize,
    /// The command chosen on confirmation.
    pub app_to_launch: Option<String>,
    pub should_quit: bool,
}

/// The relevance oracle: a score for a candidate name against the case-folded query,
/// higher is better, nothing when the name does not match.
pub trait Matcher {
    /// The score of `candidate` against `query`; the same pair always scores the same.
    spec fn score(&self, candidate: Seq<char>, query: Seq<char>) -> Option<i64>;

    fn matches(&self, candidate: &String, query: &String) -> (r: Option<i64>)
        ensures
            r == self.score(candidate@, query@),
    ;
}

/// What `str::to_lowercase` makes of a text.
pub uninterp spec fn lower_of(s: Seq<char>) -> Seq<char>;

/// Relies on str::to_lowercase: the folded query depends on the text alone, and an
/// empty text stays empty.
#[verifier::external_body]
pub(crate) fn fold_case(s: &String) -> (r: String)
    ensures
        r@ == lower_of(s@),
        s@.len() == 0 ==> r@.len() == 0,
{
    s.to_lowercase()
}

/// The scores of the entries at positions `m`.
pub open spec fn keys_of(scores: Seq<Option<i64>>, m: Seq<usize>) -> Seq<Option<i64>> {
    m.map_values(|i: usize| scores[i as int])
}

/// The entries of list `m` that are shown: all of them, in order, for an empty query;
/// otherwise the matched ones, best score first, equal scores in list order.
pub open spec fn shown(scores: Seq<Option<i64>>, m: Seq<usize>, query_empty: bool) -> Seq<usize> {
    if query_empty {
        m
    } else {
        ranked(keys_of(scores, m), m.len()).map_values(|p: usize| m[p as int])
    }
}

/// Every entry of the catalog, in catalog order.
pub open spec fn all_entries(n: nat) -> Seq<usize> {
    Seq::new(n, |i: int| i as usize)
}

impl App {
    pub open spec fn wf(&self) -> bool {
        &&& self.scores@.len() == self.apps@.len()
        &&& self.cursor <= self.query@.len()
    }

    pub open spec fn query_empty(&self) -> bool {
        self.query@.len() == 0
    }

    /// The entries that category `c` holds.
    pub open spec fn members_at(&self, c: int) -> Seq<usize> {
        members(self.apps@, self.recent_apps@, self.categories@[c]@)
    }

    /// The entries shown under category `c`.
    pub open spec fn visible_in(&self, c: int) -> Seq<usize> {
        shown(self.scores@, self.members_at(c), self.query_empty())
    }

    /// The entries shown in the flat list.
    pub open spec fn visible_flat(&self) -> Seq<usize> {
        shown(self.scores@, all_entries(self.apps@.len()), self.query_empty())
    }

    /// Category `c` is listed: every category is for an empty query, otherwise those
    /// with a matched entry.
    pub open spec fn category_visible(&self, c: int) -> bool {
        self.query_empty() || matched_any(keys_of(self.scores@, self.members_at(c)))
    }

    /// The listed categories among the first `n`, in display order.
    pub open spec fn visible_categories_upto(&self, n: nat) -> Seq<usize>
        decreases n,
    {
        if n == 0 {
            seq![]
        } else {
            let prev = self.visible_categories_upto((n - 1) as nat);
            if self.category_visible(n - 1) {
                prev.push((n - 1) as usize)
            } else {
                prev
            }
        }
    }

    pub open spec fn visible_categories(&self) -> Seq<usize> {
        self.visible_categories_upto(self.categories@.len())
    }

    /// The list that the app index points into.
    pub open spec fn current_list(&self) -> Seq<usize> {
        match self.mode {
            Mode::SinglePane => self.visible_flat(),
            Mode::DualPane => if self.selected_category < self.categories@.len() {
                self.visible_in(self.selected_category as int)
            } else {
                seq![]
            },
        }
    }

    /// The catalog position of the selected entry, if the selection resolves to one.
    pub open spec fn selected_entry(&self) -> Option<usize> {
        if self.selected_app < self.current_list().len() {
            Some(self.current_list()[self.selected_app as int])
        } else {
            None
        }
    }

    /// The visible set is not empty.
    pub open spec fn has_visible_entries(&self) -> bool {
        match self.mode {
            Mode::SinglePane => self.visible_flat().len() > 0,
            Mode::DualPane => exists|c: int|
                0 <= c < self.categories@.len() && self.category_visible(c) && self.visible_in(c).len()
                    > 0,
        }
    }

    /// The selection after the query changed: back to the start for an empty query;
    /// otherwise the first entry of the first listed category (dual pane) or of the flat
    /// list (single pane).
    pub open spec fn reanchored(&self) -> App {
        if self.query_empty() {
            App { selected_category: 0, selected_app: 0, ..*self }
        } else {
            match self.mode {
                Mode::DualPane => if self.visible_categories().len() > 0 {
                    App { selected_category: self.visible_categories()[0], selected_app: 0, ..*self }
                } else {
                    *self
                },
                Mode::SinglePane => App { selected_app: 0, ..*self },
            }
        }
    }

    /// The other display mode, with the focus moved off the category list in single-pane
    /// mode and the indices clamped into what the new mode shows.
    pub open spec fn toggled(&self) -> App {
        let mode = match self.mode {
            Mode::SinglePane => Mode::DualPane,
            Mode::DualPane => Mode::SinglePane,
        };
        let focus = if mode == Mode::SinglePane && self.focus == Focus::Categories {
            Focus::Apps
        } else {
            self.focus
        };
        let cat = if mode == Mode::DualPane && self.selected_category >= self.categories@.len() {
            0
        } else {
            self.selected_category
        };
        let s = App { mode, focus, selected_category: cat, ..*self };
        let n = s.current_list().len();
        App {
            selected_app: if n == 0 {
                0
            } else if self.selected_app < n {
                self.selected_app
            } else {
                (n - 1) as usize
            },
            ..s
        }
    }

    /// A session over a catalog, with an empty query and the search bar focused.
    pub fn new(
        apps: Vec<AppEntry>,
        categories: Vec<String>,
        recent_apps: Vec<String>,
        config: Config,
        mode: Mode,
    ) -> (r: App)
        ensures
            r.wf(),
            r.apps == apps && r.categories == categories && r.recent_apps == recent_apps,
            r.config == config && r.mode == mode && r.focus == Focus::Search,
            r.query@.len() == 0 && r.cursor == 0,
            r.selected_category == 0 && r.selected_app == 0,
            r.app_to_launch is None && !r.should_quit,
    {
        let mut scores: Vec<Option<i64>> = Vec::new();
        let mut i: usize = 0;
        while i < apps.len()
            invariant
                i <= apps@.len(),
                scores@.len() == i,
            decreases apps@.len() - i,
        {
            scores.push(None);
            i = i + 1;
        }
        App {
            apps,
            categories,
            recent_apps,
            config,
            query: String::new(),
            cursor: 0,
            scores,
            focus: Focus::Search,
            mode,
            selected_category: 0,
            selected_app: 0,
            app_to_launch: None,
            should_quit: false,
        }
    }

    /// The search text.
    pub fn query(&self) -> (r: &String)
        ensures
            r == &self.query,
    {
        &self.query
    }
}

/// The scores of the entries at positions `m`.
fn keys_for(scores: &Vec<Option<i64>>, m: &Vec<usize>) -> (r: Vec<Option<i64>>)
    requires
        in_catalog(m@, scores@.len()),
    ensures
        r@ == keys_of(scores@, m@),
{
    let mut r: Vec<Option<i64>> = Vec::new();
    let mut i: usize = 0;
    while i < m.len()
        invariant
            i <= m@.len(),
            in_catalog(m@, scores@.len()),
            r@ == keys_of(scores@, m@).subrange(0, i as int),
        decreases m@.len() - i,
    {
        r.push(scores[m[i]]);
        i = i + 1;
        assert(r@ =~= keys_of(scores@, m@).subrange(0, i as int));
    }
    assert(r@ =~= keys_of(scores@, m@));
    r
}

/// The entries of list `m` that are shown under the current query.
fn shown_of(app: &App, m: &Vec<usize>) -> (r: Vec<usize>)
    requires
        app.wf(),
        in_catalog(m@, app.apps@.len()),
    ensures
        r@ == shown(app.scores@, m@, app.query_empty()),
        in_catalog(r@, app.apps@.len()),
{
    if app.query.as_str().is_empty() {
        return m.clone();
    }
    let ks = keys_for(&app.scores, m);
    let order = rank(&ks);
    let n = ks.len();
    proof {
        lemma_ranked(ks@, n as nat);
    }
    let mut r: Vec<usize> = Vec::new();
    let mut i: usize = 0;
    while i < order.len()
        invariant
            i <= order@.len(),
            ks@.len() == m@.len(),
            in_catalog(m@, app.apps@.len()),
            order@ == ranked(ks@, ks@.len()),
            forall|k: int| 0 <= k < order@.len() ==> order@[k] < ks@.len(),
            r@ == order@.subrange(0, i as int).map_values(|p: usize| m@[p as int]),
        decreases order@.len() - i,
    {
        r.push(m[order[i]]);
        i = i + 1;
        assert(r@ =~= order@.subrange(0, i as int).map_values(|p: usize| m@[p as int]));
    }
    assert(order@.subrange(0, i as int) =~= order@);
    r
}

/// Every entry of a catalog of `n` entries, in order.
fn all_entries_vec(n: usize) -> (r: Vec<usize>)
    ensures
        r@ == all_entries(n as nat),
{
    let mut r: Vec<usize> = Vec::new();
    let mut i: usize = 0;
    while i < n
        invariant
            i <= n,
            r@ == all_entries(i as nat),
        decreases n - i,
    {
        r.push(i);
        i = i + 1;
        assert(r@ =~= all_entries(i as nat));
    }
    r
}

/// Whether category `c` is listed under the current query.
fn category_listed(app: &App, c: usize) -> (r: bool)
    requires
        app.wf(),
        c < app.categories@.len(),
    ensures
        r == app.category_visible(c as int),
{
    if app.query.as_str().is_empty() {
        return true;
    }
    let m = members_of(&app.apps, &app.recent_apps, &app.categories[c]);
    let mut i: usize = 0;
    while i < m.len()
        invariant
            i <= m@.len(),
            app.wf(),
            m@ == app.members_at(c as int),
            in_catalog(m@, app.apps@.len()),
            forall|k: int| 0 <= k < i ==> keys_of(app.scores@, m@)[k] is None,
        decreases m@.len() - i,
    {
        if app.scores[m[i]].is_some() {
            assert(keys_of(app.scores@, m@)[i as int] is Some);
            return true;
        }
        i = i + 1;
    }
    false
}

/// The categories listed under the current query, in display order: all of them for an
/// empty query, otherwise those holding a matched entry.
pub fn get_matching_category_indices(app: &App) -> (r: Vec<usize>)
    requires
        app.wf(),
    ensures
        r@ == app.visible_categories(),
{
    let mut r: Vec<usize> = Vec::new();
    let mut c: usize = 0;
    while c < app.categories.len()
        invariant
            c <= app.categories@.len(),
            app.wf(),
            r@ == app.visible_categories_upto(c as nat),
        decreases app.categories@.len() - c,
    {
        if category_listed(app, c) {
            r.push(c);
        }
        c = c + 1;
    }
    r
}

/// The list that the app index points into, as catalog positions.
fn current_list_of(app: &App) -> (r: Vec<usize>)
    requires
        app.wf(),
    ensures
        r@ == app.current_list(),
        in_catalog(r@, app.apps@.len()),
{
    match app.mode {
        Mode::SinglePane => {
            let all = all_entries_vec(app.apps.len());
            shown_of(app, &all)
        },
        Mode::DualPane => {
            if app.selected_category < app.categories.len() {
                let m = members_of(&app.apps, &app.recent_apps, &app.categories[app.selected_category]);
                shown_of(app, &m)
            } else {
                Vec::new()
            }
        },
    }
}

/// How many entries the list under the app index shows.
pub fn count_filtered_apps_in_current_category(app: &App) -> (r: usize)
    requires
        app.wf(),
    ensures
        r == app.current_list().len(),
{
    current_list_of(app).len()
}

/// The entry that the selection resolves to, in the list as currently shown.
pub fn get_selected_app(app: &App) -> (r: Option<&AppEntry>)
    requires
        app.wf(),
    ensures
        r is Some == app.selected_entry() is Some,
        r matches Some(e) ==> *e == app.apps@[app.selected_entry().unwrap() as int],
{
    let list = current_list_of(app);
    if app.selected_app < list.len() {
        Some(&app.apps[list[app.selected_app]])
    } else {
        None
    }
}

/// The scores of every entry against the case-folded query.
pub fn rescore<M: Matcher>(app: &mut App, matcher: &M)
    requires
        old(app).wf(),
    ensures
        final(app).wf(),
        *final(app) == (App { scores: final(app).scores, ..*old(app) }),
        forall|i: int|
            0 <= i < final(app).scores@.len() ==> final(app).scores@[i] == matcher.score(
                old(app).apps@[i].name@,
                lower_of(old(app).query@),
            ),
{
    let folded = fold_case(&app.query);
    let mut scores: Vec<Option<i64>> = Vec::new();
    let mut i: usize = 0;
    while i < app.apps.len()
        invariant
            i <= app.apps@.len(),
            scores@.len() == i,
            folded@ == lower_of(app.query@),
            forall|k: int|
                0 <= k < i ==> scores@[k] == matcher.score(app.apps@[k].name@, lower_of(app.query@)),
        decreases app.apps@.len() - i,
    {
        scores.push(matcher.matches(&app.apps[i].name, &folded));
        i = i + 1;
    }
    app.scores = scores;
}

/// Re-anchors the selection after the query changed.
pub fn update_selection_after_search(app: &mut App)
    requires
        old(app).wf(),
    ensures
        *final(app) == old(app).reanchored(),
{
    if app.query.as_str().is_empty() {
        app.selected_category = 0;
        app.selected_app = 0;
        return;
    }
    match app.mode {
        Mode::DualPane => {
            let matching = get_matching_category_indices(app);
            if matching.len() > 0 {
                app.selected_category = matching[0];
                app.selected_app = 0;
            }
        },
        Mode::SinglePane => {
            app.selected_app = 0;
        },
    }
}

/// Switches between the single-pane and dual-pane layouts.
pub fn toggle_mode(app: &mut App)
    requires
        old(app).wf(),
    ensures
        *final(app) == old(app).toggled(),
{
    app.mode = match app.mode {
        Mode::SinglePane => Mode::DualPane,
        Mode::DualPane => Mode::SinglePane,
    };
    if app.mode == Mode::SinglePane && app.focus == Focus::Categories {
        app.focus = Focus::Apps;
    }
    if app.mode == Mode::DualPane && app.selected_category >= app.categories.len() {
        app.selected_category = 0;
    }
    let n = count_filtered_apps_in_current_category(app);
    if n == 0 {
        app.selected_app = 0;
    } else if app.selected_app >= n {
        app.selected_app = n - 1;
    }
}

pub proof fn lemma_visible_categories(app: App, n: nat)
    requires
        n <= usize::MAX,
    ensures
        forall|i: int|
            0 <= i < app.visible_categories_upto(n).len() ==> app.visible_categories_upto(n)[i] < n
                && app.category_visible(app.visible_categories_upto(n)[i] as int),
        (exists|c: int| 0 <= c < n && app.category_visible(c)) ==> app.visible_categories_upto(n).len()
            > 0,
    decreases n,
{
    if n > 0 {
        lemma_visible_categories(app, (n - 1) as nat);
        let prev = app.visible_categories_upto((n - 1) as nat);
        if app.category_visible(n - 1) {
            assert(app.visible_categories_upto(n) == prev.push((n - 1) as usize));
        } else {
            assert(app.visible_categories_upto(n) == prev);
            if exists|c: int| 0 <= c < n && app.category_visible(c) {
                let c = choose|c: int| 0 <= c < n && app.category_visible(c);
                assert(0 <= c < n - 1 && app.category_visible(c));
            }
        }
    }
}

pub proof fn lemma_shown_len(scores: Seq<Option<i64>>, m: Seq<usize>)
    requires
        m.len() <= usize::MAX,
    ensures
        shown(scores, m, false).len() > 0 <==> matched_any(keys_of(scores, m)),
{
    let ks = keys_of(scores, m);
    lemma_ranked(ks, ks.len());
    if matched_any(ks) {
        let p = choose|p: int| 0 <= p < ks.len() && ks[p] is Some;
        assert(0 <= p < ks.len() && ks[p] is Some);
    }
}

/// Under a non-empty query, every entry shown in a category, or in the flat list, has a
/// match from the matcher.
pub proof fn lemma_visible_entries_match(app: App, c: int)
    requires
        app.wf(),
        !app.query_empty(),
        0 <= c < app.categories@.len(),
        app.apps@.len() <= usize::MAX,
        app.recent_apps@.len() <= usize::MAX,
    ensures
        forall|i: int|
            0 <= i < app.visible_in(c).len() ==> app.scores@[app.visible_in(c)[i] as int] is Some,
        forall|i: int|
            0 <= i < app.visible_flat().len() ==> app.scores@[app.visible_flat()[i] as int] is Some,
{
    lemma_members_len(app, c);
    lemma_shown_match(app.scores@, app.members_at(c));
    lemma_shown_match(app.scores@, all_entries(app.apps@.len()));
}

pub proof fn lemma_members_len(app: App, c: int)
    requires
        app.apps@.len() <= usize::MAX,
    ensures
        app.members_at(c).len() <= usize::MAX,
        increasing(app.members_at(c)),
{
    crate::catalog::lemma_members_len(app.apps@, app.recent_apps@, app.categories@[c]@);
}

proof fn lemma_shown_match(scores: Seq<Option<i64>>, m: Seq<usize>)
    requires
        m.len() <= usize::MAX,
    ensures
        forall|i: int|
            0 <= i < shown(scores, m, false).len() ==> scores[shown(scores, m, false)[i] as int] is Some,
{
    let ks = keys_of(scores, m);
    lemma_ranked(ks, ks.len());
}

proof fn lemma_shown_ordered(scores: Seq<Option<i64>>, m: Seq<usize>)
    requires
        m.len() <= usize::MAX,
        increasing(m),
    ensures
        forall|i: int, j: int|
            0 <= i < j < shown(scores, m, false).len() ==> key_at(scores, shown(scores, m, false)[i])
                > key_at(scores, shown(scores, m, false)[j]) || (key_at(
                scores,
                shown(scores, m, false)[i],
            ) == key_at(scores, shown(scores, m, false)[j]) && shown(scores, m, false)[i] < shown(
                scores,
                m,
                false,
            )[j]),
{
    let ks = keys_of(scores, m);
    let r = ranked(ks, ks.len());
    lemma_ranked(ks, ks.len());
    assert forall|i: int, j: int| 0 <= i < j < r.len() implies key_at(scores, m[r[i] as int])
        > key_at(scores, m[r[j] as int]) || (key_at(scores, m[r[i] as int]) == key_at(
        scores,
        m[r[j] as int],
    ) && m[r[i] as int] < m[r[j] as int]) by {
        assert(key_at(ks, r[i]) == key_at(scores, m[r[i] as int]));
        assert(key_at(ks, r[j]) == key_at(scores, m[r[j] as int]));
    }
}

/// Under a non-empty query the entries shown in a category, and in the flat list, go by
/// non-increasing score, and equal scores keep catalog order; under an empty query each
/// list is the category's entries, or the catalog, in catalog order.
pub proof fn lemma_visible_entries_ordered(app: App, c: int)
    requires
        app.wf(),
        0 <= c < app.categories@.len(),
        app.apps@.len() <= usize::MAX,
    ensures
        !app.query_empty() ==> forall|i: int, j: int|
            0 <= i < j < app.visible_in(c).len() ==> key_at(app.scores@, app.visible_in(c)[i])
                > key_at(app.scores@, app.visible_in(c)[j]) || (key_at(app.scores@, app.visible_in(c)[i])
                == key_at(app.scores@, app.visible_in(c)[j]) && app.visible_in(c)[i] < app.visible_in(
                c,
            )[j]),
        !app.query_empty() ==> forall|i: int, j: int|
            0 <= i < j < app.visible_flat().len() ==> key_at(app.scores@, app.visible_flat()[i])
                > key_at(app.scores@, app.visible_flat()[j]) || (key_at(app.scores@, app.visible_flat()[i])
                == key_at(app.scores@, app.visible_flat()[j]) && app.visible_flat()[i] < app.visible_flat()[j]),
        app.query_empty() ==> app.visible_in(c) == app.members_at(c) && increasing(app.members_at(c)),
        app.query_empty() ==> app.visible_flat() == all_entries(app.apps@.len()),
{
    let m = app.members_at(c);
    lemma_members_len(app, c);
    lemma_shown_ordered(app.scores@, m);
    lemma_shown_ordered(app.scores@, all_entries(app.apps@.len()));
}

/// Under a non-empty query the entries shown in any category, "Recent" included, are
/// its matched entries ranked by non-increasing score, equal scores in catalog
/// order.
pub proof fn lemma_category_ranking_stable(app: App, c: int)
    requires
        app.wf(),
        !app.query_empty(),
        0 <= c < app.categories@.len(),
        app.apps@.len() <= usize::MAX,
        app.recent_apps@.len() <= usize::MAX,
    ensures
        ({
            let m = app.members_at(c);
            let ks = keys_of(app.scores@, m);
            let r = ranked(ks, m.len());
            &&& app.visible_in(c) == r.map_values(|p: usize| m[p as int])
            &&& forall|i: int, j: int|
                0 <= i < j < r.len() ==> key_at(ks, r[i]) > key_at(ks, r[j]) || (key_at(ks, r[i])
                    == key_at(ks, r[j]) && r[i] < r[j])
            &&& forall|i: int| 0 <= i < r.len() ==> r[i] < m.len() && ks[r[i] as int] is Some
        }),
{
    lemma_members_len(app, c);
    let m = app.members_at(c);
    lemma_ranked(keys_of(app.scores@, m), m.len());
}

/// Under a non-empty query every entry of a category that the matcher matched is shown
/// in it, and so is every matched entry in the flat list: the shown lists are exactly the
/// matched entries, stably sorted by score.
pub proof fn lemma_matched_entries_shown(app: App, c: int)
    requires
        app.wf(),
        !app.query_empty(),
        0 <= c < app.categories@.len(),
        app.apps@.len() <= usize::MAX,
    ensures
        forall|p: int|
            0 <= p < app.members_at(c).len() && app.scores@[app.members_at(c)[p] as int] is Some
                ==> app.visible_in(c).contains(app.members_at(c)[p]),
        forall|e: int|
            0 <= e < app.apps@.len() && app.scores@[e] is Some ==> app.visible_flat().contains(e as usize),
{
    lemma_members_len(app, c);
    lemma_shown_complete(app.scores@, app.members_at(c));
    let all = all_entries(app.apps@.len());
    lemma_shown_complete(app.scores@, all);
    assert forall|e: int| 0 <= e < app.apps@.len() && app.scores@[e] is Some implies app.visible_flat().contains(
        e as usize,
    ) by {
        assert(all[e] == e as usize);
    }
}

proof fn lemma_shown_complete(scores: Seq<Option<i64>>, m: Seq<usize>)
    requires
        m.len() <= usize::MAX,
    ensures
        forall|p: int|
            0 <= p < m.len() && scores[m[p] as int] is Some ==> shown(scores, m, false).contains(m[p]),
{
    let ks = keys_of(scores, m);
    let r = ranked(ks, m.len());
    lemma_ranked_complete(ks, m.len());
    assert forall|p: int| 0 <= p < m.len() && scores[m[p] as int] is Some implies shown(
        scores,
        m,
        false,
    ).contains(m[p]) by {
        assert(ks[p] is Some);
        assert(r.contains(p as usize));
        let k = choose|k: int| 0 <= k < r.len() && r[k] == p as usize;
        assert(shown(scores, m, false)[k] == m[p]);
    }
}

/// After the query changes, a re-anchored selection resolves to a shown entry whenever
/// something is shown; under an empty query in dual-pane mode this needs the first category
/// to show an entry, since the selection goes back to it.
pub proof fn lemma_reanchor_resolves(app: App)
    requires
        app.wf(),
        app.has_visible_entries(),
        !(app.query_empty() && app.mode == Mode::DualPane && app.visible_in(0).len() == 0),
        app.apps@.len() <= usize::MAX,
        app.recent_apps@.len() <= usize::MAX,
        app.categories@.len() <= usize::MAX,
    ensures
        app.reanchored().selected_entry() is Some,
{
    let r = app.reanchored();
    if app.mode == Mode::DualPane {
        let c = choose|c: int|
            0 <= c < app.categories@.len() && app.category_visible(c) && app.visible_in(c).len() > 0;
        if !app.query_empty() {
            lemma_visible_categories(app, app.categories@.len());
            let first = app.visible_categories()[0] as int;
            lemma_members_len(app, first);
            lemma_shown_len(app.scores@, app.members_at(first));
            assert(r.visible_in(first) == app.visible_in(first));
        } else {
            assert(r.visible_in(0) == app.visible_in(0));
        }
    } else {
        assert(r.visible_flat() == app.visible_flat());
    }
}

} // verus!
