use vstd::prelude::*;
use vstd::string::{StrSliceExecFns, StringExecFns};
use tui_input::InputRequest;
use crate::app::{
    App, Focus, Matcher, Mode, SearchPosition, count_filtered_apps_in_current_category,
    get_matching_category_indices, get_selected_app, rescore, toggle_mode,
    update_selection_after_search,
};
use crate::editing::{handle_request, plain_edit};
use crate::app::{lemma_visible_categories, lemma_members_len, lemma_shown_len, lower_of};

verus! {

/// The key of a key press.
#[derive(Clone, Copy, Debug, PartialEq, Eq, Structural)]
pub enum KeyCode {
    Esc,
    Enter,
    Tab,
    Up,
    Down,
    Left,
    Right,
    Backspace,
    Delete,
    Home,
    End,
    Char(char),
    Other,
}

/// The exact set of modifiers held with a key.
#[derive(Clone, Copy, Debug, PartialEq, Eq, Structural)]
pub enum Modifiers {
    Empty,
    Shift,
    Control,
    Alt,
    Meta,
    Combined,
}

/// A key press.
#[derive(Clone, Copy, Debug, PartialEq, Eq, Structural)]
pub struct Key {
    pub code: KeyCode,
    pub modifiers: Modifiers,
}

/// Position of `x` in `s` at or after `k`, or -1.
pub open spec fn index_in(s: Seq<usize>, x: usize, k: nat) -> int
    decreases s.len() - k,
{
    if k >= s.len() {
        -1
    } else if s[k as int] == x {
        k as int
    } else {
        index_in(s, x, k + 1)
    }
}

proof fn lemma_index_in(s: Seq<usize>, x: usize, k: nat)
    ensures
        index_in(s, x, k) < s.len(),
        index_in(s, x, k) >= 0 ==> s[index_in(s, x, k)] == x,
    decreases s.len() - k,
{
    if k < s.len() && s[k as int] != x {
        lemma_index_in(s, x, k + 1);
    }
}

/// The line-editing request bound to a key in the search bar.
pub open spec fn edit_request(key: Key) -> Option<InputRequest> {
    match (key.code, key.modifiers) {
        (KeyCode::Char('a'), Modifiers::Control) | (KeyCode::Home, Modifiers::Empty) => Some(
            InputRequest::GoToStart,
        ),
        (KeyCode::Char('e'), Modifiers::Control) | (KeyCode::End, Modifiers::Empty) => Some(
            InputRequest::GoToEnd,
        ),
        (KeyCode::Char('b'), Modifiers::Control) | (KeyCode::Left, Modifiers::Empty) => Some(
            InputRequest::GoToPrevChar,
        ),
        (KeyCode::Char('f'), Modifiers::Control) | (KeyCode::Right, Modifiers::Empty) => Some(
            InputRequest::GoToNextChar,
        ),
        (KeyCode::Left, Modifiers::Control) | (KeyCode::Char('b'), Modifiers::Meta) => Some(
            InputRequest::GoToPrevWord,
        ),
        (KeyCode::Right, Modifiers::Control) | (KeyCode::Char('f'), Modifiers::Meta) => Some(
            InputRequest::GoToNextWord,
        ),
        (KeyCode::Char('w'), Modifiers::Control)
        | (KeyCode::Char('d'), Modifiers::Meta)
        | (KeyCode::Backspace, Modifiers::Meta)
        | (KeyCode::Backspace, Modifiers::Alt) => Some(InputRequest::DeletePrevWord),
        (KeyCode::Char('d'), Modifiers::Control) | (KeyCode::Delete, Modifiers::Empty) => Some(
            InputRequest::DeleteNextChar,
        ),
        (KeyCode::Char('h'), Modifiers::Control) | (KeyCode::Backspace, Modifiers::Empty) => Some(
            InputRequest::DeletePrevChar,
        ),
        (KeyCode::Delete, Modifiers::Control) => Some(InputRequest::DeleteNextWord),
        (KeyCode::Char(c), Modifiers::Empty) | (KeyCode::Char(c), Modifiers::Shift) => Some(
            InputRequest::InsertChar(c),
        ),
        _ => None,
    }
}

fn edit_request_of(key: Key) -> (r: Option<InputRequest>)
    ensures
        r == edit_request(key),
{
    match (key.code, key.modifiers) {
        (KeyCode::Char('a'), Modifiers::Control) | (KeyCode::Home, Modifiers::Empty) => Some(
            InputRequest::GoToStart,
        ),
        (KeyCode::Char('e'), Modifiers::Control) | (KeyCode::End, Modifiers::Empty) => Some(
            InputRequest::GoToEnd,
        ),
        (KeyCode::Char('b'), Modifiers::Control) | (KeyCode::Left, Modifiers::Empty) => Some(
            InputRequest::GoToPrevChar,
        ),
        (KeyCode::Char('f'), Modifiers::Control) | (KeyCode::Right, Modifiers::Empty) => Some(
            InputRequest::GoToNextChar,
        ),
        (KeyCode::Left, Modifiers::Control) | (KeyCode::Char('b'), Modifiers::Meta) => Some(
            InputRequest::GoToPrevWord,
        ),
        (KeyCode::Right, Modifiers::Control) | (KeyCode::Char('f'), Modifiers::Meta) => Some(
            InputRequest::GoToNextWord,
        ),
        (KeyCode::Char('w'), Modifiers::Control)
        | (KeyCode::Char('d'), Modifiers::Meta)
        | (KeyCode::Backspace, Modifiers::Meta)
        | (KeyCode::Backspace, Modifiers::Alt) => Some(InputRequest::DeletePrevWord),
        (KeyCode::Char('d'), Modifiers::Control) | (KeyCode::Delete, Modifiers::Empty) => Some(
            InputRequest::DeleteNextChar,
        ),
        (KeyCode::Char('h'), Modifiers::Control) | (KeyCode::Backspace, Modifiers::Empty) => Some(
            InputRequest::DeletePrevChar,
        ),
        (KeyCode::Delete, Modifiers::Control) => Some(InputRequest::DeleteNextWord),
        (KeyCode::Char(c), Modifiers::Empty) | (KeyCode::Char(c), Modifiers::Shift) => Some(
            InputRequest::InsertChar(c),
        ),
        _ => None,
    }
}

/// Position of `x` in `v`.
fn position_of(v: &Vec<usize>, x: usize) -> (r: Option<usize>)
    ensures
        r matches Some(p) ==> p == index_in(v@, x, 0) && p < v@.len() && v@[p as int] == x,
        r is None ==> index_in(v@, x, 0) == -1,
{
    let mut k: usize = 0;
    while k < v.len()
        invariant
            k <= v@.len(),
            index_in(v@, x, 0) == index_in(v@, x, k as nat),
        decreases v@.len() - k,
    {
        if v[k] == x {
            return Some(k);
        }
        k = k + 1;
    }
    None
}

impl App {
    /// The selected category's place among the listed ones, or -1.
    pub open spec fn category_position(&self) -> int {
        index_in(self.visible_categories(), self.selected_category, 0)
    }

    /// The listed category before the selected one, with its first entry selected.
    pub open spec fn at_previous_category(&self) -> App {
        App {
            selected_category: self.visible_categories()[self.category_position() - 1],
            selected_app: 0,
            ..*self
        }
    }

    /// The listed category after the selected one, with its first entry selected.
    pub open spec fn at_next_category(&self) -> App {
        App {
            selected_category: self.visible_categories()[self.category_position() + 1],
            selected_app: 0,
            ..*self
        }
    }

    pub open spec fn focused_on(&self, focus: Focus) -> App {
        App { focus, ..*self }
    }

    /// Moving up in a list: one entry or category up, clamped at the top, where the focus
    /// passes to a search bar that sits above the list.
    pub open spec fn moved_up(&self) -> App {
        let top = self.config.search_position == SearchPosition::Top;
        match self.focus {
            Focus::Apps => if self.selected_app > 0 {
                App { selected_app: (self.selected_app - 1) as usize, ..*self }
            } else if top {
                self.focused_on(Focus::Search)
            } else {
                *self
            },
            Focus::Categories => if self.mode == Mode::DualPane {
                if self.category_position() > 0 {
                    self.at_previous_category()
                } else if top {
                    self.focused_on(Focus::Search)
                } else {
                    *self
                }
            } else {
                *self
            },
            Focus::Search => *self,
        }
    }

    /// Moving down in a list: one entry or category down, clamped at the bottom, where
    /// the focus passes to a search bar that sits below the list.
    pub open spec fn moved_down(&self) -> App {
        let bottom = self.config.search_position == SearchPosition::Bottom;
        match self.focus {
            Focus::Apps => if self.selected_app + 1 < self.current_list().len() {
                App { selected_app: (self.selected_app + 1) as usize, ..*self }
            } else if bottom {
                self.focused_on(Focus::Search)
            } else {
                *self
            },
            Focus::Categories => if self.mode == Mode::DualPane {
                if self.category_position() >= 0 && self.category_position() + 1
                    < self.visible_categories().len() {
                    self.at_next_category()
                } else if bottom {
                    self.focused_on(Focus::Search)
                } else {
                    *self
                }
            } else {
                *self
            },
            Focus::Search => *self,
        }
    }

    /// Moving left: in dual-pane mode from the entries to the categories, leaving every
    /// index as it is; in single-pane mode one entry up in the flat list (one listed
    /// category up in a focused category list); clamped at the ends.
    pub open spec fn moved_left(&self) -> App {
        if self.mode == Mode::DualPane {
            if self.focus == Focus::Apps {
                self.focused_on(Focus::Categories)
            } else {
                *self
            }
        } else {
            match self.focus {
                Focus::Apps => if self.selected_app > 0 {
                    App { selected_app: (self.selected_app - 1) as usize, ..*self }
                } else {
                    *self
                },
                Focus::Categories => if self.category_position() > 0 {
                    self.at_previous_category()
                } else {
                    *self
                },
                Focus::Search => *self,
            }
        }
    }

    /// Moving right: in dual-pane mode from the categories to the entries, leaving every
    /// index as it is; in single-pane mode one entry down in the flat list (one listed
    /// category down in a focused category list); clamped at the ends.
    pub open spec fn moved_right(&self) -> App {
        if self.mode == Mode::DualPane {
            if self.focus == Focus::Categories {
                self.focused_on(Focus::Apps)
            } else {
                *self
            }
        } else {
            match self.focus {
                Focus::Categories => if self.category_position() >= 0 && self.category_position() + 1
                    < self.visible_categories().len() {
                    self.at_next_category()
                } else {
                    *self
                },
                Focus::Apps => if self.selected_app + 1 < self.current_list().len() {
                    App { selected_app: (self.selected_app + 1) as usize, ..*self }
                } else {
                    *self
                },
                Focus::Search => *self,
            }
        }
    }

    /// The session after the selected entry was confirmed.
    pub open spec fn confirmed(&self) -> App {
        App {
            app_to_launch: Some(self.apps@[self.selected_entry().unwrap() as int].command),
            should_quit: true,
            ..*self
        }
    }

    /// The session after the display mode was switched by a key.
    pub open spec fn switched(&self) -> App {
        if self.config.focus_search_on_switch {
            self.toggled().focused_on(Focus::Search)
        } else {
            self.toggled()
        }
    }

    /// The list that leaving the search bar enters.
    pub open spec fn list_focus(&self) -> Focus {
        match self.mode {
            Mode::SinglePane => Focus::Apps,
            Mode::DualPane => Focus::Categories,
        }
    }
}

/// Keys that end the session whatever the focus.
pub open spec fn quits(app: App, key: Key) -> bool {
    key.code == KeyCode::Esc || (key.code == KeyCode::Char('q') && app.focus != Focus::Search)
}

/// Keys that switch the display mode whatever the focus.
pub open spec fn switches(app: App, key: Key) -> bool {
    (key.code == KeyCode::Char('m') && app.focus != Focus::Search) || (key.code == KeyCode::Char('t')
        && key.modifiers == Modifiers::Control)
}

/// The session after a key that moves within or between the lists.
pub open spec fn navigated(app: App, key: Key) -> App {
    match key.code {
        KeyCode::Tab => app.focused_on(Focus::Search),
        KeyCode::Up | KeyCode::Char('k') => if app.mode == Mode::SinglePane && app.focus
            == Focus::Categories {
            app
        } else {
            app.moved_up()
        },
        KeyCode::Down | KeyCode::Char('j') => if app.mode == Mode::SinglePane && app.focus
            == Focus::Categories {
            app
        } else {
            app.moved_down()
        },
        KeyCode::Char('h') => app.moved_left(),
        KeyCode::Char('l') => app.moved_right(),
        _ => app,
    }
}

/// Keys that move the focus out of the search bar instead of editing it.
pub open spec fn leaves_search(app: App, key: Key) -> Option<Focus> {
    if key.code == KeyCode::Tab {
        Some(app.list_focus())
    } else if key.code == KeyCode::Up && (key.modifiers == Modifiers::Empty || key.modifiers
        == Modifiers::Control) && app.config.search_position == SearchPosition::Bottom {
        Some(Focus::Apps)
    } else if key.code == KeyCode::Down && key.modifiers == Modifiers::Empty
        && app.config.search_position == SearchPosition::Top {
        Some(app.list_focus())
    } else {
        None
    }
}

/// The search text and cursor after an editing key, where they are fully determined.
pub open spec fn edited(app: App, key: Key) -> Option<(Seq<char>, nat)> {
    let q = app.query@;
    let c = app.cursor as nat;
    if key.code == KeyCode::Char('u') && key.modifiers == Modifiers::Control {
        if c > 0 {
            Some((q.subrange(c as int, q.len() as int), 0))
        } else {
            Some((q, c))
        }
    } else if key.code == KeyCode::Char('k') && key.modifiers == Modifiers::Control {
        Some((q.subrange(0, c as int), c))
    } else {
        match edit_request(key) {
            Some(req) => match plain_edit(q, c, req) {
                Some(e) => Some(e),
                None => None,
            },
            None => Some((q, c)),
        }
    }
}

/// Records the selected entry's command and ends the session, if the selection
/// resolves to an entry; otherwise changes nothing.
fn confirm(app: &mut App) -> (quit: bool)
    requires
        old(app).wf(),
    ensures
        quit == old(app).selected_entry() is Some,
        quit ==> *final(app) == old(app).confirmed(),
        !quit ==> *final(app) == *old(app),
{
    match get_selected_app(app) {
        Some(entry) => {
            let command = entry.command.clone();
            app.app_to_launch = Some(command);
            app.should_quit = true;
            true
        },
        None => false,
    }
}

/// Moves the selection one listed category back or forth.
fn step_category(app: &mut App, forward: bool) -> (moved: bool)
    requires
        old(app).wf(),
    ensures
        forward ==> moved == (old(app).category_position() >= 0 && old(app).category_position() + 1
            < old(app).visible_categories().len()),
        !forward ==> moved == (old(app).category_position() > 0),
        moved && forward ==> *final(app) == old(app).at_next_category(),
        moved && !forward ==> *final(app) == old(app).at_previous_category(),
        !moved ==> *final(app) == *old(app),
{
    let listed = get_matching_category_indices(app);
    match position_of(&listed, app.selected_category) {
        Some(p) => {
            if forward && p + 1 < listed.len() {
                app.selected_category = listed[p + 1];
                app.selected_app = 0;
                true
            } else if !forward && p > 0 {
                app.selected_category = listed[p - 1];
                app.selected_app = 0;
                true
            } else {
                false
            }
        },
        None => false,
    }
}

/// Handles a key while a list has the focus.
fn handle_list_key(app: &mut App, key: Key) -> (quit: bool)
    requires
        old(app).wf(),
        old(app).focus != Focus::Search,
    ensures
        key.code == KeyCode::Enter ==> quit == old(app).selected_entry() is Some,
        key.code == KeyCode::Enter && quit ==> *final(app) == old(app).confirmed(),
        key.code == KeyCode::Enter && !quit ==> *final(app) == *old(app),
        key.code != KeyCode::Enter ==> !quit && *final(app) == navigated(*old(app), key),
{
    let top = app.config.search_position == SearchPosition::Top;
    let bottom = app.config.search_position == SearchPosition::Bottom;
    match key.code {
        KeyCode::Enter => {
            return confirm(app);
        },
        KeyCode::Tab => {
            app.focus = Focus::Search;
        },
        KeyCode::Up | KeyCode::Char('k') => {
            match app.focus {
                Focus::Apps => {
                    if app.selected_app > 0 {
                        app.selected_app = app.selected_app - 1;
                    } else if top {
                        app.focus = Focus::Search;
                    }
                },
                Focus::Categories => {
                    if app.mode == Mode::DualPane {
                        if !step_category(app, false) && top {
                            app.focus = Focus::Search;
                        }
                    }
                },
                Focus::Search => {},
            }
        },
        KeyCode::Down | KeyCode::Char('j') => {
            match app.focus {
                Focus::Apps => {
                    let count = count_filtered_apps_in_current_category(app);
                    if count > 0 && app.selected_app < count - 1 {
                        app.selected_app = app.selected_app + 1;
                    } else if bottom {
                        app.focus = Focus::Search;
                    }
                },
                Focus::Categories => {
                    if app.mode == Mode::DualPane {
                        if !step_category(app, true) && bottom {
                            app.focus = Focus::Search;
                        }
                    }
                },
                Focus::Search => {},
            }
        },
        KeyCode::Char('h') => {
            if app.mode == Mode::DualPane {
                if app.focus == Focus::Apps {
                    app.focus = Focus::Categories;
                }
            } else {
                match app.focus {
                    Focus::Apps => {
                        if app.selected_app > 0 {
                            app.selected_app = app.selected_app - 1;
                        }
                    },
                    Focus::Categories => {
                        step_category(app, false);
                    },
                    Focus::Search => {},
                }
            }
        },
        KeyCode::Char('l') => {
            if app.mode == Mode::DualPane {
                if app.focus == Focus::Categories {
                    app.focus = Focus::Apps;
                }
            } else {
                match app.focus {
                    Focus::Categories => {
                        step_category(app, true);
                    },
                    Focus::Apps => {
                        let count = count_filtered_apps_in_current_category(app);
                        if count > 0 && app.selected_app < count - 1 {
                            app.selected_app = app.selected_app + 1;
                        }
                    },
                    Focus::Search => {},
                }
            }
        },
        _ => {},
    }
    false
}

/// Editing keys that find nothing to cut and leave the session as it is.
pub open spec fn cuts_nothing(app: App, key: Key) -> bool {
    key.modifiers == Modifiers::Control && ((key.code == KeyCode::Char('u') && app.cursor == 0) || (
    key.code == KeyCode::Char('k') && app.cursor >= app.query@.len()))
}

/// The session with a new search text, cursor and scores, and the selection re-anchored.
pub open spec fn requeried(app: App, after: App) -> App {
    (App { query: after.query, cursor: after.cursor, scores: after.scores, ..app }).reanchored()
}

/// The scores are the matcher's, for every entry against the case-folded search text.
pub open spec fn scored_by<M: Matcher>(app: App, matcher: M) -> bool {
    forall|i: int|
        0 <= i < app.scores@.len() ==> app.scores@[i] == matcher.score(
            app.apps@[i].name@,
            lower_of(app.query@),
        )
}

/// Applies an editing key to the search text.
fn edit_query(app: &mut App, key: Key)
    requires
        old(app).wf(),
        !cuts_nothing(*old(app), key),
    ensures
        final(app).cursor <= final(app).query@.len(),
        edited(*old(app), key) matches Some(e) ==> final(app).query@ == e.0 && final(app).cursor
            == e.1,
        *final(app) == (App { query: final(app).query, cursor: final(app).cursor, ..*old(app) }),
{
    let len = app.query.as_str().unicode_len();
    if key.code == KeyCode::Char('u') && key.modifiers == Modifiers::Control {
        let rest = String::from_str(app.query.as_str().substring_char(app.cursor, len));
        app.query = rest;
        app.cursor = 0;
    } else if key.code == KeyCode::Char('k') && key.modifiers == Modifiers::Control {
        let kept = String::from_str(app.query.as_str().substring_char(0, app.cursor));
        app.query = kept;
    } else {
        match edit_request_of(key) {
            Some(req) => {
                let (text, cursor) = handle_request(&app.query, app.cursor, req);
                app.query = text;
                app.cursor = cursor;
            },
            None => {},
        }
    }
}

/// Handles a key while the search bar has the focus.
fn handle_search_key<M: Matcher>(app: &mut App, key: Key, matcher: &M) -> (quit: bool)
    requires
        old(app).wf(),
        old(app).focus == Focus::Search,
    ensures
        final(app).wf(),
        key.code == KeyCode::Enter ==> quit == old(app).selected_entry() is Some,
        key.code == KeyCode::Enter && quit ==> *final(app) == old(app).confirmed(),
        key.code == KeyCode::Enter && !quit ==> *final(app) == *old(app),
        key.code != KeyCode::Enter ==> !quit,
        key.code != KeyCode::Enter ==> (leaves_search(*old(app), key) matches Some(f) ==> *final(app)
            == old(app).focused_on(f)),
        key.code != KeyCode::Enter && leaves_search(*old(app), key) is None && cuts_nothing(*old(app), key) ==> *final(app) == *old(app),
        key.code != KeyCode::Enter && leaves_search(*old(app), key) is None && !cuts_nothing(*old(app), key) ==> *final(app) == requeried(*old(app), *final(app)),
        key.code != KeyCode::Enter && leaves_search(*old(app), key) is None && !cuts_nothing(*old(app), key) ==> scored_by(*final(app), *matcher),
        key.code != KeyCode::Enter && leaves_search(*old(app), key) is None && !cuts_nothing(*old(app), key) ==> (edited(*old(app), key) matches Some(e) ==> final(app).query@ == e.0
            && final(app).cursor == e.1),
{
    if key.code == KeyCode::Enter {
        return confirm(app);
    }
    if key.code == KeyCode::Tab {
        app.focus = match app.mode {
            Mode::SinglePane => Focus::Apps,
            Mode::DualPane => Focus::Categories,
        };
        return false;
    }
    if key.code == KeyCode::Up && (key.modifiers == Modifiers::Empty || key.modifiers
        == Modifiers::Control) && app.config.search_position == SearchPosition::Bottom {
        app.focus = Focus::Apps;
        return false;
    }
    if key.code == KeyCode::Down && key.modifiers == Modifiers::Empty
        && app.config.search_position == SearchPosition::Top {
        app.focus = match app.mode {
            Mode::SinglePane => Focus::Apps,
            Mode::DualPane => Focus::Categories,
        };
        return false;
    }
    if key.modifiers == Modifiers::Control && ((key.code == KeyCode::Char('u') && app.cursor == 0)
        || (key.code == KeyCode::Char('k') && app.cursor >= app.query.as_str().unicode_len())) {
        return false;
    }
    edit_query(app, key);
    rescore(app, matcher);
    update_selection_after_search(app);
    false
}

/// Handles one key press: ends the session (returns `true`) on cancel or on a confirmed
/// selection, switches the display mode, edits the search text and re-anchors the
/// selection, or moves within and between the lists.
pub fn handle_key<M: Matcher>(app: &mut App, key: Key, matcher: &M) -> (quit: bool)
    requires
        old(app).wf(),
    ensures
        final(app).wf(),
        quits(*old(app), key) ==> quit && *final(app) == *old(app),
        !quits(*old(app), key) && switches(*old(app), key) ==> !quit && *final(app) == old(app).switched(),
        !quits(*old(app), key) && !switches(*old(app), key) && key.code == KeyCode::Enter ==> quit
            == old(app).selected_entry() is Some,
        !quits(*old(app), key) && !switches(*old(app), key) && key.code == KeyCode::Enter && quit
            ==> *final(app) == old(app).confirmed(),
        !quits(*old(app), key) && !switches(*old(app), key) && key.code == KeyCode::Enter && !quit
            ==> *final(app) == *old(app),
        !quits(*old(app), key) && !switches(*old(app), key) && key.code != KeyCode::Enter ==> !quit,
        !quits(*old(app), key) && !switches(*old(app), key) && key.code != KeyCode::Enter && old(app).focus != Focus::Search ==> *final(app) == navigated(*old(app), key),
        !quits(*old(app), key) && !switches(*old(app), key) && key.code != KeyCode::Enter && old(app).focus == Focus::Search ==> match leaves_search(*old(app), key) {
            Some(f) => *final(app) == old(app).focused_on(f),
            None => if cuts_nothing(*old(app), key) {
                *final(app) == *old(app)
            } else {
                &&& *final(app) == requeried(*old(app), *final(app))
                &&& scored_by(*final(app), *matcher)
                &&& edited(*old(app), key) matches Some(e) ==> final(app).query@ == e.0 && final(app).cursor == e.1
            },
        },
{
    if key.code == KeyCode::Esc || (key.code == KeyCode::Char('q') && app.focus != Focus::Search) {
        return true;
    }
    if (key.code == KeyCode::Char('m') && app.focus != Focus::Search) || (key.code
        == KeyCode::Char('t') && key.modifiers == Modifiers::Control) {
        toggle_mode(app);
        if app.config.focus_search_on_switch {
            app.focus = Focus::Search;
        }
        return false;
    }
    if app.focus == Focus::Search {
        handle_search_key(app, key, matcher)
    } else {
        handle_list_key(app, key)
    }
}

proof fn lemma_landing_category(app: App, p: int)
    requires
        app.wf(),
        0 <= p < app.visible_categories().len(),
        !app.query_empty(),
        app.apps@.len() <= usize::MAX,
        app.recent_apps@.len() <= usize::MAX,
        app.categories@.len() <= usize::MAX,
    ensures
        (App { selected_category: app.visible_categories()[p], selected_app: 0, ..app }).selected_entry() is Some
            || app.mode == Mode::SinglePane,
{
    lemma_visible_categories(app, app.categories@.len());
    let c = app.visible_categories()[p] as int;
    lemma_members_len(app, c);
    lemma_shown_len(app.scores@, app.members_at(c));
    let r = App { selected_category: app.visible_categories()[p], selected_app: 0, ..app };
    assert(r.visible_in(c) == app.visible_in(c));
}

/// Moving through an entry list keeps the index inside the list and stops at its ends;
/// moving through the category list lands on a listed category with its first entry
/// selected, which under a non-empty query is a shown entry.
pub proof fn lemma_moves_stay_in_range(app: App)
    requires
        app.wf(),
        app.apps@.len() <= usize::MAX,
        app.recent_apps@.len() <= usize::MAX,
        app.categories@.len() <= usize::MAX,
    ensures
        app.focus == Focus::Apps && app.selected_app < app.current_list().len() ==> {
            &&& app.moved_up().selected_app < app.moved_up().current_list().len()
            &&& app.moved_down().selected_app < app.moved_down().current_list().len()
            &&& app.moved_left().selected_app < app.moved_left().current_list().len()
            &&& app.moved_right().selected_app < app.moved_right().current_list().len()
        },
        app.focus == Focus::Apps && app.selected_app == 0 ==> app.moved_up().selected_app == 0
            && app.moved_left().selected_app == 0,
        app.focus == Focus::Apps && app.selected_app + 1 >= app.current_list().len()
            ==> app.moved_down().selected_app == app.selected_app && app.moved_right().selected_app
            == app.selected_app,
        app.mode == Mode::DualPane ==> app.moved_left().selected_category == app.selected_category
            && app.moved_left().selected_app == app.selected_app && app.moved_right().selected_category
            == app.selected_category && app.moved_right().selected_app == app.selected_app,
        app.focus == Focus::Categories && app.mode == Mode::DualPane && !app.query_empty() ==> {
            &&& app.moved_up().selected_category != app.selected_category
                ==> app.moved_up().selected_entry() is Some
            &&& app.moved_down().selected_category != app.selected_category
                ==> app.moved_down().selected_entry() is Some
        },
{
    if app.focus == Focus::Apps {
        assert(app.moved_up().current_list() == app.current_list());
        assert(app.moved_down().current_list() == app.current_list());
        assert(app.moved_left().current_list() == app.current_list());
        assert(app.moved_right().current_list() == app.current_list());
    }
    if app.focus == Focus::Categories && app.mode == Mode::DualPane && !app.query_empty() {
        let p = app.category_position();
        lemma_index_in(app.visible_categories(), app.selected_category, 0);
        if p > 0 {
            lemma_landing_category(app, p - 1);
        }
        if p >= 0 && p + 1 < app.visible_categories().len() {
            lemma_landing_category(app, p + 1);
        }
    }
}

/// With nothing shown, the selection resolves to no entry, so confirming changes
/// nothing and the session goes on.
pub proof fn lemma_confirm_without_entries(app: App)
    requires
        app.wf(),
        !app.has_visible_entries(),
        app.apps@.len() <= usize::MAX,
        app.recent_apps@.len() <= usize::MAX,
    ensures
        app.selected_entry() is None,
{
    if app.mode == Mode::DualPane && app.selected_category < app.categories@.len() {
        let c = app.selected_category as int;
        if !app.category_visible(c) {
            lemma_members_len(app, c);
            lemma_shown_len(app.scores@, app.members_at(c));
        }
    }
}

} // verus!
