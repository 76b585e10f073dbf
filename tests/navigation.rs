use dstl::app::{
    count_filtered_apps_in_current_category, get_matching_category_indices, get_selected_app,
    toggle_mode, update_selection_after_search, App, Config, Focus, Matcher, Mode, SearchPosition,
};
use dstl::catalog::{rank, AppEntry};
use dstl::events::{handle_key, Key, KeyCode, Modifiers};
use dstl::matcher::SubsequenceMatcher;


fn entry(name: &str, category: &str, command: &str, terminal: bool) -> AppEntry {
    AppEntry {
        name: name.to_string(),
        category: category.to_string(),
        command: command.to_string(),
        terminal,
    }
}

fn config(pos: SearchPosition) -> Config {
    Config { search_position: pos, focus_search_on_switch: false }
}

fn vim_app(mode: Mode) -> App {
    App::new(
        vec![entry("Vim", "CLI", "vim", true)],
        vec!["CLI".to_string()],
        vec![],
        config(SearchPosition::Top),
        mode,
    )
}

fn key(code: KeyCode) -> Key {
    Key { code, modifiers: Modifiers::Empty }
}

fn ctrl(c: char) -> Key {
    Key { code: KeyCode::Char(c), modifiers: Modifiers::Control }
}

fn type_text<M: Matcher>(app: &mut App, text: &str, m: &M) {
    for c in text.chars() {
        assert!(!handle_key(app, key(KeyCode::Char(c)), m));
    }
}

fn visible_names(app: &App) -> Vec<String> {
    let mut out = Vec::new();
    let mut probe = App::new(
        app.apps.iter().map(|a| entry(&a.name, &a.category, &a.command, a.terminal)).collect(),
        app.categories.clone(),
        app.recent_apps.clone(),
        app.config,
        app.mode,
    );
    probe.query = app.query.clone();
    probe.cursor = app.cursor;
    probe.scores = app.scores.clone();
    probe.selected_category = app.selected_category;
    let n = count_filtered_apps_in_current_category(&probe);
    for i in 0..n {
        probe.selected_app = i;
        out.push(get_selected_app(&probe).unwrap().name.clone());
    }
    out
}

fn multi_catalog() -> App {
    App::new(
        vec![
            entry("Firefox", "Web", "firefox", false),
            entry("Vim", "CLI", "vim", true),
            entry("Htop", "CLI", "htop", true),
            entry("Chromium", "Web", "chromium", false),
            entry("Neovim", "CLI", "nvim", true),
        ],
        vec!["Recent".to_string(), "CLI".to_string(), "Web".to_string()],
        vec!["Neovim".to_string(), "Firefox".to_string(), "Missing".to_string()],
        config(SearchPosition::Top),
        Mode::DualPane,
    )
}

#[test]
fn empty_query_shows_vim_and_confirm_yields_it() {
    let mut app = vim_app(Mode::DualPane);
    assert_eq!(get_matching_category_indices(&app), vec![0]);
    assert_eq!(visible_names(&app), vec!["Vim".to_string()]);
    assert_eq!(get_selected_app(&app).unwrap().command, "vim");
    assert!(handle_key(&mut app, key(KeyCode::Enter), &SubsequenceMatcher));
    assert_eq!(app.app_to_launch, Some("vim".to_string()));
    assert!(app.should_quit);
}

#[test]
fn query_vi_matches_and_zzz_leaves_nothing() {
    let mut app = vim_app(Mode::DualPane);
    type_text(&mut app, "vi", &SubsequenceMatcher);
    assert_eq!(app.query, "vi");
    assert_eq!(visible_names(&app), vec!["Vim".to_string()]);
    let mut app = vim_app(Mode::DualPane);
    type_text(&mut app, "zzz", &SubsequenceMatcher);
    assert_eq!(get_matching_category_indices(&app), Vec::<usize>::new());
    assert_eq!(count_filtered_apps_in_current_category(&app), 0);
    let query_before = app.query.clone();
    assert!(!handle_key(&mut app, key(KeyCode::Enter), &SubsequenceMatcher));
    assert_eq!(app.app_to_launch, None);
    assert!(!app.should_quit);
    assert_eq!(app.query, query_before);
    assert_eq!((app.selected_category, app.selected_app), (0, 0));
}

#[test]
fn toggling_to_single_pane_clamps_the_app_index() {
    let mut app = multi_catalog();
    app.selected_category = 2;
    app.selected_app = 0;
    toggle_mode(&mut app);
    assert_eq!(app.mode, Mode::SinglePane);
    assert!(app.selected_app < count_filtered_apps_in_current_category(&app));
    let mut far = multi_catalog();
    far.mode = Mode::SinglePane;
    far.selected_app = 40;
    toggle_mode(&mut far);
    assert_eq!(far.mode, Mode::DualPane);
    assert_eq!(far.selected_app, 1);
    let mut empty = vim_app(Mode::DualPane);
    type_text(&mut empty, "q", &SubsequenceMatcher);
    empty.selected_app = 3;
    toggle_mode(&mut empty);
    assert_eq!(empty.selected_app, 0);
}

#[test]
fn toggle_key_moves_focus_off_categories() {
    let mut app = multi_catalog();
    app.focus = Focus::Categories;
    assert!(!handle_key(&mut app, key(KeyCode::Char('m')), &SubsequenceMatcher));
    assert_eq!(app.mode, Mode::SinglePane);
    assert_eq!(app.focus, Focus::Apps);
    app.config.focus_search_on_switch = true;
    assert!(!handle_key(&mut app, ctrl('t'), &SubsequenceMatcher));
    assert_eq!(app.mode, Mode::DualPane);
    assert_eq!(app.focus, Focus::Search);
}

#[test]
fn visible_entries_all_match_the_query() {
    let mut app = multi_catalog();
    app.mode = Mode::SinglePane;
    type_text(&mut app, "vim", &SubsequenceMatcher);
    let names = visible_names(&app);
    assert_eq!(names.len(), 2);
    for n in &names {
        assert!(SubsequenceMatcher.matches(n, &"vim".to_string()).is_some());
    }
    assert!(!names.contains(&"Htop".to_string()));
}

#[test]
fn visible_entries_go_by_score_then_catalog_order() {
    // Skipped characters for "i": Firefox 1, Vim 1, Chromium 5, Neovim 4; Htop has no "i".
    let mut app = multi_catalog();
    app.mode = Mode::SinglePane;
    type_text(&mut app, "i", &SubsequenceMatcher);
    assert_eq!(app.scores, vec![Some(-1), Some(-1), None, Some(-5), Some(-4)]);
    assert_eq!(
        visible_names(&app),
        vec!["Firefox".to_string(), "Vim".to_string(), "Neovim".to_string(), "Chromium".to_string()]
    );
    assert_eq!(rank(&vec![Some(1), None, Some(3), Some(1), Some(3)]), vec![2, 4, 0, 3]);
    assert_eq!(rank(&vec![None, None]), Vec::<usize>::new());
}

#[test]
fn subsequence_matcher_scores() {
    let m = SubsequenceMatcher;
    assert_eq!(m.matches(&"Vim".to_string(), &"vi".to_string()), Some(0));
    assert_eq!(m.matches(&"Neovim".to_string(), &"vm".to_string()), Some(-4));
    assert_eq!(m.matches(&"Vim".to_string(), &"xi".to_string()), None);
    assert_eq!(m.matches(&"Vim".to_string(), &"".to_string()), Some(0));
    assert_eq!(m.matches(&"".to_string(), &"a".to_string()), None);
}

#[test]
fn empty_query_keeps_catalog_order_without_scoring() {
    let mut app = multi_catalog();
    app.selected_category = 2;
    assert_eq!(visible_names(&app), vec!["Firefox".to_string(), "Chromium".to_string()]);
    app.selected_category = 0;
    assert_eq!(visible_names(&app), vec!["Firefox".to_string(), "Neovim".to_string()]);
}

#[test]
fn recent_category_matches_through_recent_names() {
    let mut app = multi_catalog();
    type_text(&mut app, "fox", &SubsequenceMatcher);
    assert_eq!(get_matching_category_indices(&app), vec![0, 2]);
    assert_eq!(app.selected_category, 0);
    assert_eq!(get_selected_app(&app).unwrap().name, "Firefox");
}

#[test]
fn query_change_reanchors_on_first_visible_category() {
    let mut app = multi_catalog();
    app.selected_category = 2;
    app.selected_app = 1;
    type_text(&mut app, "htop", &SubsequenceMatcher);
    assert_eq!(app.selected_category, 1);
    assert_eq!(app.selected_app, 0);
    assert_eq!(get_selected_app(&app).unwrap().name, "Htop");
    for _ in 0..4 {
        assert!(!handle_key(&mut app, key(KeyCode::Backspace), &SubsequenceMatcher));
    }
    assert_eq!(app.query, "");
    assert_eq!((app.selected_category, app.selected_app), (0, 0));
    app.selected_app = 1;
    update_selection_after_search(&mut app);
    assert_eq!(app.selected_app, 0);
}

#[test]
fn single_pane_horizontal_keys_step_the_flat_list() {
    let mut app = multi_catalog();
    app.mode = Mode::SinglePane;
    app.focus = Focus::Apps;
    assert!(!handle_key(&mut app, key(KeyCode::Char('l')), &SubsequenceMatcher));
    assert_eq!(app.selected_app, 1);
    assert!(!handle_key(&mut app, key(KeyCode::Char('h')), &SubsequenceMatcher));
    assert!(!handle_key(&mut app, key(KeyCode::Char('h')), &SubsequenceMatcher));
    assert_eq!(app.selected_app, 0);
}

#[test]
fn rescoring_stores_the_matcher_scores_of_the_folded_query() {
    let mut app = multi_catalog();
    type_text(&mut app, "VI", &SubsequenceMatcher);
    for (i, a) in app.apps.iter().enumerate() {
        assert_eq!(app.scores[i], SubsequenceMatcher.matches(&a.name, &"vi".to_string()));
    }
}

#[test]
fn movement_clamps_at_both_ends() {
    let mut app = multi_catalog();
    app.config.search_position = SearchPosition::Bottom;
    app.focus = Focus::Apps;
    app.selected_category = 1;
    for _ in 0..5 {
        assert!(!handle_key(&mut app, key(KeyCode::Char('k')), &SubsequenceMatcher));
        assert_eq!(app.selected_app, 0);
        assert_eq!(app.focus, Focus::Apps);
    }
    app.config.search_position = SearchPosition::Top;
    assert!(!handle_key(&mut app, key(KeyCode::Down), &SubsequenceMatcher));
    assert!(!handle_key(&mut app, key(KeyCode::Down), &SubsequenceMatcher));
    assert_eq!(app.selected_app, 2);
    for _ in 0..3 {
        assert!(!handle_key(&mut app, key(KeyCode::Char('j')), &SubsequenceMatcher));
        assert_eq!(app.selected_app, 2);
        assert_eq!(app.focus, Focus::Apps);
    }
    assert!(!handle_key(&mut app, key(KeyCode::Char('l')), &SubsequenceMatcher));
    assert_eq!(app.selected_app, 2);
}

#[test]
fn up_at_top_enters_search_only_when_it_sits_above() {
    let mut app = multi_catalog();
    app.focus = Focus::Apps;
    assert!(!handle_key(&mut app, key(KeyCode::Up), &SubsequenceMatcher));
    assert_eq!(app.focus, Focus::Search);
    assert!(!handle_key(&mut app, key(KeyCode::Down), &SubsequenceMatcher));
    assert_eq!(app.focus, Focus::Categories);
}

#[test]
fn category_movement_skips_hidden_categories() {
    let mut app = multi_catalog();
    type_text(&mut app, "o", &SubsequenceMatcher);
    // "o" matches Firefox, Htop, Chromium, Neovim: every category is listed.
    assert_eq!(get_matching_category_indices(&app), vec![0, 1, 2]);
    let mut app = multi_catalog();
    type_text(&mut app, "m", &SubsequenceMatcher);
    // "m" matches Vim, Chromium, Neovim: Recent (Neovim), CLI, Web.
    assert_eq!(get_matching_category_indices(&app), vec![0, 1, 2]);
    let mut app = multi_catalog();
    type_text(&mut app, "ch", &SubsequenceMatcher);
    assert_eq!(get_matching_category_indices(&app), vec![2]);
    app.focus = Focus::Categories;
    assert!(!handle_key(&mut app, key(KeyCode::Char('j')), &SubsequenceMatcher));
    assert_eq!(app.selected_category, 2);
    let mut app = multi_catalog();
    type_text(&mut app, "vim", &SubsequenceMatcher);
    assert_eq!(get_matching_category_indices(&app), vec![0, 1]);
    app.focus = Focus::Categories;
    app.selected_app = 1;
    assert!(!handle_key(&mut app, key(KeyCode::Char('j')), &SubsequenceMatcher));
    assert_eq!((app.selected_category, app.selected_app), (1, 0));
    // Horizontal keys only switch panes in dual-pane mode.
    assert!(!handle_key(&mut app, key(KeyCode::Char('h')), &SubsequenceMatcher));
    assert_eq!((app.selected_category, app.selected_app, app.focus), (1, 0, Focus::Categories));
    assert!(!handle_key(&mut app, key(KeyCode::Char('k')), &SubsequenceMatcher));
    assert_eq!(app.selected_category, 0);
    assert!(!handle_key(&mut app, key(KeyCode::Char('l')), &SubsequenceMatcher));
    assert_eq!(app.focus, Focus::Apps);
    assert!(!handle_key(&mut app, key(KeyCode::Char('l')), &SubsequenceMatcher));
    assert_eq!((app.selected_category, app.selected_app, app.focus), (0, 0, Focus::Apps));
    assert!(!handle_key(&mut app, key(KeyCode::Char('h')), &SubsequenceMatcher));
    assert_eq!(app.focus, Focus::Categories);
}

#[test]
fn tab_and_quit_keys() {
    let mut app = multi_catalog();
    assert!(!handle_key(&mut app, key(KeyCode::Char('q')), &SubsequenceMatcher));
    assert_eq!(app.query, "q");
    assert!(!handle_key(&mut app, key(KeyCode::Tab), &SubsequenceMatcher));
    assert_eq!(app.focus, Focus::Categories);
    assert!(!handle_key(&mut app, key(KeyCode::Tab), &SubsequenceMatcher));
    assert_eq!(app.focus, Focus::Search);
    assert!(!handle_key(&mut app, key(KeyCode::Tab), &SubsequenceMatcher));
    assert!(handle_key(&mut app, key(KeyCode::Char('q')), &SubsequenceMatcher));
    assert_eq!(app.app_to_launch, None);
    let mut esc = multi_catalog();
    assert!(handle_key(&mut esc, key(KeyCode::Esc), &SubsequenceMatcher));
}

#[test]
fn line_editing_keys() {
    let mut app = multi_catalog();
    type_text(&mut app, "foo bar", &SubsequenceMatcher);
    assert_eq!(app.cursor, 7);
    assert!(!handle_key(&mut app, ctrl('w'), &SubsequenceMatcher));
    assert_eq!(app.query, "foo ");
    assert!(!handle_key(&mut app, ctrl('a'), &SubsequenceMatcher));
    assert_eq!(app.cursor, 0);
    assert!(!handle_key(&mut app, ctrl('f'), &SubsequenceMatcher));
    assert!(!handle_key(&mut app, ctrl('d'), &SubsequenceMatcher));
    assert_eq!(app.query, "fo ");
    assert!(!handle_key(&mut app, key(KeyCode::Char('x')), &SubsequenceMatcher));
    assert_eq!(app.query, "fxo ");
    assert_eq!(app.cursor, 2);
    assert!(!handle_key(&mut app, ctrl('k'), &SubsequenceMatcher));
    assert_eq!(app.query, "fx");
    assert_eq!(app.cursor, 2);
    assert!(!handle_key(&mut app, ctrl('b'), &SubsequenceMatcher));
    assert!(!handle_key(&mut app, ctrl('u'), &SubsequenceMatcher));
    assert_eq!(app.query, "x");
    assert_eq!(app.cursor, 0);
    assert!(!handle_key(&mut app, ctrl('e'), &SubsequenceMatcher));
    assert_eq!(app.cursor, 1);
    assert!(!handle_key(&mut app, ctrl('h'), &SubsequenceMatcher));
    assert_eq!(app.query, "");
}

#[test]
fn cursor_counts_characters() {
    let mut app = multi_catalog();
    type_text(&mut app, "éa", &SubsequenceMatcher);
    assert_eq!(app.cursor, 2);
    assert!(!handle_key(&mut app, key(KeyCode::Left), &SubsequenceMatcher));
    assert!(!handle_key(&mut app, ctrl('u'), &SubsequenceMatcher));
    assert_eq!(app.query, "a");
    assert_eq!(app.cursor, 0);
}

#[test]
fn query_is_folded_before_matching() {
    let mut app = multi_catalog();
    app.mode = Mode::SinglePane;
    type_text(&mut app, "HTOP", &SubsequenceMatcher);
    assert_eq!(visible_names(&app), vec!["Htop".to_string()]);
}
