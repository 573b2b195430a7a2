use haiku::haiku::Haiku;
use haiku::line_check::check_line;
use haiku::tui::{
    handle_key, line_state, visible_window, App, AppEvent, ComposeStatus, KeyCode, KeyEvent,
    KeyEventKind, LineState, Screen,
};

fn key(code: KeyCode) -> KeyEvent {
    KeyEvent::new(code, false)
}

fn ctrl_key(code: KeyCode) -> KeyEvent {
    KeyEvent::new(code, true)
}

fn char_key(c: char) -> KeyEvent {
    key(KeyCode::Char(c))
}

fn haiku(a: &str, b: &str, c: &str) -> Haiku {
    Haiku::new(a, b, c).unwrap()
}

fn sample_haikus() -> Vec<Haiku> {
    vec![
        haiku(
            "an old silent pond",
            "a frog jumps into the pond",
            "splash silence again",
        ),
        haiku(
            "i walked to the store",
            "wanted a little table",
            "whole apple loved much",
        ),
    ]
}

fn type_str(app: &mut App, s: &str) {
    for c in s.chars() {
        handle_key(app, char_key(c));
    }
}

// -- Browse --

#[test]
fn typing_narrows_matches_to_substring_hits() {
    let mut app = App::new(sample_haikus());
    type_str(&mut app, "table");
    assert_eq!(app.browse.matches, vec![1]);
}

#[test]
fn search_is_case_insensitive() {
    let mut app = App::new(sample_haikus());
    type_str(&mut app, "POND");
    assert_eq!(app.browse.matches, vec![0]);
}

#[test]
fn backspace_widens_matches_back() {
    let mut app = App::new(sample_haikus());
    type_str(&mut app, "table");
    handle_key(&mut app, key(KeyCode::Backspace));
    handle_key(&mut app, key(KeyCode::Backspace));
    handle_key(&mut app, key(KeyCode::Backspace));
    handle_key(&mut app, key(KeyCode::Backspace));
    handle_key(&mut app, key(KeyCode::Backspace));
    assert_eq!(app.browse.matches, vec![0, 1]);
    assert!(app.browse.query.is_empty());
}

#[test]
fn navigation_does_not_underflow_at_top() {
    let mut app = App::new(sample_haikus());
    handle_key(&mut app, key(KeyCode::Up));
    handle_key(&mut app, key(KeyCode::Up));
    assert_eq!(app.browse.selected, 0);
}

#[test]
fn navigation_does_not_overflow_at_bottom() {
    let mut app = App::new(sample_haikus());
    handle_key(&mut app, key(KeyCode::Down));
    handle_key(&mut app, key(KeyCode::Down));
    handle_key(&mut app, key(KeyCode::Down));
    assert_eq!(app.browse.selected, 1);
}

#[test]
fn navigation_on_empty_matches_is_a_noop() {
    let mut app = App::new(sample_haikus());
    type_str(&mut app, "nonexistentword");
    assert!(app.browse.matches.is_empty());
    handle_key(&mut app, key(KeyCode::Down)); // must not panic
    assert_eq!(app.browse.selected, 0);
}

#[test]
fn esc_clears_nonempty_query_before_quitting() {
    let mut app = App::new(sample_haikus());
    type_str(&mut app, "pond");
    let event = handle_key(&mut app, key(KeyCode::Esc));
    assert_eq!(event, None);
    assert!(app.browse.query.is_empty());
}

#[test]
fn esc_on_empty_query_quits() {
    let mut app = App::new(sample_haikus());
    let event = handle_key(&mut app, key(KeyCode::Esc));
    assert_eq!(event, Some(AppEvent::Quit));
}

#[test]
fn tab_switches_to_compose_and_back_preserves_browse_state() {
    let mut app = App::new(sample_haikus());
    type_str(&mut app, "table");
    handle_key(&mut app, key(KeyCode::Tab));
    assert_eq!(app.screen, Screen::Compose);
    handle_key(&mut app, key(KeyCode::Tab));
    assert_eq!(app.screen, Screen::Browse);
    assert_eq!(app.browse.query, "table");
    assert_eq!(app.browse.matches, vec![1]);
}

// -- Compose --

fn goto_compose(app: &mut App) {
    handle_key(app, key(KeyCode::Tab));
}

#[test]
fn valid_line_advances_to_next_line() {
    let mut app = App::new(Vec::new());
    goto_compose(&mut app);
    type_str(&mut app, "an old silent pond");
    handle_key(&mut app, key(KeyCode::Enter));
    assert_eq!(app.compose.active, 1);
}

#[test]
fn invalid_line_does_not_advance() {
    let mut app = App::new(Vec::new());
    goto_compose(&mut app);
    type_str(&mut app, "too short");
    handle_key(&mut app, key(KeyCode::Enter));
    assert_eq!(app.compose.active, 0);
}

#[test]
fn backspace_edits_active_line_and_recomputes_check() {
    let mut app = App::new(Vec::new());
    goto_compose(&mut app);
    // "z" is an extra one-syllable word, bringing the line to 6.
    type_str(&mut app, "an old silent pond z");
    assert!(!app.compose.checks[0].is_ok());
    handle_key(&mut app, key(KeyCode::Backspace)); // remove "z"
    handle_key(&mut app, key(KeyCode::Backspace)); // remove the space
    assert!(app.compose.checks[0].is_ok());
}

#[test]
fn cursor_movement_stays_in_bounds() {
    let mut app = App::new(Vec::new());
    goto_compose(&mut app);
    handle_key(&mut app, key(KeyCode::Left)); // at 0, must not panic/underflow
    assert_eq!(app.compose.lines[0].cursor, 0);
    type_str(&mut app, "hi");
    handle_key(&mut app, key(KeyCode::Right));
    handle_key(&mut app, key(KeyCode::Right)); // past end, must clamp
    assert_eq!(app.compose.lines[0].cursor, 2);
}

#[test]
fn up_moves_to_previous_line_even_if_current_is_invalid() {
    let mut app = App::new(Vec::new());
    goto_compose(&mut app);
    type_str(&mut app, "an old silent pond");
    handle_key(&mut app, key(KeyCode::Enter)); // advance to line 2 (valid)
    type_str(&mut app, "nope"); // line 2 now invalid
    handle_key(&mut app, key(KeyCode::Up));
    assert_eq!(app.compose.active, 0);
}

#[test]
fn completing_all_three_valid_lines_then_enter_returns_save_event() {
    let mut app = App::new(Vec::new());
    goto_compose(&mut app);
    type_str(&mut app, "an old silent pond");
    handle_key(&mut app, key(KeyCode::Enter));
    type_str(&mut app, "a frog jumps into the pond");
    handle_key(&mut app, key(KeyCode::Enter));
    type_str(&mut app, "splash silence again");
    let event = handle_key(&mut app, key(KeyCode::Enter));
    assert_eq!(
        event,
        Some(AppEvent::Save(haiku(
            "an old silent pond",
            "a frog jumps into the pond",
            "splash silence again"
        )))
    );
}

#[test]
fn ctrl_s_saves_when_all_lines_valid() {
    let mut app = App::new(Vec::new());
    goto_compose(&mut app);
    type_str(&mut app, "an old silent pond");
    handle_key(&mut app, key(KeyCode::Enter));
    type_str(&mut app, "a frog jumps into the pond");
    handle_key(&mut app, key(KeyCode::Enter));
    type_str(&mut app, "splash silence again");
    let event = handle_key(&mut app, ctrl_key(KeyCode::Char('s')));
    assert!(matches!(event, Some(AppEvent::Save(_))));
}

#[test]
fn ctrl_s_is_a_noop_when_lines_incomplete() {
    let mut app = App::new(Vec::new());
    goto_compose(&mut app);
    type_str(&mut app, "an old silent pond");
    let event = handle_key(&mut app, ctrl_key(KeyCode::Char('s')));
    assert_eq!(event, None);
}

#[test]
fn esc_returns_to_browse_without_discarding_draft() {
    let mut app = App::new(Vec::new());
    goto_compose(&mut app);
    type_str(&mut app, "an old silent pond");
    handle_key(&mut app, key(KeyCode::Esc));
    assert_eq!(app.screen, Screen::Browse);
    assert_eq!(app.compose.lines[0].text, "an old silent pond");
}

#[test]
fn record_saved_haiku_clears_draft_and_updates_browse() {
    let mut app = App::new(Vec::new());
    goto_compose(&mut app);
    type_str(&mut app, "an old silent pond");
    let saved = haiku(
        "an old silent pond",
        "a frog jumps into the pond",
        "splash silence again",
    );
    app.record_saved_haiku(saved.clone());
    assert_eq!(app.compose.lines[0].text, "");
    assert_eq!(app.compose.status, Some(ComposeStatus::Saved));
    assert!(app.browse.all.contains(&saved));
    assert!(app.browse.matches.contains(&0));
}

// -- Global --

#[test]
fn ctrl_c_quits_from_either_screen() {
    let mut app = App::new(sample_haikus());
    assert_eq!(
        handle_key(&mut app, ctrl_key(KeyCode::Char('c'))),
        Some(AppEvent::Quit)
    );

    let mut app = App::new(sample_haikus());
    goto_compose(&mut app);
    assert_eq!(
        handle_key(&mut app, ctrl_key(KeyCode::Char('c'))),
        Some(AppEvent::Quit)
    );
}

// -- Further cases --

#[test]
fn key_releases_and_repeats_are_ignored() {
    let mut app = App::new(sample_haikus());
    let release = KeyEvent { code: KeyCode::Char('p'), ctrl: false, kind: KeyEventKind::Release };
    let repeat = KeyEvent { code: KeyCode::Esc, ctrl: false, kind: KeyEventKind::Repeat };
    assert_eq!(handle_key(&mut app, release), None);
    assert_eq!(handle_key(&mut app, repeat), None);
    assert!(app.browse.query.is_empty());
}

#[test]
fn typing_and_deleting_in_the_middle_of_a_line() {
    let mut app = App::new(Vec::new());
    goto_compose(&mut app);
    type_str(&mut app, "pnd");
    handle_key(&mut app, key(KeyCode::Left));
    handle_key(&mut app, key(KeyCode::Left));
    type_str(&mut app, "o");
    assert_eq!(app.compose.lines[0].text, "pond");
    assert_eq!(app.compose.lines[0].cursor, 2);
    handle_key(&mut app, key(KeyCode::Delete));
    assert_eq!(app.compose.lines[0].text, "pod");
    handle_key(&mut app, key(KeyCode::Home));
    handle_key(&mut app, key(KeyCode::Backspace));
    assert_eq!(app.compose.lines[0].text, "pod");
    handle_key(&mut app, key(KeyCode::End));
    assert_eq!(app.compose.lines[0].cursor, 3);
    assert_eq!(app.compose.checks[0].breakdown, "pod(1)");
}

#[test]
fn unicode_characters_are_edited_by_character() {
    let mut app = App::new(Vec::new());
    goto_compose(&mut app);
    type_str(&mut app, "héllo");
    handle_key(&mut app, key(KeyCode::Left));
    handle_key(&mut app, key(KeyCode::Left));
    handle_key(&mut app, key(KeyCode::Left));
    handle_key(&mut app, key(KeyCode::Backspace));
    assert_eq!(app.compose.lines[0].text, "hllo");
}

#[test]
fn page_keys_and_end_move_the_selection() {
    let mut all = Vec::new();
    for _ in 0..15 {
        all.extend(sample_haikus());
    }
    let mut app = App::new(all);
    handle_key(&mut app, key(KeyCode::PageDown));
    assert_eq!(app.browse.selected, 10);
    handle_key(&mut app, key(KeyCode::PageDown));
    assert_eq!(app.browse.selected, 20);
    handle_key(&mut app, key(KeyCode::PageDown));
    assert_eq!(app.browse.selected, 29);
    handle_key(&mut app, key(KeyCode::PageUp));
    assert_eq!(app.browse.selected, 19);
    handle_key(&mut app, key(KeyCode::Home));
    assert_eq!(app.browse.selected, 0);
    handle_key(&mut app, key(KeyCode::End));
    assert_eq!(app.browse.selected, 29);
    let picked = app.browse.selected_haiku().unwrap();
    assert_eq!(picked.lines[0], "i walked to the store");
}

#[test]
fn ctrl_chars_do_not_type_into_the_search() {
    let mut app = App::new(sample_haikus());
    handle_key(&mut app, ctrl_key(KeyCode::Char('x')));
    assert!(app.browse.query.is_empty());
    assert_eq!(app.browse.matches, vec![0, 1]);
}

#[test]
fn typing_a_save_status_clears_it() {
    let mut app = App::new(Vec::new());
    goto_compose(&mut app);
    app.record_saved_haiku(haiku(
        "an old silent pond",
        "a frog jumps into the pond",
        "splash silence again",
    ));
    assert_eq!(app.compose.status, Some(ComposeStatus::Saved));
    type_str(&mut app, "a");
    assert_eq!(app.compose.status, None);
}

#[test]
fn tab_twice_restores_the_screen() {
    let mut app = App::new(sample_haikus());
    handle_key(&mut app, key(KeyCode::Tab));
    handle_key(&mut app, key(KeyCode::Tab));
    assert_eq!(app.screen, Screen::Browse);
}

#[test]
fn visible_window_keeps_the_selection_centred() {
    assert_eq!(visible_window(0, 0, 10), (0, 0));
    assert_eq!(visible_window(5, 3, 10), (0, 5));
    assert_eq!(visible_window(10, 9, 10), (0, 10));
    assert_eq!(visible_window(100, 0, 10), (0, 10));
    assert_eq!(visible_window(100, 50, 10), (45, 55));
    assert_eq!(visible_window(100, 99, 10), (90, 100));
    assert_eq!(visible_window(100, 3, 0), (3, 3));
}

#[test]
fn line_state_orders_active_done_untouched_wrong() {
    assert_eq!(line_state(true, &check_line("", 5)), LineState::Active);
    assert_eq!(line_state(false, &check_line("an old silent pond", 5)), LineState::Done);
    assert_eq!(line_state(false, &check_line("", 5)), LineState::Untouched);
    assert_eq!(line_state(false, &check_line("too short", 5)), LineState::Wrong);
}

#[test]
fn typing_narrows_within_the_old_matches() {
    let mut app = App::new(sample_haikus());
    type_str(&mut app, "s");
    assert_eq!(app.browse.matches, vec![0, 1]);
    type_str(&mut app, "il");
    assert_eq!(app.browse.matches, vec![0]);
    type_str(&mut app, "x");
    assert!(app.browse.matches.is_empty());
}

#[test]
fn search_case_does_not_matter_for_ascii_queries() {
    let mut upper = App::new(sample_haikus());
    type_str(&mut upper, "WaNtEd");
    let mut lower = App::new(sample_haikus());
    type_str(&mut lower, "wanted");
    assert_eq!(upper.browse.matches, lower.browse.matches);
    assert_eq!(upper.browse.matches, vec![1]);
}

#[test]
fn room_check_only_stops_typing() {
    let app = App::new(Vec::new());
    assert!(app.has_room_for(ctrl_key(KeyCode::Char('c'))));
    assert!(app.has_room_for(key(KeyCode::Esc)));
    assert!(app.has_room_for(char_key('a')));
}
