use pstexplorer::folder::MessageRef;
use pstexplorer::props::{summarize, MessageProps, PropValue};
use pstexplorer::search::SearchResultItem;
use pstexplorer::view::{found_message, scroll_end, Action, ActivePane, Key, ViewState};

fn refs(n: u32) -> Vec<MessageRef> {
    (0..n).map(|i| MessageRef { folder: format!("F{}", i / 10), id: 100 + i }).collect()
}

fn props(subject: &str, body: &str) -> MessageProps {
    MessageProps {
        subject: PropValue::Text(subject.to_string()),
        from: PropValue::Text("Alice".to_string()),
        to: PropValue::Text("Bob".to_string()),
        cc: PropValue::Absent,
        submit_time: PropValue::Time(116444736000000000),
        delivery_time: PropValue::Absent,
        body_plain: PropValue::Text(body.to_string()),
        body_html: PropValue::Absent,
        body_rtf: PropValue::Absent,
    }
}

fn hit(folder: &str, id: u32, subject: &str) -> SearchResultItem {
    SearchResultItem {
        folder_name: folder.to_string(),
        row_data: summarize(&props(subject, "")),
        row_id: id,
    }
}

const SECOND: u64 = 1_000_000_000;

fn type_text(v: &mut ViewState, text: &str) {
    for c in text.chars() {
        assert_eq!(v.handle_key(Key::Char(c), 0), Action::Idle);
    }
}

fn all_slots_empty(v: &ViewState) -> bool {
    (0..v.row_count()).all(|i| v.summary(i).is_none())
}

#[test]
fn view_starts_on_the_first_message() {
    let v = ViewState::new(refs(3));
    assert_eq!(v.row_count(), 3);
    assert_eq!(v.total_count(), 3);
    assert_eq!(v.selected(), Some(0));
    assert_eq!(v.offset(), 0);
    assert_eq!(v.list_height(), 20);
    assert_eq!(v.content(), "Select a message to view its content");
    assert_eq!(v.active_pane(), ActivePane::Messages);
    assert_eq!(v.preview_scroll(), 0);
    assert_eq!(v.status(), None);
    assert_eq!(v.search_input(), "");
    assert!(!v.search_bar_active());
    assert!(!v.search_mode());
    assert!(!v.search_pending());
    assert!(!v.should_exit());
    assert!(all_slots_empty(&v));
    assert_eq!(v.row_id(2), Some(102));
    assert_eq!(v.row_folder(2), Some("F0"));
    assert_eq!(v.row_id(3), None);
    assert_eq!(v.row_folder(3), None);
    assert_eq!(v.headers().subject, "");
}

#[test]
fn view_of_an_empty_archive() {
    let mut v = ViewState::new(Vec::new());
    assert_eq!(v.selected(), None);
    assert_eq!(v.content(), "No messages found");
    assert_eq!(v.handle_key(Key::Down, 0), Action::Idle);
    assert_eq!(v.selected(), None);
    assert_eq!(v.handle_key(Key::Up, 0), Action::Idle);
    assert_eq!(v.handle_key(Key::Enter, 0), Action::Idle);
    assert_eq!(v.active_pane(), ActivePane::Messages);
    assert!(v.rows_to_load().is_empty());
}

#[test]
fn selection_stays_within_the_list() {
    let mut v = ViewState::new(refs(3));
    assert_eq!(v.handle_key(Key::Up, 0), Action::Idle);
    assert_eq!(v.selected(), Some(0));
    assert_eq!(v.handle_key(Key::Char('k'), 0), Action::Idle);
    assert_eq!(v.selected(), Some(0));
    assert_eq!(v.handle_key(Key::Down, 0), Action::OpenMessage(1));
    assert_eq!(v.handle_key(Key::Char('j'), 0), Action::OpenMessage(2));
    assert_eq!(v.selected(), Some(2));
    for _ in 0..5 {
        assert_eq!(v.handle_key(Key::Down, 0), Action::OpenMessage(2));
        assert_eq!(v.selected(), Some(2));
    }
    assert_eq!(v.handle_key(Key::Up, 0), Action::OpenMessage(1));
    assert_eq!(v.selected(), Some(1));
}

#[test]
fn preview_scrolls_when_it_has_the_focus() {
    let mut v = ViewState::new(refs(3));
    v.show_message(0, Some(&props("s", "one\ntwo\nthree\nfour")));
    assert_eq!(v.handle_key(Key::Tab, 0), Action::Idle);
    assert_eq!(v.active_pane(), ActivePane::Preview);
    assert_eq!(v.handle_key(Key::Up, 0), Action::Idle);
    assert_eq!(v.preview_scroll(), 0);
    assert_eq!(v.handle_key(Key::Down, 0), Action::Idle);
    assert_eq!(v.handle_key(Key::Char('j'), 0), Action::Idle);
    assert_eq!(v.preview_scroll(), 2);
    assert_eq!(v.selected(), Some(0));
    assert_eq!(v.handle_key(Key::Char('k'), 0), Action::Idle);
    assert_eq!(v.preview_scroll(), 1);
    assert_eq!(v.handle_key(Key::Tab, 0), Action::Idle);
    assert_eq!(v.active_pane(), ActivePane::Messages);
}

#[test]
fn preview_scroll_stops_at_the_last_line() {
    let mut v = ViewState::new(refs(1));
    v.show_message(0, Some(&props("s", "one\ntwo\nthree\nfour")));
    v.handle_key(Key::Tab, 0);
    for _ in 0..10 {
        assert_eq!(v.handle_key(Key::Down, 0), Action::Idle);
    }
    assert_eq!(v.preview_scroll(), 3);
    v.handle_key(Key::Up, 0);
    assert_eq!(v.preview_scroll(), 2);
    v.handle_key(Key::Down, 0);
    v.handle_key(Key::Down, 0);
    assert_eq!(v.preview_scroll(), 3);
    assert_eq!(v.selected(), Some(0));
}

#[test]
fn preview_of_one_line_does_not_scroll() {
    let mut v = ViewState::new(refs(1));
    v.handle_key(Key::Tab, 0);
    v.handle_key(Key::Down, 0);
    assert_eq!(v.preview_scroll(), 0);
    v.show_message(0, Some(&props("s", "")));
    v.handle_key(Key::Down, 0);
    assert_eq!(v.preview_scroll(), 0);
    v.show_message(0, Some(&props("s", "only line\n")));
    v.handle_key(Key::Down, 0);
    assert_eq!(v.preview_scroll(), 0);
    v.show_message(0, None);
    v.handle_key(Key::Down, 0);
    assert_eq!(v.preview_scroll(), 0);
}

#[test]
fn scroll_ends_on_the_last_line() {
    assert_eq!(scroll_end(""), 0);
    assert_eq!(scroll_end("a"), 0);
    assert_eq!(scroll_end("\n"), 0);
    assert_eq!(scroll_end("a\n"), 0);
    assert_eq!(scroll_end("a\nb"), 1);
    assert_eq!(scroll_end("a\nb\n"), 1);
    assert_eq!(scroll_end("a\n\nb"), 2);
    assert_eq!(scroll_end("\n\n\n"), 2);
    assert_eq!(scroll_end("a\r\nb\u{E9}\nc"), 2);
    for text in ["", "x", "x\ny", "x\n\n", "\n", "\n\nq\n", "a\nb\nc\nd\n"] {
        let lines = text.lines().count();
        assert_eq!(usize::from(scroll_end(text)), lines.saturating_sub(1));
    }
    assert_eq!(scroll_end(&"\n".repeat(65_535)), 65_534);
    assert_eq!(scroll_end(&"\n".repeat(65_536)), 65_535);
    assert_eq!(scroll_end(&"\n".repeat(70_000)), 65_535);
}

#[test]
fn open_key_moves_the_focus_to_the_preview() {
    let mut v = ViewState::new(refs(3));
    v.handle_key(Key::Down, 0);
    assert_eq!(v.handle_key(Key::Enter, 0), Action::OpenMessage(1));
    assert_eq!(v.active_pane(), ActivePane::Preview);
}

#[test]
fn message_is_shown_with_headers_and_body() {
    let mut v = ViewState::new(refs(3));
    v.handle_key(Key::Tab, 0);
    v.handle_key(Key::Down, 0);
    let p = props("Subject line", "Body text");
    v.show_message(1, Some(&p));
    assert_eq!(v.headers().subject, "Subject line");
    assert_eq!(v.headers().from, "Alice");
    assert_eq!(v.headers().to, "Bob");
    assert_eq!(v.headers().cc, "");
    assert_eq!(v.headers().date, "1970-01-01 00:00:00 UTC");
    assert_eq!(v.content(), "Body text");
    assert_eq!(v.preview_scroll(), 0);
}

#[test]
fn message_that_cannot_be_opened_is_reported() {
    let mut v = ViewState::new(refs(3));
    v.show_message(1, Some(&props("s", "b")));
    v.show_message(2, None);
    assert_eq!(
        v.content(),
        "(This item type cannot be displayed \u{2014} not a standard email message)"
    );
    assert_eq!(v.headers().subject, "");
    assert_eq!(v.headers().from, "");
}

#[test]
fn message_past_the_list_changes_nothing() {
    let mut v = ViewState::new(refs(3));
    v.show_message(3, Some(&props("s", "b")));
    assert_eq!(v.content(), "Select a message to view its content");
    assert_eq!(v.headers().subject, "");
}

#[test]
fn quit_keys_end_the_session() {
    let mut v = ViewState::new(refs(1));
    v.handle_key(Key::Char('q'), 0);
    assert!(v.should_exit());
    let mut v = ViewState::new(refs(1));
    v.handle_key(Key::Esc, 0);
    assert!(v.should_exit());
    let mut v = ViewState::new(refs(1));
    v.handle_key(Key::Other, 0);
    v.handle_key(Key::Backspace, 0);
    v.handle_key(Key::Char('x'), 0);
    assert!(!v.should_exit());
}

#[test]
fn search_bar_takes_every_key() {
    let mut v = ViewState::new(refs(3));
    assert_eq!(v.handle_key(Key::Char('/'), 0), Action::Idle);
    assert!(v.search_bar_active());
    type_text(&mut v, "qjk/");
    assert_eq!(v.handle_key(Key::Down, 0), Action::Idle);
    assert_eq!(v.handle_key(Key::Tab, 0), Action::Idle);
    assert_eq!(v.search_input(), "qjk/");
    assert!(!v.should_exit());
    assert_eq!(v.selected(), Some(0));
    assert_eq!(v.active_pane(), ActivePane::Messages);
    v.handle_key(Key::Backspace, 0);
    assert_eq!(v.search_input(), "qjk");
    for _ in 0..5 {
        v.handle_key(Key::Backspace, 0);
    }
    assert_eq!(v.search_input(), "");
}

#[test]
fn confirmed_query_waits_for_one_redraw() {
    let mut v = ViewState::new(refs(3));
    assert_eq!(v.begin_search(), None);
    v.handle_key(Key::Char('/'), 0);
    type_text(&mut v, "Alice");
    assert_eq!(v.handle_key(Key::Enter, 0), Action::Idle);
    assert!(!v.search_bar_active());
    assert!(v.search_pending());
    assert!(!v.search_mode());
    assert_eq!(v.row_count(), 3);
    assert_eq!(v.status_text(), " Searching\u{2026}");
    assert_eq!(v.begin_search(), None);
    assert!(v.search_pending());
    v.frame_drawn();
    assert_eq!(v.begin_search(), Some("alice".to_string()));
    assert!(!v.search_pending());
    assert_eq!(v.begin_search(), None);
    v.frame_drawn();
    assert_eq!(v.begin_search(), None);
    assert_eq!(v.search_input(), "Alice");
}

#[test]
fn search_reports_the_whole_seconds_it_took() {
    let mut v = ViewState::new(refs(3));
    v.handle_key(Key::Char('/'), 0);
    type_text(&mut v, "x");
    v.handle_key(Key::Enter, 10 * SECOND + 1);
    v.frame_drawn();
    assert_eq!(v.begin_search(), Some("x".to_string()));
    v.apply_search_results(vec![hit("A", 7, "one"), hit("B", 9, "two")], 13 * SECOND + 1);
    assert_eq!(v.status(), Some("Found 2 results (3s)"));

    v.handle_key(Key::Char('/'), 20 * SECOND);
    v.handle_key(Key::Enter, 20 * SECOND);
    v.frame_drawn();
    assert_eq!(v.begin_search(), Some("x".to_string()));
    v.apply_search_results(vec![hit("A", 7, "one")], 22 * SECOND - 1);
    assert_eq!(v.status(), Some("Found 1 result (1s)"));

    v.handle_key(Key::Char('/'), 30 * SECOND);
    v.handle_key(Key::Enter, 30 * SECOND);
    v.apply_search_results(Vec::new(), 29 * SECOND);
    assert_eq!(v.status(), Some("Found 0 results (0s)"));
    v.apply_search_results(Vec::new(), 99 * SECOND);
    assert_eq!(v.status(), Some("Found 0 results (0s)"));
}

#[test]
fn search_results_replace_the_list() {
    let mut v = ViewState::new(refs(30));
    v.handle_key(Key::Down, 0);
    v.handle_key(Key::Tab, 0);
    v.handle_key(Key::Down, 0);
    v.set_viewport(4, 9);
    let action = v.apply_search_results(vec![hit("A", 7, "one"), hit("B", 9, "two")], 3);
    assert_eq!(action, Action::OpenMessage(0));
    assert!(v.search_mode());
    assert_eq!(v.row_count(), 2);
    assert_eq!(v.total_count(), 30);
    assert_eq!(v.selected(), Some(0));
    assert_eq!(v.offset(), 0);
    assert_eq!(v.list_height(), 9);
    assert_eq!(v.active_pane(), ActivePane::Messages);
    assert_eq!(v.preview_scroll(), 0);
    assert_eq!(v.status(), Some("Found 2 results (0s)"));
    assert_eq!(v.row_id(0), Some(7));
    assert_eq!(v.row_id(1), Some(9));
    assert_eq!(v.row_folder(1), Some("B"));
    assert_eq!(v.summary(0).unwrap().subject, "one");
    assert_eq!(v.summary(1).unwrap().subject, "two");
    assert!(v.rows_to_load().is_empty());
    assert_eq!(v.handle_key(Key::Down, 0), Action::OpenMessage(1));
    assert_eq!(v.handle_key(Key::Down, 0), Action::OpenMessage(1));
    assert_eq!(v.status(), None);
}

#[test]
fn search_without_results_selects_nothing() {
    let mut v = ViewState::new(refs(3));
    v.show_message(0, Some(&props("s", "b")));
    let action = v.apply_search_results(Vec::new(), 0);
    assert_eq!(action, Action::Idle);
    assert_eq!(v.row_count(), 0);
    assert_eq!(v.selected(), None);
    assert_eq!(v.content(), "No messages match the search query");
    assert_eq!(v.headers().subject, "");
    assert_eq!(v.status(), Some("Found 0 results (0s)"));
}

#[test]
fn status_line_of_a_search() {
    assert_eq!(found_message(1, 0), "Found 1 result (0s)");
    assert_eq!(found_message(0, 12), "Found 0 results (12s)");
    assert_eq!(found_message(1500, 3), "Found 1500 results (3s)");
}

#[test]
fn switching_the_source_resets_selection_and_slots() {
    let mut v = ViewState::new(refs(30));
    v.handle_key(Key::Down, 0);
    v.handle_key(Key::Down, 0);
    v.load_visible_rows(&vec![Some(props("a", "")), Some(props("b", ""))]);
    assert!(!all_slots_empty(&v));
    v.apply_search_results(vec![hit("A", 7, "one")], 1);
    assert_eq!(v.selected(), Some(0));
    assert_eq!(v.row_count(), 1);
    v.restore_all_messages();
    assert_eq!(v.row_count(), 30);
    assert_eq!(v.selected(), Some(0));
    assert!(all_slots_empty(&v));
    assert!(!v.search_mode());
    assert_eq!(v.search_input(), "");
    assert_eq!(v.content(), "Select a message to view its content");
    assert_eq!(v.row_id(29), Some(129));

    let mut e = ViewState::new(Vec::new());
    e.apply_search_results(Vec::new(), 0);
    assert_eq!(e.selected(), None);
    e.restore_all_messages();
    assert_eq!(e.selected(), None);
    assert_eq!(e.row_count(), 0);
}

#[test]
fn clear_key_restores_all_messages() {
    let mut v = ViewState::new(refs(5));
    v.apply_search_results(vec![hit("A", 7, "one")], 1);
    assert_eq!(v.handle_key(Key::Esc, 0), Action::Idle);
    assert!(!v.should_exit());
    assert!(!v.search_mode());
    assert_eq!(v.row_count(), 5);
    assert_eq!(v.selected(), Some(0));
    assert!(all_slots_empty(&v));
}

#[test]
fn empty_confirm_restores_all_messages() {
    let mut v = ViewState::new(refs(5));
    v.handle_key(Key::Char('/'), 0);
    type_text(&mut v, "ab");
    v.handle_key(Key::Enter, 0);
    v.frame_drawn();
    v.begin_search();
    v.apply_search_results(vec![hit("A", 7, "one"), hit("A", 8, "two")], 1);
    v.handle_key(Key::Down, 0);
    v.handle_key(Key::Char('/'), 0);
    v.handle_key(Key::Backspace, 0);
    v.handle_key(Key::Backspace, 0);
    assert_eq!(v.handle_key(Key::Enter, 0), Action::Idle);
    assert!(!v.search_bar_active());
    assert!(!v.search_pending());
    assert!(!v.search_mode());
    assert_eq!(v.row_count(), 5);
    assert_eq!(v.selected(), Some(0));
    assert!(all_slots_empty(&v));
    assert_eq!(v.content(), "Select a message to view its content");
}

#[test]
fn empty_confirm_and_empty_cancel_agree() {
    let mut a = ViewState::new(refs(5));
    a.handle_key(Key::Down, 0);
    a.show_message(1, Some(&props("s", "b")));
    a.apply_search_results(vec![hit("A", 7, "one"), hit("A", 8, "two")], 2);
    a.handle_key(Key::Down, 0);
    a.handle_key(Key::Char('/'), 0);
    a.handle_key(Key::Enter, 0);
    let mut b = ViewState::new(refs(5));
    b.handle_key(Key::Down, 0);
    b.show_message(1, Some(&props("s", "b")));
    b.apply_search_results(vec![hit("A", 7, "one"), hit("A", 8, "two")], 2);
    b.handle_key(Key::Down, 0);
    b.handle_key(Key::Char('/'), 0);
    b.handle_key(Key::Esc, 0);
    assert_eq!(a.headers().subject, b.headers().subject);
    assert_eq!(a.active_pane(), b.active_pane());
    assert_eq!(a.status(), b.status());
    for v in [&a, &b] {
        assert!(!v.search_bar_active());
        assert!(!v.search_mode());
        assert!(!v.search_pending());
        assert_eq!(v.row_count(), 5);
        assert_eq!(v.selected(), Some(0));
        assert_eq!(v.search_input(), "");
        assert_eq!(v.content(), "Select a message to view its content");
        assert!(all_slots_empty(v));
    }
}

#[test]
fn cancel_keeps_the_query_and_the_list() {
    let mut v = ViewState::new(refs(5));
    v.apply_search_results(vec![hit("A", 7, "one")], 1);
    v.handle_key(Key::Char('/'), 0);
    type_text(&mut v, "x");
    v.handle_key(Key::Esc, 0);
    assert!(!v.search_bar_active());
    assert!(v.search_mode());
    assert!(!v.search_pending());
    assert_eq!(v.row_count(), 1);
    assert_eq!(v.search_input(), "x");
}

#[test]
fn cancel_with_an_empty_query_restores_all_messages() {
    let mut v = ViewState::new(refs(5));
    v.apply_search_results(vec![hit("A", 7, "one")], 1);
    v.handle_key(Key::Char('/'), 0);
    assert_eq!(v.handle_key(Key::Esc, 0), Action::Idle);
    assert!(!v.search_bar_active());
    assert!(!v.search_mode());
    assert_eq!(v.row_count(), 5);
    assert_eq!(v.selected(), Some(0));
    assert!(all_slots_empty(&v));
    assert_eq!(v.content(), "Select a message to view its content");
}

#[test]
fn visible_window_is_loaded() {
    let mut v = ViewState::new(refs(40));
    v.set_viewport(10, 2);
    assert_eq!(v.rows_to_load(), vec![10, 11, 12, 13, 14, 15, 16]);
    let fetched: Vec<Option<MessageProps>> = vec![
        Some(props("r10", "")),
        None,
        Some(props("r12", "")),
        Some(props("r13", "")),
        Some(props("r14", "")),
        Some(props("r15", "")),
        Some(props("r16", "")),
    ];
    v.load_visible_rows(&fetched);
    for i in 0..40 {
        let row = v.summary(i);
        if (10..17).contains(&i) {
            let expected = if i == 11 { "(no subject)".to_string() } else { format!("r{}", i) };
            assert_eq!(row.unwrap().subject, expected);
        } else {
            assert!(row.is_none());
        }
    }
    assert!(v.rows_to_load().is_empty());
    v.load_visible_rows(&Vec::new());
    assert_eq!(v.summary(11).unwrap().subject, "(no subject)");
    assert!(v.summary(17).is_none());
}

#[test]
fn any_key_clears_the_status_line() {
    let mut v = ViewState::new(refs(5));
    v.apply_search_results(vec![hit("A", 7, "one")], 1);
    assert_eq!(v.status(), Some("Found 1 result (0s)"));
    v.handle_key(Key::Other, 0);
    assert_eq!(v.status(), None);
}

#[test]
fn control_characters_do_not_enter_the_query() {
    let mut v = ViewState::new(refs(3));
    v.handle_key(Key::Char('/'), 0);
    type_text(&mut v, "a\u{7}b\u{1B}\n\tc\u{7F}\u{9F}d \u{A0}\u{E9}");
    assert_eq!(v.search_input(), "abcd \u{A0}\u{E9}");
}

#[test]
fn keys_are_not_taken_while_a_search_waits() {
    let mut v = ViewState::new(refs(5));
    v.handle_key(Key::Char('/'), 0);
    type_text(&mut v, "x");
    v.handle_key(Key::Enter, 5);
    assert!(v.search_pending());
    for key in [Key::Char('/'), Key::Backspace, Key::Down, Key::Char('q'), Key::Esc, Key::Tab] {
        assert_eq!(v.handle_key(key, 6), Action::Idle);
    }
    assert!(v.search_pending());
    assert!(!v.search_bar_active());
    assert!(!v.should_exit());
    assert_eq!(v.search_input(), "x");
    assert_eq!(v.selected(), Some(0));
    assert_eq!(v.active_pane(), ActivePane::Messages);
    assert_eq!(v.status_text(), " Searching\u{2026}");
    v.frame_drawn();
    assert_eq!(v.begin_search(), Some("x".to_string()));
    assert!(!v.search_pending());
    assert_eq!(v.handle_key(Key::Down, 7), Action::OpenMessage(1));
}

#[test]
fn restoring_drops_a_search_that_waits() {
    let mut v = ViewState::new(refs(5));
    v.handle_key(Key::Char('/'), 0);
    type_text(&mut v, "x");
    v.handle_key(Key::Enter, 5);
    v.restore_all_messages();
    assert!(!v.search_pending());
    assert_eq!(v.search_input(), "");
    v.frame_drawn();
    assert_eq!(v.begin_search(), None);
}

#[test]
fn results_put_in_view_end_the_wait() {
    let mut v = ViewState::new(refs(5));
    v.handle_key(Key::Char('/'), 0);
    type_text(&mut v, "x");
    v.handle_key(Key::Enter, 5);
    v.apply_search_results(vec![hit("A", 7, "one")], 6);
    assert!(!v.search_pending());
    assert!(v.search_mode());
    assert_eq!(v.selected(), Some(0));
    assert_eq!(v.row_count(), 1);
    v.frame_drawn();
    assert_eq!(v.begin_search(), None);
}
