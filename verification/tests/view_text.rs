use pstexplorer::folder::MessageRef;
use pstexplorer::props::MessageSummary;
use pstexplorer::search::SearchResultItem;
use pstexplorer::view::{default_columns, ColumnId, Key, ViewState};

fn refs(n: u32) -> Vec<MessageRef> {
    (0..n).map(|i| MessageRef { folder: "F".to_string(), id: i }).collect()
}

fn hits(n: u32) -> Vec<SearchResultItem> {
    (0..n)
        .map(|i| SearchResultItem {
            folder_name: "F".to_string(),
            row_data: MessageSummary::placeholder(),
            row_id: i,
        })
        .collect()
}

#[test]
fn columns_at_the_start() {
    let cols = default_columns();
    let seen: Vec<(ColumnId, &str, u16, bool)> =
        cols.iter().map(|c| (c.id, c.label, c.width_percent, c.visible)).collect();
    assert_eq!(
        seen,
        vec![
            (ColumnId::From, "From", 20, true),
            (ColumnId::To, "To", 20, true),
            (ColumnId::Cc, "CC", 15, false),
            (ColumnId::Subject, "Subject", 40, true),
            (ColumnId::Date, "Date", 20, true),
        ]
    );
}

#[test]
fn status_line_names_the_keys() {
    let mut v = ViewState::new(refs(2));
    assert_eq!(
        v.status_text(),
        " [Messages] j/k: navigate  Enter/Tab: preview  /: search  Esc: clear search  q: quit"
    );
    v.handle_key(Key::Tab, 0);
    assert_eq!(
        v.status_text(),
        " [Preview] j/k: scroll  Tab: \u{2192} messages  /: search  Esc: clear search  q: quit"
    );
    v.handle_key(Key::Char('/'), 0);
    assert_eq!(v.status_text(), " [Search] type to search  Enter: run  Esc: cancel");
    v.handle_key(Key::Char('x'), 0);
    v.handle_key(Key::Enter, 1_000_000_000);
    assert_eq!(v.status_text(), " Searching\u{2026}");
    v.apply_search_results(hits(2), 5_000_000_000);
    assert_eq!(v.status_text(), "Found 2 results (4s)");
}

#[test]
fn list_title_counts_from_one() {
    let mut v = ViewState::new(refs(12));
    assert_eq!(v.list_title(), "Messages (1/12)");
    v.handle_key(Key::Down, 0);
    assert_eq!(v.list_title(), "Messages (2/12)");
    v.apply_search_results(hits(3), 0);
    assert_eq!(v.list_title(), "Search Results (1/3)");
    v.apply_search_results(Vec::new(), 0);
    assert_eq!(v.list_title(), "Search Results (0/0)");
    assert_eq!(ViewState::new(Vec::new()).list_title(), "Messages (0/0)");
}

#[test]
fn search_bar_shows_cursor_count_or_hint() {
    let mut v = ViewState::new(refs(4));
    assert_eq!(v.search_hint(), "Press / to search");
    v.handle_key(Key::Char('/'), 0);
    assert_eq!(v.search_hint(), "\u{258B}");
    v.handle_key(Key::Char('a'), 0);
    v.handle_key(Key::Esc, 0);
    assert_eq!(v.search_hint(), "");
    v.apply_search_results(hits(1), 0);
    assert_eq!(v.search_hint(), "  (1 result)");
    v.apply_search_results(hits(3), 0);
    assert_eq!(v.search_hint(), "  (3 results)");
}
