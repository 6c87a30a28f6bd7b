//! The state of the two-pane view and its transitions.
//!
//! The view shows one list of messages at a time, either all messages of
//! the archive or the results of a search, and a preview of the selected
//! message. Every transition is a function from the state before to the
//! state after; what needs the store (opening a message, running a search)
//! is handed back to the caller as an action, and its outcome is fed in
//! through a transition of its own.

use crate::body::{display_text, resolve};
use crate::date::{decimal, decimal_string};
use crate::folder::{copy_refs, refs_of, MessageRef, RefModel};
use crate::props::{
    empty_summary, fetched_view, fetched_views, summarize, summary_of, MessageProps,
    MessagePropsModel, MessageSummary, SummaryModel,
};
use crate::rows::{loaded, missing, window_end, RowWindowCache};
use crate::search::{hits_of, normalize_query, HitModel, SearchResultItem};
use crate::text::{is_control, is_control_char, lowered, str_chars};
use vstd::prelude::*;
use vstd::string::StringExecFns;

verus! {

/// The pane that navigation keys act on.
#[derive(Clone, Copy, Debug, PartialEq, Eq, Structural)]
pub enum ActivePane {
    Messages,
    Preview,
}

/// A key press.
#[derive(Clone, Copy, Debug)]
pub enum Key {
    Char(char),
    Enter,
    Tab,
    Esc,
    Up,
    Down,
    Backspace,
    Other,
}

/// What the caller has to do after a transition.
#[derive(Clone, Copy, Debug, PartialEq, Eq, Structural)]
pub enum Action {
    /// Nothing.
    Idle,
    /// Open the message in this row and hand it to `show_message`.
    OpenMessage(usize),
}

/// The state of the view as a mathematical value.
pub struct ViewModel {
    pub exit: bool,
    /// Every message of the archive.
    pub all_rows: Seq<RefModel>,
    /// The rows of the list in view.
    pub rows: Seq<RefModel>,
    /// The summary slots of the rows in view.
    pub cache: Seq<Option<SummaryModel>>,
    pub selected: Option<int>,
    /// The first visible row.
    pub offset: int,
    /// The number of visible rows.
    pub list_height: int,
    /// The text of the preview pane.
    pub content: Seq<char>,
    /// The header fields of the preview pane.
    pub headers: SummaryModel,
    pub pane: ActivePane,
    pub preview_scroll: int,
    pub status: Option<Seq<char>>,
    pub search_input: Seq<char>,
    /// Whether the search bar takes the keys.
    pub search_bar_active: bool,
    /// Whether the list shows search results.
    pub search_mode: bool,
    /// Whether a search waits to be run.
    pub search_pending: bool,
    /// Whether the view was drawn since the waiting search was asked for.
    pub search_shown: bool,
    /// When the last search was asked for, in nanoseconds on the clock of
    /// the caller.
    pub search_start: Option<int>,
}

/// The selection names a row of the list in view, every row has its slot,
/// the list in view is that of all messages unless search results are
/// shown, the query holds no control character, a search that waits has a
/// query, and the preview is not scrolled past the last line of its text.
pub open spec fn model_wf(m: ViewModel) -> bool {
    &&& m.cache.len() == m.rows.len()
    &&& (!m.search_mode ==> m.rows == m.all_rows)
    &&& printable(m.search_input)
    &&& (m.search_pending ==> m.search_input.len() > 0)
    &&& (m.selected matches Some(i) ==> 0 <= i < m.rows.len())
    &&& 0 <= m.preview_scroll <= scroll_limit(m.content)
    &&& 0 <= m.offset <= usize::MAX
    &&& 0 <= m.list_height <= usize::MAX
    &&& (m.search_start matches Some(t) ==> 0 <= t <= u64::MAX)
}

/// The number of line feeds among the first `n` characters of `s`.
pub open spec fn feeds_before(s: Seq<char>, n: int) -> nat
    decreases n,
{
    if n <= 0 {
        0
    } else if s[n - 1] == '\n' {
        feeds_before(s, n - 1) + 1
    } else {
        feeds_before(s, n - 1)
    }
}

/// The index of the last line of `s`, counted from 0. The lines end at
/// each line feed, and a line feed at the very end begins no line. A text
/// without characters has the one line 0.
pub open spec fn last_line(s: Seq<char>) -> nat {
    feeds_before(s, s.len() - 1)
}

/// The farthest that the preview of `content` can be scrolled: to its
/// last line, and no farther than the offset can count.
pub open spec fn scroll_limit(content: Seq<char>) -> int {
    if last_line(content) < u16::MAX {
        last_line(content) as int
    } else {
        u16::MAX as int
    }
}

/// Whether `s` holds no control character.
pub open spec fn printable(s: Seq<char>) -> bool {
    forall|i: int| 0 <= i < s.len() ==> !is_control(#[trigger] s[i])
}

/// The selection of a list that was just put in view: its first row, or
/// none where it has no rows.
pub open spec fn first_row(n: nat) -> Option<int> {
    if n > 0 {
        Some(0)
    } else {
        None
    }
}

/// `n` slots, all of them empty.
pub open spec fn unpopulated(n: nat) -> Seq<Option<SummaryModel>> {
    Seq::new(n, |i: int| None::<SummaryModel>)
}

/// The state at the start, over the messages of the archive.
pub open spec fn initial(all_rows: Seq<RefModel>) -> ViewModel {
    ViewModel {
        exit: false,
        all_rows,
        rows: all_rows,
        cache: unpopulated(all_rows.len()),
        selected: first_row(all_rows.len()),
        offset: 0,
        list_height: 20,
        content: if all_rows.len() == 0 {
            "No messages found"@
        } else {
            "Select a message to view its content"@
        },
        headers: empty_summary(),
        pane: ActivePane::Messages,
        preview_scroll: 0,
        status: None,
        search_input: Seq::empty(),
        search_bar_active: false,
        search_mode: false,
        search_pending: false,
        search_shown: false,
        search_start: None,
    }
}

/// The state after the list of all messages was put back in view: the
/// query is cleared, and with it a search that waited for it.
pub open spec fn restored(m: ViewModel) -> ViewModel {
    ViewModel {
        rows: m.all_rows,
        cache: unpopulated(m.all_rows.len()),
        search_mode: false,
        search_input: Seq::empty(),
        search_pending: false,
        search_shown: false,
        selected: first_row(m.all_rows.len()),
        offset: 0,
        headers: empty_summary(),
        content: "Select a message to view its content"@,
        preview_scroll: 0,
        ..m
    }
}

/// The row that a step down selects.
pub open spec fn next_index(m: ViewModel) -> int {
    match m.selected {
        Some(i) => if i + 1 < m.rows.len() {
            i + 1
        } else {
            m.rows.len() - 1
        },
        None => 0,
    }
}

/// The state after a step down in the pane that has the focus: the
/// selection moves to the next row and stays on the last one; the preview
/// scrolls by one line and stays on the last line of its text.
pub open spec fn moved_down(m: ViewModel) -> ViewModel {
    match m.pane {
        ActivePane::Messages => if m.rows.len() > 0 {
            ViewModel { selected: Some(next_index(m)), ..m }
        } else {
            m
        },
        ActivePane::Preview => ViewModel {
            preview_scroll: if m.preview_scroll + 1 < scroll_limit(m.content) {
                m.preview_scroll + 1
            } else {
                scroll_limit(m.content)
            },
            ..m
        },
    }
}

/// The state after a step up in the pane that has the focus.
pub open spec fn moved_up(m: ViewModel) -> ViewModel {
    match m.pane {
        ActivePane::Messages => match m.selected {
            Some(i) => if i > 0 {
                ViewModel { selected: Some(i - 1), ..m }
            } else {
                m
            },
            None => m,
        },
        ActivePane::Preview => ViewModel {
            preview_scroll: if m.preview_scroll > 0 {
                m.preview_scroll - 1
            } else {
                m.preview_scroll
            },
            ..m
        },
    }
}

/// The state after a key that the search bar takes. A character that is
/// no control character is added to the query and the backspace key takes
/// the last one away. The confirm key leaves the bar and, with a query,
/// lets a search wait for the next redraw. The cancel key leaves the bar
/// and schedules nothing. Either of the two, without a query, puts all
/// messages back in view. `now` is the time of the key press.
pub open spec fn bar_key(m: ViewModel, key: Key, now: int) -> ViewModel {
    match key {
        Key::Esc => if m.search_input.len() > 0 {
            ViewModel { search_bar_active: false, ..m }
        } else {
            restored(ViewModel { search_bar_active: false, ..m })
        },
        Key::Enter => if m.search_input.len() > 0 {
            ViewModel {
                search_bar_active: false,
                search_pending: true,
                search_shown: false,
                search_start: Some(now),
                ..m
            }
        } else {
            restored(ViewModel { search_bar_active: false, ..m })
        },
        Key::Backspace => if m.search_input.len() > 0 {
            ViewModel { search_input: m.search_input.drop_last(), ..m }
        } else {
            m
        },
        Key::Char(c) => if is_control(c) {
            m
        } else {
            ViewModel { search_input: m.search_input.push(c), ..m }
        },
        _ => m,
    }
}

/// The state after a key that the panes take: `q` ends the session, `/`
/// opens the search bar, `j` and `k` and the arrow keys step down and up in
/// the pane that has the focus, the tab key moves the focus to the other
/// pane, the open key moves it to the preview where a message is selected,
/// and the clear key puts all messages back in view while search results
/// are shown, and ends the session otherwise.
pub open spec fn pane_key(m: ViewModel, key: Key) -> ViewModel {
    match key {
        Key::Char(c) => if c == 'q' {
            ViewModel { exit: true, ..m }
        } else if c == '/' {
            ViewModel { search_bar_active: true, ..m }
        } else if c == 'j' {
            moved_down(m)
        } else if c == 'k' {
            moved_up(m)
        } else {
            m
        },
        Key::Down => moved_down(m),
        Key::Up => moved_up(m),
        Key::Esc => if m.search_mode {
            restored(m)
        } else {
            ViewModel { exit: true, ..m }
        },
        Key::Tab => ViewModel {
            pane: match m.pane {
                ActivePane::Messages => ActivePane::Preview,
                ActivePane::Preview => ActivePane::Messages,
            },
            ..m
        },
        Key::Enter => if m.selected is Some {
            ViewModel { pane: ActivePane::Preview, ..m }
        } else {
            m
        },
        _ => m,
    }
}

/// The state after a key press at the time `now`. While a search waits
/// to be run no key is taken. Else every key clears the status line, and
/// the search bar takes every key while it is active.
pub open spec fn key_step(m: ViewModel, key: Key, now: int) -> ViewModel {
    let cleared = ViewModel { status: None, ..m };
    if m.search_pending {
        m
    } else if m.search_bar_active {
        bar_key(cleared, key, now)
    } else {
        pane_key(cleared, key)
    }
}

/// Whether `key` is a step down.
pub open spec fn is_down(key: Key) -> bool {
    key is Down || key == Key::Char('j')
}

/// Whether `key` is a step up.
pub open spec fn is_up(key: Key) -> bool {
    key is Up || key == Key::Char('k')
}

/// What the caller has to do after a key press: open the message that a
/// step in the list, or the open key, selected.
pub open spec fn key_action(m: ViewModel, key: Key) -> Action {
    if m.search_pending || m.search_bar_active {
        Action::Idle
    } else if is_down(key) && m.pane is Messages && m.rows.len() > 0 {
        Action::OpenMessage(next_index(m) as usize)
    } else if is_up(key) && m.pane is Messages && m.selected is Some && m.selected->0 > 0 {
        Action::OpenMessage((m.selected->0 - 1) as usize)
    } else if key is Enter && m.selected is Some {
        Action::OpenMessage(m.selected->0 as usize)
    } else {
        Action::Idle
    }
}

/// The state after the view was drawn: a search that waits has now been
/// on the screen.
pub open spec fn drawn(m: ViewModel) -> ViewModel {
    if m.search_pending {
        ViewModel { search_shown: true, ..m }
    } else {
        m
    }
}

/// Whether the search that waits can be run: the view was drawn since it
/// was asked for.
pub open spec fn search_ready(m: ViewModel) -> bool {
    m.search_pending && m.search_shown
}

/// The state after the search that was waiting has been taken up, where it
/// can be run.
pub open spec fn search_begun(m: ViewModel) -> ViewModel {
    if search_ready(m) {
        ViewModel { search_pending: false, search_shown: false, ..m }
    } else {
        m
    }
}

/// Nanoseconds in a second.
pub const NANOS_PER_SEC: u64 = 1_000_000_000;

/// The whole seconds from `start` to `now`; none where the clock stands
/// before `start` or no start was taken.
pub open spec fn elapsed_secs(start: Option<int>, now: int) -> nat {
    match start {
        Some(t) => if now >= t {
            ((now - t) / (NANOS_PER_SEC as int)) as nat
        } else {
            0
        },
        None => 0,
    }
}

/// The line that reports a finished search.
pub open spec fn found_text(n: nat, elapsed: nat) -> Seq<char> {
    "Found "@ + decimal(n) + (if n == 1 {
        " result ("@
    } else {
        " results ("@
    }) + decimal(elapsed) + "s)"@
}

/// The state after a search has finished with `hits` at the time `now`.
pub open spec fn search_applied(m: ViewModel, hits: Seq<HitModel>, now: int) -> ViewModel {
    ViewModel {
        search_mode: true,
        rows: Seq::new(hits.len(), |i: int| RefModel { folder: hits[i].folder, id: hits[i].id }),
        cache: Seq::new(hits.len(), |i: int| Some(hits[i].row)),
        selected: first_row(hits.len()),
        offset: 0,
        headers: if hits.len() > 0 {
            m.headers
        } else {
            empty_summary()
        },
        content: if hits.len() > 0 {
            m.content
        } else {
            "No messages match the search query"@
        },
        preview_scroll: 0,
        pane: ActivePane::Messages,
        status: Some(found_text(hits.len(), elapsed_secs(m.search_start, now))),
        search_start: None,
        search_pending: false,
        search_shown: false,
        ..m
    }
}

/// The state after the message in row `index` was asked for and the store
/// gave `fetched`. An index past the list changes nothing.
pub open spec fn message_shown(m: ViewModel, index: int, fetched: Option<MessagePropsModel>) -> ViewModel {
    if 0 <= index < m.rows.len() {
        match fetched {
            Some(p) => ViewModel {
                headers: summary_of(p),
                content: display_text(p),
                preview_scroll: 0,
                ..m
            },
            None => ViewModel {
                headers: empty_summary(),
                content: "(This item type cannot be displayed \u{2014} not a standard email message)"@,
                preview_scroll: 0,
                ..m
            },
        }
    } else {
        m
    }
}

/// The state after the visible window was loaded.
pub open spec fn window_loaded(m: ViewModel, fetched: Seq<Option<MessagePropsModel>>) -> ViewModel {
    ViewModel { cache: loaded(m.cache, m.offset, m.list_height, fetched), ..m }
}

/// The state after `key` was pressed `n` times.
pub open spec fn key_steps(m: ViewModel, key: Key, now: int, n: nat) -> ViewModel
    decreases n,
{
    if n == 0 {
        m
    } else {
        key_step(key_steps(m, key, now, (n - 1) as nat), key, now)
    }
}

/// The text of the status line: the status message where there is one,
/// else a note while a search waits to be run, else the keys of the search
/// bar or of the pane that has the focus.
pub open spec fn status_line(m: ViewModel) -> Seq<char> {
    match m.status {
        Some(s) => s,
        None => if m.search_pending {
            " Searching\u{2026}"@
        } else if m.search_bar_active {
            " [Search] type to search  Enter: run  Esc: cancel"@
        } else {
            match m.pane {
                ActivePane::Messages => " [Messages] j/k: navigate  Enter/Tab: preview  /: search  Esc: clear search  q: quit"@,
                ActivePane::Preview => " [Preview] j/k: scroll  Tab: \u{2192} messages  /: search  Esc: clear search  q: quit"@,
            }
        },
    }
}

/// The title of the list: what it shows, the number of the selected row
/// counted from one (zero without a selection) and the number of rows.
pub open spec fn list_heading(m: ViewModel) -> Seq<char> {
    (if m.search_mode {
        "Search Results ("@
    } else {
        "Messages ("@
    }) + decimal(
        match m.selected {
            Some(i) => (i + 1) as nat,
            None => 0,
        },
    ) + "/"@ + decimal(m.rows.len()) + ")"@
}

/// What stands behind the query in the search bar: a cursor while the bar
/// takes the keys, else the number of results while they are shown, else a
/// hint while there is no query.
pub open spec fn search_note(m: ViewModel) -> Seq<char> {
    if m.search_bar_active {
        "\u{258B}"@
    } else if m.search_mode {
        "  ("@ + decimal(m.rows.len()) + (if m.rows.len() == 1 {
            " result)"@
        } else {
            " results)"@
        })
    } else if m.search_input.len() == 0 {
        "Press / to search"@
    } else {
        Seq::empty()
    }
}

/// The columns of the message list.
#[derive(Clone, Copy, Debug, PartialEq, Eq, Structural)]
pub enum ColumnId {
    From,
    To,
    Cc,
    Subject,
    Date,
}

/// How one column of the message list is shown.
#[derive(Clone, Copy, Debug)]
pub struct ColumnConfig {
    pub id: ColumnId,
    pub label: &'static str,
    /// The width in hundredths of the width of the list.
    pub width_percent: u16,
    pub visible: bool,
}

/// The columns of the message list at the start: sender, recipients,
/// subject and date are shown, the copy recipients are not.
pub fn default_columns() -> (r: Vec<ColumnConfig>)
    ensures
        r@.len() == 5,
        r@[0].id == ColumnId::From && r@[0].label@ == "From"@ && r@[0].width_percent == 20
            && r@[0].visible,
        r@[1].id == ColumnId::To && r@[1].label@ == "To"@ && r@[1].width_percent == 20
            && r@[1].visible,
        r@[2].id == ColumnId::Cc && r@[2].label@ == "CC"@ && r@[2].width_percent == 15
            && !r@[2].visible,
        r@[3].id == ColumnId::Subject && r@[3].label@ == "Subject"@ && r@[3].width_percent == 40
            && r@[3].visible,
        r@[4].id == ColumnId::Date && r@[4].label@ == "Date"@ && r@[4].width_percent == 20
            && r@[4].visible,
{
    let mut r: Vec<ColumnConfig> = Vec::new();
    r.push(ColumnConfig { id: ColumnId::From, label: "From", width_percent: 20, visible: true });
    r.push(ColumnConfig { id: ColumnId::To, label: "To", width_percent: 20, visible: true });
    r.push(ColumnConfig { id: ColumnId::Cc, label: "CC", width_percent: 15, visible: false });
    r.push(ColumnConfig { id: ColumnId::Subject, label: "Subject", width_percent: 40, visible: true });
    r.push(ColumnConfig { id: ColumnId::Date, label: "Date", width_percent: 20, visible: true });
    r
}

/// The state of the view.
pub struct ViewState {
    exit: bool,
    all_rows: Vec<MessageRef>,
    rows: Vec<MessageRef>,
    cache: RowWindowCache,
    selected: Option<usize>,
    offset: usize,
    list_height: usize,
    content: String,
    headers: MessageSummary,
    pane: ActivePane,
    preview_scroll: u16,
    status: Option<String>,
    search_input: String,
    search_bar_active: bool,
    search_mode: bool,
    search_pending: bool,
    search_shown: bool,
    search_start: Option<u64>,
}

impl View for ViewState {
    type V = ViewModel;

    closed spec fn view(&self) -> ViewModel {
        ViewModel {
            exit: self.exit,
            all_rows: refs_of(self.all_rows@),
            rows: refs_of(self.rows@),
            cache: self.cache@,
            selected: match self.selected {
                Some(i) => Some(i as int),
                None => None,
            },
            offset: self.offset as int,
            list_height: self.list_height as int,
            content: self.content@,
            headers: self.headers@,
            pane: self.pane,
            preview_scroll: self.preview_scroll as int,
            status: match self.status {
                Some(s) => Some(s@),
                None => None,
            },
            search_input: self.search_input@,
            search_bar_active: self.search_bar_active,
            search_mode: self.search_mode,
            search_pending: self.search_pending,
            search_shown: self.search_shown,
            search_start: match self.search_start {
                Some(t) => Some(t as int),
                None => None,
            },
        }
    }
}

/// The rows and the filled slots that a list of search results stands for.
fn split_results(results: Vec<SearchResultItem>) -> (r: (Vec<MessageRef>, RowWindowCache))
    ensures
        refs_of(r.0@) == Seq::new(
            results@.len(),
            |i: int| (RefModel { folder: hits_of(results@)[i].folder, id: hits_of(results@)[i].id }),
        ),
        r.1@ == Seq::new(results@.len(), |i: int| Some(hits_of(results@)[i].row)),
{
    let mut rows: Vec<MessageRef> = Vec::new();
    let mut summaries: Vec<MessageSummary> = Vec::new();
    let mut i: usize = 0;
    while i < results.len()
        invariant
            i <= results@.len(),
            rows@.len() == i,
            summaries@.len() == i,
            forall|j: int|
                0 <= j < i ==> (#[trigger] rows@[j])@ == (RefModel {
                    folder: results@[j].folder_name@,
                    id: results@[j].row_id,
                }),
            forall|j: int| 0 <= j < i ==> (#[trigger] summaries@[j])@ == results@[j].row_data@,
        decreases results.len() - i,
    {
        rows.push(MessageRef { folder: results[i].folder_name.clone(), id: results[i].row_id });
        summaries.push(results[i].row_data.copy());
        i += 1;
    }
    let cache = RowWindowCache::filled(summaries);
    proof {
        assert(refs_of(rows@) =~= Seq::new(
            results@.len(),
            |i: int| (RefModel { folder: hits_of(results@)[i].folder, id: hits_of(results@)[i].id }),
        ));
        assert(cache@ =~= Seq::new(results@.len(), |i: int| Some(hits_of(results@)[i].row)));
    }
    (rows, cache)
}

/// The farthest that the preview of `content` can be scrolled.
pub fn scroll_end(content: &str) -> (r: u16)
    ensures
        r == scroll_limit(content@),
{
    let v = str_chars(content);
    if v.len() == 0 {
        return 0;
    }
    let end: usize = v.len() - 1;
    let mut lines: u16 = 0;
    let mut i: usize = 0;
    while i < end
        invariant
            i <= end,
            end == v@.len() - 1,
            lines < u16::MAX ==> lines == feeds_before(v@, i as int),
            lines == u16::MAX ==> feeds_before(v@, i as int) >= u16::MAX,
        decreases end - i,
    {
        if v[i] == '\n' && lines < u16::MAX {
            lines = lines + 1;
        }
        i += 1;
    }
    lines
}

/// The line that reports a finished search.
pub fn found_message(n: usize, elapsed: u64) -> (s: String)
    ensures
        s@ == found_text(n as nat, elapsed as nat),
{
    let mut s: String = "Found ".to_owned();
    let count = decimal_string(n as u64);
    s.append(count.as_str());
    if n == 1 {
        s.append(" result (");
    } else {
        s.append(" results (");
    }
    let secs = decimal_string(elapsed);
    s.append(secs.as_str());
    s.append("s)");
    s
}

impl ViewState {
    /// The state is one that the transitions can reach.
    pub open spec fn wf(&self) -> bool {
        model_wf(self@)
    }

    /// The view at the start, over all messages of the archive.
    pub fn new(all_rows: Vec<MessageRef>) -> (r: ViewState)
        ensures
            r.wf(),
            r@ == initial(refs_of(all_rows@)),
    {
        let n: usize = all_rows.len();
        let rows = copy_refs(&all_rows);
        let r = ViewState {
            exit: false,
            all_rows,
            rows,
            cache: RowWindowCache::new(n),
            selected: if n > 0 {
                Some(0)
            } else {
                None
            },
            offset: 0,
            list_height: 20,
            content: if n == 0 {
                "No messages found".to_owned()
            } else {
                "Select a message to view its content".to_owned()
            },
            headers: MessageSummary::empty(),
            pane: ActivePane::Messages,
            preview_scroll: 0,
            status: None,
            search_input: String::new(),
            search_bar_active: false,
            search_mode: false,
            search_pending: false,
            search_shown: false,
            search_start: None,
        };
        proof {
            assert(r@.cache =~= unpopulated(refs_of(all_rows@).len()));
        }
        r
    }

    /// Puts the list of all messages back in view: the slots are emptied,
    /// the first row is selected, the query and the preview are cleared.
    pub fn restore_all_messages(&mut self)
        ensures
            final(self)@ == restored(old(self)@),
            final(self).wf(),
    {
        let n: usize = self.all_rows.len();
        self.rows = copy_refs(&self.all_rows);
        self.cache = RowWindowCache::new(n);
        self.search_mode = false;
        self.search_input = String::new();
        self.search_pending = false;
        self.search_shown = false;
        self.selected = if n > 0 {
            Some(0)
        } else {
            None
        };
        self.offset = 0;
        self.headers = MessageSummary::empty();
        self.content = "Select a message to view its content".to_owned();
        self.preview_scroll = 0;
        proof {
            assert(self@.cache =~= unpopulated(old(self)@.all_rows.len()));
        }
    }

    fn move_down(&mut self) -> (action: Action)
        requires
            old(self).wf(),
        ensures
            final(self)@ == moved_down(old(self)@),
            final(self).wf(),
            action == (if old(self)@.pane is Messages && old(self)@.rows.len() > 0 {
                Action::OpenMessage(next_index(old(self)@) as usize)
            } else {
                Action::Idle
            }),
    {
        match self.pane {
            ActivePane::Messages => {
                let n: usize = self.rows.len();
                if n > 0 {
                    let next: usize = match self.selected {
                        Some(i) => if i + 1 < n {
                            i + 1
                        } else {
                            n - 1
                        },
                        None => 0,
                    };
                    self.selected = Some(next);
                    Action::OpenMessage(next)
                } else {
                    Action::Idle
                }
            },
            ActivePane::Preview => {
                let limit: u16 = scroll_end(self.content.as_str());
                if self.preview_scroll < limit {
                    self.preview_scroll = self.preview_scroll + 1;
                } else {
                    self.preview_scroll = limit;
                }
                Action::Idle
            },
        }
    }

    fn move_up(&mut self) -> (action: Action)
        requires
            old(self).wf(),
        ensures
            final(self)@ == moved_up(old(self)@),
            final(self).wf(),
            action == (if old(self)@.pane is Messages && old(self)@.selected is Some && old(
                self,
            )@.selected->0 > 0 {
                Action::OpenMessage((old(self)@.selected->0 - 1) as usize)
            } else {
                Action::Idle
            }),
    {
        match self.pane {
            ActivePane::Messages => {
                match self.selected {
                    Some(i) => {
                        if i > 0 {
                            self.selected = Some(i - 1);
                            Action::OpenMessage(i - 1)
                        } else {
                            Action::Idle
                        }
                    },
                    None => Action::Idle,
                }
            },
            ActivePane::Preview => {
                if self.preview_scroll > 0 {
                    self.preview_scroll = self.preview_scroll - 1;
                }
                Action::Idle
            },
        }
    }

    fn bar_key(&mut self, key: Key, now: u64)
        requires
            old(self).wf(),
            !old(self)@.search_pending,
        ensures
            final(self)@ == bar_key(old(self)@, key, now as int),
            final(self).wf(),
    {
        match key {
            Key::Esc => {
                self.search_bar_active = false;
                if self.search_input.as_str().is_empty() {
                    self.restore_all_messages();
                }
            },
            Key::Enter => {
                self.search_bar_active = false;
                if !self.search_input.as_str().is_empty() {
                    self.search_pending = true;
                    self.search_shown = false;
                    self.search_start = Some(now);
                } else {
                    self.restore_all_messages();
                }
            },
            Key::Backspace => {
                let _ = self.search_input.pop();
            },
            Key::Char(c) => {
                if !is_control_char(c) {
                    self.search_input.push(c);
                }
            },
            _ => {},
        }
    }

    fn pane_key(&mut self, key: Key) -> (action: Action)
        requires
            old(self).wf(),
            !old(self)@.search_pending,
            !old(self)@.search_bar_active,
        ensures
            final(self)@ == pane_key(old(self)@, key),
            final(self).wf(),
            action == key_action(old(self)@, key),
    {
        match key {
            Key::Char(c) => {
                if c == 'q' {
                    self.exit = true;
                    Action::Idle
                } else if c == '/' {
                    self.search_bar_active = true;
                    Action::Idle
                } else if c == 'j' {
                    self.move_down()
                } else if c == 'k' {
                    self.move_up()
                } else {
                    Action::Idle
                }
            },
            Key::Down => self.move_down(),
            Key::Up => self.move_up(),
            Key::Esc => {
                if self.search_mode {
                    self.restore_all_messages();
                } else {
                    self.exit = true;
                }
                Action::Idle
            },
            Key::Tab => {
                self.pane = match self.pane {
                    ActivePane::Messages => ActivePane::Preview,
                    ActivePane::Preview => ActivePane::Messages,
                };
                Action::Idle
            },
            Key::Enter => {
                match self.selected {
                    Some(i) => {
                        self.pane = ActivePane::Preview;
                        Action::OpenMessage(i)
                    },
                    None => Action::Idle,
                }
            },
            _ => Action::Idle,
        }
    }

    /// Takes a key press at the time `now`, in nanoseconds on a clock of
    /// the caller that does not run backwards. Returns what the caller has
    /// to do next: after a step in the list, or the open key, the message
    /// that is now selected is to be opened and handed to `show_message`.
    /// While a search waits to be run the key is not taken.
    pub fn handle_key(&mut self, key: Key, now: u64) -> (action: Action)
        requires
            old(self).wf(),
        ensures
            final(self)@ == key_step(old(self)@, key, now as int),
            final(self).wf(),
            action == key_action(old(self)@, key),
    {
        if self.search_pending {
            return Action::Idle;
        }
        self.status = None;
        if self.search_bar_active {
            self.bar_key(key, now);
            Action::Idle
        } else {
            self.pane_key(key)
        }
    }

    /// Tells the view that it was drawn. A search that waits has then been
    /// on the screen and can be run.
    pub fn frame_drawn(&mut self)
        requires
            old(self).wf(),
        ensures
            final(self).wf(),
            final(self)@ == drawn(old(self)@),
    {
        if self.search_pending {
            self.search_shown = true;
        }
    }

    /// Takes up the search that is waiting, if there is one and the view
    /// was drawn since it was asked for: returns its query, in small
    /// letters, for the caller to run. The query is never empty.
    pub fn begin_search(&mut self) -> (query: Option<String>)
        requires
            old(self).wf(),
        ensures
            final(self).wf(),
            final(self)@ == search_begun(old(self)@),
            query is Some <==> search_ready(old(self)@),
            query matches Some(q) ==> q@ == lowered(old(self)@.search_input) && q@.len() > 0,
    {
        if !self.search_pending || !self.search_shown {
            return None;
        }
        self.search_pending = false;
        self.search_shown = false;
        Some(normalize_query(self.search_input.as_str()))
    }

    /// Puts the results of a search that finished at the time `now` in
    /// view: the first result is selected, the list has the focus, and the
    /// status line reports the number of results and the whole seconds
    /// since the search was asked for. Where there are results the caller
    /// is to open the first.
    pub fn apply_search_results(&mut self, results: Vec<SearchResultItem>, now: u64) -> (action: Action)
        requires
            old(self).wf(),
        ensures
            final(self).wf(),
            final(self)@ == search_applied(old(self)@, hits_of(results@), now as int),
            action == (if results@.len() > 0 {
                Action::OpenMessage(0)
            } else {
                Action::Idle
            }),
    {
        let n: usize = results.len();
        let ghost hits = hits_of(results@);
        let (rows, cache) = split_results(results);
        self.search_mode = true;
        self.rows = rows;
        self.cache = cache;
        self.offset = 0;
        if n > 0 {
            self.selected = Some(0);
        } else {
            self.selected = None;
            self.headers = MessageSummary::empty();
            self.content = "No messages match the search query".to_owned();
        }
        self.preview_scroll = 0;
        self.pane = ActivePane::Messages;
        let elapsed: u64 = match self.search_start {
            Some(t) => if now >= t {
                (now - t) / NANOS_PER_SEC
            } else {
                0
            },
            None => 0,
        };
        self.search_start = None;
        self.search_pending = false;
        self.search_shown = false;
        self.status = Some(found_message(n, elapsed));
        proof {
            let want = search_applied(old(self)@, hits, now as int);
            assert(self@.rows =~= want.rows);
            assert(self@.cache =~= want.cache);
        }
        if n > 0 {
            Action::OpenMessage(0)
        } else {
            Action::Idle
        }
    }

    /// Shows the message in row `index` in the preview pane, given what
    /// the store returned for it: its header fields and body text, or a
    /// note where it could not be opened.
    pub fn show_message(&mut self, index: usize, fetched: Option<&MessageProps>)
        requires
            old(self).wf(),
        ensures
            final(self).wf(),
            final(self)@ == message_shown(old(self)@, index as int, fetched_view(fetched)),
    {
        if index < self.rows.len() {
            match fetched {
                Some(p) => {
                    self.headers = summarize(p);
                    self.content = resolve(p);
                },
                None => {
                    self.headers = MessageSummary::empty();
                    self.content =
                    "(This item type cannot be displayed \u{2014} not a standard email message)".to_owned();
                },
            }
            self.preview_scroll = 0;
        }
    }

    /// Records which rows are visible: the first of them and their number.
    pub fn set_viewport(&mut self, offset: usize, height: usize)
        requires
            old(self).wf(),
        ensures
            final(self).wf(),
            final(self)@ == (ViewModel {
                offset: offset as int,
                list_height: height as int,
                ..old(self)@
            }),
    {
        self.offset = offset;
        self.list_height = height;
    }

    /// The rows of the visible window whose slots are empty, in rising
    /// order: the messages to ask the store for before
    /// `load_visible_rows`.
    pub fn rows_to_load(&self) -> (r: Vec<usize>)
        requires
            self.wf(),
        ensures
            r@.len() == missing(
                self@.cache,
                self@.offset,
                window_end(self@.offset, self@.list_height, self@.cache.len() as int),
            ).len(),
            forall|k: int|
                0 <= k < r@.len() ==> r@[k] as int == #[trigger] missing(
                    self@.cache,
                    self@.offset,
                    window_end(self@.offset, self@.list_height, self@.cache.len() as int),
                )[k],
    {
        self.cache.missing_rows(self.offset, self.list_height)
    }

    /// Loads the visible window: every empty slot in it takes the row of
    /// its message. `fetched` holds what the store gave for the rows of
    /// `rows_to_load`, in that order.
    pub fn load_visible_rows(&mut self, fetched: &Vec<Option<MessageProps>>)
        requires
            old(self).wf(),
        ensures
            final(self).wf(),
            final(self)@ == window_loaded(old(self)@, fetched_views(fetched@)),
    {
        self.cache.ensure_loaded(self.offset, self.list_height, fetched);
    }

    /// The identifier of the message in row `i`.
    pub fn row_id(&self, i: usize) -> (r: Option<u32>)
        ensures
            i < self@.rows.len() ==> r == Some(self@.rows[i as int].id),
            i >= self@.rows.len() ==> r is None,
    {
        if i < self.rows.len() {
            proof {
                assert(refs_of(self.rows@)[i as int] == self.rows@[i as int]@);
            }
            Some(self.rows[i].id)
        } else {
            None
        }
    }

    /// The name of the folder of the message in row `i`.
    pub fn row_folder(&self, i: usize) -> (r: Option<&str>)
        ensures
            i < self@.rows.len() ==> r is Some && r->0@ == self@.rows[i as int].folder,
            i >= self@.rows.len() ==> r is None,
    {
        if i < self.rows.len() {
            proof {
                assert(refs_of(self.rows@)[i as int] == self.rows@[i as int]@);
            }
            Some(self.rows[i].folder.as_str())
        } else {
            None
        }
    }

    /// The number of rows of the list in view.
    pub fn row_count(&self) -> (n: usize)
        ensures
            n == self@.rows.len(),
    {
        self.rows.len()
    }

    /// The number of messages of the archive.
    pub fn total_count(&self) -> (n: usize)
        ensures
            n == self@.all_rows.len(),
    {
        self.all_rows.len()
    }

    /// The summary of row `i`, where its slot is filled.
    pub fn summary(&self, i: usize) -> (r: Option<&MessageSummary>)
        ensures
            i < self@.cache.len() ==> (match r {
                Some(row) => Some(row@),
                None => None,
            }) == self@.cache[i as int],
            i >= self@.cache.len() ==> r is None,
    {
        self.cache.get(i)
    }

    pub fn selected(&self) -> (r: Option<usize>)
        ensures
            r is Some <==> self@.selected is Some,
            r matches Some(i) ==> self@.selected == Some(i as int),
    {
        self.selected
    }

    pub fn offset(&self) -> (r: usize)
        ensures
            r == self@.offset,
    {
        self.offset
    }

    pub fn list_height(&self) -> (r: usize)
        ensures
            r == self@.list_height,
    {
        self.list_height
    }

    pub fn active_pane(&self) -> (r: ActivePane)
        ensures
            r == self@.pane,
    {
        self.pane
    }

    pub fn preview_scroll(&self) -> (r: u16)
        ensures
            r == self@.preview_scroll,
    {
        self.preview_scroll
    }

    pub fn content(&self) -> (r: &str)
        ensures
            r@ == self@.content,
    {
        self.content.as_str()
    }

    pub fn headers(&self) -> (r: &MessageSummary)
        ensures
            r@ == self@.headers,
    {
        &self.headers
    }

    pub fn status(&self) -> (r: Option<&str>)
        ensures
            r is Some <==> self@.status is Some,
            r matches Some(s) ==> self@.status == Some(s@),
    {
        match &self.status {
            Some(s) => Some(s.as_str()),
            None => None,
        }
    }

    pub fn search_input(&self) -> (r: &str)
        ensures
            r@ == self@.search_input,
    {
        self.search_input.as_str()
    }

    pub fn search_bar_active(&self) -> (r: bool)
        ensures
            r == self@.search_bar_active,
    {
        self.search_bar_active
    }

    pub fn search_mode(&self) -> (r: bool)
        ensures
            r == self@.search_mode,
    {
        self.search_mode
    }

    pub fn search_pending(&self) -> (r: bool)
        ensures
            r == self@.search_pending,
    {
        self.search_pending
    }

    pub fn should_exit(&self) -> (r: bool)
        ensures
            r == self@.exit,
    {
        self.exit
    }

    /// The text of the status line.
    pub fn status_text(&self) -> (r: String)
        ensures
            r@ == status_line(self@),
    {
        match &self.status {
            Some(s) => s.clone(),
            None => {
                if self.search_pending {
                    " Searching\u{2026}".to_owned()
                } else if self.search_bar_active {
                    " [Search] type to search  Enter: run  Esc: cancel".to_owned()
                } else {
                    match self.pane {
                        ActivePane::Messages => " [Messages] j/k: navigate  Enter/Tab: preview  /: search  Esc: clear search  q: quit".to_owned(),
                        ActivePane::Preview => " [Preview] j/k: scroll  Tab: \u{2192} messages  /: search  Esc: clear search  q: quit".to_owned(),
                    }
                }
            },
        }
    }

    /// The title of the list.
    pub fn list_title(&self) -> (r: String)
        requires
            self.wf(),
        ensures
            r@ == list_heading(self@),
    {
        let mut r: String = if self.search_mode {
            "Search Results (".to_owned()
        } else {
            "Messages (".to_owned()
        };
        let count: usize = self.rows.len();
        let shown: usize = match self.selected {
            Some(i) => {
                assert(i < count);
                i + 1
            },
            None => 0,
        };
        let first = decimal_string(shown as u64);
        r.append(first.as_str());
        r.append("/");
        let second = decimal_string(count as u64);
        r.append(second.as_str());
        r.append(")");
        r
    }

    /// What stands behind the query in the search bar.
    pub fn search_hint(&self) -> (r: String)
        ensures
            r@ == search_note(self@),
    {
        if self.search_bar_active {
            "\u{258B}".to_owned()
        } else if self.search_mode {
            let n: usize = self.rows.len();
            let mut r: String = "  (".to_owned();
            let count = decimal_string(n as u64);
            r.append(count.as_str());
            if n == 1 {
                r.append(" result)");
            } else {
                r.append(" results)");
            }
            r
        } else if self.search_input.as_str().is_empty() {
            "Press / to search".to_owned()
        } else {
            String::new()
        }
    }
}

/// No key moves the selection out of the list: after every key the
/// selection, where there is one, names a row between the first and the
/// last, and every row has its slot.
pub proof fn lemma_selection_in_bounds(m: ViewModel, key: Key, now: int)
    requires
        model_wf(m),
        0 <= now <= u64::MAX,
    ensures
        model_wf(key_step(m, key, now)),
        key_step(m, key, now).selected matches Some(i) ==> 0 <= i <= key_step(
            m,
            key,
            now,
        ).rows.len() - 1,
{
}

/// Stepping down on the last row, however often, leaves the selection
/// where it is.
pub proof fn lemma_down_on_last_row(m: ViewModel, key: Key, now: int, n: nat)
    requires
        model_wf(m),
        is_down(key),
        !m.search_pending,
        !m.search_bar_active,
        m.pane is Messages,
        m.rows.len() > 0,
        m.selected == Some(m.rows.len() - 1),
    ensures
        key_steps(m, key, now, n).selected == m.selected,
        n > 0 ==> key_steps(m, key, now, n) == (ViewModel { status: None, ..m }),
    decreases n,
{
    if n > 0 {
        lemma_down_on_last_row(m, key, now, (n - 1) as nat);
    }
}

/// Stepping up on the first row, however often, leaves the selection where
/// it is.
pub proof fn lemma_up_on_first_row(m: ViewModel, key: Key, now: int, n: nat)
    requires
        model_wf(m),
        is_up(key),
        !m.search_pending,
        !m.search_bar_active,
        m.pane is Messages,
        m.selected == Some(0int),
    ensures
        key_steps(m, key, now, n).selected == m.selected,
        n > 0 ==> key_steps(m, key, now, n) == (ViewModel { status: None, ..m }),
    decreases n,
{
    if n > 0 {
        lemma_up_on_first_row(m, key, now, (n - 1) as nat);
    }
}

/// With the focus on the preview, a step down scrolls by one line unless
/// that would pass the last line of the text, where the offset stays; a
/// step up scrolls back by one line and not below 0. Neither changes the
/// selection or asks for a message.
pub proof fn lemma_preview_scroll_in_bounds(m: ViewModel, key: Key, now: int)
    requires
        model_wf(m),
        !m.search_pending,
        !m.search_bar_active,
        m.pane is Preview,
        is_down(key) || is_up(key),
    ensures
        is_down(key) && m.preview_scroll < scroll_limit(m.content) ==> key_step(
            m,
            key,
            now,
        ).preview_scroll == m.preview_scroll + 1,
        is_down(key) && m.preview_scroll == scroll_limit(m.content) ==> key_step(
            m,
            key,
            now,
        ).preview_scroll == m.preview_scroll,
        is_up(key) && m.preview_scroll > 0 ==> key_step(m, key, now).preview_scroll
            == m.preview_scroll - 1,
        is_up(key) && m.preview_scroll == 0 ==> key_step(m, key, now).preview_scroll == 0,
        0 <= key_step(m, key, now).preview_scroll <= last_line(key_step(m, key, now).content),
        key_step(m, key, now).selected == m.selected,
        key_step(m, key, now).content == m.content,
        key_action(m, key) is Idle,
{
}

/// A search that waits is run after the next drawing, and its query is
/// not empty. The state after its results are put in view shows them: the
/// first is selected, or nothing where there are none, every result has
/// its slot, the list has the focus, the preview is scrolled to its top and
/// no search waits. Until then no key changes the state.
pub proof fn lemma_pending_search_runs(m: ViewModel, hits: Seq<HitModel>, key: Key, now: int)
    requires
        model_wf(m),
        m.search_pending,
    ensures
        m.search_input.len() > 0,
        key_step(m, key, now) == m,
        key_action(m, key) is Idle,
        search_ready(drawn(m)),
        search_begun(drawn(m)).search_input == m.search_input,
        !search_begun(drawn(m)).search_pending,
        ({
            let after = search_applied(search_begun(drawn(m)), hits, now);
            &&& after.selected == first_row(hits.len())
            &&& after.rows.len() == hits.len()
            &&& after.cache.len() == hits.len()
            &&& after.search_mode
            &&& !after.search_pending
            &&& after.pane is Messages
            &&& after.preview_scroll == 0
            &&& after.search_input == m.search_input
            &&& after.all_rows == m.all_rows
            &&& model_wf(after)
        }),
{
}

/// Putting search results in view selects the first of them, or nothing
/// where there are none, and gives every result its slot, filled with the
/// summary found with it. Putting all messages back in view after that
/// selects the first message, or nothing where there are none, and leaves
/// one empty slot for each message.
pub proof fn lemma_source_switch(m: ViewModel, hits: Seq<HitModel>, now: int)
    ensures
        search_applied(m, hits, now).selected == first_row(hits.len()),
        search_applied(m, hits, now).rows.len() == hits.len(),
        search_applied(m, hits, now).cache.len() == hits.len(),
        forall|i: int|
            0 <= i < hits.len() ==> (#[trigger] search_applied(m, hits, now).cache[i]) == Some(
                hits[i].row,
            ),
        search_applied(m, hits, now).search_mode,
        restored(search_applied(m, hits, now)).rows == m.all_rows,
        restored(search_applied(m, hits, now)).selected == first_row(m.all_rows.len()),
        restored(search_applied(m, hits, now)).cache == unpopulated(m.all_rows.len()),
        !restored(search_applied(m, hits, now)).search_mode,
        model_wf(m) ==> model_wf(search_applied(m, hits, now)) && model_wf(
            restored(search_applied(m, hits, now)),
        ),
{
}

/// While the search bar is active it alone takes the keys: no key moves
/// the focus, ends the session or asks for a message, and no key but the
/// two that leave an empty search bar touches the list or the preview.
pub proof fn lemma_search_bar_takes_keys(m: ViewModel, key: Key, now: int)
    requires
        m.search_bar_active,
    ensures
        key_action(m, key) is Idle,
        key_step(m, key, now).pane == m.pane,
        key_step(m, key, now).exit == m.exit,
        (m.search_input.len() > 0 || !(key is Enter || key is Esc)) ==> {
            &&& key_step(m, key, now).rows == m.rows
            &&& key_step(m, key, now).cache == m.cache
            &&& key_step(m, key, now).selected == m.selected
            &&& key_step(m, key, now).preview_scroll == m.preview_scroll
            &&& key_step(m, key, now).content == m.content
            &&& key_step(m, key, now).headers == m.headers
        },
{
}

/// With the search bar empty, confirming it and cancelling it lead to the
/// same state, in which all messages are back in view: the first of them is
/// selected, or nothing where there are none, every slot is empty and no
/// search results are shown. While search results are shown, the clear key
/// outside the search bar leads to that state too.
pub proof fn lemma_empty_query_restores(m: ViewModel, now: int)
    requires
        model_wf(m),
        m.search_input.len() == 0,
    ensures
        key_step((ViewModel { search_bar_active: true, ..m }), Key::Enter, now) == key_step(
            (ViewModel { search_bar_active: true, ..m }),
            Key::Esc,
            now,
        ),
        key_step((ViewModel { search_bar_active: true, ..m }), Key::Enter, now) == restored(
            (ViewModel { search_bar_active: false, status: None, ..m }),
        ),
        m.search_mode ==> key_step((ViewModel { search_bar_active: false, ..m }), Key::Esc, now)
            == key_step((ViewModel { search_bar_active: true, ..m }), Key::Enter, now),
        key_step((ViewModel { search_bar_active: true, ..m }), Key::Enter, now).rows
            == m.all_rows,
        key_step((ViewModel { search_bar_active: true, ..m }), Key::Enter, now).selected
            == first_row(m.all_rows.len()),
        key_step((ViewModel { search_bar_active: true, ..m }), Key::Enter, now).cache
            == unpopulated(m.all_rows.len()),
        !key_step((ViewModel { search_bar_active: true, ..m }), Key::Enter, now).search_mode,
        !key_step((ViewModel { search_bar_active: true, ..m }), Key::Enter, now).search_bar_active,
{
}

/// A search is run only after the view was drawn while it waited, and a
/// key that asks for a search makes it wait for the next drawing.
pub proof fn lemma_search_waits_for_a_frame(m: ViewModel, key: Key, now: int)
    ensures
        search_begun(m) != m ==> m.search_pending && m.search_shown,
        key_step(m, key, now).search_pending && !m.search_pending ==> !search_ready(
            key_step(m, key, now),
        ) && search_ready(drawn(key_step(m, key, now))),
        key_step(m, key, now).search_pending && !m.search_pending ==> key_step(
            m,
            key,
            now,
        ).search_start == Some(now),
{
}

} // verus!
