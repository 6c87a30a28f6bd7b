//! The summary rows of the message list, filled as they come into view.
//!
//! The cache holds one slot for each row of the list. A slot is empty until
//! its row first lies in the window that is loaded before a redraw: the
//! visible rows and a few rows beyond them. Rows outside the window are
//! never loaded ahead of time.

use crate::props::{fetched_views, row_of, summarize, MessageProps, MessagePropsModel, MessageSummary, SummaryModel};
use vstd::prelude::*;

verus! {

/// Rows loaded beyond the visible ones.
pub const WINDOW_MARGIN: usize = 5;

/// The end of the window that begins at `offset` and shows `height` rows,
/// in a list of `total` rows.
pub open spec fn window_end(offset: int, height: int, total: int) -> int {
    if offset + height + WINDOW_MARGIN < total {
        offset + height + WINDOW_MARGIN
    } else {
        total
    }
}

/// Whether row `i` lies in the window.
pub open spec fn in_window(i: int, offset: int, height: int, total: int) -> bool {
    offset <= i < window_end(offset, height, total)
}

/// The empty slots among `rows[lo..hi]`, in rising order.
pub open spec fn missing(rows: Seq<Option<SummaryModel>>, lo: int, hi: int) -> Seq<int>
    decreases hi - lo,
{
    if hi <= lo {
        Seq::empty()
    } else if rows[hi - 1] is None {
        missing(rows, lo, hi - 1).push(hi - 1)
    } else {
        missing(rows, lo, hi - 1)
    }
}

/// What the `k`-th of the messages asked for gave; a message for which
/// nothing was handed in counts as one that could not be opened.
pub open spec fn fetched_at(fetched: Seq<Option<MessagePropsModel>>, k: int) -> Option<
    MessagePropsModel,
> {
    if 0 <= k < fetched.len() {
        fetched[k]
    } else {
        None
    }
}

/// The slots after the window was loaded: a slot in the window that was
/// empty holds the row of its message, made of what the store gave for it
/// or the placeholder row; every other slot is as before.
pub open spec fn loaded(
    rows: Seq<Option<SummaryModel>>,
    offset: int,
    height: int,
    fetched: Seq<Option<MessagePropsModel>>,
) -> Seq<Option<SummaryModel>> {
    Seq::new(
        rows.len(),
        |i: int|
            if in_window(i, offset, height, rows.len() as int) && rows[i] is None {
                Some(row_of(fetched_at(fetched, missing(rows, offset, i).len() as int)))
            } else {
                rows[i]
            },
    )
}

/// The slots that a vector of rows stands for.
pub open spec fn slots_of(v: Seq<Option<MessageSummary>>) -> Seq<Option<SummaryModel>> {
    Seq::new(
        v.len(),
        |i: int|
            match v[i] {
                Some(r) => Some(r@),
                None => None,
            },
    )
}

/// The summary rows of the list in view.
pub struct RowWindowCache {
    rows: Vec<Option<MessageSummary>>,
}

impl View for RowWindowCache {
    type V = Seq<Option<SummaryModel>>;

    closed spec fn view(&self) -> Seq<Option<SummaryModel>> {
        slots_of(self.rows@)
    }
}

impl RowWindowCache {
    /// A cache of `n` empty slots.
    pub fn new(n: usize) -> (r: RowWindowCache)
        ensures
            r@ == Seq::new(n as nat, |i: int| None::<SummaryModel>),
    {
        let mut rows: Vec<Option<MessageSummary>> = Vec::new();
        let mut i: usize = 0;
        while i < n
            invariant
                i <= n,
                rows@.len() == i,
                forall|j: int| 0 <= j < i ==> rows@[j] is None,
            decreases n - i,
        {
            rows.push(None);
            i += 1;
        }
        let r = RowWindowCache { rows };
        proof {
            assert(r@ =~= Seq::new(n as nat, |i: int| None::<SummaryModel>));
        }
        r
    }

    /// A cache in which every slot is filled, with the rows given.
    pub fn filled(rows: Vec<MessageSummary>) -> (r: RowWindowCache)
        ensures
            r@ == Seq::new(rows@.len(), |i: int| Some(rows@[i]@)),
    {
        let mut slots: Vec<Option<MessageSummary>> = Vec::new();
        let mut i: usize = 0;
        while i < rows.len()
            invariant
                i <= rows@.len(),
                slots@.len() == i,
                forall|j: int| 0 <= j < i ==> slots_of(slots@)[j] == Some(rows@[j]@),
            decreases rows.len() - i,
        {
            let ghost before = slots@;
            let row = rows[i].copy();
            slots.push(Some(row));
            proof {
                assert forall|j: int| 0 <= j < i + 1 implies slots_of(slots@)[j] == Some(
                    rows@[j]@,
                ) by {
                    if j < i {
                        assert(slots@[j] == before[j]);
                        assert(slots_of(before)[j] == Some(rows@[j]@));
                    }
                }
            }
            i += 1;
        }
        let r = RowWindowCache { rows: slots };
        proof {
            assert(r@ =~= Seq::new(rows@.len(), |i: int| Some(rows@[i]@)));
        }
        r
    }

    /// The number of slots.
    pub fn len(&self) -> (n: usize)
        ensures
            n == self@.len(),
    {
        self.rows.len()
    }

    /// The row in slot `i`, where the slot is filled.
    pub fn get(&self, i: usize) -> (r: Option<&MessageSummary>)
        ensures
            i < self@.len() ==> (match r {
                Some(row) => Some(row@),
                None => None,
            }) == self@[i as int],
            i >= self@.len() ==> r is None,
    {
        if i < self.rows.len() {
            self.rows[i].as_ref()
        } else {
            None
        }
    }

    /// The end of the window that begins at `offset` and shows `height`
    /// rows.
    pub fn window_end(&self, offset: usize, height: usize) -> (end: usize)
        ensures
            end == window_end(offset as int, height as int, self@.len() as int),
    {
        let total: usize = self.rows.len();
        if offset >= total || height >= total - offset || WINDOW_MARGIN >= total - offset - height {
            total
        } else {
            offset + height + WINDOW_MARGIN
        }
    }

    /// The rows of the window whose slots are empty, in rising order: the
    /// messages to ask the store for before the window is loaded.
    pub fn missing_rows(&self, offset: usize, height: usize) -> (r: Vec<usize>)
        ensures
            r@.len() == missing(
                self@,
                offset as int,
                window_end(offset as int, height as int, self@.len() as int),
            ).len(),
            forall|k: int|
                0 <= k < r@.len() ==> r@[k] as int == #[trigger] missing(
                    self@,
                    offset as int,
                    window_end(offset as int, height as int, self@.len() as int),
                )[k],
    {
        let end: usize = self.window_end(offset, height);
        let mut r: Vec<usize> = Vec::new();
        if offset >= end {
            return r;
        }
        let mut i: usize = offset;
        while i < end
            invariant
                offset <= i <= end,
                end <= self.rows@.len(),
                r@.len() == missing(self@, offset as int, i as int).len(),
                forall|k: int|
                    0 <= k < r@.len() ==> r@[k] as int == #[trigger] missing(
                        self@,
                        offset as int,
                        i as int,
                    )[k],
            decreases end - i,
        {
            proof {
                assert(self@[i as int] is None <==> self.rows@[i as int] is None);
            }
            if self.rows[i].is_none() {
                r.push(i);
            }
            i += 1;
        }
        r
    }

    /// Loads the window that begins at `offset` and shows `height` rows.
    /// `fetched` holds, in rising order of the rows, what the store gave
    /// for each row of the window whose slot is empty: the properties of
    /// the message, or nothing where it could not be opened.
    pub fn ensure_loaded(&mut self, offset: usize, height: usize, fetched: &Vec<Option<MessageProps>>)
        ensures
            final(self)@ == loaded(old(self)@, offset as int, height as int, fetched_views(fetched@)),
    {
        let ghost given = fetched_views(fetched@);
        let ghost before = self@;
        let ghost want = loaded(before, offset as int, height as int, given);
        let end: usize = self.window_end(offset, height);
        if offset >= end {
            proof {
                assert(self@ =~= want);
            }
            return;
        }
        let mut i: usize = offset;
        let mut used: usize = 0;
        while i < end
            invariant
                offset <= i <= end,
                end == window_end(offset as int, height as int, before.len() as int),
                want == loaded(before, offset as int, height as int, given),
                given.len() == fetched@.len(),
                forall|k: int|
                    0 <= k < fetched@.len() ==> #[trigger] given[k] == (match fetched@[k] {
                        Some(p) => Some(p@),
                        None => None,
                    }),
                self.rows@.len() == before.len(),
                end <= before.len(),
                used == missing(before, offset as int, i as int).len(),
                used <= i - offset,
                forall|j: int|
                    0 <= j < before.len() && (j < offset || j >= i) ==> slots_of(self.rows@)[j]
                        == before[j],
                forall|j: int| offset <= j < i ==> slots_of(self.rows@)[j] == want[j],
            decreases end - i,
        {
            let ghost mid = self.rows@;
            proof {
                assert(slots_of(mid)[i as int] == before[i as int]);
                assert(before[i as int] is None <==> mid[i as int] is None);
            }
            if self.rows[i].is_none() {
                let row = if used < fetched.len() {
                    match &fetched[used] {
                        Some(p) => summarize(p),
                        None => MessageSummary::placeholder(),
                    }
                } else {
                    MessageSummary::placeholder()
                };
                proof {
                    assert(row@ == row_of(fetched_at(given, used as int)));
                }
                self.rows.set(i, Some(row));
                proof {
                    assert(slots_of(self.rows@)[i as int] == want[i as int]);
                    assert forall|j: int|
                        0 <= j < before.len() && (j < offset || j >= i + 1) implies slots_of(
                        self.rows@,
                    )[j] == before[j] by {
                        assert(self.rows@[j] == mid[j]);
                        assert(slots_of(mid)[j] == before[j]);
                    }
                    assert forall|j: int| offset <= j < i + 1 implies slots_of(self.rows@)[j]
                        == want[j] by {
                        if j < i {
                            assert(self.rows@[j] == mid[j]);
                            assert(slots_of(mid)[j] == want[j]);
                        }
                    }
                }
                used += 1;
            } else {
                proof {
                    assert(want[i as int] == before[i as int]);
                }
            }
            i += 1;
        }
        proof {
            assert(self@ =~= want);
        }
    }
}

/// After the window is loaded, every slot in it is filled, and every slot
/// outside it is as it was.
pub proof fn lemma_window_loaded(
    rows: Seq<Option<SummaryModel>>,
    offset: int,
    height: int,
    fetched: Seq<Option<MessagePropsModel>>,
)
    ensures
        loaded(rows, offset, height, fetched).len() == rows.len(),
        forall|i: int|
            0 <= i < rows.len() && in_window(i, offset, height, rows.len() as int) ==> (
            #[trigger] loaded(rows, offset, height, fetched)[i]) is Some,
        forall|i: int|
            0 <= i < rows.len() && !in_window(i, offset, height, rows.len() as int) ==> (
            #[trigger] loaded(rows, offset, height, fetched)[i]) == rows[i],
{
}

/// Loading the same window again changes nothing.
pub proof fn lemma_load_again(
    rows: Seq<Option<SummaryModel>>,
    offset: int,
    height: int,
    first: Seq<Option<MessagePropsModel>>,
    second: Seq<Option<MessagePropsModel>>,
)
    ensures
        loaded(loaded(rows, offset, height, first), offset, height, second) == loaded(
            rows,
            offset,
            height,
            first,
        ),
{
    let once = loaded(rows, offset, height, first);
    assert(loaded(once, offset, height, second) =~= once);
}

} // verus!
