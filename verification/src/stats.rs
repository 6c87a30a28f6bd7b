//! Counts over the items of an archive.

use crate::props::{PropModel, PropValue};
use crate::text::{has_prefix, str_chars, upper_chars, uppered};
use vstd::prelude::*;

verus! {

/// The kinds of item that are counted apart.
#[derive(Clone, Copy, Debug, PartialEq, Eq, Structural)]
pub enum ItemKind {
    Email,
    Calendar,
    Contact,
    Task,
    Note,
}

/// The kind of an item, by its message class in capitals. An item without
/// a class, and one of a class that is not known, counts as an email.
pub open spec fn kind_of(class: Seq<char>) -> ItemKind {
    if "IPM.NOTE"@.is_prefix_of(class) || class.len() == 0 {
        ItemKind::Email
    } else if "IPM.APPOINTMENT"@.is_prefix_of(class) || "IPM.SCHEDULE"@.is_prefix_of(class) {
        ItemKind::Calendar
    } else if "IPM.CONTACT"@.is_prefix_of(class) {
        ItemKind::Contact
    } else if "IPM.TASK"@.is_prefix_of(class) {
        ItemKind::Task
    } else if "IPM.STICKYNOTE"@.is_prefix_of(class) {
        ItemKind::Note
    } else {
        ItemKind::Email
    }
}

/// The kind of an item whose message class is `class`, in any mix of
/// capitals and small letters.
pub fn classify(class: &str) -> (kind: ItemKind)
    ensures
        kind == kind_of(uppered(class@)),
{
    let chars = str_chars(class);
    let up = upper_chars(&chars);
    if has_prefix(&up, &str_chars("IPM.NOTE")) || up.len() == 0 {
        ItemKind::Email
    } else if has_prefix(&up, &str_chars("IPM.APPOINTMENT")) || has_prefix(
        &up,
        &str_chars("IPM.SCHEDULE"),
    ) {
        ItemKind::Calendar
    } else if has_prefix(&up, &str_chars("IPM.CONTACT")) {
        ItemKind::Contact
    } else if has_prefix(&up, &str_chars("IPM.TASK")) {
        ItemKind::Task
    } else if has_prefix(&up, &str_chars("IPM.STICKYNOTE")) {
        ItemKind::Note
    } else {
        ItemKind::Email
    }
}

/// What was counted while walking the folders.
#[derive(Clone, Copy, Debug, PartialEq, Eq, Structural)]
pub struct PstStats {
    pub folder_count: usize,
    pub email_count: usize,
    pub attachment_count: usize,
    pub calendar_count: usize,
    pub contact_count: usize,
    pub task_count: usize,
    pub note_count: usize,
    /// The earliest time of a message, in ticks.
    pub earliest_ts: Option<i64>,
    /// The latest time of a message, in ticks.
    pub latest_ts: Option<i64>,
}

/// Whether one more item of any kind, with its attachments, can still be
/// counted.
pub open spec fn has_room(s: PstStats, attachments: PropModel) -> bool {
    &&& s.email_count < usize::MAX
    &&& s.calendar_count < usize::MAX
    &&& s.contact_count < usize::MAX
    &&& s.task_count < usize::MAX
    &&& s.note_count < usize::MAX
    &&& (attachments matches PropModel::Integer(n) ==> s.attachment_count + n <= usize::MAX)
}

/// The earlier of a time and the earliest so far.
pub open spec fn earlier(so_far: Option<i64>, ts: i64) -> Option<i64> {
    match so_far {
        Some(e) => if e <= ts {
            Some(e)
        } else {
            Some(ts)
        },
        None => Some(ts),
    }
}

/// The later of a time and the latest so far.
pub open spec fn later(so_far: Option<i64>, ts: i64) -> Option<i64> {
    match so_far {
        Some(l) => if l >= ts {
            Some(l)
        } else {
            Some(ts)
        },
        None => Some(ts),
    }
}

/// The counts after one more item of the given kind.
pub open spec fn counted(s: PstStats, kind: ItemKind) -> PstStats {
    match kind {
        ItemKind::Email => PstStats { email_count: (s.email_count + 1) as usize, ..s },
        ItemKind::Calendar => PstStats { calendar_count: (s.calendar_count + 1) as usize, ..s },
        ItemKind::Contact => PstStats { contact_count: (s.contact_count + 1) as usize, ..s },
        ItemKind::Task => PstStats { task_count: (s.task_count + 1) as usize, ..s },
        ItemKind::Note => PstStats { note_count: (s.note_count + 1) as usize, ..s },
    }
}

/// The counts after the attachments of an item: a positive number of 32
/// bits is added, anything else is not.
pub open spec fn with_attachments(s: PstStats, attachments: PropModel) -> PstStats {
    match attachments {
        PropModel::Integer(n) => if n > 0 {
            PstStats { attachment_count: (s.attachment_count + n) as usize, ..s }
        } else {
            s
        },
        _ => s,
    }
}

/// The counts after the time of an item: the time of submission where the
/// item has that property, else the time of delivery; a property that is
/// no time changes nothing.
pub open spec fn with_time(s: PstStats, submit: PropModel, delivery: PropModel) -> PstStats {
    let chosen = if submit is Absent {
        delivery
    } else {
        submit
    };
    match chosen {
        PropModel::Time(t) => PstStats {
            earliest_ts: earlier(s.earliest_ts, t as i64),
            latest_ts: later(s.latest_ts, t as i64),
            ..s
        },
        _ => s,
    }
}

/// The message class of an item in capitals, empty where it has none.
pub open spec fn class_of(class: PropModel) -> Seq<char> {
    match class {
        PropModel::Text(c) => uppered(c),
        _ => Seq::empty(),
    }
}

impl PstStats {
    /// Nothing counted yet.
    pub fn new() -> (r: PstStats)
        ensures
            r == (PstStats {
                folder_count: 0,
                email_count: 0,
                attachment_count: 0,
                calendar_count: 0,
                contact_count: 0,
                task_count: 0,
                note_count: 0,
                earliest_ts: None,
                latest_ts: None,
            }),
    {
        PstStats {
            folder_count: 0,
            email_count: 0,
            attachment_count: 0,
            calendar_count: 0,
            contact_count: 0,
            task_count: 0,
            note_count: 0,
            earliest_ts: None,
            latest_ts: None,
        }
    }

    /// Takes the time of one message into the range of times.
    pub fn update_timestamp(&mut self, ts: i64)
        ensures
            *final(self) == (PstStats {
                earliest_ts: earlier(old(self).earliest_ts, ts),
                latest_ts: later(old(self).latest_ts, ts),
                ..*old(self)
            }),
    {
        self.earliest_ts = Some(
            match self.earliest_ts {
                Some(e) => if e <= ts {
                    e
                } else {
                    ts
                },
                None => ts,
            },
        );
        self.latest_ts = Some(
            match self.latest_ts {
                Some(l) => if l >= ts {
                    l
                } else {
                    ts
                },
                None => ts,
            },
        );
    }

    /// Counts one folder.
    pub fn record_folder(&mut self)
        requires
            old(self).folder_count < usize::MAX,
        ensures
            *final(self) == (PstStats {
                folder_count: (old(self).folder_count + 1) as usize,
                ..*old(self)
            }),
    {
        self.folder_count = self.folder_count + 1;
    }

    /// Counts one item that could be opened: its kind by its message
    /// class, its attachments, and its time.
    pub fn record_item(&mut self, class: &PropValue, attachments: &PropValue, submit: &PropValue, delivery: &PropValue)
        requires
            has_room(*old(self), attachments@),
        ensures
            *final(self) == with_time(
                with_attachments(counted(*old(self), kind_of(class_of(class@))), attachments@),
                submit@,
                delivery@,
            ),
    {
        let kind = match class {
            PropValue::Text(c) => classify(c.as_str()),
            _ => ItemKind::Email,
        };
        match kind {
            ItemKind::Email => {
                self.email_count = self.email_count + 1;
            },
            ItemKind::Calendar => {
                self.calendar_count = self.calendar_count + 1;
            },
            ItemKind::Contact => {
                self.contact_count = self.contact_count + 1;
            },
            ItemKind::Task => {
                self.task_count = self.task_count + 1;
            },
            ItemKind::Note => {
                self.note_count = self.note_count + 1;
            },
        }
        if let PropValue::Integer(n) = attachments {
            if *n > 0 {
                self.attachment_count = self.attachment_count + *n as usize;
            }
        }
        let chosen = match submit {
            PropValue::Absent => delivery,
            _ => submit,
        };
        if let PropValue::Time(t) = chosen {
            self.update_timestamp(*t);
        }
    }

    /// The number of items of all kinds.
    pub fn total_items(&self) -> (n: usize)
        requires
            self.email_count + self.calendar_count + self.contact_count + self.task_count
                + self.note_count <= usize::MAX,
        ensures
            n == self.email_count + self.calendar_count + self.contact_count + self.task_count
                + self.note_count,
    {
        self.email_count + self.calendar_count + self.contact_count + self.task_count
            + self.note_count
    }
}

} // verus!
