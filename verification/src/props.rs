//! The property values of a message and the summary row made of them.

use crate::date::{filetime_text, filetime_to_string};
use vstd::prelude::*;

verus! {

/// One property of a message, as the store hands it out.
#[derive(Debug)]
pub enum PropValue {
    /// The message has no such property.
    Absent,
    /// A string, of either character width.
    Text(String),
    /// Raw bytes.
    Binary(Vec<u8>),
    /// A number of 32 bits.
    Integer(i32),
    /// A time in ticks.
    Time(i64),
    /// A value of any other type.
    Other,
}

/// The mathematical value of a property.
pub enum PropModel {
    Absent,
    Text(Seq<char>),
    Binary(Seq<u8>),
    Integer(int),
    Time(int),
    Other,
}

impl View for PropValue {
    type V = PropModel;

    open spec fn view(&self) -> PropModel {
        match self {
            PropValue::Absent => PropModel::Absent,
            PropValue::Text(s) => PropModel::Text(s@),
            PropValue::Binary(b) => PropModel::Binary(b@),
            PropValue::Integer(n) => PropModel::Integer(*n as int),
            PropValue::Time(t) => PropModel::Time(*t as int),
            PropValue::Other => PropModel::Other,
        }
    }
}

/// The properties of a message that the list, the preview and the search
/// read.
#[derive(Debug)]
pub struct MessageProps {
    pub subject: PropValue,
    pub from: PropValue,
    pub to: PropValue,
    pub cc: PropValue,
    /// When the sender submitted the message.
    pub submit_time: PropValue,
    /// When the message was delivered.
    pub delivery_time: PropValue,
    pub body_plain: PropValue,
    pub body_html: PropValue,
    pub body_rtf: PropValue,
}

pub struct MessagePropsModel {
    pub subject: PropModel,
    pub from: PropModel,
    pub to: PropModel,
    pub cc: PropModel,
    pub submit_time: PropModel,
    pub delivery_time: PropModel,
    pub body_plain: PropModel,
    pub body_html: PropModel,
    pub body_rtf: PropModel,
}

impl View for MessageProps {
    type V = MessagePropsModel;

    open spec fn view(&self) -> MessagePropsModel {
        MessagePropsModel {
            subject: self.subject@,
            from: self.from@,
            to: self.to@,
            cc: self.cc@,
            submit_time: self.submit_time@,
            delivery_time: self.delivery_time@,
            body_plain: self.body_plain@,
            body_html: self.body_html@,
            body_rtf: self.body_rtf@,
        }
    }
}

/// One row of the message list.
#[derive(Debug)]
pub struct MessageSummary {
    pub from: String,
    pub to: String,
    pub cc: String,
    pub subject: String,
    pub date: String,
}

pub struct SummaryModel {
    pub from: Seq<char>,
    pub to: Seq<char>,
    pub cc: Seq<char>,
    pub subject: Seq<char>,
    pub date: Seq<char>,
}

impl View for MessageSummary {
    type V = SummaryModel;

    open spec fn view(&self) -> SummaryModel {
        SummaryModel {
            from: self.from@,
            to: self.to@,
            cc: self.cc@,
            subject: self.subject@,
            date: self.date@,
        }
    }
}

/// The string that a property holds; empty where it holds none.
pub open spec fn text_of(p: PropModel) -> Seq<char> {
    match p {
        PropModel::Text(s) => s,
        _ => Seq::empty(),
    }
}

/// The date of a message: the time of submission where the message has
/// that property, else the time of delivery; empty where the property
/// chosen is no time.
pub open spec fn date_of(submit: PropModel, delivery: PropModel) -> Seq<char> {
    let chosen = if submit is Absent {
        delivery
    } else {
        submit
    };
    match chosen {
        PropModel::Time(t) => filetime_text(t),
        _ => Seq::empty(),
    }
}

/// The summary row of a message.
pub open spec fn summary_of(p: MessagePropsModel) -> SummaryModel {
    SummaryModel {
        from: text_of(p.from),
        to: text_of(p.to),
        cc: text_of(p.cc),
        subject: text_of(p.subject),
        date: date_of(p.submit_time, p.delivery_time),
    }
}

/// The row shown for a message that could not be opened.
pub open spec fn placeholder_summary() -> SummaryModel {
    SummaryModel {
        from: Seq::empty(),
        to: Seq::empty(),
        cc: Seq::empty(),
        subject: "(no subject)"@,
        date: Seq::empty(),
    }
}

/// The summary row for what the store gave when asked for a message.
pub open spec fn row_of(fetched: Option<MessagePropsModel>) -> SummaryModel {
    match fetched {
        Some(p) => summary_of(p),
        None => placeholder_summary(),
    }
}

/// What the store gave for a message, as a mathematical value.
pub open spec fn fetched_view(f: Option<&MessageProps>) -> Option<MessagePropsModel> {
    match f {
        Some(p) => Some(p@),
        None => None,
    }
}

/// What the store gave for a list of messages.
pub open spec fn fetched_views(v: Seq<Option<MessageProps>>) -> Seq<Option<MessagePropsModel>> {
    Seq::new(
        v.len(),
        |k: int|
            match v[k] {
                Some(p) => Some(p@),
                None => None,
            },
    )
}

pub open spec fn empty_summary() -> SummaryModel {
    SummaryModel {
        from: Seq::empty(),
        to: Seq::empty(),
        cc: Seq::empty(),
        subject: Seq::empty(),
        date: Seq::empty(),
    }
}

impl PropValue {
    /// The string that the property holds; empty where it holds none.
    pub fn text(&self) -> (s: String)
        ensures
            s@ == text_of(self@),
    {
        match self {
            PropValue::Text(s) => s.clone(),
            _ => String::new(),
        }
    }
}

impl MessageSummary {
    /// A row with every field empty.
    pub fn empty() -> (r: MessageSummary)
        ensures
            r@ == empty_summary(),
    {
        MessageSummary {
            from: String::new(),
            to: String::new(),
            cc: String::new(),
            subject: String::new(),
            date: String::new(),
        }
    }

    /// The row shown for a message that could not be opened.
    pub fn placeholder() -> (r: MessageSummary)
        ensures
            r@ == placeholder_summary(),
    {
        MessageSummary {
            from: String::new(),
            to: String::new(),
            cc: String::new(),
            subject: "(no subject)".to_owned(),
            date: String::new(),
        }
    }

    /// A copy of the row.
    pub fn copy(&self) -> (r: MessageSummary)
        ensures
            r@ == self@,
    {
        MessageSummary {
            from: self.from.clone(),
            to: self.to.clone(),
            cc: self.cc.clone(),
            subject: self.subject.clone(),
            date: self.date.clone(),
        }
    }
}

/// The date of a message, from its two time properties.
pub fn message_date(submit: &PropValue, delivery: &PropValue) -> (s: String)
    ensures
        s@ == date_of(submit@, delivery@),
{
    let chosen = match submit {
        PropValue::Absent => delivery,
        _ => submit,
    };
    match chosen {
        PropValue::Time(t) => filetime_to_string(*t),
        _ => String::new(),
    }
}

/// The summary row of a message.
pub fn summarize(props: &MessageProps) -> (r: MessageSummary)
    ensures
        r@ == summary_of(props@),
{
    MessageSummary {
        from: props.from.text(),
        to: props.to.text(),
        cc: props.cc.text(),
        subject: props.subject.text(),
        date: message_date(&props.submit_time, &props.delivery_time),
    }
}

} // verus!
