//! The text shown for the body of a message.
//!
//! A message may carry its body as plain text, as HTML and as compressed
//! RTF. The first of the three that can be decoded is shown; the others are
//! then not looked at.

use crate::html::{html_text, html_to_text};
use crate::props::{MessageProps, MessagePropsModel, PropModel, PropValue};
use crate::rtf::{rtf_body_text, rtf_compressed_to_text};
use crate::text::{is_whitespace, skip_spaces, str_chars};
use vstd::prelude::*;

verus! {

/// The text that `String::from_utf8_lossy` makes of `bytes`.
pub uninterp spec fn utf8_lossy(bytes: Seq<u8>) -> Seq<char>;

/// Whether `s` begins with `<` once leading white space is left out. Bytes
/// stored as an HTML body that do not are taken to be no HTML at all.
pub open spec fn looks_like_html(s: Seq<char>) -> bool {
    skip_spaces(s).len() > 0 && skip_spaces(s)[0] == '<'
}

/// The HTML source that the HTML body property holds, if it holds any: a
/// string as it is, bytes where their text looks like HTML.
pub open spec fn html_source(p: PropModel) -> Option<Seq<char>> {
    match p {
        PropModel::Text(s) => Some(s),
        PropModel::Binary(b) => if looks_like_html(utf8_lossy(b)) {
            Some(utf8_lossy(b))
        } else {
            None
        },
        _ => None,
    }
}

/// The body text of a message, from the first source that gives one: the
/// plain-text body verbatim, the HTML body converted to text, the
/// compressed RTF body decoded.
pub open spec fn body_text(p: MessagePropsModel) -> Option<Seq<char>> {
    match p.body_plain {
        PropModel::Text(s) => Some(s),
        _ => match html_source(p.body_html) {
            Some(h) => Some(html_text(h)),
            None => match p.body_rtf {
                PropModel::Binary(b) => rtf_body_text(b),
                _ => None,
            },
        },
    }
}

/// The text of the preview pane for a message.
pub open spec fn display_text(p: MessagePropsModel) -> Seq<char> {
    match body_text(p) {
        Some(t) => t,
        None => "No message content available"@,
    }
}

/// Calls `String::from_utf8_lossy`, whose result depends on the bytes alone.
#[verifier::external_body]
fn decode_utf8_lossy(bytes: &Vec<u8>) -> (s: String)
    ensures
        s@ == utf8_lossy(bytes@),
{
    String::from_utf8_lossy(bytes.as_slice()).into_owned()
}

/// Whether a text begins with `<` once leading white space is left out.
pub fn starts_like_html(s: &str) -> (r: bool)
    ensures
        r == looks_like_html(s@),
{
    let v = str_chars(s);
    let mut i: usize = 0;
    proof {
        assert(v@.skip(0) =~= v@);
    }
    while i < v.len() && is_whitespace(v[i])
        invariant
            i <= v.len(),
            skip_spaces(v@.skip(i as int)) == skip_spaces(v@),
        decreases v.len() - i,
    {
        proof {
            assert(v@.skip(i as int).skip(1) =~= v@.skip(i + 1));
        }
        i += 1;
    }
    proof {
        if i < v.len() {
            assert(v@.skip(i as int)[0] == v@[i as int]);
        }
    }
    i < v.len() && v[i] == '<'
}

/// The HTML source of an HTML body property, if it holds any.
pub fn html_body_source(p: &PropValue) -> (r: Option<String>)
    ensures
        r is Some <==> html_source(p@) is Some,
        r matches Some(s) ==> html_source(p@) == Some(s@),
{
    match p {
        PropValue::Text(s) => Some(s.clone()),
        PropValue::Binary(b) => {
            let s = decode_utf8_lossy(b);
            if starts_like_html(s.as_str()) {
                Some(s)
            } else {
                None
            }
        },
        _ => None,
    }
}

/// The body text of a message, from the first of its three body properties
/// that can be decoded; nothing where none can.
pub fn resolve_body(props: &MessageProps) -> (r: Option<String>)
    ensures
        r is Some <==> body_text(props@) is Some,
        r matches Some(s) ==> body_text(props@) == Some(s@),
{
    if let PropValue::Text(s) = &props.body_plain {
        return Some(s.clone());
    }
    if let Some(h) = html_body_source(&props.body_html) {
        return Some(html_to_text(h.as_str()));
    }
    match &props.body_rtf {
        PropValue::Binary(b) => rtf_compressed_to_text(b),
        _ => None,
    }
}

/// The text of the preview pane for a message: its body text, or a fixed
/// note where it has none that can be decoded.
pub fn resolve(props: &MessageProps) -> (text: String)
    ensures
        text@ == display_text(props@),
{
    match resolve_body(props) {
        Some(t) => t,
        None => "No message content available".to_owned(),
    }
}

/// A plain-text body is shown as it is, whatever the HTML and RTF body
/// properties hold.
pub proof fn lemma_plain_text_preferred(p: MessagePropsModel, s: Seq<char>)
    requires
        p.body_plain == PropModel::Text(s),
    ensures
        body_text(p) == Some(s),
        display_text(p) == s,
{
}

/// Bytes stored as the HTML body that do not begin with `<` after leading
/// white space are not decoded as HTML: without a plain-text body, the text
/// is that of the RTF body, or the fixed note where that gives none.
pub proof fn lemma_binary_html_skipped(p: MessagePropsModel, bytes: Seq<u8>)
    requires
        !(p.body_plain is Text),
        p.body_html == PropModel::Binary(bytes),
        !looks_like_html(utf8_lossy(bytes)),
    ensures
        body_text(p) == (match p.body_rtf {
            PropModel::Binary(b) => rtf_body_text(b),
            _ => None,
        }),
        !(p.body_rtf is Binary) ==> display_text(p) == "No message content available"@,
{
}

} // verus!
