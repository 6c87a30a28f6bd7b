//! Search over the messages of the archive.
//!
//! A message matches a query where the query is a part of its sender, of
//! its recipients or of its body text, capitals in these counting as small
//! letters. The query itself is taken as it is given: callers hand it over
//! in small letters.

use crate::body::{body_text, resolve_body};
use crate::folder::{refs_of, MessageRef, RefModel};
use crate::props::{
    fetched_view, fetched_views, summarize, summary_of, text_of, MessageProps, MessagePropsModel, MessageSummary,
    PropValue, SummaryModel,
};
use crate::text::{chars_string, contains_chars, contains_seq, lower_chars, lowered, str_chars};
use vstd::prelude::*;

verus! {

/// One message found by a search, with its summary row.
#[derive(Debug)]
pub struct SearchResultItem {
    pub folder_name: String,
    pub row_data: MessageSummary,
    pub row_id: u32,
}

pub struct HitModel {
    pub folder: Seq<char>,
    pub row: SummaryModel,
    pub id: u32,
}

impl View for SearchResultItem {
    type V = HitModel;

    open spec fn view(&self) -> HitModel {
        HitModel { folder: self.folder_name@, row: self.row_data@, id: self.row_id }
    }
}

/// The hits that a list of results holds.
pub open spec fn hits_of(v: Seq<SearchResultItem>) -> Seq<HitModel> {
    Seq::new(v.len(), |i: int| v[i]@)
}

/// Whether `query` is a part of `field`, capitals of `field` counting as
/// small letters.
pub open spec fn field_matches(field: Seq<char>, query: Seq<char>) -> bool {
    contains_seq(lowered(field), query)
}

/// The body text that a search looks at: empty where the message has no
/// body that can be decoded.
pub open spec fn searched_body(p: MessagePropsModel) -> Seq<char> {
    match body_text(p) {
        Some(t) => t,
        None => Seq::empty(),
    }
}

/// Whether a message matches a query.
pub open spec fn message_matches(p: MessagePropsModel, query: Seq<char>) -> bool {
    ||| field_matches(text_of(p.from), query)
    ||| field_matches(text_of(p.to), query)
    ||| field_matches(text_of(p.cc), query)
    ||| field_matches(searched_body(p), query)
}

/// The hits after one more message: a message that could be opened and
/// matches the query is added behind the others, with its summary.
pub open spec fn hits_after(
    hits: Seq<HitModel>,
    folder: Seq<char>,
    id: u32,
    fetched: Option<MessagePropsModel>,
    query: Seq<char>,
) -> Seq<HitModel> {
    match fetched {
        Some(p) => if message_matches(p, query) {
            hits.push(HitModel { folder, row: summary_of(p), id })
        } else {
            hits
        },
        None => hits,
    }
}

/// A query with its capitals made small, as the search expects it.
pub fn normalize_query(query: &str) -> (q: String)
    ensures
        q@ == lowered(query@),
{
    let chars = str_chars(query);
    let low = lower_chars(&chars);
    chars_string(&low)
}

/// Whether `query` is a part of `field`, capitals of `field` counting as
/// small letters.
pub fn field_contains(field: &str, query: &Vec<char>) -> (r: bool)
    ensures
        r == field_matches(field@, query@),
{
    let chars = str_chars(field);
    let low = lower_chars(&chars);
    contains_chars(&low, query)
}

fn empty_contains(query: &Vec<char>) -> (r: bool)
    ensures
        r == field_matches(Seq::empty(), query@),
{
    let none: Vec<char> = Vec::new();
    proof {
        assert(lowered(Seq::<char>::empty()) =~= none@);
    }
    contains_chars(&none, query)
}

fn prop_contains(p: &PropValue, query: &Vec<char>) -> (r: bool)
    ensures
        r == field_matches(text_of(p@), query@),
{
    match p {
        PropValue::Text(s) => field_contains(s.as_str(), query),
        _ => empty_contains(query),
    }
}

/// Whether a message matches a query given in small letters.
pub fn matches_query(props: &MessageProps, query_lower: &str) -> (r: bool)
    ensures
        r == message_matches(props@, query_lower@),
{
    let query = str_chars(query_lower);
    if prop_contains(&props.from, &query) || prop_contains(&props.to, &query) || prop_contains(
        &props.cc,
        &query,
    ) {
        return true;
    }
    match resolve_body(props) {
        Some(body) => field_contains(body.as_str(), &query),
        None => empty_contains(&query),
    }
}

/// Takes one message of the scan into account: where it could be opened
/// and matches the query, it is added to the results, with its folder, its
/// identifier and its summary row.
pub fn collect_match(
    results: &mut Vec<SearchResultItem>,
    folder_name: &str,
    row_id: u32,
    fetched: Option<&MessageProps>,
    query_lower: &str,
)
    ensures
        hits_of(final(results)@) == hits_after(
            hits_of(old(results)@),
            folder_name@,
            row_id,
            fetched_view(fetched),
            query_lower@,
        ),
{
    if let Some(props) = fetched {
        if matches_query(props, query_lower) {
            let item = SearchResultItem {
                folder_name: folder_name.to_owned(),
                row_data: summarize(props),
                row_id,
            };
            results.push(item);
            proof {
                assert(hits_of(results@) =~= hits_of(old(results)@).push(item@));
            }
        }
    }
}

/// Matching does not tell capitals of a field from small letters: two
/// fields that differ in nothing else match the same queries.
pub proof fn lemma_match_ignores_case(a: Seq<char>, b: Seq<char>, query: Seq<char>)
    requires
        lowered(a) == lowered(b),
    ensures
        field_matches(a, query) == field_matches(b, query),
{
}

/// A field matches every query that is one of its parts once both are
/// written in small letters.
pub proof fn lemma_match_part(field: Seq<char>, from: int, to: int)
    requires
        0 <= from <= to <= field.len(),
    ensures
        field_matches(field, lowered(field.subrange(from, to))),
{
    let low = lowered(field);
    let q = lowered(field.subrange(from, to));
    assert(low.subrange(from, from + q.len()) =~= q);
    assert(crate::text::occurs_at(low, q, from));
}

/// The hits of a scan over the first `n` of `rows`, where `fetched` holds
/// what the store gave for each row: the rows that could be opened and
/// match the query, in the order of the rows. A row for which nothing was
/// handed in counts as one that could not be opened.
pub open spec fn scan_hits(
    rows: Seq<RefModel>,
    fetched: Seq<Option<MessagePropsModel>>,
    query: Seq<char>,
    n: int,
) -> Seq<HitModel>
    decreases n,
{
    if n <= 0 || n > rows.len() {
        Seq::empty()
    } else {
        hits_after(
            scan_hits(rows, fetched, query, n - 1),
            rows[n - 1].folder,
            rows[n - 1].id,
            if n - 1 < fetched.len() {
                fetched[n - 1]
            } else {
                None
            },
            query,
        )
    }
}

/// Scans all of `rows` for a query given in small letters. `fetched` holds,
/// row by row, what the store gave for the message. Every row is looked
/// at; the hits come in the order of the rows.
pub fn search_messages(
    rows: &Vec<MessageRef>,
    fetched: &Vec<Option<MessageProps>>,
    query_lower: &str,
) -> (results: Vec<SearchResultItem>)
    ensures
        hits_of(results@) == scan_hits(
            refs_of(rows@),
            fetched_views(fetched@),
            query_lower@,
            rows@.len() as int,
        ),
{
    let mut results: Vec<SearchResultItem> = Vec::new();
    let mut i: usize = 0;
    proof {
        assert(hits_of(results@) =~= Seq::<HitModel>::empty());
    }
    while i < rows.len()
        invariant
            i <= rows@.len(),
            hits_of(results@) == scan_hits(
                refs_of(rows@),
                fetched_views(fetched@),
                query_lower@,
                i as int,
            ),
        decreases rows.len() - i,
    {
        let given: Option<&MessageProps> = if i < fetched.len() {
            fetched[i].as_ref()
        } else {
            None
        };
        proof {
            assert(refs_of(rows@)[i as int] == rows@[i as int]@);
            if i < fetched@.len() {
                assert(fetched_views(fetched@)[i as int] == fetched_view(given));
            }
        }
        collect_match(&mut results, rows[i].folder.as_str(), rows[i].id, given, query_lower);
        i += 1;
    }
    results
}

} // verus!
