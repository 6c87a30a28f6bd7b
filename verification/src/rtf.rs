//! Plain text from a compressed RTF body.
//!
//! The decompression and the RTF parser are those of the crates
//! `compressed_rtf` and `rtf_parser`. Both give up with a panic on some
//! inputs. Such inputs are told apart here, before either is called, and
//! count as a body that cannot be decoded.
//!
//! The parser is not given a text in which the lexer reads half a surrogate
//! pair that does not stand beside its other half, a `\uc` with a count
//! that is negative or above what RTF gives a control word, a `\sl` whose
//! magnitude 32 bits do not hold, or more colour definitions than 16 bits
//! number. A control word is read where an unescaped backslash begins it
//! and white space, a brace, a backslash or the end of the text follows its
//! argument, with one semicolon between at most.

use crate::text::{
    bounded_value, drop_spaces, lemma_prefix_len, parse_range, prefix_len, str_chars, trim_end,
};
use vstd::prelude::*;

verus! {

/// What `compressed_rtf::decompress_rtf` returns for `data`: the RTF text, or
/// nothing where it reports an error.
pub uninterp spec fn rtf_decompressed(data: Seq<u8>) -> Option<Seq<char>>;

/// The text that `rtf_parser::RtfDocument::get_text` gives for the document
/// that `rtf_parser::RtfDocument::try_from` reads from `rtf`, or nothing
/// where `rtf` cannot be read as a document.
pub uninterp spec fn rtf_plain_text(rtf: Seq<char>) -> Option<Seq<char>>;

/// The number of 32 bits, least significant byte first, at `data[at..at + 4]`.
pub open spec fn le_u32(data: Seq<u8>, at: int) -> int {
    data[at] as int + 0x100 * (data[at + 1] as int) + 0x1_0000 * (data[at + 2] as int) + 0x100_0000
        * (data[at + 3] as int)
}

/// The header field that marks a body stored without compression.
pub const STORED_MARK: u32 = 0x414C_454D;

/// The longest RTF text that is handed to the parser, which counts nested
/// groups with 32 bits.
pub const RTF_TEXT_LIMIT: usize = 0x7FFF_FFFF;

/// The most colour definitions of a text that is handed to the parser,
/// which numbers them with 16 bits.
pub const COLOUR_LIMIT: usize = 65_534;

/// Whether the 16-byte header of a compressed RTF body is complete, the
/// two sizes it gives can be counted and allocated and, in a stored body,
/// the raw size lies within the data.
pub open spec fn rtf_header_ok(data: Seq<u8>) -> bool {
    &&& data.len() >= 16
    &&& le_u32(data, 0) + 4 <= usize::MAX
    &&& le_u32(data, 4) <= isize::MAX
    &&& le_u32(data, 8) == STORED_MARK ==> le_u32(data, 4) + 16 <= data.len()
}

/// A digit or a minus sign: what the argument of a control word is made of.
pub open spec fn is_arg_char(c: char) -> bool {
    c == '-' || ('0' <= c && c <= '9')
}

/// The argument that begins at `s[i]`: the longest run of digits and minus
/// signs there.
pub open spec fn arg_at(s: Seq<char>, i: int) -> Seq<char> {
    s.subrange(i, i + prefix_len(s.skip(i), |c: char| !is_arg_char(c)))
}

/// Whether the argument has a minus sign in front.
pub open spec fn is_negative(arg: Seq<char>) -> bool {
    arg.len() > 0 && arg[0] == '-'
}

/// The digits of an argument, behind its minus sign where it has one.
pub open spec fn arg_digits(arg: Seq<char>) -> Seq<char> {
    if is_negative(arg) {
        arg.skip(1)
    } else {
        arg
    }
}

/// Whether the backslash at `s[i]` begins a control word: no backslash
/// stands before it.
pub open spec fn unescaped(s: Seq<char>, i: int) -> bool {
    i <= 0 || s[i - 1] != '\\'
}

/// The place behind a control word whose argument ends before `s[j]`: one
/// semicolon there belongs to the word.
pub open spec fn word_close(s: Seq<char>, j: int) -> int {
    if j < s.len() && s[j] == ';' {
        j + 1
    } else {
        j
    }
}

/// The characters that end a control word for the lexer: the white space
/// of ASCII, a brace and a backslash.
pub open spec fn is_break(c: char) -> bool {
    c == ' ' || c == '\t' || c == '\n' || c == '\x0C' || c == '\r' || c == '{' || c == '}' || c
        == '\\'
}

/// The length of the text without the white space at its end, which the
/// lexer leaves out.
pub open spec fn text_end(s: Seq<char>) -> int {
    drop_spaces(s).len() as int
}

/// Whether the lexer takes a control word to end before `s[e]`: the text
/// ends there, or a character stands there that ends a word.
pub open spec fn word_ends(s: Seq<char>, e: int) -> bool {
    e >= text_end(s) || is_break(s[e])
}

/// Whether an unescaped `\u` stands at `s[i]`.
pub open spec fn unit_word_at(s: Seq<char>, i: int) -> bool {
    0 <= i && i + 1 < s.len() && s[i] == '\\' && s[i + 1] == 'u' && unescaped(s, i)
}

/// The place behind the word `\u` at `s[i]` and its argument.
pub open spec fn unit_close(s: Seq<char>, i: int) -> int {
    word_close(s, i + 2 + arg_at(s, i + 2).len())
}

/// What the argument of a `\u` names.
pub enum UnitKind {
    /// No half of a surrogate pair.
    Plain,
    /// The first half of a surrogate pair.
    High,
    /// The second half of a surrogate pair.
    Low,
}

/// What `arg` names as the argument of `\u`. A negative argument stands for
/// the code unit 65536 higher. An argument that is no number, or names no
/// code unit, is dropped by the parser.
pub open spec fn arg_kind(arg: Seq<char>) -> UnitKind {
    match bounded_value(arg_digits(arg), false, 99_999) {
        Some(v) => if is_negative(arg) {
            if 9_217 <= v <= 10_240 {
                UnitKind::High
            } else if 8_193 <= v <= 9_216 {
                UnitKind::Low
            } else {
                UnitKind::Plain
            }
        } else {
            if 0xD800 <= v <= 0xDBFF {
                UnitKind::High
            } else if 0xDC00 <= v <= 0xDFFF {
                UnitKind::Low
            } else {
                UnitKind::Plain
            }
        },
        None => UnitKind::Plain,
    }
}

/// What the lexer reads at `s[i]`: half a surrogate pair where a `\u`
/// with such an argument stands there and ends behind it.
pub open spec fn unit_kind(s: Seq<char>, i: int) -> UnitKind {
    if unit_word_at(s, i) && word_ends(s, unit_close(s, i)) {
        arg_kind(arg_at(s, i + 2))
    } else {
        UnitKind::Plain
    }
}

/// Whether the lexer reads the second half of a surrogate pair at `s[k]`.
pub open spec fn low_at(s: Seq<char>, k: int) -> bool {
    unit_kind(s, k) is Low
}

/// Where the second half has to stand behind the first half at `s[i]` for
/// the parser to decode the two together: directly behind it, or behind
/// the one space that ends it.
pub open spec fn low_place(s: Seq<char>, i: int) -> int {
    let e = unit_close(s, i);
    if e < s.len() && s[e] == ' ' {
        e + 1
    } else {
        e
    }
}

/// Whether, from `s[i]` on, every half of a surrogate pair stands with its
/// other half: a first half is followed at once by a second half, and a
/// second half stands nowhere else. `due` is the place at which a second
/// half is owed.
pub open spec fn pairs_from(s: Seq<char>, i: int, due: Option<int>) -> bool
    decreases s.len() - i,
{
    if i >= s.len() {
        due is None
    } else if due == Some(i) {
        low_at(s, i) && pairs_from(s, i + 1, None)
    } else {
        match unit_kind(s, i) {
            UnitKind::Low => false,
            UnitKind::High => due is None && pairs_from(s, i + 1, Some(low_place(s, i))),
            UnitKind::Plain => pairs_from(s, i + 1, due),
        }
    }
}

/// The most slots that a `\uc` may ask the parser to reserve for each
/// `\u` that follows: the largest argument that RTF gives a control word.
pub const SKIP_COUNT_LIMIT: u64 = 32_767;

/// Whether `arg`, as the argument of `\uc`, is a count of slots that can
/// be reserved: none that 32 bits hold as a negative number, and none
/// above the limit. An argument that 32 bits do not hold is no number for
/// the lexer.
pub open spec fn skip_count_ok(arg: Seq<char>) -> bool {
    match bounded_value(arg_digits(arg), false, 0xFFFF_FFFF) {
        Some(v) => if is_negative(arg) {
            v == 0 || v > 0x8000_0000
        } else {
            v <= SKIP_COUNT_LIMIT || v > 0x7FFF_FFFF
        },
        None => true,
    }
}

/// Whether `arg`, as the argument of `\sl`, has a magnitude that 32 bits
/// hold: it is not the least number of 32 bits.
pub open spec fn line_space_ok(arg: Seq<char>) -> bool {
    !(is_negative(arg) && bounded_value(arg_digits(arg), false, 0xFFFF_FFFF) == Some(
        0x8000_0000int,
    ))
}

/// Whether the lexer reads the word `\uc` at `s[i]`.
pub open spec fn count_word_at(s: Seq<char>, i: int) -> bool {
    unit_word_at(s, i) && i + 2 < s.len() && s[i + 2] == 'c' && word_ends(
        s,
        word_close(s, i + 3 + arg_at(s, i + 3).len()),
    )
}

/// Whether the lexer reads the word `\sl` at `s[i]`.
pub open spec fn space_word_at(s: Seq<char>, i: int) -> bool {
    0 <= i && i + 2 < s.len() && s[i] == '\\' && s[i + 1] == 's' && s[i + 2] == 'l' && unescaped(
        s,
        i,
    ) && word_ends(s, word_close(s, i + 3 + arg_at(s, i + 3).len()))
}

/// Whether what stands at `s[i]` is no `\uc` or `\sl` with an argument that
/// the parser cannot take.
pub open spec fn escape_ok(s: Seq<char>, i: int) -> bool {
    &&& count_word_at(s, i) ==> skip_count_ok(arg_at(s, i + 3))
    &&& space_word_at(s, i) ==> line_space_ok(arg_at(s, i + 3))
}

/// Whether `\blue`, the control word that ends a colour definition, stands
/// at `s[i]`.
pub open spec fn colour_at(s: Seq<char>, i: int) -> bool {
    &&& 0 <= i
    &&& i + 5 <= s.len()
    &&& s[i] == '\\'
    &&& s[i + 1] == 'b'
    &&& s[i + 2] == 'l'
    &&& s[i + 3] == 'u'
    &&& s[i + 4] == 'e'
}

/// The number of places before `s[n]` at which `\blue` stands.
pub open spec fn colours_before(s: Seq<char>, n: int) -> nat
    decreases n,
{
    if n <= 0 {
        0
    } else if colour_at(s, n - 1) {
        colours_before(s, n - 1) + 1
    } else {
        colours_before(s, n - 1)
    }
}

/// The RTF texts that are handed to the parser: those on which it is not
/// seen to give up.
pub open spec fn rtf_parse_safe(s: Seq<char>) -> bool {
    &&& s.len() <= RTF_TEXT_LIMIT
    &&& colours_before(s, s.len() as int) <= COLOUR_LIMIT
    &&& forall|i: int| 0 <= i < s.len() ==> escape_ok(s, i)
    &&& pairs_from(s, 0, None)
}

/// The plain text of a compressed RTF body, where it has one.
pub open spec fn rtf_body_text(data: Seq<u8>) -> Option<Seq<char>> {
    if !rtf_header_ok(data) {
        None
    } else {
        match rtf_decompressed(data) {
            Some(rtf) => if rtf_parse_safe(rtf) {
                rtf_plain_text(rtf)
            } else {
                None
            },
            None => None,
        }
    }
}

/// Calls `compressed_rtf::decompress_rtf`, whose result is a function of the
/// bytes alone. That function slices the first 16 bytes, adds 4 to the
/// compressed size, reserves the raw size that the header gives and, for a
/// stored body, slices that many bytes behind the header: `rtf_header_ok`
/// keeps all four within bounds.
#[verifier::external_body]
fn decompress(data: &Vec<u8>) -> (r: Option<String>)
    requires
        rtf_header_ok(data@),
    ensures
        r is Some <==> rtf_decompressed(data@) is Some,
        r matches Some(s) ==> rtf_decompressed(data@) == Some(s@),
{
    compressed_rtf::decompress_rtf(data.as_slice()).ok()
}

/// Calls `rtf_parser::RtfDocument::try_from` and, on the document it gives,
/// `get_text`; the text is a function of the input alone. The parser
/// unwraps the UTF-16 decoding of `\u` arguments, reserves as many slots as
/// `\uc` names, takes the magnitude of a negative `\sl` argument and
/// numbers colours with 16 bits: `rtf_parse_safe` rules out half a
/// surrogate pair without its other half, a count that is negative or
/// above what RTF gives a control word, the one magnitude that 32 bits do
/// not hold, too many colours and a text too long for its counters.
#[verifier::external_body]
fn document_text(rtf: &str) -> (r: Option<String>)
    requires
        rtf_parse_safe(rtf@),
    ensures
        r is Some <==> rtf_plain_text(rtf@) is Some,
        r matches Some(s) ==> rtf_plain_text(rtf@) == Some(s@),
{
    match rtf_parser::RtfDocument::try_from(rtf) {
        Ok(doc) => Some(doc.get_text()),
        Err(_) => None,
    }
}

fn read_le_u32(data: &Vec<u8>, at: usize) -> (r: u32)
    requires
        at + 4 <= data.len(),
    ensures
        r == le_u32(data@, at as int),
{
    let b0: u32 = data[at] as u32;
    let b1: u32 = data[at + 1] as u32;
    let b2: u32 = data[at + 2] as u32;
    let b3: u32 = data[at + 3] as u32;
    b0 + 0x100 * b1 + 0x1_0000 * b2 + 0x100_0000 * b3
}

/// Whether the header of a compressed RTF body can be decoded safely.
pub fn header_ok(data: &Vec<u8>) -> (r: bool)
    ensures
        r == rtf_header_ok(data@),
{
    if data.len() < 16 {
        return false;
    }
    let packed: u32 = read_le_u32(data, 0);
    let raw: u32 = read_le_u32(data, 4);
    let mark: u32 = read_le_u32(data, 8);
    if packed as u64 + 4 > usize::MAX as u64 || raw as u64 > isize::MAX as u64 {
        return false;
    }
    if mark == STORED_MARK {
        raw as u64 + 16 <= data.len() as u64
    } else {
        true
    }
}

fn arg_char(c: char) -> (r: bool)
    ensures
        r == is_arg_char(c),
{
    c == '-' || ('0' <= c && c <= '9')
}

/// The end of the argument that begins at `v[i]`.
fn arg_end(v: &Vec<char>, i: usize) -> (j: usize)
    requires
        i <= v.len(),
    ensures
        i <= j <= v.len(),
        v@.subrange(i as int, j as int) == arg_at(v@, i as int),
{
    let mut j: usize = i;
    while j < v.len() && arg_char(v[j])
        invariant
            i <= j <= v.len(),
            forall|k: int| i <= k < j ==> is_arg_char(v@[k]),
        decreases v.len() - j,
    {
        j += 1;
    }
    proof {
        let s = v@.skip(i as int);
        let stop = |c: char| !is_arg_char(c);
        assert forall|k: int| 0 <= k < j - i implies !stop(#[trigger] s[k]) by {
            assert(s[k] == v@[i + k]);
        }
        lemma_prefix_len(s, stop, (j - i) as nat);
    }
    j
}

/// Whether the argument `v[i..j]` has a minus sign, and the number that
/// its digits write where they write one that is `limit` at most.
fn arg_value(v: &Vec<char>, i: usize, j: usize, limit: u64) -> (r: (bool, Option<u64>))
    requires
        i <= j <= v.len(),
        limit <= u32::MAX,
    ensures
        r.0 == is_negative(v@.subrange(i as int, j as int)),
        r.1 is Some <==> bounded_value(
            arg_digits(v@.subrange(i as int, j as int)),
            false,
            limit as int,
        ) is Some,
        r.1 matches Some(n) ==> bounded_value(
            arg_digits(v@.subrange(i as int, j as int)),
            false,
            limit as int,
        ) == Some(n as int),
{
    let ghost arg = v@.subrange(i as int, j as int);
    if i < j && v[i] == '-' {
        proof {
            assert(arg.skip(1) =~= v@.subrange(i + 1, j as int));
        }
        (true, parse_range(v, i + 1, j, false, limit))
    } else {
        (false, parse_range(v, i, j, false, limit))
    }
}

fn kind_of_arg(v: &Vec<char>, i: usize, j: usize) -> (r: UnitKind)
    requires
        i <= j <= v.len(),
    ensures
        r == arg_kind(v@.subrange(i as int, j as int)),
{
    let (negative, value) = arg_value(v, i, j, 99_999);
    match value {
        Some(n) => {
            if negative {
                if 9_217 <= n && n <= 10_240 {
                    UnitKind::High
                } else if 8_193 <= n && n <= 9_216 {
                    UnitKind::Low
                } else {
                    UnitKind::Plain
                }
            } else {
                if 0xD800 <= n && n <= 0xDBFF {
                    UnitKind::High
                } else if 0xDC00 <= n && n <= 0xDFFF {
                    UnitKind::Low
                } else {
                    UnitKind::Plain
                }
            }
        },
        None => UnitKind::Plain,
    }
}

fn skip_count_safe(v: &Vec<char>, i: usize, j: usize) -> (r: bool)
    requires
        i <= j <= v.len(),
    ensures
        r == skip_count_ok(v@.subrange(i as int, j as int)),
{
    let (negative, value) = arg_value(v, i, j, 0xFFFF_FFFF);
    match value {
        Some(n) => {
            if negative {
                n == 0 || n > 0x8000_0000
            } else {
                n <= SKIP_COUNT_LIMIT || n > 0x7FFF_FFFF
            }
        },
        None => true,
    }
}

fn line_space_safe(v: &Vec<char>, i: usize, j: usize) -> (r: bool)
    requires
        i <= j <= v.len(),
    ensures
        r == line_space_ok(v@.subrange(i as int, j as int)),
{
    let (negative, value) = arg_value(v, i, j, 0xFFFF_FFFF);
    match value {
        Some(n) => !(negative && n == 0x8000_0000),
        None => true,
    }
}

fn close_of(v: &Vec<char>, j: usize) -> (e: usize)
    requires
        j <= v.len(),
    ensures
        e == word_close(v@, j as int),
        j <= e <= v.len(),
{
    if j < v.len() && v[j] == ';' {
        j + 1
    } else {
        j
    }
}

fn word_ends_at(v: &Vec<char>, end: usize, e: usize) -> (r: bool)
    requires
        e <= v.len(),
        end == text_end(v@),
        end <= v.len(),
    ensures
        r == word_ends(v@, e as int),
{
    e >= end || v[e] == ' ' || v[e] == '\t' || v[e] == '\n' || v[e] == '\x0C' || v[e] == '\r'
        || v[e] == '{' || v[e] == '}' || v[e] == '\\'
}

fn unescaped_at(v: &Vec<char>, i: usize) -> (r: bool)
    requires
        i < v.len(),
    ensures
        r == unescaped(v@, i as int),
{
    i == 0 || v[i - 1] != '\\'
}

fn unit_word_here(v: &Vec<char>, i: usize) -> (r: bool)
    requires
        i < v.len(),
    ensures
        r == unit_word_at(v@, i as int),
{
    v.len() - i >= 2 && v[i] == '\\' && v[i + 1] == 'u' && unescaped_at(v, i)
}

fn unit_kind_here(v: &Vec<char>, end: usize, i: usize) -> (r: UnitKind)
    requires
        i < v.len(),
        end == text_end(v@),
        end <= v.len(),
    ensures
        r == unit_kind(v@, i as int),
{
    if !unit_word_here(v, i) {
        return UnitKind::Plain;
    }
    let j = arg_end(v, i + 2);
    let e = close_of(v, j);
    if word_ends_at(v, end, e) {
        kind_of_arg(v, i + 2, j)
    } else {
        UnitKind::Plain
    }
}

fn low_place_of(v: &Vec<char>, i: usize) -> (k: usize)
    requires
        unit_word_at(v@, i as int),
        i < v.len(),
    ensures
        k == low_place(v@, i as int),
        i < k <= v.len(),
{
    let j = arg_end(v, i + 2);
    let e = close_of(v, j);
    if e < v.len() && v[e] == ' ' {
        e + 1
    } else {
        e
    }
}

fn escape_safe(v: &Vec<char>, end: usize, i: usize) -> (r: bool)
    requires
        i < v.len(),
        end == text_end(v@),
        end <= v.len(),
    ensures
        r == escape_ok(v@, i as int),
{
    if v[i] != '\\' || v.len() - i < 3 || !unescaped_at(v, i) {
        return true;
    }
    let count = v[i + 1] == 'u' && v[i + 2] == 'c';
    let space = v[i + 1] == 's' && v[i + 2] == 'l';
    if !count && !space {
        return true;
    }
    let j = arg_end(v, i + 3);
    let e = close_of(v, j);
    if !word_ends_at(v, end, e) {
        return true;
    }
    if count {
        skip_count_safe(v, i + 3, j)
    } else {
        line_space_safe(v, i + 3, j)
    }
}

/// The place at which a second half is owed, as a mathematical value.
pub open spec fn due_place(due: Option<usize>) -> Option<int> {
    match due {
        Some(k) => Some(k as int),
        None => None,
    }
}

fn colour_here(v: &Vec<char>, i: usize) -> (r: bool)
    requires
        i < v.len(),
    ensures
        r == colour_at(v@, i as int),
{
    v.len() - i >= 5 && v[i] == '\\' && v[i + 1] == 'b' && v[i + 2] == 'l' && v[i + 3] == 'u' && v[i
        + 4] == 'e'
}

/// More places never hold fewer colour definitions.
proof fn lemma_colours_grow(s: Seq<char>, n: int, m: int)
    requires
        n <= m,
    ensures
        colours_before(s, n) <= colours_before(s, m),
    decreases m - n,
{
    if n < m {
        lemma_colours_grow(s, n, m - 1);
    }
}

/// Whether an RTF text can be handed to the parser.
pub fn parse_safe(v: &Vec<char>) -> (r: bool)
    ensures
        r == rtf_parse_safe(v@),
{
    if v.len() > RTF_TEXT_LIMIT {
        return false;
    }
    let end: usize = trim_end(v, 0, v.len());
    proof {
        assert(v@.subrange(0, v@.len() as int) =~= v@);
        assert(v@.subrange(0, end as int).len() == end);
    }
    let mut colours: usize = 0;
    let mut due: Option<usize> = None;
    let mut i: usize = 0;
    while i < v.len()
        invariant
            i <= v.len(),
            end == text_end(v@),
            end <= v.len(),
            colours == colours_before(v@, i as int),
            colours <= COLOUR_LIMIT,
            forall|k: int| 0 <= k < i ==> escape_ok(v@, k),
            pairs_from(v@, 0, None) == pairs_from(v@, i as int, due_place(due)),
        decreases v.len() - i,
    {
        if !escape_safe(v, end, i) {
            return false;
        }
        if due == Some(i) {
            match unit_kind_here(v, end, i) {
                UnitKind::Low => {},
                _ => {
                    return false;
                },
            }
            due = None;
        } else {
            match unit_kind_here(v, end, i) {
                UnitKind::Low => {
                    return false;
                },
                UnitKind::High => {
                    if due.is_some() {
                        return false;
                    }
                    due = Some(low_place_of(v, i));
                },
                UnitKind::Plain => {},
            }
        }
        if colour_here(v, i) {
            if colours == COLOUR_LIMIT {
                proof {
                    lemma_colours_grow(v@, i + 1, v@.len() as int);
                }
                return false;
            }
            colours += 1;
        }
        i += 1;
    }
    due.is_none()
}

/// The plain text of a compressed RTF body: the body is decompressed and
/// the RTF text read as a document. Nothing is returned for a body whose
/// header is incomplete or inconsistent, that cannot be decompressed, or
/// whose text the parser is not given or cannot read.
pub fn rtf_compressed_to_text(data: &Vec<u8>) -> (r: Option<String>)
    ensures
        r is Some <==> rtf_body_text(data@) is Some,
        r matches Some(s) ==> rtf_body_text(data@) == Some(s@),
{
    if !header_ok(data) {
        return None;
    }
    match decompress(data) {
        Some(rtf) => rtf_to_text(rtf.as_str()),
        None => None,
    }
}

/// The plain text of an RTF document, where the parser is given it and
/// reads it.
pub fn rtf_to_text(rtf: &str) -> (r: Option<String>)
    ensures
        r is Some <==> (rtf_parse_safe(rtf@) && rtf_plain_text(rtf@) is Some),
        r matches Some(s) ==> rtf_plain_text(rtf@) == Some(s@),
{
    let chars = str_chars(rtf);
    if parse_safe(&chars) {
        document_text(rtf)
    } else {
        None
    }
}

} // verus!
