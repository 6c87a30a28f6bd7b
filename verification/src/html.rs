//! Conversion of HTML to plain text for the preview pane.
//!
//! The text is produced in two passes. A scan from left to right drops tags,
//! turns block-level tags into line breaks, decodes character references and
//! collapses the white space of the source into single spaces. A second
//! pass drops the trailing white space of every line and keeps at most one
//! blank line in a row.

use crate::text::{
    bounded_value, drop_spaces, lemma_drop_spaces, lemma_prefix_len_bounds, chars_string, has_prefix, is_scalar_value, is_space, is_whitespace,
    lemma_prefix_len, lower_chars, lowered, parse_range, prefix_len, push_range, same_chars,
    str_chars, trim_end, trim_range, trimmed,
};
use vstd::prelude::*;

verus! {

/// What the scan knows after a prefix of the input.
pub struct ScanState {
    /// Between `<` and the next `>`.
    pub in_tag: bool,
    /// After a `style` tag and before its closing tag.
    pub in_style: bool,
    /// After a `script` tag and before its closing tag.
    pub in_script: bool,
    /// Between `&` and the next `;`.
    pub in_entity: bool,
    /// The characters of the tag read so far.
    pub tag: Seq<char>,
    /// The characters of the character reference read so far.
    pub entity: Seq<char>,
    /// The text produced so far.
    pub out: Seq<char>,
}

pub open spec fn scan_start() -> ScanState {
    ScanState {
        in_tag: false,
        in_style: false,
        in_script: false,
        in_entity: false,
        tag: Seq::empty(),
        entity: Seq::empty(),
        out: Seq::empty(),
    }
}

/// The leading part of `s` up to its first white space.
pub open spec fn first_word(s: Seq<char>) -> Seq<char> {
    s.take(prefix_len(s, |c: char| is_space(c)) as int)
}

/// The tag names, in small letters, that end a line.
pub open spec fn is_block_tag(t: Seq<char>) -> bool {
    ||| t == seq!['b', 'r']
    ||| t == seq!['b', 'r', '/']
    ||| t == seq!['p']
    ||| t == seq!['/', 'p']
    ||| t == seq!['d', 'i', 'v']
    ||| t == seq!['/', 'd', 'i', 'v']
    ||| t == seq!['t', 'r']
    ||| t == seq!['/', 't', 'r']
    ||| t == seq!['l', 'i']
    ||| t == seq!['/', 'l', 'i']
    ||| is_heading(t)
    ||| (t.len() > 0 && t[0] == '/' && is_heading(t.skip(1)))
}

/// `h1` to `h6`.
pub open spec fn is_heading(t: Seq<char>) -> bool {
    t.len() == 2 && t[0] == 'h' && '1' <= t[1] && t[1] <= '6'
}

/// The state after the `>` that ends the tag held in `s.tag`.
pub open spec fn close_tag(s: ScanState) -> ScanState {
    let name = lowered(trimmed(s.tag));
    let base = ScanState { in_tag: false, tag: Seq::empty(), ..s };
    if seq!['s', 't', 'y', 'l', 'e'].is_prefix_of(name) {
        ScanState { in_style: true, ..base }
    } else if seq!['/', 's', 't', 'y', 'l', 'e'].is_prefix_of(name) {
        ScanState { in_style: false, ..base }
    } else if seq!['s', 'c', 'r', 'i', 'p', 't'].is_prefix_of(name) {
        ScanState { in_script: true, ..base }
    } else if seq!['/', 's', 'c', 'r', 'i', 'p', 't'].is_prefix_of(name) {
        ScanState { in_script: false, ..base }
    } else if !s.in_style && !s.in_script && is_block_tag(first_word(name)) {
        ScanState { out: s.out.push('\n'), ..base }
    } else {
        base
    }
}

/// The number that `t` writes: an optional `+`, then one digit or more, with
/// a value that fits in 32 bits.
pub open spec fn parse_number(t: Seq<char>, hex: bool) -> Option<int> {
    if t.len() > 0 && t[0] == '+' {
        digits_number(t.skip(1), hex)
    } else {
        digits_number(t, hex)
    }
}

/// The number that the digits `d` write, where there is one digit or more
/// and the value fits in 32 bits.
pub open spec fn digits_number(d: Seq<char>, hex: bool) -> Option<int> {
    if d.len() > 0 {
        bounded_value(d, hex, u32::MAX as int)
    } else {
        None
    }
}

/// Reads `v[from..]` as a number of 32 bits.
pub fn parse_digits(v: &Vec<char>, from: usize, hex: bool) -> (r: Option<u32>)
    requires
        from <= v.len(),
    ensures
        r is Some <==> parse_number(v@.skip(from as int), hex) is Some,
        r matches Some(n) ==> parse_number(v@.skip(from as int), hex) == Some(n as int),
{
    let mut start: usize = from;
    if start < v.len() && v[start] == '+' {
        start += 1;
    }
    proof {
        if from < v.len() {
            assert(v@.skip(from as int).skip(1) =~= v@.skip(from + 1));
            assert(v@.skip(from as int)[0] == v@[from as int]);
        }
        assert(v@.subrange(start as int, v.len() as int) =~= v@.skip(start as int));
    }
    if start == v.len() {
        return None;
    }
    match parse_range(v, start, v.len(), hex, 0xFFFF_FFFF) {
        Some(n) => Some(n as u32),
        None => None,
    }
}


/// The character that the numeric reference `e` stands for; `e` begins with
/// `#` and holds what stood between `&` and `;`.
pub open spec fn char_ref(e: Seq<char>) -> Option<char> {
    let n = if e.len() >= 2 && (e[1] == 'x' || e[1] == 'X') {
        parse_number(e.skip(2), true)
    } else {
        parse_number(e.skip(1), false)
    };
    match n {
        Some(v) => if is_scalar_value(v) {
            Some(v as char)
        } else {
            None
        },
        None => None,
    }
}

/// The text that the reference `&e;` becomes. A reference that is not
/// known, or names no character, is kept as it was written.
pub open spec fn entity_text(e: Seq<char>) -> Seq<char> {
    if e == seq!['a', 'm', 'p'] {
        seq!['&']
    } else if e == seq!['l', 't'] {
        seq!['<']
    } else if e == seq!['g', 't'] {
        seq!['>']
    } else if e == seq!['q', 'u', 'o', 't'] {
        seq!['"']
    } else if e == seq!['a', 'p', 'o', 's'] {
        seq!['\'']
    } else if e == seq!['n', 'b', 's', 'p'] {
        seq![' ']
    } else if e.len() > 0 && e[0] == '#' && char_ref(e) is Some {
        seq![char_ref(e)->0]
    } else {
        seq!['&'] + e + seq![';']
    }
}

/// The white space of running text: space, tab, line feed and carriage
/// return. A run of it becomes one space, and none at the start of a line.
pub open spec fn is_inline_space(c: char) -> bool {
    c == ' ' || c == '\n' || c == '\r' || c == '\t'
}

/// The state after one more character.
pub open spec fn scan_step(s: ScanState, c: char) -> ScanState {
    if s.in_entity {
        if c == ';' {
            ScanState { in_entity: false, entity: Seq::empty(), out: s.out + entity_text(s.entity), ..s }
        } else {
            ScanState { entity: s.entity.push(c), ..s }
        }
    } else if s.in_tag {
        if c == '>' {
            close_tag(s)
        } else {
            ScanState { tag: s.tag.push(c), ..s }
        }
    } else if c == '<' {
        ScanState { in_tag: true, tag: Seq::empty(), ..s }
    } else if s.in_style || s.in_script {
        s
    } else if c == '&' {
        ScanState { in_entity: true, entity: Seq::empty(), ..s }
    } else if is_inline_space(c) {
        if s.out.len() > 0 && s.out.last() != ' ' && s.out.last() != '\n' {
            ScanState { out: s.out.push(' '), ..s }
        } else {
            s
        }
    } else {
        ScanState { out: s.out.push(c), ..s }
    }
}

/// The state after all of `html`.
pub open spec fn scan(html: Seq<char>) -> ScanState
    decreases html.len(),
{
    if html.len() == 0 {
        scan_start()
    } else {
        scan_step(scan(html.drop_last()), html.last())
    }
}

/// The text of the first pass: a reference that the input ends in is decoded
/// as if it had been closed, an unfinished tag is dropped.
pub open spec fn scanned_text(html: Seq<char>) -> Seq<char> {
    let s = scan(html);
    if s.in_entity {
        s.out + entity_text(s.entity)
    } else {
        s.out
    }
}

/// The second pass. The lines of `s` end at each line feed; every line is
/// written without its trailing white space and with a line feed behind
/// it, but a blank line that follows a blank line is left out.
/// `after_blank` says whether the line before `s` was blank.
pub open spec fn tidy(s: Seq<char>, after_blank: bool) -> Seq<char>
    decreases s.len(),
{
    if s.len() == 0 {
        Seq::empty()
    } else {
        let n = prefix_len(s, |c: char| c == '\n');
        let line = drop_spaces(s.take(n as int));
        let rest = if n < s.len() {
            s.skip(n as int + 1)
        } else {
            Seq::empty()
        };
        if line.len() == 0 {
            (if after_blank {
                Seq::empty()
            } else {
                seq!['\n']
            }) + tidy(rest, true)
        } else {
            line.push('\n') + tidy(rest, false)
        }
    }
}

/// The plain text of an HTML document.
pub open spec fn html_text(html: Seq<char>) -> Seq<char> {
    tidy(scanned_text(html), false)
}

fn char_of_ref(e: &Vec<char>) -> (r: Option<char>)
    requires
        e.len() > 0,
    ensures
        r == char_ref(e@),
{
    let n = if e.len() >= 2 && (e[1] == 'x' || e[1] == 'X') {
        parse_digits(e, 2, true)
    } else {
        parse_digits(e, 1, false)
    };
    match n {
        Some(v) => char::from_u32(v),
        None => None,
    }
}

/// Appends to `out` what the reference `&e;` becomes.
fn push_entity(out: &mut Vec<char>, e: &Vec<char>)
    ensures
        final(out)@ == old(out)@ + entity_text(e@),
{
    if same_chars(e, &vec!['a', 'm', 'p']) {
        out.push('&');
        proof {
            assert(out@ =~= old(out)@ + seq!['&']);
        }
    } else if same_chars(e, &vec!['l', 't']) {
        out.push('<');
        proof {
            assert(out@ =~= old(out)@ + seq!['<']);
        }
    } else if same_chars(e, &vec!['g', 't']) {
        out.push('>');
        proof {
            assert(out@ =~= old(out)@ + seq!['>']);
        }
    } else if same_chars(e, &vec!['q', 'u', 'o', 't']) {
        out.push('"');
        proof {
            assert(out@ =~= old(out)@ + seq!['"']);
        }
    } else if same_chars(e, &vec!['a', 'p', 'o', 's']) {
        out.push('\'');
        proof {
            assert(out@ =~= old(out)@ + seq!['\'']);
        }
    } else if same_chars(e, &vec!['n', 'b', 's', 'p']) {
        out.push(' ');
        proof {
            assert(out@ =~= old(out)@ + seq![' ']);
        }
    } else {
        let decoded = if e.len() > 0 && e[0] == '#' {
            char_of_ref(e)
        } else {
            None
        };
        match decoded {
            Some(c) => {
                out.push(c);
                proof {
                    assert(out@ =~= old(out)@ + seq![c]);
                }
            },
            None => {
                out.push('&');
                push_range(out, e, 0, e.len());
                out.push(';');
                proof {
                    assert(e@.subrange(0, e.len() as int) =~= e@);
                    assert(out@ =~= old(out)@ + (seq!['&'] + e@ + seq![';']));
                }
            },
        }
    }
}

fn heading(t: &Vec<char>, from: usize) -> (r: bool)
    requires
        from <= t.len(),
    ensures
        r == is_heading(t@.skip(from as int)),
{
    t.len() - from == 2 && t[from] == 'h' && '1' <= t[from + 1] && t[from + 1] <= '6'
}

fn block_tag(t: &Vec<char>) -> (r: bool)
    ensures
        r == is_block_tag(t@),
{
    proof {
        assert(t@.skip(0) =~= t@);
    }
    let br = same_chars(t, &vec!['b', 'r']);
    let br_slash = same_chars(t, &vec!['b', 'r', '/']);
    let single = vec!['p'];
    proof {
        assert(single@ =~= seq!['p']);
    }
    let p = same_chars(t, &single);
    let p_end = same_chars(t, &vec!['/', 'p']);
    let div = same_chars(t, &vec!['d', 'i', 'v']);
    let div_end = same_chars(t, &vec!['/', 'd', 'i', 'v']);
    let tr = same_chars(t, &vec!['t', 'r']);
    let tr_end = same_chars(t, &vec!['/', 't', 'r']);
    let li = same_chars(t, &vec!['l', 'i']);
    let li_end = same_chars(t, &vec!['/', 'l', 'i']);
    let plain = br || br_slash || p || div || tr || li;
    let closing = p_end || div_end || tr_end || li_end;
    let heads = heading(t, 0) || (t.len() > 0 && t[0] == '/' && heading(t, 1));
    plain || closing || heads
}

/// The leading part of `v` up to its first white space.
fn leading_word(v: &Vec<char>) -> (r: Vec<char>)
    ensures
        r@ == first_word(v@),
{
    let mut n: usize = 0;
    while n < v.len() && !is_whitespace(v[n])
        invariant
            n <= v.len(),
            forall|k: int| 0 <= k < n ==> !is_space(#[trigger] v@[k]),
        decreases v.len() - n,
    {
        n += 1;
    }
    proof {
        lemma_prefix_len(v@, |c: char| is_space(c), n as nat);
    }
    let mut r: Vec<char> = Vec::new();
    push_range(&mut r, v, 0, n);
    proof {
        assert(r@ =~= v@.take(n as int));
    }
    r
}

/// The scan of the first pass, one character at a time.
struct Scanner {
    in_tag: bool,
    in_style: bool,
    in_script: bool,
    in_entity: bool,
    tag: Vec<char>,
    entity: Vec<char>,
    out: Vec<char>,
}

impl View for Scanner {
    type V = ScanState;

    closed spec fn view(&self) -> ScanState {
        ScanState {
            in_tag: self.in_tag,
            in_style: self.in_style,
            in_script: self.in_script,
            in_entity: self.in_entity,
            tag: self.tag@,
            entity: self.entity@,
            out: self.out@,
        }
    }
}

impl Scanner {
    fn new() -> (r: Scanner)
        ensures
            r@ == scan_start(),
    {
        Scanner {
            in_tag: false,
            in_style: false,
            in_script: false,
            in_entity: false,
            tag: Vec::new(),
            entity: Vec::new(),
            out: Vec::new(),
        }
    }

    fn close_tag(&mut self)
        ensures
            final(self)@ == close_tag(old(self)@),
    {
        let whole: usize = self.tag.len();
        let (a, b) = trim_range(&self.tag, 0, whole);
        let mut bare: Vec<char> = Vec::new();
        push_range(&mut bare, &self.tag, a, b);
        proof {
            assert(self.tag@.subrange(0, whole as int) =~= self.tag@);
            assert(bare@ =~= trimmed(self.tag@));
        }
        let name = lower_chars(&bare);
        if has_prefix(&name, &vec!['s', 't', 'y', 'l', 'e']) {
            self.in_style = true;
        } else if has_prefix(&name, &vec!['/', 's', 't', 'y', 'l', 'e']) {
            self.in_style = false;
        } else if has_prefix(&name, &vec!['s', 'c', 'r', 'i', 'p', 't']) {
            self.in_script = true;
        } else if has_prefix(&name, &vec!['/', 's', 'c', 'r', 'i', 'p', 't']) {
            self.in_script = false;
        } else if !self.in_style && !self.in_script {
            let word = leading_word(&name);
            if block_tag(&word) {
                self.out.push('\n');
            }
        }
        self.tag = Vec::new();
        self.in_tag = false;
    }

    fn step(&mut self, c: char)
        ensures
            final(self)@ == scan_step(old(self)@, c),
    {
        if self.in_entity {
            if c == ';' {
                push_entity(&mut self.out, &self.entity);
                self.entity = Vec::new();
                self.in_entity = false;
            } else {
                self.entity.push(c);
            }
        } else if self.in_tag {
            if c == '>' {
                self.close_tag();
            } else {
                self.tag.push(c);
            }
        } else if c == '<' {
            self.in_tag = true;
            self.tag = Vec::new();
        } else if self.in_style || self.in_script {
        } else if c == '&' {
            self.in_entity = true;
            self.entity = Vec::new();
        } else if c == ' ' || c == '\n' || c == '\r' || c == '\t' {
            let n: usize = self.out.len();
            if n > 0 && self.out[n - 1] != ' ' && self.out[n - 1] != '\n' {
                self.out.push(' ');
            }
        } else {
            self.out.push(c);
        }
    }

    fn finish(self) -> (out: Vec<char>)
        ensures
            out@ == (if self@.in_entity {
                self@.out + entity_text(self@.entity)
            } else {
                self@.out
            }),
    {
        let mut out = self.out;
        if self.in_entity {
            push_entity(&mut out, &self.entity);
        }
        out
    }
}

/// The first pass over the characters of an HTML document.
pub fn scan_chars(html: &Vec<char>) -> (out: Vec<char>)
    ensures
        out@ == scanned_text(html@),
{
    let mut scanner = Scanner::new();
    let mut i: usize = 0;
    while i < html.len()
        invariant
            i <= html.len(),
            scanner@ == scan(html@.take(i as int)),
        decreases html.len() - i,
    {
        proof {
            assert(html@.take(i + 1).drop_last() =~= html@.take(i as int));
        }
        scanner.step(html[i]);
        i += 1;
    }
    proof {
        assert(html@.take(html.len() as int) =~= html@);
    }
    scanner.finish()
}

/// The second pass: drops the trailing white space of every line of `text`
/// and keeps at most one blank line in a row.
pub fn tidy_lines(text: &Vec<char>) -> (r: Vec<char>)
    ensures
        r@ == tidy(text@, false),
{
    let mut r: Vec<char> = Vec::new();
    let mut i: usize = 0;
    let mut after_blank = false;
    proof {
        assert(text@.skip(0) =~= text@);
        assert(r@ + tidy(text@, false) =~= tidy(text@, false));
    }
    while i < text.len()
        invariant
            i <= text.len(),
            r@ + tidy(text@.skip(i as int), after_blank) == tidy(text@, false),
        decreases text.len() - i,
    {
        let mut j: usize = i;
        while j < text.len() && text[j] != '\n'
            invariant
                i <= j <= text.len(),
                forall|k: int| i <= k < j ==> text@[k] != '\n',
            decreases text.len() - j,
        {
            j += 1;
        }
        let ghost s = text@.skip(i as int);
        let ghost before = r@;
        proof {
            assert forall|k: int| 0 <= k < j - i implies !(|c: char| c == '\n')(#[trigger] s[k]) by {
                assert(s[k] == text@[i + k]);
            }
            lemma_prefix_len(s, |c: char| c == '\n', (j - i) as nat);
            assert(s.take(j - i) =~= text@.subrange(i as int, j as int));
        }
        let a: usize = i;
        let b: usize = trim_end(text, i, j);
        let next: usize = if j < text.len() {
            j + 1
        } else {
            j
        };
        let ghost rest = if j - i < s.len() {
            s.skip(j - i + 1)
        } else {
            Seq::empty()
        };
        proof {
            assert(rest =~= text@.skip(next as int));
        }
        if a == b {
            if !after_blank {
                r.push('\n');
            }
            proof {
                let lead = if after_blank {
                    Seq::<char>::empty()
                } else {
                    seq!['\n']
                };
                assert(r@ =~= before + lead);
                assert(tidy(s, after_blank) == lead + tidy(rest, true));
                assert(r@ + tidy(rest, true) =~= before + (lead + tidy(rest, true)));
            }
            after_blank = true;
        } else {
            push_range(&mut r, text, a, b);
            r.push('\n');
            proof {
                let line = text@.subrange(a as int, b as int);
                assert(r@ =~= before + line.push('\n'));
                assert(tidy(s, after_blank) == line.push('\n') + tidy(rest, false));
                assert(r@ + tidy(rest, false) =~= before + (line.push('\n') + tidy(rest, false)));
            }
            after_blank = false;
        }
        i = next;
    }
    proof {
        assert(text@.skip(text.len() as int) =~= Seq::<char>::empty());
        assert(r@ + Seq::<char>::empty() =~= r@);
    }
    r
}

/// Plain text for display from an HTML document: tags are dropped, block
/// tags end a line, character references are decoded, and what lies inside
/// `style` and `script` is left out.
pub fn html_to_text(html: &str) -> (text: String)
    ensures
        text@ == html_text(html@),
{
    let chars = str_chars(html);
    let scanned = scan_chars(&chars);
    let tidied = tidy_lines(&scanned);
    chars_string(&tidied)
}

/// Whether three line feeds in a row stand at `r[i]`: two blank lines, one
/// behind the other.
pub open spec fn wide_gap_at(r: Seq<char>, i: int) -> bool {
    0 <= i && i + 2 < r.len() && r[i] == '\n' && r[i + 1] == '\n' && r[i + 2] == '\n'
}

/// Whether `r` never holds two blank lines in a row.
pub open spec fn gaps_narrow(r: Seq<char>) -> bool {
    forall|i: int| !wide_gap_at(r, i)
}

/// Whether `r` begins with `n` line feeds.
pub open spec fn begins_with_feeds(r: Seq<char>, n: int) -> bool {
    r.len() >= n && forall|k: int| 0 <= k < n ==> r[k] == '\n'
}

/// Whether the line feed at `r[i]` stands behind white space of its line.
pub open spec fn ragged_at(r: Seq<char>, i: int) -> bool {
    0 < i < r.len() && r[i] == '\n' && r[i - 1] != '\n' && is_space(r[i - 1])
}

/// Whether no line of `r` ends in white space.
pub open spec fn line_ends_clean(r: Seq<char>) -> bool {
    forall|i: int| !ragged_at(r, i)
}

/// A line without trailing white space, with its line feed.
proof fn lemma_one_line(line: Seq<char>)
    requires
        line.len() > 0,
        !is_space(line.last()),
        forall|k: int| 0 <= k < line.len() ==> line[k] != '\n',
    ensures
        gaps_narrow(line.push('\n')),
        line_ends_clean(line.push('\n')),
        !begins_with_feeds(line.push('\n'), 1),
{
    let r = line.push('\n');
    assert(r[0] == line[0]);
    assert forall|i: int| !wide_gap_at(r, i) by {
        if wide_gap_at(r, i) {
            assert(r[i] == line[i]);
        }
    }
    assert forall|i: int| !ragged_at(r, i) by {
        if ragged_at(r, i) {
            if i < line.len() {
                assert(r[i] == line[i]);
            } else {
                assert(r[i - 1] == line.last());
            }
        }
    }
}

/// What follows a line feed, where it begins with too few line feeds for a
/// second blank line.
proof fn lemma_join(head: Seq<char>, tail: Seq<char>, feeds: int)
    requires
        head.len() > 0,
        head.last() == '\n',
        gaps_narrow(head),
        gaps_narrow(tail),
        line_ends_clean(head),
        line_ends_clean(tail),
        1 <= feeds <= 2,
        !begins_with_feeds(tail, feeds),
        feeds == 1 || !(head.len() >= 2 && head[head.len() - 2] == '\n'),
    ensures
        gaps_narrow(head + tail),
        line_ends_clean(head + tail),
{
    let r = head + tail;
    let h = head.len() as int;
    assert forall|i: int| !ragged_at(r, i) by {
        if ragged_at(r, i) {
            if i < h {
                assert(ragged_at(head, i));
            } else if i > h {
                assert(r[i] == tail[i - h]);
                assert(r[i - 1] == tail[i - h - 1]);
                assert(ragged_at(tail, i - h));
            } else {
                assert(r[i - 1] == head.last());
            }
        }
    }
    assert forall|i: int| !wide_gap_at(r, i) by {
        if wide_gap_at(r, i) {
            if i + 2 < h {
                assert(wide_gap_at(head, i));
            } else if i >= h {
                assert(r[i] == tail[i - h]);
                assert(r[i + 1] == tail[i - h + 1]);
                assert(r[i + 2] == tail[i - h + 2]);
                assert(wide_gap_at(tail, i - h));
            } else if i + 1 == h {
                assert(r[i + 1] == tail[0]);
                assert(r[i + 2] == tail[1]);
                assert(begins_with_feeds(tail, 2));
                assert(begins_with_feeds(tail, 1));
            } else {
                assert(r[i] == head[h - 2]);
                assert(r[i + 2] == tail[0]);
                assert(begins_with_feeds(tail, 1));
            }
        }
    }
}

/// The text of the second pass never holds two blank lines in a row, has no
/// line that ends in white space, is empty or ends in a line feed, begins
/// with one blank line at most, and with none behind a blank line.
pub proof fn lemma_tidy_lines(s: Seq<char>, after_blank: bool)
    ensures
        gaps_narrow(tidy(s, after_blank)),
        line_ends_clean(tidy(s, after_blank)),
        tidy(s, after_blank).len() > 0 ==> tidy(s, after_blank).last() == '\n',
        !begins_with_feeds(tidy(s, after_blank), 2),
        after_blank ==> !begins_with_feeds(tidy(s, after_blank), 1),
    decreases s.len(),
{
    let r = tidy(s, after_blank);
    if s.len() > 0 {
        let stop = |c: char| c == '\n';
        let n = prefix_len(s, stop);
        lemma_prefix_len_bounds(s, stop);
        let whole = s.take(n as int);
        let line = drop_spaces(whole);
        lemma_drop_spaces(whole);
        let rest = if n < s.len() {
            s.skip(n as int + 1)
        } else {
            Seq::empty()
        };
        if line.len() == 0 {
            lemma_tidy_lines(rest, true);
            let tail = tidy(rest, true);
            if after_blank {
                assert(r =~= tail);
            } else {
                let head = seq!['\n'];
                assert(r =~= head + tail);
                assert(gaps_narrow(head));
                assert(line_ends_clean(head));
                lemma_join(head, tail, 1);
                if begins_with_feeds(r, 2) {
                    assert(tail[0] == r[1]);
                    assert(begins_with_feeds(tail, 1));
                }
                if tail.len() > 0 {
                    assert(r.last() == tail.last());
                }
            }
        } else {
            assert forall|k: int| 0 <= k < line.len() implies line[k] != '\n' by {
                assert(line[k] == whole[k]);
                assert(whole[k] == s[k]);
                assert(!stop(s[k]));
            }
            lemma_tidy_lines(rest, false);
            let tail = tidy(rest, false);
            let head = line.push('\n');
            assert(r =~= head + tail);
            lemma_one_line(line);
            assert(head[head.len() - 2] == line.last());
            lemma_join(head, tail, 2);
            assert(r[0] == line[0]);
            if tail.len() > 0 {
                assert(r.last() == tail.last());
            } else {
                assert(r.last() == head.last());
            }
        }
    } else {
        assert(r =~= Seq::<char>::empty());
    }
}

/// The plain text of any HTML document is empty or ends in a line feed,
/// has no line that ends in white space, and never two blank lines in a
/// row.
pub proof fn lemma_html_text_lines(html: Seq<char>)
    ensures
        html_text(html).len() > 0 ==> html_text(html).last() == '\n',
        gaps_narrow(html_text(html)),
        line_ends_clean(html_text(html)),
{
    lemma_tidy_lines(scanned_text(html), false);
}

} // verus!
