//! Character-level helpers shared by the rest of the crate.

use vstd::prelude::*;
use vstd::std_specs::iter::IteratorSpec;

verus! {

broadcast use vstd::string::group_string_axioms;

/// `String::push` appends one character to the end of the string.
pub assume_specification[ String::push ](s: &mut String, ch: char)
    ensures
        final(s)@ == old(s)@.push(ch),
;

/// `String::pop` removes the last character and returns it; an empty string
/// stays as it is.
pub assume_specification[ String::pop ](s: &mut String) -> (r: Option<char>)
    ensures
        old(s)@.len() > 0 ==> r == Some(old(s)@.last()) && final(s)@ == old(s)@.drop_last(),
        old(s)@.len() == 0 ==> r is None && final(s)@ == old(s)@,
;

/// The characters of a string that may be absent.
pub open spec fn opt_text(s: Option<String>) -> Option<Seq<char>> {
    match s {
        Some(t) => Some(t@),
        None => None,
    }
}

/// `char::from_u32` gives the character with the given scalar value, and
/// nothing for a surrogate or a value past U+10FFFF.
pub assume_specification[ char::from_u32 ](i: u32) -> (r: Option<char>)
    ensures
        r == (if is_scalar_value(i as int) {
            Some((i as int) as char)
        } else {
            None
        }),
;

/// Whether `n` is a Unicode scalar value.
pub open spec fn is_scalar_value(n: int) -> bool {
    0 <= n <= 0xD7FF || 0xE000 <= n <= 0x10FFFF
}

/// The characters of a string slice, in order.
pub fn str_chars(s: &str) -> (v: Vec<char>)
    ensures
        v@ == s@,
{
    let mut it = s.chars();
    let mut v: Vec<char> = Vec::new();
    loop
        invariant
            v@ + it.remaining() == s@,
            it.decrease() is Some,
        decreases it.decrease()->0,
    {
        let ghost before = it;
        match it.next() {
            Some(c) => {
                proof {
                    assert(v@.push(c) + it.remaining() =~= v@ + before.remaining());
                }
                v.push(c);
            },
            None => {
                proof {
                    assert(v@ + Seq::<char>::empty() =~= v@);
                }
                return v;
            },
        }
    }
}

/// A string holding the given characters, in order.
pub fn chars_string(v: &Vec<char>) -> (s: String)
    ensures
        s@ == v@,
{
    let mut s = String::new();
    let mut i: usize = 0;
    while i < v.len()
        invariant
            i <= v.len(),
            s@ == v@.take(i as int),
        decreases v.len() - i,
    {
        s.push(v[i]);
        proof {
            assert(v@.take(i as int).push(v@[i as int]) =~= v@.take(i + 1));
        }
        i += 1;
    }
    proof {
        assert(v@.take(v.len() as int) =~= v@);
    }
    s
}

/// Whether `c` has the Unicode property White_Space.
pub open spec fn is_space(c: char) -> bool {
    let n = c as int;
    ||| 0x09 <= n <= 0x0D
    ||| n == 0x20
    ||| n == 0x85
    ||| n == 0xA0
    ||| n == 0x1680
    ||| 0x2000 <= n <= 0x200A
    ||| n == 0x2028
    ||| n == 0x2029
    ||| n == 0x202F
    ||| n == 0x205F
    ||| n == 0x3000
}

pub fn is_whitespace(c: char) -> (b: bool)
    ensures
        b == is_space(c),
{
    let n: u32 = c as u32;
    (0x09 <= n && n <= 0x0D) || n == 0x20 || n == 0x85 || n == 0xA0 || n == 0x1680 || (0x2000 <= n
        && n <= 0x200A) || n == 0x2028 || n == 0x2029 || n == 0x202F || n == 0x205F || n == 0x3000
}

/// `c` with an ASCII capital replaced by its small letter.
pub open spec fn lower(c: char) -> char {
    if 'A' <= c && c <= 'Z' {
        ((c as u8) + 32) as char
    } else {
        c
    }
}

pub fn ascii_lower(c: char) -> (r: char)
    ensures
        r == lower(c),
{
    if 'A' <= c && c <= 'Z' {
        ((c as u8) + 32) as char
    } else {
        c
    }
}

/// Whether `c` is a control character: one of U+0000 to U+001F or of
/// U+007F to U+009F.
pub open spec fn is_control(c: char) -> bool {
    c as int <= 0x1F || 0x7F <= c as int <= 0x9F
}

pub fn is_control_char(c: char) -> (b: bool)
    ensures
        b == is_control(c),
{
    let n: u32 = c as u32;
    n <= 0x1F || (0x7F <= n && n <= 0x9F)
}

/// `c` with an ASCII small letter replaced by its capital.
pub open spec fn upper(c: char) -> char {
    if 'a' <= c && c <= 'z' {
        ((c as u8) - 32) as char
    } else {
        c
    }
}

pub fn ascii_upper(c: char) -> (r: char)
    ensures
        r == upper(c),
{
    if 'a' <= c && c <= 'z' {
        ((c as u8) - 32) as char
    } else {
        c
    }
}

/// `s` with every ASCII small letter replaced by its capital.
pub open spec fn uppered(s: Seq<char>) -> Seq<char> {
    Seq::new(s.len(), |i: int| upper(s[i]))
}

pub fn upper_chars(v: &Vec<char>) -> (r: Vec<char>)
    ensures
        r@ == uppered(v@),
{
    let mut r: Vec<char> = Vec::new();
    let mut i: usize = 0;
    while i < v.len()
        invariant
            i <= v.len(),
            r@ == uppered(v@.take(i as int)),
        decreases v.len() - i,
    {
        r.push(ascii_upper(v[i]));
        proof {
            assert(r@ =~= uppered(v@.take(i + 1)));
        }
        i += 1;
    }
    proof {
        assert(v@.take(v.len() as int) =~= v@);
    }
    r
}

/// `s` with every ASCII capital replaced by its small letter.
pub open spec fn lowered(s: Seq<char>) -> Seq<char> {
    Seq::new(s.len(), |i: int| lower(s[i]))
}

pub fn lower_chars(v: &Vec<char>) -> (r: Vec<char>)
    ensures
        r@ == lowered(v@),
{
    let mut r: Vec<char> = Vec::new();
    let mut i: usize = 0;
    while i < v.len()
        invariant
            i <= v.len(),
            r@ == lowered(v@.take(i as int)),
        decreases v.len() - i,
    {
        r.push(ascii_lower(v[i]));
        proof {
            assert(r@ =~= lowered(v@.take(i + 1)));
        }
        i += 1;
    }
    proof {
        assert(v@.take(v.len() as int) =~= v@);
    }
    r
}

/// The number of leading characters of `s` before the first one that `stop`
/// holds of; the length of `s` where there is none.
pub open spec fn prefix_len(s: Seq<char>, stop: spec_fn(char) -> bool) -> nat
    decreases s.len(),
{
    if s.len() == 0 || stop(s[0]) {
        0
    } else {
        1 + prefix_len(s.skip(1), stop)
    }
}

pub proof fn lemma_prefix_len(s: Seq<char>, stop: spec_fn(char) -> bool, n: nat)
    requires
        n <= s.len(),
        forall|k: int| 0 <= k < n ==> !stop(#[trigger] s[k]),
        n == s.len() || stop(s[n as int]),
    ensures
        prefix_len(s, stop) == n,
    decreases s.len(),
{
    if n > 0 {
        let t = s.skip(1);
        assert forall|k: int| 0 <= k < n - 1 implies !stop(#[trigger] t[k]) by {
            assert(t[k] == s[k + 1]);
        }
        lemma_prefix_len(t, stop, (n - 1) as nat);
    }
}

/// No character before the end of the prefix is one that `stop` holds of,
/// and the prefix ends where `s` does or at such a character.
pub proof fn lemma_prefix_len_bounds(s: Seq<char>, stop: spec_fn(char) -> bool)
    ensures
        prefix_len(s, stop) <= s.len(),
        forall|k: int| 0 <= k < prefix_len(s, stop) ==> !stop(#[trigger] s[k]),
        prefix_len(s, stop) < s.len() ==> stop(s[prefix_len(s, stop) as int]),
    decreases s.len(),
{
    if s.len() > 0 && !stop(s[0]) {
        let t = s.skip(1);
        lemma_prefix_len_bounds(t, stop);
        assert forall|k: int| 0 <= k < prefix_len(s, stop) implies !stop(#[trigger] s[k]) by {
            if k > 0 {
                assert(s[k] == t[k - 1]);
            }
        }
        if prefix_len(s, stop) < s.len() {
            assert(s[prefix_len(s, stop) as int] == t[prefix_len(t, stop) as int]);
        }
    }
}

/// `s` without its leading white space.
pub open spec fn skip_spaces(s: Seq<char>) -> Seq<char>
    decreases s.len(),
{
    if s.len() > 0 && is_space(s[0]) {
        skip_spaces(s.skip(1))
    } else {
        s
    }
}

/// `s` without its trailing white space.
pub open spec fn drop_spaces(s: Seq<char>) -> Seq<char>
    decreases s.len(),
{
    if s.len() > 0 && is_space(s.last()) {
        drop_spaces(s.drop_last())
    } else {
        s
    }
}

/// What is left of `s` without its trailing white space is a leading part
/// of `s` that does not end in white space.
pub proof fn lemma_drop_spaces(s: Seq<char>)
    ensures
        drop_spaces(s).len() <= s.len(),
        drop_spaces(s) == s.take(drop_spaces(s).len() as int),
        drop_spaces(s).len() > 0 ==> !is_space(drop_spaces(s).last()),
    decreases s.len(),
{
    if s.len() > 0 && is_space(s.last()) {
        let t = s.drop_last();
        lemma_drop_spaces(t);
        assert(t.take(drop_spaces(t).len() as int) =~= s.take(drop_spaces(t).len() as int));
    } else {
        assert(s.take(s.len() as int) =~= s);
    }
}

/// `s` without its leading and trailing white space.
pub open spec fn trimmed(s: Seq<char>) -> Seq<char> {
    drop_spaces(skip_spaces(s))
}

/// The bounds of `v[lo..hi]` once its leading and trailing white space is
/// left out.
pub fn trim_range(v: &Vec<char>, lo: usize, hi: usize) -> (r: (usize, usize))
    requires
        lo <= hi <= v.len(),
    ensures
        lo <= r.0 <= r.1 <= hi,
        v@.subrange(r.0 as int, r.1 as int) == trimmed(v@.subrange(lo as int, hi as int)),
{
    let mut a: usize = lo;
    while a < hi && is_whitespace(v[a])
        invariant
            lo <= a <= hi <= v.len(),
            skip_spaces(v@.subrange(a as int, hi as int)) == skip_spaces(
                v@.subrange(lo as int, hi as int),
            ),
        decreases hi - a,
    {
        proof {
            assert(v@.subrange(a as int, hi as int).skip(1) =~= v@.subrange(a + 1, hi as int));
        }
        a += 1;
    }
    let b: usize = trim_end(v, a, hi);
    (a, b)
}

/// The end of `v[lo..hi]` once its trailing white space is left out.
pub fn trim_end(v: &Vec<char>, lo: usize, hi: usize) -> (b: usize)
    requires
        lo <= hi <= v.len(),
    ensures
        lo <= b <= hi,
        v@.subrange(lo as int, b as int) == drop_spaces(v@.subrange(lo as int, hi as int)),
{
    let mut b: usize = hi;
    while lo < b && is_whitespace(v[b - 1])
        invariant
            lo <= b <= hi <= v.len(),
            drop_spaces(v@.subrange(lo as int, b as int)) == drop_spaces(
                v@.subrange(lo as int, hi as int),
            ),
        decreases b - lo,
    {
        proof {
            assert(v@.subrange(lo as int, b as int).drop_last() =~= v@.subrange(lo as int, b - 1));
        }
        b -= 1;
    }
    b
}

/// Appends `v[lo..hi]` to `dst`.
pub fn push_range(dst: &mut Vec<char>, v: &Vec<char>, lo: usize, hi: usize)
    requires
        lo <= hi <= v.len(),
    ensures
        final(dst)@ == old(dst)@ + v@.subrange(lo as int, hi as int),
{
    let mut i: usize = lo;
    while i < hi
        invariant
            lo <= i <= hi <= v.len(),
            dst@ == old(dst)@ + v@.subrange(lo as int, i as int),
        decreases hi - i,
    {
        dst.push(v[i]);
        proof {
            assert(v@.subrange(lo as int, i as int).push(v@[i as int]) =~= v@.subrange(
                lo as int,
                i + 1,
            ));
            assert(dst@ =~= old(dst)@ + v@.subrange(lo as int, i + 1));
        }
        i += 1;
    }
}

pub fn same_chars(a: &Vec<char>, b: &Vec<char>) -> (r: bool)
    ensures
        r == (a@ == b@),
{
    if a.len() != b.len() {
        return false;
    }
    let mut i: usize = 0;
    while i < a.len()
        invariant
            i <= a.len(),
            a.len() == b.len(),
            a@.take(i as int) == b@.take(i as int),
        decreases a.len() - i,
    {
        if a[i] != b[i] {
            return false;
        }
        proof {
            assert(a@.take(i + 1) =~= a@.take(i as int).push(a@[i as int]));
            assert(b@.take(i + 1) =~= b@.take(i as int).push(b@[i as int]));
        }
        i += 1;
    }
    proof {
        assert(a@.take(a.len() as int) =~= a@);
        assert(b@.take(b.len() as int) =~= b@);
    }
    true
}

/// Whether `needle` stands in `hay` at index `i`.
pub open spec fn occurs_at(hay: Seq<char>, needle: Seq<char>, i: int) -> bool {
    0 <= i && i + needle.len() <= hay.len() && hay.subrange(i, i + needle.len()) == needle
}

/// Whether `needle` is a contiguous part of `hay`.
pub open spec fn contains_seq(hay: Seq<char>, needle: Seq<char>) -> bool {
    exists|i: int| occurs_at(hay, needle, i)
}

pub fn matches_at(hay: &Vec<char>, needle: &Vec<char>, at: usize) -> (r: bool)
    ensures
        r == occurs_at(hay@, needle@, at as int),
{
    if at > hay.len() || needle.len() > hay.len() - at {
        return false;
    }
    let mut k: usize = 0;
    while k < needle.len()
        invariant
            k <= needle.len(),
            at + needle.len() <= hay.len(),
            hay@.subrange(at as int, at + k) == needle@.take(k as int),
        decreases needle.len() - k,
    {
        if hay[at + k] != needle[k] {
            proof {
                assert(hay@.subrange(at as int, at + needle.len())[k as int] != needle@[k as int]);
            }
            return false;
        }
        proof {
            assert(hay@.subrange(at as int, at + k + 1) =~= hay@.subrange(at as int, at + k).push(
                hay@[at + k],
            ));
            assert(needle@.take(k + 1) =~= needle@.take(k as int).push(needle@[k as int]));
        }
        k += 1;
    }
    proof {
        assert(needle@.take(needle.len() as int) =~= needle@);
    }
    true
}

/// Whether `v` begins with `prefix`.
pub fn has_prefix(v: &Vec<char>, prefix: &Vec<char>) -> (r: bool)
    ensures
        r == prefix@.is_prefix_of(v@),
{
    let r = matches_at(v, prefix, 0);
    proof {
        if prefix@.len() <= v@.len() {
            assert(v@.subrange(0, prefix@.len() as int) =~= v@.take(prefix@.len() as int));
        }
        assert(r == prefix@.is_prefix_of(v@));
    }
    r
}

pub fn contains_chars(hay: &Vec<char>, needle: &Vec<char>) -> (r: bool)
    ensures
        r == contains_seq(hay@, needle@),
{
    if needle.len() > hay.len() {
        return false;
    }
    let last: usize = hay.len() - needle.len();
    let mut i: usize = 0;
    while i < last
        invariant
            i <= last,
            last == hay.len() - needle.len(),
            needle.len() <= hay.len(),
            forall|j: int| 0 <= j < i ==> !occurs_at(hay@, needle@, j),
        decreases last - i,
    {
        if matches_at(hay, needle, i) {
            return true;
        }
        i += 1;
    }
    matches_at(hay, needle, last)
}

/// The value of `c` as a digit, decimal or hexadecimal.
pub open spec fn digit_of(c: char, hex: bool) -> Option<int> {
    if '0' <= c && c <= '9' {
        Some(c as int - '0' as int)
    } else if hex && 'a' <= c && c <= 'f' {
        Some(c as int - 'a' as int + 10)
    } else if hex && 'A' <= c && c <= 'F' {
        Some(c as int - 'A' as int + 10)
    } else {
        None
    }
}

pub open spec fn all_digits(d: Seq<char>, hex: bool) -> bool {
    forall|i: int| 0 <= i < d.len() ==> (#[trigger] digit_of(d[i], hex)) is Some
}

/// The number that the digits `d` write, most significant digit first.
pub open spec fn digits_value(d: Seq<char>, hex: bool) -> int
    decreases d.len(),
{
    if d.len() == 0 {
        0
    } else {
        let high = digits_value(d.drop_last(), hex);
        let low = match digit_of(d.last(), hex) {
            Some(k) => k,
            None => 0,
        };
        if hex {
            16 * high + low
        } else {
            10 * high + low
        }
    }
}

/// The number that the digits `d` write, where every character is a digit
/// and the value is `limit` at most. No digits write 0.
pub open spec fn bounded_value(d: Seq<char>, hex: bool, limit: int) -> Option<int> {
    if all_digits(d, hex) && digits_value(d, hex) <= limit {
        Some(digits_value(d, hex))
    } else {
        None
    }
}

pub proof fn lemma_digits_value_nonneg(d: Seq<char>, hex: bool)
    requires
        all_digits(d, hex),
    ensures
        0 <= digits_value(d, hex),
    decreases d.len(),
{
    if d.len() > 0 {
        assert forall|i: int| 0 <= i < d.drop_last().len() implies (#[trigger] digit_of(
            d.drop_last()[i],
            hex,
        )) is Some by {
            assert(d.drop_last()[i] == d[i]);
        }
        lemma_digits_value_nonneg(d.drop_last(), hex);
        assert(digit_of(d[d.len() - 1], hex) is Some);
    }
}

/// More digits never write a smaller number.
pub proof fn lemma_digits_value_bounds(d: Seq<char>, hex: bool, n: int)
    requires
        all_digits(d, hex),
        0 <= n <= d.len(),
    ensures
        0 <= digits_value(d.take(n), hex) <= digits_value(d, hex),
    decreases d.len() - n,
{
    if n == d.len() {
        assert(d.take(n) =~= d);
        lemma_digits_value_nonneg(d, hex);
    } else {
        assert(d.drop_last().take(n) =~= d.take(n));
        assert forall|i: int| 0 <= i < d.drop_last().len() implies (#[trigger] digit_of(
            d.drop_last()[i],
            hex,
        )) is Some by {
            assert(d.drop_last()[i] == d[i]);
        }
        lemma_digits_value_bounds(d.drop_last(), hex, n);
        assert(digit_of(d[d.len() - 1], hex) is Some);
    }
}

fn digit_value(c: char, hex: bool) -> (r: Option<u64>)
    ensures
        r is Some <==> digit_of(c, hex) is Some,
        r matches Some(k) ==> digit_of(c, hex) == Some(k as int) && k < 16,
{
    if '0' <= c && c <= '9' {
        Some((c as u64) - ('0' as u64))
    } else if hex && 'a' <= c && c <= 'f' {
        Some((c as u64) - ('a' as u64) + 10)
    } else if hex && 'A' <= c && c <= 'F' {
        Some((c as u64) - ('A' as u64) + 10)
    } else {
        None
    }
}

/// Reads the digits `v[lo..hi]` as a number that is `limit` at most.
pub fn parse_range(v: &Vec<char>, lo: usize, hi: usize, hex: bool, limit: u64) -> (r: Option<u64>)
    requires
        lo <= hi <= v.len(),
        limit <= u32::MAX,
    ensures
        r is Some <==> bounded_value(v@.subrange(lo as int, hi as int), hex, limit as int) is Some,
        r matches Some(n) ==> bounded_value(v@.subrange(lo as int, hi as int), hex, limit as int)
            == Some(n as int),
{
    let ghost d = v@.subrange(lo as int, hi as int);
    let mut acc: u64 = 0;
    let mut i: usize = lo;
    while i < hi
        invariant
            lo <= i <= hi <= v.len(),
            limit <= u32::MAX,
            d == v@.subrange(lo as int, hi as int),
            all_digits(d.take(i - lo), hex),
            acc == digits_value(d.take(i - lo), hex),
            acc <= limit,
        decreases hi - i,
    {
        let ghost before = d.take(i - lo);
        let ghost after = d.take(i - lo + 1);
        proof {
            assert(after.drop_last() =~= before);
            assert(after.last() == v@[i as int]);
            assert(d[i - lo] == v@[i as int]);
        }
        match digit_value(v[i], hex) {
            None => {
                proof {
                    assert(digit_of(d[i - lo], hex) is None);
                }
                return None;
            },
            Some(k) => {
                let next: u64 = if hex {
                    16 * acc + k
                } else {
                    10 * acc + k
                };
                proof {
                    assert forall|j: int| 0 <= j < after.len() implies (#[trigger] digit_of(
                        after[j],
                        hex,
                    )) is Some by {
                        if j < before.len() {
                            assert(after[j] == before[j]);
                        }
                    }
                    assert(next == digits_value(after, hex));
                }
                if next > limit {
                    proof {
                        if all_digits(d, hex) {
                            lemma_digits_value_bounds(d, hex, i - lo + 1);
                        }
                    }
                    return None;
                }
                acc = next;
            },
        }
        i += 1;
    }
    proof {
        assert(d.take(hi - lo) =~= d);
    }
    Some(acc)
}

} // verus!
