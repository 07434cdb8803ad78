use vstd::prelude::*;
use vstd::utf8::{decode_utf8, encode_utf8, encode_utf8_decode_utf8, encode_utf8_valid_utf8, valid_utf8};

verus! {

/// The text that bytes hold, when they are valid UTF-8.
///
/// Trusted: `std::str::from_utf8` succeeds exactly on valid UTF-8 and then
/// reads the bytes as the characters they encode.
#[verifier::external_body]
pub(crate) fn utf8_text(bytes: &[u8]) -> (text: Option<&str>)
    ensures
        match text {
            Some(t) => valid_utf8(bytes@) && t@ == decode_utf8(bytes@),
            None => !valid_utf8(bytes@),
        },
{
    std::str::from_utf8(bytes).ok()
}

/// The characters of a string, one by one.
pub(crate) fn chars_of(s: &str) -> (chars: Vec<char>)
    ensures
        chars@ == s@,
{
    broadcast use vstd::string::axiom_spec_iter;
    let mut chars: Vec<char> = Vec::new();
    for c in it: s.chars()
        invariant
            chars@ == it.seq().take(it.index() as int),
            it.seq() == s@,
    {
        chars.push(c);
    }
    chars
}

/// The characters of a byte sequence that is valid UTF-8.
pub(crate) fn utf8_chars(bytes: &[u8]) -> (chars: Option<Vec<char>>)
    ensures
        match chars {
            Some(v) => valid_utf8(bytes@) && v@ == decode_utf8(bytes@),
            None => !valid_utf8(bytes@),
        },
{
    match utf8_text(bytes) {
        Some(text) => Some(chars_of(text)),
        None => None,
    }
}

/// Whether two strings hold the same characters.
pub fn str_eq(a: &str, b: &str) -> (eq: bool)
    ensures
        eq == (a@ == b@),
{
    let x = a.as_bytes();
    let y = b.as_bytes();
    proof {
        encode_utf8_decode_utf8(a@);
        encode_utf8_decode_utf8(b@);
    }
    if x.len() != y.len() {
        return false;
    }
    let mut i: usize = 0;
    while i < x.len()
        invariant
            x@ == encode_utf8(a@),
            y@ == encode_utf8(b@),
            x@.len() == y@.len(),
            i <= x@.len(),
            forall|j: int| 0 <= j < i ==> x@[j] == y@[j],
        decreases x@.len() - i,
    {
        if x[i] != y[i] {
            return false;
        }
        i = i + 1;
    }
    assert(x@ =~= y@);
    true
}

/// Where the line that starts at `i` ends: at the first `\r\n` from `i`
/// on, or at the end of the text.
pub open spec fn line_end(s: Seq<char>, i: int) -> int
    decreases s.len() - i,
{
    if i + 1 >= s.len() {
        s.len() as int
    } else if s[i] == '\r' && s[i + 1] == '\n' {
        i
    } else {
        line_end(s, i + 1)
    }
}

/// A line ends at or after its start and at or before the end of the text;
/// where it ends before the end, a `\r\n` stands there.
pub proof fn lemma_line_end(s: Seq<char>, i: int)
    requires
        0 <= i,
    ensures
        i <= s.len() ==> i <= line_end(s, i),
        line_end(s, i) <= s.len(),
        line_end(s, i) == s.len() || (line_end(s, i) + 1 < s.len() && s[line_end(s, i)] == '\r' && s[line_end(s, i) + 1] == '\n'),
    decreases s.len() - i,
{
    if i + 1 < s.len() && !(s[i] == '\r' && s[i + 1] == '\n') {
        lemma_line_end(s, i + 1);
    }
}

/// Finds where the line that starts at `start` ends.
pub fn find_line_end(chars: &Vec<char>, start: usize) -> (end: usize)
    requires
        start <= chars@.len(),
    ensures
        end == line_end(chars@, start as int),
        start <= end <= chars@.len(),
{
    let mut i = start;
    while i < chars.len() && i + 1 < chars.len() && !(chars[i] == '\r' && chars[i + 1] == '\n')
        invariant
            start <= i <= chars@.len(),
            line_end(chars@, i as int) == line_end(chars@, start as int),
        decreases chars@.len() - i,
    {
        i = i + 1;
    }
    proof {
        lemma_line_end(chars@, start as int);
    }
    if i < chars.len() && i + 1 < chars.len() {
        i
    } else {
        chars.len()
    }
}

/// The first position at or after `i` that holds `c`, or the length.
pub open spec fn char_index(s: Seq<char>, c: char, i: int) -> int
    decreases s.len() - i,
{
    if i >= s.len() {
        s.len() as int
    } else if s[i] == c {
        i
    } else {
        char_index(s, c, i + 1)
    }
}

/// The first position holds `c` unless it is the length, and lies between.
pub proof fn lemma_char_index(s: Seq<char>, c: char, i: int)
    requires
        0 <= i <= s.len(),
    ensures
        i <= char_index(s, c, i) <= s.len(),
        char_index(s, c, i) < s.len() ==> s[char_index(s, c, i)] == c,
    decreases s.len() - i,
{
    if i < s.len() && s[i] != c {
        lemma_char_index(s, c, i + 1);
    }
}

/// Finds the first `c` between `start` and `end`, as an offset from `start`.
pub fn find_char(chars: &Vec<char>, start: usize, end: usize, c: char) -> (offset: usize)
    requires
        start <= end <= chars@.len(),
    ensures
        offset == char_index(chars@.subrange(start as int, end as int), c, 0),
        offset <= end - start,
{
    let ghost line = chars@.subrange(start as int, end as int);
    let mut k = start;
    while k < end && chars[k] != c
        invariant
            start <= k <= end <= chars@.len(),
            line == chars@.subrange(start as int, end as int),
            char_index(line, c, k - start) == char_index(line, c, 0),
        decreases end - k,
    {
        assert(line[k - start] == chars@[k as int]);
        k = k + 1;
    }
    proof {
        if k < end {
            assert(line[k - start] == chars@[k as int]);
        }
        lemma_char_index(line, c, 0);
    }
    k - start
}

/// Whether the characters from `start` to `end` are exactly `word`.
pub fn range_eq(chars: &Vec<char>, start: usize, end: usize, word: &Vec<char>) -> (eq: bool)
    requires
        start <= end <= chars@.len(),
    ensures
        eq == (chars@.subrange(start as int, end as int) == word@),
{
    if end - start != word.len() {
        return false;
    }
    let mut i: usize = 0;
    while i < word.len()
        invariant
            start <= end <= chars@.len(),
            end - start == word@.len(),
            i <= word@.len(),
            forall|j: int| 0 <= j < i ==> chars@.subrange(start as int, end as int)[j] == word@[j],
        decreases word@.len() - i,
    {
        assert(chars@.subrange(start as int, end as int)[i as int] == chars@[start + i]);
        if chars[start + i] != word[i] {
            return false;
        }
        i = i + 1;
    }
    assert(chars@.subrange(start as int, end as int) =~= word@);
    true
}

/// Unicode `White_Space`, the characters `char::is_whitespace` accepts.
pub open spec fn is_white_space(c: char) -> bool {
    let v = c as u32;
    (0x9 <= v <= 0xD) || v == 0x20 || v == 0x85 || v == 0xA0 || v == 0x1680 || (0x2000 <= v <= 0x200A)
        || v == 0x2028 || v == 0x2029 || v == 0x202F || v == 0x205F || v == 0x3000
}

pub fn white_space(c: char) -> (ws: bool)
    ensures
        ws == is_white_space(c),
{
    let v = c as u32;
    (0x9 <= v && v <= 0xD) || v == 0x20 || v == 0x85 || v == 0xA0 || v == 0x1680 || (0x2000 <= v && v <= 0x200A)
        || v == 0x2028 || v == 0x2029 || v == 0x202F || v == 0x205F || v == 0x3000
}

/// Drops white space at the front.
pub open spec fn trim_start(s: Seq<char>) -> Seq<char>
    decreases s.len(),
{
    if s.len() > 0 && is_white_space(s[0]) { trim_start(s.drop_first()) } else { s }
}

/// Drops white space at the back.
pub open spec fn trim_end(s: Seq<char>) -> Seq<char>
    decreases s.len(),
{
    if s.len() > 0 && is_white_space(s.last()) { trim_end(s.drop_last()) } else { s }
}

/// Drops white space at both ends, as `str::trim` does.
pub open spec fn trim(s: Seq<char>) -> Seq<char> {
    trim_end(trim_start(s))
}

/// Whether `c` is `w` once an ASCII capital is made lowercase.
pub open spec fn lower_matches(c: char, w: char) -> bool {
    if 'A' <= c <= 'Z' { (w as u32) == (c as u32) + 32 } else { c == w }
}

/// Whether `s` equals the lowercase ASCII word `word` when ASCII case is ignored.
pub open spec fn eq_ignore_ascii_case(s: Seq<char>, word: Seq<char>) -> bool {
    s.len() == word.len() && forall|i: int| 0 <= i < s.len() ==> lower_matches(#[trigger] s[i], word[i])
}

/// The value of a decimal digit character.
pub open spec fn digit_value(c: char) -> nat {
    ((c as u32) - ('0' as u32)) as nat
}

pub open spec fn is_digit(c: char) -> bool {
    '0' <= c <= '9'
}

/// The number a run of decimal digits spells.
pub open spec fn digits_value(s: Seq<char>) -> nat
    decreases s.len(),
{
    if s.len() == 0 { 0 } else { digits_value(s.drop_last()) * 10 + digit_value(s.last()) }
}

/// Whether every character is a decimal digit.
pub open spec fn all_digits(d: Seq<char>) -> bool {
    forall|i: int| 0 <= i < d.len() ==> is_digit(#[trigger] d[i])
}

/// The characters after one leading `+`, if there is one.
pub open spec fn strip_plus(s: Seq<char>) -> Seq<char> {
    if s.len() > 0 && s[0] == '+' { s.drop_first() } else { s }
}

/// What `u16::from_str` gives: an optional `+`, then one or more decimal
/// digits whose value fits in 16 bits.
pub open spec fn parse_u16(s: Seq<char>) -> Option<u16> {
    let digits = strip_plus(s);
    if digits.len() == 0 || !all_digits(digits) {
        None
    } else if digits_value(digits) > u16::MAX {
        None
    } else {
        Some(digits_value(digits) as u16)
    }
}

/// The characters from `start` to `end` with white space trimmed, as a range.
pub fn trim_range(chars: &Vec<char>, start: usize, end: usize) -> (range: (usize, usize))
    requires
        start <= end <= chars@.len(),
    ensures
        start <= range.0 <= range.1 <= end,
        chars@.subrange(range.0 as int, range.1 as int) == trim(chars@.subrange(start as int, end as int)),
{
    let mut a = start;
    while a < end && white_space(chars[a])
        invariant
            start <= a <= end <= chars@.len(),
            trim_start(chars@.subrange(a as int, end as int)) == trim_start(chars@.subrange(start as int, end as int)),
        decreases end - a,
    {
        assert(chars@.subrange(a as int, end as int).drop_first() =~= chars@.subrange(a as int + 1, end as int));
        a = a + 1;
    }
    assert(trim_start(chars@.subrange(a as int, end as int)) == chars@.subrange(a as int, end as int));
    let mut b = end;
    while b > a && white_space(chars[b - 1])
        invariant
            start <= a <= b <= end <= chars@.len(),
            trim_end(chars@.subrange(a as int, b as int)) == trim(chars@.subrange(start as int, end as int)),
        decreases b - a,
    {
        assert(chars@.subrange(a as int, b as int).drop_last() =~= chars@.subrange(a as int, b as int - 1));
        b = b - 1;
    }
    (a, b)
}

/// Whether the characters from `start` to `end` equal `word` ignoring ASCII case.
pub fn range_eq_ignore_ascii_case(chars: &Vec<char>, start: usize, end: usize, word: &Vec<char>) -> (eq: bool)
    requires
        start <= end <= chars@.len(),
        forall|i: int| 0 <= i < word@.len() ==> !('A' <= #[trigger] word@[i] <= 'Z'),
    ensures
        eq == eq_ignore_ascii_case(chars@.subrange(start as int, end as int), word@),
{
    if end - start != word.len() {
        return false;
    }
    let mut i: usize = 0;
    while i < word.len()
        invariant
            start <= end <= chars@.len(),
            end - start == word@.len(),
            i <= word@.len(),
            forall|j: int| 0 <= j < i ==> lower_matches(#[trigger] chars@.subrange(start as int, end as int)[j], word@[j]),
        decreases word@.len() - i,
    {
        let c = chars[start + i];
        let w = word[i];
        assert(chars@.subrange(start as int, end as int)[i as int] == c);
        let matched = if 'A' <= c && c <= 'Z' { (w as u32) == (c as u32) + 32 } else { c == w };
        if !matched {
            return false;
        }
        i = i + 1;
    }
    true
}

/// Parses the characters from `start` to `end` as `u16::from_str` does.
pub fn parse_u16_range(chars: &Vec<char>, start: usize, end: usize) -> (value: Option<u16>)
    requires
        start <= end <= chars@.len(),
    ensures
        value == parse_u16(chars@.subrange(start as int, end as int)),
{
    let ghost s = chars@.subrange(start as int, end as int);
    let mut a = start;
    if a < end && chars[a] == '+' {
        a = a + 1;
    }
    let ghost digits = chars@.subrange(a as int, end as int);
    assert(digits =~= strip_plus(s));
    if a == end {
        return None;
    }
    let mut value: u32 = 0;
    let mut i = a;
    while i < end
        invariant
            a <= i <= end <= chars@.len(),
            digits == chars@.subrange(a as int, end as int),
            s == chars@.subrange(start as int, end as int),
            digits == strip_plus(s),
            a < end,
            forall|j: int| 0 <= j < i - a ==> is_digit(#[trigger] digits[j]),
            value == digits_value(digits.take(i - a)),
            value <= u16::MAX,
        decreases end - i,
    {
        let c = chars[i];
        assert(digits[i - a] == c);
        if c < '0' || c > '9' {
            assert(!is_digit(digits[i - a]));
            assert(!all_digits(digits));
            return None;
        }
        let d = (c as u32) - ('0' as u32);
        proof {
            assert(digits.take(i - a + 1).drop_last() =~= digits.take(i - a));
        }
        let next = value * 10 + d;
        if next > 65535 {
            proof {
                lemma_digits_grow(digits, (i - a + 1) as nat);
                assert(digits_value(digits.take(i - a + 1)) == next);
            }
            return None;
        }
        value = next;
        i = i + 1;
    }
    assert(digits.take(i - a) =~= digits);
    Some(value as u16)
}

/// A prefix of digits never spells more than the whole.
proof fn lemma_digits_grow(digits: Seq<char>, n: nat)
    requires
        n <= digits.len(),
    ensures
        (forall|j: int| 0 <= j < digits.len() ==> is_digit(#[trigger] digits[j]))
            ==> digits_value(digits.take(n as int)) <= digits_value(digits),
    decreases digits.len() - n,
{
    if n < digits.len() {
        lemma_digits_grow(digits, n + 1);
        assert(digits.take(n as int + 1).drop_last() =~= digits.take(n as int));
    } else {
        assert(digits.take(n as int) =~= digits);
    }
}

} // verus!
