//! Character-level helpers over `str` and `String`: copying out characters,
//! substring search, and the few `String` edits the library makes.

use vstd::prelude::*;
use vstd::string::StringExecFns;

verus! {

/// `needle` occurs somewhere in `hay` as a contiguous run.
pub open spec fn seq_contains(hay: Seq<char>, needle: Seq<char>) -> bool {
    exists|i: int| 0 <= i <= hay.len() - needle.len() && #[trigger] hay.subrange(i, i + needle.len()) == needle
}

/// The characters of `s`, in order.
pub fn chars_of(s: &str) -> (r: Vec<char>)
    ensures
        r@ == s@,
{
    let mut out: Vec<char> = Vec::new();
    for c in it: s.chars()
        invariant
            it.seq() == s@,
            out@ == it.seq().take(it.index() as int),
    {
        out.push(c);
    }
    out
}

/// Whether `needle` occurs in `hay` starting exactly at `start`.
fn occurs_at(hay: &Vec<char>, needle: &Vec<char>, start: usize) -> (r: bool)
    requires
        start + needle@.len() <= hay@.len(),
    ensures
        r == (hay@.subrange(start as int, start + needle@.len()) == needle@),
{
    let n = needle.len();
    let mut j: usize = 0;
    while j < n
        invariant
            start + n <= hay@.len(),
            hay@.len() == hay.len(),
            n == needle@.len(),
            j <= n,
            forall|k: int| 0 <= k < j ==> hay@[start + k] == needle@[k],
        decreases n - j,
    {
        if hay[start + j] != needle[j] {
            assert(hay@.subrange(start as int, start + n)[j as int] != needle@[j as int]);
            return false;
        }
        j = j + 1;
    }
    assert(hay@.subrange(start as int, start + n) =~= needle@);
    true
}

/// Whether `needle` occurs in `hay` as a contiguous run of characters.
pub fn contains_chars(hay: &Vec<char>, needle: &Vec<char>) -> (r: bool)
    ensures
        r == seq_contains(hay@, needle@),
{
    if needle.len() > hay.len() {
        return false;
    }
    let last = hay.len() - needle.len();
    let mut i: usize = 0;
    while i <= last
        invariant_except_break
            i <= last,
        invariant
            last == hay@.len() - needle@.len(),
            forall|k: int| 0 <= k < i ==> #[trigger] hay@.subrange(k, k + needle@.len()) != needle@,
        ensures
            forall|k: int| 0 <= k <= last ==> #[trigger] hay@.subrange(k, k + needle@.len()) != needle@,
        decreases last - i,
    {
        if occurs_at(hay, needle, i) {
            return true;
        }
        if i == last {
            break;
        }
        i = i + 1;
    }
    false
}

/// What `str::to_lowercase` returns for a string with these characters.
pub uninterp spec fn spec_to_lowercase(s: Seq<char>) -> Seq<char>;

/// Calls `str::to_lowercase`, the Unicode lower-case mapping of `s`.
///
/// Trusted: the result is named, not described; the mapping is a function
/// of the characters of `s` alone.  The one fact stated beyond the name is
/// that the empty string maps to the empty string.
#[verifier::external_body]
pub fn to_lowercase(s: &str) -> (r: String)
    ensures
        r@ == spec_to_lowercase(s@),
        s@.len() == 0 ==> r@.len() == 0,
{
    s.to_lowercase()
}

/// Whether `c` has the Unicode White_Space property, which is what
/// `char::is_whitespace` tests: U+0009..U+000D, U+0020, U+0085, U+00A0,
/// U+1680, U+2000..U+200A, U+2028, U+2029, U+202F, U+205F and U+3000.
pub open spec fn is_white_space(c: char) -> bool {
    let u = c as u32;
    ||| 0x9 <= u <= 0xd
    ||| u == 0x20
    ||| u == 0x85
    ||| u == 0xa0
    ||| u == 0x1680
    ||| 0x2000 <= u <= 0x200a
    ||| u == 0x2028
    ||| u == 0x2029
    ||| u == 0x202f
    ||| u == 0x205f
    ||| u == 0x3000
}

/// `s` without its trailing whitespace.
pub open spec fn trimmed_end(s: Seq<char>) -> Seq<char>
    decreases s.len(),
{
    if s.len() > 0 && is_white_space(s.last()) {
        trimmed_end(s.drop_last())
    } else {
        s
    }
}

/// `s` without its leading whitespace.
pub open spec fn trimmed_start(s: Seq<char>) -> Seq<char>
    decreases s.len(),
{
    if s.len() > 0 && is_white_space(s[0]) {
        trimmed_start(s.drop_first())
    } else {
        s
    }
}

/// `s` without its leading and trailing whitespace.
pub open spec fn trimmed(s: Seq<char>) -> Seq<char> {
    trimmed_start(trimmed_end(s))
}

/// Calls `str::trim`, which (as its documentation says) removes leading
/// and trailing whitespace, whitespace being the characters with the
/// Unicode White_Space property.
#[verifier::external_body]
pub fn trim(s: &str) -> (r: &str)
    ensures
        r@ == trimmed(s@),
{
    s.trim()
}

/// Calls `str::trim_end`, which (as its documentation says) removes
/// trailing whitespace, in the same sense as `trim`.
#[verifier::external_body]
pub fn trim_end(s: &str) -> (r: &str)
    ensures
        r@ == trimmed_end(s@),
{
    s.trim_end()
}

/// Calls `String::push`, which appends one character.
#[verifier::external_body]
pub fn push_char(s: &mut String, c: char)
    ensures
        final(s)@ == old(s)@.push(c),
{
    s.push(c)
}

/// Append the characters of `t` to `s`.
pub fn push_str(s: &mut String, t: &str)
    ensures
        final(s)@ == old(s)@ + t@,
{
    s.append(t)
}

/// Calls `String::pop`, which removes and returns the last character, if any.
#[verifier::external_body]
pub fn pop_char(s: &mut String) -> (r: Option<char>)
    ensures
        old(s)@.len() == 0 ==> r is None && final(s)@ == old(s)@,
        old(s)@.len() > 0 ==> r == Some(old(s)@.last()) && final(s)@ == old(s)@.drop_last(),
{
    s.pop()
}

/// The ASCII digit for `d` (taken modulo ten).
pub open spec fn digit_char(d: nat) -> char {
    ((d % 10) + 48) as char
}

/// The decimal representation of `n`, without leading zeros.
pub open spec fn decimal(n: nat) -> Seq<char>
    decreases n,
{
    if n < 10 {
        seq![digit_char(n)]
    } else {
        decimal(n / 10).push(digit_char(n % 10))
    }
}

/// Append the decimal representation of `n` to `s`.
pub fn push_decimal(s: &mut String, n: u64)
    ensures
        final(s)@ == old(s)@ + decimal(n as nat),
    decreases n,
{
    if n >= 10 {
        push_decimal(s, n / 10);
    }
    let d = (n % 10) as u8;
    let c = (d + 48) as char;
    assert(c == digit_char(n as nat));
    push_char(s, c);
    assert(final(s)@ =~= old(s)@ + decimal(n as nat)) by {
        if n >= 10 {
            assert(decimal(n as nat) == decimal((n / 10) as nat).push(digit_char((n % 10) as nat)));
        }
    }
}

/// Why a decimal integer could not be parsed.
#[derive(Clone, Copy, Debug, PartialEq, Eq, Structural)]
pub enum IntParseError {
    /// The text was empty.
    Empty,
    /// A character that is not a decimal digit came first.
    InvalidDigit,
    /// The value grew past the largest value of the target type first.
    PosOverflow,
}

pub open spec fn is_digit(c: char) -> bool {
    '0' <= c <= '9'
}

pub open spec fn digit_value(c: char) -> nat {
    (c as int - '0' as int) as nat
}

/// Parse a run of decimal digits left to right, stopping at the first
/// character that is not a digit or makes the value exceed `max`.
pub open spec fn parse_digits(d: Seq<char>, max: nat) -> Result<nat, IntParseError>
    decreases d.len(),
{
    if d.len() == 0 {
        Ok(0)
    } else {
        match parse_digits(d.drop_last(), max) {
            Err(e) => Err(e),
            Ok(v) => if !is_digit(d.last()) {
                Err(IntParseError::InvalidDigit)
            } else if v * 10 + digit_value(d.last()) > max {
                Err(IntParseError::PosOverflow)
            } else {
                Ok(v * 10 + digit_value(d.last()))
            },
        }
    }
}

/// How an unsigned integer type with largest value `max` parses `s`:
/// an optional leading `+`, then decimal digits.
pub open spec fn parse_unsigned(s: Seq<char>, max: nat) -> Result<nat, IntParseError> {
    if s.len() == 0 {
        Err(IntParseError::Empty)
    } else if s.len() == 1 && (s[0] == '+' || s[0] == '-') {
        Err(IntParseError::InvalidDigit)
    } else if s[0] == '+' {
        parse_digits(s.drop_first(), max)
    } else {
        parse_digits(s, max)
    }
}

/// Parse the characters `chars[start..end]` as decimal digits (see `parse_digits`).
fn parse_digit_run(chars: &Vec<char>, start: usize, end: usize, max: u64) -> (r: Result<u64, IntParseError>)
    requires
        start <= end <= chars@.len(),
    ensures
        match parse_digits(chars@.subrange(start as int, end as int), max as nat) {
            Ok(v) => r == Ok::<u64, IntParseError>(v as u64),
            Err(e) => r == Err::<u64, IntParseError>(e),
        },
{
    let mut acc: u64 = 0;
    let mut i = start;
    let ghost d = chars@.subrange(start as int, end as int);
    while i < end
        invariant
            end <= chars@.len(),
            start <= i <= end,
            d == chars@.subrange(start as int, end as int),
            parse_digits(d.take(i - start), max as nat) == Ok::<nat, IntParseError>(acc as nat),
            acc <= max,
        decreases end - i,
    {
        let c = chars[i];
        proof {
            assert(d.take(i - start + 1).drop_last() =~= d.take(i - start));
            assert(d.take(i - start + 1).last() == c);
        }
        if !('0' <= c && c <= '9') {
            proof {
                lemma_parse_digits_stops(d, (i - start + 1) as nat, max as nat);
            }
            return Err(IntParseError::InvalidDigit);
        }
        let dv = (c as u32 - '0' as u32) as u64;
        if dv > max || acc > (max - dv) / 10 {
            proof {
                assert(acc * 10 + dv > max) by (nonlinear_arith)
                    requires
                        dv > max || acc > (max - dv) / 10,
                        dv <= max ==> acc > (max - dv) / 10,
                ;
                lemma_parse_digits_stops(d, (i - start + 1) as nat, max as nat);
            }
            return Err(IntParseError::PosOverflow);
        }
        proof {
            assert(acc * 10 + dv <= max) by (nonlinear_arith)
                requires
                    acc <= (max - dv) / 10,
                    dv <= max,
            ;
        }
        acc = acc * 10 + dv;
        i = i + 1;
    }
    proof {
        assert(d.take(end - start) =~= d);
    }
    Ok(acc)
}

/// Parse `chars[start..end]` the way an unsigned integer type whose largest
/// value is `max` parses decimal text (see `parse_unsigned`).
pub fn parse_unsigned_chars(chars: &Vec<char>, start: usize, end: usize, max: u64) -> (r: Result<u64, IntParseError>)
    requires
        start <= end <= chars@.len(),
    ensures
        match parse_unsigned(chars@.subrange(start as int, end as int), max as nat) {
            Ok(v) => r == Ok::<u64, IntParseError>(v as u64),
            Err(e) => r == Err::<u64, IntParseError>(e),
        },
{
    let ghost t = chars@.subrange(start as int, end as int);
    if start == end {
        return Err(IntParseError::Empty);
    }
    if end - start == 1 && (chars[start] == '+' || chars[start] == '-') {
        return Err(IntParseError::InvalidDigit);
    }
    if chars[start] == '+' {
        assert(chars@.subrange(start + 1, end as int) =~= t.drop_first());
        parse_digit_run(chars, start + 1, end, max)
    } else {
        parse_digit_run(chars, start, end, max)
    }
}

/// Once a prefix fails to parse, every longer text fails the same way.
proof fn lemma_parse_digits_stops(d: Seq<char>, k: nat, max: nat)
    requires
        k <= d.len(),
        parse_digits(d.take(k as int), max) is Err,
    ensures
        parse_digits(d, max) == parse_digits(d.take(k as int), max),
    decreases d.len() - k,
{
    if k < d.len() {
        assert(d.take(k as int + 1).drop_last() =~= d.take(k as int));
        lemma_parse_digits_stops(d, k + 1, max);
    } else {
        assert(d.take(k as int) =~= d);
    }
}

/// Parse `s` the way an unsigned integer type whose largest value is `max`
/// parses decimal text (see `parse_unsigned`).
pub fn parse_unsigned_str(s: &str, max: u64) -> (r: Result<u64, IntParseError>)
    ensures
        match parse_unsigned(s@, max as nat) {
            Ok(v) => r == Ok::<u64, IntParseError>(v as u64),
            Err(e) => r == Err::<u64, IntParseError>(e),
        },
{
    let chars = chars_of(s);
    assert(chars@.subrange(0, chars@.len() as int) =~= s@);
    parse_unsigned_chars(&chars, 0, chars.len(), max)
}

/// A string holding exactly the characters `chars[start..end]`.
pub fn string_of(chars: &Vec<char>, start: usize, end: usize) -> (r: String)
    requires
        start <= end <= chars@.len(),
    ensures
        r@ == chars@.subrange(start as int, end as int),
{
    let mut out = String::new();
    let mut i = start;
    while i < end
        invariant
            start <= i <= end,
            end <= chars@.len(),
            out@ == chars@.subrange(start as int, i as int),
        decreases end - i,
    {
        push_char(&mut out, chars[i]);
        i = i + 1;
        assert(out@ =~= chars@.subrange(start as int, i as int));
    }
    out
}

/// The message `std::num::ParseIntError` displays for each kind of failure.
pub open spec fn int_error_message(e: IntParseError) -> Seq<char> {
    match e {
        IntParseError::Empty => "cannot parse integer from empty string"@,
        IntParseError::InvalidDigit => "invalid digit found in string"@,
        IntParseError::PosOverflow => "number too large to fit in target type"@,
    }
}

impl IntParseError {
    /// The human-readable message for this failure.
    pub fn message(self) -> (r: String)
        ensures
            r@ == int_error_message(self),
    {
        match self {
            IntParseError::Empty => "cannot parse integer from empty string".to_owned(),
            IntParseError::InvalidDigit => "invalid digit found in string".to_owned(),
            IntParseError::PosOverflow => "number too large to fit in target type".to_owned(),
        }
    }
}

/// Decimal text parses back to the number it was made from, whenever the
/// number fits the target type.
pub proof fn law_decimal_parses_back(n: nat, max: nat)
    requires
        n <= max,
    ensures
        parse_unsigned(decimal(n), max) == Ok::<nat, IntParseError>(n),
{
    lemma_decimal_digits(n, max);
    let d = decimal(n);
    assert(d.len() >= 1);
    assert(is_digit(d[0]));
}

/// The digits of `n` parse to `n`, and the first of them is a digit.
proof fn lemma_decimal_digits(n: nat, max: nat)
    requires
        n <= max,
    ensures
        parse_digits(decimal(n), max) == Ok::<nat, IntParseError>(n),
        decimal(n).len() >= 1,
        is_digit(decimal(n)[0]),
    decreases n,
{
    if n < 10 {
        assert(decimal(n) =~= seq![digit_char(n)]);
        assert(decimal(n).drop_last() =~= Seq::<char>::empty());
        assert(digit_value(digit_char(n)) == n);
        assert(is_digit(digit_char(n)));
        assert(decimal(n).last() == digit_char(n));
        assert(parse_digits(Seq::<char>::empty(), max) == Ok::<nat, IntParseError>(0));
        assert(parse_digits(decimal(n), max) == Ok::<nat, IntParseError>(n));
    } else {
        lemma_decimal_digits(n / 10, max);
        let d = decimal(n);
        assert(d.drop_last() =~= decimal(n / 10));
        assert(digit_value(digit_char(n % 10)) == n % 10);
        assert((n / 10) * 10 + n % 10 == n);
        assert(d[0] == decimal(n / 10)[0]);
        assert(d.last() == digit_char(n % 10));
        assert(is_digit(digit_char(n % 10)));
        assert(parse_digits(d, max) == Ok::<nat, IntParseError>(n));
    }
}

/// The empty text occurs in every text.
pub proof fn lemma_empty_needle(hay: Seq<char>)
    ensures
        seq_contains(hay, Seq::empty()),
{
    let e = Seq::<char>::empty();
    assert(hay.subrange(0, 0 + e.len() as int) =~= e);
}

} // verus!
