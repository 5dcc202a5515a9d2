//! Display-oriented values: percentage samples, clock readings of spans
//! and the words for task states.

use vstd::prelude::*;

use crate::text::{decimal, digit_char, push_char, push_decimal};
use crate::time::{TimeSpan, NANOS_PER_SEC};

verus! {

/// A percentage sample (CPU or memory), carried as the bit pattern of the
/// IEEE-754 double that the sampler measured.
///
/// The library never computes with the number; it stores, orders and
/// hands back samples unchanged, so the bits are all it needs to hold.
#[derive(Clone, Copy, Debug)]
pub struct Percent {
    bits: u64,
}

impl View for Percent {
    type V = u64;

    /// The bit pattern of the sampled double.
    closed spec fn view(&self) -> u64 {
        self.bits
    }
}

impl Percent {
    /// The sample whose double has the given bit pattern.
    pub fn from_bits(bits: u64) -> (r: Percent)
        ensures
            r@ == bits,
    {
        Percent { bits }
    }

    /// The bit pattern of the sampled double.
    pub fn to_bits(self) -> (r: u64)
        ensures
            r == self@,
    {
        self.bits
    }

    /// The sample `0.0` (the all-zero bit pattern).
    pub fn zero() -> (r: Percent)
        ensures
            r@ == 0,
    {
        Percent { bits: 0 }
    }
}

/// `n` in decimal, padded with a leading zero to at least two digits.
pub open spec fn two_digits(n: nat) -> Seq<char> {
    if n < 10 {
        seq!['0', digit_char(n)]
    } else {
        decimal(n)
    }
}

/// A whole number of seconds on a clock face: `h:mm:ss` from one hour up,
/// `mm:ss` below.
pub open spec fn clock_text(secs: nat) -> Seq<char> {
    let h = secs / 3600;
    let m = (secs / 60) % 60;
    let s = secs % 60;
    if h > 0 {
        decimal(h) + seq![':'] + two_digits(m) + seq![':'] + two_digits(s)
    } else {
        two_digits(m) + seq![':'] + two_digits(s)
    }
}

/// Append `n`, which is below 100, as two digits.
fn push_two_digits(out: &mut String, n: u64)
    requires
        n < 100,
    ensures
        final(out)@ == old(out)@ + two_digits(n as nat),
{
    if n < 10 {
        push_char(out, '0');
        push_decimal(out, n);
        assert(decimal(n as nat) == seq![digit_char(n as nat)]);
        assert(final(out)@ =~= old(out)@ + two_digits(n as nat));
    } else {
        push_decimal(out, n);
    }
}

/// A span as a clock reading of its whole seconds: `h:mm:ss`, or `mm:ss`
/// when it is shorter than an hour.
pub fn format_duration(t: TimeSpan) -> (r: String)
    ensures
        r@ == clock_text(t@ / NANOS_PER_SEC as nat),
{
    let secs = t.as_secs();
    let h = secs / 3600;
    let m = (secs / 60) % 60;
    let s = secs % 60;
    let mut out = String::new();
    if h > 0 {
        push_decimal(&mut out, h);
        push_char(&mut out, ':');
    }
    push_two_digits(&mut out, m);
    push_char(&mut out, ':');
    push_two_digits(&mut out, s);
    assert(out@ =~= clock_text(secs as nat));
    out
}

/// The word for a kernel task state letter, as `/proc/<pid>/stat` reports it.
pub open spec fn state_word_text(state: char) -> Seq<char> {
    if state == 'R' {
        "running"@
    } else if state == 'S' {
        "sleeping"@
    } else if state == 'I' {
        "idle"@
    } else if state == 'D' {
        "disk sleep"@
    } else if state == 'T' {
        "stopped"@
    } else if state == 't' {
        "traced"@
    } else if state == 'Z' {
        "zombie"@
    } else if state == 'X' || state == 'x' {
        "dead"@
    } else if state == 'K' {
        "wakekill"@
    } else if state == 'W' {
        "paging"@
    } else {
        "unknown"@
    }
}

/// A word for a kernel task state letter (`R` is "running", `S` is
/// "sleeping", ...), "unknown" for a letter the kernel does not use.
pub fn state_word(state: char) -> (r: &'static str)
    ensures
        r@ == state_word_text(state),
{
    match state {
        'R' => "running",
        'S' => "sleeping",
        'I' => "idle",
        'D' => "disk sleep",
        'T' => "stopped",
        't' => "traced",
        'Z' => "zombie",
        'X' | 'x' => "dead",
        'K' => "wakekill",
        'W' => "paging",
        _ => "unknown",
    }
}

} // verus!
