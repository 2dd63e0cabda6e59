//! Decimal rendering of unsigned integers and clock-time labels.

use vstd::prelude::*;

verus! {

/// The character of a single decimal digit.
pub open spec fn digit_char(d: nat) -> char {
    if d == 0 { '0' }
    else if d == 1 { '1' }
    else if d == 2 { '2' }
    else if d == 3 { '3' }
    else if d == 4 { '4' }
    else if d == 5 { '5' }
    else if d == 6 { '6' }
    else if d == 7 { '7' }
    else if d == 8 { '8' }
    else { '9' }
}

/// The shortest decimal notation of `n`, as `{}` prints an unsigned integer.
pub open spec fn decimal(n: nat) -> Seq<char>
    decreases n,
{
    if n < 10 {
        seq![digit_char(n)]
    } else {
        decimal(n / 10).push(digit_char(n % 10))
    }
}

/// `n` printed with at least two digits, as `{:02}` does.
pub open spec fn pad2(n: nat) -> Seq<char> {
    if n < 10 {
        seq!['0'].push(digit_char(n))
    } else {
        decimal(n)
    }
}

/// The text of one decimal digit.
fn digit_str(d: u64) -> (s: &'static str)
    requires
        d < 10,
    ensures
        s@ == seq![digit_char(d as nat)],
{
    proof {
        reveal_strlit("0");
        reveal_strlit("1");
        reveal_strlit("2");
        reveal_strlit("3");
        reveal_strlit("4");
        reveal_strlit("5");
        reveal_strlit("6");
        reveal_strlit("7");
        reveal_strlit("8");
        reveal_strlit("9");
    }
    if d == 0 { "0" }
    else if d == 1 { "1" }
    else if d == 2 { "2" }
    else if d == 3 { "3" }
    else if d == 4 { "4" }
    else if d == 5 { "5" }
    else if d == 6 { "6" }
    else if d == 7 { "7" }
    else if d == 8 { "8" }
    else { "9" }
}

/// Renders `n` in decimal.
pub fn decimal_string(n: u64) -> (s: String)
    ensures
        s@ == decimal(n as nat),
    decreases n,
{
    if n < 10 {
        String::from_str(digit_str(n))
    } else {
        let mut s = decimal_string(n / 10);
        s.append(digit_str(n % 10));
        s
    }
}

/// Renders `n` with at least two digits.
pub fn pad2_string(n: u64) -> (s: String)
    ensures
        s@ == pad2(n as nat),
{
    if n < 10 {
        let mut s = String::from_str("0");
        proof { reveal_strlit("0"); }
        s.append(digit_str(n));
        s
    } else {
        decimal_string(n)
    }
}

/// The label `HH:MM:SS` of a local clock time.
pub open spec fn clock_label(hours: nat, minutes: nat, seconds: nat) -> Seq<char> {
    pad2(hours) + seq![':'] + pad2(minutes) + seq![':'] + pad2(seconds)
}

/// Formats a time of day as `HH:MM:SS`, each part with at least two digits.
///
/// The parts are those that the browser's clock reports for a timestamp in
/// the local time zone.
pub fn format_time(hours: u32, minutes: u32, seconds: u32) -> (s: String)
    ensures
        s@ == clock_label(hours as nat, minutes as nat, seconds as nat),
{
    proof { reveal_strlit(":"); }
    let mut s = pad2_string(hours as u64);
    s.append(":");
    s.append(pad2_string(minutes as u64).as_str());
    s.append(":");
    s.append(pad2_string(seconds as u64).as_str());
    s
}

/// Two-digit padding gives at least two characters, and exactly two below
/// one hundred.
proof fn lemma_pad2_len(n: nat)
    ensures
        n < 100 ==> pad2(n).len() == 2,
{
    if 10 <= n < 100 {
        assert(decimal(n / 10).len() == 1);
    }
}

/// The label of a time of day has the shape `HH:MM:SS`: eight characters,
/// the colons at the third and sixth place.
pub proof fn law_clock_label_shape(hours: nat, minutes: nat, seconds: nat)
    requires
        hours < 24,
        minutes < 60,
        seconds < 60,
    ensures
        clock_label(hours, minutes, seconds).len() == 8,
        clock_label(hours, minutes, seconds)[2] == ':',
        clock_label(hours, minutes, seconds)[5] == ':',
{
    lemma_pad2_len(hours);
    lemma_pad2_len(minutes);
    lemma_pad2_len(seconds);
}

} // verus!
