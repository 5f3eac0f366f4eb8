//! Durations written as a decimal number followed by a unit letter
//! (`10s`, `5m`, `6h`), and their short human rendering.

use vstd::prelude::*;
use crate::text::{all_digits, decimal, digits_value, is_digit, lemma_decimal_digits,
    lemma_prefix_value_le, u128_to_decimal, chars_of};

verus! {

/// Why a duration string was refused.
#[derive(Debug, Clone, Copy, PartialEq, Eq, Structural)]
pub enum DurationError {
    /// What precedes the unit letter is not an unsigned decimal number that fits in 64 bits.
    InvalidNumber,
    /// The last character is none of `s`, `m`, `h` (in either case).
    UnknownUnit,
}

impl DurationError {
    /// The message that a configuration reader reports for this error.
    pub fn message(&self) -> (m: &'static str)
        ensures
            m@ == self.message_text(),
    {
        proof {
            reveal_strlit("Could not parse number");
            reveal_strlit("Unit does not exist");
        }
        match self {
            DurationError::InvalidNumber => "Could not parse number",
            DurationError::UnknownUnit => "Unit does not exist",
        }
    }

    pub open spec fn message_text(&self) -> Seq<char> {
        match self {
            DurationError::InvalidNumber => "Could not parse number"@,
            DurationError::UnknownUnit => "Unit does not exist"@,
        }
    }
}

/// What an unsigned 64-bit decimal parse gives for `s`: an optional
/// leading `+`, then at least one ASCII digit, and a value that fits.
pub open spec fn parse_decimal_u64(s: Seq<char>) -> Option<nat> {
    let body = if s.len() > 0 && s[0] == '+' { s.skip(1) } else { s };
    if body.len() > 0 && all_digits(body) && digits_value(body) <= u64::MAX {
        Some(digits_value(body))
    } else {
        None
    }
}

/// Milliseconds in one unit named by `c`.
pub open spec fn unit_millis(c: char) -> Option<nat> {
    if c == 's' || c == 'S' {
        Some(1000)
    } else if c == 'm' || c == 'M' {
        Some(60000)
    } else if c == 'h' || c == 'H' {
        Some(3600000)
    } else {
        None
    }
}

/// `c` names a unit: seconds, minutes or hours, in either case.
pub open spec fn is_unit_letter(c: char) -> bool {
    c == 's' || c == 'S' || c == 'm' || c == 'M' || c == 'h' || c == 'H'
}

/// The duration, in milliseconds, that the non-empty text `s` stands for:
/// the number before the last character, times the unit that the last
/// character names. The number is read before the unit is looked at.
pub open spec fn duration_millis(s: Seq<char>) -> Result<nat, DurationError> {
    match parse_decimal_u64(s.drop_last()) {
        None => Err(DurationError::InvalidNumber),
        Some(n) => match unit_millis(s.last()) {
            None => Err(DurationError::UnknownUnit),
            Some(f) => Ok(n * f),
        },
    }
}

/// The short rendering of `ms` milliseconds: whole seconds below a
/// minute, whole minutes below an hour, whole hours otherwise.
pub open spec fn human_duration_text(ms: nat) -> Seq<char> {
    if ms < 60000 {
        decimal(ms / 1000).push('s')
    } else if ms < 3600000 {
        decimal(ms / 60000).push('m')
    } else {
        decimal(ms / 3600000).push('h')
    }
}

/// Reads the unsigned decimal number held by `s[..end]`, as `u64::from_str_radix(_, 10)` does.
fn parse_decimal_range(s: &Vec<char>, end: usize) -> (r: Option<u64>)
    requires
        end <= s@.len(),
    ensures
        r matches Some(v) ==> parse_decimal_u64(s@.take(end as int)) == Some(v as nat),
        r is None ==> parse_decimal_u64(s@.take(end as int)) is None,
{
    let ghost whole = s@.take(end as int);
    if end == 0 {
        return None;
    }
    let mut start: usize = 0;
    if s[0] == '+' {
        start = 1;
    }
    let ghost body = if whole.len() > 0 && whole[0] == '+' { whole.skip(1) } else { whole };
    assert(body =~= s@.subrange(start as int, end as int));
    if start == end {
        return None;
    }
    let mut value: u64 = 0;
    let mut i: usize = start;
    while i < end
        invariant
            start <= i <= end,
            end <= s@.len(),
            start < end,
            body =~= s@.subrange(start as int, end as int),
            whole == s@.take(end as int),
            body == (if whole.len() > 0 && whole[0] == '+' { whole.skip(1) } else { whole }),
            all_digits(body.take(i - start)),
            value as nat == digits_value(body.take(i - start)),
        decreases end - i,
    {
        let c = s[i];
        let ghost k: int = i - start;
        assert(body[k] == c);
        assert(body.take(k + 1).drop_last() =~= body.take(k));
        if !('0' <= c && c <= '9') {
            assert(!is_digit(body[k]));
            assert(!all_digits(body));
            return None;
        }
        let d: u64 = (c as u32 - 48) as u64;
        assert(all_digits(body.take(k + 1))) by {
            assert forall|j: int| 0 <= j < k + 1 implies is_digit(#[trigger] body.take(k + 1)[j]) by {
                if j < k {
                    assert(body.take(k + 1)[j] == body.take(k)[j]);
                }
            }
        }
        if value > (u64::MAX - d) / 10 {
            proof {
                assert(digits_value(body.take(k + 1)) > u64::MAX);
                if all_digits(body) {
                    lemma_prefix_value_le(body, k + 1);
                }
            }
            return None;
        }
        value = value * 10 + d;
        i = i + 1;
    }
    assert(body.take(end - start) =~= body);
    Some(value)
}

/// Reads a duration such as `3m` or `10s`: a decimal number followed by
/// `s`, `m` or `h` (either case), giving milliseconds. The number is
/// checked before the unit, so `x5q` is an invalid number, not an
/// unknown unit.
pub fn parse_into_duration(s: &str) -> (r: Result<u128, DurationError>)
    requires
        s@.len() > 0,
    ensures
        r matches Ok(ms) ==> duration_millis(s@) == Ok::<nat, DurationError>(ms as nat),
        r matches Err(e) ==> duration_millis(s@) == Err::<nat, DurationError>(e),
        r is Ok ==> is_unit_letter(s@.last()),
        parse_decimal_u64(s@.drop_last()) is Some && !is_unit_letter(s@.last()) ==> r
            == Err::<u128, DurationError>(DurationError::UnknownUnit),
        parse_decimal_u64(s@.drop_last()) is None ==> r == Err::<u128, DurationError>(
            DurationError::InvalidNumber,
        ),
{
    proof {
        law_duration_units(s@);
    }
    let chars = chars_of(s);
    let n = chars.len();
    let unit = chars[n - 1];
    assert(s@.drop_last() =~= s@.take(n - 1));
    let number = match parse_decimal_range(&chars, n - 1) {
        Some(v) => v,
        None => return Err(DurationError::InvalidNumber),
    };
    let factor: u128 = if unit == 's' || unit == 'S' {
        1000
    } else if unit == 'm' || unit == 'M' {
        60000
    } else if unit == 'h' || unit == 'H' {
        3600000
    } else {
        return Err(DurationError::UnknownUnit);
    };
    assert(number as u128 * factor <= u64::MAX as u128 * 3600000) by (nonlinear_arith)
        requires
            factor <= 3600000,
    ;
    Ok(number as u128 * factor)
}

/// Renders a duration in milliseconds the way the waiting page shows it:
/// `59s`, `3m`, `6h` (rounded down to the unit).
pub fn human_duration(dur: u128) -> (s: String)
    ensures
        s@ == human_duration_text(dur as nat),
{
    proof {
        reveal_strlit("s");
        reveal_strlit("m");
        reveal_strlit("h");
    }
    if dur < 60000 {
        let mut s = u128_to_decimal(dur / 1000);
        s.append("s");
        s
    } else if dur < 3600000 {
        let mut s = u128_to_decimal(dur / 60000);
        s.append("m");
        s
    } else {
        let mut s = u128_to_decimal(dur / 3600000);
        s.append("h");
        s
    }
}

/// A number written in decimal with a unit letter after it reads back as
/// that many units.
pub proof fn law_parse_rendered_duration(n: nat, u: char)
    requires
        n <= u64::MAX,
        unit_millis(u) is Some,
    ensures
        duration_millis(decimal(n).push(u)) == Ok::<nat, DurationError>(n * unit_millis(u)->0),
{
    lemma_decimal_digits(n);
    let s = decimal(n).push(u);
    assert(s.drop_last() =~= decimal(n));
    assert(s.last() == u);
}

/// Rendering a parsed lowercase duration gives back the text that was
/// parsed, for every number in the range its unit is shown for: below 60
/// for seconds, 1 to 59 for minutes, 1 and above for hours.
pub proof fn law_human_duration_round_trip(n: nat, u: char)
    requires
        n <= u64::MAX,
        (u == 's' && n < 60) || (u == 'm' && 1 <= n < 60) || (u == 'h' && n >= 1),
    ensures
        duration_millis(decimal(n).push(u)) matches Ok(ms) && human_duration_text(ms)
            == decimal(n).push(u),
{
    law_parse_rendered_duration(n, u);
    if u == 's' {
        assert((n * 1000) / 1000 == n);
    } else if u == 'm' {
        assert((n * 60000) / 60000 == n);
    } else {
        assert((n * 3600000) / 3600000 == n);
    }
}

/// Only the six unit letters are accepted: a text is read only when its
/// last character is `s`, `m` or `h` in either case; after a valid number
/// any other last character is an unknown unit; an invalid number is
/// reported whatever the last character; and the three units are worth
/// 1000, 60000 and 3600000 milliseconds.
pub proof fn law_duration_units(s: Seq<char>)
    requires
        s.len() > 0,
    ensures
        duration_millis(s) is Ok ==> is_unit_letter(s.last()),
        parse_decimal_u64(s.drop_last()) is Some && !is_unit_letter(s.last()) ==> duration_millis(s)
            == Err::<nat, DurationError>(DurationError::UnknownUnit),
        parse_decimal_u64(s.drop_last()) is None ==> duration_millis(s) == Err::<nat, DurationError>(
            DurationError::InvalidNumber,
        ),
        parse_decimal_u64(s.drop_last()) matches Some(n) ==> {
            &&& (s.last() == 's' || s.last() == 'S') ==> duration_millis(s) == Ok::<nat, DurationError>(n * 1000)
            &&& (s.last() == 'm' || s.last() == 'M') ==> duration_millis(s) == Ok::<nat, DurationError>(n * 60000)
            &&& (s.last() == 'h' || s.last() == 'H') ==> duration_millis(s) == Ok::<nat, DurationError>(n * 3600000)
        },
{
}

/// The short rendering names the largest unit that fits, up to hours,
/// and the whole number of those units, rounded down: seconds below one
/// minute, minutes from one minute to below one hour, hours from one hour.
pub proof fn law_human_duration_units(ms: nat)
    ensures
        ({
            let t = human_duration_text(ms);
            &&& ms < 60000 ==> t.last() == 's' && t.drop_last() == decimal(ms / 1000)
            &&& 60000 <= ms < 3600000 ==> t.last() == 'm' && t.drop_last() == decimal(ms / 60000)
            &&& 3600000 <= ms ==> t.last() == 'h' && t.drop_last() == decimal(ms / 3600000)
        }),
        ms < 60000 ==> (ms / 1000) * 1000 <= ms < (ms / 1000 + 1) * 1000 && ms / 1000 < 60,
        60000 <= ms < 3600000 ==> (ms / 60000) * 60000 <= ms < (ms / 60000 + 1) * 60000 && 1
            <= ms / 60000 < 60,
        3600000 <= ms ==> (ms / 3600000) * 3600000 <= ms < (ms / 3600000 + 1) * 3600000 && 1
            <= ms / 3600000,
{
    let t = human_duration_text(ms);
    if ms < 60000 {
        assert(t.drop_last() =~= decimal(ms / 1000));
    } else if ms < 3600000 {
        assert(t.drop_last() =~= decimal(ms / 60000));
    } else {
        assert(t.drop_last() =~= decimal(ms / 3600000));
    }
}

/// The number before the unit is an unsigned decimal: one leading `+` is
/// allowed, a leading `-` and an empty number are refused, and so is a
/// number beyond 64 bits; a rendered number reads back as itself.
pub proof fn law_duration_number(d: Seq<char>, n: nat)
    ensures
        parse_decimal_u64(Seq::empty()) is None,
        parse_decimal_u64(seq!['+']) is None,
        parse_decimal_u64(seq!['-'] + d) is None,
        d.len() > 0 && d[0] != '+' ==> parse_decimal_u64(seq!['+'] + d) == parse_decimal_u64(d),
        n <= u64::MAX ==> parse_decimal_u64(decimal(n)) == Some(n),
        n > u64::MAX ==> parse_decimal_u64(decimal(n)) is None,
{
    assert((seq!['+'] + d).skip(1) =~= d);
    assert(seq!['+'].skip(1) =~= Seq::<char>::empty());
    assert((seq!['-'] + d)[0] == '-');
    assert(!is_digit('-'));
    lemma_decimal_digits(n);
}

} // verus!
