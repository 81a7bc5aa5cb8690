//! Small rules that several parts share: the short name of a host, the
//! session behind a terminal's path, times counted back from now, decimal
//! numbers, and the probe that tells whether an address leads back here.

use vstd::prelude::*;
use vstd::string::*;
use crate::text::decimal_i32_text;
use crate::text::from_chars;
use crate::text::parse_i32_text;
use crate::text::replace_all;
use crate::text::replace_chars;
use crate::text::to_chars;

verus! {

/// `gethostname::gethostname`, read as text with `to_string_lossy`: the name
/// that the machine gives itself. Nothing is claimed of it.
#[verifier::external_body]
fn host_name() -> (name: String) {
    gethostname::gethostname().to_string_lossy().into_owned()
}

/// The time that lies `delta` months from `now`, both in seconds since the
/// first of January 1970, as `chronoutil::delta::shift_months_opt` shifts a time of
/// the universal calendar: to the same day and time of day in the other
/// month, or to that month's last day where it has no such day. Nothing
/// where the calendar of `chrono` does not reach that far.
pub uninterp spec fn months_shifted(now: i64, delta: i32) -> Option<i64>;

/// `chrono::DateTime::from_timestamp`, `chronoutil::delta::shift_months_opt` and
/// `timestamp`: shifts a time by whole months. The result is a function of
/// the two numbers alone. The shift must not go forward: the sum of a
/// month's number and `delta` is formed in 32 bits.
#[verifier::external_body]
fn shift_months(now: i64, delta: i32) -> (then: Option<i64>)
    requires
        delta <= 0,
    ensures
        then == months_shifted(now, delta),
{
    let at = chrono::DateTime::from_timestamp(now, 0)?;
    Some(chronoutil::delta::shift_months_opt(at, delta)?.timestamp())
}

/// The part of a host's name before its first dot; the whole name where it
/// has none.
pub open spec fn short_name(full: Seq<char>) -> Seq<char>
    decreases full.len(),
{
    if full.len() == 0 || full[0] == '.' {
        Seq::<char>::empty()
    } else {
        seq![full[0]] + short_name(full.skip(1))
    }
}

/// A short name holds no dot and begins the full name.
pub proof fn lemma_short_name(full: Seq<char>)
    ensures
        !short_name(full).contains('.'),
        short_name(full).is_prefix_of(full),
        short_name(full).len() < full.len() ==> full[short_name(full).len() as int] == '.',
    decreases full.len(),
{
    if full.len() == 0 || full[0] == '.' {
    } else {
        let rest = full.skip(1);
        lemma_short_name(rest);
        let s = short_name(full);
        assert(s =~= seq![full[0]] + short_name(rest));
        assert forall|i: int| 0 <= i < s.len() implies s[i] != '.' by {
            if i > 0 {
                assert(short_name(rest)[i - 1] == s[i]);
                assert(short_name(rest).contains(s[i]));
            }
        }
        assert forall|i: int| 0 <= i < s.len() implies s[i] == full[i] by {
            if i > 0 {
                assert(short_name(rest)[i - 1] == rest[i - 1]);
            }
        }
        if s.len() < full.len() {
            assert(rest[short_name(rest).len() as int] == '.');
        }
    }
}

/// Cuts a host's name at its first dot.
pub fn short_hostname(full: &str) -> (short: String)
    ensures
        short@ == short_name(full@),
{
    let chars = to_chars(full);
    let mut out: Vec<char> = Vec::new();
    let mut i: usize = 0;
    assert(full@.skip(0) =~= full@);
    assert(out@ + short_name(full@) =~= short_name(full@));
    while i < chars.len() && chars[i] != '.'
        invariant
            i <= chars.len(),
            chars@ == full@,
            out@ + short_name(full@.skip(i as int)) == short_name(full@),
        decreases chars.len() - i,
    {
        let ghost before = out@;
        let ghost rest = full@.skip(i as int);
        out.push(chars[i]);
        proof {
            assert(rest.skip(1) =~= full@.skip(i + 1));
            assert(out@ + short_name(full@.skip(i + 1)) =~= before + short_name(rest));
        }
        i += 1;
    }
    assert(out@ + short_name(full@.skip(i as int)) =~= out@);
    from_chars(&out)
}

/// The short name of this host: what the machine calls itself, up to the
/// first dot.
pub fn getshorthostname() -> (short: String)
    ensures
        !short@.contains('.'),
        exists|full: Seq<char>| short@ == short_name(full),
{
    let full = host_name();
    let short = short_hostname(full.as_str());
    proof {
        lemma_short_name(full@);
    }
    short
}

/// Why a terminal's path names no session.
#[derive(Clone, Copy, Debug, PartialEq, Eq, Structural)]
pub enum SessionError {
    /// What is left of the path without its directory is no decimal integer
    /// of 32 bits.
    NotANumber,
}

/// The session behind the path of a controlling terminal: the number left
/// when every `/dev/pts/` is taken out of the path.
pub open spec fn session_of(path: Seq<char>) -> Option<i32> {
    decimal_i32_text(replace_all(path, "/dev/pts/"@, Seq::<char>::empty()))
}

/// Reads the session from the path of a controlling terminal.
pub fn session_from_path(path: &str) -> (r: Result<i32, SessionError>)
    ensures
        match r {
            Ok(session) => session_of(path@) == Some(session),
            Err(_) => session_of(path@) is None,
        },
{
    let nothing: Vec<char> = Vec::new();
    let rest = replace_chars(&to_chars(path), &to_chars("/dev/pts/"), &nothing);
    assert(nothing@ =~= Seq::<char>::empty());
    match parse_i32_text(&rest) {
        Some(session) => Ok(session),
        None => Err(SessionError::NotANumber),
    }
}

/// A span of time, as a text such as `5 min ago` or `3 months` gives it.
#[derive(Clone, Copy, Debug, PartialEq, Eq, Structural)]
pub enum Interval {
    Seconds(i32),
    Days(i32),
    Months(i32),
}

/// The size of a number without its sign.
pub open spec fn magnitude(n: int) -> int {
    if n < 0 {
        -n
    } else {
        n
    }
}

/// The time that lies the given span before `now`, whatever the span's
/// sign: a span looks into the past, since the history holds nothing of the
/// future. Seconds and days are counted off; months go by the calendar.
/// Nothing where the time cannot be written in 64 bits or lies beyond the
/// calendar.
pub open spec fn time_before(now: i64, span: Interval) -> Option<i64> {
    match span {
        Interval::Seconds(s) => if now - magnitude(s as int) >= i64::MIN {
            Some((now - magnitude(s as int)) as i64)
        } else {
            None
        },
        Interval::Days(d) => if now - magnitude(d as int) * 86_400 >= i64::MIN {
            Some((now - magnitude(d as int) * 86_400) as i64)
        } else {
            None
        },
        Interval::Months(m) => months_shifted(now, (-magnitude(m as int)) as i32),
    }
}

/// The size of a number of 32 bits, which always fits 64.
fn size_of(n: i32) -> (size: i64)
    ensures
        size == magnitude(n as int),
        0 <= size <= 0x8000_0000,
{
    if n < 0 {
        -(n as i64)
    } else {
        n as i64
    }
}

/// Counts a span back from `now`.
pub fn past_time(now: i64, span: Interval) -> (then: Option<i64>)
    ensures
        then == time_before(now, span),
{
    match span {
        Interval::Seconds(s) => now.checked_sub(size_of(s)),
        Interval::Days(d) => now.checked_sub(size_of(d) * 86_400),
        Interval::Months(m) => {
            let size = size_of(m);
            let delta: i32 = if size > i32::MAX as i64 {
                i32::MIN
            } else {
                -(size as i32)
            };
            shift_months(now, delta)
        },
    }
}

/// The digit for a number below ten.
pub open spec fn digit_char(d: int) -> char {
    if d == 0 {
        '0'
    } else if d == 1 {
        '1'
    } else if d == 2 {
        '2'
    } else if d == 3 {
        '3'
    } else if d == 4 {
        '4'
    } else if d == 5 {
        '5'
    } else if d == 6 {
        '6'
    } else if d == 7 {
        '7'
    } else if d == 8 {
        '8'
    } else {
        '9'
    }
}

/// A number written in decimal, without sign or leading zeros.
pub open spec fn decimal_text(n: nat) -> Seq<char>
    decreases n,
{
    if n < 10 {
        seq![digit_char(n as int)]
    } else {
        decimal_text(n / 10).push(digit_char((n % 10) as int))
    }
}

/// The digit for a number below ten.
fn digit(d: u64) -> (c: char)
    requires
        d < 10,
    ensures
        c == digit_char(d as int),
{
    if d == 0 {
        '0'
    } else if d == 1 {
        '1'
    } else if d == 2 {
        '2'
    } else if d == 3 {
        '3'
    } else if d == 4 {
        '4'
    } else if d == 5 {
        '5'
    } else if d == 6 {
        '6'
    } else if d == 7 {
        '7'
    } else if d == 8 {
        '8'
    } else {
        '9'
    }
}

/// Writes a number in decimal.
pub fn to_decimal(n: u64) -> (text: String)
    ensures
        text@ == decimal_text(n as nat),
{
    let mut back: Vec<char> = Vec::new();
    let mut rest = n;
    // The digits come out last first.
    while rest >= 10
        invariant
            decimal_text(n as nat) == decimal_text(rest as nat) + back@.reverse(),
        decreases rest,
    {
        let ghost before = back@;
        back.push(digit(rest % 10));
        proof {
            assert(back@.reverse() =~= seq![digit_char((rest % 10) as int)] + before.reverse());
            assert(decimal_text(rest as nat) =~= decimal_text((rest / 10) as nat) + seq![
                digit_char((rest % 10) as int),
            ]);
            assert(decimal_text(n as nat) =~= decimal_text((rest / 10) as nat) + back@.reverse());
        }
        rest = rest / 10;
    }
    let mut out: Vec<char> = Vec::new();
    out.push(digit(rest));
    assert(out@ =~= decimal_text(rest as nat));
    let ghost digits = back@;
    assert(digits.take(digits.len() as int) =~= digits);
    assert(digits.skip(digits.len() as int).reverse() =~= Seq::<char>::empty());
    assert(out@ + Seq::<char>::empty() =~= out@);
    while back.len() > 0
        invariant
            back@.len() <= digits.len(),
            back@ == digits.take(back@.len() as int),
            out@ == decimal_text(rest as nat) + digits.skip(back@.len() as int).reverse(),
        decreases back.len(),
    {
        let ghost k = back@.len() as int;
        let c = back.pop().unwrap();
        out.push(c);
        proof {
            assert(back@ =~= digits.take(k - 1));
            assert(digits.skip(k - 1).reverse() =~= digits.skip(k).reverse().push(digits[k - 1]));
        }
    }
    assert(digits.skip(0) =~= digits);
    from_chars(&out)
}

/// What the probe sends to itself.
pub const PROBE_MAGIC: &'static str = "DEADBEEF";

/// How long the probe waits for its own datagram, in milliseconds.
pub const PROBE_TIMEOUT_MS: u64 = 25;

/// Where the probe sends to: the address, a colon, and the port of its own
/// receiver.
pub fn probe_target(addr: &str, port: u16) -> (target: String)
    ensures
        target@ == addr@ + ":"@ + decimal_text(port as nat),
{
    let mut target = String::from_str(addr);
    target.append(":");
    target.append(to_decimal(port as u64).as_str());
    target
}

/// Whether what the probe received is what it sent: then the address leads
/// back to this host.
pub fn probe_answers(received: &[u8]) -> (same: bool)
    ensures
        same == (received@ == PROBE_MAGIC.spec_bytes()),
{
    let magic = PROBE_MAGIC.as_bytes();
    if received.len() != magic.len() {
        return false;
    }
    let mut i: usize = 0;
    while i < magic.len()
        invariant
            i <= magic.len(),
            received@.len() == magic@.len(),
            magic@ == PROBE_MAGIC.spec_bytes(),
            forall|j: int| 0 <= j < i ==> received@[j] == magic@[j],
        decreases magic.len() - i,
    {
        if received[i] != magic[i] {
            return false;
        }
        i += 1;
    }
    assert(received@ =~= magic@);
    true
}

} // verus!
