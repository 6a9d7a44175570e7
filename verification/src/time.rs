//! The timestamp stamped on every event: a UTC instant, held as the seconds
//! since 1970 and the nanoseconds within the second.
use vstd::prelude::*;

use crate::number;
use crate::text;

verus! {

/// A UTC instant on the crew event timeline, ordered chronologically.
#[derive(Debug, Clone, Copy, PartialEq, Eq, PartialOrd, Ord, Hash, Structural)]
pub struct Timestamp {
    /// Seconds since the start of 1970, without leap seconds.
    pub secs: i64,
    /// Nanoseconds within the second; a billion or more mark a leap second.
    pub nanos: u32,
}

/// The RFC 3339 text of an instant, as `chrono` writes it; nothing for an
/// instant outside its calendar.
pub uninterp spec fn rfc3339(secs: i64, nanos: u32) -> Option<Seq<char>>;

/// `chrono::Utc::now`: the current instant. Every outcome is an instant of the
/// calendar, so it has an RFC 3339 text, and none is a leap second; which instant
/// it is rests on the clock.
#[verifier::external_body]
fn current_instant() -> (r: (i64, u32))
    ensures
        r.1 < 1_000_000_000,
        rfc3339(r.0, r.1) is Some,
{
    let now = chrono::Utc::now();
    (now.timestamp(), now.timestamp_subsec_nanos())
}

/// `chrono::DateTime::to_rfc3339`, of the instant with these seconds and
/// nanoseconds. The text is named, not spelled out.
#[verifier::external_body]
fn format_rfc3339(secs: i64, nanos: u32) -> (r: Option<String>)
    ensures
        text::opt_string(r) == rfc3339(secs, nanos),
{
    chrono::DateTime::from_timestamp(secs, nanos).map(|instant| instant.to_rfc3339())
}

/// A number in at least two digits.
pub open spec fn two_digits(n: nat) -> Seq<char> {
    if n < 10 {
        seq!['0'] + number::decimal(n)
    } else {
        number::decimal(n)
    }
}

/// A number in at least two digits.
pub fn pad_two(n: u64) -> (r: String)
    ensures
        r@ == two_digits(n as nat),
{
    if n < 10 {
        let mut out = String::new();
        out.push('0');
        out.append(number::decimal_u64(n).as_str());
        assert(out@ =~= two_digits(n as nat));
        out
    } else {
        number::decimal_u64(n)
    }
}

/// The time of day of an instant, as `HH:MM:SS`; a leap second reads as the
/// sixtieth.
pub open spec fn clock_text(t: Timestamp) -> Seq<char> {
    let day = t.secs % 86400;
    let leap = if t.nanos >= 1_000_000_000 {
        1int
    } else {
        0
    };
    two_digits((day / 3600) as nat) + ":"@ + two_digits((day / 60 % 60) as nat) + ":"@ + two_digits(
        (day % 60 + leap) as nat,
    )
}

impl Timestamp {
    /// The current UTC instant. It has an RFC 3339 text, and is no leap second.
    pub fn now() -> (r: Self)
        ensures
            r.nanos < 1_000_000_000,
            rfc3339(r.secs, r.nanos) is Some,
    {
        let (secs, nanos) = current_instant();
        Timestamp { secs, nanos }
    }

    /// The RFC 3339 text, the wire format; nothing for an instant outside the
    /// calendar.
    pub fn to_rfc3339(&self) -> (r: Option<String>)
        ensures
            text::opt_string(r) == rfc3339(self.secs, self.nanos),
    {
        format_rfc3339(self.secs, self.nanos)
    }

    /// The time of day, as `HH:MM:SS`.
    pub fn clock(&self) -> (r: String)
        ensures
            r@ == clock_text(*self),
    {
        let day: u64 = match self.secs.checked_rem_euclid(86400) {
            Some(day) => day as u64,
            None => 0,
        };
        let leap: u64 = if self.nanos >= 1_000_000_000 {
            1
        } else {
            0
        };
        let mut out = pad_two(day / 3600);
        out.append(":");
        out.append(pad_two(day / 60 % 60).as_str());
        out.append(":");
        out.append(pad_two(day % 60 + leap).as_str());
        out
    }
}

/// The clock shows the hours, minutes and seconds that make up the time of day, in
/// two digits each; a day later it shows the same.
pub proof fn the_clock_shows_the_time_of_day(t: Timestamp, shown: String) -> (hms: (nat, nat, nat))
    requires
        t.nanos < 1_000_000_000,
        call_ensures(Timestamp::clock, (&t,), shown),
    ensures
        hms.0 < 24 && hms.1 < 60 && hms.2 < 60,
        (t.secs - (3600 * hms.0 + 60 * hms.1 + hms.2)) % 86400 == 0,
        shown@ == two_digits(hms.0) + ":"@ + two_digits(hms.1) + ":"@ + two_digits(hms.2),
{
    let day = t.secs as int % 86400;
    let h = day / 3600;
    let m = day / 60 % 60;
    let s = day % 60;
    assert(day == 3600 * h + 60 * m + s);
    (h as nat, m as nat, s as nat)
}

/// Two digits write the number, with a leading zero where it has one digit only.
pub proof fn two_digits_write_the_number(n: nat)
    requires
        n < 100,
    ensures
        two_digits(n).len() == 2,
        number::value(two_digits(n)) == n,
{
    reveal_with_fuel(number::decimal, 3);
    reveal_with_fuel(number::value, 4);
    number::lemma_decimal(n);
    let t = two_digits(n);
    assert(t.drop_last().drop_last() =~= Seq::<char>::empty());
    if n < 10 {
        assert(t.drop_last() =~= seq!['0']);
        assert(t.last() == number::decimal(n)[0]);
    } else {
        assert(number::decimal(n / 10).len() == 1);
    }
}

} // verus!
