//! How long a challenge stays valid.
use crate::text::{all_digits, decimal_text_is_read_back, decimal_value, is_digit};
use crate::verify::decimal_text;
use vstd::prelude::*;

verus! {

/// A span of time: whole seconds, and the nanoseconds on top of them.
#[derive(Clone, Copy, Debug, PartialEq, Eq, Structural)]
pub struct Ttl {
    pub secs: u64,
    pub nanos: u32,
}

impl Ttl {
    /// A whole number of seconds.
    pub fn from_secs(secs: u64) -> (t: Ttl)
        ensures
            t == (Ttl { secs, nanos: 0 }),
    {
        Ttl { secs, nanos: 0 }
    }

    /// Whether the span is empty.
    pub fn is_zero(&self) -> (r: bool)
        ensures
            r == (self.secs == 0 && self.nanos == 0),
    {
        self.secs == 0 && self.nanos == 0
    }

    /// The whole seconds of the span.
    pub fn as_secs(&self) -> (r: u64)
        ensures
            r == self.secs,
    {
        self.secs
    }
}

/// The seconds of a unit: `s`, `m`, `h` or `d`.
pub open spec fn unit_seconds(unit: char) -> Option<nat> {
    if unit == 's' {
        Some(1)
    } else if unit == 'm' {
        Some(60)
    } else if unit == 'h' {
        Some(3600)
    } else if unit == 'd' {
        Some(86400)
    } else {
        None
    }
}

/// The seconds that a plain duration denotes: decimal digits with the unit
/// `s`, `m`, `h` or `d` behind them, or digits alone, which count seconds.
pub open spec fn plain_seconds(s: Seq<char>) -> Option<nat> {
    if s.len() > 0 && all_digits(s) {
        Some(decimal_value(s))
    } else if s.len() > 1 && all_digits(s.drop_last()) {
        match unit_seconds(s.last()) {
            Some(unit) => Some(decimal_value(s.drop_last()) * unit),
            None => None,
        }
    } else {
        None
    }
}

/// The seconds and nanoseconds that `duration_str::parse` reads from a text,
/// or `None` where it fails.
pub uninterp spec fn parsed_duration(s: Seq<char>) -> Option<(u64, u32)>;

/// `duration_str::parse`. It reads sums and products of counted units. Digits
/// with `s`, `m`, `h` or `d` behind them, or with nothing, are read as that
/// many seconds, minutes, hours, days or seconds; it fails on such a text only
/// where the nanoseconds outgrow 64 bits.
#[verifier::external_body]
pub(crate) fn parse_duration(s: &str) -> (r: Result<Ttl, String>)
    ensures
        r matches Ok(t) ==> parsed_duration(s@) == Some((t.secs, t.nanos)),
        r is Err ==> parsed_duration(s@) is None,
        plain_seconds(s@) matches Some(n) ==> if n * 1_000_000_000 <= u64::MAX {
            r == Ok::<Ttl, String>(Ttl { secs: n as u64, nanos: 0 })
        } else {
            r is Err
        },
{
    match duration_str::parse(s) {
        Ok(d) => Ok(Ttl { secs: d.as_secs(), nanos: d.subsec_nanos() }),
        Err(e) => Err(e),
    }
}

/// A number with a unit behind it denotes that many seconds, minutes, hours or
/// days, and a number alone that many seconds.
pub proof fn counted_units_denote_seconds(n: nat)
    ensures
        plain_seconds(decimal_text(n)) == Some(n),
        plain_seconds(decimal_text(n).push('s')) == Some(n),
        plain_seconds(decimal_text(n).push('m')) == Some(n * 60),
        plain_seconds(decimal_text(n).push('h')) == Some(n * 60 * 60),
        plain_seconds(decimal_text(n).push('d')) == Some(n * 24 * 60 * 60),
{
    decimal_text_is_read_back(n);
    let t = decimal_text(n);
    assert forall|c: char| !is_digit(c) implies !all_digits(#[trigger] t.push(c)) && t.push(
        c,
    ).drop_last() == t && t.push(c).last() == c by {
        assert(t.push(c)[t.len() as int] == c);
        assert(t.push(c).drop_last() =~= t);
    }
    assert(decimal_value(t) * 1nat == n);
    assert(t.push('s').last() == 's' && t.push('m').last() == 'm');
    assert(t.push('h').last() == 'h' && t.push('d').last() == 'd');
}

} // verus!
