//! The device clock: the latest synchronization between the device's
//! boot-relative seconds and wall-clock (Unix) seconds.
use vstd::prelude::*;
use crate::text::{signed_decimal, signed_decimal_exec, string_of};

verus! {

/// The text that chrono gives for a `DateTime<Utc>` made from these Unix
/// seconds, or `None` where chrono cannot represent that instant.
pub uninterp spec fn utc_text(secs: int) -> Option<Seq<char>>;

/// Relies on `chrono::DateTime::<Utc>::from_timestamp` (`None` out of its
/// range) and on the `Display` of `DateTime<Utc>` for the text.
#[verifier::external_body]
fn utc_text_exec(secs: i64) -> (r: Option<String>)
    ensures
        match r {
            Some(t) => utc_text(secs as int) == Some(t@),
            None => utc_text(secs as int) is None,
        },
{
    chrono::DateTime::<chrono::Utc>::from_timestamp(secs, 0).map(|d| d.to_string())
}

/// Wall-clock seconds for device time `t`: `t` itself while unsynchronized
/// (`utc == 0`), else shifted by the anchor pair.
pub open spec fn absolute_time(utc: int, boot: int, t: int) -> int {
    if utc == 0 {
        t
    } else {
        utc + (t - boot)
    }
}

/// The rendering of Unix seconds `a`: chrono's UTC text where it can give
/// one, else the number itself in decimal.
pub open spec fn render_text(a: int) -> Seq<char> {
    if i64::MIN <= a <= i64::MAX && utc_text(a) is Some {
        utc_text(a)->0
    } else {
        signed_decimal(a)
    }
}

/// The mapping from device (boot-relative) seconds to wall-clock seconds.
/// `time_utc == 0` means that no synchronization has been seen.
pub struct LogTimestamp {
    pub time_utc: i64,
    pub time_boot: i64,
}

impl LogTimestamp {
    pub open spec fn absolute(&self, t: int) -> int {
        absolute_time(self.time_utc as int, self.time_boot as int, t)
    }

    /// A clock that has not been synchronized.
    pub fn new() -> (r: Self)
        ensures
            r.time_utc == 0,
            r.time_boot == 0,
    {
        LogTimestamp { time_utc: 0, time_boot: 0 }
    }

    /// Wall-clock seconds for device time `logtime`; `logtime` unchanged
    /// before any synchronization.
    pub fn to_absolute(&self, logtime: i64) -> (r: i64)
        requires
            i64::MIN <= self.absolute(logtime as int) <= i64::MAX,
        ensures
            r == self.absolute(logtime as int),
            self.time_utc == 0 ==> r == logtime,
    {
        if self.time_utc == 0 {
            return logtime;
        }
        let a = (self.time_utc as i128) + ((logtime as i128) - (self.time_boot as i128));
        a as i64
    }

    /// Renders device time `logtime` as a UTC timestamp (see `render_text`).
    pub fn to_string(&self, logtime: i64) -> (r: String)
        ensures
            r@ == render_text(self.absolute(logtime as int)),
    {
        let a: i128 = if self.time_utc == 0 {
            logtime as i128
        } else {
            (self.time_utc as i128) + ((logtime as i128) - (self.time_boot as i128))
        };
        let utc = if i64::MIN as i128 <= a && a <= i64::MAX as i128 {
            utc_text_exec(self.to_absolute(logtime))
        } else {
            None
        };
        render_or_raw(a, utc)
    }
}

/// The UTC text where one was given for Unix seconds `a`, else `a` in
/// decimal.
pub fn render_or_raw(a: i128, utc: Option<String>) -> (r: String)
    requires
        a > i128::MIN,
    ensures
        r@ == match utc {
            Some(t) => t@,
            None => signed_decimal(a as int),
        },
{
    match utc {
        Some(t) => t,
        None => {
            let digits = signed_decimal_exec(a);
            string_of(&digits)
        },
    }
}

} // verus!
