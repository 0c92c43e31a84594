//! A local date and time reading held as plain fields, and its renderings.

use vstd::prelude::*;
use chrono::{Datelike, Timelike};
use crate::decimal::{padded, push_padded};

verus! {

/// A reading of the local wall clock. `nanosecond` counts from the start of
/// the second and reaches past a billion only during a leap second.
#[derive(Clone, Copy, Debug, PartialEq, Eq)]
pub struct LocalStamp {
    pub year: i32,
    pub month: u32,
    pub day: u32,
    pub hour: u32,
    pub minute: u32,
    pub second: u32,
    pub nanosecond: u32,
}

impl LocalStamp {
    /// The ranges that a reading of the clock keeps to.
    pub open spec fn wf(&self) -> bool {
        &&& 1 <= self.month <= 12
        &&& 1 <= self.day <= 31
        &&& self.hour < 24
        &&& self.minute < 60
        &&& self.second < 60
        &&& self.nanosecond < 2_000_000_000
    }

    /// The second as shown: 60 during a leap second.
    pub open spec fn shown_second(&self) -> nat {
        (self.second + self.nanosecond / 1_000_000_000) as nat
    }

    /// Milliseconds since the last second boundary; past 999 only during a
    /// leap second.
    pub open spec fn millis(&self) -> nat {
        (self.nanosecond / 1_000_000) as nat
    }

    /// A reading whose year has four digits and that is not in a leap
    /// second: its date and time text has a fixed width.
    pub open spec fn is_regular(&self) -> bool {
        &&& self.wf()
        &&& 0 <= self.year <= 9999
        &&& self.nanosecond < 1_000_000_000
    }

    /// Reads the local wall clock now. A reading of the system clock never
    /// falls in a leap second.
    pub fn now() -> (r: LocalStamp)
        ensures
            r.wf(),
            r.nanosecond < 1_000_000_000,
    {
        local_now()
    }
}

/// Relies on chrono's `Local::now` and the `Datelike` / `Timelike` getters:
/// month in 1..=12, day in 1..=31, hour in 0..=23, minute and second in
/// 0..=59. `Utc::now` builds the instant from the system time's
/// `subsec_nanos`, and the shift to local time moves it by whole seconds, so
/// the nanosecond stays below one billion.
#[verifier::external_body]
fn local_now() -> (r: LocalStamp)
    ensures
        r.wf(),
        r.nanosecond < 1_000_000_000,
{
    let now = chrono::Local::now();
    LocalStamp {
        year: now.year(),
        month: now.month(),
        day: now.day(),
        hour: now.hour(),
        minute: now.minute(),
        second: now.second(),
        nanosecond: now.nanosecond(),
    }
}

/// The year as four digits, or with a sign and at least four digits outside
/// `0..=9999`.
pub open spec fn year_text(y: int) -> Seq<char> {
    if 0 <= y <= 9999 {
        padded(y as nat, 4)
    } else if y < 0 {
        seq!['-'] + padded((-y) as nat, 4)
    } else {
        seq!['+'] + padded(y as nat, 4)
    }
}

/// `YYYYMMDDHHMMSS`.
pub open spec fn compact_text(st: LocalStamp) -> Seq<char> {
    year_text(st.year as int) + padded(st.month as nat, 2) + padded(st.day as nat, 2)
        + padded(st.hour as nat, 2) + padded(st.minute as nat, 2) + padded(st.shown_second(), 2)
}

/// `YYYY-MM-DD`.
pub open spec fn date_text(st: LocalStamp) -> Seq<char> {
    year_text(st.year as int) + seq!['-'] + padded(st.month as nat, 2) + seq!['-'] + padded(
        st.day as nat,
        2,
    )
}

/// `HH:MM:SS`.
pub open spec fn time_text(st: LocalStamp) -> Seq<char> {
    padded(st.hour as nat, 2) + seq![':'] + padded(st.minute as nat, 2) + seq![':'] + padded(
        st.shown_second(),
        2,
    )
}

fn push_year(s: &mut String, y: i32)
    ensures
        final(s)@ == old(s)@ + year_text(y as int),
{
    if 0 <= y && y <= 9999 {
        push_padded(s, y as u32, 4);
    } else if y < 0 {
        let a: u32 = (0 - (y as i64)) as u32;
        s.append("-");
        proof {
            reveal_strlit("-");
        }
        push_padded(s, a, 4);
        assert(final(s)@ =~= old(s)@ + year_text(y as int));
    } else {
        s.append("+");
        proof {
            reveal_strlit("+");
        }
        push_padded(s, y as u32, 4);
        assert(final(s)@ =~= old(s)@ + year_text(y as int));
    }
}

fn shown_second(st: &LocalStamp) -> (r: u32)
    requires
        st.wf(),
    ensures
        r as nat == st.shown_second(),
{
    st.second + st.nanosecond / 1_000_000_000
}

/// Appends `YYYYMMDDHHMMSS` for the reading.
pub fn push_compact(s: &mut String, st: &LocalStamp)
    requires
        st.wf(),
    ensures
        final(s)@ == old(s)@ + compact_text(*st),
{
    push_year(s, st.year);
    push_padded(s, st.month, 2);
    push_padded(s, st.day, 2);
    push_padded(s, st.hour, 2);
    push_padded(s, st.minute, 2);
    push_padded(s, shown_second(st), 2);
    assert(final(s)@ =~= old(s)@ + compact_text(*st));
}

/// Appends `YYYY-MM-DD` for the reading.
pub fn push_date(s: &mut String, st: &LocalStamp)
    ensures
        final(s)@ == old(s)@ + date_text(*st),
{
    proof {
        reveal_strlit("-");
    }
    push_year(s, st.year);
    s.append("-");
    push_padded(s, st.month, 2);
    s.append("-");
    push_padded(s, st.day, 2);
    assert(final(s)@ =~= old(s)@ + date_text(*st));
}

/// Appends `HH:MM:SS` for the reading.
pub fn push_time(s: &mut String, st: &LocalStamp)
    requires
        st.wf(),
    ensures
        final(s)@ == old(s)@ + time_text(*st),
{
    proof {
        reveal_strlit(":");
    }
    push_padded(s, st.hour, 2);
    s.append(":");
    push_padded(s, st.minute, 2);
    s.append(":");
    push_padded(s, shown_second(st), 2);
    assert(final(s)@ =~= old(s)@ + time_text(*st));
}

} // verus!
