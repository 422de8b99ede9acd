//! The timestamp source: an instant broken down into calendar and clock
//! parts, its fixed `MMDD HH:MM:SS.ffffff` rendering, and the two ways of
//! obtaining the current instant (UTC, which always succeeds, and local
//! time, which can fail when no local offset can be resolved).

use vstd::prelude::*;
use crate::text::{
    line_break_free, spec_zero_padded, lemma_line_break_free_concat,
    lemma_zero_padded_line_break_free, u64_zero_padded,
};
use vstd::string::StringExecFns;

verus! {

/// One instant, broken down into the parts the timestamp layout shows.
#[derive(Clone, Copy)]
pub struct ClockParts {
    pub month: u8,
    pub day: u8,
    pub hour: u8,
    pub minute: u8,
    pub second: u8,
    pub microsecond: u32,
}

impl ClockParts {
    /// The ranges a calendar clock can produce.
    pub open spec fn wf(&self) -> bool {
        &&& 1 <= self.month <= 12
        &&& 1 <= self.day <= 31
        &&& self.hour < 24
        &&& self.minute < 60
        &&& self.second < 60
        &&& self.microsecond < 1000000
    }
}

/// The fixed timestamp layout: two digits each for month, day, hour,
/// minute and second, six for the microseconds, all zero-padded.
pub open spec fn spec_timestamp(p: ClockParts) -> Seq<char> {
    spec_zero_padded(p.month as nat, 2) + spec_zero_padded(p.day as nat, 2) + seq![' ']
        + spec_zero_padded(p.hour as nat, 2) + seq![':'] + spec_zero_padded(p.minute as nat, 2)
        + seq![':'] + spec_zero_padded(p.second as nat, 2) + seq!['.'] + spec_zero_padded(
        p.microsecond as nat,
        6,
    )
}

/// Renders the instant as `MMDD HH:MM:SS.ffffff`, with no trailing space.
pub fn format_timestamp(p: &ClockParts) -> (r: String)
    ensures
        r@ == spec_timestamp(*p),
{
    proof {
        reveal_strlit(" ");
        reveal_strlit(":");
        reveal_strlit(".");
    }
    let mut out = u64_zero_padded(p.month as u64, 2);
    let day = u64_zero_padded(p.day as u64, 2);
    out.append(day.as_str());
    out.append(" ");
    let hour = u64_zero_padded(p.hour as u64, 2);
    out.append(hour.as_str());
    out.append(":");
    let minute = u64_zero_padded(p.minute as u64, 2);
    out.append(minute.as_str());
    out.append(":");
    let second = u64_zero_padded(p.second as u64, 2);
    out.append(second.as_str());
    out.append(".");
    let micro = u64_zero_padded(p.microsecond as u64, 6);
    out.append(micro.as_str());
    proof {
        assert(out@ =~= spec_timestamp(*p));
    }
    out
}

/// A rendered timestamp holds no line terminator.
pub proof fn lemma_timestamp_line_break_free(p: ClockParts)
    ensures
        line_break_free(spec_timestamp(p)),
{
    lemma_zero_padded_line_break_free(p.month as nat, 2);
    lemma_zero_padded_line_break_free(p.day as nat, 2);
    lemma_zero_padded_line_break_free(p.hour as nat, 2);
    lemma_zero_padded_line_break_free(p.minute as nat, 2);
    lemma_zero_padded_line_break_free(p.second as nat, 2);
    lemma_zero_padded_line_break_free(p.microsecond as nat, 6);
    let a = spec_zero_padded(p.month as nat, 2);
    let b = a + spec_zero_padded(p.day as nat, 2);
    let c = b + seq![' '];
    let d = c + spec_zero_padded(p.hour as nat, 2);
    let e = d + seq![':'];
    let f = e + spec_zero_padded(p.minute as nat, 2);
    let g = f + seq![':'];
    let h = g + spec_zero_padded(p.second as nat, 2);
    let i = h + seq!['.'];
    lemma_line_break_free_concat(a, spec_zero_padded(p.day as nat, 2));
    lemma_line_break_free_concat(b, seq![' ']);
    lemma_line_break_free_concat(c, spec_zero_padded(p.hour as nat, 2));
    lemma_line_break_free_concat(d, seq![':']);
    lemma_line_break_free_concat(e, spec_zero_padded(p.minute as nat, 2));
    lemma_line_break_free_concat(f, seq![':']);
    lemma_line_break_free_concat(g, spec_zero_padded(p.second as nat, 2));
    lemma_line_break_free_concat(h, seq!['.']);
    lemma_line_break_free_concat(i, spec_zero_padded(p.microsecond as nat, 6));
}

/// Which clock the formatter reads when it stamps a line.
#[derive(Clone, Copy, PartialEq, Eq, Structural)]
pub enum Timer {
    Utc,
    Local,
}

/// Relies on `time::OffsetDateTime::now_utc` and its component accessors
/// `month`, `day`, `hour`, `minute`, `second` and `microsecond`: the parts
/// of the current UTC instant, each inside the range its documentation
/// states (month 1..=12, day 1..=31, hour below 24, minute and second
/// below 60, microsecond below one million).
#[verifier::external_body]
pub(crate) fn now_utc_parts() -> (r: ClockParts)
    ensures
        r.wf(),
{
    let t = time::OffsetDateTime::now_utc();
    ClockParts {
        month: t.month() as u8,
        day: t.day(),
        hour: t.hour(),
        minute: t.minute(),
        second: t.second(),
        microsecond: t.microsecond(),
    }
}

/// Relies on `time::OffsetDateTime::now_local`: `Ok` carries the current
/// instant in the local offset, with the same component accessors and
/// documented ranges as the UTC case; `Err` means the local offset could
/// not be determined.
#[verifier::external_body]
pub(crate) fn now_local_parts() -> (r: Option<ClockParts>)
    ensures
        r matches Some(p) ==> p.wf(),
{
    match time::OffsetDateTime::now_local() {
        Ok(t) => Some(
            ClockParts {
                month: t.month() as u8,
                day: t.day(),
                hour: t.hour(),
                minute: t.minute(),
                second: t.second(),
                microsecond: t.microsecond(),
            },
        ),
        Err(_) => None,
    }
}

/// Reads the clock that `timer` selects. The UTC clock always succeeds;
/// the local clock yields nothing when the local offset is unavailable.
pub fn timer_now(timer: &Timer) -> (r: Option<ClockParts>)
    ensures
        r matches Some(p) ==> p.wf(),
        *timer is Utc ==> r is Some,
{
    match timer {
        Timer::Utc => Some(now_utc_parts()),
        Timer::Local => now_local_parts(),
    }
}

} // verus!
