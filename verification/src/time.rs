//! Instants, as whole seconds and nanoseconds since the Unix epoch.
use vstd::prelude::*;

use crate::text::Text;

verus! {

/// An instant in UTC: `secs` seconds and `nanos` nanoseconds after the Unix epoch.
#[derive(Debug, Clone, Copy, PartialEq, Eq, Structural)]
pub struct Timestamp {
    pub secs: i64,
    pub nanos: u32,
}

impl Timestamp {
    /// Nanoseconds since the epoch.
    pub open spec fn instant(self) -> int {
        self.secs * 1_000_000_000 + self.nanos
    }
}

/// `chrono::Utc::now`: the clock's reading, of which nothing is promised.
#[verifier::external_body]
pub(crate) fn now() -> (t: Timestamp) {
    let t = chrono::Utc::now();
    Timestamp { secs: t.timestamp(), nanos: t.timestamp_subsec_nanos() }
}

/// Whether `now` is less than `secs` seconds after `then`. A `then` in the future counts as recent.
pub fn within(now: Timestamp, then: Timestamp, secs: u32) -> (r: bool)
    ensures
        r == (now.instant() - then.instant() < secs * 1_000_000_000),
{
    let a: i128 = now.secs as i128 * 1_000_000_000 + now.nanos as i128;
    let b: i128 = then.secs as i128 * 1_000_000_000 + then.nanos as i128;
    a - b < secs as i128 * 1_000_000_000
}

/// How a moment is shown to a person: the date and the minute.
pub const MINUTES: &'static str = "%Y-%m-%d %H:%M UTC";

/// What `chrono` makes of a moment under a layout; `None` for a moment that is outside its calendar.
pub uninterp spec fn laid_out(secs: i64, nanos: u32, layout: Seq<char>) -> Option<Seq<char>>;

/// `chrono::DateTime::from_timestamp`, and its `format` under a layout of known specifiers: the text depends on the moment
/// and the layout alone.
#[verifier::external_body]
fn format_utc(at: Timestamp, layout: &str) -> (r: Option<String>)
    requires
        layout@ == MINUTES@,
    ensures
        crate::seqs::opt_model(r) == laid_out(at.secs, at.nanos, layout@),
{
    chrono::DateTime::from_timestamp(at.secs, at.nanos).map(|t| t.format(layout).to_string())
}

/// A moment as a person reads it; nothing for one outside the calendar.
pub open spec fn shown(at: Timestamp) -> Text {
    match laid_out(at.secs, at.nanos, MINUTES@) {
        Some(text) => text,
        None => Seq::empty(),
    }
}

/// A moment as a person reads it.
pub fn human_time(at: Timestamp) -> (r: String)
    ensures
        r@ == shown(at),
{
    match format_utc(at, MINUTES) {
        Some(text) => text,
        None => String::new(),
    }
}

} // verus!
