//! Dates of the registry: read from text in one of two forms, shown either as
//! local calendar time or as the time that has passed since.

use chrono::TimeZone;
use vstd::prelude::*;

use crate::document::{or_null, Json, Tree};

verus! {

/// A point in time: the seconds since the start of 1970 in UTC, and the
/// nanoseconds into that second.
#[derive(Clone, Copy, Debug)]
pub struct Instant {
    pub secs: i64,
    pub nanos: u32,
}

/// A point in time as a place saw it: `offset` is what that place's clocks
/// were ahead of UTC then, in seconds.
#[derive(Clone, Copy, Debug)]
pub struct Moment {
    pub secs: i64,
    pub nanos: u32,
    pub offset: i32,
}

/// A date of the registry. It is absent where the registry gave none, or one
/// that could not be read.
#[derive(Clone, Copy, Debug)]
pub struct TimeStamp(pub Option<Moment>);

/// The instant that `chrono` reads from a date with a time zone, in its
/// relaxed form of RFC 3339; `None` for a text that it refuses.
pub uninterp spec fn zoned(text: Seq<char>) -> Option<(i64, u32)>;

/// The instant that `chrono` reads from a date without a time zone, taken as
/// UTC; `None` for a text that it refuses.
pub uninterp spec fn zoneless(text: Seq<char>) -> Option<(i64, u32)>;

/// Date and time of day of an instant on a calendar that is `offset` seconds
/// ahead of UTC, as `chrono` writes them: with the fraction of the second
/// where there is one. `None` where `chrono` has no such offset or no such
/// date.
pub uninterp spec fn calendar(secs: i64, nanos: u32, offset: i32) -> Option<Seq<char>>;

/// The rough English phrase of `chrono_humanize` for the time from the second
/// instant to the first ("3 days ago", "in a month", "now"); `None` where
/// `chrono` cannot hold one of the instants.
pub uninterp spec fn phrase(secs: i64, nanos: u32, now_secs: i64, now_nanos: u32) -> Option<
    Seq<char>,
>;

/// Calls `DateTime::<Local>::from_str`, which reads the date with its zone
/// and moves it to the local zone. The instant depends on the text alone; the
/// offset is the one that this machine's zone had at that instant: one of
/// less than a day, as every offset is that `chrono` holds.
#[verifier::external_body]
fn parse_zoned(text: &str) -> (r: Option<Moment>)
    ensures
        match r {
            Some(m) => zoned(text@) == Some((m.secs, m.nanos)) && m.placed(),
            None => zoned(text@) is None,
        },
{
    match text.parse::<chrono::DateTime<chrono::Local>>() {
        Ok(at) => Some(
            Moment {
                secs: at.timestamp(),
                nanos: at.timestamp_subsec_nanos(),
                offset: at.offset().local_minus_utc(),
            },
        ),
        Err(_) => None,
    }
}

/// Calls `NaiveDateTime::from_str`, and `TimeZone::from_utc_datetime` of
/// `Local` on what was read, as a date in UTC. The instant depends on the
/// text alone; the offset is the one that this machine's zone had at that
/// instant: one of less than a day, as every offset is that `chrono` holds.
#[verifier::external_body]
fn parse_zoneless(text: &str) -> (r: Option<Moment>)
    ensures
        match r {
            Some(m) => zoneless(text@) == Some((m.secs, m.nanos)) && m.placed(),
            None => zoneless(text@) is None,
        },
{
    match text.parse::<chrono::NaiveDateTime>() {
        Ok(naive) => {
            let at = chrono::Local.from_utc_datetime(&naive);
            Some(
                Moment {
                    secs: at.timestamp(),
                    nanos: at.timestamp_subsec_nanos(),
                    offset: at.offset().local_minus_utc(),
                },
            )
        },
        Err(_) => None,
    }
}

/// Calls `NaiveDateTime::checked_add_offset` on the date that
/// `DateTime::from_timestamp` gives, and `NaiveDateTime`'s `Display` on the
/// sum. The text depends on the instant and the offset alone.
#[verifier::external_body]
fn calendar_text(secs: i64, nanos: u32, offset: i32) -> (r: Option<String>)
    ensures
        match r {
            Some(text) => calendar(secs, nanos, offset) == Some(text@),
            None => calendar(secs, nanos, offset) is None,
        },
{
    let zone = chrono::FixedOffset::east_opt(offset)?;
    let utc = chrono::DateTime::from_timestamp(secs, nanos)?.naive_utc();
    Some(utc.checked_add_offset(zone)?.to_string())
}

/// Calls `DateTime::signed_duration_since` on the two instants, and the
/// `Display` of `chrono_humanize::HumanTime` on the difference. The text
/// depends on the two instants alone.
#[verifier::external_body]
fn phrase_text(secs: i64, nanos: u32, now_secs: i64, now_nanos: u32) -> (r: Option<String>)
    ensures
        match r {
            Some(text) => phrase(secs, nanos, now_secs, now_nanos) == Some(text@),
            None => phrase(secs, nanos, now_secs, now_nanos) is None,
        },
{
    let then = chrono::DateTime::from_timestamp(secs, nanos)?;
    let now = chrono::DateTime::from_timestamp(now_secs, now_nanos)?;
    Some(chrono_humanize::HumanTime::from(then.signed_duration_since(now)).to_string())
}

/// Calls `Utc::now`. Nothing is known of the clock, but that `chrono` takes it
/// to stand at or after the start of 1970.
#[verifier::external_body]
fn current() -> Instant {
    let now = chrono::Utc::now();
    Instant { secs: now.timestamp(), nanos: now.timestamp_subsec_nanos() }
}

impl Moment {
    /// Whether the place's clocks are less than a day off UTC.
    pub open spec fn placed(self) -> bool {
        -86400 < self.offset < 86400
    }
}

impl Instant {
    /// Reads the clock.
    pub fn now() -> Instant {
        current()
    }
}

impl TimeStamp {
    /// The point in time, without the place.
    pub open spec fn instant(self) -> Option<(i64, u32)> {
        match self.0 {
            Some(m) => Some((m.secs, m.nanos)),
            None => None,
        }
    }

    /// The instant that a text stands for: what it says as a date with a
    /// zone, else what it says as a date without one, taken as UTC, else
    /// nothing.
    pub open spec fn read(text: Seq<char>) -> Option<(i64, u32)> {
        if zoned(text) is Some {
            zoned(text)
        } else {
            zoneless(text)
        }
    }

    /// The instant that a place in a document stands for: that of its text
    /// where it holds a string, else nothing.
    pub open spec fn read_node(node: Tree) -> Option<(i64, u32)> {
        match node {
            Tree::Text(text) => Self::read(text),
            _ => None,
        }
    }

    /// Whether the date, where there is one, is of a place whose clocks are
    /// less than a day off UTC.
    pub open spec fn placed(self) -> bool {
        match self.0 {
            Some(m) => m.placed(),
            None => true,
        }
    }

    /// Local date and time of the second that the date lies in, without the
    /// fraction of the second. Empty for an absent date.
    pub open spec fn absolute_text(self) -> Seq<char> {
        match self.0 {
            Some(m) => match calendar(m.secs, 0, m.offset) {
                Some(text) => text,
                None => Seq::empty(),
            },
            None => Seq::empty(),
        }
    }

    /// How long before or after `now` the date lies, in words. Empty for an
    /// absent date.
    pub open spec fn relative_text(self, now: Instant) -> Seq<char> {
        match self.0 {
            Some(m) => match phrase(m.secs, m.nanos, now.secs, now.nanos) {
                Some(text) => text,
                None => Seq::empty(),
            },
            None => Seq::empty(),
        }
    }

    /// The relative form where `alternate` is set, else the absolute one.
    pub open spec fn rendered(self, alternate: bool, now: Instant) -> Seq<char> {
        if alternate {
            self.relative_text(now)
        } else {
            self.absolute_text()
        }
    }

    /// Reads a date: first as one with a time zone, then as one without,
    /// which is taken as UTC. A text that is neither gives the absent date.
    pub fn parse(text: &str) -> (stamp: TimeStamp)
        ensures
            stamp.instant() == Self::read(text@),
            stamp.placed(),
    {
        match parse_zoned(text) {
            Some(m) => TimeStamp(Some(m)),
            None => TimeStamp(parse_zoneless(text)),
        }
    }

    /// Reads the date at a place in a document. Anything but a string gives
    /// the absent date.
    pub fn from_json(node: Option<&Json>) -> (stamp: TimeStamp)
        ensures
            stamp.instant() == Self::read_node(or_null(node)),
            stamp.placed(),
    {
        match node {
            Some(Json::Text(text)) => Self::parse(text.as_str()),
            _ => TimeStamp(None),
        }
    }

    /// Local date and time, to the second.
    pub fn absolute(&self) -> (out: String)
        ensures
            out@ == self.absolute_text(),
    {
        match self.0 {
            Some(m) => match calendar_text(m.secs, 0, m.offset) {
                Some(text) => text,
                None => String::new(),
            },
            None => String::new(),
        }
    }

    /// How long before or after `now` the date lies, in words.
    pub fn relative(&self, now: &Instant) -> (out: String)
        ensures
            out@ == self.relative_text(*now),
    {
        match self.0 {
            Some(m) => match phrase_text(m.secs, m.nanos, now.secs, now.nanos) {
                Some(text) => text,
                None => String::new(),
            },
            None => String::new(),
        }
    }

    /// The relative form where `alternate` is set, else the absolute one.
    pub fn render(&self, alternate: bool, now: &Instant) -> (out: String)
        ensures
            out@ == self.rendered(alternate, *now),
    {
        if alternate {
            self.relative(now)
        } else {
            self.absolute()
        }
    }
}

/// A date that reads in neither form shows as the empty text, in the absolute
/// and in the relative form.
pub proof fn lemma_unreadable_date_is_blank(text: Seq<char>, stamp: TimeStamp, now: Instant)
    requires
        zoned(text) is None,
        zoneless(text) is None,
        stamp.instant() == TimeStamp::read(text),
    ensures
        stamp.absolute_text() == Seq::<char>::empty(),
        stamp.relative_text(now) == Seq::<char>::empty(),
        stamp.rendered(true, now) == Seq::<char>::empty(),
        stamp.rendered(false, now) == Seq::<char>::empty(),
{
}

} // verus!
