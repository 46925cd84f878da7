//! The date that a document sees as today.

use vstd::prelude::*;
use chrono::Datelike;

verus! {

/// The calendar date, as year, month and day, at `seconds` after the Unix
/// epoch in the zone `offset` seconds east of UTC, as the `chrono` crate
/// computes it; `None` where `chrono` has no such moment or no such zone.
pub uninterp spec fn civil_date(seconds: int, offset: int) -> Option<(i32, u32, u32)>;

/// `DateTime::from_timestamp`, `FixedOffset::east_opt` and
/// `DateTime::with_timezone` of the `chrono` crate, read out with
/// `Datelike::year`, `month` and `day`: the date at `seconds` after the Unix
/// epoch, `offset` seconds east of UTC, which this crate knows under the
/// name `civil_date`.
#[verifier::external_body]
fn date_at(seconds: i64, offset: i32) -> (date: Option<(i32, u32, u32)>)
    ensures
        date == civil_date(seconds as int, offset as int),
{
    let utc = chrono::DateTime::from_timestamp(seconds, 0)?;
    let zone = chrono::FixedOffset::east_opt(offset)?;
    let local = utc.with_timezone(&zone);
    Some((local.year(), local.month(), local.day()))
}

/// The zone in which today is asked for, in seconds east of UTC: `local`
/// where no offset is given, and the given hours where they are a zone, that
/// is less than a day either way.
pub open spec fn zone_seconds(offset: Option<i64>, local: i32) -> Option<i32> {
    match offset {
        None => if -86400 < local < 86400 {
            Some(local)
        } else {
            None
        },
        Some(hours) => if -24 < hours < 24 {
            Some((hours * 3600) as i32)
        } else {
            None
        },
    }
}

/// The zone in which today is asked for. `offset` is a number of hours east
/// of UTC, `local` the zone of this machine in seconds.
pub fn utc_offset(offset: Option<i64>, local: i32) -> (zone: Option<i32>)
    ensures
        zone == zone_seconds(offset, local),
{
    match offset {
        None => if -86400 < local && local < 86400 {
            Some(local)
        } else {
            None
        },
        Some(hours) => {
            if hours < -2147483648 || hours > 2147483647 {
                return None;
            }
            let hours = hours as i32;
            match hours.checked_mul(3600) {
                Some(seconds) => if -86400 < seconds && seconds < 86400 {
                    Some(seconds)
                } else {
                    None
                },
                None => None,
            }
        },
    }
}

/// What `today` returns for the date that `chrono` gave: the date itself
/// where month and day fit a byte, and nothing else.
pub open spec fn narrowed(date: Option<(i32, u32, u32)>) -> Option<(i32, u8, u8)> {
    match date {
        Some((year, month, day)) => if month <= 255 && day <= 255 {
            Some((year, month as u8, day as u8))
        } else {
            None
        },
        None => None,
    }
}

/// Narrows month and day of a date to bytes.
pub fn narrow(date: Option<(i32, u32, u32)>) -> (out: Option<(i32, u8, u8)>)
    ensures
        out == narrowed(date),
{
    match date {
        Some((year, month, day)) => if month <= 255 && day <= 255 {
            Some((year, month as u8, day as u8))
        } else {
            None
        },
        None => None,
    }
}

/// The date at `now`, in seconds after the Unix epoch, in the zone that
/// `offset` and `local` ask for; `None` where they ask for no zone or the
/// moment has no date.
pub fn today(now: i64, offset: Option<i64>, local: i32) -> (date: Option<(i32, u8, u8)>)
    ensures
        date == match zone_seconds(offset, local) {
            Some(zone) => narrowed(civil_date(now as int, zone as int)),
            None => None,
        },
{
    match utc_offset(offset, local) {
        Some(zone) => narrow(date_at(now, zone)),
        None => None,
    }
}

} // verus!
