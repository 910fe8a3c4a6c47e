//! The time zone for which a document asks the date.

use vstd::prelude::*;

verus! {

/// The offset from UTC, in whole hours, for which the date is given: the one
/// asked for where that is an offset at all, and UTC where none is asked for
/// or the one asked for is out of range.
pub open spec fn offset_hours_for(offset: Option<i64>) -> i8 {
    match offset {
        Some(hours) if -25 <= hours <= 25 => hours as i8,
        _ => 0,
    }
}

/// `time::UtcOffset::from_hms`, with no minutes and no seconds: it accepts the
/// hours from -25 to 25 and no others.
#[verifier::external_body]
fn is_offset(hours: i8) -> (valid: bool)
    ensures
        valid == (-25 <= hours <= 25),
{
    time::UtcOffset::from_hms(hours, 0, 0).is_ok()
}

/// Chooses the offset from UTC, in whole hours, for which the date is given.
pub fn offset_hours(offset: Option<i64>) -> (hours: i8)
    ensures
        hours == offset_hours_for(offset),
{
    match offset {
        Some(asked) => {
            if -128 <= asked && asked <= 127 {
                let hours: i8 = asked as i8;
                if is_offset(hours) {
                    hours
                } else {
                    0
                }
            } else {
                0
            }
        },
        None => 0,
    }
}

} // verus!
