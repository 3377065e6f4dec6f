//! Calendar conversions in the fixed UTC+8 offset that the platform's
//! human-readable timestamps use.

use chrono::Datelike;
use chrono::TimeZone;
use vstd::prelude::*;

verus! {

/// The calendar year, in UTC+8, of a Unix timestamp.
pub uninterp spec fn year_of_utc8(t: int) -> int;

/// The calendar month (1 through 12), in UTC+8, of a Unix timestamp.
pub uninterp spec fn month_of_utc8(t: int) -> int;

/// The RFC 3339 rendering, in UTC+8, of a Unix timestamp.
pub uninterp spec fn rfc3339_utc8(t: int) -> Seq<char>;

/// Calendar keys in weak chronological order: an earlier year, or the same
/// year and a month no later.
pub open spec fn ym_le(y1: int, m1: int, y2: int, m2: int) -> bool {
    y1 < y2 || (y1 == y2 && m1 <= m2)
}

/// Relies on chrono's `Datelike::year` of the `DateTime<FixedOffset>` built
/// from a Unix timestamp at offset +08:00: the year depends on the timestamp
/// alone.
#[verifier::external_body]
pub(crate) fn utc8_year(t: i64) -> (r: i32)
    requires
        crate::ts_in_range(t as int),
    ensures
        r as int == year_of_utc8(t as int),
{
    let offset = chrono::FixedOffset::east_opt(8 * 60 * 60).unwrap();
    offset.timestamp_opt(t, 0).unwrap().year()
}

/// Relies on chrono's `Datelike::month` of the `DateTime<FixedOffset>` built
/// from a Unix timestamp at offset +08:00: the month depends on the timestamp
/// alone and is between 1 and 12. The last clause states that the fixed-offset
/// calendar is monotone in the timestamp: the date is read off the count of
/// days (then seconds) since the epoch, which grows with the timestamp, and
/// the (year, month) key grows with the date.
#[verifier::external_body]
pub(crate) fn utc8_month(t: i64) -> (r: u32)
    requires
        crate::ts_in_range(t as int),
    ensures
        r as int == month_of_utc8(t as int),
        1 <= r <= 12,
        forall|t2: int|
            #![trigger month_of_utc8(t2)]
            crate::ts_in_range(t2) && t2 <= t as int ==> ym_le(
                year_of_utc8(t2),
                month_of_utc8(t2),
                year_of_utc8(t as int),
                r as int,
            ),
{
    let offset = chrono::FixedOffset::east_opt(8 * 60 * 60).unwrap();
    offset.timestamp_opt(t, 0).unwrap().month()
}

/// Relies on chrono's `DateTime::to_rfc3339` of the `DateTime<FixedOffset>`
/// built from a Unix timestamp at offset +08:00: the rendering depends on the
/// timestamp alone.
#[verifier::external_body]
pub(crate) fn utc8_rfc3339(t: i64) -> (r: String)
    requires
        crate::ts_in_range(t as int),
    ensures
        r@ == rfc3339_utc8(t as int),
{
    let offset = chrono::FixedOffset::east_opt(8 * 60 * 60).unwrap();
    offset.timestamp_opt(t, 0).unwrap().to_rfc3339()
}

} // verus!
