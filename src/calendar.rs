use vstd::prelude::*;
use vstd::string::StringExecFns;

verus! {

/// Offset of the fixed UTC+7 zone, in seconds.
pub const GMT7_OFFSET_SECS: i32 = 25200;

/// Seconds in a day.
pub const SECS_PER_DAY: i64 = 86400;

/// Index of the UTC+7 calendar day that holds the epoch timestamp `ts`.
pub open spec fn local_day(ts: int) -> int {
    (ts + 25200) / 86400
}

/// Inclusive-exclusive count of midnights from the day of `from` to the day of
/// `to`, in UTC+7, and 0 when `to` falls on or before the day of `from`.
pub open spec fn days_between_spec(from: int, to: int) -> int {
    if local_day(to) > local_day(from) { local_day(to) - local_day(from) } else { 0 }
}

/// Year, month and day of the instant `ts` in the zone `offset_secs` east of UTC.
pub uninterp spec fn offset_date_of(ts: int, offset_secs: int) -> (int, int, int);

/// The decimal digit `d`.
pub open spec fn digit_char(d: int) -> char {
    seq!['0', '1', '2', '3', '4', '5', '6', '7', '8', '9'][d]
}

/// The last `width` decimal digits of `v`, zero-padded.
pub open spec fn padded_digits(v: int, width: nat) -> Seq<char>
    decreases width,
{
    if width == 0 {
        Seq::empty()
    } else {
        padded_digits(v / 10, (width - 1) as nat).push(digit_char(v % 10))
    }
}

/// A calendar date written YYYYMMDD.
pub open spec fn date_key(date: (int, int, int)) -> Seq<char> {
    padded_digits(date.0, 4) + padded_digits(date.1, 2) + padded_digits(date.2, 2)
}

/// The UTC+7 day key of a timestamp.
pub open spec fn gmt7_day_key(ts: int) -> Seq<char> {
    date_key(offset_date_of(ts, 25200))
}

/// Index of the UTC+7 calendar day of `ts` (days since 1970-01-01 in UTC+7).
pub fn local_day_of(ts: i64) -> (r: i64)
    ensures
        r == local_day(ts as int),
{
    let shifted: i128 = ts as i128 + GMT7_OFFSET_SECS as i128;
    let d: i128 = SECS_PER_DAY as i128;
    let r: i128 = if shifted >= 0 {
        shifted / d
    } else {
        proof {
            assert(-((-shifted + 86399) / 86400) == shifted / 86400) by (nonlinear_arith)
                requires shifted < 0;
        }
        -((-shifted + (d - 1)) / d)
    };
    proof {
        assert(i64::MIN <= shifted / 86400 <= i64::MAX) by (nonlinear_arith)
            requires i64::MIN as int + 25200 <= shifted <= i64::MAX as int + 25200;
    }
    r as i64
}

/// Whether two timestamps fall on the same UTC+7 calendar date.
pub fn is_same_day_gmt7(timestamp1: i64, timestamp2: i64) -> (r: bool)
    ensures
        r == (local_day(timestamp1 as int) == local_day(timestamp2 as int)),
{
    local_day_of(timestamp1) == local_day_of(timestamp2)
}

/// Whole days from the UTC+7 midnight that starts the day of `from` to the one
/// that starts the day of `to`; 0 when that is not positive.
pub fn days_between(from: i64, to: i64) -> (r: i64)
    ensures
        r == days_between_spec(from as int, to as int),
        to <= from ==> r == 0,
{
    let a = local_day_of(from);
    let b = local_day_of(to);
    proof {
        assert(to <= from ==> local_day(to as int) <= local_day(from as int)) by (nonlinear_arith);
    }
    if b > a {
        proof {
            assert(b - a <= i64::MAX) by (nonlinear_arith)
                requires a == local_day(from as int), b == local_day(to as int), i64::MIN <= from, to <= i64::MAX;
        }
        b - a
    } else {
        0
    }
}

/// Relies on chrono's `FixedOffset::east_opt`, `TimeZone::timestamp_opt` and
/// `Datelike`: the calendar date of `ts` in the zone `offset_secs` east of UTC,
/// with the month in 1..=12 and the day in 1..=31 as `Datelike` documents.
/// `east_opt` accepts every offset strictly within a day, and `timestamp_opt`
/// gives a single instant wherever `DateTime::from_timestamp` does, which
/// covers every instant of the years 1 to 9999; a local time in those years
/// has a four-digit year.
#[verifier::external_body]
fn calendar_date_at(ts: i64, offset_secs: i32) -> (r: Option<(i32, u32, u32)>)
    ensures
        r matches Some(d) ==> {
            &&& (d.0 as int, d.1 as int, d.2 as int) == offset_date_of(ts as int, offset_secs as int)
            &&& 1 <= d.1 <= 12
            &&& 1 <= d.2 <= 31
        },
        -86_400 < offset_secs < 86_400 && -62_135_596_800 <= ts <= 253_402_300_799 ==> r is Some,
        -62_135_596_800 <= ts + offset_secs <= 253_402_300_799 ==> (r matches Some(d) ==> 1 <= d.0 <= 9999),
{
    let offset = chrono::FixedOffset::east_opt(offset_secs)?;
    let dt = chrono::TimeZone::timestamp_opt(&offset, ts, 0).single()?;
    Some((chrono::Datelike::year(&dt), chrono::Datelike::month(&dt), chrono::Datelike::day(&dt)))
}

/// The decimal digit `d` as a one-character string.
fn digit_str(d: u32) -> (r: &'static str)
    requires
        d < 10,
    ensures
        r@ == seq![digit_char(d as int)],
{
    match d {
        0 => { proof { reveal_strlit("0"); } "0" },
        1 => { proof { reveal_strlit("1"); } "1" },
        2 => { proof { reveal_strlit("2"); } "2" },
        3 => { proof { reveal_strlit("3"); } "3" },
        4 => { proof { reveal_strlit("4"); } "4" },
        5 => { proof { reveal_strlit("5"); } "5" },
        6 => { proof { reveal_strlit("6"); } "6" },
        7 => { proof { reveal_strlit("7"); } "7" },
        8 => { proof { reveal_strlit("8"); } "8" },
        _ => { proof { reveal_strlit("9"); } "9" },
    }
}

/// Appends the last `width` decimal digits of `v`, zero-padded.
fn push_padded(s: &mut String, v: u32, width: u32)
    ensures
        final(s)@ == old(s)@ + padded_digits(v as int, width as nat),
    decreases width,
{
    if width == 0 {
        assert(old(s)@ + Seq::<char>::empty() =~= old(s)@);
        return;
    }
    push_padded(s, v / 10, width - 1);
    s.append(digit_str(v % 10));
    assert(final(s)@ =~= old(s)@ + padded_digits(v as int, width as nat));
}

/// The UTC+7 calendar date of `ts`, written YYYYMMDD; `None` only outside the
/// years 1 to 9999.
pub fn epoch_to_human_gmt7(ts: i64) -> (r: Option<String>)
    ensures
        r matches Some(k) ==> k@ == gmt7_day_key(ts as int),
        -62_135_596_800 <= ts <= 253_402_300_799 - 25200 ==> r is Some,
{
    match calendar_date_at(ts, GMT7_OFFSET_SECS) {
        Some((year, month, day)) => {
            if year < 1 || year > 9999 {
                return None;
            }
            let mut key = String::new();
            push_padded(&mut key, year as u32, 4);
            push_padded(&mut key, month, 2);
            push_padded(&mut key, day, 2);
            assert(key@ =~= date_key(offset_date_of(ts as int, 25200)));
            Some(key)
        },
        None => None,
    }
}

} // verus!
