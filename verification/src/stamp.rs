use vstd::prelude::*;
use std::time::SystemTime;

verus! {

/// Whether `c` is an ASCII digit.
pub open spec fn is_digit(c: char) -> bool {
    '0' <= c && c <= '9'
}

/// Whether `t` is a time written `YYYY-MM-DD HH:MM:SS`: the year (digits, with a `+` before a
/// year past 9999), then `-MM-DD HH:MM:SS` in two-digit fields.
pub open spec fn clock_text(t: Seq<char>) -> bool {
    let k = t.len() - 15;
    &&& t.len() >= 19
    &&& forall|i: int| 0 <= i < k ==> is_digit(#[trigger] t[i]) || t[i] == '+'
    &&& t[k] == '-'
    &&& t[k + 3] == '-'
    &&& t[k + 6] == ' '
    &&& t[k + 9] == ':'
    &&& t[k + 12] == ':'
    &&& forall|i: int|
        k <= i < t.len() && i != k && i != k + 3 && i != k + 6 && i != k + 9 && i != k + 12
            ==> is_digit(#[trigger] t[i])
}

/// The local time now, written `YYYY-MM-DD HH:MM:SS`: `chrono::Local::now()` formatted
/// by chrono's `format`. The clock reads no earlier than 1970 (chrono stops otherwise), so the
/// year has at least four digits, and chrono writes a `+` before one past 9999; the other
/// fields have two digits each. Which time it is depends on the clock and the time zone and
/// is not stated.
#[verifier::external_body]
pub fn get_current_time() -> (t: String)
    ensures
        clock_text(t@),
{
    chrono::Local::now().format("%Y-%m-%d %H:%M:%S").to_string()
}

/// A point in time as std's file metadata gives it.
#[verifier::external_type_specification]
#[verifier::external_body]
pub struct ExSystemTime(SystemTime);

/// `SystemTime::duration_since(UNIX_EPOCH)` from std: `Ok` with the whole seconds and the
/// nanoseconds since the epoch, or `Err` with those before it, where `t` lies earlier. The
/// nanoseconds (`Duration::subsec_nanos`) are below one second.
#[verifier::external_body]
fn since_epoch(t: SystemTime) -> (r: Result<(u64, u32), (u64, u32)>)
    ensures
        match r {
            Ok((_, n)) => n < 1_000_000_000,
            Err((_, n)) => n < 1_000_000_000,
        },
{
    match t.duration_since(std::time::UNIX_EPOCH) {
        Ok(d) => Ok((d.as_secs(), d.subsec_nanos())),
        Err(e) => Err((e.duration().as_secs(), e.duration().subsec_nanos())),
    }
}

/// The seconds (rounded down) and nanoseconds since the epoch of the time that `since`
/// measures from the epoch, as chrono splits it.
pub open spec fn epoch_split(since: Result<(u64, u32), (u64, u32)>) -> (int, int) {
    match since {
        Ok((s, n)) => (s as int, n as int),
        Err((s, n)) => if n == 0 {
            (-(s as int), 0)
        } else {
            (-(s as int) - 1, 1_000_000_000 - n)
        },
    }
}

/// Whether a time `secs` seconds after the epoch falls, in every time zone, in the years 1 to
/// 9999, for which a date is written with a four-digit year: from a day after the start of
/// the year 1 to a day before the end of the year 9999 (UTC).
pub open spec fn resource_time_in_range(secs: int) -> bool {
    -62135510400 <= secs <= 253402214399
}

/// Whether `s` is written `YYYY/MM/DD`: ten characters, slashes at positions 4 and 7, digits
/// elsewhere.
pub open spec fn resource_date_shape(s: Seq<char>) -> bool {
    &&& s.len() == 10
    &&& s[4] == '/'
    &&& s[7] == '/'
    &&& forall|i: int| 0 <= i < 10 && i != 4 && i != 7 ==> '0' <= #[trigger] s[i] && s[i] <= '9'
}

/// The local date of the time `secs` seconds and `nanos` nanoseconds after the epoch, written
/// `YYYY/MM/DD`: chrono's `DateTime::from_timestamp`, moved to the machine's time zone with
/// `with_timezone(&Local)` and formatted by `format`. In range the year is one of 1 to 9999,
/// which `%Y` writes with four digits; the date itself depends on the time zone and is not
/// stated.
#[verifier::external_body]
fn local_date(secs: i64, nanos: u32) -> (s: String)
    requires
        resource_time_in_range(secs as int),
        nanos < 1_000_000_000,
    ensures
        resource_date_shape(s@),
{
    chrono::DateTime::from_timestamp(secs, nanos)
        .unwrap()
        .with_timezone(&chrono::Local)
        .format("%Y/%m/%d")
        .to_string()
}

/// The time that `since` measures from the epoch, as seconds and nanoseconds, where it falls
/// in the years 1 to 9999; None elsewhere.
pub fn resource_timestamp(since: Result<(u64, u32), (u64, u32)>) -> (r: Option<(i64, u32)>)
    requires
        match since {
            Ok((_, n)) => n < 1_000_000_000,
            Err((_, n)) => n < 1_000_000_000,
        },
    ensures
        match r {
            Some((s, n)) => s as int == epoch_split(since).0 && n as int == epoch_split(since).1
                && resource_time_in_range(s as int),
            None => !resource_time_in_range(epoch_split(since).0),
        },
{
    match since {
        Ok((s, n)) => {
            if s <= 253402214399 {
                Some((s as i64, n))
            } else {
                None
            }
        },
        Err((s, n)) => {
            if n == 0 {
                if s <= 62135510400 {
                    Some((-(s as i64), 0))
                } else {
                    None
                }
            } else {
                if s < 62135510400 {
                    Some((-(s as i64) - 1, 1_000_000_000 - n))
                } else {
                    None
                }
            }
        },
    }
}

/// A file's modification date as the resource manager shows it, `YYYY/MM/DD` in the machine's
/// time zone; None for a time outside the years 1 to 9999, where the date would not have that
/// form.
pub fn format_resource_system_time(system_time: SystemTime) -> (s: Option<String>)
    ensures
        match s {
            Some(d) => resource_date_shape(d@),
            None => true,
        },
{
    let since = since_epoch(system_time);
    match resource_timestamp(since) {
        Some((secs, nanos)) => Some(local_date(secs, nanos)),
        None => None,
    }
}

/// A fresh random identifier: `uuid::Uuid::new_v4()` written by its `Display` impl, which
/// gives the 36-character hyphenated form with dashes at positions 8, 13, 18 and 23.
#[verifier::external_body]
pub(crate) fn new_id() -> (id: String)
    ensures
        id@.len() == 36,
        id@[8] == '-',
        id@[13] == '-',
        id@[18] == '-',
        id@[23] == '-',
{
    uuid::Uuid::new_v4().to_string()
}

} // verus!
