//! UTC timestamps in ISO 8601 form.

use vstd::prelude::*;

use crate::text::{push_char, push_zero_padded, zero_padded};

verus! {

/// The proleptic Gregorian (year, month, day) of day `days` since 1970-01-01
/// (Howard Hinnant's `civil_from_days`, on Euclidean division; 719468 is
/// the number of days from 0000-03-01 to the epoch).
pub open spec fn civil(days: int) -> (int, int, int) {
    let z = days + 719468;
    let era = z / 146097;
    let doe = z % 146097;
    let yoe = (doe - doe / 1460 + doe / 36524 - doe / 146096) / 365;
    let y = yoe + era * 400;
    let doy = doe - (365 * yoe + yoe / 4 - yoe / 100);
    let mp = (5 * doy + 2) / 153;
    let d = doy - (153 * mp + 2) / 5 + 1;
    let m = if mp < 10 { mp + 3 } else { mp - 9 };
    (if m <= 2 { y + 1 } else { y }, m, d)
}

proof fn lemma_era(z: int, era: int, doe: int)
    by (nonlinear_arith)
    requires
        era == z / 146097,
        doe == z - era * 146097,
    ensures
        doe == z % 146097,
        0 <= doe < 146097,
{
}

proof fn lemma_ranges(doe: int)
    by (nonlinear_arith)
    requires
        0 <= doe < 146097,
    ensures
        ({
            let yoe = (doe - doe / 1460 + doe / 36524 - doe / 146096) / 365;
            let doy = doe - (365 * yoe + yoe / 4 - yoe / 100);
            let mp = (5 * doy + 2) / 153;
            let d = doy - (153 * mp + 2) / 5 + 1;
            &&& 0 <= yoe <= 399
            &&& 0 <= doy <= 365
            &&& 0 <= mp <= 11
            &&& 1 <= d <= 31
        }),
{
}

/// Day `z` since the Unix epoch as a (year, month, day) date.
pub fn civil_from_days(days: i64) -> (r: (i64, i64, i64))
    requires
        i64::MIN + 146096 - 719468 <= days <= i64::MAX - 719468,
    ensures
        (r.0 as int, r.1 as int, r.2 as int) == civil(days as int),
        1 <= r.1 <= 12,
        1 <= r.2 <= 31,
{
    let z = days + 719468;
    let era = if z >= 0 { z } else { z - 146096 } / 146097;
    proof {
        assert(era == (z as int) / 146097) by (nonlinear_arith)
            requires
                z >= 0 ==> era == (z as int) / 146097,
                z < 0 ==> era == -(((146096 - z) as int) / 146097),
        {
        }
        lemma_era(z as int, era as int, z - era * 146097);
    }
    let doe = z - era * 146097;
    proof {
        lemma_ranges(doe as int);
    }
    let yoe = (doe - doe / 1460 + doe / 36524 - doe / 146096) / 365;
    let y = yoe + era * 400;
    let doy = doe - (365 * yoe + yoe / 4 - yoe / 100);
    let mp = (5 * doy + 2) / 153;
    let d = doy - (153 * mp + 2) / 5 + 1;
    let m = if mp < 10 { mp + 3 } else { mp - 9 };
    let y = if m <= 2 { y + 1 } else { y };
    (y, m, d)
}

/// `YYYY-MM-DDTHH:MM:SSZ` for `secs` seconds after the Unix epoch.
pub open spec fn iso8601_text(secs: nat) -> Seq<char> {
    let days = secs / 86400;
    let tod = secs % 86400;
    let c = civil(days as int);
    zero_padded(c.0 as nat, 4) + seq!['-'] + zero_padded(c.1 as nat, 2) + seq!['-'] + zero_padded(c.2 as nat, 2)
        + seq!['T'] + zero_padded(tod / 3600, 2) + seq![':'] + zero_padded((tod % 3600) / 60, 2) + seq![':']
        + zero_padded(tod % 60, 2) + seq!['Z']
}

proof fn lemma_year_positive(days: int)
    by (nonlinear_arith)
    requires
        0 <= days,
    ensures
        civil(days).0 >= 0,
{
}

/// The timestamp of `secs` seconds after the Unix epoch.
pub fn format_iso8601_utc(secs: u64) -> (r: String)
    ensures
        r@ == iso8601_text(secs as nat),
{
    let days = secs / 86400;
    let tod = secs % 86400;
    let (year, month, day) = civil_from_days(days as i64);
    proof {
        lemma_year_positive(days as int);
    }
    let mut s = String::new();
    push_zero_padded(&mut s, year as u64, 4);
    push_char(&mut s, '-');
    push_zero_padded(&mut s, month as u64, 2);
    push_char(&mut s, '-');
    push_zero_padded(&mut s, day as u64, 2);
    push_char(&mut s, 'T');
    push_zero_padded(&mut s, tod / 3600, 2);
    push_char(&mut s, ':');
    push_zero_padded(&mut s, (tod % 3600) / 60, 2);
    push_char(&mut s, ':');
    push_zero_padded(&mut s, tod % 60, 2);
    push_char(&mut s, 'Z');
    assert(s@ =~= iso8601_text(secs as nat));
    s
}

/// Whole seconds since the Unix epoch on the system clock
/// (`SystemTime::now().duration_since(UNIX_EPOCH)`, 0 when the clock is
/// before the epoch). Nothing is stated of the value: it is the time.
#[verifier::external_body]
fn unix_time_secs() -> u64 {
    std::time::SystemTime::now().duration_since(std::time::UNIX_EPOCH).unwrap_or_default().as_secs()
}

/// The current UTC time as an ISO 8601 timestamp.
pub fn format_iso8601_now() -> (r: String)
    ensures
        exists|secs: nat| r@ == iso8601_text(secs),
{
    format_iso8601_utc(unix_time_secs())
}

} // verus!
