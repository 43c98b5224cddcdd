//! The maintenance status of an SDK's repository, from the time of its last push.
use vstd::prelude::*;

use crate::models::MaintenanceStatus;

verus! {

/// Abandoned after more than a year without a push, stale after more than
/// half a year, active otherwise.
pub open spec fn status_for_age(days: int) -> MaintenanceStatus {
    if days > 365 {
        MaintenanceStatus::Abandoned
    } else if days > 180 {
        MaintenanceStatus::Stale
    } else {
        MaintenanceStatus::Active
    }
}

/// What chrono's `DateTime<Utc>` parse (`str::parse::<DateTime<Utc>>`) gives
/// for a timestamp text, as seconds since the epoch and the nanoseconds within
/// the second (1_000_000_000 or more during a leap second).
pub uninterp spec fn utc_instant(text: Seq<char>) -> Option<(int, int)>;

/// Parses `text` as a `chrono::DateTime<Utc>` and reads its `timestamp()` and
/// `timestamp_subsec_nanos()`. Claimed: the instant is a function of the text
/// alone, `None` exactly when the parse fails.
#[verifier::external_body]
fn parse_utc(text: &str) -> (r: Option<(i64, u32)>)
    ensures
        match r {
            Some(t) => utc_instant(text@) == Some((t.0 as int, t.1 as int)),
            None => utc_instant(text@) is None,
        },
{
    match text.parse::<chrono::DateTime<chrono::Utc>>() {
        Ok(t) => Some((t.timestamp(), t.timestamp_subsec_nanos())),
        Err(_) => None,
    }
}

/// Nanoseconds per second.
pub open spec fn nanos_per_sec() -> int {
    1_000_000_000
}

/// The time from `then` to `now` (each as seconds since the epoch and
/// nanoseconds within the second) as chrono's `signed_duration_since` gives
/// it: whole seconds, counting a leap second of the earlier instant that the
/// seconds-of-day difference leaves out, and nanoseconds normalised into
/// `0..1_000_000_000`.
pub open spec fn duration_between(then: (int, int), now: (int, int)) -> (int, int) {
    let a = now.0 % 86400;
    let b = then.0 % 86400;
    let leap = if a > b && then.1 >= nanos_per_sec() {
        1int
    } else if a < b && now.1 >= nanos_per_sec() {
        -1int
    } else {
        0int
    };
    let frac = now.1 - then.1;
    (now.0 - then.0 + leap + frac / nanos_per_sec(), frac % nanos_per_sec())
}

/// Integer division rounding toward zero, as Rust's `/` on integers.
pub open spec fn div_toward_zero(a: int, d: int) -> int {
    if a >= 0 {
        a / d
    } else {
        -((-a) / d)
    }
}

/// The whole days from `then` to `now`, as chrono's `TimeDelta::num_days`
/// gives them for `now.signed_duration_since(then)`: the whole seconds,
/// rounded toward zero, divided by 86400 rounding toward zero.
pub open spec fn whole_days(then: (int, int), now: (int, int)) -> int {
    let d = duration_between(then, now);
    let secs = if d.0 < 0 && d.1 > 0 {
        d.0 + 1
    } else {
        d.0
    };
    div_toward_zero(secs, 86400)
}

/// `x` split into whole seconds and nanoseconds, `x / 10^9` and `x % 10^9`
/// with `%` in `0..10^9`.
fn split_nanos(x: i64) -> (r: (i64, i64))
    requires
        -5_000_000_000 < x < 5_000_000_000,
    ensures
        r.0 == x as int / nanos_per_sec(),
        r.1 == x as int % nanos_per_sec(),
{
    if x >= 0 {
        (x / 1_000_000_000, x % 1_000_000_000)
    } else {
        let m: i64 = -x;
        let q: i64 = m / 1_000_000_000;
        let r: i64 = m % 1_000_000_000;
        if r == 0 {
            assert(x as int / nanos_per_sec() == -q && x as int % nanos_per_sec() == 0) by (nonlinear_arith)
                requires
                    m == -x,
                    q == m / 1_000_000_000,
                    r == m % 1_000_000_000,
                    r == 0,
                    x < 0,
            ;
            (-q, 0)
        } else {
            assert(x as int / nanos_per_sec() == -q - 1 && x as int % nanos_per_sec() == 1_000_000_000 - r)
                by (nonlinear_arith)
                requires
                    m == -x,
                    q == m / 1_000_000_000,
                    r == m % 1_000_000_000,
                    r != 0,
                    x < 0,
            ;
            (-q - 1, 1_000_000_000 - r)
        }
    }
}

/// The second of the day of a timestamp, `t % 86400` in `0..86400`.
fn second_of_day(t: i64) -> (r: i64)
    ensures
        r == t as int % 86400,
{
    if t >= 0 {
        t % 86400
    } else {
        let m: i128 = -(t as i128);
        let rm: i128 = m % 86400;
        if rm == 0 {
            assert(t as int % 86400 == 0) by (nonlinear_arith)
                requires
                    m == -t,
                    rm == m % 86400,
                    rm == 0,
            ;
            0
        } else {
            assert(t as int % 86400 == 86400 - rm) by (nonlinear_arith)
                requires
                    m == -t,
                    rm == m % 86400,
                    rm != 0,
                    t < 0,
            ;
            (86400 - rm) as i64
        }
    }
}

/// The whole days from `then` to `now`.
fn days_between(then: (i64, u32), now: (i64, u32)) -> (d: i128)
    ensures
        d == whole_days((then.0 as int, then.1 as int), (now.0 as int, now.1 as int)),
{
    let a = second_of_day(now.0);
    let b = second_of_day(then.0);
    let leap: i128 = if a > b && then.1 >= 1_000_000_000 {
        1
    } else if a < b && now.1 >= 1_000_000_000 {
        -1
    } else {
        0
    };
    let frac: i64 = now.1 as i64 - then.1 as i64;
    let (carry, nanos) = split_nanos(frac);
    let secs0: i128 = now.0 as i128 - then.0 as i128 + leap + carry as i128;
    let secs: i128 = if secs0 < 0 && nanos > 0 {
        secs0 + 1
    } else {
        secs0
    };
    if secs >= 0 {
        secs / 86400
    } else {
        -((-secs) / 86400)
    }
}

/// The status of a repository whose metadata gives `pushed_at` (or no push
/// time), judged at the instant `now`: `Unknown` without a push time, an
/// error when the push time does not parse, otherwise the status for the
/// whole days since the push.
pub fn status_from_pushed_at(pushed_at: Option<&str>, now: (i64, u32)) -> (r: Result<
    MaintenanceStatus,
    (),
>)
    ensures
        pushed_at is None ==> r == Ok::<MaintenanceStatus, ()>(MaintenanceStatus::Unknown),
        pushed_at matches Some(p) ==> match utc_instant(p@) {
            None => r is Err,
            Some(t) => r == Ok::<MaintenanceStatus, ()>(
                status_for_age(whole_days(t, (now.0 as int, now.1 as int))),
            ),
        },
{
    match pushed_at {
        None => Ok(MaintenanceStatus::Unknown),
        Some(p) => match parse_utc(p) {
            None => Err(()),
            Some(then) => {
                let days = days_between(then, now);
                if days > 365 {
                    Ok(MaintenanceStatus::Abandoned)
                } else if days > 180 {
                    Ok(MaintenanceStatus::Stale)
                } else {
                    Ok(MaintenanceStatus::Active)
                }
            },
        },
    }
}

/// How poorly maintained a status says a repository is.
pub open spec fn neglect(s: MaintenanceStatus) -> int {
    match s {
        MaintenanceStatus::Active => 0,
        MaintenanceStatus::Stale => 1,
        MaintenanceStatus::Abandoned => 2,
        MaintenanceStatus::Unknown => 0,
    }
}

/// A repository pushed longer ago is never judged better maintained.
pub proof fn law_status_worsens_with_age(d1: int, d2: int)
    requires
        d1 <= d2,
    ensures
        neglect(status_for_age(d1)) <= neglect(status_for_age(d2)),
        status_for_age(d1) != MaintenanceStatus::Unknown,
{
}

/// A repository last pushed more than 365 days ago is abandoned, one pushed
/// 181 to 365 days ago is stale, and one pushed at most 180 days ago is active.
pub proof fn law_status_thresholds(days: int)
    ensures
        days > 365 ==> status_for_age(days) == MaintenanceStatus::Abandoned,
        181 <= days <= 365 ==> status_for_age(days) == MaintenanceStatus::Stale,
        days <= 180 ==> status_for_age(days) == MaintenanceStatus::Active,
{
}

/// Between two instants with the same fraction of a second (outside a leap
/// second), `n` full days and `r` further seconds apart, `n` whole days have
/// passed; and the same span backwards gives `-n` days.
pub proof fn law_whole_days_counts_full_days(then_secs: int, nanos: int, n: int, r: int)
    requires
        0 <= nanos < 1_000_000_000,
        n >= 0,
        0 <= r < 86400,
    ensures
        whole_days((then_secs, nanos), (then_secs + n * 86400 + r, nanos)) == n,
        whole_days((then_secs + n * 86400 + r, nanos), (then_secs, nanos)) == -n,
{
    let span = n * 86400 + r;
    assert(span >= 0) by (nonlinear_arith)
        requires
            n >= 0,
            r >= 0,
            span == n * 86400 + r,
    ;
    assert(span / 86400 == n) by (nonlinear_arith)
        requires
            n >= 0,
            0 <= r < 86400,
            span == n * 86400 + r,
    ;
    assert(0int / nanos_per_sec() == 0 && 0int % nanos_per_sec() == 0);
    assert(div_toward_zero(-span, 86400) == -n);
}

} // verus!
