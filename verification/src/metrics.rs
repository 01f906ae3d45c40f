//! Figures shown by the metrics commands.
use vstd::prelude::*;
use crate::text::{format_i64, signed_decimal};

verus! {

/// Rust's `/` on signed integers: the quotient rounded toward zero.
pub open spec fn trunc_div(a: int, b: int) -> int
    recommends
        b > 0,
{
    if a >= 0 {
        a / b
    } else {
        -((-a) / b)
    }
}

/// Rust's `%` on signed integers: the remainder takes the sign of `a`.
pub open spec fn trunc_rem(a: int, b: int) -> int
    recommends
        b > 0,
{
    a - b * trunc_div(a, b)
}

/// An uptime of `s` seconds as days, hours and minutes: `"{d}d {h}h {m}m"`.
pub open spec fn uptime_text(s: int) -> Seq<char> {
    signed_decimal(trunc_div(s, 86400)) + "d "@ + signed_decimal(
        trunc_div(trunc_rem(s, 86400), 3600),
    ) + "h "@ + signed_decimal(trunc_div(trunc_rem(s, 3600), 60)) + "m"@
}

/// The days, hours and minutes of an uptime given in seconds.
pub fn format_uptime(seconds: i64) -> (r: String)
    ensures
        r@ == uptime_text(seconds as int),
{
    let negative = seconds < 0;
    let magnitude: u64 = if negative {
        (0i128 - (seconds as i128)) as u64
    } else {
        seconds as u64
    };
    let d: u64 = magnitude / 86400;
    let h: u64 = (magnitude % 86400) / 3600;
    let m: u64 = (magnitude % 3600) / 60;
    let (days, hours, minutes): (i64, i64, i64) = if negative {
        (0 - (d as i64), 0 - (h as i64), 0 - (m as i64))
    } else {
        (d as i64, h as i64, m as i64)
    };
    proof {
        let s = seconds as int;
        let a = magnitude as int;
        if negative {
            assert(trunc_div(s, 86400) == -(a / 86400));
            assert(trunc_rem(s, 86400) == -(a % 86400));
            assert(trunc_div(trunc_rem(s, 86400), 3600) == -((a % 86400) / 3600));
            assert(trunc_rem(s, 3600) == -(a % 3600));
            assert(trunc_div(trunc_rem(s, 3600), 60) == -((a % 3600) / 60));
        } else {
            assert(trunc_rem(s, 86400) == a % 86400);
            assert(trunc_rem(s, 3600) == a % 3600);
        }
    }
    let mut r = format_i64(days);
    r.append("d ");
    r.append(format_i64(hours).as_str());
    r.append("h ");
    r.append(format_i64(minutes).as_str());
    r.append("m");
    r
}

/// For an uptime that is not negative, the days, hours and minutes shown
/// are whole units that fit (hours below 24, minutes below 60), and they
/// account for all of it but less than a minute.
pub proof fn law_uptime_components(s: int)
    requires
        s >= 0,
    ensures
        ({
            let d = trunc_div(s, 86400);
            let h = trunc_div(trunc_rem(s, 86400), 3600);
            let m = trunc_div(trunc_rem(s, 3600), 60);
            &&& d >= 0
            &&& 0 <= h < 24
            &&& 0 <= m < 60
            &&& 86400 * d + 3600 * h + 60 * m <= s < 86400 * d + 3600 * h + 60 * m + 60
        }),
{
    let d = s / 86400;
    let r = s % 86400;
    assert(s == 86400 * d + r && 0 <= r < 86400);
    let h = r / 3600;
    let m = (r % 3600) / 60;
    assert(s % 3600 == r % 3600) by (nonlinear_arith)
        requires
            s == 86400 * d + r,
            0 <= r < 86400,
            d >= 0,
    {
        assert(86400 * d == 3600 * (24 * d));
    }
}

} // verus!
