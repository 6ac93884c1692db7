use vstd::prelude::*;

verus! {

/// The hours, minutes and seconds shown for a remaining time of `nanos`
/// nanoseconds: whole seconds, none when the time is negative. A unit that
/// the output does not show is carried into the next smaller one.
pub open spec fn duration_parts(nanos: int, show_hours: bool, show_minutes: bool) -> (int, int, int) {
    let total = if nanos > 0 {
        nanos / 1_000_000_000
    } else {
        0
    };
    let h = total / 3600;
    let m = (total % 3600) / 60;
    let s = total % 60;
    let (h, m) = if show_hours {
        (h, m)
    } else {
        (0, m + h * 60)
    };
    if show_minutes {
        (h, m, s)
    } else {
        (h, 0, s + m * 60)
    }
}

/// Splits a remaining time into the hours, minutes and seconds to show.
pub fn duration_tokens(nanos: i128, show_hours: bool, show_minutes: bool) -> (r: (i128, i128, i128))
    ensures
        (r.0 as int, r.1 as int, r.2 as int) == duration_parts(nanos as int, show_hours, show_minutes),
{
    let total: i128 = if nanos > 0 {
        nanos / 1_000_000_000
    } else {
        0
    };
    let mut hours = total / 3600;
    let mut minutes = (total % 3600) / 60;
    let mut seconds = total % 60;
    assert(0 <= hours * 60 <= total / 60) by (nonlinear_arith)
        requires
            hours == total / 3600,
            total >= 0,
    ;
    if !show_hours {
        minutes = minutes + hours * 60;
        hours = 0;
    }
    assert(0 <= minutes <= total / 60);
    assert(0 <= minutes * 60 <= total) by (nonlinear_arith)
        requires
            0 <= minutes <= total / 60,
            total >= 0,
    ;
    if !show_minutes {
        seconds = seconds + minutes * 60;
        minutes = 0;
    }
    (hours, minutes, seconds)
}

} // verus!
