use vstd::prelude::*;
use crate::date::{date_from_text, parse_date, CalDate};
use crate::model::{opt_view, Calendar, CalendarView, LoadError, SpecialDay, SpecialDayView, Week};
use crate::text::{
    chars_of, find_in, first_token, first_token_range, line_ranges, lines, lemma_find_char_bound,
    lemma_lines_len, second_token, split_once, string_of, trim, trim_range, window_is,
};

verus! {

/// The line that opens a calendar text.
pub const DEFAULT_WEEK_HEADER: &'static str = "* Default Week";

/// The line that ends the default week and opens the special days.
pub const SPECIAL_DAYS_HEADER: &'static str = "* Special Days";

/// How the dates of special days are written.
pub const DATE_FORMAT: &'static str = "[month]/[day]/[year]";

/// The slot of a weekday abbreviation, Monday first.
pub open spec fn day_slot(tok: Seq<char>) -> Option<int> {
    if tok == "Mon"@ {
        Some(0)
    } else if tok == "Tue"@ {
        Some(1)
    } else if tok == "Wed"@ {
        Some(2)
    } else if tok == "Thu"@ {
        Some(3)
    } else if tok == "Fri"@ {
        Some(4)
    } else if tok == "Sat"@ {
        Some(5)
    } else if tok == "Sun"@ {
        Some(6)
    } else {
        None
    }
}

pub open spec fn date_of(t: (int, int, int)) -> CalDate {
    CalDate { year: t.0 as i32, month: t.1 as u8, day: t.2 as u8 }
}

/// A default-week line (trimmed, not empty): the weekday's slot and its schedule.
pub open spec fn week_entry(l: Seq<char>) -> Result<(int, Seq<char>), LoadError> {
    let schedule = second_token(l);
    if schedule.len() == 0 {
        Err(LoadError::MissingSchedule)
    } else {
        match day_slot(first_token(l)) {
            Some(i) => Ok((i, schedule)),
            None => Err(LoadError::UnknownDay),
        }
    }
}

/// A special-day line (trimmed, not empty).
pub open spec fn special_entry(l: Seq<char>) -> Result<SpecialDayView, LoadError> {
    let before = match split_once(l, '#') {
        Some((left, _)) => trim(left),
        None => trim(l),
    };
    let comment = match split_once(l, '#') {
        Some((_, right)) => Some(trim(right)),
        None => None,
    };
    let date_text = first_token(before);
    let schedule = second_token(before);
    if date_text.len() == 0 || schedule.len() == 0 {
        Err(LoadError::MissingDateOrSchedule)
    } else {
        match split_once(date_text, '-') {
            Some((a, b)) => match (date_from_text(a, DATE_FORMAT@), date_from_text(b, DATE_FORMAT@)) {
                (Some(x), Some(y)) => Ok(
                    SpecialDayView { on: date_of(x), until: Some(date_of(y)), schedule, comment },
                ),
                _ => Err(LoadError::BadRange),
            },
            None => match date_from_text(date_text, DATE_FORMAT@) {
                Some(x) => Ok(SpecialDayView { on: date_of(x), until: None, schedule, comment }),
                None => Err(LoadError::BadDate),
            },
        }
    }
}

/// Where the calendar parser stands after some lines.
pub struct CalendarState {
    pub in_special: bool,
    pub cal: CalendarView,
}

/// The effect of one trimmed line.
pub open spec fn calendar_step(st: CalendarState, l: Seq<char>) -> Result<CalendarState, LoadError> {
    if l.len() == 0 {
        Ok(st)
    } else if !st.in_special {
        if l == SPECIAL_DAYS_HEADER@ {
            Ok(CalendarState { in_special: true, cal: st.cal })
        } else {
            match week_entry(l) {
                Ok((i, n)) => Ok(
                    CalendarState {
                        in_special: false,
                        cal: CalendarView {
                            default: st.cal.default.update(i, Some(n)),
                            special: st.cal.special,
                        },
                    },
                ),
                Err(e) => Err(e),
            }
        }
    } else {
        match special_entry(l) {
            Ok(sd) => Ok(
                CalendarState {
                    in_special: true,
                    cal: CalendarView { default: st.cal.default, special: st.cal.special.push(sd) },
                },
            ),
            Err(e) => Err(e),
        }
    }
}

pub open spec fn calendar_fold(ls: Seq<Seq<char>>, st: CalendarState) -> Result<
    CalendarState,
    LoadError,
>
    decreases ls.len(),
{
    if ls.len() == 0 {
        Ok(st)
    } else {
        match calendar_step(st, trim(ls[0])) {
            Ok(next) => calendar_fold(ls.drop_first(), next),
            Err(e) => Err(e),
        }
    }
}

pub open spec fn empty_calendar() -> CalendarState {
    CalendarState {
        in_special: false,
        cal: CalendarView {
            default: seq![None, None, None, None, None, None, None],
            special: seq![],
        },
    }
}

/// The calendar that a text describes, or why it is refused.
pub open spec fn calendar_of(text: Seq<char>) -> Result<CalendarView, LoadError> {
    let ls = lines(text);
    if trim(ls[0]) != DEFAULT_WEEK_HEADER@ {
        Err(LoadError::BadHeader)
    } else {
        match calendar_fold(ls.drop_first(), empty_calendar()) {
            Ok(st) => Ok(st.cal),
            Err(e) => Err(e),
        }
    }
}

/// The bounds of the first two tokens of `v[from..to]`.
fn two_tokens(v: &Vec<char>, from: usize, to: usize) -> (r: (usize, usize, usize, usize))
    requires
        from <= to <= v@.len(),
    ensures
        from <= r.0 <= r.1 <= to,
        from <= r.2 <= r.3 <= to,
        v@.subrange(r.0 as int, r.1 as int) == first_token(v@.subrange(from as int, to as int)),
        v@.subrange(r.2 as int, r.3 as int) == second_token(v@.subrange(from as int, to as int)),
{
    let (a1, e1) = first_token_range(v, from, to);
    let (a2, e2) = first_token_range(v, e1, to);
    (a1, e1, a2, e2)
}

fn week_line(v: &Vec<char>, a: usize, b: usize) -> (r: Result<(u8, String), LoadError>)
    requires
        a <= b <= v@.len(),
    ensures
        match (r, week_entry(v@.subrange(a as int, b as int))) {
            (Ok((i, n)), Ok((j, m))) => i as int == j && n@ == m,
            (Err(e), Err(f)) => e == f,
            _ => false,
        },
{
    let (d1, d2, s1, s2) = two_tokens(v, a, b);
    if s1 == s2 {
        return Err(LoadError::MissingSchedule);
    }
    let slot: u8 = if window_is(v, d1, d2, "Mon") {
        0
    } else if window_is(v, d1, d2, "Tue") {
        1
    } else if window_is(v, d1, d2, "Wed") {
        2
    } else if window_is(v, d1, d2, "Thu") {
        3
    } else if window_is(v, d1, d2, "Fri") {
        4
    } else if window_is(v, d1, d2, "Sat") {
        5
    } else if window_is(v, d1, d2, "Sun") {
        6
    } else {
        return Err(LoadError::UnknownDay);
    };
    Ok((slot, string_of(v, s1, s2)))
}

fn special_line(v: &Vec<char>, a: usize, b: usize) -> (r: Result<SpecialDay, LoadError>)
    requires
        a <= b <= v@.len(),
    ensures
        match (r, special_entry(v@.subrange(a as int, b as int))) {
            (Ok(s), Ok(t)) => s@ == t,
            (Err(e), Err(f)) => e == f,
            _ => false,
        },
{
    let ghost l = v@.subrange(a as int, b as int);
    let k = find_in(v, a, b, '#');
    let (ba, bb, comment) = if k < b {
        proof {
            assert(l.take(k - a) =~= v@.subrange(a as int, k as int));
            assert(l.skip(k - a + 1) =~= v@.subrange(k + 1, b as int));
        }
        let (x, y) = trim_range(v, a, k);
        let (c1, c2) = trim_range(v, k + 1, b);
        (x, y, Some(string_of(v, c1, c2)))
    } else {
        let (x, y) = trim_range(v, a, b);
        (x, y, None)
    };
    assert(opt_view(comment) == match split_once(l, '#') {
        Some((_, right)) => Some(trim(right)),
        None => None,
    });
    let (d1, d2, s1, s2) = two_tokens(v, ba, bb);
    if d1 == d2 || s1 == s2 {
        return Err(LoadError::MissingDateOrSchedule);
    }
    let schedule = string_of(v, s1, s2);
    let ghost dt = v@.subrange(d1 as int, d2 as int);
    let dash = find_in(v, d1, d2, '-');
    proof {
        lemma_find_char_bound(dt, '-');
    }
    if dash < d2 {
        proof {
            assert(dt.take(dash - d1) =~= v@.subrange(d1 as int, dash as int));
            assert(dt.skip(dash - d1 + 1) =~= v@.subrange(dash + 1, d2 as int));
        }
        let on_text = string_of(v, d1, dash);
        let until_text = string_of(v, dash + 1, d2);
        let on = parse_date(on_text.as_str(), DATE_FORMAT);
        let until = parse_date(until_text.as_str(), DATE_FORMAT);
        special_day_from(on, Some(until), schedule, comment)
    } else {
        let on = parse_date(string_of(v, d1, d2).as_str(), DATE_FORMAT);
        special_day_from(on, None, schedule, comment)
    }
}

/// Builds a special day from the dates read off its line. `range_end` is
/// `None` for a single date, and for a range holds what was read for its
/// last date; a date that could not be read is `None`.
pub fn special_day_from(
    on: Option<CalDate>,
    range_end: Option<Option<CalDate>>,
    schedule: String,
    comment: Option<String>,
) -> (r: Result<SpecialDay, LoadError>)
    ensures
        match (range_end, on) {
            (None, Some(d)) => r matches Ok(sd) && sd@ == (SpecialDayView {
                on: d,
                until: None,
                schedule: schedule@,
                comment: opt_view(comment),
            }),
            (None, None) => r == Err::<SpecialDay, LoadError>(LoadError::BadDate),
            (Some(Some(u)), Some(d)) => r matches Ok(sd) && sd@ == (SpecialDayView {
                on: d,
                until: Some(u),
                schedule: schedule@,
                comment: opt_view(comment),
            }),
            (Some(_), _) => r == Err::<SpecialDay, LoadError>(LoadError::BadRange),
        },
{
    match range_end {
        None => match on {
            Some(on) => Ok(SpecialDay { on, until: None, schedule, comment }),
            None => Err(LoadError::BadDate),
        },
        Some(until) => match (on, until) {
            (Some(on), Some(until)) => Ok(SpecialDay { on, until: Some(until), schedule, comment }),
            _ => Err(LoadError::BadRange),
        },
    }
}

fn set_slot(week: &mut Week, slot: u8, name: String)
    requires
        slot < 7,
    ensures
        final(week)@ == old(week)@.update(slot as int, Some(name@)),
{
    if slot == 0 {
        week.mon = Some(name);
    } else if slot == 1 {
        week.tue = Some(name);
    } else if slot == 2 {
        week.wed = Some(name);
    } else if slot == 3 {
        week.thu = Some(name);
    } else if slot == 4 {
        week.fri = Some(name);
    } else if slot == 5 {
        week.sat = Some(name);
    } else {
        week.sun = Some(name);
    }
    assert(week@ =~= old(week)@.update(slot as int, Some(name@)));
}

/// Reads a calendar text: the default-week header, one line per weekday that
/// has a schedule, then the special-days header and one line per special day.
/// Blank lines are skipped and the special days keep their order.
pub fn parse_calendar(text: &str) -> (r: Result<Calendar, LoadError>)
    ensures
        match (r, calendar_of(text@)) {
            (Ok(c), Ok(cv)) => c@ == cv,
            (Err(e), Err(f)) => e == f,
            _ => false,
        },
{
    let v = chars_of(text);
    let ranges = line_ranges(&v);
    let ghost ls = lines(v@);
    proof {
        lemma_lines_len(v@);
    }
    let (a, b) = trim_range(&v, ranges[0].0, ranges[0].1);
    if !window_is(&v, a, b, DEFAULT_WEEK_HEADER) {
        return Err(LoadError::BadHeader);
    }
    let mut cal = Calendar {
        default: Week { mon: None, tue: None, wed: None, thu: None, fri: None, sat: None, sun: None },
        special: Vec::new(),
    };
    let mut in_special = false;
    let mut i: usize = 1;
    proof {
        assert(cal@.default =~= empty_calendar().cal.default);
        assert(cal@.special =~= empty_calendar().cal.special);
        assert(ls.drop_first() =~= ls.skip(1));
    }
    while i < ranges.len()
        invariant
            1 <= i <= ranges@.len(),
            ranges@.len() == ls.len(),
            ls == lines(v@),
            v@ == text@,
            trim(ls[0]) == DEFAULT_WEEK_HEADER@,
            forall|j: int| 0 <= j < ranges@.len() ==> (#[trigger] ranges@[j]).0 <= ranges@[j].1 <= v@.len(),
            forall|j: int|
                0 <= j < ranges@.len() ==> v@.subrange(ranges@[j].0 as int, ranges@[j].1 as int)
                    == #[trigger] ls[j],
            calendar_fold(ls.drop_first(), empty_calendar()) == calendar_fold(
                ls.skip(i as int),
                CalendarState { in_special, cal: cal@ },
            ),
        decreases ranges.len() - i,
    {
        let ghost st = CalendarState { in_special, cal: cal@ };
        proof {
            assert(ls.skip(i as int).drop_first() =~= ls.skip(i + 1));
            assert(ls.skip(i as int)[0] == ls[i as int]);
            assert(v@.subrange(ranges@[i as int].0 as int, ranges@[i as int].1 as int) == ls[i as int]);
        }
        let (a, b) = trim_range(&v, ranges[i].0, ranges[i].1);
        if a == b {
        } else if !in_special {
            if window_is(&v, a, b, SPECIAL_DAYS_HEADER) {
                in_special = true;
            } else {
                match week_line(&v, a, b) {
                    Ok((slot, name)) => {
                        proof {
                            reveal_strlit("Mon");
                            reveal_strlit("Tue");
                            reveal_strlit("Wed");
                            reveal_strlit("Thu");
                            reveal_strlit("Fri");
                            reveal_strlit("Sat");
                            reveal_strlit("Sun");
                        }
                        set_slot(&mut cal.default, slot, name);
                    },
                    Err(e) => {
                        assert(calendar_step(st, v@.subrange(a as int, b as int)) == Err::<
                            CalendarState,
                            LoadError,
                        >(e));
                        assert(calendar_fold(ls.skip(i as int), st) == Err::<CalendarState, LoadError>(e));
                        return Err(e);
                    },
                }
            }
        } else {
            match special_line(&v, a, b) {
                Ok(sd) => {
                    let ghost prev = cal.special@;
                    cal.special.push(sd);
                    proof {
                        assert(cal.special@ == prev.push(sd));
                        assert(cal@.special =~= st.cal.special.push(sd@));
                    }
                },
                Err(e) => {
                    assert(calendar_step(st, v@.subrange(a as int, b as int)) == Err::<
                        CalendarState,
                        LoadError,
                    >(e));
                    assert(calendar_fold(ls.skip(i as int), st) == Err::<CalendarState, LoadError>(e));
                    return Err(e);
                },
            }
        }
        i += 1;
    }
    proof {
        assert(ls.skip(i as int) =~= seq![]);
    }
    Ok(cal)
}

} // verus!
