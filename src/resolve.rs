use vstd::prelude::*;
use crate::date::{next_day, weekday_of, CalDate, TimeOfDay, NANOS_PER_DAY};
use crate::model::{
    copy_opt_string, copy_strings, lookup, strings_view, AppData, CalendarView, CurrentSection,
    Period, PeriodView, ScheduleView, SectionView, SpecialDay, SpecialDayView,
};

verus! {

/// Whether a special day covers `date`: the single date itself, or every date
/// of its inclusive range.
pub open spec fn special_covers(s: SpecialDayView, date: CalDate) -> bool {
    match s.until {
        Some(u) => s.on.key() <= date.key() && date.key() <= u.key(),
        None => date == s.on,
    }
}

/// The schedule of the first special day, in source order, that covers `date`.
pub open spec fn first_special(sp: Seq<SpecialDayView>, date: CalDate) -> Option<Seq<char>>
    decreases sp.len(),
{
    if sp.len() == 0 {
        None
    } else if special_covers(sp[0], date) {
        Some(sp[0].schedule)
    } else {
        first_special(sp.drop_first(), date)
    }
}

/// The schedule that the calendar assigns to `date`: the first special day
/// that covers it, else the default of its weekday.
pub open spec fn schedule_name_on(cal: CalendarView, date: CalDate) -> Option<Seq<char>> {
    match first_special(cal.special, date) {
        Some(n) => Some(n),
        None => cal.default[date.weekday()],
    }
}

/// The length of the leading run of periods that have begun at `t`: the scan
/// stops at the first period that has not.
pub open spec fn started_count(ps: Seq<PeriodView>, t: TimeOfDay) -> int
    decreases ps.len(),
{
    if ps.len() == 0 || t.nanos() < ps[0].start.nanos() {
        0
    } else {
        1 + started_count(ps.drop_first(), t)
    }
}

/// What one day contributes to the search for the next period.
pub enum DayOutcome {
    /// Nothing to take from this day: go on with the next one.
    Skip,
    /// The day names a schedule that is not stored: the search ends empty.
    Stop,
    /// The first period of the day's schedule.
    Found(PeriodView),
}

/// Which of the two answers `current_or_next` gives.
#[derive(Clone, Copy, Debug, PartialEq, Eq, Structural)]
pub enum Label {
    Current,
    Next,
}

/// A search result moved `k` days further out.
pub open spec fn shifted(o: Option<(PeriodView, int)>, k: int) -> Option<(PeriodView, int)> {
    match o {
        Some((p, j)) => Some((p, j + k)),
        None => None,
    }
}

fn is_special_day_match(date: CalDate, special: &SpecialDay) -> (r: bool)
    ensures
        r == special_covers(special@, date),
{
    match special.until {
        Some(until) => special.on.le(&date) && date.le(&until),
        None => date == special.on,
    }
}

impl AppData {
    pub open spec fn name_on(&self, date: CalDate) -> Option<Seq<char>> {
        schedule_name_on(self.calendar@, date)
    }

    /// The stored schedule that `date` follows.
    pub open spec fn schedule_on(&self, date: CalDate) -> Option<ScheduleView> {
        match self.name_on(date) {
            Some(n) => lookup(self.schedules@, n),
            None => None,
        }
    }

    /// The section active at `t` on `date`.
    pub open spec fn section_at(&self, date: CalDate, t: TimeOfDay) -> Option<SectionView> {
        match self.schedule_on(date) {
            Some(s) => {
                let k = started_count(s.periods, t);
                if k == 0 {
                    None
                } else {
                    Some(
                        SectionView {
                            schedule_name: self.name_on(date).unwrap(),
                            schedule_comment: s.comment,
                            current_period: s.periods[k - 1],
                            next_period: if k < s.periods.len() {
                                Some(s.periods[k])
                            } else {
                                None
                            },
                            current_period_end: if k < s.periods.len() {
                                Some(s.periods[k].start)
                            } else {
                                None
                            },
                            meta_name: self.meta.name@,
                            meta_periods: strings_view(self.meta.periods@),
                        },
                    )
                }
            },
            None => None,
        }
    }

    pub open spec fn day_outcome(&self, d: CalDate, today: CalDate, now: TimeOfDay) -> DayOutcome {
        match self.name_on(d) {
            None => DayOutcome::Skip,
            Some(n) => match lookup(self.schedules@, n) {
                None => DayOutcome::Stop,
                Some(s) => if s.periods.len() == 0 {
                    DayOutcome::Skip
                } else if d == today && s.periods[0].start.nanos() <= now.nanos() {
                    DayOutcome::Skip
                } else {
                    DayOutcome::Found(s.periods[0])
                },
            },
        }
    }

    /// The first period found from date `d` on, with the number of days
    /// stepped over to reach it.
    pub open spec fn search_from(&self, d: CalDate, today: CalDate, now: TimeOfDay) -> Option<
        (PeriodView, int),
    >
        decreases d.distance_to_end(),
    {
        if !d.wf() {
            None
        } else {
            match self.day_outcome(d, today, now) {
                DayOutcome::Found(p) => Some((p, 0)),
                DayOutcome::Stop => None,
                DayOutcome::Skip => match d.successor() {
                    None => None,
                    Some(n) => shifted(self.search_from(n, today, now), 1),
                },
            }
        }
    }

    /// The next period after the moment (`today`, `now`), with the time until
    /// it begins in nanoseconds.
    pub open spec fn next_after(&self, today: CalDate, now: TimeOfDay) -> Option<(PeriodView, int)> {
        match self.search_from(today, today, now) {
            Some((p, k)) => Some((p, k * NANOS_PER_DAY + p.start.nanos() - now.nanos())),
            None => None,
        }
    }

    /// What to show at (`today`, `now`): the current period and the time left
    /// in it when it has an end, else the next period and the time until it.
    pub open spec fn status_at(&self, today: CalDate, now: TimeOfDay) -> Option<(Label, Seq<char>, int)> {
        match self.section_at(today, now) {
            Some(sec) if sec.current_period_end is Some => {
                let end = sec.current_period_end.unwrap();
                Some(
                    (
                        Label::Current,
                        sec.current_period.msg,
                        if end.nanos() > now.nanos() {
                            end.nanos() - now.nanos()
                        } else {
                            0
                        },
                    ),
                )
            },
            _ => match self.next_after(today, now) {
                Some((p, rem)) => Some((Label::Next, p.msg, rem)),
                None => None,
            },
        }
    }

    /// The name of the schedule that `date` follows.
    pub fn schedule_name_for_date(&self, date: CalDate) -> (r: Option<&str>)
        requires
            date.wf(),
        ensures
            match r {
                Some(s) => self.name_on(date) == Some(s@),
                None => self.name_on(date) is None,
            },
    {
        let ghost sp = self.calendar@.special;
        let mut i: usize = 0;
        assert(sp.skip(0) =~= sp);
        while i < self.calendar.special.len()
            invariant
                i <= self.calendar.special.len(),
                sp == self.calendar@.special,
                first_special(sp, date) == first_special(sp.skip(i as int), date),
            decreases self.calendar.special.len() - i,
        {
            proof {
                assert(sp.skip(i as int).drop_first() =~= sp.skip(i + 1));
            }
            let special = &self.calendar.special[i];
            if is_special_day_match(date, special) {
                return Some(special.schedule.as_str());
            }
            i += 1;
        }
        let week = &self.calendar.default;
        let wd = weekday_of(date);
        let slot = if wd == 0 {
            &week.mon
        } else if wd == 1 {
            &week.tue
        } else if wd == 2 {
            &week.wed
        } else if wd == 3 {
            &week.thu
        } else if wd == 4 {
            &week.fri
        } else if wd == 5 {
            &week.sat
        } else {
            &week.sun
        };
        match slot {
            Some(s) => Some(s.as_str()),
            None => None,
        }
    }

    /// The section active at `time` on `date`: the last period, in stored
    /// order, of the leading run of periods that have begun.
    pub fn current_section(&self, date: CalDate, time: TimeOfDay) -> (r: Option<CurrentSection>)
        requires
            date.wf(),
        ensures
            match r {
                Some(cs) => self.section_at(date, time) == Some(cs@),
                None => self.section_at(date, time) is None,
            },
    {
        let schedule_name = match self.schedule_name_for_date(date) {
            Some(n) => n,
            None => return None,
        };
        let schedule = match self.schedules.get(schedule_name) {
            Some(s) => s,
            None => return None,
        };
        let ghost ps = schedule@.periods;
        let n = schedule.periods.len();
        let mut i: usize = 0;
        let mut stopped = false;
        assert(ps.skip(0) =~= ps);
        while i < n && !stopped
            invariant
                n == schedule.periods.len(),
                ps == schedule@.periods,
                ps.len() == n,
                i <= n,
                started_count(ps, time) == i + started_count(ps.skip(i as int), time),
                stopped ==> started_count(ps.skip(i as int), time) == 0,
            decreases n - i + (if stopped { 0int } else { 1int }),
        {
            proof {
                assert(ps.skip(i as int).drop_first() =~= ps.skip(i + 1));
            }
            if schedule.periods[i].start.le(&time) {
                i += 1;
            } else {
                stopped = true;
            }
        }
        assert(started_count(ps.skip(i as int), time) == 0);
        assert(started_count(ps, time) == i);
        if i == 0 {
            return None;
        }
        let current_period = schedule.periods[i - 1].copy();
        let next_period = if i < n {
            Some(schedule.periods[i].copy())
        } else {
            None
        };
        let current_period_end = if i < n {
            Some(schedule.periods[i].start)
        } else {
            None
        };
        let cs = CurrentSection {
            schedule_name: schedule_name.to_owned(),
            schedule_comment: copy_opt_string(&schedule.comment),
            current_period,
            next_period,
            current_period_end,
            meta_name: self.meta.name.clone(),
            meta_periods: copy_strings(&self.meta.periods),
        };
        Some(cs)
    }

    /// The next period to begin from the moment (`today`, `now`) on: the first
    /// period of the first day, from today on, whose schedule has one that has
    /// not begun; with the time until it begins, in nanoseconds.
    pub fn next_period_from(&self, today: CalDate, now: TimeOfDay) -> (r: Option<(Period, i128)>)
        requires
            today.wf(),
        ensures
            match (r, self.next_after(today, now)) {
                (None, None) => true,
                (Some((p, rem)), Some((q, k))) => p@ == q && rem == k,
                _ => false,
            },
    {
        let mut date = today;
        let mut k: u64 = 0;
        loop
            invariant
                date.wf(),
                today.wf(),
                self.search_from(today, today, now) == shifted(
                    self.search_from(date, today, now),
                    k as int,
                ),
                k + date.distance_to_end() <= today.distance_to_end(),
            decreases date.distance_to_end(),
        {
            proof {
                crate::date::lemma_successor(date);
            }
            let found = match self.schedule_name_for_date(date) {
                None => None,
                Some(name) => match self.schedules.get(name) {
                    None => return None,
                    Some(schedule) => {
                        if schedule.periods.len() == 0 {
                            None
                        } else if date == today && schedule.periods[0].start.le(&now) {
                            None
                        } else {
                            Some(schedule.periods[0].copy())
                        }
                    },
                },
            };
            match found {
                Some(first) => {
                    let remaining = k as i128 * NANOS_PER_DAY + first.start.nanos_of_day()
                        - now.nanos_of_day();
                    return Some((first, remaining));
                },
                None => match next_day(date) {
                    Some(n) => {
                        date = n;
                        k = k + 1;
                    },
                    None => return None,
                },
            }
        }
    }

    /// What to show at (`today`, `now`): the current period and the time left
    /// in it, where the current period has an end; else the next period and
    /// the time until it begins. Times are in nanoseconds.
    pub fn current_or_next(&self, today: CalDate, now: TimeOfDay) -> (r: Option<(Label, String, i128)>)
        requires
            today.wf(),
        ensures
            match (r, self.status_at(today, now)) {
                (None, None) => true,
                (Some((l, m, rem)), Some((l2, m2, rem2))) => l == l2 && m@ == m2 && rem == rem2,
                _ => false,
            },
    {
        match self.current_section(today, now) {
            Some(section) if section.current_period_end.is_some() => {
                let end = section.current_period_end.unwrap();
                let remaining = if now.le(&end) && !end.le(&now) {
                    end.nanos_of_day() - now.nanos_of_day()
                } else {
                    0
                };
                return Some((Label::Current, section.current_period.msg, remaining));
            },
            _ => {},
        }
        match self.next_period_from(today, now) {
            Some((period, remaining)) => Some((Label::Next, period.msg, remaining)),
            None => None,
        }
    }
}

} // verus!
