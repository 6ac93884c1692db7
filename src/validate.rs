use vstd::prelude::*;
use crate::calendar::{calendar_of, parse_calendar};
use crate::model::{
    opt_view, AppData, Calendar, CalendarView, LoadError, Meta, ScheduleStore, ScheduleView,
};
use crate::schedule::{parse_schedules, schedules_of};
use crate::model::same_text;

verus! {

/// Whether some weekday or some special day of the calendar names `name`.
pub open spec fn referenced(cal: CalendarView, name: Seq<char>) -> bool {
    (exists|d: int| 0 <= d < 7 && #[trigger] cal.default[d] == Some(name)) || (exists|i: int|
        0 <= i < cal.special.len() && #[trigger] cal.special[i].schedule == name)
}

/// Whether the calendar names every stored schedule.
pub open spec fn all_referenced(store: Seq<(Seq<char>, ScheduleView)>, cal: CalendarView) -> bool {
    forall|i: int| 0 <= i < store.len() ==> referenced(cal, #[trigger] store[i].0)
}

fn slot_is(o: &Option<String>, name: &str) -> (r: bool)
    ensures
        r == (opt_view(*o) == Some(name@)),
{
    match o {
        Some(s) => same_text(s.as_str(), name),
        None => false,
    }
}

fn is_referenced(cal: &Calendar, name: &str) -> (r: bool)
    ensures
        r == referenced(cal@, name@),
{
    let w = &cal.default;
    if slot_is(&w.mon, name) {
        assert(cal@.default[0] == Some(name@));
        return true;
    }
    if slot_is(&w.tue, name) {
        assert(cal@.default[1] == Some(name@));
        return true;
    }
    if slot_is(&w.wed, name) {
        assert(cal@.default[2] == Some(name@));
        return true;
    }
    if slot_is(&w.thu, name) {
        assert(cal@.default[3] == Some(name@));
        return true;
    }
    if slot_is(&w.fri, name) {
        assert(cal@.default[4] == Some(name@));
        return true;
    }
    if slot_is(&w.sat, name) {
        assert(cal@.default[5] == Some(name@));
        return true;
    }
    if slot_is(&w.sun, name) {
        assert(cal@.default[6] == Some(name@));
        return true;
    }
    assert(forall|d: int| 0 <= d < 7 ==> #[trigger] cal@.default[d] != Some(name@));
    let mut i: usize = 0;
    while i < cal.special.len()
        invariant
            i <= cal.special@.len(),
            forall|j: int| 0 <= j < i ==> #[trigger] cal@.special[j].schedule != name@,
        decreases cal.special.len() - i,
    {
        if same_text(cal.special[i].schedule.as_str(), name) {
            assert(cal@.special[i as int].schedule == name@);
            return true;
        }
        i += 1;
    }
    false
}

/// Checks that the calendar names every schedule of the store.
pub fn verify_schedules(schedules: &ScheduleStore, calendar: &Calendar) -> (r: Result<(), LoadError>)
    ensures
        r is Ok <==> all_referenced(schedules@, calendar@),
        r is Err ==> r == Err::<(), LoadError>(LoadError::UnreferencedSchedule),
{
    let mut i: usize = 0;
    while i < schedules.schedules.len()
        invariant
            i <= schedules.schedules@.len(),
            forall|j: int| 0 <= j < i ==> referenced(calendar@, #[trigger] schedules@[j].0),
        decreases schedules.schedules.len() - i,
    {
        if !is_referenced(calendar, schedules.schedules[i].0.as_str()) {
            assert(!referenced(calendar@, schedules@[i as int].0));
            return Err(LoadError::UnreferencedSchedule);
        }
        i += 1;
    }
    Ok(())
}

/// The model that the two texts describe, with `meta`, or the first reason
/// to refuse them: the calendar is read first, then the schedules, then each
/// schedule must be named by the calendar.
pub open spec fn app_data_of(cal_text: Seq<char>, sched_text: Seq<char>) -> Result<
    (CalendarView, Seq<(Seq<char>, ScheduleView)>),
    LoadError,
> {
    match calendar_of(cal_text) {
        Err(e) => Err(e),
        Ok(c) => match schedules_of(sched_text) {
            Err(e) => Err(e),
            Ok(s) => if all_referenced(s, c) {
                Ok((c, s))
            } else {
                Err(LoadError::UnreferencedSchedule)
            },
        },
    }
}

/// Reads the calendar and schedule texts and checks them against each other.
pub fn build_app_data(meta: Meta, calendar_text: &str, schedules_text: &str) -> (r: Result<
    AppData,
    LoadError,
>)
    ensures
        match (r, app_data_of(calendar_text@, schedules_text@)) {
            (Ok(d), Ok((c, s))) => d.calendar@ == c && d.schedules@ == s && d.meta == meta,
            (Err(e), Err(f)) => e == f,
            _ => false,
        },
{
    let calendar = match parse_calendar(calendar_text) {
        Ok(c) => c,
        Err(e) => return Err(e),
    };
    let schedules = match parse_schedules(schedules_text) {
        Ok(s) => s,
        Err(e) => return Err(e),
    };
    match verify_schedules(&schedules, &calendar) {
        Ok(()) => Ok(AppData { meta, calendar, schedules }),
        Err(e) => Err(e),
    }
}

} // verus!
