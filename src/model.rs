use vstd::prelude::*;
use crate::date::{CalDate, TimeOfDay};

verus! {

/// Why a calendar or schedule text, or the pair of them, was refused.
#[derive(Clone, Copy, Debug, PartialEq, Eq, Structural)]
pub enum LoadError {
    /// The calendar does not begin with the default-week header.
    BadHeader,
    /// A default-week line names no known weekday.
    UnknownDay,
    /// A default-week line names no schedule.
    MissingSchedule,
    /// A special-day line lacks its date or its schedule.
    MissingDateOrSchedule,
    /// The date of a special day cannot be read.
    BadDate,
    /// One of the two dates of a special-day range cannot be read.
    BadRange,
    /// A schedule header names no schedule.
    EmptyScheduleName,
    /// Two schedules have the same name.
    DuplicateSchedule,
    /// A period line comes before any schedule header.
    PeriodBeforeHeader,
    /// A period line lacks its start time or its message.
    BadPeriod,
    /// The start time of a period cannot be read.
    BadTime,
    /// A schedule is named by no entry of the calendar.
    UnreferencedSchedule,
}

/// Descriptive labels carried through to the output layer.
pub struct Meta {
    pub name: String,
    pub periods: Vec<String>,
}

/// The schedule that each weekday follows when no special day applies.
pub struct Week {
    pub mon: Option<String>,
    pub tue: Option<String>,
    pub wed: Option<String>,
    pub thu: Option<String>,
    pub fri: Option<String>,
    pub sat: Option<String>,
    pub sun: Option<String>,
}

/// A single date (`until` absent) or an inclusive range of dates that follows
/// a given schedule.
pub struct SpecialDay {
    pub on: CalDate,
    pub until: Option<CalDate>,
    pub schedule: String,
    pub comment: Option<String>,
}

/// The default week and the special days, in the order of the source text.
pub struct Calendar {
    pub default: Week,
    pub special: Vec<SpecialDay>,
}

/// A period that begins at `start` and lasts until the next one begins.
pub struct Period {
    pub msg: String,
    pub start: TimeOfDay,
}

/// An ordered list of periods.
pub struct Schedule {
    pub comment: Option<String>,
    pub periods: Vec<Period>,
}

/// Schedules by name, in the order in which they were defined. The parser
/// gives each name once (`names_unique`); lookups take the first entry of a
/// name.
pub struct ScheduleStore {
    pub schedules: Vec<(String, Schedule)>,
}

/// Everything that the resolution queries read.
pub struct AppData {
    pub meta: Meta,
    pub calendar: Calendar,
    pub schedules: ScheduleStore,
}

/// The active schedule and period at a moment.
pub struct CurrentSection {
    pub schedule_name: String,
    pub schedule_comment: Option<String>,
    pub current_period: Period,
    pub next_period: Option<Period>,
    pub current_period_end: Option<TimeOfDay>,
    pub meta_name: String,
    pub meta_periods: Vec<String>,
}

pub open spec fn opt_view(o: Option<String>) -> Option<Seq<char>> {
    match o {
        Some(s) => Some(s@),
        None => None,
    }
}

pub open spec fn strings_view(v: Seq<String>) -> Seq<Seq<char>> {
    v.map_values(|s: String| s@)
}

pub struct PeriodView {
    pub msg: Seq<char>,
    pub start: TimeOfDay,
}

pub struct SpecialDayView {
    pub on: CalDate,
    pub until: Option<CalDate>,
    pub schedule: Seq<char>,
    pub comment: Option<Seq<char>>,
}

pub struct CalendarView {
    /// The schedule of each weekday, Monday first.
    pub default: Seq<Option<Seq<char>>>,
    pub special: Seq<SpecialDayView>,
}

pub struct ScheduleView {
    pub comment: Option<Seq<char>>,
    pub periods: Seq<PeriodView>,
}

pub struct SectionView {
    pub schedule_name: Seq<char>,
    pub schedule_comment: Option<Seq<char>>,
    pub current_period: PeriodView,
    pub next_period: Option<PeriodView>,
    pub current_period_end: Option<TimeOfDay>,
    pub meta_name: Seq<char>,
    pub meta_periods: Seq<Seq<char>>,
}

impl View for Period {
    type V = PeriodView;

    open spec fn view(&self) -> PeriodView {
        PeriodView { msg: self.msg@, start: self.start }
    }
}

impl View for Week {
    type V = Seq<Option<Seq<char>>>;

    open spec fn view(&self) -> Seq<Option<Seq<char>>> {
        seq![
            opt_view(self.mon),
            opt_view(self.tue),
            opt_view(self.wed),
            opt_view(self.thu),
            opt_view(self.fri),
            opt_view(self.sat),
            opt_view(self.sun),
        ]
    }
}

impl View for SpecialDay {
    type V = SpecialDayView;

    open spec fn view(&self) -> SpecialDayView {
        SpecialDayView {
            on: self.on,
            until: self.until,
            schedule: self.schedule@,
            comment: opt_view(self.comment),
        }
    }
}

impl View for Calendar {
    type V = CalendarView;

    open spec fn view(&self) -> CalendarView {
        CalendarView {
            default: self.default@,
            special: self.special@.map_values(|s: SpecialDay| s@),
        }
    }
}

impl View for Schedule {
    type V = ScheduleView;

    open spec fn view(&self) -> ScheduleView {
        ScheduleView {
            comment: opt_view(self.comment),
            periods: self.periods@.map_values(|p: Period| p@),
        }
    }
}

impl View for ScheduleStore {
    type V = Seq<(Seq<char>, ScheduleView)>;

    open spec fn view(&self) -> Seq<(Seq<char>, ScheduleView)> {
        self.schedules@.map_values(|e: (String, Schedule)| (e.0@, e.1@))
    }
}

impl View for CurrentSection {
    type V = SectionView;

    open spec fn view(&self) -> SectionView {
        SectionView {
            schedule_name: self.schedule_name@,
            schedule_comment: opt_view(self.schedule_comment),
            current_period: self.current_period@,
            next_period: match self.next_period {
                Some(p) => Some(p@),
                None => None,
            },
            current_period_end: self.current_period_end,
            meta_name: self.meta_name@,
            meta_periods: strings_view(self.meta_periods@),
        }
    }
}

/// The names in a store are pairwise distinct.
pub open spec fn names_unique(s: Seq<(Seq<char>, ScheduleView)>) -> bool {
    forall|i: int, j: int| 0 <= i < j < s.len() ==> s[i].0 != s[j].0
}

/// The schedule stored under `name`, if any.
pub open spec fn lookup(s: Seq<(Seq<char>, ScheduleView)>, name: Seq<char>) -> Option<ScheduleView>
    decreases s.len(),
{
    if s.len() == 0 {
        None
    } else if s[0].0 == name {
        Some(s[0].1)
    } else {
        lookup(s.drop_first(), name)
    }
}

/// Whether the two texts are equal.
pub fn same_text(a: &str, b: &str) -> (r: bool)
    ensures
        r == (a@ == b@),
{
    let n = a.unicode_len();
    if n != b.unicode_len() {
        return false;
    }
    let mut i: usize = 0;
    while i < n
        invariant
            n == a@.len(),
            n == b@.len(),
            i <= n,
            forall|j: int| 0 <= j < i ==> a@[j] == b@[j],
        decreases n - i,
    {
        if a.get_char(i) != b.get_char(i) {
            return false;
        }
        i += 1;
    }
    assert(a@ =~= b@);
    true
}

pub fn copy_opt_string(o: &Option<String>) -> (r: Option<String>)
    ensures
        opt_view(r) == opt_view(*o),
{
    match o {
        Some(s) => Some(s.clone()),
        None => None,
    }
}

pub fn copy_strings(v: &Vec<String>) -> (r: Vec<String>)
    ensures
        strings_view(r@) == strings_view(v@),
{
    let mut r: Vec<String> = Vec::new();
    let mut i: usize = 0;
    while i < v.len()
        invariant
            i <= v.len(),
            r@.len() == i,
            strings_view(r@) == strings_view(v@.take(i as int)),
        decreases v.len() - i,
    {
        let s = v[i].clone();
        assert(s == v@[i as int]);
        let ghost prev = r@;
        r.push(s);
        proof {
            assert(v@.take(i + 1) =~= v@.take(i as int).push(v@[i as int]));
            assert(r@ =~= prev.push(s));
            assert forall|j: int| 0 <= j < i + 1 implies #[trigger] strings_view(r@)[j] == strings_view(
                v@.take(i + 1),
            )[j] by {
                if j < i {
                    assert(strings_view(prev)[j] == strings_view(v@.take(i as int))[j]);
                }
            }
            assert(strings_view(r@) =~= strings_view(v@.take(i + 1)));
        }
        i += 1;
    }
    proof {
        assert(v@.take(i as int) == v@);
    }
    r
}

impl Period {
    /// A copy of the period.
    pub fn copy(&self) -> (r: Period)
        ensures
            r@ == self@,
    {
        Period { msg: self.msg.clone(), start: self.start }
    }
}

impl ScheduleStore {
    /// The schedule stored under `name`.
    pub fn get(&self, name: &str) -> (r: Option<&Schedule>)
        ensures
            match r {
                Some(s) => lookup(self@, name@) == Some(s@),
                None => lookup(self@, name@) is None,
            },
    {
        let mut i: usize = 0;
        assert(self@.skip(0) =~= self@);
        while i < self.schedules.len()
            invariant
                i <= self.schedules.len(),
                lookup(self@, name@) == lookup(self@.skip(i as int), name@),
            decreases self.schedules.len() - i,
        {
            proof {
                assert(self@.skip(i as int).drop_first() =~= self@.skip(i + 1));
            }
            if same_text(self.schedules[i].0.as_str(), name) {
                return Some(&self.schedules[i].1);
            }
            i += 1;
        }
        None
    }
}

} // verus!
