use vstd::prelude::*;
use crate::date::{CalDate, TimeOfDay};
use crate::model::{lookup, names_unique, AppData, CalendarView, PeriodView, ScheduleView};
use crate::resolve::{first_special, schedule_name_on, shifted, special_covers, started_count};
use crate::schedule::{
    all_digits, digits_value, flush, period_entry, schedule_fold, schedule_step, schedules_of,
    small_number, time_text, PendingView, ScheduleState,
};
use crate::text::{find_char, is_ws, lines, split_once, trim, trim_end, trim_start, word};

verus! {

proof fn lemma_first_special_at(sp: Seq<crate::model::SpecialDayView>, date: CalDate, i: int)
    requires
        0 <= i < sp.len(),
        special_covers(sp[i], date),
        forall|j: int| 0 <= j < i ==> !special_covers(#[trigger] sp[j], date),
    ensures
        first_special(sp, date) == Some(sp[i].schedule),
    decreases i,
{
    if i > 0 {
        assert(!special_covers(sp[0], date));
        let rest = sp.drop_first();
        assert forall|j: int| 0 <= j < i - 1 implies !special_covers(#[trigger] rest[j], date) by {
            assert(rest[j] == sp[j + 1]);
        }
        lemma_first_special_at(rest, date, i - 1);
    }
}

/// Among special days that cover a date, the first in source order decides
/// its schedule, whatever the default week says.
pub proof fn lemma_first_covering_special_wins(cal: CalendarView, date: CalDate, i: int)
    requires
        0 <= i < cal.special.len(),
        special_covers(cal.special[i], date),
        forall|j: int| 0 <= j < i ==> !special_covers(#[trigger] cal.special[j], date),
    ensures
        schedule_name_on(cal, date) == Some(cal.special[i].schedule),
{
    lemma_first_special_at(cal.special, date, i);
}

/// A date that exactly one special day covers follows that day's schedule,
/// whatever the default week says.
pub proof fn lemma_special_overrides_default(cal: CalendarView, date: CalDate, i: int)
    requires
        0 <= i < cal.special.len(),
        special_covers(cal.special[i], date),
        forall|j: int| 0 <= j < cal.special.len() && j != i ==> !special_covers(#[trigger] cal.special[j], date),
    ensures
        schedule_name_on(cal, date) == Some(cal.special[i].schedule),
{
    lemma_first_special_at(cal.special, date, i);
}

/// Start times that strictly increase.
pub open spec fn ascending(ps: Seq<PeriodView>) -> bool {
    forall|i: int, j: int| 0 <= i < j < ps.len() ==> ps[i].start.nanos() < ps[j].start.nanos()
}

proof fn lemma_started_count_at(ps: Seq<PeriodView>, t: TimeOfDay, k: int)
    requires
        0 <= k < ps.len(),
        forall|j: int| 0 <= j <= k ==> (#[trigger] ps[j]).start.nanos() <= t.nanos(),
        k + 1 == ps.len() || t.nanos() < ps[k + 1].start.nanos(),
    ensures
        started_count(ps, t) == k + 1,
    decreases k,
{
    let rest = ps.drop_first();
    assert(ps[0].start.nanos() <= t.nanos());
    if k == 0 {
        if rest.len() > 0 {
            assert(rest[0] == ps[1]);
        }
        assert(started_count(rest, t) == 0);
    } else {
        assert forall|j: int| 0 <= j <= k - 1 implies (#[trigger] rest[j]).start.nanos() <= t.nanos() by {
            assert(rest[j] == ps[j + 1]);
        }
        if k < rest.len() {
            assert(rest[k] == ps[k + 1]);
        }
        lemma_started_count_at(rest, t, k - 1);
    }
}

/// At the very start of a period (of a schedule whose periods begin in
/// strictly increasing order), that period is the current one.
pub proof fn lemma_start_is_inclusive(data: AppData, date: CalDate, t: TimeOfDay, k: int)
    requires
        data.schedule_on(date) matches Some(s) && ascending(s.periods) && 0 <= k < s.periods.len()
            && t.nanos() == s.periods[k].start.nanos(),
    ensures
        data.section_at(date, t) matches Some(sec) && sec.current_period == data.schedule_on(
            date,
        ).unwrap().periods[k],
{
    let ps = data.schedule_on(date).unwrap().periods;
    assert forall|j: int| 0 <= j <= k implies (#[trigger] ps[j]).start.nanos() <= t.nanos() by {
        if j < k {
            assert(ps[j].start.nanos() < ps[k].start.nanos());
        }
    }
    if k + 1 < ps.len() {
        assert(ps[k].start.nanos() < ps[k + 1].start.nanos());
    }
    lemma_started_count_at(ps, t, k);
}

/// Before the first period of the day's schedule begins, no section is active.
pub proof fn lemma_before_first_period(data: AppData, date: CalDate, t: TimeOfDay)
    requires
        data.schedule_on(date) matches Some(s) && s.periods.len() > 0 && t.nanos()
            < s.periods[0].start.nanos(),
    ensures
        data.section_at(date, t) is None,
{
}

/// Once the first period of today's schedule has begun, the search for the
/// next period goes on with tomorrow; where tomorrow's schedule has periods,
/// its first period is the answer, one day ahead.
pub proof fn lemma_search_skips_started_today(data: AppData, today: CalDate, now: TimeOfDay)
    requires
        today.wf(),
        data.schedule_on(today) matches Some(s) && s.periods.len() > 0 && s.periods[0].start.nanos()
            <= now.nanos(),
        today.successor() is Some,
    ensures
        data.search_from(today, today, now) == shifted(
            data.search_from(today.successor().unwrap(), today, now),
            1,
        ),
        ({
            let s2 = data.schedule_on(today.successor().unwrap());
            s2 is Some && s2.unwrap().periods.len() > 0 ==> data.search_from(today, today, now)
                == Some((s2.unwrap().periods[0], 1int))
        }),
{
    let n = today.successor().unwrap();
    crate::date::lemma_successor(today);
    assert(n != today);
    let s2 = data.schedule_on(n);
    if s2 is Some && s2.unwrap().periods.len() > 0 {
        assert(data.search_from(n, today, now) == Some((s2.unwrap().periods[0], 0int)));
    }
}

proof fn lemma_lookup_none(s: Seq<(Seq<char>, ScheduleView)>, name: Seq<char>)
    requires
        lookup(s, name) is None,
    ensures
        forall|i: int| 0 <= i < s.len() ==> (#[trigger] s[i]).0 != name,
    decreases s.len(),
{
    if s.len() > 0 {
        lemma_lookup_none(s.drop_first(), name);
        assert forall|i: int| 0 <= i < s.len() implies (#[trigger] s[i]).0 != name by {
            if i > 0 {
                assert(s[i] == s.drop_first()[i - 1]);
            }
        }
    }
}

proof fn lemma_flush_unique(st: ScheduleState)
    requires
        names_unique(st.store),
    ensures
        flush(st) matches Ok(s) ==> names_unique(s),
{
    if let Some(p) = st.current {
        if lookup(st.store, p.name) is None {
            lemma_lookup_none(st.store, p.name);
            let s = st.store.push((p.name, ScheduleView { comment: p.comment, periods: p.periods }));
            assert forall|i: int, j: int| 0 <= i < j < s.len() implies s[i].0 != s[j].0 by {
                if j == st.store.len() {
                    assert(st.store[i] == s[i]);
                } else {
                    assert(st.store[i] == s[i] && st.store[j] == s[j]);
                }
            }
        }
    }
}

proof fn lemma_fold_unique(ls: Seq<Seq<char>>, st: ScheduleState)
    requires
        names_unique(st.store),
    ensures
        schedule_fold(ls, st) matches Ok(r) ==> names_unique(r.store),
    decreases ls.len(),
{
    if ls.len() > 0 {
        lemma_flush_unique(st);
        if let Ok(next) = schedule_step(st, trim(ls[0])) {
            lemma_fold_unique(ls.drop_first(), next);
        }
    }
}

/// A schedule text that defines a name twice is refused: whatever a text
/// yields holds each name once.
pub proof fn lemma_parsed_names_unique(text: Seq<char>)
    ensures
        schedules_of(text) matches Ok(s) ==> names_unique(s),
{
    let init = ScheduleState { current: None, store: seq![] };
    lemma_fold_unique(lines(text), init);
    if let Ok(st) = schedule_fold(lines(text), init) {
        lemma_flush_unique(st);
    }
}

/// The decimal digit of `n`, for `0 <= n < 10`.
pub open spec fn digit_char(n: int) -> char {
    if n == 0 {
        '0'
    } else if n == 1 {
        '1'
    } else if n == 2 {
        '2'
    } else if n == 3 {
        '3'
    } else if n == 4 {
        '4'
    } else if n == 5 {
        '5'
    } else if n == 6 {
        '6'
    } else if n == 7 {
        '7'
    } else if n == 8 {
        '8'
    } else {
        '9'
    }
}

/// A start time written `HH:MM`.
pub open spec fn start_text(t: TimeOfDay) -> Seq<char> {
    seq![
        digit_char(t.hour as int / 10),
        digit_char(t.hour as int % 10),
        ':',
        digit_char(t.minute as int / 10),
        digit_char(t.minute as int % 10),
    ]
}

/// A period written as a line of the schedule text.
pub open spec fn period_text(p: PeriodView) -> Seq<char> {
    start_text(p.start) + seq![' '] + p.msg
}

/// A period that its line writes exactly: a start on the minute and a
/// message that neither is empty nor begins or ends with white space.
pub open spec fn writable(p: PeriodView) -> bool {
    &&& p.start.wf()
    &&& p.start.second == 0
    &&& p.start.nanosecond == 0
    &&& p.msg.len() > 0
    &&& !is_ws(p.msg[0])
    &&& !is_ws(p.msg.last())
}

proof fn lemma_two_digits(n: int)
    requires
        0 <= n < 100,
    ensures
        small_number(seq![digit_char(n / 10), digit_char(n % 10)]) == Some(n),
{
    let s = seq![digit_char(n / 10), digit_char(n % 10)];
    assert(s[0] != '+');
    assert(all_digits(s));
    assert(s.drop_last().drop_last() =~= seq![]);
    assert(s.drop_last() =~= seq![digit_char(n / 10)]);
    assert(digit_char(n / 10) as int - '0' as int == n / 10);
    assert(digit_char(n % 10) as int - '0' as int == n % 10);
    let one = seq![digit_char(n / 10)];
    assert(one.drop_last() =~= seq![]);
    assert(digits_value(seq![]) == 0);
    assert(one.last() == digit_char(n / 10));
    assert(digits_value(one) == n / 10);
    assert(digits_value(s.drop_last()) == n / 10);
    assert(digits_value(s) == n);
}

proof fn lemma_digits_trimmed(s: Seq<char>)
    requires
        s.len() == 2,
        all_digits(s),
    ensures
        trim(s) == s,
{
    assert(!is_ws(s[0]));
    assert(!is_ws(s.last()));
}

/// A period's line reads back as the same period.
pub proof fn lemma_period_round_trip(p: PeriodView)
    requires
        writable(p),
    ensures
        period_entry(period_text(p)) == Ok::<PeriodView, crate::model::LoadError>(p),
{
    let t = p.start;
    let st = start_text(t);
    let l = period_text(p);
    assert(l.len() == 6 + p.msg.len());
    // The start time is the first word of the line.
    assert(word(l.skip(5)) =~= seq![]);
    assert(l.skip(4).drop_first() =~= l.skip(5));
    assert(l.skip(3).drop_first() =~= l.skip(4));
    assert(l.skip(2).drop_first() =~= l.skip(3));
    assert(l.skip(1).drop_first() =~= l.skip(2));
    assert(l.drop_first() =~= l.skip(1));
    assert(word(l.skip(4)) =~= seq![l[4]]);
    assert(word(l.skip(3)) =~= seq![l[3], l[4]]);
    assert(word(l.skip(2)) =~= seq![l[2], l[3], l[4]]);
    assert(word(l.skip(1)) =~= seq![l[1], l[2], l[3], l[4]]);
    assert(word(l) =~= st);
    assert(l.take(5) =~= st);
    // The start time reads back.
    assert(!is_ws(st[0]) && !is_ws(st.last()));
    assert(trim(st) == st);
    assert(find_char(st.skip(2), ':') == 0);
    assert(st.skip(1).drop_first() =~= st.skip(2));
    assert(st.drop_first() =~= st.skip(1));
    assert(st[0] != ':' && st[1] != ':');
    assert(st.skip(1)[0] == st[1]);
    assert(find_char(st.skip(1), ':') == 1);
    assert(find_char(st, ':') == 2);
    assert(st.take(2) =~= seq![digit_char(t.hour as int / 10), digit_char(t.hour as int % 10)]);
    assert(st.skip(3) =~= seq![digit_char(t.minute as int / 10), digit_char(t.minute as int % 10)]);
    lemma_two_digits(t.hour as int);
    lemma_two_digits(t.minute as int);
    lemma_digits_trimmed(st.take(2));
    lemma_digits_trimmed(st.skip(3));
    assert(split_once(st, ':') == Some((st.take(2), st.skip(3))));
    assert(time_text(st) == Some(t));
    // The message is what follows the white space.
    let m = l.skip(5);
    assert(m =~= seq![' '] + p.msg);
    assert(m.drop_first() =~= p.msg);
    assert(trim_start(p.msg) == p.msg);
    assert(trim_start(m) == p.msg);
    assert(trim_end(p.msg) == p.msg);
}

/// Lines that write periods, read after a schedule header, add those periods
/// to the schedule in the same order and with the same start times.
pub proof fn lemma_period_lines_round_trip(ls: Seq<Seq<char>>, ps: Seq<PeriodView>, st: ScheduleState)
    requires
        st.current is Some,
        ls.len() == ps.len(),
        forall|i: int| 0 <= i < ps.len() ==> writable(#[trigger] ps[i]),
        forall|i: int| 0 <= i < ls.len() ==> #[trigger] ls[i] == period_text(ps[i]),
    ensures
        schedule_fold(ls, st) == Ok::<ScheduleState, crate::model::LoadError>(
            ScheduleState {
                current: Some(
                    PendingView {
                        name: st.current.unwrap().name,
                        comment: st.current.unwrap().comment,
                        periods: st.current.unwrap().periods + ps,
                    },
                ),
                store: st.store,
            },
        ),
    decreases ls.len(),
{
    let c = st.current.unwrap();
    if ls.len() == 0 {
        assert(c.periods + ps =~= c.periods);
    } else {
        let p = ps[0];
        let l = ls[0];
        assert(writable(p));
        lemma_period_round_trip(p);
        assert(l == period_text(p));
        assert(l.len() > 0);
        assert(!is_ws(l[0]));
        assert(l.last() == p.msg.last());
        assert(!is_ws(l.last()));
        assert(trim(l) == l);
        assert(l[0] != '*');
        let next = ScheduleState {
            current: Some(PendingView { name: c.name, comment: c.comment, periods: c.periods.push(p) }),
            store: st.store,
        };
        assert(schedule_step(st, l) == Ok::<ScheduleState, crate::model::LoadError>(next));
        let rl = ls.drop_first();
        let rp = ps.drop_first();
        assert forall|i: int| 0 <= i < rp.len() implies writable(#[trigger] rp[i]) by {
            assert(rp[i] == ps[i + 1]);
        }
        assert forall|i: int| 0 <= i < rl.len() implies #[trigger] rl[i] == period_text(rp[i]) by {
            assert(rl[i] == ls[i + 1]);
            assert(rp[i] == ps[i + 1]);
        }
        lemma_period_lines_round_trip(rl, rp, next);
        assert(c.periods.push(p) + rp =~= c.periods + ps);
    }
}

} // verus!
