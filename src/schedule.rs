use vstd::prelude::*;
use crate::date::{time_from_hm, TimeOfDay};
use crate::model::{
    lookup, names_unique, opt_view, LoadError, Period, PeriodView, Schedule, ScheduleStore, ScheduleView,
};
use crate::text::{
    chars_of, find_in, first_token, first_token_range, lemma_find_char_bound, lemma_lines_len,
    lemma_word_len, line_ranges, lines, split_once, string_of, trim, trim_range, word, word_end,
};

verus! {

pub open spec fn is_digit(c: char) -> bool {
    '0' <= c <= '9'
}

pub open spec fn all_digits(s: Seq<char>) -> bool {
    forall|i: int| 0 <= i < s.len() ==> is_digit(#[trigger] s[i])
}

/// The number that a string of decimal digits writes.
pub open spec fn digits_value(s: Seq<char>) -> int
    decreases s.len(),
{
    if s.len() == 0 {
        0
    } else {
        digits_value(s.drop_last()) * 10 + (s.last() as int - '0' as int)
    }
}

/// The value of `s` read as an unsigned decimal number no larger than `max`:
/// an optional `+`, then one digit or more.
pub open spec fn unsigned_number(s: Seq<char>, max: int) -> Option<int> {
    let body = if s.len() > 0 && s[0] == '+' {
        s.drop_first()
    } else {
        s
    };
    if body.len() > 0 && all_digits(body) && digits_value(body) <= max {
        Some(digits_value(body))
    } else {
        None
    }
}

/// The value of `s` read as a `u8` in decimal.
pub open spec fn small_number(s: Seq<char>) -> Option<int> {
    unsigned_number(s, 255)
}

/// The start time written `H:M`, with hours and minutes as in
/// `small_number`; seconds are zero.
pub open spec fn time_text(s: Seq<char>) -> Option<TimeOfDay> {
    match split_once(s, ':') {
        None => None,
        Some((h, m)) => match (small_number(trim(h)), small_number(trim(m))) {
            (Some(a), Some(b)) => if a < 24 && b < 60 {
                Some(TimeOfDay { hour: a as u8, minute: b as u8, second: 0, nanosecond: 0 })
            } else {
                None
            },
            _ => None,
        },
    }
}

/// A period line (trimmed, not empty): the start time, white space, the message.
pub open spec fn period_entry(l: Seq<char>) -> Result<PeriodView, LoadError> {
    let k = word(l).len() as int;
    if k == l.len() {
        Err(LoadError::BadPeriod)
    } else {
        let start = trim(l.take(k));
        let msg = trim(l.skip(k));
        if start.len() == 0 || msg.len() == 0 {
            Err(LoadError::BadPeriod)
        } else {
            match time_text(start) {
                Some(t) => Ok(PeriodView { msg, start: t }),
                None => Err(LoadError::BadTime),
            }
        }
    }
}

/// A schedule header, without its `*`: the name and the comment (an empty
/// comment counts as none).
pub open spec fn header_entry(h: Seq<char>) -> Result<(Seq<char>, Option<Seq<char>>), LoadError> {
    let h = trim(h);
    let before = match split_once(h, '#') {
        Some((left, _)) => trim(left),
        None => h,
    };
    let comment = match split_once(h, '#') {
        Some((_, right)) => if trim(right).len() == 0 {
            None
        } else {
            Some(trim(right))
        },
        None => None,
    };
    let name = first_token(before);
    if name.len() == 0 {
        Err(LoadError::EmptyScheduleName)
    } else {
        Ok((name, comment))
    }
}

/// The schedule being read.
pub struct PendingView {
    pub name: Seq<char>,
    pub comment: Option<Seq<char>>,
    pub periods: Seq<PeriodView>,
}

/// Where the schedule parser stands after some lines.
pub struct ScheduleState {
    pub current: Option<PendingView>,
    pub store: Seq<(Seq<char>, ScheduleView)>,
}

/// The store once the schedule being read is added to it.
pub open spec fn flush(st: ScheduleState) -> Result<Seq<(Seq<char>, ScheduleView)>, LoadError> {
    match st.current {
        None => Ok(st.store),
        Some(p) => if lookup(st.store, p.name) is Some {
            Err(LoadError::DuplicateSchedule)
        } else {
            Ok(st.store.push((p.name, ScheduleView { comment: p.comment, periods: p.periods })))
        },
    }
}

/// The effect of one trimmed line.
pub open spec fn schedule_step(st: ScheduleState, l: Seq<char>) -> Result<ScheduleState, LoadError> {
    if l.len() == 0 {
        Ok(st)
    } else if l[0] == '*' {
        match flush(st) {
            Err(e) => Err(e),
            Ok(store) => match header_entry(l.drop_first()) {
                Err(e) => Err(e),
                Ok((name, comment)) => Ok(
                    ScheduleState {
                        current: Some(PendingView { name, comment, periods: seq![] }),
                        store,
                    },
                ),
            },
        }
    } else {
        match st.current {
            None => Err(LoadError::PeriodBeforeHeader),
            Some(p) => match period_entry(l) {
                Err(e) => Err(e),
                Ok(pv) => Ok(
                    ScheduleState {
                        current: Some(
                            PendingView {
                                name: p.name,
                                comment: p.comment,
                                periods: p.periods.push(pv),
                            },
                        ),
                        store: st.store,
                    },
                ),
            },
        }
    }
}

pub open spec fn schedule_fold(ls: Seq<Seq<char>>, st: ScheduleState) -> Result<
    ScheduleState,
    LoadError,
>
    decreases ls.len(),
{
    if ls.len() == 0 {
        Ok(st)
    } else {
        match schedule_step(st, trim(ls[0])) {
            Ok(next) => schedule_fold(ls.drop_first(), next),
            Err(e) => Err(e),
        }
    }
}

/// The schedules that a text describes, in order, or why it is refused.
pub open spec fn schedules_of(text: Seq<char>) -> Result<Seq<(Seq<char>, ScheduleView)>, LoadError> {
    match schedule_fold(lines(text), ScheduleState { current: None, store: seq![] }) {
        Ok(st) => flush(st),
        Err(e) => Err(e),
    }
}

pub proof fn lemma_digits_prefix(s: Seq<char>, j: int)
    requires
        all_digits(s),
        0 <= j <= s.len(),
    ensures
        0 <= digits_value(s.take(j)) <= digits_value(s),
    decreases s.len(),
{
    if s.len() > 0 {
        let p = s.drop_last();
        assert(all_digits(p)) by {
            assert forall|i: int| 0 <= i < p.len() implies is_digit(#[trigger] p[i]) by {
                assert(p[i] == s[i]);
            }
        }
        assert(is_digit(s[s.len() - 1]));
        if j < s.len() {
            assert(s.take(j) =~= p.take(j));
            lemma_digits_prefix(p, j);
        } else {
            assert(s.take(j) =~= s);
        }
        lemma_digits_prefix(p, p.len() as int);
        assert(p.take(p.len() as int) =~= p);
    }
}

/// `v[from..to]` read as an unsigned decimal number no larger than `max`.
pub fn parse_unsigned(v: &Vec<char>, from: usize, to: usize, max: u64) -> (r: Option<u64>)
    requires
        from <= to <= v@.len(),
    ensures
        match r {
            Some(x) => unsigned_number(v@.subrange(from as int, to as int), max as int) == Some(
                x as int,
            ),
            None => unsigned_number(v@.subrange(from as int, to as int), max as int) is None,
        },
{
    let ghost s = v@.subrange(from as int, to as int);
    let start = if from < to && v[from] == '+' {
        from + 1
    } else {
        from
    };
    let ghost body = v@.subrange(start as int, to as int);
    assert(body =~= (if s.len() > 0 && s[0] == '+' {
        s.drop_first()
    } else {
        s
    }));
    if start == to {
        return None;
    }
    let mut acc: u128 = 0;
    let mut i = start;
    while i < to
        invariant
            from <= start <= i <= to <= v@.len(),
            body == v@.subrange(start as int, to as int),
            s == v@.subrange(from as int, to as int),
            body == (if s.len() > 0 && s[0] == '+' {
                s.drop_first()
            } else {
                s
            }),
            all_digits(body.take(i - start)),
            acc as int == digits_value(body.take(i - start)),
            acc <= max,
        decreases to - i,
    {
        let c = v[i];
        if !('0' <= c && c <= '9') {
            assert(body[i - start] == c);
            assert(!is_digit(body[i - start]));
            assert(!all_digits(body));
            return None;
        }
        let ghost p = body.take(i - start);
        let ghost q = body.take(i - start + 1);
        proof {
            assert(q.drop_last() =~= p);
            assert(q.last() == c);
            assert forall|j: int| 0 <= j < q.len() implies is_digit(#[trigger] q[j]) by {
                if j < p.len() {
                    assert(q[j] == p[j]);
                }
            }
        }
        acc = acc * 10 + (c as u32 - '0' as u32) as u128;
        assert(acc as int == digits_value(q));
        i += 1;
        if acc > max as u128 {
            proof {
                if all_digits(body) {
                    lemma_digits_prefix(body, i - start);
                }
            }
            return None;
        }
    }
    assert(body.take(i - start) =~= body);
    Some(acc as u64)
}

/// The start time written in `v[from..to]`.
fn time_range(v: &Vec<char>, from: usize, to: usize) -> (r: Option<TimeOfDay>)
    requires
        from <= to <= v@.len(),
    ensures
        r == time_text(v@.subrange(from as int, to as int)),
{
    let ghost s = v@.subrange(from as int, to as int);
    let k = find_in(v, from, to, ':');
    proof {
        lemma_find_char_bound(s, ':');
    }
    if k == to {
        return None;
    }
    proof {
        assert(s.take(k - from) =~= v@.subrange(from as int, k as int));
        assert(s.skip(k - from + 1) =~= v@.subrange(k + 1, to as int));
    }
    let (h1, h2) = trim_range(v, from, k);
    let (m1, m2) = trim_range(v, k + 1, to);
    let hour = parse_unsigned(v, h1, h2, 255);
    let minute = parse_unsigned(v, m1, m2, 255);
    match (hour, minute) {
        (Some(h), Some(m)) => time_from_hm(h as u8, m as u8),
        _ => None,
    }
}

/// A period line, trimmed and not empty, in `v[a..b]`.
fn period_line(v: &Vec<char>, a: usize, b: usize) -> (r: Result<Period, LoadError>)
    requires
        a <= b <= v@.len(),
    ensures
        match (r, period_entry(v@.subrange(a as int, b as int))) {
            (Ok(p), Ok(q)) => p@ == q,
            (Err(e), Err(f)) => e == f,
            _ => false,
        },
{
    let ghost l = v@.subrange(a as int, b as int);
    let k = word_end(v, a, b);
    proof {
        lemma_word_len(l);
    }
    if k == b {
        return Err(LoadError::BadPeriod);
    }
    proof {
        assert(l.take(k - a) =~= v@.subrange(a as int, k as int));
        assert(l.skip(k - a) =~= v@.subrange(k as int, b as int));
    }
    let (s1, s2) = trim_range(v, a, k);
    let (m1, m2) = trim_range(v, k, b);
    if s1 == s2 || m1 == m2 {
        return Err(LoadError::BadPeriod);
    }
    match time_range(v, s1, s2) {
        Some(start) => Ok(Period { msg: string_of(v, m1, m2), start }),
        None => Err(LoadError::BadTime),
    }
}

/// A schedule header without its `*`, in `v[a..b]`.
fn header_line(v: &Vec<char>, a: usize, b: usize) -> (r: Result<(String, Option<String>), LoadError>)
    requires
        a <= b <= v@.len(),
    ensures
        match (r, header_entry(v@.subrange(a as int, b as int))) {
            (Ok((n, c)), Ok((m, d))) => n@ == m && opt_view(c) == d,
            (Err(e), Err(f)) => e == f,
            _ => false,
        },
{
    let (h1, h2) = trim_range(v, a, b);
    let ghost h = v@.subrange(h1 as int, h2 as int);
    let k = find_in(v, h1, h2, '#');
    let (n1, n2, comment) = if k < h2 {
        proof {
            assert(h.take(k - h1) =~= v@.subrange(h1 as int, k as int));
            assert(h.skip(k - h1 + 1) =~= v@.subrange(k + 1, h2 as int));
        }
        let (x, y) = trim_range(v, h1, k);
        let (c1, c2) = trim_range(v, k + 1, h2);
        let comment = if c1 == c2 {
            None
        } else {
            Some(string_of(v, c1, c2))
        };
        (x, y, comment)
    } else {
        (h1, h2, None)
    };
    let (t1, t2) = first_token_range(v, n1, n2);
    if t1 == t2 {
        return Err(LoadError::EmptyScheduleName);
    }
    Ok((string_of(v, t1, t2), comment))
}

/// Adds the schedule being read to the store, unless its name is taken.
fn flush_into(store: &mut ScheduleStore, name: String, comment: Option<String>, periods: Vec<Period>) -> (r: Result<(), LoadError>)
    ensures
        match (r, flush(ScheduleState {
            current: Some(PendingView {
                name: name@,
                comment: opt_view(comment),
                periods: periods@.map_values(|p: Period| p@),
            }),
            store: old(store)@,
        })) {
            (Ok(()), Ok(s)) => final(store)@ == s,
            (Err(e), Err(f)) => e == f && final(store)@ == old(store)@,
            _ => false,
        },
{
    if store.get(name.as_str()).is_some() {
        return Err(LoadError::DuplicateSchedule);
    }
    let ghost prev = store.schedules@;
    let entry = (name, Schedule { comment, periods });
    store.schedules.push(entry);
    proof {
        assert(store.schedules@ == prev.push(entry));
        assert(store@ =~= old(store)@.push((entry.0@, entry.1@)));
    }
    Ok(())
}

/// Reads a schedule text: blocks that each begin with a `*Name [# comment]`
/// header line, followed by one `H:M message` line per period. Blank lines
/// are skipped; periods keep their order.
pub fn parse_schedules(text: &str) -> (r: Result<ScheduleStore, LoadError>)
    ensures
        match (r, schedules_of(text@)) {
            (Ok(s), Ok(t)) => s@ == t,
            (Err(e), Err(f)) => e == f,
            _ => false,
        },
        r matches Ok(s) ==> names_unique(s@),
{
    proof {
        crate::laws::lemma_parsed_names_unique(text@);
    }
    let v = chars_of(text);
    let ranges = line_ranges(&v);
    let ghost ls = lines(v@);
    let mut store = ScheduleStore { schedules: Vec::new() };
    let mut has_current = false;
    let mut name = String::new();
    let mut comment: Option<String> = None;
    let mut periods: Vec<Period> = Vec::new();
    let mut i: usize = 0;
    proof {
        assert(store@ =~= seq![]);
        assert(ls.skip(0) =~= ls);
    }
    while i < ranges.len()
        invariant
            i <= ranges@.len(),
            ranges@.len() == ls.len(),
            ls == lines(v@),
            v@ == text@,
            forall|j: int| 0 <= j < ranges@.len() ==> (#[trigger] ranges@[j]).0 <= ranges@[j].1 <= v@.len(),
            forall|j: int|
                0 <= j < ranges@.len() ==> v@.subrange(ranges@[j].0 as int, ranges@[j].1 as int)
                    == #[trigger] ls[j],
            schedule_fold(ls, ScheduleState { current: None, store: seq![] }) == schedule_fold(
                ls.skip(i as int),
                ScheduleState {
                    current: if has_current {
                        Some(PendingView {
                            name: name@,
                            comment: opt_view(comment),
                            periods: periods@.map_values(|p: Period| p@),
                        })
                    } else {
                        None
                    },
                    store: store@,
                },
            ),
        decreases ranges.len() - i,
    {
        let ghost st = ScheduleState {
            current: if has_current {
                Some(PendingView {
                    name: name@,
                    comment: opt_view(comment),
                    periods: periods@.map_values(|p: Period| p@),
                })
            } else {
                None
            },
            store: store@,
        };
        proof {
            assert(ls.skip(i as int).drop_first() =~= ls.skip(i + 1));
            assert(ls.skip(i as int)[0] == ls[i as int]);
            assert(v@.subrange(ranges@[i as int].0 as int, ranges@[i as int].1 as int) == ls[i as int]);
        }
        let (a, b) = trim_range(&v, ranges[i].0, ranges[i].1);
        if a == b {
        } else if v[a] == '*' {
            if has_current {
                let done_periods = periods;
                periods = Vec::new();
                let done_name = name;
                name = String::new();
                let done_comment = comment;
                comment = None;
                match flush_into(&mut store, done_name, done_comment, done_periods) {
                    Ok(()) => {},
                    Err(e) => {
                        assert(schedule_step(st, v@.subrange(a as int, b as int)) == Err::<
                            ScheduleState,
                            LoadError,
                        >(e));
                        assert(schedule_fold(ls.skip(i as int), st) == Err::<ScheduleState, LoadError>(e));
                        return Err(e);
                    },
                }
            }
            proof {
                assert(v@.subrange(a as int, b as int).drop_first() =~= v@.subrange(a + 1, b as int));
            }
            match header_line(&v, a + 1, b) {
                Ok((n, c)) => {
                    name = n;
                    comment = c;
                    periods = Vec::new();
                    has_current = true;
                    proof {
                        assert(periods@.map_values(|p: Period| p@) =~= seq![]);
                    }
                },
                Err(e) => {
                    assert(schedule_step(st, v@.subrange(a as int, b as int)) == Err::<
                        ScheduleState,
                        LoadError,
                    >(e));
                    assert(schedule_fold(ls.skip(i as int), st) == Err::<ScheduleState, LoadError>(e));
                    return Err(e);
                },
            }
        } else {
            if !has_current {
                assert(schedule_step(st, v@.subrange(a as int, b as int)) == Err::<
                    ScheduleState,
                    LoadError,
                >(LoadError::PeriodBeforeHeader));
                assert(schedule_fold(ls.skip(i as int), st) == Err::<ScheduleState, LoadError>(
                    LoadError::PeriodBeforeHeader,
                ));
                return Err(LoadError::PeriodBeforeHeader);
            }
            match period_line(&v, a, b) {
                Ok(p) => {
                    let ghost prev = periods@;
                    periods.push(p);
                    proof {
                        assert(periods@ == prev.push(p));
                        assert(periods@.map_values(|p: Period| p@) =~= prev.map_values(
                            |p: Period| p@,
                        ).push(p@));
                    }
                },
                Err(e) => {
                    assert(schedule_step(st, v@.subrange(a as int, b as int)) == Err::<
                        ScheduleState,
                        LoadError,
                    >(e));
                    assert(schedule_fold(ls.skip(i as int), st) == Err::<ScheduleState, LoadError>(e));
                    return Err(e);
                },
            }
        }
        i += 1;
    }
    proof {
        assert(ls.skip(i as int) =~= seq![]);
    }
    if has_current {
        match flush_into(&mut store, name, comment, periods) {
            Ok(()) => {},
            Err(e) => return Err(e),
        }
    }
    Ok(store)
}

} // verus!
