use bell::calendar::special_day_from;
use bell::{
    build_app_data, parse_args, parse_calendar, parse_schedules, usage, verify_schedules, AppData,
    CalDate, Label, LoadError, Meta, OutputFormat, TimeOfDay,
};

const CALENDAR: &str = "* Default Week
Mon A
Tue B
Wed A
Thu A
Fri A

* Special Days
06/01/2024-06/30/2024 summer # summer break
06/15/2024 holiday
07/04/2024 holiday #   Independence Day  
";

const SCHEDULES: &str = "*A # regular day
08:00 Homeroom
08:30 Period1
15:00 Dismissal

*B
07:45 Zero period
09:00 First

*summer
10:00 Camp
*holiday #
";

fn date(year: i32, month: u8, day: u8) -> CalDate {
    CalDate { year, month, day }
}

fn hm(hour: u8, minute: u8) -> TimeOfDay {
    TimeOfDay { hour, minute, second: 0, nanosecond: 0 }
}

fn meta() -> Meta {
    Meta { name: "Test School".to_string(), periods: vec!["Homeroom".to_string()] }
}

fn data() -> AppData {
    build_app_data(meta(), CALENDAR, SCHEDULES).unwrap()
}

const NS: i128 = 1_000_000_000;

#[test]
fn calendar_reads_week_and_special_days() {
    let cal = parse_calendar(CALENDAR).unwrap();
    assert_eq!(cal.default.mon.as_deref(), Some("A"));
    assert_eq!(cal.default.tue.as_deref(), Some("B"));
    assert_eq!(cal.default.sat, None);
    assert_eq!(cal.default.sun, None);
    assert_eq!(cal.special.len(), 3);
    assert_eq!(cal.special[0].on, date(2024, 6, 1));
    assert_eq!(cal.special[0].until, Some(date(2024, 6, 30)));
    assert_eq!(cal.special[0].schedule, "summer");
    assert_eq!(cal.special[0].comment.as_deref(), Some("summer break"));
    assert_eq!(cal.special[1].on, date(2024, 6, 15));
    assert_eq!(cal.special[1].until, None);
    assert_eq!(cal.special[1].comment, None);
    assert_eq!(cal.special[2].comment.as_deref(), Some("Independence Day"));
}

#[test]
fn calendar_keeps_an_empty_comment() {
    let cal = parse_calendar("* Default Week\n* Special Days\n01/02/2025 A #\n").unwrap();
    assert_eq!(cal.special[0].comment.as_deref(), Some(""));
}

#[test]
fn calendar_errors() {
    assert_eq!(parse_calendar("").err(), Some(LoadError::BadHeader));
    assert_eq!(parse_calendar("\n* Default Week\n").err(), Some(LoadError::BadHeader));
    assert_eq!(parse_calendar("* Default Week\nMonday A\n").err(), Some(LoadError::UnknownDay));
    assert_eq!(parse_calendar("* Default Week\nMon\n").err(), Some(LoadError::MissingSchedule));
    assert_eq!(parse_calendar("* Default Week\nXyz\n").err(), Some(LoadError::MissingSchedule));
    assert_eq!(
        parse_calendar("* Default Week\n* Special Days\n06/01/2024\n").err(),
        Some(LoadError::MissingDateOrSchedule)
    );
    assert_eq!(
        parse_calendar("* Default Week\n* Special Days\n# only a comment A\n").err(),
        Some(LoadError::MissingDateOrSchedule)
    );
    assert_eq!(
        parse_calendar("* Default Week\n* Special Days\n02/30/2024 A\n").err(),
        Some(LoadError::BadDate)
    );
    assert_eq!(
        parse_calendar("* Default Week\n* Special Days\n2024/06/01 A\n").err(),
        Some(LoadError::BadDate)
    );
    assert_eq!(
        parse_calendar("* Default Week\n* Special Days\n06/01/2024- A\n").err(),
        Some(LoadError::BadRange)
    );
    assert_eq!(
        parse_calendar("* Default Week\n* Special Days\n06/01/2024-13/01/2024 A\n").err(),
        Some(LoadError::BadRange)
    );
}

#[test]
fn calendar_accepts_leap_day() {
    let cal = parse_calendar("* Default Week\n* Special Days\n02/29/2024 A\n").unwrap();
    assert_eq!(cal.special[0].on, date(2024, 2, 29));
}

#[test]
fn schedules_keep_file_order_and_start_times() {
    let store = parse_schedules(SCHEDULES).unwrap();
    let names: Vec<&str> = store.schedules.iter().map(|e| e.0.as_str()).collect();
    assert_eq!(names, vec!["A", "B", "summer", "holiday"]);
    let a = &store.schedules[0].1;
    assert_eq!(a.comment.as_deref(), Some("regular day"));
    let starts: Vec<TimeOfDay> = a.periods.iter().map(|p| p.start).collect();
    assert_eq!(starts, vec![hm(8, 0), hm(8, 30), hm(15, 0)]);
    let msgs: Vec<&str> = a.periods.iter().map(|p| p.msg.as_str()).collect();
    assert_eq!(msgs, vec!["Homeroom", "Period1", "Dismissal"]);
    assert_eq!(store.schedules[1].1.periods[0].msg, "Zero period");
    assert_eq!(store.schedules[1].1.comment, None);
    assert_eq!(store.schedules[3].1.comment, None);
    assert!(store.schedules[3].1.periods.is_empty());
}

#[test]
fn schedules_reject_duplicate_names() {
    let text = "*A\n08:00 One\n*B\n*A\n09:00 Two\n";
    assert_eq!(parse_schedules(text).err(), Some(LoadError::DuplicateSchedule));
}

#[test]
fn schedule_errors() {
    assert_eq!(parse_schedules("08:00 Early\n").err(), Some(LoadError::PeriodBeforeHeader));
    assert_eq!(parse_schedules("*\n").err(), Some(LoadError::EmptyScheduleName));
    assert_eq!(parse_schedules("* # comment\n").err(), Some(LoadError::EmptyScheduleName));
    assert_eq!(parse_schedules("*A\n08:00\n").err(), Some(LoadError::BadPeriod));
    assert_eq!(parse_schedules("*A\n0800 One\n").err(), Some(LoadError::BadTime));
    assert_eq!(parse_schedules("*A\n24:00 One\n").err(), Some(LoadError::BadTime));
    assert_eq!(parse_schedules("*A\n08:60 One\n").err(), Some(LoadError::BadTime));
    assert_eq!(parse_schedules("*A\n256:00 One\n").err(), Some(LoadError::BadTime));
    assert_eq!(parse_schedules("*A\n-1:00 One\n").err(), Some(LoadError::BadTime));
}

#[test]
fn schedule_time_accepts_plus_sign_and_single_digits() {
    let store = parse_schedules("*A\n+8:5 One\n").unwrap();
    assert_eq!(store.schedules[0].1.periods[0].start, hm(8, 5));
}

#[test]
fn empty_schedule_text_gives_empty_store() {
    let store = parse_schedules("\n\n").unwrap();
    assert!(store.schedules.is_empty());
}

#[test]
fn validator_rejects_unreferenced_schedule() {
    let cal = parse_calendar(CALENDAR).unwrap();
    let store = parse_schedules("*A\n08:00 One\n*orphan\n09:00 Two\n").unwrap();
    assert_eq!(verify_schedules(&store, &cal), Err(LoadError::UnreferencedSchedule));
    assert_eq!(
        build_app_data(meta(), CALENDAR, "*A\n*orphan\n").err(),
        Some(LoadError::UnreferencedSchedule)
    );
}

#[test]
fn validator_accepts_referenced_schedules() {
    let cal = parse_calendar(CALENDAR).unwrap();
    let store = parse_schedules(SCHEDULES).unwrap();
    assert_eq!(verify_schedules(&store, &cal), Ok(()));
}

#[test]
fn default_week_by_weekday() {
    let d = data();
    // 2024-05-13 is a Monday, 2024-05-14 a Tuesday, 2024-05-18 a Saturday.
    assert_eq!(d.schedule_name_for_date(date(2024, 5, 13)), Some("A"));
    assert_eq!(d.schedule_name_for_date(date(2024, 5, 14)), Some("B"));
    assert_eq!(d.schedule_name_for_date(date(2024, 5, 18)), None);
    assert_eq!(d.schedule_name_for_date(date(2024, 5, 19)), None);
}

#[test]
fn special_day_overrides_default() {
    let d = data();
    // 2024-07-04 is a Thursday, which defaults to "A".
    assert_eq!(d.schedule_name_for_date(date(2024, 7, 4)), Some("holiday"));
    // 2024-06-03 is a Monday inside the summer range.
    assert_eq!(d.schedule_name_for_date(date(2024, 6, 3)), Some("summer"));
    // Range bounds are inclusive.
    assert_eq!(d.schedule_name_for_date(date(2024, 6, 1)), Some("summer"));
    assert_eq!(d.schedule_name_for_date(date(2024, 6, 30)), Some("summer"));
    assert_eq!(d.schedule_name_for_date(date(2024, 7, 1)), Some("A"));
}

#[test]
fn first_overlapping_special_wins() {
    let d = data();
    assert_eq!(d.schedule_name_for_date(date(2024, 6, 15)), Some("summer"));
}

#[test]
fn current_section_example() {
    let d = data();
    let s = d.current_section(date(2024, 5, 13), hm(8, 45)).unwrap();
    assert_eq!(s.schedule_name, "A");
    assert_eq!(s.schedule_comment.as_deref(), Some("regular day"));
    assert_eq!(s.current_period.msg, "Period1");
    assert_eq!(s.next_period.as_ref().map(|p| p.msg.as_str()), Some("Dismissal"));
    assert_eq!(s.current_period_end, Some(hm(15, 0)));
    assert_eq!(s.meta_name, "Test School");
    assert_eq!(s.meta_periods, vec!["Homeroom".to_string()]);
}

#[test]
fn current_section_start_is_inclusive() {
    let d = data();
    let s = d.current_section(date(2024, 5, 13), hm(8, 30)).unwrap();
    assert_eq!(s.current_period.msg, "Period1");
    let just_before = TimeOfDay { hour: 8, minute: 29, second: 59, nanosecond: 999_999_999 };
    let s = d.current_section(date(2024, 5, 13), just_before).unwrap();
    assert_eq!(s.current_period.msg, "Homeroom");
}

#[test]
fn current_section_before_first_period_is_absent() {
    let d = data();
    assert!(d.current_section(date(2024, 5, 13), hm(7, 59)).is_none());
}

#[test]
fn current_section_last_period_has_no_end() {
    let d = data();
    let s = d.current_section(date(2024, 5, 13), hm(16, 0)).unwrap();
    assert_eq!(s.current_period.msg, "Dismissal");
    assert!(s.next_period.is_none());
    assert_eq!(s.current_period_end, None);
}

#[test]
fn current_section_absent_without_schedule() {
    let d = data();
    assert!(d.current_section(date(2024, 5, 18), hm(10, 0)).is_none());
}

#[test]
fn current_section_absent_for_dangling_name() {
    let cal = parse_calendar("* Default Week\nMon missing\nTue A\n").unwrap();
    let schedules = parse_schedules("*A\n08:00 One\n").unwrap();
    let d = AppData { meta: meta(), calendar: cal, schedules };
    assert!(d.current_section(date(2024, 5, 13), hm(9, 0)).is_none());
    assert!(d.next_period_from(date(2024, 5, 13), hm(9, 0)).is_none());
}

#[test]
fn forward_search_skips_started_first_period() {
    let d = data();
    // Monday 09:00: today's first period began at 08:00, so the answer is
    // Tuesday's first period, 22 h 45 min away.
    let (p, rem) = d.next_period_from(date(2024, 5, 13), hm(9, 0)).unwrap();
    assert_eq!(p.msg, "Zero period");
    assert_eq!(p.start, hm(7, 45));
    assert_eq!(rem, (22 * 3600 + 45 * 60) * NS);
}

#[test]
fn forward_search_returns_todays_first_period_before_it_starts() {
    let d = data();
    let (p, rem) = d.next_period_from(date(2024, 5, 13), hm(7, 0)).unwrap();
    assert_eq!(p.msg, "Homeroom");
    assert_eq!(rem, 3600 * NS);
}

#[test]
fn forward_search_crosses_weekend_and_month_end() {
    let d = data();
    // Friday 2024-05-31 after the start: Saturday 2024-06-01 opens the
    // summer range.
    let (p, rem) = d.next_period_from(date(2024, 5, 31), hm(12, 0)).unwrap();
    assert_eq!(p.msg, "Camp");
    assert_eq!(rem, 22 * 3600 * NS);
}

#[test]
fn forward_search_skips_days_without_schedule() {
    let d = data();
    // Friday 2024-05-24 after the start: Saturday and Sunday have no
    // schedule, Monday 2024-05-27 follows "A".
    let (p, rem) = d.next_period_from(date(2024, 5, 24), hm(12, 0)).unwrap();
    assert_eq!(p.msg, "Homeroom");
    assert_eq!(rem, (3 * 86400 - 4 * 3600) * NS);
}

#[test]
fn forward_search_ends_at_last_date() {
    let d = data();
    assert!(d.next_period_from(date(9999, 12, 31), hm(12, 0)).is_none());
}

#[test]
fn current_or_next_reports_current_with_time_left() {
    let d = data();
    let now = TimeOfDay { hour: 9, minute: 0, second: 0, nanosecond: 500 };
    let (label, msg, rem) = d.current_or_next(date(2024, 5, 13), now).unwrap();
    assert_eq!(label, Label::Current);
    assert_eq!(msg, "Period1");
    assert_eq!(rem, 6 * 3600 * NS - 500);
}

#[test]
fn current_or_next_reports_next_after_last_period() {
    let d = data();
    let (label, msg, rem) = d.current_or_next(date(2024, 5, 13), hm(15, 30)).unwrap();
    assert_eq!(label, Label::Next);
    assert_eq!(msg, "Zero period");
    assert_eq!(rem, (16 * 3600 + 15 * 60) * NS);
}

#[test]
fn parse_args_defaults_and_flags() {
    let o = parse_args(vec![]).unwrap();
    assert!(matches!(o.format, OutputFormat::Plain));
    assert!(!o.once);
    assert_eq!(o.interval_secs, 1);
    let args = vec!["--once", "--format", "[Period] [HH]:[MM]", "--interval", "30"];
    let o = parse_args(args.into_iter().map(String::from).collect()).unwrap();
    assert!(o.once);
    assert_eq!(o.interval_secs, 30);
    match o.format {
        OutputFormat::Pattern(p) => assert_eq!(p, "[Period] [HH]:[MM]"),
        OutputFormat::Plain => panic!("expected a pattern"),
    }
    let o = parse_args(vec!["--format".to_string(), "plain".to_string()]).unwrap();
    assert!(matches!(o.format, OutputFormat::Plain));
}

#[test]
fn parse_args_errors() {
    let run = |a: &[&str]| parse_args(a.iter().map(|s| s.to_string()).collect()).err();
    assert_eq!(run(&["--help"]).as_deref(), Some("Requested help."));
    assert_eq!(run(&["-h"]).as_deref(), Some("Requested help."));
    assert_eq!(run(&["--format"]).as_deref(), Some("Missing value for --format"));
    assert_eq!(run(&["--interval"]).as_deref(), Some("Missing value for --interval"));
    assert_eq!(run(&["--interval", "soon"]).as_deref(), Some("Invalid value for --interval"));
    assert_eq!(
        run(&["--interval", "18446744073709551616"]).as_deref(),
        Some("Invalid value for --interval")
    );
    assert_eq!(run(&["--bogus"]).as_deref(), Some("Unknown argument: --bogus"));
}

#[test]
fn parse_args_largest_interval() {
    let o = parse_args(vec!["--interval".to_string(), "18446744073709551615".to_string()]).unwrap();
    assert_eq!(o.interval_secs, u64::MAX);
}

#[test]
fn usage_mentions_flags() {
    assert!(usage().starts_with("Usage: bell [--once]"));
    assert!(usage().contains("--interval <secs>"));
}

#[test]
fn duration_tokens_split_and_carry() {
    let n = (3 * 3600 + 25 * 60 + 7) * NS + 999;
    assert_eq!(bell::duration_tokens(n, true, true), (3, 25, 7));
    assert_eq!(bell::duration_tokens(n, false, true), (0, 205, 7));
    assert_eq!(bell::duration_tokens(n, true, false), (3, 0, 25 * 60 + 7));
    assert_eq!(bell::duration_tokens(n, false, false), (0, 0, 3 * 3600 + 25 * 60 + 7));
    assert_eq!(bell::duration_tokens(-5 * NS, true, true), (0, 0, 0));
    assert_eq!(bell::duration_tokens(NS - 1, true, true), (0, 0, 0));
}

#[test]
fn special_day_from_read_dates() {
    let d = date(2024, 6, 1);
    let e = date(2024, 6, 30);
    let single = special_day_from(Some(d), None, "A".to_string(), None).unwrap();
    assert_eq!((single.on, single.until), (d, None));
    let range = special_day_from(Some(d), Some(Some(e)), "A".to_string(), Some("c".to_string()))
        .unwrap();
    assert_eq!((range.on, range.until), (d, Some(e)));
    assert_eq!(range.comment.as_deref(), Some("c"));
    assert_eq!(special_day_from(None, None, "A".to_string(), None).err(), Some(LoadError::BadDate));
    assert_eq!(
        special_day_from(Some(d), Some(None), "A".to_string(), None).err(),
        Some(LoadError::BadRange)
    );
    assert_eq!(
        special_day_from(None, Some(Some(e)), "A".to_string(), None).err(),
        Some(LoadError::BadRange)
    );
}
