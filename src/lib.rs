//! Bell schedules: parsing of the calendar and schedule text formats, the
//! check that every schedule is reachable from the calendar, and resolution
//! of the period that is active (or next) at a given date and time.
pub mod calendar;
pub mod cli;
pub mod countdown;
pub mod date;
pub mod laws;
pub mod model;
pub mod resolve;
pub mod schedule;
pub mod text;
pub mod validate;

pub use calendar::parse_calendar;
pub use cli::{parse_args, usage, Options, OutputFormat};
pub use countdown::duration_tokens;
pub use date::{CalDate, TimeOfDay};
pub use model::{
    AppData, Calendar, CurrentSection, LoadError, Meta, Period, Schedule, ScheduleStore,
    SpecialDay, Week,
};
pub use resolve::Label;
pub use schedule::parse_schedules;
pub use validate::{build_app_data, verify_schedules};
