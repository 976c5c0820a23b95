//! Parsing, validation and plain-language description of five-field
//! schedule expressions (minute, hour, day of month, month, day of week).

pub mod text;
pub mod types;
pub mod logic;
pub mod laws;

pub use logic::{categorize, CronEntry, ParseError};
pub use types::{
    BuildableSegment, Common, DayOfMonth, DayOfMonthType, DayOfWeek, DayOfWeekType, FieldKind,
    FieldType, Hour, HourType, MinuteType, Minutes, Month, MonthType, Segment,
};
