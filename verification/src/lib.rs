//! Extraction, normalization, temporal classification and cross-referencing of
//! academic schedule tables scraped from HTML pages.
//!
//! The pipeline locates named table regions inside a parsed document, cleans
//! each raw cell into a structured field, tags timetable rows as today or
//! tomorrow relative to a fixed UTC+7 reference instant, keeps only upcoming
//! exam rows, and marks which timetable rows a cancellation notice mentions.

pub mod cells;
pub mod classify;
pub mod config;
pub mod crossref;
pub mod dates;
pub mod dom;
pub mod quote;
pub mod tables;
pub mod text;

pub use cells::{RawCell, TableKind};
pub use classify::{is_class_today, ClassificationTag};
pub use config::UserConfig;
pub use crossref::find_matching_courses;
pub use dates::CivilDate;
pub use quote::Quote;
pub use tables::{
    assemble_schedule, build_schedule_tables, cancellation_notice, exam_schedule,
    extract_upcoming_schedule, timetable_table, todays_class_lines, AnnotatedTable, ScheduleTables,
};
pub use text::str_contains;
