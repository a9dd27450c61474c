//! Semantic SQL values shared by database drivers and data crates, with their
//! calendar arithmetic and their PostgreSQL encoding verified.

pub mod calendar;
pub mod date_time;
pub mod value;
pub mod traits;
pub mod adapter;
pub mod postgres;
