//! The rows of the database that the website reads and writes.

pub mod rail_lines;
pub mod stations;
pub mod user_stations;
pub mod users;
