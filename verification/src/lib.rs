//! Verified core of a small Chinese character dictionary web service:
//! the HTML fragments it serves, the SQL queries it builds, the decoding of
//! dictionary rows, and the formatting of its answers.

pub mod hex;
pub mod text;
pub mod forms;
pub mod dbase;
pub mod dates;
pub mod handlers;
