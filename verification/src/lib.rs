//! Conversion of line-delimited election-finance filings of mixed text
//! encoding into UTF-8 records, and the buffering of those records per
//! output stream.
//!
//! * [`encoding`] turns the bytes of a line into text: unchanged when they
//!   are valid UTF-8, read as Latin-1 otherwise. It never fails.
//! * [`writer`] keeps what is written to each named stream in a buffer of
//!   fixed capacity and decides what leaves it, and when. It performs no
//!   input or output: it returns what its host has to do.
//! * [`fec`] parses the lines of a filing into records and writes them,
//!   and [`csv_helper`] reads and writes records of comma-separated values.
//! * [`cli`] settles the settings of a run from its arguments.
//! * [`text`] holds the text operations of the standard library that the
//!   other modules rely on, each with the contract it is taken to have.

pub mod cli;
pub mod csv_helper;
pub mod encoding;
pub mod errors;
pub mod fec;
pub mod text;
pub mod writer;
