//! Reading, writing and setting a laptop's backlight level.
//!
//! The level lives in a kernel control file as plain decimal text. This crate
//! holds the logic around that file: decoding and encoding its contents,
//! reading the user's requested level (absolute or as a percentage),
//! choosing what an invocation does, formatting the query report, and the
//! steps of a timed preview that restores the previous level.
pub mod command;
pub mod decimal;
pub mod input;
pub mod level;
pub mod report;
pub mod session;
