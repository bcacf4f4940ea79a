//! A gap buffer, the sequence with a movable cursor behind text editors,
//! together with a few small verified routines: arithmetic, decimal
//! reading and writing, a binary search tree, byte and image types, and
//! the shared state of a job that runs on another thread.
pub mod arith;
pub mod ascii;
pub mod cli_error;
pub mod complex;
pub mod counters;
pub mod decimal;
pub mod gap_buffer;
pub mod http;
pub mod image;
pub mod interval;
pub mod parse_int;
pub mod spawn_blocking;
pub mod statistic;
pub mod string_set;
pub mod tree;
