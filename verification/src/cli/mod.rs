//! The settings of a run, as the command line gives them.

pub mod args;
