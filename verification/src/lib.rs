//! Command-line front end of a time executor: it reads the options given on
//! the command line, groups them into one configuration per command, resolves
//! the keys that apply to each command and decides how the command is run and
//! how its measurements are converted and checked.
pub mod args;
pub mod command;
pub mod keys;
pub mod laws;
pub mod laws_run;
pub mod laws_units;
pub mod measure;
pub mod number;
pub mod report;
pub mod text;
pub mod types;
