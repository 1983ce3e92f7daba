pub mod args;
pub mod control;
pub mod errors;
pub mod text;
pub mod watch_set;
