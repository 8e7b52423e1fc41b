//! The core of a log-shipping agent: rules that pick files, a watcher
//! that turns kernel watch events into file events, a tailer that turns appended
//! bytes into lines, a client buffer that gathers lines into bodies, and the
//! naming and scheduling rules of the on-disk retry spool.

pub mod record;
pub mod rules;
pub mod event;
pub mod table;
pub mod watch;
pub mod tail;
pub mod client;
pub mod spool;
pub mod raw;
pub mod config;
pub mod env;
