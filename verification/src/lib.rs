//! Verified logic behind a collection of UNIX process, signal and thread programs.
//!
//! The library holds the decisions and data structures of the programs; the
//! system calls themselves are made by the programs that use it. The
//! contracts on libc's constants and status macros are stated for Linux and
//! macOS.

#![allow(non_camel_case_types)]

pub mod sigset;
pub mod timers;
pub mod exitstatus;
pub mod masknames;
pub mod refcount;
pub mod foo_table;
pub mod foo_table_simple;
pub mod jobqueue;
pub mod messages;
pub mod process;
pub mod signals;
pub mod barrier;
