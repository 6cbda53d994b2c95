//! A minimal interactive shell, as a verified library.
//!
//! The library holds everything the shell decides or computes: splitting a
//! command line into tokens, the registry of builtin commands (`exit`,
//! `echo`, `type`, `pwd`), parsing the argument of `exit`, resolving an
//! external command against the directories of a `PATH` string, and the
//! exact text each command writes. A thin unverified front end owns the
//! read-eval-print loop, reads the environment and the filesystem, spawns
//! external programs, and hands this library plain values.

pub mod dispatch;
pub mod numparse;
pub mod output;
pub mod registry;
pub mod resolve;
pub mod text;
pub mod tokenize;
