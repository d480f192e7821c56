//! Tooling around a firmware image that is built in many configurations.
//!
//! The harness part runs a benchmark under every valid build configuration:
//! [`config`] enumerates the configurations, [`orchestrator`] lays down what
//! is done for each of them and what a failure means, [`target`] says how the
//! emulator and the board are programmed and restarted, [`capture`] scans
//! their output for a terminating marker, [`retry`] bounds the attempts at
//! talking to them, [`process`] builds command lines and judges how tools
//! ended, and [`benchmark`] knows the benchmark applications.
//!
//! The assembler part reads what the compiler emits: [`gasio`] reads
//! statements of the GNU assembler syntax and [`arm`] the instructions among
//! them. [`implib`] makes the import library for the secure entry points.
//!
//! Nothing here touches a file, a process or a clock: the caller does that
//! and hands in plain values.

pub mod arm;
pub mod benchmark;
pub mod capture;
pub mod config;
pub mod gasio;
pub mod implib;
pub mod orchestrator;
pub mod process;
pub mod retry;
pub mod target;
pub mod text;
