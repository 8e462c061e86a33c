//! A minimal process-tracing engine.
//!
//! The library builds a syscall metadata table from plain descriptor rows,
//! drives a traced child process from one syscall boundary to the next,
//! reads NUL-terminated strings out of the tracee's address space word by
//! word, and renders one record per completed syscall.  All platform work
//! (ptrace requests, waiting on the child) sits behind a narrow set of
//! trusted wrappers; everything around them is verified.

pub mod cstring;
pub mod engine;
pub mod reader;
pub mod regs;
pub mod render;
pub mod sys;
pub mod table;
