//! A point-in-time copy of the tracee's register file at a trace-stop.

use vstd::prelude::*;

verus! {

/// Registers read at a syscall boundary: the syscall number in effect, the
/// six argument registers in calling-convention order, and the return-value
/// register.  Read fresh at every exit stop, never cached across stops.
#[derive(Clone, Copy, Debug)]
pub struct RegisterSnapshot {
    pub syscall_number: u64,
    pub args: [u64; 6],
    pub return_value: u64,
}

} // verus!
