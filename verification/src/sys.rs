//! The narrow process-control interface: every platform call the tracer
//! makes (resuming the tracee, waiting on it, reading its registers and
//! memory) goes through one of the trusted wrappers below.  Nothing else
//! in the library touches the operating system.

use vstd::prelude::*;

use crate::regs::RegisterSnapshot;

verus! {

/// What a wait on the tracee reported: a trace-stop at a syscall boundary,
/// or the end of the process.
#[derive(Clone, Copy, Debug, PartialEq, Eq, Structural)]
pub enum StopKind {
    /// The tracee is suspended at a syscall-related trace-stop.
    SyscallBoundary,
    /// The tracee exited normally with the given exit code.
    Exited(i32),
    /// The tracee was terminated by the given signal.
    Signaled(i32),
}

#[verifier::external_type_specification]
#[verifier::external_body]
pub struct ExErrno(nix::errno::Errno);

/// Relies on nix::sys::ptrace::syscall: asks the kernel to resume the
/// stopped tracee and suspend it again at its next entry to or exit from a
/// system call, delivering no signal.  Returns the kernel's error when the
/// request fails.
#[verifier::external_body]
pub(crate) fn request_syscall_stop(pid: i32) -> Result<(), nix::errno::Errno> {
    nix::sys::ptrace::syscall(nix::unistd::Pid::from_raw(pid), None)
}

/// Relies on nix::sys::wait::waitpid: blocks until the tracee changes
/// state and reports how.  `Stopped`, `PtraceEvent` and `PtraceSyscall`
/// are trace-stops; `Continued` and `StillAlive` cannot be reported here
/// because the wait passes no `WCONTINUED` or `WNOHANG` option, and are
/// mapped to the only stop kind there is.
#[verifier::external_body]
pub(crate) fn wait_next_stop(pid: i32) -> Result<StopKind, nix::errno::Errno> {
    match nix::sys::wait::waitpid(nix::unistd::Pid::from_raw(pid), None)? {
        nix::sys::wait::WaitStatus::Exited(_, code) => Ok(StopKind::Exited(code)),
        nix::sys::wait::WaitStatus::Signaled(_, sig, _) => Ok(StopKind::Signaled(sig as i32)),
        nix::sys::wait::WaitStatus::Stopped(_, _) => Ok(StopKind::SyscallBoundary),
        nix::sys::wait::WaitStatus::PtraceEvent(_, _, _) => Ok(StopKind::SyscallBoundary),
        nix::sys::wait::WaitStatus::PtraceSyscall(_) => Ok(StopKind::SyscallBoundary),
        nix::sys::wait::WaitStatus::Continued(_) => Ok(StopKind::SyscallBoundary),
        nix::sys::wait::WaitStatus::StillAlive => Ok(StopKind::SyscallBoundary),
    }
}

/// Relies on nix::sys::ptrace::getregs: reads the stopped tracee's
/// register file and copies the syscall number (`orig_rax`), the six
/// argument registers in calling-convention order (`rdi`, `rsi`, `rdx`,
/// `r10`, `r8`, `r9`) and the return-value register (`rax`).
#[verifier::external_body]
pub(crate) fn read_registers(pid: i32) -> Result<RegisterSnapshot, nix::errno::Errno> {
    let r = nix::sys::ptrace::getregs(nix::unistd::Pid::from_raw(pid))?;
    Ok(RegisterSnapshot {
        syscall_number: r.orig_rax,
        args: [r.rdi, r.rsi, r.rdx, r.r10, r.r8, r.r9],
        return_value: r.rax,
    })
}

/// Relies on nix::sys::ptrace::read: reads one machine word of the
/// tracee's memory at `addr`, returned with its little-endian byte order
/// unchanged; the kernel's error when the address cannot be read.
#[verifier::external_body]
pub(crate) fn peek_word(pid: i32, addr: u64) -> Result<u64, nix::errno::Errno> {
    let w = nix::sys::ptrace::read(
        nix::unistd::Pid::from_raw(pid),
        addr as nix::sys::ptrace::AddressType,
    )?;
    Ok(w as u64)
}

/// The text that lossy UTF-8 decoding makes of `bytes`; it depends on the
/// bytes alone.
pub uninterp spec fn lossy_utf8(bytes: Seq<u8>) -> Seq<char>;

/// Relies on String::from_utf8_lossy: decodes `bytes` as UTF-8, replacing
/// invalid sequences rather than failing; bytes that are all ASCII come
/// back unchanged, each as its own character.
#[verifier::external_body]
pub(crate) fn lossy_string(bytes: &Vec<u8>) -> (r: String)
    ensures
        r@ == lossy_utf8(bytes@),
        (forall|i: int| 0 <= i < bytes@.len() ==> bytes@[i] < 128) ==> r@ == bytes@.map(
            |_i: int, b: u8| b as char,
        ),
{
    String::from_utf8_lossy(bytes.as_slice()).into_owned()
}

} // verus!
