//! The trace loop: a two-phase state machine that drives the tracer /
//! tracee handshake.  A single resume request stops the tracee at both
//! the entry to and the exit from each syscall, with no built-in way to
//! tell which; the loop counts stops modulo two, seeded by the fact that
//! the first stop it sees after the initial attach is an entry.  A record
//! is read, resolved and emitted only at exit stops, when the call's
//! inputs and its result are available together.
//!
//! Beside the live loop stands the same loop over a scripted sequence of
//! stop events and a simulated memory, with an exact contract, so that
//! the loop's behaviour can be stated and exercised without a tracee.

use vstd::prelude::*;

use crate::cstring::has_nul;
use crate::reader::{cstr_bytes, read_c_string, read_c_string_sim, SimMemory};
use crate::regs::RegisterSnapshot;
use crate::render::{TraceArg, TraceRecord};
use crate::sys;
use crate::sys::{lossy_utf8, StopKind};
use crate::table::{ArgKind, DescView, MetadataTable};

verus! {

/// The phase the next syscall-related trace-stop will be classified as.
#[derive(Clone, Copy, Debug, PartialEq, Eq, Structural)]
pub enum Phase {
    AtEntry,
    AtExit,
}

pub open spec fn spec_toggle(p: Phase) -> Phase {
    match p {
        Phase::AtEntry => Phase::AtExit,
        Phase::AtExit => Phase::AtEntry,
    }
}

impl Phase {
    /// The phase toggles exactly once per trace-stop: the result is the
    /// other phase, never the same one.
    pub fn toggle(self) -> (r: Phase)
        ensures
            r == spec_toggle(self),
            r != self,
    {
        match self {
            Phase::AtEntry => Phase::AtExit,
            Phase::AtExit => Phase::AtEntry,
        }
    }
}

/// Why a run of the trace loop ended without a clean termination.
#[derive(Clone, Copy, Debug, PartialEq, Eq, Structural)]
pub enum TraceError {
    /// Asking the kernel to resume the tracee failed.
    ResumeFailed,
    /// Waiting on the tracee failed.
    WaitFailed,
    /// The initial synchronization saw the child end before its first stop.
    NoInitialStop,
    /// Reading the stopped tracee's registers failed.
    RegistersUnavailable,
    /// A syscall number at an exit stop is absent from the table: fatal,
    /// since guessing argument shapes risks walking off random memory.
    UnknownSyscall(u64),
    /// The supply of trace-stops ended before the tracee terminated: the
    /// caller's bound was reached, or a scripted session ran out of events.
    StopsExhausted,
}

/// How the traced process ended.
#[derive(Clone, Copy, Debug, PartialEq, Eq, Structural)]
pub enum Termination {
    Exited(i32),
    Signaled(i32),
}

/// What a completed run produced: one record per traced syscall, in
/// issuance order, and how the tracee ended.
#[derive(Debug)]
pub struct TraceOutcome {
    pub records: Vec<TraceRecord>,
    pub termination: Termination,
}

/// The attached child process: its identifier, and the phase the next
/// syscall-related stop will be classified as.
pub struct TraceeHandle {
    pub pid: i32,
    pub phase: Phase,
}

pub open spec fn arg_is_text(a: TraceArg) -> bool {
    match a {
        TraceArg::Text(_) => true,
        _ => false,
    }
}

pub open spec fn arg_text(a: TraceArg) -> Seq<char> {
    match a {
        TraceArg::Text(s) => s@,
        _ => arbitrary(),
    }
}

/// How a rendered argument must relate to its descriptor kind and its
/// register value when strings come from live tracee memory: an opaque
/// argument is the register word itself; a string-pointer argument is
/// the lossy decoding of some NUL-free byte run.
pub open spec fn live_arg_matches(kind: ArgKind, reg: u64, a: TraceArg) -> bool {
    match kind {
        ArgKind::Opaque => a == TraceArg::Raw(reg),
        ArgKind::StringPointer => arg_is_text(a) && exists|bytes: Seq<u8>|
            !has_nul(bytes) && arg_text(a) == lossy_utf8(bytes),
    }
}

pub open spec fn live_record_matches(d: DescView, regs: RegisterSnapshot, rec: TraceRecord) -> bool {
    &&& rec.number == regs.syscall_number
    &&& rec.name@ == d.name
    &&& rec.return_value == regs.return_value
    &&& rec.args@.len() == d.args.len()
    &&& forall|i: int|
        0 <= i < d.args.len() ==> live_arg_matches(d.args[i], regs.args@[i], #[trigger] rec.args@[i])
}

/// As `live_arg_matches`, but against the simulated memory: a
/// string-pointer argument resolves to exactly the bytes the word-by-word
/// scan accumulates at its address.
pub open spec fn sim_arg_matches(kind: ArgKind, reg: u64, mem: &SimMemory, a: TraceArg) -> bool {
    match kind {
        ArgKind::Opaque => a == TraceArg::Raw(reg),
        ArgKind::StringPointer => arg_is_text(a) && arg_text(a) == lossy_utf8(
            cstr_bytes(mem, reg),
        ),
    }
}

pub open spec fn sim_record_matches(
    d: DescView,
    regs: RegisterSnapshot,
    mem: &SimMemory,
    rec: TraceRecord,
) -> bool {
    &&& rec.number == regs.syscall_number
    &&& rec.name@ == d.name
    &&& rec.return_value == regs.return_value
    &&& rec.args@.len() == d.args.len()
    &&& forall|i: int|
        0 <= i < d.args.len() ==> sim_arg_matches(
            d.args[i],
            regs.args@[i],
            mem,
            #[trigger] rec.args@[i],
        )
}

/// Materialize the record for one syscall-exit stop of the live tracee
/// from its register snapshot: look the number up, resolve each argument
/// by its declared kind, and carry the raw return value over.  Fails
/// exactly when the table does not cover the number.
pub fn record_for(pid: i32, table: &MetadataTable, regs: &RegisterSnapshot) -> (r: Result<
    TraceRecord,
    TraceError,
>)
    requires
        table.wf(),
    ensures
        match r {
            Ok(rec) => table@.contains_key(regs.syscall_number) && live_record_matches(
                table@[regs.syscall_number],
                *regs,
                rec,
            ),
            Err(e) => e == TraceError::UnknownSyscall(regs.syscall_number)
                && !table@.contains_key(regs.syscall_number),
        },
{
    let desc = match table.lookup(regs.syscall_number) {
        None => {
            return Err(TraceError::UnknownSyscall(regs.syscall_number));
        },
        Some(d) => d,
    };
    let n = desc.args.len();
    proof {
        assert(table@[regs.syscall_number].args.len() <= 6);
    }
    let mut args: Vec<TraceArg> = Vec::new();
    let mut i: usize = 0;
    while i < n
        invariant
            0 <= i <= n,
            n == desc.args@.len(),
            n <= 6,
            desc@ == table@[regs.syscall_number],
            args@.len() == i,
            forall|k: int|
                0 <= k < i ==> live_arg_matches(desc.args@[k], regs.args@[k], #[trigger] args@[k]),
        decreases n - i,
    {
        match desc.args[i] {
            ArgKind::StringPointer => {
                let s = read_c_string(pid, regs.args[i]);
                args.push(TraceArg::Text(s));
            },
            ArgKind::Opaque => {
                args.push(TraceArg::Raw(regs.args[i]));
            },
        }
        i = i + 1;
    }
    Ok(
        TraceRecord {
            number: regs.syscall_number,
            name: desc.name.clone(),
            args,
            return_value: regs.return_value,
        },
    )
}

/// As `record_for`, but strings are resolved out of the simulated memory,
/// which makes the contract exact.
pub fn record_for_sim(table: &MetadataTable, regs: &RegisterSnapshot, mem: &SimMemory) -> (r:
    Result<TraceRecord, TraceError>)
    requires
        table.wf(),
    ensures
        match r {
            Ok(rec) => table@.contains_key(regs.syscall_number) && sim_record_matches(
                table@[regs.syscall_number],
                *regs,
                mem,
                rec,
            ),
            Err(e) => e == TraceError::UnknownSyscall(regs.syscall_number)
                && !table@.contains_key(regs.syscall_number),
        },
{
    let desc = match table.lookup(regs.syscall_number) {
        None => {
            return Err(TraceError::UnknownSyscall(regs.syscall_number));
        },
        Some(d) => d,
    };
    let n = desc.args.len();
    proof {
        assert(table@[regs.syscall_number].args.len() <= 6);
    }
    let mut args: Vec<TraceArg> = Vec::new();
    let mut i: usize = 0;
    while i < n
        invariant
            0 <= i <= n,
            n == desc.args@.len(),
            n <= 6,
            desc@ == table@[regs.syscall_number],
            args@.len() == i,
            forall|k: int|
                0 <= k < i ==> sim_arg_matches(
                    desc.args@[k],
                    regs.args@[k],
                    mem,
                    #[trigger] args@[k],
                ),
        decreases n - i,
    {
        match desc.args[i] {
            ArgKind::StringPointer => {
                let s = read_c_string_sim(mem, regs.args[i]);
                args.push(TraceArg::Text(s));
            },
            ArgKind::Opaque => {
                args.push(TraceArg::Raw(regs.args[i]));
            },
        }
        i = i + 1;
    }
    Ok(
        TraceRecord {
            number: regs.syscall_number,
            name: desc.name.clone(),
            args,
            return_value: regs.return_value,
        },
    )
}

/// Synchronize with a freshly launched child that has requested to be
/// traced: block until its first stop.  Mandatory before the loop runs —
/// without it, the first syscall-intercept request races the child's
/// initial execution.  The handle starts at the entry phase, because the
/// first stop the loop itself sees after this one is a syscall entry.
pub fn attach(pid: i32) -> (r: Result<TraceeHandle, TraceError>)
    ensures
        match r {
            Ok(h) => h.pid == pid && h.phase == Phase::AtEntry,
            Err(e) => e == TraceError::WaitFailed || e == TraceError::NoInitialStop,
        },
{
    match sys::wait_next_stop(pid) {
        Err(_) => Err(TraceError::WaitFailed),
        Ok(StopKind::SyscallBoundary) => Ok(TraceeHandle { pid, phase: Phase::AtEntry }),
        Ok(StopKind::Exited(_)) => Err(TraceError::NoInitialStop),
        Ok(StopKind::Signaled(_)) => Err(TraceError::NoInitialStop),
    }
}

/// Drive the attached tracee from stop to stop until it terminates,
/// emitting one record per completed syscall, in issuance order.  Every
/// record's shape is pinned to the table entry for its number; an unknown
/// number at an exit stop aborts the run instead of guessing.  The loop
/// processes at most `max_stops` trace-stops.
pub fn run(handle: TraceeHandle, table: &MetadataTable, max_stops: u64) -> (r: Result<
    TraceOutcome,
    TraceError,
>)
    requires
        table.wf(),
        handle.phase == Phase::AtEntry,
    ensures
        match r {
            Ok(o) => forall|i: int|
                0 <= i < o.records@.len() ==> table@.contains_key(
                    (#[trigger] o.records@[i]).number,
                ) && exists|regs: RegisterSnapshot|
                    live_record_matches(table@[o.records@[i].number], regs, o.records@[i]),
            Err(e) => match e {
                TraceError::UnknownSyscall(n) => !table@.contains_key(n),
                TraceError::ResumeFailed => true,
                TraceError::WaitFailed => true,
                TraceError::RegistersUnavailable => true,
                TraceError::StopsExhausted => true,
                _ => false,
            },
        },
{
    let pid = handle.pid;
    let mut phase = handle.phase;
    let mut records: Vec<TraceRecord> = Vec::new();
    let mut stops: u64 = 0;
    while stops < max_stops
        invariant
            table.wf(),
            forall|i: int|
                0 <= i < records@.len() ==> table@.contains_key((#[trigger] records@[i]).number)
                    && exists|regs: RegisterSnapshot|
                    live_record_matches(table@[records@[i].number], regs, records@[i]),
        decreases max_stops - stops,
    {
        match sys::request_syscall_stop(pid) {
            Err(_) => {
                return Err(TraceError::ResumeFailed);
            },
            Ok(_) => {},
        }
        let stop = match sys::wait_next_stop(pid) {
            Err(_) => {
                return Err(TraceError::WaitFailed);
            },
            Ok(s) => s,
        };
        match stop {
            StopKind::Exited(code) => {
                return Ok(TraceOutcome { records, termination: Termination::Exited(code) });
            },
            StopKind::Signaled(sig) => {
                return Ok(TraceOutcome { records, termination: Termination::Signaled(sig) });
            },
            StopKind::SyscallBoundary => {
                if matches!(phase, Phase::AtExit) {
                    let regs = match sys::read_registers(pid) {
                        Err(_) => {
                            return Err(TraceError::RegistersUnavailable);
                        },
                        Ok(r) => r,
                    };
                    let rec = match record_for(pid, table, &regs) {
                        Err(e) => {
                            return Err(e);
                        },
                        Ok(rec) => rec,
                    };
                    records.push(rec);
                }
                phase = phase.toggle();
            },
        }
        stops = stops + 1;
    }
    Err(TraceError::StopsExhausted)
}

/// One scripted event of a simulated session: what a wait on the tracee
/// would have reported, with the registers a boundary stop would show.
#[derive(Debug, Clone, Copy)]
pub enum SimEvent {
    Boundary(RegisterSnapshot),
    Exited(i32),
    Signaled(i32),
}

pub open spec fn is_boundary(e: SimEvent) -> bool {
    match e {
        SimEvent::Boundary(_) => true,
        _ => false,
    }
}

pub open spec fn ev_regs(e: SimEvent) -> RegisterSnapshot {
    match e {
        SimEvent::Boundary(r) => r,
        _ => arbitrary(),
    }
}

pub open spec fn ev_termination(e: SimEvent) -> Termination {
    match e {
        SimEvent::Exited(c) => Termination::Exited(c),
        SimEvent::Signaled(s) => Termination::Signaled(s),
        _ => arbitrary(),
    }
}

/// How many events lead the script before the first non-boundary one:
/// the number of trace-stops the loop sees before the tracee ends.
pub open spec fn boundary_prefix(events: Seq<SimEvent>) -> int
    decreases events.len(),
{
    if events.len() == 0 {
        0
    } else if !is_boundary(events[0]) {
        0
    } else {
        1 + boundary_prefix(events.drop_first())
    }
}

proof fn lemma_boundary_prefix_nonneg(events: Seq<SimEvent>)
    ensures
        boundary_prefix(events) >= 0,
    decreases events.len(),
{
    if events.len() > 0 && is_boundary(events[0]) {
        lemma_boundary_prefix_nonneg(events.drop_first());
    }
}

proof fn lemma_boundary_prefix_ge(events: Seq<SimEvent>, t: int)
    requires
        0 <= t <= events.len(),
        forall|j: int| 0 <= j < t ==> is_boundary(#[trigger] events[j]),
    ensures
        boundary_prefix(events) >= t,
    decreases t,
{
    lemma_boundary_prefix_nonneg(events);
    if t > 0 {
        assert(is_boundary(events[0]));
        assert forall|j: int| 0 <= j < t - 1 implies is_boundary(#[trigger] events.drop_first()[j]) by {
            assert(events.drop_first()[j] == events[j + 1]);
        }
        lemma_boundary_prefix_ge(events.drop_first(), t - 1);
    }
}

proof fn lemma_boundary_prefix_eq(events: Seq<SimEvent>, t: int)
    requires
        0 <= t <= events.len(),
        forall|j: int| 0 <= j < t ==> is_boundary(#[trigger] events[j]),
        t == events.len() || !is_boundary(events[t]),
    ensures
        boundary_prefix(events) == t,
    decreases t,
{
    if t == 0 {
    } else {
        assert(is_boundary(events[0]));
        assert forall|j: int| 0 <= j < t - 1 implies is_boundary(#[trigger] events.drop_first()[j]) by {
            assert(events.drop_first()[j] == events[j + 1]);
        }
        if t < events.len() {
            assert(events.drop_first()[t - 1] == events[t]);
        }
        lemma_boundary_prefix_eq(events.drop_first(), t - 1);
    }
}

/// The trace-stop protocol fires twice per syscall — once at entry, once
/// at exit — and the loop's phase toggles exactly once per stop, emitting
/// a record only at exit phases.  So a session whose tracee makes exactly
/// `n_syscalls` syscalls before ending shows `2 * n_syscalls` boundary
/// stops, and the loop emits exactly `n_syscalls` records: the record
/// count that `run_simulated` pins to half the boundary-stop count is the
/// syscall count itself.
pub proof fn lemma_one_record_per_syscall(events: Seq<SimEvent>, n_syscalls: int)
    requires
        n_syscalls >= 0,
        boundary_prefix(events) == 2 * n_syscalls,
    ensures
        boundary_prefix(events) / 2 == n_syscalls,
{
    assert((2 * n_syscalls) / 2 == n_syscalls) by (nonlinear_arith)
        requires
            n_syscalls >= 0,
    ;
}

/// Run the trace loop over a scripted session instead of a live tracee.
/// The contract is the loop's functional specification: with `k` leading
/// boundary stops, exactly `k / 2` records are emitted — one per exit
/// stop, none at entry stops — in issuance order, each pinned to the
/// table entry for the registers of its (odd-numbered) stop; the first
/// exit stop whose number the table lacks aborts the run; a script that
/// ends the tracee after `k` stops yields that termination.
pub fn run_simulated(table: &MetadataTable, events: &Vec<SimEvent>, mem: &SimMemory) -> (r: Result<
    TraceOutcome,
    TraceError,
>)
    requires
        table.wf(),
    ensures
        ({
            let k = boundary_prefix(events@);
            match r {
                Ok(o) => {
                    &&& k < events@.len()
                    &&& o.termination == ev_termination(events@[k])
                    &&& o.records@.len() == k / 2
                    &&& forall|i: int|
                        0 <= i && 2 * i + 1 < k ==> table@.contains_key(
                            ev_regs(#[trigger] events@[2 * i + 1]).syscall_number,
                        )
                    &&& forall|i: int|
                        0 <= i && 2 * i + 1 < k ==> sim_record_matches(
                            table@[ev_regs(#[trigger] events@[2 * i + 1]).syscall_number],
                            ev_regs(events@[2 * i + 1]),
                            mem,
                            o.records@[i],
                        )
                },
                Err(e) => match e {
                    TraceError::UnknownSyscall(n) => {
                        &&& !table@.contains_key(n)
                        &&& exists|i: int|
                            {
                                &&& 0 <= i && 2 * i + 1 < k
                                &&& n == ev_regs(#[trigger] events@[2 * i + 1]).syscall_number
                                &&& forall|j: int|
                                    0 <= j < i ==> table@.contains_key(
                                        ev_regs(#[trigger] events@[2 * j + 1]).syscall_number,
                                    )
                            }
                    },
                    TraceError::StopsExhausted => k == events@.len(),
                    _ => false,
                },
            }
        }),
{
    let n = events.len();
    let mut records: Vec<TraceRecord> = Vec::new();
    let mut phase = Phase::AtEntry;
    let mut t: usize = 0;
    while t < n
        invariant
            table.wf(),
            0 <= t <= n,
            n == events@.len(),
            forall|j: int| 0 <= j < t ==> is_boundary(#[trigger] events@[j]),
            phase == (if t % 2 == 0 {
                Phase::AtEntry
            } else {
                Phase::AtExit
            }),
            records@.len() == t / 2,
            forall|i: int|
                0 <= i && 2 * i + 1 < t ==> table@.contains_key(
                    ev_regs(#[trigger] events@[2 * i + 1]).syscall_number,
                ),
            forall|i: int|
                0 <= i && 2 * i + 1 < t ==> sim_record_matches(
                    table@[ev_regs(#[trigger] events@[2 * i + 1]).syscall_number],
                    ev_regs(events@[2 * i + 1]),
                    mem,
                    records@[i],
                ),
        decreases n - t,
    {
        let ev = &events[t];
        match ev {
            SimEvent::Exited(code) => {
                proof {
                    lemma_boundary_prefix_eq(events@, t as int);
                }
                return Ok(TraceOutcome { records, termination: Termination::Exited(*code) });
            },
            SimEvent::Signaled(sig) => {
                proof {
                    lemma_boundary_prefix_eq(events@, t as int);
                }
                return Ok(TraceOutcome { records, termination: Termination::Signaled(*sig) });
            },
            SimEvent::Boundary(regs) => {
                if matches!(phase, Phase::AtExit) {
                    proof {
                        assert(t % 2 == 1);
                        assert(2 * ((t as int) / 2) + 1 == t as int) by (nonlinear_arith)
                            requires
                                t as int >= 0,
                                (t as int) % 2 == 1,
                        ;
                    }
                    match record_for_sim(table, regs, mem) {
                        Err(e) => {
                            proof {
                                lemma_boundary_prefix_ge(events@, t + 1);
                                let w = (t as int) / 2;
                                assert(2 * w + 1 < boundary_prefix(events@));
                                assert(ev_regs(events@[2 * w + 1]) == *regs);
                            }
                            return Err(e);
                        },
                        Ok(rec) => {
                            records.push(rec);
                        },
                    }
                }
                proof {
                    if t % 2 == 1 {
                        assert(2 * ((t as int) / 2) + 1 == t as int) by (nonlinear_arith)
                            requires
                                t as int >= 0,
                                (t as int) % 2 == 1,
                        ;
                        assert((t as int + 1) / 2 == (t as int) / 2 + 1) by (nonlinear_arith)
                            requires
                                t as int >= 0,
                                (t as int) % 2 == 1,
                        ;
                    } else {
                        assert((t as int + 1) / 2 == (t as int) / 2) by (nonlinear_arith)
                            requires
                                t as int >= 0,
                                (t as int) % 2 == 0,
                        ;
                    }
                    assert forall|i: int| 0 <= i && 2 * i + 1 < t + 1 implies {
                        &&& table@.contains_key(
                            ev_regs(#[trigger] events@[2 * i + 1]).syscall_number,
                        )
                        &&& sim_record_matches(
                            table@[ev_regs(events@[2 * i + 1]).syscall_number],
                            ev_regs(events@[2 * i + 1]),
                            mem,
                            records@[i],
                        )
                    } by {
                        if 2 * i + 1 < t {
                        } else {
                            assert(2 * i + 1 == t as int);
                            assert(i == (t as int) / 2) by (nonlinear_arith)
                                requires
                                    2 * i + 1 == t as int,
                                    i >= 0,
                            ;
                        }
                    }
                }
                phase = phase.toggle();
            },
        }
        t = t + 1;
    }
    proof {
        lemma_boundary_prefix_eq(events@, n as int);
    }
    Err(TraceError::StopsExhausted)
}

} // verus!
