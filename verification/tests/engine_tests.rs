use syscall_trace::engine::{run_simulated, Phase, SimEvent, Termination, TraceError};
use syscall_trace::reader::{MemRegion, SimMemory};
use syscall_trace::regs::RegisterSnapshot;
use syscall_trace::render::{render_record, TraceArg};
use syscall_trace::table::{ArgumentDetail, DescriptorField, DescriptorRow, MetadataTable};

fn word(bytes: [u8; 8]) -> u64 {
    u64::from_le_bytes(bytes)
}

fn row(number: u64, name: &str, types: Vec<&str>) -> DescriptorRow {
    let mut fields = vec![
        DescriptorField::Integer(number),
        DescriptorField::Text(name.to_string()),
        DescriptorField::Other,
    ];
    for t in types {
        fields.push(DescriptorField::TypedObject(t.to_string()));
    }
    DescriptorRow { fields }
}

fn sample_table() -> MetadataTable {
    let rows = vec![
        row(0, "read", vec!["unsigned int fd", "char __user * buf", "size_t count"]),
        row(
            2,
            "open",
            vec!["const char __user * filename", "int flags", "umode_t mode"],
        ),
        row(231, "exit_group", vec!["int error_code"]),
    ];
    MetadataTable::build(&rows, ArgumentDetail::Typed).unwrap()
}

fn regs(number: u64, args: [u64; 6], ret: u64) -> RegisterSnapshot {
    RegisterSnapshot { syscall_number: number, args, return_value: ret }
}

fn empty_memory() -> SimMemory {
    SimMemory { regions: Vec::new() }
}

#[test]
fn phase_toggles_exactly_once_per_stop() {
    assert_eq!(Phase::AtEntry.toggle(), Phase::AtExit);
    assert_eq!(Phase::AtExit.toggle(), Phase::AtEntry);
}

#[test]
fn three_syscalls_give_three_records_in_order() {
    let table = sample_table();
    let r_open = regs(2, [0, 0, 0, 0, 0, 0], 3);
    let r_read = regs(0, [3, 0x8000, 128, 0, 0, 0], 128);
    let r_exit = regs(231, [0, 0, 0, 0, 0, 0], 0);
    let events = vec![
        SimEvent::Boundary(r_open),
        SimEvent::Boundary(r_open),
        SimEvent::Boundary(r_read),
        SimEvent::Boundary(r_read),
        SimEvent::Boundary(r_exit),
        SimEvent::Boundary(r_exit),
        SimEvent::Exited(0),
    ];
    let outcome = run_simulated(&table, &events, &empty_memory()).unwrap();
    assert_eq!(outcome.records.len(), 3);
    assert_eq!(outcome.records[0].name, "open");
    assert_eq!(outcome.records[1].name, "read");
    assert_eq!(outcome.records[2].name, "exit_group");
    assert_eq!(outcome.termination, Termination::Exited(0));
}

#[test]
fn no_record_is_emitted_at_an_entry_stop() {
    let table = sample_table();
    // One entry stop, then the child is killed: nothing was completed.
    let events = vec![
        SimEvent::Boundary(regs(2, [0; 6], 0)),
        SimEvent::Signaled(9),
    ];
    let outcome = run_simulated(&table, &events, &empty_memory()).unwrap();
    assert_eq!(outcome.records.len(), 0);
    assert_eq!(outcome.termination, Termination::Signaled(9));
}

#[test]
fn open_read_exit_end_to_end() {
    let table = sample_table();
    let path_addr: u64 = 0x1000;
    let mem = SimMemory {
        regions: vec![MemRegion {
            start: path_addr,
            words: vec![
                word([b'/', b'e', b't', b'c', b'/', b'h', b'o', b's']),
                word([b't', b's', 0, 0, 0, 0, 0, 0]),
            ],
        }],
    };
    let r_open = regs(2, [path_addr, 0, 0, 0, 0, 0], 3);
    let r_read = regs(0, [3, 0x8000, 128, 0, 0, 0], 128);
    let r_exit = regs(231, [0, 0, 0, 0, 0, 0], 0);
    let events = vec![
        SimEvent::Boundary(r_open),
        SimEvent::Boundary(r_open),
        SimEvent::Boundary(r_read),
        SimEvent::Boundary(r_read),
        SimEvent::Boundary(r_exit),
        SimEvent::Boundary(r_exit),
        SimEvent::Exited(0),
    ];
    let outcome = run_simulated(&table, &events, &mem).unwrap();
    assert_eq!(outcome.records.len(), 3);
    assert_eq!(outcome.records[0].name, "open");
    assert_eq!(outcome.records[1].name, "read");
    assert_eq!(outcome.records[2].name, "exit_group");
    match &outcome.records[0].args[0] {
        TraceArg::Text(s) => assert_eq!(s, "/etc/hosts"),
        other => panic!("first argument of open was not resolved as a string: {:?}", other),
    }
    assert_eq!(
        render_record(&outcome.records[0]),
        "open(\"/etc/hosts\", 0, 0) = 3"
    );
    // read's buffer argument is itself a char pointer; its address is
    // unreadable in this memory, so it resolves to the empty string.
    assert_eq!(render_record(&outcome.records[1]), "read(3, \"\", 80) = 80");
}

#[test]
fn unknown_syscall_at_exit_stop_is_fatal() {
    let table = sample_table();
    let r_bad = regs(999, [0; 6], 0);
    let events = vec![
        SimEvent::Boundary(r_bad),
        SimEvent::Boundary(r_bad),
        SimEvent::Exited(0),
    ];
    let e = run_simulated(&table, &events, &empty_memory()).unwrap_err();
    assert_eq!(e, TraceError::UnknownSyscall(999));
}

#[test]
fn unknown_number_at_entry_only_is_not_consulted() {
    let table = sample_table();
    // The entry stop's registers are never read; only the exit stop's are.
    let events = vec![
        SimEvent::Boundary(regs(999, [0; 6], 0)),
        SimEvent::Boundary(regs(2, [0; 6], 0)),
        SimEvent::Exited(0),
    ];
    let outcome = run_simulated(&table, &events, &empty_memory()).unwrap();
    assert_eq!(outcome.records.len(), 1);
    assert_eq!(outcome.records[0].name, "open");
}

#[test]
fn script_without_termination_exhausts_the_stops() {
    let table = sample_table();
    let events = vec![
        SimEvent::Boundary(regs(2, [0; 6], 0)),
        SimEvent::Boundary(regs(2, [0; 6], 0)),
    ];
    let e = run_simulated(&table, &events, &empty_memory()).unwrap_err();
    assert_eq!(e, TraceError::StopsExhausted);
}
