use syscall_trace::reader::{read_c_string_sim, sim_peek, MemRegion, SimMemory};

fn word(bytes: [u8; 8]) -> u64 {
    u64::from_le_bytes(bytes)
}

fn memory_with(start: u64, words: Vec<u64>) -> SimMemory {
    SimMemory { regions: vec![MemRegion { start, words }] }
}

#[test]
fn reads_short_string_at_word_aligned_address() {
    let mem = memory_with(0x1000, vec![word([b'a', b'b', b'c', 0, 0, 0, 0, 0])]);
    assert_eq!(read_c_string_sim(&mem, 0x1000), "abc");
}

#[test]
fn truncates_at_unreadable_word_before_the_nul() {
    // The terminating zero byte falls in the second word, but only the
    // first word is readable: exactly the bytes read before the failure
    // come back, and nothing crashes.
    let mem = memory_with(
        0x2000,
        vec![word([b'a', b'b', b'c', b'd', b'e', b'f', b'g', b'h'])],
    );
    assert_eq!(read_c_string_sim(&mem, 0x2000), "abcdefgh");
}

#[test]
fn continues_across_words_until_the_nul() {
    let mem = memory_with(
        0x3000,
        vec![
            word([b'/', b'e', b't', b'c', b'/', b'h', b'o', b's']),
            word([b't', b's', 0, 0, 0, 0, 0, 0]),
        ],
    );
    assert_eq!(read_c_string_sim(&mem, 0x3000), "/etc/hosts");
}

#[test]
fn unreadable_start_yields_empty_string() {
    let mem = memory_with(0x4000, vec![word([b'x', 0, 0, 0, 0, 0, 0, 0])]);
    assert_eq!(read_c_string_sim(&mem, 0x9000), "");
}

#[test]
fn stops_at_first_zero_byte_inside_a_word() {
    let mem = memory_with(0x5000, vec![word([b'a', b'b', 0, b'x', b'y', b'z', b'w', b'v'])]);
    assert_eq!(read_c_string_sim(&mem, 0x5000), "ab");
}

#[test]
fn peek_respects_alignment_and_bounds() {
    let mem = memory_with(0x1000, vec![7, 9]);
    assert_eq!(sim_peek(&mem, 0x1000), Some(7));
    assert_eq!(sim_peek(&mem, 0x1008), Some(9));
    assert_eq!(sim_peek(&mem, 0x1010), None);
    assert_eq!(sim_peek(&mem, 0x1004), None);
    assert_eq!(sim_peek(&mem, 0xfff), None);
}
