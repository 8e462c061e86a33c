use syscall_trace::render::{hex_string, render_arg, render_args, render_record, TraceArg, TraceRecord};

#[test]
fn hex_of_zero_is_a_single_digit() {
    assert_eq!(hex_string(0), "0");
}

#[test]
fn hex_has_no_prefix_and_no_leading_zeros() {
    assert_eq!(hex_string(255), "ff");
    assert_eq!(hex_string(0x10), "10");
    assert_eq!(hex_string(0xdeadbeef), "deadbeef");
    assert_eq!(hex_string(u64::MAX), "ffffffffffffffff");
}

#[test]
fn string_arguments_are_quoted() {
    assert_eq!(render_arg(&TraceArg::Text("/etc/hosts".to_string())), "\"/etc/hosts\"");
}

#[test]
fn raw_arguments_are_hexadecimal() {
    assert_eq!(render_arg(&TraceArg::Raw(0x1a)), "1a");
}

#[test]
fn arguments_join_with_comma_and_space() {
    let args = vec![
        TraceArg::Text("x".to_string()),
        TraceArg::Raw(0),
        TraceArg::Raw(16),
    ];
    assert_eq!(render_args(&args), "\"x\", 0, 10");
    assert_eq!(render_args(&Vec::new()), "");
}

#[test]
fn record_line_has_name_args_and_return_value() {
    let rec = TraceRecord {
        number: 2,
        name: "open".to_string(),
        args: vec![TraceArg::Text("/etc/hosts".to_string()), TraceArg::Raw(0), TraceArg::Raw(0)],
        return_value: 3,
    };
    assert_eq!(render_record(&rec), "open(\"/etc/hosts\", 0, 0) = 3");
}
