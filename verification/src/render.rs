//! Rendering of one output record per completed syscall: the syscall
//! name, its argument values in original order (resolved strings quoted,
//! raw machine words in hexadecimal) and the raw return value, in the
//! form `name(arg1, arg2, ...) = retval`.

use vstd::prelude::*;

verus! {

/// One rendered syscall argument: the string a string-pointer argument
/// resolved to, or the raw machine word of an opaque argument.
#[derive(Debug, Clone)]
pub enum TraceArg {
    Text(String),
    Raw(u64),
}

/// One output record of the trace: emitted at a syscall-exit stop.
#[derive(Debug, Clone)]
pub struct TraceRecord {
    pub number: u64,
    pub name: String,
    pub args: Vec<TraceArg>,
    pub return_value: u64,
}

/// The lowercase hexadecimal digit for `d`.
pub open spec fn hex_digit_char(d: u64) -> char {
    if d == 0 {
        '0'
    } else if d == 1 {
        '1'
    } else if d == 2 {
        '2'
    } else if d == 3 {
        '3'
    } else if d == 4 {
        '4'
    } else if d == 5 {
        '5'
    } else if d == 6 {
        '6'
    } else if d == 7 {
        '7'
    } else if d == 8 {
        '8'
    } else if d == 9 {
        '9'
    } else if d == 10 {
        'a'
    } else if d == 11 {
        'b'
    } else if d == 12 {
        'c'
    } else if d == 13 {
        'd'
    } else if d == 14 {
        'e'
    } else {
        'f'
    }
}

/// The hexadecimal rendering of `n`, without a prefix and without
/// leading zeros (a single `0` for zero itself).
pub open spec fn spec_hex(n: u64) -> Seq<char>
    decreases n,
{
    if n < 16 {
        seq![hex_digit_char(n)]
    } else {
        spec_hex(n / 16).push(hex_digit_char(n % 16))
    }
}

fn append_hex_digit(s: &mut String, d: u64)
    requires
        d < 16,
    ensures
        final(s)@ == old(s)@ + seq![hex_digit_char(d)],
{
    if d == 0 {
        s.append("0");
        proof {
            reveal_strlit("0");
            assert(old(s)@ + "0"@ =~= old(s)@ + seq![hex_digit_char(d)]);
        }
    } else if d == 1 {
        s.append("1");
        proof {
            reveal_strlit("1");
            assert(old(s)@ + "1"@ =~= old(s)@ + seq![hex_digit_char(d)]);
        }
    } else if d == 2 {
        s.append("2");
        proof {
            reveal_strlit("2");
            assert(old(s)@ + "2"@ =~= old(s)@ + seq![hex_digit_char(d)]);
        }
    } else if d == 3 {
        s.append("3");
        proof {
            reveal_strlit("3");
            assert(old(s)@ + "3"@ =~= old(s)@ + seq![hex_digit_char(d)]);
        }
    } else if d == 4 {
        s.append("4");
        proof {
            reveal_strlit("4");
            assert(old(s)@ + "4"@ =~= old(s)@ + seq![hex_digit_char(d)]);
        }
    } else if d == 5 {
        s.append("5");
        proof {
            reveal_strlit("5");
            assert(old(s)@ + "5"@ =~= old(s)@ + seq![hex_digit_char(d)]);
        }
    } else if d == 6 {
        s.append("6");
        proof {
            reveal_strlit("6");
            assert(old(s)@ + "6"@ =~= old(s)@ + seq![hex_digit_char(d)]);
        }
    } else if d == 7 {
        s.append("7");
        proof {
            reveal_strlit("7");
            assert(old(s)@ + "7"@ =~= old(s)@ + seq![hex_digit_char(d)]);
        }
    } else if d == 8 {
        s.append("8");
        proof {
            reveal_strlit("8");
            assert(old(s)@ + "8"@ =~= old(s)@ + seq![hex_digit_char(d)]);
        }
    } else if d == 9 {
        s.append("9");
        proof {
            reveal_strlit("9");
            assert(old(s)@ + "9"@ =~= old(s)@ + seq![hex_digit_char(d)]);
        }
    } else if d == 10 {
        s.append("a");
        proof {
            reveal_strlit("a");
            assert(old(s)@ + "a"@ =~= old(s)@ + seq![hex_digit_char(d)]);
        }
    } else if d == 11 {
        s.append("b");
        proof {
            reveal_strlit("b");
            assert(old(s)@ + "b"@ =~= old(s)@ + seq![hex_digit_char(d)]);
        }
    } else if d == 12 {
        s.append("c");
        proof {
            reveal_strlit("c");
            assert(old(s)@ + "c"@ =~= old(s)@ + seq![hex_digit_char(d)]);
        }
    } else if d == 13 {
        s.append("d");
        proof {
            reveal_strlit("d");
            assert(old(s)@ + "d"@ =~= old(s)@ + seq![hex_digit_char(d)]);
        }
    } else if d == 14 {
        s.append("e");
        proof {
            reveal_strlit("e");
            assert(old(s)@ + "e"@ =~= old(s)@ + seq![hex_digit_char(d)]);
        }
    } else {
        s.append("f");
        proof {
            reveal_strlit("f");
            assert(old(s)@ + "f"@ =~= old(s)@ + seq![hex_digit_char(d)]);
        }
    }
}

/// Render `n` in lowercase hexadecimal.
pub fn hex_string(n: u64) -> (r: String)
    ensures
        r@ == spec_hex(n),
    decreases n,
{
    if n < 16 {
        let mut s = String::new();
        append_hex_digit(&mut s, n);
        proof {
            assert(s@ =~= spec_hex(n));
        }
        s
    } else {
        let mut s = hex_string(n / 16);
        append_hex_digit(&mut s, n % 16);
        proof {
            assert(s@ =~= spec_hex(n));
        }
        s
    }
}

/// How one argument is rendered: a resolved string quoted, a raw machine
/// word in hexadecimal.
pub open spec fn spec_render_arg(a: TraceArg) -> Seq<char> {
    match a {
        TraceArg::Text(s) => "\""@ + s@ + "\""@,
        TraceArg::Raw(v) => spec_hex(v),
    }
}

pub fn render_arg(a: &TraceArg) -> (r: String)
    ensures
        r@ == spec_render_arg(*a),
{
    match a {
        TraceArg::Text(s) => {
            let mut out = String::new();
            out.append("\"");
            out.append(s.as_str());
            out.append("\"");
            proof {
                assert(out@ =~= spec_render_arg(*a));
            }
            out
        },
        TraceArg::Raw(v) => hex_string(*v),
    }
}

/// The rendered arguments in original order, separated by `", "`.
pub open spec fn spec_join_args(args: Seq<TraceArg>) -> Seq<char>
    decreases args.len(),
{
    if args.len() == 0 {
        Seq::empty()
    } else if args.len() == 1 {
        spec_render_arg(args[0])
    } else {
        spec_join_args(args.drop_last()) + ", "@ + spec_render_arg(args.last())
    }
}

pub fn render_args(args: &Vec<TraceArg>) -> (r: String)
    ensures
        r@ == spec_join_args(args@),
{
    let mut out = String::new();
    let mut i: usize = 0;
    while i < args.len()
        invariant
            0 <= i <= args@.len(),
            out@ == spec_join_args(args@.subrange(0, i as int)),
        decreases args@.len() - i,
    {
        if i > 0 {
            out.append(", ");
        }
        let piece = render_arg(&args[i]);
        out.append(piece.as_str());
        proof {
            let step = args@.subrange(0, i + 1);
            assert(step.drop_last() =~= args@.subrange(0, i as int));
            assert(step.last() == args@[i as int]);
            if i == 0 {
                assert(out@ =~= spec_join_args(step));
            } else {
                assert(out@ =~= spec_join_args(step));
            }
        }
        i = i + 1;
    }
    proof {
        assert(args@.subrange(0, args@.len() as int) =~= args@);
    }
    out
}

/// The full output line of a record: `name(arg1, arg2, ...) = retval`.
pub open spec fn spec_record_line(rec: TraceRecord) -> Seq<char> {
    rec.name@ + "("@ + spec_join_args(rec.args@) + ") = "@ + spec_hex(rec.return_value)
}

/// Render one record as its output line.
pub fn render_record(rec: &TraceRecord) -> (r: String)
    ensures
        r@ == spec_record_line(*rec),
{
    let mut out = String::new();
    out.append(rec.name.as_str());
    out.append("(");
    let joined = render_args(&rec.args);
    out.append(joined.as_str());
    out.append(") = ");
    let ret = hex_string(rec.return_value);
    out.append(ret.as_str());
    proof {
        assert(out@ =~= spec_record_line(*rec));
    }
    out
}

} // verus!
