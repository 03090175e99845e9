//! Version reporting: composes the lines the runtime logs at startup about
//! its own version and the version of the kafka client library it links.
//! Reading the clock-free pieces of those lines is plain computation and is
//! done here; querying the library and writing the lines out is I/O and stays
//! with the caller.

use vstd::prelude::*;
use vstd::string::StringExecFns;

verus! {

/// The hexadecimal digit of a nibble.
pub open spec fn spec_hex_digit(n: u8) -> char {
    if n == 0 {
        '0'
    } else if n == 1 {
        '1'
    } else if n == 2 {
        '2'
    } else if n == 3 {
        '3'
    } else if n == 4 {
        '4'
    } else if n == 5 {
        '5'
    } else if n == 6 {
        '6'
    } else if n == 7 {
        '7'
    } else if n == 8 {
        '8'
    } else if n == 9 {
        '9'
    } else if n == 10 {
        'a'
    } else if n == 11 {
        'b'
    } else if n == 12 {
        'c'
    } else if n == 13 {
        'd'
    } else if n == 14 {
        'e'
    } else {
        'f'
    }
}

/// The hexadecimal digit of a nibble, as a one-character string.
fn hex_digit(n: u8) -> (s: &'static str)
    requires
        n < 16,
    ensures
        s@ == seq![spec_hex_digit(n)],
{
    if n == 0 {
        proof {
            reveal_strlit("0");
            assert("0"@ =~= seq![spec_hex_digit(n)]);
        }
        "0"
    } else if n == 1 {
        proof {
            reveal_strlit("1");
            assert("1"@ =~= seq![spec_hex_digit(n)]);
        }
        "1"
    } else if n == 2 {
        proof {
            reveal_strlit("2");
            assert("2"@ =~= seq![spec_hex_digit(n)]);
        }
        "2"
    } else if n == 3 {
        proof {
            reveal_strlit("3");
            assert("3"@ =~= seq![spec_hex_digit(n)]);
        }
        "3"
    } else if n == 4 {
        proof {
            reveal_strlit("4");
            assert("4"@ =~= seq![spec_hex_digit(n)]);
        }
        "4"
    } else if n == 5 {
        proof {
            reveal_strlit("5");
            assert("5"@ =~= seq![spec_hex_digit(n)]);
        }
        "5"
    } else if n == 6 {
        proof {
            reveal_strlit("6");
            assert("6"@ =~= seq![spec_hex_digit(n)]);
        }
        "6"
    } else if n == 7 {
        proof {
            reveal_strlit("7");
            assert("7"@ =~= seq![spec_hex_digit(n)]);
        }
        "7"
    } else if n == 8 {
        proof {
            reveal_strlit("8");
            assert("8"@ =~= seq![spec_hex_digit(n)]);
        }
        "8"
    } else if n == 9 {
        proof {
            reveal_strlit("9");
            assert("9"@ =~= seq![spec_hex_digit(n)]);
        }
        "9"
    } else if n == 10 {
        proof {
            reveal_strlit("a");
            assert("a"@ =~= seq![spec_hex_digit(n)]);
        }
        "a"
    } else if n == 11 {
        proof {
            reveal_strlit("b");
            assert("b"@ =~= seq![spec_hex_digit(n)]);
        }
        "b"
    } else if n == 12 {
        proof {
            reveal_strlit("c");
            assert("c"@ =~= seq![spec_hex_digit(n)]);
        }
        "c"
    } else if n == 13 {
        proof {
            reveal_strlit("d");
            assert("d"@ =~= seq![spec_hex_digit(n)]);
        }
        "d"
    } else if n == 14 {
        proof {
            reveal_strlit("e");
            assert("e"@ =~= seq![spec_hex_digit(n)]);
        }
        "e"
    } else {
        proof {
            reveal_strlit("f");
            assert("f"@ =~= seq![spec_hex_digit(n)]);
        }
        "f"
    }
}

/// The eight hexadecimal digits of a 32-bit value, most significant first.
pub open spec fn spec_hex8(n: u32) -> Seq<char> {
    seq![
        spec_hex_digit(((n >> 28) & 0xf) as u8),
        spec_hex_digit(((n >> 24) & 0xf) as u8),
        spec_hex_digit(((n >> 20) & 0xf) as u8),
        spec_hex_digit(((n >> 16) & 0xf) as u8),
        spec_hex_digit(((n >> 12) & 0xf) as u8),
        spec_hex_digit(((n >> 8) & 0xf) as u8),
        spec_hex_digit(((n >> 4) & 0xf) as u8),
        spec_hex_digit((n & 0xf) as u8),
    ]
}

/// Formats a 32-bit value as eight hexadecimal digits.
pub fn hex8(n: u32) -> (r: String)
    ensures
        r@ == spec_hex8(n),
{
    let mut r = String::new();
    proof {
        assert((n >> 28) & 0xf < 16 && (n >> 24) & 0xf < 16 && (n >> 20) & 0xf < 16 && (n >> 16)
            & 0xf < 16 && (n >> 12) & 0xf < 16 && (n >> 8) & 0xf < 16 && (n >> 4) & 0xf < 16 && n
            & 0xf < 16) by (bit_vector);
    }
    r.append(hex_digit(((n >> 28) & 0xf) as u8));
    r.append(hex_digit(((n >> 24) & 0xf) as u8));
    r.append(hex_digit(((n >> 20) & 0xf) as u8));
    r.append(hex_digit(((n >> 16) & 0xf) as u8));
    r.append(hex_digit(((n >> 12) & 0xf) as u8));
    r.append(hex_digit(((n >> 8) & 0xf) as u8));
    r.append(hex_digit(((n >> 4) & 0xf) as u8));
    r.append(hex_digit((n & 0xf) as u8));
    proof {
        assert(r@ =~= spec_hex8(n));
    }
    r
}

/// The line reporting the runtime's own version.
pub open spec fn spec_version_line(version: Seq<char>, debug: bool) -> Seq<char> {
    "tremor version: "@ + version + (if debug {
        " (DEBUG)"@
    } else {
        Seq::empty()
    })
}

/// The line reporting the linked kafka client library's version pair.
pub open spec fn spec_rdkafka_line(version_n: u32, version_s: Seq<char>) -> Seq<char> {
    "rd_kafka version: 0x"@ + spec_hex8(version_n) + ", "@ + version_s
}

/// Composes the two version lines to log: the runtime version, marked for a
/// debug build, and the kafka client library's numeric and string version.
/// The caller queries the library for its version pair and writes the lines
/// to its log.
pub fn log(version: &str, debug: bool, rdkafka_version_n: u32, rdkafka_version_s: &str) -> (lines:
    Vec<String>)
    ensures
        lines@.len() == 2,
        lines@[0]@ == spec_version_line(version@, debug),
        lines@[1]@ == spec_rdkafka_line(rdkafka_version_n, rdkafka_version_s@),
{
    let mut first = "tremor version: ".to_owned();
    first.append(version);
    if debug {
        first.append(" (DEBUG)");
    }
    proof {
        assert(first@ =~= spec_version_line(version@, debug));
    }
    let mut second = "rd_kafka version: 0x".to_owned();
    let digits = hex8(rdkafka_version_n);
    second.append(digits.as_str());
    second.append(", ");
    second.append(rdkafka_version_s);
    proof {
        assert(second@ =~= spec_rdkafka_line(rdkafka_version_n, rdkafka_version_s@));
    }
    let mut lines: Vec<String> = Vec::new();
    lines.push(first);
    lines.push(second);
    lines
}

} // verus!
