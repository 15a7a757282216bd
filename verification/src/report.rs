use vstd::prelude::*;
use vstd::arithmetic::div_mod::{lemma_mod_bound, lemma_small_mod};
use vstd::string::StringExecFns;
use std::io::Write;

verus! {

/// The character for one decimal digit.
pub open spec fn digit_char(d: nat) -> char {
    if d == 0 {
        '0'
    } else if d == 1 {
        '1'
    } else if d == 2 {
        '2'
    } else if d == 3 {
        '3'
    } else if d == 4 {
        '4'
    } else if d == 5 {
        '5'
    } else if d == 6 {
        '6'
    } else if d == 7 {
        '7'
    } else if d == 8 {
        '8'
    } else {
        '9'
    }
}

/// The decimal rendering of a natural number, most significant digit first.
pub open spec fn spec_decimal(n: nat) -> Seq<char>
    decreases n,
{
    if n < 10 {
        seq![digit_char(n)]
    } else {
        spec_decimal(n / 10) + seq![digit_char(n % 10)]
    }
}

/// Fractional milliseconds rendered from a count of microseconds: whole
/// milliseconds, a dot, and exactly three fractional digits.
pub open spec fn spec_millis(micros: nat) -> Seq<char> {
    spec_decimal(micros / 1000) + seq!['.'] + spec_frac3(micros % 1000)
}

/// A sub-millisecond remainder, zero-padded to three digits.
pub open spec fn spec_frac3(f: nat) -> Seq<char> {
    if f < 10 {
        seq!['0', '0'] + spec_decimal(f)
    } else if f < 100 {
        seq!['0'] + spec_decimal(f)
    } else {
        spec_decimal(f)
    }
}

fn digit_str(d: u64) -> (r: &'static str)
    requires
        d < 10,
    ensures
        r@ == seq![digit_char(d as nat)],
{
    if d == 0 {
        proof {
            reveal_strlit("0");
            assert("0"@ =~= seq![digit_char(d as nat)]);
        }
        "0"
    } else if d == 1 {
        proof {
            reveal_strlit("1");
            assert("1"@ =~= seq![digit_char(d as nat)]);
        }
        "1"
    } else if d == 2 {
        proof {
            reveal_strlit("2");
            assert("2"@ =~= seq![digit_char(d as nat)]);
        }
        "2"
    } else if d == 3 {
        proof {
            reveal_strlit("3");
            assert("3"@ =~= seq![digit_char(d as nat)]);
        }
        "3"
    } else if d == 4 {
        proof {
            reveal_strlit("4");
            assert("4"@ =~= seq![digit_char(d as nat)]);
        }
        "4"
    } else if d == 5 {
        proof {
            reveal_strlit("5");
            assert("5"@ =~= seq![digit_char(d as nat)]);
        }
        "5"
    } else if d == 6 {
        proof {
            reveal_strlit("6");
            assert("6"@ =~= seq![digit_char(d as nat)]);
        }
        "6"
    } else if d == 7 {
        proof {
            reveal_strlit("7");
            assert("7"@ =~= seq![digit_char(d as nat)]);
        }
        "7"
    } else if d == 8 {
        proof {
            reveal_strlit("8");
            assert("8"@ =~= seq![digit_char(d as nat)]);
        }
        "8"
    } else {
        proof {
            reveal_strlit("9");
            assert("9"@ =~= seq![digit_char(d as nat)]);
        }
        "9"
    }
}

/// Appends the decimal rendering of `n`.
pub fn push_decimal(n: u64, out: &mut String)
    ensures
        final(out)@ == old(out)@ + spec_decimal(n as nat),
    decreases n,
{
    if n >= 10 {
        push_decimal(n / 10, out);
    }
    proof {
        lemma_mod_bound(n as int, 10);
        if n < 10 {
            lemma_small_mod(n as nat, 10);
        }
    }
    let d = digit_str(n % 10);
    out.append(d);
    proof {
        assert(final(out)@ =~= old(out)@ + spec_decimal(n as nat));
    }
}

/// The decimal rendering of `n` as a fresh string.
pub fn decimal_string(n: u64) -> (r: String)
    ensures
        r@ == spec_decimal(n as nat),
{
    let mut s = String::new();
    push_decimal(n, &mut s);
    proof {
        assert(s@ =~= spec_decimal(n as nat));
    }
    s
}

/// Appends `micros` rendered as fractional milliseconds.
pub fn push_millis(micros: u64, out: &mut String)
    ensures
        final(out)@ == old(out)@ + spec_millis(micros as nat),
{
    push_decimal(micros / 1000, out);
    out.append(".");
    let f = micros % 1000;
    proof {
        lemma_mod_bound(micros as int, 1000);
        reveal_strlit(".");
        reveal_strlit("00");
        reveal_strlit("0");
    }
    if f < 10 {
        out.append("00");
    } else if f < 100 {
        out.append("0");
    }
    push_decimal(f, out);
    proof {
        assert(final(out)@ =~= old(out)@ + spec_millis(micros as nat));
    }
}

/// One report line of the shape `<prefix><elapsed> ms for <count><suffix>`.
pub fn format_count_line(prefix: &str, micros: u64, count: u64, suffix: &str) -> (r: String)
    ensures
        r@ == prefix@ + spec_millis(micros as nat) + " ms for "@ + spec_decimal(count as nat)
            + suffix@,
{
    let mut s = prefix.to_owned();
    push_millis(micros, &mut s);
    s.append(" ms for ");
    push_decimal(count, &mut s);
    s.append(suffix);
    proof {
        assert(s@ =~= prefix@ + spec_millis(micros as nat) + " ms for "@ + spec_decimal(
            count as nat,
        ) + suffix@);
    }
    s
}

/// One report line of the shape `<prefix><elapsed><mid><k> = <n>`, used for the
/// power-of-two size descriptors.
pub fn format_pow2_line(prefix: &str, micros: u64, mid: &str, k: u32, n: u64) -> (r: String)
    ensures
        r@ == prefix@ + spec_millis(micros as nat) + mid@ + spec_decimal(k as nat) + " = "@
            + spec_decimal(n as nat),
{
    let mut s = prefix.to_owned();
    push_millis(micros, &mut s);
    s.append(mid);
    push_decimal(k as u64, &mut s);
    s.append(" = ");
    push_decimal(n, &mut s);
    proof {
        assert(s@ =~= prefix@ + spec_millis(micros as nat) + mid@ + spec_decimal(k as nat) + " = "@
            + spec_decimal(n as nat));
    }
    s
}

/// Relies on std::io's writeln to standard output, the host's log sink; the line
/// is written followed by a newline, and write errors are ignored.
#[verifier::external_body]
pub(crate) fn log_line(s: &String) {
    let _ = writeln!(std::io::stdout(), "{}", s);
}

} // verus!
