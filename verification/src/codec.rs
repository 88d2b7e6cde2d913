//! The textual command codec boundary.
//!
//! Building and parsing the modem's line-oriented command protocol is done
//! by the `at_commands` crate; the two functions here are the only places
//! where the library crosses into it. Each is a thin wrapper whose contract
//! states what the crate's builder and parser produce.

use vstd::prelude::*;
use vstd::string::StringSliceAdditionalSpecFns;

use crate::error::Error;
use crate::lte::is_digit;

verus! {

/// Whether a byte can stand inside an integer parameter of a response:
/// a decimal digit or a sign.
pub open spec fn is_int_char(b: u8) -> bool {
    is_digit(b) || b == 43 || b == 45
}

/// The first index at or after `i` that does not hold an integer
/// character (or the end of the bytes).
pub open spec fn int_run_end(b: Seq<u8>, i: int) -> int
    decreases b.len() - i,
{
    if 0 <= i < b.len() && is_int_char(b[i]) {
        int_run_end(b, i + 1)
    } else {
        i
    }
}

/// Whether every run of integer characters in a response line is at most
/// nine bytes long. The response parser accumulates integer parameters
/// in 32-bit arithmetic, which nine decimal digits can never overflow;
/// a longer run could, so such lines are kept away from the parser.
pub open spec fn int_runs_short(b: Seq<u8>) -> bool {
    forall|i: int| 0 <= i < b.len() ==> int_run_end(b, i) - i <= 9
}

/// A position inside a run of integer characters sees the same run end
/// as the run's start.
proof fn lemma_int_run_mid(b: Seq<u8>, i: int, j: int)
    requires
        0 <= i <= j <= int_run_end(b, i),
    ensures
        int_run_end(b, j) == int_run_end(b, i),
    decreases j - i,
{
    if i < j {
        lemma_int_run_mid(b, i + 1, j);
    }
}

/// Checks that every run of integer characters is at most nine bytes
/// long, so the line is safe to hand to the response parser.
#[verifier::loop_isolation(false)]
pub fn check_int_runs(b: &[u8]) -> (r: bool)
    ensures
        r == int_runs_short(b@),
{
    let mut i: usize = 0;
    while i < b.len()
        invariant
            0 <= i <= b@.len(),
            forall|k: int| 0 <= k < i ==> int_run_end(b@, k) - k <= 9,
        decreases b@.len() - i,
    {
        let mut e = i;
        while e < b.len() && (48 <= b[e] && b[e] <= 57 || b[e] == 43 || b[e] == 45)
            invariant
                i <= e <= b@.len(),
                int_run_end(b@, i as int) == int_run_end(b@, e as int),
            decreases b@.len() - e,
        {
            e = e + 1;
        }
        proof {
            assert(int_run_end(b@, e as int) == e);
        }
        if e - i > 9 {
            proof {
                assert(!(int_run_end(b@, i as int) - i <= 9));
            }
            return false;
        }
        proof {
            assert forall|k: int| i <= k <= e implies int_run_end(b@, k) - k <= 9 by {
                lemma_int_run_mid(b@, i as int, k);
            }
        }
        if e == b.len() {
            return true;
        }
        i = e + 1;
    }
    true
}

/// The wire bytes of the `%XSYSTEMMODE` set command with its four
/// single-digit integer parameters: `AT%XSYSTEMMODE=<a>,<b>,<c>,<d>\r\n`.
/// The leading numbers are the ASCII codes of `AT%XSYSTEMMODE=`; 48 is
/// `'0'`, 44 is `','`, and 13, 10 are `'\r'`, `'\n'`.
pub open spec fn system_mode_command_bytes(a: u8, b: u8, c: u8, d: u8) -> Seq<u8> {
    seq![65u8, 84u8, 37u8, 88u8, 83u8, 89u8, 83u8, 84u8, 69u8, 77u8, 77u8, 79u8, 68u8, 69u8, 61u8]
        + seq![
        (48 + a) as u8,
        44u8,
        (48 + b) as u8,
        44u8,
        (48 + c) as u8,
        44u8,
        (48 + d) as u8,
    ] + seq![13u8, 10u8]
}

/// Relies on `at_commands::builder::CommandBuilder`: `create_set` with the
/// `AT` prefix, `named("%XSYSTEMMODE")`, four `with_int_parameter` calls
/// and `finish` produce exactly `AT%XSYSTEMMODE=<a>,<b>,<c>,<d>\r\n` (each
/// parameter a single decimal digit, the trailing comma dropped by
/// `finish`), and always succeed because the 24-byte command fits the
/// scratch buffer.
#[verifier::external_body]
pub fn build_system_mode_command(a: u8, b: u8, c: u8, d: u8) -> (r: Vec<u8>)
    requires
        a <= 9,
        b <= 9,
        c <= 9,
        d <= 9,
    ensures
        r@ == system_mode_command_bytes(a, b, c, d),
{
    let mut buffer = [0u8; 32];
    let command = at_commands::builder::CommandBuilder::create_set(&mut buffer, true)
        .named("%XSYSTEMMODE")
        .with_int_parameter(a)
        .with_int_parameter(b)
        .with_int_parameter(c)
        .with_int_parameter(d)
        .finish()
        .expect("a four-digit set command always fits the scratch buffer");
    command.to_vec()
}

/// What the registration-status response parser extracts from a line:
/// the two integer fields of `+CEREG: <n>,<stat>`, or nothing when the
/// line does not have that shape.
pub uninterp spec fn cereg_fields(line: Seq<char>) -> Option<(int, int)>;

/// Relies on `at_commands::parser::CommandParser`: `parse` with the
/// identifier `+CEREG:` followed by two integer parameters yields the two
/// fields when the line matches, and a parse error otherwise. The parser
/// accumulates each integer parameter in 32-bit arithmetic and admits
/// fields of up to eleven characters, so a long enough digit run would
/// overflow it; the precondition keeps every integer run at nine bytes or
/// fewer, where the accumulation and its final negation always fit and
/// the call cannot panic.
#[verifier::external_body]
pub fn parse_cereg(line: &str) -> (r: Result<(i32, i32), Error>)
    requires
        int_runs_short(line.spec_bytes()),
    ensures
        match r {
            Ok(f) => cereg_fields(line@) == Some((f.0 as int, f.1 as int)),
            Err(e) => cereg_fields(line@) is None && e == Error::AtParsing,
        },
{
    match at_commands::parser::CommandParser::parse(line.as_bytes())
        .expect_identifier(b"+CEREG:")
        .expect_int_parameter()
        .expect_int_parameter()
        .finish()
    {
        Ok((n, stat)) => Ok((n, stat)),
        Err(_) => Err(Error::AtParsing),
    }
}

} // verus!
