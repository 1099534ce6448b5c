//! The project data that one poll cycle works on, the monitor's error
//! taxonomy, and the text shown for a project's coverage change.

use vstd::prelude::*;

verus! {

/// One project's latest coverage change, immutable once fetched.
#[derive(Clone, Debug)]
pub struct ProjectDiff {
    /// The project's name as the coverage API reports it.
    pub project_name: String,
    /// Signed coverage delta; negative means a regression.
    pub covered: i64,
}

/// The classified failures a poll cycle can run into.
#[derive(Clone, Copy, PartialEq, Eq, Structural, Debug)]
pub enum CoverageMonError {
    /// Transport, connect or send failure while talking to the coverage API.
    DataLoadError,
    /// Failure while reading a response body.
    IoError,
    /// Malformed or unexpectedly shaped JSON in a response.
    JsonError,
}

/// The decimal digit character for `d`, which must be in `0..10`.
pub open spec fn spec_digit(d: int) -> char {
    if d == 0 {
        '0'
    } else if d == 1 {
        '1'
    } else if d == 2 {
        '2'
    } else if d == 3 {
        '3'
    } else if d == 4 {
        '4'
    } else if d == 5 {
        '5'
    } else if d == 6 {
        '6'
    } else if d == 7 {
        '7'
    } else if d == 8 {
        '8'
    } else {
        '9'
    }
}

/// The decimal digits of `n`, most significant first, without a sign.
pub open spec fn spec_dec(n: nat) -> Seq<char>
    decreases n,
{
    if n < 10 {
        seq![spec_digit(n as int)]
    } else {
        spec_dec(n / 10).push(spec_digit((n % 10) as int))
    }
}

/// The decimal digits of `v` behind an explicit sign: `+` for zero or
/// positive values, `-` for negative ones.
pub open spec fn spec_signed_dec(v: int) -> Seq<char> {
    if v >= 0 {
        seq!['+'] + spec_dec(v as nat)
    } else {
        seq!['-'] + spec_dec((-v) as nat)
    }
}

/// The line shown on the character display for a coverage delta `v`.
pub open spec fn spec_coverage_line(v: int) -> Seq<char> {
    spec_signed_dec(v) + " covered"@
}

/// Appends the decimal digits of `n`, most significant first, to `out`.
fn push_decimal(n: u64, out: &mut String)
    ensures
        final(out)@ == old(out)@ + spec_dec(n as nat),
    decreases n,
{
    if n >= 10 {
        push_decimal(n / 10, out);
    }
    let d = n % 10;
    proof {
        reveal_strlit("0");
        reveal_strlit("1");
        reveal_strlit("2");
        reveal_strlit("3");
        reveal_strlit("4");
        reveal_strlit("5");
        reveal_strlit("6");
        reveal_strlit("7");
        reveal_strlit("8");
        reveal_strlit("9");
    }
    match d {
        0 => out.append("0"),
        1 => out.append("1"),
        2 => out.append("2"),
        3 => out.append("3"),
        4 => out.append("4"),
        5 => out.append("5"),
        6 => out.append("6"),
        7 => out.append("7"),
        8 => out.append("8"),
        _ => out.append("9"),
    }
    proof {
        assert(out@ =~= old(out)@ + spec_dec(n as nat));
    }
}

/// The text shown on the display's second row for a project's coverage
/// change: the signed delta followed by `" covered"`.
pub fn display_coverage(diff: &ProjectDiff) -> (r: String)
    ensures
        r@ == spec_coverage_line(diff.covered as int),
{
    let mut out = String::new();
    proof {
        reveal_strlit("+");
        reveal_strlit("-");
    }
    let mag: u64;
    if diff.covered >= 0 {
        out.append("+");
        mag = diff.covered as u64;
    } else {
        out.append("-");
        mag = (-(diff.covered as i128)) as u64;
    }
    push_decimal(mag, &mut out);
    out.append(" covered");
    proof {
        assert(out@ =~= spec_coverage_line(diff.covered as int));
    }
    out
}

} // verus!
