//! Rendering of gap records as diagnostic lines, one line per gap.

use vstd::prelude::*;

verus! {

use vstd::string::{StrSliceExecFns, StringExecFns};
use crate::report::{Gap, GapModel, LayoutReport};

/// The character for one decimal digit.
pub open spec fn decimal_digit(d: nat) -> char
    recommends
        d < 10,
{
    ((d + 48) as u8) as char
}

/// The decimal numeral of `n`, most significant digit first.
pub open spec fn decimal_digits(n: nat) -> Seq<char>
    decreases n,
{
    if n < 10 {
        seq![decimal_digit(n)]
    } else {
        decimal_digits(n / 10).push(decimal_digit(n % 10))
    }
}

/// The diagnostic line for one gap: its length in bytes and, for an
/// inter-field gap, the field it precedes.
pub open spec fn gap_message(g: GapModel) -> Seq<char> {
    match g.before_field {
        Option::Some(name) => decimal_digits(g.length) + "-byte padding before \""@ + name
            + "\""@,
        Option::None => decimal_digits(g.length) + "-byte padding at the end"@,
    }
}

fn digit_str(d: usize) -> (r: &'static str)
    requires
        d < 10,
    ensures
        r@ == seq![decimal_digit(d as nat)],
{
    proof {
        reveal_strlit("0");
        reveal_strlit("1");
        reveal_strlit("2");
        reveal_strlit("3");
        reveal_strlit("4");
        reveal_strlit("5");
        reveal_strlit("6");
        reveal_strlit("7");
        reveal_strlit("8");
        reveal_strlit("9");
    }
    match d {
        0 => "0",
        1 => "1",
        2 => "2",
        3 => "3",
        4 => "4",
        5 => "5",
        6 => "6",
        7 => "7",
        8 => "8",
        _ => "9",
    }
}

/// Writes `n` in decimal.
pub fn decimal_string(n: usize) -> (r: String)
    ensures
        r@ == decimal_digits(n as nat),
    decreases n,
{
    if n < 10 {
        digit_str(n).to_owned()
    } else {
        let mut s = decimal_string(n / 10);
        s.append(digit_str(n % 10));
        proof {
            assert(s@ =~= decimal_digits(n as nat));
        }
        s
    }
}

/// Renders one gap as its diagnostic line.
pub fn render_gap(g: &Gap) -> (r: String)
    ensures
        r@ == gap_message(g@),
{
    let mut s = decimal_string(g.length);
    match &g.before_field {
        Some(name) => {
            s.append("-byte padding before \"");
            s.append(name.as_str());
            s.append("\"");
            proof {
                assert(s@ =~= gap_message(g@));
            }
        },
        None => {
            s.append("-byte padding at the end");
        },
    }
    s
}

/// Renders a whole report: one diagnostic line per gap, in report order.
pub fn render_report(report: &LayoutReport) -> (lines: Vec<String>)
    ensures
        lines@.len() == report.gaps@.len(),
        forall|i: int| 0 <= i < lines@.len() ==> #[trigger] lines@[i]@ == gap_message(
            report@.gaps[i],
        ),
{
    let mut lines: Vec<String> = Vec::new();
    let mut i: usize = 0;
    while i < report.gaps.len()
        invariant
            i <= report.gaps.len(),
            lines@.len() == i,
            forall|j: int| 0 <= j < i ==> #[trigger] lines@[j]@ == gap_message(report@.gaps[j]),
        decreases report.gaps.len() - i,
    {
        lines.push(render_gap(&report.gaps[i]));
        i = i + 1;
    }
    lines
}

} // verus!
