//! The typed failures of the pipeline. Every stage fails fast with one of
//! these; none of them is fatal to the caller.

use vstd::prelude::*;

verus! {

/// A failure of one pipeline stage.
///
/// `MarkerCount` carries the number of markers actually found, so that the
/// caller can report, for example, that 3 markers were found instead of 4.
#[derive(Clone, Copy, PartialEq, Eq, Structural, Debug)]
pub enum PipelineError {
    /// The image-decoding collaborator could not produce a pixel buffer.
    ImageLoad,
    /// The corner resolver saw a marker count other than exactly four.
    MarkerCount { found: usize },
    /// Exactly four markers were found but their IDs are not {0, 1, 2, 3}.
    MarkerIdentity,
    /// The four-point correspondence produced a non-invertible transform.
    DegenerateGeometry,
    /// Rectification was attempted before any source image existed.
    NoImageLoaded,
}

/// The character of one decimal digit.
pub open spec fn digit_char(d: int) -> char {
    if d == 0 {
        '0'
    } else if d == 1 {
        '1'
    } else if d == 2 {
        '2'
    } else if d == 3 {
        '3'
    } else if d == 4 {
        '4'
    } else if d == 5 {
        '5'
    } else if d == 6 {
        '6'
    } else if d == 7 {
        '7'
    } else if d == 8 {
        '8'
    } else {
        '9'
    }
}

/// The decimal rendering of a non-negative number, most significant digit
/// first, without leading zeros.
pub open spec fn dec_str(n: int) -> Seq<char>
    decreases n,
{
    if n < 10 {
        seq![digit_char(n)]
    } else {
        dec_str(n / 10) + seq![digit_char(n % 10)]
    }
}

/// What each failure reads as; `MarkerCount` reports the count actually
/// seen, in decimal.
pub open spec fn spec_message(e: PipelineError) -> Seq<char> {
    match e {
        PipelineError::ImageLoad => "the image could not be decoded"@,
        PipelineError::MarkerCount { found } => dec_str(found as int)
            + " markers found instead of 4"@,
        PipelineError::MarkerIdentity => "4 markers found, but their IDs are not exactly 0, 1, 2 and 3"@,
        PipelineError::DegenerateGeometry => "the four corner points are collinear; no perspective transform exists"@,
        PipelineError::NoImageLoaded => "no image was loaded"@,
    }
}

/// One decimal digit as text.
fn digit_str(d: usize) -> (s: &'static str)
    requires
        d < 10,
    ensures
        s@ == seq![digit_char(d as int)],
{
    let s = match d {
        0 => "0",
        1 => "1",
        2 => "2",
        3 => "3",
        4 => "4",
        5 => "5",
        6 => "6",
        7 => "7",
        8 => "8",
        _ => "9",
    };
    proof {
        reveal_strlit("0");
        reveal_strlit("1");
        reveal_strlit("2");
        reveal_strlit("3");
        reveal_strlit("4");
        reveal_strlit("5");
        reveal_strlit("6");
        reveal_strlit("7");
        reveal_strlit("8");
        reveal_strlit("9");
        assert(s@ =~= seq![digit_char(d as int)]);
    }
    s
}

/// Appends the decimal rendering of `n`.
fn push_decimal(n: usize, out: &mut String)
    ensures
        final(out)@ == old(out)@ + dec_str(n as int),
    decreases n,
{
    if n >= 10 {
        push_decimal(n / 10, out);
        out.append(digit_str(n % 10));
        proof {
            assert(final(out)@ =~= old(out)@ + dec_str(n as int));
        }
    } else {
        out.append(digit_str(n));
        proof {
            assert(final(out)@ =~= old(out)@ + dec_str(n as int));
        }
    }
}

impl PipelineError {
    /// Renders the failure for the caller's display surface, exactly as
    /// `spec_message` says; a wrong marker count is reported with the
    /// count actually seen.
    pub fn message(&self) -> (s: String)
        ensures
            s@ == spec_message(*self),
    {
        match self {
            PipelineError::ImageLoad => String::from_str("the image could not be decoded"),
            PipelineError::MarkerCount { found } => {
                let mut s = String::new();
                push_decimal(*found, &mut s);
                s.append(" markers found instead of 4");
                proof {
                    assert(s@ =~= spec_message(*self));
                }
                s
            },
            PipelineError::MarkerIdentity => String::from_str(
                "4 markers found, but their IDs are not exactly 0, 1, 2 and 3",
            ),
            PipelineError::DegenerateGeometry => String::from_str(
                "the four corner points are collinear; no perspective transform exists",
            ),
            PipelineError::NoImageLoaded => String::from_str("no image was loaded"),
        }
    }
}

} // verus!
