//! The ways a delta extraction can fail.

use vstd::prelude::*;
use vstd::string::StringExecFns;

verus! {

/// Why no deltas were produced.
#[derive(Debug)]
pub enum DeltaError {
    /// The path does not name a PNG image.
    InvalidFormat { path: String },
    /// The path names no existing file.
    NotFound { path: String },
    /// The image could not be decoded.
    DecodeFailure { reason: String },
    /// The image and the mask differ in shape, given as (rows, columns).
    ShapeMismatch { image: (usize, usize), mask: (usize, usize) },
}

/// The character of a decimal digit.
pub open spec fn digit_char(d: nat) -> char {
    seq!['0', '1', '2', '3', '4', '5', '6', '7', '8', '9'][d as int]
}

/// The decimal digits of `n`, most significant first, without padding.
pub open spec fn decimal(n: nat) -> Seq<char>
    decreases n,
{
    if n < 10 {
        seq![digit_char(n)]
    } else {
        decimal(n / 10).push(digit_char(n % 10))
    }
}

/// A shape written as `[rows, columns]`.
pub open spec fn shape_text(shape: (usize, usize)) -> Seq<char> {
    "["@ + decimal(shape.0 as nat) + ", "@ + decimal(shape.1 as nat) + "]"@
}

/// The message that describes an error.
pub open spec fn message_text(e: DeltaError) -> Seq<char> {
    match e {
        DeltaError::InvalidFormat { path } => "Non-PNG input: "@ + path@,
        DeltaError::NotFound { path } => "Image path does not exist: "@ + path@,
        DeltaError::DecodeFailure { reason } => reason@,
        DeltaError::ShapeMismatch { image, mask } => "Shape mismatch: img="@ + shape_text(image)
            + ", mask="@ + shape_text(mask),
    }
}

/// Relies on `ToString` for `usize` (through its `Display`): the decimal digits
/// of `n`, without sign or padding.
#[verifier::external_body]
fn decimal_string(n: usize) -> (r: String)
    ensures
        r@ == decimal(n as nat),
{
    n.to_string()
}

/// Appends `[rows, columns]` to `s`.
fn append_shape(s: &mut String, shape: (usize, usize))
    ensures
        final(s)@ == old(s)@ + shape_text(shape),
{
    let rows = decimal_string(shape.0);
    let cols = decimal_string(shape.1);
    s.append("[");
    s.append(rows.as_str());
    s.append(", ");
    s.append(cols.as_str());
    s.append("]");
    assert(final(s)@ =~= old(s)@ + shape_text(shape));
}

impl DeltaError {
    /// A sentence that says what went wrong, naming the path or both shapes.
    pub fn message(&self) -> (r: String)
        ensures
            r@ == message_text(*self),
    {
        match self {
            DeltaError::InvalidFormat { path } => {
                let mut s = String::from_str("Non-PNG input: ");
                s.append(path.as_str());
                s
            },
            DeltaError::NotFound { path } => {
                let mut s = String::from_str("Image path does not exist: ");
                s.append(path.as_str());
                s
            },
            DeltaError::DecodeFailure { reason } => reason.clone(),
            DeltaError::ShapeMismatch { image, mask } => {
                let mut s = String::from_str("Shape mismatch: img=");
                append_shape(&mut s, *image);
                s.append(", mask=");
                append_shape(&mut s, *mask);
                assert(s@ =~= message_text(*self));
                s
            },
        }
    }
}

} // verus!
