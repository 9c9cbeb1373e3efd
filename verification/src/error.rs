use crate::scalar::{dec_digits, push_dec};
use vstd::prelude::*;
use vstd::string::StringExecFns;

verus! {

/// A shape violation found while building a matrix or converting one to a
/// vector. Construction-time shape errors are never auto-repaired: the
/// offending call reports one of these instead of padding or truncating.
#[derive(PartialEq, Eq, Debug, Clone, Copy)]
pub enum ShapeError {
    /// A column or row list whose members differ in length.
    JaggedShape,
    /// A matrix with more than one row and more than one column cannot be
    /// read as a vector.
    ShapeMismatch,
    /// A flat element list whose length is not `rows * columns`.
    WrongCount { rows: usize, columns: usize, actual: usize },
    /// A flat element list whose length is not a perfect square.
    NotSquare { actual: usize },
}

impl ShapeError {
    /// The diagnostic message: it names the operation and the operand kind,
    /// and for the count errors the expected and actual element counts.
    pub open spec fn text_spec(&self) -> Seq<char> {
        match *self {
            ShapeError::JaggedShape => "Cannot make Matrix from a jagged Vec"@,
            ShapeError::ShapeMismatch => "Cannot convert 2D matrix to vector"@,
            ShapeError::WrongCount { rows, columns, actual } => "A "@ + dec_digits(
                rows as nat,
            ) + "x"@ + dec_digits(columns as nat) + " matrix must have "@ + dec_digits(
                (rows * columns) as nat,
            ) + " elements, received Vec with "@ + dec_digits(actual as nat) + " elements"@,
            ShapeError::NotSquare { actual } => "A square matrix can only be made from a Vec whose length is a perfect square, received length "@
                + dec_digits(actual as nat),
        }
    }

    /// Renders the diagnostic message.
    pub fn text(&self) -> (r: String)
        ensures
            r@ == self.text_spec(),
    {
        let mut s = String::new();
        match *self {
            ShapeError::JaggedShape => {
                s.append("Cannot make Matrix from a jagged Vec");
            },
            ShapeError::ShapeMismatch => {
                s.append("Cannot convert 2D matrix to vector");
            },
            ShapeError::WrongCount { rows, columns, actual } => {
                s.append("A ");
                push_dec(&mut s, rows as u128);
                s.append("x");
                push_dec(&mut s, columns as u128);
                s.append(" matrix must have ");
                proof {
                    assert((rows as int) * (columns as int) <= 0xffff_ffff_ffff_ffff
                        * 0xffff_ffff_ffff_ffff) by (nonlinear_arith)
                        requires
                            0 <= rows as int <= 0xffff_ffff_ffff_ffff,
                            0 <= columns as int <= 0xffff_ffff_ffff_ffff,
                    ;
                }
                push_dec(&mut s, (rows as u128) * (columns as u128));
                s.append(" elements, received Vec with ");
                push_dec(&mut s, actual as u128);
                s.append(" elements");
            },
            ShapeError::NotSquare { actual } => {
                s.append(
                    "A square matrix can only be made from a Vec whose length is a perfect square, received length ",
                );
                push_dec(&mut s, actual as u128);
            },
        }
        proof {
            assert(s@ =~= self.text_spec());
        }
        s
    }
}

} // verus!
