use crate::scalar::Numeric;
use vstd::prelude::*;
use vstd::string::StringExecFns;

verus! {

/// A point in the plane: a two-field arithmetic convenience wrapper over
/// the same scalar capability set as the vector and matrix types.
#[derive(PartialEq, Eq, Debug, Clone, Copy)]
pub struct Point<T> {
    pub x: T,
    pub y: T,
}

impl<T: Numeric> Point<T> {
    /// Component-wise sum.
    pub fn add(self, other: Self) -> (r: Self)
        ensures
            r.x == self.x.add_spec(other.x),
            r.y == self.y.add_spec(other.y),
    {
        Point { x: self.x.add(other.x), y: self.y.add(other.y) }
    }

    /// Component-wise difference.
    pub fn sub(self, other: Self) -> (r: Self)
        ensures
            r.x == self.x.sub_spec(other.x),
            r.y == self.y.sub_spec(other.y),
    {
        Point { x: self.x.sub(other.x), y: self.y.sub(other.y) }
    }

    /// Both components multiplied by the shared scalar `k`.
    pub fn mul(self, k: T) -> (r: Self)
        ensures
            r.x == self.x.mul_spec(k),
            r.y == self.y.mul_spec(k),
    {
        Point { x: self.x.mul(k), y: self.y.mul(k) }
    }

    /// Renders the point as `(x, y)`.
    pub fn display(&self) -> (r: String)
        ensures
            r@ == seq!['('] + self.x.text_spec() + seq![',', ' '] + self.y.text_spec() + seq![')'],
    {
        proof {
            reveal_strlit("(");
            reveal_strlit(", ");
            reveal_strlit(")");
        }
        let mut s = String::new();
        s.append("(");
        let tx: String = self.x.text();
        s.append(tx.as_str());
        s.append(", ");
        let ty: String = self.y.text();
        s.append(ty.as_str());
        s.append(")");
        proof {
            assert(s@ =~= seq!['('] + self.x.text_spec() + seq![',', ' '] + self.y.text_spec()
                + seq![')']);
        }
        s
    }
}

} // verus!
