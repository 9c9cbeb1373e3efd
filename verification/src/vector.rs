use crate::error::ShapeError;
use crate::matrix::{row_view, Matrix};
use crate::scalar::Numeric;
use vstd::prelude::*;
use vstd::string::StringExecFns;

verus! {

/// The element of `s` at `i`, or the additive identity past either end: the
/// zero-extension reading that the lenient length policy is built on.
pub open spec fn elem_at<T: Numeric>(s: Seq<T>, i: int) -> T {
    if 0 <= i < s.len() {
        s[i]
    } else {
        T::zero_spec()
    }
}

/// The larger of two lengths.
pub open spec fn max_len(a: nat, b: nat) -> nat {
    if a >= b {
        a
    } else {
        b
    }
}

/// The element-wise sum of two sequences, the shorter operand read as
/// zero-extended to the longer operand's length.
pub open spec fn add_view<T: Numeric>(a: Seq<T>, b: Seq<T>) -> Seq<T> {
    Seq::new(max_len(a.len(), b.len()), |i: int| elem_at(a, i).add_spec(elem_at(b, i)))
}

/// The element-wise difference, with the same zero-extension reading.
pub open spec fn sub_view<T: Numeric>(a: Seq<T>, b: Seq<T>) -> Seq<T> {
    Seq::new(max_len(a.len(), b.len()), |i: int| elem_at(a, i).sub_spec(elem_at(b, i)))
}

/// The element-wise negation.
pub open spec fn neg_view<T: Numeric>(a: Seq<T>) -> Seq<T> {
    Seq::new(a.len(), |i: int| a[i].neg_spec())
}

/// Every element multiplied by the shared scalar `k`.
pub open spec fn scale_view<T: Numeric>(a: Seq<T>, k: T) -> Seq<T> {
    Seq::new(a.len(), |i: int| a[i].mul_spec(k))
}

/// The renderings of the elements of `s`, joined by `", "`.
pub open spec fn joined_text<T: Numeric>(s: Seq<T>) -> Seq<char>
    decreases s.len(),
{
    if s.len() == 0 {
        Seq::empty()
    } else if s.len() == 1 {
        s[0].text_spec()
    } else {
        joined_text(s.drop_last()) + seq![',', ' '] + s.last().text_spec()
    }
}

/// The rendering of a whole vector: the joined elements between `<` and `>`.
pub open spec fn vector_text<T: Numeric>(s: Seq<T>) -> Seq<char> {
    seq!['<'] + joined_text(s) + seq!['>']
}

/// An ordered, fixed-length sequence of scalars. The length is set at
/// construction and changed by no operation; all public element access is
/// 1-based, with index 1 denoting the first element.
#[derive(PartialEq, Debug, Clone)]
pub struct Vector<T> {
    v: Vec<T>,
}

impl<T> View for Vector<T> {
    type V = Seq<T>;

    closed spec fn view(&self) -> Seq<T> {
        self.v@
    }
}

impl<T> Vector<T> {
    /// Wraps an ordered sequence of scalars, without validation.
    pub fn from_vec(v: Vec<T>) -> (r: Self)
        ensures
            r@ == v@,
    {
        Vector { v }
    }

    /// The element count.
    pub fn len(&self) -> (n: usize)
        ensures
            n == self@.len(),
    {
        self.v.len()
    }

    /// A reference to the underlying storage.
    pub fn vec(&self) -> (r: &Vec<T>)
        ensures
            r@ == self@,
    {
        &self.v
    }

    /// Consumes the vector and yields the underlying storage.
    pub fn into_vec(self) -> (r: Vec<T>)
        ensures
            r@ == self@,
    {
        self.v
    }

    /// The element at the 1-based position `i`. A position outside
    /// `1 ..= len` is a caller error: verified callers are held to the
    /// precondition, and an unverified caller that breaks it hits the
    /// underlying bounds panic.
    pub fn index(&self, i: usize) -> (r: &T)
        requires
            1 <= i <= self@.len(),
        ensures
            *r == self@[i - 1],
    {
        &self.v[i - 1]
    }

    /// Replaces the element at the 1-based position `i`. A position outside
    /// `1 ..= len` is a caller error: verified callers are held to the
    /// precondition, and an unverified caller that breaks it hits the
    /// underlying bounds panic.
    pub fn index_mut(&mut self, i: usize, value: T)
        requires
            1 <= i <= old(self)@.len(),
        ensures
            final(self)@ == old(self)@.update(i - 1, value),
    {
        self.v[i - 1] = value;
    }
}

impl<T: Copy> Vector<T> {
    /// Copies an ordered sequence of scalars out of a slice.
    pub fn from_slice(a: &[T]) -> (r: Self)
        ensures
            r@ == a@,
    {
        let mut v: Vec<T> = Vec::new();
        let mut i: usize = 0;
        while i < a.len()
            invariant
                i <= a@.len(),
                v@ =~= a@.take(i as int),
            decreases a@.len() - i,
        {
            v.push(a[i]);
            i = i + 1;
            proof {
                assert(v@ =~= a@.take(i as int));
            }
        }
        proof {
            assert(a@.take(a@.len() as int) =~= a@);
        }
        Vector { v }
    }
}

impl<T: Numeric> Vector<T> {
    /// Element-wise sum of two borrowed vectors. Operands of different
    /// lengths do not fail: the shorter one is read as zero-extended to the
    /// longer one's length, so the result is as long as the longer operand.
    pub fn add_ref(&self, other: &Self) -> (r: Self)
        ensures
            r@ == add_view(self@, other@),
    {
        let n_a: usize = self.v.len();
        let n_b: usize = other.v.len();
        let n: usize = if n_a >= n_b {
            n_a
        } else {
            n_b
        };
        let mut v: Vec<T> = Vec::new();
        let mut i: usize = 0;
        while i < n
            invariant
                i <= n,
                n_a == self@.len(),
                n_b == other@.len(),
                n == max_len(self@.len(), other@.len()),
                v@.len() == i,
                forall|j: int| 0 <= j < i ==> v@[j] == add_view(self@, other@)[j],
            decreases n - i,
        {
            let x: T = if i < n_a {
                self.v[i]
            } else {
                T::zero()
            };
            let y: T = if i < n_b {
                other.v[i]
            } else {
                T::zero()
            };
            v.push(x.add(y));
            i = i + 1;
        }
        proof {
            assert(v@ =~= add_view(self@, other@));
        }
        Vector { v }
    }

    /// Element-wise sum, consuming both operands; same reconciliation of
    /// mismatched lengths as [`Vector::add_ref`].
    pub fn add(self, other: Self) -> (r: Self)
        ensures
            r@ == add_view(self@, other@),
    {
        self.add_ref(&other)
    }

    /// Element-wise difference of two borrowed vectors, with the same
    /// zero-extension of the shorter operand as [`Vector::add_ref`].
    pub fn sub_ref(&self, other: &Self) -> (r: Self)
        ensures
            r@ == sub_view(self@, other@),
    {
        let n_a: usize = self.v.len();
        let n_b: usize = other.v.len();
        let n: usize = if n_a >= n_b {
            n_a
        } else {
            n_b
        };
        let mut v: Vec<T> = Vec::new();
        let mut i: usize = 0;
        while i < n
            invariant
                i <= n,
                n_a == self@.len(),
                n_b == other@.len(),
                n == max_len(self@.len(), other@.len()),
                v@.len() == i,
                forall|j: int| 0 <= j < i ==> v@[j] == sub_view(self@, other@)[j],
            decreases n - i,
        {
            let x: T = if i < n_a {
                self.v[i]
            } else {
                T::zero()
            };
            let y: T = if i < n_b {
                other.v[i]
            } else {
                T::zero()
            };
            v.push(x.sub(y));
            i = i + 1;
        }
        proof {
            assert(v@ =~= sub_view(self@, other@));
        }
        Vector { v }
    }

    /// Element-wise difference, consuming both operands.
    pub fn sub(self, other: Self) -> (r: Self)
        ensures
            r@ == sub_view(self@, other@),
    {
        self.sub_ref(&other)
    }

    /// Element-wise negation of a borrowed vector.
    pub fn neg_ref(&self) -> (r: Self)
        ensures
            r@ == neg_view(self@),
    {
        let mut v: Vec<T> = Vec::new();
        let mut i: usize = 0;
        while i < self.v.len()
            invariant
                i <= self@.len(),
                v@.len() == i,
                forall|j: int| 0 <= j < i ==> v@[j] == neg_view(self@)[j],
            decreases self@.len() - i,
        {
            let x: T = self.v[i];
            v.push(x.neg());
            i = i + 1;
        }
        proof {
            assert(v@ =~= neg_view(self@));
        }
        Vector { v }
    }

    /// Element-wise negation, consuming the operand.
    pub fn neg(self) -> (r: Self)
        ensures
            r@ == neg_view(self@),
    {
        self.neg_ref()
    }

    /// Every element multiplied by the shared scalar `k`, on a borrowed
    /// vector.
    pub fn mul_ref(&self, k: T) -> (r: Self)
        ensures
            r@ == scale_view(self@, k),
    {
        let mut v: Vec<T> = Vec::new();
        let mut i: usize = 0;
        while i < self.v.len()
            invariant
                i <= self@.len(),
                v@.len() == i,
                forall|j: int| 0 <= j < i ==> v@[j] == scale_view(self@, k)[j],
            decreases self@.len() - i,
        {
            let x: T = self.v[i];
            v.push(x.mul(k));
            i = i + 1;
        }
        proof {
            assert(v@ =~= scale_view(self@, k));
        }
        Vector { v }
    }

    /// Every element multiplied by the shared scalar `k`, consuming the
    /// operand.
    pub fn mul(self, k: T) -> (r: Self)
        ensures
            r@ == scale_view(self@, k),
    {
        self.mul_ref(k)
    }

    /// Renders the vector as `<e1, e2, ..., en>`; the empty vector renders
    /// as `<>`.
    pub fn display(&self) -> (r: String)
        ensures
            r@ == vector_text(self@),
    {
        proof {
            reveal_strlit("<");
            reveal_strlit(">");
            reveal_strlit(", ");
        }
        let mut s = String::new();
        s.append("<");
        let mut i: usize = 0;
        while i < self.v.len()
            invariant
                i <= self@.len(),
                s@ == seq!['<'] + joined_text(self@.take(i as int)),
            decreases self@.len() - i,
        {
            proof {
                reveal_strlit(", ");
            }
            if i > 0 {
                s.append(", ");
            }
            let x: T = self.v[i];
            let t: String = x.text();
            s.append(t.as_str());
            i = i + 1;
            proof {
                lemma_joined_text_step(self@, i as int);
                assert(s@ =~= seq!['<'] + joined_text(self@.take(i as int)));
            }
        }
        s.append(">");
        proof {
            assert(self@.take(self@.len() as int) =~= self@);
            assert(s@ =~= vector_text(self@));
        }
        s
    }
}

impl<T: Copy> Vector<T> {
    /// Reads a degenerate matrix back as a vector: the single column of a
    /// one-column matrix, or the single row of a one-row matrix (for a 1 by
    /// 1 matrix the two readings agree). Any other shape is rejected.
    pub fn try_from_matrix(m: Matrix<T>) -> (r: Result<Self, ShapeError>)
        requires
            m.wf(),
        ensures
            (r is Ok) <==> (m.columns_spec() == 1 || m.rows_spec() == 1),
            m.columns_spec() == 1 ==> (r matches Ok(v) && v@ == m@[0]),
            m.columns_spec() != 1 && m.rows_spec() == 1 ==> (r matches Ok(v) && v@ == row_view(
                m@,
                0,
            )),
            r matches Err(e) ==> e == ShapeError::ShapeMismatch,
    {
        if m.get_columns() == 1 {
            Ok(Vector::from_vec(m.column_clone(1)))
        } else if m.get_rows() == 1 {
            Ok(Vector::from_vec(m.row_clone(1)))
        } else {
            Err(ShapeError::ShapeMismatch)
        }
    }
}

/// Unfolds [`joined_text`] one element at a time over a growing prefix.
proof fn lemma_joined_text_step<T: Numeric>(s: Seq<T>, i: int)
    requires
        1 <= i <= s.len(),
    ensures
        joined_text(s.take(i)) == if i == 1 {
            s[0].text_spec()
        } else {
            joined_text(s.take(i - 1)) + seq![',', ' '] + s[i - 1].text_spec()
        },
{
    if i > 1 {
        assert(s.take(i).drop_last() =~= s.take(i - 1));
        assert(s.take(i).last() == s[i - 1]);
    }
}

/// Vector addition is commutative, mismatched lengths included.
pub proof fn lemma_add_commutes<T: Numeric>(a: Seq<T>, b: Seq<T>)
    ensures
        add_view(a, b) == add_view(b, a),
{
    assert forall|i: int| 0 <= i < max_len(a.len(), b.len()) implies add_view(a, b)[i] == add_view(
        b,
        a,
    )[i] by {
        T::add_commutes(elem_at(a, i), elem_at(b, i));
    }
    assert(add_view(a, b) =~= add_view(b, a));
}

/// The lenient reconciliation, spelled out: the sum is as long as the longer
/// operand, the overlapping prefix is the element-wise sum, and the part of
/// the longer operand past the shorter one comes through unchanged, having
/// been added to the additive identity.
pub proof fn lemma_add_lenient<T: Numeric>(a: Seq<T>, b: Seq<T>)
    ensures
        add_view(a, b).len() == max_len(a.len(), b.len()),
        forall|i: int|
            0 <= i < a.len() && i < b.len() ==> add_view(a, b)[i] == a[i].add_spec(b[i]),
        forall|i: int| b.len() <= i < a.len() ==> add_view(a, b)[i] == a[i],
        forall|i: int| a.len() <= i < b.len() ==> add_view(a, b)[i] == b[i],
{
    assert forall|i: int| b.len() <= i < a.len() implies add_view(a, b)[i] == a[i] by {
        T::add_zero(a[i]);
    }
    assert forall|i: int| a.len() <= i < b.len() implies add_view(a, b)[i] == b[i] by {
        T::add_zero(b[i]);
    }
}

} // verus!
