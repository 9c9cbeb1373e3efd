use crate::error::ShapeError;
use crate::scalar::Numeric;
use crate::vector::{add_view, elem_at, max_len, neg_view, scale_view, sub_view, Vector};
use vstd::prelude::*;
use vstd::string::{StrSliceExecFns, StringExecFns};

verus! {

/// The views of a list of stored columns.
pub open spec fn col_views<T>(m: Seq<Vector<T>>) -> Seq<Seq<T>> {
    Seq::new(m.len(), |i: int| m[i]@)
}

/// Row `r` (0-based) of a column list: one element out of every column.
pub open spec fn row_view<T>(cols: Seq<Seq<T>>, r: int) -> Seq<T> {
    Seq::new(cols.len(), |c: int| cols[c][r])
}

/// The transposed column list: every old row becomes a new column.
pub open spec fn transpose_view<T>(cols: Seq<Seq<T>>, rows: nat) -> Seq<Seq<T>> {
    Seq::new(rows, |r: int| row_view(cols, r))
}

/// A vector embedded as the single column of a matrix.
pub open spec fn single_column_view<T>(v: Seq<T>) -> Seq<Seq<T>> {
    seq![v]
}

/// The column list of the `n` by `n` identity matrix.
pub open spec fn identity_view<T: Numeric>(n: nat) -> Seq<Seq<T>> {
    Seq::new(
        n,
        |c: int|
            Seq::new(
                n,
                |r: int|
                    if r == c {
                        T::one_spec()
                    } else {
                        T::zero_spec()
                    },
            ),
    )
}

/// The column list obtained by slicing a flat element list into `rows`
/// consecutive chunks of length `columns`, each chunk one logical row.
pub open spec fn flat_view<T>(v: Seq<T>, rows: nat, columns: nat) -> Seq<Seq<T>> {
    Seq::new(columns, |c: int| Seq::new(rows, |r: int| v[r * columns + c]))
}

/// Column-wise element-wise sum of two column lists of equal shape.
pub open spec fn mat_add_view<T: Numeric>(a: Seq<Seq<T>>, b: Seq<Seq<T>>) -> Seq<Seq<T>> {
    Seq::new(a.len(), |c: int| add_view(a[c], b[c]))
}

/// Column-wise element-wise difference of two column lists of equal shape.
pub open spec fn mat_sub_view<T: Numeric>(a: Seq<Seq<T>>, b: Seq<Seq<T>>) -> Seq<Seq<T>> {
    Seq::new(a.len(), |c: int| sub_view(a[c], b[c]))
}

/// Column-wise element-wise negation.
pub open spec fn mat_neg_view<T: Numeric>(a: Seq<Seq<T>>) -> Seq<Seq<T>> {
    Seq::new(a.len(), |c: int| neg_view(a[c]))
}

/// Every element multiplied by the shared scalar `k`.
pub open spec fn mat_scale_view<T: Numeric>(a: Seq<Seq<T>>, k: T) -> Seq<Seq<T>> {
    Seq::new(a.len(), |c: int| scale_view(a[c], k))
}

/// The left-to-right partial sum, over the first `c_end` columns, of row `r`
/// of every column scaled by the matching vector element: the column-scaling
/// reading of the matrix-vector product. Positions past the end of a column
/// or of the vector read as the additive identity.
pub open spec fn dot_sum<T: Numeric>(cols: Seq<Seq<T>>, v: Seq<T>, r: int, c_end: int) -> T
    decreases c_end,
{
    if c_end <= 0 {
        T::zero_spec()
    } else {
        dot_sum(cols, v, r, c_end - 1).add_spec(
            elem_at(cols[c_end - 1], r).mul_spec(elem_at(v, c_end - 1)),
        )
    }
}

/// The matrix-vector product of a column list with `rows` rows: every column
/// scaled by the matching vector element, the scaled columns summed.
pub open spec fn mat_vec_mul_view<T: Numeric>(cols: Seq<Seq<T>>, rows: nat, v: Seq<T>) -> Seq<T> {
    Seq::new(rows, |r: int| dot_sum(cols, v, r, cols.len() as int))
}

/// Whether `n` is the square of some natural number.
pub open spec fn is_perfect_square(n: nat) -> bool {
    exists|s: nat| #[trigger] (s * s) == n
}

/// A rectangular grid of scalars, stored column-major: one owned `Vector`
/// per column. All public row, column and element access is 1-based; the
/// 0-based offsets exist only at the storage boundary.
#[derive(PartialEq, Debug, Clone)]
pub struct Matrix<T> {
    m: Vec<Vector<T>>,
    rows: usize,
    columns: usize,
}

impl<T> View for Matrix<T> {
    type V = Seq<Seq<T>>;

    closed spec fn view(&self) -> Seq<Seq<T>> {
        Seq::new(self.m@.len(), |i: int| self.m@[i]@)
    }
}

impl<T> Matrix<T> {
    /// The recorded row count, as a mathematical value.
    pub closed spec fn rows_spec(&self) -> nat {
        self.rows as nat
    }

    /// The recorded column count, as a mathematical value.
    pub closed spec fn columns_spec(&self) -> nat {
        self.columns as nat
    }

    /// Well-formedness: the storage holds exactly one column per recorded
    /// column, and every stored column has exactly the recorded row count of
    /// elements. Every constructor establishes this and every method
    /// preserves it.
    pub open spec fn wf(&self) -> bool {
        &&& self@.len() == self.columns_spec()
        &&& forall|c: int| 0 <= c < self@.len() ==> (#[trigger] self@[c]).len() == self.rows_spec()
    }

    /// The row count.
    pub fn get_rows(&self) -> (n: usize)
        ensures
            n == self.rows_spec(),
    {
        self.rows
    }

    /// The column count.
    pub fn get_columns(&self) -> (n: usize)
        ensures
            n == self.columns_spec(),
    {
        self.columns
    }

    /// Whether the matrix has as many rows as columns.
    pub fn is_square(&self) -> (r: bool)
        ensures
            r == (self.rows_spec() == self.columns_spec()),
    {
        self.rows == self.columns
    }

    /// Wraps a vector as a single-column matrix.
    pub fn from_vector(v: Vector<T>) -> (r: Self)
        ensures
            r.wf(),
            r.rows_spec() == v@.len(),
            r.columns_spec() == 1,
            r@ == single_column_view(v@),
    {
        let rows: usize = v.len();
        let mut m: Vec<Vector<T>> = Vec::new();
        m.push(v);
        let r = Matrix { m, rows, columns: 1 };
        proof {
            assert(r@ =~= single_column_view(r.m@[0]@));
        }
        r
    }

    /// Builds a matrix from an ordered list of its columns. Every column
    /// must have the same length; a jagged list is rejected. The empty list
    /// yields the 0 by 0 matrix.
    pub fn try_from_columns(v: Vec<Vector<T>>) -> (r: Result<Self, ShapeError>)
        ensures
            (r is Ok) <==> (forall|i: int|
                0 <= i < v@.len() ==> (#[trigger] v@[i])@.len() == v@[0]@.len()),
            r matches Ok(m) ==> m.wf() && m.columns_spec() == v@.len() && m.rows_spec() == (
            if v@.len() == 0 {
                0nat
            } else {
                v@[0]@.len()
            }) && m@ == col_views(v@),
            r matches Err(e) ==> e == ShapeError::JaggedShape,
    {
        if v.len() == 0 {
            let r = Matrix { m: v, rows: 0, columns: 0 };
            proof {
                assert(r@ =~= col_views(r.m@));
            }
            return Ok(r);
        }
        let rows: usize = v[0].len();
        let mut i: usize = 1;
        while i < v.len()
            invariant
                1 <= i <= v@.len(),
                rows == v@[0]@.len(),
                forall|j: int| 0 <= j < i ==> (#[trigger] v@[j])@.len() == rows,
            decreases v@.len() - i,
        {
            if v[i].len() != rows {
                return Err(ShapeError::JaggedShape);
            }
            i = i + 1;
        }
        let columns: usize = v.len();
        let r = Matrix { m: v, rows, columns };
        proof {
            assert(r@ =~= col_views(r.m@));
        }
        Ok(r)
    }
}

impl<T: Copy> Matrix<T> {
    /// Builds a matrix from an ordered list of its logical rows. Every row
    /// must have the same length; a jagged list is rejected. The result has
    /// one row per outer list entry and one column per inner list entry; the
    /// empty list yields the 0 by 0 matrix.
    pub fn try_from_rows(v: Vec<Vec<T>>) -> (r: Result<Self, ShapeError>)
        ensures
            (r is Ok) <==> (forall|i: int|
                0 <= i < v@.len() ==> (#[trigger] v@[i])@.len() == v@[0]@.len()),
            r matches Ok(m) ==> m.wf() && m.rows_spec() == v@.len() && m.columns_spec() == (
            if v@.len() == 0 {
                0nat
            } else {
                v@[0]@.len()
            }) && forall|c: int, rr: int|
                0 <= c < m@.len() && 0 <= rr < v@.len() ==> m@[c][rr] == v@[rr]@[c],
            r matches Err(e) ==> e == ShapeError::JaggedShape,
    {
        let rows: usize = v.len();
        if rows == 0 {
            let m: Vec<Vector<T>> = Vec::new();
            let r = Matrix { m, rows: 0, columns: 0 };
            return Ok(r);
        }
        let columns: usize = v[0].len();
        let mut i: usize = 1;
        while i < rows
            invariant
                1 <= i <= v@.len(),
                rows == v@.len(),
                columns == v@[0]@.len(),
                forall|j: int| 0 <= j < i ==> (#[trigger] v@[j])@.len() == columns,
            decreases v@.len() - i,
        {
            if v[i].len() != columns {
                return Err(ShapeError::JaggedShape);
            }
            i = i + 1;
        }
        let mut m: Vec<Vector<T>> = Vec::new();
        let mut c: usize = 0;
        while c < columns
            invariant
                c <= columns,
                rows == v@.len(),
                columns == v@[0]@.len(),
                forall|j: int| 0 <= j < v@.len() ==> (#[trigger] v@[j])@.len() == columns,
                m@.len() == c,
                forall|j: int, rr: int|
                    0 <= j < c && 0 <= rr < rows ==> (#[trigger] m@[j]@[rr]) == v@[rr]@[j],
                forall|j: int| 0 <= j < c ==> (#[trigger] m@[j])@.len() == rows,
            decreases columns - c,
        {
            let mut col: Vec<T> = Vec::new();
            let mut rr: usize = 0;
            while rr < rows
                invariant
                    rr <= rows,
                    c < columns,
                    rows == v@.len(),
                    columns == v@[0]@.len(),
                    forall|j: int| 0 <= j < v@.len() ==> (#[trigger] v@[j])@.len() == columns,
                    col@.len() == rr,
                    forall|k: int| 0 <= k < rr ==> col@[k] == v@[k]@[c as int],
                decreases rows - rr,
            {
                let row_ref: &Vec<T> = &v[rr];
                col.push(row_ref[c]);
                rr = rr + 1;
            }
            m.push(Vector::from_vec(col));
            c = c + 1;
        }
        let r = Matrix { m, rows, columns };
        Ok(r)
    }

    /// Slices a flat element list into `rows` consecutive chunks of length
    /// `columns`, each chunk one logical row. A list whose length is not
    /// exactly `rows * columns` is rejected, with the expected and actual
    /// counts reported.
    pub fn from_vec(v: Vec<T>, rows: usize, columns: usize) -> (r: Result<Self, ShapeError>)
        ensures
            (r is Ok) <==> v@.len() == (rows as int) * (columns as int),
            r matches Ok(m) ==> m.wf() && m.rows_spec() == rows && m.columns_spec() == columns
                && m@ == flat_view(v@, rows as nat, columns as nat),
            r matches Err(e) ==> e == (ShapeError::WrongCount {
                rows,
                columns,
                actual: v@.len() as usize,
            }),
    {
        let actual: usize = v.len();
        let expected: Option<usize> = rows.checked_mul(columns);
        match expected {
            None => Err(ShapeError::WrongCount { rows, columns, actual }),
            Some(p) => {
                if actual != p {
                    return Err(ShapeError::WrongCount { rows, columns, actual });
                }
                let mut m: Vec<Vector<T>> = Vec::new();
                let mut c: usize = 0;
                while c < columns
                    invariant
                        c <= columns,
                        actual == v@.len(),
                        v@.len() == (rows as int) * (columns as int),
                        m@.len() == c,
                        forall|j: int|
                            0 <= j < c ==> (#[trigger] m@[j])@ == flat_view(
                                v@,
                                rows as nat,
                                columns as nat,
                            )[j],
                    decreases columns - c,
                {
                    let mut col: Vec<T> = Vec::new();
                    let mut rr: usize = 0;
                    while rr < rows
                        invariant
                            rr <= rows,
                            c < columns,
                            actual == v@.len(),
                            v@.len() == (rows as int) * (columns as int),
                            col@.len() == rr,
                            forall|k: int| 0 <= k < rr ==> col@[k] == v@[k * (columns as int) + c],
                        decreases rows - rr,
                    {
                        proof {
                            assert((rr as int) * (columns as int) + (c as int) < (rows as int) * (
                            columns as int)) by (nonlinear_arith)
                                requires
                                    0 <= rr as int,
                                    (rr as int) < (rows as int),
                                    0 <= c as int,
                                    (c as int) < (columns as int),
                            ;
                        }
                        col.push(v[rr * columns + c]);
                        rr = rr + 1;
                    }
                    proof {
                        assert(col@ =~= flat_view(v@, rows as nat, columns as nat)[c as int]);
                    }
                    m.push(Vector::from_vec(col));
                    c = c + 1;
                }
                let r = Matrix { m, rows, columns };
                proof {
                    assert(r@ =~= flat_view(v@, rows as nat, columns as nat));
                }
                Ok(r)
            },
        }
    }

    /// Builds a square matrix from a flat element list whose length is a
    /// perfect square; any other length is rejected.
    pub fn square(v: Vec<T>) -> (r: Result<Self, ShapeError>)
        ensures
            (r is Ok) <==> is_perfect_square(v@.len()),
            r matches Ok(m) ==> m.wf() && (m.rows_spec() as int) * (m.rows_spec() as int)
                == v@.len() && m.columns_spec() == m.rows_spec() && m@ == flat_view(
                v@,
                m.rows_spec(),
                m.rows_spec(),
            ),
            r matches Err(e) ==> e == (ShapeError::NotSquare { actual: v@.len() as usize }),
    {
        let n: usize = v.len();
        let s: usize = int_sqrt(n);
        if s * s == n {
            proof {
                assert((s as nat) * (s as nat) == v@.len());
                assert(is_perfect_square(v@.len()));
            }
            match Self::from_vec(v, s, s) {
                Ok(m) => Ok(m),
                Err(e) => {
                    proof {
                        assert(false);
                    }
                    Err(e)
                },
            }
        } else {
            proof {
                assert forall|t: nat| #[trigger] (t * t) != v@.len() by {
                    if t <= s as nat {
                        assert(t * t <= (s as nat) * (s as nat)) by (nonlinear_arith)
                            requires
                                t <= s as nat,
                        ;
                    } else {
                        assert(t * t >= ((s as nat) + 1) * ((s as nat) + 1)) by (nonlinear_arith)
                            requires
                                t >= (s as nat) + 1,
                        ;
                    }
                }
            }
            Err(ShapeError::NotSquare { actual: n })
        }
    }

    /// One logical row, copied out as a vector (1-based).
    pub fn row(&self, i: usize) -> (r: Vector<T>)
        requires
            self.wf(),
            1 <= i <= self.rows_spec(),
        ensures
            r@ == row_view(self@, i - 1),
    {
        Vector::from_vec(self.row_clone(i))
    }

    /// One logical row, copied out as the underlying storage (1-based).
    pub fn row_clone(&self, i: usize) -> (r: Vec<T>)
        requires
            self.wf(),
            1 <= i <= self.rows_spec(),
        ensures
            r@ == row_view(self@, i - 1),
    {
        let mut r: Vec<T> = Vec::new();
        let mut c: usize = 0;
        while c < self.m.len()
            invariant
                self.wf(),
                1 <= i <= self.rows_spec(),
                c <= self@.len(),
                r@.len() == c,
                forall|j: int| 0 <= j < c ==> r@[j] == self@[j][i - 1],
            decreases self@.len() - c,
        {
            proof {
                assert(self@[c as int].len() == self.rows_spec());
            }
            let x: T = *self.m[c].index(i);
            r.push(x);
            c = c + 1;
        }
        proof {
            assert(r@ =~= row_view(self@, i - 1));
        }
        r
    }

    /// One column, copied out as the underlying storage (1-based).
    pub fn column_clone(&self, i: usize) -> (r: Vec<T>)
        requires
            self.wf(),
            1 <= i <= self.columns_spec(),
        ensures
            r@ == self@[i - 1],
    {
        let col: &Vector<T> = &self.m[i - 1];
        let stored: &Vec<T> = col.vec();
        let mut r: Vec<T> = Vec::new();
        let mut j: usize = 0;
        while j < stored.len()
            invariant
                stored@ == self@[i - 1],
                1 <= i <= self@.len(),
                j <= stored@.len(),
                r@ =~= stored@.take(j as int),
            decreases stored@.len() - j,
        {
            r.push(stored[j]);
            j = j + 1;
            proof {
                assert(r@ =~= stored@.take(j as int));
            }
        }
        proof {
            assert(stored@.take(stored@.len() as int) =~= stored@);
        }
        r
    }

    /// Rebuilds the storage so that every old row becomes a new column,
    /// swapping the row and column counts. Transposing twice restores the
    /// original matrix.
    pub fn transpose(&mut self)
        requires
            old(self).wf(),
        ensures
            final(self).wf(),
            final(self).rows_spec() == old(self).columns_spec(),
            final(self).columns_spec() == old(self).rows_spec(),
            final(self)@ == transpose_view(old(self)@, old(self).rows_spec()),
    {
        let mut cols: Vec<Vector<T>> = Vec::new();
        let mut r: usize = 0;
        while r < self.rows
            invariant
                self == old(self),
                self.wf(),
                r <= self.rows_spec(),
                cols@.len() == r,
                forall|j: int| 0 <= j < r ==> (#[trigger] cols@[j])@ == row_view(self@, j),
            decreases self.rows_spec() - r,
        {
            let row: Vec<T> = self.row_clone(r + 1);
            cols.push(Vector::from_vec(row));
            r = r + 1;
        }
        let new_rows: usize = self.columns;
        self.columns = self.rows;
        self.rows = new_rows;
        self.m = cols;
        proof {
            assert(final(self)@ =~= transpose_view(old(self)@, old(self).rows_spec()));
        }
    }
}

impl<T: Numeric> Matrix<T> {
    /// The `size` by `size` matrix with the multiplicative identity on the
    /// diagonal and the additive identity everywhere else.
    pub fn identity(size: usize) -> (r: Self)
        ensures
            r.wf(),
            r.rows_spec() == size,
            r.columns_spec() == size,
            r@ == identity_view::<T>(size as nat),
    {
        let mut m: Vec<Vector<T>> = Vec::new();
        let mut c: usize = 0;
        while c < size
            invariant
                c <= size,
                m@.len() == c,
                forall|j: int|
                    0 <= j < c ==> (#[trigger] m@[j])@ == identity_view::<T>(size as nat)[j],
            decreases size - c,
        {
            let mut col: Vec<T> = Vec::new();
            let mut r: usize = 0;
            while r < size
                invariant
                    r <= size,
                    c < size,
                    col@.len() == r,
                    forall|k: int|
                        0 <= k < r ==> col@[k] == (if k == c {
                            T::one_spec()
                        } else {
                            T::zero_spec()
                        }),
                decreases size - r,
            {
                if r == c {
                    col.push(T::one());
                } else {
                    col.push(T::zero());
                }
                r = r + 1;
            }
            proof {
                assert(col@ =~= identity_view::<T>(size as nat)[c as int]);
            }
            m.push(Vector::from_vec(col));
            c = c + 1;
        }
        let r = Matrix { m, rows: size, columns: size };
        proof {
            assert(r@ =~= identity_view::<T>(size as nat));
        }
        r
    }

    /// Column-wise element-wise sum. Matrix arithmetic is strict, unlike the
    /// lenient vector arithmetic: operands whose shapes differ yield no
    /// result at all, since a matrix shape mismatch is a structural error
    /// rather than a length quirk.
    pub fn add(self, other: Self) -> (r: Option<Self>)
        requires
            self.wf(),
            other.wf(),
        ensures
            (r is Some) <==> (self.rows_spec() == other.rows_spec() && self.columns_spec()
                == other.columns_spec()),
            r matches Some(m) ==> m.wf() && m.rows_spec() == self.rows_spec() && m.columns_spec()
                == self.columns_spec() && m@ == mat_add_view(self@, other@),
    {
        if self.rows != other.rows || self.columns != other.columns {
            return None;
        }
        let mut m: Vec<Vector<T>> = Vec::new();
        let mut c: usize = 0;
        while c < self.m.len()
            invariant
                self.wf(),
                other.wf(),
                self.rows_spec() == other.rows_spec(),
                self.columns_spec() == other.columns_spec(),
                c <= self@.len(),
                m@.len() == c,
                forall|j: int| 0 <= j < c ==> (#[trigger] m@[j])@ == add_view(self@[j], other@[j]),
            decreases self@.len() - c,
        {
            let sum: Vector<T> = self.m[c].add_ref(&other.m[c]);
            m.push(sum);
            c = c + 1;
        }
        let r = Matrix { m, rows: self.rows, columns: self.columns };
        proof {
            assert(r@ =~= mat_add_view(self@, other@));
        }
        Some(r)
    }

    /// Column-wise element-wise difference; strict about shape, exactly as
    /// [`Matrix::add`] is.
    pub fn sub(self, other: Self) -> (r: Option<Self>)
        requires
            self.wf(),
            other.wf(),
        ensures
            (r is Some) <==> (self.rows_spec() == other.rows_spec() && self.columns_spec()
                == other.columns_spec()),
            r matches Some(m) ==> m.wf() && m.rows_spec() == self.rows_spec() && m.columns_spec()
                == self.columns_spec() && m@ == mat_sub_view(self@, other@),
    {
        if self.rows != other.rows || self.columns != other.columns {
            return None;
        }
        let mut m: Vec<Vector<T>> = Vec::new();
        let mut c: usize = 0;
        while c < self.m.len()
            invariant
                self.wf(),
                other.wf(),
                self.rows_spec() == other.rows_spec(),
                self.columns_spec() == other.columns_spec(),
                c <= self@.len(),
                m@.len() == c,
                forall|j: int| 0 <= j < c ==> (#[trigger] m@[j])@ == sub_view(self@[j], other@[j]),
            decreases self@.len() - c,
        {
            let diff: Vector<T> = self.m[c].sub_ref(&other.m[c]);
            m.push(diff);
            c = c + 1;
        }
        let r = Matrix { m, rows: self.rows, columns: self.columns };
        proof {
            assert(r@ =~= mat_sub_view(self@, other@));
        }
        Some(r)
    }

    /// Element-wise negation; no shape constraint.
    pub fn neg(self) -> (r: Self)
        requires
            self.wf(),
        ensures
            r.wf(),
            r.rows_spec() == self.rows_spec(),
            r.columns_spec() == self.columns_spec(),
            r@ == mat_neg_view(self@),
    {
        let mut m: Vec<Vector<T>> = Vec::new();
        let mut c: usize = 0;
        while c < self.m.len()
            invariant
                self.wf(),
                c <= self@.len(),
                m@.len() == c,
                forall|j: int| 0 <= j < c ==> (#[trigger] m@[j])@ == neg_view(self@[j]),
            decreases self@.len() - c,
        {
            let col: Vector<T> = self.m[c].neg_ref();
            m.push(col);
            c = c + 1;
        }
        let r = Matrix { m, rows: self.rows, columns: self.columns };
        proof {
            assert(r@ =~= mat_neg_view(self@));
        }
        r
    }

    /// Every element multiplied by the shared scalar `k`; no shape
    /// constraint.
    pub fn mul(self, k: T) -> (r: Self)
        requires
            self.wf(),
        ensures
            r.wf(),
            r.rows_spec() == self.rows_spec(),
            r.columns_spec() == self.columns_spec(),
            r@ == mat_scale_view(self@, k),
    {
        let mut m: Vec<Vector<T>> = Vec::new();
        let mut c: usize = 0;
        while c < self.m.len()
            invariant
                self.wf(),
                c <= self@.len(),
                m@.len() == c,
                forall|j: int| 0 <= j < c ==> (#[trigger] m@[j])@ == scale_view(self@[j], k),
            decreases self@.len() - c,
        {
            let col: Vector<T> = self.m[c].mul_ref(k);
            m.push(col);
            c = c + 1;
        }
        let r = Matrix { m, rows: self.rows, columns: self.columns };
        proof {
            assert(r@ =~= mat_scale_view(self@, k));
        }
        r
    }

    /// The matrix-vector product, computed by scaling every column by the
    /// matching vector element and summing the scaled columns. A vector
    /// whose length differs from the row count yields no result; a matrix
    /// with no rows yields the empty vector.
    pub fn mul_vector(self, o: Vector<T>) -> (r: Option<Vector<T>>)
        requires
            self.wf(),
        ensures
            (r is Some) <==> self.rows_spec() == o@.len(),
            r matches Some(v) ==> v@ == mat_vec_mul_view(self@, self.rows_spec(), o@),
    {
        if self.rows != o.len() {
            return None;
        }
        let mut acc: Vec<T> = Vec::new();
        let mut r: usize = 0;
        while r < self.rows
            invariant
                r <= self.rows_spec(),
                acc@.len() == r,
                forall|k: int| 0 <= k < r ==> acc@[k] == T::zero_spec(),
            decreases self.rows_spec() - r,
        {
            acc.push(T::zero());
            r = r + 1;
        }
        let mut accv: Vector<T> = Vector::from_vec(acc);
        let mut c: usize = 0;
        while c < self.m.len()
            invariant
                self.wf(),
                self.rows_spec() == o@.len(),
                c <= self@.len(),
                accv@.len() == self.rows_spec(),
                forall|k: int|
                    0 <= k < self.rows_spec() ==> accv@[k] == dot_sum(self@, o@, k, c as int),
            decreases self@.len() - c,
        {
            let k: T = if c < o.len() {
                *o.index(c + 1)
            } else {
                T::zero()
            };
            proof {
                assert(k == elem_at(o@, c as int));
            }
            proof {
                assert(self@[c as int].len() == self.rows_spec());
            }
            let scaled: Vector<T> = self.m[c].mul_ref(k);
            let next: Vector<T> = accv.add_ref(&scaled);
            proof {
                assert(scaled@.len() == self.rows_spec());
                assert(max_len(accv@.len(), scaled@.len()) == self.rows_spec());
                assert forall|j: int| 0 <= j < self.rows_spec() implies next@[j] == dot_sum(
                    self@,
                    o@,
                    j,
                    c as int + 1,
                ) by {
                    assert(elem_at(accv@, j) == accv@[j]);
                    assert(elem_at(scaled@, j) == scaled@[j]);
                    assert(next@[j] == accv@[j].add_spec(scaled@[j]));
                    assert(scaled@[j] == self@[c as int][j].mul_spec(k));
                    assert(elem_at(self@[c as int], j) == self@[c as int][j]);
                }
            }
            accv = next;
            c = c + 1;
        }
        proof {
            assert(accv@ =~= mat_vec_mul_view(self@, self.rows_spec(), o@));
        }
        Some(accv)
    }
}

impl<T> Matrix<T> {
    /// The element at 1-based column `i.0`, 1-based row `i.1`.
    pub fn index(&self, i: (usize, usize)) -> (r: &T)
        requires
            self.wf(),
            1 <= i.0 <= self.columns_spec(),
            1 <= i.1 <= self.rows_spec(),
        ensures
            *r == self@[i.0 - 1][i.1 - 1],
    {
        proof {
            assert(self@[i.0 - 1].len() == self.rows_spec());
        }
        self.m[i.0 - 1].index(i.1)
    }

    /// Replaces the element at 1-based column `i.0`, 1-based row `i.1`.
    pub fn index_mut(&mut self, i: (usize, usize), value: T)
        requires
            old(self).wf(),
            1 <= i.0 <= old(self).columns_spec(),
            1 <= i.1 <= old(self).rows_spec(),
        ensures
            final(self).wf(),
            final(self).rows_spec() == old(self).rows_spec(),
            final(self).columns_spec() == old(self).columns_spec(),
            final(self)@ == old(self)@.update(i.0 - 1, old(self)@[i.0 - 1].update(i.1 - 1, value)),
    {
        proof {
            assert(old(self)@[i.0 - 1].len() == old(self).rows_spec());
        }
        let col: &mut Vector<T> = &mut self.m[i.0 - 1];
        col.index_mut(i.1, value);
        proof {
            assert(final(self)@ =~= old(self)@.update(
                i.0 - 1,
                old(self)@[i.0 - 1].update(i.1 - 1, value),
            ));
        }
    }
}

impl<T: Copy> Matrix<T> {
    /// Overwrites one logical row (1-based) with the elements of `values`,
    /// which must have one element per column.
    pub fn row_mut(&mut self, i: usize, values: &Vector<T>)
        requires
            old(self).wf(),
            1 <= i <= old(self).rows_spec(),
            values@.len() == old(self).columns_spec(),
        ensures
            final(self).wf(),
            final(self).rows_spec() == old(self).rows_spec(),
            final(self).columns_spec() == old(self).columns_spec(),
            final(self)@.len() == old(self)@.len(),
            forall|c: int|
                0 <= c < old(self)@.len() ==> final(self)@[c] == old(self)@[c].update(
                    i - 1,
                    values@[c],
                ),
    {
        let mut c: usize = 0;
        while c < self.m.len()
            invariant
                self.rows == old(self).rows,
                self.columns == old(self).columns,
                self.m@.len() == old(self).m@.len(),
                old(self).wf(),
                1 <= i <= old(self).rows_spec(),
                values@.len() == old(self).columns_spec(),
                c <= self@.len(),
                forall|j: int|
                    0 <= j < c ==> self@[j] == old(self)@[j].update(i - 1, values@[j]),
                forall|j: int| c <= j < self@.len() ==> self@[j] == old(self)@[j],
            decreases self@.len() - c,
        {
            proof {
                assert(self@[c as int] == old(self)@[c as int]);
                assert(old(self)@[c as int].len() == old(self).rows_spec());
            }
            let ghost prev = self@;
            let x: T = *values.index(c + 1);
            let col: &mut Vector<T> = &mut self.m[c];
            col.index_mut(i, x);
            proof {
                assert forall|j: int|
                    0 <= j <= c implies self@[j] == old(self)@[j].update(
                    i - 1,
                    values@[j],
                ) by {
                    if j == c {
                        assert(prev[j] == old(self)@[j]);
                        assert(self@[j] =~= prev[j].update(i - 1, values@[j]));
                    } else {
                        assert(self@[j] == prev[j]);
                        assert(prev[j] == old(self)@[j].update(i - 1, values@[j]));
                    }
                }
                assert forall|j: int| c < j < self@.len() implies self@[j] == old(self)@.index(
                    j,
                ) by {
                    assert(self@[j] == prev[j]);
                }
            }
            c = c + 1;
        }
    }

    /// Overwrites one column (1-based) with a copy of `values`, which must
    /// have one element per row.
    pub fn column_mut(&mut self, i: usize, values: &Vector<T>)
        requires
            old(self).wf(),
            1 <= i <= old(self).columns_spec(),
            values@.len() == old(self).rows_spec(),
        ensures
            final(self).wf(),
            final(self).rows_spec() == old(self).rows_spec(),
            final(self).columns_spec() == old(self).columns_spec(),
            final(self)@ == old(self)@.update(i - 1, values@),
    {
        let fresh: Vector<T> = Vector::from_slice(values.vec().as_slice());
        self.m[i - 1] = fresh;
        proof {
            assert(final(self)@ =~= old(self)@.update(i - 1, values@));
        }
    }
}

impl<T> Matrix<T> {
    /// A reference to one column (1-based).
    pub fn column(&self, i: usize) -> (r: &Vector<T>)
        requires
            self.wf(),
            1 <= i <= self.columns_spec(),
        ensures
            r@ == self@[i - 1],
    {
        &self.m[i - 1]
    }
}

/// A run of `n` spaces.
pub open spec fn spaces(n: nat) -> Seq<char> {
    Seq::new(n, |i: int| ' ')
}

/// The widest rendering among the elements of one column: the field width
/// used for that column of the grid.
pub open spec fn col_width<T: Numeric>(col: Seq<T>) -> nat
    decreases col.len(),
{
    if col.len() == 0 {
        0
    } else {
        let w = col_width(col.drop_last());
        let l = col.last().text_spec().len();
        if l > w {
            l
        } else {
            w
        }
    }
}

/// `s` centered in a field of `w` characters; when the padding is odd the
/// excess space goes to the right, as the host formatter centers.
pub open spec fn centered(s: Seq<char>, w: nat) -> Seq<char> {
    if s.len() >= w {
        s
    } else {
        let pad = (w - s.len()) as nat;
        spaces(pad / 2) + s + spaces((pad - pad / 2) as nat)
    }
}

/// The cells of row `r` over the first `c_end` columns: each element
/// centered in its column's field and wrapped in one space either side.
pub open spec fn row_cells<T: Numeric>(cols: Seq<Seq<T>>, r: int, c_end: int) -> Seq<char>
    decreases c_end,
{
    if c_end <= 0 {
        Seq::empty()
    } else {
        row_cells(cols, r, c_end - 1) + seq![' '] + centered(
            cols[c_end - 1][r].text_spec(),
            col_width(cols[c_end - 1]),
        ) + seq![' ']
    }
}

/// One bordered grid line: the cells of row `r` between `|` borders, with a
/// `_` pad on the last row and a space pad on every other row.
pub open spec fn row_line<T: Numeric>(cols: Seq<Seq<T>>, r: int, rows: nat) -> Seq<char> {
    let p: char = if r == rows - 1 {
        '_'
    } else {
        ' '
    };
    seq!['|', p] + row_cells(cols, r, cols.len() as int) + seq![p, '|', '\n']
}

/// The grid lines of rows `0 .. r_end`, concatenated.
pub open spec fn grid_rows<T: Numeric>(cols: Seq<Seq<T>>, rows: nat, r_end: int) -> Seq<char>
    decreases r_end,
{
    if r_end <= 0 {
        Seq::empty()
    } else {
        grid_rows(cols, rows, r_end - 1) + row_line(cols, r_end - 1, rows)
    }
}

/// The width of the top border's padding: every column's field width plus
/// its two wrapping spaces, over the first `c_end` columns.
pub open spec fn header_spaces<T: Numeric>(cols: Seq<Seq<T>>, c_end: int) -> nat
    decreases c_end,
{
    if c_end <= 0 {
        0
    } else {
        (header_spaces(cols, c_end - 1) + col_width(cols[c_end - 1]) + 2) as nat
    }
}

/// The inline cells of a single-row matrix: each element wrapped in one
/// space either side, with no field widths.
pub open spec fn inline_cells<T: Numeric>(cols: Seq<Seq<T>>, c_end: int) -> Seq<char>
    decreases c_end,
{
    if c_end <= 0 {
        Seq::empty()
    } else {
        inline_cells(cols, c_end - 1) + seq![' '] + cols[c_end - 1][0].text_spec() + seq![' ']
    }
}

/// The full rendering of a matrix: `[]` with no rows, an inline bracket
/// list with one row, and otherwise a boxed grid under a `_` top border.
pub open spec fn matrix_text<T: Numeric>(cols: Seq<Seq<T>>, rows: nat) -> Seq<char> {
    if rows == 0 {
        seq!['[', ']']
    } else if rows == 1 {
        seq!['['] + inline_cells(cols, cols.len() as int) + seq![']']
    } else {
        seq![' ', '_'] + spaces(header_spaces(cols, cols.len() as int)) + seq!['_', ' ', '\n']
            + grid_rows(cols, rows, rows as int)
    }
}

/// Unfolds [`col_width`] one element at a time over a growing prefix.
proof fn lemma_col_width_step<T: Numeric>(col: Seq<T>, r: int)
    requires
        1 <= r <= col.len(),
    ensures
        col_width(col.take(r)) == ({
            let w = col_width(col.take(r - 1));
            let l = col[r - 1].text_spec().len();
            if l > w {
                l
            } else {
                w
            }
        }),
{
    assert(col.take(r).drop_last() =~= col.take(r - 1));
    assert(col.take(r).last() == col[r - 1]);
}

/// Appends `n` spaces to `s`.
fn append_spaces(s: &mut String, n: usize)
    ensures
        final(s)@ == old(s)@ + spaces(n as nat),
{
    let mut i: usize = 0;
    while i < n
        invariant
            i <= n,
            s@ == old(s)@ + spaces(i as nat),
        decreases n - i,
    {
        proof {
            reveal_strlit(" ");
        }
        s.append(" ");
        i = i + 1;
        proof {
            assert(s@ =~= old(s)@ + spaces(i as nat));
        }
    }
    proof {
        assert(s@ =~= old(s)@ + spaces(n as nat));
    }
}

/// Appends `t` centered in a field of `w` characters, the excess padding on
/// the right.
fn append_centered(s: &mut String, t: &str, w: usize)
    ensures
        final(s)@ == old(s)@ + centered(t@, w as nat),
{
    let l: usize = t.unicode_len();
    if l >= w {
        s.append(t);
    } else {
        let pad: usize = w - l;
        let left: usize = pad / 2;
        append_spaces(s, left);
        s.append(t);
        append_spaces(s, pad - left);
        proof {
            assert(s@ =~= old(s)@ + centered(t@, w as nat));
        }
    }
}

impl<T: Numeric> Matrix<T> {
    /// Renders the matrix. A matrix with no rows renders as `[]`; a single
    /// row renders inline between brackets; anything taller renders as a
    /// boxed grid with per-column field widths, elements centered in their
    /// fields, and a heavier `_` border on the top and bottom lines.
    pub fn display(&self) -> (r: String)
        requires
            self.wf(),
        ensures
            r@ == matrix_text(self@, self.rows_spec()),
    {
        let mut s = String::new();
        if self.rows == 0 {
            proof {
                reveal_strlit("[]");
            }
            s.append("[]");
            proof {
                assert(s@ =~= matrix_text(self@, self.rows_spec()));
            }
            return s;
        }
        if self.rows == 1 {
            proof {
                reveal_strlit("[");
                reveal_strlit("]");
                reveal_strlit(" ");
            }
            s.append("[");
            let mut c: usize = 0;
            while c < self.m.len()
                invariant
                    self.wf(),
                    self.rows_spec() == 1,
                    c <= self@.len(),
                    s@ == seq!['['] + inline_cells(self@, c as int),
                decreases self@.len() - c,
            {
                proof {
                    reveal_strlit(" ");
                    assert(self@[c as int].len() == self.rows_spec());
                }
                s.append(" ");
                let x: T = *self.m[c].index(1);
                let t: String = x.text();
                s.append(t.as_str());
                s.append(" ");
                c = c + 1;
                proof {
                    assert(s@ =~= seq!['['] + inline_cells(self@, c as int));
                }
            }
            s.append("]");
            proof {
                assert(s@ =~= matrix_text(self@, self.rows_spec()));
            }
            return s;
        }
        let widths: Vec<usize> = self.column_widths();
        proof {
            reveal_strlit(" _");
            reveal_strlit("_ \n");
            reveal_strlit("  ");
        }
        s.append(" _");
        let mut c: usize = 0;
        while c < widths.len()
            invariant
                self.wf(),
                widths@.len() == self@.len(),
                forall|j: int| 0 <= j < self@.len() ==> widths@[j] == col_width(self@[j]),
                c <= self@.len(),
                s@ == seq![' ', '_'] + spaces(header_spaces(self@, c as int)),
            decreases widths@.len() - c,
        {
            proof {
                reveal_strlit("  ");
            }
            append_spaces(&mut s, widths[c]);
            s.append("  ");
            c = c + 1;
            proof {
                assert(s@ =~= seq![' ', '_'] + spaces(header_spaces(self@, c as int)));
            }
        }
        s.append("_ \n");
        let ghost head = seq![' ', '_'] + spaces(
            header_spaces(self@, self@.len() as int),
        ) + seq!['_', ' ', '\n'];
        proof {
            assert(s@ =~= head);
        }
        let mut r: usize = 0;
        while r < self.rows
            invariant
                self.wf(),
                self.rows_spec() >= 2,
                widths@.len() == self@.len(),
                forall|j: int| 0 <= j < self@.len() ==> widths@[j] == col_width(self@[j]),
                r <= self.rows_spec(),
                s@ == head + grid_rows(self@, self.rows_spec(), r as int),
            decreases self.rows_spec() - r,
        {
            let ghost base = s@;
            let ghost p: char = if r as int == self.rows_spec() - 1 {
                '_'
            } else {
                ' '
            };
            proof {
                reveal_strlit("| ");
                reveal_strlit("|_");
                reveal_strlit(" |\n");
                reveal_strlit("_|\n");
                reveal_strlit(" ");
            }
            let last: bool = r == self.rows - 1;
            if last {
                s.append("|_");
            } else {
                s.append("| ");
            }
            proof {
                assert(s@ =~= base + seq!['|', p] + row_cells(self@, r as int, 0));
            }
            let mut c2: usize = 0;
            while c2 < self.m.len()
                invariant
                    self.wf(),
                    widths@.len() == self@.len(),
                    forall|j: int| 0 <= j < self@.len() ==> widths@[j] == col_width(self@[j]),
                    r < self.rows_spec(),
                    c2 <= self@.len(),
                    s@ == base + seq!['|', p] + row_cells(self@, r as int, c2 as int),
                decreases self@.len() - c2,
            {
                proof {
                    reveal_strlit(" ");
                    assert(self@[c2 as int].len() == self.rows_spec());
                }
                s.append(" ");
                let x: T = *self.m[c2].index(r + 1);
                let t: String = x.text();
                append_centered(&mut s, t.as_str(), widths[c2]);
                s.append(" ");
                c2 = c2 + 1;
                proof {
                    assert(s@ =~= base + seq!['|', p] + row_cells(self@, r as int, c2 as int));
                }
            }
            if last {
                s.append("_|\n");
            } else {
                s.append(" |\n");
            }
            r = r + 1;
            proof {
                assert(s@ =~= base + row_line(self@, r as int - 1, self.rows_spec()));
                assert(s@ =~= head + grid_rows(self@, self.rows_spec(), r as int));
            }
        }
        proof {
            assert(s@ =~= matrix_text(self@, self.rows_spec()));
        }
        s
    }

    /// The field width of every column: the widest element rendering within
    /// that column.
    fn column_widths(&self) -> (widths: Vec<usize>)
        requires
            self.wf(),
        ensures
            widths@.len() == self@.len(),
            forall|j: int| 0 <= j < self@.len() ==> widths@[j] == col_width(self@[j]),
    {
        let mut widths: Vec<usize> = Vec::new();
        let mut c: usize = 0;
        while c < self.m.len()
            invariant
                self.wf(),
                c <= self@.len(),
                widths@.len() == c,
                forall|j: int| 0 <= j < c ==> widths@[j] == col_width(self@[j]),
            decreases self@.len() - c,
        {
            let col: &Vector<T> = &self.m[c];
            proof {
                assert(self@[c as int].len() == self.rows_spec());
            }
            let mut w: usize = 0;
            let mut r: usize = 0;
            while r < col.len()
                invariant
                    col@ == self@[c as int],
                    c < self@.len(),
                    r <= col@.len(),
                    w == col_width(col@.take(r as int)),
                decreases col@.len() - r,
            {
                let x: T = *col.index(r + 1);
                let t: String = x.text();
                let l: usize = t.as_str().unicode_len();
                if l > w {
                    w = l;
                }
                r = r + 1;
                proof {
                    lemma_col_width_step(col@, r as int);
                }
            }
            proof {
                assert(col@.take(col@.len() as int) =~= col@);
            }
            widths.push(w);
            c = c + 1;
        }
        widths
    }
}

/// The integer square root: the largest `s` with `s * s <= n`.
fn int_sqrt(n: usize) -> (s: usize)
    ensures
        (s as int) * (s as int) <= n as int,
        ((s as int) + 1) * ((s as int) + 1) > n as int,
        s <= n,
{
    let mut s: usize = 0;
    loop
        invariant_except_break
            (s as int) * (s as int) <= n as int,
            s <= n,
        ensures
            (s as int) * (s as int) <= n as int,
            ((s as int) + 1) * ((s as int) + 1) > n as int,
            s <= n,
        decreases n as int - s as int,
    {
        proof {
            assert((s as int) < 0x1_0000_0000) by (nonlinear_arith)
                requires
                    (s as int) * (s as int) <= n as int,
                    0 <= s as int,
                    (n as int) < 0x1_0000_0000_0000_0000,
            ;
            assert(((s as int) + 1) * ((s as int) + 1) <= 0x1_0000_0000 * 0x1_0000_0000) by (nonlinear_arith)
                requires
                    0 <= s as int,
                    (s as int) < 0x1_0000_0000,
            ;
        }
        let t: u128 = (s as u128) + 1;
        let p: u128 = t * t;
        if p <= n as u128 {
            proof {
                assert((s as int) + 1 <= n as int) by (nonlinear_arith)
                    requires
                        ((s as int) + 1) * ((s as int) + 1) <= n as int,
                        0 <= s as int,
                ;
            }
            s = s + 1;
        } else {
            break ;
        }
    }
    s
}

/// Adding a matrix and subtracting it again restores the first operand:
/// for equal-shaped column lists, `(a + b) - b == a`.
pub proof fn lemma_mat_add_sub_cancels<T: Numeric>(a: Seq<Seq<T>>, b: Seq<Seq<T>>, rows: nat)
    requires
        a.len() == b.len(),
        forall|c: int| 0 <= c < a.len() ==> (#[trigger] a[c]).len() == rows,
        forall|c: int| 0 <= c < b.len() ==> (#[trigger] b[c]).len() == rows,
    ensures
        mat_sub_view(mat_add_view(a, b), b) == a,
{
    assert forall|c: int| 0 <= c < a.len() implies mat_sub_view(mat_add_view(a, b), b)[c]
        == a[c] by {
        let sum = add_view(a[c], b[c]);
        assert(sum.len() == rows);
        assert forall|i: int| 0 <= i < rows implies sub_view(sum, b[c])[i] == a[c][i] by {
            T::add_sub_cancels(a[c][i], b[c][i]);
        }
        assert(sub_view(sum, b[c]) =~= a[c]);
    }
    assert(mat_sub_view(mat_add_view(a, b), b) =~= a);
}

/// Transposing twice restores the original column list, the zero-row and
/// zero-column shapes included.
pub proof fn lemma_transpose_involution<T>(cols: Seq<Seq<T>>, rows: nat)
    requires
        forall|c: int| 0 <= c < cols.len() ==> (#[trigger] cols[c]).len() == rows,
    ensures
        transpose_view(transpose_view(cols, rows), cols.len()) == cols,
{
    let t = transpose_view(cols, rows);
    assert forall|c: int| 0 <= c < cols.len() implies transpose_view(t, cols.len())[c]
        == cols[c] by {
        assert(row_view(t, c) =~= cols[c]);
    }
    assert(transpose_view(t, cols.len()) =~= cols);
}

/// One step of the identity product: over the identity's columns, the
/// partial sums stay at the additive identity until the diagonal column has
/// been taken in, and hold the matching vector element from then on.
proof fn lemma_identity_dot<T: Numeric>(n: nat, v: Seq<T>, r: int, c_end: int)
    requires
        v.len() == n,
        0 <= r < n,
        0 <= c_end <= n,
    ensures
        dot_sum(identity_view::<T>(n), v, r, c_end) == if c_end <= r {
            T::zero_spec()
        } else {
            v[r]
        },
    decreases c_end,
{
    if c_end > 0 {
        lemma_identity_dot::<T>(n, v, r, c_end - 1);
        let prev = dot_sum(identity_view::<T>(n), v, r, c_end - 1);
        let col = identity_view::<T>(n)[c_end - 1];
        assert(elem_at(col, r) == (if r == c_end - 1 {
            T::one_spec()
        } else {
            T::zero_spec()
        }));
        if c_end - 1 == r {
            T::mul_one(elem_at(v, c_end - 1));
            T::add_zero(v[r]);
        } else {
            T::mul_zero(elem_at(v, c_end - 1));
            T::add_zero(prev);
        }
    }
}

/// The multiplicative identity property: the `n` by `n` identity matrix
/// times any vector of length `n` gives that vector back.
pub proof fn lemma_identity_mul<T: Numeric>(n: nat, v: Seq<T>)
    requires
        v.len() == n,
    ensures
        mat_vec_mul_view(identity_view::<T>(n), n, v) == v,
{
    assert forall|r: int| 0 <= r < n implies mat_vec_mul_view(identity_view::<T>(n), n, v)[r]
        == v[r] by {
        lemma_identity_dot::<T>(n, v, r, n as int);
    }
    assert(mat_vec_mul_view(identity_view::<T>(n), n, v) =~= v);
}

/// Embedding a vector as a single-column matrix and projecting that column
/// back out restores the vector, whatever its length.
pub proof fn lemma_single_column_roundtrip<T>(v: Seq<T>)
    ensures
        single_column_view(v).len() == 1,
        single_column_view(v)[0] == v,
{
}

} // verus!
