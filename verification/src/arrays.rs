//! Dense arrays backed by `ndarray`.
//!
//! The recorded signals live in `ndarray` arrays. Verus cannot look inside
//! them, so each array type here is an opaque handle whose contents are named
//! by a specification function, and each `ndarray` operation that the decoder
//! uses is reached through one small trusted function that states what the
//! operation does to those contents. Everything else in this module, and in
//! the rest of the crate, is proved against these statements.

use vstd::prelude::*;

verus! {

/// `ndarray`'s shape error. It is only ever passed through.
#[verifier::external_type_specification]
#[verifier::external_body]
pub struct ExShapeError(ndarray::ShapeError);

/// Whether an array of `rows` by `cols` four-byte elements can be allocated:
/// the product of the non-zero axis lengths, in bytes, must not exceed
/// `isize::MAX`.
pub open spec fn shape_fits(rows: int, cols: int) -> bool {
    (if rows == 0 { 1 } else { rows }) * (if cols == 0 { 1 } else { cols }) * 4 <= isize::MAX
}

/// Decides `shape_fits` without overflowing.
pub fn shape_fits_exec(rows: usize, cols: usize) -> (fits: bool)
    ensures
        fits == shape_fits(rows as int, cols as int),
{
    let r: usize = if rows == 0 { 1 } else { rows };
    let c: usize = if cols == 0 { 1 } else { cols };
    match r.checked_mul(c) {
        None => {
            assert(r * c * 4 >= r * c) by (nonlinear_arith)
                requires
                    r >= 1,
                    c >= 1,
            ;
            false
        },
        Some(cells) => match cells.checked_mul(4) {
            None => false,
            Some(bytes) => bytes <= isize::MAX as usize,
        },
    }
}

// ---------------------------------------------------------------------------
// Two-dimensional array of i32
// ---------------------------------------------------------------------------

/// A two-dimensional array of `i32`, indexed `[row, column]`.
///
/// In a recording, a row is a channel and a column is a sample.
#[verifier::external_body]
#[derive(Debug)]
pub struct IntArray2 {
    inner: ndarray::Array2<i32>,
}

/// The rows of an `IntArray2`, each a sequence of its elements by column.
pub uninterp spec fn int_array2_rows(a: IntArray2) -> Seq<Seq<i32>>;

/// The length of the second axis of an `IntArray2`.
pub uninterp spec fn int_array2_ncols(a: IntArray2) -> nat;

impl View for IntArray2 {
    type V = Seq<Seq<i32>>;

    open spec fn view(&self) -> Seq<Seq<i32>> {
        int_array2_rows(*self)
    }
}

/// Whether `rows` is rectangular with rows of length `ncols`.
pub open spec fn is_rect<T>(rows: Seq<Seq<T>>, ncols: nat) -> bool {
    forall|i: int| 0 <= i < rows.len() ==> (#[trigger] rows[i]).len() == ncols
}

/// `a` and `b` joined row by row: row `i` of the result is row `i` of `a`
/// followed by row `i` of `b`.
pub open spec fn join_rows<T>(a: Seq<Seq<T>>, b: Seq<Seq<T>>) -> Seq<Seq<T>> {
    Seq::new(a.len(), |i: int| a[i] + b[i])
}

/// Calls `ndarray::Array2::zeros`. Claims that the result has the requested
/// shape and holds zero everywhere. The `requires` keeps out the shapes on
/// which `ndarray` or the allocation of the buffer panics.
#[verifier::external_body]
fn int_array2_zeros(rows: usize, cols: usize) -> (a: IntArray2)
    requires
        shape_fits(rows as int, cols as int),
    ensures
        int_array2_rows(a).len() == rows,
        int_array2_ncols(a) == cols,
        is_rect(int_array2_rows(a), cols as nat),
        forall|i: int, j: int|
            0 <= i < rows && 0 <= j < cols ==> #[trigger] int_array2_rows(a)[i][j] == 0,
{
    IntArray2 { inner: ndarray::Array2::zeros((rows, cols)) }
}

/// Calls `ndarray::ArrayBase::dim`. Claims that it returns the lengths of the
/// two axes, and that every row has the length of the second axis.
#[verifier::external_body]
fn int_array2_dim(a: &IntArray2) -> (d: (usize, usize))
    ensures
        d.0 == int_array2_rows(*a).len(),
        d.1 == int_array2_ncols(*a),
        is_rect(int_array2_rows(*a), d.1 as nat),
{
    a.inner.dim()
}

/// Indexes the array with `[row, col]`. Claims that the element at that place
/// is returned. `ndarray` panics on an index out of bounds, so the `requires`
/// keeps those out.
#[verifier::external_body]
fn int_array2_get(a: &IntArray2, row: usize, col: usize) -> (v: i32)
    requires
        row < int_array2_rows(*a).len(),
        col < int_array2_ncols(*a),
    ensures
        v == int_array2_rows(*a)[row as int][col as int],
{
    a.inner[[row, col]]
}

/// Assigns through the array's mutable index `[row, col]`. Claims that this
/// element becomes `value` and that nothing else changes.
#[verifier::external_body]
fn int_array2_set(a: &mut IntArray2, row: usize, col: usize, value: i32)
    requires
        row < int_array2_rows(*old(a)).len(),
        col < int_array2_ncols(*old(a)),
    ensures
        int_array2_ncols(*final(a)) == int_array2_ncols(*old(a)),
        int_array2_rows(*final(a)) == int_array2_rows(*old(a)).update(
            row as int,
            int_array2_rows(*old(a))[row as int].update(col as int, value),
        ),
{
    a.inner[[row, col]] = value;
}

/// Calls `ndarray::concatenate` along the second axis. Claims that it
/// succeeds exactly when the two arrays have the same number of rows, and that
/// each row of the result is then the row of `a` followed by the row of `b`.
/// The `requires` keeps out the sizes on which the sum of the lengths or the
/// allocation overflows.
#[verifier::external_body]
fn int_array2_concat(a: &IntArray2, b: &IntArray2) -> (r: Result<IntArray2, ndarray::ShapeError>)
    requires
        shape_fits(
            int_array2_rows(*a).len() as int,
            (int_array2_ncols(*a) + int_array2_ncols(*b)) as int,
        ),
    ensures
        r is Ok <==> int_array2_rows(*a).len() == int_array2_rows(*b).len(),
        r matches Ok(c) ==> {
            &&& int_array2_rows(c) == join_rows(int_array2_rows(*a), int_array2_rows(*b))
            &&& int_array2_ncols(c) == int_array2_ncols(*a) + int_array2_ncols(*b)
            &&& is_rect(int_array2_rows(c), int_array2_ncols(c))
        },
{
    ndarray::concatenate(ndarray::Axis(1), &[a.inner.view(), b.inner.view()]).map(
        |inner| IntArray2 { inner },
    )
}

/// Calls `Clone::clone` of the `ndarray` array. Claims that the copy has the
/// shape and the elements of the array.
#[verifier::external_body]
fn int_array2_clone(a: &IntArray2) -> (c: IntArray2)
    ensures
        int_array2_rows(c) == int_array2_rows(*a),
        int_array2_ncols(c) == int_array2_ncols(*a),
{
    IntArray2 { inner: a.inner.clone() }
}

impl Clone for IntArray2 {
    /// A copy with the same shape and the same elements.
    fn clone(&self) -> (c: Self)
        ensures
            c@ == self@,
            c.spec_ncols() == self.spec_ncols(),
    {
        int_array2_clone(self)
    }
}

impl IntArray2 {
    /// The length of the second axis.
    pub open spec fn spec_ncols(&self) -> nat {
        int_array2_ncols(*self)
    }

    /// Whether `(row, col)` is a place in this array.
    pub open spec fn has(&self, row: int, col: int) -> bool {
        0 <= row < self@.len() && 0 <= col < self.spec_ncols()
    }

    /// An array of `rows` by `cols` zeros.
    pub fn zeros(rows: usize, cols: usize) -> (a: IntArray2)
        requires
            shape_fits(rows as int, cols as int),
        ensures
            a@.len() == rows,
            a.spec_ncols() == cols,
            is_rect(a@, cols as nat),
            forall|i: int, j: int| 0 <= i < rows && 0 <= j < cols ==> #[trigger] a@[i][j] == 0,
    {
        int_array2_zeros(rows, cols)
    }

    /// The shape: number of rows, number of columns.
    pub fn dim(&self) -> (d: (usize, usize))
        ensures
            d.0 == self@.len(),
            d.1 == self.spec_ncols(),
            is_rect(self@, self.spec_ncols()),
    {
        int_array2_dim(self)
    }

    /// The element at `(row, col)`, or `None` outside the array.
    pub fn get(&self, row: usize, col: usize) -> (v: Option<i32>)
        ensures
            v == (if self.has(row as int, col as int) {
                Some(self@[row as int][col as int])
            } else {
                None
            }),
    {
        let d = int_array2_dim(self);
        if row < d.0 && col < d.1 {
            Some(int_array2_get(self, row, col))
        } else {
            None
        }
    }

    /// The element at `(row, col)`.
    pub fn at(&self, row: usize, col: usize) -> (v: i32)
        requires
            self.has(row as int, col as int),
        ensures
            v == self@[row as int][col as int],
    {
        int_array2_get(self, row, col)
    }

    /// Stores `value` at `(row, col)` and leaves the rest as it is.
    pub fn set(&mut self, row: usize, col: usize, value: i32)
        requires
            old(self).has(row as int, col as int),
        ensures
            final(self).spec_ncols() == old(self).spec_ncols(),
            final(self)@ == old(self)@.update(
                row as int,
                old(self)@[row as int].update(col as int, value),
            ),
    {
        int_array2_set(self, row, col, value)
    }

    /// This array followed, row by row, by `other`; `None` when the row
    /// counts differ.
    pub fn concat(&self, other: &IntArray2) -> (r: Option<IntArray2>)
        requires
            shape_fits(self@.len() as int, (self.spec_ncols() + other.spec_ncols()) as int),
        ensures
            r is Some <==> self@.len() == other@.len(),
            r matches Some(c) ==> {
                &&& c@ == join_rows(self@, other@)
                &&& c.spec_ncols() == self.spec_ncols() + other.spec_ncols()
                &&& is_rect(c@, c.spec_ncols())
            },
    {
        match int_array2_concat(self, other) {
            Ok(c) => Some(c),
            Err(_) => None,
        }
    }
}

// ---------------------------------------------------------------------------
// Two-dimensional array of bool
// ---------------------------------------------------------------------------

/// A two-dimensional array of `bool`, indexed `[row, column]`.
#[verifier::external_body]
#[derive(Debug)]
pub struct BoolArray2 {
    inner: ndarray::Array2<bool>,
}

/// The rows of a `BoolArray2`, each a sequence of its elements by column.
pub uninterp spec fn bool_array2_rows(a: BoolArray2) -> Seq<Seq<bool>>;

/// The length of the second axis of a `BoolArray2`.
pub uninterp spec fn bool_array2_ncols(a: BoolArray2) -> nat;

impl View for BoolArray2 {
    type V = Seq<Seq<bool>>;

    open spec fn view(&self) -> Seq<Seq<bool>> {
        bool_array2_rows(*self)
    }
}

/// Calls `ndarray::Array2::from_elem`. Claims that the result has the
/// requested shape and holds `value` everywhere. The `requires` keeps out the
/// shapes on which `ndarray` or the allocation of the buffer panics.
#[verifier::external_body]
fn bool_array2_from_elem(rows: usize, cols: usize, value: bool) -> (a: BoolArray2)
    requires
        shape_fits(rows as int, cols as int),
    ensures
        bool_array2_rows(a).len() == rows,
        bool_array2_ncols(a) == cols,
        is_rect(bool_array2_rows(a), cols as nat),
        forall|i: int, j: int|
            0 <= i < rows && 0 <= j < cols ==> #[trigger] bool_array2_rows(a)[i][j] == value,
{
    BoolArray2 { inner: ndarray::Array2::from_elem((rows, cols), value) }
}

/// Calls `ndarray::ArrayBase::dim`. Claims that it returns the lengths of the
/// two axes, and that every row has the length of the second axis.
#[verifier::external_body]
fn bool_array2_dim(a: &BoolArray2) -> (d: (usize, usize))
    ensures
        d.0 == bool_array2_rows(*a).len(),
        d.1 == bool_array2_ncols(*a),
        is_rect(bool_array2_rows(*a), d.1 as nat),
{
    a.inner.dim()
}

/// Indexes the array with `[row, col]`. Claims that the element at that place
/// is returned. The `requires` keeps out the indices on which `ndarray`
/// panics.
#[verifier::external_body]
fn bool_array2_get(a: &BoolArray2, row: usize, col: usize) -> (v: bool)
    requires
        row < bool_array2_rows(*a).len(),
        col < bool_array2_ncols(*a),
    ensures
        v == bool_array2_rows(*a)[row as int][col as int],
{
    a.inner[[row, col]]
}

/// Assigns through the array's mutable index `[row, col]`. Claims that this
/// element becomes `value` and that nothing else changes.
#[verifier::external_body]
fn bool_array2_set(a: &mut BoolArray2, row: usize, col: usize, value: bool)
    requires
        row < bool_array2_rows(*old(a)).len(),
        col < bool_array2_ncols(*old(a)),
    ensures
        bool_array2_ncols(*final(a)) == bool_array2_ncols(*old(a)),
        bool_array2_rows(*final(a)) == bool_array2_rows(*old(a)).update(
            row as int,
            bool_array2_rows(*old(a))[row as int].update(col as int, value),
        ),
{
    a.inner[[row, col]] = value;
}

/// Calls `ndarray::concatenate` along the second axis. Claims that it
/// succeeds exactly when the two arrays have the same number of rows, and that
/// each row of the result is then the row of `a` followed by the row of `b`.
/// The `requires` keeps out the sizes on which the sum of the lengths or the
/// allocation overflows.
#[verifier::external_body]
fn bool_array2_concat(a: &BoolArray2, b: &BoolArray2) -> (r: Result<
    BoolArray2,
    ndarray::ShapeError,
>)
    requires
        shape_fits(
            bool_array2_rows(*a).len() as int,
            (bool_array2_ncols(*a) + bool_array2_ncols(*b)) as int,
        ),
    ensures
        r is Ok <==> bool_array2_rows(*a).len() == bool_array2_rows(*b).len(),
        r matches Ok(c) ==> {
            &&& bool_array2_rows(c) == join_rows(bool_array2_rows(*a), bool_array2_rows(*b))
            &&& bool_array2_ncols(c) == bool_array2_ncols(*a) + bool_array2_ncols(*b)
            &&& is_rect(bool_array2_rows(c), bool_array2_ncols(c))
        },
{
    ndarray::concatenate(ndarray::Axis(1), &[a.inner.view(), b.inner.view()]).map(
        |inner| BoolArray2 { inner },
    )
}

/// Calls `Clone::clone` of the `ndarray` array. Claims that the copy has the
/// shape and the elements of the array.
#[verifier::external_body]
fn bool_array2_clone(a: &BoolArray2) -> (c: BoolArray2)
    ensures
        bool_array2_rows(c) == bool_array2_rows(*a),
        bool_array2_ncols(c) == bool_array2_ncols(*a),
{
    BoolArray2 { inner: a.inner.clone() }
}

impl Clone for BoolArray2 {
    /// A copy with the same shape and the same elements.
    fn clone(&self) -> (c: Self)
        ensures
            c@ == self@,
            c.spec_ncols() == self.spec_ncols(),
    {
        bool_array2_clone(self)
    }
}

impl BoolArray2 {
    /// The length of the second axis.
    pub open spec fn spec_ncols(&self) -> nat {
        bool_array2_ncols(*self)
    }

    /// Whether `(row, col)` is a place in this array.
    pub open spec fn has(&self, row: int, col: int) -> bool {
        0 <= row < self@.len() && 0 <= col < self.spec_ncols()
    }

    /// An array of `rows` by `cols` copies of `value`.
    pub fn from_elem(rows: usize, cols: usize, value: bool) -> (a: BoolArray2)
        requires
            shape_fits(rows as int, cols as int),
        ensures
            a@.len() == rows,
            a.spec_ncols() == cols,
            is_rect(a@, cols as nat),
            forall|i: int, j: int|
                0 <= i < rows && 0 <= j < cols ==> #[trigger] a@[i][j] == value,
    {
        bool_array2_from_elem(rows, cols, value)
    }

    /// The shape: number of rows, number of columns.
    pub fn dim(&self) -> (d: (usize, usize))
        ensures
            d.0 == self@.len(),
            d.1 == self.spec_ncols(),
            is_rect(self@, self.spec_ncols()),
    {
        bool_array2_dim(self)
    }

    /// The element at `(row, col)`, or `None` outside the array.
    pub fn get(&self, row: usize, col: usize) -> (v: Option<bool>)
        ensures
            v == (if self.has(row as int, col as int) {
                Some(self@[row as int][col as int])
            } else {
                None
            }),
    {
        let d = bool_array2_dim(self);
        if row < d.0 && col < d.1 {
            Some(bool_array2_get(self, row, col))
        } else {
            None
        }
    }

    /// Stores `value` at `(row, col)` and leaves the rest as it is.
    pub fn set(&mut self, row: usize, col: usize, value: bool)
        requires
            old(self).has(row as int, col as int),
        ensures
            final(self).spec_ncols() == old(self).spec_ncols(),
            final(self)@ == old(self)@.update(
                row as int,
                old(self)@[row as int].update(col as int, value),
            ),
    {
        bool_array2_set(self, row, col, value)
    }

    /// This array followed, row by row, by `other`; `None` when the row
    /// counts differ.
    pub fn concat(&self, other: &BoolArray2) -> (r: Option<BoolArray2>)
        requires
            shape_fits(self@.len() as int, (self.spec_ncols() + other.spec_ncols()) as int),
        ensures
            r is Some <==> self@.len() == other@.len(),
            r matches Some(c) ==> {
                &&& c@ == join_rows(self@, other@)
                &&& c.spec_ncols() == self.spec_ncols() + other.spec_ncols()
                &&& is_rect(c@, c.spec_ncols())
            },
    {
        match bool_array2_concat(self, other) {
            Ok(c) => Some(c),
            Err(_) => None,
        }
    }
}

// ---------------------------------------------------------------------------
// One-dimensional array of i32
// ---------------------------------------------------------------------------

/// A one-dimensional array of `i32`.
#[verifier::external_body]
#[derive(Debug)]
pub struct IntArray1 {
    inner: ndarray::Array1<i32>,
}

/// The elements of an `IntArray1`, in order.
pub uninterp spec fn int_array1_items(a: IntArray1) -> Seq<i32>;

impl View for IntArray1 {
    type V = Seq<i32>;

    open spec fn view(&self) -> Seq<i32> {
        int_array1_items(*self)
    }
}

/// Calls `ndarray::Array1::zeros`. Claims that the result has `len` elements,
/// all zero. The `requires` keeps out the lengths on which `ndarray` or the
/// allocation of the buffer panics.
#[verifier::external_body]
fn int_array1_zeros(len: usize) -> (a: IntArray1)
    requires
        shape_fits(1, len as int),
    ensures
        int_array1_items(a).len() == len,
        forall|i: int| 0 <= i < len ==> #[trigger] int_array1_items(a)[i] == 0,
{
    IntArray1 { inner: ndarray::Array1::zeros(len) }
}

/// Calls `ndarray::ArrayBase::len`. Claims that it returns the number of
/// elements.
#[verifier::external_body]
fn int_array1_len(a: &IntArray1) -> (n: usize)
    ensures
        n == int_array1_items(*a).len(),
{
    a.inner.len()
}

/// Indexes the array with `[index]`. Claims that the element at that place is
/// returned. The `requires` keeps out the indices on which `ndarray` panics.
#[verifier::external_body]
fn int_array1_get(a: &IntArray1, index: usize) -> (v: i32)
    requires
        index < int_array1_items(*a).len(),
    ensures
        v == int_array1_items(*a)[index as int],
{
    a.inner[index]
}

/// Assigns through the array's mutable index `[index]`. Claims that this
/// element becomes `value` and that nothing else changes.
#[verifier::external_body]
fn int_array1_set(a: &mut IntArray1, index: usize, value: i32)
    requires
        index < int_array1_items(*old(a)).len(),
    ensures
        int_array1_items(*final(a)) == int_array1_items(*old(a)).update(index as int, value),
{
    a.inner[index] = value;
}

/// Calls `ndarray::concatenate` along the only axis. Claims that, within the
/// sizes that `requires` admits, it succeeds and the result is `a` followed by
/// `b`: one-dimensional arrays cannot disagree in shape, so the only failure
/// left is a result too large to represent.
#[verifier::external_body]
fn int_array1_concat(a: &IntArray1, b: &IntArray1) -> (r: Result<IntArray1, ndarray::ShapeError>)
    requires
        shape_fits(1, (int_array1_items(*a).len() + int_array1_items(*b).len()) as int),
    ensures
        r is Ok,
        r matches Ok(c) ==> int_array1_items(c) == int_array1_items(*a) + int_array1_items(*b),
{
    ndarray::concatenate(ndarray::Axis(0), &[a.inner.view(), b.inner.view()]).map(
        |inner| IntArray1 { inner },
    )
}

/// Calls `Clone::clone` of the `ndarray` array. Claims that the copy has the
/// elements of the array, in order.
#[verifier::external_body]
fn int_array1_clone(a: &IntArray1) -> (c: IntArray1)
    ensures
        int_array1_items(c) == int_array1_items(*a),
{
    IntArray1 { inner: a.inner.clone() }
}

impl Clone for IntArray1 {
    /// A copy with the same elements.
    fn clone(&self) -> (c: Self)
        ensures
            c@ == self@,
    {
        int_array1_clone(self)
    }
}

impl IntArray1 {
    /// An array of `len` zeros.
    pub fn zeros(len: usize) -> (a: IntArray1)
        requires
            shape_fits(1, len as int),
        ensures
            a@.len() == len,
            forall|i: int| 0 <= i < len ==> #[trigger] a@[i] == 0,
    {
        int_array1_zeros(len)
    }

    /// The number of elements.
    pub fn len(&self) -> (n: usize)
        ensures
            n == self@.len(),
    {
        int_array1_len(self)
    }

    /// The element at `index`, or `None` past the end.
    pub fn get(&self, index: usize) -> (v: Option<i32>)
        ensures
            v == (if index < self@.len() {
                Some(self@[index as int])
            } else {
                None
            }),
    {
        if index < int_array1_len(self) {
            Some(int_array1_get(self, index))
        } else {
            None
        }
    }

    /// The element at `index`.
    pub fn at(&self, index: usize) -> (v: i32)
        requires
            index < self@.len(),
        ensures
            v == self@[index as int],
    {
        int_array1_get(self, index)
    }

    /// Stores `value` at `index` and leaves the rest as it is.
    pub fn set(&mut self, index: usize, value: i32)
        requires
            index < old(self)@.len(),
        ensures
            final(self)@ == old(self)@.update(index as int, value),
    {
        int_array1_set(self, index, value)
    }

    /// This array followed by `other`.
    pub fn concat(&self, other: &IntArray1) -> (c: IntArray1)
        requires
            shape_fits(1, (self@.len() + other@.len()) as int),
        ensures
            c@ == self@ + other@,
    {
        match int_array1_concat(self, other) {
            Ok(c) => c,
            Err(_) => IntArray1::zeros(0),
        }
    }
}

} // verus!
