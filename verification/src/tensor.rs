//! The tensor value type and its shape-checked operations.
//!
//! A tensor owns a flat row-major buffer of element words and a shape whose
//! dimension product always equals the buffer length.  Every operation first
//! validates shapes, then either runs a proved local loop or dispatches to the
//! shared backend handle, and finally rebuilds a tensor that re-establishes
//! the length invariant.  Tensors are immutable values: operations never
//! mutate their operands.

use std::sync::Arc;

use vstd::prelude::*;
use vstd::slice::slice_to_vec;

use vstd::arithmetic::div_mod::{lemma_fundamental_div_mod, lemma_fundamental_div_mod_converse};

use crate::backend::{mat_col, mat_row, Backend, DeviceType};
use crate::shape::{
    checked_product, dims_equal, lemma_shape_product_pair, lemma_shape_product_single,
    shape_product,
};

verus! {

/// The element word of the scalar zero.
pub const ZERO_WORD: u32 = 0x0000_0000;

/// The element word of the scalar one.
pub const ONE_WORD: u32 = 0x3F80_0000;

/// The element word of negative infinity, the neutral start of a running
/// maximum.
pub const NEG_INFINITY_WORD: u32 = 0xFF80_0000;

/// A shape or usage violation detected by the validation layer before any
/// backend dispatch.
#[derive(Debug, Clone)]
pub enum TensorError {
    InvalidShape { expected: Vec<usize>, got: Vec<usize> },
    InvalidDataLength { expected: usize, got: usize },
    InvalidOperation { op: &'static str, reason: String },
    InvalidAxis { axis: usize, shape: Vec<usize> },
    MatrixMultiplicationError { left_shape: Vec<usize>, right_shape: Vec<usize> },
    InvalidBackend { backend: DeviceType },
}

/// Whether every row has exactly `cols` elements.
pub open spec fn rows_uniform(rows: Seq<Seq<u32>>, cols: int) -> bool {
    forall|i: int| 0 <= i < rows.len() ==> #[trigger] rows[i].len() == cols
}

/// The row-major concatenation of a list of rows.
pub open spec fn concat_rows(rows: Seq<Seq<u32>>) -> Seq<u32>
    decreases rows.len(),
{
    if rows.len() == 0 {
        Seq::empty()
    } else {
        concat_rows(rows.drop_last()) + rows.last()
    }
}

/// Concatenating uniform rows yields one element per position of the grid.
proof fn lemma_concat_rows_len(rows: Seq<Seq<u32>>, cols: int)
    requires
        cols >= 0,
        rows_uniform(rows, cols),
    ensures
        concat_rows(rows).len() == rows.len() * cols,
    decreases rows.len(),
{
    if rows.len() > 0 {
        assert(rows_uniform(rows.drop_last(), cols));
        lemma_concat_rows_len(rows.drop_last(), cols);
        assert((rows.len() - 1) * cols + cols == rows.len() * cols) by (nonlinear_arith);
    }
}

/// A position inside a row-major grid stays inside the buffer.
proof fn lemma_grid_index(rows: int, cols: int, i: int, j: int)
    requires
        0 <= i < rows,
        0 <= j < cols,
    ensures
        0 <= i * cols + j < rows * cols,
{
    assert(0 <= i * cols + j < rows * cols) by (nonlinear_arith)
        requires
            0 <= i < rows,
            0 <= j < cols,
    ;
}

/// The buffer of the transposed matrix: output position `o` holds the element
/// at row `o % rows` and column `o / rows` of the original `rows x cols`
/// buffer.
pub open spec fn transpose_seq(d: Seq<u32>, rows: int, cols: int) -> Seq<u32> {
    Seq::new((rows * cols) as nat, |o: int| d[(o % rows) * cols + o / rows])
}

/// Transposition is self-inverse: transposing a matrix buffer twice
/// reproduces it exactly.
pub proof fn lemma_transpose_involutive(d: Seq<u32>, rows: int, cols: int)
    requires
        rows >= 0,
        cols >= 0,
        d.len() == rows * cols,
    ensures
        transpose_seq(transpose_seq(d, rows, cols), cols, rows) == d,
{
    let t1 = transpose_seq(d, rows, cols);
    let t2 = transpose_seq(t1, cols, rows);
    assert(rows * cols == cols * rows) by (nonlinear_arith);
    assert forall|o: int| 0 <= o < d.len() implies t2[o] == d[o] by {
        assert(cols > 0) by (nonlinear_arith)
            requires
                0 <= o < rows * cols,
                rows >= 0,
        ;
        let i = o / cols;
        let j = o % cols;
        lemma_fundamental_div_mod(o, cols);
        assert(0 <= j < cols);
        assert(0 <= i < rows) by (nonlinear_arith)
            requires
                o == cols * i + j,
                0 <= o < rows * cols,
                0 <= j < cols,
                cols > 0,
        ;
        let q = j * rows + i;
        lemma_grid_index(cols, rows, j, i);
        lemma_fundamental_div_mod_converse(q, rows, j, i);
        assert(t2[o] == t1[q]);
        assert(t1[q] == d[i * cols + j]);
        assert(o == i * cols + j) by (nonlinear_arith)
            requires
                o == cols * i + j,
        ;
    }
    assert(t2 =~= d);
}

/// The running sum of the first `count` elements of column `j` of a row-major
/// matrix buffer with `cols` columns, folded top to bottom from the zero word.
pub open spec fn col_sum<B: Backend>(d: Seq<u32>, cols: int, j: int, count: int) -> u32
    decreases count,
{
    if count <= 0 {
        ZERO_WORD
    } else {
        B::add_spec(col_sum::<B>(d, cols, j, count - 1), d[(count - 1) * cols + j])
    }
}

/// The running sum of the first `count` elements of row `i` of a row-major
/// matrix buffer with `cols` columns, folded left to right from the zero word.
pub open spec fn row_sum<B: Backend>(d: Seq<u32>, cols: int, i: int, count: int) -> u32
    decreases count,
{
    if count <= 0 {
        ZERO_WORD
    } else {
        B::add_spec(row_sum::<B>(d, cols, i, count - 1), d[i * cols + (count - 1)])
    }
}

/// The running maximum of the first `count` elements of column `j`, folded
/// top to bottom from the negative-infinity word.
pub open spec fn col_max<B: Backend>(d: Seq<u32>, cols: int, j: int, count: int) -> u32
    decreases count,
{
    if count <= 0 {
        NEG_INFINITY_WORD
    } else {
        B::max_spec(col_max::<B>(d, cols, j, count - 1), d[(count - 1) * cols + j])
    }
}

/// The running maximum of the first `count` elements of row `i`, folded left
/// to right from the negative-infinity word.
pub open spec fn row_max<B: Backend>(d: Seq<u32>, cols: int, i: int, count: int) -> u32
    decreases count,
{
    if count <= 0 {
        NEG_INFINITY_WORD
    } else {
        B::max_spec(row_max::<B>(d, cols, i, count - 1), d[i * cols + (count - 1)])
    }
}

/// A tensor value: a flat row-major element buffer, its shape, and the shared
/// handle of the backend that executes its numeric operations.
#[derive(Clone)]
pub struct Tensor<B: Backend> {
    data: Vec<u32>,
    shape: Vec<usize>,
    backend: Arc<B>,
}

/// Relies on `std::sync::Arc::clone`: the cloned handle refers to the same
/// backend value as the original.
#[verifier::external_body]
fn clone_handle<B: Backend>(backend: &Arc<B>) -> (r: Arc<B>)
    ensures
        r == *backend,
{
    Arc::clone(backend)
}

impl<B: Backend> Tensor<B> {
    /// The element buffer, in row-major order.
    pub closed spec fn spec_data(&self) -> Seq<u32> {
        self.data@
    }

    /// The shape descriptor.
    pub closed spec fn spec_shape(&self) -> Seq<usize> {
        self.shape@
    }

    /// The shared backend handle.
    pub closed spec fn spec_backend(&self) -> Arc<B> {
        self.backend
    }

    /// The length invariant every tensor maintains: the shape describes
    /// exactly as many elements as the buffer holds.
    pub open spec fn wf(&self) -> bool {
        self.spec_data().len() == shape_product(self.spec_shape())
    }

    /// Whether this tensor is a matrix, with the given dimensions.
    pub open spec fn is_matrix(&self, rows: int, cols: int) -> bool {
        &&& self.spec_shape().len() == 2
        &&& self.spec_shape()[0] == rows
        &&& self.spec_shape()[1] == cols
    }

    /// Builds a tensor from a flat buffer and an explicit shape, validating
    /// that the shape describes exactly `data.len()` elements; the backend
    /// handle is taken as given and shared unchanged.
    pub fn from_vec(data: Vec<u32>, shape: &[usize], backend: Arc<B>) -> (r: Result<
        Tensor<B>,
        TensorError,
    >)
        ensures
            shape_product(shape@) == data@.len() ==> (r matches Ok(t) && t.wf()
                && t.spec_data() == data@ && t.spec_shape() == shape@ && t.spec_backend()
                == backend),
            shape_product(shape@) != data@.len() ==> (r matches Err(
                TensorError::InvalidDataLength { expected, got },
            ) && got == data@.len() && (shape_product(shape@) <= usize::MAX ==> expected
                == shape_product(shape@)) && (shape_product(shape@) > usize::MAX ==> expected
                == usize::MAX)),
    {
        match checked_product(shape) {
            Some(expected_len) => {
                if data.len() != expected_len {
                    return Err(TensorError::InvalidDataLength {
                        expected: expected_len,
                        got: data.len(),
                    });
                }
                Ok(Tensor { data, shape: slice_to_vec(shape), backend })
            },
            None => Err(TensorError::InvalidDataLength {
                expected: usize::MAX,
                got: data.len(),
            }),
        }
    }

    /// Builds a matrix from a non-empty list of equally long rows, inferring
    /// the two-dimensional shape; an empty list or ragged rows are malformed
    /// input and rejected.
    pub fn new(data: Vec<Vec<u32>>, backend: Arc<B>) -> (r: Result<Tensor<B>, TensorError>)
        ensures
            ({
                let dv = data.deep_view();
                &&& (dv.len() == 0 ==> (r matches Err(
                    TensorError::InvalidOperation { op, reason },
                ) && op@ == "new"@ && reason@ == "the row list is empty"@))
                &&& (dv.len() > 0 && rows_uniform(dv, dv[0].len() as int) ==> (r matches Ok(t)
                    && t.wf() && t.is_matrix(dv.len() as int, dv[0].len() as int)
                    && t.spec_data() == concat_rows(dv) && t.spec_backend() == backend))
                &&& (dv.len() > 0 && !rows_uniform(dv, dv[0].len() as int) ==> (r matches Err(
                    TensorError::InvalidDataLength { expected, got },
                ) && expected == dv[0].len() && (exists|i: int|
                    0 <= i < dv.len() && #[trigger] dv[i].len() != dv[0].len() && got
                        == dv[i].len() && (forall|j: int|
                        0 <= j < i ==> #[trigger] dv[j].len() == dv[0].len()))))
            }),
    {
        let ghost dv = data.deep_view();
        let rows = data.len();
        if rows == 0 {
            return Err(TensorError::InvalidOperation {
                op: "new",
                reason: "the row list is empty".to_owned(),
            });
        }
        let cols = data[0].len();
        let mut i: usize = 0;
        while i < rows
            invariant
                rows == dv.len(),
                dv.len() > 0,
                cols == dv[0].len(),
                0 <= i <= rows,
                forall|j: int| 0 <= j < i ==> #[trigger] dv[j].len() == cols,
                dv == data.deep_view(),
            decreases rows - i,
        {
            if data[i].len() != cols {
                proof {
                    assert(dv[i as int] == data@[i as int].deep_view());
                    assert(dv[i as int].len() == data@[i as int]@.len());
                    assert(dv[i as int].len() != dv[0].len());
                }
                return Err(TensorError::InvalidDataLength { expected: cols, got: data[i].len() });
            }
            i += 1;
        }
        let mut flat: Vec<u32> = Vec::new();
        let mut i: usize = 0;
        proof {
            assert(concat_rows(dv.subrange(0, 0)) =~= Seq::<u32>::empty());
        }
        while i < rows
            invariant
                rows == dv.len(),
                cols == dv[0].len(),
                rows_uniform(dv, cols as int),
                0 <= i <= rows,
                flat@ == concat_rows(dv.subrange(0, i as int)),
                dv == data.deep_view(),
            decreases rows - i,
        {
            let row = &data[i];
            let mut j: usize = 0;
            proof {
                assert(flat@ =~= concat_rows(dv.subrange(0, i as int)) + dv[i as int].subrange(
                    0,
                    0,
                ));
            }
            while j < cols
                invariant
                    rows == dv.len(),
                    0 <= i < rows,
                    cols == dv[0].len(),
                    rows_uniform(dv, cols as int),
                    row == data@[i as int],
                    row@ == dv[i as int],
                    0 <= j <= cols,
                    flat@ == concat_rows(dv.subrange(0, i as int)) + dv[i as int].subrange(
                        0,
                        j as int,
                    ),
                    dv == data.deep_view(),
                decreases cols - j,
            {
                flat.push(row[j]);
                proof {
                    assert(flat@ =~= concat_rows(dv.subrange(0, i as int)) + dv[i as int].subrange(
                        0,
                        j as int + 1,
                    ));
                }
                j += 1;
            }
            proof {
                let prefix = dv.subrange(0, i as int + 1);
                assert(prefix.drop_last() =~= dv.subrange(0, i as int));
                assert(prefix.last() =~= dv[i as int].subrange(0, cols as int));
                assert(flat@ =~= concat_rows(dv.subrange(0, i as int + 1)));
            }
            i += 1;
        }
        let mut shape: Vec<usize> = Vec::new();
        shape.push(rows);
        shape.push(cols);
        proof {
            assert(dv.subrange(0, rows as int) =~= dv);
            lemma_concat_rows_len(dv, cols as int);
            lemma_shape_product_pair(shape@);
        }
        Ok(Tensor { data: flat, shape, backend })
    }

    /// The shape descriptor, one dimension size per axis.
    pub fn shape(&self) -> (r: &[usize])
        ensures
            r@ == self.spec_shape(),
    {
        self.shape.as_slice()
    }

    /// The shared backend handle, for callers that build further tensors on
    /// the same device.
    pub fn backend(&self) -> (r: &Arc<B>)
        ensures
            *r == self.spec_backend(),
    {
        &self.backend
    }

    /// The flat element buffer, in row-major order.
    pub fn data(&self) -> (r: &[u32])
        ensures
            r@ == self.spec_data(),
    {
        self.data.as_slice()
    }

    /// Reinterprets the buffer under a new shape describing the same number
    /// of elements; the buffer itself is carried over unchanged.
    pub fn reshape(&self, new_shape: &[usize]) -> (r: Result<Tensor<B>, TensorError>)
        requires
            self.wf(),
        ensures
            shape_product(new_shape@) == self.spec_data().len() ==> (r matches Ok(t) && t.wf()
                && t.spec_data() == self.spec_data() && t.spec_shape() == new_shape@
                && t.spec_backend() == self.spec_backend()),
            shape_product(new_shape@) != self.spec_data().len() ==> (r matches Err(
                TensorError::InvalidShape { expected, got },
            ) && expected@ == new_shape@ && got@ == seq![self.spec_data().len() as usize]),
    {
        let current_size = self.data.len();
        let matches_len = match checked_product(new_shape) {
            Some(new_size) => new_size == current_size,
            None => false,
        };
        if !matches_len {
            let mut got: Vec<usize> = Vec::new();
            got.push(current_size);
            return Err(TensorError::InvalidShape { expected: slice_to_vec(new_shape), got });
        }
        Ok(Tensor {
            data: slice_to_vec(self.data.as_slice()),
            shape: slice_to_vec(new_shape),
            backend: clone_handle(&self.backend),
        })
    }

    /// Swaps the two axes of a matrix; any other rank is a shape violation.
    pub fn transpose(&self) -> (r: Result<Tensor<B>, TensorError>)
        requires
            self.wf(),
        ensures
            self.spec_shape().len() == 2 ==> (r matches Ok(t) && t.wf() && t.is_matrix(
                self.spec_shape()[1] as int,
                self.spec_shape()[0] as int,
            ) && t.spec_data() == transpose_seq(
                self.spec_data(),
                self.spec_shape()[0] as int,
                self.spec_shape()[1] as int,
            ) && t.spec_backend() == self.spec_backend()),
            self.spec_shape().len() != 2 ==> (r matches Err(
                TensorError::InvalidShape { expected, got },
            ) && expected@ == seq![2usize] && got@ == self.spec_shape()),
    {
        if self.shape.len() != 2 {
            let mut expected: Vec<usize> = Vec::new();
            expected.push(2);
            return Err(TensorError::InvalidShape {
                expected,
                got: slice_to_vec(self.shape.as_slice()),
            });
        }
        let m = self.shape[0];
        let n = self.shape[1];
        proof {
            lemma_shape_product_pair(self.spec_shape());
        }
        let ghost d = self.spec_data();
        let ghost t = transpose_seq(d, m as int, n as int);
        let len = self.data.len();
        let mut result: Vec<u32> = Vec::new();
        let mut o: usize = 0;
        while o < len
            invariant
                len == d.len(),
                len == (m as int) * (n as int),
                t == transpose_seq(d, m as int, n as int),
                d == self.spec_data(),
                0 <= o <= len,
                result@.len() == o,
                forall|p: int| 0 <= p < o ==> #[trigger] result@[p] == t[p],
            decreases len - o,
        {
            proof {
                assert(m > 0) by (nonlinear_arith)
                    requires
                        0 <= o < (m as int) * (n as int),
                ;
                let i = (o as int) % (m as int);
                let j = (o as int) / (m as int);
                lemma_fundamental_div_mod(o as int, m as int);
                assert(0 <= j < n) by (nonlinear_arith)
                    requires
                        o as int == (m as int) * j + i,
                        0 <= o < (m as int) * (n as int),
                        0 <= i < m,
                        m > 0,
                ;
                lemma_grid_index(m as int, n as int, i, j);
            }
            let idx = (o % m) * n + o / m;
            result.push(self.data[idx]);
            o += 1;
        }
        let mut shape: Vec<usize> = Vec::new();
        shape.push(n);
        shape.push(m);
        proof {
            lemma_shape_product_pair(shape@);
            assert((n as int) * (m as int) == (m as int) * (n as int)) by (nonlinear_arith);
            assert(result@ =~= t);
        }
        Ok(Tensor { data: result, shape, backend: clone_handle(&self.backend) })
    }

    /// Dense matrix product: a `m x k` tensor times a `k x n` tensor yields
    /// the `m x n` tensor whose entries are this backend's dot products of
    /// rows against columns.  Operands that are not matrices, or whose inner
    /// dimensions disagree, are a matrix-multiplication violation carrying
    /// both shapes.
    pub fn matmul(&self, other: &Tensor<B>) -> (r: Result<Tensor<B>, TensorError>)
        requires
            self.wf(),
            other.wf(),
            self.spec_shape().len() == 2 && other.spec_shape().len() == 2
                && self.spec_shape()[1] == other.spec_shape()[0] ==> (self.spec_shape()[0] as int)
                * (other.spec_shape()[1] as int) <= usize::MAX,
        ensures
            ({
                let m = self.spec_shape()[0] as int;
                let k = self.spec_shape()[1] as int;
                let n = other.spec_shape()[1] as int;
                let valid = self.spec_shape().len() == 2 && other.spec_shape().len() == 2
                    && self.spec_shape()[1] == other.spec_shape()[0];
                &&& valid ==> (r matches Ok(t) && t.wf() && t.is_matrix(m, n) && t.spec_data().len()
                    == m * n && (forall|i: int, j: int|
                    #![trigger mat_row(self.spec_data(), i, k), mat_col(other.spec_data(), j, k, n)]
                    0 <= i < m && 0 <= j < n ==> t.spec_data()[i * n + j] == B::dot_spec(
                        mat_row(self.spec_data(), i, k),
                        mat_col(other.spec_data(), j, k, n),
                    )) && t.spec_backend() == self.spec_backend())
                &&& !valid ==> (r matches Err(
                    TensorError::MatrixMultiplicationError { left_shape, right_shape },
                ) && left_shape@ == self.spec_shape() && right_shape@ == other.spec_shape())
            }),
    {
        if !(self.shape.len() == 2 && other.shape.len() == 2 && self.shape[1] == other.shape[0]) {
            return Err(TensorError::MatrixMultiplicationError {
                left_shape: slice_to_vec(self.shape.as_slice()),
                right_shape: slice_to_vec(other.shape.as_slice()),
            });
        }
        let m = self.shape[0];
        let k = self.shape[1];
        let n = other.shape[1];
        proof {
            lemma_shape_product_pair(self.spec_shape());
            lemma_shape_product_pair(other.spec_shape());
        }
        let result = self.backend.matmul(&self.data, &other.data, m, k, n);
        let mut dims: Vec<usize> = Vec::new();
        dims.push(m);
        dims.push(n);
        proof {
            lemma_shape_product_pair(dims@);
        }
        Tensor::from_vec(result, dims.as_slice(), clone_handle(&self.backend))
    }

    /// Whether `other` is the row vector the one supported broadcast case
    /// combines with every row of this matrix.
    pub open spec fn row_broadcast_with(&self, other: &Tensor<B>) -> bool {
        &&& self.spec_shape().len() == 2
        &&& other.spec_shape().len() == 1
        &&& self.spec_shape()[1] == other.spec_shape()[0]
    }

    /// Elementwise addition.  Equal shapes combine position by position; a
    /// matrix and a matching row vector combine by adding the row vector to
    /// every row; any other pair of shapes is a shape violation.
    pub fn add(&self, other: &Tensor<B>) -> (r: Result<Tensor<B>, TensorError>)
        requires
            self.wf(),
            other.wf(),
        ensures
            ({
                let cols = self.spec_shape()[1] as int;
                &&& self.row_broadcast_with(other) ==> (r matches Ok(t) && t.wf() && t.spec_shape()
                    == self.spec_shape() && t.spec_data().len() == self.spec_data().len() && (
                forall|p: int|
                    0 <= p < self.spec_data().len() ==> #[trigger] t.spec_data()[p] == B::add_spec(
                        self.spec_data()[p],
                        other.spec_data()[p % cols],
                    )) && t.spec_backend() == self.spec_backend())
                &&& !self.row_broadcast_with(other) && self.spec_shape() == other.spec_shape()
                    ==> (r matches Ok(t) && t.wf() && t.spec_shape() == self.spec_shape() && (
                forall|p: int|
                    0 <= p < self.spec_data().len() ==> #[trigger] t.spec_data()[p] == B::add_spec(
                        self.spec_data()[p],
                        other.spec_data()[p],
                    )) && t.spec_backend() == self.spec_backend())
                &&& !self.row_broadcast_with(other) && self.spec_shape() != other.spec_shape()
                    ==> (r matches Err(TensorError::InvalidShape { expected, got }) && expected@
                    == self.spec_shape() && got@ == other.spec_shape())
            }),
    {
        if self.shape.len() == 2 && other.shape.len() == 1 && self.shape[1] == other.shape[0] {
            let cols = self.shape[1];
            proof {
                lemma_shape_product_pair(self.spec_shape());
                lemma_shape_product_single(other.spec_shape());
            }
            let len = self.data.len();
            let mut result: Vec<u32> = Vec::new();
            let mut p: usize = 0;
            while p < len
                invariant
                    self.wf(),
                    other.wf(),
                    self.spec_shape().len() == 2,
                    cols == self.spec_shape()[1],
                    len == self.spec_data().len(),
                    len == (self.spec_shape()[0] as int) * (cols as int),
                    other.spec_data().len() == cols,
                    0 <= p <= len,
                    result@.len() == p,
                    forall|q: int|
                        0 <= q < p ==> #[trigger] result@[q] == B::add_spec(
                            self.spec_data()[q],
                            other.spec_data()[q % (cols as int)],
                        ),
                decreases len - p,
            {
                proof {
                    assert(cols > 0) by (nonlinear_arith)
                        requires
                            0 <= p < (self.spec_shape()[0] as int) * (cols as int),
                    ;
                }
                let v = self.backend.scalar_add(self.data[p], other.data[p % cols]);
                result.push(v);
                p += 1;
            }
            return Tensor::from_vec(result, self.shape.as_slice(), clone_handle(&self.backend));
        }
        if !dims_equal(self.shape.as_slice(), other.shape.as_slice()) {
            return Err(TensorError::InvalidShape {
                expected: slice_to_vec(self.shape.as_slice()),
                got: slice_to_vec(other.shape.as_slice()),
            });
        }
        let result = self.backend.add(&self.data, &other.data);
        Tensor::from_vec(result, self.shape.as_slice(), clone_handle(&self.backend))
    }

    /// Elementwise subtraction, with the same shape rules as addition: equal
    /// shapes, or a matrix minus a matching row vector.
    pub fn sub(&self, other: &Tensor<B>) -> (r: Result<Tensor<B>, TensorError>)
        requires
            self.wf(),
            other.wf(),
        ensures
            ({
                let cols = self.spec_shape()[1] as int;
                &&& self.row_broadcast_with(other) ==> (r matches Ok(t) && t.wf() && t.spec_shape()
                    == self.spec_shape() && t.spec_data().len() == self.spec_data().len() && (
                forall|p: int|
                    0 <= p < self.spec_data().len() ==> #[trigger] t.spec_data()[p] == B::sub_spec(
                        self.spec_data()[p],
                        other.spec_data()[p % cols],
                    )) && t.spec_backend() == self.spec_backend())
                &&& !self.row_broadcast_with(other) && self.spec_shape() == other.spec_shape()
                    ==> (r matches Ok(t) && t.wf() && t.spec_shape() == self.spec_shape() && (
                forall|p: int|
                    0 <= p < self.spec_data().len() ==> #[trigger] t.spec_data()[p] == B::sub_spec(
                        self.spec_data()[p],
                        other.spec_data()[p],
                    )) && t.spec_backend() == self.spec_backend())
                &&& !self.row_broadcast_with(other) && self.spec_shape() != other.spec_shape()
                    ==> (r matches Err(TensorError::InvalidShape { expected, got }) && expected@
                    == self.spec_shape() && got@ == other.spec_shape())
            }),
    {
        if self.shape.len() == 2 && other.shape.len() == 1 && self.shape[1] == other.shape[0] {
            let cols = self.shape[1];
            proof {
                lemma_shape_product_pair(self.spec_shape());
                lemma_shape_product_single(other.spec_shape());
            }
            let len = self.data.len();
            let mut result: Vec<u32> = Vec::new();
            let mut p: usize = 0;
            while p < len
                invariant
                    self.wf(),
                    other.wf(),
                    self.spec_shape().len() == 2,
                    cols == self.spec_shape()[1],
                    len == self.spec_data().len(),
                    len == (self.spec_shape()[0] as int) * (cols as int),
                    other.spec_data().len() == cols,
                    0 <= p <= len,
                    result@.len() == p,
                    forall|q: int|
                        0 <= q < p ==> #[trigger] result@[q] == B::sub_spec(
                            self.spec_data()[q],
                            other.spec_data()[q % (cols as int)],
                        ),
                decreases len - p,
            {
                proof {
                    assert(cols > 0) by (nonlinear_arith)
                        requires
                            0 <= p < (self.spec_shape()[0] as int) * (cols as int),
                    ;
                }
                let v = self.backend.scalar_sub(self.data[p], other.data[p % cols]);
                result.push(v);
                p += 1;
            }
            return Tensor::from_vec(result, self.shape.as_slice(), clone_handle(&self.backend));
        }
        if !dims_equal(self.shape.as_slice(), other.shape.as_slice()) {
            return Err(TensorError::InvalidShape {
                expected: slice_to_vec(self.shape.as_slice()),
                got: slice_to_vec(other.shape.as_slice()),
            });
        }
        let result = self.backend.sub(&self.data, &other.data);
        Tensor::from_vec(result, self.shape.as_slice(), clone_handle(&self.backend))
    }

    /// Elementwise multiplication; only equal shapes are accepted.
    pub fn mul(&self, other: &Tensor<B>) -> (r: Result<Tensor<B>, TensorError>)
        requires
            self.wf(),
            other.wf(),
        ensures
            self.spec_shape() == other.spec_shape() ==> (r matches Ok(t) && t.wf() && t.spec_shape()
                == self.spec_shape() && (forall|p: int|
                0 <= p < self.spec_data().len() ==> #[trigger] t.spec_data()[p] == B::mul_spec(
                    self.spec_data()[p],
                    other.spec_data()[p],
                )) && t.spec_backend() == self.spec_backend()),
            self.spec_shape() != other.spec_shape() ==> (r matches Err(
                TensorError::InvalidShape { expected, got },
            ) && expected@ == self.spec_shape() && got@ == other.spec_shape()),
    {
        if !dims_equal(self.shape.as_slice(), other.shape.as_slice()) {
            return Err(TensorError::InvalidShape {
                expected: slice_to_vec(self.shape.as_slice()),
                got: slice_to_vec(other.shape.as_slice()),
            });
        }
        let result = self.backend.multiply(&self.data, &other.data);
        Tensor::from_vec(result, self.shape.as_slice(), clone_handle(&self.backend))
    }

    /// Elementwise division; only equal shapes are accepted.
    pub fn div(&self, other: &Tensor<B>) -> (r: Result<Tensor<B>, TensorError>)
        requires
            self.wf(),
            other.wf(),
        ensures
            self.spec_shape() == other.spec_shape() ==> (r matches Ok(t) && t.wf() && t.spec_shape()
                == self.spec_shape() && (forall|p: int|
                0 <= p < self.spec_data().len() ==> #[trigger] t.spec_data()[p] == B::div_spec(
                    self.spec_data()[p],
                    other.spec_data()[p],
                )) && t.spec_backend() == self.spec_backend()),
            self.spec_shape() != other.spec_shape() ==> (r matches Err(
                TensorError::InvalidShape { expected, got },
            ) && expected@ == self.spec_shape() && got@ == other.spec_shape()),
    {
        if !dims_equal(self.shape.as_slice(), other.shape.as_slice()) {
            return Err(TensorError::InvalidShape {
                expected: slice_to_vec(self.shape.as_slice()),
                got: slice_to_vec(other.shape.as_slice()),
            });
        }
        let result = self.backend.div(&self.data, &other.data);
        Tensor::from_vec(result, self.shape.as_slice(), clone_handle(&self.backend))
    }

    /// Multiplies every element by a scalar word; the shape is preserved.
    pub fn mul_scalar(&self, scalar: u32) -> (r: Result<Tensor<B>, TensorError>)
        requires
            self.wf(),
        ensures
            r matches Ok(t) && t.wf() && t.spec_shape() == self.spec_shape() && (forall|p: int|
                0 <= p < self.spec_data().len() ==> #[trigger] t.spec_data()[p] == B::mul_spec(
                    self.spec_data()[p],
                    scalar,
                )) && t.spec_backend() == self.spec_backend(),
    {
        let len = self.data.len();
        let mut result: Vec<u32> = Vec::new();
        let mut p: usize = 0;
        while p < len
            invariant
                len == self.spec_data().len(),
                0 <= p <= len,
                result@.len() == p,
                forall|q: int|
                    0 <= q < p ==> #[trigger] result@[q] == B::mul_spec(
                        self.spec_data()[q],
                        scalar,
                    ),
            decreases len - p,
        {
            let v = self.backend.scalar_mul(self.data[p], scalar);
            result.push(v);
            p += 1;
        }
        Tensor::from_vec(result, self.shape.as_slice(), clone_handle(&self.backend))
    }

    /// Adds a scalar word to every element; the shape is preserved.
    pub fn add_scalar(&self, scalar: u32) -> (r: Result<Tensor<B>, TensorError>)
        requires
            self.wf(),
        ensures
            r matches Ok(t) && t.wf() && t.spec_shape() == self.spec_shape() && (forall|p: int|
                0 <= p < self.spec_data().len() ==> #[trigger] t.spec_data()[p] == B::add_spec(
                    self.spec_data()[p],
                    scalar,
                )) && t.spec_backend() == self.spec_backend(),
    {
        let len = self.data.len();
        let mut result: Vec<u32> = Vec::new();
        let mut p: usize = 0;
        while p < len
            invariant
                len == self.spec_data().len(),
                0 <= p <= len,
                result@.len() == p,
                forall|q: int|
                    0 <= q < p ==> #[trigger] result@[q] == B::add_spec(
                        self.spec_data()[q],
                        scalar,
                    ),
            decreases len - p,
        {
            let v = self.backend.scalar_add(self.data[p], scalar);
            result.push(v);
            p += 1;
        }
        Tensor::from_vec(result, self.shape.as_slice(), clone_handle(&self.backend))
    }

    /// Clamps every element into the inclusive range of the two scalar
    /// words; the shape is preserved.
    pub fn clip(&self, min: u32, max: u32) -> (r: Result<Tensor<B>, TensorError>)
        requires
            self.wf(),
        ensures
            r matches Ok(t) && t.wf() && t.spec_shape() == self.spec_shape() && (forall|p: int|
                0 <= p < self.spec_data().len() ==> #[trigger] t.spec_data()[p] == B::clamp_spec(
                    self.spec_data()[p],
                    min,
                    max,
                )) && t.spec_backend() == self.spec_backend(),
    {
        let len = self.data.len();
        let mut result: Vec<u32> = Vec::new();
        let mut p: usize = 0;
        while p < len
            invariant
                len == self.spec_data().len(),
                0 <= p <= len,
                result@.len() == p,
                forall|q: int|
                    0 <= q < p ==> #[trigger] result@[q] == B::clamp_spec(
                        self.spec_data()[q],
                        min,
                        max,
                    ),
            decreases len - p,
        {
            let v = self.backend.scalar_clamp(self.data[p], min, max);
            result.push(v);
            p += 1;
        }
        Tensor::from_vec(result, self.shape.as_slice(), clone_handle(&self.backend))
    }

    /// Takes the natural logarithm of every element; the shape is preserved.
    pub fn log(&self) -> (r: Result<Tensor<B>, TensorError>)
        requires
            self.wf(),
        ensures
            r matches Ok(t) && t.wf() && t.spec_shape() == self.spec_shape() && (forall|p: int|
                0 <= p < self.spec_data().len() ==> #[trigger] t.spec_data()[p] == B::ln_spec(
                    self.spec_data()[p],
                )) && t.spec_backend() == self.spec_backend(),
    {
        let len = self.data.len();
        let mut result: Vec<u32> = Vec::new();
        let mut p: usize = 0;
        while p < len
            invariant
                len == self.spec_data().len(),
                0 <= p <= len,
                result@.len() == p,
                forall|q: int|
                    0 <= q < p ==> #[trigger] result@[q] == B::ln_spec(self.spec_data()[q]),
            decreases len - p,
        {
            let v = self.backend.scalar_ln(self.data[p]);
            result.push(v);
            p += 1;
        }
        Tensor::from_vec(result, self.shape.as_slice(), clone_handle(&self.backend))
    }

    /// Negates every element; the shape is preserved.
    pub fn neg(&self) -> (r: Result<Tensor<B>, TensorError>)
        requires
            self.wf(),
        ensures
            r matches Ok(t) && t.wf() && t.spec_shape() == self.spec_shape() && (forall|p: int|
                0 <= p < self.spec_data().len() ==> #[trigger] t.spec_data()[p] == B::neg_spec(
                    self.spec_data()[p],
                )) && t.spec_backend() == self.spec_backend(),
    {
        let len = self.data.len();
        let mut result: Vec<u32> = Vec::new();
        let mut p: usize = 0;
        while p < len
            invariant
                len == self.spec_data().len(),
                0 <= p <= len,
                result@.len() == p,
                forall|q: int|
                    0 <= q < p ==> #[trigger] result@[q] == B::neg_spec(self.spec_data()[q]),
            decreases len - p,
        {
            let v = self.backend.scalar_neg(self.data[p]);
            result.push(v);
            p += 1;
        }
        Tensor::from_vec(result, self.shape.as_slice(), clone_handle(&self.backend))
    }

    /// Applies the backend's exponential to every element; the shape is
    /// preserved.
    pub fn exp(&self) -> (r: Result<Tensor<B>, TensorError>)
        requires
            self.wf(),
        ensures
            r matches Ok(t) && t.wf() && t.spec_shape() == self.spec_shape() && (forall|p: int|
                0 <= p < self.spec_data().len() ==> #[trigger] t.spec_data()[p] == B::exp_spec(
                    self.spec_data()[p],
                )) && t.spec_backend() == self.spec_backend(),
    {
        let result = self.backend.exp(&self.data);
        Tensor::from_vec(result, self.shape.as_slice(), clone_handle(&self.backend))
    }

    /// Applies the backend's square root to every element; the shape is
    /// preserved.
    pub fn sqrt(&self) -> (r: Result<Tensor<B>, TensorError>)
        requires
            self.wf(),
        ensures
            r matches Ok(t) && t.wf() && t.spec_shape() == self.spec_shape() && (forall|p: int|
                0 <= p < self.spec_data().len() ==> #[trigger] t.spec_data()[p] == B::sqrt_spec(
                    self.spec_data()[p],
                )) && t.spec_backend() == self.spec_backend(),
    {
        let result = self.backend.sqrt(&self.data);
        Tensor::from_vec(result, self.shape.as_slice(), clone_handle(&self.backend))
    }

    /// Raises every element to a scalar power word; the shape is preserved.
    pub fn pow(&self, power: u32) -> (r: Result<Tensor<B>, TensorError>)
        requires
            self.wf(),
        ensures
            r matches Ok(t) && t.wf() && t.spec_shape() == self.spec_shape() && (forall|p: int|
                0 <= p < self.spec_data().len() ==> #[trigger] t.spec_data()[p] == B::pow_spec(
                    self.spec_data()[p],
                    power,
                )) && t.spec_backend() == self.spec_backend(),
    {
        let result = self.backend.pow(&self.data, power);
        Tensor::from_vec(result, self.shape.as_slice(), clone_handle(&self.backend))
    }

    /// The backend's mean reduction over the whole buffer; an empty buffer
    /// has no mean and is an operation violation, never a quiet non-number.
    pub fn mean(&self) -> (r: Result<u32, TensorError>)
        requires
            self.wf(),
        ensures
            self.spec_data().len() > 0 ==> (r matches Ok(v) && v == B::mean_spec(
                self.spec_data(),
            )),
            self.spec_data().len() == 0 ==> (r matches Err(
                TensorError::InvalidOperation { op, reason },
            ) && op@ == "mean"@ && reason@ == "Cannot compute mean of empty tensor"@),
    {
        if self.data.len() == 0 {
            return Err(TensorError::InvalidOperation {
                op: "mean",
                reason: "Cannot compute mean of empty tensor".to_owned(),
            });
        }
        Ok(self.backend.mean(&self.data))
    }

    /// Sums a matrix along one axis: axis zero folds the rows together into
    /// a single-row matrix of column sums, axis one folds the columns
    /// together into a single-column matrix of row sums.  An axis outside
    /// the shape is an axis violation, and only matrices are supported.
    pub fn sum(&self, axis: usize) -> (r: Result<Tensor<B>, TensorError>)
        requires
            self.wf(),
        ensures
            ({
                let rows = self.spec_shape()[0] as int;
                let cols = self.spec_shape()[1] as int;
                &&& axis >= self.spec_shape().len() ==> (r matches Err(
                    TensorError::InvalidAxis { axis: got_axis, shape },
                ) && got_axis == axis && shape@ == self.spec_shape())
                &&& axis < self.spec_shape().len() && self.spec_shape().len() != 2 ==> (r matches
                    Err(TensorError::InvalidOperation { op, reason }) && op@ == "sum"@ && reason@
                    == "Sum operation currently only supports 2D tensors"@)
                &&& self.spec_shape().len() == 2 && axis == 0 ==> (r matches Ok(t) && t.wf()
                    && t.is_matrix(1, cols) && t.spec_data().len() == cols && (forall|j: int|
                    0 <= j < cols ==> #[trigger] t.spec_data()[j] == col_sum::<B>(
                        self.spec_data(),
                        cols,
                        j,
                        rows,
                    )) && t.spec_backend() == self.spec_backend())
                &&& self.spec_shape().len() == 2 && axis == 1 ==> (r matches Ok(t) && t.wf()
                    && t.is_matrix(rows, 1) && t.spec_data().len() == rows && (forall|i: int|
                    0 <= i < rows ==> #[trigger] t.spec_data()[i] == row_sum::<B>(
                        self.spec_data(),
                        cols,
                        i,
                        cols,
                    )) && t.spec_backend() == self.spec_backend())
            }),
    {
        if axis >= self.shape.len() {
            return Err(TensorError::InvalidAxis {
                axis,
                shape: slice_to_vec(self.shape.as_slice()),
            });
        }
        if self.shape.len() != 2 {
            return Err(TensorError::InvalidOperation {
                op: "sum",
                reason: "Sum operation currently only supports 2D tensors".to_owned(),
            });
        }
        let rows = self.shape[0];
        let cols = self.shape[1];
        proof {
            lemma_shape_product_pair(self.spec_shape());
        }
        let ghost d = self.spec_data();
        let len = self.data.len();
        if axis == 0 {
            let mut result: Vec<u32> = Vec::new();
            let mut j: usize = 0;
            while j < cols
                invariant
                    self.wf(),
                    self.spec_shape().len() == 2,
                    rows == self.spec_shape()[0],
                    cols == self.spec_shape()[1],
                    d == self.spec_data(),
                    len == d.len(),
                    d.len() == (rows as int) * (cols as int),
                    0 <= j <= cols,
                    result@.len() == j,
                    forall|q: int|
                        0 <= q < j ==> #[trigger] result@[q] == col_sum::<B>(
                            d,
                            cols as int,
                            q,
                            rows as int,
                        ),
                decreases cols - j,
            {
                let mut acc: u32 = ZERO_WORD;
                let mut i: usize = 0;
                while i < rows
                    invariant
                        self.wf(),
                        self.spec_shape().len() == 2,
                        rows == self.spec_shape()[0],
                        cols == self.spec_shape()[1],
                        d == self.spec_data(),
                        len == d.len(),
                        d.len() == (rows as int) * (cols as int),
                        0 <= j < cols,
                        0 <= i <= rows,
                        acc == col_sum::<B>(d, cols as int, j as int, i as int),
                    decreases rows - i,
                {
                    proof {
                        lemma_grid_index(rows as int, cols as int, i as int, j as int);
                    }
                    acc = self.backend.scalar_add(acc, self.data[i * cols + j]);
                    i += 1;
                }
                result.push(acc);
                j += 1;
            }
            let mut dims: Vec<usize> = Vec::new();
            dims.push(1);
            dims.push(cols);
            proof {
                lemma_shape_product_pair(dims@);
                assert(1 * (cols as int) == cols as int) by (nonlinear_arith);
            }
            return Tensor::from_vec(result, dims.as_slice(), clone_handle(&self.backend));
        }
        let mut result: Vec<u32> = Vec::new();
        let mut i: usize = 0;
        while i < rows
            invariant
                self.wf(),
                self.spec_shape().len() == 2,
                rows == self.spec_shape()[0],
                cols == self.spec_shape()[1],
                d == self.spec_data(),
                len == d.len(),
                d.len() == (rows as int) * (cols as int),
                0 <= i <= rows,
                result@.len() == i,
                forall|q: int|
                    0 <= q < i ==> #[trigger] result@[q] == row_sum::<B>(
                        d,
                        cols as int,
                        q,
                        cols as int,
                    ),
            decreases rows - i,
        {
            let mut acc: u32 = ZERO_WORD;
            let mut j: usize = 0;
            while j < cols
                invariant
                    self.wf(),
                    self.spec_shape().len() == 2,
                    rows == self.spec_shape()[0],
                    cols == self.spec_shape()[1],
                    d == self.spec_data(),
                    len == d.len(),
                    d.len() == (rows as int) * (cols as int),
                    0 <= i < rows,
                    0 <= j <= cols,
                    acc == row_sum::<B>(d, cols as int, i as int, j as int),
                decreases cols - j,
            {
                proof {
                    lemma_grid_index(rows as int, cols as int, i as int, j as int);
                }
                acc = self.backend.scalar_add(acc, self.data[i * cols + j]);
                j += 1;
            }
            result.push(acc);
            i += 1;
        }
        let mut dims: Vec<usize> = Vec::new();
        dims.push(rows);
        dims.push(1);
        proof {
            lemma_shape_product_pair(dims@);
            assert((rows as int) * 1 == rows as int) by (nonlinear_arith);
        }
        Tensor::from_vec(result, dims.as_slice(), clone_handle(&self.backend))
    }

    /// The elementwise maximum of a matrix along one axis, folded from the
    /// negative-infinity word; the same shape rules as axis summation.
    pub fn max_along_axis(&self, axis: usize) -> (r: Result<Tensor<B>, TensorError>)
        requires
            self.wf(),
        ensures
            ({
                let rows = self.spec_shape()[0] as int;
                let cols = self.spec_shape()[1] as int;
                &&& axis >= self.spec_shape().len() ==> (r matches Err(
                    TensorError::InvalidAxis { axis: got_axis, shape },
                ) && got_axis == axis && shape@ == self.spec_shape())
                &&& axis < self.spec_shape().len() && self.spec_shape().len() != 2 ==> (r matches
                    Err(TensorError::InvalidOperation { op, reason }) && op@ == "max_along_axis"@
                    && reason@ == "Operation currently only supports 2D tensors"@)
                &&& self.spec_shape().len() == 2 && axis == 0 ==> (r matches Ok(t) && t.wf()
                    && t.is_matrix(1, cols) && t.spec_data().len() == cols && (forall|j: int|
                    0 <= j < cols ==> #[trigger] t.spec_data()[j] == col_max::<B>(
                        self.spec_data(),
                        cols,
                        j,
                        rows,
                    )) && t.spec_backend() == self.spec_backend())
                &&& self.spec_shape().len() == 2 && axis == 1 ==> (r matches Ok(t) && t.wf()
                    && t.is_matrix(rows, 1) && t.spec_data().len() == rows && (forall|i: int|
                    0 <= i < rows ==> #[trigger] t.spec_data()[i] == row_max::<B>(
                        self.spec_data(),
                        cols,
                        i,
                        cols,
                    )) && t.spec_backend() == self.spec_backend())
            }),
    {
        if axis >= self.shape.len() {
            return Err(TensorError::InvalidAxis {
                axis,
                shape: slice_to_vec(self.shape.as_slice()),
            });
        }
        if self.shape.len() != 2 {
            return Err(TensorError::InvalidOperation {
                op: "max_along_axis",
                reason: "Operation currently only supports 2D tensors".to_owned(),
            });
        }
        let rows = self.shape[0];
        let cols = self.shape[1];
        proof {
            lemma_shape_product_pair(self.spec_shape());
        }
        let ghost d = self.spec_data();
        let len = self.data.len();
        if axis == 0 {
            let mut result: Vec<u32> = Vec::new();
            let mut j: usize = 0;
            while j < cols
                invariant
                    self.wf(),
                    self.spec_shape().len() == 2,
                    rows == self.spec_shape()[0],
                    cols == self.spec_shape()[1],
                    d == self.spec_data(),
                    len == d.len(),
                    d.len() == (rows as int) * (cols as int),
                    0 <= j <= cols,
                    result@.len() == j,
                    forall|q: int|
                        0 <= q < j ==> #[trigger] result@[q] == col_max::<B>(
                            d,
                            cols as int,
                            q,
                            rows as int,
                        ),
                decreases cols - j,
            {
                let mut acc: u32 = NEG_INFINITY_WORD;
                let mut i: usize = 0;
                while i < rows
                    invariant
                        self.wf(),
                        self.spec_shape().len() == 2,
                        rows == self.spec_shape()[0],
                        cols == self.spec_shape()[1],
                        d == self.spec_data(),
                        len == d.len(),
                        d.len() == (rows as int) * (cols as int),
                        0 <= j < cols,
                        0 <= i <= rows,
                        acc == col_max::<B>(d, cols as int, j as int, i as int),
                    decreases rows - i,
                {
                    proof {
                        lemma_grid_index(rows as int, cols as int, i as int, j as int);
                    }
                    acc = self.backend.scalar_max(acc, self.data[i * cols + j]);
                    i += 1;
                }
                result.push(acc);
                j += 1;
            }
            let mut dims: Vec<usize> = Vec::new();
            dims.push(1);
            dims.push(cols);
            proof {
                lemma_shape_product_pair(dims@);
                assert(1 * (cols as int) == cols as int) by (nonlinear_arith);
            }
            return Tensor::from_vec(result, dims.as_slice(), clone_handle(&self.backend));
        }
        let mut result: Vec<u32> = Vec::new();
        let mut i: usize = 0;
        while i < rows
            invariant
                self.wf(),
                self.spec_shape().len() == 2,
                rows == self.spec_shape()[0],
                cols == self.spec_shape()[1],
                d == self.spec_data(),
                len == d.len(),
                d.len() == (rows as int) * (cols as int),
                0 <= i <= rows,
                result@.len() == i,
                forall|q: int|
                    0 <= q < i ==> #[trigger] result@[q] == row_max::<B>(
                        d,
                        cols as int,
                        q,
                        cols as int,
                    ),
            decreases rows - i,
        {
            let mut acc: u32 = NEG_INFINITY_WORD;
            let mut j: usize = 0;
            while j < cols
                invariant
                    self.wf(),
                    self.spec_shape().len() == 2,
                    rows == self.spec_shape()[0],
                    cols == self.spec_shape()[1],
                    d == self.spec_data(),
                    len == d.len(),
                    d.len() == (rows as int) * (cols as int),
                    0 <= i < rows,
                    0 <= j <= cols,
                    acc == row_max::<B>(d, cols as int, i as int, j as int),
                decreases cols - j,
            {
                proof {
                    lemma_grid_index(rows as int, cols as int, i as int, j as int);
                }
                acc = self.backend.scalar_max(acc, self.data[i * cols + j]);
                j += 1;
            }
            result.push(acc);
            i += 1;
        }
        let mut dims: Vec<usize> = Vec::new();
        dims.push(rows);
        dims.push(1);
        proof {
            lemma_shape_product_pair(dims@);
            assert((rows as int) * 1 == rows as int) by (nonlinear_arith);
        }
        Tensor::from_vec(result, dims.as_slice(), clone_handle(&self.backend))
    }

    /// The backend's sum reduction over the whole buffer.
    pub fn sum_all(&self) -> (r: Result<u32, TensorError>)
        requires
            self.wf(),
        ensures
            r matches Ok(v) && v == B::reduce_sum_spec(self.spec_data()),
    {
        Ok(self.backend.sum(&self.data))
    }
}

} // verus!
