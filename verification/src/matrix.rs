use vstd::prelude::*;

verus! {

use crate::error::Error;
use crate::render::{dec_int, dec_nat, i64_to_string, u64_to_string};
use crate::vector::{dot, dot_fits, dot_product, Vector};
use vstd::string::StringExecFns;

/// Number of worker lanes the dispatch engine drives.
pub const NUM_PRODUCTERS: usize = 4;

/// A dense numeric matrix stored row-major as one flat sequence:
/// the element at logical position `(i, j)` sits at offset `i * col + j`.
pub struct Matrix {
    data: Vec<i64>,
    row: usize,
    col: usize,
}

/// One unit of work for a worker: the destination offset in the output
/// buffer together with the row and column whose dot product fills it.
pub struct MsgInput {
    pub idx: usize,
    pub row: Vector,
    pub col: Vector,
}

/// One finished unit of work: the destination offset and the scalar that
/// belongs there.
pub struct MsgOutput {
    pub idx: usize,
    pub value: i64,
}

impl MsgInput {
    pub fn new(idx: usize, row: Vector, col: Vector) -> (m: MsgInput)
        ensures
            m.idx == idx,
            m.row@ == row@,
            m.col@ == col@,
    {
        MsgInput { idx, row, col }
    }
}

impl MsgOutput {
    pub fn new(idx: usize, value: i64) -> (m: MsgOutput)
        ensures
            m.idx == idx,
            m.value == value,
    {
        MsgOutput { idx, value }
    }
}

/// Carries out one task: computes the dot product of the task's row and
/// column and tags the result with the task's destination offset.  This is
/// the whole computation step of a worker; the thread and channel plumbing
/// around it lives outside the library.
pub fn process_task(input: MsgInput) -> (r: Result<MsgOutput, Error>)
    ensures
        (r is Ok) <==> (input.row@.len() == input.col@.len() && dot_fits(input.row@, input.col@)),
        r matches Ok(out) ==> out.idx == input.idx && out.value == dot(input.row@, input.col@),
        (r == Err::<MsgOutput, Error>(Error::LengthMismatch)) <==> input.row@.len()
            != input.col@.len(),
        (r == Err::<MsgOutput, Error>(Error::Overflow)) <==> (input.row@.len()
            == input.col@.len() && !dot_fits(input.row@, input.col@)),
{
    match dot_product(input.row, input.col) {
        Ok(v) => Ok(MsgOutput::new(input.idx, v)),
        Err(e) => Err(e),
    }
}

impl View for Matrix {
    type V = Seq<i64>;

    closed spec fn view(&self) -> Seq<i64> {
        self.data@
    }
}

impl Matrix {
    pub closed spec fn spec_rows(&self) -> int {
        self.row as int
    }

    pub closed spec fn spec_cols(&self) -> int {
        self.col as int
    }

    /// A matrix is well formed when its flat storage holds exactly
    /// `row * col` elements.
    pub open spec fn wf(&self) -> bool {
        self@.len() == self.spec_rows() * self.spec_cols()
    }

    /// The element at logical position `(i, j)`.
    pub open spec fn entry(&self, i: int, j: int) -> i64 {
        self@[i * self.spec_cols() + j]
    }

    /// Row `i` as a sequence: the contiguous slice of the flat storage.
    pub open spec fn row_seq(&self, i: int) -> Seq<i64> {
        self@.subrange(i * self.spec_cols(), i * self.spec_cols() + self.spec_cols())
    }

    /// Column `j` as a sequence: the strided selection of the flat storage.
    pub open spec fn col_seq(&self, j: int) -> Seq<i64> {
        Seq::new(self.spec_rows() as nat, |k: int| self@[k * self.spec_cols() + j])
    }

    /// Builds a matrix from a flat row-major sequence.  The caller must
    /// supply exactly `row * col` elements.
    pub fn new(data: Vec<i64>, row: usize, col: usize) -> (m: Matrix)
        requires
            data@.len() == row * col,
        ensures
            m@ == data@,
            m.spec_rows() == row,
            m.spec_cols() == col,
            m.wf(),
    {
        Matrix { data, row, col }
    }

    /// The number of rows.
    pub fn rows(&self) -> (n: usize)
        ensures
            n == self.spec_rows(),
    {
        self.row
    }

    /// The number of columns.
    pub fn cols(&self) -> (n: usize)
        ensures
            n == self.spec_cols(),
    {
        self.col
    }

    /// Reads the element at logical position `(i, j)`.
    pub fn get(&self, i: usize, j: usize) -> (v: i64)
        requires
            self.wf(),
            i < self.spec_rows(),
            j < self.spec_cols(),
        ensures
            v == self.entry(i as int, j as int),
    {
        proof {
            lemma_row_major_bounds(i as int, j as int, self.spec_rows(), self.spec_cols());
        }
        let _n: usize = self.data.len();
        self.data[i * self.col + j]
    }

    /// Copies row `i` out as a contiguous vector of length `col`.
    pub fn row(&self, i: usize) -> (v: Vector)
        requires
            self.wf(),
            i < self.spec_rows(),
        ensures
            v@ == self.row_seq(i as int),
    {
        let n = self.data.len();
        proof {
            lemma_row_offsets(i as int, self.spec_rows(), self.spec_cols());
        }
        let start = i * self.col;
        let mut out: Vec<i64> = Vec::new();
        let mut j: usize = 0;
        while j < self.col
            invariant
                self.wf(),
                n == self@.len(),
                i < self.spec_rows(),
                j <= self.spec_cols(),
                start == i * self.spec_cols(),
                start + self.spec_cols() <= self@.len(),
                out@ == self@.subrange(start as int, start + j),
            decreases self.spec_cols() - j,
        {
            out.push(self.data[start + j]);
            proof {
                assert(out@ =~= self@.subrange(start as int, start + j + 1));
            }
            j = j + 1;
        }
        Vector::new(out)
    }

    /// Copies column `j` out as a vector of length `row`, reading the flat
    /// storage with stride `col`.
    pub fn column(&self, j: usize) -> (v: Vector)
        requires
            self.wf(),
            j < self.spec_cols(),
        ensures
            v@ == self.col_seq(j as int),
    {
        let n = self.data.len();
        let mut out: Vec<i64> = Vec::new();
        let mut k: usize = 0;
        while k < self.row
            invariant
                self.wf(),
                n == self@.len(),
                j < self.spec_cols(),
                k <= self.spec_rows(),
                out@.len() == k,
                forall|m: int| 0 <= m < k ==> out@[m] == self@[m * self.spec_cols() + j as int],
            decreases self.spec_rows() - k,
        {
            proof {
                lemma_row_major_bounds(k as int, j as int, self.spec_rows(), self.spec_cols());
            }
            out.push(self.data[k * self.col + j]);
            k = k + 1;
        }
        proof {
            assert(out@ =~= self.col_seq(j as int));
        }
        Vector::new(out)
    }
}

/// The characters of row `i` from column `j` on: entries in decimal,
/// separated by single spaces.
pub open spec fn row_chars(m: &Matrix, i: int, j: int) -> Seq<char>
    decreases m.spec_cols() - j,
{
    if j < 0 || j >= m.spec_cols() {
        Seq::empty()
    } else if j == m.spec_cols() - 1 {
        dec_int(m.entry(i, j) as int)
    } else {
        dec_int(m.entry(i, j) as int) + seq![' '] + row_chars(m, i, j + 1)
    }
}

/// The characters of the rows from `i` on: rows separated by commas.
pub open spec fn rows_chars(m: &Matrix, i: int) -> Seq<char>
    decreases m.spec_rows() - i,
{
    if i < 0 || i >= m.spec_rows() {
        Seq::empty()
    } else if i == m.spec_rows() - 1 {
        row_chars(m, i, 0)
    } else {
        row_chars(m, i, 0) + seq![','] + rows_chars(m, i + 1)
    }
}

/// The `{e00 e01 ...,e10 e11 ...}` rendering of a matrix: entries of one
/// row separated by single spaces, rows separated by commas, no trailing
/// separator.
pub open spec fn format_chars(m: &Matrix) -> Seq<char> {
    seq!['{'] + rows_chars(m, 0) + seq!['}']
}

/// The long rendering: dimensions first, then the braces form.
pub open spec fn debug_chars(m: &Matrix) -> Seq<char> {
    "Matrix:rows="@ + dec_nat(m.spec_rows()) + ",cols="@ + dec_nat(m.spec_cols()) + seq![',']
        + format_chars(m)
}

impl Matrix {
    /// Renders the matrix in the `{...}` style.  The result is a function
    /// of the matrix value alone, so repeated calls return the same string.
    pub fn format(&self) -> (s: String)
        requires
            self.wf(),
        ensures
            s@ == format_chars(self),
    {
        proof {
            reveal_strlit("{");
            reveal_strlit("}");
            reveal_strlit(" ");
            reveal_strlit(",");
        }
        let mut s = "{".to_owned();
        proof {
            assert(s@ =~= seq!['{']);
            assert(seq!['{'] + Seq::<char>::empty() =~= seq!['{']);
        }
        let n = self.data.len();
        let mut i: usize = 0;
        while i < self.row
            invariant
                self.wf(),
                n == self@.len(),
                i <= self.spec_rows(),
                i < self.spec_rows() ==> s@ + rows_chars(self, i as int) == seq!['{'] + rows_chars(
                    self,
                    0,
                ),
                i == self.spec_rows() ==> s@ == seq!['{'] + rows_chars(self, 0),
            decreases self.spec_rows() - i,
        {
            let ghost base = s@;
            proof {
                assert(base + Seq::<char>::empty() =~= base);
            }
            let mut j: usize = 0;
            while j < self.col
                invariant
                    self.wf(),
                    n == self@.len(),
                    i < self.spec_rows(),
                    j <= self.spec_cols(),
                    j < self.spec_cols() ==> s@ + row_chars(self, i as int, j as int) == base
                        + row_chars(self, i as int, 0),
                    j == self.spec_cols() ==> s@ == base + row_chars(self, i as int, 0),
                decreases self.spec_cols() - j,
            {
                proof {
                    lemma_row_major_bounds(i as int, j as int, self.spec_rows(), self.spec_cols());
                    reveal_strlit(" ");
                }
                let ghost before = s@;
                let v = self.data[i * self.col + j];
                let vs = i64_to_string(v);
                s.append(vs.as_str());
                if j + 1 < self.col {
                    s.append(" ");
                    proof {
                        assert(s@ + row_chars(self, i as int, j + 1) =~= before + row_chars(
                            self,
                            i as int,
                            j as int,
                        ));
                    }
                } else {
                    proof {
                        assert(s@ =~= before + row_chars(self, i as int, j as int));
                    }
                }
                j = j + 1;
            }
            if i + 1 < self.row {
                s.append(",");
                proof {
                    reveal_strlit(",");
                    assert(s@ =~= base + row_chars(self, i as int, 0) + seq![',']);
                    assert(s@ + rows_chars(self, i + 1) =~= base + rows_chars(self, i as int));
                    assert(s@ + rows_chars(self, i + 1) == seq!['{'] + rows_chars(self, 0));
                }
            } else {
                proof {
                    assert(s@ =~= base + rows_chars(self, i as int));
                    assert(s@ == seq!['{'] + rows_chars(self, 0));
                }
            }
            i = i + 1;
        }
        s.append("}");
        proof {
            reveal_strlit("}");
            assert(s@ =~= format_chars(self));
        }
        s
    }

    /// Renders the matrix with its dimensions in front, in the
    /// `Matrix:rows=R,cols=C,{...}` style.
    pub fn debug_string(&self) -> (s: String)
        requires
            self.wf(),
        ensures
            s@ == debug_chars(self),
    {
        proof {
            reveal_strlit("Matrix:rows=");
            reveal_strlit(",cols=");
            reveal_strlit(",");
        }
        let mut s = "Matrix:rows=".to_owned();
        let rs = u64_to_string(self.row as u64);
        s.append(rs.as_str());
        s.append(",cols=");
        let cs = u64_to_string(self.col as u64);
        s.append(cs.as_str());
        s.append(",");
        let body = self.format();
        s.append(body.as_str());
        proof {
            assert(s@ =~= debug_chars(self));
        }
        s
    }
}

/// Formatting is stable: the rendering is a function of the matrix value
/// alone, so any two renderings of one matrix are the same string.
pub proof fn lemma_format_stable(m: &Matrix, s1: Seq<char>, s2: Seq<char>)
    requires
        s1 == format_chars(m),
        s2 == format_chars(m),
    ensures
        s1 == s2,
{
}

/// Multiplication is deterministic: any two well-formed matrices whose
/// dimensions and entries agree with the product of `a` and `b` are equal
/// as flat sequences.  Hence two calls of `multiply` on identical inputs
/// return bit-identical outputs.
pub proof fn lemma_multiply_deterministic(a: &Matrix, b: &Matrix, c1: &Matrix, c2: &Matrix)
    requires
        c1.wf(),
        c2.wf(),
        c1.spec_rows() == a.spec_rows(),
        c1.spec_cols() == b.spec_cols(),
        c2.spec_rows() == a.spec_rows(),
        c2.spec_cols() == b.spec_cols(),
        forall|i: int, j: int|
            0 <= i < a.spec_rows() && 0 <= j < b.spec_cols() ==> #[trigger] c1.entry(i, j)
                == product_entry(a, b, i, j),
        forall|i: int, j: int|
            0 <= i < a.spec_rows() && 0 <= j < b.spec_cols() ==> #[trigger] c2.entry(i, j)
                == product_entry(a, b, i, j),
    ensures
        c1@ == c2@,
{
    assert forall|m: int| 0 <= m < c1@.len() implies c1@[m] == c2@[m] by {
        let rows = a.spec_rows();
        let cols = b.spec_cols();
        lemma_flat_decompose(m, rows, cols);
        let i = m / cols;
        let j = m % cols;
        assert(c1.entry(i, j) == product_entry(a, b, i, j));
        assert(c2.entry(i, j) == product_entry(a, b, i, j));
    }
    assert(c1@ =~= c2@);
}

proof fn lemma_flat_decompose(m: int, rows: int, cols: int) by (nonlinear_arith)
    requires
        0 <= m,
        m < rows * cols,
        0 <= rows,
        0 <= cols,
    ensures
        cols > 0,
        0 <= m / cols < rows,
        0 <= m % cols < cols,
        m == (m / cols) * cols + m % cols,
{
}

proof fn lemma_row_major_bounds(i: int, j: int, rows: int, cols: int) by (nonlinear_arith)
    requires
        0 <= i < rows,
        0 <= j < cols,
    ensures
        0 <= i * cols + j < rows * cols,
        i * cols + j < i * cols + cols,
        (i + 1) * cols <= rows * cols,
{
}

proof fn lemma_row_offsets(i: int, rows: int, cols: int) by (nonlinear_arith)
    requires
        0 <= i < rows,
        0 <= cols,
    ensures
        0 <= i * cols,
        (i + 1) * cols == i * cols + cols,
        i * cols + cols <= rows * cols,
{
}

proof fn lemma_prefix_index(ii: int, jj: int, i: int, cols: int) by (nonlinear_arith)
    requires
        0 <= ii < i,
        0 <= jj < cols,
    ensures
        0 <= ii * cols + jj,
        ii * cols + jj < i * cols,
{
}

/// Whether the cell in output row `i` is actually computed: the engine routes
/// row `i` to worker `i % W`, and the cell is delivered exactly when that
/// worker's queue is open.
pub open spec fn cell_delivered(open_queues: Seq<bool>, i: int) -> bool {
    open_queues[i % open_queues.len() as int]
}

/// Every dot product of a row of `a` with a column of `b` can be computed
/// without leaving the `i64` range.
pub open spec fn product_fits(a: &Matrix, b: &Matrix) -> bool {
    forall|i: int, j: int|
        0 <= i < a.spec_rows() && 0 <= j < b.spec_cols() ==> #[trigger] dot_fits(
            a.row_seq(i),
            b.col_seq(j),
        )
}

/// The entry of the standard matrix product of `a` and `b` at `(i, j)`:
/// the dot product of row `i` of `a` with column `j` of `b`.
pub open spec fn product_entry(a: &Matrix, b: &Matrix, i: int, j: int) -> int {
    dot(a.row_seq(i), b.col_seq(j))
}

/// The dispatch/collect engine with the state of each worker's task queue
/// made explicit.  `worker_open[w]` says whether worker `w` can still be
/// reached; a task whose worker's queue is closed is dropped and its output
/// cell keeps the additive identity `0`, while the call as a whole still
/// succeeds.  With every queue open this is exactly matrix multiplication.
pub fn multiply_with_pool(a: &Matrix, b: &Matrix, worker_open: &Vec<bool>) -> (r: Result<
    Matrix,
    Error,
>)
    requires
        a.wf(),
        b.wf(),
        worker_open@.len() >= 1,
        a.spec_rows() * b.spec_cols() <= usize::MAX,
    ensures
        (r == Err::<Matrix, Error>(Error::DimensionMismatch)) <==> a.spec_cols() != b.spec_rows(),
        a.spec_cols() == b.spec_rows() ==> ((r is Ok) <==> (forall|i: int, j: int|
            0 <= i < a.spec_rows() && 0 <= j < b.spec_cols() && cell_delivered(worker_open@, i)
                ==> #[trigger] dot_fits(a.row_seq(i), b.col_seq(j)))),
        r matches Ok(c) ==> {
            &&& c.wf()
            &&& c.spec_rows() == a.spec_rows()
            &&& c.spec_cols() == b.spec_cols()
            &&& forall|i: int, j: int|
                0 <= i < a.spec_rows() && 0 <= j < b.spec_cols() && cell_delivered(
                    worker_open@,
                    i,
                ) ==> c.entry(i, j) == #[trigger] product_entry(a, b, i, j)
            &&& forall|i: int, j: int|
                0 <= i < a.spec_rows() && 0 <= j < b.spec_cols() && !cell_delivered(
                    worker_open@,
                    i,
                ) ==> #[trigger] c.entry(i, j) == 0
        },
        (r is Err && r != Err::<Matrix, Error>(Error::DimensionMismatch)) ==> r == Err::<
            Matrix,
            Error,
        >(Error::Overflow),
{
    if a.col != b.row {
        return Err(Error::DimensionMismatch);
    }
    let rows = a.row;
    let cols = b.col;
    let w = worker_open.len();
    let mut data: Vec<i64> = Vec::new();
    let mut i: usize = 0;
    while i < rows
        invariant
            a.wf(),
            b.wf(),
            a.spec_cols() == b.spec_rows(),
            rows == a.spec_rows(),
            cols == b.spec_cols(),
            w == worker_open@.len(),
            w >= 1,
            rows * cols <= usize::MAX,
            i <= rows,
            data@.len() == i * cols,
            forall|ii: int, jj: int|
                0 <= ii < i && 0 <= jj < cols && cell_delivered(worker_open@, ii)
                    ==> data@[ii * cols + jj] == #[trigger] product_entry(a, b, ii, jj),
            forall|ii: int, jj: int|
                0 <= ii < i && 0 <= jj < cols && !cell_delivered(worker_open@, ii)
                    ==> #[trigger] data@[ii * cols + jj] == 0,
            forall|ii: int, jj: int|
                0 <= ii < i && 0 <= jj < cols && cell_delivered(worker_open@, ii)
                    ==> #[trigger] dot_fits(a.row_seq(ii), b.col_seq(jj)),
        decreases rows - i,
    {
        let delivered = worker_open[i % w];
        let mut j: usize = 0;
        while j < cols
            invariant
                a.wf(),
                b.wf(),
                a.spec_cols() == b.spec_rows(),
                rows == a.spec_rows(),
                cols == b.spec_cols(),
                w == worker_open@.len(),
                w >= 1,
                rows * cols <= usize::MAX,
                i < rows,
                j <= cols,
                delivered == cell_delivered(worker_open@, i as int),
                data@.len() == i * cols + j,
                forall|ii: int, jj: int|
                    0 <= ii < i && 0 <= jj < cols && cell_delivered(worker_open@, ii)
                        ==> data@[ii * cols + jj] == #[trigger] product_entry(a, b, ii, jj),
                forall|ii: int, jj: int|
                    0 <= ii < i && 0 <= jj < cols && !cell_delivered(worker_open@, ii)
                        ==> #[trigger] data@[ii * cols + jj] == 0,
                forall|ii: int, jj: int|
                    0 <= ii < i && 0 <= jj < cols && cell_delivered(worker_open@, ii)
                        ==> #[trigger] dot_fits(a.row_seq(ii), b.col_seq(jj)),
                forall|jj: int|
                    0 <= jj < j && delivered ==> data@[i * cols + jj] == #[trigger] product_entry(
                        a,
                        b,
                        i as int,
                        jj,
                    ),
                forall|jj: int|
                    0 <= jj < j && !delivered ==> #[trigger] data@[i * cols + jj] == 0,
                forall|jj: int|
                    0 <= jj < j && delivered ==> #[trigger] dot_fits(
                        a.row_seq(i as int),
                        b.col_seq(jj),
                    ),
            decreases cols - j,
        {
            let ghost old_data = data@;
            if delivered {
                let row_v = a.row(i);
                let col_v = b.column(j);
                match dot_product(row_v, col_v) {
                    Ok(v) => data.push(v),
                    Err(_) => {
                        proof {
                            assert(a.row_seq(i as int).len() == a.spec_cols()) by {
                                lemma_row_offsets(i as int, a.spec_rows(), a.spec_cols());
                            };
                            assert(b.col_seq(j as int).len() == b.spec_rows());
                            assert(!dot_fits(a.row_seq(i as int), b.col_seq(j as int)));
                            assert(cell_delivered(worker_open@, i as int));
                        }
                        return Err(Error::Overflow);
                    },
                }
            } else {
                data.push(0);
            }
            proof {
                assert forall|ii: int, jj: int| 0 <= ii < i && 0 <= jj < cols implies (0 <= ii
                    * cols + jj < old_data.len() && #[trigger] data@[ii * cols + jj]
                    == old_data[ii * cols + jj]) by {
                    lemma_prefix_index(ii, jj, i as int, cols as int);
                }
                assert forall|jj: int| 0 <= jj < j implies (i * cols + jj < old_data.len()
                    && #[trigger] data@[i * cols + jj] == old_data[i * cols + jj]) by {}
            }
            j = j + 1;
        }
        proof {
            lemma_row_offsets(i as int, rows as int, cols as int);
        }
        i = i + 1;
    }
    proof {
        assert(data@.len() == rows * cols);
    }
    let c = Matrix::new(data, rows, cols);
    proof {
        assert forall|i2: int, j2: int|
            0 <= i2 < a.spec_rows() && 0 <= j2 < b.spec_cols() implies #[trigger] c.entry(i2, j2)
            == c@[i2 * cols + j2] by {
            lemma_row_major_bounds(i2, j2, rows as int, cols as int);
        }
    }
    Ok(c)
}

/// Computes the product of `a` (m×k) and `b` (k×n) through the dispatch
/// engine with every worker queue open: the result is the standard matrix
/// product, `m×n`, with entry `(i, j)` the dot product of row `i` of `a`
/// and column `j` of `b`.  Fails with `DimensionMismatch` exactly when
/// `a.cols() != b.rows()`, before any task is built, and with `Overflow`
/// exactly when some cell's dot product cannot be carried out in `i64`.
pub fn multiply(a: Matrix, b: Matrix) -> (r: Result<Matrix, Error>)
    requires
        a.wf(),
        b.wf(),
        a.spec_rows() * b.spec_cols() <= usize::MAX,
    ensures
        (r == Err::<Matrix, Error>(Error::DimensionMismatch)) <==> a.spec_cols() != b.spec_rows(),
        a.spec_cols() == b.spec_rows() ==> ((r is Ok) <==> product_fits(&a, &b)),
        (r == Err::<Matrix, Error>(Error::Overflow)) <==> (a.spec_cols() == b.spec_rows()
            && !product_fits(&a, &b)),
        r matches Ok(c) ==> {
            &&& c.wf()
            &&& c.spec_rows() == a.spec_rows()
            &&& c.spec_cols() == b.spec_cols()
            &&& forall|i: int, j: int|
                0 <= i < a.spec_rows() && 0 <= j < b.spec_cols() ==> c.entry(i, j)
                    == #[trigger] product_entry(&a, &b, i, j)
        },
{
    let mut worker_open: Vec<bool> = Vec::new();
    let mut k: usize = 0;
    while k < NUM_PRODUCTERS
        invariant
            k <= NUM_PRODUCTERS,
            worker_open@.len() == k,
            forall|m: int| 0 <= m < k ==> worker_open@[m],
        decreases NUM_PRODUCTERS - k,
    {
        worker_open.push(true);
        k = k + 1;
    }
    let r = multiply_with_pool(&a, &b, &worker_open);
    proof {
        assert(forall|i: int|
            0 <= i < a.spec_rows() ==> #[trigger] cell_delivered(worker_open@, i));
    }
    r
}

} // verus!
