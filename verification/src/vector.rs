use vstd::prelude::*;

verus! {

use crate::error::Error;

/// A numeric sequence handed to the dot-product primitive.  Workers receive
/// one row of the left operand and one column of the right operand as two
/// `Vector` values and combine them with `dot_product`.
pub struct Vector {
    data: Vec<i64>,
}

impl View for Vector {
    type V = Seq<i64>;

    closed spec fn view(&self) -> Seq<i64> {
        self.data@
    }
}

impl Vector {
    /// Wraps an owned sequence of elements.
    pub fn new(data: Vec<i64>) -> (v: Vector)
        ensures
            v@ == data@,
    {
        Vector { data }
    }

    /// The number of elements.
    pub fn len(&self) -> (n: usize)
        ensures
            n == self@.len(),
    {
        self.data.len()
    }
}

/// The sum of the first `n` pairwise products of `a` and `b`.
pub open spec fn dot_partial(a: Seq<i64>, b: Seq<i64>, n: int) -> int
    decreases n,
{
    if n <= 0 {
        0
    } else {
        dot_partial(a, b, n - 1) + a[n - 1] * b[n - 1]
    }
}

/// The mathematical dot product of two equal-length sequences.
pub open spec fn dot(a: Seq<i64>, b: Seq<i64>) -> int {
    dot_partial(a, b, a.len() as int)
}

/// Every partial sum of the dot product stays inside the `i64` range, so the
/// accumulation can be carried out without overflow.
pub open spec fn dot_fits(a: Seq<i64>, b: Seq<i64>) -> bool {
    forall|n: int| 0 <= n <= a.len() ==> i64::MIN <= #[trigger] dot_partial(a, b, n) <= i64::MAX
}

proof fn lemma_i64_product_in_i128(x: int, y: int) by (nonlinear_arith)
    requires
        i64::MIN <= x <= i64::MAX,
        i64::MIN <= y <= i64::MAX,
    ensures
        -0x40000000000000000000000000000000 <= x * y <= 0x40000000000000000000000000000000,
{
}

/// Computes the dot product of `a` and `b`, failing with `LengthMismatch`
/// when the lengths differ and with `Overflow` when some partial sum leaves
/// the `i64` range.  Pure and deterministic: safe to run on any worker.
pub fn dot_product(a: Vector, b: Vector) -> (r: Result<i64, Error>)
    ensures
        (r is Ok) <==> (a@.len() == b@.len() && dot_fits(a@, b@)),
        r matches Ok(v) ==> v == dot(a@, b@),
        (r == Err::<i64, Error>(Error::LengthMismatch)) <==> a@.len() != b@.len(),
        (r == Err::<i64, Error>(Error::Overflow)) <==> (a@.len() == b@.len() && !dot_fits(
            a@,
            b@,
        )),
{
    let n = a.data.len();
    if n != b.data.len() {
        return Err(Error::LengthMismatch);
    }
    let mut acc: i64 = 0;
    let mut i: usize = 0;
    while i < n
        invariant
            n == a@.len(),
            n == b@.len(),
            i <= n,
            acc == dot_partial(a@, b@, i as int),
            forall|m: int| 0 <= m <= i ==> i64::MIN <= #[trigger] dot_partial(a@, b@, m)
                <= i64::MAX,
        decreases n - i,
    {
        let x = a.data[i];
        let y = b.data[i];
        proof {
            lemma_i64_product_in_i128(x as int, y as int);
        }
        let p: i128 = (x as i128) * (y as i128);
        let s: i128 = (acc as i128) + p;
        assert(s == dot_partial(a@, b@, i + 1));
        if s < (i64::MIN as i128) || s > (i64::MAX as i128) {
            return Err(Error::Overflow);
        }
        acc = s as i64;
        i = i + 1;
    }
    Ok(acc)
}

} // verus!
