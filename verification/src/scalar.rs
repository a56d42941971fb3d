use vstd::prelude::*;

verus! {

/// The scalar arithmetic used by the aggregator, supplied by the caller as
/// closures over an opaque scalar type `S`.
///
/// The verified code owns every structural decision — which cells are
/// combined, in what order, and where each result lands — while the scalar
/// operations themselves stay with the caller. Contracts relate every
/// produced cell to the closure that computed it through `call_ensures`, so
/// whatever the caller can prove (or test) about its arithmetic transfers
/// directly to the aggregator's output.
///
/// The fields, in the roles the aggregator gives them:
/// - `zero`: the additive identity used to seed accumulation buffers;
/// - `add`: elementwise accumulation of beta and variance contributions;
/// - `mul`: products inside the projected-phenotype-variance computation;
/// - `div_count`: normalization of the variance accumulator by the
///   phenotype count;
/// - `se_of(ppv, gpv, beta, dof)`: the standard-error formula
///   `sqrt((ppv / gpv - beta^2) / dof)`;
/// - `div`: the t-statistic `beta / se`;
/// - `sig_of(t, dof)`: the collaborator that turns a t-statistic and degrees
///   of freedom into a negative log10 p-value.
#[verifier::reject_recursive_types(S)]
pub struct ScalarOps<S, FAdd, FMul, FDivN, FSe, FDiv, FSig> where
    S: Copy,
    FAdd: Fn(S, S) -> S,
    FMul: Fn(S, S) -> S,
    FDivN: Fn(S, usize) -> S,
    FSe: Fn(S, S, S, i64) -> S,
    FDiv: Fn(S, S) -> S,
    FSig: Fn(S, i64) -> S,
{
    pub zero: S,
    pub add: FAdd,
    pub mul: FMul,
    pub div_count: FDivN,
    pub se_of: FSe,
    pub div: FDiv,
    pub sig_of: FSig,
}

impl<S, FAdd, FMul, FDivN, FSe, FDiv, FSig> ScalarOps<S, FAdd, FMul, FDivN, FSe, FDiv, FSig> where
    S: Copy,
    FAdd: Fn(S, S) -> S,
    FMul: Fn(S, S) -> S,
    FDivN: Fn(S, usize) -> S,
    FSe: Fn(S, S, S, i64) -> S,
    FDiv: Fn(S, S) -> S,
    FSig: Fn(S, i64) -> S,
{
    /// Every closure accepts every argument; functions taking a `ScalarOps`
    /// require this so they may call the closures freely.
    pub open spec fn callable(&self) -> bool {
        &&& forall|a: S, b: S| call_requires(self.add, (a, b))
        &&& forall|a: S, b: S| call_requires(self.mul, (a, b))
        &&& forall|a: S, n: usize| call_requires(self.div_count, (a, n))
        &&& forall|p: S, g: S, b: S, d: i64| call_requires(self.se_of, (p, g, b, d))
        &&& forall|a: S, b: S| call_requires(self.div, (a, b))
        &&& forall|t: S, d: i64| call_requires(self.sig_of, (t, d))
    }
}

/// `r` is a possible result of folding `add` over the first `n` products
/// `mul(xs[k], ys[k])`, starting from `zero`: the dot product of `xs` and
/// `ys` as the aggregator computes it.
pub open spec fn dot_rel<S: Copy, FAdd: Fn(S, S) -> S, FMul: Fn(S, S) -> S>(
    add: FAdd,
    mul: FMul,
    zero: S,
    xs: Seq<S>,
    ys: Seq<S>,
    n: int,
    r: S,
) -> bool
    decreases n,
{
    if n <= 0 {
        r == zero
    } else {
        exists|p: S, t: S|
            {
                &&& dot_rel(add, mul, zero, xs, ys, n - 1, p)
                &&& call_ensures(mul, (xs[n - 1], ys[n - 1]), t)
                &&& #[trigger] call_ensures(add, (p, t), r)
            }
    }
}

/// Column `j` of a matrix held as a vector of rows.
pub open spec fn col_of<S>(m: Seq<Vec<S>>, j: int) -> Seq<S> {
    Seq::new(m.len(), |a: int| m[a]@[j])
}

/// `r` is a possible value of entry `j` of the diagonal of
/// `proj^T * cov * proj`: an intermediate vector `mv` holds the dot products
/// of the rows of `cov` with column `j` of `proj`, and `r` is the dot
/// product of that column with `mv`.
pub open spec fn ppv_rel<S: Copy, FAdd: Fn(S, S) -> S, FMul: Fn(S, S) -> S>(
    add: FAdd,
    mul: FMul,
    zero: S,
    proj: Seq<Vec<S>>,
    cov: Seq<Vec<S>>,
    j: int,
    r: S,
) -> bool {
    exists|mv: Seq<S>|
        {
            &&& mv.len() == cov.len()
            &&& forall|a: int|
                0 <= a < cov.len() ==> dot_rel(
                    add,
                    mul,
                    zero,
                    cov[a]@,
                    col_of(proj, j),
                    cov.len() as int,
                    #[trigger] mv[a],
                )
            &&& #[trigger] dot_rel(add, mul, zero, col_of(proj, j), mv, cov.len() as int, r)
        }
}

} // verus!
