use vstd::prelude::*;

use crate::chunk::PhenotypeChunk;
use crate::error::Error;
use crate::matrix::LabeledMatrix;
use crate::matrix::labels_eq;
use crate::matrix::labels_unique;
use crate::matrix::strings_equal;

verus! {

/// The elementwise minimum of two sample sizes.
pub open spec fn min_i32(a: i32, b: i32) -> i32 {
    if a <= b {
        a
    } else {
        b
    }
}

/// Copies a vector of strings; the view is preserved exactly.
pub fn clone_strings(v: &Vec<String>) -> (r: Vec<String>)
    ensures
        r@ == v@,
{
    let mut r: Vec<String> = Vec::new();
    let mut i: usize = 0;
    while i < v.len()
        invariant
            i <= v@.len(),
            r@ == v@.subrange(0, i as int),
        decreases v@.len() - i,
    {
        r.push(v[i].clone());
        assert(r@ =~= v@.subrange(0, i + 1));
        i += 1;
    }
    assert(r@ =~= v@);
    r
}

/// Copies a vector of plain values.
pub fn copy_values<T: Copy>(v: &Vec<T>) -> (r: Vec<T>)
    ensures
        r@ == v@,
{
    let mut r: Vec<T> = Vec::new();
    let mut i: usize = 0;
    while i < v.len()
        invariant
            i <= v@.len(),
            r@ == v@.subrange(0, i as int),
        decreases v@.len() - i,
    {
        r.push(v[i]);
        assert(r@ =~= v@.subrange(0, i + 1));
        i += 1;
    }
    assert(r@ =~= v@);
    r
}

/// Copies a matrix held as a vector of rows, cell for cell.
pub fn copy_matrix<S: Copy>(m: &Vec<Vec<S>>) -> (r: Vec<Vec<S>>)
    ensures
        r@.len() == m@.len(),
        forall|i: int| 0 <= i < m@.len() ==> (#[trigger] r@[i])@ == m@[i]@,
{
    let mut r: Vec<Vec<S>> = Vec::new();
    let mut i: usize = 0;
    while i < m.len()
        invariant
            i <= m@.len(),
            r@.len() == i,
            forall|k: int| 0 <= k < i ==> (#[trigger] r@[k])@ == m@[k]@,
        decreases m@.len() - i,
    {
        let row = copy_values(&m[i]);
        r.push(row);
        i += 1;
    }
    r
}

/// A vector of `n` copies of `value`.
pub fn filled<T: Copy>(n: usize, value: T) -> (r: Vec<T>)
    ensures
        r@.len() == n,
        forall|i: int| 0 <= i < n ==> r@[i] == value,
{
    let mut r: Vec<T> = Vec::new();
    let mut i: usize = 0;
    while i < n
        invariant
            i <= n,
            r@.len() == i,
            forall|k: int| 0 <= k < i ==> r@[k] == value,
        decreases n - i,
    {
        r.push(value);
        i += 1;
    }
    r
}

/// An `nrows` by `ncols` matrix with every cell equal to `value`.
pub fn filled_matrix<S: Copy>(nrows: usize, ncols: usize, value: S) -> (r: Vec<Vec<S>>)
    ensures
        r@.len() == nrows,
        forall|i: int| 0 <= i < nrows ==> (#[trigger] r@[i])@.len() == ncols,
        forall|i: int, j: int| 0 <= i < nrows && 0 <= j < ncols ==> (#[trigger] r@[i]@[j]) == value,
{
    let mut r: Vec<Vec<S>> = Vec::new();
    let mut i: usize = 0;
    while i < nrows
        invariant
            i <= nrows,
            r@.len() == i,
            forall|k: int| 0 <= k < i ==> (#[trigger] r@[k])@.len() == ncols,
            forall|k: int, j: int| 0 <= k < i && 0 <= j < ncols ==> (#[trigger] r@[k]@[j]) == value,
        decreases nrows - i,
    {
        let row = filled(ncols, value);
        r.push(row);
        i += 1;
    }
    r
}

/// The stateful aggregator: accumulates one window's per-phenotype
/// contributions and finalizes projected statistics once every phenotype has
/// contributed. The run-wide data — projection and covariance matrices,
/// their labels, the covariance diagonal — are fixed at construction; the
/// window buffers are reset by `clear_chunk`, mutated by one `update` per
/// phenotype, and consumed by one `compute_final_stats` per window.
pub struct RunningSufficientStats<S> {
    /// Accumulated projected effect sizes: window size rows, one column per
    /// projection.
    pub beta: Vec<Vec<S>>,
    /// Accumulated genotype-phenotype variance, one entry per variant.
    pub gpv: Vec<S>,
    /// Running per-variant sample sizes: the elementwise minimum of every
    /// contribution so far.
    pub sample_sizes: Vec<i32>,
    /// Covariance matrix of the phenotypes, read-only after construction.
    pub cov: Vec<Vec<S>>,
    /// Diagonal of the covariance matrix: per-feature partial variance.
    pub fpv: Vec<S>,
    /// Projection coefficients: one row per phenotype, one column per
    /// projection.
    pub proj: Vec<Vec<S>>,
    /// The additive identity of the scalar type, used to reset buffers.
    pub zero: S,
    pub n_covar: usize,
    pub chunksize: usize,
    pub n_features: usize,
    pub n_projections: usize,
    /// Phenotype labels in projection-row order; the phenotype-to-index
    /// lookup works by position in this vector.
    pub phenotype_labels: Vec<String>,
    /// The window's canonical variant identifiers, adopted from the first
    /// contribution.
    pub variant_ids: Option<Vec<String>>,
    pub projection_ids: Vec<String>,
    /// How many phenotypes have contributed to the current window.
    pub n_features_seen: usize,
}

impl<S: Copy> RunningSufficientStats<S> {
    /// Shapes are consistent, labels are unique, and the seen counter never
    /// exceeds the phenotype count; from the first contribution onward the
    /// canonical variant identifiers are present and sized to the window.
    pub open spec fn wf(&self) -> bool {
        &&& self.n_features >= 1
        &&& self.chunksize >= 1
        &&& self.beta@.len() == self.chunksize
        &&& forall|i: int|
            0 <= i < self.chunksize ==> (#[trigger] self.beta@[i])@.len() == self.n_projections
        &&& self.gpv@.len() == self.chunksize
        &&& self.sample_sizes@.len() == self.chunksize
        &&& self.cov@.len() == self.n_features
        &&& forall|i: int|
            0 <= i < self.n_features ==> (#[trigger] self.cov@[i])@.len() == self.n_features
        &&& self.proj@.len() == self.n_features
        &&& forall|i: int|
            0 <= i < self.n_features ==> (#[trigger] self.proj@[i])@.len() == self.n_projections
        &&& self.fpv@.len() == self.n_features
        &&& self.phenotype_labels@.len() == self.n_features
        &&& labels_unique(self.phenotype_labels@)
        &&& self.projection_ids@.len() == self.n_projections
        &&& self.n_features_seen <= self.n_features
        &&& (self.n_features_seen > 0 ==> self.variant_ids is Some)
        &&& (self.variant_ids is Some ==> self.variant_ids->Some_0@.len() == self.chunksize)
    }

    /// Builds the aggregator from the projection and covariance matrices.
    ///
    /// Fails with `ShapeMismatch` exactly when the covariance matrix is not
    /// square with dimension equal to the projection matrix's row count.
    /// On success the window buffers are zeroed to `window_size`, the
    /// covariance diagonal is captured as the per-feature partial variance,
    /// and the phenotype lookup is the projection matrix's row labels in
    /// order.
    pub fn new(
        proj: &LabeledMatrix<S>,
        cov: &LabeledMatrix<S>,
        n_covar: usize,
        chunksize: usize,
        zero: S,
    ) -> (r: Result<RunningSufficientStats<S>, Error>)
        requires
            proj.wf(),
            cov.wf(),
            proj.nrows() >= 1,
            chunksize >= 1,
        ensures
            r is Err <==> !(cov.nrows() == proj.nrows() && cov.ncols() == proj.nrows()),
            r is Err ==> r->Err_0 == Error::ShapeMismatch,
            r is Ok ==> {
                let s = r->Ok_0;
                &&& s.wf()
                &&& s.n_features == proj.nrows()
                &&& s.n_projections == proj.ncols()
                &&& s.n_covar == n_covar
                &&& s.chunksize == chunksize
                &&& s.zero == zero
                &&& s.n_features_seen == 0
                &&& s.variant_ids is None
                &&& forall|i: int, j: int|
                    0 <= i < chunksize && 0 <= j < proj.ncols() ==> (#[trigger] s.beta@[i]@[j])
                        == zero
                &&& forall|i: int| 0 <= i < chunksize ==> s.gpv@[i] == zero
                &&& forall|i: int| 0 <= i < chunksize ==> s.sample_sizes@[i] == 0i32
                &&& forall|i: int|
                    0 <= i < proj.nrows() ==> (#[trigger] s.cov@[i])@ == cov.matrix@[i]@
                &&& forall|i: int|
                    0 <= i < proj.nrows() ==> (#[trigger] s.proj@[i])@ == proj.matrix@[i]@
                &&& forall|i: int|
                    0 <= i < proj.nrows() ==> s.fpv@[i] == cov.matrix@[i]@[i]
                &&& labels_eq(s.phenotype_labels@, proj.row_labels@)
                &&& labels_eq(s.projection_ids@, proj.col_labels@)
            },
    {
        let n_features = proj.matrix.len();
        let n_projections = proj.col_labels.len();
        if cov.matrix.len() != n_features || cov.col_labels.len() != n_features {
            return Err(Error::ShapeMismatch);
        }
        let mut fpv: Vec<S> = Vec::new();
        let mut i: usize = 0;
        while i < n_features
            invariant
                i <= n_features,
                fpv@.len() == i,
                cov.wf(),
                cov.matrix@.len() == n_features,
                cov.col_labels@.len() == n_features,
                forall|k: int| 0 <= k < i ==> fpv@[k] == cov.matrix@[k]@[k],
            decreases n_features - i,
        {
            fpv.push(cov.matrix[i][i]);
            i += 1;
        }
        Ok(
            RunningSufficientStats {
                beta: filled_matrix(chunksize, n_projections, zero),
                gpv: filled(chunksize, zero),
                sample_sizes: filled(chunksize, 0i32),
                cov: copy_matrix(&cov.matrix),
                fpv,
                proj: copy_matrix(&proj.matrix),
                zero,
                n_covar,
                chunksize,
                n_features,
                n_projections,
                phenotype_labels: clone_strings(&proj.row_labels),
                variant_ids: None,
                projection_ids: clone_strings(&proj.col_labels),
                n_features_seen: 0,
            },
        )
    }

    /// Resets the window buffers to zero for a window of `new_chunksize`
    /// rows, resets the seen counter, and discards the previous window's
    /// canonical variant identifiers and sample sizes. The run-wide data are
    /// untouched.
    pub fn clear_chunk(&mut self, new_chunksize: usize)
        requires
            old(self).wf(),
            new_chunksize >= 1,
        ensures
            final(self).wf(),
            final(self).chunksize == new_chunksize,
            final(self).n_features_seen == 0,
            final(self).variant_ids is None,
            forall|i: int, j: int|
                0 <= i < new_chunksize && 0 <= j < final(self).n_projections
                    ==> (#[trigger] final(self).beta@[i]@[j]) == old(self).zero,
            forall|i: int| 0 <= i < new_chunksize ==> final(self).gpv@[i] == old(self).zero,
            forall|i: int| 0 <= i < new_chunksize ==> final(self).sample_sizes@[i] == 0i32,
            final(self).cov == old(self).cov,
            final(self).fpv == old(self).fpv,
            final(self).proj == old(self).proj,
            final(self).zero == old(self).zero,
            final(self).n_covar == old(self).n_covar,
            final(self).n_features == old(self).n_features,
            final(self).n_projections == old(self).n_projections,
            final(self).phenotype_labels == old(self).phenotype_labels,
            final(self).projection_ids == old(self).projection_ids,
    {
        self.beta = filled_matrix(new_chunksize, self.n_projections, self.zero);
        self.gpv = filled(new_chunksize, self.zero);
        self.sample_sizes = filled(new_chunksize, 0i32);
        self.chunksize = new_chunksize;
        self.variant_ids = None;
        self.n_features_seen = 0;
    }

    /// Folds one phenotype's contribution into the window.
    ///
    /// The first contribution's variant identifiers and sample sizes become
    /// the window's canonical values. A later contribution must carry the
    /// identical identifier sequence — otherwise the call fails with
    /// `MismatchedVariantIds` and leaves the aggregator exactly as it was —
    /// and replaces the running sample sizes with their elementwise minimum
    /// against its own. Either way the partial beta and variance sums are
    /// folded in cell by cell with `add`, and the seen counter grows by one.
    pub fn update<FAdd: Fn(S, S) -> S>(&mut self, chunk: &PhenotypeChunk<S>, add: &FAdd) -> (r:
        Result<(), Error>)
        requires
            old(self).wf(),
            chunk.wf(old(self).chunksize as int, old(self).n_projections as int),
            old(self).n_features_seen < old(self).n_features,
            forall|a: S, b: S| call_requires(*add, (a, b)),
        ensures
            final(self).wf(),
            r is Err <==> (old(self).n_features_seen > 0 && !labels_eq(
                chunk.variant_ids@,
                old(self).variant_ids->Some_0@,
            )),
            r is Err ==> r->Err_0 == Error::MismatchedVariantIds && *final(self) == *old(self),
            r is Ok ==> {
                let pre = *old(self);
                let post = *final(self);
                &&& post.n_features_seen == pre.n_features_seen + 1
                &&& post.variant_ids is Some
                &&& (pre.n_features_seen == 0 ==> post.variant_ids->Some_0@ == chunk.variant_ids@)
                &&& (pre.n_features_seen > 0 ==> post.variant_ids == pre.variant_ids)
                &&& post.sample_sizes@.len() == pre.chunksize
                &&& (pre.n_features_seen == 0 ==> post.sample_sizes@ == chunk.sample_sizes@)
                &&& (pre.n_features_seen > 0 ==> forall|i: int|
                    0 <= i < pre.chunksize ==> post.sample_sizes@[i] == min_i32(
                        pre.sample_sizes@[i],
                        chunk.sample_sizes@[i],
                    ))
                &&& post.beta@.len() == pre.chunksize
                &&& forall|i: int, j: int|
                    0 <= i < pre.chunksize && 0 <= j < pre.n_projections ==> call_ensures(
                        *add,
                        (pre.beta@[i]@[j], chunk.beta_update@[i]@[j]),
                        #[trigger] post.beta@[i]@[j],
                    )
                &&& forall|i: int|
                    0 <= i < pre.chunksize ==> call_ensures(
                        *add,
                        (pre.gpv@[i], chunk.gpv_update@[i]),
                        #[trigger] post.gpv@[i],
                    )
                &&& post.cov == pre.cov
                &&& post.fpv == pre.fpv
                &&& post.proj == pre.proj
                &&& post.zero == pre.zero
                &&& post.n_covar == pre.n_covar
                &&& post.chunksize == pre.chunksize
                &&& post.n_features == pre.n_features
                &&& post.n_projections == pre.n_projections
                &&& post.phenotype_labels == pre.phenotype_labels
                &&& post.projection_ids == pre.projection_ids
            },
            r is Ok ==> forall|f: spec_fn(S, S) -> S|
                (forall|a: S, b: S, y: S| call_ensures(*add, (a, b), y) ==> y == f(a, b))
                    ==> #[trigger] apply_update(
                    old(self).window_state(),
                    chunk.chunk_state(),
                    f,
                ) == final(self).window_state(),
    {
        if self.n_features_seen > 0 {
            let matches = match &self.variant_ids {
                Some(ids) => strings_equal(ids, &chunk.variant_ids),
                None => false,
            };
            if !matches {
                return Err(Error::MismatchedVariantIds);
            }
            let mut new_sizes: Vec<i32> = Vec::new();
            let mut i: usize = 0;
            while i < self.sample_sizes.len()
                invariant
                    i <= self.sample_sizes@.len(),
                    self.sample_sizes@.len() == self.chunksize,
                    chunk.sample_sizes@.len() == self.chunksize,
                    new_sizes@.len() == i,
                    forall|k: int|
                        0 <= k < i ==> new_sizes@[k] == min_i32(
                            self.sample_sizes@[k],
                            chunk.sample_sizes@[k],
                        ),
                decreases self.sample_sizes@.len() - i,
            {
                let a = self.sample_sizes[i];
                let b = chunk.sample_sizes[i];
                new_sizes.push(if a <= b { a } else { b });
                i += 1;
            }
            self.sample_sizes = new_sizes;
        } else {
            self.variant_ids = Some(clone_strings(&chunk.variant_ids));
            self.sample_sizes = copy_values(&chunk.sample_sizes);
        }
        let ghost pre_beta = self.beta@;
        let mut new_beta: Vec<Vec<S>> = Vec::new();
        let mut i: usize = 0;
        while i < self.beta.len()
            invariant
                i <= self.beta@.len(),
                self.beta@ == pre_beta,
                self.beta@.len() == self.chunksize,
                forall|k: int|
                    0 <= k < self.chunksize ==> (#[trigger] self.beta@[k])@.len()
                        == self.n_projections,
                chunk.wf(self.chunksize as int, self.n_projections as int),
                forall|a: S, b: S| call_requires(*add, (a, b)),
                new_beta@.len() == i,
                forall|k: int| 0 <= k < i ==> (#[trigger] new_beta@[k])@.len() == self.n_projections,
                forall|k: int, j: int|
                    0 <= k < i && 0 <= j < self.n_projections ==> call_ensures(
                        *add,
                        (self.beta@[k]@[j], chunk.beta_update@[k]@[j]),
                        #[trigger] new_beta@[k]@[j],
                    ),
            decreases self.beta@.len() - i,
        {
            let mut row: Vec<S> = Vec::new();
            let mut j: usize = 0;
            while j < self.n_projections
                invariant
                    i < self.beta@.len(),
                    self.beta@.len() == self.chunksize,
                    forall|k: int|
                        0 <= k < self.chunksize ==> (#[trigger] self.beta@[k])@.len()
                            == self.n_projections,
                    chunk.wf(self.chunksize as int, self.n_projections as int),
                    forall|a: S, b: S| call_requires(*add, (a, b)),
                    j <= self.n_projections,
                    row@.len() == j,
                    forall|q: int|
                        0 <= q < j ==> call_ensures(
                            *add,
                            (self.beta@[i as int]@[q], chunk.beta_update@[i as int]@[q]),
                            #[trigger] row@[q],
                        ),
                decreases self.n_projections - j,
            {
                let s = (add)(self.beta[i][j], chunk.beta_update[i][j]);
                row.push(s);
                j += 1;
            }
            new_beta.push(row);
            i += 1;
        }
        self.beta = new_beta;
        let mut new_gpv: Vec<S> = Vec::new();
        let mut i: usize = 0;
        while i < self.gpv.len()
            invariant
                i <= self.gpv@.len(),
                self.gpv@.len() == self.chunksize,
                chunk.wf(self.chunksize as int, self.n_projections as int),
                forall|a: S, b: S| call_requires(*add, (a, b)),
                new_gpv@.len() == i,
                forall|k: int|
                    0 <= k < i ==> call_ensures(
                        *add,
                        (self.gpv@[k], chunk.gpv_update@[k]),
                        #[trigger] new_gpv@[k],
                    ),
            decreases self.gpv@.len() - i,
        {
            let s = (add)(self.gpv[i], chunk.gpv_update[i]);
            new_gpv.push(s);
            i += 1;
        }
        self.gpv = new_gpv;
        self.n_features_seen += 1;
        proof {
            assert forall|f: spec_fn(S, S) -> S|
                (forall|a: S, b: S, y: S| call_ensures(*add, (a, b), y) ==> y == f(
                    a,
                    b,
                )) implies #[trigger] apply_update(
                old(self).window_state(),
                chunk.chunk_state(),
                f,
            ) == self.window_state() by {
                let m1 = apply_update(old(self).window_state(), chunk.chunk_state(), f);
                let m2 = self.window_state();
                assert(m1.beta =~~= m2.beta);
                assert(m1.gpv =~~= m2.gpv);
                assert(m1.sample_sizes =~~= m2.sample_sizes);
                if old(self).n_features_seen == 0 {
                    assert(m1.variant_ids->0 =~~= m2.variant_ids->0);
                    assert(m1.variant_ids == m2.variant_ids);
                } else {
                    assert(m1.variant_ids == m2.variant_ids);
                }
                assert(m1 == m2);
            }
        }
        Ok(())
    }
}

/// The immutable per-run data a chunk producer needs: window size, the
/// projection coefficients, the per-feature partial variances, the
/// phenotype-to-index lookup, and the covariate count.
pub struct ProcessingStats<S> {
    pub n_variants: usize,
    pub proj: Vec<Vec<S>>,
    pub fpv: Vec<S>,
    pub phenotype_labels: Vec<String>,
    pub n_covar: usize,
}

impl<S: Copy> ProcessingStats<S> {
    /// The projection-matrix row index of a phenotype, by its label; `None`
    /// when the label is unknown.
    pub fn phenotype_index(&self, name: &String) -> (r: Option<usize>)
        ensures
            r is Some ==> r->Some_0 < self.phenotype_labels@.len()
                && self.phenotype_labels@[r->Some_0 as int]@ == name@,
            r is None <==> forall|k: int|
                0 <= k < self.phenotype_labels@.len() ==> (#[trigger] self.phenotype_labels@[k])@
                    != name@,
    {
        let mut k: usize = 0;
        while k < self.phenotype_labels.len()
            invariant
                k <= self.phenotype_labels@.len(),
                forall|q: int|
                    0 <= q < k ==> (#[trigger] self.phenotype_labels@[q])@ != name@,
            decreases self.phenotype_labels@.len() - k,
        {
            if self.phenotype_labels[k] == *name {
                return Some(k);
            }
            k += 1;
        }
        None
    }
}

impl<S: Copy> RunningSufficientStats<S> {
    /// A snapshot of the run-wide data for chunk producers.
    pub fn build_processing_stats(&self) -> (r: ProcessingStats<S>)
        requires
            self.wf(),
        ensures
            r.n_variants == self.chunksize,
            r.proj@.len() == self.proj@.len(),
            forall|i: int| 0 <= i < self.proj@.len() ==> (#[trigger] r.proj@[i])@ == self.proj@[i]@,
            r.fpv@ == self.fpv@,
            r.phenotype_labels@ == self.phenotype_labels@,
            r.n_covar == self.n_covar,
    {
        ProcessingStats {
            n_variants: self.beta.len(),
            proj: copy_matrix(&self.proj),
            fpv: copy_values(&self.fpv),
            phenotype_labels: clone_strings(&self.phenotype_labels),
            n_covar: self.n_covar,
        }
    }
}

} // verus!

use crate::chunk::FinalizedChunk;
use crate::scalar::ScalarOps;
use crate::scalar::col_of;
use crate::scalar::dot_rel;
use crate::scalar::ppv_rel;
use vstd::arithmetic::div_mod::lemma_fundamental_div_mod_converse;

verus! {

/// Degrees of freedom for variant `i`: its running sample size minus 2 minus
/// the covariate count.
pub open spec fn dof_of(sample_sizes: Seq<i32>, n_covar: int, i: int) -> i64 {
    (sample_sizes[i] - 2 - n_covar) as i64
}

/// Entry `k` of the flattened standard errors is a possible value of
/// `se_of(ppv[j], gpv[i], beta[i][j], dof[i])` for `j = k / cs` and
/// `i = k % cs`, for some projected phenotype variance `ppv[j]` computed as
/// `ppv_rel` describes.
pub open spec fn se_cell_ok<S: Copy, FAdd: Fn(S, S) -> S, FMul: Fn(S, S) -> S, FSe: Fn(S, S, S, i64) -> S>(
    add: FAdd,
    mul: FMul,
    se_of: FSe,
    zero: S,
    proj: Seq<Vec<S>>,
    cov: Seq<Vec<S>>,
    gpv: Seq<S>,
    beta: Seq<Vec<S>>,
    sample_sizes: Seq<i32>,
    n_covar: int,
    cs: int,
    se_val: S,
    k: int,
) -> bool {
    exists|p: S|
        #[trigger] ppv_rel(add, mul, zero, proj, cov, k / cs, p) && call_ensures(
            se_of,
            (p, gpv[k % cs], beta[k % cs]@[k / cs], dof_of(sample_sizes, n_covar, k % cs)),
            se_val,
        )
}

impl<S: Copy> RunningSufficientStats<S> {
    /// Finalizes the current window.
    ///
    /// Fails with `IncompleteAggregation`, leaving the aggregator untouched,
    /// exactly when the seen counter differs from the phenotype count.
    /// Otherwise it normalizes the variance accumulator by the phenotype
    /// count, computes per projection `j` the projected phenotype variance
    /// `ppv[j]` (entry `j` of the diagonal of `proj^T * cov * proj`), per
    /// variant `i` the degrees of freedom `dof[i] = sample_sizes[i] - 2 -
    /// n_covar`, and per cell the standard error `se_of(ppv[j], gpv[i],
    /// beta[i][j], dof[i])`, the t-statistic `beta / se` and the significance
    /// `sig_of(t, dof[i])`. The result is flattened projection-major and
    /// variant-minor, with variant identifiers and sample sizes replicated
    /// per projection. The window buffers stay as they are — the next
    /// `clear_chunk` resets them — so finalize is called exactly once per
    /// window.
    #[verifier::loop_isolation(false)]
    pub fn compute_final_stats<FAdd, FMul, FDivN, FSe, FDiv, FSig>(
        &mut self,
        ops: &ScalarOps<S, FAdd, FMul, FDivN, FSe, FDiv, FSig>,
    ) -> (r: Result<FinalizedChunk<S>, Error>) where
        FAdd: Fn(S, S) -> S,
        FMul: Fn(S, S) -> S,
        FDivN: Fn(S, usize) -> S,
        FSe: Fn(S, S, S, i64) -> S,
        FDiv: Fn(S, S) -> S,
        FSig: Fn(S, i64) -> S,
        requires
            old(self).wf(),
            ops.callable(),
            old(self).n_covar <= 0x7fff_ffff,
            old(self).chunksize * old(self).n_projections <= usize::MAX,
        ensures
            final(self).wf(),
            r is Err <==> old(self).n_features_seen != old(self).n_features,
            r is Err ==> r->Err_0 == Error::IncompleteAggregation && *final(self) == *old(self),
            r is Ok ==> {
                let pre = *old(self);
                let post = *final(self);
                let out = r->Ok_0;
                let cs = pre.chunksize as int;
                let n = pre.chunksize * pre.n_projections;
                &&& post.gpv@.len() == cs
                &&& forall|i: int|
                    0 <= i < cs ==> call_ensures(
                        ops.div_count,
                        (pre.gpv@[i], pre.n_features),
                        #[trigger] post.gpv@[i],
                    )
                &&& post.beta == pre.beta
                &&& post.sample_sizes == pre.sample_sizes
                &&& post.variant_ids == pre.variant_ids
                &&& post.cov == pre.cov
                &&& post.fpv == pre.fpv
                &&& post.proj == pre.proj
                &&& post.zero == pre.zero
                &&& post.n_covar == pre.n_covar
                &&& post.chunksize == pre.chunksize
                &&& post.n_features == pre.n_features
                &&& post.n_projections == pre.n_projections
                &&& post.phenotype_labels == pre.phenotype_labels
                &&& post.projection_ids == pre.projection_ids
                &&& post.n_features_seen == pre.n_features_seen
                &&& out.projection_ids@.len() == n
                &&& out.variant_ids@.len() == n
                &&& out.beta_values@.len() == n
                &&& out.se_values@.len() == n
                &&& out.t_stat_values@.len() == n
                &&& out.p_values@.len() == n
                &&& out.sample_sizes@.len() == n
                &&& forall|k: int|
                    0 <= k < n ==> (#[trigger] out.projection_ids@[k])@ == pre.projection_ids@[k
                        / cs]@
                &&& forall|k: int|
                    0 <= k < n ==> (#[trigger] out.variant_ids@[k])@
                        == pre.variant_ids->Some_0@[k % cs]@
                &&& forall|k: int|
                    0 <= k < n ==> (#[trigger] out.sample_sizes@[k]) == pre.sample_sizes@[k % cs]
                &&& forall|k: int|
                    0 <= k < n ==> (#[trigger] out.beta_values@[k]) == pre.beta@[k % cs]@[k / cs]
                &&& forall|k: int|
                    0 <= k < n ==> #[trigger] se_cell_ok(
                        ops.add,
                        ops.mul,
                        ops.se_of,
                        ops.zero,
                        pre.proj@,
                        pre.cov@,
                        post.gpv@,
                        pre.beta@,
                        pre.sample_sizes@,
                        pre.n_covar as int,
                        cs,
                        out.se_values@[k],
                        k,
                    )
                &&& forall|k: int|
                    0 <= k < n ==> call_ensures(
                        ops.div,
                        (pre.beta@[k % cs]@[k / cs], out.se_values@[k]),
                        #[trigger] out.t_stat_values@[k],
                    )
                &&& forall|k: int|
                    0 <= k < n ==> call_ensures(
                        ops.sig_of,
                        (
                            out.t_stat_values@[k],
                            dof_of(pre.sample_sizes@, pre.n_covar as int, k % cs),
                        ),
                        #[trigger] out.p_values@[k],
                    )
            },
    {
        if self.n_features_seen != self.n_features {
            return Err(Error::IncompleteAggregation);
        }
        let cs = self.chunksize;
        let np = self.n_projections;
        let nf = self.n_features;
        // Normalize the variance accumulator by the phenotype count.
        let mut new_gpv: Vec<S> = Vec::new();
        let mut i: usize = 0;
        while i < cs
            invariant
                i <= cs,
                new_gpv@.len() == i,
                forall|k: int|
                    0 <= k < i ==> call_ensures(
                        ops.div_count,
                        (old(self).gpv@[k], nf),
                        #[trigger] new_gpv@[k],
                    ),
            decreases cs - i,
        {
            let g = (ops.div_count)(self.gpv[i], nf);
            new_gpv.push(g);
            i += 1;
        }
        self.gpv = new_gpv;
        // Degrees of freedom per variant.
        let mut dof: Vec<i64> = Vec::new();
        let mut i: usize = 0;
        while i < cs
            invariant
                i <= cs,
                dof@.len() == i,
                forall|k: int|
                    0 <= k < i ==> #[trigger] dof@[k] == dof_of(
                        self.sample_sizes@,
                        self.n_covar as int,
                        k,
                    ),
            decreases cs - i,
        {
            let d: i64 = (self.sample_sizes[i] as i64) - 2 - (self.n_covar as i64);
            dof.push(d);
            i += 1;
        }
        // Projected phenotype variance: the diagonal of proj^T * cov * proj.
        let mut ppv: Vec<S> = Vec::new();
        let mut j: usize = 0;
        while j < np
            invariant
                j <= np,
                ppv@.len() == j,
                forall|q: int|
                    0 <= q < j ==> ppv_rel(
                        ops.add,
                        ops.mul,
                        ops.zero,
                        self.proj@,
                        self.cov@,
                        q,
                        #[trigger] ppv@[q],
                    ),
            decreases np - j,
        {
            let mut mv: Vec<S> = Vec::new();
            let mut a: usize = 0;
            while a < nf
                invariant
                    a <= nf,
                    j < np,
                    mv@.len() == a,
                    forall|q: int|
                        0 <= q < a ==> dot_rel(
                            ops.add,
                            ops.mul,
                            ops.zero,
                            self.cov@[q]@,
                            col_of(self.proj@, j as int),
                            nf as int,
                            #[trigger] mv@[q],
                        ),
                decreases nf - a,
            {
                let mut acc = ops.zero;
                let mut b: usize = 0;
                while b < nf
                    invariant
                        b <= nf,
                        a < nf,
                        j < np,
                        dot_rel(
                            ops.add,
                            ops.mul,
                            ops.zero,
                            self.cov@[a as int]@,
                            col_of(self.proj@, j as int),
                            b as int,
                            acc,
                        ),
                    decreases nf - b,
                {
                    let t = (ops.mul)(self.cov[a][b], self.proj[b][j]);
                    let acc2 = (ops.add)(acc, t);
                    proof {
                        assert(col_of(self.proj@, j as int)[b as int] == self.proj@[b as int]@[j as int]);
                        assert(dot_rel(
                            ops.add,
                            ops.mul,
                            ops.zero,
                            self.cov@[a as int]@,
                            col_of(self.proj@, j as int),
                            b + 1,
                            acc2,
                        ));
                    }
                    acc = acc2;
                    b += 1;
                }
                mv.push(acc);
                a += 1;
            }
            let mut acc = ops.zero;
            let mut a: usize = 0;
            while a < nf
                invariant
                    a <= nf,
                    j < np,
                    mv@.len() == nf,
                    forall|q: int|
                        0 <= q < nf ==> dot_rel(
                            ops.add,
                            ops.mul,
                            ops.zero,
                            self.cov@[q]@,
                            col_of(self.proj@, j as int),
                            nf as int,
                            #[trigger] mv@[q],
                        ),
                    dot_rel(
                        ops.add,
                        ops.mul,
                        ops.zero,
                        col_of(self.proj@, j as int),
                        mv@,
                        a as int,
                        acc,
                    ),
                decreases nf - a,
            {
                let t = (ops.mul)(self.proj[a][j], mv[a]);
                let acc2 = (ops.add)(acc, t);
                proof {
                    assert(col_of(self.proj@, j as int)[a as int] == self.proj@[a as int]@[j as int]);
                    assert(dot_rel(
                        ops.add,
                        ops.mul,
                        ops.zero,
                        col_of(self.proj@, j as int),
                        mv@,
                        a + 1,
                        acc2,
                    ));
                }
                acc = acc2;
                a += 1;
            }
            proof {
                assert(ppv_rel(ops.add, ops.mul, ops.zero, self.proj@, self.cov@, j as int, acc));
            }
            ppv.push(acc);
            j += 1;
        }
        // Flatten, projection-major and variant-minor.
        let vids: &Vec<String> = match &self.variant_ids {
            Some(v) => v,
            None => {
                return Err(Error::IncompleteAggregation);
            },
        };
        let mut out_pids: Vec<String> = Vec::new();
        let mut out_vids: Vec<String> = Vec::new();
        let mut out_beta: Vec<S> = Vec::new();
        let mut out_se: Vec<S> = Vec::new();
        let mut out_t: Vec<S> = Vec::new();
        let mut out_p: Vec<S> = Vec::new();
        let mut out_sizes: Vec<i32> = Vec::new();
        let mut j: usize = 0;
        while j < np
            invariant
                j <= np,
                out_pids@.len() == j * cs,
                out_vids@.len() == j * cs,
                out_beta@.len() == j * cs,
                out_se@.len() == j * cs,
                out_t@.len() == j * cs,
                out_p@.len() == j * cs,
                out_sizes@.len() == j * cs,
                forall|k: int|
                    0 <= k < j * cs ==> (#[trigger] out_pids@[k])@ == self.projection_ids@[k
                        / cs as int]@,
                forall|k: int|
                    0 <= k < j * cs ==> (#[trigger] out_vids@[k])@ == vids@[k % cs as int]@,
                forall|k: int|
                    0 <= k < j * cs ==> (#[trigger] out_sizes@[k]) == self.sample_sizes@[k
                        % cs as int],
                forall|k: int|
                    0 <= k < j * cs ==> (#[trigger] out_beta@[k]) == self.beta@[k % cs as int]@[k
                        / cs as int],
                forall|k: int|
                    0 <= k < j * cs ==> #[trigger] se_cell_ok(
                        ops.add,
                        ops.mul,
                        ops.se_of,
                        ops.zero,
                        self.proj@,
                        self.cov@,
                        self.gpv@,
                        self.beta@,
                        self.sample_sizes@,
                        self.n_covar as int,
                        cs as int,
                        out_se@[k],
                        k,
                    ),
                forall|k: int|
                    0 <= k < j * cs ==> call_ensures(
                        ops.div,
                        (self.beta@[k % cs as int]@[k / cs as int], out_se@[k]),
                        #[trigger] out_t@[k],
                    ),
                forall|k: int|
                    0 <= k < j * cs ==> call_ensures(
                        ops.sig_of,
                        (
                            out_t@[k],
                            dof_of(self.sample_sizes@, self.n_covar as int, k % cs as int),
                        ),
                        #[trigger] out_p@[k],
                    ),
            decreases np - j,
        {
            let mut i: usize = 0;
            while i < cs
                invariant
                    i <= cs,
                    j < np,
                    out_pids@.len() == j * cs + i,
                    out_vids@.len() == j * cs + i,
                    out_beta@.len() == j * cs + i,
                    out_se@.len() == j * cs + i,
                    out_t@.len() == j * cs + i,
                    out_p@.len() == j * cs + i,
                    out_sizes@.len() == j * cs + i,
                    forall|k: int|
                        0 <= k < j * cs + i ==> (#[trigger] out_pids@[k])@
                            == self.projection_ids@[k / cs as int]@,
                    forall|k: int|
                        0 <= k < j * cs + i ==> (#[trigger] out_vids@[k])@ == vids@[k % cs as int]@,
                    forall|k: int|
                        0 <= k < j * cs + i ==> (#[trigger] out_sizes@[k]) == self.sample_sizes@[k
                            % cs as int],
                    forall|k: int|
                        0 <= k < j * cs + i ==> (#[trigger] out_beta@[k]) == self.beta@[k
                            % cs as int]@[k / cs as int],
                    forall|k: int|
                        0 <= k < j * cs + i ==> #[trigger] se_cell_ok(
                            ops.add,
                            ops.mul,
                            ops.se_of,
                            ops.zero,
                            self.proj@,
                            self.cov@,
                            self.gpv@,
                            self.beta@,
                            self.sample_sizes@,
                            self.n_covar as int,
                            cs as int,
                            out_se@[k],
                            k,
                        ),
                    forall|k: int|
                        0 <= k < j * cs + i ==> call_ensures(
                            ops.div,
                            (self.beta@[k % cs as int]@[k / cs as int], out_se@[k]),
                            #[trigger] out_t@[k],
                        ),
                    forall|k: int|
                        0 <= k < j * cs + i ==> call_ensures(
                            ops.sig_of,
                            (
                                out_t@[k],
                                dof_of(self.sample_sizes@, self.n_covar as int, k % cs as int),
                            ),
                            #[trigger] out_p@[k],
                        ),
                decreases cs - i,
            {
                proof {
                    assert(j * cs + i < np * cs) by (nonlinear_arith)
                        requires
                            0 <= i < cs,
                            0 <= j < np,
                    ;
                    lemma_fundamental_div_mod_converse(j * cs + i, cs as int, j as int, i as int);
                }
                let b = self.beta[i][j];
                let se = (ops.se_of)(ppv[j], self.gpv[i], b, dof[i]);
                let t = (ops.div)(b, se);
                let pv = (ops.sig_of)(t, dof[i]);
                out_pids.push(self.projection_ids[j].clone());
                out_vids.push(vids[i].clone());
                out_beta.push(b);
                out_se.push(se);
                out_t.push(t);
                out_p.push(pv);
                out_sizes.push(self.sample_sizes[i]);
                proof {
                    let k = (j * cs + i) as int;
                    assert(ppv_rel(
                        ops.add,
                        ops.mul,
                        ops.zero,
                        self.proj@,
                        self.cov@,
                        k / cs as int,
                        ppv@[j as int],
                    ));
                    assert(se_cell_ok(
                        ops.add,
                        ops.mul,
                        ops.se_of,
                        ops.zero,
                        self.proj@,
                        self.cov@,
                        self.gpv@,
                        self.beta@,
                        self.sample_sizes@,
                        self.n_covar as int,
                        cs as int,
                        out_se@[k],
                        k,
                    ));
                }
                i += 1;
            }
            proof {
                assert((j + 1) * cs == j * cs + cs) by (nonlinear_arith);
            }
            j += 1;
        }
        proof {
            assert(np * cs == cs * np) by (nonlinear_arith);
        }
        Ok(
            FinalizedChunk {
                projection_ids: out_pids,
                variant_ids: out_vids,
                beta_values: out_beta,
                se_values: out_se,
                t_stat_values: out_t,
                p_values: out_p,
                sample_sizes: out_sizes,
            },
        )
    }
}

} // verus!

verus! {

/// The ghost model of one window's mutable state: what `update` accumulates
/// and `compute_final_stats` consumes.
pub struct WindowState<S> {
    pub beta: Seq<Seq<S>>,
    pub gpv: Seq<S>,
    pub sample_sizes: Seq<i32>,
    pub variant_ids: Option<Seq<Seq<char>>>,
    pub seen: int,
}

/// The ghost model of one phenotype's contribution.
pub struct ChunkState<S> {
    pub variant_ids: Seq<Seq<char>>,
    pub sample_sizes: Seq<i32>,
    pub beta_update: Seq<Seq<S>>,
    pub gpv_update: Seq<S>,
}

impl<S: Copy> RunningSufficientStats<S> {
    /// The aggregator's window state, as the ghost model sees it.
    pub open spec fn window_state(&self) -> WindowState<S> {
        WindowState {
            beta: self.beta@.map_values(|row: Vec<S>| row@),
            gpv: self.gpv@,
            sample_sizes: self.sample_sizes@,
            variant_ids: match self.variant_ids {
                Some(v) => Some(v@.map_values(|s: String| s@)),
                None => None,
            },
            seen: self.n_features_seen as int,
        }
    }
}

impl<S: Copy> PhenotypeChunk<S> {
    /// The chunk's contribution, as the ghost model sees it.
    pub open spec fn chunk_state(&self) -> ChunkState<S> {
        ChunkState {
            variant_ids: self.variant_ids@.map_values(|s: String| s@),
            sample_sizes: self.sample_sizes@,
            beta_update: self.beta_update@.map_values(|row: Vec<S>| row@),
            gpv_update: self.gpv_update@,
        }
    }
}

/// Whether `update` accepts contribution `c` in state `m`: either the window
/// is fresh, or the chunk's variant identifiers equal the canonical ones.
pub open spec fn update_accepted<S>(m: WindowState<S>, c: ChunkState<S>) -> bool {
    m.seen == 0 || (m.variant_ids is Some && c.variant_ids == m.variant_ids->0)
}

/// What one accepted `update` does to the window state, with `f` standing
/// for the scalar addition: the first contribution's identifiers and sample
/// sizes are adopted, later sample sizes are folded in by elementwise
/// minimum, and the beta and variance sums grow cell by cell.
pub open spec fn apply_update<S>(m: WindowState<S>, c: ChunkState<S>, f: spec_fn(S, S) -> S) -> WindowState<S> {
    WindowState {
        beta: Seq::new(m.beta.len(), |i: int| Seq::new(m.beta[i].len(), |j: int| f(m.beta[i][j], c.beta_update[i][j]))),
        gpv: Seq::new(m.gpv.len(), |i: int| f(m.gpv[i], c.gpv_update[i])),
        sample_sizes: if m.seen == 0 {
            c.sample_sizes
        } else {
            Seq::new(m.sample_sizes.len(), |i: int| min_i32(m.sample_sizes[i], c.sample_sizes[i]))
        },
        variant_ids: if m.seen == 0 {
            Some(c.variant_ids)
        } else {
            m.variant_ids
        },
        seen: m.seen + 1,
    }
}

} // verus!
