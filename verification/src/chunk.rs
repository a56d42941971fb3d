use vstd::prelude::*;

verus! {

/// One phenotype's contribution for one window of variants: the ordered
/// variant identifiers, the per-variant sample sizes, and the partial sums
/// this phenotype adds to the projected beta matrix and to the per-variant
/// genotype-phenotype variance accumulator.
pub struct PhenotypeChunk<S> {
    pub variant_ids: Vec<String>,
    pub sample_sizes: Vec<i32>,
    /// Partial projected effect sizes: one row per variant in the window,
    /// one column per projection.
    pub beta_update: Vec<Vec<S>>,
    /// Partial genotype-phenotype variance: one entry per variant.
    pub gpv_update: Vec<S>,
}

impl<S: Copy> PhenotypeChunk<S> {
    /// The chunk covers exactly `n_variants` rows and `n_projections`
    /// columns.
    pub open spec fn wf(&self, n_variants: int, n_projections: int) -> bool {
        &&& self.variant_ids@.len() == n_variants
        &&& self.sample_sizes@.len() == n_variants
        &&& self.beta_update@.len() == n_variants
        &&& forall|i: int|
            0 <= i < n_variants ==> (#[trigger] self.beta_update@[i])@.len() == n_projections
        &&& self.gpv_update@.len() == n_variants
    }

    /// Checks the shape of a chunk against the current window, so callers
    /// can reject a malformed source before touching the aggregator.
    pub fn has_shape(&self, n_variants: usize, n_projections: usize) -> (r: bool)
        ensures
            r == self.wf(n_variants as int, n_projections as int),
    {
        if self.variant_ids.len() != n_variants || self.sample_sizes.len() != n_variants
            || self.beta_update.len() != n_variants || self.gpv_update.len() != n_variants {
            return false;
        }
        let mut i: usize = 0;
        while i < n_variants
            invariant
                i <= n_variants,
                self.beta_update@.len() == n_variants,
                forall|k: int|
                    0 <= k < i ==> (#[trigger] self.beta_update@[k])@.len() == n_projections,
            decreases n_variants - i,
        {
            if self.beta_update[i].len() != n_projections {
                return false;
            }
            i += 1;
        }
        true
    }
}

/// One finalized window, flattened projection-major and variant-minor: row
/// `k` holds the pair (projection `k / window`, variant `k % window`), with
/// variant identifiers and sample sizes replicated accordingly.
pub struct FinalizedChunk<S> {
    pub projection_ids: Vec<String>,
    pub variant_ids: Vec<String>,
    pub beta_values: Vec<S>,
    pub se_values: Vec<S>,
    pub t_stat_values: Vec<S>,
    pub p_values: Vec<S>,
    pub sample_sizes: Vec<i32>,
}

} // verus!
