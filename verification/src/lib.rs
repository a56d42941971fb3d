//! Summary statistics for derived traits of a genome-wide association
//! study: per-phenotype sufficient statistics are combined linearly, window
//! by window, into effect sizes, standard errors, t-statistics and
//! significance for any projection of the measured phenotypes, without
//! individual-level data.

mod chunk;
mod error;
mod laws;
mod matrix;
mod running;
mod scalar;
mod util;

pub use chunk::FinalizedChunk;
pub use chunk::PhenotypeChunk;
pub use error::Error;
pub use laws::apply_updates;
pub use laws::checked_apply_updates;
pub use laws::checked_update;
pub use laws::chunk_fits;
pub use laws::fold_min_at;
pub use laws::lemma_apply_update_shapes;
pub use laws::lemma_apply_updates_snoc;
pub use laws::lemma_checked_matches_unchecked;
pub use laws::lemma_checked_update_commutative;
pub use laws::lemma_min_sample_sizes;
pub use laws::lemma_update_commutes;
pub use laws::lemma_update_order_irrelevant;
pub use laws::update_ok;
pub use matrix::LabeledMatrix;
pub use matrix::labels_eq;
pub use matrix::labels_unique;
pub use matrix::strings_equal;
pub use matrix::strings_unique;
pub use running::ChunkState;
pub use running::ProcessingStats;
pub use running::RunningSufficientStats;
pub use running::WindowState;
pub use running::apply_update;
pub use running::clone_strings;
pub use running::copy_matrix;
pub use running::copy_values;
pub use running::dof_of;
pub use running::filled;
pub use running::filled_matrix;
pub use running::min_i32;
pub use running::se_cell_ok;
pub use running::update_accepted;
pub use scalar::ScalarOps;
pub use scalar::col_of;
pub use scalar::dot_rel;
pub use scalar::ppv_rel;
pub use util::RuntimeConfig;
pub use util::check_filter_inputs;
pub use util::gwas_path_to_phenotype;
pub use util::has_dup_stem;
pub use util::is_one_of;
pub use util::last_index_of;
pub use util::lemma_oversized_window;
pub use util::lemma_uneven_division;
pub use util::n_windows;
pub use util::run;
pub use util::stem_missing;
pub use util::stem_of;
pub use util::stem_present;
pub use util::stems_of;
pub use util::window_bounds;
