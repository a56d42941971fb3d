use vstd::prelude::*;

use crate::chunk::FinalizedChunk;
use crate::chunk::PhenotypeChunk;
use crate::error::Error;
use crate::matrix::LabeledMatrix;
use crate::matrix::labels_eq;
use crate::matrix::strings_equal;
use crate::running::RunningSufficientStats;
use crate::scalar::ScalarOps;
use vstd::arithmetic::div_mod::lemma_fundamental_div_mod;
use vstd::arithmetic::div_mod::lemma_fundamental_div_mod_converse;

verus! {

/// The index of the last occurrence of `c` in `s`, or -1 when `c` does not
/// occur.
pub open spec fn last_index_of(s: Seq<char>, c: char) -> int
    decreases s.len(),
{
    if s.len() == 0 {
        -1
    } else if s[s.len() - 1] == c {
        s.len() - 1
    } else {
        last_index_of(s.drop_last(), c)
    }
}

/// The phenotype name carried by a summary-statistic file path: the
/// component after the last `/`, stripped of its extension — the portion
/// after the last `.`, unless that dot starts the component.
pub open spec fn stem_of(s: Seq<char>) -> Seq<char> {
    let base = s.subrange(last_index_of(s, '/') + 1, s.len() as int);
    let d = last_index_of(base, '.');
    if d <= 0 {
        base
    } else {
        base.subrange(0, d)
    }
}

/// Derives the phenotype name from a summary-statistic file path.
#[verifier::loop_isolation(false)]
pub fn gwas_path_to_phenotype(filename: &str) -> (r: String)
    ensures
        r@ == stem_of(filename@),
{
    let n = filename.unicode_len();
    let ghost s = filename@;
    let mut slash: Option<usize> = None;
    let mut i: usize = 0;
    while i < n
        invariant
            i <= n,
            n == s.len(),
            s == filename@,
            match slash {
                None => last_index_of(s.take(i as int), '/') == -1,
                Some(v) => v < i && last_index_of(s.take(i as int), '/') == v,
            },
        decreases n - i,
    {
        let c = filename.get_char(i);
        proof {
            assert(s.take(i + 1).drop_last() =~= s.take(i as int));
            assert(s.take(i + 1)[i as int] == s[i as int]);
        }
        if c == '/' {
            slash = Some(i);
        }
        i += 1;
    }
    proof {
        assert(s.take(n as int) =~= s);
    }
    let bs: usize = match slash {
        Some(v) => v + 1,
        None => 0,
    };
    let ghost base = s.subrange(bs as int, s.len() as int);
    proof {
        assert(bs as int == last_index_of(s, '/') + 1);
    }
    let mut dot: Option<usize> = None;
    let mut i: usize = bs;
    while i < n
        invariant
            bs <= i <= n,
            n == s.len(),
            s == filename@,
            base == s.subrange(bs as int, s.len() as int),
            match dot {
                None => last_index_of(base.take(i - bs), '.') == -1,
                Some(v) => bs <= v < i && last_index_of(base.take(i - bs), '.') == v - bs,
            },
        decreases n - i,
    {
        let c = filename.get_char(i);
        proof {
            assert(base.take(i - bs + 1).drop_last() =~= base.take(i - bs));
            assert(base.take(i - bs + 1)[i - bs] == base[i - bs]);
            assert(base[i - bs] == s[i as int]);
        }
        if c == '.' {
            dot = Some(i);
        }
        i += 1;
    }
    proof {
        assert(base.take(n - bs) =~= base);
    }
    let end: usize = match dot {
        Some(v) => if v == bs {
            n
        } else {
            v
        },
        None => n,
    };
    let stem = filename.substring_char(bs, end);
    proof {
        let d = last_index_of(base, '.');
        if d <= 0 {
            assert(stem@ =~= stem_of(s));
        } else {
            assert(stem@ =~= base.subrange(0, d));
            assert(stem@ =~= stem_of(s));
        }
    }
    stem.to_owned()
}

/// The phenotype names derived from each file path.
pub open spec fn stems_of(files: Seq<String>) -> Seq<Seq<char>> {
    files.map_values(|f: String| stem_of(f@))
}

/// Two files carry the same phenotype name.
pub open spec fn has_dup_stem(files: Seq<String>) -> bool {
    exists|i: int, j: int|
        0 <= i < j < files.len() && stems_of(files)[i] == stems_of(files)[j]
}

/// `x` is the character sequence of one of the given file paths.
pub open spec fn is_one_of(files: Seq<String>, x: Seq<char>) -> bool {
    exists|i: int| 0 <= i < files.len() && (#[trigger] files[i])@ == x
}

/// Some file carries the phenotype name `labels[l]`.
pub open spec fn stem_present(labels: Seq<String>, files: Seq<String>, l: int) -> bool {
    exists|i: int| 0 <= i < files.len() && #[trigger] stems_of(files)[i] == labels[l]@
}

/// Some label has no file whose phenotype name matches it.
pub open spec fn stem_missing(labels: Seq<String>, files: Seq<String>) -> bool {
    exists|l: int| 0 <= l < labels.len() && !(#[trigger] stem_present(labels, files, l))
}

/// Checks that a summary-statistic file has been provided for exactly each
/// phenotype named by the projection and covariance matrices, and reorders
/// the files to the projection matrix's label order.
///
/// Fails with `LabelMismatch` when the two label vectors differ; otherwise
/// with `DuplicatePhenotypeSource` when two files carry the same phenotype
/// name; otherwise with `MissingPhenotypeSource` when a label has no file.
/// On success, file `k` of the result carries phenotype
/// `projection_labels[k]` and is one of the given files.
#[verifier::loop_isolation(false)]
pub fn check_filter_inputs(
    projection_labels: &Vec<String>,
    covariance_labels: &Vec<String>,
    gwas_result_files: &Vec<String>,
) -> (r: Result<Vec<String>, Error>)
    ensures
        (r is Err && r->Err_0 is LabelMismatch) <==> !labels_eq(
            projection_labels@,
            covariance_labels@,
        ),
        (r is Err && r->Err_0 is DuplicatePhenotypeSource) <==> (labels_eq(
            projection_labels@,
            covariance_labels@,
        ) && has_dup_stem(gwas_result_files@)),
        (r is Err && r->Err_0 is MissingPhenotypeSource) <==> (labels_eq(
            projection_labels@,
            covariance_labels@,
        ) && !has_dup_stem(gwas_result_files@) && stem_missing(
            projection_labels@,
            gwas_result_files@,
        )),
        r is Err ==> (r->Err_0 is LabelMismatch || r->Err_0 is DuplicatePhenotypeSource
            || r->Err_0 is MissingPhenotypeSource),
        r is Ok ==> {
            let out = r->Ok_0;
            &&& out@.len() == projection_labels@.len()
            &&& forall|k: int|
                0 <= k < out@.len() ==> stem_of((#[trigger] out@[k])@)
                    == projection_labels@[k]@
            &&& forall|k: int|
                0 <= k < out@.len() ==> is_one_of(gwas_result_files@, (#[trigger] out@[k])@)
        },
{
    if !strings_equal(projection_labels, covariance_labels) {
        return Err(Error::LabelMismatch);
    }
    let nf = gwas_result_files.len();
    let mut stems: Vec<String> = Vec::new();
    let mut i: usize = 0;
    while i < nf
        invariant
            i <= nf,
            nf == gwas_result_files@.len(),
            stems@.len() == i,
            forall|k: int| 0 <= k < i ==> (#[trigger] stems@[k])@ == stems_of(
                gwas_result_files@,
            )[k],
        decreases nf - i,
    {
        let stem = gwas_path_to_phenotype(gwas_result_files[i].as_str());
        stems.push(stem);
        i += 1;
    }
    let mut i: usize = 0;
    while i < nf
        invariant
            i <= nf,
            nf == gwas_result_files@.len(),
            stems@.len() == nf,
            forall|k: int| 0 <= k < nf ==> (#[trigger] stems@[k])@ == stems_of(
                gwas_result_files@,
            )[k],
            forall|p: int, q: int|
                0 <= p < q < i ==> stems_of(gwas_result_files@)[p] != stems_of(
                    gwas_result_files@,
                )[q],
        decreases nf - i,
    {
        let mut j: usize = 0;
        while j < i
            invariant
                j <= i < nf,
                nf == gwas_result_files@.len(),
                stems@.len() == nf,
                forall|k: int| 0 <= k < nf ==> (#[trigger] stems@[k])@ == stems_of(
                    gwas_result_files@,
                )[k],
                forall|p: int, q: int|
                    0 <= p < q < i ==> stems_of(gwas_result_files@)[p] != stems_of(
                        gwas_result_files@,
                    )[q],
                forall|q: int|
                    0 <= q < j ==> stems_of(gwas_result_files@)[q] != stems_of(
                        gwas_result_files@,
                    )[i as int],
            decreases i - j,
        {
            if stems[j] == stems[i] {
                return Err(Error::DuplicatePhenotypeSource(stems[i].clone()));
            }
            j += 1;
        }
        i += 1;
    }
    let np = projection_labels.len();
    let mut out: Vec<String> = Vec::new();
    let mut k: usize = 0;
    while k < np
        invariant
            k <= np,
            np == projection_labels@.len(),
            nf == gwas_result_files@.len(),
            stems@.len() == nf,
            forall|q: int| 0 <= q < nf ==> (#[trigger] stems@[q])@ == stems_of(
                gwas_result_files@,
            )[q],
            !has_dup_stem(gwas_result_files@),
            out@.len() == k,
            forall|q: int|
                0 <= q < k ==> stem_of((#[trigger] out@[q])@) == projection_labels@[q]@,
            forall|q: int|
                0 <= q < k ==> is_one_of(gwas_result_files@, (#[trigger] out@[q])@),
        decreases np - k,
    {
        let mut i: usize = 0;
        let mut found: Option<usize> = None;
        while i < nf
            invariant
                i <= nf,
                np == projection_labels@.len(),
                k < np,
                nf == gwas_result_files@.len(),
                stems@.len() == nf,
                forall|q: int| 0 <= q < nf ==> (#[trigger] stems@[q])@ == stems_of(
                    gwas_result_files@,
                )[q],
                match found {
                    None => forall|q: int|
                        0 <= q < i ==> stems_of(gwas_result_files@)[q] != (
                        #[trigger] projection_labels@[k as int])@,
                    Some(v) => v < nf && stems_of(gwas_result_files@)[v as int]
                        == projection_labels@[k as int]@,
                },
            decreases nf - i,
        {
            if stems[i] == projection_labels[k] {
                found = Some(i);
                break;
            }
            i += 1;
        }
        match found {
            Some(v) => {
                out.push(gwas_result_files[v].clone());
                proof {
                    assert((gwas_result_files@[v as int])@ == out@[out@.len() - 1]@);
                    assert(is_one_of(gwas_result_files@, out@[out@.len() - 1]@));
                }
            },
            None => {
                proof {
                    assert(!stem_present(projection_labels@, gwas_result_files@, k as int));
                    assert(stem_missing(projection_labels@, gwas_result_files@));
                }
                return Err(Error::MissingPhenotypeSource(projection_labels[k].clone()));
            },
        }
        k += 1;
    }
    proof {
        assert forall|l: int| 0 <= l < projection_labels@.len() implies #[trigger] stem_present(
            projection_labels@,
            gwas_result_files@,
            l,
        ) by {
            assert(is_one_of(gwas_result_files@, out@[l]@));
            let i = choose|i: int|
                0 <= i < gwas_result_files@.len() && (#[trigger] gwas_result_files@[i])@
                    == out@[l]@;
            assert(stems_of(gwas_result_files@)[i] == stem_of(gwas_result_files@[i]@));
            assert(stems_of(gwas_result_files@)[i] == projection_labels@[l]@);
        };
        assert(!stem_missing(projection_labels@, gwas_result_files@));
    }
    Ok(out)
}

/// Knobs of the windowed pipeline: how many worker tasks apply updates, and
/// how many variant rows one window holds.
pub struct RuntimeConfig {
    pub num_threads: usize,
    pub chunksize: usize,
}

/// How many windows a run of `num_lines` rows takes at `chunksize` rows per
/// window: the quotient rounded upward.
pub open spec fn n_windows(num_lines: int, chunksize: int) -> int {
    (num_lines + chunksize - 1) / chunksize
}

/// The window bounds of a run: window `k` covers rows
/// `[k * chunksize, min(num_lines, (k + 1) * chunksize))`. Every window is
/// nonempty, windows are consecutive, and only the final window may be
/// short.
#[verifier::loop_isolation(false)]
pub fn window_bounds(num_lines: usize, chunksize: usize) -> (r: Vec<(usize, usize)>)
    requires
        chunksize >= 1,
    ensures
        r@.len() == n_windows(num_lines as int, chunksize as int),
        forall|k: int|
            0 <= k < r@.len() ==> (#[trigger] r@[k]).0 == k * chunksize && r@[k].1 == if (k + 1)
                * chunksize <= num_lines {
                (k + 1) * chunksize as int
            } else {
                num_lines as int
            },
        forall|k: int| 0 <= k < r@.len() ==> (#[trigger] r@[k]).0 < r@[k].1 <= num_lines,
        forall|k: int| 0 < k < r@.len() ==> (#[trigger] r@[k]).0 == r@[k - 1].1,
        r@.len() > 0 ==> r@[0].0 == 0 && r@[r@.len() - 1].1 == num_lines,
{
    let mut r: Vec<(usize, usize)> = Vec::new();
    let mut start: usize = 0;
    proof {
        assert(r@.len() * chunksize == 0) by (nonlinear_arith)
            requires
                r@.len() == 0,
        ;
    }
    while start < num_lines
        invariant
            chunksize >= 1,
            start <= num_lines,
            start < num_lines ==> start == r@.len() * chunksize,
            r@.len() == 0 ==> start == 0,
            r@.len() > 0 ==> r@[r@.len() - 1].1 == start,
            forall|k: int|
                0 <= k < r@.len() ==> (#[trigger] r@[k]).0 == k * chunksize && r@[k].1 == if (k
                    + 1) * chunksize <= num_lines {
                    (k + 1) * chunksize as int
                } else {
                    num_lines as int
                },
            forall|k: int| 0 <= k < r@.len() ==> (#[trigger] r@[k]).0 < r@[k].1 <= num_lines,
            forall|k: int| 0 < k < r@.len() ==> (#[trigger] r@[k]).0 == r@[k - 1].1,
            r@.len() > 0 ==> r@[0].0 == 0,
        decreases num_lines - start,
    {
        let ghost w = r@.len();
        let end: usize = if num_lines - start < chunksize {
            num_lines
        } else {
            start + chunksize
        };
        proof {
            assert((w + 1) * chunksize == w * chunksize + chunksize) by (nonlinear_arith);
        }
        r.push((start, end));
        start = end;
    }
    proof {
        let w = r@.len();
        let n = num_lines as int;
        let cs = chunksize as int;
        if n == 0 {
            assert(w == 0);
            assert(n_windows(n, cs) == (cs - 1) / cs);
            lemma_fundamental_div_mod_converse(cs - 1, cs, 0, cs - 1);
        } else {
            assert(w > 0);
            assert(r@[w - 1].1 == n);
            assert(r@[w - 1].0 == (w - 1) * cs);
            assert((w - 1) * cs < n);
            assert(r@[w - 1].1 == if w * cs <= n {
                w * cs as int
            } else {
                n
            });
            assert(n <= w * cs);
            let x = n + cs - 1;
            assert(w * cs <= x) by (nonlinear_arith)
                requires
                    (w - 1) * cs < n,
                    x == n + cs - 1,
                    cs >= 1,
            ;
            assert(x < (w + 1) * cs) by (nonlinear_arith)
                requires
                    n <= w * cs,
                    x == n + cs - 1,
                    cs >= 1,
            ;
            lemma_fundamental_div_mod_converse(x, cs, w as int, x - w * cs);
        }
    }
    r
}

/// A window size at least the total row count yields exactly one window,
/// covering everything.
pub proof fn lemma_oversized_window(num_lines: int, chunksize: int)
    requires
        1 <= num_lines <= chunksize,
    ensures
        n_windows(num_lines, chunksize) == 1,
{
    let x = num_lines + chunksize - 1;
    lemma_fundamental_div_mod_converse(x, chunksize, 1, num_lines - 1);
}

/// When the total row count does not divide evenly, the run has one window
/// more than the full quotient, and the final window holds exactly the
/// remainder.
pub proof fn lemma_uneven_division(num_lines: int, chunksize: int)
    requires
        chunksize >= 1,
        num_lines >= 1,
        num_lines % chunksize != 0,
    ensures
        n_windows(num_lines, chunksize) == num_lines / chunksize + 1,
        num_lines - (n_windows(num_lines, chunksize) - 1) * chunksize == num_lines % chunksize,
{
    let n = num_lines;
    let cs = chunksize;
    lemma_fundamental_div_mod(n, cs);
    let q = n / cs;
    let m = n % cs;
    let x = n + cs - 1;
    assert(x == (q + 1) * cs + (m - 1)) by (nonlinear_arith)
        requires
            n == q * cs + m,
            x == n + cs - 1,
    ;
    lemma_fundamental_div_mod_converse(x, cs, q + 1, m - 1);
    assert(n - (q + 1 - 1) * cs == m) by (nonlinear_arith)
        requires
            n == q * cs + m,
    ;
}

/// Drives the windowed computation across the whole variant set with a
/// single shared aggregator, reading per-phenotype chunks through
/// `read_chunk` and appending finalized rows through `write_chunk`.
///
/// Eager validation comes first: the projection and covariance labels must
/// agree (`LabelMismatch`), the files must reconcile one-to-one with the
/// phenotypes (`DuplicatePhenotypeSource`, `MissingPhenotypeSource`), and
/// the covariance matrix must be square of the phenotype count
/// (`ShapeMismatch`) — each raised if and only if its condition holds,
/// before any chunk is read. The windows then come from `window_bounds`,
/// whose contract pins the whole plan: consecutive ranges of at most
/// `runtime_config.chunksize` rows covering `[0, num_lines)`, only the last
/// of them short. Each window is cleared, updated once per phenotype in
/// file order, finalized exactly once, and written — with a header only for
/// the first window of the plan. When the plan is empty (no rows), no
/// collaborator is called and the run succeeds outright. A failing source
/// (`Source`), a malformed chunk (`ChunkShapeMismatch`) or a
/// variant-identifier disagreement (`MismatchedVariantIds`) aborts the run;
/// windows already written stay written. Because every phenotype
/// contributes exactly once per window, finalize can never report
/// `IncompleteAggregation` here. After the last window the run simply ends:
/// deliberately, nothing finalizes the leftover buffers a second time — a
/// repeated finalize of the same window would normalize the variance
/// accumulator again and emit a duplicate, corrupted copy of the final
/// window.
#[verifier::loop_isolation(false)]
pub fn run<
    S,
    FAdd,
    FMul,
    FDivN,
    FSe,
    FDiv,
    FSig,
    FRead,
    FWrite,
>(
    projection_matrix: &LabeledMatrix<S>,
    covariance_matrix: &LabeledMatrix<S>,
    gwas_result_files: &Vec<String>,
    num_covar: usize,
    runtime_config: &RuntimeConfig,
    ops: &ScalarOps<S, FAdd, FMul, FDivN, FSe, FDiv, FSig>,
    num_lines: usize,
    read_chunk: &FRead,
    write_chunk: &FWrite,
) -> (r: Result<(), Error>) where
    S: Copy,
    FAdd: Fn(S, S) -> S,
    FMul: Fn(S, S) -> S,
    FDivN: Fn(S, usize) -> S,
    FSe: Fn(S, S, S, i64) -> S,
    FDiv: Fn(S, S) -> S,
    FSig: Fn(S, i64) -> S,
    FRead: Fn(String, usize, usize) -> Result<PhenotypeChunk<S>, String>,
    FWrite: Fn(FinalizedChunk<S>, bool) -> Result<(), String>,
    requires
        projection_matrix.wf(),
        covariance_matrix.wf(),
        projection_matrix.nrows() >= 1,
        runtime_config.chunksize >= 1,
        runtime_config.chunksize * projection_matrix.ncols() <= usize::MAX,
        num_covar <= 0x7fff_ffff,
        ops.callable(),
        forall|f: String, a: usize, b: usize| call_requires(*read_chunk, (f, a, b)),
        forall|c: FinalizedChunk<S>, h: bool| call_requires(*write_chunk, (c, h)),
    ensures
        (r is Err && r->Err_0 is LabelMismatch) <==> !labels_eq(
            projection_matrix.row_labels@,
            covariance_matrix.col_labels@,
        ),
        (r is Err && r->Err_0 is DuplicatePhenotypeSource) <==> (labels_eq(
            projection_matrix.row_labels@,
            covariance_matrix.col_labels@,
        ) && has_dup_stem(gwas_result_files@)),
        (r is Err && r->Err_0 is MissingPhenotypeSource) <==> (labels_eq(
            projection_matrix.row_labels@,
            covariance_matrix.col_labels@,
        ) && !has_dup_stem(gwas_result_files@) && stem_missing(
            projection_matrix.row_labels@,
            gwas_result_files@,
        )),
        (r is Err && r->Err_0 is ShapeMismatch) <==> (labels_eq(
            projection_matrix.row_labels@,
            covariance_matrix.col_labels@,
        ) && !has_dup_stem(gwas_result_files@) && !stem_missing(
            projection_matrix.row_labels@,
            gwas_result_files@,
        ) && !(covariance_matrix.nrows() == projection_matrix.nrows()
            && covariance_matrix.ncols() == projection_matrix.nrows())),
        r is Err ==> !(r->Err_0 is IncompleteAggregation),
        (labels_eq(projection_matrix.row_labels@, covariance_matrix.col_labels@)
            && !has_dup_stem(gwas_result_files@) && !stem_missing(
            projection_matrix.row_labels@,
            gwas_result_files@,
        ) && covariance_matrix.nrows() == projection_matrix.nrows()
            && covariance_matrix.ncols() == projection_matrix.nrows() && num_lines == 0) ==> r
            is Ok,
{
    let filtered = match check_filter_inputs(
        &projection_matrix.row_labels,
        &covariance_matrix.col_labels,
        gwas_result_files,
    ) {
        Ok(v) => v,
        Err(e) => {
            return Err(e);
        },
    };
    let mut agg = match RunningSufficientStats::new(
        projection_matrix,
        covariance_matrix,
        num_covar,
        runtime_config.chunksize,
        ops.zero,
    ) {
        Ok(a) => a,
        Err(e) => {
            return Err(e);
        },
    };
    proof {
        assert(filtered@.len() == agg.n_features);
    }
    let plan = window_bounds(num_lines, runtime_config.chunksize);
    let mut w: usize = 0;
    while w < plan.len()
        invariant
            agg.wf(),
            w <= plan@.len(),
            agg.n_features == filtered@.len(),
            agg.n_projections == projection_matrix.ncols(),
            agg.n_covar <= 0x7fff_ffff,
        decreases plan@.len() - w,
    {
        let start = plan[w].0;
        let end = plan[w].1;
        proof {
            assert(plan@[w as int].0 < plan@[w as int].1 <= num_lines);
            assert((w + 1) * runtime_config.chunksize == w * runtime_config.chunksize
                + runtime_config.chunksize) by (nonlinear_arith);
        }
        let new_chunksize = end - start;
        proof {
            assert(new_chunksize <= runtime_config.chunksize);
            assert(new_chunksize * agg.n_projections <= runtime_config.chunksize
                * projection_matrix.ncols()) by (nonlinear_arith)
                requires
                    new_chunksize <= runtime_config.chunksize,
                    agg.n_projections == projection_matrix.ncols(),
            ;
        }
        agg.clear_chunk(new_chunksize);
        let mut f: usize = 0;
        while f < filtered.len()
            invariant
                agg.wf(),
                f <= filtered@.len(),
                agg.n_features_seen == f,
                agg.n_features == filtered@.len(),
                agg.n_projections == projection_matrix.ncols(),
                agg.n_covar <= 0x7fff_ffff,
                agg.chunksize == new_chunksize,
            decreases filtered@.len() - f,
        {
            let chunk = match (read_chunk)(filtered[f].clone(), start, end) {
                Ok(c) => c,
                Err(m) => {
                    return Err(Error::Source(m));
                },
            };
            if !chunk.has_shape(new_chunksize, agg.n_projections) {
                return Err(Error::ChunkShapeMismatch(filtered[f].clone()));
            }
            match agg.update(&chunk, &ops.add) {
                Ok(()) => {},
                Err(e) => {
                    return Err(e);
                },
            }
            f += 1;
        }
        let finalized = match agg.compute_final_stats(ops) {
            Ok(x) => x,
            Err(e) => {
                return Err(e);
            },
        };
        let include_header = w == 0;
        match (write_chunk)(finalized, include_header) {
            Ok(()) => {},
            Err(m) => {
                return Err(Error::Source(m));
            },
        }
        w += 1;
    }
    Ok(())
}

} // verus!
