use std::cell::RefCell;

use igwas::Error;
use igwas::FinalizedChunk;
use igwas::LabeledMatrix;
use igwas::PhenotypeChunk;
use igwas::RuntimeConfig;
use igwas::ScalarOps;
use igwas::check_filter_inputs;
use igwas::gwas_path_to_phenotype;
use igwas::run;
use igwas::window_bounds;

fn ops() -> ScalarOps<
    f32,
    impl Fn(f32, f32) -> f32,
    impl Fn(f32, f32) -> f32,
    impl Fn(f32, usize) -> f32,
    impl Fn(f32, f32, f32, i64) -> f32,
    impl Fn(f32, f32) -> f32,
    impl Fn(f32, i64) -> f32,
> {
    ScalarOps {
        zero: 0.0f32,
        add: |a: f32, b: f32| a + b,
        mul: |a: f32, b: f32| a * b,
        div_count: |a: f32, n: usize| a / (n as f32),
        se_of: |ppv: f32, gpv: f32, beta: f32, dof: i64| ((ppv / gpv - beta * beta) / (dof as f32)).sqrt(),
        div: |a: f32, b: f32| a / b,
        sig_of: |t: f32, _dof: i64| t.abs(),
    }
}

fn labeled(matrix: Vec<Vec<f32>>, rows: Vec<&str>, cols: Vec<&str>) -> LabeledMatrix<f32> {
    LabeledMatrix::new(
        matrix,
        rows.into_iter().map(|s| s.to_string()).collect(),
        cols.into_iter().map(|s| s.to_string()).collect(),
    )
    .unwrap()
}

#[test]
fn stem_strips_directory_and_extension() {
    assert_eq!(gwas_path_to_phenotype("data/gwas/height.tsv"), "height");
    assert_eq!(gwas_path_to_phenotype("weight.txt"), "weight");
    assert_eq!(gwas_path_to_phenotype("no_extension"), "no_extension");
    assert_eq!(gwas_path_to_phenotype("a/b/archive.tar.gz"), "archive.tar");
    assert_eq!(gwas_path_to_phenotype("dir/.hidden"), ".hidden");
}

#[test]
fn check_filter_reorders_by_projection_labels() {
    let labels = vec!["a".to_string(), "b".to_string()];
    let files = vec!["x/b.tsv".to_string(), "x/a.tsv".to_string()];
    let out = check_filter_inputs(&labels, &labels, &files).unwrap();
    assert_eq!(out, vec!["x/a.tsv".to_string(), "x/b.tsv".to_string()]);
}

#[test]
fn check_filter_rejects_label_mismatch() {
    let a = vec!["a".to_string(), "b".to_string()];
    let b = vec!["b".to_string(), "a".to_string()];
    let files = vec!["a.tsv".to_string(), "b.tsv".to_string()];
    assert!(matches!(check_filter_inputs(&a, &b, &files), Err(Error::LabelMismatch)));
}

#[test]
fn check_filter_rejects_duplicate_sources() {
    let labels = vec!["a".to_string()];
    let files = vec!["x/a.tsv".to_string(), "y/a.txt".to_string()];
    match check_filter_inputs(&labels, &labels, &files) {
        Err(Error::DuplicatePhenotypeSource(p)) => assert_eq!(p, "a"),
        other => panic!("expected duplicate source, got {:?}", other),
    }
}

#[test]
fn check_filter_rejects_missing_source() {
    let labels = vec!["a".to_string(), "b".to_string()];
    let files = vec!["x/a.tsv".to_string()];
    match check_filter_inputs(&labels, &labels, &files) {
        Err(Error::MissingPhenotypeSource(p)) => assert_eq!(p, "b"),
        other => panic!("expected missing source, got {:?}", other),
    }
}

#[test]
fn oversized_window_gives_one_window() {
    let w = window_bounds(3, 10);
    assert_eq!(w, vec![(0, 3)]);
}

#[test]
fn uneven_division_gives_short_final_window() {
    let w = window_bounds(10, 4);
    assert_eq!(w, vec![(0, 4), (4, 8), (8, 10)]);
}

#[test]
fn exact_division_gives_full_windows() {
    let w = window_bounds(8, 4);
    assert_eq!(w, vec![(0, 4), (4, 8)]);
    assert_eq!(window_bounds(0, 4), vec![]);
}

fn make_chunk(start: usize, end: usize, scale: f32) -> PhenotypeChunk<f32> {
    let mut ids = Vec::new();
    let mut sizes = Vec::new();
    let mut beta = Vec::new();
    let mut gpv = Vec::new();
    for row in start..end {
        ids.push(format!("v{}", row));
        sizes.push(100 + row as i32);
        beta.push(vec![scale * (row as f32 + 1.0)]);
        gpv.push(1.0 + scale);
    }
    PhenotypeChunk { variant_ids: ids, sample_sizes: sizes, beta_update: beta, gpv_update: gpv }
}

fn render(c: &FinalizedChunk<f32>, header: bool) -> String {
    let mut s = String::new();
    if header {
        s.push_str("projection\tvariant\tbeta\tse\tt\tneg_log10_p\tn\n");
    }
    for k in 0..c.beta_values.len() {
        s.push_str(&format!(
            "{}\t{}\t{}\t{}\t{}\t{}\t{}\n",
            c.projection_ids[k],
            c.variant_ids[k],
            c.beta_values[k],
            c.se_values[k],
            c.t_stat_values[k],
            c.p_values[k],
            c.sample_sizes[k]
        ));
    }
    s
}

fn run_once(num_lines: usize, chunksize: usize) -> Result<String, Error> {
    let proj = labeled(vec![vec![0.5], vec![0.5]], vec!["a", "b"], vec!["p"]);
    let cov = labeled(vec![vec![1.0, 0.2], vec![0.2, 1.0]], vec!["a", "b"], vec!["a", "b"]);
    let files = vec!["in/a.tsv".to_string(), "in/b.tsv".to_string()];
    let out = RefCell::new(String::new());
    let o = ops();
    let read = |f: String, start: usize, end: usize| -> Result<PhenotypeChunk<f32>, String> {
        let scale = if f.contains("a.tsv") { 1.0 } else { 0.5 };
        Ok(make_chunk(start, end, scale))
    };
    let write = |c: FinalizedChunk<f32>, header: bool| -> Result<(), String> {
        out.borrow_mut().push_str(&render(&c, header));
        Ok(())
    };
    let config = RuntimeConfig { num_threads: 1, chunksize };
    run(&proj, &cov, &files, 1, &config, &o, num_lines, &read, &write)?;
    Ok(out.into_inner())
}

#[test]
fn pipeline_is_deterministic() {
    let first = run_once(10, 4).unwrap();
    let second = run_once(10, 4).unwrap();
    assert_eq!(first, second);
    assert!(!first.is_empty());
}

#[test]
fn pipeline_handles_uneven_final_window() {
    let text = run_once(10, 4).unwrap();
    // one header line plus one row per (variant, projection) pair
    assert_eq!(text.lines().count(), 11);
    // exactly one header
    assert_eq!(text.matches("projection\tvariant").count(), 1);
    // the final window carried the remainder: rows v8 and v9 appear once
    assert_eq!(text.matches("\tv8\t").count(), 1);
    assert_eq!(text.matches("\tv9\t").count(), 1);
}

#[test]
fn pipeline_single_window_when_oversized() {
    let text = run_once(3, 10).unwrap();
    assert_eq!(text.lines().count(), 4);
    assert_eq!(text.matches("projection\tvariant").count(), 1);
}

#[test]
fn pipeline_rejects_mismatched_labels() {
    let proj = labeled(vec![vec![0.5]], vec!["a"], vec!["p"]);
    let cov = labeled(vec![vec![1.0]], vec!["zzz"], vec!["zzz"]);
    let files = vec!["a.tsv".to_string()];
    let o = ops();
    let read = |_f: String, s: usize, e: usize| Ok(make_chunk(s, e, 1.0));
    let write = |_c: FinalizedChunk<f32>, _h: bool| Ok(());
    let config = RuntimeConfig { num_threads: 1, chunksize: 2 };
    let r = run(&proj, &cov, &files, 0, &config, &o, 4, &read, &write);
    assert!(matches!(r, Err(Error::LabelMismatch)));
}

#[test]
fn pipeline_propagates_source_failure() {
    let proj = labeled(vec![vec![0.5]], vec!["a"], vec!["p"]);
    let cov = labeled(vec![vec![1.0]], vec!["a"], vec!["a"]);
    let files = vec!["a.tsv".to_string()];
    let o = ops();
    let read = |_f: String, _s: usize, _e: usize| -> Result<PhenotypeChunk<f32>, String> {
        Err("disk on fire".to_string())
    };
    let write = |_c: FinalizedChunk<f32>, _h: bool| Ok(());
    let config = RuntimeConfig { num_threads: 1, chunksize: 2 };
    match run(&proj, &cov, &files, 0, &config, &o, 4, &read, &write) {
        Err(Error::Source(m)) => assert_eq!(m, "disk on fire"),
        other => panic!("expected source error, got {:?}", other),
    }
}

#[test]
fn pipeline_rejects_malformed_chunk() {
    let proj = labeled(vec![vec![0.5]], vec!["a"], vec!["p"]);
    let cov = labeled(vec![vec![1.0]], vec!["a"], vec!["a"]);
    let files = vec!["a.tsv".to_string()];
    let o = ops();
    // chunk is always one row short
    let read = |_f: String, s: usize, e: usize| Ok(make_chunk(s, e - 1, 1.0));
    let write = |_c: FinalizedChunk<f32>, _h: bool| Ok(());
    let config = RuntimeConfig { num_threads: 1, chunksize: 2 };
    match run(&proj, &cov, &files, 0, &config, &o, 4, &read, &write) {
        Err(Error::ChunkShapeMismatch(f)) => assert_eq!(f, "a.tsv"),
        other => panic!("expected chunk shape mismatch, got {:?}", other),
    }
}

#[test]
fn pipeline_detects_mismatched_ids_across_sources() {
    let proj = labeled(vec![vec![0.5], vec![0.5]], vec!["a", "b"], vec!["p"]);
    let cov = labeled(vec![vec![1.0, 0.0], vec![0.0, 1.0]], vec!["a", "b"], vec!["a", "b"]);
    let files = vec!["a.tsv".to_string(), "b.tsv".to_string()];
    let o = ops();
    let read = |f: String, s: usize, e: usize| -> Result<PhenotypeChunk<f32>, String> {
        let mut c = make_chunk(s, e, 1.0);
        if f.contains('b') {
            c.variant_ids[0] = "rogue".to_string();
        }
        Ok(c)
    };
    let write = |_c: FinalizedChunk<f32>, _h: bool| Ok(());
    let config = RuntimeConfig { num_threads: 1, chunksize: 4 };
    let r = run(&proj, &cov, &files, 0, &config, &o, 4, &read, &write);
    assert!(matches!(r, Err(Error::MismatchedVariantIds)));
}

#[test]
fn pipeline_rejects_covariance_shape() {
    let proj = labeled(vec![vec![0.5], vec![0.5]], vec!["a", "b"], vec!["p"]);
    let cov = labeled(vec![vec![1.0, 0.0]], vec!["a"], vec!["a", "b"]);
    let files = vec!["a.tsv".to_string(), "b.tsv".to_string()];
    let o = ops();
    let read = |_f: String, s: usize, e: usize| Ok(make_chunk(s, e, 1.0));
    let write = |_c: FinalizedChunk<f32>, _h: bool| Ok(());
    let config = RuntimeConfig { num_threads: 1, chunksize: 2 };
    let r = run(&proj, &cov, &files, 0, &config, &o, 4, &read, &write);
    assert!(matches!(r, Err(Error::ShapeMismatch)));
}

#[test]
fn matrix_new_enforces_invariants() {
    assert!(LabeledMatrix::new(
        vec![vec![1.0f32, 2.0]],
        vec!["r".to_string()],
        vec!["c1".to_string(), "c2".to_string()],
    )
    .is_some());
    // ragged row
    assert!(LabeledMatrix::new(
        vec![vec![1.0f32], vec![1.0, 2.0]],
        vec!["r1".to_string(), "r2".to_string()],
        vec!["c".to_string()],
    )
    .is_none());
    // duplicate labels
    assert!(LabeledMatrix::new(
        vec![vec![1.0f32], vec![2.0]],
        vec!["r".to_string(), "r".to_string()],
        vec!["c".to_string()],
    )
    .is_none());
}

#[test]
fn pipeline_propagates_sink_failure() {
    let proj = labeled(vec![vec![0.5]], vec!["a"], vec!["p"]);
    let cov = labeled(vec![vec![1.0]], vec!["a"], vec!["a"]);
    let files = vec!["a.tsv".to_string()];
    let o = ops();
    let read = |_f: String, s: usize, e: usize| Ok(make_chunk(s, e, 1.0));
    let write = |_c: FinalizedChunk<f32>, _h: bool| -> Result<(), String> {
        Err("sink closed".to_string())
    };
    let config = RuntimeConfig { num_threads: 1, chunksize: 2 };
    match run(&proj, &cov, &files, 0, &config, &o, 4, &read, &write) {
        Err(Error::Source(m)) => assert_eq!(m, "sink closed"),
        other => panic!("expected sink error, got {:?}", other),
    }
}

#[test]
fn pipeline_rejects_duplicate_sources() {
    let proj = labeled(vec![vec![0.5]], vec!["a"], vec!["p"]);
    let cov = labeled(vec![vec![1.0]], vec!["a"], vec!["a"]);
    let files = vec!["x/a.tsv".to_string(), "y/a.tsv".to_string()];
    let o = ops();
    let read = |_f: String, s: usize, e: usize| Ok(make_chunk(s, e, 1.0));
    let write = |_c: FinalizedChunk<f32>, _h: bool| Ok(());
    let config = RuntimeConfig { num_threads: 1, chunksize: 2 };
    let r = run(&proj, &cov, &files, 0, &config, &o, 4, &read, &write);
    assert!(matches!(r, Err(Error::DuplicatePhenotypeSource(_))));
}

#[test]
fn pipeline_rejects_missing_source() {
    let proj = labeled(vec![vec![0.5], vec![0.5]], vec!["a", "b"], vec!["p"]);
    let cov = labeled(vec![vec![1.0, 0.0], vec![0.0, 1.0]], vec!["a", "b"], vec!["a", "b"]);
    let files = vec!["x/a.tsv".to_string()];
    let o = ops();
    let read = |_f: String, s: usize, e: usize| Ok(make_chunk(s, e, 1.0));
    let write = |_c: FinalizedChunk<f32>, _h: bool| Ok(());
    let config = RuntimeConfig { num_threads: 1, chunksize: 2 };
    match run(&proj, &cov, &files, 0, &config, &o, 4, &read, &write) {
        Err(Error::MissingPhenotypeSource(p)) => assert_eq!(p, "b"),
        other => panic!("expected missing source, got {:?}", other),
    }
}

#[test]
fn pipeline_succeeds_without_rows() {
    let text = run_once(0, 4).unwrap();
    assert!(text.is_empty());
}
