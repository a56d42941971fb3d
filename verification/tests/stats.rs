use igwas::Error;
use igwas::LabeledMatrix;
use igwas::PhenotypeChunk;
use igwas::RunningSufficientStats;
use igwas::ScalarOps;

fn ops() -> ScalarOps<
    f32,
    impl Fn(f32, f32) -> f32,
    impl Fn(f32, f32) -> f32,
    impl Fn(f32, usize) -> f32,
    impl Fn(f32, f32, f32, i64) -> f32,
    impl Fn(f32, f32) -> f32,
    impl Fn(f32, i64) -> f32,
> {
    ScalarOps {
        zero: 0.0f32,
        add: |a: f32, b: f32| a + b,
        mul: |a: f32, b: f32| a * b,
        div_count: |a: f32, n: usize| a / (n as f32),
        se_of: |ppv: f32, gpv: f32, beta: f32, dof: i64| ((ppv / gpv - beta * beta) / (dof as f32)).sqrt(),
        div: |a: f32, b: f32| a / b,
        sig_of: |t: f32, _dof: i64| t.abs(),
    }
}

fn labeled(matrix: Vec<Vec<f32>>, rows: Vec<&str>, cols: Vec<&str>) -> LabeledMatrix<f32> {
    LabeledMatrix::new(
        matrix,
        rows.into_iter().map(|s| s.to_string()).collect(),
        cols.into_iter().map(|s| s.to_string()).collect(),
    )
    .unwrap()
}

fn chunk(ids: Vec<&str>, sizes: Vec<i32>, beta: Vec<Vec<f32>>, gpv: Vec<f32>) -> PhenotypeChunk<f32> {
    PhenotypeChunk {
        variant_ids: ids.into_iter().map(|s| s.to_string()).collect(),
        sample_sizes: sizes,
        beta_update: beta,
        gpv_update: gpv,
    }
}

fn approx(a: f32, b: f64) {
    assert!(((a as f64) - b).abs() < 1e-4 * (1.0 + b.abs()), "{} vs {}", a, b);
}

#[test]
fn new_rejects_non_square_covariance() {
    let proj = labeled(vec![vec![1.0], vec![0.5]], vec!["a", "b"], vec!["p"]);
    let cov = labeled(vec![vec![1.0]], vec!["a"], vec!["a"]);
    let r = RunningSufficientStats::new(&proj, &cov, 0, 4, 0.0f32);
    assert!(matches!(r, Err(Error::ShapeMismatch)));
}

#[test]
fn new_builds_zeroed_buffers_and_diagonal() {
    let proj = labeled(vec![vec![1.0], vec![0.5]], vec!["a", "b"], vec!["p"]);
    let cov = labeled(vec![vec![2.0, 0.1], vec![0.1, 3.0]], vec!["a", "b"], vec!["a", "b"]);
    let s = RunningSufficientStats::new(&proj, &cov, 1, 3, 0.0f32).unwrap();
    assert_eq!(s.beta.len(), 3);
    assert_eq!(s.beta[0], vec![0.0f32]);
    assert_eq!(s.gpv, vec![0.0f32, 0.0, 0.0]);
    assert_eq!(s.sample_sizes, vec![0, 0, 0]);
    assert_eq!(s.fpv, vec![2.0f32, 3.0]);
    assert_eq!(s.phenotype_labels, vec!["a".to_string(), "b".to_string()]);
    assert_eq!(s.projection_ids, vec!["p".to_string()]);
    assert_eq!(s.n_features_seen, 0);
}

#[test]
fn update_accumulates_beta_and_gpv() {
    let proj = labeled(vec![vec![1.0], vec![0.5]], vec!["a", "b"], vec!["p"]);
    let cov = labeled(vec![vec![1.0, 0.0], vec![0.0, 1.0]], vec!["a", "b"], vec!["a", "b"]);
    let mut s = RunningSufficientStats::new(&proj, &cov, 0, 2, 0.0f32).unwrap();
    let o = ops();
    let c1 = chunk(vec!["v1", "v2"], vec![10, 20], vec![vec![0.1], vec![0.2]], vec![1.0, 2.0]);
    let c2 = chunk(vec!["v1", "v2"], vec![30, 5], vec![vec![0.3], vec![0.4]], vec![0.5, 0.5]);
    s.update(&c1, &o.add).unwrap();
    s.update(&c2, &o.add).unwrap();
    approx(s.beta[0][0], 0.4);
    approx(s.beta[1][0], 0.6);
    approx(s.gpv[0], 1.5);
    approx(s.gpv[1], 2.5);
    assert_eq!(s.n_features_seen, 2);
}

#[test]
fn commutativity_of_updates() {
    let proj = labeled(vec![vec![1.0], vec![0.5]], vec!["a", "b"], vec!["p"]);
    let cov = labeled(vec![vec![1.0, 0.0], vec![0.0, 1.0]], vec!["a", "b"], vec!["a", "b"]);
    let o = ops();
    let c1 = chunk(vec!["v1", "v2"], vec![10, 20], vec![vec![0.1], vec![0.2]], vec![1.0, 2.0]);
    let c2 = chunk(vec!["v1", "v2"], vec![30, 5], vec![vec![0.3], vec![0.4]], vec![0.5, 0.5]);
    let mut s12 = RunningSufficientStats::new(&proj, &cov, 0, 2, 0.0f32).unwrap();
    let mut s21 = RunningSufficientStats::new(&proj, &cov, 0, 2, 0.0f32).unwrap();
    s12.update(&c1, &o.add).unwrap();
    s12.update(&c2, &o.add).unwrap();
    s21.update(&c2, &o.add).unwrap();
    s21.update(&c1, &o.add).unwrap();
    assert_eq!(s12.beta, s21.beta);
    assert_eq!(s12.gpv, s21.gpv);
    assert_eq!(s12.sample_sizes, s21.sample_sizes);
    assert_eq!(s12.n_features_seen, s21.n_features_seen);
}

#[test]
fn minimum_sample_sizes_across_updates() {
    let proj = labeled(
        vec![vec![1.0], vec![0.5], vec![0.25]],
        vec!["a", "b", "c"],
        vec!["p"],
    );
    let cov = labeled(
        vec![vec![1.0, 0.0, 0.0], vec![0.0, 1.0, 0.0], vec![0.0, 0.0, 1.0]],
        vec!["a", "b", "c"],
        vec!["a", "b", "c"],
    );
    let mut s = RunningSufficientStats::new(&proj, &cov, 0, 2, 0.0f32).unwrap();
    let o = ops();
    let sizes = [[50, 80], [60, 20], [55, 70]];
    for sz in sizes.iter() {
        let c = chunk(vec!["v1", "v2"], sz.to_vec(), vec![vec![0.0], vec![0.0]], vec![0.0, 0.0]);
        s.update(&c, &o.add).unwrap();
    }
    assert_eq!(s.sample_sizes, vec![50, 20]);
}

#[test]
fn incomplete_aggregation_is_rejected() {
    let proj = labeled(vec![vec![1.0], vec![0.5]], vec!["a", "b"], vec!["p"]);
    let cov = labeled(vec![vec![1.0, 0.0], vec![0.0, 1.0]], vec!["a", "b"], vec!["a", "b"]);
    let mut s = RunningSufficientStats::new(&proj, &cov, 0, 2, 0.0f32).unwrap();
    let o = ops();
    let c1 = chunk(vec!["v1", "v2"], vec![10, 20], vec![vec![0.1], vec![0.2]], vec![1.0, 2.0]);
    s.update(&c1, &o.add).unwrap();
    let r = s.compute_final_stats(&o);
    assert!(matches!(r, Err(Error::IncompleteAggregation)));
}

#[test]
fn mismatched_variant_ids_leave_state_intact() {
    let proj = labeled(vec![vec![1.0], vec![0.5]], vec!["a", "b"], vec!["p"]);
    let cov = labeled(vec![vec![1.0, 0.0], vec![0.0, 1.0]], vec!["a", "b"], vec!["a", "b"]);
    let mut s = RunningSufficientStats::new(&proj, &cov, 0, 2, 0.0f32).unwrap();
    let o = ops();
    let c1 = chunk(vec!["v1", "v2"], vec![10, 20], vec![vec![0.1], vec![0.2]], vec![1.0, 2.0]);
    s.update(&c1, &o.add).unwrap();
    let beta_before = s.beta.clone();
    let gpv_before = s.gpv.clone();
    let sizes_before = s.sample_sizes.clone();
    let bad = chunk(vec!["v1", "OTHER"], vec![30, 5], vec![vec![0.3], vec![0.4]], vec![0.5, 0.5]);
    let r = s.update(&bad, &o.add);
    assert!(matches!(r, Err(Error::MismatchedVariantIds)));
    assert_eq!(s.beta, beta_before);
    assert_eq!(s.gpv, gpv_before);
    assert_eq!(s.sample_sizes, sizes_before);
    assert_eq!(s.n_features_seen, 1);
}

#[test]
fn identity_projection_reproduces_the_phenotype() {
    // One phenotype, a 1-by-1 projection of coefficient 1, covariance equal
    // to the phenotype's own variance: the finalized statistics are the
    // phenotype's own.
    let var = 2.5f32;
    let proj = labeled(vec![vec![1.0]], vec!["a"], vec!["p"]);
    let cov = labeled(vec![vec![var]], vec!["a"], vec!["a"]);
    let mut s = RunningSufficientStats::new(&proj, &cov, 0, 2, 0.0f32).unwrap();
    let o = ops();
    let beta = [0.4f32, -0.2];
    let gpv = [2.0f32, 1.5];
    let sizes = [100, 50];
    let c = chunk(
        vec!["v1", "v2"],
        sizes.to_vec(),
        vec![vec![beta[0]], vec![beta[1]]],
        gpv.to_vec(),
    );
    s.update(&c, &o.add).unwrap();
    let out = s.compute_final_stats(&o).unwrap();
    for i in 0..2 {
        let dof = (sizes[i] - 2) as f64;
        let own_se = (((var / gpv[i]) as f64 - (beta[i] as f64).powi(2)) / dof).sqrt();
        approx(out.beta_values[i], beta[i] as f64);
        approx(out.se_values[i], own_se);
        approx(out.t_stat_values[i], beta[i] as f64 / own_se);
        approx(out.p_values[i], (beta[i] as f64 / own_se).abs());
        assert_eq!(out.sample_sizes[i], sizes[i]);
    }
}

#[test]
fn golden_two_phenotypes_three_variants() {
    // 2 phenotypes, 3 variants, 1 projection [0.5, 0.5], covariance
    // [[1, 0.2], [0.2, 1]], one covariate; expected values computed by hand
    // from the finalize formulas.
    let proj = labeled(vec![vec![0.5], vec![0.5]], vec!["a", "b"], vec!["p"]);
    let cov = labeled(vec![vec![1.0, 0.2], vec![0.2, 1.0]], vec!["a", "b"], vec!["a", "b"]);
    let mut s = RunningSufficientStats::new(&proj, &cov, 1, 3, 0.0f32).unwrap();
    let o = ops();
    let c1 = chunk(
        vec!["v1", "v2", "v3"],
        vec![100, 90, 80],
        vec![vec![0.1], vec![0.2], vec![0.3]],
        vec![1.0, 1.2, 1.4],
    );
    let c2 = chunk(
        vec!["v1", "v2", "v3"],
        vec![95, 100, 70],
        vec![vec![0.05], vec![0.1], vec![0.15]],
        vec![1.0, 0.8, 0.6],
    );
    s.update(&c1, &o.add).unwrap();
    s.update(&c2, &o.add).unwrap();
    let out = s.compute_final_stats(&o).unwrap();
    assert_eq!(out.sample_sizes, vec![95, 90, 70]);
    assert_eq!(
        out.variant_ids,
        vec!["v1".to_string(), "v2".to_string(), "v3".to_string()]
    );
    assert_eq!(out.projection_ids, vec!["p".to_string(), "p".to_string(), "p".to_string()]);
    approx(out.beta_values[0], 0.15);
    approx(out.beta_values[1], 0.3);
    approx(out.beta_values[2], 0.45);
    approx(out.se_values[0], 0.07922861801800836);
    approx(out.se_values[1], 0.07656414934887765);
    approx(out.se_values[2], 0.07702490390059258);
    approx(out.t_stat_values[0], 1.8932552877030566);
    approx(out.t_stat_values[1], 3.918282937266091);
    approx(out.t_stat_values[2], 5.842266295856268);
}

#[test]
fn finalize_orders_projection_major() {
    // Two projections over one phenotype: rows come out projection-major,
    // variant-minor, with identifiers and sample sizes replicated.
    let proj = labeled(vec![vec![1.0, 2.0]], vec!["a"], vec!["p", "q"]);
    let cov = labeled(vec![vec![1.0]], vec!["a"], vec!["a"]);
    let mut s = RunningSufficientStats::new(&proj, &cov, 0, 2, 0.0f32).unwrap();
    let o = ops();
    let c = chunk(
        vec!["v1", "v2"],
        vec![10, 20],
        vec![vec![0.1, 0.2], vec![0.3, 0.4]],
        vec![1.0, 1.0],
    );
    s.update(&c, &o.add).unwrap();
    let out = s.compute_final_stats(&o).unwrap();
    assert_eq!(
        out.projection_ids,
        vec!["p".to_string(), "p".to_string(), "q".to_string(), "q".to_string()]
    );
    assert_eq!(
        out.variant_ids,
        vec!["v1".to_string(), "v2".to_string(), "v1".to_string(), "v2".to_string()]
    );
    assert_eq!(out.sample_sizes, vec![10, 20, 10, 20]);
    approx(out.beta_values[0], 0.1);
    approx(out.beta_values[1], 0.3);
    approx(out.beta_values[2], 0.2);
    approx(out.beta_values[3], 0.4);
}

#[test]
fn clear_chunk_resets_and_resizes() {
    let proj = labeled(vec![vec![1.0]], vec!["a"], vec!["p"]);
    let cov = labeled(vec![vec![1.0]], vec!["a"], vec!["a"]);
    let mut s = RunningSufficientStats::new(&proj, &cov, 0, 3, 0.0f32).unwrap();
    let o = ops();
    let c = chunk(
        vec!["v1", "v2", "v3"],
        vec![10, 20, 30],
        vec![vec![0.1], vec![0.2], vec![0.3]],
        vec![1.0, 1.0, 1.0],
    );
    s.update(&c, &o.add).unwrap();
    s.clear_chunk(2);
    assert_eq!(s.beta.len(), 2);
    assert_eq!(s.gpv, vec![0.0f32, 0.0]);
    assert_eq!(s.sample_sizes, vec![0, 0]);
    assert_eq!(s.n_features_seen, 0);
}

#[test]
fn processing_stats_lookup() {
    let proj = labeled(vec![vec![1.0], vec![0.5]], vec!["a", "b"], vec!["p"]);
    let cov = labeled(vec![vec![1.0, 0.0], vec![0.0, 1.0]], vec!["a", "b"], vec!["a", "b"]);
    let s = RunningSufficientStats::new(&proj, &cov, 0, 4, 0.0f32).unwrap();
    let ps = s.build_processing_stats();
    assert_eq!(ps.n_variants, 4);
    assert_eq!(ps.phenotype_index(&"b".to_string()), Some(1));
    assert_eq!(ps.phenotype_index(&"z".to_string()), None);
    assert_eq!(ps.n_covar, 0);
}
