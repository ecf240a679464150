use ai_firewall::model::{is_anomaly, ModelConfig, MAX_FINITE};

fn bits(values: &[f64]) -> Vec<u64> {
    values.iter().map(|v| v.to_bits()).collect()
}

fn model(clusters: usize, anomaly_cluster_index: usize) -> ModelConfig {
    ModelConfig { centroids: vec![Vec::new(); clusters], anomaly_cluster_index }
}

/// The index of the closest cluster, found by asking a model for each.
fn closest(distances: &[f64]) -> usize {
    let found: Vec<usize> = (0..distances.len().max(1))
        .filter(|i| model(distances.len(), *i).predict_anomaly(&bits(distances)))
        .collect();
    assert_eq!(found.len(), 1);
    found[0]
}

#[test]
fn the_greatest_finite_number_is_the_bound() {
    assert_eq!(MAX_FINITE, f64::MAX.to_bits());
}

#[test]
fn the_first_smallest_distance_wins() {
    assert_eq!(closest(&[4.0, 2.5, 3.0]), 1);
    assert_eq!(closest(&[2.5, 2.5, 3.0]), 0);
    assert_eq!(closest(&[3.0, 2.5, 2.5]), 1);
    assert_eq!(closest(&[1e300, 1e-300]), 1);
    assert_eq!(closest(&[0.0, -0.0]), 0);
    assert_eq!(closest(&[-0.0, 0.0]), 0);
    assert_eq!(closest(&[1.0, -1.0, -2.0]), 2);
    assert_eq!(closest(&[5e-324, 0.0]), 1);
}

#[test]
fn distances_that_are_no_finite_numbers_are_passed_over() {
    assert_eq!(closest(&[f64::NAN, 3.0]), 1);
    assert_eq!(closest(&[f64::INFINITY, 3.0]), 1);
    assert_eq!(closest(&[-f64::NAN, f64::MAX, 9.0]), 2);
    assert_eq!(closest(&[f64::NAN, f64::INFINITY]), 0);
    assert_eq!(closest(&[f64::NAN, f64::MAX]), 0);
    assert_eq!(closest(&[]), 0);
}

#[test]
fn the_choice_agrees_with_a_search_over_double_precision_numbers() {
    let mut n: u64 = 7;
    for _ in 0..2000 {
        let mut distances: Vec<f64> = Vec::new();
        for _ in 0..4 {
            n = n.wrapping_mul(6_364_136_223_846_793_005).wrapping_add(1_442_695_040_888_963_407);
            distances.push(f64::from_bits(n));
        }
        let mut min = f64::MAX;
        let mut expected = 0;
        for (i, d) in distances.iter().enumerate() {
            if *d < min {
                min = *d;
                expected = i;
            }
        }
        assert_eq!(closest(&distances), expected);
    }
}

#[test]
fn an_index_beyond_the_clusters_is_never_the_closest() {
    assert!(!model(2, 5).predict_anomaly(&bits(&[1.0, 2.0])));
}

#[test]
fn the_cluster_with_the_higher_rate_is_the_anomalous_one() {
    let low = bits(&[3.0, 1.2]);
    let high = bits(&[710.0, 16.8]);
    let first = ModelConfig::from_centroids(vec![high.clone(), low.clone()]);
    assert_eq!(first.anomaly_cluster_index, 0);
    let second = ModelConfig::from_centroids(vec![low.clone(), high.clone()]);
    assert_eq!(second.anomaly_cluster_index, 1);
    assert_eq!(second.centroids, vec![low.clone(), high]);
    let tie = ModelConfig::from_centroids(vec![low.clone(), low]);
    assert_eq!(tie.anomaly_cluster_index, 1);
}

#[test]
fn without_a_model_the_threshold_decides() {
    assert!(!is_anomaly(&None, &[], 100, 100));
    assert!(is_anomaly(&None, &[], 101, 100));
    assert!(is_anomaly(&Some(model(2, 1)), &bits(&[9.0, 4.0]), 0, 100));
    assert!(!is_anomaly(&Some(model(2, 0)), &bits(&[9.0, 4.0]), 1000, 100));
}
