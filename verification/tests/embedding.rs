use phantom::ftle::embedding::{DelayEmbedding, EmbeddingConfig, EmbeddingError};

#[test]
fn default_config() {
    let c = EmbeddingConfig::default();
    assert_eq!(c.default_tau, 1);
    assert_eq!(c.default_dimension, 3);
    assert_eq!(c.min_points_required, 100);
}

#[test]
fn delay_vectors_stack_spaced_samples() {
    let e = DelayEmbedding::new(EmbeddingConfig::default());
    let series: Vec<i32> = (0..10).collect();
    let v = e.delay_embed(&series, 3, 2).unwrap();
    assert_eq!(v.len(), 6);
    assert_eq!(v[0], vec![0, 2, 4]);
    assert_eq!(v[5], vec![5, 7, 9]);

    let f = [1.5f64, 2.5, 3.5, 4.5];
    let w = e.delay_embed(&f, 2, 1).unwrap();
    assert_eq!(w, vec![vec![1.5, 2.5], vec![2.5, 3.5], vec![3.5, 4.5]]);
}

#[test]
fn one_dimension_is_the_series_itself() {
    let e = DelayEmbedding::new(EmbeddingConfig::default());
    let v = e.delay_embed(&[7u8, 8, 9], 1, 1).unwrap();
    assert_eq!(v, vec![vec![7], vec![8], vec![9]]);
}

#[test]
fn too_short_series_names_the_points_needed() {
    let e = DelayEmbedding::new(EmbeddingConfig::default());
    let series = [0.0f64; 6];
    assert_eq!(e.delay_embed(&series, 3, 2), Err(EmbeddingError::InsufficientData { required: 7 }));
    assert!(e.delay_embed(&[0.0f64; 7], 3, 2).is_ok());
    assert_eq!(e.delay_embed::<f64>(&[], 1, 0), Err(EmbeddingError::InsufficientData { required: 1 }));
}
