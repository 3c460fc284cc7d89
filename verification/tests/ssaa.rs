use three_rs::ssaa::{jitter_vectors, sample_weight, ssaa_steps, SampleWeight, SsaaStep};

fn as_f64(weight: SampleWeight) -> f64 {
    weight.numerator as f64 / weight.denominator as f64
}

#[test]
fn the_eight_unbiased_sample_weights() {
    let weights: Vec<f64> = (0..8).map(|i| as_f64(sample_weight(i, 8, true))).collect();
    assert_eq!(
        weights,
        vec![
            0.111328125,
            0.115234375,
            0.119140625,
            0.123046875,
            0.126953125,
            0.130859375,
            0.134765625,
            0.138671875,
        ]
    );
    assert_eq!(weights.iter().sum::<f64>(), 1.0);
}

#[test]
fn the_biased_weights_are_flat() {
    for i in 0..8 {
        assert_eq!(as_f64(sample_weight(i, 8, false)), 0.125);
    }
}

#[test]
fn the_jitter_tables_are_powers_of_two() {
    for level in 0..=5 {
        assert_eq!(jitter_vectors(level).len(), 1 << level);
    }
    assert_eq!(jitter_vectors(9).len(), 32);
    assert_eq!(
        jitter_vectors(3),
        vec![(1, -3), (-1, 3), (5, 1), (-3, -5), (-5, 5), (-7, -1), (3, 7), (7, -7)]
    );
}

#[test]
fn a_weight_is_an_exact_fraction() {
    assert_eq!(sample_weight(0, 8, true), SampleWeight { numerator: 57, denominator: 512 });
    assert_eq!(sample_weight(7, 8, true), SampleWeight { numerator: 71, denominator: 512 });
    assert_eq!(sample_weight(3, 4, false), SampleWeight { numerator: 64, denominator: 256 });
    for count in [1usize, 2, 4, 8, 16, 32] {
        let sum: i64 = (0..count).map(|i| sample_weight(i, count, true).numerator).sum();
        assert_eq!(sum, 64 * count as i64);
    }
}

#[test]
fn a_frame_clears_the_accumulator_once_before_adding_to_it() {
    let steps = ssaa_steps(3, true);
    assert_eq!(steps.len(), 41);
    assert_eq!(
        &steps[..6],
        &[
            SsaaStep::Jitter { x: 1, y: -3 },
            SsaaStep::Weight { numerator: 57, denominator: 512 },
            SsaaStep::ClearSample,
            SsaaStep::RenderScene,
            SsaaStep::ClearAccumulator,
            SsaaStep::Accumulate,
        ]
    );
    assert_eq!(
        &steps[6..11],
        &[
            SsaaStep::Jitter { x: -1, y: 3 },
            SsaaStep::Weight { numerator: 59, denominator: 512 },
            SsaaStep::ClearSample,
            SsaaStep::RenderScene,
            SsaaStep::Accumulate,
        ]
    );
    assert_eq!(steps.iter().filter(|s| **s == SsaaStep::ClearAccumulator).count(), 1);
    assert_eq!(steps.iter().filter(|s| **s == SsaaStep::Accumulate).count(), 8);
    assert_eq!(ssaa_steps(0, false).len(), 6);
}
