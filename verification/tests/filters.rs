use visualizer::filters::eq_curve::EqCurveFilter;
use visualizer::filters::gaussian::{build_kernel, convolve_pass, kernel_len, smooth_bins, tap_index};
use visualizer::filters::registry::{addable_spatial_factories, spatial_factories, SpatialFactory};
use visualizer::filters::temporal::{clear_state, fit_state, smooth_frame};
use visualizer::filters::weighting::{apply_weights, derive_weights};
use visualizer::filters::{BinLayout, FilterKind, SpatialFilter};

fn gaussian_kernel(sigma: f32, radius: usize) -> Vec<f32> {
    let denom = 2.0 * sigma * sigma;
    build_kernel(
        radius,
        0.0_f32,
        &|distance: usize| (-(distance as f32 * distance as f32) / denom).exp(),
        &|total: f32, value: f32| total + value,
        &|value: f32, total: f32| value / total,
    )
    .expect("the kernel fits")
}

fn multiply_add(acc: f32, sample: f32, weight: f32) -> f32 {
    acc + sample * weight
}

fn a_weight(f: f32) -> f32 {
    let c1 = 20.6_f32 * 20.6_f32;
    let c2 = 107.7_f32 * 107.7_f32;
    let c3 = 737.9_f32 * 737.9_f32;
    let c4 = 12194.0_f32 * 12194.0_f32;
    let a0 = 1.2589254_f32;
    if f <= 0.0 {
        return 0.0;
    }
    let f2 = f * f;
    let num = c4 * f2 * f2;
    let den = (f2 + c1) * (f2 + c4) * ((f2 + c2) * (f2 + c3)).sqrt();
    num / den * a0
}

fn close(a: f32, b: f32, tolerance: f32) -> bool {
    (a - b).abs() <= tolerance
}

#[test]
fn kernel_len_is_twice_the_radius_plus_one() {
    assert_eq!(kernel_len(0), Some(1));
    assert_eq!(kernel_len(4), Some(9));
    assert_eq!(kernel_len((usize::MAX - 1) / 2), Some(usize::MAX));
    assert_eq!(kernel_len((usize::MAX - 1) / 2 + 1), None);
    assert_eq!(kernel_len(usize::MAX), None);
}

#[test]
fn center_tap_reads_the_bin_itself() {
    assert_eq!(tap_index(0, 2, 2, 10), Some(0));
    assert_eq!(tap_index(9, 2, 2, 10), Some(9));
    assert_eq!(tap_index(5, 0, 0, 10), Some(5));
}

#[test]
fn taps_beyond_the_left_edge_read_nothing() {
    assert_eq!(tap_index(0, 0, 2, 10), None);
    assert_eq!(tap_index(0, 1, 2, 10), None);
    assert_eq!(tap_index(1, 0, 2, 10), None);
    assert_eq!(tap_index(1, 1, 2, 10), Some(0));
    assert_eq!(tap_index(0, 0, usize::MAX, 10), None);
}

#[test]
fn taps_beyond_the_right_edge_read_nothing() {
    assert_eq!(tap_index(9, 3, 2, 10), None);
    assert_eq!(tap_index(9, 4, 2, 10), None);
    assert_eq!(tap_index(8, 3, 2, 10), Some(9));
    assert_eq!(tap_index(8, 4, 2, 10), None);
    assert_eq!(tap_index(3, usize::MAX, 0, 10), None);
    assert_eq!(tap_index(10, 2, 2, 10), None);
    assert_eq!(tap_index(0, 0, 0, 0), None);
}

#[test]
fn taps_inside_read_their_offset() {
    assert_eq!(tap_index(3, 4, 2, 10), Some(5));
    assert_eq!(tap_index(3, 0, 2, 10), Some(1));
    assert_eq!(tap_index(usize::MAX - 1, 1, 0, usize::MAX), None);
    assert_eq!(tap_index(usize::MAX - 2, 1, 0, usize::MAX), Some(usize::MAX - 1));
}

#[test]
fn gaussian_kernel_sums_to_one() {
    let kernel = gaussian_kernel(2.0, 4);
    assert_eq!(kernel.len(), 9);
    let total: f32 = kernel.iter().sum();
    assert!(close(total, 1.0, 1e-6));
    assert!(close(kernel[4], 0.204_163_7, 1e-6));
    assert!(close(kernel[3], 0.180_173_8, 1e-6));
    assert!(close(kernel[0], 0.027_630_55, 1e-6));
    for k in 0..4 {
        assert_eq!(kernel[k], kernel[8 - k]);
        assert!(kernel[k] < kernel[k + 1]);
    }
}

#[test]
fn kernel_of_radius_zero_is_one_tap() {
    let kernel = gaussian_kernel(1.0, 0);
    assert_eq!(kernel, vec![1.0]);
}

#[test]
fn kernel_that_does_not_fit_is_refused() {
    let kernel = build_kernel(
        usize::MAX,
        0.0_f32,
        &|_distance: usize| 1.0_f32,
        &|total: f32, value: f32| total + value,
        &|value: f32, total: f32| value / total,
    );
    assert_eq!(kernel, None);
}

#[test]
fn kernel_asks_for_distances_from_the_center() {
    let kernel = build_kernel(
        2,
        0_u32,
        &|distance: usize| distance as u32 + 1,
        &|total: u32, value: u32| total + value,
        &|value: u32, total: u32| value * 100 + total,
    )
    .expect("the kernel fits");
    assert_eq!(kernel, vec![311, 211, 111, 211, 311]);
}

#[test]
fn convolving_a_constant_keeps_the_inner_bins() {
    let kernel = gaussian_kernel(2.0, 4);
    let mut bins = vec![0.5_f32; 20];
    convolve_pass(&mut bins, &kernel, 4, 0.0, &multiply_add);
    assert_eq!(bins.len(), 20);
    for i in 4..16 {
        assert!(close(bins[i], 0.5, 1e-6));
    }
}

#[test]
fn convolving_loses_weight_at_the_edges() {
    let kernel = gaussian_kernel(2.0, 4);
    let mut bins = vec![0.5_f32; 20];
    convolve_pass(&mut bins, &kernel, 4, 0.0, &multiply_add);
    let right_half: f32 = kernel[4..].iter().sum();
    assert!(close(bins[0], 0.5 * right_half, 1e-6));
    assert!(close(bins[19], 0.5 * right_half, 1e-6));
    assert!(bins[0] < 0.35);
    assert!(bins[3] < 0.5 - 1e-3);
}

#[test]
fn convolving_reads_the_buffer_as_it_was() {
    let kernel = vec![1.0_f32, 0.0, 0.0];
    let mut bins = vec![1.0_f32, 2.0, 3.0, 4.0];
    convolve_pass(&mut bins, &kernel, 1, 0.0, &multiply_add);
    assert_eq!(bins, vec![0.0, 1.0, 2.0, 3.0]);
}

#[test]
fn convolving_spreads_an_impulse_like_the_kernel() {
    let kernel = vec![0.25_f32, 0.5, 0.125];
    let mut bins = vec![0.0_f32, 0.0, 8.0, 0.0, 0.0];
    convolve_pass(&mut bins, &kernel, 1, 0.0, &multiply_add);
    assert_eq!(bins, vec![0.0, 1.0, 4.0, 2.0, 0.0]);
}

#[test]
fn convolving_with_no_taps_gives_zeros() {
    let kernel: Vec<f32> = Vec::new();
    let mut bins = vec![1.0_f32, 2.0];
    convolve_pass(&mut bins, &kernel, 0, 0.0, &multiply_add);
    assert_eq!(bins, vec![0.0, 0.0]);
}

#[test]
fn smoothing_repeats_the_pass() {
    let kernel = vec![0.0_f32, 0.5, 0.0];
    let mut bins = vec![8.0_f32, 16.0];
    smooth_bins(&mut bins, &kernel, 1, 3, true, 0.0, &multiply_add);
    assert_eq!(bins, vec![1.0, 2.0]);
}

#[test]
fn smoothing_with_no_pass_or_disabled_changes_nothing() {
    let kernel = vec![0.0_f32, 0.5, 0.0];
    let mut bins = vec![8.0_f32, 16.0];
    smooth_bins(&mut bins, &kernel, 1, 0, true, 0.0, &multiply_add);
    assert_eq!(bins, vec![8.0, 16.0]);
    smooth_bins(&mut bins, &kernel, 1, 3, false, 0.0, &multiply_add);
    assert_eq!(bins, vec![8.0, 16.0]);
}

#[test]
fn a_weighting_is_one_at_one_kilohertz() {
    let weights = derive_weights(&vec![1000.0_f32], &a_weight);
    assert_eq!(weights.len(), 1);
    assert!(close(weights[0], 1.0, 1e-3));
}

#[test]
fn a_weighting_is_zero_at_zero_hertz() {
    let weights = derive_weights(&vec![0.0_f32, -5.0], &a_weight);
    assert_eq!(weights, vec![0.0, 0.0]);
}

#[test]
fn a_weighting_follows_the_curve() {
    let weights = derive_weights(&vec![100.0_f32, 1000.0, 10000.0], &a_weight);
    assert!(close(20.0 * weights[0].log10(), -19.1, 0.1));
    assert!(close(20.0 * weights[2].log10(), -2.5, 0.1));
    assert!(weights[0] < weights[2] && weights[2] < weights[1]);
}

#[test]
fn weights_are_derived_in_order() {
    let weights = derive_weights(&vec![3_u32, 1, 2], &|c: u32| c * 10);
    assert_eq!(weights, vec![30, 10, 20]);
    let none = derive_weights(&Vec::<u32>::new(), &|c: u32| c * 10);
    assert!(none.is_empty());
}

#[test]
fn weights_scale_bin_by_bin() {
    let mut bins = vec![1.0_f32, 2.0, 4.0];
    apply_weights(&mut bins, &vec![0.5, 0.25, 2.0], &|x: f32, w: f32| x * w);
    assert_eq!(bins, vec![0.5, 0.5, 8.0]);
}

#[test]
fn weights_for_another_bin_count_change_nothing() {
    let mut bins = vec![1.0_f32, 2.0, 4.0];
    apply_weights(&mut bins, &Vec::new(), &|x: f32, w: f32| x * w);
    assert_eq!(bins, vec![1.0, 2.0, 4.0]);
    apply_weights(&mut bins, &vec![0.5, 0.5], &|x: f32, w: f32| x * w);
    assert_eq!(bins, vec![1.0, 2.0, 4.0]);
    apply_weights(&mut bins, &vec![0.5, 0.5, 0.5, 0.5], &|x: f32, w: f32| x * w);
    assert_eq!(bins, vec![1.0, 2.0, 4.0]);
}

#[test]
fn history_grows_with_zeros_and_shrinks_from_the_end() {
    let mut state = vec![1.0_f32, 2.0, 3.0];
    fit_state(&mut state, 5, 0.0);
    assert_eq!(state, vec![1.0, 2.0, 3.0, 0.0, 0.0]);
    fit_state(&mut state, 2, 0.0);
    assert_eq!(state, vec![1.0, 2.0]);
    fit_state(&mut state, 2, 0.0);
    assert_eq!(state, vec![1.0, 2.0]);
    fit_state(&mut state, 0, 0.0);
    assert!(state.is_empty());
}

#[test]
fn clearing_keeps_the_length() {
    let mut state = vec![1.0_f32, 2.0, 3.0];
    clear_state(&mut state, 0.0);
    assert_eq!(state, vec![0.0, 0.0, 0.0]);
    let mut none: Vec<f32> = Vec::new();
    clear_state(&mut none, 0.0);
    assert!(none.is_empty());
}

#[test]
fn exponential_filter_follows_its_formula() {
    let alpha = 0.25_f32;
    let step = |x: f32, held: f32| alpha * x + (1.0 - alpha) * held;
    let mut state: Vec<f32> = Vec::new();
    let mut frame = vec![8.0_f32, 4.0];
    smooth_frame(&mut state, &mut frame, 0.0, &step);
    assert_eq!(frame, vec![2.0, 1.0]);
    assert_eq!(state, vec![2.0, 1.0]);
    let mut next = vec![8.0_f32, 4.0];
    smooth_frame(&mut state, &mut next, 0.0, &step);
    assert_eq!(next, vec![3.5, 1.75]);
    assert_eq!(state, vec![3.5, 1.75]);
}

#[test]
fn exponential_filter_converges_on_a_constant() {
    let alpha = 0.2_f32;
    let step = |x: f32, held: f32| alpha * x + (1.0 - alpha) * held;
    let target = 3.0_f32;
    let start = 0.0_f32;
    let mut state = vec![start];
    for k in 1..=30 {
        let mut frame = vec![target];
        smooth_frame(&mut state, &mut frame, 0.0, &step);
        let bound = (1.0 - alpha).powi(k) * (start - target).abs();
        assert!((frame[0] - target).abs() <= bound + 1e-5);
        assert!((frame[0] - target).abs() >= bound - 1e-5);
    }
    assert!((state[0] - target).abs() < 0.01);
}

#[test]
fn exponential_filter_with_alpha_one_is_exact_after_one_step() {
    let alpha = 1.0_f32;
    let step = |x: f32, held: f32| alpha * x + (1.0 - alpha) * held;
    let mut state = vec![0.7_f32, -2.0];
    let mut frame = vec![0.3_f32, 5.5];
    smooth_frame(&mut state, &mut frame, 0.0, &step);
    assert_eq!(frame, vec![0.3, 5.5]);
    assert_eq!(state, vec![0.3, 5.5]);
}

#[test]
fn attack_release_uses_attack_on_a_rising_step() {
    let (attack, release) = (0.5_f32, 0.875_f32);
    let step = |x: f32, held: f32| {
        let alpha = if x > held { attack } else { release };
        alpha * held + (1.0 - alpha) * x
    };
    let mut state = vec![0.0_f32];
    let mut frame = vec![1.0_f32];
    smooth_frame(&mut state, &mut frame, 0.0, &step);
    assert_eq!(frame, vec![0.5]);
    let mut next = vec![1.0_f32];
    smooth_frame(&mut state, &mut next, 0.0, &step);
    assert_eq!(next, vec![0.75]);
}

#[test]
fn attack_release_uses_release_on_a_falling_step() {
    let (attack, release) = (0.5_f32, 0.875_f32);
    let step = |x: f32, held: f32| {
        let alpha = if x > held { attack } else { release };
        alpha * held + (1.0 - alpha) * x
    };
    let mut state = vec![1.0_f32];
    let mut frame = vec![0.0_f32];
    smooth_frame(&mut state, &mut frame, 0.0, &step);
    assert_eq!(frame, vec![0.875]);
    let mut next = vec![0.0_f32];
    smooth_frame(&mut state, &mut next, 0.0, &step);
    assert_eq!(next, vec![0.765625]);
    let mut level = vec![0.765625_f32];
    smooth_frame(&mut state, &mut level, 0.0, &step);
    assert_eq!(level, vec![0.765625]);
}

#[test]
fn peak_hold_decays_geometrically_after_an_impulse() {
    let decay = 0.5_f32;
    let step = |x: f32, held: f32| x.max(decay * held);
    let peak = 0.8_f32;
    let mut state: Vec<f32> = Vec::new();
    let mut frame = vec![peak];
    smooth_frame(&mut state, &mut frame, 0.0, &step);
    assert_eq!(frame, vec![peak]);
    for n in 1..=10 {
        let mut silent = vec![0.0_f32];
        smooth_frame(&mut state, &mut silent, 0.0, &step);
        assert_eq!(silent[0], decay.powi(n) * peak);
    }
    let mut louder = vec![0.25_f32];
    smooth_frame(&mut state, &mut louder, 0.0, &step);
    assert_eq!(louder, vec![0.25]);
    let mut after = vec![0.0_f32];
    smooth_frame(&mut state, &mut after, 0.0, &step);
    assert_eq!(after, vec![0.125]);
}

#[test]
fn smoothing_fits_the_history_to_the_frame() {
    let step = |x: f32, held: f32| x + held;
    let mut state = vec![10.0_f32, 20.0, 30.0];
    let mut shorter = vec![1.0_f32, 2.0];
    smooth_frame(&mut state, &mut shorter, 0.0, &step);
    assert_eq!(shorter, vec![11.0, 22.0]);
    assert_eq!(state, vec![11.0, 22.0]);
    let mut longer = vec![1.0_f32, 1.0, 1.0, 1.0];
    smooth_frame(&mut state, &mut longer, 0.0, &step);
    assert_eq!(longer, vec![12.0, 23.0, 1.0, 1.0]);
    assert_eq!(state, longer);
}

#[test]
fn smoothing_after_a_clear_starts_from_zero() {
    let step = |x: f32, held: f32| x.max(0.5 * held);
    let mut state = vec![4.0_f32, 4.0];
    clear_state(&mut state, 0.0);
    let mut frame = vec![1.0_f32, 0.0];
    smooth_frame(&mut state, &mut frame, 0.0, &step);
    assert_eq!(frame, vec![1.0, 0.0]);
}

#[test]
fn eq_curve_keeps_its_points_and_passes_the_buffer_on() {
    let mut filter = EqCurveFilter::new(vec![(100.0_f32, -3.0_f32), (1000.0, 0.0)]);
    assert_eq!(filter.points(), &vec![(100.0, -3.0), (1000.0, 0.0)]);
    assert_eq!(filter.kind(), FilterKind::EqCurve);
    let layout = BinLayout {
        centers: vec![100.0_f32, 1000.0],
        min_freq: 20.0,
        max_freq: 2000.0,
        log_min: 3.0,
        log_max: 7.6,
        spacing_log: true,
    };
    filter.on_layout_change(&layout);
    let mut bins = vec![0.5_f32, 0.25];
    filter.process(&mut bins);
    assert_eq!(bins, vec![0.5, 0.25]);
    assert_eq!(filter.points().len(), 2);
}

#[test]
fn registry_offers_gaussian_then_a_weighting() {
    let offer = spatial_factories();
    assert_eq!(offer.len(), 2);
    assert_eq!(offer[0].kind, FilterKind::Gaussian);
    assert_eq!(offer[0].name, "Gaussian");
    assert_eq!(offer[1].kind, FilterKind::AWeighting);
    assert_eq!(offer[1].name, "A-Weighting");
}

#[test]
fn addable_factories_leave_out_the_active_kinds() {
    use_names(&addable_spatial_factories(&Vec::new()), &["Gaussian", "A-Weighting"]);
    use_names(&addable_spatial_factories(&vec![FilterKind::Gaussian]), &["A-Weighting"]);
    use_names(
        &addable_spatial_factories(&vec![FilterKind::AWeighting, FilterKind::AWeighting]),
        &["Gaussian"],
    );
    use_names(
        &addable_spatial_factories(&vec![FilterKind::AWeighting, FilterKind::Gaussian]),
        &[],
    );
    use_names(
        &addable_spatial_factories(&vec![FilterKind::EqCurve, FilterKind::Exponential]),
        &["Gaussian", "A-Weighting"],
    );
}

fn use_names(offer: &Vec<SpatialFactory>, expected: &[&str]) {
    let names: Vec<&str> = offer.iter().map(|f| f.name).collect();
    assert_eq!(names, expected);
}
