use visualizer::audio::{mix_down, Playhead};

fn average(total: f32, channels: usize) -> f32 {
    total / channels as f32
}

fn plus(total: f32, value: f32) -> f32 {
    total + value
}

#[test]
fn stereo_is_averaged_frame_by_frame() {
    let mono = mix_down(&[1.0_f32, 3.0, -2.0, 2.0, 0.5, 0.25], 2, 0.0, &plus, &average);
    assert_eq!(mono, vec![2.0, 0.0, 0.375]);
}

#[test]
fn mono_is_kept() {
    let mono = mix_down(&[1.0_f32, 3.0, -2.0], 1, 0.0, &plus, &average);
    assert_eq!(mono, vec![1.0, 3.0, -2.0]);
}

#[test]
fn leftover_values_make_a_last_frame() {
    let mono = mix_down(&[1.0_f32, 3.0, 5.0, 6.0], 3, 0.0, &plus, &average);
    assert_eq!(mono, vec![3.0, 2.0]);
    let short = mix_down(&[4.0_f32], 4, 0.0, &plus, &average);
    assert_eq!(short, vec![1.0]);
}

#[test]
fn no_values_make_no_frames() {
    let mono = mix_down(&[], 2, 0.0, &plus, &average);
    assert!(mono.is_empty());
}

#[test]
fn frames_are_totalled_in_order() {
    let mono = mix_down(
        &[1_u32, 2, 3, 4, 5],
        2,
        0,
        &|total: u32, value: u32| total * 10 + value,
        &|total: u32, channels: usize| total * 100 + channels as u32,
    );
    assert_eq!(mono, vec![1202, 3402, 502]);
}

#[test]
fn playhead_starts_at_zero() {
    let playhead = Playhead::new();
    assert_eq!(playhead.position(), 0);
    assert_eq!(playhead.window(10, 4), None);
    assert_eq!(playhead.window(10, 0), Some((0, 0)));
}

#[test]
fn block_repeats_each_sample_on_every_channel() {
    let samples = [0.1_f32, 0.2, 0.3, 0.4];
    let mut playhead = Playhead::new();
    let mut block = [9.0_f32; 6];
    playhead.fill_block(&samples, &mut block, 2, 0.0);
    assert_eq!(block, [0.1, 0.1, 0.2, 0.2, 0.3, 0.3]);
    assert_eq!(playhead.position(), 3);
}

#[test]
fn playback_goes_on_where_it_stopped_and_ends_in_silence() {
    let samples = [0.1_f32, 0.2, 0.3, 0.4];
    let mut playhead = Playhead::new();
    let mut block = [9.0_f32; 6];
    playhead.fill_block(&samples, &mut block, 2, 0.0);
    playhead.fill_block(&samples, &mut block, 2, 0.0);
    assert_eq!(block, [0.4, 0.4, 0.0, 0.0, 0.0, 0.0]);
    assert_eq!(playhead.position(), 6);
    playhead.fill_block(&samples, &mut block, 3, -1.0);
    assert_eq!(block, [-1.0; 6]);
    assert_eq!(playhead.position(), 8);
}

#[test]
fn short_last_frame_counts_as_a_frame() {
    let samples = [1_u8, 2, 3, 4, 5];
    let mut playhead = Playhead::new();
    let mut block = [0_u8; 5];
    playhead.fill_block(&samples, &mut block, 2, 0);
    assert_eq!(block, [1, 1, 2, 2, 3]);
    assert_eq!(playhead.position(), 3);
    let mut none: [u8; 0] = [];
    playhead.fill_block(&samples, &mut none, 2, 0);
    assert_eq!(playhead.position(), 3);
}

#[test]
fn window_is_the_latest_samples_played() {
    let samples = [1_u8, 2, 3, 4, 5, 6, 7, 8];
    let mut playhead = Playhead::new();
    let mut block = [0_u8; 3];
    playhead.fill_block(&samples, &mut block, 1, 0);
    assert_eq!(playhead.window(samples.len(), 4), None);
    assert_eq!(playhead.window(samples.len(), 3), Some((0, 3)));
    playhead.fill_block(&samples, &mut block, 1, 0);
    assert_eq!(playhead.window(samples.len(), 4), Some((2, 6)));
    assert_eq!(&samples[2..6], &[3, 4, 5, 6]);
    playhead.fill_block(&samples, &mut block, 1, 0);
    assert_eq!(playhead.position(), 9);
    assert_eq!(playhead.window(samples.len(), 4), None);
    assert_eq!(playhead.window(9, 4), Some((5, 9)));
}
