use bleach_injector::engine::{clamp, decimal_places};
use bleach_injector::identity::{identity, Category, CHANNELS};
use bleach_injector::render::{RenderState, DEFAULT_SAMPLE_RATE};
use bleach_injector::sample::ONE;
use bleach_injector::store::{ParameterStore, Parameters};

fn patterns(samples: &[f32]) -> Vec<u32> {
    samples.iter().map(|sample| sample.to_bits()).collect()
}

fn numbers(patterns: &[u32]) -> Vec<f32> {
    patterns.iter().map(|bits| f32::from_bits(*bits)).collect()
}

#[test]
fn new_state_is_at_the_default_rate() {
    let state = RenderState::new();
    assert_eq!(state.sample_rate(), DEFAULT_SAMPLE_RATE);
    assert_eq!(state.sample_rate(), 44100.0f32.to_bits());
    assert_eq!(state.frames(), 0);
    assert_eq!(RenderState::default().sample_rate(), 44100.0f32.to_bits());
}

#[test]
fn set_sample_rate_keeps_the_frames() {
    let mut state = RenderState::new();
    let input = patterns(&[0.0, 0.0, 0.0]);
    let mut output = patterns(&[0.0, 0.0, 0.0]);
    state.render_channel(ONE, &input, &mut output, 3);
    state.set_sample_rate(48000.0f32.to_bits());
    assert_eq!(state.sample_rate(), 48000.0f32.to_bits());
    assert_eq!(state.frames(), 3);
}

#[test]
fn render_channel_clamps_each_frame() {
    let mut state = RenderState::new();
    let input = patterns(&[0.5, 2.0, -2.0, -0.25, f32::NAN]);
    let mut output = patterns(&[9.0, 9.0, 9.0, 9.0, 9.0]);
    state.render_channel(ONE, &input, &mut output, 5);
    assert_eq!(numbers(&output), vec![0.5, 1.0, -1.0, -0.25, 1.0]);
    assert_eq!(state.frames(), 5);
}

#[test]
fn render_channel_stops_at_the_frame_count() {
    let mut state = RenderState::new();
    let input = patterns(&[3.0, 3.0, 3.0, 3.0]);
    let mut output = patterns(&[9.0, 9.0, 9.0, 9.0]);
    state.render_channel(ONE, &input, &mut output, 2);
    assert_eq!(numbers(&output), vec![1.0, 1.0, 9.0, 9.0]);
    assert_eq!(state.frames(), 2);
    state.render_channel(ONE, &input, &mut output, 0);
    assert_eq!(numbers(&output), vec![1.0, 1.0, 9.0, 9.0]);
    assert_eq!(state.frames(), 2);
}

#[test]
fn render_channel_stops_at_the_shorter_channel() {
    let mut state = RenderState::new();
    let input = patterns(&[3.0, 3.0]);
    let mut output = patterns(&[9.0, 9.0, 9.0]);
    state.render_channel(ONE, &input, &mut output, 10);
    assert_eq!(numbers(&output), vec![1.0, 1.0, 9.0]);
    assert_eq!(state.frames(), 2);
    let input = patterns(&[-3.0, -3.0, -3.0, -3.0]);
    state.render_channel(ONE, &input, &mut output, 10);
    assert_eq!(numbers(&output), vec![-1.0, -1.0, -1.0]);
    assert_eq!(state.frames(), 5);
}

#[test]
fn process_renders_every_pair_with_one_threshold() {
    let mut state = RenderState::new();
    let inputs = vec![patterns(&[0.5, 2.0, -2.0]), patterns(&[4.0, -4.0, 0.0])];
    let mut outputs = vec![patterns(&[9.0, 9.0, 9.0]), patterns(&[9.0, 9.0, 9.0])];
    let parameters = Parameters { threshold: 1.5f32.to_bits() };
    state.process(parameters, &inputs, &mut outputs, 3);
    assert_eq!(numbers(&outputs[0]), vec![0.5, 1.5, -1.5]);
    assert_eq!(numbers(&outputs[1]), vec![1.5, -1.5, 0.0]);
    assert_eq!(state.frames(), 6);
    for (input, output) in inputs.iter().zip(outputs.iter()) {
        for (sample, rendered) in input.iter().zip(output.iter()) {
            assert_eq!(*rendered, clamp(*sample, parameters.threshold));
        }
    }
}

#[test]
fn process_pairs_the_channels_by_position() {
    let mut state = RenderState::new();
    let inputs = vec![patterns(&[2.0, 2.0])];
    let mut outputs = vec![patterns(&[9.0, 9.0]), patterns(&[8.0, 8.0])];
    state.process(Parameters { threshold: ONE }, &inputs, &mut outputs, 2);
    assert_eq!(numbers(&outputs[0]), vec![1.0, 1.0]);
    assert_eq!(numbers(&outputs[1]), vec![8.0, 8.0]);
    assert_eq!(state.frames(), 2);

    let inputs = vec![patterns(&[2.0, 2.0]), patterns(&[3.0, 3.0]), patterns(&[4.0, 4.0])];
    let mut outputs = vec![patterns(&[9.0, 9.0])];
    state.process(Parameters { threshold: ONE }, &inputs, &mut outputs, 2);
    assert_eq!(outputs.len(), 1);
    assert_eq!(numbers(&outputs[0]), vec![1.0, 1.0]);
    assert_eq!(state.frames(), 4);
}

#[test]
fn process_of_nothing_changes_nothing() {
    let mut state = RenderState::new();
    let inputs: Vec<Vec<u32>> = Vec::new();
    let mut outputs: Vec<Vec<u32>> = Vec::new();
    state.process(Parameters { threshold: ONE }, &inputs, &mut outputs, 64);
    assert!(outputs.is_empty());
    assert_eq!(state.frames(), 0);
    let inputs = vec![patterns(&[2.0]), patterns(&[2.0])];
    let mut outputs = vec![patterns(&[9.0]), patterns(&[9.0])];
    state.process(Parameters { threshold: ONE }, &inputs, &mut outputs, 0);
    assert_eq!(numbers(&outputs[0]), vec![9.0]);
    assert_eq!(state.frames(), 0);
}

#[test]
fn frames_never_fall_across_buffers() {
    let mut state = RenderState::new();
    let inputs = vec![patterns(&[0.5; 16]), patterns(&[0.5; 16])];
    let mut outputs = vec![patterns(&[0.0; 16]), patterns(&[0.0; 16])];
    let mut before = state.frames();
    for frame_count in [16, 0, 3, 16, 7, 100] {
        state.process(Parameters { threshold: ONE }, &inputs, &mut outputs, frame_count);
        assert!(state.frames() >= before);
        assert_eq!(state.frames(), before + 2 * (frame_count.min(16) as u64));
        before = state.frames();
    }
    assert_eq!(state.frames(), 116);
}

#[test]
fn a_buffer_keeps_the_threshold_it_started_with() {
    let mut store = ParameterStore::new();
    let mut state = RenderState::new();
    let snapshot = store.read();
    store.write(0.25f32.to_bits());
    let inputs = vec![patterns(&[0.5, 0.75]), patterns(&[-0.5, -0.75])];
    let mut outputs = vec![patterns(&[0.0, 0.0]), patterns(&[0.0, 0.0])];
    state.process(snapshot, &inputs, &mut outputs, 2);
    assert_eq!(numbers(&outputs[0]), vec![0.5, 0.75]);
    assert_eq!(numbers(&outputs[1]), vec![-0.5, -0.75]);
    state.process(store.read(), &inputs, &mut outputs, 2);
    assert_eq!(numbers(&outputs[0]), vec![0.25, 0.25]);
    assert_eq!(numbers(&outputs[1]), vec![-0.25, -0.25]);
}

#[test]
fn a_rendered_buffer_takes_the_float_stage() {
    let mut state = RenderState::new();
    let parameters = ParameterStore::new().read();
    let inputs = vec![patterns(&[0.5, 2.0]), patterns(&[-2.0, 0.7])];
    let mut outputs = vec![patterns(&[0.0, 0.0]), patterns(&[0.0, 0.0])];
    state.process(parameters, &inputs, &mut outputs, 2);
    let threshold = f32::from_bits(parameters.threshold);
    let places = decimal_places(parameters.threshold);
    let finished: Vec<Vec<f32>> = outputs
        .iter()
        .map(|channel| {
            channel
                .iter()
                .map(|bits| {
                    let distorted = f32::from_bits(*bits) / (threshold * 1.25);
                    math::round::ceil(distorted as f64, places) as f32
                })
                .collect()
        })
        .collect();
    assert_eq!(finished, vec![vec![0.401, 0.801], vec![-0.8, 0.561]]);
}

#[test]
fn identity_of_the_effect() {
    let id = identity();
    assert_eq!(id.name, "BleachInjector");
    assert_eq!(id.vendor, "Rein van der Woerd");
    assert_eq!(id.unique_id, 25032017);
    assert_eq!(id.inputs, 2);
    assert_eq!(id.outputs, 2);
    assert_eq!(id.parameters, 0);
    assert_eq!(id.category, Category::Effect);
    assert_eq!(CHANNELS, 2);
}
