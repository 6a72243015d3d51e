use wavetable_synthesizer::amplifier::{Amplifier, MasterOutput};
use wavetable_synthesizer::error::{AudioError, Error};
use wavetable_synthesizer::graph::{render_nodes, AudioDevice, AudioGraph, AudioNode};
use wavetable_synthesizer::math::FP_ONE;
use wavetable_synthesizer::oscillator::WaveTableOscillator;
use wavetable_synthesizer::slider_status::SliderStatus;
use wavetable_synthesizer::source::AudioSource;
use wavetable_synthesizer::waveforms::WaveForm;
use wavetable_synthesizer::wavetable::WaveTable;

/// One period of a sine wave, sampled into Q32 fixed point.
fn sine_table_256() -> Vec<i64> {
    let mut v = Vec::with_capacity(256);
    for i in 0..256 {
        let x = (i as f64) * std::f64::consts::TAU / 256.0;
        v.push((x.sin() * 4294967296.0).round() as i64);
    }
    v
}

fn sine_osc(freq_hz: i64, amplitude: i64) -> WaveTableOscillator {
    let wt = WaveTable::new(sine_table_256(), WaveForm::Sine);
    let mut osc = WaveTableOscillator::new(48000, wt);
    osc.set_frequency(freq_hz * FP_ONE);
    osc.set_amplitude(amplitude);
    osc.activate();
    osc
}

#[test]
fn get_uid_is_monotonic_and_fresh() {
    let mut g = AudioGraph::new(48000);
    let a = g.get_uid();
    let b = g.get_uid();
    let c = g.get_uid();
    assert_eq!(a, 1);
    assert_eq!(b, 2);
    assert_eq!(c, 3);
}

#[test]
fn lookup_of_unissued_id_fails() {
    let mut g = AudioGraph::new(48000);
    let id = g.add_node(AudioNode::new(
        AudioDevice::Oscillator(sine_osc(440, FP_ONE)),
        Vec::new(),
    ));
    g.connect_to_master(id);
    // No identifier this large was ever issued by get_uid.
    match g.get_node(999) {
        Err(Error::Audio(AudioError::AudioGraphInvalidId(bad))) => assert_eq!(bad, 999),
        Ok(_) => panic!("lookup of an unissued identifier must fail"),
    }
    assert!(g.get_node(id).is_ok());
    assert!(g.get_node(0).is_ok());
}

#[test]
fn get_node_returns_the_node_with_that_id() {
    let mut g = AudioGraph::new(48000);
    let id = g.add_node(AudioNode::new(
        AudioDevice::Amplifier(Amplifier::new(FP_ONE)),
        Vec::new(),
    ));
    let node = g.get_node(id).unwrap();
    assert_eq!(node.get_id(), Some(id));
}

#[test]
fn empty_graph_renders_silence() {
    let g = AudioGraph::new(48000);
    for t in [0u64, 1, 12345] {
        assert_eq!(g.render(t), 0);
    }
}

#[test]
fn two_sines_through_a_half_gain_amplifier_start_at_zero() {
    // Two oscillators at 220 Hz and 440 Hz, amplitude 0.5 each, behind an
    // amplifier with gain 0.5: at sample 0 both read sin(0), so the output
    // is exactly (0 + 0) * 0.5 * 0.5 == 0.
    let mut g = AudioGraph::new(48000);
    let o1 = g.add_node(AudioNode::new(
        AudioDevice::Oscillator(sine_osc(220, FP_ONE / 2)),
        Vec::new(),
    ));
    let o2 = g.add_node(AudioNode::new(
        AudioDevice::Oscillator(sine_osc(440, FP_ONE / 2)),
        Vec::new(),
    ));
    let amp = g.add_node(AudioNode::new(
        AudioDevice::Amplifier(Amplifier::new(FP_ONE / 2)),
        vec![o1, o2],
    ));
    g.connect_to_master(amp);
    assert_eq!(g.render(0), 0);
}

#[test]
fn mixing_is_the_exact_sum_of_the_children() {
    let mut g = AudioGraph::new(48000);
    let osc1 = sine_osc(220, FP_ONE / 2);
    let osc2 = sine_osc(440, FP_ONE / 2);
    let id1 = g.add_node(AudioNode::new(AudioDevice::Oscillator(osc1.clone()), Vec::new()));
    let id2 = g.add_node(AudioNode::new(AudioDevice::Oscillator(osc2.clone()), Vec::new()));
    for t in [0u64, 1, 7, 100] {
        let mixed = render_nodes(&g, &vec![id1, id2], t);
        assert_eq!(mixed, osc1.render(t) as i128 + osc2.render(t) as i128);
        // The mix is order-independent.
        assert_eq!(render_nodes(&g, &vec![id2, id1], t), mixed);
    }
}

#[test]
fn render_node_renders_one_subtree() {
    let mut g = AudioGraph::new(48000);
    let osc = sine_osc(440, FP_ONE);
    let osc_id = g.add_node(AudioNode::new(AudioDevice::Oscillator(osc.clone()), Vec::new()));
    let amp_id = g.add_node(AudioNode::new(
        AudioDevice::Amplifier(Amplifier::new(FP_ONE / 2)),
        vec![osc_id],
    ));
    g.connect_to_master(amp_id);
    for t in [0u64, 3, 77] {
        let leaf = g.render_node(osc_id, t).unwrap();
        assert_eq!(leaf, osc.render(t));
        assert_eq!(g.render_node(amp_id, t).unwrap(), leaf / 2);
    }
    assert_eq!(
        g.render_node(12345, 0),
        Err(Error::Audio(AudioError::AudioGraphInvalidId(12345)))
    );
}

#[test]
fn master_gain_scales_the_whole_mix() {
    let mut g = AudioGraph::new(48000);
    let id = g.add_node(AudioNode::new(
        AudioDevice::Oscillator(sine_osc(440, FP_ONE)),
        Vec::new(),
    ));
    g.connect_to_master(id);
    let loud = g.render(25);
    // The master output node has identifier 0.
    g.set_amplitude(0, FP_ONE / 2).unwrap();
    assert_eq!(g.render(25), loud / 2);
    g.set_amplitude(0, 0).unwrap();
    assert_eq!(g.render(25), 0);
}

#[test]
fn parameter_surface_reads_and_writes_by_id() {
    let mut g = AudioGraph::new(48000);
    let osc_id = g.add_node(AudioNode::new(
        AudioDevice::Oscillator(sine_osc(440, FP_ONE)),
        Vec::new(),
    ));
    let amp_id = g.add_node(AudioNode::new(
        AudioDevice::Amplifier(Amplifier::new(FP_ONE)),
        vec![osc_id],
    ));
    g.connect_to_master(amp_id);

    assert_eq!(g.get_frequency(osc_id).unwrap(), 440 * FP_ONE);
    g.set_frequency(osc_id, 220 * FP_ONE).unwrap();
    assert_eq!(g.get_frequency(osc_id).unwrap(), 220 * FP_ONE);

    assert_eq!(g.get_amplitude(amp_id).unwrap(), FP_ONE);
    g.set_amplitude(amp_id, FP_ONE / 4).unwrap();
    assert_eq!(g.get_amplitude(amp_id).unwrap(), FP_ONE / 4);

    assert_eq!(g.get_waveform(osc_id).unwrap(), WaveForm::Sine);
    g.set_waveform(osc_id, WaveForm::Saw).unwrap();
    assert_eq!(g.get_waveform(osc_id).unwrap(), WaveForm::Saw);

    g.set_wavetable(osc_id, WaveTable::from_waveform(WaveForm::Triangle, 64))
        .unwrap();
    assert_eq!(g.get_waveform(osc_id).unwrap(), WaveForm::Triangle);
}

#[test]
fn oscillator_parameters_reject_non_oscillator_nodes() {
    let mut g = AudioGraph::new(48000);
    let amp_id = g.add_node(AudioNode::new(
        AudioDevice::Amplifier(Amplifier::new(FP_ONE)),
        Vec::new(),
    ));
    assert_eq!(
        g.set_frequency(amp_id, FP_ONE),
        Err(Error::Audio(AudioError::AudioGraphInvalidId(amp_id)))
    );
    assert_eq!(
        g.get_frequency(amp_id),
        Err(Error::Audio(AudioError::AudioGraphInvalidId(amp_id)))
    );
    assert_eq!(
        g.get_waveform(0),
        Err(Error::Audio(AudioError::AudioGraphInvalidId(0)))
    );
    assert_eq!(
        g.set_waveform(17, WaveForm::Square),
        Err(Error::Audio(AudioError::AudioGraphInvalidId(17)))
    );
    assert_eq!(
        g.set_amplitude(17, FP_ONE),
        Err(Error::Audio(AudioError::AudioGraphInvalidId(17)))
    );
}

#[test]
fn error_messages_name_the_failure() {
    let e = AudioError::AudioGraphInvalidId(3);
    assert_eq!(e.message(), "AudioGraphInvalidId");
    assert_eq!(Error::Audio(e).message(), "Audio");
}

#[test]
fn master_output_defaults_to_unit_gain() {
    let m = MasterOutput::new();
    assert_eq!(m.get_amplitude(), FP_ONE);
    let mut a = Amplifier::new(7);
    assert_eq!(a.get_amplitude(), 7);
    a.set_amplitude(-7);
    assert_eq!(a.get_amplitude(), -7);
}

#[test]
fn audio_source_advances_one_sample_per_pull() {
    let mut g = AudioGraph::new(48000);
    let id = g.add_node(AudioNode::new(
        AudioDevice::Oscillator(sine_osc(440, FP_ONE)),
        Vec::new(),
    ));
    g.connect_to_master(id);
    let expected: Vec<i64> = (0u64..5).map(|t| g.render(t)).collect();
    let mut source = AudioSource::new(g);
    assert_eq!(source.channels(), 1);
    assert_eq!(source.sample_rate(), 48000);
    assert_eq!(source.current_frame_len(), None);
    for want in expected {
        assert_eq!(source.next(), Some(want));
    }
}

#[test]
fn audio_source_exposes_the_graph_for_the_control_surface() {
    let mut g = AudioGraph::new(48000);
    let id = g.add_node(AudioNode::new(
        AudioDevice::Oscillator(sine_osc(440, FP_ONE)),
        Vec::new(),
    ));
    g.connect_to_master(id);
    let mut source = AudioSource::new(g);
    source.graph_mut().set_amplitude(0, 0).unwrap();
    assert_eq!(source.next(), Some(0));
    assert_eq!(source.graph().get_amplitude(0).unwrap(), 0);
}

#[test]
fn slider_status_tracks_movement() {
    let mut s = SliderStatus::default();
    assert!(!s.was_moved());
    s.set_moved();
    assert!(s.was_moved());
    let mut s2 = SliderStatus::Unchanged;
    s2.moved();
    assert_eq!(s2, SliderStatus::Moved);
}
