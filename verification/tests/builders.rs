use oosc::error::Error;
use oosc::utils::sample_buffer::{SampleBuffer, SampleBufferBuilder};
use oosc::synth::oscillator::OscillatorBuilder;
use oosc::synth::synthesizer::{Synthesizer, SynthesizerBuilder};
use oosc::utils::adsr_envelope::{ADSRCurves, ADSREnvelopeBuilder};

#[derive(Clone, Copy, Debug, PartialEq)]
struct Line {
    from: (f32, f32),
    to: (f32, f32),
}

fn line(from: (f32, f32), to: (f32, f32)) -> Line {
    Line { from, to }
}

#[test]
fn adsr_stages_chain_from_the_previous_end() {
    let mut builder = ADSREnvelopeBuilder::new();
    builder
        .attack(line((0.0, 0.0), (0.5, 0.8)))
        .unwrap()
        .decay(|a: &Line| line((0.0, a.to.1), (0.5, a.to.1 * 0.5)))
        .unwrap()
        .sustain(|d: &Line| line((0.0, d.to.1), (0.0, d.to.1 * 1.0)))
        .unwrap()
        .release(|s: &Line| line((0.0, s.to.1), (1.0, 0.0)))
        .unwrap();
    let curves: ADSRCurves<Line> = builder.build().unwrap();
    assert_eq!(curves.decay.from.1, 0.8);
    assert_eq!(curves.sustain.from.1, 0.4);
    assert_eq!(curves.release.from.1, 0.4);
    assert_eq!(curves.release.to, (1.0, 0.0));
    // Everything was taken out.
    assert_eq!(builder.build().err().unwrap().message(), "Attack not specified");
}

#[test]
fn adsr_build_names_the_first_missing_stage() {
    let mut builder: ADSREnvelopeBuilder<u8> = ADSREnvelopeBuilder::new();
    builder.attack(1).unwrap();
    assert_eq!(builder.build().err().unwrap().message(), "Decay not specified");
    let mut builder = ADSREnvelopeBuilder::from_curves(1u8, 2, 3, 4);
    let curves = builder.build().unwrap();
    assert_eq!((curves.attack, curves.decay, curves.sustain, curves.release), (1, 2, 3, 4));
    let mut builder: ADSREnvelopeBuilder<u8> = Default::default();
    builder.attack(1).unwrap().decay(|a: &u8| a + 1).unwrap();
    assert_eq!(builder.build().err().unwrap().message(), "Sustain not specified");
}

#[test]
fn synthesizer_builder_collects_parts() {
    let mut builder: SynthesizerBuilder<&str, u8, f32> = SynthesizerBuilder::new();
    builder.set_buffer(8).unwrap();
    builder.add_osc("sin").add_osc("triangle").add_effect(1).add_effect(2).set_sample_rate(44100);
    let synth: Synthesizer<&str, u8, f32> = builder.build().unwrap();
    assert_eq!(synth.oscillators(), &vec!["sin", "triangle"]);
    assert_eq!(synth.effects(), &vec![1, 2]);
    assert_eq!(synth.sample_rate(), 44100);
    assert_eq!(synth.get_buffer().channels(), 2);
    assert_eq!(synth.get_buffer().len(), 8);
    assert_eq!(synth.get_buffer().at(1, 7).unwrap(), 0.0);
}

#[test]
fn synthesizer_builder_names_the_missing_part() {
    let mut builder: SynthesizerBuilder<&str, u8, f32> = SynthesizerBuilder::new();
    assert!(matches!(builder.build(), Err(Error::Specify("buffer size"))));
    builder.set_buffer(4).unwrap();
    assert!(matches!(builder.build(), Err(Error::Specify("oscillators"))));
    builder.set_buffer(4).unwrap();
    builder.empty_osc();
    assert!(matches!(builder.build(), Err(Error::Specify("sample_rate"))));
    builder.set_buffer(4).unwrap();
    builder.empty_osc().set_sample_rate(48000);
    let synth = builder.build().unwrap();
    assert!(synth.oscillators().is_empty());
    assert!(synth.effects().is_empty());
}

#[test]
fn error_messages() {
    assert_eq!(Error::new("boom").message(), "boom");
    assert_eq!(Error::new(String::from("bang")).message(), "bang");
    assert_eq!(Error::Specify("envelope").message(), "Need to specify envelope first");
    assert_eq!(Error::Order("late".to_string()).message(), "late");
    assert!(matches!(Error::from("x"), Error::Generic(s) if s == "x"));
    assert!(matches!(Error::from(String::from("y")), Error::Generic(s) if s == "y"));
}

#[test]
fn building_twice_gives_the_same_samples() {
    let mut builder = SampleBufferBuilder::new();
    builder.set_channels(2).set_samples(3);
    let a: SampleBuffer<i32> = builder.build().unwrap();
    let b: SampleBuffer<i32> = builder.build().unwrap();
    for c in 0..2 {
        for i in 0..3 {
            assert_eq!(a.at(c, i).unwrap(), 0);
            assert_eq!(a.at(c, i).unwrap(), b.at(c, i).unwrap());
        }
    }
    assert!(a.at(2, 0).is_err());
}

#[test]
fn error_from_message_keeps_the_text() {
    let e = Error::from_message("boom");
    assert!(matches!(e, Error::Generic(ref s) if s == "boom"));
    assert_eq!(e.message(), "boom");
}

#[test]
fn oscillator_builder_hands_out_the_three_parts() {
    let mut builder: OscillatorBuilder<u8, &str, i32> = OscillatorBuilder::new();
    builder.set_buffer(4).set_envelope("adsr").set_wavetable(-7);
    assert_eq!(builder.build().unwrap(), (4, "adsr", -7));
    // The parts were taken out.
    assert!(matches!(builder.build(), Err(Error::Specify("samples buffer"))));
}

#[test]
fn oscillator_builder_names_the_first_missing_part() {
    let mut builder: OscillatorBuilder<u8, &str, i32> = Default::default();
    builder.set_envelope("adsr").set_wavetable(1);
    assert!(matches!(builder.build(), Err(Error::Specify("samples buffer"))));
    // Nothing was taken: the buffer alone completes it.
    builder.set_buffer(2);
    assert_eq!(builder.build().unwrap(), (2, "adsr", 1));

    builder.set_buffer(3).set_wavetable(5);
    assert_eq!(builder.build().err().unwrap().message(), "Need to specify envelope first");
    // The buffer went out with the failed build, the wavetable stayed.
    builder.set_envelope("e");
    assert!(matches!(builder.build(), Err(Error::Specify("samples buffer"))));
    builder.set_buffer(3);
    assert_eq!(builder.build().unwrap(), (3, "e", 5));

    builder.set_buffer(1).set_envelope("x");
    assert!(matches!(builder.build(), Err(Error::Specify("wavetable"))));
}

#[test]
fn adsr_builder_reports_its_stages() {
    let mut builder: ADSREnvelopeBuilder<u8> = ADSREnvelopeBuilder::new();
    assert!(!builder.has_attack() && !builder.has_decay() && !builder.has_sustain());
    builder.attack(1).unwrap();
    assert!(builder.has_attack() && !builder.has_decay());
    builder.decay(|a: &u8| a + 1).unwrap();
    assert!(builder.has_decay() && !builder.has_sustain());
    builder.sustain(|d: &u8| d + 1).unwrap();
    assert!(builder.has_attack() && builder.has_decay() && builder.has_sustain());
}

#[test]
fn error_new_keeps_a_slice_text() {
    assert!(matches!(Error::new("boom"), Error::Generic(ref s) if s == "boom"));
    assert_eq!(Error::new("boom").message(), "boom");
}
