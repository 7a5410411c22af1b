use std::io::{Cursor, Read, Seek, Write};

use audiofx::accumulate::Accumulator;
use audiofx::error::Error;
use audiofx::frame::FrameIterator;
use audiofx::gain::GainVector;
use audiofx::measurement::Measurement;
use audiofx::orchestrator::{Action, Event, Phase};
use audiofx::settings::{Analyzer, GainRule, Mode, Settings};
use audiofx::stream::StreamSpec;
use hound::{SampleFormat, WavReader, WavSpec, WavWriter};

fn float_spec(channels: u16) -> WavSpec {
    WavSpec { channels, sample_rate: 8000, bits_per_sample: 32, sample_format: SampleFormat::Float }
}

fn wave_of(spec: WavSpec, samples: &[f32]) -> Vec<u8> {
    let mut file = Cursor::new(Vec::new());
    let mut writer = WavWriter::new(&mut file, spec).unwrap();
    for sample in samples {
        writer.write_sample(*sample).unwrap();
    }
    writer.finalize().unwrap();
    file.into_inner()
}

fn samples_of(wave: Vec<u8>) -> (WavSpec, Vec<f32>) {
    let mut reader = WavReader::new(Cursor::new(wave)).unwrap();
    let samples = reader.samples::<f32>().map(|s| s.unwrap()).collect();
    (reader.spec(), samples)
}

fn gain(rule: GainRule, target: f64, measured: f64) -> Option<f32> {
    let ratio = 10.0f64.powf(target / rule.decibel_divisor as f64) / measured;
    let gain = (if rule.square_root { ratio.sqrt() } else { ratio }) as f32;
    if measured == 0.0 || !gain.is_finite() {
        None
    } else {
        Some(gain)
    }
}

fn rms<R: Read>(input: &mut WavReader<R>, stream: StreamSpec, independent: bool) -> Result<(Measurement<f64>, usize), Error> {
    let layout = stream.layout(independent);
    let mut frames = FrameIterator::new(input.samples::<f32>(), stream.channels);
    let mut squares = Accumulator::new(layout, 0.0f64);
    while let Some(frame) = frames.next() {
        let frame = frame.map_err(|failure| failure.fault())?;
        squares.add_frame(&frame, |sum: f64, s: f32| sum + s as f64 * s as f64)?;
    }
    let count = squares.frames();
    let per_slot = layout.samples_per_slot(count as u64).ok_or(Error::MalformedStream)?;
    let values = squares.finish().map(|sum: &f64| if per_slot == 0 { 0.0 } else { (sum / per_slot as f64).sqrt() });
    Ok((values, count))
}

/// A whole run from one wave stream to another. Returns the phase in which
/// the run ended beside its outcome.
fn normalize<R: Read + Seek, W: Write + Seek>(
    settings: &Settings<f64>,
    mut input: WavReader<R>,
    output: WavWriter<W>,
) -> (Phase, Result<(), Error>) {
    let spec = input.spec();
    let stream = match StreamSpec::new(spec.channels, spec.sample_rate) {
        Ok(stream) => stream,
        Err(fault) => return (Phase::Measuring, Err(fault)),
    };
    let mut run = match settings.normalize(stream, input.duration() as usize) {
        Ok(run) => run,
        Err(fault) => return (Phase::Measuring, Err(fault)),
    };
    let layout = run.layout();
    let mut measurement = None;
    let mut gains = None;
    let mut frame = Vec::new();
    let mut sink = Some(output);
    let mut action = run.pending();
    loop {
        let event = match action {
            Action::Analyze(Analyzer::Rms { channel_independent }) => match rms(&mut input, stream, channel_independent) {
                Ok((values, frames)) => {
                    measurement = Some(values);
                    Event::Measured { frames }
                }
                Err(fault) => Event::Fault(fault),
            },
            Action::Analyze(Analyzer::Loudness { .. }) => Event::Fault(Error::Unimplemented),
            Action::ResolveGains(rule) => {
                let resolved = measurement.as_ref().unwrap().resolve(|x: &f64| gain(rule, settings.target, *x));
                match resolved.and_then(|slots| GainVector::broadcast(&slots, layout)) {
                    Ok(vector) => {
                        gains = Some(vector);
                        Event::GainsResolved
                    }
                    Err(fault) => Event::Fault(fault),
                }
            }
            Action::Rewind => match input.seek(0) {
                Ok(()) => Event::Rewound,
                Err(_) => Event::Fault(Error::Io),
            },
            Action::ReadFrame => match FrameIterator::new(input.samples::<f32>(), stream.channels).next() {
                None => Event::EndOfStream,
                Some(Ok(read)) => {
                    frame = read;
                    Event::FrameRead
                }
                Some(Err(failure)) => Event::Fault(failure.fault()),
            },
            Action::WriteFrame => {
                let scaled = gains.as_ref().unwrap().apply(&frame, |s: f32, g: f32| s * g).unwrap();
                let writer = sink.as_mut().unwrap();
                if scaled.into_iter().all(|sample| writer.write_sample(sample).is_ok()) {
                    Event::FrameWritten
                } else {
                    Event::Fault(Error::Io)
                }
            }
            Action::Finalize => match sink.take().unwrap().finalize() {
                Ok(()) => Event::Finalized,
                Err(_) => Event::Fault(Error::Io),
            },
            Action::Complete => return (run.phase(), Ok(())),
            Action::Abort(fault) => return (run.phase(), Err(fault)),
        };
        action = run.step(event);
    }
}

fn normalize_wave(settings: &Settings<f64>, wave: Vec<u8>) -> (Phase, Result<Vec<u8>, Error>) {
    let input = WavReader::new(Cursor::new(wave)).unwrap();
    let mut out = Cursor::new(Vec::new());
    let writer = WavWriter::new(&mut out, input.spec()).unwrap();
    let (phase, outcome) = normalize(settings, input, writer);
    (phase, outcome.map(|()| out.into_inner()))
}

#[test]
fn wave_file_is_normalized_per_channel() {
    let wave = wave_of(float_spec(2), &[1.0, 2.0, 1.0, 2.0, 1.0, 2.0, 1.0, 2.0]);
    let settings = Settings::new(Mode::Rms, 0.0f64, true, false);
    let (phase, output) = normalize_wave(&settings, wave);
    assert_eq!(phase, Phase::Done);
    let (spec, samples) = samples_of(output.unwrap());
    assert_eq!(spec, float_spec(2));
    assert_eq!(samples, vec![1.0; 8]);
}

#[test]
fn wave_file_is_normalized_linked() {
    let wave = wave_of(float_spec(2), &[1.0, 2.0, 1.0, 2.0, 1.0, 2.0, 1.0, 2.0]);
    let settings = Settings::new(Mode::Rms, 0.0f64, false, false);
    let (phase, output) = normalize_wave(&settings, wave);
    assert_eq!(phase, Phase::Done);
    let (spec, samples) = samples_of(output.unwrap());
    assert_eq!(spec, float_spec(2));
    let factor = (1.0 / 2.5f64.sqrt()) as f32;
    assert_eq!(samples, vec![factor, 2.0 * factor, factor, 2.0 * factor, factor, 2.0 * factor, factor, 2.0 * factor]);
}

#[test]
fn wave_file_keeps_its_stream_spec_and_length() {
    let source: Vec<f32> = (0..300).map(|i| (i % 17) as f32 / 20.0 - 0.4).collect();
    for channels in [1u16, 2, 3] {
        let wave = wave_of(float_spec(channels), &source);
        for independent in [false, true] {
            let settings = Settings::new(Mode::Rms, -12.0f64, independent, false);
            let (_, output) = normalize_wave(&settings, wave.clone());
            let (spec, samples) = samples_of(output.unwrap());
            assert_eq!(spec, float_spec(channels));
            assert_eq!(samples.len(), source.len());
        }
    }
}

#[test]
fn silent_wave_file_is_degenerate() {
    let wave = wave_of(float_spec(2), &[0.0; 64]);
    for independent in [false, true] {
        let settings = Settings::new(Mode::Rms, -3.0f64, independent, false);
        let (phase, output) = normalize_wave(&settings, wave.clone());
        assert_eq!(output, Err(Error::DegenerateMeasurement));
        assert_eq!(phase, Phase::GainResolved);
    }
}

#[test]
fn empty_wave_file_is_degenerate() {
    let wave = wave_of(float_spec(2), &[]);
    let settings = Settings::new(Mode::Rms, -3.0f64, true, false);
    let (phase, output) = normalize_wave(&settings, wave);
    assert_eq!(output, Err(Error::DegenerateMeasurement));
    assert_eq!(phase, Phase::Measuring);
}

#[test]
fn amplitude_mode_reads_nothing_from_a_wave_file() {
    let wave = wave_of(float_spec(2), &[1.0, 2.0]);
    let settings = Settings::new(Mode::Amplitude, 0.0f64, true, false);
    let (phase, output) = normalize_wave(&settings, wave);
    assert_eq!(output, Err(Error::Unimplemented));
    assert_eq!(phase, Phase::Measuring);
}

#[test]
fn integer_wave_file_fails_at_the_first_read() {
    let spec = WavSpec { channels: 2, sample_rate: 8000, bits_per_sample: 16, sample_format: SampleFormat::Int };
    let mut file = Cursor::new(Vec::new());
    let mut writer = WavWriter::new(&mut file, spec).unwrap();
    for sample in [1i16, 2, 3, 4] {
        writer.write_sample(sample).unwrap();
    }
    writer.finalize().unwrap();
    let settings = Settings::new(Mode::Rms, 0.0f64, true, false);
    let (phase, output) = normalize_wave(&settings, file.into_inner());
    assert_eq!(output, Err(Error::Io));
    assert_eq!(phase, Phase::Measuring);
}

#[test]
fn truncated_wave_file_fails_with_the_source() {
    let mut wave = wave_of(float_spec(2), &[1.0, 2.0, 1.0, 2.0]);
    // Cut the last sample short: the header still announces four samples.
    wave.truncate(wave.len() - 2);
    let settings = Settings::new(Mode::Rms, 0.0f64, true, false);
    let (phase, output) = normalize_wave(&settings, wave);
    assert_eq!(output, Err(Error::Io));
    assert_eq!(phase, Phase::Measuring);
}

#[test]
fn frames_are_cut_from_a_wave_reader() {
    let wave = wave_of(float_spec(3), &[1.0, 2.0, 3.0, 4.0, 5.0, 6.0]);
    let mut reader = WavReader::new(Cursor::new(wave)).unwrap();
    {
        let mut frames = FrameIterator::new(reader.samples::<f32>(), 3);
        assert_eq!(frames.next().unwrap().unwrap(), vec![1.0, 2.0, 3.0]);
    }
    // Exactly one frame was taken: a second iterator goes on from there.
    let mut frames = FrameIterator::new(reader.samples::<f32>(), 3);
    assert_eq!(frames.source.len(), 3);
    assert_eq!(frames.next().unwrap().unwrap(), vec![4.0, 5.0, 6.0]);
    assert!(frames.next().is_none());
}
