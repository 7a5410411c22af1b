use audiofx::error::Error;
use audiofx::frame::{FrameError, FrameIterator};

fn reads(samples: &[i32]) -> std::vec::IntoIter<Result<i32, &'static str>> {
    samples.iter().map(|s| Ok(*s)).collect::<Vec<_>>().into_iter()
}

#[test]
fn whole_frames_come_in_stream_order() {
    let mut frames = FrameIterator::new(reads(&[1, 2, 3, 4, 5, 6]), 3);
    assert_eq!(frames.next(), Some(Ok(vec![1, 2, 3])));
    assert_eq!(frames.next(), Some(Ok(vec![4, 5, 6])));
    assert_eq!(frames.next(), None);
    assert_eq!(frames.next(), None);
}

#[test]
fn n_channels_m_frames_yield_m_frames_of_n() {
    for channels in 1u16..=6 {
        for count in 0usize..=5 {
            let n = channels as usize;
            let samples: Vec<i32> = (0..(n * count) as i32).collect();
            let mut frames = FrameIterator::new(reads(&samples), channels);
            for f in 0..count {
                let frame = frames.next().unwrap().unwrap();
                assert_eq!(frame.len(), n);
                for c in 0..n {
                    assert_eq!(frame[c], (f * n + c) as i32);
                }
            }
            assert_eq!(frames.next(), None);
        }
    }
}

#[test]
fn single_channel_frames_hold_one_sample() {
    let mut frames = FrameIterator::new(reads(&[7, 8]), 1);
    assert_eq!(frames.next(), Some(Ok(vec![7])));
    assert_eq!(frames.next(), Some(Ok(vec![8])));
    assert_eq!(frames.next(), None);
}

#[test]
fn empty_stream_ends_at_once() {
    let mut frames = FrameIterator::new(reads(&[]), 2);
    assert_eq!(frames.next(), None);
}

#[test]
fn partial_last_frame_is_malformed() {
    let mut frames = FrameIterator::new(reads(&[1, 2, 3, 4, 5]), 2);
    assert_eq!(frames.next(), Some(Ok(vec![1, 2])));
    assert_eq!(frames.next(), Some(Ok(vec![3, 4])));
    assert_eq!(frames.next(), Some(Err(FrameError::Malformed)));
    assert_eq!(frames.next(), None);
}

#[test]
fn stream_shorter_than_one_frame_is_malformed() {
    let mut frames = FrameIterator::new(reads(&[9]), 4);
    assert_eq!(frames.next(), Some(Err(FrameError::Malformed)));
    assert_eq!(frames.next(), None);
}

#[test]
fn source_failure_is_handed_on() {
    let items: Vec<Result<i32, &'static str>> = vec![Ok(1), Ok(2), Ok(3), Err("truncated"), Ok(5), Ok(6)];
    let mut frames = FrameIterator::new(items.into_iter(), 2);
    assert_eq!(frames.next(), Some(Ok(vec![1, 2])));
    assert_eq!(frames.next(), Some(Err(FrameError::Source("truncated"))));
    // The failed read is consumed; what follows is cut into frames again.
    assert_eq!(frames.next(), Some(Ok(vec![5, 6])));
    assert_eq!(frames.next(), None);
}

#[test]
fn source_failure_on_first_sample_of_a_frame() {
    let items: Vec<Result<i32, u8>> = vec![Err(3)];
    let mut frames = FrameIterator::new(items.into_iter(), 2);
    assert_eq!(frames.next(), Some(Err(FrameError::Source(3))));
    assert_eq!(frames.next(), None);
}

#[test]
fn each_frame_takes_exactly_one_frame_from_the_source() {
    let mut frames = FrameIterator::new(reads(&[1, 2, 3, 4, 5, 6, 7, 8]), 2);
    assert_eq!(frames.source.len(), 8);
    frames.next();
    assert_eq!(frames.source.len(), 6);
    frames.next();
    assert_eq!(frames.source.len(), 4);
    assert_eq!(frames.channels, 2);
}

#[test]
fn frames_of_floating_point_samples() {
    let items: Vec<Result<f32, ()>> = vec![Ok(0.5), Ok(-0.25), Ok(1.0), Ok(-1.0)];
    let mut frames = FrameIterator::new(items.into_iter(), 2);
    assert_eq!(frames.next(), Some(Ok(vec![0.5f32, -0.25])));
    assert_eq!(frames.next(), Some(Ok(vec![1.0f32, -1.0])));
    assert_eq!(frames.next(), None);
}

#[test]
fn frame_failures_map_to_faults() {
    assert_eq!(FrameError::Source("gone").fault(), Error::Io);
    assert_eq!(FrameError::<()>::Malformed.fault(), Error::MalformedStream);
}
