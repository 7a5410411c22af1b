use audiofx::error::Error;
use audiofx::progress::Progress;
use audiofx::stream::{ChannelLayout, StreamSpec};

#[test]
fn stream_spec_keeps_channels_and_rate() {
    let spec = StreamSpec::new(2, 48000).unwrap();
    assert_eq!(spec.channels, 2);
    assert_eq!(spec.sample_rate, 48000);
}

#[test]
fn stream_without_channels_is_malformed() {
    assert_eq!(StreamSpec::new(0, 48000), Err(Error::MalformedStream));
}

#[test]
fn stream_without_rate_is_malformed() {
    assert_eq!(StreamSpec::new(2, 0), Err(Error::MalformedStream));
    assert_eq!(StreamSpec::new(0, 0), Err(Error::MalformedStream));
}

#[test]
fn layout_of_a_stream() {
    let spec = StreamSpec::new(5, 8000).unwrap();
    assert_eq!(spec.layout(true), ChannelLayout { channels: 5, independent: true });
    assert_eq!(spec.layout(false), ChannelLayout { channels: 5, independent: false });
}

#[test]
fn independent_channels_have_a_slot_each() {
    let layout = ChannelLayout { channels: 3, independent: true };
    assert_eq!(layout.slots(), 3);
    assert_eq!(layout.slot_of(0), 0);
    assert_eq!(layout.slot_of(1), 1);
    assert_eq!(layout.slot_of(2), 2);
}

#[test]
fn linked_channels_share_slot_zero() {
    let layout = ChannelLayout { channels: 3, independent: false };
    assert_eq!(layout.slots(), 1);
    assert_eq!(layout.slot_of(0), 0);
    assert_eq!(layout.slot_of(1), 0);
    assert_eq!(layout.slot_of(2), 0);
}

#[test]
fn samples_per_slot_counts_frames_or_all_samples() {
    let independent = ChannelLayout { channels: 2, independent: true };
    let linked = ChannelLayout { channels: 2, independent: false };
    assert_eq!(independent.samples_per_slot(4), Some(4));
    assert_eq!(linked.samples_per_slot(4), Some(8));
    assert_eq!(independent.samples_per_slot(0), Some(0));
    assert_eq!(linked.samples_per_slot(0), Some(0));
}

#[test]
fn samples_per_slot_reports_overflow() {
    let linked = ChannelLayout { channels: 2, independent: false };
    assert_eq!(linked.samples_per_slot(u64::MAX), None);
    assert_eq!(linked.samples_per_slot(u64::MAX / 2), Some(u64::MAX - 1));
    let independent = ChannelLayout { channels: 2, independent: true };
    assert_eq!(independent.samples_per_slot(u64::MAX), Some(u64::MAX));
}

#[test]
fn progress_counts_up_by_one() {
    let mut progress = Progress::new(3);
    assert_eq!(progress.total(), 3);
    assert_eq!(progress.count(), 0);
    assert_eq!(progress.next(), 1);
    assert_eq!(progress.next(), 2);
    assert_eq!(progress.next(), 3);
    assert_eq!(progress.count(), 3);
    assert_eq!(progress.total(), 3);
}

#[test]
fn progress_may_pass_its_total() {
    let mut progress = Progress::new(1);
    assert_eq!(progress.next(), 1);
    assert_eq!(progress.next(), 2);
    assert_eq!(progress.total(), 1);
}

#[test]
fn percent_is_rounded_down() {
    let mut progress = Progress::new(3);
    assert_eq!(progress.percent(), 0);
    progress.next();
    assert_eq!(progress.percent(), 33);
    progress.next();
    assert_eq!(progress.percent(), 66);
    progress.next();
    assert_eq!(progress.percent(), 100);
    progress.next();
    assert_eq!(progress.percent(), 100);
}

#[test]
fn nothing_expected_is_complete() {
    assert_eq!(Progress::new(0).percent(), 100);
}

#[test]
fn percent_of_a_large_total() {
    let mut progress = Progress::new(usize::MAX);
    assert_eq!(progress.percent(), 0);
    progress.next();
    assert_eq!(progress.percent(), 0);
}
