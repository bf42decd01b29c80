use bridge::frame::kind_of_name;
use bridge::frame::FrameSlot;
use bridge::frame::MediaKind;
use bridge::frame::RawFrameRelay;
use bridge::frame::AUDIO_TIMEOUT_MS;
use bridge::frame::VIDEO_TIMEOUT_MS;

#[test]
fn take_returns_bytes_of_most_recent_update() {
    let mut relay = RawFrameRelay::new();
    relay.set_enabled(MediaKind::Video, true);
    relay.update(MediaKind::Video, vec![9, 9], 0);
    relay.update(MediaKind::Video, vec![1, 2, 3], 10);
    let prev: Vec<u8> = Vec::new();
    let mut dst: Vec<u8> = Vec::new();
    let got = relay.take(MediaKind::Video, &prev, 20, &mut dst);
    assert_eq!(got, Some(()));
    assert_eq!(dst, vec![1, 2, 3]);
}

#[test]
fn stale_take_returns_nothing_but_keeps_bytes_unconsumed() {
    let mut slot = FrameSlot::new(100);
    slot.set_enabled(true);
    slot.update(vec![5, 6], 0);
    let prev: Vec<u8> = Vec::new();
    let mut dst: Vec<u8> = vec![42];
    // 101 ms after the update: too old to deliver.
    assert_eq!(slot.take(&prev, 101, &mut dst), None);
    assert_eq!(dst, vec![42]);
    // The slot still holds the bytes: a take exactly at the timeout would
    // have delivered them, and staleness is checked again at read time.
    assert!(slot.is_stale(101));
    assert!(!slot.is_stale(100));
}

#[test]
fn take_at_timeout_boundary_still_delivers() {
    let mut slot = FrameSlot::new(100);
    slot.set_enabled(true);
    slot.update(vec![7], 0);
    let prev: Vec<u8> = Vec::new();
    let mut dst: Vec<u8> = Vec::new();
    assert_eq!(slot.take(&prev, 100, &mut dst), Some(()));
    assert_eq!(dst, vec![7]);
}

#[test]
fn second_take_without_update_returns_nothing() {
    let mut slot = FrameSlot::new(100);
    slot.set_enabled(true);
    slot.update(vec![1, 2], 0);
    let prev: Vec<u8> = Vec::new();
    let mut dst: Vec<u8> = Vec::new();
    assert_eq!(slot.take(&prev, 1, &mut dst), Some(()));
    assert_eq!(dst, vec![1, 2]);
    // The successful take consumed the slot.
    assert_eq!(slot.take(&dst.clone(), 2, &mut dst), None);
    assert_eq!(dst, vec![1, 2]);
}

#[test]
fn duplicate_bytes_are_suppressed() {
    let mut slot = FrameSlot::new(100);
    slot.set_enabled(true);
    slot.update(vec![1, 2], 0);
    // The consumer already saw exactly these bytes.
    let prev: Vec<u8> = vec![1, 2];
    let mut dst: Vec<u8> = Vec::new();
    assert_eq!(slot.take(&prev, 1, &mut dst), None);
    assert_eq!(dst, Vec::<u8>::new());
    // The suppressed frame was still consumed.
    let none: Vec<u8> = Vec::new();
    assert_eq!(slot.take(&none, 2, &mut dst), None);
}

#[test]
fn disable_clears_pending_frame_until_reenabled() {
    let mut slot = FrameSlot::new(100);
    slot.set_enabled(true);
    slot.update(vec![1, 2, 3], 0);
    slot.set_enabled(false);
    let prev: Vec<u8> = Vec::new();
    let mut dst: Vec<u8> = Vec::new();
    // The frame stored just before disabling is gone.
    assert_eq!(slot.take(&prev, 1, &mut dst), None);
    // Updates while disabled are dropped.
    slot.update(vec![4], 2);
    assert_eq!(slot.take(&prev, 3, &mut dst), None);
    // Re-enabling starts from an empty slot.
    slot.set_enabled(true);
    assert_eq!(slot.take(&prev, 4, &mut dst), None);
    slot.update(vec![5], 5);
    assert_eq!(slot.take(&prev, 6, &mut dst), Some(()));
    assert_eq!(dst, vec![5]);
}

#[test]
fn video_scenario_fresh_then_stale() {
    let mut relay = RawFrameRelay::new();
    relay.set_enabled(MediaKind::Video, true);
    let prev: Vec<u8> = Vec::new();
    let mut dst: Vec<u8> = Vec::new();
    // Take 50 ms after the update, on the 100 ms video timeout.
    relay.update(MediaKind::Video, vec![1, 2, 3], 0);
    assert_eq!(relay.take(MediaKind::Video, &prev, 50, &mut dst), Some(()));
    assert_eq!(dst, vec![1, 2, 3]);
    // A frame that has sat for 150 ms is not delivered.
    relay.update(MediaKind::Video, vec![1, 2, 3], 200);
    let mut dst2: Vec<u8> = Vec::new();
    assert_eq!(relay.take(MediaKind::Video, &prev, 350, &mut dst2), None);
    assert_eq!(dst2, Vec::<u8>::new());
}

#[test]
fn audio_outlives_video_timeout() {
    assert_eq!(VIDEO_TIMEOUT_MS, 100);
    assert_eq!(AUDIO_TIMEOUT_MS, 1000);
    let mut relay = RawFrameRelay::new();
    relay.set_enabled(MediaKind::Audio, true);
    relay.update(MediaKind::Audio, vec![8], 0);
    let prev: Vec<u8> = Vec::new();
    let mut dst: Vec<u8> = Vec::new();
    // 500 ms is stale for video but fresh for audio.
    assert_eq!(relay.take(MediaKind::Audio, &prev, 500, &mut dst), Some(()));
    assert_eq!(dst, vec![8]);
}

#[test]
fn kinds_are_independent() {
    let mut relay = RawFrameRelay::new();
    relay.set_enabled(MediaKind::Video, true);
    relay.set_enabled(MediaKind::Audio, true);
    relay.update(MediaKind::Video, vec![1], 0);
    relay.update(MediaKind::Audio, vec![2], 0);
    relay.set_enabled(MediaKind::Video, false);
    let prev: Vec<u8> = Vec::new();
    let mut dst: Vec<u8> = Vec::new();
    assert_eq!(relay.take(MediaKind::Video, &prev, 1, &mut dst), None);
    assert_eq!(relay.take(MediaKind::Audio, &prev, 1, &mut dst), Some(()));
    assert_eq!(dst, vec![2]);
}

#[test]
fn slot_names_resolve_to_kinds() {
    assert_eq!(kind_of_name("video"), Some(MediaKind::Video));
    assert_eq!(kind_of_name("audio"), Some(MediaKind::Audio));
    assert_eq!(kind_of_name("subtitles"), None);
    assert_eq!(kind_of_name(""), None);
}

#[test]
fn enable_by_name_only_touches_named_slot() {
    let mut relay = RawFrameRelay::new();
    relay.set_enabled_by_name("video", true);
    relay.update(MediaKind::Video, vec![3], 0);
    relay.update(MediaKind::Audio, vec![4], 0);
    let prev: Vec<u8> = Vec::new();
    let mut dst: Vec<u8> = Vec::new();
    // Audio was never enabled, so its update was dropped.
    assert_eq!(relay.take(MediaKind::Audio, &prev, 1, &mut dst), None);
    assert_eq!(relay.take(MediaKind::Video, &prev, 1, &mut dst), Some(()));
    assert_eq!(dst, vec![3]);
    // An unknown name changes nothing.
    relay.update(MediaKind::Video, vec![6], 2);
    relay.set_enabled_by_name("unknown", false);
    assert_eq!(relay.take(MediaKind::Video, &prev, 3, &mut dst), Some(()));
    assert_eq!(dst, vec![6]);
}
