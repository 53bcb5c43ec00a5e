use study_sessions::registry::{PresenceSnapshot, SessionRegistry};
use study_sessions::Channels;

fn channels() -> Channels {
    Channels {
        dm_backup_channel: 1,
        starboard_channel: 2,
        slacking_voice_channels: vec![9],
    }
}

fn snapshot(user_id: u64, channel_id: Option<u64>, video: bool) -> PresenceSnapshot {
    PresenceSnapshot { user_id, channel_id, self_video: video, self_stream: None }
}

#[test]
fn duplicate_start_never_resets_start_time() {
    let mut reg = SessionRegistry::new();
    reg.begin_studying(1, 0);
    reg.begin_studying(1, 100);
    let ended = reg.end_studying(1, 200);
    let state = ended.expect("session should be active");
    assert_eq!(state.start, 0);
}

#[test]
fn end_without_session_is_a_noop() {
    let mut reg = SessionRegistry::new();
    assert!(reg.end_studying(7, 10).is_none());
    reg.begin_studying(7, 20);
    assert!(reg.end_studying(7, 30).is_some());
    assert!(reg.end_studying(7, 40).is_none());
}

#[test]
fn video_toggles_accumulate_exact_deposits() {
    let mut reg = SessionRegistry::new();
    reg.begin_studying(1, 0);
    reg.video_state_update(1, true, 10);
    reg.video_state_update(1, false, 30);
    reg.video_state_update(1, true, 50);
    reg.video_state_update(1, false, 100);
    let state = reg.end_studying(1, 150).unwrap();
    assert_eq!(state.video.accumulated, 70);
    assert!(state.video.running_since.is_none());
}

#[test]
fn zero_toggles_leave_zero_video() {
    let mut reg = SessionRegistry::new();
    reg.begin_studying(1, 0);
    let state = reg.end_studying(1, 600).unwrap();
    assert_eq!(state.video.accumulated, 0);
}

#[test]
fn open_video_at_session_end_is_still_open() {
    let mut reg = SessionRegistry::new();
    reg.begin_studying(1, 0);
    reg.video_state_update(1, true, 40);
    let state = reg.end_studying(1, 100).unwrap();
    assert_eq!(state.video.running_since, Some(40));
    assert_eq!(state.video.accumulated, 0);
}

#[test]
fn duplicate_stream_on_does_not_restart_the_video_timer() {
    let mut reg = SessionRegistry::new();
    reg.begin_studying(1, 0);
    reg.video_state_update(1, true, 10);
    reg.video_state_update(1, true, 20);
    reg.video_state_update(1, false, 30);
    let state = reg.end_studying(1, 40).unwrap();
    assert_eq!(state.video.accumulated, 20);
}

#[test]
fn video_toggle_without_session_is_ignored() {
    let mut reg = SessionRegistry::new();
    reg.video_state_update(3, true, 10);
    assert!(reg.end_studying(3, 20).is_none());
}

#[test]
fn presence_event_starts_and_ends_sessions() {
    let ch = channels();
    let mut reg = SessionRegistry::new();
    let joined = snapshot(1, Some(5), false);
    let ended = reg.voice_state_update(&ch, None, &joined, 0);
    assert!(ended.is_none());
    let left = snapshot(1, None, false);
    let ended = reg.voice_state_update(&ch, Some(&joined), &left, 90);
    let state = ended.expect("leaving should end the session");
    assert_eq!(state.start, 0);
}

#[test]
fn excluded_channel_never_starts_a_session() {
    let ch = channels();
    let mut reg = SessionRegistry::new();
    let slacking = snapshot(1, Some(9), false);
    assert!(reg.voice_state_update(&ch, None, &slacking, 0).is_none());
    assert!(reg.end_studying(1, 50).is_none());
}

#[test]
fn same_event_can_end_session_and_carry_video_flag() {
    let ch = channels();
    let mut reg = SessionRegistry::new();
    let joined = snapshot(1, Some(5), false);
    reg.voice_state_update(&ch, None, &joined, 0);
    // streaming starts mid-session
    let streaming = snapshot(1, Some(5), true);
    reg.voice_state_update(&ch, Some(&joined), &streaming, 30);
    // moving to the excluded channel ends the session; the video timer is
    // still open inside the returned state
    let slacking = snapshot(1, Some(9), true);
    let state = reg.voice_state_update(&ch, Some(&streaming), &slacking, 80).unwrap();
    assert_eq!(state.video.running_since, Some(30));
}
