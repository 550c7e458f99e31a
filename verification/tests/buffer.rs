use arctis_chatmix::clips::buffer::{BufferController, BufferState};
use arctis_chatmix::clips::{BackendEvent, CaptureConfig, ClipCommand};

fn base_cfg() -> CaptureConfig {
    CaptureConfig::default()
}

/// The next command sent, as a receiver's `try_recv` would give it.
fn recv(q: &mut Vec<ClipCommand>) -> Option<ClipCommand> {
    if q.is_empty() {
        None
    } else {
        Some(q.remove(0))
    }
}

#[test]
fn starts_in_uninitialized() {
    let b = BufferController::new(base_cfg());
    assert_eq!(b.state(), BufferState::Uninitialized);
}

#[test]
fn portal_pick_transitions_to_idle_when_onboarding_incomplete() {
    let mut tx = Vec::new();
    let mut b = BufferController::new(base_cfg());
    b.on_portal_pick_complete("token".into(), &mut tx);
    assert_eq!(b.state(), BufferState::Idle);
    assert!(recv(&mut tx).is_none(), "no StartReplay before onboarding finishes");
}

#[test]
fn portal_pick_arms_when_onboarding_complete() {
    let mut tx = Vec::new();
    let mut b = BufferController::new(base_cfg());
    b.set_onboarding_complete(true, &mut tx);
    b.on_portal_pick_complete("token".into(), &mut tx);
    assert_eq!(b.state(), BufferState::Arming);
    assert!(matches!(recv(&mut tx), Some(ClipCommand::StartReplay { .. })));
}

#[test]
fn portal_pick_does_not_arm_when_onboarding_incomplete() {
    let mut tx = Vec::new();
    let mut b = BufferController::new(base_cfg());
    b.on_portal_pick_complete("token".into(), &mut tx);
    assert_eq!(b.state(), BufferState::Idle, "stays Idle until wizard finishes");
    assert!(recv(&mut tx).is_none(), "no StartReplay sent");
}

#[test]
fn set_onboarding_complete_arms_idle_buffer() {
    let mut tx = Vec::new();
    let mut b = BufferController::new(base_cfg());
    b.on_portal_pick_complete("token".into(), &mut tx);
    assert_eq!(b.state(), BufferState::Idle);
    b.set_onboarding_complete(true, &mut tx);
    assert_eq!(b.state(), BufferState::Arming);
    assert!(matches!(recv(&mut tx), Some(ClipCommand::StartReplay { .. })));
}

#[test]
fn save_hotkey_only_works_in_armed() {
    let mut tx = Vec::new();
    let mut b = BufferController::new(base_cfg());
    b.on_save_hotkey(&mut tx);
    assert!(recv(&mut tx).is_none(), "no command in non-Armed state");
}

#[test]
fn save_hotkey_in_armed_sends_save_clip() {
    let mut tx = Vec::new();
    let mut b = BufferController::new(base_cfg());
    b.set_onboarding_complete(true, &mut tx);
    b.on_portal_pick_complete("t".into(), &mut tx);
    let _ = recv(&mut tx);
    b.on_backend_event(&BackendEvent::Armed, &mut tx);
    assert_eq!(b.state(), BufferState::Armed);
    b.on_save_hotkey(&mut tx);
    assert_eq!(b.state(), BufferState::Saving);
    assert!(matches!(recv(&mut tx), Some(ClipCommand::SaveClip)));
}

#[test]
fn save_hotkey_duration_in_armed_sends_specific_variant() {
    let mut tx = Vec::new();
    let mut b = BufferController::new(base_cfg());
    b.set_onboarding_complete(true, &mut tx);
    b.on_portal_pick_complete("t".into(), &mut tx);
    let _ = recv(&mut tx);
    b.on_backend_event(&BackendEvent::Armed, &mut tx);
    assert_eq!(b.state(), BufferState::Armed);
    b.on_save_hotkey_duration(ClipCommand::SaveClipMedium, &mut tx);
    assert_eq!(b.state(), BufferState::Saving);
    assert!(matches!(recv(&mut tx), Some(ClipCommand::SaveClipMedium)));

    let mut tx2 = Vec::new();
    let mut b2 = BufferController::new(base_cfg());
    b2.on_save_hotkey_duration(ClipCommand::SaveClipShort, &mut tx2);
    assert!(recv(&mut tx2).is_none());
}

#[test]
fn disarmed_during_arming_is_ignored() {
    let mut tx = Vec::new();
    let mut b = BufferController::new(base_cfg());
    b.set_onboarding_complete(true, &mut tx);
    b.on_portal_pick_complete("t".into(), &mut tx);
    assert_eq!(b.state(), BufferState::Arming);
    b.on_backend_event(&BackendEvent::Disarmed, &mut tx);
    assert_eq!(b.state(), BufferState::Arming);
    b.on_backend_event(&BackendEvent::Armed, &mut tx);
    assert_eq!(b.state(), BufferState::Armed);
}

#[test]
fn portal_reset_returns_to_uninitialized() {
    let mut tx = Vec::new();
    let mut b = BufferController::new(base_cfg());
    b.set_onboarding_complete(true, &mut tx);
    b.on_portal_pick_complete("t".into(), &mut tx);
    let _ = recv(&mut tx);
    b.on_backend_event(&BackendEvent::Armed, &mut tx);
    assert_eq!(b.state(), BufferState::Armed);
    b.on_portal_reset(&mut tx);
    assert_eq!(b.state(), BufferState::Uninitialized);
    assert!(matches!(recv(&mut tx), Some(ClipCommand::StopReplay)));
}

#[test]
fn config_change_during_saving_is_deferred() {
    let mut tx = Vec::new();
    let mut b = BufferController::new(base_cfg());
    b.set_onboarding_complete(true, &mut tx);
    b.on_portal_pick_complete("t".into(), &mut tx);
    let _ = recv(&mut tx);
    b.on_backend_event(&BackendEvent::Armed, &mut tx);
    b.on_save_hotkey(&mut tx);
    let _ = recv(&mut tx);
    assert_eq!(b.state(), BufferState::Saving);
    let mut new_cfg = base_cfg();
    new_cfg.bitrate_mbps = 40;
    b.on_config_change(new_cfg, &mut tx);
    assert!(recv(&mut tx).is_none());
    b.on_backend_event(
        &BackendEvent::Saved { path: "/tmp/c.mp4".to_string(), duration_ms: 60_000 },
        &mut tx,
    );
    assert_eq!(b.state(), BufferState::Armed);
    assert!(matches!(recv(&mut tx), Some(ClipCommand::Reconfigure { .. })));
}

#[test]
fn save_during_pause_does_not_rearm() {
    let mut tx = Vec::new();
    let mut b = BufferController::new(base_cfg());
    b.set_onboarding_complete(true, &mut tx);
    b.on_portal_pick_complete("t".into(), &mut tx);
    let _ = recv(&mut tx);
    b.on_backend_event(&BackendEvent::Armed, &mut tx);
    b.on_save_hotkey(&mut tx);
    let _ = recv(&mut tx);
    assert_eq!(b.state(), BufferState::Saving);
    b.user_paused_set(true);
    b.on_backend_event(
        &BackendEvent::Saved { path: "/tmp/c.mp4".to_string(), duration_ms: 60_000 },
        &mut tx,
    );
    assert_eq!(b.state(), BufferState::Paused);
    assert!(matches!(recv(&mut tx), Some(ClipCommand::StopReplay)));
}

#[test]
fn pause_from_armed_transitions_to_paused() {
    let mut bc = BufferController::new(CaptureConfig::default());
    bc.has_portal_pick = true;
    bc.set_state_for_test(BufferState::Armed);
    assert_eq!(bc.state(), BufferState::Armed);
    bc.pause();
    assert_eq!(bc.state(), BufferState::Paused);
    assert!(bc.user_paused());
}

#[test]
fn resume_from_paused_to_idle() {
    let mut tx = Vec::new();
    let mut bc = BufferController::new(CaptureConfig::default());
    bc.has_portal_pick = true;
    bc.set_state_for_test(BufferState::Idle);
    bc.pause();
    assert_eq!(bc.state(), BufferState::Paused);
    bc.resume(&mut tx);
    assert_eq!(bc.state(), BufferState::Idle);
    assert!(!bc.user_paused());
}

#[test]
fn pause_clears_pending_reconfigure() {
    let mut bc = BufferController::new(CaptureConfig::default());
    bc.has_portal_pick = true;
    bc.set_state_for_test(BufferState::Armed);
    bc.set_pending_reconfigure_for_test(true);
    bc.pause();
    assert!(!bc.pending_reconfigure());
}

#[test]
fn maybe_arm_respects_user_paused() {
    let mut tx = Vec::new();
    let mut bc = BufferController::new(CaptureConfig::default());
    bc.has_portal_pick = true;
    bc.set_onboarding_complete(true, &mut tx);
    bc.user_paused_set(true);
    assert!(!bc.should_arm(), "user_paused must suppress arming");
    bc.user_paused_set(false);
    assert!(bc.should_arm(), "should_arm true when all gates satisfied");
}

#[test]
fn resume_re_arms_immediately() {
    let mut tx = Vec::new();
    let mut bc = BufferController::new(CaptureConfig::default());
    bc.has_portal_pick = true;
    bc.set_onboarding_complete(true, &mut tx);
    bc.set_state_for_test(BufferState::Idle);
    bc.pause();
    assert_eq!(bc.state(), BufferState::Paused);
    bc.resume(&mut tx);
    assert_eq!(bc.state(), BufferState::Arming, "resume must re-evaluate maybe_arm");
    assert!(matches!(recv(&mut tx), Some(ClipCommand::StartReplay { .. })));
}

#[test]
fn pause_from_uninitialized_is_a_noop() {
    let mut bc = BufferController::new(CaptureConfig::default());
    bc.pause();
    assert_eq!(bc.state(), BufferState::Uninitialized, "pause must not strand the user");
    assert!(!bc.user_paused());
}

#[test]
fn error_state_recovers_via_retry_and_re_arms() {
    let mut tx = Vec::new();
    let mut bc = BufferController::new(CaptureConfig::default());
    bc.has_portal_pick = true;
    bc.set_onboarding_complete(true, &mut tx);
    let _ = recv(&mut tx);
    bc.set_state_for_test(BufferState::ErrorState);
    assert_eq!(bc.state(), BufferState::ErrorState);
    bc.retry(&mut tx);
    assert_eq!(bc.state(), BufferState::Arming);
    assert!(matches!(recv(&mut tx), Some(ClipCommand::StartReplay { .. })));
}

#[test]
fn arming_uses_the_configured_capture_settings() {
    let mut tx = Vec::new();
    let mut c = base_cfg();
    c.bitrate_mbps = 40;
    c.output_dir = "/clips".to_string();
    let mut b = BufferController::new(c);
    b.set_onboarding_complete(true, &mut tx);
    b.on_portal_pick_complete("tok".into(), &mut tx);
    match recv(&mut tx) {
        Some(ClipCommand::StartReplay { config }) => {
            assert_eq!(config.bitrate_mbps, 40);
            assert_eq!(config.output_dir, "/clips");
            assert_eq!(config.portal_restore_token.as_deref(), Some("tok"));
        }
        other => panic!("expected StartReplay, got {other:?}"),
    }
}

#[test]
fn backend_death_moves_to_error_state() {
    let mut tx = Vec::new();
    let mut b = BufferController::new(base_cfg());
    b.set_onboarding_complete(true, &mut tx);
    b.on_portal_pick_complete("t".into(), &mut tx);
    b.on_backend_event(&BackendEvent::Armed, &mut tx);
    b.on_backend_event(&BackendEvent::BackendDied { reason: "x".into() }, &mut tx);
    assert_eq!(b.state(), BufferState::ErrorState);
}

#[test]
fn toggle_pauses_resumes_and_retries() {
    let mut tx = Vec::new();
    let mut b = BufferController::new(base_cfg());
    b.set_onboarding_complete(true, &mut tx);
    b.on_portal_pick_complete("token".into(), &mut tx);
    tx.clear();
    b.set_state_for_test(BufferState::Armed);
    b.toggle_pause(&mut tx);
    assert_eq!(b.state(), BufferState::Paused);
    assert!(matches!(recv(&mut tx), Some(ClipCommand::PauseRecording)));
    b.toggle_pause(&mut tx);
    assert_eq!(b.state(), BufferState::Arming);
    assert!(matches!(recv(&mut tx), Some(ClipCommand::StartReplay { .. })));
    assert!(matches!(recv(&mut tx), Some(ClipCommand::ResumeRecording)));
    b.set_state_for_test(BufferState::ErrorState);
    b.toggle_pause(&mut tx);
    assert_eq!(b.state(), BufferState::Arming);
    assert!(matches!(recv(&mut tx), Some(ClipCommand::StartReplay { .. })));
    assert!(recv(&mut tx).is_none());
}

#[test]
fn portal_pick_flag_accessors() {
    let mut bc = BufferController::new(base_cfg());
    assert!(!bc.has_portal_pick());
    bc.set_has_portal_pick(true);
    assert!(bc.has_portal_pick());
    assert_eq!(bc.state(), BufferState::Uninitialized);
}

#[test]
fn paused_buffer_records_nothing_until_resumed() {
    let mut tx = Vec::new();
    let mut bc = BufferController::new(base_cfg());
    bc.set_onboarding_complete(true, &mut tx);
    bc.on_portal_pick_complete("t".into(), &mut tx);
    bc.on_backend_event(&BackendEvent::Armed, &mut tx);
    assert_eq!(bc.state(), BufferState::Armed);
    tx.clear();
    bc.pause();
    bc.on_save_hotkey(&mut tx);
    bc.on_config_change(base_cfg(), &mut tx);
    bc.on_backend_event(&BackendEvent::Armed, &mut tx);
    bc.set_onboarding_complete(false, &mut tx);
    bc.set_onboarding_complete(true, &mut tx);
    bc.retry(&mut tx);
    assert!(tx.is_empty());
    assert_eq!(bc.state(), BufferState::Paused);
    bc.resume(&mut tx);
    assert!(matches!(recv(&mut tx), Some(ClipCommand::StartReplay { .. })));
}
