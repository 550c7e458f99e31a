use arctis_chatmix::clips::backend::{
    build_gsr_args, gsr_portal_token_path, save_callback_path, save_fifo_path, truncate_for_log,
    validate_fifo_line, ArmContext, BackendAction, BackendInput, BackendSupervisor,
    FifoLineRejection, RestartLimiter, RestartOutcome, SaveLength, RESTART_WINDOW_MS,
};
use arctis_chatmix::clips::{BackendEvent, CaptureConfig, ClipCommand};

fn cfg() -> CaptureConfig {
    let mut c = CaptureConfig::default();
    c.headset_sink_monitor = "alsa_output.usb-headset.monitor".into();
    c.output_dir = "/home/u/Videos/Clips".into();
    c
}

fn pair(args: &[String], a: &str, b: &str) -> bool {
    args.windows(2).any(|w| w[0] == a && w[1] == b)
}

#[test]
fn build_args_includes_replay_buffer_seconds() {
    let args = build_gsr_args(&cfg(), "/tmp/cb.sh", "/home/u/Videos/Clips");
    assert!(pair(&args, "-r", "60"));
}

#[test]
fn build_args_uses_cbr() {
    let args = build_gsr_args(&cfg(), "/tmp/cb.sh", "/home/u/Videos/Clips");
    assert!(pair(&args, "-bm", "cbr"));
}

#[test]
fn build_args_uses_mp4_container() {
    let args = build_gsr_args(&cfg(), "/tmp/cb.sh", "/home/u/Videos/Clips");
    assert!(pair(&args, "-c", "mp4"));
}

#[test]
fn build_args_includes_six_audio_tracks_by_default() {
    let args = build_gsr_args(&cfg(), "/tmp/cb.sh", "/home/u/Videos/Clips");
    let count = args.iter().filter(|a| *a == "-a").count();
    assert_eq!(count, 6, "track 0 mix + 4 per-source + mic = 6");
}

#[test]
fn build_args_omits_per_source_when_disabled() {
    let mut c = cfg();
    c.include_per_source_tracks = false;
    let args = build_gsr_args(&c, "/tmp/cb.sh", "/home/u/Videos/Clips");
    let count = args.iter().filter(|a| *a == "-a").count();
    assert_eq!(count, 2, "track 0 mix + mic = 2");
}

#[test]
fn build_args_omits_mic_when_disabled() {
    let mut c = cfg();
    c.include_mic = false;
    let args = build_gsr_args(&c, "/tmp/cb.sh", "/home/u/Videos/Clips");
    let count = args.iter().filter(|a| *a == "-a").count();
    assert_eq!(count, 5, "track 0 mix + 4 per-source = 5");
}

#[test]
fn build_args_mic_uses_source_not_monitor() {
    let mut c = cfg();
    c.include_mic = true;
    let args = build_gsr_args(&c, "/tmp/cb.sh", "/home/u/Videos/Clips");
    assert!(args.iter().any(|a| a == "device:SteelSeries_Mic"), "got: {args:?}");
    assert!(!args.iter().any(|a| a == "device:SteelSeries_Mic.monitor"), "got: {args:?}");
}

#[test]
fn build_args_passes_save_callback_path() {
    let args = build_gsr_args(&cfg(), "/tmp/cb.sh", "/home/u/Videos/Clips");
    assert!(pair(&args, "-sc", "/tmp/cb.sh"));
}

#[test]
fn build_args_includes_portal_session_token_filepath() {
    let args = build_gsr_args(&cfg(), "/tmp/cb.sh", "/home/u/Videos/Clips");
    assert!(
        args.windows(2)
            .any(|w| w[0] == "-portal-session-token-filepath" && w[1].ends_with("gsr_portal.token")),
        "got: {args:?}"
    );
}

#[test]
fn build_args_exact_command_line() {
    let mut c = cfg();
    c.include_per_source_tracks = false;
    c.include_mic = false;
    c.bitrate_mbps = 40;
    c.framerate = 30;
    c.buffer_secs = 120;
    let args = build_gsr_args(&c, "/cb", "/out");
    let expected = vec![
        "-w", "portal", "-restore-portal-session", "yes", "-portal-session-token-filepath",
        "/home/u/Videos/Clips/.arctis/gsr_portal.token", "-r", "120", "-bm", "cbr", "-q", "40", "-k",
        "h264", "-c", "mp4", "-ac", "aac", "-f", "30", "-o", "/out", "-sc", "/cb",
        "-restart-replay-on-save", "yes", "-a", "device:alsa_output.usb-headset.monitor",
    ];
    assert_eq!(args, expected);
}

#[test]
fn fixture_paths_live_in_hidden_dir() {
    assert_eq!(save_callback_path("/v/Clips"), "/v/Clips/.arctis/save_callback.sh");
    assert_eq!(save_fifo_path("/v/Clips/"), "/v/Clips/.arctis/save.fifo");
    assert_eq!(gsr_portal_token_path(""), ".arctis/gsr_portal.token");
}

#[derive(Debug, PartialEq, Eq)]
enum Outcome {
    Idle,
    Restarted,
    Surrendered,
}

enum Step {
    UserArm,
    ChildDiedAt { offset: u64 },
}

fn simulate(start: u64, steps: &[Step]) -> Vec<(usize, Outcome)> {
    let mut limiter = RestartLimiter::new();
    let mut history = Vec::new();
    for step in steps {
        let outcome = match step {
            Step::UserArm => {
                limiter.clear();
                Outcome::Idle
            }
            Step::ChildDiedAt { offset } => match limiter.on_child_died(start + offset) {
                RestartOutcome::Restarted => Outcome::Restarted,
                RestartOutcome::Surrendered => Outcome::Surrendered,
            },
        };
        history.push((limiter.len(), outcome));
    }
    history
}

#[test]
fn first_three_failures_within_window_all_restart() {
    let h = simulate(
        1_000_000,
        &[
            Step::ChildDiedAt { offset: 0 },
            Step::ChildDiedAt { offset: 500 },
            Step::ChildDiedAt { offset: 1000 },
        ],
    );
    assert_eq!(h, vec![(1, Outcome::Restarted), (2, Outcome::Restarted), (3, Outcome::Restarted)]);
}

#[test]
fn fourth_failure_within_window_surrenders() {
    let h = simulate(
        1_000_000,
        &[
            Step::ChildDiedAt { offset: 0 },
            Step::ChildDiedAt { offset: 500 },
            Step::ChildDiedAt { offset: 1000 },
            Step::ChildDiedAt { offset: 1500 },
        ],
    );
    assert_eq!(h.last().unwrap(), &(3, Outcome::Surrendered));
}

#[test]
fn old_attempts_age_out_after_window() {
    let h = simulate(
        1_000_000,
        &[
            Step::ChildDiedAt { offset: 0 },
            Step::ChildDiedAt { offset: 500 },
            Step::ChildDiedAt { offset: RESTART_WINDOW_MS + 1000 },
        ],
    );
    assert_eq!(h[0], (1, Outcome::Restarted));
    assert_eq!(h[1], (2, Outcome::Restarted));
    assert_eq!(h[2], (1, Outcome::Restarted));
}

#[test]
fn user_arm_after_surrender_clears_the_budget() {
    let h = simulate(
        1_000_000,
        &[
            Step::ChildDiedAt { offset: 0 },
            Step::ChildDiedAt { offset: 100 },
            Step::ChildDiedAt { offset: 200 },
            Step::ChildDiedAt { offset: 300 },
            Step::UserArm,
            Step::ChildDiedAt { offset: 400 },
        ],
    );
    assert_eq!(h[3], (3, Outcome::Surrendered));
    assert_eq!(h[4], (0, Outcome::Idle));
    assert_eq!(h[5], (1, Outcome::Restarted));
}

#[test]
fn surrender_does_not_clear_deque_so_quiet_period_must_age_out_naturally() {
    let h = simulate(
        1_000_000,
        &[
            Step::ChildDiedAt { offset: 0 },
            Step::ChildDiedAt { offset: 100 },
            Step::ChildDiedAt { offset: 200 },
            Step::ChildDiedAt { offset: 300 },
            Step::ChildDiedAt { offset: 301 },
        ],
    );
    assert_eq!(h[3], (3, Outcome::Surrendered));
    assert_eq!(h[4], (3, Outcome::Surrendered));
}

#[test]
fn truncate_for_log_strips_control_chars_and_caps_length() {
    let s = "evil\x1b[2Jline\nwith\x00chars";
    let cleaned = truncate_for_log(s, 200);
    assert!(!cleaned.contains('\x1b'));
    assert!(!cleaned.contains('\n'));
    assert!(!cleaned.contains('\x00'));
    assert!(cleaned.contains("evil"));

    let long = "a".repeat(500);
    let cleaned = truncate_for_log(&long, 50);
    assert!(cleaned.ends_with('…'));
    assert_eq!(cleaned.chars().count(), 51);
}

#[test]
fn truncate_for_log_exact_output() {
    assert_eq!(truncate_for_log("ab\x1bc\u{85}d", 10), "abcd");
    assert_eq!(truncate_for_log("abcdef", 3), "abc…");
    assert_eq!(truncate_for_log("abc", 3), "abc");
}

fn some(s: &str) -> Option<String> {
    Some(s.to_string())
}

#[test]
fn fifo_line_checks_in_order() {
    let st = some("/v/Clips");
    assert_eq!(validate_fifo_line("  \t ", &None, &None, None), Err(FifoLineRejection::Empty));
    assert_eq!(
        validate_fifo_line("/v/Clips/a.mp4", &None, &st, None),
        Err(FifoLineRejection::NotCanonicalizable)
    );
    assert_eq!(
        validate_fifo_line("/v/ClipsX/a.mp4", &some("/v/ClipsX/a.mp4"), &st, Some((true, Some(0)))),
        Err(FifoLineRejection::OutsideStorageDir)
    );
    assert_eq!(
        validate_fifo_line("/v/Clips/a.txt", &some("/v/Clips/a.txt"), &st, Some((true, Some(0)))),
        Err(FifoLineRejection::NotMp4)
    );
    assert_eq!(
        validate_fifo_line("/v/Clips/.mp4", &some("/v/Clips/.mp4"), &st, Some((true, Some(0)))),
        Err(FifoLineRejection::NotMp4)
    );
    assert_eq!(
        validate_fifo_line("/v/Clips/a.mp4", &some("/v/Clips/a.mp4"), &st, None),
        Err(FifoLineRejection::DoesNotExist)
    );
    assert_eq!(
        validate_fifo_line("/v/Clips/d.mp4", &some("/v/Clips/d.mp4"), &st, Some((false, Some(0)))),
        Err(FifoLineRejection::NotARegularFile)
    );
    assert_eq!(
        validate_fifo_line("/v/Clips/a.mp4", &some("/v/Clips/a.mp4"), &st, Some((true, Some(60_000_000_000)))),
        Err(FifoLineRejection::Stale)
    );
    assert_eq!(
        validate_fifo_line("/v/Clips/a.mp4", &some("/v/Clips/a.mp4"), &st, Some((true, None))),
        Err(FifoLineRejection::Stale)
    );
    assert_eq!(
        validate_fifo_line(" /v/Clips/a.mp4\n", &some("/v/Clips/a.mp4"), &st, Some((true, Some(30_000_000_000)))),
        Ok("/v/Clips/a.mp4".to_string())
    );
}

fn events(actions: &[BackendAction]) -> Vec<String> {
    actions
        .iter()
        .map(|a| match a {
            BackendAction::Arm(_) => "arm".to_string(),
            BackendAction::Disarm => "disarm".to_string(),
            BackendAction::Save(l) => format!("save:{l:?}"),
            BackendAction::Emit(BackendEvent::Armed) => "armed".to_string(),
            BackendAction::Emit(BackendEvent::Disarmed) => "disarmed".to_string(),
            BackendAction::Emit(BackendEvent::BackendDied { reason }) => format!("died:{reason}"),
            BackendAction::Emit(BackendEvent::Error { context, message }) => format!("error:{context}:{message}"),
            BackendAction::Emit(BackendEvent::Saved { path, .. }) => format!("saved:{path}"),
            BackendAction::Exit => "exit".to_string(),
        })
        .collect()
}

#[test]
fn supervisor_arms_saves_and_restarts() {
    let mut s = BackendSupervisor::new();
    assert_eq!(events(&s.step(BackendInput::Command(ClipCommand::SaveClip))), vec![
        "error:SaveClip:Not armed; nothing to save"
    ]);
    assert_eq!(events(&s.step(BackendInput::Command(ClipCommand::StartReplay { config: cfg() }))), vec!["arm"]);
    assert_eq!(events(&s.step(BackendInput::ArmFinished(Ok(())))), vec!["armed"]);
    assert!(s.armed());
    assert_eq!(events(&s.step(BackendInput::Command(ClipCommand::SaveClipShort))), vec![format!("save:{:?}", SaveLength::Short)]);
    assert_eq!(
        events(&s.step(BackendInput::ChildExited { reason: "GSR exited".into(), now_ms: 10 })),
        vec!["died:GSR exited", "arm"]
    );
    assert_eq!(s.restart_attempts(), 1);
    assert_eq!(events(&s.step(BackendInput::ArmFinished(Err("boom".into())))), vec!["error:auto-restart:boom"]);
    assert!(!s.armed());
    assert_eq!(events(&s.step(BackendInput::Command(ClipCommand::Shutdown))), vec!["disarm", "exit"]);
}

#[test]
fn supervisor_surrenders_on_fourth_quick_death() {
    let mut s = BackendSupervisor::new();
    s.step(BackendInput::Command(ClipCommand::StartReplay { config: cfg() }));
    s.step(BackendInput::ArmFinished(Ok(())));
    for t in [0u64, 100, 200] {
        let a = s.step(BackendInput::ChildExited { reason: "r".into(), now_ms: t });
        assert_eq!(events(&a), vec!["died:r", "arm"]);
        s.step(BackendInput::ArmFinished(Ok(())));
    }
    let a = s.step(BackendInput::ChildExited { reason: "r".into(), now_ms: 300 });
    assert_eq!(events(&a), vec![
        "died:r".to_string(),
        "error:supervision:GSR died 3 times in 30s; not auto-restarting. Check 'gsr stderr' lines above for the cause.".to_string()
    ]);
    assert_eq!(s.restart_attempts(), 3);
    s.step(BackendInput::Command(ClipCommand::Reconfigure { config: cfg() }));
    assert_eq!(s.restart_attempts(), 0);
}

#[test]
fn arm_context_labels() {
    assert_eq!(ArmContext::StartReplay.label(), "StartReplay");
    assert_eq!(ArmContext::Reconfigure.label(), "Reconfigure");
    assert_eq!(ArmContext::AutoRestart.label(), "auto-restart");
}
