use arctis_chatmix::clips::wizard::{
    page_for, page_name, step_indicator, step_name, wizard_next, PageState, WizardNext, WizardStep,
};
use arctis_chatmix::clips::backend::SaveLength;
use arctis_chatmix::clips::browser::{format_clip_count, format_duration_ms};
use arctis_chatmix::clips::gsr_install::{
    app_store_url, info_args, install_args, status_line, InstallProgress, GSR_APP_ID,
    GSR_TERMINAL_INSTALL_COMMAND,
};
use arctis_chatmix::clips::hotkey::{shortcut_save, suggested_bindings};
use arctis_chatmix::clips::portal::load_token;
use arctis_chatmix::clips::settings::{capture_config, parse_settings, serialize_settings, ClipSettings};
use arctis_chatmix::clips::{CaptureConfig, ClipCommand};
use arctis_chatmix::desktop::{
    app_entry, app_entry_path, autostart_entry, desktop_file_path, is_enabled, needs_write, APP_ID,
};

#[test]
fn capture_config_default_is_60s_25mbps_60fps() {
    let c = CaptureConfig::default();
    assert_eq!(c.buffer_secs, 60);
    assert_eq!(c.bitrate_mbps, 25);
    assert_eq!(c.framerate, 60);
    assert!(c.include_per_source_tracks);
    assert!(c.include_mic);
}

#[test]
fn clip_command_variants_compile() {
    let _ = ClipCommand::SaveClip;
    let _ = ClipCommand::SaveClipShort;
    let _ = ClipCommand::SaveClipMedium;
    let _ = ClipCommand::SaveClipLong;
    let _ = ClipCommand::StopReplay;
    let _ = ClipCommand::Shutdown;
}

#[test]
fn capture_config_duplicate_keeps_every_field() {
    let mut c = CaptureConfig::default();
    c.portal_restore_token = Some("tok".into());
    c.headset_sink_monitor = "mon".into();
    c.output_dir = "/clips".into();
    let d = c.duplicate();
    assert_eq!(d.portal_restore_token.as_deref(), Some("tok"));
    assert_eq!(d.headset_sink_monitor, "mon");
    assert_eq!(d.output_dir, "/clips");
    assert_eq!(d.buffer_secs, 60);
}

#[test]
fn install_command_string_is_stable() {
    assert_eq!(
        GSR_TERMINAL_INSTALL_COMMAND,
        "flatpak install --user flathub com.dec05eba.gpu_screen_recorder"
    );
}

#[test]
fn app_id_is_canonical() {
    assert_eq!(GSR_APP_ID, "com.dec05eba.gpu_screen_recorder");
}

#[test]
fn flatpak_arguments() {
    assert_eq!(info_args(), vec!["info", "com.dec05eba.gpu_screen_recorder"]);
    assert_eq!(
        install_args(),
        vec![
            "install",
            "--user",
            "--noninteractive",
            "--assumeyes",
            "flathub",
            "com.dec05eba.gpu_screen_recorder"
        ]
    );
    assert_eq!(app_store_url(), "appstream://com.dec05eba.gpu_screen_recorder");
}

#[test]
fn installer_status_lines_are_trimmed_and_blank_ones_dropped() {
    match status_line("  Installing 1/2…  \n") {
        Some(InstallProgress::Status(s)) => assert_eq!(s, "Installing 1/2…"),
        other => panic!("unexpected {other:?}"),
    }
    assert!(status_line("   ").is_none());
}

#[test]
fn formats_seconds_only() {
    assert_eq!(format_duration_ms(32_000), "0:32");
    assert_eq!(format_duration_ms(5_000), "0:05");
    assert_eq!(format_duration_ms(0), "0:00");
}

#[test]
fn formats_minutes_and_seconds() {
    assert_eq!(format_duration_ms(65_000), "1:05");
    assert_eq!(format_duration_ms(60_000), "1:00");
    assert_eq!(format_duration_ms(125_000), "2:05");
}

#[test]
fn rounds_down_sub_second_remainder() {
    assert_eq!(format_duration_ms(32_900), "0:32");
}

#[test]
fn formats_over_ten_minutes() {
    assert_eq!(format_duration_ms(630_000), "10:30");
}

#[test]
fn clip_count_singular_vs_plural() {
    assert_eq!(format_clip_count(0), "0 clips");
    assert_eq!(format_clip_count(1), "1 clip");
    assert_eq!(format_clip_count(2), "2 clips");
    assert_eq!(format_clip_count(42), "42 clips");
}

#[test]
fn defaults_are_60s_25mbps() {
    let s = ClipSettings::default();
    assert_eq!(s.buffer_length, 60);
    assert_eq!(s.bitrate_mbps, 25);
    assert!(s.auto_arm);
    assert!(!s.always_armed);
    assert!(s.per_source_tracks);
    assert!(s.mic_capture);
}

#[test]
fn onboarding_complete_round_trips() {
    let mut s = ClipSettings::default();
    assert!(!s.onboarding_complete, "default is false");
    s.onboarding_complete = true;
    assert!(s.onboarding_complete);
}

#[test]
fn settings_defaults_use_home_videos_clips() {
    let s = ClipSettings::with_home("/home/u");
    assert_eq!(s.storage_path, "/home/u/Videos/Clips");
    assert_eq!(s.disk_cap_gb, None);
}

#[test]
fn settings_file_round_trips() {
    let mut s = ClipSettings::with_home("/home/u");
    s.buffer_length = 120;
    s.bitrate_mbps = 40;
    s.auto_arm = false;
    s.always_armed = true;
    s.mic_capture = false;
    s.storage_path = "/data/clips".into();
    s.disk_cap_gb = Some(20);
    s.onboarding_complete = true;
    let text = serialize_settings(&s);
    assert_eq!(
        text,
        "buffer_length=120\nbitrate_mbps=40\nauto_arm=0\nalways_armed=1\nper_source_tracks=1\n\
         mic_capture=0\nstorage_path=/data/clips\ndisk_cap_gb=20\nonboarding_complete=1\n"
    );
    let back = parse_settings(&text, "/elsewhere");
    assert_eq!(back.buffer_length, 120);
    assert_eq!(back.bitrate_mbps, 40);
    assert!(!back.auto_arm);
    assert!(back.always_armed);
    assert!(back.per_source_tracks);
    assert!(!back.mic_capture);
    assert_eq!(back.storage_path, "/data/clips");
    assert_eq!(back.disk_cap_gb, Some(20));
    assert!(back.onboarding_complete);
}

#[test]
fn settings_ignore_unknown_keys_and_bad_numbers() {
    let s = parse_settings("buffer_length=abc\nfoo=bar\n  bitrate_mbps = 10 \nno equals\n", "/h");
    assert_eq!(s.buffer_length, 60);
    assert_eq!(s.bitrate_mbps, 10);
    assert_eq!(s.storage_path, "/h/Videos/Clips");
    let s = parse_settings("disk_cap_gb=5\ndisk_cap_gb=x\n", "/h");
    assert_eq!(s.disk_cap_gb, None);
}

#[test]
fn token_round_trip() {
    assert_eq!(load_token("test-token-12345").as_deref(), Some("test-token-12345"));
    assert_eq!(load_token("  tok \n").as_deref(), Some("tok"));
    assert!(load_token("").is_none());
    assert!(load_token(" \n ").is_none());
}

#[test]
fn portal_shortcuts() {
    let b = suggested_bindings();
    assert_eq!(b.len(), 4);
    assert_eq!(b[0].id, "save-clip");
    assert_eq!(b[0].preferred_trigger, "ALT+S");
    assert_eq!(b[3].id, "save-clip-long");
    assert_eq!(shortcut_save("save-clip"), Some(SaveLength::Full));
    assert_eq!(shortcut_save("save-clip-short"), Some(SaveLength::Short));
    assert_eq!(shortcut_save("save-clip-medium"), Some(SaveLength::Medium));
    assert_eq!(shortcut_save("save-clip-long"), Some(SaveLength::Long));
    assert_eq!(shortcut_save("other"), None);
}

#[test]
fn autostart_path_prefers_xdg_config_home() {
    assert_eq!(
        desktop_file_path(Some("/xdg"), Some("/home/u")).as_deref(),
        Some("/xdg/autostart/com.github.arctis_chatmix.ArctisNovaEliteChatMix.desktop")
    );
    assert_eq!(
        desktop_file_path(None, Some("/home/u")).as_deref(),
        Some("/home/u/.config/autostart/com.github.arctis_chatmix.ArctisNovaEliteChatMix.desktop")
    );
    assert_eq!(desktop_file_path(None, None), None);
}

#[test]
fn autostart_enabled_only_when_file_exists() {
    assert!(!is_enabled(None, |_: &str| true));
    assert!(is_enabled(Some("/a"), |p: &str| p == "/a"));
    assert!(!is_enabled(Some("/a"), |_: &str| false));
}

#[test]
fn desktop_entries_hold_expected_keys() {
    let e = autostart_entry("/usr/bin/chatmix");
    assert!(e.starts_with("[Desktop Entry]\n"));
    assert!(e.contains("Exec=/usr/bin/chatmix --hidden\n"));
    assert!(e.contains("X-GNOME-Autostart-enabled=true\n"));
    let a = app_entry("/usr/bin/chatmix");
    assert!(a.contains("Exec=/usr/bin/chatmix\n"));
    assert!(a.contains("NoDisplay=true\n"));
    assert_eq!(
        app_entry_path("/home/u", APP_ID),
        "/home/u/.local/share/applications/com.github.arctis_chatmix.ArctisNovaEliteChatMix.desktop"
    );
    assert!(needs_write(None, &a));
    assert!(!needs_write(Some(&a), &a));
    assert!(needs_write(Some("old"), &a));
}

#[test]
fn capture_config_follows_the_settings() {
    let mut s = ClipSettings::with_home("/home/u");
    s.buffer_length = 90;
    s.bitrate_mbps = 12;
    s.per_source_tracks = false;
    s.mic_capture = false;
    let c = capture_config(&s, "alsa_output.x.monitor");
    assert_eq!(c.buffer_secs, 90);
    assert_eq!(c.bitrate_mbps, 12);
    assert_eq!(c.framerate, 60);
    assert!(c.portal_restore_token.is_none());
    assert_eq!(c.headset_sink_monitor, "alsa_output.x.monitor");
    assert!(!c.include_per_source_tracks);
    assert!(!c.include_mic);
    assert_eq!(c.output_dir, "/home/u/Videos/Clips");
}

#[test]
fn clips_page_view_and_wizard_steps() {
    assert_eq!(page_for(false, 12), PageState::Onboarding);
    assert_eq!(page_for(true, 0), PageState::Empty);
    assert_eq!(page_for(true, 3), PageState::Loaded);
    assert_eq!(page_name(PageState::Remix), "remix");
    assert_eq!(step_name(WizardStep::PickScreen), "wizard-2-screen");
    assert_eq!(step_indicator(WizardStep::Settings), "Step 3 of 3");
    assert_eq!(wizard_next(WizardStep::InstallGsr), WizardNext::Step(WizardStep::PickScreen));
    assert_eq!(wizard_next(WizardStep::PickScreen), WizardNext::CompleteOnboarding);
    assert_eq!(wizard_next(WizardStep::Settings), WizardNext::Finish);
}
