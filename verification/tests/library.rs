use arctis_chatmix::clips::library::tidy_display_name;
use arctis_chatmix::clips::library::is_clip_file;
use arctis_chatmix::clips::library::{
    backfill_durations, cap_bytes, oldest_first, parse_meta, reconcile, resolve_collision,
    serialize_meta, set_display_name, total_bytes, ClipMeta, RetentionRun,
};
use arctis_chatmix::clips::remix::remix_output_path;
use arctis_chatmix::clips::thumbnail::{thumb_dir, thumb_path};

fn meta() -> ClipMeta {
    ClipMeta {
        filename: "2026-05-08-1934-clip.mp4".into(),
        duration_ms: 60000,
        created_unix: 1715000000,
        bitrate_kbps: 25000,
        resolution: "1920x1080".into(),
        display_name: "May 6, 2024 · 2:13 PM".into(),
    }
}

#[test]
fn round_trip_one_entry() {
    let m = meta();
    let line = serialize_meta(&m);
    assert_eq!(line.split('\t').count(), 6);
    let parsed = parse_meta(&line);
    assert_eq!(parsed, Some(m));
}

#[test]
fn round_trip_empty_display_name() {
    let mut m = meta();
    m.display_name = String::new();
    let line = serialize_meta(&m);
    assert_eq!(line.split('\t').count(), 6, "trailing empty field is kept");
    assert_eq!(parse_meta(&line), Some(m));
}

#[test]
fn parse_rejects_malformed() {
    assert!(parse_meta("not enough tabs").is_none());
    assert!(parse_meta("a\tb\tc\td").is_none());
    assert!(parse_meta("a\tb\tc\td\te\tf\tg").is_none());
}

#[test]
fn parse_meta_5_field_yields_empty_display_name() {
    let old = "2026-05-08-1934-clip.mp4\t60000\t1715000000\t25000\t1920x1080";
    let m = parse_meta(old).expect("5-field line must parse");
    assert_eq!(m.filename, "2026-05-08-1934-clip.mp4");
    assert_eq!(m.duration_ms, 60000);
    assert_eq!(m.created_unix, 1715000000);
    assert_eq!(m.bitrate_kbps, 25000);
    assert_eq!(m.resolution, "1920x1080");
    assert_eq!(m.display_name, "", "old line must backfill from empty");
}

#[test]
fn parse_meta_6_field_new_shape_reads_display_name() {
    let line = "clip.mp4\t60000\t1715000000\t25000\t1920x1080\tMy Epic Win";
    let m = parse_meta(line).expect("new 6-field line must parse");
    assert_eq!(m.created_unix, 1715000000);
    assert_eq!(m.bitrate_kbps, 25000);
    assert_eq!(m.resolution, "1920x1080");
    assert_eq!(m.display_name, "My Epic Win");
}

#[test]
fn parse_meta_accepts_legacy_6_field_lines() {
    let legacy =
        "2026-05-08-1934-Apex-Legends.mp4\t60000\tApex Legends\t1715000000\t25000\t1920x1080";
    let m = parse_meta(legacy).expect("legacy 6-field line must parse");
    assert_eq!(m.filename, "2026-05-08-1934-Apex-Legends.mp4");
    assert_eq!(m.duration_ms, 60000);
    assert_eq!(m.created_unix, 1715000000);
    assert_eq!(m.bitrate_kbps, 25000);
    assert_eq!(m.resolution, "1920x1080");
    assert_eq!(m.display_name, "");
}

#[test]
fn serialize_meta_exact_line() {
    let m = meta();
    assert_eq!(
        serialize_meta(&m),
        "2026-05-08-1934-clip.mp4\t60000\t1715000000\t25000\t1920x1080\tMay 6, 2024 · 2:13 PM"
    );
}

#[test]
fn parse_meta_rejects_non_numeric_duration() {
    assert!(parse_meta("a.mp4\tlong\t1715000000\t25000\t1920x1080").is_none());
    assert!(parse_meta("a.mp4\t60000\t1715000000\tfast\t1920x1080\tname").is_none());
}

fn named(file: &str, name: &str) -> ClipMeta {
    ClipMeta {
        filename: file.into(),
        duration_ms: 1000,
        created_unix: 5,
        bitrate_kbps: 25000,
        resolution: "1920x1080".into(),
        display_name: name.into(),
    }
}

#[test]
fn reconcile_drops_missing_and_adds_new_clips() {
    let indexed = vec![named("a.mp4", "A"), named("gone.mp4", "G")];
    let disk = vec![("a.mp4".to_string(), 100u64), ("b.mp4".to_string(), 200u64)];
    let r = reconcile(&indexed, &disk);
    assert_eq!(r.len(), 2);
    assert_eq!(r[0].meta.filename, "a.mp4");
    assert_eq!(r[0].meta.display_name, "A");
    assert_eq!(r[0].name_stamp, None);
    assert_eq!(r[1].meta.filename, "b.mp4");
    assert_eq!(r[1].meta.duration_ms, 0);
    assert_eq!(r[1].meta.created_unix, 200);
    assert_eq!(r[1].meta.display_name, "");
    assert_eq!(r[1].name_stamp, Some(200));
}

#[test]
fn reconcile_backfills_empty_display_name_from_created_time() {
    let indexed = vec![named("a.mp4", "")];
    let disk = vec![("a.mp4".to_string(), 100u64)];
    let r = reconcile(&indexed, &disk);
    assert_eq!(r.len(), 1);
    assert_eq!(r[0].name_stamp, Some(5));
}

#[test]
fn backfill_fills_only_zero_durations() {
    let mut idx = vec![named("a.mp4", "A"), named("b.mp4", "B")];
    idx[1].duration_ms = 0;
    let probed = vec![Some(9999), Some(4321)];
    assert!(backfill_durations(&mut idx, &probed));
    assert_eq!(idx[0].duration_ms, 1000);
    assert_eq!(idx[1].duration_ms, 4321);
    assert!(!backfill_durations(&mut idx, &probed));
}

#[test]
fn backfill_without_probe_changes_nothing() {
    let mut idx = vec![named("a.mp4", "A")];
    idx[0].duration_ms = 0;
    assert!(!backfill_durations(&mut idx, &vec![None]));
    assert_eq!(idx[0].duration_ms, 0);
}

#[test]
fn set_display_name_renames_the_matching_entry() {
    let mut idx = vec![named("a.mp4", "A"), named("b.mp4", "B")];
    assert!(set_display_name(&mut idx, "b.mp4", "Ace"));
    assert_eq!(idx[0].display_name, "A");
    assert_eq!(idx[1].display_name, "Ace");
    assert!(!set_display_name(&mut idx, "zzz.mp4", "Nope"));
}

#[test]
fn total_and_cap_in_bytes() {
    assert_eq!(total_bytes(&vec![1, 2, 3]), 6);
    assert_eq!(total_bytes(&vec![]), 0);
    assert_eq!(cap_bytes(1), 1024 * 1024 * 1024);
    assert_eq!(cap_bytes(3), 3 * 1024 * 1024 * 1024);
}

#[test]
fn oldest_first_is_stable() {
    assert_eq!(oldest_first(&vec![30, 10, 20, 10]), vec![1, 3, 2, 0]);
    assert_eq!(oldest_first(&vec![]), Vec::<usize>::new());
}

#[test]
fn retention_skips_when_under_cap() {
    let clips = vec![(1u64, 1024u64)];
    let run = RetentionRun::new(&clips, 1024, 1);
    assert_eq!(run.next(), None);
    assert!(run.deleted().is_empty());
}

#[test]
fn retention_deletes_oldest_first_until_under_cap() {
    let gib = 1024 * 1024 * 1024u64;
    let half = 512 * 1024 * 1024u64;
    let clips = vec![(3u64, half), (1u64, half), (2u64, half)];
    let mut run = RetentionRun::new(&clips, 3 * half, 1);
    assert_eq!(run.next(), Some(1));
    run.record(true);
    assert!(3 * half - half <= gib);
    assert_eq!(run.next(), None);
    assert_eq!(run.deleted(), vec![1]);
}

#[test]
fn retention_skips_a_clip_that_could_not_be_deleted() {
    let half = 512 * 1024 * 1024u64;
    let clips = vec![(1u64, half), (2u64, half), (3u64, half)];
    let mut run = RetentionRun::new(&clips, 3 * half, 1);
    assert_eq!(run.next(), Some(0));
    run.record(false);
    assert_eq!(run.next(), Some(1));
    run.record(true);
    assert_eq!(run.next(), None);
    assert_eq!(run.deleted(), vec![1]);
}

#[test]
fn collision_appends_suffix() {
    let base = "collision-test";
    let resolved = resolve_collision(base, "mp4", |name: &str| name == "collision-test.mp4", 7);
    assert_eq!(resolved, "collision-test-2.mp4");
}

#[test]
fn collision_free_name_is_kept() {
    let resolved = resolve_collision("clip", "mp4", |_: &str| false, 7);
    assert_eq!(resolved, "clip.mp4");
}

#[test]
fn collision_skips_every_taken_number() {
    let resolved = resolve_collision(
        "clip",
        "mp4",
        |name: &str| name == "clip.mp4" || name == "clip-2.mp4" || name == "clip-3.mp4",
        7,
    );
    assert_eq!(resolved, "clip-4.mp4");
}

#[test]
fn collision_falls_back_to_pid_when_all_numbers_taken() {
    let resolved = resolve_collision("clip", "mp4", |_: &str| true, 4242);
    assert_eq!(resolved, "clip-4242.mp4");
}

#[test]
fn remix_output_path_appends_remix_suffix() {
    let out = remix_output_path("/tmp/clips/match-1.mp4");
    assert_eq!(out, "/tmp/clips/match-1-remix.mp4");
}

#[test]
fn remix_output_path_preserves_dotted_stems() {
    let out = remix_output_path("/tmp/clips/cs2.2026-05-09.mp4");
    assert_eq!(out, "/tmp/clips/cs2.2026-05-09-remix.mp4");
}

#[test]
fn thumbnails_live_in_a_hidden_directory() {
    assert_eq!(thumb_dir("/home/u/Videos/Clips"), "/home/u/Videos/Clips/.cache/thumbs");
    assert_eq!(
        thumb_path("/home/u/Videos/Clips", "a.mp4"),
        "/home/u/Videos/Clips/.cache/thumbs/a.jpg"
    );
}

#[test]
fn only_mp4_files_are_clips() {
    assert!(is_clip_file("a.mp4"));
    assert!(!is_clip_file("notes.txt"));
    assert!(!is_clip_file("thumb.jpg"));
    assert!(!is_clip_file("a.mp4.part"));
}

#[test]
fn default_labels_lose_their_padding_spaces() {
    assert_eq!(tidy_display_name("May  7, 2026 -  9:05 AM"), "May 7, 2026 - 9:05 AM");
    assert_eq!(tidy_display_name(" May 17, 2026 - 11:05 PM "), "May 17, 2026 - 11:05 PM");
    assert_eq!(tidy_display_name(""), "");
}
