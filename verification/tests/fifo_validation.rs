use arctis_chatmix::clips::backend::{validate_fifo_line, FifoLineRejection};

// The filesystem's answers are given directly: the canonical line, the
// canonical storage directory, and (is a regular file, age in nanoseconds).

const STORAGE: &str = "/home/u/Videos/Clips";

fn owned(s: &str) -> Option<String> {
    Some(s.to_string())
}

#[test]
fn empty_line_is_rejected() {
    assert_eq!(validate_fifo_line("", &None, &owned(STORAGE), None), Err(FifoLineRejection::Empty));
    assert_eq!(validate_fifo_line("   \t  ", &None, &owned(STORAGE), None), Err(FifoLineRejection::Empty));
}

#[test]
fn nonexistent_path_is_rejected() {
    let line = "/home/u/Videos/Clips/nope.mp4";
    // canonicalize fails on a path that does not exist.
    assert_eq!(validate_fifo_line(line, &None, &owned(STORAGE), None), Err(FifoLineRejection::NotCanonicalizable));
    // and if it did not, the missing metadata would reject it.
    assert_eq!(validate_fifo_line(line, &owned(line), &owned(STORAGE), None), Err(FifoLineRejection::DoesNotExist));
}

#[test]
fn path_outside_storage_dir_is_rejected() {
    let evil = "/tmp/foreign/elsewhere.mp4";
    assert_eq!(
        validate_fifo_line(evil, &owned(evil), &owned(STORAGE), Some((true, Some(0)))),
        Err(FifoLineRejection::OutsideStorageDir)
    );
    let sibling = "/home/u/Videos/Clipsx/a.mp4";
    assert_eq!(
        validate_fifo_line(sibling, &owned(sibling), &owned(STORAGE), Some((true, Some(0)))),
        Err(FifoLineRejection::OutsideStorageDir)
    );
}

#[test]
fn path_traversal_is_rejected_after_canonicalization() {
    let line = "/home/u/Videos/Clips/../escape.mp4";
    assert_eq!(
        validate_fifo_line(line, &owned("/home/u/Videos/escape.mp4"), &owned(STORAGE), Some((true, Some(0)))),
        Err(FifoLineRejection::OutsideStorageDir)
    );
}

#[test]
fn non_mp4_extension_is_rejected() {
    let p = "/home/u/Videos/Clips/clip.txt";
    assert_eq!(validate_fifo_line(p, &owned(p), &owned(STORAGE), Some((true, Some(0)))), Err(FifoLineRejection::NotMp4));
}

#[test]
fn stale_mtime_is_rejected() {
    let p = "/home/u/Videos/Clips/old.mp4";
    let sixty_s = 60_000_000_000u64;
    assert_eq!(validate_fifo_line(p, &owned(p), &owned(STORAGE), Some((true, Some(sixty_s)))), Err(FifoLineRejection::Stale));
    assert_eq!(validate_fifo_line(p, &owned(p), &owned(STORAGE), Some((true, None))), Err(FifoLineRejection::Stale));
}

#[test]
fn fresh_mp4_inside_storage_is_accepted() {
    let p = "/home/u/Videos/Clips/fresh.mp4";
    let canon = validate_fifo_line(&format!(" {p}\n"), &owned(p), &owned(STORAGE), Some((true, Some(5_000_000))))
        .expect("happy path must be accepted");
    assert!(canon.ends_with("fresh.mp4"));
    assert!(canon.starts_with(STORAGE));
}

#[test]
fn directory_path_is_rejected() {
    let p = "/home/u/Videos/Clips/not-a-file.mp4";
    assert_eq!(
        validate_fifo_line(p, &owned(p), &owned(STORAGE), Some((false, Some(0)))),
        Err(FifoLineRejection::NotARegularFile)
    );
}
