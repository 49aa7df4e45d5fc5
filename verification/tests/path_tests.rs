use mv_core::backup::{bare_candidate, numbered_candidate, BackupPlanner};
use mv_core::errors::MvError;
use mv_core::options::{BackupChoice, Options};
use mv_core::paths::{
    bytes_eq, clone_bytes, contains_nul, ensure_trailing_slash, resolve_source,
    strip_trailing_slashes,
};

fn b(s: &str) -> Vec<u8> {
    s.as_bytes().to_vec()
}

fn plain_opts() -> Options {
    Options {
        backup: false,
        backup_choice: None,
        debug: false,
        no_copy: false,
        strip_trailing_slashes: false,
        suffix: None,
        target_directory: false,
        no_target_directory: false,
        verbose: false,
    }
}

#[test]
fn strip_removes_all_trailing_slashes() {
    assert_eq!(strip_trailing_slashes(&b("dir///")), b("dir"));
    assert_eq!(strip_trailing_slashes(&b("dir")), b("dir"));
    assert_eq!(strip_trailing_slashes(&b("a/b/")), b("a/b"));
    assert_eq!(strip_trailing_slashes(&b("///")), b(""));
    assert_eq!(strip_trailing_slashes(&b("")), b(""));
}

#[test]
fn strip_is_idempotent() {
    let once = strip_trailing_slashes(&b("x/y//"));
    let twice = strip_trailing_slashes(&once);
    assert_eq!(once, twice);
}

#[test]
fn ensure_appends_one_slash_only_if_absent() {
    assert_eq!(ensure_trailing_slash(&b("dir")), b("dir/"));
    assert_eq!(ensure_trailing_slash(&b("dir/")), b("dir/"));
    assert_eq!(ensure_trailing_slash(&b("")), b("/"));
}

#[test]
fn ensure_is_idempotent() {
    let once = ensure_trailing_slash(&b("dir"));
    let twice = ensure_trailing_slash(&once);
    assert_eq!(once, twice);
}

#[test]
fn resolve_passes_through_without_flags() {
    let opts = plain_opts();
    assert_eq!(resolve_source(&opts, &b("src///")), Ok(b("src///")));
}

#[test]
fn resolve_strips_with_strip_flag() {
    let mut opts = plain_opts();
    opts.strip_trailing_slashes = true;
    assert_eq!(resolve_source(&opts, &b("src///")), Ok(b("src")));
}

#[test]
fn resolve_strips_with_no_target_directory() {
    let mut opts = plain_opts();
    opts.no_target_directory = true;
    assert_eq!(resolve_source(&opts, &b("src/")), Ok(b("src")));
}

#[test]
fn resolve_appends_with_target_directory() {
    let mut opts = plain_opts();
    opts.target_directory = true;
    assert_eq!(resolve_source(&opts, &b("src")), Ok(b("src/")));
}

#[test]
fn stripping_wins_over_target_directory() {
    let mut opts = plain_opts();
    opts.strip_trailing_slashes = true;
    opts.target_directory = true;
    assert_eq!(resolve_source(&opts, &b("src/")), Ok(b("src")));
}

#[test]
fn resolve_rejects_embedded_nul() {
    let opts = plain_opts();
    let mut bad = b("sr");
    bad.push(0);
    bad.push(b'c');
    assert_eq!(resolve_source(&opts, &bad), Err(MvError::InvalidPath));
}

#[test]
fn nul_detection() {
    assert!(!contains_nul(&b("plain")));
    let mut bad = b("x");
    bad.push(0);
    assert!(contains_nul(&bad));
}

#[test]
fn byte_helpers() {
    assert!(bytes_eq(&b("abc"), &b("abc")));
    assert!(!bytes_eq(&b("abc"), &b("abd")));
    assert_eq!(clone_bytes(&b("abc")), b("abc"));
}

#[test]
fn candidates_are_dest_suffix_index() {
    assert_eq!(bare_candidate(&b("b.txt"), &b("~")), b("b.txt~"));
    assert_eq!(numbered_candidate(&b("b.txt"), &b("~"), 0), b("b.txt~0"));
    assert_eq!(numbered_candidate(&b("b.txt"), &b("~"), 9), b("b.txt~9"));
    assert_eq!(numbered_candidate(&b("b.txt"), &b("~"), 10), b("b.txt~10"));
    assert_eq!(numbered_candidate(&b("b.txt"), &b(".bak"), 12345), b("b.txt.bak12345"));
}

#[test]
fn effective_choice_defaults_to_existing() {
    let mut opts = plain_opts();
    assert_eq!(opts.effective_choice(), BackupChoice::Existing);
    assert!(!opts.backup_requested());
    opts.backup = true;
    assert!(opts.backup_requested());
    assert_eq!(opts.effective_choice(), BackupChoice::Existing);
    opts.backup_choice = Some(BackupChoice::Numbered);
    assert_eq!(opts.effective_choice(), BackupChoice::Numbered);
}

#[test]
fn suffix_defaults_to_tilde() {
    let mut opts = plain_opts();
    assert_eq!(opts.suffix_bytes(), b("~"));
    opts.suffix = Some(b(".bak"));
    assert_eq!(opts.suffix_bytes(), b(".bak"));
}

#[test]
fn debug_implies_logging() {
    let mut opts = plain_opts();
    assert!(!opts.log_enabled());
    opts.debug = true;
    assert!(opts.log_enabled());
    opts.debug = false;
    opts.verbose = true;
    assert!(opts.log_enabled());
}

#[test]
fn choice_labels() {
    assert_eq!(BackupChoice::NoBackup.label(), "None/Off");
    assert_eq!(BackupChoice::Numbered.label(), "Numbered/T");
    assert_eq!(BackupChoice::Existing.label(), "Existing/Nil");
    assert_eq!(BackupChoice::Simple.label(), "Simple/Never");
}

#[test]
fn error_messages() {
    assert_eq!(MvError::InvalidPath.message(), "path contains a NUL byte");
    assert_eq!(MvError::RenameFailed.message(), "rename failed and copying is disabled");
    assert_eq!(MvError::CopyFailed.message(), "copy failed");
}

#[test]
fn planner_skips_when_not_requested() {
    let opts = plain_opts();
    let planner = BackupPlanner::new(&opts, &b("b.txt"));
    assert!(!planner.is_awaiting());
    assert_eq!(planner.backup_target(), None);
}

#[test]
fn planner_skips_when_choice_is_none() {
    let mut opts = plain_opts();
    opts.backup_choice = Some(BackupChoice::NoBackup);
    let planner = BackupPlanner::new(&opts, &b("b.txt"));
    assert!(!planner.is_awaiting());
    assert_eq!(planner.backup_target(), None);
}

#[test]
fn planner_skips_when_destination_missing() {
    let mut opts = plain_opts();
    opts.backup = true;
    let mut planner = BackupPlanner::new(&opts, &b("b.txt"));
    assert_eq!(planner.current_probe(), b("b.txt"));
    planner.note_exists(false);
    assert!(!planner.is_awaiting());
    assert_eq!(planner.backup_target(), None);
}

#[test]
fn planner_existing_takes_free_bare() {
    let mut opts = plain_opts();
    opts.backup = true;
    let mut planner = BackupPlanner::new(&opts, &b("b.txt"));
    planner.note_exists(true);
    assert_eq!(planner.current_probe(), b("b.txt~"));
    planner.note_exists(false);
    assert_eq!(planner.backup_target(), Some(b("b.txt~")));
}

#[test]
fn planner_existing_probes_numbers_when_bare_taken() {
    let mut opts = plain_opts();
    opts.backup = true;
    let mut planner = BackupPlanner::new(&opts, &b("b.txt"));
    planner.note_exists(true);
    planner.note_exists(true);
    assert_eq!(planner.current_probe(), b("b.txt~0"));
    planner.note_exists(false);
    assert_eq!(planner.backup_target(), Some(b("b.txt~0")));
}

#[test]
fn planner_numbered_ignores_bare_and_counts_up() {
    let mut opts = plain_opts();
    opts.backup_choice = Some(BackupChoice::Numbered);
    let mut planner = BackupPlanner::new(&opts, &b("b.txt"));
    planner.note_exists(true);
    assert_eq!(planner.current_probe(), b("b.txt~0"));
    planner.note_exists(true);
    assert_eq!(planner.current_probe(), b("b.txt~1"));
    planner.note_exists(false);
    assert_eq!(planner.backup_target(), Some(b("b.txt~1")));
}

#[test]
fn planner_simple_goes_straight_to_bare() {
    let mut opts = plain_opts();
    opts.backup_choice = Some(BackupChoice::Simple);
    let mut planner = BackupPlanner::new(&opts, &b("b.txt"));
    planner.note_exists(true);
    assert!(!planner.is_awaiting());
    assert_eq!(planner.backup_target(), Some(b("b.txt~")));
}
