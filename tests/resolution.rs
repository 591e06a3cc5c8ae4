use cd_resolve::failure::{CdError, ErrnoCodes, Failure, FailureRecord};
use cd_resolve::message::{error_message, render_message};
use cd_resolve::resolve::{Resolver, Step};

fn codes() -> ErrnoCodes {
    ErrnoCodes {
        not_found: libc::ENOENT,
        not_a_directory: libc::ENOTDIR,
        too_many_links: libc::ELOOP,
        access_denied: libc::EACCES,
        not_permitted: libc::EPERM,
    }
}

fn strings(v: &[&str]) -> Vec<String> {
    v.iter().map(|s| s.to_string()).collect()
}

fn expect_enter(s: Step) -> String {
    match s {
        Step::Enter(p) => p,
        other => panic!("expected Enter, got {:?}", other),
    }
}

fn expect_fail(s: Step) -> CdError {
    match s {
        Step::Fail(e) => e,
        other => panic!("expected Fail, got {:?}", other),
    }
}

#[test]
fn missing_directory_reports_does_not_exist() {
    let (mut r, s) = Resolver::new(strings(&["/tmp/x"]), codes());
    assert_eq!(expect_enter(s), "/tmp/x");
    let s = r.open_failed(libc::ENOENT);
    match s {
        Step::ReadLink(p) => assert_eq!(p, "/tmp/x"),
        other => panic!("expected ReadLink, got {:?}", other),
    }
    let e = expect_fail(r.link_read(None));
    assert!(matches!(e, CdError::NotFound));
    assert_eq!(error_message("cd", "/tmp/x", &e), "cd: The directory '/tmp/x' does not exist");
}

#[test]
fn broken_symlink_names_link_and_target() {
    let (mut r, s) = Resolver::new(strings(&["/tmp/link"]), codes());
    expect_enter(s);
    assert!(matches!(r.open_failed(libc::ENOENT), Step::ReadLink(_)));
    let e = expect_fail(r.link_read(Some("/tmp/missing".to_string())));
    let msg = error_message("cd", "/tmp/link", &e);
    assert_eq!(msg, "cd: '/tmp/link' is a broken symbolic link to '/tmp/missing'");
    assert!(msg.contains("/tmp/link") && msg.contains("/tmp/missing"));
}

#[test]
fn regular_file_is_not_a_directory() {
    let (mut r, s) = Resolver::new(strings(&["/tmp/file"]), codes());
    expect_enter(s);
    let e = expect_fail(r.open_failed(libc::ENOTDIR));
    let msg = error_message("cd", "/tmp/file", &e);
    assert!(msg.contains("is not a directory"));
    assert_eq!(msg, "cd: '/tmp/file' is not a directory");
}

#[test]
fn real_directory_is_committed() {
    let (mut r, s) = Resolver::new(strings(&["/tmp/ok"]), codes());
    assert_eq!(expect_enter(s), "/tmp/ok");
    match r.entered() {
        Step::Commit(p) => assert_eq!(p, "/tmp/ok"),
        other => panic!("expected Commit, got {:?}", other),
    }
}

#[test]
fn committed_path_is_normalized() {
    let (mut r, s) = Resolver::new(strings(&["/tmp//ok/./sub/.."]), codes());
    assert_eq!(expect_enter(s), "/tmp/ok");
    match r.entered() {
        Step::Commit(p) => assert_eq!(p, "/tmp/ok"),
        other => panic!("expected Commit, got {:?}", other),
    }
}

#[test]
fn first_success_stops_the_search() {
    let (mut r, s) = Resolver::new(strings(&["/a", "/b", "/c"]), codes());
    assert_eq!(expect_enter(s), "/a");
    assert!(matches!(r.open_failed(libc::EACCES), Step::Enter(ref p) if p == "/b"));
    match r.entered() {
        Step::Commit(p) => assert_eq!(p, "/b"),
        other => panic!("expected Commit, got {:?}", other),
    }
}

#[test]
fn not_a_directory_wins_in_either_order() {
    for order in [[libc::ENOTDIR, libc::ENOENT], [libc::ENOENT, libc::ENOTDIR]] {
        let (mut r, s) = Resolver::new(strings(&["/a/x", "/b/x"]), codes());
        expect_enter(s);
        let mut step = r.open_failed(order[0]);
        if let Step::ReadLink(_) = step {
            step = r.link_read(None);
        }
        expect_enter(step);
        let mut step = r.open_failed(order[1]);
        if let Step::ReadLink(_) = step {
            step = r.link_read(None);
        }
        assert!(matches!(expect_fail(step), CdError::NotADirectory));
    }
}

#[test]
fn broken_symlink_reported_when_not_first() {
    let (mut r, s) = Resolver::new(strings(&["/a/x", "/b/x", "/c/x"]), codes());
    expect_enter(s);
    assert!(matches!(r.open_failed(libc::ENOENT), Step::ReadLink(_)));
    expect_enter(r.link_read(None));
    assert!(matches!(r.open_failed(libc::ENOENT), Step::ReadLink(_)));
    expect_enter(r.link_read(Some("/nowhere".to_string())));
    // once a broken link is known, later missing entries are not read as links
    let e = expect_fail(r.open_failed(libc::ENOENT));
    match e {
        CdError::BrokenSymlink { path, target } => {
            assert_eq!(path, "/b/x");
            assert_eq!(target, "/nowhere");
        }
        other => panic!("expected BrokenSymlink, got {:?}", other),
    }
}

#[test]
fn empty_candidate_list_fails_at_once() {
    let (_r, s) = Resolver::new(Vec::new(), codes());
    let e = expect_fail(s);
    assert!(matches!(e, CdError::NoCandidateResolved));
    assert_eq!(error_message("cd", "nowhere", &e), "cd: The directory 'nowhere' does not exist");
}

#[test]
fn first_other_failure_is_kept() {
    let (mut r, s) = Resolver::new(strings(&["/a", "/b"]), codes());
    expect_enter(s);
    expect_enter(r.open_failed(libc::ELOOP));
    let e = expect_fail(r.open_failed(libc::EACCES));
    assert!(matches!(e, CdError::TooManySymlinks));
    assert_eq!(error_message("cd", "x", &e), "cd: Too many levels of symbolic links: 'x'");
}

#[test]
fn permission_denied_beats_missing_entry() {
    let (mut r, s) = Resolver::new(strings(&["/a", "/b"]), codes());
    expect_enter(s);
    expect_enter(r.open_failed(libc::EPERM));
    assert!(matches!(r.open_failed(libc::ENOENT), Step::ReadLink(_)));
    let e = expect_fail(r.link_read(None));
    assert!(matches!(e, CdError::PermissionDenied));
    assert_eq!(error_message("cd", "x", &e), "cd: Permission denied: 'x'");
}

#[test]
fn unknown_code_is_reported_with_system_text() {
    let (mut r, s) = Resolver::new(strings(&["/a"]), codes());
    expect_enter(s);
    let e = expect_fail(r.open_failed(libc::EIO));
    assert!(matches!(e, CdError::UnknownOsError(c) if c == libc::EIO));
    let msg = error_message("cd", "x", &e);
    let text = errno::Errno(libc::EIO).to_string();
    assert!(!text.is_empty());
    assert_eq!(msg, format!("cd: {}\ncd: Unknown error trying to locate directory 'x'", text));
    assert_eq!(
        render_message("cd", "x", &e, "I/O error"),
        "cd: I/O error\ncd: Unknown error trying to locate directory 'x'"
    );
}

#[test]
fn classify_codes() {
    let c = codes();
    assert_eq!(c.classify(libc::ENOENT), Failure::NotFound);
    assert_eq!(c.classify(libc::ENOTDIR), Failure::NotADirectory);
    assert_eq!(c.classify(libc::ELOOP), Failure::TooManySymlinks);
    assert_eq!(c.classify(libc::EACCES), Failure::PermissionDenied);
    assert_eq!(c.classify(libc::EPERM), Failure::PermissionDenied);
    assert_eq!(c.classify(libc::EIO), Failure::Other(libc::EIO));
}

#[test]
fn system_codes_match_libc() {
    let c = ErrnoCodes::system();
    assert_eq!(c.not_found, libc::ENOENT);
    assert_eq!(c.not_a_directory, libc::ENOTDIR);
    assert_eq!(c.too_many_links, libc::ELOOP);
    assert_eq!(c.access_denied, libc::EACCES);
    assert_eq!(c.not_permitted, libc::EPERM);
}

#[test]
fn record_keeps_first_broken_link() {
    let mut rec = FailureRecord::new();
    assert!(rec.wants_link(Failure::NotFound));
    assert!(!rec.wants_link(Failure::NotADirectory));
    rec.absorb("/a".to_string(), Failure::NotFound, Some("/t1".to_string()));
    assert!(!rec.wants_link(Failure::NotFound));
    rec.absorb("/b".to_string(), Failure::NotFound, Some("/t2".to_string()));
    assert_eq!(rec.best, Some(Failure::NotFound));
    assert_eq!(rec.broken_symlink, Some(("/a".to_string(), "/t1".to_string())));
    rec.absorb("/c".to_string(), Failure::NotADirectory, None);
    assert_eq!(rec.best, Some(Failure::NotADirectory));
    // not a directory outranks the broken link at selection time
    assert!(matches!(rec.diagnosis(), CdError::NotADirectory));
}

#[test]
fn broken_link_outranks_too_many_links() {
    let mut rec = FailureRecord::new();
    rec.absorb("/a".to_string(), Failure::TooManySymlinks, None);
    rec.absorb("/b".to_string(), Failure::NotFound, Some("/t".to_string()));
    assert!(matches!(rec.diagnosis(), CdError::BrokenSymlink { .. }));
}

#[test]
fn empty_record_reports_not_found() {
    let rec = FailureRecord::new();
    assert!(matches!(rec.diagnosis(), CdError::NotFound));
}

#[test]
fn message_texts() {
    assert_eq!(error_message("cd", "", &CdError::NoHomeDirectory), "cd: Could not find home directory");
    assert_eq!(error_message("cd", "", &CdError::EmptyPathRejected), "cd: Empty directory '' does not exist");
}
