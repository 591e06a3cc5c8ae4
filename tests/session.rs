use cd_resolve::failure::CdError;
use cd_resolve::pwd::{pwd, pwd_request, PwdError, PwdRequest};
use cd_resolve::failure::ErrnoCodes;
use cd_resolve::resolve::Step;
use cd_resolve::session::{cd, Session};

fn session(home: Option<&str>) -> Session {
    Session { home: home.map(|h| h.to_string()), pwd: "/start".to_string() }
}

fn args(v: &[&str]) -> Vec<String> {
    v.iter().map(|s| s.to_string()).collect()
}

#[test]
fn empty_argument_is_rejected() {
    let s = session(Some("/home/u"));
    assert!(matches!(s.cd_target(Some(String::new())), Err(CdError::EmptyPathRejected)));
    assert_eq!(s.pwd, "/start");
}

#[test]
fn no_argument_and_no_home() {
    assert!(matches!(session(None).cd_target(None), Err(CdError::NoHomeDirectory)));
    assert!(matches!(session(Some("")).cd_target(None), Err(CdError::NoHomeDirectory)));
}

#[test]
fn no_argument_goes_home() {
    assert_eq!(session(Some("/home/u")).cd_target(None).unwrap(), "/home/u");
    assert_eq!(session(None).cd_target(Some("src".to_string())).unwrap(), "src");
}

#[test]
fn commit_twice_is_same() {
    let mut s = session(Some("/home/u"));
    s.commit("/tmp/ok".to_string());
    assert_eq!(s.pwd, "/tmp/ok");
    s.commit("/tmp/ok".to_string());
    assert_eq!(s.pwd, "/tmp/ok");
    assert_eq!(s.home.as_deref(), Some("/home/u"));
}

#[test]
fn pwd_options() {
    assert_eq!(pwd_request(&args(&[])).unwrap(), PwdRequest::Print { physical: false });
    assert_eq!(pwd_request(&args(&["-P"])).unwrap(), PwdRequest::Print { physical: true });
    assert_eq!(pwd_request(&args(&["-P", "-L"])).unwrap(), PwdRequest::Print { physical: false });
    assert_eq!(pwd_request(&args(&["-LP"])).unwrap(), PwdRequest::Print { physical: true });
    assert_eq!(pwd_request(&args(&["--physical"])).unwrap(), PwdRequest::Print { physical: true });
    assert_eq!(pwd_request(&args(&["-Ph"])).unwrap(), PwdRequest::Help);
    assert_eq!(pwd_request(&args(&["--help"])).unwrap(), PwdRequest::Help);
}

#[test]
fn pwd_option_errors() {
    match pwd_request(&args(&["-x"])) {
        Err(PwdError::UnknownOption(a)) => assert_eq!(a, "-x"),
        other => panic!("unexpected {:?}", other),
    }
    match pwd_request(&args(&["--bogus"])) {
        Err(PwdError::UnknownOption(a)) => assert_eq!(a, "--bogus"),
        other => panic!("unexpected {:?}", other),
    }
    assert!(matches!(pwd_request(&args(&["-P", "extra"])), Err(PwdError::TooManyArguments(2))));
    assert!(matches!(pwd_request(&args(&["--", "-P"])), Err(PwdError::TooManyArguments(2))));
}

#[test]
fn pwd_output() {
    assert_eq!(pwd("/tmp/ok", false, None).unwrap(), "/tmp/ok");
    assert_eq!(pwd("/tmp/link", true, Some("/tmp/real".to_string())).unwrap(), "/tmp/real");
    assert!(matches!(pwd("/tmp/link", true, None), Err(PwdError::RealpathFailed)));
    assert!(matches!(pwd("", false, None), Err(PwdError::EmptyPath)));
}

#[test]
fn cd_refuses_empty_argument_before_lookup() {
    let s = session(Some("/home/u"));
    let r = cd(&s, Some(String::new()), &args(&["/srv"]), ErrnoCodes::system());
    assert!(matches!(r, Err(CdError::EmptyPathRejected)));
    assert_eq!(s.pwd, "/start");
}

#[test]
fn cd_without_home_fails() {
    let r = cd(&session(None), None, &Vec::new(), ErrnoCodes::system());
    assert!(matches!(r, Err(CdError::NoHomeDirectory)));
}

#[test]
fn cd_starts_with_first_candidate() {
    let s = session(Some("/home/u"));
    let (input, mut res, step) = cd(&s, Some("src".to_string()), &args(&["/srv", "/opt"]), ErrnoCodes::system()).unwrap();
    assert_eq!(input, "src");
    assert_eq!(res.candidates, args(&["/srv/src", "/opt/src"]));
    assert!(matches!(step, Step::Enter(ref p) if p == "/srv/src"));
    assert!(matches!(res.open_failed(libc::ENOTDIR), Step::Enter(ref p) if p == "/opt/src"));
}

#[test]
fn cd_home_when_no_argument() {
    let s = session(Some("/home/u/"));
    let (input, _res, step) = cd(&s, None, &Vec::new(), ErrnoCodes::system()).unwrap();
    assert_eq!(input, "/home/u/");
    assert!(matches!(step, Step::Enter(ref p) if p == "/home/u"));
}
