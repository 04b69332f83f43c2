use karl::error::Error;
use karl::host::{heartbeat_due, Backend, ComputeAction, ComputeEvent, Host, RequestToken, Token, HEARTBEAT_INTERVAL};

fn init_host() -> Host {
    Host::new("/tmp/karl".to_string(), Backend::Binary, 8080, "1.2.3.4:8000")
}

/// Helper function to get token from host.
fn get_token(host: &Host) -> Option<RequestToken> {
    host.request_token()
}

/// Helper function to set token in host.
fn set_token(host: &mut Host, token: &Token) {
    host.set_request_token(token.clone());
}

#[test]
fn no_active_token_fails() {
    let mut h = init_host();
    let token = Token("abc".to_string());
    assert!(get_token(&h).is_none());
    assert!(h.use_request_token(&token).is_err());
}

#[test]
fn non_matching_token_fails() {
    let mut h = init_host();
    let token1 = Token("abc".to_string());
    let token2 = Token("def".to_string());
    set_token(&mut h, &token1);
    assert!(get_token(&h).is_some());
    assert!(h.use_request_token(&token2).is_err(), "non matching token fails");
    assert!(h.use_request_token(&token1).is_ok(), "matching token succeeds");
}

#[test]
fn matching_token_invalidates_old_token() {
    let mut h = init_host();
    let token = Token("abc".to_string());
    set_token(&mut h, &token);
    assert!(get_token(&h).is_some());
    assert!(h.use_request_token(&token).is_ok(), "token succeeds the first time");
    assert!(get_token(&h).is_none());
    assert!(h.use_request_token(&token).is_err(), "token fails the second time");
}

#[test]
fn refused_token_errors_name_the_reason() {
    let mut h = init_host();
    match h.use_request_token(&Token("abc".to_string())) {
        Err(Error::InvalidRequestToken(m)) => assert_eq!(m, "no active token"),
        _ => panic!("expected an invalid token error"),
    }
    set_token(&mut h, &Token("abc".to_string()));
    match h.use_request_token(&Token("abd".to_string())) {
        Err(Error::InvalidRequestToken(m)) => assert_eq!(m, "tokens do not match"),
        _ => panic!("expected an invalid token error"),
    }
    // A refused token leaves the active one in place.
    assert_eq!(get_token(&h).unwrap().0, "abc");
}

#[test]
fn renewed_token_is_admitted_once() {
    let mut h = init_host();
    let t = h.renew_token();
    assert_eq!(get_token(&h).unwrap().0, t.0);
    assert!(!t.0.is_empty());
    assert!(t.0.chars().all(|c| c.is_ascii_digit()));
    assert!(t.0.parse::<u64>().is_ok());
    assert!(h.use_request_token(&Token("other".to_string())).is_err());
    assert!(h.use_request_token(&t).is_ok());
    assert!(h.use_request_token(&t).is_err());
}

#[test]
fn host_paths_and_settings() {
    let mut h = Host::new("/home/me/.karl".to_string(), Backend::Wasm, 0, "10.0.0.1:59582");
    assert_eq!(h.karl_path(), "/home/me/.karl");
    assert_eq!(h.base_path(), format!("/home/me/.karl/{}", h.id()));
    assert_eq!(h.backend(), Backend::Wasm);
    assert_eq!(h.port(), 0);
    assert_eq!(h.controller(), "10.0.0.1:59582");
    h.set_port(4321);
    assert_eq!(h.port(), 4321);
    let h2 = Host::new("/k/".to_string(), Backend::Binary, 1, "c");
    assert_eq!(h2.base_path(), format!("/k/{}", h2.id()));
}

#[test]
fn fresh_host_sends_no_heartbeat() {
    let mut h = init_host();
    assert!(h.heartbeat().is_none());
    assert!(get_token(&h).is_none());
    set_token(&mut h, &Token("abc".to_string()));
    // The token was just set, so no heartbeat is due yet.
    assert!(h.heartbeat().is_none());
    assert_eq!(get_token(&h).unwrap().0, "abc");
}

#[test]
fn heartbeat_due_after_interval() {
    assert_eq!(HEARTBEAT_INTERVAL, 10);
    assert!(!heartbeat_due(true, 10, 0));
    assert!(heartbeat_due(true, 10, 1));
    assert!(heartbeat_due(true, 11, 0));
    assert!(!heartbeat_due(true, 9, 999_999_999));
    assert!(!heartbeat_due(false, 100, 0));
    assert!(!heartbeat_due(false, 0, 0));
}

#[test]
fn token_equality_compares_text() {
    assert!(Token("abc".to_string()) == Token("abc".to_string()));
    assert!(Token("abc".to_string()) != Token("abd".to_string()));
    let t = Token::gen();
    assert!(t.clone() == t);
}

#[test]
fn heartbeat_after_interval_renews_token() {
    let mut h = init_host();
    // No active token: no heartbeat, however long ago.
    assert!(h.heartbeat_after(100, 0).is_none());
    assert!(get_token(&h).is_none());
    set_token(&mut h, &Token("abc".to_string()));
    assert!(h.heartbeat_after(10, 0).is_none());
    assert_eq!(get_token(&h).unwrap().0, "abc");
    let t = h.heartbeat_after(10, 1).unwrap();
    assert_eq!(get_token(&h).unwrap().0, t.0);
    assert_ne!(t.0, "abc");
}

#[test]
fn refused_compute_request_changes_nothing() {
    let mut h = init_host();
    match h.compute_step::<u32>(ComputeEvent::Request(Token("abc".to_string()))) {
        ComputeAction::Refuse(Error::InvalidRequestToken(m)) => assert_eq!(m, "no active token"),
        _ => panic!("expected a refusal"),
    }
    assert!(get_token(&h).is_none());
    set_token(&mut h, &Token("abc".to_string()));
    match h.compute_step::<u32>(ComputeEvent::Request(Token("def".to_string()))) {
        ComputeAction::Refuse(Error::InvalidRequestToken(m)) => assert_eq!(m, "tokens do not match"),
        _ => panic!("expected a refusal"),
    }
    assert_eq!(get_token(&h).unwrap().0, "abc");
}

#[test]
fn admitted_compute_request_runs_then_renews_token() {
    let mut h = init_host();
    set_token(&mut h, &Token("abc".to_string()));
    assert!(matches!(
        h.compute_step::<u32>(ComputeEvent::Request(Token("abc".to_string()))),
        ComputeAction::StartAndRun
    ));
    assert!(get_token(&h).is_none());
    // Even a failed computation ends with a fresh token.
    match h.compute_step::<u32>(ComputeEvent::Done(Err(Error::UnknownError("failed".to_string())))) {
        ComputeAction::EndAndReply(t, Err(Error::UnknownError(m))) => {
            assert_eq!(m, "failed");
            assert_eq!(get_token(&h).unwrap().0, t.0);
            assert_ne!(t.0, "abc");
            assert!(matches!(h.compute_step::<u32>(ComputeEvent::Request(t.clone())), ComputeAction::StartAndRun));
        },
        _ => panic!("expected the end of the computation"),
    }
    match h.compute_step(ComputeEvent::Done(Ok(5u32))) {
        ComputeAction::EndAndReply(_t, Ok(v)) => assert_eq!(v, 5),
        _ => panic!("expected the end of the computation"),
    }
}
