use runbeam_cli::error::AuthError;
use runbeam_cli::jwt::UserInfo;
use runbeam_cli::login::{
    max_poll_attempts, step, CheckLoginResponse, LoginAction, LoginEvent, LoginState, StartLoginResponse,
    POLL_INTERVAL_SECS,
};

const NOW: i64 = 1_700_000_000;

fn started(expires_in_seconds: i64) -> LoginEvent {
    LoginEvent::StartAnswered {
        status: 200,
        body: String::new(),
        answer: Some(StartLoginResponse {
            device_token: "dtok".to_string(),
            verification_url: "https://x/y".to_string(),
            expires_in_seconds,
        }),
        now: NOW,
    }
}

fn answer(status: &str) -> CheckLoginResponse {
    CheckLoginResponse { status: status.to_string(), token: None, expires_in: None, user: None, message: None }
}

fn polled(a: CheckLoginResponse) -> LoginEvent {
    LoginEvent::Polled { status: 200, body: String::new(), answer: Some(a), now: NOW }
}

/// Runs a login from the start through `start` and the browser step.
fn into_polling(expires_in_seconds: i64) -> LoginState {
    let (s, a) = step(LoginState::NotStarted, LoginEvent::CredentialChecked { stored: false });
    assert!(matches!(a, LoginAction::StartLogin));
    let (s, a) = step(s, started(expires_in_seconds));
    match a {
        LoginAction::OpenBrowser { url } => assert_eq!(url, "https://x/y"),
        _ => panic!("expected the browser to be opened"),
    }
    let (s, a) = step(s, LoginEvent::BrowserTried { opened: false });
    match a {
        LoginAction::Poll { device_token } => assert_eq!(device_token, "dtok"),
        _ => panic!("expected a poll"),
    }
    s
}

#[test]
fn max_attempts_from_lifetime() {
    assert_eq!(max_poll_attempts(12, 5), 4);
    assert_eq!(max_poll_attempts(10, POLL_INTERVAL_SECS), 4);
    assert_eq!(max_poll_attempts(0, 5), 2);
}

#[test]
fn stored_credential_short_circuits() {
    let (s, a) = step(LoginState::NotStarted, LoginEvent::CredentialChecked { stored: true });
    assert!(matches!(s, LoginState::Authenticated { credential: None }));
    assert!(matches!(a, LoginAction::Stop));
}

#[test]
fn end_to_end_success() {
    let s = into_polling(10);
    match &s {
        LoginState::Polling { session, attempts, max_attempts } => {
            assert_eq!(session.device_token, "dtok");
            assert_eq!(session.expires_at, NOW + 10);
            assert_eq!(*attempts, 0);
            assert_eq!(*max_attempts, 4);
        }
        _ => panic!("expected polling"),
    }
    let (s, a) = step(s, polled(answer("pending")));
    assert!(matches!(a, LoginAction::Poll { .. }));
    let (s, a) = step(s, polled(answer("pending")));
    assert!(matches!(a, LoginAction::Poll { .. }));
    let mut ok = answer("authenticated");
    ok.token = Some("eyJ...".to_string());
    ok.expires_in = Some(86400);
    ok.user = Some(UserInfo { id: "u1".to_string(), email: "a@b.c".to_string(), name: "Ann".to_string() });
    let (s, a) = step(s, polled(ok));
    assert!(matches!(a, LoginAction::Persist));
    match s {
        LoginState::Authenticated { credential: Some(c) } => {
            assert_eq!(c.token, "eyJ...");
            assert_eq!(c.expires_at, Some(NOW + 86400));
            assert_eq!(c.user.unwrap().name, "Ann");
        }
        _ => panic!("expected a credential"),
    }
}

#[test]
fn expired_answer_persists_nothing() {
    let s = into_polling(10);
    let (s, a) = step(s, polled(answer("expired")));
    assert!(matches!(s, LoginState::Expired));
    assert!(matches!(a, LoginAction::Stop));
    let (s, a) = step(s, polled(answer("authenticated")));
    assert!(matches!(s, LoginState::Expired));
    assert!(matches!(a, LoginAction::Stop));
}

#[test]
fn invalid_answer() {
    let (s, a) = step(into_polling(10), polled(answer("invalid")));
    assert!(matches!(s, LoginState::Invalid));
    assert!(matches!(a, LoginAction::Stop));
}

#[test]
fn authenticated_without_token() {
    let (s, _) = step(into_polling(10), polled(answer("authenticated")));
    assert!(matches!(s, LoginState::Failed { error: AuthError::MissingToken }));
}

#[test]
fn unknown_status_surfaces_message_or_status() {
    let mut a = answer("weird");
    a.message = Some("try later".to_string());
    let (s, _) = step(into_polling(10), polled(a));
    match s {
        LoginState::Failed { error: AuthError::UnexpectedStatus { message } } => assert_eq!(message, "try later"),
        _ => panic!("expected a failure"),
    }
    let (s, _) = step(into_polling(10), polled(answer("weird")));
    match s {
        LoginState::Failed { error: AuthError::UnexpectedStatus { message } } => assert_eq!(message, "weird"),
        _ => panic!("expected a failure"),
    }
}

#[test]
fn polling_times_out() {
    let mut s = into_polling(4);
    for _ in 0..2 {
        let (next, a) = step(s, polled(answer("pending")));
        s = next;
        if matches!(s, LoginState::TimedOut) {
            assert!(matches!(a, LoginAction::Stop));
        }
    }
    assert!(matches!(s, LoginState::TimedOut));
}

#[test]
fn http_failures() {
    let (s, _) = step(
        into_polling(10),
        LoginEvent::Polled { status: 500, body: "boom".to_string(), answer: None, now: NOW },
    );
    match s {
        LoginState::Failed { error: AuthError::HttpStatusError { status, body } } => {
            assert_eq!(status, 500);
            assert_eq!(body, "boom");
        }
        _ => panic!("expected an HTTP failure"),
    }
    let (s, _) = step(
        LoginState::NotStarted,
        LoginEvent::StartAnswered { status: 200, body: String::new(), answer: None, now: NOW },
    );
    assert!(matches!(s, LoginState::Failed { error: AuthError::ParseError }));
    let (s, _) = step(into_polling(10), LoginEvent::NetworkFailed);
    assert!(matches!(s, LoginState::Failed { error: AuthError::NetworkError }));
}

#[test]
fn already_expired_session_fails() {
    let (s, a) = step(LoginState::NotStarted, started(0));
    assert!(matches!(s, LoginState::Failed { error: AuthError::SessionExpired }));
    assert!(matches!(a, LoginAction::Stop));
}
