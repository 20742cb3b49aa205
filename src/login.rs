use vstd::prelude::*;

use crate::error::{is_success_status, AuthError};
use crate::jwt::UserInfo;
use crate::storage::CliAuth;
use crate::text::same_text;

verus! {

/// Seconds between two checks of a pending login.
pub const POLL_INTERVAL_SECS: u64 = 5;

/// The answer to a start-login request.
pub struct StartLoginResponse {
    pub device_token: String,
    pub verification_url: String,
    /// Whole seconds until the device token lapses.
    pub expires_in_seconds: i64,
}

/// The answer to a check-login request.
pub struct CheckLoginResponse {
    pub status: String,
    pub token: Option<String>,
    pub expires_in: Option<i64>,
    pub user: Option<UserInfo>,
    pub message: Option<String>,
}

/// One device login in progress: it lives as long as one login run.
pub struct LoginSession {
    pub device_token: String,
    pub verification_url: String,
    pub expires_at: i64,
}

/// Where a login stands. All but `NotStarted`, `AwaitingBrowser` and
/// `Polling` are final.
pub enum LoginState {
    NotStarted,
    AwaitingBrowser { session: LoginSession, max_attempts: u64 },
    Polling { session: LoginSession, attempts: u64, max_attempts: u64 },
    /// Logged in: `credential` is the new credential to persist, or `None`
    /// when a stored credential was found and kept.
    Authenticated { credential: Option<CliAuth> },
    Expired,
    Invalid,
    TimedOut,
    Failed { error: AuthError },
}

/// What the caller observed since the last step.
pub enum LoginEvent {
    /// Whether the credential store already holds a credential.
    CredentialChecked { stored: bool },
    /// The start-login request was answered; `answer` is the parsed body, or
    /// `None` when the body did not parse.
    StartAnswered { status: u16, body: String, answer: Option<StartLoginResponse>, now: i64 },
    /// The browser was asked to open the verification address.
    BrowserTried { opened: bool },
    /// A check-login request was answered.
    Polled { status: u16, body: String, answer: Option<CheckLoginResponse>, now: i64 },
    /// A request could not reach the server.
    NetworkFailed,
}

/// What the caller must do next.
pub enum LoginAction {
    /// Send the start-login request.
    StartLogin,
    /// Try to open `url` in the browser, and show it in any case.
    OpenBrowser { url: String },
    /// Wait the poll interval, then send a check-login request for `device_token`.
    Poll { device_token: String },
    /// Save the credential held by the new state.
    Persist,
    /// Nothing more: the state is final, or the event did not fit it.
    Stop,
}

/// `now + secs`, held within the range of `i64`.
pub open spec fn clamped_sum(now: i64, secs: i64) -> i64 {
    if now + secs > i64::MAX {
        i64::MAX
    } else if now + secs < i64::MIN {
        i64::MIN
    } else {
        (now + secs) as i64
    }
}

fn clamped_add(now: i64, secs: i64) -> (r: i64)
    ensures
        r == clamped_sum(now, secs),
{
    match now.checked_add(secs) {
        Some(v) => v,
        None => if secs > 0 { i64::MAX } else { i64::MIN },
    }
}

/// The number of checks a login may make: one per poll interval of the
/// token's lifetime, and two more.
pub fn max_poll_attempts(expires_in_seconds: u64, poll_interval_secs: u64) -> (r: u64)
    requires
        poll_interval_secs > 0,
        expires_in_seconds / poll_interval_secs <= u64::MAX - 2,
    ensures
        r == expires_in_seconds / poll_interval_secs + 2,
{
    expires_in_seconds / poll_interval_secs + 2
}

pub open spec fn pending_status() -> Seq<char> {
    seq!['p', 'e', 'n', 'd', 'i', 'n', 'g']
}

pub open spec fn authenticated_status() -> Seq<char> {
    seq!['a', 'u', 't', 'h', 'e', 'n', 't', 'i', 'c', 'a', 't', 'e', 'd']
}

pub open spec fn expired_status() -> Seq<char> {
    seq!['e', 'x', 'p', 'i', 'r', 'e', 'd']
}

pub open spec fn invalid_status() -> Seq<char> {
    seq!['i', 'n', 'v', 'a', 'l', 'i', 'd']
}

/// Whether no event moves `s` any further.
pub open spec fn is_final(s: LoginState) -> bool {
    !(s is NotStarted || s is AwaitingBrowser || s is Polling)
}

/// The state after a check-login answer `a`, given at `now`, to the check
/// numbered `attempt` (from 1) of at most `max_attempts`.
pub open spec fn after_answer(session: LoginSession, attempt: int, max_attempts: u64, a: CheckLoginResponse, now: i64) -> LoginState {
    if a.status@ == pending_status() {
        if attempt >= max_attempts {
            LoginState::TimedOut
        } else {
            LoginState::Polling { session, attempts: attempt as u64, max_attempts }
        }
    } else if a.status@ == authenticated_status() {
        match a.token {
            None => LoginState::Failed { error: AuthError::MissingToken },
            Some(token) => LoginState::Authenticated {
                credential: Some(
                    CliAuth {
                        token,
                        expires_at: match a.expires_in {
                            Some(secs) => Some(clamped_sum(now, secs)),
                            None => None,
                        },
                        user: a.user,
                    },
                ),
            },
        }
    } else if a.status@ == expired_status() {
        LoginState::Expired
    } else if a.status@ == invalid_status() {
        LoginState::Invalid
    } else {
        LoginState::Failed { error: AuthError::UnexpectedStatus { message: match a.message {
            Some(m) => m,
            None => a.status,
        } } }
    }
}

/// The next state of a login from `s` on event `e`.
pub open spec fn next_state(s: LoginState, e: LoginEvent) -> LoginState {
    match (s, e) {
        (LoginState::NotStarted, LoginEvent::CredentialChecked { stored }) => if stored {
            LoginState::Authenticated { credential: None }
        } else {
            LoginState::NotStarted
        },
        (LoginState::NotStarted, LoginEvent::StartAnswered { status, body, answer, now }) => if !is_success_status(status) {
            LoginState::Failed { error: AuthError::HttpStatusError { status, body } }
        } else {
            match answer {
                None => LoginState::Failed { error: AuthError::ParseError },
                Some(a) => if a.expires_in_seconds <= 0 {
                    LoginState::Failed { error: AuthError::SessionExpired }
                } else {
                    LoginState::AwaitingBrowser {
                        session: LoginSession {
                            device_token: a.device_token,
                            verification_url: a.verification_url,
                            expires_at: clamped_sum(now, a.expires_in_seconds),
                        },
                        max_attempts: (a.expires_in_seconds as u64 / POLL_INTERVAL_SECS + 2) as u64,
                    }
                },
            }
        },
        (LoginState::AwaitingBrowser { session, max_attempts }, LoginEvent::BrowserTried { .. }) => {
            LoginState::Polling { session, attempts: 0, max_attempts }
        },
        (LoginState::Polling { session, attempts, max_attempts }, LoginEvent::Polled { status, body, answer, now }) => {
            if !is_success_status(status) {
                LoginState::Failed { error: AuthError::HttpStatusError { status, body } }
            } else {
                match answer {
                    None => LoginState::Failed { error: AuthError::ParseError },
                    Some(a) => after_answer(session, attempts + 1, max_attempts, a, now),
                }
            }
        },
        (LoginState::NotStarted, LoginEvent::NetworkFailed) => LoginState::Failed { error: AuthError::NetworkError },
        (LoginState::Polling { .. }, LoginEvent::NetworkFailed) => LoginState::Failed { error: AuthError::NetworkError },
        (s, _) => s,
    }
}

/// What the caller must do once a login has reached state `s` by event `e`.
pub open spec fn next_action(s: LoginState, e: LoginEvent) -> LoginAction {
    let t = next_state(s, e);
    match t {
        LoginState::NotStarted => if s is NotStarted && e is CredentialChecked {
            LoginAction::StartLogin
        } else {
            LoginAction::Stop
        },
        LoginState::AwaitingBrowser { session, .. } => if s is NotStarted {
            LoginAction::OpenBrowser { url: session.verification_url }
        } else {
            LoginAction::Stop
        },
        LoginState::Polling { session, attempts, .. } => if s is AwaitingBrowser || (s is Polling && e is Polled) {
            LoginAction::Poll { device_token: session.device_token }
        } else {
            LoginAction::Stop
        },
        LoginState::Authenticated { credential: Some(_) } => if s is Polling {
            LoginAction::Persist
        } else {
            LoginAction::Stop
        },
        _ => LoginAction::Stop,
    }
}

fn status_is(status: &String, expected: &str) -> (r: bool)
    ensures
        r == (status@ == expected@),
{
    same_text(status.as_str(), expected)
}

fn answer_step(session: LoginSession, attempt: u64, max_attempts: u64, a: CheckLoginResponse, now: i64) -> (r: (LoginState, LoginAction))
    ensures
        r.0 == after_answer(session, attempt as int, max_attempts, a, now),
        r.0 is Polling ==> r.1 == (LoginAction::Poll { device_token: session.device_token }),
        r.0 matches LoginState::Authenticated { credential: Some(_) } ==> r.1 is Persist,
        !(r.0 is Polling) && !(r.0 matches LoginState::Authenticated { credential: Some(_) }) ==> r.1 is Stop,
{
    let pending = "pending";
    let authenticated = "authenticated";
    let expired = "expired";
    let invalid = "invalid";
    proof {
        reveal_strlit("pending");
        reveal_strlit("authenticated");
        reveal_strlit("expired");
        reveal_strlit("invalid");
    }
    assert(pending@ =~= pending_status());
    assert(authenticated@ =~= authenticated_status());
    assert(expired@ =~= expired_status());
    assert(invalid@ =~= invalid_status());
    if status_is(&a.status, pending) {
        if attempt >= max_attempts {
            (LoginState::TimedOut, LoginAction::Stop)
        } else {
            let device_token = session.device_token.clone();
            (LoginState::Polling { session, attempts: attempt, max_attempts }, LoginAction::Poll { device_token })
        }
    } else if status_is(&a.status, authenticated) {
        match a.token {
            None => (LoginState::Failed { error: AuthError::MissingToken }, LoginAction::Stop),
            Some(token) => {
                let expires_at = match a.expires_in {
                    Some(secs) => Some(clamped_add(now, secs)),
                    None => None,
                };
                let credential = CliAuth { token, expires_at, user: a.user };
                (LoginState::Authenticated { credential: Some(credential) }, LoginAction::Persist)
            },
        }
    } else if status_is(&a.status, expired) {
        (LoginState::Expired, LoginAction::Stop)
    } else if status_is(&a.status, invalid) {
        (LoginState::Invalid, LoginAction::Stop)
    } else {
        let message = match a.message {
            Some(m) => m,
            None => a.status,
        };
        (LoginState::Failed { error: AuthError::UnexpectedStatus { message } }, LoginAction::Stop)
    }
}

/// Advances a login by one event: the new state and what the caller must do.
pub fn step(s: LoginState, e: LoginEvent) -> (r: (LoginState, LoginAction))
    ensures
        r.0 == next_state(s, e),
        r.1 == next_action(s, e),
{
    match (s, e) {
        (LoginState::NotStarted, LoginEvent::CredentialChecked { stored }) => {
            if stored {
                (LoginState::Authenticated { credential: None }, LoginAction::Stop)
            } else {
                (LoginState::NotStarted, LoginAction::StartLogin)
            }
        },
        (LoginState::NotStarted, LoginEvent::StartAnswered { status, body, answer, now }) => {
            if status < 200 || status > 299 {
                return (LoginState::Failed { error: AuthError::HttpStatusError { status, body } }, LoginAction::Stop);
            }
            match answer {
                None => (LoginState::Failed { error: AuthError::ParseError }, LoginAction::Stop),
                Some(a) => {
                    if a.expires_in_seconds <= 0 {
                        (LoginState::Failed { error: AuthError::SessionExpired }, LoginAction::Stop)
                    } else {
                        let max_attempts = max_poll_attempts(a.expires_in_seconds as u64, POLL_INTERVAL_SECS);
                        let url = a.verification_url.clone();
                        let session = LoginSession {
                            device_token: a.device_token,
                            verification_url: a.verification_url,
                            expires_at: clamped_add(now, a.expires_in_seconds),
                        };
                        (LoginState::AwaitingBrowser { session, max_attempts }, LoginAction::OpenBrowser { url })
                    }
                },
            }
        },
        (LoginState::AwaitingBrowser { session, max_attempts }, LoginEvent::BrowserTried { .. }) => {
            let device_token = session.device_token.clone();
            (LoginState::Polling { session, attempts: 0, max_attempts }, LoginAction::Poll { device_token })
        },
        (LoginState::Polling { session, attempts, max_attempts }, LoginEvent::Polled { status, body, answer, now }) => {
            if status < 200 || status > 299 {
                return (LoginState::Failed { error: AuthError::HttpStatusError { status, body } }, LoginAction::Stop);
            }
            match answer {
                None => (LoginState::Failed { error: AuthError::ParseError }, LoginAction::Stop),
                Some(a) => {
                    let attempt = if attempts < u64::MAX { attempts + 1 } else { attempts };
                    answer_step(session, attempt, max_attempts, a, now)
                },
            }
        },
        (LoginState::NotStarted, LoginEvent::NetworkFailed) => {
            (LoginState::Failed { error: AuthError::NetworkError }, LoginAction::Stop)
        },
        (LoginState::Polling { .. }, LoginEvent::NetworkFailed) => {
            (LoginState::Failed { error: AuthError::NetworkError }, LoginAction::Stop)
        },
        (s, _) => (s, LoginAction::Stop),
    }
}

/// A final state stays as it is whatever happens, and asks for nothing more.
pub proof fn lemma_final_states_absorb(s: LoginState, e: LoginEvent)
    requires
        is_final(s),
    ensures
        next_state(s, e) == s,
        next_action(s, e) is Stop,
{
}

/// A credential is handed over for saving only on the step into
/// `Authenticated`, and it is the one that step's state holds.
pub proof fn lemma_persist_only_when_authenticated(s: LoginState, e: LoginEvent)
    requires
        next_action(s, e) is Persist,
    ensures
        s is Polling,
        next_state(s, e) matches LoginState::Authenticated { credential: Some(_) },
{
}

/// A successful check-login answer that says `pending`.
pub open spec fn is_pending_answer(e: LoginEvent) -> bool {
    e matches LoginEvent::Polled { status, answer: Some(a), .. } && is_success_status(status) && a.status@
        == pending_status()
}

/// The state a login reaches from `s` through `events`, in order.
pub open spec fn run(s: LoginState, events: Seq<LoginEvent>) -> LoginState
    decreases events.len(),
{
    if events.len() == 0 {
        s
    } else {
        run(next_state(s, events[0]), events.drop_first())
    }
}

proof fn lemma_run_final(s: LoginState, events: Seq<LoginEvent>)
    requires
        is_final(s),
    ensures
        run(s, events) == s,
    decreases events.len(),
{
    if events.len() > 0 {
        lemma_run_final(s, events.drop_first());
    }
}

/// While a login polls, each pending answer counts one check; the check that
/// brings the count to `max_attempts` ends the login as timed out, and
/// nothing moves it after that.
pub proof fn lemma_pending_checks_time_out(
    session: LoginSession,
    attempts: u64,
    max_attempts: u64,
    events: Seq<LoginEvent>,
)
    requires
        attempts < max_attempts,
        forall|i: int| 0 <= i < events.len() ==> is_pending_answer(#[trigger] events[i]),
    ensures
        run(LoginState::Polling { session, attempts, max_attempts }, events) == if attempts + events.len()
            < max_attempts {
            LoginState::Polling { session, attempts: (attempts + events.len()) as u64, max_attempts }
        } else {
            LoginState::TimedOut
        },
    decreases events.len(),
{
    if events.len() > 0 {
        let rest = events.drop_first();
        assert(is_pending_answer(events[0]));
        assert forall|i: int| 0 <= i < rest.len() implies is_pending_answer(#[trigger] rest[i]) by {
            assert(rest[i] == events[i + 1]);
        }
        if attempts + 1 >= max_attempts {
            lemma_run_final(LoginState::TimedOut, rest);
        } else {
            lemma_pending_checks_time_out(session, (attempts + 1) as u64, max_attempts, rest);
        }
    }
}

/// A login whose start answer grants `E > 0` seconds may make `E / 5 + 2`
/// checks: after that many pending answers it has timed out, and before that
/// it is still polling.
pub proof fn lemma_login_poll_budget(start: LoginEvent, browser: LoginEvent, pendings: Seq<LoginEvent>)
    requires
        start matches LoginEvent::StartAnswered { status, answer: Some(a), .. } && is_success_status(status)
            && a.expires_in_seconds > 0,
        browser is BrowserTried,
        forall|i: int| 0 <= i < pendings.len() ==> is_pending_answer(#[trigger] pendings[i]),
    ensures
        ({
            let budget = start->StartAnswered_answer->Some_0.expires_in_seconds as u64 / POLL_INTERVAL_SECS + 2;
            run(LoginState::NotStarted, seq![start, browser] + pendings) matches LoginState::Polling { attempts, .. }
                ==> pendings.len() < budget && attempts == pendings.len()
        }),
        ({
            let budget = start->StartAnswered_answer->Some_0.expires_in_seconds as u64 / POLL_INTERVAL_SECS + 2;
            pendings.len() >= budget ==> run(LoginState::NotStarted, seq![start, browser] + pendings)
                == LoginState::TimedOut
        }),
{
    let events = seq![start, browser] + pendings;
    let s1 = next_state(LoginState::NotStarted, start);
    let s2 = next_state(s1, browser);
    let tail = seq![browser] + pendings;
    assert(events.drop_first() =~= tail);
    assert(tail.drop_first() =~= pendings);
    assert(events[0] == start);
    assert(tail[0] == browser);
    assert(run(LoginState::NotStarted, events) == run(s1, tail));
    assert(run(s1, tail) == run(s2, pendings));
    match s2 {
        LoginState::Polling { session, attempts, max_attempts } => {
            lemma_pending_checks_time_out(session, attempts, max_attempts, pendings);
        },
        _ => {},
    }
}

} // verus!
