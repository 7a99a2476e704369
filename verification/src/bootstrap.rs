//! The credential bootstrap protocol, as a state machine.
//!
//! The decisions of the protocol live here: given the state and what just
//! happened, `bootstrap_step` says what the next state is and what to do.
//! The caller performs the actions — reading and writing the credential
//! file and making the three calls — and feeds each outcome back in.
//!
//! The protocol: with no credential file, a fresh authorization token is
//! fetched, persisted, and surfaced as `NeedAuth` so a human can grant
//! consent. A held authorization token is exchanged for a session key; a
//! stale token (the exchange fails with `AuthenticationFailed`) is
//! replaced by a fresh one, persisted, and surfaced as `NeedAuth` again;
//! any other reported error surfaces the held token unchanged. A won or
//! held session key is persisted and then validated by one profile call.
//! An authentication failure after the session is established is a hard
//! failure: the protocol does not restart itself.

use vstd::prelude::*;
use vstd::string::StringExecFns;
use crate::api::Response;
use crate::credential::{InitError, InitToken};
use crate::error::ErrorCode;
use crate::responses::{GetInfoResponse, GetSessionResponse, GetTokenResponse, User};

verus! {

/// Where the bootstrap stands.
#[derive(Debug)]
pub enum BootstrapState {
    /// Nothing has happened yet.
    Idle,
    /// Waiting for the credential file to be read.
    ReadingFile,
    /// Waiting for a fresh authorization token.
    FetchingToken,
    /// Waiting for the token exchange; the token being exchanged is held
    /// so a failed exchange can surface it.
    Exchanging { auth_token: String },
    /// Waiting for the validating profile call.
    Validating { session_key: String },
    /// The session key is established and validated.
    Ready { session_key: String },
    /// The bootstrap ended in failure.
    Failed,
}

/// What just happened.
pub enum BootstrapEvent {
    /// The run begins; whether the credential file exists.
    Begin { file_exists: bool },
    /// The credential file was read and decoded, or that failed.
    FileRead(Result<InitToken, InitError>),
    /// The token call returned, or the transport failed (described in
    /// text).
    TokenResult(Result<Response<GetTokenResponse>, String>),
    /// The exchange call returned, or the transport failed.
    ExchangeResult(Result<Response<GetSessionResponse>, String>),
    /// The validating profile call returned, or the transport failed.
    ProfileResult(Result<Response<GetInfoResponse>, String>),
}

/// What the caller must do next.
pub enum BootstrapAction {
    /// Read and decode the credential file, then report `FileRead`.
    ReadCredentialFile,
    /// Call the token method, then report `TokenResult`.
    CallGetToken,
    /// Write the credential to the file, then stop with the failure —
    /// the caller surfaces an authorization request to a human.
    PersistAndStop { credential: InitToken, failure: InitError },
    /// Call the exchange method with the held token, then report
    /// `ExchangeResult`.
    CallGetSession { auth_token: String },
    /// Write the won session key to the file, then call the profile
    /// method with it and report `ProfileResult`.
    PersistAndValidate { credential: InitToken, session_key: String },
    /// Call the profile method with the held session key, then report
    /// `ProfileResult`.
    CallGetInfo { session_key: String },
    /// The bootstrap is done: use this session key; the profile is the
    /// validated account.
    Succeed { session_key: String, user: User },
    /// The bootstrap failed; stop.
    Fail { failure: InitError },
}

/// One step of the bootstrap protocol.
pub fn bootstrap_step(state: BootstrapState, event: BootstrapEvent) -> (r: (
    BootstrapState,
    BootstrapAction,
))
    ensures
        // beginning: a missing file means a fresh token is fetched first
        state is Idle ==> (event matches BootstrapEvent::Begin { file_exists } ==> (if file_exists
            {
                r == (BootstrapState::ReadingFile, BootstrapAction::ReadCredentialFile)
            } else {
                r == (BootstrapState::FetchingToken, BootstrapAction::CallGetToken)
            })),
        // the file decides which credential path is taken
        state is ReadingFile ==> (event matches BootstrapEvent::FileRead(Err(e)) ==> r == (
            BootstrapState::Failed,
            BootstrapAction::Fail { failure: e },
        )),
        state is ReadingFile ==> (event matches BootstrapEvent::FileRead(Ok(InitToken::Auth(t)))
            ==> r.0 == (BootstrapState::Exchanging { auth_token: t }) && r.1
            == (BootstrapAction::CallGetSession { auth_token: t })),
        state is ReadingFile ==> (event matches BootstrapEvent::FileRead(
            Ok(InitToken::Session(k)),
        ) ==> r.0 == (BootstrapState::Validating { session_key: k }) && r.1
            == (BootstrapAction::CallGetInfo { session_key: k })),
        // a fresh token is persisted and surfaced for human consent
        state is FetchingToken ==> (event matches BootstrapEvent::TokenResult(Err(t)) ==> r == (
            BootstrapState::Failed,
            BootstrapAction::Fail { failure: InitError::TransportError(t) },
        )),
        state is FetchingToken ==> (event matches BootstrapEvent::TokenResult(
            Ok(Response::LastFMError(e)),
        ) ==> r == (
            BootstrapState::Failed,
            BootstrapAction::Fail { failure: InitError::LastFMError(e) },
        )),
        state is FetchingToken ==> (event matches BootstrapEvent::TokenResult(
            Ok(Response::Valid(resp)),
        ) ==> r.0 is Failed && r.1 == (BootstrapAction::PersistAndStop {
            credential: InitToken::Auth(resp.token),
            failure: InitError::NeedAuth(resp.token),
        })),
        // the exchange: transport errors surface; a stale token is
        // regenerated; other reported errors surface the held token
        state is Exchanging ==> (event matches BootstrapEvent::ExchangeResult(Err(t)) ==> r == (
            BootstrapState::Failed,
            BootstrapAction::Fail { failure: InitError::TransportError(t) },
        )),
        state matches BootstrapState::Exchanging { auth_token } ==> (event
            matches BootstrapEvent::ExchangeResult(Ok(Response::LastFMError(e))) ==> (
        if e.error == ErrorCode::AuthenticationFailed {
            r == (BootstrapState::FetchingToken, BootstrapAction::CallGetToken)
        } else {
            r == (
                BootstrapState::Failed,
                BootstrapAction::Fail { failure: InitError::NeedAuth(auth_token) },
            )
        })),
        state is Exchanging ==> (event matches BootstrapEvent::ExchangeResult(
            Ok(Response::Valid(resp)),
        ) ==> (match resp.session {
            Option::None => r.0 is Failed && (r.1 matches BootstrapAction::Fail { failure }
                && failure is EmptyResponse),
            Option::Some(sess) => (r.0 matches BootstrapState::Validating { session_key }
                && session_key@ == sess.key@) && (r.1
                matches BootstrapAction::PersistAndValidate { credential, session_key: sk }
                && credential@ == crate::credential::InitTokenVal::Session(sess.key@) && sk@
                == sess.key@),
        })),
        // validation: the first authenticated call must come back whole
        state is Validating ==> (event matches BootstrapEvent::ProfileResult(Err(t)) ==> r == (
            BootstrapState::Failed,
            BootstrapAction::Fail { failure: InitError::TransportError(t) },
        )),
        state is Validating ==> (event matches BootstrapEvent::ProfileResult(
            Ok(Response::LastFMError(e)),
        ) ==> r == (
            BootstrapState::Failed,
            BootstrapAction::Fail { failure: InitError::LastFMError(e) },
        )),
        state matches BootstrapState::Validating { session_key } ==> (event
            matches BootstrapEvent::ProfileResult(Ok(Response::Valid(resp))) ==> (
        match resp.user {
            Option::None => r.0 is Failed && (r.1 matches BootstrapAction::Fail { failure }
                && failure is EmptyResponse),
            Option::Some(u) => (r.0 matches BootstrapState::Ready { session_key: k1 } && k1@
                == session_key@) && (r.1 matches BootstrapAction::Succeed {
                session_key: k2,
                user,
            } && k2@ == session_key@ && user == u),
        })),
        // a state/event pair the protocol never produces is an internal
        // failure
        !((state is Idle && event is Begin) || (state is ReadingFile && event is FileRead) || (
        state is FetchingToken && event is TokenResult) || (state is Exchanging && event
            is ExchangeResult) || (state is Validating && event is ProfileResult)) ==> r.0
            is Failed && (r.1 matches BootstrapAction::Fail { failure } && failure is Internal),
{
    match (state, event) {
        (BootstrapState::Idle, BootstrapEvent::Begin { file_exists }) => {
            if !file_exists {
                (BootstrapState::FetchingToken, BootstrapAction::CallGetToken)
            } else {
                (BootstrapState::ReadingFile, BootstrapAction::ReadCredentialFile)
            }
        },
        (BootstrapState::ReadingFile, BootstrapEvent::FileRead(read)) => match read {
            Err(e) => (BootstrapState::Failed, BootstrapAction::Fail { failure: e }),
            Ok(InitToken::Auth(t)) => {
                let call = t.clone();
                (
                    BootstrapState::Exchanging { auth_token: t },
                    BootstrapAction::CallGetSession { auth_token: call },
                )
            },
            Ok(InitToken::Session(k)) => {
                let call = k.clone();
                (
                    BootstrapState::Validating { session_key: k },
                    BootstrapAction::CallGetInfo { session_key: call },
                )
            },
        },
        (BootstrapState::FetchingToken, BootstrapEvent::TokenResult(result)) => match result {
            Err(t) => (
                BootstrapState::Failed,
                BootstrapAction::Fail { failure: InitError::TransportError(t) },
            ),
            Ok(Response::LastFMError(e)) => (
                BootstrapState::Failed,
                BootstrapAction::Fail { failure: InitError::LastFMError(e) },
            ),
            Ok(Response::Valid(resp)) => {
                let token = resp.token;
                let copy = token.clone();
                (
                    BootstrapState::Failed,
                    BootstrapAction::PersistAndStop {
                        credential: InitToken::Auth(token),
                        failure: InitError::NeedAuth(copy),
                    },
                )
            },
        },
        (BootstrapState::Exchanging { auth_token }, BootstrapEvent::ExchangeResult(result)) => {
            match result {
                Err(t) => (
                    BootstrapState::Failed,
                    BootstrapAction::Fail { failure: InitError::TransportError(t) },
                ),
                Ok(Response::LastFMError(e)) => {
                    if e.error == ErrorCode::AuthenticationFailed {
                        (BootstrapState::FetchingToken, BootstrapAction::CallGetToken)
                    } else {
                        (
                            BootstrapState::Failed,
                            BootstrapAction::Fail {
                                failure: InitError::NeedAuth(auth_token),
                            },
                        )
                    }
                },
                Ok(Response::Valid(resp)) => match resp.session {
                    None => (
                        BootstrapState::Failed,
                        BootstrapAction::Fail {
                            failure: InitError::EmptyResponse(
                                String::from_str("session request error: empty response"),
                            ),
                        },
                    ),
                    Some(sess) => {
                        let key = sess.key;
                        let key2 = key.clone();
                        let key3 = key.clone();
                        (
                            BootstrapState::Validating { session_key: key },
                            BootstrapAction::PersistAndValidate {
                                credential: InitToken::Session(key2),
                                session_key: key3,
                            },
                        )
                    },
                },
            }
        },
        (BootstrapState::Validating { session_key }, BootstrapEvent::ProfileResult(result)) => {
            match result {
                Err(t) => (
                    BootstrapState::Failed,
                    BootstrapAction::Fail { failure: InitError::TransportError(t) },
                ),
                Ok(Response::LastFMError(e)) => (
                    BootstrapState::Failed,
                    BootstrapAction::Fail { failure: InitError::LastFMError(e) },
                ),
                Ok(Response::Valid(resp)) => match resp.user {
                    None => (
                        BootstrapState::Failed,
                        BootstrapAction::Fail {
                            failure: InitError::EmptyResponse(
                                String::from_str("user request error: empty response"),
                            ),
                        },
                    ),
                    Some(u) => {
                        let key2 = session_key.clone();
                        (
                            BootstrapState::Ready { session_key },
                            BootstrapAction::Succeed { session_key: key2, user: u },
                        )
                    },
                },
            }
        },
        (_, _) => (
            BootstrapState::Failed,
            BootstrapAction::Fail {
                failure: InitError::Internal(
                    String::from_str("bootstrap step does not fit the protocol"),
                ),
            },
        ),
    }
}

/// The endpoint API calls are sent to.
pub fn prod_endpoint() -> (r: &'static str)
    ensures
        r@ == "https://ws.audioscrobbler.com/2.0/"@,
{
    "https://ws.audioscrobbler.com/2.0/"
}

/// The page a human visits to grant consent.
pub fn auth_endpoint() -> (r: &'static str)
    ensures
        r@ == "https://last.fm/api/auth/"@,
{
    "https://last.fm/api/auth/"
}

/// The authorization URL a human is asked to visit: the consent page with
/// the API key and the fresh token as its query.
pub fn build_auth_request(api_key: &str, auth_token: &str) -> (r: String)
    ensures
        r@ == "https://last.fm/api/auth/"@ + seq!['?'] + crate::api::query_of(
            seq![("api_key"@, api_key@), ("token"@, auth_token@)],
        ),
{
    let mut pairs: Vec<(String, String)> = Vec::new();
    pairs.push((String::from_str("api_key"), String::from_str(api_key)));
    pairs.push((String::from_str("token"), String::from_str(auth_token)));
    let query = crate::api::build_query(&pairs);
    let mut out = String::from_str(auth_endpoint());
    crate::text::push_char(&mut out, '?');
    out.append(query.as_str());
    proof {
        assert(crate::params::pair_views(pairs@) =~= seq![
            ("api_key"@, api_key@),
            ("token"@, auth_token@),
        ]);
        assert(out@ =~= "https://last.fm/api/auth/"@ + seq!['?'] + crate::api::query_of(
            seq![("api_key"@, api_key@), ("token"@, auth_token@)],
        ));
    }
    out
}

/// The side effect of a fresh token: the credential to persist, and the
/// token to surface in the authorization request.
pub fn generate_auth_request(resp: &GetTokenResponse) -> (r: (InitToken, String))
    ensures
        r.0@ == crate::credential::InitTokenVal::Auth(resp.token@),
        r.1@ == resp.token@,
{
    (InitToken::Auth(resp.token.clone()), resp.token.clone())
}

} // verus!
