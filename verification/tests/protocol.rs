use eclect::api::Response;
use eclect::bootstrap::{
    bootstrap_step, build_auth_request, generate_auth_request, BootstrapAction, BootstrapEvent,
    BootstrapState,
};
use eclect::config::{file_or_string, value_to_flags, ArgumentConfig, ConfigError, ConfigSource};
use eclect::credential::{decode_credential, encode_credential, InitError, InitToken};
use eclect::error::{ErrorCode, LastFMError};
use eclect::json::JsonNode;
use eclect::poll::{now_playing, poll_step, presence_of, publish_followup, PollStep,
    PresenceUpdate, PublishFollowup};
use eclect::responses::{
    Artist, Attributes, GetRecentTracksResponse, GetSessionResponse, GetTokenResponse, Image,
    RecentTracks, Session, Track,
};

fn lastfm_error(code: ErrorCode, message: &str) -> LastFMError {
    LastFMError { message: String::from(message), error: code }
}

// -------------------------------------------------------------------
// the credential codec

#[test]
fn credential_round_trip_auth() {
    let t = InitToken::Auth(String::from("token-123"));
    let stored = encode_credential(&t);
    assert_eq!(decode_credential(stored.as_str()), Ok(t));
}

#[test]
fn credential_round_trip_session() {
    let t = InitToken::Session(String::from("key-456"));
    let stored = encode_credential(&t);
    assert_eq!(decode_credential(stored.as_str()), Ok(t));
}

#[test]
fn credential_round_trip_awkward_token() {
    let t = InitToken::Auth(String::from("a\"b\\c\nd\u{1}é"));
    let stored = encode_credential(&t);
    assert_eq!(decode_credential(stored.as_str()), Ok(t));
}

#[test]
fn credential_stored_form_is_base64_of_json() {
    // base64 of {"Auth":"x"}
    let t = InitToken::Auth(String::from("x"));
    assert_eq!(encode_credential(&t), "eyJBdXRoIjoieCJ9");
    assert_eq!(decode_credential("eyJBdXRoIjoieCJ9"), Ok(t));
}

#[test]
fn credential_rejects_garbage() {
    match decode_credential("not base64 at all!") {
        Err(InitError::BadStateFile(_)) => {}
        other => panic!("expected a bad state file, got {:?}", other),
    }
    // base64 of "hello": decodes but holds no tagged token
    match decode_credential("aGVsbG8=") {
        Err(InitError::BadStateFile(_)) => {}
        other => panic!("expected a bad state file, got {:?}", other),
    }
}

// -------------------------------------------------------------------
// the bootstrap protocol

#[test]
fn bootstrap_without_file_requests_and_persists_a_token() {
    // no credential file: the protocol fetches a token ...
    let (state, action) = bootstrap_step(
        BootstrapState::Idle,
        BootstrapEvent::Begin { file_exists: false },
    );
    assert!(matches!(action, BootstrapAction::CallGetToken));
    // ... persists it as an authorization token, and stops with NeedAuth
    let (_, action) = bootstrap_step(
        state,
        BootstrapEvent::TokenResult(Ok(Response::Valid(GetTokenResponse {
            token: String::from("fresh"),
        }))),
    );
    match action {
        BootstrapAction::PersistAndStop { credential, failure } => {
            assert_eq!(credential, InitToken::Auth(String::from("fresh")));
            assert_eq!(failure, InitError::NeedAuth(String::from("fresh")));
        }
        other => panic!("expected persist-and-stop, got {:?}", describe(&other)),
    }
}

#[test]
fn bootstrap_stale_token_is_regenerated() {
    // the file holds an authorization token: it is sent for exchange
    let (state, action) = bootstrap_step(
        BootstrapState::Idle,
        BootstrapEvent::Begin { file_exists: true },
    );
    assert!(matches!(action, BootstrapAction::ReadCredentialFile));
    let (state, action) = bootstrap_step(
        state,
        BootstrapEvent::FileRead(Ok(InitToken::Auth(String::from("old")))),
    );
    match &action {
        BootstrapAction::CallGetSession { auth_token } => assert_eq!(auth_token, "old"),
        other => panic!("expected an exchange call, got {:?}", describe(other)),
    }
    // the exchange reports AuthenticationFailed: a new token is fetched
    let (state, action) = bootstrap_step(
        state,
        BootstrapEvent::ExchangeResult(Ok(Response::LastFMError(lastfm_error(
            ErrorCode::AuthenticationFailed,
            "stale",
        )))),
    );
    assert!(matches!(action, BootstrapAction::CallGetToken));
    // ... persisted, and NeedAuth carries the new token; the old one is gone
    let (_, action) = bootstrap_step(
        state,
        BootstrapEvent::TokenResult(Ok(Response::Valid(GetTokenResponse {
            token: String::from("new"),
        }))),
    );
    match action {
        BootstrapAction::PersistAndStop { credential, failure } => {
            assert_eq!(credential, InitToken::Auth(String::from("new")));
            assert_eq!(failure, InitError::NeedAuth(String::from("new")));
        }
        other => panic!("expected persist-and-stop, got {:?}", describe(&other)),
    }
}

#[test]
fn bootstrap_other_exchange_error_keeps_the_token() {
    let (_, action) = bootstrap_step(
        BootstrapState::Exchanging { auth_token: String::from("held") },
        BootstrapEvent::ExchangeResult(Ok(Response::LastFMError(lastfm_error(
            ErrorCode::ServiceOffline,
            "later",
        )))),
    );
    assert!(matches!(
        action,
        BootstrapAction::Fail { failure: InitError::NeedAuth(t) } if t == "held"
    ));
}

#[test]
fn bootstrap_exchange_success_persists_the_session() {
    let session = Session {
        name: String::from("TestUser"),
        key: String::from("session-key"),
        subscriber: 0,
    };
    let (state, action) = bootstrap_step(
        BootstrapState::Exchanging { auth_token: String::from("t") },
        BootstrapEvent::ExchangeResult(Ok(Response::Valid(GetSessionResponse {
            session: Some(session),
        }))),
    );
    match action {
        BootstrapAction::PersistAndValidate { credential, session_key } => {
            assert_eq!(credential, InitToken::Session(String::from("session-key")));
            assert_eq!(session_key, "session-key");
        }
        other => panic!("expected persist-and-validate, got {:?}", describe(&other)),
    }
    assert!(matches!(state, BootstrapState::Validating { .. }));
    // a later run reads the session key and skips the exchange entirely
    let (_, action) = bootstrap_step(
        BootstrapState::ReadingFile,
        BootstrapEvent::FileRead(Ok(InitToken::Session(String::from("session-key")))),
    );
    match &action {
        BootstrapAction::CallGetInfo { session_key } => assert_eq!(session_key, "session-key"),
        other => panic!("expected the validating call, got {:?}", describe(other)),
    }
}

#[test]
fn bootstrap_empty_session_is_fatal() {
    let (_, action) = bootstrap_step(
        BootstrapState::Exchanging { auth_token: String::from("t") },
        BootstrapEvent::ExchangeResult(Ok(Response::Valid(GetSessionResponse {
            session: None,
        }))),
    );
    assert!(matches!(
        action,
        BootstrapAction::Fail { failure: InitError::EmptyResponse(_) }
    ));
}

#[test]
fn bootstrap_transport_failure_surfaces() {
    let (_, action) = bootstrap_step(
        BootstrapState::Exchanging { auth_token: String::from("t") },
        BootstrapEvent::ExchangeResult(Err(String::from("connection refused"))),
    );
    assert!(matches!(
        action,
        BootstrapAction::Fail { failure: InitError::TransportError(m) } if m == "connection refused"
    ));
}

fn describe(action: &BootstrapAction) -> &'static str {
    match action {
        BootstrapAction::ReadCredentialFile => "ReadCredentialFile",
        BootstrapAction::CallGetToken => "CallGetToken",
        BootstrapAction::PersistAndStop { .. } => "PersistAndStop",
        BootstrapAction::CallGetSession { .. } => "CallGetSession",
        BootstrapAction::PersistAndValidate { .. } => "PersistAndValidate",
        BootstrapAction::CallGetInfo { .. } => "CallGetInfo",
        BootstrapAction::Succeed { .. } => "Succeed",
        BootstrapAction::Fail { .. } => "Fail",
    }
}

#[test]
fn auth_request_url() {
    let (credential, token) = generate_auth_request(&GetTokenResponse {
        token: String::from("tok"),
    });
    assert_eq!(credential, InitToken::Auth(String::from("tok")));
    assert_eq!(token, "tok");
    assert_eq!(
        build_auth_request("key", "tok"),
        "https://last.fm/api/auth/?api_key=key&token=tok"
    );
}

// -------------------------------------------------------------------
// the polling loop

fn historical_track() -> Track {
    Track {
        artist: Some(Artist {
            mbid: String::new(),
            text: String::from("Boards of Canada"),
        }),
        streamable: false,
        image: vec![
            Image {
                size: String::from("small"),
                text: String::from("https://example.com/s.png"),
            },
            Image {
                size: String::from("medium"),
                text: String::from("https://example.com/m.png"),
            },
        ],
        mbid: String::new(),
        album: None,
        name: String::from("Into the Rainbow Vein"),
        attr: None,
        url: String::from("https://example.com/track"),
        date: None,
    }
}

#[test]
fn first_track_without_marker_clears_presence() {
    // the most recent track is historical: nothing is playing
    let resp = GetRecentTracksResponse {
        recenttracks: Some(RecentTracks { track: vec![historical_track()], attr: None }),
    };
    assert!(now_playing(&resp).is_none());
    match poll_step(Ok(Response::Valid(resp))) {
        PollStep::Publish(PresenceUpdate::Clear) => {}
        _ => panic!("a historical first track must clear the presence"),
    }
}

#[test]
fn marked_track_is_published() {
    let mut track = historical_track();
    track.attr = Some(Attributes { nowplaying: Some(true) });
    let resp = GetRecentTracksResponse {
        recenttracks: Some(RecentTracks { track: vec![track], attr: None }),
    };
    let playing = now_playing(&resp).expect("the marker is set");
    match presence_of(Some(playing)) {
        PresenceUpdate::Show { details, hover_text, large_image, button_url, description } => {
            assert_eq!(details, "Into the Rainbow Vein");
            assert_eq!(hover_text, "Boards of Canada - Unknown Album");
            assert_eq!(large_image, Some(String::from("https://example.com/m.png")));
            assert_eq!(button_url, "https://example.com/track");
            assert_eq!(description, "Boards of Canada - Into the Rainbow Vein");
        }
        PresenceUpdate::Clear => panic!("a marked track must be shown"),
    }
}

#[test]
fn marker_false_or_empty_listing_clears() {
    let mut track = historical_track();
    track.attr = Some(Attributes { nowplaying: Some(false) });
    let resp = GetRecentTracksResponse {
        recenttracks: Some(RecentTracks { track: vec![track], attr: None }),
    };
    assert!(now_playing(&resp).is_none());
    let empty = GetRecentTracksResponse {
        recenttracks: Some(RecentTracks { track: vec![], attr: None }),
    };
    assert!(now_playing(&empty).is_none());
    let missing = GetRecentTracksResponse { recenttracks: None };
    assert!(now_playing(&missing).is_none());
}

#[test]
fn fetch_failures_are_logged_and_the_loop_goes_on() {
    match poll_step(Err(String::from("timed out"))) {
        PollStep::Log(e) => assert_eq!(e, eclect::error::Error::Transport(String::from("timed out"))),
        PollStep::Publish(_) => panic!("a failed fetch publishes nothing"),
    }
    match poll_step(Ok(Response::LastFMError(lastfm_error(ErrorCode::OperationFailed, "try again")))) {
        PollStep::Log(eclect::error::Error::LastFM(e)) => {
            assert_eq!(e.error, ErrorCode::OperationFailed)
        }
        _ => panic!("a reported error publishes nothing"),
    }
}

#[test]
fn publish_failure_reconnects_and_continues() {
    assert_eq!(publish_followup(true), PublishFollowup::ReconnectAndContinue);
    assert_eq!(publish_followup(false), PublishFollowup::Continue);
}

// -------------------------------------------------------------------
// configuration

#[test]
fn file_setting_wins() {
    assert_eq!(
        file_or_string(Some(String::from("/tmp/id")), "id-file", Some(String::from("direct")), "id"),
        Ok(ConfigSource::FromFile(String::from("/tmp/id")))
    );
    assert_eq!(
        file_or_string(None, "id-file", Some(String::from("direct")), "id"),
        Ok(ConfigSource::Literal(String::from("direct")))
    );
    match file_or_string(None, "id-file", None, "id") {
        Err(ConfigError::Conflict(m)) => {
            assert_eq!(m, "must specify either id-file or id");
        }
        other => panic!("expected a conflict, got {:?}", other),
    }
}

#[test]
fn resolve_collects_all_three_secrets() {
    let args = ArgumentConfig {
        workdir: String::from("/data"),
        query_interval: 15,
        discord_app_id: Some(String::from("d")),
        discord_app_id_file: None,
        lastfm_api_key: None,
        lastfm_api_key_file: Some(String::from("/tmp/key")),
        lastfm_secret: Some(String::from("s")),
        lastfm_secret_file: None,
    };
    let resolved = args.resolve().unwrap();
    assert_eq!(resolved.workdir, "/data");
    assert_eq!(resolved.query_interval, 15);
    assert_eq!(resolved.discord_app_id, ConfigSource::Literal(String::from("d")));
    assert_eq!(resolved.lastfm_api_key, ConfigSource::FromFile(String::from("/tmp/key")));
    assert_eq!(resolved.lastfm_secret, ConfigSource::Literal(String::from("s")));
}

#[test]
fn resolve_reports_the_first_missing_pair() {
    let args = ArgumentConfig {
        workdir: String::new(),
        query_interval: 1,
        discord_app_id: Some(String::from("d")),
        discord_app_id_file: None,
        lastfm_api_key: None,
        lastfm_api_key_file: None,
        lastfm_secret: None,
        lastfm_secret_file: None,
    };
    match args.resolve() {
        Err(ConfigError::Conflict(m)) => {
            assert_eq!(m, "must specify either lastfm-api-key-file or lastfm-api-key");
        }
        other => panic!("expected a conflict, got {:?}", other),
    }
}

#[test]
fn config_values_become_flags() {
    let fields = vec![
        (String::from("query_interval"), JsonNode::Int(15)),
        (String::from("workdir"), JsonNode::Text(String::from("/data"))),
        (
            String::from("mixed_list"),
            JsonNode::List(vec![
                JsonNode::Int(1),
                JsonNode::Text(String::from("a")),
                JsonNode::Bool(true),
                JsonNode::Null,
            ]),
        ),
    ];
    let flags = value_to_flags(&fields).unwrap();
    assert_eq!(
        flags,
        vec![
            String::from("--"),
            String::from("--query-interval=15"),
            String::from("--workdir=/data"),
            String::from("--mixed-list=1,\"a\",true,null"),
        ]
    );
}

#[test]
fn config_rejects_structured_values() {
    let object = vec![(String::from("inner"), JsonNode::Object(vec![]))];
    assert_eq!(
        value_to_flags(&object),
        Err(String::from("value of \"inner\" is object"))
    );
    let nested = vec![(
        String::from("deep"),
        JsonNode::List(vec![JsonNode::List(vec![])]),
    )];
    assert_eq!(
        value_to_flags(&nested),
        Err(String::from("value of \"deep\" is too complex"))
    );
}
