use eclect::api::{ApiCall, AuthTier, Response};
use eclect::error::{parse_code, ErrorCode, LastFMError};
use eclect::pairs::{to_pairs, FieldValue, RequestValue};
use eclect::params::ParameterSet;
use eclect::shim::{
    parse_bool, parse_from_string, parse_option_bool, parse_option_from_string, serialize_bool,
};
use eclect::sign::signature;

#[test]
fn signature_known_digest() {
    // the digest input is "ab" (key directly followed by value) then the
    // secret "c"; the MD5 of "abc" is a published test vector
    let mut params = ParameterSet::empty();
    params.insert("a", "b");
    let sig = signature(&params, b"c");
    assert_eq!(sig, "900150983cd24fb0d6963f7d28e17f72");
}

#[test]
fn signature_sorts_by_key() {
    // the same digest input "ab" + "cd" regardless of insertion order
    let mut p1 = ParameterSet::empty();
    p1.insert("a", "b");
    p1.insert("c", "d");
    let mut p2 = ParameterSet::empty();
    p2.insert("c", "d");
    p2.insert("a", "b");
    assert_eq!(signature(&p1, b"s"), signature(&p2, b"s"));
}

#[test]
fn signature_changes_with_value() {
    let mut p1 = ParameterSet::empty();
    p1.insert("a", "b");
    let mut p2 = ParameterSet::empty();
    p2.insert("a", "c");
    assert_ne!(signature(&p1, b"s"), signature(&p2, b"s"));
}

#[test]
fn parameter_set_last_write_wins() {
    let mut params = ParameterSet::empty();
    params.insert("k", "first");
    params.insert("k", "second");
    assert_eq!(params.len(), 1);
    let pairs = params.pairs_vec();
    assert_eq!(pairs[0].0, "k");
    assert_eq!(pairs[0].1, "second");
}

#[test]
fn url_without_signature() {
    let call = ApiCall::new("key", "auth.getToken", None);
    let url = call.to_url(b"secret", "https://ws.audioscrobbler.com/2.0/", false);
    assert_eq!(
        url,
        "https://ws.audioscrobbler.com/2.0/?api_key=key&method=auth.getToken&format=json"
    );
}

#[test]
fn url_with_signature_and_session() {
    // signature over "api_keykmethodmsksk" + "sec": check shape and order
    let call = ApiCall::new("k", "m", Some("sk"));
    let url = call.to_url(b"sec", "https://ws.audioscrobbler.com/2.0/", true);
    assert!(url.starts_with(
        "https://ws.audioscrobbler.com/2.0/?api_key=k&method=m&sk=sk&api_sig="
    ));
    assert!(url.ends_with("&format=json"));
    // the signature is 32 hexadecimal characters
    let sig = url
        .split("api_sig=")
        .nth(1)
        .unwrap()
        .split('&')
        .next()
        .unwrap();
    assert_eq!(sig.len(), 32);
    assert!(sig.chars().all(|c| c.is_ascii_hexdigit() && !c.is_ascii_uppercase()));
}

#[test]
fn url_form_encodes_values() {
    let call = ApiCall::new("a key", "m+n", None);
    let url = call.to_url(b"s", "https://ws.audioscrobbler.com/2.0/", false);
    assert_eq!(
        url,
        "https://ws.audioscrobbler.com/2.0/?api_key=a+key&method=m%2Bn&format=json"
    );
}

#[test]
fn api_call_merges_plain_params() {
    let call = ApiCall::new("key", "m", None);
    let call = call.params(&vec![
        (String::from("user"), String::from("ana")),
        (String::from("method"), String::from("override")),
    ]);
    let url = call.to_url(b"s", "https://ws.audioscrobbler.com/2.0/", false);
    assert_eq!(
        url,
        "https://ws.audioscrobbler.com/2.0/?api_key=key&method=override&user=ana&format=json"
    );
}

#[test]
fn api_call_flattens_a_request() {
    let request = eclect::responses::GetRecentTracksRequest::with_limit(1);
    let call = ApiCall::new("key", "user.getRecentTracks", Some("sk"))
        .struct_params(&request.request_value())
        .unwrap();
    let url = call.to_url(b"s", "https://ws.audioscrobbler.com/2.0/", false);
    assert_eq!(
        url,
        "https://ws.audioscrobbler.com/2.0/?api_key=key&limit=1&method=user.getRecentTracks&sk=sk&format=json"
    );
}

#[test]
fn api_call_rejects_unflattenable_requests() {
    let bad = RequestValue::Record(vec![(String::from("xs"), FieldValue::Tuple(vec![]))]);
    let call = ApiCall::new("key", "m", None);
    assert!(call.struct_params(&bad).is_err());
}

#[test]
fn flatten_record_drops_absent_and_empty() {
    let req = RequestValue::Record(vec![
        (String::from("user"), FieldValue::Text(String::from("ana"))),
        (String::from("limit"), FieldValue::Opt(None)),
        (String::from("note"), FieldValue::Text(String::new())),
        (
            String::from("page"),
            FieldValue::Opt(Some(Box::new(FieldValue::U64(2)))),
        ),
    ]);
    let pairs = to_pairs(&req).unwrap();
    assert_eq!(
        pairs,
        vec![
            (String::from("user"), String::from("ana")),
            (String::from("page"), String::from("2")),
        ]
    );
}

#[test]
fn flatten_scalar_kinds() {
    let req = RequestValue::Record(vec![
        (String::from("b"), FieldValue::Bool(true)),
        (String::from("nb"), FieldValue::Bool(false)),
        (String::from("n"), FieldValue::I64(-45)),
        (String::from("c"), FieldValue::Ch('x')),
        (String::from("t"), FieldValue::Tag(String::from("Variant"))),
        (String::from("y"), FieldValue::Bytes(vec![104, 105])),
    ]);
    let pairs = to_pairs(&req).unwrap();
    assert_eq!(
        pairs,
        vec![
            (String::from("b"), String::from("1")),
            (String::from("nb"), String::from("0")),
            (String::from("n"), String::from("-45")),
            (String::from("c"), String::from("x")),
            (String::from("t"), String::from("Variant")),
            (String::from("y"), String::from("hi")),
        ]
    );
}

#[test]
fn flatten_lossy_bytes() {
    // an invalid UTF-8 byte decodes to the replacement character
    let req = RequestValue::Record(vec![(String::from("y"), FieldValue::Bytes(vec![0xff]))]);
    let pairs = to_pairs(&req).unwrap();
    assert_eq!(pairs[0].1, "\u{fffd}");
}

#[test]
fn flatten_rejects_nested_shapes() {
    let nested = RequestValue::Record(vec![(String::from("xs"), FieldValue::List(vec![]))]);
    assert!(to_pairs(&nested).is_err());
    let record = RequestValue::Record(vec![(
        String::from("inner"),
        FieldValue::Record(vec![]),
    )]);
    assert!(to_pairs(&record).is_err());
    let tagged = RequestValue::Record(vec![(
        String::from("e"),
        FieldValue::TaggedValue(String::from("V"), Box::new(FieldValue::U64(1))),
    )]);
    assert!(to_pairs(&tagged).is_err());
    let bare = RequestValue::Bare(Box::new(FieldValue::U64(1)));
    assert!(to_pairs(&bare).is_err());
}

#[test]
fn flatten_mapping_keeps_all_entries() {
    let req = RequestValue::Mapping(vec![
        (
            FieldValue::Text(String::from("k")),
            FieldValue::Text(String::new()),
        ),
    ]);
    let pairs = to_pairs(&req).unwrap();
    assert_eq!(pairs, vec![(String::from("k"), String::new())]);
}

#[test]
fn flatten_newtype() {
    let req = RequestValue::Newtype(
        String::from("wrapper"),
        Box::new(FieldValue::U64(7)),
    );
    let pairs = to_pairs(&req).unwrap();
    assert_eq!(pairs, vec![(String::from("wrapper"), String::from("7"))]);
}

#[test]
fn bool_shim_round_trip() {
    assert_eq!(parse_bool(serialize_bool(true).as_str()), Ok(true));
    assert_eq!(parse_bool(serialize_bool(false).as_str()), Ok(false));
}

#[test]
fn bool_shim_accepts_both_spellings() {
    assert_eq!(parse_bool("0"), Ok(false));
    assert_eq!(parse_bool("false"), Ok(false));
    assert_eq!(parse_bool("1"), Ok(true));
    assert_eq!(parse_bool("true"), Ok(true));
    assert!(parse_bool("2").is_err());
    assert!(parse_bool("True").is_err());
    let err = parse_bool("nope").unwrap_err();
    assert_eq!(err.value, "nope");
    assert_eq!(parse_option_bool("1"), Ok(Some(true)));
}

#[test]
fn number_shim() {
    assert_eq!(parse_from_string("123"), Ok(123));
    assert_eq!(parse_from_string("+7"), Ok(7));
    assert_eq!(parse_from_string("0"), Ok(0));
    assert_eq!(parse_from_string("4294967295"), Ok(u32::MAX));
    assert!(parse_from_string("4294967296").is_err());
    assert!(parse_from_string("").is_err());
    assert!(parse_from_string("12a").is_err());
    assert!(parse_from_string("-1").is_err());
    assert_eq!(parse_option_from_string("15"), Ok(Some(15)));
}

#[test]
fn error_codes() {
    assert_eq!(parse_code(4), ErrorCode::AuthenticationFailed);
    assert_eq!(parse_code(9), ErrorCode::InvalidSessionKey);
    assert_eq!(parse_code(10), ErrorCode::InvalidApiKey);
    assert_eq!(parse_code(29), ErrorCode::RateLimitExceeded);
    assert_eq!(parse_code(0), ErrorCode::Unknown);
    assert_eq!(parse_code(999), ErrorCode::Unknown);
    assert_eq!(parse_code(-3), ErrorCode::Unknown);
}

#[test]
fn error_rendering() {
    let e = LastFMError {
        message: String::from("no such session"),
        error: ErrorCode::InvalidSessionKey,
    };
    assert_eq!(e.describe(), "InvalidSessionKey: no such session");
}

#[test]
fn response_to_result() {
    let ok: Response<u32> = Response::Valid(5);
    assert_eq!(ok.to_result(), Ok(5));
    let err: Response<u32> = Response::LastFMError(LastFMError {
        message: String::from("m"),
        error: ErrorCode::Unknown,
    });
    assert!(err.to_result().is_err());
}

#[test]
fn auth_tiers() {
    assert!(AuthTier::SignatureOnly.needs_signature());
    assert!(AuthTier::SessionRequired.needs_signature());
    assert!(!AuthTier::SessionOptional.needs_signature());
    assert!(!AuthTier::Standard.needs_signature());
    assert_eq!(AuthTier::SessionOptional.session_to_send(Some("k")), Some("k"));
    assert_eq!(AuthTier::SignatureOnly.session_to_send(Some("k")), None);
}
