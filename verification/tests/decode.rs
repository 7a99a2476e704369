use eclect::api::Response;
use eclect::error::ErrorCode;
use eclect::json::{node_of_bytes, JsonNode};
use eclect::responses::{
    decode_info_response, decode_recent_tracks_envelope, decode_recent_tracks_response,
    decode_token_envelope, decode_token_response,
};

const GET_INFO_RAW: &[u8] = br##"
{
    "user": {
        "name": "TestUser",
        "age": "0",
        "subscriber": "1",
        "realname": "",
        "bootstrap": "0",
        "playcount": "1000",
        "artist_count": "2000",
        "playlists": "0",
        "track_count": "3000",
        "album_count": "4000",
        "image":[
            {
                "size": "small",
                "#text": "https://example.com/small.png"
            },
            {
                "size": "medium",
                "#text": "https://example.com/medium.png"
            },
            {
                "size": "large",
                "#text": "https://example.com/large.png"
            },
            {
                "size": "extralarge",
                "#text": "https://example.com/extralarge.png"
            }
        ],
        "registered": {
            "unixtime": "1350000000",
            "#text": 1350000000
        },
        "country": "United States",
        "gender": "n",
        "url": "https://www.last.fm/user/TestUser",
        "type": "subscriber"
    }
}
"##;

const GET_RECENT_TRACKS_RAW: &[u8] = br##"
{
    "recenttracks": {
        "track": [
            {
                "artist": {
                    "mbid": "69158f97-4c07-4c4e-baf8-4e4ab1ed666e",
                    "#text": "Boards of Canada"
                },
                "streamable": "0",
                "image": [
                    {
                        "size": "small",
                        "#text": "https://lastfm.freetls.fastly.net/i/u/34s/77b2419ede333b1b20ab565305bd8039.png"
                    },
                    {
                        "size": "medium",
                        "#text": "https://lastfm.freetls.fastly.net/i/u/64s/77b2419ede333b1b20ab565305bd8039.png"
                    },
                    {
                        "size": "large",
                        "#text": "https://lastfm.freetls.fastly.net/i/u/174s/77b2419ede333b1b20ab565305bd8039.png"
                    },
                    {
                        "size": "extralarge",
                        "#text": "https://lastfm.freetls.fastly.net/i/u/300x300/77b2419ede333b1b20ab565305bd8039.png"
                    }
                ],
                "mbid": "4131e57f-4826-4c0d-89aa-5205e0fee918",
                "album": {
                    "mbid": "21f8abb6-d3ce-4047-9b53-c3ccc4783eef",
                    "#text": "The Campfire Headphase"
                },
                "name": "Into the Rainbow Vein",
                "@attr": {
                    "nowplaying": "true"
                },
                "url": "https://www.last.fm/music/Boards+of+Canada/_/Into+the+Rainbow+Vein"
            },
            {
                "artist": {
                    "mbid": "69158f97-4c07-4c4e-baf8-4e4ab1ed666e",
                    "#text": "Boards of Canada"
                },
                "streamable": "0",
                "image": [
                    {
                        "size": "small",
                        "#text": "https://lastfm.freetls.fastly.net/i/u/34s/77b2419ede333b1b20ab565305bd8039.png"
                    },
                    {
                        "size": "medium",
                        "#text": "https://lastfm.freetls.fastly.net/i/u/64s/77b2419ede333b1b20ab565305bd8039.png"
                    },
                    {
                        "size": "large",
                        "#text": "https://lastfm.freetls.fastly.net/i/u/174s/77b2419ede333b1b20ab565305bd8039.png"
                    },
                    {
                        "size": "extralarge",
                        "#text": "https://lastfm.freetls.fastly.net/i/u/300x300/77b2419ede333b1b20ab565305bd8039.png"
                    }
                ],
                "mbid": "4131e57f-4826-4c0d-89aa-5205e0fee918",
                "album": {
                    "mbid": "21f8abb6-d3ce-4047-9b53-c3ccc4783eef",
                    "#text": "The Campfire Headphase"
                },
                "name": "Into the Rainbow Vein",
                "url": "https://www.last.fm/music/Boards+of+Canada/_/Into+the+Rainbow+Vein",
                "date": {
                    "uts": "1732873371",
                    "#text": "29 Nov 2024, 09:42"
                }
            }
        ],
        "@attr": {
            "user": "TestUser",
            "totalPages": "10000",
            "page": "1",
            "perPage": "1",
            "total": "10000"
        }
    }
}
"##;

#[test]
fn parse() -> Result<(), String> {
    let info_node = node_of_bytes(GET_INFO_RAW).ok_or(String::from("info body did not parse"))?;
    match decode_info_response(&info_node) {
        Err(err) => return Err(format!("{:?}", err)),
        Ok(resp) => {
            println!("{:?}", resp);
        }
    }
    let tracks_node =
        node_of_bytes(GET_RECENT_TRACKS_RAW).ok_or(String::from("tracks body did not parse"))?;
    match decode_recent_tracks_response(&tracks_node) {
        Err(err) => return Err(format!("{:?}", err)),
        Ok(resp) => {
            println!("{:?}", resp);
        }
    }
    Ok(())
}

#[test]
fn decoded_fields_are_typed() {
    let node = node_of_bytes(GET_INFO_RAW).unwrap();
    let resp = decode_info_response(&node).unwrap();
    let user = resp.user.unwrap();
    assert_eq!(user.name, "TestUser");
    assert_eq!(user.age, 0);
    assert!(user.subscriber);
    assert!(!user.bootstrap);
    assert_eq!(user.playcount, 1000);
    assert_eq!(user.image.len(), 4);
    assert_eq!(user.image[1].size, "medium");
    let registered = user.registered.unwrap();
    assert_eq!(registered.unixtime, 1350000000);
    assert_eq!(registered.text, 1350000000);
    assert_eq!(user.user_type, "subscriber");
}

#[test]
fn decoded_tracks_carry_the_marker() {
    let node = node_of_bytes(GET_RECENT_TRACKS_RAW).unwrap();
    let resp = decode_recent_tracks_response(&node).unwrap();
    let rt = resp.recenttracks.unwrap();
    assert_eq!(rt.track.len(), 2);
    assert_eq!(rt.track[0].attr.as_ref().unwrap().nowplaying, Some(true));
    assert!(rt.track[0].date.is_none());
    assert!(rt.track[1].attr.is_none());
    assert_eq!(rt.track[1].date.as_ref().unwrap().uts, 1732873371);
    assert!(!rt.track[0].streamable);
    let attr = rt.attr.unwrap();
    assert_eq!(attr.user, "TestUser");
    assert_eq!(attr.total_pages, 10000);
    assert_eq!(attr.per_page, 1);
}

#[test]
fn error_shape_is_tried_first() {
    let body = br#"{"error": 4, "message": "Invalid authentication token supplied"}"#;
    let node = node_of_bytes(body).unwrap();
    match decode_token_envelope(&node).unwrap() {
        Response::LastFMError(e) => {
            assert_eq!(e.error, ErrorCode::AuthenticationFailed);
            assert_eq!(e.message, "Invalid authentication token supplied");
        }
        Response::Valid(_) => panic!("the error shape must win"),
    }
}

#[test]
fn success_shape_decodes_as_payload() {
    let body = br#"{"token": "abc123"}"#;
    let node = node_of_bytes(body).unwrap();
    match decode_token_envelope(&node).unwrap() {
        Response::Valid(t) => assert_eq!(t.token, "abc123"),
        Response::LastFMError(_) => panic!("a token body is not an error"),
    }
}

#[test]
fn unknown_error_code_keeps_message() {
    let body = br#"{"error": 998, "message": "kept verbatim"}"#;
    let node = node_of_bytes(body).unwrap();
    match decode_token_envelope(&node).unwrap() {
        Response::LastFMError(e) => {
            assert_eq!(e.error, ErrorCode::Unknown);
            assert_eq!(e.message, "kept verbatim");
        }
        Response::Valid(_) => panic!("the error shape must win"),
    }
}

#[test]
fn neither_shape_is_rejected() {
    let body = br#"{"something": "else"}"#;
    let node = node_of_bytes(body).unwrap();
    assert!(decode_token_envelope(&node).is_err());
}

#[test]
fn shim_mismatch_fails_decode() {
    // a track listing whose count is not a number
    let body = br#"{"recenttracks": {"track": [], "@attr": {"user": "u", "totalPages": "x", "page": "1", "perPage": "1", "total": "9"}}}"#;
    let node = node_of_bytes(body).unwrap();
    assert!(decode_recent_tracks_envelope(&node).is_err());
}

#[test]
fn missing_required_field_fails_decode() {
    let body = br#"{"user": {"name": "only a name"}}"#;
    let node = node_of_bytes(body).unwrap();
    assert!(decode_info_response(&node).is_err());
}

#[test]
fn absent_optional_payload_is_none() {
    let body = br#"{}"#;
    let node = node_of_bytes(body).unwrap();
    let resp = decode_recent_tracks_response(&node).unwrap();
    assert!(resp.recenttracks.is_none());
}

#[test]
fn json_tree_shapes() {
    let body = br#"{"a": [1, -2, 4.5, "s", null, true]}"#;
    let node = node_of_bytes(body).unwrap();
    match node {
        JsonNode::Object(fields) => {
            assert_eq!(fields.len(), 1);
            assert_eq!(fields[0].0, "a");
            match &fields[0].1 {
                JsonNode::List(items) => {
                    assert_eq!(items.len(), 6);
                    assert!(matches!(items[0], JsonNode::Int(1)));
                    assert!(matches!(items[1], JsonNode::Int(-2)));
                    assert!(matches!(&items[2], JsonNode::Num(s) if s == "4.5"));
                    assert!(matches!(&items[3], JsonNode::Text(s) if s == "s"));
                    assert!(matches!(items[4], JsonNode::Null));
                    assert!(matches!(items[5], JsonNode::Bool(true)));
                }
                _ => panic!("expected a list"),
            }
        }
        _ => panic!("expected an object"),
    }
}

#[test]
fn token_decode_requires_text() {
    let body = br#"{"token": 5}"#;
    let node = node_of_bytes(body).unwrap();
    assert!(decode_token_response(&node).is_err());
}
