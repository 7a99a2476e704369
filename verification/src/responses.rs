//! The typed request and response records of the four methods the crate
//! calls, and the decoders that recover them from a parsed body.
//!
//! Decoding follows the wire convention throughout: scalars arrive as
//! strings and go through the shims; a field of optional type may be
//! absent and is then `None`; unknown fields are ignored; and a body is
//! tried against the error shape before the payload shape.

use vstd::prelude::*;
use vstd::string::StringExecFns;
use crate::error::{code_of_spec, parse_code, ErrorCode, LastFMError};
use crate::json::{deep_fields, jget, jlookup, JsonNode, JsonVal};
use crate::pairs::{FieldValue, RequestValue};
use crate::params::PairVal;
use crate::shim::{
    parse_bool, parse_bool_spec, parse_from_string, InvalidValue,
};
use crate::text::{dec_rep, parse_u32_spec};

verus! {

/// A body did not decode: a value of the wrong kind, a missing required
/// field, or a shape that is not the expected one.
#[derive(Clone, Debug, PartialEq)]
pub enum DecodeError {
    Invalid(InvalidValue),
    Missing(String),
    Shape(String),
}

// ---------------------------------------------------------------------
// request records

/// Asks for a fresh authorization token. No fields.
pub struct GetTokenRequest {}

/// Exchanges an authorization token for a session key.
pub struct GetSessionRequest {
    pub token: String,
}

/// Asks for an account profile.
pub struct GetInfoRequest {
    pub user: Option<String>,
}

/// Asks for the most recent tracks of the authenticated account.
pub struct GetRecentTracksRequest {
    pub user: Option<String>,
    pub limit: Option<u32>,
    pub page: Option<u32>,
}

/// One entry per present, non-empty text field.
pub open spec fn opt_text_entry(key: Seq<char>, v: Option<Seq<char>>) -> Seq<PairVal> {
    match v {
        Option::None => Seq::empty(),
        Option::Some(s) => if s.len() == 0 {
            Seq::empty()
        } else {
            seq![(key, s)]
        },
    }
}

/// One entry per present numeric field.
pub open spec fn opt_u32_entry(key: Seq<char>, v: Option<u32>) -> Seq<PairVal> {
    match v {
        Option::None => Seq::empty(),
        Option::Some(n) => seq![(key, dec_rep(n as nat))],
    }
}

impl GetTokenRequest {
    /// The request's flattening: no parameters.
    pub fn request_value(&self) -> (r: RequestValue)
        ensures
            crate::pairs::to_pairs_spec(r) == Ok::<_, ()>(Seq::<PairVal>::empty()),
    {
        let fields: Vec<(String, FieldValue)> = Vec::new();
        let r = RequestValue::Record(fields);
        proof {
            assert(fields@ =~= Seq::<(String, FieldValue)>::empty());
        }
        r
    }
}

impl GetSessionRequest {
    /// The request's flattening: its one token parameter.
    pub fn request_value(&self) -> (r: RequestValue)
        ensures
            crate::pairs::to_pairs_spec(r) == Ok::<_, ()>(
                opt_text_entry("token"@, Some(self.token@)),
            ),
    {
        let mut fields: Vec<(String, FieldValue)> = Vec::new();
        fields.push((String::from_str("token"), FieldValue::Text(self.token.clone())));
        let ghost expected = opt_text_entry("token"@, Some(self.token@));
        proof {
            let fs = fields@;
            let empty_fields = Seq::<(String, FieldValue)>::empty();
            assert(fs.drop_first() =~= empty_fields);
            assert(crate::pairs::record_pairs_spec(empty_fields) == Ok::<_, ()>(
                Seq::<PairVal>::empty(),
            ));
            assert(crate::pairs::flat_spec(fs[0].1) == Ok::<_, ()>(self.token@));
            assert(crate::pairs::record_pairs_spec(fs) is Ok);
            assert(crate::pairs::record_pairs_spec(fs).unwrap() =~= expected);
        }
        RequestValue::Record(fields)
    }
}

impl GetInfoRequest {
    /// The request's flattening: the user name when given and non-empty.
    pub fn request_value(&self) -> (r: RequestValue)
        ensures
            crate::pairs::to_pairs_spec(r) == Ok::<_, ()>(
                opt_text_entry(
                    "user"@,
                    match self.user {
                        Option::None => Option::None,
                        Option::Some(u) => Option::Some(u@),
                    },
                ),
            ),
    {
        let mut fields: Vec<(String, FieldValue)> = Vec::new();
        let field = match &self.user {
            None => FieldValue::Unit,
            Some(u) => FieldValue::Text(u.clone()),
        };
        fields.push((String::from_str("user"), field));
        proof {
            let fs = fields@;
            let empty_fields = Seq::<(String, FieldValue)>::empty();
            assert(fs.drop_first() =~= empty_fields);
            assert(crate::pairs::record_pairs_spec(empty_fields) == Ok::<_, ()>(
                Seq::<PairVal>::empty(),
            ));
            let expected = opt_text_entry(
                "user"@,
                if self.user is Some {
                    Option::Some(self.user->Some_0@)
                } else {
                    Option::None
                },
            );
            assert(crate::pairs::record_pairs_spec(fs) is Ok);
            assert(crate::pairs::record_pairs_spec(fs).unwrap() =~= expected);
        }
        RequestValue::Record(fields)
    }
}

impl GetRecentTracksRequest {
    /// A request for the first page, with nothing but the page size set.
    pub fn with_limit(limit: u32) -> (r: GetRecentTracksRequest)
        ensures
            r.user is None,
            r.limit == Some(limit),
            r.page is None,
    {
        GetRecentTracksRequest { user: None, limit: Some(limit), page: None }
    }

    /// The request's flattening: the present fields, numbers in decimal.
    pub fn request_value(&self) -> (r: RequestValue)
        ensures
            crate::pairs::to_pairs_spec(r) == Ok::<_, ()>(
                opt_text_entry(
                    "user"@,
                    match self.user {
                        Option::None => Option::None,
                        Option::Some(u) => Option::Some(u@),
                    },
                ) + opt_u32_entry("limit"@, self.limit) + opt_u32_entry("page"@, self.page),
            ),
    {
        let mut fields: Vec<(String, FieldValue)> = Vec::new();
        let user_field = match &self.user {
            None => FieldValue::Unit,
            Some(u) => FieldValue::Text(u.clone()),
        };
        let limit_field = match self.limit {
            None => FieldValue::Unit,
            Some(n) => FieldValue::U64(n as u64),
        };
        let page_field = match self.page {
            None => FieldValue::Unit,
            Some(n) => FieldValue::U64(n as u64),
        };
        fields.push((String::from_str("user"), user_field));
        fields.push((String::from_str("limit"), limit_field));
        fields.push((String::from_str("page"), page_field));
        proof {
            let fs = fields@;
            let expected = opt_text_entry(
                "user"@,
                if self.user is Some {
                    Option::Some(self.user->Some_0@)
                } else {
                    Option::None
                },
            ) + opt_u32_entry("limit"@, self.limit) + opt_u32_entry("page"@, self.page);
            let d1 = fs.drop_first();
            let d2 = d1.drop_first();
            let d3 = d2.drop_first();
            assert(d3 =~= Seq::<(String, FieldValue)>::empty());
            assert(d1[0] == fs[1] && d2[0] == fs[2]);
            lemma_dec_rep_nonempty();
            assert(crate::pairs::record_pairs_spec(d3) == Ok::<_, ()>(
                Seq::<PairVal>::empty(),
            ));
            assert(crate::pairs::flat_spec(d2[0].1) is Ok);
            assert(crate::pairs::record_pairs_spec(d2) is Ok);
            assert(crate::pairs::record_pairs_spec(d2).unwrap() =~= opt_u32_entry(
                "page"@,
                self.page,
            ));
            assert(crate::pairs::flat_spec(d1[0].1) is Ok);
            assert(crate::pairs::record_pairs_spec(d1) is Ok);
            assert(crate::pairs::record_pairs_spec(d1).unwrap() =~= opt_u32_entry(
                "limit"@,
                self.limit,
            ) + opt_u32_entry("page"@, self.page));
            assert(crate::pairs::flat_spec(fs[0].1) is Ok);
            assert(crate::pairs::record_pairs_spec(fs) is Ok);
            assert(crate::pairs::record_pairs_spec(fs).unwrap() =~= expected);
        }
        RequestValue::Record(fields)
    }
}

/// A decimal rendering is never the empty string.
pub proof fn lemma_dec_rep_nonempty()
    ensures
        forall|n: nat| (#[trigger] dec_rep(n)).len() > 0,
{
    assert forall|n: nat| (#[trigger] dec_rep(n)).len() > 0 by {
        if n < 10 {
        } else {
            assert(dec_rep(n) == dec_rep(n / 10).push(crate::text::dec_digit((n % 10) as int)));
        }
    }
}

// ---------------------------------------------------------------------
// field readers

/// A required text field.
pub open spec fn req_text(f: Seq<(Seq<char>, JsonVal)>, key: Seq<char>) -> Option<Seq<char>> {
    match jlookup(f, key) {
        Some(JsonVal::Text(s)) => Some(s),
        _ => None,
    }
}

/// A required boolean field, read through the boolean shim.
pub open spec fn req_bool(f: Seq<(Seq<char>, JsonVal)>, key: Seq<char>) -> Option<bool> {
    match jlookup(f, key) {
        Some(JsonVal::Text(s)) => parse_bool_spec(s),
        _ => None,
    }
}

/// A required numeric field, read through the number shim.
pub open spec fn req_u32(f: Seq<(Seq<char>, JsonVal)>, key: Seq<char>) -> Option<u32> {
    match jlookup(f, key) {
        Some(JsonVal::Text(s)) => parse_u32_spec(s),
        _ => None,
    }
}

/// A required plain integer field, as the wire's own number.
pub open spec fn req_u64_int(f: Seq<(Seq<char>, JsonVal)>, key: Seq<char>) -> Option<u64> {
    match jlookup(f, key) {
        Some(JsonVal::Int(i)) => if i >= 0 {
            Some(i as u64)
        } else {
            None
        },
        _ => None,
    }
}

/// An optional boolean field: absent is `None`, present goes through the
/// boolean shim.
pub open spec fn opt_bool(f: Seq<(Seq<char>, JsonVal)>, key: Seq<char>) -> Option<Option<bool>> {
    match jlookup(f, key) {
        None => Some(None),
        Some(JsonVal::Text(s)) => match parse_bool_spec(s) {
            Some(b) => Some(Some(b)),
            None => None,
        },
        Some(_) => None,
    }
}

fn get_req_text(fields: &Vec<(String, JsonNode)>, key: &str) -> (r: Result<String, DecodeError>)
    ensures
        r is Ok <==> req_text(deep_fields(fields@), key@) is Some,
        r matches Ok(s) ==> req_text(deep_fields(fields@), key@) == Some(s@),
{
    match jget(fields, key) {
        None => Err(DecodeError::Missing(String::from_str(key))),
        Some(node) => match node {
            JsonNode::Text(s) => Ok(s.clone()),
            _ => Err(DecodeError::Shape(String::from_str(key))),
        },
    }
}

fn get_req_bool(fields: &Vec<(String, JsonNode)>, key: &str) -> (r: Result<bool, DecodeError>)
    ensures
        r is Ok <==> req_bool(deep_fields(fields@), key@) is Some,
        r matches Ok(b) ==> req_bool(deep_fields(fields@), key@) == Some(b),
{
    match jget(fields, key) {
        None => Err(DecodeError::Missing(String::from_str(key))),
        Some(node) => match node {
            JsonNode::Text(s) => match parse_bool(s.as_str()) {
                Ok(b) => Ok(b),
                Err(e) => Err(DecodeError::Invalid(e)),
            },
            _ => Err(DecodeError::Shape(String::from_str(key))),
        },
    }
}

fn get_req_u32(fields: &Vec<(String, JsonNode)>, key: &str) -> (r: Result<u32, DecodeError>)
    ensures
        r is Ok <==> req_u32(deep_fields(fields@), key@) is Some,
        r matches Ok(n) ==> req_u32(deep_fields(fields@), key@) == Some(n),
{
    match jget(fields, key) {
        None => Err(DecodeError::Missing(String::from_str(key))),
        Some(node) => match node {
            JsonNode::Text(s) => match parse_from_string(s.as_str()) {
                Ok(n) => Ok(n),
                Err(e) => Err(DecodeError::Invalid(e)),
            },
            _ => Err(DecodeError::Shape(String::from_str(key))),
        },
    }
}

fn get_req_u64_int(fields: &Vec<(String, JsonNode)>, key: &str) -> (r: Result<
    u64,
    DecodeError,
>)
    ensures
        r is Ok <==> req_u64_int(deep_fields(fields@), key@) is Some,
        r matches Ok(n) ==> req_u64_int(deep_fields(fields@), key@) == Some(n),
{
    match jget(fields, key) {
        None => Err(DecodeError::Missing(String::from_str(key))),
        Some(node) => match node {
            JsonNode::Int(i) => {
                let i = *i;
                if i >= 0 {
                    Ok(i as u64)
                } else {
                    Err(DecodeError::Shape(String::from_str(key)))
                }
            },
            _ => Err(DecodeError::Shape(String::from_str(key))),
        },
    }
}

fn get_opt_bool(fields: &Vec<(String, JsonNode)>, key: &str) -> (r: Result<
    Option<bool>,
    DecodeError,
>)
    ensures
        r is Ok <==> opt_bool(deep_fields(fields@), key@) is Some,
        r matches Ok(b) ==> opt_bool(deep_fields(fields@), key@) == Some(b),
{
    match jget(fields, key) {
        None => Ok(None),
        Some(node) => match node {
            JsonNode::Text(s) => match parse_bool(s.as_str()) {
                Ok(b) => Ok(Some(b)),
                Err(e) => Err(DecodeError::Invalid(e)),
            },
            _ => Err(DecodeError::Shape(String::from_str(key))),
        },
    }
}

// ---------------------------------------------------------------------
// response records and their mathematical values

/// One cover image of a track or account.
#[derive(Clone, Debug, PartialEq)]
pub struct Image {
    pub size: String,
    pub text: String,
}

pub struct ImageVal {
    pub size: Seq<char>,
    pub text: Seq<char>,
}

impl View for Image {
    type V = ImageVal;

    open spec fn view(&self) -> ImageVal {
        ImageVal { size: self.size@, text: self.text@ }
    }
}

/// A track's artist: its identifier and display name.
#[derive(Clone, Debug, PartialEq)]
pub struct Artist {
    pub mbid: String,
    pub text: String,
}

pub struct ArtistVal {
    pub mbid: Seq<char>,
    pub text: Seq<char>,
}

impl View for Artist {
    type V = ArtistVal;

    open spec fn view(&self) -> ArtistVal {
        ArtistVal { mbid: self.mbid@, text: self.text@ }
    }
}

/// A track's album: its identifier and display name.
#[derive(Clone, Debug, PartialEq)]
pub struct Album {
    pub mbid: String,
    pub text: String,
}

pub struct AlbumVal {
    pub mbid: Seq<char>,
    pub text: Seq<char>,
}

impl View for Album {
    type V = AlbumVal;

    open spec fn view(&self) -> AlbumVal {
        AlbumVal { mbid: self.mbid@, text: self.text@ }
    }
}

/// A track's attribute block; the now-playing marker lives here.
#[derive(Clone, Debug, PartialEq)]
pub struct Attributes {
    pub nowplaying: Option<bool>,
}

pub struct AttributesVal {
    pub nowplaying: Option<bool>,
}

impl View for Attributes {
    type V = AttributesVal;

    open spec fn view(&self) -> AttributesVal {
        AttributesVal { nowplaying: self.nowplaying }
    }
}

/// When a historical track was played.
#[derive(Clone, Debug, PartialEq)]
pub struct TrackDate {
    pub uts: u32,
    pub text: String,
}

pub struct TrackDateVal {
    pub uts: u32,
    pub text: Seq<char>,
}

impl View for TrackDate {
    type V = TrackDateVal;

    open spec fn view(&self) -> TrackDateVal {
        TrackDateVal { uts: self.uts, text: self.text@ }
    }
}

/// One listed track.
#[derive(Clone, Debug, PartialEq)]
pub struct Track {
    pub artist: Option<Artist>,
    pub streamable: bool,
    pub image: Vec<Image>,
    pub mbid: String,
    pub album: Option<Album>,
    pub name: String,
    pub attr: Option<Attributes>,
    pub url: String,
    pub date: Option<TrackDate>,
}

pub struct TrackVal {
    pub artist: Option<ArtistVal>,
    pub streamable: bool,
    pub image: Seq<ImageVal>,
    pub mbid: Seq<char>,
    pub album: Option<AlbumVal>,
    pub name: Seq<char>,
    pub attr: Option<AttributesVal>,
    pub url: Seq<char>,
    pub date: Option<TrackDateVal>,
}

/// The views of a list of images.
pub open spec fn images_view(s: Seq<Image>) -> Seq<ImageVal> {
    Seq::new(s.len(), |i: int| s[i]@)
}

impl View for Track {
    type V = TrackVal;

    open spec fn view(&self) -> TrackVal {
        TrackVal {
            artist: match self.artist {
                Option::None => Option::None,
                Option::Some(a) => Option::Some(a@),
            },
            streamable: self.streamable,
            image: images_view(self.image@),
            mbid: self.mbid@,
            album: match self.album {
                Option::None => Option::None,
                Option::Some(a) => Option::Some(a@),
            },
            name: self.name@,
            attr: match self.attr {
                Option::None => Option::None,
                Option::Some(a) => Option::Some(a@),
            },
            url: self.url@,
            date: match self.date {
                Option::None => Option::None,
                Option::Some(d) => Option::Some(d@),
            },
        }
    }
}

/// The paging attributes of a track listing.
#[derive(Clone, Debug, PartialEq)]
pub struct ListAttributes {
    pub user: String,
    pub total_pages: u32,
    pub page: u32,
    pub per_page: u32,
    pub total: u32,
}

pub struct ListAttributesVal {
    pub user: Seq<char>,
    pub total_pages: u32,
    pub page: u32,
    pub per_page: u32,
    pub total: u32,
}

impl View for ListAttributes {
    type V = ListAttributesVal;

    open spec fn view(&self) -> ListAttributesVal {
        ListAttributesVal {
            user: self.user@,
            total_pages: self.total_pages,
            page: self.page,
            per_page: self.per_page,
            total: self.total,
        }
    }
}

/// The track listing of a recent-tracks answer.
#[derive(Clone, Debug, PartialEq)]
pub struct RecentTracks {
    pub track: Vec<Track>,
    pub attr: Option<ListAttributes>,
}

pub struct RecentTracksVal {
    pub track: Seq<TrackVal>,
    pub attr: Option<ListAttributesVal>,
}

/// The views of a list of tracks.
pub open spec fn tracks_view(s: Seq<Track>) -> Seq<TrackVal> {
    Seq::new(s.len(), |i: int| s[i]@)
}

impl View for RecentTracks {
    type V = RecentTracksVal;

    open spec fn view(&self) -> RecentTracksVal {
        RecentTracksVal {
            track: tracks_view(self.track@),
            attr: match self.attr {
                Option::None => Option::None,
                Option::Some(a) => Option::Some(a@),
            },
        }
    }
}

/// The whole recent-tracks answer.
#[derive(Clone, Debug, PartialEq)]
pub struct GetRecentTracksResponse {
    pub recenttracks: Option<RecentTracks>,
}

pub struct GetRecentTracksResponseVal {
    pub recenttracks: Option<RecentTracksVal>,
}

impl View for GetRecentTracksResponse {
    type V = GetRecentTracksResponseVal;

    open spec fn view(&self) -> GetRecentTracksResponseVal {
        GetRecentTracksResponseVal {
            recenttracks: match self.recenttracks {
                Option::None => Option::None,
                Option::Some(r) => Option::Some(r@),
            },
        }
    }
}

/// A fresh authorization token.
#[derive(Clone, Debug, PartialEq)]
pub struct GetTokenResponse {
    pub token: String,
}

pub struct GetTokenResponseVal {
    pub token: Seq<char>,
}

impl View for GetTokenResponse {
    type V = GetTokenResponseVal;

    open spec fn view(&self) -> GetTokenResponseVal {
        GetTokenResponseVal { token: self.token@ }
    }
}

/// An established session.
#[derive(Clone, Debug, PartialEq)]
pub struct Session {
    pub name: String,
    pub key: String,
    pub subscriber: u32,
}

pub struct SessionVal {
    pub name: Seq<char>,
    pub key: Seq<char>,
    pub subscriber: u32,
}

impl View for Session {
    type V = SessionVal;

    open spec fn view(&self) -> SessionVal {
        SessionVal { name: self.name@, key: self.key@, subscriber: self.subscriber }
    }
}

/// The answer to a session exchange.
#[derive(Clone, Debug, PartialEq)]
pub struct GetSessionResponse {
    pub session: Option<Session>,
}

pub struct GetSessionResponseVal {
    pub session: Option<SessionVal>,
}

impl View for GetSessionResponse {
    type V = GetSessionResponseVal;

    open spec fn view(&self) -> GetSessionResponseVal {
        GetSessionResponseVal {
            session: match self.session {
                Option::None => Option::None,
                Option::Some(s) => Option::Some(s@),
            },
        }
    }
}

/// When an account registered.
#[derive(Clone, Debug, PartialEq)]
pub struct Registered {
    pub unixtime: u32,
    pub text: u64,
}

pub struct RegisteredVal {
    pub unixtime: u32,
    pub text: u64,
}

impl View for Registered {
    type V = RegisteredVal;

    open spec fn view(&self) -> RegisteredVal {
        RegisteredVal { unixtime: self.unixtime, text: self.text }
    }
}

/// An account profile.
#[derive(Clone, Debug, PartialEq)]
pub struct User {
    pub name: String,
    pub age: u32,
    pub subscriber: bool,
    pub realname: String,
    pub bootstrap: bool,
    pub playcount: u32,
    pub image: Vec<Image>,
    pub registered: Option<Registered>,
    pub country: String,
    pub url: String,
    pub user_type: String,
}

pub struct UserVal {
    pub name: Seq<char>,
    pub age: u32,
    pub subscriber: bool,
    pub realname: Seq<char>,
    pub bootstrap: bool,
    pub playcount: u32,
    pub image: Seq<ImageVal>,
    pub registered: Option<RegisteredVal>,
    pub country: Seq<char>,
    pub url: Seq<char>,
    pub user_type: Seq<char>,
}

impl View for User {
    type V = UserVal;

    open spec fn view(&self) -> UserVal {
        UserVal {
            name: self.name@,
            age: self.age,
            subscriber: self.subscriber,
            realname: self.realname@,
            bootstrap: self.bootstrap,
            playcount: self.playcount,
            image: images_view(self.image@),
            registered: match self.registered {
                Option::None => Option::None,
                Option::Some(r) => Option::Some(r@),
            },
            country: self.country@,
            url: self.url@,
            user_type: self.user_type@,
        }
    }
}

/// The answer to a profile request.
#[derive(Clone, Debug, PartialEq)]
pub struct GetInfoResponse {
    pub user: Option<User>,
}

pub struct GetInfoResponseVal {
    pub user: Option<UserVal>,
}

impl View for GetInfoResponse {
    type V = GetInfoResponseVal;

    open spec fn view(&self) -> GetInfoResponseVal {
        GetInfoResponseVal {
            user: match self.user {
                Option::None => Option::None,
                Option::Some(u) => Option::Some(u@),
            },
        }
    }
}

// ---------------------------------------------------------------------
// decoders

/// What an image decodes from: an object with its two text fields.
pub open spec fn decode_image_val(v: JsonVal) -> Option<ImageVal> {
    match v {
        JsonVal::Object(f) => match (req_text(f, "size"@), req_text(f, "#text"@)) {
            (Some(size), Some(text)) => Some(ImageVal { size, text }),
            _ => None,
        },
        _ => None,
    }
}

/// Decodes one image.
pub fn decode_image(node: &JsonNode) -> (r: Result<Image, DecodeError>)
    ensures
        r is Ok <==> decode_image_val(node.deep()) is Some,
        r matches Ok(img) ==> decode_image_val(node.deep()) == Some(img@),
{
    match node {
        JsonNode::Object(fields) => {
            let size = match get_req_text(fields, "size") {
                Ok(s) => s,
                Err(e) => {
                    return Err(e);
                },
            };
            let text = match get_req_text(fields, "#text") {
                Ok(s) => s,
                Err(e) => {
                    return Err(e);
                },
            };
            Ok(Image { size, text })
        },
        _ => Err(DecodeError::Shape(String::from_str("image"))),
    }
}

/// What a list of images decodes from: every element an image.
pub open spec fn decode_images_val(items: Seq<JsonVal>) -> Option<Seq<ImageVal>>
    decreases items.len(),
{
    if items.len() == 0 {
        Some(Seq::empty())
    } else {
        match (decode_image_val(items[0]), decode_images_val(items.drop_first())) {
            (Some(img), Some(rest)) => Some(seq![img] + rest),
            _ => None,
        }
    }
}

proof fn lemma_decode_images_snoc(items: Seq<JsonVal>, i: int)
    requires
        0 <= i < items.len(),
        decode_images_val(items.take(i)) is Some,
        decode_image_val(items[i]) is Some,
    ensures
        decode_images_val(items.take(i + 1)) == Some(
            decode_images_val(items.take(i)).unwrap().push(decode_image_val(items[i]).unwrap()),
        ),
    decreases i,
{
    if i == 0 {
        assert(items.take(1).drop_first() =~= Seq::empty());
        assert(items.take(0) =~= Seq::empty());
        assert(items.take(1)[0] == items[0]);
        assert(seq![decode_image_val(items[0]).unwrap()] + Seq::empty() =~= Seq::empty().push(
            decode_image_val(items[0]).unwrap(),
        ));
    } else {
        let d = items.drop_first();
        assert(items.take(i + 1)[0] == items[0]);
        assert(items.take(i)[0] == items[0]);
        assert(items.take(i + 1).drop_first() =~= d.take(i));
        assert(items.take(i).drop_first() =~= d.take(i - 1));
        assert(d[i - 1] == items[i]);
        assert(decode_images_val(d.take(i - 1)) is Some);
        lemma_decode_images_snoc(d, i - 1);
        let head = decode_image_val(items[0]).unwrap();
        let p = decode_image_val(items[i]).unwrap();
        assert(seq![head] + decode_images_val(d.take(i - 1)).unwrap().push(p) =~= (seq![head]
            + decode_images_val(d.take(i - 1)).unwrap()).push(p));
    }
}

proof fn lemma_decode_images_err(items: Seq<JsonVal>, i: int)
    requires
        0 <= i < items.len(),
        decode_image_val(items[i]) is None,
    ensures
        decode_images_val(items) is None,
    decreases i,
{
    if i == 0 {
    } else {
        lemma_decode_images_err(items.drop_first(), i - 1);
    }
}

/// Decodes a list of images.
pub fn decode_images(items: &Vec<JsonNode>) -> (r: Result<Vec<Image>, DecodeError>)
    ensures
        r is Ok <==> decode_images_val(crate::json::deep_list(items@)) is Some,
        r matches Ok(v) ==> decode_images_val(crate::json::deep_list(items@)) == Some(
            images_view(v@),
        ),
{
    let ghost d = crate::json::deep_list(items@);
    let mut out: Vec<Image> = Vec::new();
    let mut i: usize = 0;
    proof {
        crate::json::lemma_deep_list_index(items@);
        assert(d.take(0) =~= Seq::<JsonVal>::empty());
        assert(images_view(out@) =~= Seq::<ImageVal>::empty());
    }
    while i < items.len()
        invariant
            i <= items.len(),
            d == crate::json::deep_list(items@),
            d.len() == items@.len(),
            forall|j: int| 0 <= j < items@.len() ==> #[trigger] d[j] == items@[j].deep(),
            decode_images_val(d.take(i as int)) == Some(images_view(out@)),
        decreases items.len() - i,
    {
        match decode_image(&items[i]) {
            Ok(img) => {
                out.push(img);
                proof {
                    lemma_decode_images_snoc(d, i as int);
                    assert(images_view(out@) =~= decode_images_val(d.take(i + 1)).unwrap());
                }
            },
            Err(e) => {
                proof {
                    lemma_decode_images_err(d, i as int);
                }
                return Err(e);
            },
        }
        i += 1;
    }
    proof {
        assert(d.take(items@.len() as int) =~= d);
    }
    Ok(out)
}

/// What an artist decodes from.
pub open spec fn decode_artist_val(v: JsonVal) -> Option<ArtistVal> {
    match v {
        JsonVal::Object(f) => match (req_text(f, "mbid"@), req_text(f, "#text"@)) {
            (Some(mbid), Some(text)) => Some(ArtistVal { mbid, text }),
            _ => None,
        },
        _ => None,
    }
}

/// Decodes one artist.
pub fn decode_artist(node: &JsonNode) -> (r: Result<Artist, DecodeError>)
    ensures
        r is Ok <==> decode_artist_val(node.deep()) is Some,
        r matches Ok(a) ==> decode_artist_val(node.deep()) == Some(a@),
{
    match node {
        JsonNode::Object(fields) => {
            let mbid = match get_req_text(fields, "mbid") {
                Ok(s) => s,
                Err(e) => {
                    return Err(e);
                },
            };
            let text = match get_req_text(fields, "#text") {
                Ok(s) => s,
                Err(e) => {
                    return Err(e);
                },
            };
            Ok(Artist { mbid, text })
        },
        _ => Err(DecodeError::Shape(String::from_str("artist"))),
    }
}

/// What an album decodes from.
pub open spec fn decode_album_val(v: JsonVal) -> Option<AlbumVal> {
    match v {
        JsonVal::Object(f) => match (req_text(f, "mbid"@), req_text(f, "#text"@)) {
            (Some(mbid), Some(text)) => Some(AlbumVal { mbid, text }),
            _ => None,
        },
        _ => None,
    }
}

/// Decodes one album.
pub fn decode_album(node: &JsonNode) -> (r: Result<Album, DecodeError>)
    ensures
        r is Ok <==> decode_album_val(node.deep()) is Some,
        r matches Ok(a) ==> decode_album_val(node.deep()) == Some(a@),
{
    match node {
        JsonNode::Object(fields) => {
            let mbid = match get_req_text(fields, "mbid") {
                Ok(s) => s,
                Err(e) => {
                    return Err(e);
                },
            };
            let text = match get_req_text(fields, "#text") {
                Ok(s) => s,
                Err(e) => {
                    return Err(e);
                },
            };
            Ok(Album { mbid, text })
        },
        _ => Err(DecodeError::Shape(String::from_str("album"))),
    }
}

/// What an attribute block decodes from: its optional now-playing marker.
pub open spec fn decode_attributes_val(v: JsonVal) -> Option<AttributesVal> {
    match v {
        JsonVal::Object(f) => match opt_bool(f, "nowplaying"@) {
            Some(b) => Some(AttributesVal { nowplaying: b }),
            None => None,
        },
        _ => None,
    }
}

/// Decodes a track's attribute block.
pub fn decode_attributes(node: &JsonNode) -> (r: Result<Attributes, DecodeError>)
    ensures
        r is Ok <==> decode_attributes_val(node.deep()) is Some,
        r matches Ok(a) ==> decode_attributes_val(node.deep()) == Some(a@),
{
    match node {
        JsonNode::Object(fields) => {
            let nowplaying = match get_opt_bool(fields, "nowplaying") {
                Ok(b) => b,
                Err(e) => {
                    return Err(e);
                },
            };
            Ok(Attributes { nowplaying })
        },
        _ => Err(DecodeError::Shape(String::from_str("@attr"))),
    }
}

/// What a play date decodes from.
pub open spec fn decode_date_val(v: JsonVal) -> Option<TrackDateVal> {
    match v {
        JsonVal::Object(f) => match (req_u32(f, "uts"@), req_text(f, "#text"@)) {
            (Some(uts), Some(text)) => Some(TrackDateVal { uts, text }),
            _ => None,
        },
        _ => None,
    }
}

/// Decodes a play date.
pub fn decode_date(node: &JsonNode) -> (r: Result<TrackDate, DecodeError>)
    ensures
        r is Ok <==> decode_date_val(node.deep()) is Some,
        r matches Ok(d) ==> decode_date_val(node.deep()) == Some(d@),
{
    match node {
        JsonNode::Object(fields) => {
            let uts = match get_req_u32(fields, "uts") {
                Ok(n) => n,
                Err(e) => {
                    return Err(e);
                },
            };
            let text = match get_req_text(fields, "#text") {
                Ok(s) => s,
                Err(e) => {
                    return Err(e);
                },
            };
            Ok(TrackDate { uts, text })
        },
        _ => Err(DecodeError::Shape(String::from_str("date"))),
    }
}

/// An optional nested record: absent or null is `None`.
pub open spec fn opt_artist(f: Seq<(Seq<char>, JsonVal)>, key: Seq<char>) -> Option<
    Option<ArtistVal>,
> {
    match jlookup(f, key) {
        None => Some(None),
        Some(JsonVal::Null) => Some(None),
        Some(v) => match decode_artist_val(v) {
            Some(a) => Some(Some(a)),
            None => None,
        },
    }
}

pub open spec fn opt_album(f: Seq<(Seq<char>, JsonVal)>, key: Seq<char>) -> Option<
    Option<AlbumVal>,
> {
    match jlookup(f, key) {
        None => Some(None),
        Some(JsonVal::Null) => Some(None),
        Some(v) => match decode_album_val(v) {
            Some(a) => Some(Some(a)),
            None => None,
        },
    }
}

pub open spec fn opt_attributes(f: Seq<(Seq<char>, JsonVal)>, key: Seq<char>) -> Option<
    Option<AttributesVal>,
> {
    match jlookup(f, key) {
        None => Some(None),
        Some(JsonVal::Null) => Some(None),
        Some(v) => match decode_attributes_val(v) {
            Some(a) => Some(Some(a)),
            None => None,
        },
    }
}

pub open spec fn opt_date(f: Seq<(Seq<char>, JsonVal)>, key: Seq<char>) -> Option<
    Option<TrackDateVal>,
> {
    match jlookup(f, key) {
        None => Some(None),
        Some(JsonVal::Null) => Some(None),
        Some(v) => match decode_date_val(v) {
            Some(d) => Some(Some(d)),
            None => None,
        },
    }
}

/// What a track decodes from.
pub open spec fn decode_track_val(v: JsonVal) -> Option<TrackVal> {
    match v {
        JsonVal::Object(f) => {
            let artist = opt_artist(f, "artist"@);
            let streamable = req_bool(f, "streamable"@);
            let image = match jlookup(f, "image"@) {
                Some(JsonVal::List(items)) => decode_images_val(items),
                _ => None,
            };
            let mbid = req_text(f, "mbid"@);
            let album = opt_album(f, "album"@);
            let name = req_text(f, "name"@);
            let attr = opt_attributes(f, "@attr"@);
            let url = req_text(f, "url"@);
            let date = opt_date(f, "date"@);
            if artist is Some && streamable is Some && image is Some && mbid is Some && album
                is Some && name is Some && attr is Some && url is Some && date is Some {
                Some(
                    TrackVal {
                        artist: artist.unwrap(),
                        streamable: streamable.unwrap(),
                        image: image.unwrap(),
                        mbid: mbid.unwrap(),
                        album: album.unwrap(),
                        name: name.unwrap(),
                        attr: attr.unwrap(),
                        url: url.unwrap(),
                        date: date.unwrap(),
                    },
                )
            } else {
                None
            }
        },
        _ => None,
    }
}

/// Decodes one track.
pub fn decode_track(node: &JsonNode) -> (r: Result<Track, DecodeError>)
    ensures
        r is Ok <==> decode_track_val(node.deep()) is Some,
        r matches Ok(t) ==> decode_track_val(node.deep()) == Some(t@),
{
    match node {
        JsonNode::Object(fields) => {
            let ghost f = deep_fields(fields@);
            let artist = match jget(fields, "artist") {
                None => None,
                Some(n) => match n {
                    JsonNode::Null => None,
                    _ => match decode_artist(n) {
                        Ok(a) => Some(a),
                        Err(e) => {
                            proof {
                                assert(opt_artist(f, "artist"@) is None);
                            }
                            return Err(e);
                        },
                    },
                },
            };
            let streamable = match get_req_bool(fields, "streamable") {
                Ok(b) => b,
                Err(e) => {
                    return Err(e);
                },
            };
            let image = match jget(fields, "image") {
                Some(n) => match n {
                    JsonNode::List(items) => match decode_images(items) {
                        Ok(v) => v,
                        Err(e) => {
                            return Err(e);
                        },
                    },
                    _ => {
                        return Err(DecodeError::Shape(String::from_str("image")));
                    },
                },
                None => {
                    return Err(DecodeError::Missing(String::from_str("image")));
                },
            };
            let mbid = match get_req_text(fields, "mbid") {
                Ok(s) => s,
                Err(e) => {
                    return Err(e);
                },
            };
            let album = match jget(fields, "album") {
                None => None,
                Some(n) => match n {
                    JsonNode::Null => None,
                    _ => match decode_album(n) {
                        Ok(a) => Some(a),
                        Err(e) => {
                            proof {
                                assert(opt_album(f, "album"@) is None);
                            }
                            return Err(e);
                        },
                    },
                },
            };
            let name = match get_req_text(fields, "name") {
                Ok(s) => s,
                Err(e) => {
                    return Err(e);
                },
            };
            let attr = match jget(fields, "@attr") {
                None => None,
                Some(n) => match n {
                    JsonNode::Null => None,
                    _ => match decode_attributes(n) {
                        Ok(a) => Some(a),
                        Err(e) => {
                            proof {
                                assert(opt_attributes(f, "@attr"@) is None);
                            }
                            return Err(e);
                        },
                    },
                },
            };
            let url = match get_req_text(fields, "url") {
                Ok(s) => s,
                Err(e) => {
                    return Err(e);
                },
            };
            let date = match jget(fields, "date") {
                None => None,
                Some(n) => match n {
                    JsonNode::Null => None,
                    _ => match decode_date(n) {
                        Ok(d) => Some(d),
                        Err(e) => {
                            proof {
                                assert(opt_date(f, "date"@) is None);
                            }
                            return Err(e);
                        },
                    },
                },
            };
            let t = Track { artist, streamable, image, mbid, album, name, attr, url, date };
            proof {
                assert(decode_track_val(node.deep()) == Some(t@));
            }
            Ok(t)
        },
        _ => Err(DecodeError::Shape(String::from_str("track"))),
    }
}

/// What a list of tracks decodes from: every element a track.
pub open spec fn decode_tracks_val(items: Seq<JsonVal>) -> Option<Seq<TrackVal>>
    decreases items.len(),
{
    if items.len() == 0 {
        Some(Seq::empty())
    } else {
        match (decode_track_val(items[0]), decode_tracks_val(items.drop_first())) {
            (Some(t), Some(rest)) => Some(seq![t] + rest),
            _ => None,
        }
    }
}

proof fn lemma_decode_tracks_snoc(items: Seq<JsonVal>, i: int)
    requires
        0 <= i < items.len(),
        decode_tracks_val(items.take(i)) is Some,
        decode_track_val(items[i]) is Some,
    ensures
        decode_tracks_val(items.take(i + 1)) == Some(
            decode_tracks_val(items.take(i)).unwrap().push(decode_track_val(items[i]).unwrap()),
        ),
    decreases i,
{
    if i == 0 {
        assert(items.take(1).drop_first() =~= Seq::empty());
        assert(items.take(0) =~= Seq::empty());
        assert(items.take(1)[0] == items[0]);
        assert(seq![decode_track_val(items[0]).unwrap()] + Seq::empty() =~= Seq::empty().push(
            decode_track_val(items[0]).unwrap(),
        ));
    } else {
        let d = items.drop_first();
        assert(items.take(i + 1)[0] == items[0]);
        assert(items.take(i)[0] == items[0]);
        assert(items.take(i + 1).drop_first() =~= d.take(i));
        assert(items.take(i).drop_first() =~= d.take(i - 1));
        assert(d[i - 1] == items[i]);
        assert(decode_tracks_val(d.take(i - 1)) is Some);
        lemma_decode_tracks_snoc(d, i - 1);
        let head = decode_track_val(items[0]).unwrap();
        let p = decode_track_val(items[i]).unwrap();
        assert(seq![head] + decode_tracks_val(d.take(i - 1)).unwrap().push(p) =~= (seq![head]
            + decode_tracks_val(d.take(i - 1)).unwrap()).push(p));
    }
}

proof fn lemma_decode_tracks_err(items: Seq<JsonVal>, i: int)
    requires
        0 <= i < items.len(),
        decode_track_val(items[i]) is None,
    ensures
        decode_tracks_val(items) is None,
    decreases i,
{
    if i == 0 {
    } else {
        lemma_decode_tracks_err(items.drop_first(), i - 1);
    }
}

/// Decodes a list of tracks.
pub fn decode_tracks(items: &Vec<JsonNode>) -> (r: Result<Vec<Track>, DecodeError>)
    ensures
        r is Ok <==> decode_tracks_val(crate::json::deep_list(items@)) is Some,
        r matches Ok(v) ==> decode_tracks_val(crate::json::deep_list(items@)) == Some(
            tracks_view(v@),
        ),
{
    let ghost d = crate::json::deep_list(items@);
    let mut out: Vec<Track> = Vec::new();
    let mut i: usize = 0;
    proof {
        crate::json::lemma_deep_list_index(items@);
        assert(d.take(0) =~= Seq::<JsonVal>::empty());
        assert(tracks_view(out@) =~= Seq::<TrackVal>::empty());
    }
    while i < items.len()
        invariant
            i <= items.len(),
            d == crate::json::deep_list(items@),
            d.len() == items@.len(),
            forall|j: int| 0 <= j < items@.len() ==> #[trigger] d[j] == items@[j].deep(),
            decode_tracks_val(d.take(i as int)) == Some(tracks_view(out@)),
        decreases items.len() - i,
    {
        match decode_track(&items[i]) {
            Ok(t) => {
                out.push(t);
                proof {
                    lemma_decode_tracks_snoc(d, i as int);
                    assert(tracks_view(out@) =~= decode_tracks_val(d.take(i + 1)).unwrap());
                }
            },
            Err(e) => {
                proof {
                    lemma_decode_tracks_err(d, i as int);
                }
                return Err(e);
            },
        }
        i += 1;
    }
    proof {
        assert(d.take(items@.len() as int) =~= d);
    }
    Ok(out)
}

/// What the paging attributes decode from; all counts are strings on the
/// wire, and the keys are in camel case.
pub open spec fn decode_list_attributes_val(v: JsonVal) -> Option<ListAttributesVal> {
    match v {
        JsonVal::Object(f) => {
            let user = req_text(f, "user"@);
            let total_pages = req_u32(f, "totalPages"@);
            let page = req_u32(f, "page"@);
            let per_page = req_u32(f, "perPage"@);
            let total = req_u32(f, "total"@);
            if user is Some && total_pages is Some && page is Some && per_page is Some && total
                is Some {
                Some(
                    ListAttributesVal {
                        user: user.unwrap(),
                        total_pages: total_pages.unwrap(),
                        page: page.unwrap(),
                        per_page: per_page.unwrap(),
                        total: total.unwrap(),
                    },
                )
            } else {
                None
            }
        },
        _ => None,
    }
}

/// Decodes the paging attributes of a listing.
pub fn decode_list_attributes(node: &JsonNode) -> (r: Result<ListAttributes, DecodeError>)
    ensures
        r is Ok <==> decode_list_attributes_val(node.deep()) is Some,
        r matches Ok(a) ==> decode_list_attributes_val(node.deep()) == Some(a@),
{
    match node {
        JsonNode::Object(fields) => {
            let user = match get_req_text(fields, "user") {
                Ok(s) => s,
                Err(e) => {
                    return Err(e);
                },
            };
            let total_pages = match get_req_u32(fields, "totalPages") {
                Ok(n) => n,
                Err(e) => {
                    return Err(e);
                },
            };
            let page = match get_req_u32(fields, "page") {
                Ok(n) => n,
                Err(e) => {
                    return Err(e);
                },
            };
            let per_page = match get_req_u32(fields, "perPage") {
                Ok(n) => n,
                Err(e) => {
                    return Err(e);
                },
            };
            let total = match get_req_u32(fields, "total") {
                Ok(n) => n,
                Err(e) => {
                    return Err(e);
                },
            };
            Ok(ListAttributes { user, total_pages, page, per_page, total })
        },
        _ => Err(DecodeError::Shape(String::from_str("@attr"))),
    }
}

/// What a track listing decodes from: its track list and optional paging
/// attributes.
pub open spec fn decode_recent_tracks_val(v: JsonVal) -> Option<RecentTracksVal> {
    match v {
        JsonVal::Object(f) => {
            let track = match jlookup(f, "track"@) {
                Some(JsonVal::List(items)) => decode_tracks_val(items),
                _ => None,
            };
            let attr = match jlookup(f, "@attr"@) {
                None => Some(None),
                Some(JsonVal::Null) => Some(None),
                Some(av) => match decode_list_attributes_val(av) {
                    Some(a) => Some(Some(a)),
                    None => None,
                },
            };
            if track is Some && attr is Some {
                Some(RecentTracksVal { track: track.unwrap(), attr: attr.unwrap() })
            } else {
                None
            }
        },
        _ => None,
    }
}

/// Decodes a track listing.
pub fn decode_recent_tracks(node: &JsonNode) -> (r: Result<RecentTracks, DecodeError>)
    ensures
        r is Ok <==> decode_recent_tracks_val(node.deep()) is Some,
        r matches Ok(t) ==> decode_recent_tracks_val(node.deep()) == Some(t@),
{
    match node {
        JsonNode::Object(fields) => {
            let ghost f = deep_fields(fields@);
            let track = match jget(fields, "track") {
                Some(n) => match n {
                    JsonNode::List(items) => match decode_tracks(items) {
                        Ok(v) => v,
                        Err(e) => {
                            return Err(e);
                        },
                    },
                    _ => {
                        return Err(DecodeError::Shape(String::from_str("track")));
                    },
                },
                None => {
                    return Err(DecodeError::Missing(String::from_str("track")));
                },
            };
            let attr = match jget(fields, "@attr") {
                None => None,
                Some(n) => match n {
                    JsonNode::Null => None,
                    _ => match decode_list_attributes(n) {
                        Ok(a) => Some(a),
                        Err(e) => {
                            return Err(e);
                        },
                    },
                },
            };
            let t = RecentTracks { track, attr };
            proof {
                assert(decode_recent_tracks_val(node.deep()) == Some(t@));
            }
            Ok(t)
        },
        _ => Err(DecodeError::Shape(String::from_str("recenttracks"))),
    }
}

/// What a recent-tracks answer decodes from.
pub open spec fn decode_recent_tracks_response_val(v: JsonVal) -> Option<
    GetRecentTracksResponseVal,
> {
    match v {
        JsonVal::Object(f) => {
            let recenttracks = match jlookup(f, "recenttracks"@) {
                None => Some(None),
                Some(JsonVal::Null) => Some(None),
                Some(rv) => match decode_recent_tracks_val(rv) {
                    Some(r) => Some(Some(r)),
                    None => None,
                },
            };
            match recenttracks {
                Some(r) => Some(GetRecentTracksResponseVal { recenttracks: r }),
                None => None,
            }
        },
        _ => None,
    }
}

/// Decodes a recent-tracks answer.
pub fn decode_recent_tracks_response(node: &JsonNode) -> (r: Result<
    GetRecentTracksResponse,
    DecodeError,
>)
    ensures
        r is Ok <==> decode_recent_tracks_response_val(node.deep()) is Some,
        r matches Ok(t) ==> decode_recent_tracks_response_val(node.deep()) == Some(t@),
{
    match node {
        JsonNode::Object(fields) => {
            let recenttracks = match jget(fields, "recenttracks") {
                None => None,
                Some(n) => match n {
                    JsonNode::Null => None,
                    _ => match decode_recent_tracks(n) {
                        Ok(t) => Some(t),
                        Err(e) => {
                            return Err(e);
                        },
                    },
                },
            };
            Ok(GetRecentTracksResponse { recenttracks })
        },
        _ => Err(DecodeError::Shape(String::from_str("recenttracks"))),
    }
}

/// What a token answer decodes from: its one token field.
pub open spec fn decode_token_response_val(v: JsonVal) -> Option<GetTokenResponseVal> {
    match v {
        JsonVal::Object(f) => match req_text(f, "token"@) {
            Some(token) => Some(GetTokenResponseVal { token }),
            None => None,
        },
        _ => None,
    }
}

/// Decodes a token answer.
pub fn decode_token_response(node: &JsonNode) -> (r: Result<GetTokenResponse, DecodeError>)
    ensures
        r is Ok <==> decode_token_response_val(node.deep()) is Some,
        r matches Ok(t) ==> decode_token_response_val(node.deep()) == Some(t@),
{
    match node {
        JsonNode::Object(fields) => {
            let token = match get_req_text(fields, "token") {
                Ok(s) => s,
                Err(e) => {
                    return Err(e);
                },
            };
            Ok(GetTokenResponse { token })
        },
        _ => Err(DecodeError::Shape(String::from_str("token"))),
    }
}

/// What a session decodes from.
pub open spec fn decode_session_val(v: JsonVal) -> Option<SessionVal> {
    match v {
        JsonVal::Object(f) => {
            let name = req_text(f, "name"@);
            let key = req_text(f, "key"@);
            let subscriber = req_u32(f, "subscriber"@);
            if name is Some && key is Some && subscriber is Some {
                Some(
                    SessionVal {
                        name: name.unwrap(),
                        key: key.unwrap(),
                        subscriber: subscriber.unwrap(),
                    },
                )
            } else {
                None
            }
        },
        _ => None,
    }
}

/// Decodes a session.
pub fn decode_session(node: &JsonNode) -> (r: Result<Session, DecodeError>)
    ensures
        r is Ok <==> decode_session_val(node.deep()) is Some,
        r matches Ok(s) ==> decode_session_val(node.deep()) == Some(s@),
{
    match node {
        JsonNode::Object(fields) => {
            let name = match get_req_text(fields, "name") {
                Ok(s) => s,
                Err(e) => {
                    return Err(e);
                },
            };
            let key = match get_req_text(fields, "key") {
                Ok(s) => s,
                Err(e) => {
                    return Err(e);
                },
            };
            let subscriber = match get_req_u32(fields, "subscriber") {
                Ok(n) => n,
                Err(e) => {
                    return Err(e);
                },
            };
            Ok(Session { name, key, subscriber })
        },
        _ => Err(DecodeError::Shape(String::from_str("session"))),
    }
}

/// What a session answer decodes from.
pub open spec fn decode_session_response_val(v: JsonVal) -> Option<GetSessionResponseVal> {
    match v {
        JsonVal::Object(f) => {
            let session = match jlookup(f, "session"@) {
                None => Some(None),
                Some(JsonVal::Null) => Some(None),
                Some(sv) => match decode_session_val(sv) {
                    Some(s) => Some(Some(s)),
                    None => None,
                },
            };
            match session {
                Some(s) => Some(GetSessionResponseVal { session: s }),
                None => None,
            }
        },
        _ => None,
    }
}

/// Decodes a session answer.
pub fn decode_session_response(node: &JsonNode) -> (r: Result<GetSessionResponse, DecodeError>)
    ensures
        r is Ok <==> decode_session_response_val(node.deep()) is Some,
        r matches Ok(s) ==> decode_session_response_val(node.deep()) == Some(s@),
{
    match node {
        JsonNode::Object(fields) => {
            let session = match jget(fields, "session") {
                None => None,
                Some(n) => match n {
                    JsonNode::Null => None,
                    _ => match decode_session(n) {
                        Ok(s) => Some(s),
                        Err(e) => {
                            return Err(e);
                        },
                    },
                },
            };
            Ok(GetSessionResponse { session })
        },
        _ => Err(DecodeError::Shape(String::from_str("session"))),
    }
}

/// What a registration block decodes from: the time as a string, and the
/// same time as the wire's own number.
pub open spec fn decode_registered_val(v: JsonVal) -> Option<RegisteredVal> {
    match v {
        JsonVal::Object(f) => match (req_u32(f, "unixtime"@), req_u64_int(f, "#text"@)) {
            (Some(unixtime), Some(text)) => Some(RegisteredVal { unixtime, text }),
            _ => None,
        },
        _ => None,
    }
}

/// Decodes a registration block.
pub fn decode_registered(node: &JsonNode) -> (r: Result<Registered, DecodeError>)
    ensures
        r is Ok <==> decode_registered_val(node.deep()) is Some,
        r matches Ok(g) ==> decode_registered_val(node.deep()) == Some(g@),
{
    match node {
        JsonNode::Object(fields) => {
            let unixtime = match get_req_u32(fields, "unixtime") {
                Ok(n) => n,
                Err(e) => {
                    return Err(e);
                },
            };
            let text = match get_req_u64_int(fields, "#text") {
                Ok(n) => n,
                Err(e) => {
                    return Err(e);
                },
            };
            Ok(Registered { unixtime, text })
        },
        _ => Err(DecodeError::Shape(String::from_str("registered"))),
    }
}

/// What a profile decodes from.
pub open spec fn decode_user_val(v: JsonVal) -> Option<UserVal> {
    match v {
        JsonVal::Object(f) => {
            let name = req_text(f, "name"@);
            let age = req_u32(f, "age"@);
            let subscriber = req_bool(f, "subscriber"@);
            let realname = req_text(f, "realname"@);
            let bootstrap = req_bool(f, "bootstrap"@);
            let playcount = req_u32(f, "playcount"@);
            let image = match jlookup(f, "image"@) {
                Some(JsonVal::List(items)) => decode_images_val(items),
                _ => None,
            };
            let registered = match jlookup(f, "registered"@) {
                None => Some(None),
                Some(JsonVal::Null) => Some(None),
                Some(rv) => match decode_registered_val(rv) {
                    Some(g) => Some(Some(g)),
                    None => None,
                },
            };
            let country = req_text(f, "country"@);
            let url = req_text(f, "url"@);
            let user_type = req_text(f, "type"@);
            if name is Some && age is Some && subscriber is Some && realname is Some
                && bootstrap is Some && playcount is Some && image is Some && registered
                is Some && country is Some && url is Some && user_type is Some {
                Some(
                    UserVal {
                        name: name.unwrap(),
                        age: age.unwrap(),
                        subscriber: subscriber.unwrap(),
                        realname: realname.unwrap(),
                        bootstrap: bootstrap.unwrap(),
                        playcount: playcount.unwrap(),
                        image: image.unwrap(),
                        registered: registered.unwrap(),
                        country: country.unwrap(),
                        url: url.unwrap(),
                        user_type: user_type.unwrap(),
                    },
                )
            } else {
                None
            }
        },
        _ => None,
    }
}

/// Decodes a profile.
pub fn decode_user(node: &JsonNode) -> (r: Result<User, DecodeError>)
    ensures
        r is Ok <==> decode_user_val(node.deep()) is Some,
        r matches Ok(u) ==> decode_user_val(node.deep()) == Some(u@),
{
    match node {
        JsonNode::Object(fields) => {
            let name = match get_req_text(fields, "name") {
                Ok(s) => s,
                Err(e) => {
                    return Err(e);
                },
            };
            let age = match get_req_u32(fields, "age") {
                Ok(n) => n,
                Err(e) => {
                    return Err(e);
                },
            };
            let subscriber = match get_req_bool(fields, "subscriber") {
                Ok(b) => b,
                Err(e) => {
                    return Err(e);
                },
            };
            let realname = match get_req_text(fields, "realname") {
                Ok(s) => s,
                Err(e) => {
                    return Err(e);
                },
            };
            let bootstrap = match get_req_bool(fields, "bootstrap") {
                Ok(b) => b,
                Err(e) => {
                    return Err(e);
                },
            };
            let playcount = match get_req_u32(fields, "playcount") {
                Ok(n) => n,
                Err(e) => {
                    return Err(e);
                },
            };
            let image = match jget(fields, "image") {
                Some(n) => match n {
                    JsonNode::List(items) => match decode_images(items) {
                        Ok(v) => v,
                        Err(e) => {
                            return Err(e);
                        },
                    },
                    _ => {
                        return Err(DecodeError::Shape(String::from_str("image")));
                    },
                },
                None => {
                    return Err(DecodeError::Missing(String::from_str("image")));
                },
            };
            let registered = match jget(fields, "registered") {
                None => None,
                Some(n) => match n {
                    JsonNode::Null => None,
                    _ => match decode_registered(n) {
                        Ok(g) => Some(g),
                        Err(e) => {
                            return Err(e);
                        },
                    },
                },
            };
            let country = match get_req_text(fields, "country") {
                Ok(s) => s,
                Err(e) => {
                    return Err(e);
                },
            };
            let url = match get_req_text(fields, "url") {
                Ok(s) => s,
                Err(e) => {
                    return Err(e);
                },
            };
            let user_type = match get_req_text(fields, "type") {
                Ok(s) => s,
                Err(e) => {
                    return Err(e);
                },
            };
            let u = User {
                name,
                age,
                subscriber,
                realname,
                bootstrap,
                playcount,
                image,
                registered,
                country,
                url,
                user_type,
            };
            proof {
                assert(decode_user_val(node.deep()) == Some(u@));
            }
            Ok(u)
        },
        _ => Err(DecodeError::Shape(String::from_str("user"))),
    }
}

/// What a profile answer decodes from.
pub open spec fn decode_info_response_val(v: JsonVal) -> Option<GetInfoResponseVal> {
    match v {
        JsonVal::Object(f) => {
            let user = match jlookup(f, "user"@) {
                None => Some(None),
                Some(JsonVal::Null) => Some(None),
                Some(uv) => match decode_user_val(uv) {
                    Some(u) => Some(Some(u)),
                    None => None,
                },
            };
            match user {
                Some(u) => Some(GetInfoResponseVal { user: u }),
                None => None,
            }
        },
        _ => None,
    }
}

/// Decodes a profile answer.
pub fn decode_info_response(node: &JsonNode) -> (r: Result<GetInfoResponse, DecodeError>)
    ensures
        r is Ok <==> decode_info_response_val(node.deep()) is Some,
        r matches Ok(u) ==> decode_info_response_val(node.deep()) == Some(u@),
{
    match node {
        JsonNode::Object(fields) => {
            let user = match jget(fields, "user") {
                None => None,
                Some(n) => match n {
                    JsonNode::Null => None,
                    _ => match decode_user(n) {
                        Ok(u) => Some(u),
                        Err(e) => {
                            return Err(e);
                        },
                    },
                },
            };
            Ok(GetInfoResponse { user })
        },
        _ => Err(DecodeError::Shape(String::from_str("user"))),
    }
}

// ---------------------------------------------------------------------
// the error shape and the envelopes

/// What the error shape decodes from: an object holding a text `message`
/// and an integer `error` that fits 32 signed bits. The code's integer
/// maps into the closed code set, unrecognized integers to `Unknown`.
pub open spec fn decode_error_shape_val(v: JsonVal) -> Option<(Seq<char>, ErrorCode)> {
    match v {
        JsonVal::Object(f) => match (req_text(f, "message"@), jlookup(f, "error"@)) {
            (Some(msg), Some(JsonVal::Int(i))) => if -0x8000_0000 <= i <= 0x7fff_ffff {
                Some((msg, code_of_spec(i as int)))
            } else {
                None
            },
            _ => None,
        },
        _ => None,
    }
}

/// Decodes the error shape, when the body matches it.
pub fn decode_error_shape(node: &JsonNode) -> (r: Option<LastFMError>)
    ensures
        match r {
            Option::Some(e) => decode_error_shape_val(node.deep()) == Some((e.message@, e.error)),
            Option::None => decode_error_shape_val(node.deep()) is None,
        },
{
    match node {
        JsonNode::Object(fields) => {
            let message = match get_req_text(fields, "message") {
                Ok(s) => s,
                Err(_) => {
                    return None;
                },
            };
            match jget(fields, "error") {
                Some(n) => match n {
                    JsonNode::Int(i) => {
                        let i = *i;
                        if -0x8000_0000 <= i && i <= 0x7fff_ffff {
                            Some(LastFMError { message, error: parse_code(i) })
                        } else {
                            None
                        }
                    },
                    _ => None,
                },
                None => None,
            }
        },
        _ => None,
    }
}

/// Decodes a token answer's envelope: the error shape is tried first, and
/// only a body matching neither shape is rejected.
pub fn decode_token_envelope(node: &JsonNode) -> (r: Result<
    crate::api::Response<GetTokenResponse>,
    DecodeError,
>)
    ensures
        decode_error_shape_val(node.deep()) matches Some(e) ==> r matches Ok(
            crate::api::Response::LastFMError(le),
        ) && (le.message@, le.error) == e,
        decode_error_shape_val(node.deep()) is None ==> (decode_token_response_val(node.deep())
            matches Some(t) ==> r matches Ok(crate::api::Response::Valid(v)) && v@ == t),
        r is Err <==> (decode_error_shape_val(node.deep()) is None && decode_token_response_val(
            node.deep(),
        ) is None),
{
    match decode_error_shape(node) {
        Some(e) => Ok(crate::api::Response::LastFMError(e)),
        None => match decode_token_response(node) {
            Ok(t) => Ok(crate::api::Response::Valid(t)),
            Err(e) => Err(e),
        },
    }
}

/// Decodes a session answer's envelope, error shape first.
pub fn decode_session_envelope(node: &JsonNode) -> (r: Result<
    crate::api::Response<GetSessionResponse>,
    DecodeError,
>)
    ensures
        decode_error_shape_val(node.deep()) matches Some(e) ==> r matches Ok(
            crate::api::Response::LastFMError(le),
        ) && (le.message@, le.error) == e,
        decode_error_shape_val(node.deep()) is None ==> (decode_session_response_val(node.deep())
            matches Some(t) ==> r matches Ok(crate::api::Response::Valid(v)) && v@ == t),
        r is Err <==> (decode_error_shape_val(node.deep()) is None
            && decode_session_response_val(node.deep()) is None),
{
    match decode_error_shape(node) {
        Some(e) => Ok(crate::api::Response::LastFMError(e)),
        None => match decode_session_response(node) {
            Ok(t) => Ok(crate::api::Response::Valid(t)),
            Err(e) => Err(e),
        },
    }
}

/// Decodes a profile answer's envelope, error shape first.
pub fn decode_info_envelope(node: &JsonNode) -> (r: Result<
    crate::api::Response<GetInfoResponse>,
    DecodeError,
>)
    ensures
        decode_error_shape_val(node.deep()) matches Some(e) ==> r matches Ok(
            crate::api::Response::LastFMError(le),
        ) && (le.message@, le.error) == e,
        decode_error_shape_val(node.deep()) is None ==> (decode_info_response_val(node.deep())
            matches Some(t) ==> r matches Ok(crate::api::Response::Valid(v)) && v@ == t),
        r is Err <==> (decode_error_shape_val(node.deep()) is None && decode_info_response_val(
            node.deep(),
        ) is None),
{
    match decode_error_shape(node) {
        Some(e) => Ok(crate::api::Response::LastFMError(e)),
        None => match decode_info_response(node) {
            Ok(t) => Ok(crate::api::Response::Valid(t)),
            Err(e) => Err(e),
        },
    }
}

/// Decodes a recent-tracks answer's envelope, error shape first.
pub fn decode_recent_tracks_envelope(node: &JsonNode) -> (r: Result<
    crate::api::Response<GetRecentTracksResponse>,
    DecodeError,
>)
    ensures
        decode_error_shape_val(node.deep()) matches Some(e) ==> r matches Ok(
            crate::api::Response::LastFMError(le),
        ) && (le.message@, le.error) == e,
        decode_error_shape_val(node.deep()) is None ==> (decode_recent_tracks_response_val(
            node.deep(),
        ) matches Some(t) ==> r matches Ok(crate::api::Response::Valid(v)) && v@ == t),
        r is Err <==> (decode_error_shape_val(node.deep()) is None
            && decode_recent_tracks_response_val(node.deep()) is None),
{
    match decode_error_shape(node) {
        Some(e) => Ok(crate::api::Response::LastFMError(e)),
        None => match decode_recent_tracks_response(node) {
            Ok(t) => Ok(crate::api::Response::Valid(t)),
            Err(e) => Err(e),
        },
    }
}

} // verus!
