//! Assembling one API call: the fixed identity parameters, the flattened
//! request fields, the signature when the method's tier asks for one, and
//! the final request URL with a form-encoded query.

use vstd::prelude::*;
use vstd::relations::sorted_by;
use vstd::seq_lib::lemma_sorted_unique;
use vstd::string::StringExecFns;
use vstd::string::StringSliceAdditionalSpecFns;
use vstd::utf8::encode_utf8;
use crate::error::LastFMError;
use crate::pairs::{to_pairs, to_pairs_spec, InvalidStructError, RequestValue};
use crate::params::{pair_views, upsert, upsert_all, PairVal, ParameterSet};
use crate::sign::{
    lemma_pair_order_total, pair_order, signature, signature_spec, sort_pairs,
};
use crate::text::{hex_digit_upper, hex_digit_upper_char, push_char};

verus! {

/// A decoded response body: the remote API answers either with its error
/// shape or with the call's payload. The error shape is tried first.
pub enum Response<T> {
    LastFMError(LastFMError),
    Valid(T),
}

impl<T> Response<T> {
    /// The payload, or the reported error.
    pub fn to_result(self) -> (r: Result<T, LastFMError>)
        ensures
            self matches Response::Valid(v) ==> r matches Ok(x) && x == v,
            self matches Response::LastFMError(e) ==> r matches Err(x) && x == e,
    {
        match self {
            Response::Valid(val) => Ok(val),
            Response::LastFMError(err) => Err(err),
        }
    }
}

/// How much authorization a method asks for.
#[derive(Clone, Copy, Debug, PartialEq, Eq, Structural)]
pub enum AuthTier {
    Unknown,
    Standard,
    SignatureOnly,
    SessionRequired,
    SessionOptional,
}

impl AuthTier {
    /// Whether calls of this tier carry a signature.
    pub fn needs_signature(&self) -> (r: bool)
        ensures
            r == (*self == AuthTier::SignatureOnly || *self == AuthTier::SessionRequired),
    {
        match self {
            AuthTier::SignatureOnly => true,
            AuthTier::SessionRequired => true,
            _ => false,
        }
    }

    /// Whether calls of this tier carry the session key: always, never,
    /// or only when one is supplied.
    pub fn session_to_send<'a>(&self, session: Option<&'a str>) -> (r: Option<&'a str>)
        ensures
            *self == AuthTier::SessionRequired || *self == AuthTier::SessionOptional ==> r
                == session,
            *self == AuthTier::Unknown || *self == AuthTier::Standard || *self
                == AuthTier::SignatureOnly ==> r is None,
    {
        match self {
            AuthTier::SessionRequired => session,
            AuthTier::SessionOptional => session,
            _ => None,
        }
    }
}

/// What one remote method looks like: its wire name and its tier.
pub struct MethodDescriptor {
    pub name: String,
    pub tier: AuthTier,
}

/// The method that issues a fresh authorization token.
pub fn method_auth_get_token() -> (r: MethodDescriptor)
    ensures
        r.name@ == "auth.getToken"@,
        r.tier == AuthTier::SignatureOnly,
{
    MethodDescriptor { name: String::from_str("auth.getToken"), tier: AuthTier::SignatureOnly }
}

/// The method that exchanges an authorization token for a session key.
pub fn method_auth_get_session() -> (r: MethodDescriptor)
    ensures
        r.name@ == "auth.getSession"@,
        r.tier == AuthTier::SignatureOnly,
{
    MethodDescriptor {
        name: String::from_str("auth.getSession"),
        tier: AuthTier::SignatureOnly,
    }
}

/// The method that reads the account profile.
pub fn method_user_get_info() -> (r: MethodDescriptor)
    ensures
        r.name@ == "user.getInfo"@,
        r.tier == AuthTier::SessionOptional,
{
    MethodDescriptor { name: String::from_str("user.getInfo"), tier: AuthTier::SessionOptional }
}

/// The method that lists the most recent tracks.
pub fn method_user_get_recent_tracks() -> (r: MethodDescriptor)
    ensures
        r.name@ == "user.getRecentTracks"@,
        r.tier == AuthTier::SessionOptional,
{
    MethodDescriptor {
        name: String::from_str("user.getRecentTracks"),
        tier: AuthTier::SessionOptional,
    }
}

/// The parameters every call starts from: the API key, the method name,
/// and the session key when one is supplied.
pub open spec fn base_params_spec(
    api_key: Seq<char>,
    method: Seq<char>,
    session_key: Option<Seq<char>>,
) -> Seq<PairVal> {
    let base = seq![("api_key"@, api_key), ("method"@, method)];
    match session_key {
        Option::None => base,
        Option::Some(sk) => base.push(("sk"@, sk)),
    }
}

/// One API call being assembled.
pub struct ApiCall {
    params: ParameterSet,
}

impl View for ApiCall {
    type V = Seq<PairVal>;

    closed spec fn view(&self) -> Seq<PairVal> {
        self.params@
    }
}

impl ApiCall {
    /// Whether the call is well formed: its parameter keys are unique.
    pub closed spec fn wf(&self) -> bool {
        self.params.wf()
    }

    /// Starts a call: the API key and method name, plus the session key
    /// when one is given.
    pub fn new(api_key: &str, method: &str, session_key: Option<&str>) -> (r: ApiCall)
        ensures
            r.wf(),
            r@ == base_params_spec(
                api_key@,
                method@,
                match session_key {
                    Option::None => Option::None,
                    Option::Some(sk) => Option::Some(sk@),
                },
            ),
    {
        proof {
            reveal_strlit("api_key");
            reveal_strlit("method");
            reveal_strlit("sk");
        }
        let mut params = ParameterSet::empty();
        params.insert("api_key", api_key);
        proof {
            let p1: PairVal = ("api_key"@, api_key@);
            assert(upsert(Seq::<PairVal>::empty(), p1) =~= seq![p1]);
            assert(params@ =~= seq![p1]);
        }
        params.insert("method", method);
        proof {
            let p1: PairVal = ("api_key"@, api_key@);
            let p2: PairVal = ("method"@, method@);
            assert("api_key"@.len() == 7 && "method"@.len() == 6);
            assert(seq![p1][0] == p1);
            assert(upsert(seq![p1], p2) =~= seq![p1] + upsert(
                seq![p1].drop_first(),
                p2,
            ));
            assert(seq![p1].drop_first() =~= Seq::<PairVal>::empty());
            assert(params@ =~= seq![p1, p2]);
        }
        if let Some(sk) = session_key {
            params.insert("sk", sk);
            proof {
                let p1: PairVal = ("api_key"@, api_key@);
                let p2: PairVal = ("method"@, method@);
                let p3: PairVal = ("sk"@, sk@);
                assert("sk"@.len() == 2);
                assert(seq![p1, p2][0] == p1 && seq![p1, p2].drop_first() =~= seq![p2]);
                assert(upsert(Seq::<PairVal>::empty(), p3) =~= seq![p3]);
                assert(seq![p2].drop_first() =~= Seq::<PairVal>::empty());
                assert(upsert(seq![p2], p3) =~= seq![p2] + upsert(
                    seq![p2].drop_first(),
                    p3,
                ));
                assert(upsert(seq![p2], p3) =~= seq![p2, p3]);
                assert(params@ =~= seq![p1, p2, p3]);
                assert(params@ =~= seq![p1, p2].push(p3));
            }
        }
        ApiCall { params }
    }

    /// Adds plain key/value parameters; later entries win on collision.
    pub fn params(self, pairs: &Vec<(String, String)>) -> (r: ApiCall)
        requires
            self.wf(),
        ensures
            r.wf(),
            r@ == upsert_all(self@, pair_views(pairs@)),
    {
        let mut params = self.params;
        params.extend(pairs);
        ApiCall { params }
    }

    /// Flattens a structured request and merges its pairs in; a request
    /// holding an unsupported shape is rejected.
    pub fn struct_params(self, msg: &RequestValue) -> (r: Result<ApiCall, InvalidStructError>)
        requires
            self.wf(),
        ensures
            r is Ok <==> to_pairs_spec(*msg) is Ok,
            r matches Ok(c) ==> c.wf() && Ok::<_, ()>(c@) == match to_pairs_spec(*msg) {
                Ok(ps) => Ok::<_, ()>(upsert_all(self@, ps)),
                Err(e) => Err(e),
            },
    {
        let pairs = to_pairs(msg)?;
        let mut params = self.params;
        params.extend(&pairs);
        Ok(ApiCall { params })
    }

    /// The signature of the parameters gathered so far.
    pub fn signature(&self, secret: &[u8]) -> (r: String)
        ensures
            r@ == signature_spec(self@, secret@),
    {
        signature(&self.params, secret)
    }

    /// The full request URL: the endpoint, then the sorted parameters as
    /// a form-encoded query, then the signature when asked for, then the
    /// fixed format parameter.
    pub fn to_url(self, secret: &[u8], endpoint: &str, append_signature: bool) -> (r: String)
        ensures
            r@ == to_url_spec(self@, secret@, endpoint@, append_signature),
    {
        let sig = if append_signature {
            Some(self.signature(secret))
        } else {
            None
        };
        let mut all = sort_pairs(self.params.pairs_vec());
        proof {
            lemma_pair_order_total();
            self@.lemma_sort_by_ensures(pair_order());
            lemma_sorted_unique(
                pair_views(all@),
                self@.sort_by(pair_order()),
                pair_order(),
            );
        }
        let ghost sorted_views = pair_views(all@);
        if let Some(sig) = sig {
            all.push((String::from_str("api_sig"), sig));
            proof {
                assert(pair_views(all@) =~= sorted_views.push(
                    ("api_sig"@, signature_spec(self@, secret@)),
                ));
            }
        }
        let ghost with_sig = pair_views(all@);
        all.push((String::from_str("format"), String::from_str("json")));
        proof {
            assert(pair_views(all@) =~= with_sig.push(("format"@, "json"@)));
        }
        let query = build_query(&all);
        let mut out = String::from_str(endpoint);
        push_char(&mut out, '?');
        out.append(query.as_str());
        proof {
            let pairs = self@.sort_by(pair_order()) + (if append_signature {
                seq![("api_sig"@, signature_spec(self@, secret@))]
            } else {
                Seq::<PairVal>::empty()
            }) + seq![("format"@, "json"@)];
            assert(pair_views(all@) =~= pairs);
            assert(out@ =~= endpoint@ + seq!['?'] + query_of(pairs));
        }
        out
    }
}

/// The request URL of a call: the endpoint, a `?`, and the form-encoded
/// query of the sorted parameters, the signature when asked for, and the
/// fixed format parameter, in that order.
pub open spec fn to_url_spec(
    params: Seq<PairVal>,
    secret: Seq<u8>,
    endpoint: Seq<char>,
    append_signature: bool,
) -> Seq<char> {
    let pairs = params.sort_by(pair_order()) + (if append_signature {
        seq![("api_sig"@, signature_spec(params, secret))]
    } else {
        Seq::<PairVal>::empty()
    }) + seq![("format"@, "json"@)];
    endpoint + seq!['?'] + query_of(pairs)
}

/// Whether a byte passes through the form encoding unchanged.
pub open spec fn is_form_plain(b: u8) -> bool {
    (48 <= b <= 57) || (65 <= b <= 90) || (97 <= b <= 122) || b == 42 || b == 45 || b == 46
        || b == 95
}

/// The form encoding of one byte: kept, a space as `+`, or `%` and two
/// upper-case hexadecimal digits.
pub open spec fn form_enc_byte(b: u8) -> Seq<char> {
    if b == 32 {
        seq!['+']
    } else if is_form_plain(b) {
        seq![b as char]
    } else {
        seq!['%', hex_digit_upper(b as int / 16), hex_digit_upper(b as int % 16)]
    }
}

/// The form encoding of a byte string.
pub open spec fn form_enc(bytes: Seq<u8>) -> Seq<char>
    decreases bytes.len(),
{
    if bytes.len() == 0 {
        Seq::empty()
    } else {
        form_enc_byte(bytes[0]) + form_enc(bytes.drop_first())
    }
}

/// The form encoding of a character string: that of its UTF-8 bytes.
pub open spec fn component_enc(s: Seq<char>) -> Seq<char> {
    form_enc(encode_utf8(s))
}

/// The query text of a list of parameters: `key=value` entries joined
/// with `&`, each side form-encoded.
pub open spec fn query_of(pairs: Seq<PairVal>) -> Seq<char>
    decreases pairs.len(),
{
    if pairs.len() == 0 {
        Seq::empty()
    } else {
        let head = component_enc(pairs[0].0) + seq!['='] + component_enc(pairs[0].1);
        if pairs.len() == 1 {
            head
        } else {
            head + seq!['&'] + query_of(pairs.drop_first())
        }
    }
}

proof fn lemma_form_enc_snoc(bytes: Seq<u8>, i: int)
    requires
        0 <= i < bytes.len(),
    ensures
        form_enc(bytes.take(i + 1)) == form_enc(bytes.take(i)) + form_enc_byte(bytes[i]),
    decreases i,
{
    if i == 0 {
        assert(bytes.take(1).drop_first() =~= Seq::empty());
        assert(bytes.take(0) =~= Seq::empty());
        assert(bytes.take(1)[0] == bytes[0]);
        assert(form_enc(bytes.take(1)) =~= form_enc(bytes.take(0)) + form_enc_byte(bytes[0]));
    } else {
        lemma_form_enc_snoc(bytes.drop_first(), i - 1);
        assert(bytes.take(i + 1).drop_first() =~= bytes.drop_first().take(i));
        assert(bytes.take(i).drop_first() =~= bytes.drop_first().take(i - 1));
        assert(bytes.take(i + 1)[0] == bytes[0]);
        assert(bytes.take(i)[0] == bytes[0]);
        assert(bytes.drop_first()[i - 1] == bytes[i]);
        assert(form_enc(bytes.take(i + 1)) =~= form_enc(bytes.take(i)) + form_enc_byte(
            bytes[i],
        ));
    }
}

/// Appends the form encoding of `s`.
fn push_component(out: &mut String, s: &str)
    ensures
        final(out)@ == old(out)@ + component_enc(s@),
{
    let bytes = s.as_bytes();
    let ghost bs = bytes@;
    let mut i: usize = 0;
    proof {
        assert(bs.take(0) =~= Seq::empty());
        assert(old(out)@ + form_enc(bs.take(0)) =~= old(out)@);
    }
    while i < bytes.len()
        invariant
            i <= bytes.len(),
            bs == bytes@,
            out@ == old(out)@ + form_enc(bs.take(i as int)),
        decreases bytes.len() - i,
    {
        let b = bytes[i];
        if b == 32 {
            push_char(out, '+');
        } else if (48 <= b && b <= 57) || (65 <= b && b <= 90) || (97 <= b && b <= 122) || b
            == 42 || b == 45 || b == 46 || b == 95 {
            push_char(out, b as char);
        } else {
            push_char(out, '%');
            push_char(out, hex_digit_upper_char(b / 16));
            push_char(out, hex_digit_upper_char(b % 16));
        }
        proof {
            lemma_form_enc_snoc(bs, i as int);
            assert(out@ =~= old(out)@ + form_enc(bs.take(i + 1)));
        }
        i += 1;
    }
    proof {
        assert(bs.take(bytes@.len() as int) =~= bs);
        assert(s.spec_bytes() == bs);
    }
}

proof fn lemma_query_of_snoc(pairs: Seq<PairVal>, i: int)
    requires
        0 <= i < pairs.len(),
    ensures
        i == 0 ==> query_of(pairs.take(1)) == component_enc(pairs[0].0) + seq!['=']
            + component_enc(pairs[0].1),
        i > 0 ==> query_of(pairs.take(i + 1)) == query_of(pairs.take(i)) + seq!['&']
            + component_enc(pairs[i].0) + seq!['='] + component_enc(pairs[i].1),
    decreases i,
{
    if i == 0 {
        assert(pairs.take(1)[0] == pairs[0]);
        assert(pairs.take(1).len() == 1);
    } else {
        let d = pairs.drop_first();
        lemma_query_of_snoc(d, i - 1);
        assert(pairs.take(i + 1)[0] == pairs[0]);
        assert(pairs.take(i)[0] == pairs[0]);
        assert(pairs.take(i + 1).drop_first() =~= d.take(i));
        assert(pairs.take(i).drop_first() =~= d.take(i - 1));
        assert(d[i - 1] == pairs[i]);
        let head = component_enc(pairs[0].0) + seq!['='] + component_enc(pairs[0].1);
        if i == 1 {
            assert(query_of(pairs.take(2)) == head + seq!['&'] + query_of(d.take(1)));
            assert(query_of(pairs.take(2)) =~= query_of(pairs.take(1)) + seq!['&']
                + component_enc(pairs[1].0) + seq!['='] + component_enc(pairs[1].1));
        } else {
            assert(query_of(pairs.take(i + 1)) == head + seq!['&'] + query_of(d.take(i)));
            assert(query_of(pairs.take(i)) == head + seq!['&'] + query_of(d.take(i - 1)));
            assert(query_of(pairs.take(i + 1)) =~= query_of(pairs.take(i)) + seq!['&']
                + component_enc(pairs[i].0) + seq!['='] + component_enc(pairs[i].1));
        }
    }
}

/// The form-encoded query of a list of parameters, in their given order.
pub fn build_query(pairs: &Vec<(String, String)>) -> (r: String)
    ensures
        r@ == query_of(pair_views(pairs@)),
{
    let ghost views = pair_views(pairs@);
    let mut out = String::new();
    let mut i: usize = 0;
    proof {
        assert(views.take(0) =~= Seq::<PairVal>::empty());
    }
    while i < pairs.len()
        invariant
            i <= pairs.len(),
            views == pair_views(pairs@),
            out@ == query_of(views.take(i as int)),
        decreases pairs.len() - i,
    {
        if i > 0 {
            push_char(&mut out, '&');
        }
        push_component(&mut out, pairs[i].0.as_str());
        push_char(&mut out, '=');
        push_component(&mut out, pairs[i].1.as_str());
        proof {
            lemma_query_of_snoc(views, i as int);
            assert(views[i as int] == (pairs@[i as int].0@, pairs@[i as int].1@));
            assert(out@ =~= query_of(views.take(i + 1)));
        }
        i += 1;
    }
    proof {
        assert(views.take(pairs@.len() as int) =~= views);
    }
    out
}

} // verus!
