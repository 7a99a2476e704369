//! The persisted credential: either a short-lived authorization token or
//! a long-lived session key, stored as the standard-alphabet base64 of a
//! small JSON tagged union, `{"Auth": token}` or `{"Session": key}`.
//!
//! Encoding and decoding are exact inverses: decoding an encoded
//! credential returns the credential, for every token string.

use base64::Engine;
use vstd::prelude::*;
use vstd::string::StrSliceExecFns;
use vstd::string::StringExecFns;
use vstd::utf8::is_scalar;
use crate::error::LastFMError;
use crate::text::{hex_digit, push_char};

verus! {

/// The persisted credential.
#[derive(Clone, Debug, PartialEq)]
pub enum InitToken {
    /// A short-lived authorization token, not yet exchanged.
    Auth(String),
    /// A long-lived session key.
    Session(String),
}

/// The mathematical value of a credential.
pub enum InitTokenVal {
    Auth(Seq<char>),
    Session(Seq<char>),
}

impl View for InitToken {
    type V = InitTokenVal;

    open spec fn view(&self) -> InitTokenVal {
        match self {
            InitToken::Auth(t) => InitTokenVal::Auth(t@),
            InitToken::Session(t) => InitTokenVal::Session(t@),
        }
    }
}

/// Why a bootstrap run failed.
#[derive(Clone, Debug, PartialEq)]
pub enum InitError {
    /// An internal consistency error, described in text.
    Internal(String),
    /// The credential file is unreadable or does not decode.
    BadStateFile(String),
    /// A human must grant consent for the held authorization token, then
    /// the program must be run again.
    NeedAuth(String),
    /// Reading or writing the credential file failed.
    IoError(String),
    /// The transport failed, described in text.
    TransportError(String),
    /// The remote API reported an error.
    LastFMError(LastFMError),
    /// The remote API answered a success shape with an impossible empty
    /// payload.
    EmptyResponse(String),
}

// ---------------------------------------------------------------------
// JSON string escaping

/// How one character is written inside a JSON string: quote and backslash
/// get a backslash, control characters become `\u00XX`, all else stands
/// as itself.
pub open spec fn esc_char(c: char) -> Seq<char> {
    if c == '"' {
        seq!['\\', '"']
    } else if c == '\\' {
        seq!['\\', '\\']
    } else if (c as u32) < 32 {
        seq!['\\', 'u', '0', '0', hex_digit(c as u32 as int / 16), hex_digit(c as u32 as int % 16)]
    } else {
        seq![c]
    }
}

/// A whole string escaped.
pub open spec fn esc(s: Seq<char>) -> Seq<char>
    decreases s.len(),
{
    if s.len() == 0 {
        Seq::empty()
    } else {
        esc_char(s[0]) + esc(s.drop_first())
    }
}

/// The character a single-letter escape stands for.
pub open spec fn unesc_char(c: char) -> Option<char> {
    if c == '"' {
        Some('"')
    } else if c == '\\' {
        Some('\\')
    } else if c == '/' {
        Some('/')
    } else if c == 'b' {
        Some('\u{8}')
    } else if c == 'f' {
        Some('\u{c}')
    } else if c == 'n' {
        Some('\n')
    } else if c == 'r' {
        Some('\r')
    } else if c == 't' {
        Some('\t')
    } else {
        None
    }
}

/// The value of one hexadecimal digit character, either case.
pub open spec fn hex_char_val(c: char) -> Option<u32> {
    let v = c as u32;
    if 48 <= v <= 57 {
        Some((v - 48) as u32)
    } else if 97 <= v <= 102 {
        Some((v - 87) as u32)
    } else if 65 <= v <= 70 {
        Some((v - 55) as u32)
    } else {
        None
    }
}

/// Reads a JSON string body up to its closing quote: the content, and
/// what follows the quote. Unknown escapes, unpaired surrogates, raw
/// control characters and an unterminated string are rejected.
pub open spec fn parse_str_body(s: Seq<char>) -> Option<(Seq<char>, Seq<char>)>
    decreases s.len(),
{
    if s.len() == 0 {
        None
    } else if s[0] == '"' {
        Some((Seq::empty(), s.drop_first()))
    } else if s[0] == '\\' {
        if s.len() < 2 {
            None
        } else if s[1] == 'u' {
            if s.len() < 6 {
                None
            } else {
                match (hex_char_val(s[2]), hex_char_val(s[3]), hex_char_val(s[4]), hex_char_val(
                    s[5],
                )) {
                    (Some(v3), Some(v2), Some(v1), Some(v0)) => {
                        let code = ((v3 * 4096 + v2 * 256 + v1 * 16 + v0) as u32);
                        if is_scalar(code) {
                            match parse_str_body(s.skip(6)) {
                                Some((content, rest)) => Some(
                                    (seq![code as char] + content, rest),
                                ),
                                None => None,
                            }
                        } else {
                            None
                        }
                    },
                    _ => None,
                }
            }
        } else {
            match unesc_char(s[1]) {
                Some(u) => match parse_str_body(s.skip(2)) {
                    Some((content, rest)) => Some((seq![u] + content, rest)),
                    None => None,
                },
                None => None,
            }
        }
    } else if (s[0] as u32) < 32 {
        None
    } else {
        match parse_str_body(s.drop_first()) {
            Some((content, rest)) => Some((seq![s[0]] + content, rest)),
            None => None,
        }
    }
}

/// The stored JSON text of a credential.
pub open spec fn render_credential(t: InitTokenVal) -> Seq<char> {
    match t {
        InitTokenVal::Auth(tok) => "{\"Auth\":\""@ + esc(tok) + "\"}"@,
        InitTokenVal::Session(tok) => "{\"Session\":\""@ + esc(tok) + "\"}"@,
    }
}

/// Reads the stored JSON text of a credential: exactly one object with
/// one tagged string, no surrounding space.
pub open spec fn parse_credential(s: Seq<char>) -> Option<InitTokenVal> {
    if s.len() < 2 || s[0] != '{' || s[1] != '"' {
        None
    } else {
        match parse_str_body(s.skip(2)) {
            None => None,
            Some((tag, r1)) => if r1.len() < 2 || r1[0] != ':' || r1[1] != '"' {
                None
            } else {
                match parse_str_body(r1.skip(2)) {
                    None => None,
                    Some((tok, r2)) => if r2.len() == 1 && r2[0] == '}' {
                        if tag == "Auth"@ {
                            Some(InitTokenVal::Auth(tok))
                        } else if tag == "Session"@ {
                            Some(InitTokenVal::Session(tok))
                        } else {
                            None
                        }
                    } else {
                        None
                    },
                }
            },
        }
    }
}

// ---------------------------------------------------------------------
// the escape round trip

proof fn lemma_hex_of_digit(d: int)
    requires
        0 <= d < 16,
    ensures
        hex_char_val(hex_digit(d)) == Some(d as u32),
{
    if d < 10 {
        assert(hex_digit(d) as u32 == 48 + d) by {
            assert(crate::text::hex_digits()[d] == hex_digit(d));
        }
    } else {
        assert(hex_digit(d) as u32 == 87 + d) by {
            assert(crate::text::hex_digits()[d] == hex_digit(d));
        }
    }
}

/// Reading back an escaped string recovers it: the body parser, applied
/// to the escaped text followed by the closing quote, returns the
/// original content and what follows the quote.
pub proof fn lemma_parse_esc(t: Seq<char>, suffix: Seq<char>)
    ensures
        parse_str_body(esc(t) + seq!['"'] + suffix) == Some((t, suffix)),
    decreases t.len(),
{
    broadcast use vstd::utf8::char_is_scalar, vstd::utf8::char_u32_cast;

    if t.len() == 0 {
        let s = esc(t) + seq!['"'] + suffix;
        assert(s =~= seq!['"'] + suffix);
        assert(s[0] == '"');
        assert(s.drop_first() =~= suffix);
        assert(t =~= Seq::<char>::empty());
    } else {
        let c = t[0];
        let t2 = t.drop_first();
        lemma_parse_esc(t2, suffix);
        let tail = esc(t2) + seq!['"'] + suffix;
        let s = esc(t) + seq!['"'] + suffix;
        assert(esc(t) == esc_char(c) + esc(t2));
        assert(s =~= esc_char(c) + tail);
        if c == '"' {
            assert(s[0] == '\\' && s[1] == '"');
            assert(unesc_char(s[1]) == Some('"'));
            assert(s.skip(2) =~= tail);
            assert(seq!['"'] + t2 =~= t);
        } else if c == '\\' {
            assert(s[0] == '\\' && s[1] == '\\');
            assert(unesc_char(s[1]) == Some('\\'));
            assert(s.skip(2) =~= tail);
            assert(seq!['\\'] + t2 =~= t);
        } else if (c as u32) < 32 {
            let v = c as u32 as int;
            assert(s[0] == '\\' && s[1] == 'u' && s[2] == '0' && s[3] == '0' && s[4]
                == hex_digit(v / 16) && s[5] == hex_digit(v % 16));
            assert(hex_char_val('0') == Some(0u32));
            lemma_hex_of_digit(v / 16);
            lemma_hex_of_digit(v % 16);
            let code = ((0 * 4096 + 0 * 256 + (v / 16) as u32 * 16 + (v % 16) as u32) as u32);
            assert(code == c as u32);
            assert(is_scalar(code));
            vstd::utf8::char_u32_cast(c, code);
            assert(code as char == c);
            assert(s.skip(6) =~= tail);
            assert(seq![c] + t2 =~= t);
        } else {
            assert(s[0] == c);
            assert(s[0] != '"' && s[0] != '\\' && (s[0] as u32) >= 32);
            assert(s.drop_first() =~= tail);
            assert(seq![c] + t2 =~= t);
        }
    }
}

/// Reading back a rendered credential recovers it, for both variants and
/// every token string.
pub proof fn lemma_parse_render(t: InitTokenVal)
    ensures
        parse_credential(render_credential(t)) == Some(t),
{
    reveal_strlit("{\"Auth\":\"");
    reveal_strlit("{\"Session\":\"");
    reveal_strlit("\"}");
    reveal_strlit("Auth");
    reveal_strlit("Session");
    broadcast use vstd::string::group_string_axioms;

    let tok = match t {
        InitTokenVal::Auth(tok) => tok,
        InitTokenVal::Session(tok) => tok,
    };
    let prefix = match t {
        InitTokenVal::Auth(_) => "{\"Auth\":\""@,
        InitTokenVal::Session(_) => "{\"Session\":\""@,
    };
    let tag = match t {
        InitTokenVal::Auth(_) => "Auth"@,
        InitTokenVal::Session(_) => "Session"@,
    };
    let s = render_credential(t);
    assert(s =~= prefix + esc(tok) + "\"}"@);
    assert(s[0] == '{' && s[1] == '"');
    // the tag reads back as itself: none of its letters needs escaping
    let after_tag = seq![':', '"'] + esc(tok) + "\"}"@;
    assert(s.skip(2) =~= esc(tag) + seq!['"'] + after_tag) by {
        assert(esc(tag) =~= tag) by {
            lemma_esc_plain(tag);
        }
        assert(s.skip(2) =~= tag + seq!['"'] + after_tag);
    }
    lemma_parse_esc(tag, after_tag);
    assert(parse_str_body(s.skip(2)) == Some((tag, after_tag)));
    assert(after_tag[0] == ':' && after_tag[1] == '"');
    assert(after_tag.skip(2) =~= esc(tok) + seq!['"'] + seq!['}']);
    lemma_parse_esc(tok, seq!['}']);
    let r2 = seq!['}'];
    assert(r2.len() == 1 && r2[0] == '}');
    assert(tag != "Auth"@ ==> tag == "Session"@) by {
        assert("Auth"@.len() == 4 && "Session"@.len() == 7);
    }
}

/// A string of printable characters free of quotes and backslashes is its
/// own escape.
proof fn lemma_esc_plain(s: Seq<char>)
    requires
        forall|i: int|
            0 <= i < s.len() ==> (#[trigger] s[i]) != '"' && s[i] != '\\' && (s[i] as u32) >= 32,
    ensures
        esc(s) == s,
    decreases s.len(),
{
    if s.len() == 0 {
        assert(esc(s) =~= s);
    } else {
        assert(forall|i: int|
            0 <= i < s.drop_first().len() ==> s.drop_first()[i] == s[i + 1]);
        lemma_esc_plain(s.drop_first());
        assert(esc_char(s[0]) == seq![s[0]]);
        assert(esc(s) =~= s);
    }
}

// ---------------------------------------------------------------------
// executable rendering

proof fn lemma_esc_snoc(s: Seq<char>, i: int)
    requires
        0 <= i < s.len(),
    ensures
        esc(s.take(i + 1)) == esc(s.take(i)) + esc_char(s[i]),
    decreases i,
{
    if i == 0 {
        assert(s.take(1).drop_first() =~= Seq::empty());
        assert(s.take(0) =~= Seq::empty());
        assert(s.take(1)[0] == s[0]);
        assert(esc(s.take(1)) =~= esc(s.take(0)) + esc_char(s[0]));
    } else {
        let d = s.drop_first();
        assert(s.take(i + 1)[0] == s[0]);
        assert(s.take(i)[0] == s[0]);
        assert(s.take(i + 1).drop_first() =~= d.take(i));
        assert(s.take(i).drop_first() =~= d.take(i - 1));
        assert(d[i - 1] == s[i]);
        lemma_esc_snoc(d, i - 1);
        assert(esc(s.take(i + 1)) =~= esc(s.take(i)) + esc_char(s[i]));
    }
}

/// Appends `s` with JSON string escaping.
pub fn push_escaped(out: &mut String, s: &str)
    ensures
        final(out)@ == old(out)@ + esc(s@),
{
    let n = s.unicode_len();
    let mut i: usize = 0;
    proof {
        assert(s@.take(0) =~= Seq::<char>::empty());
        assert(old(out)@ + esc(s@.take(0)) =~= old(out)@);
    }
    while i < n
        invariant
            i <= n,
            n == s@.len(),
            out@ == old(out)@ + esc(s@.take(i as int)),
        decreases n - i,
    {
        let c = s.get_char(i);
        let v = c as u32;
        if c == '"' {
            push_char(out, '\\');
            push_char(out, '"');
        } else if c == '\\' {
            push_char(out, '\\');
            push_char(out, '\\');
        } else if v < 32 {
            push_char(out, '\\');
            push_char(out, 'u');
            push_char(out, '0');
            push_char(out, '0');
            push_char(out, crate::text::hex_digit_char((v / 16) as u8));
            push_char(out, crate::text::hex_digit_char((v % 16) as u8));
        } else {
            push_char(out, c);
        }
        proof {
            lemma_esc_snoc(s@, i as int);
            assert(out@ =~= old(out)@ + esc(s@.take(i + 1)));
        }
        i += 1;
    }
    proof {
        assert(s@.take(n as int) =~= s@);
    }
}

/// The stored JSON text of a credential.
pub fn render_credential_text(t: &InitToken) -> (r: String)
    ensures
        r@ == render_credential(t@),
{
    let mut out: String;
    match t {
        InitToken::Auth(tok) => {
            out = String::from_str("{\"Auth\":\"");
            push_escaped(&mut out, tok.as_str());
        },
        InitToken::Session(tok) => {
            out = String::from_str("{\"Session\":\"");
            push_escaped(&mut out, tok.as_str());
        },
    }
    out.append("\"}");
    proof {
        assert(out@ =~= render_credential(t@));
    }
    out
}

// ---------------------------------------------------------------------
// executable parsing

/// Relies on `char::from_u32`: a character for exactly the Unicode scalar
/// values, the one with that value.
#[verifier::external_body]
fn char_from_u32(u: u32) -> (r: Option<char>)
    ensures
        r matches Some(c) ==> c as u32 == u,
        r is Some <==> is_scalar(u),
{
    char::from_u32(u)
}

fn hex_char_val_exec(c: char) -> (r: Option<u32>)
    ensures
        r == hex_char_val(c),
{
    let v = c as u32;
    if 48 <= v && v <= 57 {
        Some(v - 48)
    } else if 97 <= v && v <= 102 {
        Some(v - 87)
    } else if 65 <= v && v <= 70 {
        Some(v - 55)
    } else {
        None
    }
}

/// An option of parsed content and rest, with `prefix` put ahead of the
/// content.
pub open spec fn prepend_content(prefix: Seq<char>, r: Option<(Seq<char>, Seq<char>)>) -> Option<
    (Seq<char>, Seq<char>),
> {
    match r {
        Option::None => Option::None,
        Option::Some((content, rest)) => Option::Some((prefix + content, rest)),
    }
}

proof fn lemma_prepend_compose(a: Seq<char>, b: Seq<char>, r: Option<(Seq<char>, Seq<char>)>)
    ensures
        prepend_content(a, prepend_content(b, r)) == prepend_content(a + b, r),
{
    match r {
        Option::None => {},
        Option::Some((content, rest)) => {
            assert(a + (b + content) =~= (a + b) + content);
        },
    }
}

/// Reads a JSON string body starting at `i` (just past the opening
/// quote): the content and the position just past the closing quote.
#[verifier::rlimit(60)]
fn parse_str_body_exec(s: &str, i: usize) -> (r: Option<(String, usize)>)
    requires
        i <= s@.len(),
    ensures
        match r {
            Option::Some(p) => parse_str_body(s@.skip(i as int)) == Some(
                (p.0@, s@.skip(p.1 as int)),
            ) && p.1 <= s@.len(),
            Option::None => parse_str_body(s@.skip(i as int)) is None,
        },
{
    let n = s.unicode_len();
    let mut out = String::new();
    let mut j = i;
    proof {
        assert(out@ + Seq::<char>::empty() =~= out@);
        assert(prepend_content(out@, parse_str_body(s@.skip(j as int))) == parse_str_body(
            s@.skip(i as int),
        )) by {
            match parse_str_body(s@.skip(j as int)) {
                Option::None => {},
                Option::Some((content, rest)) => {
                    assert(out@ + content =~= content);
                },
            }
        }
    }
    while j < n
        invariant
            i <= j <= n,
            n == s@.len(),
            parse_str_body(s@.skip(i as int)) == prepend_content(
                out@,
                parse_str_body(s@.skip(j as int)),
            ),
        decreases n - j,
    {
        let ghost rem = s@.skip(j as int);
        let ghost out0 = out@;
        proof {
            assert(rem[0] == s@[j as int]);
            assert(rem.drop_first() =~= s@.skip(j + 1));
        }
        let c = s.get_char(j);
        if c == '"' {
            proof {
                assert(parse_str_body(rem) == Some((Seq::<char>::empty(), s@.skip(j + 1))));
                assert(out@ + Seq::<char>::empty() =~= out@);
            }
            return Some((out, j + 1));
        }
        if c == '\\' {
            if j + 1 >= n {
                proof {
                    assert(rem.len() < 2);
                }
                return None;
            }
            let e = s.get_char(j + 1);
            proof {
                assert(rem[1] == s@[j + 1]);
            }
            if e == 'u' {
                if n - j < 6 {
                    proof {
                        assert(rem.len() < 6);
                    }
                    return None;
                }
                proof {
                    assert(rem[2] == s@[j + 2] && rem[3] == s@[j + 3] && rem[4] == s@[j + 4]
                        && rem[5] == s@[j + 5]);
                    assert(rem.skip(6) =~= s@.skip(j + 6));
                }
                let v3 = hex_char_val_exec(s.get_char(j + 2));
                let v2 = hex_char_val_exec(s.get_char(j + 3));
                let v1 = hex_char_val_exec(s.get_char(j + 4));
                let v0 = hex_char_val_exec(s.get_char(j + 5));
                match (v3, v2, v1, v0) {
                    (Some(v3), Some(v2), Some(v1), Some(v0)) => {
                        let code = v3 * 4096 + v2 * 256 + v1 * 16 + v0;
                        match char_from_u32(code) {
                            Some(c2) => {
                                proof {
                                    vstd::utf8::char_u32_cast(c2, code);
                                    assert(parse_str_body(rem) == prepend_content(
                                        seq![c2],
                                        parse_str_body(s@.skip(j + 6)),
                                    ));
                                }
                                push_char(&mut out, c2);
                                proof {
                                    lemma_prepend_compose(
                                        out0,
                                        seq![c2],
                                        parse_str_body(s@.skip(j + 6)),
                                    );
                                    assert(out@ =~= out0 + seq![c2]);
                                }
                                j += 6;
                            },
                            None => {
                                return None;
                            },
                        }
                    },
                    _ => {
                        return None;
                    },
                }
            } else {
                let u = if e == '"' {
                    Some('"')
                } else if e == '\\' {
                    Some('\\')
                } else if e == '/' {
                    Some('/')
                } else if e == 'b' {
                    Some('\u{8}')
                } else if e == 'f' {
                    Some('\u{c}')
                } else if e == 'n' {
                    Some('\n')
                } else if e == 'r' {
                    Some('\r')
                } else if e == 't' {
                    Some('\t')
                } else {
                    None
                };
                proof {
                    assert(u == unesc_char(e));
                    assert(rem.skip(2) =~= s@.skip(j + 2));
                }
                match u {
                    Some(u) => {
                        proof {
                            assert(parse_str_body(rem) == prepend_content(
                                seq![u],
                                parse_str_body(s@.skip(j + 2)),
                            ));
                        }
                        push_char(&mut out, u);
                        proof {
                            lemma_prepend_compose(out0, seq![u], parse_str_body(s@.skip(j + 2)));
                            assert(out@ =~= out0 + seq![u]);
                        }
                        j += 2;
                    },
                    None => {
                        return None;
                    },
                }
            }
        } else if (c as u32) < 32 {
            return None;
        } else {
            proof {
                assert(parse_str_body(rem) == prepend_content(
                    seq![c],
                    parse_str_body(s@.skip(j + 1)),
                ));
            }
            push_char(&mut out, c);
            proof {
                lemma_prepend_compose(out0, seq![c], parse_str_body(s@.skip(j + 1)));
                assert(out@ =~= out0 + seq![c]);
            }
            j += 1;
        }
    }
    proof {
        assert(s@.skip(j as int).len() == 0);
    }
    None
}

/// Reads the stored JSON text of a credential.
pub fn parse_credential_text(s: &str) -> (r: Option<InitToken>)
    ensures
        match r {
            Option::Some(t) => parse_credential(s@) == Some(t@),
            Option::None => parse_credential(s@) is None,
        },
{
    let n = s.unicode_len();
    if n < 2 || s.get_char(0) != '{' || s.get_char(1) != '"' {
        return None;
    }
    proof {
        assert(s@.skip(2)[0] == s@[2] || s@.skip(2).len() == 0);
    }
    let (tag, r1) = match parse_str_body_exec(s, 2) {
        Some(p) => p,
        None => {
            return None;
        },
    };
    let ghost rest1 = s@.skip(r1 as int);
    if n - r1 < 2 || s.get_char(r1) != ':' || s.get_char(r1 + 1) != '"' {
        proof {
            if n - r1 < 2 {
                assert(rest1.len() < 2);
            } else {
                assert(rest1[0] == s@[r1 as int] && rest1[1] == s@[r1 + 1]);
            }
        }
        return None;
    }
    proof {
        assert(rest1[0] == s@[r1 as int] && rest1[1] == s@[r1 + 1]);
        assert(rest1.skip(2) =~= s@.skip(r1 + 2));
    }
    let (tok, r2) = match parse_str_body_exec(s, r1 + 2) {
        Some(p) => p,
        None => {
            return None;
        },
    };
    let ghost rest2 = s@.skip(r2 as int);
    if !(n - r2 == 1 && s.get_char(r2) == '}') {
        proof {
            if r2 < n {
                assert(rest2[0] == s@[r2 as int]);
            }
            assert(rest2.len() == n - r2);
        }
        return None;
    }
    proof {
        assert(rest2.len() == 1 && rest2[0] == '}');
    }
    if crate::text::str_eq(tag.as_str(), "Auth") {
        Some(InitToken::Auth(tok))
    } else if crate::text::str_eq(tag.as_str(), "Session") {
        Some(InitToken::Session(tok))
    } else {
        None
    }
}

// ---------------------------------------------------------------------
// the stored form: base64 around the JSON text

/// What the standard-alphabet base64 encoding of a text's UTF-8 bytes is.
pub uninterp spec fn b64_of_text(s: Seq<char>) -> Seq<char>;

/// What base64-decoding a text returns, when the text is well-formed
/// base64 of UTF-8 bytes.
pub uninterp spec fn b64_decode_text_spec(s: Seq<char>) -> Option<Seq<char>>;

/// Relies on base64's standard-alphabet `encode` over the text's UTF-8
/// bytes: a function of the input alone, and decoding its result returns
/// the input.
#[verifier::external_body]
fn b64_encode_text(s: &str) -> (r: String)
    requires
        s@.len() < 0x1000_0000_0000,
    ensures
        r@ == b64_of_text(s@),
        b64_decode_text_spec(r@) == Some(s@),
{
    base64::engine::general_purpose::STANDARD.encode(s.as_bytes())
}

/// Relies on base64's standard-alphabet `decode`, with `String::from_utf8`
/// around its result: recovers text encoded by the matching encoder, and
/// rejects what is not base64 of UTF-8 bytes.
#[verifier::external_body]
fn b64_decode_text(s: &str) -> (r: Option<String>)
    ensures
        r matches Some(t) ==> b64_decode_text_spec(s@) == Some(t@),
        r is Some <==> b64_decode_text_spec(s@) is Some,
{
    match base64::engine::general_purpose::STANDARD.decode(s.as_bytes()) {
        Ok(bytes) => String::from_utf8(bytes).ok(),
        Err(_) => None,
    }
}

/// What decoding a stored credential yields: the base64 layer first, the
/// JSON layer second.
pub open spec fn decode_credential_spec(s: Seq<char>) -> Option<InitTokenVal> {
    match b64_decode_text_spec(s) {
        Option::None => Option::None,
        Option::Some(j) => parse_credential(j),
    }
}

/// Encodes a credential for storage. Decoding the result recovers the
/// credential: the returned text's base64 layer yields the rendered JSON,
/// and reading that JSON yields the credential again.
pub fn encode_credential(t: &InitToken) -> (r: String)
    requires
        (match t {
            InitToken::Auth(tok) => tok@.len(),
            InitToken::Session(tok) => tok@.len(),
        }) < 0x1_0000_0000,
    ensures
        r@ == b64_of_text(render_credential(t@)),
        decode_credential_spec(r@) == Some(t@),
{
    let text = render_credential_text(t);
    proof {
        lemma_render_len(t@);
        lemma_parse_render(t@);
    }
    b64_encode_text(text.as_str())
}

/// The rendered JSON is at most six characters per token character, plus
/// the fixed frame.
proof fn lemma_render_len(t: InitTokenVal)
    ensures
        render_credential(t).len() <= 14 + 6 * (match t {
            InitTokenVal::Auth(tok) => tok.len(),
            InitTokenVal::Session(tok) => tok.len(),
        }),
{
    reveal_strlit("{\"Auth\":\"");
    reveal_strlit("{\"Session\":\"");
    reveal_strlit("\"}");
    broadcast use vstd::string::group_string_axioms;

    let tok = match t {
        InitTokenVal::Auth(tok) => tok,
        InitTokenVal::Session(tok) => tok,
    };
    lemma_esc_len(tok);
}

proof fn lemma_esc_len(s: Seq<char>)
    ensures
        esc(s).len() <= 6 * s.len(),
    decreases s.len(),
{
    if s.len() > 0 {
        lemma_esc_len(s.drop_first());
    }
}

/// Decodes a stored credential: the base64 layer, then the JSON layer.
/// A text failing either layer is a bad state file.
pub fn decode_credential(s: &str) -> (r: Result<InitToken, InitError>)
    ensures
        r matches Ok(t) ==> decode_credential_spec(s@) == Some(t@),
        r is Err <==> decode_credential_spec(s@) is None,
        r matches Err(e) ==> e is BadStateFile,
{
    let text = match b64_decode_text(s) {
        Some(t) => t,
        None => {
            return Err(
                InitError::BadStateFile(
                    String::from_str("stored credential is not base64 of text"),
                ),
            );
        },
    };
    match parse_credential_text(text.as_str()) {
        Some(t) => Ok(t),
        None => Err(
            InitError::BadStateFile(
                String::from_str("stored credential does not hold a tagged token"),
            ),
        ),
    }
}

} // verus!
