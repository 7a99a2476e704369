//! The stringly-typed coercions of the wire format: the remote API
//! encodes booleans and numbers as strings, and these shims recover the
//! typed values.

use vstd::prelude::*;
use vstd::string::StrSliceExecFns;
use vstd::string::StringExecFns;
use crate::text::{parse_u32, parse_u32_spec, str_eq};

verus! {

/// A string did not carry a value of the expected kind: the offending
/// string and the name of what was expected are kept.
#[derive(Clone, Debug, PartialEq)]
pub struct InvalidValue {
    pub value: String,
    pub expected: String,
}

/// What the boolean shim accepts: the two wire spellings of each truth
/// value.
pub open spec fn parse_bool_spec(s: Seq<char>) -> Option<bool> {
    if s == "0"@ || s == "false"@ {
        Some(false)
    } else if s == "1"@ || s == "true"@ {
        Some(true)
    } else {
        None
    }
}

/// The token a boolean serializes to on the wire.
pub open spec fn bool_token_spec(b: bool) -> Seq<char> {
    if b {
        "1"@
    } else {
        "0"@
    }
}

/// Serializes a boolean to its wire token.
pub fn serialize_bool(b: bool) -> (r: String)
    ensures
        r@ == bool_token_spec(b),
{
    if b {
        String::from_str("1")
    } else {
        String::from_str("0")
    }
}

/// Reads a boolean from its wire string: `"0"` and `"false"` are false,
/// `"1"` and `"true"` are true, anything else is rejected.
pub fn parse_bool(s: &str) -> (r: Result<bool, InvalidValue>)
    ensures
        r matches Ok(b) ==> parse_bool_spec(s@) == Some(b),
        r is Err <==> parse_bool_spec(s@) is None,
        r matches Err(e) ==> e.value@ == s@,
{
    if str_eq(s, "0") || str_eq(s, "false") {
        Ok(false)
    } else if str_eq(s, "1") || str_eq(s, "true") {
        Ok(true)
    } else {
        Err(
            InvalidValue {
                value: String::from_str(s),
                expected: String::from_str("(\"0\" or \"false\") or (\"1\" or \"true\")"),
            },
        )
    }
}

/// Reads a present optional boolean: the base shim, wrapped in `Some`.
/// An absent field never reaches this shim; absence is handled by the
/// surrounding field machinery.
pub fn parse_option_bool(s: &str) -> (r: Result<Option<bool>, InvalidValue>)
    ensures
        r matches Ok(b) ==> b matches Some(x) && parse_bool_spec(s@) == Some(x),
        r is Err <==> parse_bool_spec(s@) is None,
{
    match parse_bool(s) {
        Ok(b) => Ok(Some(b)),
        Err(e) => Err(e),
    }
}

/// Reads a number from its wire string the way `u32::from_str` does;
/// anything else is rejected with the offending string.
pub fn parse_from_string(s: &str) -> (r: Result<u32, InvalidValue>)
    ensures
        r matches Ok(n) ==> parse_u32_spec(s@) == Some(n),
        r is Err <==> parse_u32_spec(s@) is None,
        r matches Err(e) ==> e.value@ == s@,
{
    match parse_u32(s) {
        Some(n) => Ok(n),
        None => Err(
            InvalidValue {
                value: String::from_str(s),
                expected: String::from_str("u32 as a string"),
            },
        ),
    }
}

/// Reads a present optional number: the base shim, wrapped in `Some`.
pub fn parse_option_from_string(s: &str) -> (r: Result<Option<u32>, InvalidValue>)
    ensures
        r matches Ok(b) ==> b matches Some(n) && parse_u32_spec(s@) == Some(n),
        r is Err <==> parse_u32_spec(s@) is None,
{
    match parse_from_string(s) {
        Ok(n) => Ok(Some(n)),
        Err(e) => Err(e),
    }
}

/// The boolean shims agree with the serializer: reading back a
/// serialized boolean returns the same value, under one consistent token
/// mapping end to end.
pub proof fn lemma_bool_round_trip(b: bool)
    ensures
        parse_bool_spec(bool_token_spec(b)) == Some(b),
{
    broadcast use vstd::string::group_string_axioms;

    reveal_strlit("0");
    reveal_strlit("1");
    reveal_strlit("false");
    reveal_strlit("true");
    assert("0"@.len() == 1 && "1"@.len() == 1 && "false"@.len() == 5 && "true"@.len() == 4);
    assert("0"@[0] == '0' && "1"@[0] == '1');
    assert("0"@ != "1"@ && "0"@ != "true"@ && "1"@ != "false"@);
}

} // verus!
