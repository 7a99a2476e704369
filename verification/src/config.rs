//! Configuration resolution: which source each credential comes from, and
//! the translation of a configuration file's values into command-line
//! flags. Reading files and parsing the command line stay with the
//! caller; the rules live here.

use vstd::prelude::*;
use vstd::string::StringExecFns;
use crate::credential::esc;
use crate::json::{deep_fields, JsonNode, JsonVal};
use crate::text::{dec_rep_int, i64_to_string, push_char};

verus! {

/// Why the configuration could not be resolved.
#[derive(Clone, Debug, PartialEq)]
pub enum ConfigError {
    /// Reading a named file failed.
    Io(String),
    /// The configuration file did not parse.
    FileParse(String),
    /// The arguments did not parse.
    ArgParse(String),
    /// Two exclusive settings were both absent (or otherwise clash).
    Conflict(String),
}

/// Where a setting's value comes from: a file to read, or the value
/// itself.
#[derive(Clone, Debug, PartialEq)]
pub enum ConfigSource {
    FromFile(String),
    Literal(String),
}

/// The command line as parsed: each secret may arrive directly or as a
/// file holding it.
#[derive(Clone, Debug, PartialEq)]
pub struct ArgumentConfig {
    pub workdir: String,
    pub query_interval: u64,
    pub discord_app_id: Option<String>,
    pub discord_app_id_file: Option<String>,
    pub lastfm_api_key: Option<String>,
    pub lastfm_api_key_file: Option<String>,
    pub lastfm_secret: Option<String>,
    pub lastfm_secret_file: Option<String>,
}

/// The resolved program configuration: each secret with its source.
#[derive(Clone, Debug, PartialEq)]
pub struct ProgramConfig {
    pub workdir: String,
    pub query_interval: u64,
    pub discord_app_id: ConfigSource,
    pub lastfm_api_key: ConfigSource,
    pub lastfm_secret: ConfigSource,
}

/// A command line wrapped with an optional configuration-file path: when
/// the path is given, the file's values stand in for the flags.
#[derive(Debug)]
pub struct Config<T> {
    pub config_path: Option<String>,
    pub inner: T,
}

/// Picks a setting's source: a named file wins, else the direct value,
/// else the two exclusive settings clash.
pub fn file_or_string(
    path: Option<String>,
    path_name: &str,
    arg: Option<String>,
    arg_name: &str,
) -> (r: Result<ConfigSource, ConfigError>)
    ensures
        path matches Some(p) ==> r == Ok::<_, ConfigError>(ConfigSource::FromFile(p)),
        path is None ==> (arg matches Some(a) ==> r == Ok::<_, ConfigError>(
            ConfigSource::Literal(a),
        )),
        path is None && arg is None ==> (r matches Err(ConfigError::Conflict(m)) && m@
            == "must specify either "@ + path_name@ + " or "@ + arg_name@),
{
    match (path, arg) {
        (Some(p), _) => Ok(ConfigSource::FromFile(p)),
        (None, Some(a)) => Ok(ConfigSource::Literal(a)),
        (None, None) => {
            let mut m = String::from_str("must specify either ");
            m.append(path_name);
            m.append(" or ");
            m.append(arg_name);
            Err(ConfigError::Conflict(m))
        },
    }
}

impl ArgumentConfig {
    /// Resolves the parsed command line: each secret must come from its
    /// file setting or its direct setting; the first missing pair is the
    /// error.
    pub fn resolve(self) -> (r: Result<ProgramConfig, ConfigError>)
        ensures
            r matches Ok(c) ==> {
                &&& c.workdir == self.workdir
                &&& c.query_interval == self.query_interval
                &&& self.discord_app_id_file matches Some(p) ==> c.discord_app_id
                    == ConfigSource::FromFile(p)
                &&& self.discord_app_id_file is None ==> (self.discord_app_id matches Some(a)
                    ==> c.discord_app_id == ConfigSource::Literal(a))
                &&& self.lastfm_api_key_file matches Some(p) ==> c.lastfm_api_key
                    == ConfigSource::FromFile(p)
                &&& self.lastfm_api_key_file is None ==> (self.lastfm_api_key matches Some(a)
                    ==> c.lastfm_api_key == ConfigSource::Literal(a))
                &&& self.lastfm_secret_file matches Some(p) ==> c.lastfm_secret
                    == ConfigSource::FromFile(p)
                &&& self.lastfm_secret_file is None ==> (self.lastfm_secret matches Some(a)
                    ==> c.lastfm_secret == ConfigSource::Literal(a))
            },
            r is Ok <==> ((self.discord_app_id_file is Some || self.discord_app_id is Some) && (
            self.lastfm_api_key_file is Some || self.lastfm_api_key is Some) && (
            self.lastfm_secret_file is Some || self.lastfm_secret is Some)),
            r matches Err(e) ==> e is Conflict,
    {
        let discord_app_id = match file_or_string(
            self.discord_app_id_file,
            "discord-app-id-file",
            self.discord_app_id,
            "discord-app-id",
        ) {
            Ok(s) => s,
            Err(e) => {
                return Err(e);
            },
        };
        let lastfm_api_key = match file_or_string(
            self.lastfm_api_key_file,
            "lastfm-api-key-file",
            self.lastfm_api_key,
            "lastfm-api-key",
        ) {
            Ok(s) => s,
            Err(e) => {
                return Err(e);
            },
        };
        let lastfm_secret = match file_or_string(
            self.lastfm_secret_file,
            "lastfm-secret-file",
            self.lastfm_secret,
            "lastfm-secret",
        ) {
            Ok(s) => s,
            Err(e) => {
                return Err(e);
            },
        };
        Ok(
            ProgramConfig {
                workdir: self.workdir,
                query_interval: self.query_interval,
                discord_app_id,
                lastfm_api_key,
                lastfm_secret,
            },
        )
    }
}

// ---------------------------------------------------------------------
// configuration file values as flags

/// The key as it appears on the command line: underscores as hyphens.
pub open spec fn dash_key(k: Seq<char>) -> Seq<char> {
    Seq::new(k.len(), |i: int| if k[i] == '_' {
        '-'
    } else {
        k[i]
    })
}

/// The flag text of one scalar configuration value: strings stand bare,
/// anything else is written as JSON text.
pub open spec fn json_scalar_text(v: JsonVal) -> Option<Seq<char>> {
    match v {
        JsonVal::Null => Some("null"@),
        JsonVal::Bool(b) => Some(
            if b {
                "true"@
            } else {
                "false"@
            },
        ),
        JsonVal::Int(i) => Some(dec_rep_int(i as int)),
        JsonVal::Num(s) => Some(s),
        JsonVal::Text(s) => Some(seq!['"'] + esc(s) + seq!['"']),
        _ => None,
    }
}

/// The flag text of a list value: the JSON texts of its elements joined
/// with commas; an element that is itself a list or object is rejected.
pub open spec fn list_text(items: Seq<JsonVal>) -> Option<Seq<char>>
    decreases items.len(),
{
    if items.len() == 0 {
        Some(Seq::empty())
    } else {
        match json_scalar_text(items[0]) {
            None => None,
            Some(head) => if items.len() == 1 {
                Some(head)
            } else {
                match list_text(items.drop_first()) {
                    None => None,
                    Some(rest) => Some(head + seq![','] + rest),
                }
            },
        }
    }
}

/// The flag value of one configuration value: a string stands as itself,
/// a list is joined, any other scalar is its JSON text; an object cannot
/// be a flag.
pub open spec fn flag_value(v: JsonVal) -> Option<Seq<char>> {
    match v {
        JsonVal::Object(_) => None,
        JsonVal::List(items) => list_text(items),
        JsonVal::Text(s) => Some(s),
        _ => json_scalar_text(v),
    }
}

/// The flags of a configuration object's fields, in order; the first
/// field that cannot be a flag decides the error text.
pub open spec fn flags_spec(fields: Seq<(Seq<char>, JsonVal)>) -> Result<
    Seq<Seq<char>>,
    Seq<char>,
>
    decreases fields.len(),
{
    if fields.len() == 0 {
        Ok(Seq::empty())
    } else {
        let key = fields[0].0;
        let v = fields[0].1;
        if v is Object {
            Err("value of \""@ + key + "\" is object"@)
        } else {
            match flag_value(v) {
                None => Err("value of \""@ + key + "\" is too complex"@),
                Some(value) => match flags_spec(fields.drop_first()) {
                    Err(m) => Err(m),
                    Ok(rest) => Ok(
                        seq![("--"@ + dash_key(key) + "="@ + value)] + rest,
                    ),
                },
            }
        }
    }
}

/// The views of a list of strings.
pub open spec fn strings_view(s: Seq<String>) -> Seq<Seq<char>> {
    Seq::new(s.len(), |i: int| s[i]@)
}

/// Appends the key with underscores as hyphens.
fn push_dash_key(out: &mut String, key: &str)
    ensures
        final(out)@ == old(out)@ + dash_key(key@),
{
    let n = vstd::string::StrSliceExecFns::unicode_len(key);
    let mut i: usize = 0;
    while i < n
        invariant
            i <= n,
            n == key@.len(),
            out@.len() == old(out)@.len() + i,
            out@ == old(out)@ + dash_key(key@).take(i as int),
        decreases n - i,
    {
        let c = vstd::string::StrSliceExecFns::get_char(key, i);
        if c == '_' {
            push_char(out, '-');
        } else {
            push_char(out, c);
        }
        proof {
            assert(out@ =~= old(out)@ + dash_key(key@).take(i + 1));
        }
        i += 1;
    }
    proof {
        assert(dash_key(key@).take(n as int) =~= dash_key(key@));
    }
}

/// The flag text of one scalar value.
fn scalar_text(v: &JsonNode) -> (r: Option<String>)
    ensures
        match r {
            Option::Some(s) => json_scalar_text(v.deep()) == Some(s@),
            Option::None => json_scalar_text(v.deep()) is None,
        },
{
    match v {
        JsonNode::Null => Some(String::from_str("null")),
        JsonNode::Bool(b) => Some(
            if *b {
                String::from_str("true")
            } else {
                String::from_str("false")
            },
        ),
        JsonNode::Int(i) => Some(i64_to_string(*i)),
        JsonNode::Num(s) => Some(s.clone()),
        JsonNode::Text(s) => {
            let mut out = String::new();
            push_char(&mut out, '"');
            crate::credential::push_escaped(&mut out, s.as_str());
            push_char(&mut out, '"');
            proof {
                assert(out@ =~= seq!['"'] + esc(s@) + seq!['"']);
            }
            Some(out)
        },
        _ => None,
    }
}

proof fn lemma_list_text_snoc(items: Seq<JsonVal>, i: int)
    requires
        0 < i < items.len(),
        list_text(items.take(i)) is Some,
        json_scalar_text(items[i]) is Some,
    ensures
        list_text(items.take(i + 1)) == Some(
            list_text(items.take(i)).unwrap() + seq![','] + json_scalar_text(items[i]).unwrap(),
        ),
    decreases i,
{
    let d = items.drop_first();
    assert(items.take(i + 1)[0] == items[0]);
    assert(items.take(i)[0] == items[0]);
    assert(items.take(i + 1).drop_first() =~= d.take(i));
    assert(items.take(i).drop_first() =~= d.take(i - 1));
    assert(d[i - 1] == items[i]);
    if i == 1 {
        assert(d.take(1)[0] == d[0]);
        assert(d.take(0) =~= Seq::<JsonVal>::empty());
        assert(d.take(1).drop_first() =~= Seq::<JsonVal>::empty());
        assert(list_text(items.take(2)) == Some(
            json_scalar_text(items[0]).unwrap() + seq![','] + json_scalar_text(
                items[1],
            ).unwrap(),
        ));
    } else {
        assert(list_text(d.take(i - 1)) is Some);
        lemma_list_text_snoc(d, i - 1);
        let head = json_scalar_text(items[0]).unwrap();
        let p = json_scalar_text(items[i]).unwrap();
        assert(head + seq![','] + (list_text(d.take(i - 1)).unwrap() + seq![','] + p) =~= (head
            + seq![','] + list_text(d.take(i - 1)).unwrap()) + seq![','] + p);
    }
}

proof fn lemma_list_text_err(items: Seq<JsonVal>, i: int)
    requires
        0 <= i < items.len(),
        json_scalar_text(items[i]) is None,
    ensures
        list_text(items) is None,
    decreases i,
{
    if i == 0 {
    } else {
        lemma_list_text_err(items.drop_first(), i - 1);
    }
}

/// The joined flag text of a list value.
fn join_list(items: &Vec<JsonNode>) -> (r: Option<String>)
    ensures
        match r {
            Option::Some(s) => list_text(crate::json::deep_list(items@)) == Some(s@),
            Option::None => list_text(crate::json::deep_list(items@)) is None,
        },
{
    let ghost d = crate::json::deep_list(items@);
    let mut out = String::new();
    let mut i: usize = 0;
    proof {
        crate::json::lemma_deep_list_index(items@);
        assert(d.take(0) =~= Seq::<JsonVal>::empty());
    }
    while i < items.len()
        invariant
            i <= items.len(),
            d == crate::json::deep_list(items@),
            d.len() == items@.len(),
            forall|j: int| 0 <= j < items@.len() ==> #[trigger] d[j] == items@[j].deep(),
            list_text(d.take(i as int)) == Some(out@),
        decreases items.len() - i,
    {
        match scalar_text(&items[i]) {
            None => {
                proof {
                    lemma_list_text_err(d, i as int);
                }
                return None;
            },
            Some(s) => {
                if i > 0 {
                    push_char(&mut out, ',');
                }
                out.append(s.as_str());
                proof {
                    if i == 0 {
                        assert(d.take(1)[0] == d[0]);
                        assert(d.take(1).len() == 1);
                        assert(out@ =~= list_text(d.take(1)).unwrap());
                    } else {
                        lemma_list_text_snoc(d, i as int);
                        assert(out@ =~= list_text(d.take(i + 1)).unwrap());
                    }
                }
            },
        }
        i += 1;
    }
    proof {
        assert(d.take(items@.len() as int) =~= d);
    }
    Some(out)
}

proof fn lemma_flags_snoc(fields: Seq<(Seq<char>, JsonVal)>, i: int)
    requires
        0 <= i < fields.len(),
        flags_spec(fields.take(i)) is Ok,
        !(fields[i].1 is Object),
        flag_value(fields[i].1) is Some,
    ensures
        flags_spec(fields.take(i + 1)) == Ok::<_, Seq<char>>(
            flags_spec(fields.take(i))->Ok_0.push(
                "--"@ + dash_key(fields[i].0) + "="@ + flag_value(fields[i].1).unwrap(),
            ),
        ),
    decreases i,
{
    let flag = "--"@ + dash_key(fields[i].0) + "="@ + flag_value(fields[i].1).unwrap();
    if i == 0 {
        assert(fields.take(1)[0] == fields[0]);
        assert(fields.take(1).drop_first() =~= Seq::<(Seq<char>, JsonVal)>::empty());
        assert(fields.take(0) =~= Seq::<(Seq<char>, JsonVal)>::empty());
        assert(seq![flag] + Seq::<Seq<char>>::empty() =~= Seq::<Seq<char>>::empty().push(flag));
    } else {
        let d = fields.drop_first();
        assert(fields.take(i + 1)[0] == fields[0]);
        assert(fields.take(i)[0] == fields[0]);
        assert(fields.take(i + 1).drop_first() =~= d.take(i));
        assert(fields.take(i).drop_first() =~= d.take(i - 1));
        assert(d[i - 1] == fields[i]);
        assert(flags_spec(d.take(i - 1)) is Ok);
        lemma_flags_snoc(d, i - 1);
        let head = "--"@ + dash_key(fields[0].0) + "="@ + flag_value(fields[0].1).unwrap();
        assert(seq![head] + flags_spec(d.take(i - 1))->Ok_0.push(flag) =~= (seq![head]
            + flags_spec(d.take(i - 1))->Ok_0).push(flag));
    }
}

proof fn lemma_flags_err(fields: Seq<(Seq<char>, JsonVal)>, i: int)
    requires
        0 <= i < fields.len(),
        flags_spec(fields.take(i)) is Ok,
        fields[i].1 is Object || flag_value(fields[i].1) is None,
    ensures
        flags_spec(fields) is Err,
        fields[i].1 is Object ==> flags_spec(fields) == Err::<Seq<Seq<char>>, _>(
            "value of \""@ + fields[i].0 + "\" is object"@,
        ),
        !(fields[i].1 is Object) ==> flags_spec(fields) == Err::<Seq<Seq<char>>, _>(
            "value of \""@ + fields[i].0 + "\" is too complex"@,
        ),
    decreases i,
{
    if i == 0 {
    } else {
        let d = fields.drop_first();
        assert(fields.take(i)[0] == fields[0]);
        assert(fields.take(i).drop_first() =~= d.take(i - 1));
        assert(d[i - 1] == fields[i]);
        assert(flags_spec(d.take(i - 1)) is Ok);
        lemma_flags_err(d, i - 1);
    }
}

/// Translates a configuration object's fields into command-line flags:
/// a leading `--`, then one `--key=value` per field, keys with hyphens
/// for underscores and values joined or rendered as JSON text. A field
/// holding an object, or a list nesting further structure, is rejected
/// with a text naming it.
pub fn value_to_flags(fields: &Vec<(String, JsonNode)>) -> (r: Result<Vec<String>, String>)
    ensures
        r matches Ok(flags) ==> Ok::<_, Seq<char>>(strings_view(flags@).drop_first()) == flags_spec(
            deep_fields(fields@),
        ) && strings_view(flags@).len() > 0 && strings_view(flags@)[0] == "--"@,
        r matches Err(m) ==> Err::<Seq<Seq<char>>, _>(m@) == flags_spec(deep_fields(fields@)),
{
    let ghost d = deep_fields(fields@);
    let mut out: Vec<String> = Vec::new();
    out.push(String::from_str("--"));
    let mut i: usize = 0;
    proof {
        crate::json::lemma_deep_fields_index(fields@);
        assert(d.take(0) =~= Seq::<(Seq<char>, JsonVal)>::empty());
        assert(strings_view(out@).drop_first() =~= Seq::<Seq<char>>::empty());
    }
    while i < fields.len()
        invariant
            i <= fields.len(),
            d == deep_fields(fields@),
            d.len() == fields@.len(),
            forall|j: int|
                0 <= j < fields@.len() ==> #[trigger] d[j] == (
                    fields@[j].0@,
                    fields@[j].1.deep(),
                ),
            strings_view(out@).len() == i + 1,
            strings_view(out@)[0] == "--"@,
            flags_spec(d.take(i as int)) == Ok::<_, Seq<char>>(strings_view(out@).drop_first()),
        decreases fields.len() - i,
    {
        let node = &fields[i].1;
        let value = match node {
            JsonNode::Object(_) => {
                proof {
                    lemma_flags_err(d, i as int);
                }
                let mut m = String::from_str("value of \"");
                m.append(fields[i].0.as_str());
                m.append("\" is object");
                proof {
                    assert(m@ =~= "value of \""@ + d[i as int].0 + "\" is object"@);
                }
                return Err(m);
            },
            JsonNode::List(items) => match join_list(items) {
                Some(s) => s,
                None => {
                    proof {
                        lemma_flags_err(d, i as int);
                    }
                    let mut m = String::from_str("value of \"");
                    m.append(fields[i].0.as_str());
                    m.append("\" is too complex");
                    proof {
                        assert(m@ =~= "value of \""@ + d[i as int].0 + "\" is too complex"@);
                    }
                    return Err(m);
                },
            },
            JsonNode::Text(s) => s.clone(),
            _ => match scalar_text(node) {
                Some(s) => s,
                None => {
                    // only lists and objects lack a scalar text, and both
                    // are handled above
                    proof {
                        assert(false);
                    }
                    String::new()
                },
            },
        };
        let mut flag = String::from_str("--");
        push_dash_key(&mut flag, fields[i].0.as_str());
        flag.append("=");
        flag.append(value.as_str());
        proof {
            assert(flag@ =~= "--"@ + dash_key(d[i as int].0) + "="@ + flag_value(
                d[i as int].1,
            ).unwrap());
            lemma_flags_snoc(d, i as int);
        }
        out.push(flag);
        proof {
            assert(strings_view(out@).drop_first() =~= flags_spec(d.take(i + 1))->Ok_0);
            assert(strings_view(out@)[0] == "--"@);
        }
        i += 1;
    }
    proof {
        assert(d.take(fields@.len() as int) =~= d);
    }
    Ok(out)
}

} // verus!
