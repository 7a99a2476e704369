//! Flattening a structured request into string key/value pairs.
//!
//! A request is modelled as an explicit tree of the shapes the wire
//! convention knows how to flatten, so the set of supported shapes is
//! closed: every scalar kind renders to one string, optional fields are
//! omitted when absent, and any nested collection is rejected.

use vstd::prelude::*;
use vstd::string::StringExecFns;
use vstd::utf8::{decode_utf8, valid_utf8};
use crate::params::{pair_views, PairVal};
use crate::text::{dec_rep, dec_rep_int, i64_to_string, push_char, u64_to_string};

verus! {

/// The flattening failed: the request holds a shape the wire convention
/// cannot carry. A diagnostic message is kept.
#[derive(Debug)]
pub struct InvalidStructError(pub String);

impl InvalidStructError {
    /// The diagnostic message.
    pub fn message(&self) -> (r: &str)
        ensures
            r@ == self.0@,
    {
        self.0.as_str()
    }
}

/// The value of one request field.
pub enum FieldValue {
    Bool(bool),
    U64(u64),
    I64(i64),
    Ch(char),
    Text(String),
    Bytes(Vec<u8>),
    Unit,
    /// A tagged alternative without payload: flattens to its tag.
    Tag(String),
    /// An optional value: absent values are left out of the parameters.
    Opt(Option<Box<FieldValue>>),
    List(Vec<FieldValue>),
    Record(Vec<(String, FieldValue)>),
    Tuple(Vec<FieldValue>),
    /// A tagged alternative carrying data: not flattenable.
    TaggedValue(String, Box<FieldValue>),
}

/// A whole request, as handed to the serializer.
pub enum RequestValue {
    /// A record: one entry per field, fields rendering to the empty
    /// string are dropped.
    Record(Vec<(String, FieldValue)>),
    /// An ordered mapping: keys are flattened too, and no entry is
    /// dropped.
    Mapping(Vec<(FieldValue, FieldValue)>),
    /// A single-field wrapper: one entry under the wrapper's name.
    Newtype(String, Box<FieldValue>),
    /// Any other top-level shape: never flattenable.
    Bare(Box<FieldValue>),
}

/// What `String::from_utf8_lossy` returns for the given bytes: a function
/// of the bytes alone.
pub uninterp spec fn utf8_lossy_of(b: Seq<u8>) -> Seq<char>;

/// Relies on `String::from_utf8_lossy`: text decoded from bytes, invalid
/// sequences replaced; valid UTF-8 decodes to exactly its characters.
#[verifier::external_body]
fn utf8_lossy(b: &[u8]) -> (r: String)
    ensures
        r@ == utf8_lossy_of(b@),
        valid_utf8(b@) ==> r@ == decode_utf8(b@),
{
    String::from_utf8_lossy(b).to_string()
}

/// The string a single field value flattens to, or a rejection for a
/// nested collection.
pub open spec fn flat_spec(v: FieldValue) -> Result<Seq<char>, ()>
    decreases v,
{
    match v {
        FieldValue::Bool(b) => Ok(if b {
            seq!['1']
        } else {
            seq!['0']
        }),
        FieldValue::U64(n) => Ok(dec_rep(n as nat)),
        FieldValue::I64(n) => Ok(dec_rep_int(n as int)),
        FieldValue::Ch(c) => Ok(seq![c]),
        FieldValue::Text(s) => Ok(s@),
        FieldValue::Bytes(b) => Ok(utf8_lossy_of(b@)),
        FieldValue::Unit => Ok(Seq::empty()),
        FieldValue::Tag(s) => Ok(s@),
        FieldValue::Opt(o) => match o {
            Option::None => Ok(Seq::empty()),
            Option::Some(inner) => flat_spec(*inner),
        },
        FieldValue::List(_) => Err(()),
        FieldValue::Record(_) => Err(()),
        FieldValue::Tuple(_) => Err(()),
        FieldValue::TaggedValue(_, _) => Err(()),
    }
}

/// Whether a field value is one of the flattenable shapes.
pub open spec fn is_flat_shape(v: FieldValue) -> bool
    decreases v,
{
    match v {
        FieldValue::List(_) => false,
        FieldValue::Record(_) => false,
        FieldValue::Tuple(_) => false,
        FieldValue::TaggedValue(_, _) => false,
        FieldValue::Opt(o) => match o {
            Option::None => true,
            Option::Some(inner) => is_flat_shape(*inner),
        },
        _ => true,
    }
}

/// Flattening succeeds exactly on the flattenable shapes.
pub proof fn lemma_flat_spec_shape(v: FieldValue)
    ensures
        flat_spec(v) is Ok <==> is_flat_shape(v),
    decreases v,
{
    match v {
        FieldValue::Opt(o) => match o {
            Option::None => {},
            Option::Some(inner) => lemma_flat_spec_shape(*inner),
        },
        _ => {},
    }
}

/// The pairs of a record's fields: each field renders to one entry, and a
/// field rendering to the empty string is dropped.
pub open spec fn record_pairs_spec(fields: Seq<(String, FieldValue)>) -> Result<
    Seq<PairVal>,
    (),
>
    decreases fields.len(),
{
    if fields.len() == 0 {
        Ok(Seq::empty())
    } else {
        match flat_spec(fields[0].1) {
            Err(e) => Err(e),
            Ok(val) => match record_pairs_spec(fields.drop_first()) {
                Err(e) => Err(e),
                Ok(rest) => Ok(
                    if val.len() == 0 {
                        rest
                    } else {
                        seq![(fields[0].0@, val)] + rest
                    },
                ),
            },
        }
    }
}

/// The pairs of a mapping's entries: key and value are both flattened,
/// and every entry is kept.
pub open spec fn mapping_pairs_spec(entries: Seq<(FieldValue, FieldValue)>) -> Result<
    Seq<PairVal>,
    (),
>
    decreases entries.len(),
{
    if entries.len() == 0 {
        Ok(Seq::empty())
    } else {
        match (flat_spec(entries[0].0), flat_spec(entries[0].1)) {
            (Ok(key), Ok(val)) => match mapping_pairs_spec(entries.drop_first()) {
                Err(e) => Err(e),
                Ok(rest) => Ok(seq![(key, val)] + rest),
            },
            _ => Err(()),
        }
    }
}

/// What a whole request flattens to.
pub open spec fn to_pairs_spec(r: RequestValue) -> Result<Seq<PairVal>, ()> {
    match r {
        RequestValue::Record(fields) => record_pairs_spec(fields@),
        RequestValue::Mapping(entries) => mapping_pairs_spec(entries@),
        RequestValue::Newtype(name, v) => match flat_spec(*v) {
            Ok(val) => Ok(seq![(name@, val)]),
            Err(e) => Err(e),
        },
        RequestValue::Bare(_) => Err(()),
    }
}

/// Renders one field value, or rejects its shape with a diagnostic.
fn flat_value(v: &FieldValue) -> (r: Result<String, InvalidStructError>)
    ensures
        r is Ok <==> flat_spec(*v) is Ok,
        r matches Ok(s) ==> Ok::<_, ()>(s@) == flat_spec(*v),
    decreases *v,
{
    proof {
        reveal_strlit("1");
        reveal_strlit("0");
    }
    match v {
        FieldValue::Bool(b) => {
            let s = if *b {
                String::from_str("1")
            } else {
                String::from_str("0")
            };
            proof {
                if *b {
                    assert(s@ =~= seq!['1']);
                } else {
                    assert(s@ =~= seq!['0']);
                }
            }
            Ok(s)
        },
        FieldValue::U64(n) => Ok(u64_to_string(*n)),
        FieldValue::I64(n) => Ok(i64_to_string(*n)),
        FieldValue::Ch(c) => {
            let mut s = String::new();
            push_char(&mut s, *c);
            proof {
                assert(s@ =~= seq![*c]);
            }
            Ok(s)
        },
        FieldValue::Text(s) => Ok(s.clone()),
        FieldValue::Bytes(b) => Ok(utf8_lossy(b.as_slice())),
        FieldValue::Unit => Ok(String::new()),
        FieldValue::Tag(s) => Ok(s.clone()),
        FieldValue::Opt(o) => match o {
            Option::None => Ok(String::new()),
            Option::Some(inner) => flat_value(inner),
        },
        FieldValue::List(_) => Err(
            InvalidStructError(String::from_str("cannot serialize sequence")),
        ),
        FieldValue::Record(_) => Err(
            InvalidStructError(String::from_str("cannot serialize struct")),
        ),
        FieldValue::Tuple(_) => Err(
            InvalidStructError(String::from_str("cannot serialize tuple")),
        ),
        FieldValue::TaggedValue(_, _) => Err(
            InvalidStructError(
                String::from_str("cannot serialize externally tagged variant"),
            ),
        ),
    }
}

proof fn lemma_record_pairs_snoc(fields: Seq<(String, FieldValue)>, i: int)
    requires
        0 <= i < fields.len(),
        record_pairs_spec(fields.take(i)) is Ok,
        flat_spec(fields[i].1) is Ok,
    ensures
        record_pairs_spec(fields.take(i + 1)) == Ok::<_, ()>(
            if flat_spec(fields[i].1).unwrap().len() == 0 {
                record_pairs_spec(fields.take(i)).unwrap()
            } else {
                record_pairs_spec(fields.take(i)).unwrap().push(
                    (fields[i].0@, flat_spec(fields[i].1).unwrap()),
                )
            },
        ),
    decreases i,
{
    if i == 0 {
        assert(fields.take(1).drop_first() =~= Seq::empty());
        assert(fields.take(0) =~= Seq::empty());
        assert(fields.take(1)[0] == fields[0]);
        if flat_spec(fields[0].1).unwrap().len() != 0 {
            assert(seq![(fields[0].0@, flat_spec(fields[0].1).unwrap())] + Seq::empty() =~= Seq::empty().push((fields[0].0@, flat_spec(fields[0].1).unwrap())));
        }
    } else {
        let d = fields.drop_first();
        assert(fields.take(i + 1)[0] == fields[0]);
        assert(fields.take(i)[0] == fields[0]);
        assert(fields.take(i + 1).drop_first() =~= d.take(i));
        assert(fields.take(i).drop_first() =~= d.take(i - 1));
        assert(d[i - 1] == fields[i]);
        assert(record_pairs_spec(fields.take(i)) is Ok);
        assert(flat_spec(fields.take(i)[0].1) is Ok);
        assert(record_pairs_spec(d.take(i - 1)) is Ok);
        lemma_record_pairs_snoc(d, i - 1);
        if flat_spec(fields[i].1).unwrap().len() == 0 {
        } else {
            let head = (fields[0].0@, flat_spec(fields[0].1).unwrap());
            let p = (fields[i].0@, flat_spec(fields[i].1).unwrap());
            if flat_spec(fields[0].1).unwrap().len() != 0 {
                assert(seq![head] + record_pairs_spec(d.take(i - 1)).unwrap().push(p) =~= (
                seq![head] + record_pairs_spec(d.take(i - 1)).unwrap()).push(p));
            }
        }
    }
}

proof fn lemma_record_pairs_err(fields: Seq<(String, FieldValue)>, i: int)
    requires
        0 <= i < fields.len(),
        flat_spec(fields[i].1) is Err,
    ensures
        record_pairs_spec(fields) is Err,
    decreases i,
{
    if i == 0 {
    } else {
        lemma_record_pairs_err(fields.drop_first(), i - 1);
    }
}

proof fn lemma_mapping_pairs_snoc(entries: Seq<(FieldValue, FieldValue)>, i: int)
    requires
        0 <= i < entries.len(),
        mapping_pairs_spec(entries.take(i)) is Ok,
        flat_spec(entries[i].0) is Ok,
        flat_spec(entries[i].1) is Ok,
    ensures
        mapping_pairs_spec(entries.take(i + 1)) == Ok::<_, ()>(
            mapping_pairs_spec(entries.take(i)).unwrap().push(
                (flat_spec(entries[i].0).unwrap(), flat_spec(entries[i].1).unwrap()),
            ),
        ),
    decreases i,
{
    let p = (flat_spec(entries[i].0).unwrap(), flat_spec(entries[i].1).unwrap());
    if i == 0 {
        assert(entries.take(1).drop_first() =~= Seq::empty());
        assert(entries.take(0) =~= Seq::empty());
        assert(entries.take(1)[0] == entries[0]);
        assert(seq![p] + Seq::empty() =~= Seq::empty().push(p));
    } else {
        let d = entries.drop_first();
        assert(entries.take(i + 1)[0] == entries[0]);
        assert(entries.take(i)[0] == entries[0]);
        assert(entries.take(i + 1).drop_first() =~= d.take(i));
        assert(entries.take(i).drop_first() =~= d.take(i - 1));
        assert(d[i - 1] == entries[i]);
        lemma_mapping_pairs_snoc(d, i - 1);
        let head = (flat_spec(entries[0].0).unwrap(), flat_spec(entries[0].1).unwrap());
        assert(seq![head] + mapping_pairs_spec(d.take(i - 1)).unwrap().push(p) =~= (seq![head]
            + mapping_pairs_spec(d.take(i - 1)).unwrap()).push(p));
    }
}

proof fn lemma_mapping_pairs_err(entries: Seq<(FieldValue, FieldValue)>, i: int)
    requires
        0 <= i < entries.len(),
        flat_spec(entries[i].0) is Err || flat_spec(entries[i].1) is Err,
    ensures
        mapping_pairs_spec(entries) is Err,
    decreases i,
{
    if i == 0 {
    } else {
        lemma_mapping_pairs_err(entries.drop_first(), i - 1);
    }
}

/// Flattens a request into string key/value pairs, or rejects it when it
/// holds a shape the wire convention cannot carry.
pub fn to_pairs(val: &RequestValue) -> (r: Result<
    Vec<(String, String)>,
    InvalidStructError,
>)
    ensures
        r is Ok <==> to_pairs_spec(*val) is Ok,
        r matches Ok(ps) ==> Ok::<_, ()>(pair_views(ps@)) == to_pairs_spec(*val),
{
    match val {
        RequestValue::Record(fields) => {
            let ghost fviews = fields@;
            let mut out: Vec<(String, String)> = Vec::new();
            let mut i: usize = 0;
            proof {
                assert(fviews.take(0) =~= Seq::<(String, FieldValue)>::empty());
                assert(pair_views(out@) =~= Seq::<PairVal>::empty());
            }
            while i < fields.len()
                invariant
                    i <= fields.len(),
                    fviews == fields@,
                    to_pairs_spec(*val) == record_pairs_spec(fviews),
                    record_pairs_spec(fviews.take(i as int)) == Ok::<_, ()>(
                        pair_views(out@),
                    ),
                decreases fields.len() - i,
            {
                let rendered = flat_value(&fields[i].1);
                match rendered {
                    Err(e) => {
                        proof {
                            lemma_record_pairs_err(fviews, i as int);
                        }
                        return Err(e);
                    },
                    Ok(s) => {
                        proof {
                            lemma_record_pairs_snoc(fviews, i as int);
                        }
                        if s.as_str().unicode_len() != 0 {
                            out.push((fields[i].0.clone(), s));
                            proof {
                                assert(pair_views(out@) =~= record_pairs_spec(
                                    fviews.take(i + 1),
                                ).unwrap());
                            }
                        } else {
                            proof {
                                assert(pair_views(out@) =~= record_pairs_spec(
                                    fviews.take(i + 1),
                                ).unwrap());
                            }
                        }
                    },
                }
                i += 1;
            }
            proof {
                assert(fviews.take(fields@.len() as int) =~= fviews);
            }
            Ok(out)
        },
        RequestValue::Mapping(entries) => {
            let ghost eviews = entries@;
            let mut out: Vec<(String, String)> = Vec::new();
            let mut i: usize = 0;
            proof {
                assert(eviews.take(0) =~= Seq::<(FieldValue, FieldValue)>::empty());
                assert(pair_views(out@) =~= Seq::<PairVal>::empty());
            }
            while i < entries.len()
                invariant
                    i <= entries.len(),
                    eviews == entries@,
                    to_pairs_spec(*val) == mapping_pairs_spec(eviews),
                    mapping_pairs_spec(eviews.take(i as int)) == Ok::<_, ()>(
                        pair_views(out@),
                    ),
                decreases entries.len() - i,
            {
                let key = flat_value(&entries[i].0);
                let key = match key {
                    Err(e) => {
                        proof {
                            lemma_mapping_pairs_err(eviews, i as int);
                        }
                        return Err(e);
                    },
                    Ok(s) => s,
                };
                let value = flat_value(&entries[i].1);
                let value = match value {
                    Err(e) => {
                        proof {
                            lemma_mapping_pairs_err(eviews, i as int);
                        }
                        return Err(e);
                    },
                    Ok(s) => s,
                };
                out.push((key, value));
                proof {
                    lemma_mapping_pairs_snoc(eviews, i as int);
                    assert(pair_views(out@) =~= mapping_pairs_spec(
                        eviews.take(i + 1),
                    ).unwrap());
                }
                i += 1;
            }
            proof {
                assert(eviews.take(entries@.len() as int) =~= eviews);
            }
            Ok(out)
        },
        RequestValue::Newtype(name, v) => {
            let rendered = flat_value(v);
            match rendered {
                Err(e) => Err(e),
                Ok(s) => {
                    let mut out: Vec<(String, String)> = Vec::new();
                    out.push((name.clone(), s));
                    proof {
                        assert(pair_views(out@) =~= to_pairs_spec(*val).unwrap());
                    }
                    Ok(out)
                },
            }
        },
        RequestValue::Bare(_) => Err(
            InvalidStructError(
                String::from_str("cannot serialize pairs from a bare value"),
            ),
        ),
    }
}

/// The flattening law for records: a record flattens exactly when every
/// field has a flattenable shape, and then no entry carries an empty
/// value — an absent optional field is omitted, never emitted empty.
pub proof fn lemma_record_flattening(fields: Seq<(String, FieldValue)>)
    ensures
        record_pairs_spec(fields) is Ok <==> (forall|i: int|
            0 <= i < fields.len() ==> is_flat_shape(#[trigger] fields[i].1)),
        record_pairs_spec(fields) matches Ok(ps) ==> forall|j: int|
            0 <= j < ps.len() ==> (#[trigger] ps[j].1).len() > 0,
    decreases fields.len(),
{
    if fields.len() == 0 {
    } else {
        let d = fields.drop_first();
        lemma_flat_spec_shape(fields[0].1);
        lemma_record_flattening(d);
        assert(forall|i: int| 0 <= i < d.len() ==> d[i] == fields[i + 1]);
        if record_pairs_spec(fields) is Ok {
            assert forall|i: int| 0 <= i < fields.len() implies is_flat_shape(
                #[trigger] fields[i].1,
            ) by {
                if i == 0 {
                    assert(flat_spec(fields[0].1) is Ok);
                } else {
                    assert(is_flat_shape(d[i - 1].1));
                    assert(d[i - 1].1 == fields[i].1);
                }
            }
        }
        if forall|i: int| 0 <= i < fields.len() ==> is_flat_shape(#[trigger] fields[i].1) {
            assert forall|i: int| 0 <= i < d.len() implies is_flat_shape(
                #[trigger] d[i].1,
            ) by {
                assert(d[i].1 == fields[i + 1].1);
                assert(is_flat_shape(fields[i + 1].1));
            }
            assert(record_pairs_spec(d) is Ok);
            assert(is_flat_shape(fields[0].1));
            assert(flat_spec(fields[0].1) is Ok);
            assert(record_pairs_spec(fields) is Ok);
        }
        if record_pairs_spec(fields) is Ok {
            let ps = record_pairs_spec(fields).unwrap();
            let val = flat_spec(fields[0].1).unwrap();
            let rest = record_pairs_spec(d).unwrap();
            assert forall|j: int| 0 <= j < ps.len() implies (#[trigger] ps[j].1).len()
                > 0 by {
                if val.len() == 0 {
                    assert(ps[j] == rest[j]);
                } else {
                    assert(ps == seq![(fields[0].0@, val)] + rest);
                    if j > 0 {
                        assert(ps[j] == rest[j - 1]);
                    }
                }
            }
        }
    }
}

} // verus!
