//! The key grammar and the record-level encoder.

use crate::error::{Error, ErrorKind, LabelError, Unexpected};
use crate::model::{
    field_error, fields_error, fields_text, top_error, top_text, wrote_any, Field, FieldView,
    TopValue,
};
use crate::sink::Writer;
use crate::value::{encode_value, serializer};
use vstd::prelude::*;
use vstd::string::StrSliceExecFns;

verus! {

/// Whether `c` may open a key: an ASCII letter, `_` or `:`.
pub open spec fn is_key_start(c: char) -> bool {
    (('A' as u32) <= (c as u32) && (c as u32) <= ('Z' as u32)) || (('a' as u32) <= (c as u32) && (
    c as u32) <= ('z' as u32)) || c == '_' || c == ':'
}

/// Whether `c` may continue a key: a key-opening character or an ASCII
/// digit.
pub open spec fn is_key_char(c: char) -> bool {
    is_key_start(c) || (('0' as u32) <= (c as u32) && (c as u32) <= ('9' as u32))
}

/// The label-name grammar: one key-opening character, then any number of
/// key characters. The empty key is invalid.
pub open spec fn valid_key(s: Seq<char>) -> bool {
    s.len() > 0 && is_key_start(s[0]) && forall|i: int| 1 <= i < s.len() ==> is_key_char(#[trigger] s[i])
}

/// Whether `c` may open a key.
fn key_start(c: char) -> (r: bool)
    ensures
        r == is_key_start(c),
{
    let u = c as u32;
    (65 <= u && u <= 90) || (97 <= u && u <= 122) || u == 95 || u == 58
}

/// Whether `c` may continue a key.
fn key_char(c: char) -> (r: bool)
    ensures
        r == is_key_char(c),
{
    let u = c as u32;
    key_start(c) || (48 <= u && u <= 57)
}

/// The error for a key that breaks the grammar, carrying the key verbatim.
pub fn invalid_key(key: &str) -> (e: Error)
    ensures
        e@ == LabelError::InvalidKey(key@),
{
    Error::invalid_input(ErrorKind::InvalidKey(key.to_owned()))
}

/// Checks a field name against the label-name grammar; fails with
/// [`LabelError::InvalidKey`] carrying the key verbatim.
pub fn check_key(key: &str) -> (r: Result<(), Error>)
    ensures
        r is Ok <==> valid_key(key@),
        r matches Err(e) ==> e@ == LabelError::InvalidKey(key@),
{
    let len = key.unicode_len();
    if len == 0 {
        return Err(invalid_key(key));
    }
    if !key_start(key.get_char(0)) {
        return Err(invalid_key(key));
    }
    let mut i: usize = 1;
    while i < len
        invariant
            1 <= i <= len == key@.len(),
            is_key_start(key@[0]),
            forall|j: int| 1 <= j < i ==> is_key_char(#[trigger] key@[j]),
        decreases len - i,
    {
        if !key_char(key.get_char(i)) {
            return Err(invalid_key(key));
        }
        i += 1;
    }
    Ok(())
}

/// The error for a top-level value whose shape the encoder does not accept.
pub fn unsupported(kind: Unexpected) -> (e: Error)
    ensures
        e@ == LabelError::UnsupportedTopLevel(kind@),
{
    Error::invalid_input(ErrorKind::UnsupportedTopLevel(kind))
}

/// Encodes a record's fields in declaration order, threading the comma
/// state. Each field's key is validated first; the first rejected field
/// aborts the pass, and no further field is looked at.
pub fn encode_record(writer: Writer, fields: &Vec<Field>) -> (r: Result<Writer, Error>)
    ensures
        match r {
            Ok(w) => {
                &&& fields_error(fields@.map_values(|f: Field| f@)) is None
                &&& w@ == writer@ + fields_text(fields@.map_values(|f: Field| f@), false)
            },
            Err(e) => fields_error(fields@.map_values(|f: Field| f@)) matches Some(le) && e@
                == le,
        },
{
    let ghost fvs = fields@.map_values(|f: Field| f@);
    let mut w = writer;
    let mut comma = false;
    let mut i: usize = 0;
    proof {
        assert(fvs.take(0) =~= Seq::<FieldView>::empty());
    }
    while i < fields.len()
        invariant
            0 <= i <= fields.len(),
            fvs == fields@.map_values(|f: Field| f@),
            fields_error(fvs.take(i as int)) is None,
            w@ == writer@ + fields_text(fvs.take(i as int), false),
            comma == wrote_any(fvs.take(i as int)),
        decreases fields.len() - i,
    {
        let field = &fields[i];
        proof {
            assert(fvs[i as int] == field@);
        }
        match check_key(field.key.as_str()) {
            Ok(()) => {},
            Err(e) => {
                proof {
                    crate::model::lemma_fields_error_at(fvs, i as int);
                }
                return Err(e);
            },
        }
        let vs = serializer(w, field.key.clone(), comma);
        match encode_value(vs, &field.value) {
            Ok((w2, wrote)) => {
                proof {
                    assert(fvs.take(i as int + 1) =~= fvs.take(i as int).push(fvs[i as int]));
                    crate::model::lemma_fields_text_snoc(fvs.take(i as int), fvs[i as int], false);
                    crate::model::lemma_fields_error_snoc(fvs.take(i as int), fvs[i as int]);
                    crate::model::lemma_wrote_any_snoc(fvs.take(i as int), fvs[i as int]);
                }
                w = w2;
                comma = comma || wrote;
                i += 1;
            },
            Err(e) => {
                proof {
                    crate::model::lemma_fields_error_at(fvs, i as int);
                }
                return Err(e);
            },
        }
    }
    proof {
        assert(fvs.take(fields.len() as int) =~= fvs);
    }
    Ok(w)
}

/// Accepts a record, an empty marker, or a transparent wrapper around
/// one of those; anything else is rejected naming its shape.
pub fn encode_top(writer: Writer, value: &TopValue) -> (r: Result<Writer, Error>)
    ensures
        match r {
            Ok(w) => top_error(value@) is None && w@ == writer@ + top_text(value@),
            Err(e) => top_error(value@) matches Some(le) && e@ == le,
        },
    decreases value,
{
    match value {
        TopValue::Record(fields) => {
            let r = encode_record(writer, fields);
            proof {
                assert(value@ == crate::model::TopView::Record(
                    fields@.map_values(|f: Field| f@),
                ));
            }
            r
        },
        TopValue::Empty => {
            proof {
                assert(writer@ + top_text(value@) =~= writer@);
            }
            Ok(writer)
        },
        TopValue::Wrapped(inner) => {
            let inner_value: &TopValue = &**inner;
            encode_top(writer, inner_value)
        },
        TopValue::Unsupported(u) => Err(unsupported(u.duplicate())),
    }
}

} // verus!
