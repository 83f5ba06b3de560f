//! Renders a record of named fields as Prometheus-style label text: a
//! comma-separated sequence of `key="value"` pairs with deterministic field
//! order, a checked key grammar, and `"`, `\` and newline escaped inside
//! values.
//!
//! The record-introspection collaborator (whatever walks a concrete record
//! type) hands the encoder a [`TopValue`]; the encoder turns it into text
//! whose exact shape the contracts here state.

use vstd::prelude::*;
use vstd::string::StrSliceExecFns;

mod error;
mod model;
mod num;
mod properties;
mod sink;
mod top;
mod value;

pub use error::{Error, ErrorKind, LabelError, ShapeView, Unexpected};
pub use model::{Field, FieldValue, FieldView, TopValue, TopView, ValueView};
pub use sink::{AsciiPattern, Writer};

verus! {

/// Encodes `value` into an owned string: the full label text on success,
/// and the first error the fields give in declaration order otherwise.
pub fn to_string(value: &TopValue) -> (r: Result<String, Error>)
    ensures
        match r {
            Ok(s) => model::top_error(value@) is None && s@ == model::top_text(value@),
            Err(e) => model::top_error(value@) matches Some(le) && e@ == le,
        },
{
    let w = Writer::new(String::new());
    match top::encode_top(w, value) {
        Ok(w) => Ok(w.into_string()),
        Err(e) => Err(e),
    }
}

/// Encodes `value` into bytes: the UTF-8 encoding of the label text.
pub fn to_vec(value: &TopValue) -> (r: Result<Vec<u8>, Error>)
    ensures
        match r {
            Ok(b) => model::top_error(value@) is None && b@ == vstd::utf8::encode_utf8(
                model::top_text(value@),
            ),
            Err(e) => model::top_error(value@) matches Some(le) && e@ == le,
        },
{
    match to_string(value) {
        Ok(s) => Ok(s.as_str().as_bytes_vec()),
        Err(e) => Err(e),
    }
}

} // verus!
