//! The error taxonomy of the encoder, with a spec-level mirror of each
//! exec-level type so that contracts can speak about errors as mathematical
//! values.

use crate::num::{dec_int, dec_nat};
use crate::sink::push_char;
use vstd::prelude::*;
use vstd::string::StringExecFns;

verus! {

/// A value shape the encoder does not support, named for diagnostics.
#[derive(Debug)]
pub enum Unexpected {
    Bool(bool),
    Unsigned(u128),
    Signed(i128),
    /// Carries the decimal text of the floating-point value.
    Float(String),
    Char(char),
    Str,
    Bytes,
    Mapping(Option<usize>),
    Sequence(Option<usize>),
    Struct(String),
    Tuple(usize),
    Variant(String, String),
}

/// The spec-level mirror of [`Unexpected`].
pub enum ShapeView {
    Bool(bool),
    Unsigned(u128),
    Signed(i128),
    Float(Seq<char>),
    Char(char),
    Str,
    Bytes,
    Mapping(Option<usize>),
    Sequence(Option<usize>),
    Struct(Seq<char>),
    Tuple(usize),
    Variant(Seq<char>, Seq<char>),
}

impl View for Unexpected {
    type V = ShapeView;

    open spec fn view(&self) -> ShapeView {
        match self {
            Unexpected::Bool(b) => ShapeView::Bool(*b),
            Unexpected::Unsigned(n) => ShapeView::Unsigned(*n),
            Unexpected::Signed(i) => ShapeView::Signed(*i),
            Unexpected::Float(t) => ShapeView::Float(t@),
            Unexpected::Char(c) => ShapeView::Char(*c),
            Unexpected::Str => ShapeView::Str,
            Unexpected::Bytes => ShapeView::Bytes,
            Unexpected::Mapping(l) => ShapeView::Mapping(*l),
            Unexpected::Sequence(l) => ShapeView::Sequence(*l),
            Unexpected::Struct(n) => ShapeView::Struct(n@),
            Unexpected::Tuple(l) => ShapeView::Tuple(*l),
            Unexpected::Variant(t, n) => ShapeView::Variant(t@, n@),
        }
    }
}

/// The rendered description of a shape.
pub open spec fn shape_text(s: ShapeView) -> Seq<char> {
    match s {
        ShapeView::Bool(b) => if b {
            "true"@
        } else {
            "false"@
        },
        ShapeView::Unsigned(n) => "unsigned integer "@ + dec_nat(n as nat),
        ShapeView::Signed(i) => "signed integer "@ + dec_int(i as int),
        ShapeView::Float(t) => "floating-point number "@ + t,
        ShapeView::Char(c) => "char '"@ + seq![c] + "'"@,
        ShapeView::Str => "string"@,
        ShapeView::Bytes => "bytes"@,
        ShapeView::Mapping(l) => match l {
            Option::None => "map"@,
            Option::Some(n) => "map of len "@ + dec_nat(n as nat),
        },
        ShapeView::Sequence(l) => match l {
            Option::None => "seq"@,
            Option::Some(n) => "seq of len "@ + dec_nat(n as nat),
        },
        ShapeView::Struct(n) => "struct "@ + n,
        ShapeView::Tuple(l) => "tuple of len "@ + dec_nat(l as nat),
        ShapeView::Variant(t, n) => "variant "@ + t + "::"@ + n,
    }
}

impl Unexpected {
    /// An owned copy with the same view.
    pub fn duplicate(&self) -> (r: Unexpected)
        ensures
            r@ == self@,
    {
        match self {
            Unexpected::Bool(b) => Unexpected::Bool(*b),
            Unexpected::Unsigned(n) => Unexpected::Unsigned(*n),
            Unexpected::Signed(i) => Unexpected::Signed(*i),
            Unexpected::Float(t) => Unexpected::Float(t.clone()),
            Unexpected::Char(c) => Unexpected::Char(*c),
            Unexpected::Str => Unexpected::Str,
            Unexpected::Bytes => Unexpected::Bytes,
            Unexpected::Mapping(l) => Unexpected::Mapping(*l),
            Unexpected::Sequence(l) => Unexpected::Sequence(*l),
            Unexpected::Struct(n) => Unexpected::Struct(n.clone()),
            Unexpected::Tuple(l) => Unexpected::Tuple(*l),
            Unexpected::Variant(t, n) => Unexpected::Variant(t.clone(), n.clone()),
        }
    }

    /// Renders the shape for diagnostics.
    pub fn describe(&self) -> (r: String)
        ensures
            r@ == shape_text(self@),
    {
        match self {
            Unexpected::Bool(b) => {
                if *b {
                    String::from_str("true")
                } else {
                    String::from_str("false")
                }
            },
            Unexpected::Unsigned(n) => {
                let mut out = String::from_str("unsigned integer ");
                crate::num::push_decimal_u128(&mut out, *n);
                out
            },
            Unexpected::Signed(i) => {
                let mut out = String::from_str("signed integer ");
                crate::num::push_decimal_i128(&mut out, *i);
                out
            },
            Unexpected::Float(t) => {
                let mut out = String::from_str("floating-point number ");
                out.append(t.as_str());
                out
            },
            Unexpected::Char(c) => {
                let mut out = String::from_str("char '");
                push_char(&mut out, *c);
                out.append("'");
                proof {
                    assert(out@ =~= "char '"@ + seq![*c] + "'"@);
                }
                out
            },
            Unexpected::Str => String::from_str("string"),
            Unexpected::Bytes => String::from_str("bytes"),
            Unexpected::Mapping(l) => {
                match l {
                    Option::None => String::from_str("map"),
                    Option::Some(n) => {
                        let mut out = String::from_str("map of len ");
                        crate::num::push_decimal_u128(&mut out, *n as u128);
                        out
                    },
                }
            },
            Unexpected::Sequence(l) => {
                match l {
                    Option::None => String::from_str("seq"),
                    Option::Some(n) => {
                        let mut out = String::from_str("seq of len ");
                        crate::num::push_decimal_u128(&mut out, *n as u128);
                        out
                    },
                }
            },
            Unexpected::Struct(n) => {
                let mut out = String::from_str("struct ");
                out.append(n.as_str());
                out
            },
            Unexpected::Tuple(l) => {
                let mut out = String::from_str("tuple of len ");
                crate::num::push_decimal_u128(&mut out, *l as u128);
                out
            },
            Unexpected::Variant(t, n) => {
                let mut out = String::from_str("variant ");
                out.append(t.as_str());
                out.append("::");
                out.append(n.as_str());
                out
            },
        }
    }
}

/// What went wrong during one encode call.
#[derive(Debug)]
pub enum ErrorKind {
    /// A field name breaks the label-name grammar; carries the key verbatim.
    InvalidKey(String),
    /// The value handed to the entry point is not a record nor a permitted
    /// transparent wrapper.
    UnsupportedTopLevel(Unexpected),
    /// A field's value has a shape the value encoder does not support.
    UnsupportedValue(String, Unexpected),
    /// A byte-sequence field does not hold valid UTF-8 text.
    InvalidUtf8(String),
}

/// The spec-level mirror of [`ErrorKind`].
pub enum LabelError {
    InvalidKey(Seq<char>),
    UnsupportedTopLevel(ShapeView),
    UnsupportedValue(Seq<char>, ShapeView),
    InvalidUtf8(Seq<char>),
}

impl View for ErrorKind {
    type V = LabelError;

    open spec fn view(&self) -> LabelError {
        match self {
            ErrorKind::InvalidKey(k) => LabelError::InvalidKey(k@),
            ErrorKind::UnsupportedTopLevel(s) => LabelError::UnsupportedTopLevel(s@),
            ErrorKind::UnsupportedValue(k, s) => LabelError::UnsupportedValue(k@, s@),
            ErrorKind::InvalidUtf8(k) => LabelError::InvalidUtf8(k@),
        }
    }
}

/// The rendered message of an error.
pub open spec fn error_message(e: LabelError) -> Seq<char> {
    match e {
        LabelError::InvalidKey(k) => "invalid key (\""@ + k + "\")"@,
        LabelError::UnsupportedTopLevel(s) => "unsupported "@ + shape_text(s) + " at top-level"@,
        LabelError::UnsupportedValue(k, s) => "unsupported value at key "@ + k + " ("@
            + shape_text(s) + ")"@,
        LabelError::InvalidUtf8(k) => "invalid UTF-8 at key "@ + k,
    }
}

/// A serialization error.
#[derive(Debug)]
pub struct Error {
    kind: ErrorKind,
}

impl View for Error {
    type V = LabelError;

    closed spec fn view(&self) -> LabelError {
        self.kind@
    }
}

impl Error {
    /// Wraps an error kind as-is.
    pub fn new(kind: ErrorKind) -> (e: Error)
        ensures
            e@ == kind@,
    {
        Error { kind }
    }

    /// Classifies a rejected input; the kind already names what was wrong
    /// with it.
    pub fn invalid_input(kind: ErrorKind) -> (e: Error)
        ensures
            e@ == kind@,
    {
        Error::new(kind)
    }

    /// What went wrong.
    pub fn kind(&self) -> (k: &ErrorKind)
        ensures
            k@ == self@,
    {
        &self.kind
    }

    /// Renders the error message.
    pub fn to_string(&self) -> (r: String)
        ensures
            r@ == error_message(self@),
    {
        match &self.kind {
            ErrorKind::InvalidKey(k) => {
                let mut out = String::from_str("invalid key (\"");
                out.append(k.as_str());
                out.append("\")");
                out
            },
            ErrorKind::UnsupportedTopLevel(s) => {
                let mut out = String::from_str("unsupported ");
                out.append(s.describe().as_str());
                out.append(" at top-level");
                out
            },
            ErrorKind::UnsupportedValue(k, s) => {
                let mut out = String::from_str("unsupported value at key ");
                out.append(k.as_str());
                out.append(" (");
                out.append(s.describe().as_str());
                out.append(")");
                out
            },
            ErrorKind::InvalidUtf8(k) => {
                let mut out = String::from_str("invalid UTF-8 at key ");
                out.append(k.as_str());
                out
            },
        }
    }
}

} // verus!
