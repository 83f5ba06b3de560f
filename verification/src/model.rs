//! The tagged value model: what one record hands to the encoder, and the
//! mathematical description of the text the encoder produces for it.

use crate::error::{LabelError, ShapeView, Unexpected};
use crate::num::{dec_int, dec_nat};
use crate::top::valid_key;
use crate::value::{escaped, escaped_char};
use vstd::prelude::*;
use vstd::utf8::{decode_utf8, valid_utf8};

verus! {

/// One field's value, as the record-introspection collaborator hands it to
/// the encoder: one case per supported kind, plus the unsupported shapes.
pub enum FieldValue {
    /// Encoded as the literal `true` or `false`.
    Bool(bool),
    /// Any unsigned integer, widened; encoded as canonical decimal digits.
    Unsigned(u128),
    /// Any signed integer, widened; encoded as canonical decimal digits
    /// with the sign.
    Signed(i128),
    /// A floating-point value, already rendered as its shortest
    /// round-trip decimal text by the introspection collaborator.
    Float(String),
    /// A single character; the escape rule applies to it.
    Char(char),
    /// Text; escaped.
    Text(String),
    /// A byte sequence; must be valid UTF-8 text, then escaped.
    Bytes(Vec<u8>),
    /// No value present (an absent optional, a unit): no output at all.
    Absent,
    /// An enumeration case carrying no data, encoded as its name, as text.
    UnitVariant(String),
    /// A transparent single-field wrapper: encoded as the wrapped value.
    Wrapped(Box<FieldValue>),
    /// Anything else; encoding fails naming the shape.
    Unsupported(Unexpected),
}

/// The spec-level mirror of [`FieldValue`]. Transparent wrappers have no
/// syntactic effect of their own, so the view erases them.
pub enum ValueView {
    Bool(bool),
    Unsigned(u128),
    Signed(i128),
    Float(Seq<char>),
    Char(char),
    Text(Seq<char>),
    Bytes(Seq<u8>),
    Absent,
    UnitVariant(Seq<char>),
    Unsupported(ShapeView),
}

/// The view of a field value; wrappers are erased, since their encoding is
/// the encoding of the wrapped value.
pub open spec fn value_view(v: FieldValue) -> ValueView
    decreases v,
{
    match v {
        FieldValue::Bool(b) => ValueView::Bool(b),
        FieldValue::Unsigned(n) => ValueView::Unsigned(n),
        FieldValue::Signed(i) => ValueView::Signed(i),
        FieldValue::Float(t) => ValueView::Float(t@),
        FieldValue::Char(c) => ValueView::Char(c),
        FieldValue::Text(t) => ValueView::Text(t@),
        FieldValue::Bytes(b) => ValueView::Bytes(b@),
        FieldValue::Absent => ValueView::Absent,
        FieldValue::UnitVariant(n) => ValueView::UnitVariant(n@),
        FieldValue::Wrapped(b) => value_view(*b),
        FieldValue::Unsupported(u) => ValueView::Unsupported(u@),
    }
}

impl View for FieldValue {
    type V = ValueView;

    open spec fn view(&self) -> ValueView {
        value_view(*self)
    }
}

/// One named field of a record.
pub struct Field {
    pub key: String,
    pub value: FieldValue,
}

/// The spec-level mirror of [`Field`].
pub struct FieldView {
    pub key: Seq<char>,
    pub value: ValueView,
}

impl View for Field {
    type V = FieldView;

    open spec fn view(&self) -> FieldView {
        FieldView { key: self.key@, value: self.value@ }
    }
}

/// What the entry point receives: a record, an empty marker (an absent
/// optional, a unit), a transparent wrapper, or an unsupported shape.
pub enum TopValue {
    /// A record: its fields, in declaration order.
    Record(Vec<Field>),
    /// An absent optional or a unit marker: encodes to the empty string.
    Empty,
    /// A transparent wrapper: encoded as its content.
    Wrapped(Box<TopValue>),
    /// Anything else; encoding fails naming the shape.
    Unsupported(Unexpected),
}

/// The spec-level mirror of [`TopValue`], with wrappers erased.
pub enum TopView {
    Record(Seq<FieldView>),
    Empty,
    Unsupported(ShapeView),
}

/// The view of a top-level value; wrappers are erased.
pub open spec fn top_view(t: TopValue) -> TopView
    decreases t,
{
    match t {
        TopValue::Record(fields) => TopView::Record(
            fields@.map_values(|f: Field| f@),
        ),
        TopValue::Empty => TopView::Empty,
        TopValue::Wrapped(b) => top_view(*b),
        TopValue::Unsupported(u) => TopView::Unsupported(u@),
    }
}

impl View for TopValue {
    type V = TopView;

    open spec fn view(&self) -> TopView {
        top_view(*self)
    }
}

/// Whether a field's value emits any text at all.
pub open spec fn visible(v: ValueView) -> bool {
    !(v is Absent)
}

/// The text between the quotes for one visible value.
pub open spec fn payload(v: ValueView) -> Seq<char> {
    match v {
        ValueView::Bool(b) => if b {
            "true"@
        } else {
            "false"@
        },
        ValueView::Unsigned(n) => dec_nat(n as nat),
        ValueView::Signed(i) => dec_int(i as int),
        ValueView::Float(t) => escaped(t),
        ValueView::Char(c) => escaped_char(c),
        ValueView::Text(t) => escaped(t),
        ValueView::Bytes(b) => escaped(decode_utf8(b)),
        ValueView::UnitVariant(n) => escaped(n),
        ValueView::Absent => Seq::empty(),
        ValueView::Unsupported(_) => Seq::empty(),
    }
}

/// Why one field's value is rejected, if it is.
pub open spec fn value_error(key: Seq<char>, v: ValueView) -> Option<LabelError> {
    match v {
        ValueView::Bytes(b) => if valid_utf8(b) {
            Option::None
        } else {
            Option::Some(LabelError::InvalidUtf8(key))
        },
        ValueView::Unsupported(s) => Option::Some(LabelError::UnsupportedValue(key, s)),
        _ => Option::None,
    }
}

/// Why one field is rejected, if it is: its key is checked first.
pub open spec fn field_error(f: FieldView) -> Option<LabelError> {
    if !valid_key(f.key) {
        Option::Some(LabelError::InvalidKey(f.key))
    } else {
        value_error(f.key, f.value)
    }
}

/// The first error among the fields, in declaration order; fail-fast.
pub open spec fn fields_error(fs: Seq<FieldView>) -> Option<LabelError>
    decreases fs.len(),
{
    if fs.len() == 0 {
        Option::None
    } else if field_error(fs[0]) is Some {
        field_error(fs[0])
    } else {
        fields_error(fs.drop_first())
    }
}

/// The text one field emits: nothing for an invisible value; otherwise a
/// comma when one is due, the raw key, `="`, the payload, and `"`.
pub open spec fn field_text(f: FieldView, comma: bool) -> Seq<char> {
    if visible(f.value) {
        (if comma {
            seq![',']
        } else {
            Seq::empty()
        }) + f.key + seq!['=', '"'] + payload(f.value) + seq!['"']
    } else {
        Seq::empty()
    }
}

/// The text a record's fields emit, threading the comma state: it flips
/// the first time a field emits text and never resets.
pub open spec fn fields_text(fs: Seq<FieldView>, comma: bool) -> Seq<char>
    decreases fs.len(),
{
    if fs.len() == 0 {
        Seq::empty()
    } else {
        field_text(fs[0], comma) + fields_text(fs.drop_first(), comma || visible(fs[0].value))
    }
}

/// Whether any field of the sequence emits text.
pub open spec fn wrote_any(fs: Seq<FieldView>) -> bool {
    exists|i: int| 0 <= i < fs.len() && visible(#[trigger] fs[i].value)
}

/// The full output text of a top-level value, when it is accepted.
pub open spec fn top_text(t: TopView) -> Seq<char> {
    match t {
        TopView::Record(fs) => fields_text(fs, false),
        TopView::Empty => Seq::empty(),
        TopView::Unsupported(_) => Seq::empty(),
    }
}

/// Why a top-level value is rejected, if it is.
pub open spec fn top_error(t: TopView) -> Option<LabelError> {
    match t {
        TopView::Record(fs) => fields_error(fs),
        TopView::Empty => Option::None,
        TopView::Unsupported(s) => Option::Some(LabelError::UnsupportedTopLevel(s)),
    }
}

/// Extending a field sequence extends its text: the appended field sees
/// the comma state the earlier fields left behind.
pub proof fn lemma_fields_text_snoc(fs: Seq<FieldView>, f: FieldView, comma: bool)
    ensures
        fields_text(fs.push(f), comma) == fields_text(fs, comma) + field_text(
            f,
            comma || wrote_any(fs),
        ),
    decreases fs.len(),
{
    reveal_with_fuel(fields_text, 3);
    if fs.len() == 0 {
        assert(fs.push(f)[0] == f);
        assert(fs.push(f).drop_first() =~= Seq::<FieldView>::empty());
        assert(!wrote_any(fs));
        assert(fields_text(fs.push(f), comma) =~= fields_text(fs, comma) + field_text(
            f,
            comma || wrote_any(fs),
        ));
    } else {
        assert(fs.push(f)[0] == fs[0]);
        assert(fs.push(f).drop_first() =~= fs.drop_first().push(f));
        lemma_fields_text_snoc(fs.drop_first(), f, comma || visible(fs[0].value));
        assert(wrote_any(fs) <==> (visible(fs[0].value) || wrote_any(fs.drop_first()))) by {
            if wrote_any(fs) {
                let i = choose|i: int| 0 <= i < fs.len() && visible(fs[i].value);
                if i > 0 {
                    assert(fs.drop_first()[i - 1] == fs[i]);
                }
            }
            if wrote_any(fs.drop_first()) {
                let i = choose|i: int|
                    0 <= i < fs.drop_first().len() && visible(fs.drop_first()[i].value);
                assert(fs[i + 1] == fs.drop_first()[i]);
            }
        }
        let c1 = comma || visible(fs[0].value);
        assert(fields_text(fs.push(f), comma) == field_text(fs[0], comma) + fields_text(
            fs.drop_first().push(f),
            c1,
        ));
        assert(fields_text(fs.push(f), comma) =~= fields_text(fs, comma) + field_text(
            f,
            comma || wrote_any(fs),
        ));
    }
}

/// Appending a field writes something exactly when the sequence did or
/// the field does.
pub proof fn lemma_wrote_any_snoc(fs: Seq<FieldView>, f: FieldView)
    ensures
        wrote_any(fs.push(f)) <==> (wrote_any(fs) || visible(f.value)),
{
    if wrote_any(fs) {
        let i = choose|i: int| 0 <= i < fs.len() && visible(fs[i].value);
        assert(fs.push(f)[i] == fs[i]);
    }
    if visible(f.value) {
        assert(fs.push(f)[fs.len() as int] == f);
    }
    if wrote_any(fs.push(f)) {
        let i = choose|i: int| 0 <= i < fs.push(f).len() && visible(fs.push(f)[i].value);
        if i < fs.len() {
            assert(fs[i] == fs.push(f)[i]);
        } else {
            assert(fs.push(f)[i] == f);
        }
    }
}

/// In a sequence whose first `k` fields are accepted, the overall error
/// is the error of field `k`.
pub proof fn lemma_fields_error_at(fs: Seq<FieldView>, k: int)
    requires
        0 <= k < fs.len(),
        fields_error(fs.take(k)) is None,
        field_error(fs[k]) is Some,
    ensures
        fields_error(fs) == field_error(fs[k]),
    decreases k,
{
    reveal_with_fuel(fields_error, 2);
    if k == 0 {
    } else {
        assert(fs.take(k)[0] == fs[0]);
        assert(field_error(fs[0]) is None);
        assert(fs.take(k).drop_first() =~= fs.drop_first().take(k - 1));
        assert(fs.drop_first()[k - 1] == fs[k]);
        lemma_fields_error_at(fs.drop_first(), k - 1);
    }
}

/// Extending a field sequence keeps an earlier error and otherwise asks
/// the appended field.
pub proof fn lemma_fields_error_snoc(fs: Seq<FieldView>, f: FieldView)
    ensures
        fields_error(fs.push(f)) == if fields_error(fs) is Some {
            fields_error(fs)
        } else {
            field_error(f)
        },
    decreases fs.len(),
{
    reveal_with_fuel(fields_error, 3);
    if fs.len() == 0 {
        assert(fs.push(f)[0] == f);
        assert(fs.push(f).drop_first() =~= Seq::<FieldView>::empty());
    } else {
        assert(fs.push(f)[0] == fs[0]);
        assert(fs.push(f).drop_first() =~= fs.drop_first().push(f));
        lemma_fields_error_snoc(fs.drop_first(), f);
    }
}

} // verus!
