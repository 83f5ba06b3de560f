//! Escaping of text values and the encoder for one field's value.

use crate::error::{Error, ErrorKind};
use crate::model::{value_error, visible, FieldValue, FieldView};
use crate::num::{format_i128, format_u128};
use crate::sink::{AsciiPattern, Writer};
use vstd::prelude::*;
use vstd::utf8::{decode_utf8, valid_utf8};

verus! {

/// Whether escaping alters `c`.
pub open spec fn needs_escape(c: char) -> bool {
    c == '"' || c == '\\' || c == '\n'
}

/// The escape expansion of one character: `"` and `\` get a leading
/// backslash, a newline becomes the two characters `\n`, and every other
/// character stands unchanged.
pub open spec fn escaped_char(c: char) -> Seq<char> {
    if c == '"' {
        seq!['\\', '"']
    } else if c == '\\' {
        seq!['\\', '\\']
    } else if c == '\n' {
        seq!['\\', 'n']
    } else {
        seq![c]
    }
}

/// The text with every character escaped.
pub open spec fn escaped(s: Seq<char>) -> Seq<char>
    decreases s.len(),
{
    if s.len() == 0 {
        Seq::empty()
    } else {
        escaped_char(s[0]) + escaped(s.drop_first())
    }
}

/// Escaping distributes over concatenation.
pub proof fn lemma_escaped_concat(a: Seq<char>, b: Seq<char>)
    ensures
        escaped(a + b) == escaped(a) + escaped(b),
    decreases a.len(),
{
    if a.len() == 0 {
        assert(a + b =~= b);
        assert(escaped(a) + escaped(b) =~= escaped(b));
    } else {
        assert((a + b).drop_first() =~= a.drop_first() + b);
        lemma_escaped_concat(a.drop_first(), b);
        assert(escaped(a + b) =~= escaped(a) + escaped(b));
    }
}

/// Escaping one character at the end.
pub proof fn lemma_escaped_snoc(s: Seq<char>, c: char)
    ensures
        escaped(s.push(c)) == escaped(s) + escaped_char(c),
{
    reveal_with_fuel(escaped, 3);
    assert(s.push(c) =~= s + seq![c]);
    lemma_escaped_concat(s, seq![c]);
    assert(seq![c].drop_first() =~= Seq::<char>::empty());
    assert(escaped(seq![c]) =~= escaped_char(c));
}

/// Text without characters to escape passes through unchanged.
pub proof fn lemma_escaped_clean(s: Seq<char>)
    requires
        forall|i: int| 0 <= i < s.len() ==> !needs_escape(#[trigger] s[i]),
    ensures
        escaped(s) == s,
    decreases s.len(),
{
    if s.len() > 0 {
        lemma_escaped_clean(s.drop_first());
        assert(escaped_char(s[0]) =~= seq![s[0]]);
        assert(escaped(s) =~= s);
    }
}

/// The pattern of the three characters that escaping alters.
fn escape_pattern() -> (p: AsciiPattern)
    ensures
        forall|c: char| p.matches(c) <==> needs_escape(c),
{
    let bytes: Vec<u8> = vec![34u8, 92u8, 10u8];
    let p = AsciiPattern::new(bytes);
    proof {
        assert forall|c: char| p.matches(c) <==> needs_escape(c) by {
            if needs_escape(c) {
                if c == '"' {
                    assert((p.spec_chars()[0] as u32) == (c as u32));
                } else if c == '\\' {
                    assert((p.spec_chars()[1] as u32) == (c as u32));
                } else {
                    assert((p.spec_chars()[2] as u32) == (c as u32));
                }
            }
            if p.matches(c) {
                let i = choose|i: int|
                    0 <= i < p.spec_chars().len() && (p.spec_chars()[i] as u32) == (c as u32);
                assert(c as u32 == 34 || c as u32 == 92 || c as u32 == 10);
                vstd::utf8::char_u32_cast(c, c as u32);
                assert(('"' as u32) as char == '"');
                assert(('\\' as u32) as char == '\\');
                assert(('\n' as u32) as char == '\n');
            }
        }
    }
    p
}

/// The two-character escape of one of the three escaped characters.
fn escape_token(c: char) -> (r: &'static str)
    requires
        needs_escape(c),
    ensures
        r@ == escaped_char(c),
{
    if c == '"' {
        let r = "\\\"";
        proof {
            reveal_strlit("\\\"");
            assert(r@ =~= escaped_char(c));
        }
        r
    } else if c == '\\' {
        let r = "\\\\";
        proof {
            reveal_strlit("\\\\");
            assert(r@ =~= escaped_char(c));
        }
        r
    } else {
        let r = "\\n";
        proof {
            reveal_strlit("\\n");
            assert(r@ =~= escaped_char(c));
        }
        r
    }
}

/// Appends one character in escaped form.
pub fn write_char_escaped(w: &mut Writer, c: char)
    ensures
        final(w)@ == old(w)@ + escaped_char(c),
{
    let pattern = escape_pattern();
    if pattern.contains_char(c) {
        w.write_str(escape_token(c));
    } else {
        w.write_char(c);
        proof {
            assert(!needs_escape(c));
            assert(old(w)@.push(c) =~= old(w)@ + escaped_char(c));
        }
    }
}

/// Scans the text for the next character that needs escaping, appends the
/// verbatim chunk before it and then the character's escape, and goes on
/// until the remaining tail is clean.
pub fn write_escaped(w: &mut Writer, s: &str)
    ensures
        final(w)@ == old(w)@ + escaped(s@),
{
    let pattern = escape_pattern();
    let len = s.unicode_len();
    let mut start: usize = 0;
    let mut i: usize = 0;
    while i < len
        invariant
            0 <= start <= i <= len == s@.len(),
            w@ == old(w)@ + escaped(s@.take(start as int)),
            forall|j: int| start <= j < i ==> !needs_escape(#[trigger] s@[j]),
            forall|c: char| pattern.matches(c) <==> needs_escape(c),
        decreases len - i,
    {
        let c = s.get_char(i);
        if pattern.contains_char(c) {
            let chunk = s.substring_char(start, i);
            w.write_str(chunk);
            w.write_str(escape_token(c));
            proof {
                lemma_escaped_clean(chunk@);
                lemma_escaped_snoc(s@.take(i as int), c);
                assert(s@.take(i as int) =~= s@.take(start as int) + chunk@);
                lemma_escaped_concat(s@.take(start as int), chunk@);
                assert(s@.take(i as int + 1) =~= s@.take(i as int).push(c));
            }
            start = i + 1;
        }
        i += 1;
    }
    let tail = s.substring_char(start, len);
    w.write_str(tail);
    proof {
        lemma_escaped_clean(tail@);
        assert(s@ =~= s@.take(start as int) + tail@);
        lemma_escaped_concat(s@.take(start as int), tail@);
    }
}

/// Relies on `str::from_utf8`: it succeeds exactly on valid UTF-8 and
/// yields the text those bytes decode to.
#[verifier::external_body]
fn utf8_str(bytes: &[u8]) -> (r: Option<&str>)
    ensures
        r is Some <==> valid_utf8(bytes@),
        r matches Some(s) ==> s@ == decode_utf8(bytes@),
{
    core::str::from_utf8(bytes).ok()
}

/// The encoder for one field's value: it owns the sink while the field is
/// written, knows the field's key, and whether a comma is due first.
pub struct ValueSerializer {
    pub writer: Writer,
    pub key: String,
    pub should_write_comma: bool,
}

/// The encoder for one field, poised before any of the field's text.
pub fn serializer(writer: Writer, key: String, should_write_comma: bool) -> (vs: ValueSerializer)
    ensures
        vs.writer@ == writer@,
        vs.key@ == key@,
        vs.should_write_comma == should_write_comma,
{
    ValueSerializer { writer, key, should_write_comma }
}

impl ValueSerializer {
    /// Appends the comma, when one is due, and the raw key bytes.
    pub fn write_key(&mut self)
        ensures
            final(self).writer@ == old(self).writer@ + (if old(self).should_write_comma {
                seq![',']
            } else {
                Seq::<char>::empty()
            }) + old(self).key@,
            final(self).key@ == old(self).key@,
            final(self).should_write_comma == old(self).should_write_comma,
    {
        if self.should_write_comma {
            self.writer.write_str(",");
            proof {
                reveal_strlit(",");
                assert(","@ =~= seq![',']);
            }
        }
        self.writer.write_str(self.key.as_str());
        proof {
            assert(final(self).writer@ =~= old(self).writer@ + (if old(self).should_write_comma {
                seq![',']
            } else {
                Seq::<char>::empty()
            }) + old(self).key@);
        }
    }

    /// Appends raw text that needs no escaping.
    pub fn write_unchecked(&mut self, raw: &str)
        ensures
            final(self).writer@ == old(self).writer@ + raw@,
            final(self).key@ == old(self).key@,
            final(self).should_write_comma == old(self).should_write_comma,
    {
        self.writer.write_str(raw);
    }

    /// Opens the field's value: comma if due, key, `="`.
    pub fn begin_value(&mut self)
        ensures
            final(self).writer@ == old(self).writer@ + (if old(self).should_write_comma {
                seq![',']
            } else {
                Seq::<char>::empty()
            }) + old(self).key@ + seq!['=', '"'],
            final(self).key@ == old(self).key@,
            final(self).should_write_comma == old(self).should_write_comma,
    {
        self.write_key();
        self.write_unchecked("=\"");
        proof {
            reveal_strlit("=\"");
            assert("=\""@ =~= seq!['=', '"']);
            assert(final(self).writer@ =~= old(self).writer@ + (if old(self).should_write_comma {
                seq![',']
            } else {
                Seq::<char>::empty()
            }) + old(self).key@ + seq!['=', '"']);
        }
    }

    /// Closes the field's value with the trailing quote and reports that
    /// the field wrote text.
    pub fn end_value(&mut self) -> (wrote: bool)
        ensures
            final(self).writer@ == old(self).writer@ + seq!['"'],
            final(self).key@ == old(self).key@,
            final(self).should_write_comma == old(self).should_write_comma,
            wrote == true,
    {
        self.write_unchecked("\"");
        proof {
            reveal_strlit("\"");
            assert("\""@ =~= seq!['"']);
        }
        true
    }
}

/// Encodes one field's value, all-or-nothing: on success, the sink gained
/// exactly the field's text and the flag tells whether any text was
/// written; on failure, the field's value was rejected and the sink is
/// discarded with the call.
#[verifier::rlimit(50)]
pub fn encode_value(vs: ValueSerializer, value: &FieldValue) -> (r: Result<(Writer, bool), Error>)
    ensures
        match r {
            Ok(p) => {
                &&& value_error(vs.key@, value@) is None
                &&& p.1 == visible(value@)
                &&& p.0@ == vs.writer@ + crate::model::field_text(
                    FieldView { key: vs.key@, value: value@ },
                    vs.should_write_comma,
                )
            },
            Err(e) => value_error(vs.key@, value@) matches Some(le) && e@ == le,
        },
    decreases value,
{
    let mut vs = vs;
    match value {
        FieldValue::Bool(b) => {
            vs.write_key();
            if *b {
                vs.write_unchecked("=\"true\"");
                proof {
                    reveal_strlit("=\"true\"");
                    reveal_strlit("true");
                    assert("=\"true\""@ =~= seq!['=', '"'] + "true"@ + seq!['"']);
                }
            } else {
                vs.write_unchecked("=\"false\"");
                proof {
                    reveal_strlit("=\"false\"");
                    reveal_strlit("false");
                    assert("=\"false\""@ =~= seq!['=', '"'] + "false"@ + seq!['"']);
                }
            }
            let ValueSerializer { writer, .. } = vs;
            Ok((writer, true))
        },
        FieldValue::Unsigned(n) => {
            vs.begin_value();
            let digits = format_u128(*n);
            vs.write_unchecked(digits.as_str());
            vs.end_value();
            let ValueSerializer { writer, .. } = vs;
            Ok((writer, true))
        },
        FieldValue::Signed(i) => {
            vs.begin_value();
            let digits = format_i128(*i);
            vs.write_unchecked(digits.as_str());
            vs.end_value();
            let ValueSerializer { writer, .. } = vs;
            Ok((writer, true))
        },
        FieldValue::Float(t) => {
            vs.begin_value();
            write_escaped(vs.writer.reborrow(), t.as_str());
            vs.end_value();
            let ValueSerializer { writer, .. } = vs;
            Ok((writer, true))
        },
        FieldValue::Char(c) => {
            vs.begin_value();
            write_char_escaped(vs.writer.reborrow(), *c);
            vs.end_value();
            let ValueSerializer { writer, .. } = vs;
            Ok((writer, true))
        },
        FieldValue::Text(t) => {
            vs.begin_value();
            write_escaped(vs.writer.reborrow(), t.as_str());
            vs.end_value();
            let ValueSerializer { writer, .. } = vs;
            Ok((writer, true))
        },
        FieldValue::Bytes(b) => {
            match utf8_str(b.as_slice()) {
                Option::Some(s) => {
                    vs.begin_value();
                    write_escaped(vs.writer.reborrow(), s);
                    vs.end_value();
                    let ValueSerializer { writer, .. } = vs;
                    Ok((writer, true))
                },
                Option::None => {
                    let ValueSerializer { key, .. } = vs;
                    Err(Error::invalid_input(ErrorKind::InvalidUtf8(key)))
                },
            }
        },
        FieldValue::Absent => {
            let ValueSerializer { writer, .. } = vs;
            Ok((writer, false))
        },
        FieldValue::UnitVariant(n) => {
            vs.begin_value();
            write_escaped(vs.writer.reborrow(), n.as_str());
            vs.end_value();
            let ValueSerializer { writer, .. } = vs;
            Ok((writer, true))
        },
        FieldValue::Wrapped(inner) => {
            let inner_value: &FieldValue = &**inner;
            encode_value(vs, inner_value)
        },
        FieldValue::Unsupported(u) => {
            let ValueSerializer { key, .. } = vs;
            Err(Error::invalid_input(ErrorKind::UnsupportedValue(key, u.duplicate())))
        },
    }
}

} // verus!
