//! The laws of the encoder, stated over the same spec functions its
//! contracts use and proved once and for all.

use crate::model::{
    field_error, field_text, fields_error, fields_text, payload, value_error, visible, wrote_any,
    FieldView, ValueView,
};
use crate::num::{dec_int, dec_nat, digit_char};
use crate::top::{is_key_start, valid_key};
use crate::value::{escaped, escaped_char, lemma_escaped_clean, lemma_escaped_concat, needs_escape};
use vstd::prelude::*;

verus! {

/// A record with no fields, or whose fields all produce no output,
/// encodes to the empty string, whatever comma state is pending.
pub proof fn lemma_empty_output(fs: Seq<FieldView>, comma: bool)
    requires
        forall|i: int| 0 <= i < fs.len() ==> !visible(#[trigger] fs[i].value),
    ensures
        fields_text(fs, comma) == Seq::<char>::empty(),
    decreases fs.len(),
{
    if fs.len() > 0 {
        assert(!visible(fs[0].value));
        lemma_empty_output(fs.drop_first(), comma);
        assert(fields_text(fs, comma) =~= Seq::<char>::empty());
    }
}

/// A record whose keys all match the grammar and whose values are all
/// supported is owed success: no field gives an error.
pub proof fn lemma_success_owed(fs: Seq<FieldView>)
    requires
        forall|i: int| 0 <= i < fs.len() ==> valid_key(#[trigger] fs[i].key),
        forall|i: int| 0 <= i < fs.len() ==> value_error(fs[i].key, #[trigger] fs[i].value) is None,
    ensures
        fields_error(fs) is None,
    decreases fs.len(),
{
    if fs.len() > 0 {
        assert(field_error(fs[0]) is None);
        lemma_success_owed(fs.drop_first());
    }
}

/// Where the escaped text of each character lands: character `i` of the
/// source appears in the escaped text at the offset given by everything
/// escaped before it, as exactly its own escape expansion — and a
/// character that needs no escape is not altered at all.
pub proof fn lemma_escape_positions(s: Seq<char>, i: int)
    requires
        0 <= i < s.len(),
    ensures
        escaped(s).subrange(
            escaped(s.take(i)).len() as int,
            escaped(s.take(i)).len() + escaped_char(s[i]).len() as int,
        ) == escaped_char(s[i]),
        !needs_escape(s[i]) ==> escaped_char(s[i]) == seq![s[i]],
{
    assert(s =~= s.take(i) + seq![s[i]] + s.skip(i + 1));
    lemma_escaped_concat(s.take(i) + seq![s[i]], s.skip(i + 1));
    lemma_escaped_concat(s.take(i), seq![s[i]]);
    assert(seq![s[i]].drop_first() =~= Seq::<char>::empty());
    reveal_with_fuel(escaped, 2);
    assert(escaped(seq![s[i]]) =~= escaped_char(s[i]));
    assert(escaped(s).subrange(
        escaped(s.take(i)).len() as int,
        escaped(s.take(i)).len() + escaped_char(s[i]).len() as int,
    ) =~= escaped_char(s[i]));
}

/// How many times `c` occurs in `s`.
pub open spec fn count_char(s: Seq<char>, c: char) -> nat
    decreases s.len(),
{
    if s.len() == 0 {
        0
    } else {
        (if s[0] == c {
            1nat
        } else {
            0nat
        }) + count_char(s.drop_first(), c)
    }
}

/// Counting distributes over concatenation.
pub proof fn lemma_count_concat(a: Seq<char>, b: Seq<char>, c: char)
    ensures
        count_char(a + b, c) == count_char(a, c) + count_char(b, c),
    decreases a.len(),
{
    reveal_with_fuel(count_char, 2);
    if a.len() == 0 {
        assert(a + b =~= b);
    } else {
        assert((a + b)[0] == a[0]);
        assert((a + b).drop_first() =~= a.drop_first() + b);
        lemma_count_concat(a.drop_first(), b, c);
    }
}

/// A character that occurs nowhere counts zero.
pub proof fn lemma_count_absent(s: Seq<char>, c: char)
    requires
        forall|i: int| 0 <= i < s.len() ==> s[i] != c,
    ensures
        count_char(s, c) == 0,
    decreases s.len(),
{
    if s.len() > 0 {
        assert(forall|i: int|
            0 <= i < s.drop_first().len() ==> s.drop_first()[i] == s[i + 1] && s[i + 1] != c);
        lemma_count_absent(s.drop_first(), c);
    }
}

/// A character that counts zero occurs nowhere.
pub proof fn lemma_count_zero_absent(s: Seq<char>, c: char)
    requires
        count_char(s, c) == 0,
    ensures
        forall|i: int| 0 <= i < s.len() ==> s[i] != c,
    decreases s.len(),
{
    if s.len() > 0 {
        assert(s[0] != c);
        lemma_count_zero_absent(s.drop_first(), c);
        assert forall|i: int| 0 <= i < s.len() implies s[i] != c by {
            if i > 0 {
                assert(s.drop_first()[i - 1] == s[i]);
            }
        }
    }
}

/// A valid key contains no comma: every key character is a letter, a
/// digit, `_` or `:`.
pub proof fn lemma_key_no_comma(k: Seq<char>)
    requires
        valid_key(k),
    ensures
        count_char(k, ',') == 0,
{
    assert forall|i: int| 0 <= i < k.len() implies k[i] != ',' by {
        if i == 0 {
            assert(is_key_start(k[0]));
        } else {
            assert(crate::top::is_key_char(k[i]));
        }
    }
    lemma_count_absent(k, ',');
}

/// How many fields of the sequence emit text.
pub open spec fn visible_count(fs: Seq<FieldView>) -> nat
    decreases fs.len(),
{
    if fs.len() == 0 {
        0
    } else {
        (if visible(fs[0].value) {
            1nat
        } else {
            0nat
        }) + visible_count(fs.drop_first())
    }
}

/// A field sequence emits text exactly when it has a visible field.
pub proof fn lemma_visible_count_wrote_any(fs: Seq<FieldView>)
    ensures
        visible_count(fs) > 0 <==> wrote_any(fs),
    decreases fs.len(),
{
    if fs.len() > 0 {
        lemma_visible_count_wrote_any(fs.drop_first());
        if visible(fs[0].value) {
            assert(wrote_any(fs));
        } else {
            assert(wrote_any(fs) <==> wrote_any(fs.drop_first())) by {
                if wrote_any(fs) {
                    let i = choose|i: int| 0 <= i < fs.len() && visible(fs[i].value);
                    assert(fs.drop_first()[i - 1] == fs[i]);
                }
                if wrote_any(fs.drop_first()) {
                    let i = choose|i: int|
                        0 <= i < fs.drop_first().len() && visible(fs.drop_first()[i].value);
                    assert(fs[i + 1] == fs.drop_first()[i]);
                }
            }
        }
    }
}

/// The exact anatomy of one visible field's text, when its key is valid
/// and its payload holds no comma of its own.
proof fn lemma_field_text_facts(f: FieldView, comma: bool)
    requires
        visible(f.value),
        valid_key(f.key),
        count_char(payload(f.value), ',') == 0,
    ensures
        field_text(f, comma).len() > 0,
        count_char(field_text(f, comma), ',') == if comma {
            1nat
        } else {
            0nat
        },
        field_text(f, comma)[field_text(f, comma).len() - 1] == '"',
        field_text(f, comma)[0] == if comma {
            ','
        } else {
            f.key[0]
        },
        comma ==> field_text(f, comma)[1] == f.key[0],
        comma ==> field_text(f, comma).len() >= 2,
{
    let cpart: Seq<char> = if comma {
        seq![',']
    } else {
        Seq::empty()
    };
    let a = field_text(f, comma);
    assert(a =~= cpart + f.key + seq!['=', '"'] + payload(f.value) + seq!['"']);
    lemma_key_no_comma(f.key);
    lemma_count_concat(cpart + f.key + seq!['=', '"'] + payload(f.value), seq!['"'], ',');
    lemma_count_concat(cpart + f.key + seq!['=', '"'], payload(f.value), ',');
    lemma_count_concat(cpart + f.key, seq!['=', '"'], ',');
    lemma_count_concat(cpart, f.key, ',');
    reveal_with_fuel(count_char, 3);
    assert(count_char(seq!['"'], ',') == 0) by {
        assert(seq!['"'].drop_first() =~= Seq::<char>::empty());
    }
    assert(count_char(seq!['=', '"'], ',') == 0) by {
        assert(seq!['=', '"'].drop_first() =~= seq!['"']);
        assert(seq!['"'].drop_first() =~= Seq::<char>::empty());
    }
    assert(count_char(cpart, ',') == if comma {
        1nat
    } else {
        0nat
    }) by {
        if comma {
            assert(seq![','].drop_first() =~= Seq::<char>::empty());
        }
    }
    assert(a[a.len() - 1] == '"');
}

/// The backbone of the comma law, generalized over the pending comma
/// state: how many commas the text holds, that it ends in a quote, and
/// that every comma is followed by a key-opening character.
proof fn lemma_comma_structure_rec(fs: Seq<FieldView>, comma: bool)
    requires
        forall|i: int| 0 <= i < fs.len() ==> valid_key(#[trigger] fs[i].key),
        forall|i: int| 0 <= i < fs.len() ==> count_char(payload(#[trigger] fs[i].value), ',') == 0,
    ensures
        count_char(fields_text(fs, comma), ',') == if visible_count(fs) == 0 {
            0nat
        } else if comma {
            visible_count(fs)
        } else {
            (visible_count(fs) - 1) as nat
        },
        visible_count(fs) > 0 ==> fields_text(fs, comma).len() > 0,
        fields_text(fs, comma).len() > 0 ==> fields_text(fs, comma)[fields_text(
            fs,
            comma,
        ).len() - 1] == '"',
        !comma && fields_text(fs, comma).len() > 0 ==> fields_text(fs, comma)[0] != ',',
        forall|p: int|
            0 <= p < fields_text(fs, comma).len() && #[trigger] fields_text(fs, comma)[p] == ','
                ==> p + 1 < fields_text(fs, comma).len() && is_key_start(
                fields_text(fs, comma)[p + 1],
            ),
    decreases fs.len(),
{
    if fs.len() == 0 {
    } else {
        let f = fs[0];
        let a = field_text(f, comma);
        let rest = fields_text(fs.drop_first(), comma || visible(f.value));
        assert(fields_text(fs, comma) == a + rest);
        lemma_comma_structure_rec(fs.drop_first(), comma || visible(f.value));
        lemma_count_concat(a, rest, ',');
        if !visible(f.value) {
            assert(a =~= Seq::<char>::empty());
            assert(a + rest =~= rest);
        } else {
            lemma_field_text_facts(f, comma);
            let head = a.subrange(0int, if comma { 1int } else { 0int });
            let tail = a.subrange(if comma { 1int } else { 0int }, a.len() as int);
            assert(a =~= head + tail);
            lemma_count_concat(head, tail, ',');
            if comma {
                assert(head =~= seq![',']);
                reveal_with_fuel(count_char, 2);
                assert(seq![','].drop_first() =~= Seq::<char>::empty());
                assert(count_char(head, ',') == 1);
            } else {
                assert(head =~= Seq::<char>::empty());
            }
            lemma_count_zero_absent(tail, ',');
            assert forall|p: int|
                0 <= p < (a + rest).len() && #[trigger] (a + rest)[p] == ',' implies p + 1 < (a
                + rest).len() && is_key_start((a + rest)[p + 1]) by {
                if p < a.len() {
                    if comma {
                        if p > 0 {
                            assert(a.subrange(1int, a.len() as int)[p - 1] == a[p]);
                            assert(a[p] != ',');
                            assert(false);
                        } else {
                            assert((a + rest)[1] == a[1]);
                            assert(is_key_start(f.key[0]));
                        }
                    } else {
                        assert(a.subrange(0int, a.len() as int)[p] == a[p]);
                        assert(a[p] != ',');
                        assert(false);
                    }
                } else {
                    assert((a + rest)[p] == rest[p - a.len()]);
                    assert(p - a.len() + 1 < rest.len());
                    assert((a + rest)[p + 1] == rest[p - a.len() + 1]);
                }
            }
            if rest.len() > 0 {
                assert((a + rest)[(a + rest).len() - 1] == rest[rest.len() - 1]);
            } else {
                assert((a + rest)[(a + rest).len() - 1] == a[a.len() - 1]);
            }
            if !comma {
                assert((a + rest)[0] == a[0]);
                assert(a[0] == f.key[0]);
                assert(is_key_start(f.key[0]) ==> f.key[0] != ',');
            }
        }
    }
}

/// For a record with at least one visible field — every key valid, no
/// payload holding a comma of its own — the output holds exactly one
/// comma fewer than the record has visible fields; a comma never opens
/// or closes the output, and the character after each comma opens a key.
pub proof fn lemma_comma_structure(fs: Seq<FieldView>)
    requires
        wrote_any(fs),
        forall|i: int| 0 <= i < fs.len() ==> valid_key(#[trigger] fs[i].key),
        forall|i: int| 0 <= i < fs.len() ==> count_char(payload(#[trigger] fs[i].value), ',') == 0,
    ensures
        fields_text(fs, false).len() > 0,
        count_char(fields_text(fs, false), ',') == (visible_count(fs) - 1) as nat,
        fields_text(fs, false)[0] != ',',
        fields_text(fs, false)[fields_text(fs, false).len() - 1] == '"',
        forall|p: int|
            0 <= p < fields_text(fs, false).len() && #[trigger] fields_text(fs, false)[p] == ','
                ==> p + 1 < fields_text(fs, false).len() && is_key_start(
                fields_text(fs, false)[p + 1],
            ),
{
    lemma_visible_count_wrote_any(fs);
    lemma_comma_structure_rec(fs, false);
}

/// The inverse of the three-character escape map.
pub open spec fn unescape_char(c: char) -> char {
    if c == 'n' {
        '\n'
    } else {
        c
    }
}

/// Undoes escaping: a backslash and the character after it map back
/// through the inverse escape map; every other character stands.
pub open spec fn unescaped(s: Seq<char>) -> Seq<char>
    decreases s.len(),
{
    if s.len() == 0 {
        Seq::empty()
    } else if s[0] == '\\' && s.len() >= 2 {
        seq![unescape_char(s[1])] + unescaped(s.skip(2))
    } else {
        seq![s[0]] + unescaped(s.drop_first())
    }
}

/// The text a value's payload is the escaped form of.
pub open spec fn source_text(v: ValueView) -> Seq<char> {
    match v {
        ValueView::Bool(b) => if b {
            "true"@
        } else {
            "false"@
        },
        ValueView::Unsigned(n) => dec_nat(n as nat),
        ValueView::Signed(i) => dec_int(i as int),
        ValueView::Float(t) => t,
        ValueView::Char(c) => seq![c],
        ValueView::Text(t) => t,
        ValueView::Bytes(b) => vstd::utf8::decode_utf8(b),
        ValueView::UnitVariant(n) => n,
        ValueView::Absent => Seq::empty(),
        ValueView::Unsupported(_) => Seq::empty(),
    }
}

/// Decimal digits are never escaped.
proof fn lemma_dec_nat_clean(n: nat)
    ensures
        forall|i: int| 0 <= i < dec_nat(n).len() ==> !needs_escape(#[trigger] dec_nat(n)[i]),
    decreases n,
{
    if n < 10 {
        assert(!needs_escape(digit_char(n)));
    } else {
        lemma_dec_nat_clean(n / 10);
        assert(!needs_escape(digit_char(n % 10)));
        assert(forall|i: int|
            0 <= i < dec_nat(n / 10).len() ==> dec_nat(n)[i] == dec_nat(n / 10)[i]);
    }
}

/// Every visible payload is the escaped form of its source text.
pub proof fn lemma_payload_is_escaped(v: ValueView)
    requires
        visible(v),
    ensures
        payload(v) == escaped(source_text(v)),
{
    reveal_with_fuel(escaped, 2);
    match v {
        ValueView::Bool(b) => {
            if b {
                reveal_strlit("true");
                lemma_escaped_clean("true"@);
            } else {
                reveal_strlit("false");
                lemma_escaped_clean("false"@);
            }
        },
        ValueView::Unsigned(n) => {
            lemma_dec_nat_clean(n as nat);
            lemma_escaped_clean(dec_nat(n as nat));
        },
        ValueView::Signed(i) => {
            lemma_dec_nat_clean((if i < 0 {
                -(i as int)
            } else {
                i as int
            }) as nat);
            if i < 0 {
                assert(forall|j: int|
                    0 <= j < dec_int(i as int).len() ==> !needs_escape(
                        #[trigger] dec_int(i as int)[j],
                    ));
            }
            lemma_escaped_clean(dec_int(i as int));
        },
        ValueView::Char(c) => {
            assert(seq![c].drop_first() =~= Seq::<char>::empty());
            assert(escaped(seq![c]) =~= escaped_char(c));
        },
        ValueView::Float(_) => {},
        ValueView::Text(_) => {},
        ValueView::Bytes(_) => {},
        ValueView::UnitVariant(_) => {},
        ValueView::Absent => {},
        ValueView::Unsupported(_) => {},
    }
}

/// Splits off a key: the text up to the first `=`, and what follows it.
pub open spec fn scan_key(s: Seq<char>) -> Option<(Seq<char>, Seq<char>)>
    decreases s.len(),
{
    if s.len() == 0 {
        Option::None
    } else if s[0] == '=' {
        Option::Some((Seq::empty(), s.drop_first()))
    } else {
        match scan_key(s.drop_first()) {
            Option::None => Option::None,
            Option::Some(p) => Option::Some((seq![s[0]] + p.0, p.1)),
        }
    }
}

/// Splits off a quoted value: reads up to the first quote that is not part
/// of an escape, undoing escapes on the way, and returns the unescaped
/// value and what follows the closing quote.
pub open spec fn scan_value(s: Seq<char>) -> Option<(Seq<char>, Seq<char>)>
    decreases s.len(),
{
    if s.len() == 0 {
        Option::None
    } else if s[0] == '"' {
        Option::Some((Seq::empty(), s.drop_first()))
    } else if s[0] == '\\' {
        if s.len() < 2 {
            Option::None
        } else {
            match scan_value(s.skip(2)) {
                Option::None => Option::None,
                Option::Some(p) => Option::Some((seq![unescape_char(s[1])] + p.0, p.1)),
            }
        }
    } else {
        match scan_value(s.drop_first()) {
            Option::None => Option::None,
            Option::Some(p) => Option::Some((seq![s[0]] + p.0, p.1)),
        }
    }
}

/// Re-splits label text into its (key, value) pairs: fields separated by
/// top-level commas, a key before each `=`, a quoted value after it, with
/// the escapes undone. The fuel bounds how many fields can be read.
pub open spec fn parse_labels(s: Seq<char>, expect_comma: bool, fuel: nat) -> Option<
    Seq<(Seq<char>, Seq<char>)>,
>
    decreases fuel,
{
    if s.len() == 0 {
        Option::Some(Seq::empty())
    } else if fuel == 0 {
        Option::None
    } else {
        let s1 = if expect_comma {
            s.drop_first()
        } else {
            s
        };
        if expect_comma && s[0] != ',' {
            Option::None
        } else {
            match scan_key(s1) {
                Option::None => Option::None,
                Option::Some(kp) => if kp.1.len() == 0 || kp.1[0] != '"' {
                    Option::None
                } else {
                    match scan_value(kp.1.drop_first()) {
                        Option::None => Option::None,
                        Option::Some(vp) => match parse_labels(
                            vp.1,
                            true,
                            (fuel - 1) as nat,
                        ) {
                            Option::None => Option::None,
                            Option::Some(pairs) => Option::Some(
                                seq![(kp.0, vp.0)] + pairs,
                            ),
                        },
                    }
                },
            }
        }
    }
}

/// The (key, source text) pairs of the fields that emit text, in order.
pub open spec fn visible_pairs(fs: Seq<FieldView>) -> Seq<(Seq<char>, Seq<char>)>
    decreases fs.len(),
{
    if fs.len() == 0 {
        Seq::empty()
    } else if visible(fs[0].value) {
        seq![(fs[0].key, source_text(fs[0].value))] + visible_pairs(fs.drop_first())
    } else {
        visible_pairs(fs.drop_first())
    }
}

/// Scanning a key finds exactly the key: the text up to the written `=`,
/// since no key character is an `=`.
proof fn lemma_scan_key(k: Seq<char>, rest: Seq<char>)
    requires
        forall|i: int| 0 <= i < k.len() ==> #[trigger] k[i] != '=',
    ensures
        scan_key(k + seq!['='] + rest) == Option::Some((k, rest)),
    decreases k.len(),
{
    let s = k + seq!['='] + rest;
    if k.len() == 0 {
        assert(s[0] == '=');
        assert(s.drop_first() =~= rest);
        assert(scan_key(s) == Option::Some((Seq::<char>::empty(), rest)));
        assert(k =~= Seq::<char>::empty());
    } else {
        assert(s[0] == k[0]);
        assert(s[0] != '=');
        assert(s.drop_first() =~= k.drop_first() + seq!['='] + rest);
        lemma_scan_key(k.drop_first(), rest);
        assert(seq![k[0]] + k.drop_first() =~= k);
    }
}

/// Scanning a quoted value finds exactly the escaped text and undoes the
/// escapes: the closing quote cannot be mistaken, because every quote the
/// value itself holds sits behind a backslash.
proof fn lemma_scan_value(t: Seq<char>, rest: Seq<char>)
    ensures
        scan_value(escaped(t) + seq!['"'] + rest) == Option::Some((t, rest)),
    decreases t.len(),
{
    let s = escaped(t) + seq!['"'] + rest;
    if t.len() == 0 {
        assert(escaped(t) =~= Seq::<char>::empty());
        assert(s[0] == '"');
        assert(s.drop_first() =~= rest);
        assert(t =~= Seq::<char>::empty());
    } else {
        let c = t[0];
        lemma_scan_value(t.drop_first(), rest);
        let s2 = escaped(t.drop_first()) + seq!['"'] + rest;
        if needs_escape(c) {
            assert(escaped_char(c).len() == 2);
            assert(escaped_char(c)[0] == '\\');
            assert(s =~= escaped_char(c) + s2);
            assert(s[0] == '\\');
            assert(s.len() >= 2);
            assert(s[1] == escaped_char(c)[1]);
            assert(s.skip(2) =~= s2);
            assert(unescape_char(escaped_char(c)[1]) == c);
            assert(seq![c] + t.drop_first() =~= t);
        } else {
            assert(s =~= seq![c] + s2);
            assert(s[0] == c);
            assert(c != '"' && c != '\\');
            assert(s.drop_first() =~= s2);
            assert(seq![c] + t.drop_first() =~= t);
        }
    }
}

/// The backbone of the round-trip law, generalized over the pending comma
/// state.
proof fn lemma_round_trip_rec(fs: Seq<FieldView>, comma: bool, fuel: nat)
    requires
        forall|i: int| 0 <= i < fs.len() ==> valid_key(#[trigger] fs[i].key),
        fuel >= fs.len(),
    ensures
        parse_labels(fields_text(fs, comma), comma, fuel) == Option::Some(visible_pairs(fs)),
    decreases fs.len(),
{
    if fs.len() == 0 {
        assert(fields_text(fs, comma) =~= Seq::<char>::empty());
    } else {
        let f = fs[0];
        let rest_text = fields_text(fs.drop_first(), comma || visible(f.value));
        if !visible(f.value) {
            assert(field_text(f, comma) =~= Seq::<char>::empty());
            assert(fields_text(fs, comma) =~= rest_text);
            lemma_round_trip_rec(fs.drop_first(), comma, fuel);
            assert(fuel >= fs.drop_first().len());
            assert(visible_pairs(fs) =~= visible_pairs(fs.drop_first()));
        } else {
            lemma_payload_is_escaped(f.value);
            let k = f.key;
            let src = source_text(f.value);
            let s = fields_text(fs, comma);
            let s1 = k + seq!['='] + (seq!['"'] + escaped(src) + seq!['"'] + rest_text);
            if comma {
                assert(s =~= seq![','] + s1);
                assert(s[0] == ',');
                assert(s.drop_first() =~= s1);
            } else {
                assert(s =~= s1);
                assert(s.len() > 0);
            }
            assert forall|i: int| 0 <= i < k.len() implies #[trigger] k[i] != '=' by {
                if i == 0 {
                    assert(is_key_start(k[0]));
                } else {
                    assert(crate::top::is_key_char(k[i]));
                }
            }
            lemma_scan_key(k, seq!['"'] + escaped(src) + seq!['"'] + rest_text);
            let after_key = seq!['"'] + escaped(src) + seq!['"'] + rest_text;
            assert(after_key[0] == '"');
            assert(after_key.drop_first() =~= escaped(src) + seq!['"'] + rest_text);
            lemma_scan_value(src, rest_text);
            lemma_round_trip_rec(fs.drop_first(), true, (fuel - 1) as nat);
            assert(visible_pairs(fs) =~= seq![(k, src)] + visible_pairs(fs.drop_first()));
            assert(fuel > 0);
        }
    }
}

/// The round-trip law: re-splitting the produced text on top-level commas
/// and `=` yields back the record's visible (key, value) pairs, with the
/// escapes undone by the inverse escape map — for every record whose keys
/// match the grammar.
pub proof fn lemma_round_trip(fs: Seq<FieldView>, fuel: nat)
    requires
        forall|i: int| 0 <= i < fs.len() ==> valid_key(#[trigger] fs[i].key),
        fuel >= fs.len(),
    ensures
        parse_labels(fields_text(fs, false), false, fuel) == Option::Some(visible_pairs(fs)),
{
    lemma_round_trip_rec(fs, false, fuel);
}

/// Escapes are reversible: unescaping the escaped text gives the source
/// back, for every text.
pub proof fn lemma_unescape_escape(s: Seq<char>)
    ensures
        unescaped(escaped(s)) == s,
    decreases s.len(),
{
    if s.len() == 0 {
    } else {
        let c = s[0];
        let rest = escaped(s.drop_first());
        lemma_unescape_escape(s.drop_first());
        if needs_escape(c) {
            assert(escaped(s) =~= escaped_char(c) + rest);
            assert(escaped(s)[0] == '\\');
            assert(escaped(s).len() >= 2);
            assert(escaped(s).skip(2) =~= rest);
            assert(unescape_char(escaped(s)[1]) == c);
            assert(unescaped(escaped(s)) =~= s);
        } else {
            assert(escaped(s) =~= seq![c] + rest);
            assert(escaped(s)[0] == c && c != '\\');
            assert(escaped(s).drop_first() =~= rest);
            assert(unescaped(escaped(s)) =~= s);
        }
    }
}

} // verus!
