//! The output sink: an append-only text buffer that one encoding pass owns
//! exclusively, together with the ASCII search pattern used when escaping.

use vstd::prelude::*;
use vstd::string::StringExecFns;

verus! {

/// Relies on `String::push`: appends exactly the given character.
#[verifier::external_body]
pub(crate) fn push_char(out: &mut String, c: char)
    ensures
        final(out)@ == old(out)@.push(c),
{
    out.push(c);
}

/// An append-only text sink. Text already written is never inspected or
/// rewritten; every operation only extends the buffer.
pub struct Writer {
    buf: String,
}

impl View for Writer {
    type V = Seq<char>;

    closed spec fn view(&self) -> Seq<char> {
        self.buf@
    }
}

impl Writer {
    /// Wraps a buffer; everything written later is appended after its
    /// current contents.
    pub fn new(buf: String) -> (w: Writer)
        ensures
            w@ == buf@,
    {
        Writer { buf }
    }

    /// Hands out the writer itself for a nested writing step.
    pub fn reborrow(&mut self) -> (w: &mut Writer)
        ensures
            *w == *old(self),
            *final(w) == *final(self),
    {
        self
    }

    /// Appends a string slice to the sink.
    pub fn write_str(&mut self, s: &str)
        ensures
            final(self)@ == old(self)@ + s@,
    {
        self.buf.append(s);
    }

    /// Appends a single character to the sink.
    pub fn write_char(&mut self, c: char)
        ensures
            final(self)@ == old(self)@.push(c),
    {
        push_char(&mut self.buf, c);
    }

    /// Gives the accumulated text back.
    pub fn into_string(self) -> (s: String)
        ensures
            s@ == self@,
    {
        self.buf
    }
}

/// A search pattern made of ASCII characters only, used to find the
/// characters of a text that need escaping.
pub struct AsciiPattern {
    chars: Vec<u8>,
}

impl AsciiPattern {
    /// The pattern's characters, as bytes.
    pub closed spec fn spec_chars(&self) -> Seq<u8> {
        self.chars@
    }

    /// Whether `c` is one of the pattern's characters.
    pub open spec fn matches(&self, c: char) -> bool {
        exists|i: int|
            0 <= i < self.spec_chars().len() && (self.spec_chars()[i] as u32) == (c as u32)
    }

    /// Builds a pattern from ASCII bytes.
    pub fn new(chars: Vec<u8>) -> (p: AsciiPattern)
        requires
            forall|i: int| 0 <= i < chars@.len() ==> chars@[i] <= 127,
        ensures
            p.spec_chars() == chars@,
    {
        AsciiPattern { chars }
    }

    /// Whether `c` occurs in the pattern.
    pub fn contains_char(&self, c: char) -> (r: bool)
        ensures
            r == self.matches(c),
    {
        let mut i: usize = 0;
        while i < self.chars.len()
            invariant
                0 <= i <= self.chars@.len(),
                forall|j: int| 0 <= j < i ==> (self.spec_chars()[j] as u32) != (c as u32),
            decreases self.chars@.len() - i,
        {
            let b = self.chars[i];
            assert(b == self.spec_chars()[i as int]);
            if b as u32 == c as u32 {
                assert((self.spec_chars()[i as int] as u32) == (c as u32));
                return true;
            }
            assert((self.spec_chars()[i as int] as u32) != (c as u32));
            i += 1;
        }
        false
    }
}

} // verus!
