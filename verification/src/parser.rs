//! A byte-level reader over a JSON string value.
//!
//! The property parsers consume the characters of one JSON string — the
//! parser starts right after the opening quote — and stop at the closing
//! quote. A backslash escapes the byte after it.

use vstd::prelude::*;

verus! {

/// Why reading a property failed.
#[derive(Debug, Clone, Copy, PartialEq, Eq, Structural)]
pub enum ParseError {
    /// The input ended inside a string.
    UnterminatedString,
}

/// One step of reading a string: the byte read (`None` at the closing
/// quote) and the next position, or `None` when the input ends first.
pub open spec fn spec_next(bytes: Seq<u8>, pos: int) -> Option<(Option<u8>, int)> {
    if pos < 0 || pos >= bytes.len() {
        None
    } else if bytes[pos] == 34 {
        Some((None, pos + 1))
    } else if bytes[pos] == 92 {
        if pos + 1 < bytes.len() {
            Some((Some(bytes[pos + 1]), pos + 2))
        } else {
            None
        }
    } else {
        Some((Some(bytes[pos]), pos + 1))
    }
}

/// Position just after the string's closing quote, if the string ends.
pub open spec fn spec_string_end(bytes: Seq<u8>, pos: int) -> Option<int>
    decreases bytes.len() - pos,
{
    if pos < 0 || pos >= bytes.len() {
        None
    } else if bytes[pos] == 34 {
        Some(pos + 1)
    } else if bytes[pos] == 92 {
        if pos + 1 < bytes.len() {
            spec_string_end(bytes, pos + 2)
        } else {
            None
        }
    } else {
        spec_string_end(bytes, pos + 1)
    }
}

/// The reader: the input bytes, the cursor, the start of the token being
/// read, and whether the input already ran out.
#[derive(Debug)]
pub struct Parser {
    /// The input.
    pub bytes: Vec<u8>,
    /// The cursor.
    pub pos: usize,
    /// Start of the token being read, for error reporting.
    pub pos_marker: usize,
    /// The input ended inside a token.
    pub is_eof: bool,
}

impl Parser {
    /// Cursor and marker stay within the input.
    pub open spec fn wf(self) -> bool {
        self.pos_marker <= self.pos <= self.bytes@.len()
    }

    /// A reader over `bytes`, positioned after the opening quote of a
    /// string.
    pub fn new(bytes: Vec<u8>) -> (r: Parser)
        ensures
            r.bytes == bytes,
            r.pos == 0,
            r.pos_marker == 0,
            !r.is_eof,
            r.wf(),
    {
        Parser { bytes, pos: 0, pos_marker: 0, is_eof: false }
    }

    /// Reads the next unescaped byte of the current string; `None` at its
    /// closing quote. Runs the cursor to the end and reports when the input
    /// ends first.
    pub fn next_unescaped(&mut self) -> (r: Result<Option<u8>, ParseError>)
        requires
            old(self).wf(),
        ensures
            final(self).wf(),
            final(self).bytes == old(self).bytes,
            final(self).pos_marker == old(self).pos_marker,
            match spec_next(old(self).bytes@, old(self).pos as int) {
                Some(p) => r == Ok::<Option<u8>, ParseError>(p.0) && final(self).pos == p.1
                    && final(self).is_eof == old(self).is_eof,
                None => r == Err::<Option<u8>, ParseError>(ParseError::UnterminatedString)
                    && final(self).pos == final(self).bytes@.len() && final(self).is_eof,
            },
    {
        if self.pos >= self.bytes.len() {
            self.pos = self.bytes.len();
            self.is_eof = true;
            return Err(ParseError::UnterminatedString);
        }
        let b = self.bytes[self.pos];
        if b == 34 {
            self.pos = self.pos + 1;
            Ok(None)
        } else if b == 92 {
            if self.pos + 1 < self.bytes.len() {
                let c = self.bytes[self.pos + 1];
                self.pos = self.pos + 2;
                Ok(Some(c))
            } else {
                self.pos = self.bytes.len();
                self.is_eof = true;
                Err(ParseError::UnterminatedString)
            }
        } else {
            self.pos = self.pos + 1;
            Ok(Some(b))
        }
    }

    /// Skips to just past the closing quote of the current string; `false`
    /// when the input ends first.
    pub fn skip_string(&mut self) -> (r: bool)
        requires
            old(self).wf(),
        ensures
            final(self).wf(),
            final(self).bytes == old(self).bytes,
            final(self).pos_marker == old(self).pos_marker,
            final(self).is_eof == old(self).is_eof,
            match spec_string_end(old(self).bytes@, old(self).pos as int) {
                Some(e) => r && final(self).pos == e,
                None => !r && final(self).pos == final(self).bytes@.len(),
            },
    {
        loop
            invariant
                self.wf(),
                self.bytes == old(self).bytes,
                self.pos_marker == old(self).pos_marker,
                self.is_eof == old(self).is_eof,
                spec_string_end(self.bytes@, self.pos as int) == spec_string_end(
                    old(self).bytes@,
                    old(self).pos as int,
                ),
            ensures
                self.bytes == old(self).bytes,
                self.pos_marker == old(self).pos_marker,
                self.is_eof == old(self).is_eof,
                match spec_string_end(old(self).bytes@, old(self).pos as int) {
                    Some(e) => self.pos == e,
                    None => self.pos == self.bytes@.len(),
                },
            decreases self.bytes@.len() - self.pos,
        {
            if self.pos >= self.bytes.len() {
                self.pos = self.bytes.len();
                return false;
            }
            let b = self.bytes[self.pos];
            if b == 34 {
                self.pos = self.pos + 1;
                return true;
            } else if b == 92 {
                if self.pos + 1 < self.bytes.len() {
                    self.pos = self.pos + 2;
                } else {
                    self.pos = self.bytes.len();
                    return false;
                }
            } else {
                self.pos = self.pos + 1;
            }
        }
    }
}

/// What `String::from_utf8_lossy` decodes a byte sequence to.
pub uninterp spec fn spec_lossy(bytes: Seq<u8>) -> Seq<char>;

/// Relies on `String::from_utf8_lossy`: the decoding is a function of the
/// bytes alone; a sequence of plain ASCII bytes decodes to the same
/// characters.
#[verifier::external_body]
pub fn lossy_string(bytes: &[u8]) -> (r: String)
    ensures
        r@ == spec_lossy(bytes@),
        (forall|i: int| 0 <= i < bytes@.len() ==> bytes@[i] < 128) ==> r@ == Seq::new(
            bytes@.len(),
            |i: int| bytes@[i] as char,
        ),
{
    String::from_utf8_lossy(bytes).into_owned()
}

} // verus!
