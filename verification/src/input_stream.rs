//! A character stream over decoded code points with arbitrary lookahead,
//! lookbehind, and rewinding. Marks are free: releasing a mark never moves
//! the position.

use vstd::prelude::*;
use crate::errors::ANTLRError;
use crate::int_stream::EOF;

verus! {

/// A stream of code points read from a borrowed string.
pub struct InputStream {
    pub name: String,
    /// Decoded code points of the source text.
    pub data: Vec<u32>,
    /// Byte offset of each code point in the source text, for text slicing.
    pub offsets: Vec<usize>,
    pub index: usize,
}

/// Relies on `str::char_indices`: the byte offset and value of each
/// character, in order.
#[verifier::external_body]
fn decode_chars(s: &str) -> (r: (Vec<u32>, Vec<usize>))
    ensures
        r.0@.len() == s@.len(),
        r.1@.len() == s@.len(),
        forall|i: int| 0 <= i < s@.len() ==> (#[trigger] r.0@[i]) == s@[i] as u32,
        forall|i: int| 0 <= i < s@.len() ==> (#[trigger] r.0@[i]) < 0x110000,
        forall|i: int|
            0 <= i < s@.len() ==> !(0xD800 <= (#[trigger] r.0@[i]) < 0xE000),
{
    let mut values: Vec<u32> = Vec::new();
    let mut offsets: Vec<usize> = Vec::new();
    for (off, ch) in s.char_indices() {
        values.push(ch as u32);
        offsets.push(off);
    }
    (values, offsets)
}

/// Relies on `char::from_u32` and `String` collection: each valid code
/// point becomes that very character (invalid ones become the replacement
/// character), so the lengths agree and valid values round-trip.
#[verifier::external_body]
pub(crate) fn codepoints_to_string(v: &Vec<u32>) -> (r: String)
    ensures
        r@.len() == v@.len(),
        forall|i: int|
            0 <= i < v@.len() && (#[trigger] v@[i]) < 0x110000 && !(0xD800 <= v@[i] < 0xE000)
                ==> r@[i] as u32 == v@[i],
{
    v.iter().map(|&c| char::from_u32(c).unwrap_or('\u{FFFD}')).collect()
}

impl InputStream {
    /// The stream is positioned inside (or one past) its data.
    pub open spec fn inv(self) -> bool {
        &&& self.index <= self.data@.len()
        &&& self.data@.len() < 0x4000_0000
        &&& forall|i: int|
            0 <= i < self.data@.len() ==> (#[trigger] self.data@[i]) < 0x110000 && !(0xD800
                <= self.data@[i] < 0xE000)
    }

    /// A fresh stream over `text`, positioned at the start.
    pub fn new(text: &str) -> (r: Result<InputStream, ANTLRError>)
        ensures
            text@.len() < 0x4000_0000 ==> r is Ok,
            r matches Ok(s) ==> s.inv() && s.index == 0 && s.data@.len() == text@.len() && forall|
                i: int,
            |
                0 <= i < text@.len() ==> (#[trigger] s.data@[i]) == text@[i] as u32,
    {
        let (values, offsets) = decode_chars(text);
        if values.len() >= 0x4000_0000 {
            return Err(ANTLRError::IllegalStateError("input too large".to_string()));
        }
        Ok(InputStream { name: "<empty>".to_string(), data: values, offsets, index: 0 })
    }

    /// A fresh stream over `text`; the same as `new`, for callers that hand
    /// over an owned buffer's contents.
    pub fn owned_stream(text: &str) -> (r: Result<InputStream, ANTLRError>)
        ensures
            text@.len() < 0x4000_0000 ==> r is Ok,
            r matches Ok(s) ==> s.inv() && s.index == 0 && s.data@.len() == text@.len() && forall|
                i: int,
            |
                0 <= i < text@.len() ==> (#[trigger] s.data@[i]) == text@[i] as u32,
    {
        InputStream::new(text)
    }

    /// Rewinds to the start.
    pub fn reset(&mut self)
        ensures
            final(self).index == 0,
            final(self).data == old(self).data,
            final(self).offsets == old(self).offsets,
            final(self).name == old(self).name,
            old(self).inv() ==> final(self).inv(),
    {
        self.index = 0;
    }

    /// The code point `offset` symbols away; `offset` 1 is the next symbol,
    /// negative offsets look behind, and out-of-range reads yield the end
    /// sentinel.
    pub fn la(&self, offset: isize) -> (r: isize)
        requires
            self.inv(),
        ensures
            r == self.spec_la(offset as int),
    {
        if offset == 0 {
            return 0;
        }
        if offset < 0 {
            let off = offset + 1;
            if (self.index as isize) + off - 1 < 0 {
                return EOF;
            }
            let pos = (self.index as isize) + off - 1;
            if pos >= self.data.len() as isize {
                return EOF;
            }
            return self.data[pos as usize] as isize;
        }
        if offset > (self.data.len() as isize) - (self.index as isize) {
            return EOF;
        }
        let pos = self.index + (offset as usize) - 1;
        self.data[pos] as isize
    }

    /// What `la` returns, as a function of the stream.
    pub open spec fn spec_la(self, offset: int) -> int {
        if offset == 0 {
            0
        } else {
            let off = if offset < 0 {
                offset + 1
            } else {
                offset
            };
            let pos = self.index + off - 1;
            if pos < 0 || pos >= self.data@.len() {
                EOF as int
            } else {
                self.data@[pos] as int
            }
        }
    }

    /// The same lookahead under another name.
    pub fn lt(&self, offset: isize) -> (r: isize)
        requires
            self.inv(),
        ensures
            r == self.spec_la(offset as int),
    {
        self.la(offset)
    }

    /// Advances over one symbol; at end of input this is an error.
    pub fn consume(&mut self) -> (r: Result<(), ANTLRError>)
        requires
            old(self).inv(),
        ensures
            final(self).inv(),
            final(self).data == old(self).data,
            final(self).offsets == old(self).offsets,
            final(self).name == old(self).name,
            old(self).index < old(self).data@.len() ==> (r is Ok && final(self).index == old(
                self,
            ).index + 1),
            old(self).index >= old(self).data@.len() ==> (r is Err && final(self).index == old(
                self,
            ).index),
    {
        if self.index >= self.data.len() {
            return Err(ANTLRError::IllegalStateError("cannot consume EOF".to_string()));
        }
        self.index = self.index + 1;
        Ok(())
    }

    /// Records the position for speculative work. Marks cost nothing here:
    /// the stream is fully rewindable, so the marker is a constant and the
    /// stream is untouched.
    pub fn mark(&mut self) -> (r: isize)
        ensures
            r == -1,
            *final(self) == *old(self),
    {
        -1
    }

    /// Releases a mark; the stream (its index in particular) is untouched.
    pub fn release(&mut self, marker: isize)
        ensures
            *final(self) == *old(self),
    {
    }

    pub fn index(&self) -> (r: usize)
        ensures
            r == self.index,
    {
        self.index
    }

    /// Moves to `index`: backward always, forward at most to the end.
    pub fn seek(&mut self, index: isize)
        requires
            old(self).inv(),
            index >= 0,
        ensures
            final(self).inv(),
            final(self).data == old(self).data,
            final(self).offsets == old(self).offsets,
            final(self).name == old(self).name,
            final(self).index == if index as int <= old(self).data@.len() as int {
                index as int
            } else {
                old(self).data@.len() as int
            },
    {
        if (index as usize) <= self.data.len() {
            self.index = index as usize;
        } else {
            self.index = self.data.len();
        }
    }

    pub fn size(&self) -> (r: usize)
        ensures
            r == self.data@.len(),
    {
        self.data.len()
    }

    pub fn get_source_name(&self) -> (r: String)
        ensures
            r@ == self.name@,
    {
        crate::token::clone_string(&self.name)
    }

    /// The source text covering code points `start ..= stop`, as decoded
    /// values.
    pub fn text_range(&self, start: usize, stop: usize) -> (r: Vec<u32>)
        requires
            self.inv(),
            start <= stop,
            stop < self.data@.len(),
        ensures
            r@ == self.data@.subrange(start as int, stop + 1),
    {
        let mut out: Vec<u32> = Vec::new();
        let mut i: usize = start;
        while i <= stop
            invariant
                self.inv(),
                start <= i <= stop + 1,
                stop < self.data@.len(),
                out@ == self.data@.subrange(start as int, i as int),
            decreases stop + 1 - i,
        {
            out.push(self.data[i]);
            i += 1;
            proof {
                assert(out@ =~= self.data@.subrange(start as int, i as int));
            }
        }
        out
    }
}

} // verus!
