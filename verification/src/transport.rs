//! The input side: what counts as a received chunk, what is sent back for
//! it, and the source that stands in when the text is fixed at build time.

use vstd::prelude::*;
use vstd::slice::slice_subrange;
use vstd::string::StringSliceAdditionalSpecFns;

verus! {

/// The message that is sent back for every chunk received.
pub const ACKNOWLEDGEMENT: &'static str = "ok !\n";

/// The chunk that a read left in `buffer`, when it reported `read` bytes:
/// none if the read failed or brought nothing, else the bytes read.
pub open spec fn chunk_of(buffer: Seq<u8>, read: Option<usize>) -> Option<Seq<u8>> {
    match read {
        Some(count) => if count == 0 {
            None
        } else if count <= buffer.len() {
            Some(buffer.subrange(0, count as int))
        } else {
            Some(buffer)
        },
        None => None,
    }
}

/// Turns the outcome of one read into a chunk, or into none. `read` is the
/// number of bytes that the read reported, or `None` if it failed. A failed
/// read and a read of no bytes are no input; neither is an error.
pub fn received<'a>(buffer: &'a [u8], read: Option<usize>) -> (chunk: Option<&'a [u8]>)
    ensures
        chunk is Some <==> chunk_of(buffer@, read) is Some,
        chunk matches Some(bytes) ==> chunk_of(buffer@, read) == Some(bytes@),
{
    match read {
        Some(count) => {
            if count == 0 {
                None
            } else if count <= buffer.len() {
                Some(slice_subrange(buffer, 0, count))
            } else {
                Some(buffer)
            }
        },
        None => None,
    }
}

/// An input source for a text that is fixed from the start: it delivers
/// the text as one chunk, once, and nothing ever after.
pub struct StaticSource<'a> {
    text: &'a str,
    pending: bool,
}

impl<'a> StaticSource<'a> {
    /// The bytes of the source's text.
    pub closed spec fn text(&self) -> Seq<u8> {
        self.text.spec_bytes()
    }

    /// Whether the text is still to be delivered.
    pub closed spec fn pending(&self) -> bool {
        self.pending
    }

    /// A source that has `text` to deliver.
    pub fn new(text: &'a str) -> (source: StaticSource<'a>)
        ensures
            source.text() == text.spec_bytes(),
            source.pending(),
    {
        StaticSource { text, pending: true }
    }

    /// Asks for input. The first call delivers the text; every later call
    /// delivers nothing.
    pub fn poll_input(&mut self) -> (chunk: Option<&'a [u8]>)
        ensures
            chunk is Some <==> old(self).pending(),
            chunk matches Some(bytes) ==> bytes@ == old(self).text(),
            !final(self).pending(),
            final(self).text() == old(self).text(),
    {
        if self.pending {
            self.pending = false;
            Some(self.text.as_bytes())
        } else {
            None
        }
    }

    /// Takes an acknowledgement. Nobody listens to a fixed text's source:
    /// the message is dropped and the source stays as it is.
    pub fn acknowledge(&mut self, message: &[u8])
        ensures
            *final(self) == *old(self),
    {
    }
}

} // verus!
