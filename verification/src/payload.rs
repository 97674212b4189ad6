//! Text payloads: what is kept of a received chunk, and when it counts as text.

use vstd::prelude::*;
use vstd::slice::slice_subrange;
use vstd::string::StringSliceAdditionalSpecFns;
use vstd::utf8::{encode_utf8, encode_utf8_valid_utf8, valid_utf8};

verus! {

/// Capacity of the input buffer: no more than this many bytes of one chunk are kept.
pub const MAX_TEXT_BUFFER_SIZE: usize = 2048;

/// The part of a chunk that the input buffer keeps: its first
/// `MAX_TEXT_BUFFER_SIZE` bytes, or all of it if it is shorter.
pub open spec fn retained(chunk: Seq<u8>) -> Seq<u8> {
    if chunk.len() <= MAX_TEXT_BUFFER_SIZE {
        chunk
    } else {
        chunk.subrange(0, MAX_TEXT_BUFFER_SIZE as int)
    }
}

/// A chunk that fits the input buffer is kept whole, up to and including
/// one of exactly `MAX_TEXT_BUFFER_SIZE` bytes; of a longer one, the first
/// `MAX_TEXT_BUFFER_SIZE` bytes are kept, unchanged.
pub proof fn lemma_retained_keeps_what_fits(chunk: Seq<u8>)
    ensures
        chunk.len() <= MAX_TEXT_BUFFER_SIZE ==> retained(chunk) == chunk,
        chunk.len() > MAX_TEXT_BUFFER_SIZE ==> retained(chunk).len() == MAX_TEXT_BUFFER_SIZE,
        forall|i: int| 0 <= i < retained(chunk).len() ==> retained(chunk)[i] == chunk[i],
{
}

/// Cuts a chunk down to the capacity of the input buffer. Bytes past the
/// capacity are dropped without an error.
pub fn bounded_chunk<'a>(chunk: &'a [u8]) -> (kept: &'a [u8])
    ensures
        kept@ == retained(chunk@),
        kept@.len() <= MAX_TEXT_BUFFER_SIZE,
{
    if chunk.len() <= MAX_TEXT_BUFFER_SIZE {
        chunk
    } else {
        slice_subrange(chunk, 0, MAX_TEXT_BUFFER_SIZE)
    }
}

/// Reads a byte slice as UTF-8 text with `core::str::from_utf8`.
///
/// Trusted: the call succeeds exactly on well-formed UTF-8, and the text it
/// returns is the given bytes, unchanged and in place.
#[verifier::external_body]
fn utf8_text<'a>(bytes: &'a [u8]) -> (text: Option<&'a str>)
    ensures
        text is Some <==> valid_utf8(bytes@),
        text matches Some(s) ==> s.spec_bytes() == bytes@,
{
    core::str::from_utf8(bytes).ok()
}

/// A chunk of input that was accepted as text: at most
/// `MAX_TEXT_BUFFER_SIZE` bytes of well-formed UTF-8.
pub struct TextPayload {
    text: String,
}

impl View for TextPayload {
    type V = Seq<u8>;

    /// The payload's bytes.
    closed spec fn view(&self) -> Seq<u8> {
        encode_utf8(self.text@)
    }
}

impl TextPayload {
    #[verifier::type_invariant]
    spec fn fits_buffer(self) -> bool {
        encode_utf8(self.text@).len() <= MAX_TEXT_BUFFER_SIZE
    }

    /// Accepts a chunk as text. The chunk is first cut down to the capacity
    /// of the input buffer; what is kept must be well-formed UTF-8, or the
    /// chunk is refused as a whole.
    pub fn decode(chunk: &[u8]) -> (payload: Option<TextPayload>)
        ensures
            payload is Some <==> valid_utf8(retained(chunk@)),
            payload matches Some(p) ==> p@ == retained(chunk@),
    {
        let kept = bounded_chunk(chunk);
        match utf8_text(kept) {
            Some(s) => Some(TextPayload { text: s.to_owned() }),
            None => None,
        }
    }

    /// Whatever a payload holds is well-formed UTF-8.
    pub proof fn lemma_is_text(&self)
        ensures
            valid_utf8(self@),
    {
        encode_utf8_valid_utf8(self.text@);
    }

    /// The payload as text.
    pub fn as_str(&self) -> (text: &str)
        ensures
            text.spec_bytes() == self@,
            text.spec_bytes().len() <= MAX_TEXT_BUFFER_SIZE,
    {
        proof {
            use_type_invariant(self);
        }
        self.text.as_str()
    }
}

} // verus!
