//! Framing a continuous byte stream into terminator-delimited messages, and
//! turning one frame's bytes into message text.

use vstd::prelude::*;
use vstd::utf8::{encode_utf8, valid_utf8};
use crate::packet::{spec_from_message, DecodeError, Packet, PacketModel};

verus! {

/// The byte that ends every frame.
pub const TERMINATOR: u8 = 35;

/// Buffers bytes of one connection until a terminator completes a frame.
///
/// The bytes held so far are the view; none of them is a terminator.
pub struct FrameBuffer {
    buf: Vec<u8>,
}

impl View for FrameBuffer {
    type V = Seq<u8>;

    closed spec fn view(&self) -> Seq<u8> {
        self.buf@
    }
}

impl FrameBuffer {
    /// No buffered byte is a terminator.
    pub open spec fn wf(&self) -> bool {
        forall|i: int| 0 <= i < self@.len() ==> self@[i] != TERMINATOR
    }

    /// An empty buffer.
    pub fn new() -> (r: FrameBuffer)
        ensures
            r@ == Seq::<u8>::empty(),
            r.wf(),
    {
        FrameBuffer { buf: Vec::new() }
    }

    /// Takes one received byte.  A terminator completes and returns the
    /// pending frame, terminator included, leaving the buffer empty; any
    /// other byte is appended and returns nothing.
    pub fn push(&mut self, byte: u8) -> (frame: Option<Vec<u8>>)
        requires
            old(self).wf(),
        ensures
            final(self).wf(),
            byte == TERMINATOR ==> (frame matches Some(f) && f@ == old(self)@.push(TERMINATOR)
                && final(self)@ == Seq::<u8>::empty()),
            byte != TERMINATOR ==> (frame is None && final(self)@ == old(self)@.push(byte)),
    {
        if byte == TERMINATOR {
            self.buf.push(TERMINATOR);
            let mut done: Vec<u8> = Vec::new();
            core::mem::swap(&mut self.buf, &mut done);
            Some(done)
        } else {
            self.buf.push(byte);
            proof {
                assert forall|i: int| 0 <= i < self@.len() implies self@[i] != TERMINATOR by {
                    if i < old(self)@.len() {
                        assert(old(self)@[i] != TERMINATOR);
                    }
                }
            }
            None
        }
    }

    /// Takes a whole received chunk, returning the frames it completes, in
    /// order.  Bytes after the last terminator stay buffered for the next
    /// chunk, so a frame may span any number of reads.
    pub fn push_chunk(&mut self, chunk: &[u8]) -> (frames: Vec<Vec<u8>>)
        requires
            old(self).wf(),
        ensures
            final(self).wf(),
            frames@.map_values(|f: Vec<u8>| f@) == spec_frames(old(self)@ + chunk@).0,
            final(self)@ == spec_frames(old(self)@ + chunk@).1,
    {
        let mut frames: Vec<Vec<u8>> = Vec::new();
        let mut i: usize = 0;
        proof {
            assert(old(self)@ + chunk@.take(0) =~= old(self)@);
            lemma_frames_all_residue(old(self)@);
            assert(frames@.map_values(|f: Vec<u8>| f@) =~= spec_frames(old(self)@).0);
        }
        while i < chunk.len()
            invariant
                0 <= i <= chunk@.len(),
                self.wf(),
                frames@.map_values(|f: Vec<u8>| f@) == spec_frames(old(self)@ + chunk@.take(
                    i as int,
                )).0,
                self@ == spec_frames(old(self)@ + chunk@.take(i as int)).1,
            decreases chunk@.len() - i,
        {
            let byte = chunk[i];
            proof {
                assert((old(self)@ + chunk@.take(i + 1)).drop_last() =~= old(self)@ + chunk@.take(
                    i as int,
                ));
                assert((old(self)@ + chunk@.take(i + 1)).last() == chunk@[i as int]);
            }
            let r = self.push(byte);
            if let Some(f) = r {
                frames.push(f);
                proof {
                    let prev = spec_frames(old(self)@ + chunk@.take(i as int));
                    assert(frames@.map_values(|f: Vec<u8>| f@) =~= prev.0.push(
                        prev.1.push(TERMINATOR),
                    ));
                }
            } else {
                proof {
                    assert(frames@.map_values(|f: Vec<u8>| f@) =~= spec_frames(
                        old(self)@ + chunk@.take(i + 1),
                    ).0);
                }
            }
            i += 1;
        }
        proof {
            assert(old(self)@ + chunk@.take(i as int) =~= old(self)@ + chunk@);
        }
        frames
    }
}

/// The complete frames in `bytes` and the residue after the last
/// terminator: each terminator ends a frame that includes it.
pub open spec fn spec_frames(bytes: Seq<u8>) -> (Seq<Seq<u8>>, Seq<u8>)
    decreases bytes.len(),
{
    if bytes.len() == 0 {
        (Seq::<Seq<u8>>::empty(), Seq::<u8>::empty())
    } else {
        let (frames, rest) = spec_frames(bytes.drop_last());
        if bytes.last() == TERMINATOR {
            (frames.push(rest.push(TERMINATOR)), Seq::<u8>::empty())
        } else {
            (frames, rest.push(bytes.last()))
        }
    }
}

/// Bytes holding no terminator frame to nothing: all of them stay residue.
pub proof fn lemma_frames_all_residue(bytes: Seq<u8>)
    requires
        forall|i: int| 0 <= i < bytes.len() ==> bytes[i] != TERMINATOR,
    ensures
        spec_frames(bytes).0 == Seq::<Seq<u8>>::empty(),
        spec_frames(bytes).1 == bytes,
    decreases bytes.len(),
{
    if bytes.len() > 0 {
        lemma_frames_all_residue(bytes.drop_last());
        assert(spec_frames(bytes).1 =~= bytes);
    }
}

/// Relies on `String::from_utf8`: it succeeds exactly on valid UTF-8 and
/// returns the text encoding those same bytes.
#[verifier::external_body]
fn string_from_utf8(bytes: Vec<u8>) -> (r: Option<String>)
    ensures
        r is Some <==> valid_utf8(bytes@),
        r matches Some(s) ==> encode_utf8(s@) == bytes@,
{
    String::from_utf8(bytes).ok()
}

/// Decodes one framed message: frames whose bytes are not valid text are
/// dropped (`None`) without affecting any later frame, and valid text is
/// decoded by [`Packet::from_message`].
pub fn decode_frame(frame: Vec<u8>) -> (r: Option<Result<Packet, DecodeError>>)
    ensures
        r is None <==> !valid_utf8(frame@),
        r matches Some(d) ==> {
            let s = vstd::utf8::decode_utf8(frame@);
            match d {
                Ok(p) => spec_from_message(s) == Ok::<PacketModel, DecodeError>(p@),
                Err(e) => spec_from_message(s) == Err::<PacketModel, DecodeError>(e),
            }
        },
{
    let ghost bytes = frame@;
    let text = match string_from_utf8(frame) {
        Some(t) => t,
        None => {
            return None;
        },
    };
    proof {
        broadcast use vstd::utf8::encode_utf8_decode_utf8;

        assert(vstd::utf8::decode_utf8(bytes) == text@);
    }
    Some(Packet::from_message(text.as_str()))
}

} // verus!
