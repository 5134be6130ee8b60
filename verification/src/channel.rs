//! The output channel: the one way onto the outbound stream.
//!
//! Every writer, the dispatch engine as well as the log interceptor, holds
//! the channel exclusively for the length of one write, and a write appends
//! one whole frame. So the stream is at every moment a sequence of whole
//! frames, in the order in which the writers took their turns.

use crate::codec::{frame, frames, lemma_frames_split, payloads_of, terminator_free, JsonCodec, TERMINATOR};
use crate::json::{json_text, Json};
use vstd::prelude::*;

verus! {

/// The sink of all outbound frames. It collects the bytes of the frames
/// written since the transport last took them.
pub struct OutputChannel {
    pending: Vec<u8>,
    written: Ghost<Seq<Seq<u8>>>,
    taken: Ghost<Seq<u8>>,
}

impl OutputChannel {
    #[verifier::type_invariant]
    spec fn valid(self) -> bool {
        &&& terminator_free(self.written@)
        &&& self.taken@ + self.pending@ == frames(self.written@)
    }

    /// The payload of every frame written so far, in the order of the writes.
    pub closed spec fn written(self) -> Seq<Seq<u8>> {
        self.written@
    }

    /// The bytes that wait for the transport.
    pub closed spec fn pending(self) -> Seq<u8> {
        self.pending@
    }

    /// The bytes that the transport has taken already.
    pub closed spec fn taken(self) -> Seq<u8> {
        self.taken@
    }

    /// The whole outbound stream so far: what was taken and what waits.
    pub open spec fn stream(self) -> Seq<u8> {
        self.taken() + self.pending()
    }

    /// A channel on which nothing was written yet.
    pub fn new() -> (channel: OutputChannel)
        ensures
            channel.written() == Seq::<Seq<u8>>::empty(),
            channel.pending() == Seq::<u8>::empty(),
            channel.taken() == Seq::<u8>::empty(),
    {
        OutputChannel { pending: Vec::new(), written: Ghost(Seq::empty()), taken: Ghost(Seq::empty()) }
    }

    /// Writes `value` as one frame: its text and the terminator, appended to
    /// the stream in one piece.
    pub fn write(&mut self, value: &Json)
        ensures
            final(self).written() == old(self).written().push(json_text(value@)),
            final(self).pending() == old(self).pending() + frame(json_text(value@)),
            final(self).taken() == old(self).taken(),
            final(self).stream() == frames(final(self).written()),
            payloads_of(final(self).stream()) == final(self).written(),
    {
        proof {
            use_type_invariant(&*self);
        }
        let mut current = OutputChannel::new();
        std::mem::swap(self, &mut current);
        let OutputChannel { pending, written, taken } = current;
        let mut pending = pending;
        let ghost text = json_text(value@);
        let ghost all = written@.push(text);
        JsonCodec::new().encode(value, &mut pending);
        proof {
            assert(all.drop_last() =~= written@);
            assert(terminator_free(all)) by {
                assert forall|i: int| 0 <= i < all.len() implies !(#[trigger] all[i]).contains(
                    TERMINATOR,
                ) by {
                    if i < written@.len() {
                        assert(all[i] == written@[i]);
                    }
                }
            }
            assert(taken@ + pending@ =~= frames(all));
            lemma_frames_split(all);
        }
        *self = OutputChannel { pending, written: Ghost(all), taken };
    }

    /// Hands the waiting bytes to the transport. They are whole frames.
    pub fn take(&mut self) -> (bytes: Vec<u8>)
        ensures
            bytes@ == old(self).pending(),
            final(self).pending() == Seq::<u8>::empty(),
            final(self).taken() == old(self).taken() + old(self).pending(),
            final(self).written() == old(self).written(),
            final(self).stream() == old(self).stream(),
    {
        proof {
            use_type_invariant(&*self);
        }
        let mut current = OutputChannel::new();
        std::mem::swap(self, &mut current);
        let OutputChannel { pending, written, taken } = current;
        let ghost all = taken@ + pending@;
        proof {
            assert(all + Seq::<u8>::empty() =~= frames(written@));
        }
        *self = OutputChannel { pending: Vec::new(), written, taken: Ghost(all) };
        let bytes = pending;
        bytes
    }

    /// The stream so far is the frames of what was written, and comes apart
    /// into exactly those payloads.
    pub fn whole_frames(&self)
        ensures
            self.stream() == frames(self.written()),
            terminator_free(self.written()),
            payloads_of(self.stream()) == self.written(),
    {
        proof {
            use_type_invariant(self);
            lemma_frames_split(self.written@);
        }
    }
}

} // verus!
