//! The asynchronous-operation wrapper around the drain loop.
//!
//! A [`ReadToEnd`] holds the source and the buffer exclusively for the
//! operation's whole lifetime and exposes a single [`ReadToEnd::poll`]
//! entry point returning pending, done, or failed.  It keeps no progress
//! state of its own: each poll re-derives where to resume purely from
//! the buffer's committed length, so suspension loses nothing.

use vstd::prelude::*;

use crate::buffer::ByteBuffer;
use crate::drain::{drained_bytes, resume_bytes, resume_rest, resume_status, DrainStatus};
use crate::drain::{drained_status, read_to_end_internal};
use crate::source::{Source, SourceEvent};

verus! {

/// Drains a source into a buffer until end-of-stream, driven by repeated
/// external calls of [`ReadToEnd::poll`].
pub struct ReadToEnd<S: Source> {
    reader: S,
    buf: ByteBuffer,
}

impl<S: Source> ReadToEnd<S> {
    /// The remaining events of the held source.
    pub closed spec fn source_events(&self) -> Seq<SourceEvent<S::Err>> {
        self.reader.events()
    }

    /// Whether the held source demands a zero-filled destination region.
    pub closed spec fn source_preinit(&self) -> bool {
        self.reader.preinit()
    }

    /// The committed bytes of the held buffer.
    pub closed spec fn buffer_bytes(&self) -> Seq<u8> {
        self.buf@
    }

    pub closed spec fn well_formed(&self) -> bool {
        self.buf.well_formed()
    }

    /// Takes exclusive ownership of the source and the buffer for the
    /// operation's lifetime.
    pub fn new(reader: S, buf: ByteBuffer) -> (op: ReadToEnd<S>)
        requires
            buf.well_formed(),
        ensures
            op.well_formed(),
            op.source_events() == reader.events(),
            op.source_preinit() == reader.preinit(),
            op.buffer_bytes() == buf@,
            op.buffer_capacity_spec() == buf.spec_capacity(),
    {
        ReadToEnd { reader, buf }
    }

    /// One resumption: drains until the source suspends, reaches
    /// end-of-stream or fails.  The buffer afterwards holds exactly its
    /// previous bytes followed by the bytes committed by this
    /// resumption, so every observable pause point shows only valid
    /// bytes and no progress is lost across suspensions.
    pub fn poll(&mut self) -> (r: DrainStatus<S::Err>)
        requires
            old(self).well_formed(),
            old(self).buffer_bytes().len() + resume_bytes(old(self).source_events()).len()
                < usize::MAX,
        ensures
            final(self).well_formed(),
            r == resume_status(old(self).source_events()),
            final(self).buffer_bytes() == old(self).buffer_bytes() + resume_bytes(
                old(self).source_events(),
            ),
            final(self).buffer_bytes().len() == old(self).buffer_bytes().len() + resume_bytes(
                old(self).source_events(),
            ).len(),
            final(self).source_events() == resume_rest(old(self).source_events()),
            final(self).source_preinit() == old(self).source_preinit(),
            final(self).buffer_capacity_spec() <= vstd::math::max(
                old(self).buffer_capacity_spec() as int,
                vstd::math::max(64, 2 * final(self).buffer_bytes().len() as int),
            ),
    {
        read_to_end_internal(&mut self.reader, &mut self.buf)
    }

    /// Polls to a terminal outcome, as a scheduler that immediately
    /// re-polls after every suspension would.
    pub fn poll_to_completion(&mut self) -> (r: DrainStatus<S::Err>)
        requires
            old(self).well_formed(),
            old(self).buffer_bytes().len() + drained_bytes(old(self).source_events()).len()
                < usize::MAX,
        ensures
            final(self).well_formed(),
            !(r is Pending),
            r == drained_status(old(self).source_events()),
            final(self).buffer_bytes() == old(self).buffer_bytes() + drained_bytes(
                old(self).source_events(),
            ),
            final(self).buffer_bytes().len() == old(self).buffer_bytes().len() + drained_bytes(
                old(self).source_events(),
            ).len(),
            final(self).source_preinit() == old(self).source_preinit(),
    {
        crate::drain::drain_to_end(&mut self.reader, &mut self.buf)
    }

    /// The buffer's committed length.
    pub fn buffer_len(&self) -> (n: usize)
        requires
            self.well_formed(),
        ensures
            n == self.buffer_bytes().len(),
    {
        self.buf.len()
    }

    /// The buffer's storage, committed bytes included.
    pub closed spec fn buffer_capacity_spec(&self) -> nat {
        self.buf.spec_capacity()
    }

    /// The buffer's capacity, committed bytes included.
    pub fn buffer_capacity(&self) -> (n: usize)
        requires
            self.well_formed(),
        ensures
            n == self.buffer_capacity_spec(),
    {
        self.buf.capacity()
    }

    /// Ends the operation, giving back the source and the buffer's
    /// committed bytes.
    pub fn into_parts(self) -> (parts: (S, Vec<u8>))
        requires
            self.well_formed(),
        ensures
            parts.0.events() == self.source_events(),
            parts.0.preinit() == self.source_preinit(),
            parts.1@ == self.buffer_bytes(),
    {
        let ReadToEnd { reader, buf } = self;
        (reader, buf.into_vec())
    }
}

} // verus!
