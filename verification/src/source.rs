//! The byte-source capability and its specification-level model.
//!
//! A [`Source`] can attempt to read bytes into a caller-supplied region,
//! reporting either "read `n` bytes" (`n == 0` means end-of-stream),
//! "would suspend, resume me later", or "failed with an error".  Its
//! behaviour is modelled by a sequence of [`SourceEvent`]s: each chunk of
//! bytes the source will deliver, each suspension, and at most one error,
//! in the order they will be observed.  A chunk larger than the region it
//! is offered is delivered over several attempts; the undelivered tail
//! stays at the front of the model.

use vstd::prelude::*;

verus! {

/// One interaction a source can produce, at the specification level.
///
/// An empty `Bytes` chunk is an explicit end-of-stream mark, mirroring a
/// successful read of zero bytes.
pub enum SourceEvent<E> {
    Bytes(Seq<u8>),
    Suspend,
    Error(E),
}

/// What one read attempt reports: `Ready(n)` bytes were read (`0` means
/// end-of-stream), the source would suspend, or it failed.
pub enum ReadPoll<E> {
    Ready(usize),
    Pending,
    Failed(E),
}

/// The model left over after a read attempt consumed `n` bytes of the
/// chunk at the front of `pre`.
pub open spec fn chunk_rest<E>(pre: Seq<SourceEvent<E>>, n: int) -> Seq<SourceEvent<E>>
    recommends
        pre.len() > 0,
        pre[0] is Bytes,
{
    match pre[0] {
        SourceEvent::Bytes(b) => if n == b.len() {
            pre.skip(1)
        } else {
            seq![SourceEvent::Bytes(b.skip(n))] + pre.skip(1)
        },
        _ => pre,
    }
}

/// Relates one call of [`Source::poll_read`] to the model: `pre`/`post`
/// are the source's events before and after the call, `dest0`/`dest1` the
/// destination region's bytes before and after, and `r` the report.
///
/// An exhausted model keeps reporting end-of-stream.  A read of `n > 0`
/// bytes places the first `n` bytes of the front chunk at the start of
/// the region and leaves the chunk's tail, if any, at the front of the
/// model.
pub open spec fn poll_read_post<E>(
    pre: Seq<SourceEvent<E>>,
    post: Seq<SourceEvent<E>>,
    dest0: Seq<u8>,
    dest1: Seq<u8>,
    r: ReadPoll<E>,
) -> bool {
    if pre.len() == 0 {
        &&& r == ReadPoll::<E>::Ready(0)
        &&& post == pre
    } else {
        match pre[0] {
            SourceEvent::Bytes(b) => if b.len() == 0 {
                &&& r == ReadPoll::<E>::Ready(0)
                &&& post == pre.skip(1)
            } else {
                match r {
                    ReadPoll::Ready(n) => {
                        &&& 1 <= n <= b.len()
                        &&& n <= dest0.len()
                        &&& dest1.subrange(0, n as int) == b.take(n as int)
                        &&& post == chunk_rest(pre, n as int)
                    },
                    _ => false,
                }
            },
            SourceEvent::Suspend => {
                &&& r == ReadPoll::<E>::Pending
                &&& post == pre.skip(1)
            },
            SourceEvent::Error(e) => {
                &&& r == ReadPoll::<E>::Failed(e)
                &&& post == pre.skip(1)
            },
        }
    }
}

/// A suspend-capable byte source.
///
/// `events` is the source's remaining behaviour; `poll_read` consumes it
/// from the front as described by [`poll_read_post`].  `preinit` tells
/// whether the destination region must be zero-filled before it is
/// exposed to this source; `true` is the safe default for sources that
/// may read the region before writing it, and `poll_read` demands that
/// zero-filling from every caller.
pub trait Source {
    type Err;

    /// The default model promises nothing beyond an immediate
    /// end-of-stream; a source with a richer contract overrides it.
    open spec fn events(&self) -> Seq<SourceEvent<Self::Err>> {
        Seq::empty()
    }

    /// Zero-filling is the safe default.
    open spec fn preinit(&self) -> bool {
        true
    }

    fn requires_preinit(&self) -> (b: bool)
        ensures
            b == self.preinit(),
    ;

    fn poll_read(&mut self, dest: &mut Vec<u8>) -> (r: ReadPoll<Self::Err>)
        requires
            old(dest)@.len() > 0,
            old(self).preinit() ==> forall|i: int|
                0 <= i < old(dest)@.len() ==> old(dest)@[i] == 0u8,
        ensures
            final(dest)@.len() == old(dest)@.len(),
            final(self).preinit() == old(self).preinit(),
            poll_read_post(old(self).events(), final(self).events(), old(dest)@, final(dest)@, r),
    ;
}

} // verus!
