//! The adaptive drain loop: grow the buffer's spare capacity, attempt a
//! read into it, and commit, terminate or report suspension.
//!
//! One call of [`read_to_end_internal`] plays the source until it
//! suspends, reaches end-of-stream or fails; its whole effect on the
//! buffer and the source is pinned down by the spec functions below over
//! the source's event model.  Progress lives only in the buffer's
//! committed length, so the caller resumes simply by calling again.

use vstd::prelude::*;

use crate::buffer::ByteBuffer;
use crate::source::{ReadPoll, Source, SourceEvent};

verus! {

/// The outcome of one resumption of the drain operation.
pub enum DrainStatus<E> {
    Pending,
    Done,
    Failed(E),
}

/// How one resumption ends, given the source's remaining events: it runs
/// through leading chunks until a suspension (`Pending`), an explicit or
/// implicit end-of-stream (`Done`), or an error (`Failed`).
pub open spec fn resume_status<E>(evs: Seq<SourceEvent<E>>) -> DrainStatus<E>
    decreases evs.len(),
{
    if evs.len() == 0 {
        DrainStatus::Done
    } else {
        match evs[0] {
            SourceEvent::Bytes(b) => if b.len() == 0 {
                DrainStatus::Done
            } else {
                resume_status(evs.skip(1))
            },
            SourceEvent::Suspend => DrainStatus::Pending,
            SourceEvent::Error(e) => DrainStatus::Failed(e),
        }
    }
}

/// The bytes one resumption commits: the concatenation of the leading
/// chunks, up to the first suspension, end-of-stream or error.
pub open spec fn resume_bytes<E>(evs: Seq<SourceEvent<E>>) -> Seq<u8>
    decreases evs.len(),
{
    if evs.len() == 0 {
        Seq::empty()
    } else {
        match evs[0] {
            SourceEvent::Bytes(b) => if b.len() == 0 {
                Seq::empty()
            } else {
                b + resume_bytes(evs.skip(1))
            },
            SourceEvent::Suspend => Seq::empty(),
            SourceEvent::Error(_) => Seq::empty(),
        }
    }
}

/// The events left for later resumptions after one resumption ends.
pub open spec fn resume_rest<E>(evs: Seq<SourceEvent<E>>) -> Seq<SourceEvent<E>>
    decreases evs.len(),
{
    if evs.len() == 0 {
        evs
    } else {
        match evs[0] {
            SourceEvent::Bytes(b) => if b.len() == 0 {
                evs.skip(1)
            } else {
                resume_rest(evs.skip(1))
            },
            SourceEvent::Suspend => evs.skip(1),
            SourceEvent::Error(_) => evs.skip(1),
        }
    }
}

/// The bytes committed over *all* resumptions: the concatenation of every
/// chunk before the first end-of-stream or error, suspensions skipped.
pub open spec fn drained_bytes<E>(evs: Seq<SourceEvent<E>>) -> Seq<u8>
    decreases evs.len(),
{
    if evs.len() == 0 {
        Seq::empty()
    } else {
        match evs[0] {
            SourceEvent::Bytes(b) => if b.len() == 0 {
                Seq::empty()
            } else {
                b + drained_bytes(evs.skip(1))
            },
            SourceEvent::Suspend => drained_bytes(evs.skip(1)),
            SourceEvent::Error(_) => Seq::empty(),
        }
    }
}

/// The terminal outcome over all resumptions: `Done` at the first
/// end-of-stream, `Failed` at the first error.  Never `Pending`.
pub open spec fn drained_status<E>(evs: Seq<SourceEvent<E>>) -> DrainStatus<E>
    decreases evs.len(),
{
    if evs.len() == 0 {
        DrainStatus::Done
    } else {
        match evs[0] {
            SourceEvent::Bytes(b) => if b.len() == 0 {
                DrainStatus::Done
            } else {
                drained_status(evs.skip(1))
            },
            SourceEvent::Suspend => drained_status(evs.skip(1)),
            SourceEvent::Error(e) => DrainStatus::Failed(e),
        }
    }
}

/// What one read attempt does to the resumption model: a successful read
/// of `n > 0` bytes moves exactly those bytes out of `resume_bytes` and
/// changes neither the resumption's outcome nor what is left for later
/// resumptions; every other report ends the resumption with the outcome
/// `resume_status` names, having committed nothing further.
proof fn lemma_poll_step<E>(
    pre: Seq<SourceEvent<E>>,
    post: Seq<SourceEvent<E>>,
    dest0: Seq<u8>,
    dest1: Seq<u8>,
    r: ReadPoll<E>,
)
    requires
        crate::source::poll_read_post(pre, post, dest0, dest1, r),
    ensures
        match r {
            ReadPoll::Ready(n) => if n == 0 {
                &&& resume_status(pre) == DrainStatus::<E>::Done
                &&& resume_bytes(pre) == Seq::<u8>::empty()
                &&& post == resume_rest(pre)
            } else {
                &&& resume_bytes(pre) == dest1.subrange(0, n as int) + resume_bytes(post)
                &&& resume_status(post) == resume_status(pre)
                &&& resume_rest(post) == resume_rest(pre)
            },
            ReadPoll::Pending => {
                &&& resume_status(pre) == DrainStatus::<E>::Pending
                &&& resume_bytes(pre) == Seq::<u8>::empty()
                &&& post == resume_rest(pre)
            },
            ReadPoll::Failed(e) => {
                &&& resume_status(pre) == DrainStatus::<E>::Failed(e)
                &&& resume_bytes(pre) == Seq::<u8>::empty()
                &&& post == resume_rest(pre)
            },
        },
{
    if pre.len() == 0 {
        return;
    }
    match pre[0] {
        SourceEvent::Bytes(b) => {
            if b.len() == 0 {
            } else {
                match r {
                    ReadPoll::Ready(n) => {
                        assert(n >= 1);
                        if n == b.len() {
                            assert(post == pre.skip(1));
                            assert(b.take(n as int) =~= b);
                            assert(resume_bytes(pre) == b + resume_bytes(post));
                        } else {
                            let tail = seq![SourceEvent::<E>::Bytes(b.skip(n as int))];
                            assert(post == tail + pre.skip(1));
                            assert(post[0] == SourceEvent::<E>::Bytes(b.skip(n as int)));
                            assert(post.skip(1) =~= pre.skip(1));
                            assert(b.skip(n as int).len() > 0);
                            assert(resume_bytes(post) == b.skip(n as int) + resume_bytes(
                                pre.skip(1),
                            ));
                            assert(b.take(n as int) + b.skip(n as int) =~= b);
                            assert(b.take(n as int) + (b.skip(n as int) + resume_bytes(
                                pre.skip(1),
                            )) =~= (b.take(n as int) + b.skip(n as int)) + resume_bytes(
                                pre.skip(1),
                            ));
                            assert(resume_status(post) == resume_status(pre.skip(1)));
                            assert(resume_rest(post) == resume_rest(pre.skip(1)));
                        }
                        assert(dest1.subrange(0, n as int) == b.take(n as int));
                    },
                    _ => {
                        assert(false);
                    },
                }
            }
        },
        SourceEvent::Suspend => {},
        SourceEvent::Error(_) => {},
    }
}

/// One resumption decomposes the total drain: a resumption that suspends
/// commits a prefix of the total bytes and leaves a model whose drain
/// yields the remainder with the same terminal outcome; a resumption that
/// terminates commits the total and ends with the terminal outcome.
pub proof fn lemma_resume_decomposition<E>(evs: Seq<SourceEvent<E>>)
    ensures
        resume_status(evs) is Pending ==> {
            &&& drained_bytes(evs) == resume_bytes(evs) + drained_bytes(resume_rest(evs))
            &&& drained_status(evs) == drained_status(resume_rest(evs))
            &&& resume_rest(evs).len() < evs.len()
        },
        !(resume_status(evs) is Pending) ==> {
            &&& drained_bytes(evs) == resume_bytes(evs)
            &&& drained_status(evs) == resume_status(evs)
        },
    decreases evs.len(),
{
    if evs.len() == 0 {
        return;
    }
    match evs[0] {
        SourceEvent::Bytes(b) => {
            if b.len() == 0 {
            } else {
                lemma_resume_decomposition(evs.skip(1));
                if resume_status(evs) is Pending {
                    assert(b + (resume_bytes(evs.skip(1)) + drained_bytes(
                        resume_rest(evs.skip(1)),
                    )) =~= (b + resume_bytes(evs.skip(1))) + drained_bytes(
                        resume_rest(evs.skip(1)),
                    ));
                }
            }
        },
        SourceEvent::Suspend => {
            assert(resume_bytes(evs) + drained_bytes(resume_rest(evs)) =~= drained_bytes(
                evs.skip(1),
            ));
        },
        SourceEvent::Error(_) => {},
    }
}

/// Drains `src` into `buf` until it suspends, reaches end-of-stream or
/// fails.  The committed bytes are appended to the buffer's contents in
/// the order the source produced them; at return — whatever the path —
/// the buffer shows exactly its original bytes followed by the bytes
/// committed so far, never any spare storage.
pub fn read_to_end_internal<S: Source>(src: &mut S, buf: &mut ByteBuffer) -> (r: DrainStatus<
    S::Err,
>)
    requires
        old(buf).well_formed(),
        old(buf)@.len() + resume_bytes(old(src).events()).len() < usize::MAX,
    ensures
        final(buf).well_formed(),
        r == resume_status(old(src).events()),
        final(buf)@ == old(buf)@ + resume_bytes(old(src).events()),
        final(buf)@.len() == old(buf)@.len() + resume_bytes(old(src).events()).len(),
        final(src).events() == resume_rest(old(src).events()),
        final(src).preinit() == old(src).preinit(),
        final(buf).spec_capacity() >= old(buf).spec_capacity(),
        final(buf).spec_capacity() <= vstd::math::max(
            old(buf).spec_capacity() as int,
            vstd::math::max(64, 2 * final(buf)@.len() as int),
        ),
{
    loop
        invariant
            buf.well_formed(),
            buf@.len() + resume_bytes(src.events()).len() < usize::MAX,
            old(buf)@ + resume_bytes(old(src).events()) == buf@ + resume_bytes(src.events()),
            resume_status(src.events()) == resume_status(old(src).events()),
            resume_rest(src.events()) == resume_rest(old(src).events()),
            src.preinit() == old(src).preinit(),
            buf.spec_capacity() >= old(buf).spec_capacity(),
            buf.spec_capacity() <= vstd::math::max(
                old(buf).spec_capacity() as int,
                vstd::math::max(64, 2 * buf@.len() as int),
            ),
        decreases resume_bytes(src.events()).len(),
    {
        let len = buf.len();
        if len == buf.capacity() {
            buf.grow();
        }
        let preinit = src.requires_preinit();
        let mut dest = buf.take_spare(preinit);
        let ghost dest0 = dest@;
        let ghost pre = src.events();
        let r = src.poll_read(&mut dest);
        proof {
            lemma_poll_step(pre, src.events(), dest0, dest@, r);
        }
        match r {
            ReadPoll::Ready(n) => {
                if n == 0 {
                    buf.put_spare(dest, 0);
                    proof {
                        assert(buf@ =~= old(buf)@ + resume_bytes(old(src).events()));
                    }
                    return DrainStatus::Done;
                } else {
                    buf.put_spare(dest, n);
                    proof {
                        assert(buf@ + resume_bytes(src.events()) =~= old(buf)@ + resume_bytes(
                            old(src).events(),
                        ));
                    }
                }
            },
            ReadPoll::Pending => {
                buf.put_spare(dest, 0);
                proof {
                    assert(buf@ =~= old(buf)@ + resume_bytes(old(src).events()));
                }
                return DrainStatus::Pending;
            },
            ReadPoll::Failed(e) => {
                buf.put_spare(dest, 0);
                proof {
                    assert(buf@ =~= old(buf)@ + resume_bytes(old(src).events()));
                }
                return DrainStatus::Failed(e);
            },
        }
    }
}

/// Resumes the drain until it reaches a terminal outcome, as a
/// cooperative scheduler would.  The final buffer content is the original
/// content followed by the concatenation of every chunk the source
/// produced before its end-of-stream or error, in order; the result is
/// the terminal outcome itself, never a suspension.
pub fn drain_to_end<S: Source>(src: &mut S, buf: &mut ByteBuffer) -> (r: DrainStatus<S::Err>)
    requires
        old(buf).well_formed(),
        old(buf)@.len() + drained_bytes(old(src).events()).len() < usize::MAX,
    ensures
        final(buf).well_formed(),
        !(r is Pending),
        r == drained_status(old(src).events()),
        final(buf)@ == old(buf)@ + drained_bytes(old(src).events()),
        final(buf)@.len() == old(buf)@.len() + drained_bytes(old(src).events()).len(),
        final(src).preinit() == old(src).preinit(),
        final(buf).spec_capacity() >= old(buf).spec_capacity(),
        final(buf).spec_capacity() <= vstd::math::max(
            old(buf).spec_capacity() as int,
            vstd::math::max(64, 2 * final(buf)@.len() as int),
        ),
{
    loop
        invariant
            buf.well_formed(),
            buf@.len() + drained_bytes(src.events()).len() < usize::MAX,
            old(buf)@ + drained_bytes(old(src).events()) == buf@ + drained_bytes(src.events()),
            drained_status(src.events()) == drained_status(old(src).events()),
            src.preinit() == old(src).preinit(),
            buf.spec_capacity() >= old(buf).spec_capacity(),
            buf.spec_capacity() <= vstd::math::max(
                old(buf).spec_capacity() as int,
                vstd::math::max(64, 2 * buf@.len() as int),
            ),
        decreases src.events().len(),
    {
        proof {
            lemma_resume_decomposition(src.events());
        }
        let ghost pre = src.events();
        let r = read_to_end_internal(src, buf);
        match r {
            DrainStatus::Pending => {
                proof {
                    assert(buf@ + drained_bytes(src.events()) =~= old(buf)@ + drained_bytes(
                        old(src).events(),
                    ));
                }
            },
            DrainStatus::Done => {
                return DrainStatus::Done;
            },
            DrainStatus::Failed(e) => {
                return DrainStatus::Failed(e);
            },
        }
    }
}


} // verus!
