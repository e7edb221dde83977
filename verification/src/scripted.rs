//! A source that replays a fixed script of outcomes.
//!
//! Every step of the script is delivered exactly as the model in
//! [`crate::source`] prescribes, so the drain operation's contracts can
//! be exercised end to end on concrete data: chunks of arbitrary size,
//! suspensions, an error, or an explicit end-of-stream mark (an empty
//! chunk).  A chunk that does not fit the offered region is delivered
//! across several read attempts.

use vstd::prelude::*;

use crate::source::{ReadPoll, Source, SourceEvent};

verus! {

/// One scripted outcome: a chunk of bytes (empty means end-of-stream), a
/// suspension, or a failure with an error code.
pub enum ScriptStep {
    Chunk(Vec<u8>),
    Suspend,
    Fail(u64),
}

/// The model event a script step stands for.
pub open spec fn step_event(s: ScriptStep) -> SourceEvent<u64> {
    match s {
        ScriptStep::Chunk(v) => SourceEvent::Bytes(v@),
        ScriptStep::Suspend => SourceEvent::Suspend,
        ScriptStep::Fail(e) => SourceEvent::Error(e),
    }
}

/// The event sequence a whole script stands for.
pub open spec fn script_events(steps: Seq<ScriptStep>) -> Seq<SourceEvent<u64>> {
    steps.map(|i: int, s: ScriptStep| step_event(s))
}

/// A [`Source`] that yields the steps of a script, front to back.
pub struct ScriptedSource {
    steps: Vec<ScriptStep>,
    preinit_flag: bool,
}

impl ScriptedSource {
    /// A source that will replay `steps` in order and, once they are
    /// exhausted, keep reporting end-of-stream.  `preinit` declares
    /// whether the source insists on a zero-filled destination region.
    pub fn new(steps: Vec<ScriptStep>, preinit: bool) -> (s: ScriptedSource)
        ensures
            s.events() == script_events(steps@),
            s.preinit() == preinit,
    {
        ScriptedSource { steps, preinit_flag: preinit }
    }
}

/// Copies the first `n` bytes of `from` over the first `n` bytes of
/// `dest`, leaving the rest of `dest` as it was.
fn copy_prefix(dest: &mut Vec<u8>, from: &Vec<u8>, n: usize)
    requires
        n <= old(dest)@.len(),
        n <= from@.len(),
    ensures
        final(dest)@.len() == old(dest)@.len(),
        final(dest)@.subrange(0, n as int) == from@.take(n as int),
        final(dest)@.skip(n as int) == old(dest)@.skip(n as int),
{
    let mut i: usize = 0;
    while i < n
        invariant
            i <= n,
            n <= from@.len(),
            dest@.len() == old(dest)@.len(),
            n <= dest@.len(),
            forall|j: int| 0 <= j < i ==> dest@[j] == from@[j],
            forall|j: int| i <= j < dest@.len() ==> dest@[j] == old(dest)@[j],
        decreases n - i,
    {
        let b = from[i];
        dest[i] = b;
        i = i + 1;
    }
    proof {
        assert(dest@.subrange(0, n as int) =~= from@.take(n as int));
        assert(dest@.skip(n as int) =~= old(dest)@.skip(n as int));
    }
}

impl Source for ScriptedSource {
    type Err = u64;

    closed spec fn events(&self) -> Seq<SourceEvent<u64>> {
        script_events(self.steps@)
    }

    closed spec fn preinit(&self) -> bool {
        self.preinit_flag
    }

    fn requires_preinit(&self) -> (b: bool) {
        self.preinit_flag
    }

    fn poll_read(&mut self, dest: &mut Vec<u8>) -> (r: ReadPoll<u64>) {
        let ghost pre = self.events();
        if self.steps.len() == 0 {
            proof {
                assert(pre.len() == 0);
            }
            return ReadPoll::Ready(0);
        }
        let step = self.steps.remove(0);
        proof {
            assert(self.steps@ =~= old(self).steps@.skip(1));
            assert(self.events() =~= pre.skip(1));
            assert(pre[0] == step_event(step));
        }
        match step {
            ScriptStep::Suspend => ReadPoll::Pending,
            ScriptStep::Fail(e) => ReadPoll::Failed(e),
            ScriptStep::Chunk(c) => {
                let ghost b = c@;
                if c.len() == 0 {
                    ReadPoll::Ready(0)
                } else {
                    let n = if c.len() <= dest.len() { c.len() } else { dest.len() };
                    copy_prefix(dest, &c, n);
                    if n < c.len() {
                        let mut tail_src = c;
                        let rest = tail_src.split_off(n);
                        proof {
                            assert(rest@ =~= b.skip(n as int));
                        }
                        self.steps.insert(0, ScriptStep::Chunk(rest));
                        proof {
                            assert(self.steps@ =~= seq![ScriptStep::Chunk(rest)]
                                + old(self).steps@.skip(1));
                            assert(self.events() =~= seq![SourceEvent::<u64>::Bytes(b.skip(n as int))]
                                + pre.skip(1));
                            assert(self.events() == crate::source::chunk_rest(pre, n as int));
                        }
                    } else {
                        proof {
                            assert(b.take(n as int) =~= b);
                        }
                    }
                    ReadPoll::Ready(n)
                }
            },
        }
    }
}

} // verus!
