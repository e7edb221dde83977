//! A growable byte buffer that keeps committed bytes strictly apart from
//! its spare capacity.
//!
//! Only the committed prefix is ever visible through the buffer's view;
//! the storage beyond it holds stale bytes that no caller can observe.
//! The spare region is handed out as a separate vector
//! ([`ByteBuffer::take_spare`]) and merged back with an explicit count of
//! newly committed bytes ([`ByteBuffer::put_spare`]), so a read attempt
//! that is abandoned on any path leaves the visible contents unchanged.

use vstd::prelude::*;

verus! {

/// The capacity reached by one growth step from capacity `c`: at least 32
/// more bytes, and at least double, saturating at the address-space limit.
pub open spec fn grown_capacity(c: nat) -> nat {
    let want = if c < 32 { c + 32 } else { 2 * c };
    if want <= usize::MAX { want } else { usize::MAX as nat }
}

/// The storage reached after `k` growth steps from capacity `c`.
pub open spec fn grown_after(c: nat, k: nat) -> nat
    decreases k,
{
    if k == 0 {
        c
    } else {
        grown_capacity(grown_after(c, (k - 1) as nat))
    }
}

/// The growth policy is exponential: after `k + 1` growth steps from an
/// empty buffer the capacity is at least `2^(k + 5)` bytes (or the
/// address-space limit), so a final payload of size `S` is reached
/// within about `log2(S)` growth steps rather than `S / 32` of them.
pub proof fn lemma_growth_exponential(k: nat)
    ensures
        grown_after(0, k + 1) >= vstd::arithmetic::power2::pow2(k + 5) || grown_after(0, k + 1)
            == usize::MAX,
    decreases k,
{
    vstd::arithmetic::power2::lemma2_to64();
    if k == 0 {
        assert(grown_after(0, 0) == 0);
        assert(grown_after(0, 1) == grown_capacity(0));
    } else {
        vstd::arithmetic::power2::lemma_pow2_unfold(k + 5);
        lemma_growth_exponential((k - 1) as nat);
        let g = grown_after(0, k);
        assert(grown_after(0, k + 1) == grown_capacity(g));
        if g == usize::MAX {
            assert(grown_capacity(g) == usize::MAX);
        } else {
            assert(g >= vstd::arithmetic::power2::pow2(k + 4));
            if k + 4 > 5 {
                vstd::arithmetic::power2::lemma_pow2_strictly_increases(5, k + 4);
            }
            assert(g >= 32);
        }
    }
}

/// Corollary: to make room for any payload of `s <= 2^(k + 5)` bytes,
/// `k + 1` growth steps from an empty buffer suffice — growth operations
/// are logarithmic in the final payload, not linear.
pub proof fn lemma_growth_count_logarithmic(s: nat, k: nat)
    requires
        s <= vstd::arithmetic::power2::pow2(k + 5),
        s <= usize::MAX,
    ensures
        grown_after(0, k + 1) >= s,
{
    lemma_growth_exponential(k);
}

/// An owned, growable sequence of bytes.  The view shows exactly the
/// committed bytes; capacity beyond them is storage the drain operation
/// may expose to a source before committing.
pub struct ByteBuffer {
    data: Vec<u8>,
    len: usize,
}

impl View for ByteBuffer {
    type V = Seq<u8>;

    closed spec fn view(&self) -> Seq<u8> {
        self.data@.take(self.len as int)
    }
}

impl ByteBuffer {
    /// The committed length never exceeds the allocated storage.
    pub closed spec fn well_formed(&self) -> bool {
        &&& self.len <= self.data@.len()
        &&& self.data@.len() <= usize::MAX
    }

    /// Bytes of underlying storage, committed or not.
    pub closed spec fn spec_capacity(&self) -> nat {
        self.data@.len()
    }

    /// The whole underlying storage: the committed bytes first, then the
    /// stale spare bytes that no view ever shows.
    pub closed spec fn spec_storage(&self) -> Seq<u8> {
        self.data@
    }

    pub fn new() -> (b: ByteBuffer)
        ensures
            b.well_formed(),
            b@ == Seq::<u8>::empty(),
            b.spec_capacity() == 0,
            b.spec_storage() == Seq::<u8>::empty(),
    {
        let b = ByteBuffer { data: Vec::new(), len: 0 };
        proof {
            assert(b@ =~= Seq::<u8>::empty());
        }
        b
    }

    /// Wraps already-valid bytes: all of `v` is committed.
    pub fn from_vec(v: Vec<u8>) -> (b: ByteBuffer)
        ensures
            b.well_formed(),
            b@ == v@,
            b.spec_capacity() == v@.len(),
            b.spec_storage() == v@,
    {
        let n = v.len();
        let b = ByteBuffer { data: v, len: n };
        proof {
            assert(b@ =~= b.data@);
        }
        b
    }

    /// Gives back the committed bytes, discarding spare storage.
    pub fn into_vec(self) -> (v: Vec<u8>)
        requires
            self.well_formed(),
        ensures
            v@ == self@,
    {
        let mut d = self.data;
        d.truncate(self.len);
        d
    }

    pub fn len(&self) -> (n: usize)
        requires
            self.well_formed(),
        ensures
            n == self@.len(),
    {
        self.len
    }

    pub fn capacity(&self) -> (n: usize)
        requires
            self.well_formed(),
        ensures
            n == self.spec_capacity(),
    {
        self.data.len()
    }

    /// One adaptive growth step: reserve at least 32 further bytes, at
    /// least doubling the storage, without touching committed bytes.
    pub fn grow(&mut self)
        requires
            old(self).well_formed(),
        ensures
            final(self).well_formed(),
            final(self)@ == old(self)@,
            final(self).spec_capacity() == grown_capacity(old(self).spec_capacity()),
            final(self).spec_storage() == old(self).spec_storage() + Seq::new(
                (final(self).spec_capacity() - old(self).spec_capacity()) as nat,
                |i: int| 0u8,
            ),
    {
        let cap = self.data.len();
        let target: usize = if cap < 32 {
            cap + 32
        } else if cap <= usize::MAX / 2 {
            2 * cap
        } else {
            usize::MAX
        };
        assert(target == grown_capacity(old(self).spec_capacity()));
        while self.data.len() < target
            invariant
                self.len == old(self).len,
                self.data@.len() <= target,
                old(self).data@.len() <= self.data@.len(),
                self.data@.subrange(0, old(self).data@.len() as int) == old(self).data@,
                forall|j: int|
                    old(self).data@.len() <= j < self.data@.len() ==> self.data@[j] == 0u8,
            decreases target - self.data@.len(),
        {
            self.data.push(0u8);
            proof {
                assert(self.data@.subrange(0, old(self).data@.len() as int)
                    =~= old(self).data@);
            }
        }
        proof {
            assert(self@ =~= old(self)@);
            assert(self.data@ =~= old(self).data@ + Seq::new(
                (self.data@.len() - old(self).data@.len()) as nat,
                |i: int| 0u8,
            ));
        }
    }

    /// Detaches the spare region as a vector of its own, leaving only the
    /// committed bytes behind.  With `zeroed` the region is pre-filled
    /// with zeros (the safe default demanded by untrusted sources);
    /// without it the stale bytes are handed out exactly as they are —
    /// nothing is written into them first.
    pub fn take_spare(&mut self, zeroed: bool) -> (dest: Vec<u8>)
        requires
            old(self).well_formed(),
        ensures
            final(self).well_formed(),
            final(self)@ == old(self)@,
            final(self).spec_capacity() == final(self)@.len(),
            final(self).spec_storage() == old(self)@,
            dest@.len() == old(self).spec_capacity() - old(self)@.len(),
            old(self)@.len() + dest@.len() <= usize::MAX,
            zeroed ==> forall|i: int| 0 <= i < dest@.len() ==> dest@[i] == 0u8,
            !zeroed ==> dest@ == old(self).spec_storage().skip(old(self)@.len() as int),
    {
        let spare = self.data.split_off(self.len);
        proof {
            assert(self@ =~= old(self)@);
            assert(old(self)@.len() == self.len as int);
        }
        if zeroed {
            let n = spare.len();
            let mut z: Vec<u8> = Vec::new();
            while z.len() < n
                invariant
                    z@.len() <= n,
                    forall|i: int| 0 <= i < z@.len() ==> z@[i] == 0u8,
                decreases n - z@.len(),
            {
                z.push(0u8);
            }
            z
        } else {
            spare
        }
    }

    /// Re-attaches a spare region taken with [`ByteBuffer::take_spare`],
    /// committing exactly its first `n` bytes; the rest returns to being
    /// invisible spare storage.
    pub fn put_spare(&mut self, dest: Vec<u8>, n: usize)
        requires
            old(self).well_formed(),
            old(self).spec_capacity() == old(self)@.len(),
            n <= dest@.len(),
            old(self)@.len() + dest@.len() <= usize::MAX,
        ensures
            final(self).well_formed(),
            final(self)@ == old(self)@ + dest@.take(n as int),
            final(self).spec_capacity() == old(self).spec_capacity() + dest@.len(),
            final(self).spec_storage() == old(self)@ + dest@,
    {
        let ghost dseq = dest@;
        let mut d = dest;
        self.data.append(&mut d);
        proof {
            assert(old(self).data@.take(old(self).len as int) =~= old(self).data@);
        }
        self.len = self.len + n;
        proof {
            assert(self@ =~= old(self)@ + dseq.take(n as int));
            assert(self.data@ =~= old(self)@ + dseq);
        }
    }
}

} // verus!
