//! The append-only accumulators that record what a connection has exchanged.

use vstd::prelude::*;
use crate::config::MAX_SPDM_MESSAGE_BUFFER_SIZE;
use crate::error::{SpdmResult, SpdmStatus};

verus! {

/// One transcript accumulator: the bytes appended so far, in order, within a fixed capacity.
#[derive(Clone, Copy, Debug)]
pub struct ManagedBuffer {
    used: usize,
    data: [u8; MAX_SPDM_MESSAGE_BUFFER_SIZE],
}

impl View for ManagedBuffer {
    type V = Seq<u8>;

    /// The bytes recorded so far.
    closed spec fn view(&self) -> Seq<u8> {
        self.data@.subrange(0, self.used as int)
    }
}

impl ManagedBuffer {
    #[verifier::type_invariant]
    spec fn inv(self) -> bool {
        self.used <= MAX_SPDM_MESSAGE_BUFFER_SIZE
    }

    /// What appending `bytes` to a record of `before` gives: the longer record, or the
    /// refusal when the capacity would be passed.
    pub open spec fn spec_append(before: Seq<u8>, bytes: Seq<u8>) -> Option<Seq<u8>> {
        if before.len() + bytes.len() <= MAX_SPDM_MESSAGE_BUFFER_SIZE {
            Some(before + bytes)
        } else {
            None
        }
    }

    pub fn new() -> (r: Self)
        ensures
            r@ == Seq::<u8>::empty(),
    {
        let r = ManagedBuffer { used: 0, data: [0u8; MAX_SPDM_MESSAGE_BUFFER_SIZE] };
        assert(r@ =~= Seq::<u8>::empty());
        r
    }

    /// Record `bytes` after what is there. With too little room nothing is recorded.
    pub fn append_message(&mut self, bytes: &[u8]) -> (r: SpdmResult<usize>)
        ensures
            Self::spec_append(old(self)@, bytes@) matches Some(after) ==> r == Ok::<
                usize,
                SpdmStatus,
            >(bytes@.len() as usize) && final(self)@ == after,
            Self::spec_append(old(self)@, bytes@) is None ==> r == Err::<usize, SpdmStatus>(
                SpdmStatus::BufferFull,
            ) && *final(self) == *old(self),
    {
        proof {
            use_type_invariant(&*self);
        }
        let start: usize = self.used;
        if MAX_SPDM_MESSAGE_BUFFER_SIZE - start < bytes.len() {
            return Err(SpdmStatus::BufferFull);
        }
        let mut i: usize = 0;
        while i < bytes.len()
            invariant
                i <= bytes@.len(),
                start == old(self).used,
                self.used == start,
                start + bytes@.len() <= MAX_SPDM_MESSAGE_BUFFER_SIZE,
                forall|j: int| 0 <= j < start ==> self.data@[j] == old(self).data@[j],
                forall|j: int| 0 <= j < i ==> self.data@[start + j] == bytes@[j],
            decreases bytes@.len() - i,
        {
            self.data[start + i] = bytes[i];
            i = i + 1;
        }
        self.used = start + bytes.len();
        assert(self@ =~= old(self)@ + bytes@);
        Ok(bytes.len())
    }

    /// Forget everything recorded.
    pub fn reset_message(&mut self)
        ensures
            final(self)@ == Seq::<u8>::empty(),
    {
        self.used = 0;
        assert(self@ =~= Seq::<u8>::empty());
    }

    pub fn as_ref(&self) -> (r: &[u8])
        ensures
            r@ == self@,
            r@.len() <= MAX_SPDM_MESSAGE_BUFFER_SIZE,
    {
        proof {
            use_type_invariant(self);
        }
        vstd::slice::slice_subrange(self.data.as_slice(), 0, self.used)
    }

    pub fn len(&self) -> (n: usize)
        ensures
            n == self@.len(),
            n <= MAX_SPDM_MESSAGE_BUFFER_SIZE,
    {
        proof {
            use_type_invariant(self);
        }
        self.used
    }

    /// Whether `n` more bytes can be recorded.
    pub fn has_room(&self, n: usize) -> (b: bool)
        ensures
            b == (self@.len() + n <= MAX_SPDM_MESSAGE_BUFFER_SIZE),
    {
        proof {
            use_type_invariant(self);
        }
        n <= MAX_SPDM_MESSAGE_BUFFER_SIZE - self.used
    }
}

impl Default for ManagedBuffer {
    fn default() -> (r: Self)
        ensures
            r@ == Seq::<u8>::empty(),
    {
        ManagedBuffer::new()
    }
}

/// Appending never loses what was recorded, and a refused append leaves the record as it
/// was: what is recorded afterwards starts with what was recorded before.
pub proof fn lemma_append_extends(before: Seq<u8>, bytes: Seq<u8>)
    ensures
        ManagedBuffer::spec_append(before, bytes) matches Some(after) ==> after.len()
            == before.len() + bytes.len() && after.subrange(0, before.len() as int) == before
            && after.subrange(before.len() as int, after.len() as int) == bytes,
        ManagedBuffer::spec_append(before, bytes) is None <==> before.len() + bytes.len()
            > MAX_SPDM_MESSAGE_BUFFER_SIZE,
{
    if ManagedBuffer::spec_append(before, bytes) is Some {
        let after = before + bytes;
        assert(after.subrange(0, before.len() as int) =~= before);
        assert(after.subrange(before.len() as int, after.len() as int) =~= bytes);
    }
}

} // verus!
