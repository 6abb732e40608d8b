//! The advertised attribute's value: a byte buffer with a hard
//! capacity bound and the peer-facing offset read/write contract.
//!
//! Reads at or past the end answer with an empty slice. A write at
//! offset zero replaces the whole buffer; a write further in grows the
//! buffer with zero fill as needed and splices the payload over it.
//! A write that would exceed the capacity is rejected outright and
//! leaves the buffer untouched.

use vstd::prelude::*;

verus! {

/// Hard bound on the stored value's length, in bytes.
pub const MAX_ATTRIBUTE_SIZE: usize = 512;

/// How the store answers a peer request.
#[derive(Clone, Copy, PartialEq, Eq, Structural, Debug)]
pub enum RequestStatus {
    Success,
    InvalidOffset,
}

/// `n` zero bytes.
pub open spec fn zero_bytes(n: nat) -> Seq<u8> {
    Seq::new(n, |i: int| 0u8)
}

/// What a read at `offset` answers: the suffix from the offset, empty
/// once the offset reaches the end.
pub open spec fn read_at_spec(s: Seq<u8>, offset: u64) -> Seq<u8> {
    if offset >= s.len() {
        Seq::empty()
    } else {
        s.skip(offset as int)
    }
}

/// Whether a write at `offset` with payload `v` is within capacity.
pub open spec fn write_in_bounds(offset: u64, v: Seq<u8>) -> bool {
    offset <= MAX_ATTRIBUTE_SIZE && offset + v.len() <= MAX_ATTRIBUTE_SIZE
}

/// What an accepted write leaves behind: a wholesale replacement at
/// offset zero; otherwise the buffer, zero-extended so the payload
/// fits, with the payload spliced over `[offset, offset + len)`.
pub open spec fn write_at_spec(s: Seq<u8>, offset: u64, v: Seq<u8>) -> Seq<u8> {
    if offset == 0 {
        v
    } else {
        let end = offset + v.len();
        let base = if end > s.len() {
            s + zero_bytes((end - s.len()) as nat)
        } else {
            s
        };
        base.take(offset as int) + v + base.skip(end as int)
    }
}

/// A read at or past the end of the buffer answers empty.
pub proof fn lemma_read_past_end_empty(s: Seq<u8>, offset: u64)
    requires
        offset >= s.len(),
    ensures
        read_at_spec(s, offset) == Seq::<u8>::empty(),
{
}

/// A write at offset zero replaces the stored value wholesale, even
/// with a shorter payload.
pub proof fn lemma_write_zero_replaces(s: Seq<u8>, v: Seq<u8>)
    ensures
        write_at_spec(s, 0, v) == v,
{
}

/// The one advertised attribute's current value.
pub struct ValueStore {
    data: Vec<u8>,
}

impl View for ValueStore {
    type V = Seq<u8>;

    closed spec fn view(&self) -> Seq<u8> {
        self.data@
    }
}

impl ValueStore {
    /// The capacity bound holds at all times.
    pub open spec fn well_formed(&self) -> bool {
        self@.len() <= MAX_ATTRIBUTE_SIZE
    }

    pub fn new() -> (r: ValueStore)
        ensures
            r@ == Seq::<u8>::empty(),
            r.well_formed(),
    {
        ValueStore { data: Vec::new() }
    }

    pub fn len(&self) -> (r: usize)
        ensures
            r == self@.len(),
    {
        self.data.len()
    }

    pub fn get_value(&self) -> (r: Vec<u8>)
        ensures
            r@ == self@,
    {
        self.data.clone()
    }

    /// Replaces the value wholesale; anything past the capacity is
    /// silently truncated (the local set path gives direct feedback).
    pub fn set_value(&mut self, v: Vec<u8>)
        ensures
            final(self)@ == if v@.len() <= MAX_ATTRIBUTE_SIZE {
                v@
            } else {
                v@.take(MAX_ATTRIBUTE_SIZE as int)
            },
            final(self).well_formed(),
    {
        let mut v = v;
        if v.len() > MAX_ATTRIBUTE_SIZE {
            v.truncate(MAX_ATTRIBUTE_SIZE);
        }
        self.data = v;
    }

    /// Answers a peer read request with offset semantics.
    pub fn read_at(&self, offset: u64) -> (r: Vec<u8>)
        ensures
            r@ == read_at_spec(self@, offset),
    {
        let n = self.data.len();
        if offset >= n as u64 {
            Vec::new()
        } else {
            let start = offset as usize;
            let mut r: Vec<u8> = Vec::new();
            let mut i: usize = start;
            while i < n
                invariant
                    start <= i <= n,
                    n == self@.len(),
                    start < n,
                    r@ == self@.subrange(start as int, i as int),
                decreases n - i,
            {
                r.push(self.data[i]);
                proof {
                    assert(r@ =~= self@.subrange(start as int, i + 1 as int));
                }
                i = i + 1;
            }
            proof {
                assert(self@.subrange(start as int, n as int) =~= self@.skip(start as int));
            }
            r
        }
    }

    /// Applies a peer write request. A write that would exceed the
    /// capacity is answered `InvalidOffset` and changes nothing.
    pub fn write_at(&mut self, offset: u64, v: &Vec<u8>) -> (r: RequestStatus)
        requires
            old(self).well_formed(),
        ensures
            final(self).well_formed(),
            r == RequestStatus::Success <==> write_in_bounds(offset, v@),
            write_in_bounds(offset, v@) ==> final(self)@ == write_at_spec(old(self)@, offset, v@),
            !write_in_bounds(offset, v@) ==> final(self)@ == old(self)@,
    {
        if offset > MAX_ATTRIBUTE_SIZE as u64 {
            return RequestStatus::InvalidOffset;
        }
        let off = offset as usize;
        if v.len() > MAX_ATTRIBUTE_SIZE - off {
            return RequestStatus::InvalidOffset;
        }
        if off == 0 {
            self.data = v.clone();
            return RequestStatus::Success;
        }
        let end = off + v.len();
        let ghost base = if end > self@.len() {
            self@ + zero_bytes((end - self@.len()) as nat)
        } else {
            self@
        };
        let ghost s0 = self@;
        proof {
            assert(self@ =~= s0 + zero_bytes(0));
        }
        while self.data.len() < end
            invariant
                self.data@.len() >= s0.len(),
                self.data@.len() <= end || self.data@.len() == s0.len(),
                self.data@ == s0 + zero_bytes((self.data@.len() - s0.len()) as nat),
            decreases end - self.data@.len(),
        {
            self.data.push(0u8);
            proof {
                assert(self.data@ =~= s0 + zero_bytes((self.data@.len() - s0.len()) as nat));
            }
        }
        proof {
            assert(self.data@ =~= base);
            assert(self.data@ =~= base.take(off as int) + v@.take(0) + base.skip(off as int));
        }
        let mut i: usize = 0;
        while i < v.len()
            invariant
                i <= v@.len(),
                off + v@.len() == end,
                end <= self.data@.len(),
                self.data@.len() == base.len(),
                self.data@ == base.take(off as int) + v@.take(i as int) + base.skip(off + i as int),
            decreases v@.len() - i,
        {
            let idx = off + i;
            self.data[idx] = v[i];
            proof {
                assert(self.data@ =~= base.take(off as int) + v@.take(i + 1 as int) + base.skip(
                    off + i + 1 as int,
                ));
            }
            i = i + 1;
        }
        proof {
            assert(v@.take(v@.len() as int) =~= v@);
            assert(self.data@ =~= base.take(off as int) + v@ + base.skip(end as int));
        }
        RequestStatus::Success
    }
}

} // verus!
