//! Bounded-buffer adapter: a caller-supplied fixed-length region.

use crate::{ConstWrite, ConstWriterAdapter, ConstWriterAdapterCreate};
use vstd::prelude::*;

verus! {

broadcast use vstd::std_specs::vec::group_vec_axioms;

/// Adapter over a fixed-length byte region.
///
/// The region's length never changes: bytes before the cursor are the bytes
/// written so far, and bytes from the cursor on still hold the region's
/// starting content.  Overflowing the region is impossible rather than
/// truncated: creation demands that the declared budget fits, and growing is
/// nothing but that same bound restated for the bytes left past the cursor.
/// Releasing hands the whole region back, written prefix first.
pub struct SliceWriterAdapter {
    buf: Vec<u8>,
    cursor: usize,
    start: Ghost<Seq<u8>>,
}

impl ConstWriterAdapter for SliceWriterAdapter {
    closed spec fn wf(&self) -> bool {
        &&& self.cursor as nat <= self.buf@.len()
        &&& self.buf@.len() == self.start@.len()
        &&& forall|j: int|
            self.cursor <= j < self.buf@.len() ==> #[trigger] self.buf@[j] == self.start@[j]
    }

    closed spec fn init(&self) -> Seq<u8> {
        self.start@
    }

    closed spec fn written(&self) -> Seq<u8> {
        self.buf@.take(self.cursor as int)
    }

    closed spec fn headroom(&self) -> nat {
        (self.buf@.len() - self.cursor) as nat
    }

    fn write(self, value: &[u8]) -> (r: Self) {
        let ghost orig = self;
        let mut s = self;
        proof {
            assert(s.buf@.len() <= usize::MAX) by {
                assert(s.buf.len() == s.buf@.len());
            }
        }
        let len = value.len();
        let mut i: usize = 0;
        while i < len
            invariant
                i <= len,
                len == value@.len(),
                orig.wf(),
                orig.cursor + len <= orig.buf@.len() <= usize::MAX,
                s.cursor == orig.cursor,
                s.start == orig.start,
                s.buf@.len() == orig.buf@.len(),
                forall|j: int| 0 <= j < i ==> s.buf@[orig.cursor + j] == value@[j],
                forall|j: int|
                    0 <= j < s.buf@.len() && !(orig.cursor <= j < orig.cursor + i)
                        ==> s.buf@[j] == orig.buf@[j],
            decreases len - i,
        {
            let idx = s.cursor + i;
            s.buf[idx] = value[i];
            i = i + 1;
        }
        s.cursor = s.cursor + len;
        proof {
            assert(s.written() =~= orig.written() + value@);
        }
        s
    }

    fn grow(self, m: usize) -> (r: Self) {
        // The precondition is exactly the bound a fixed region has to offer:
        // nothing is left to check or to reserve at run time.
        self
    }
}

impl ConstWriterAdapterCreate<Vec<u8>> for SliceWriterAdapter {
    open spec fn new_headroom(s: &Vec<u8>) -> nat {
        s@.len()
    }

    open spec fn commit(init: Seq<u8>, written: Seq<u8>) -> Seq<u8> {
        written + init.skip(written.len() as int)
    }

    fn new(s: Vec<u8>, n: usize) -> (r: Self) {
        let r = SliceWriterAdapter { start: Ghost(s@), buf: s, cursor: 0 };
        proof {
            assert(r.written() =~= Seq::<u8>::empty());
        }
        r
    }

    fn try_new(s: Vec<u8>, n: usize) -> (r: Result<Self, Vec<u8>>) {
        if n <= s.len() {
            Ok(Self::new(s, n))
        } else {
            Err(s)
        }
    }

    fn release(self) -> (s: Vec<u8>) {
        proof {
            assert(self.buf@ =~= Self::commit(self.init(), self.written()));
        }
        self.buf
    }
}

impl ConstWrite<SliceWriterAdapter> for Vec<u8> {

}

} // verus!
