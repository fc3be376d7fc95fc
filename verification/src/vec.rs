//! Growable-buffer adapter: a caller-supplied dynamic byte vector.

use crate::{ConstWrite, ConstWriterAdapter, ConstWriterAdapterCreate};
use vstd::prelude::*;

verus! {

broadcast use vstd::std_specs::vec::group_vec_axioms;

/// Adapter over a growable byte vector.
///
/// Creation reserves the declared budget beyond the vector's current length;
/// writes append past that length, and growing reserves more storage without
/// touching content (any relocation stays inside the vector).  Releasing makes
/// exactly the written bytes visible after the vector's starting content:
/// never more, never less, however much storage was reserved along the way.
pub struct VecWriterAdapter {
    vec: Vec<u8>,
    base: Ghost<Seq<u8>>,
}

impl ConstWriterAdapter for VecWriterAdapter {
    closed spec fn wf(&self) -> bool {
        &&& self.base@.len() <= self.vec@.len() <= usize::MAX
        &&& self.vec@.take(self.base@.len() as int) == self.base@
    }

    closed spec fn init(&self) -> Seq<u8> {
        self.base@
    }

    closed spec fn written(&self) -> Seq<u8> {
        self.vec@.skip(self.base@.len() as int)
    }

    closed spec fn headroom(&self) -> nat {
        (usize::MAX - self.vec@.len()) as nat
    }

    fn write(self, value: &[u8]) -> (r: Self) {
        let ghost orig = self;
        let mut s = self;
        let len = value.len();
        let mut i: usize = 0;
        while i < len
            invariant
                i <= len,
                len == value@.len(),
                orig.wf(),
                orig.vec@.len() + len <= usize::MAX,
                s.base == orig.base,
                s.vec@ == orig.vec@ + value@.take(i as int),
            decreases len - i,
        {
            s.vec.push(value[i]);
            proof {
                assert(s.vec@ =~= orig.vec@ + value@.take(i + 1));
            }
            i = i + 1;
        }
        proof {
            assert(s.vec@ =~= orig.vec@ + value@);
            assert(s.wf()) by {
                assert(s.vec@.take(s.base@.len() as int) =~= orig.vec@.take(
                    orig.base@.len() as int,
                ));
            }
            assert(s.written() =~= orig.written() + value@);
        }
        s
    }

    fn grow(self, m: usize) -> (r: Self) {
        // Reserve storage for the bytes still to come; a reallocation moves
        // the content but never changes it.
        let mut s = self;
        s.vec.reserve(m);
        s
    }
}

impl ConstWriterAdapterCreate<Vec<u8>> for VecWriterAdapter {
    open spec fn new_headroom(s: &Vec<u8>) -> nat {
        (usize::MAX - s@.len()) as nat
    }

    open spec fn commit(init: Seq<u8>, written: Seq<u8>) -> Seq<u8> {
        init + written
    }

    fn new(s: Vec<u8>, n: usize) -> (r: Self) {
        let mut v = s;
        v.reserve(n);
        proof {
            assert(v@.len() <= usize::MAX) by {
                assert(v.len() == v@.len());
            }
        }
        let r = VecWriterAdapter { base: Ghost(v@), vec: v };
        proof {
            assert(r.wf()) by {
                assert(r.vec@.take(r.base@.len() as int) =~= r.base@);
            }
            assert(r.written() =~= Seq::<u8>::empty());
        }
        r
    }

    fn try_new(s: Vec<u8>, n: usize) -> (r: Result<Self, Vec<u8>>) {
        if n <= usize::MAX - s.len() {
            Ok(Self::new(s, n))
        } else {
            Err(s)
        }
    }

    fn release(self) -> (s: Vec<u8>) {
        proof {
            assert(self.vec@ =~= Self::commit(self.init(), self.written()));
        }
        self.vec
    }
}

impl ConstWrite<VecWriterAdapter> for Vec<u8> {

}

/// Exact commit on release: the store a growable-buffer adapter commits is its
/// starting content followed by exactly the written bytes — its length grows
/// by exactly the written count, however much storage was reserved meanwhile.
pub proof fn lemma_exact_commit(init: Seq<u8>, written: Seq<u8>)
    ensures
        <VecWriterAdapter as ConstWriterAdapterCreate<Vec<u8>>>::commit(init, written) == init
            + written,
        <VecWriterAdapter as ConstWriterAdapterCreate<Vec<u8>>>::commit(init, written).len()
            == init.len() + written.len(),
{
}

} // verus!
