//! A byte-buffer writer that tracks how many bytes it may still write.
//!
//! A [`ConstWriter`] is obtained from a backing store together with a declared
//! byte budget, and every write consumes the handle and returns a new one whose
//! budget is smaller by the bytes just written.  The verifier checks, at every
//! call site, that no chain of writes ever exceeds the budget that was
//! validated against the backing store, so the writers themselves perform no
//! per-write bounds check at run time.
//!
//! Two backing stores are supported behind one adapter interface: a
//! fixed-length region that can never grow ([`slice::SliceWriterAdapter`]) and
//! a growable byte vector ([`vec::VecWriterAdapter`]).

use vstd::prelude::*;

pub mod encode;
pub mod slice;
pub mod vec;

verus! {

broadcast use encode::lemma_le_bytes_len, encode::lemma_be_bytes_len;

/// The raw capability a [`ConstWriter`] delegates to: unchecked appends into a
/// backing store plus capacity extension.
///
/// `write` performs no bounds check of its own; its precondition is maintained
/// by [`ConstWriter`], which is the only intended user.  The four spec
/// functions abstract the adapter's state: the store's content at creation
/// (`init`), the bytes appended so far (`written`), and how many further bytes
/// the store can take from the cursor on (`headroom`).
pub trait ConstWriterAdapter: Sized {
    /// The adapter's internal invariant.
    spec fn wf(&self) -> bool;

    /// The backing store's content when the adapter was created.
    spec fn init(&self) -> Seq<u8>;

    /// The bytes appended through this adapter so far.
    spec fn written(&self) -> Seq<u8>;

    /// How many further bytes the backing store can take.
    spec fn headroom(&self) -> nat;

    /// Append `value` at the cursor and advance the cursor past it.
    fn write(self, value: &[u8]) -> (r: Self)
        requires
            self.wf(),
            value@.len() <= self.headroom(),
        ensures
            r.wf(),
            r.init() == self.init(),
            r.written() == self.written() + value@,
            r.headroom() == self.headroom() - value@.len(),
    ;

    /// Make sure the backing store can take `m` more bytes from the cursor on.
    ///
    /// For a fixed region this is exactly the bound the precondition states,
    /// so nothing is left to check at run time; a growable store reserves
    /// storage here.  The store's content is never touched.
    fn grow(self, m: usize) -> (r: Self)
        requires
            self.wf(),
            m as nat <= self.headroom(),
        ensures
            r.wf(),
            r.init() == self.init(),
            r.written() == self.written(),
            r.headroom() == self.headroom(),
    ;
}

/// Construction and release of a [`ConstWriterAdapter`] over a backing store
/// of type `S`.
pub trait ConstWriterAdapterCreate<S: View<V = Seq<u8>>>: ConstWriterAdapter {
    /// The largest byte budget a fresh adapter over `s` may be created with.
    spec fn new_headroom(s: &S) -> nat;

    /// The store that releasing an adapter with starting content `init` and
    /// appended bytes `written` hands back.
    spec fn commit(init: Seq<u8>, written: Seq<u8>) -> Seq<u8>;

    /// Take the store over, validating (or reserving) room for `n` bytes.
    fn new(s: S, n: usize) -> (r: Self)
        requires
            n as nat <= Self::new_headroom(&s),
        ensures
            r.wf(),
            r.init() == s@,
            r.written() == Seq::<u8>::empty(),
            r.headroom() == Self::new_headroom(&s),
    ;

    /// Like `new`, but hands the store back untouched instead of demanding
    /// that the budget fits.
    fn try_new(s: S, n: usize) -> (r: Result<Self, S>)
        ensures
            r is Ok <==> n as nat <= Self::new_headroom(&s),
            (r matches Ok(a) ==> a.wf() && a.init() == s@ && a.written() == Seq::<u8>::empty()
                && a.headroom() == Self::new_headroom(&s)),
            (r matches Err(b) ==> b == s),
    ;

    /// Commit the written bytes into the store and hand it back.
    fn release(self) -> (s: S)
        requires
            self.wf(),
        ensures
            s@ == Self::commit(self.init(), self.written()),
    ;
}

/// Writer handle that pairs an adapter with its remaining byte budget.
///
/// Handles are linear: every operation consumes the handle and returns a new
/// one.  A handle is only ever produced by [`ConstWrite::const_writer`] (or
/// `try_const_writer`) and by the write and convert operations, so its budget
/// is always backed by real space in the store.
pub struct ConstWriter<T: ConstWriterAdapter> {
    writer_adapter: T,
    remaining: usize,
}

impl<T: ConstWriterAdapter> ConstWriter<T> {
    /// The handle's invariant: the budget never exceeds the adapter's room.
    pub closed spec fn wf(&self) -> bool {
        &&& self.writer_adapter.wf()
        &&& self.remaining as nat <= self.writer_adapter.headroom()
    }

    /// The backing store's content when the adapter was created.
    pub closed spec fn init(&self) -> Seq<u8> {
        self.writer_adapter.init()
    }

    /// The bytes written through this handle's adapter so far.
    pub closed spec fn written(&self) -> Seq<u8> {
        self.writer_adapter.written()
    }

    /// How many further bytes the backing store can take.
    pub closed spec fn headroom(&self) -> nat {
        self.writer_adapter.headroom()
    }

    /// The handle's remaining byte budget.
    pub closed spec fn spec_remaining(&self) -> nat {
        self.remaining as nat
    }

    /// One write step: `r` is `self` after appending exactly `bytes`.
    pub open spec fn wrote(self, r: Self, bytes: Seq<u8>) -> bool {
        &&& self.wf()
        &&& r.wf()
        &&& bytes.len() <= self.spec_remaining()
        &&& r.written() == self.written() + bytes
        &&& r.spec_remaining() == self.spec_remaining() - bytes.len()
        &&& r.init() == self.init()
        &&& r.headroom() == self.headroom() - bytes.len()
    }

    /// One convert step: `r` is `self` with a re-declared budget and an
    /// untouched store.
    pub open spec fn relabeled(self, r: Self) -> bool {
        &&& self.wf()
        &&& r.wf()
        &&& r.written() == self.written()
        &&& r.init() == self.init()
        &&& r.headroom() == self.headroom()
    }

    /// Pure accessor: how many bytes this handle may still write.
    pub fn remaining(&self) -> (n: usize)
        ensures
            n as nat == self.spec_remaining(),
    {
        self.remaining
    }

    /// Append `value` and pay its length out of the budget.
    pub fn write_slice(self, value: &[u8]) -> (r: Self)
        requires
            self.wf(),
            value@.len() <= self.spec_remaining(),
        ensures
            self.wrote(r, value@),
    {
        let len = value.len();
        let remaining = self.remaining - len;
        ConstWriter { writer_adapter: self.writer_adapter.write(value), remaining }
    }

    /// Append `value`'s little-endian bytes and pay 1 byte out of the budget.
    pub fn write_u8_le(self, value: u8) -> (r: Self)
        requires
            self.wf(),
            1 <= self.spec_remaining(),
        ensures
            self.wrote(r, encode::le_bytes(value as nat, 1)),
    {
        let bytes = encode::le_byte_vec(value as u128, 1);
        self.write_slice(bytes.as_slice())
    }

    /// Append `value`'s big-endian bytes and pay 1 byte out of the budget.
    pub fn write_u8_be(self, value: u8) -> (r: Self)
        requires
            self.wf(),
            1 <= self.spec_remaining(),
        ensures
            self.wrote(r, encode::be_bytes(value as nat, 1)),
    {
        let bytes = encode::be_byte_vec(value as u128, 1);
        self.write_slice(bytes.as_slice())
    }

    /// Append `value`'s little-endian bytes and pay 2 bytes out of the budget.
    pub fn write_u16_le(self, value: u16) -> (r: Self)
        requires
            self.wf(),
            2 <= self.spec_remaining(),
        ensures
            self.wrote(r, encode::le_bytes(value as nat, 2)),
    {
        let bytes = encode::le_byte_vec(value as u128, 2);
        self.write_slice(bytes.as_slice())
    }

    /// Append `value`'s big-endian bytes and pay 2 bytes out of the budget.
    pub fn write_u16_be(self, value: u16) -> (r: Self)
        requires
            self.wf(),
            2 <= self.spec_remaining(),
        ensures
            self.wrote(r, encode::be_bytes(value as nat, 2)),
    {
        let bytes = encode::be_byte_vec(value as u128, 2);
        self.write_slice(bytes.as_slice())
    }

    /// Append `value`'s little-endian bytes and pay 4 bytes out of the budget.
    pub fn write_u32_le(self, value: u32) -> (r: Self)
        requires
            self.wf(),
            4 <= self.spec_remaining(),
        ensures
            self.wrote(r, encode::le_bytes(value as nat, 4)),
    {
        let bytes = encode::le_byte_vec(value as u128, 4);
        self.write_slice(bytes.as_slice())
    }

    /// Append `value`'s big-endian bytes and pay 4 bytes out of the budget.
    pub fn write_u32_be(self, value: u32) -> (r: Self)
        requires
            self.wf(),
            4 <= self.spec_remaining(),
        ensures
            self.wrote(r, encode::be_bytes(value as nat, 4)),
    {
        let bytes = encode::be_byte_vec(value as u128, 4);
        self.write_slice(bytes.as_slice())
    }

    /// Append `value`'s little-endian bytes and pay 8 bytes out of the budget.
    pub fn write_u64_le(self, value: u64) -> (r: Self)
        requires
            self.wf(),
            8 <= self.spec_remaining(),
        ensures
            self.wrote(r, encode::le_bytes(value as nat, 8)),
    {
        let bytes = encode::le_byte_vec(value as u128, 8);
        self.write_slice(bytes.as_slice())
    }

    /// Append `value`'s big-endian bytes and pay 8 bytes out of the budget.
    pub fn write_u64_be(self, value: u64) -> (r: Self)
        requires
            self.wf(),
            8 <= self.spec_remaining(),
        ensures
            self.wrote(r, encode::be_bytes(value as nat, 8)),
    {
        let bytes = encode::be_byte_vec(value as u128, 8);
        self.write_slice(bytes.as_slice())
    }

    /// Append `value`'s little-endian bytes and pay 16 bytes out of the budget.
    pub fn write_u128_le(self, value: u128) -> (r: Self)
        requires
            self.wf(),
            16 <= self.spec_remaining(),
        ensures
            self.wrote(r, encode::le_bytes(value as nat, 16)),
    {
        let bytes = encode::le_byte_vec(value, 16);
        self.write_slice(bytes.as_slice())
    }

    /// Append `value`'s big-endian bytes and pay 16 bytes out of the budget.
    pub fn write_u128_be(self, value: u128) -> (r: Self)
        requires
            self.wf(),
            16 <= self.spec_remaining(),
        ensures
            self.wrote(r, encode::be_bytes(value as nat, 16)),
    {
        let bytes = encode::be_byte_vec(value, 16);
        self.write_slice(bytes.as_slice())
    }

    /// Append `value`'s two's-complement little-endian bytes and pay 1 byte out of the budget.
    pub fn write_i8_le(self, value: i8) -> (r: Self)
        requires
            self.wf(),
            1 <= self.spec_remaining(),
        ensures
            self.wrote(r, encode::le_bytes((value as u8) as nat, 1)),
    {
        let bytes = encode::le_byte_vec((value as u8) as u128, 1);
        self.write_slice(bytes.as_slice())
    }

    /// Append `value`'s two's-complement big-endian bytes and pay 1 byte out of the budget.
    pub fn write_i8_be(self, value: i8) -> (r: Self)
        requires
            self.wf(),
            1 <= self.spec_remaining(),
        ensures
            self.wrote(r, encode::be_bytes((value as u8) as nat, 1)),
    {
        let bytes = encode::be_byte_vec((value as u8) as u128, 1);
        self.write_slice(bytes.as_slice())
    }

    /// Append `value`'s two's-complement little-endian bytes and pay 2 bytes out of the budget.
    pub fn write_i16_le(self, value: i16) -> (r: Self)
        requires
            self.wf(),
            2 <= self.spec_remaining(),
        ensures
            self.wrote(r, encode::le_bytes((value as u16) as nat, 2)),
    {
        let bytes = encode::le_byte_vec((value as u16) as u128, 2);
        self.write_slice(bytes.as_slice())
    }

    /// Append `value`'s two's-complement big-endian bytes and pay 2 bytes out of the budget.
    pub fn write_i16_be(self, value: i16) -> (r: Self)
        requires
            self.wf(),
            2 <= self.spec_remaining(),
        ensures
            self.wrote(r, encode::be_bytes((value as u16) as nat, 2)),
    {
        let bytes = encode::be_byte_vec((value as u16) as u128, 2);
        self.write_slice(bytes.as_slice())
    }

    /// Append `value`'s two's-complement little-endian bytes and pay 4 bytes out of the budget.
    pub fn write_i32_le(self, value: i32) -> (r: Self)
        requires
            self.wf(),
            4 <= self.spec_remaining(),
        ensures
            self.wrote(r, encode::le_bytes((value as u32) as nat, 4)),
    {
        let bytes = encode::le_byte_vec((value as u32) as u128, 4);
        self.write_slice(bytes.as_slice())
    }

    /// Append `value`'s two's-complement big-endian bytes and pay 4 bytes out of the budget.
    pub fn write_i32_be(self, value: i32) -> (r: Self)
        requires
            self.wf(),
            4 <= self.spec_remaining(),
        ensures
            self.wrote(r, encode::be_bytes((value as u32) as nat, 4)),
    {
        let bytes = encode::be_byte_vec((value as u32) as u128, 4);
        self.write_slice(bytes.as_slice())
    }

    /// Append `value`'s two's-complement little-endian bytes and pay 8 bytes out of the budget.
    pub fn write_i64_le(self, value: i64) -> (r: Self)
        requires
            self.wf(),
            8 <= self.spec_remaining(),
        ensures
            self.wrote(r, encode::le_bytes((value as u64) as nat, 8)),
    {
        let bytes = encode::le_byte_vec((value as u64) as u128, 8);
        self.write_slice(bytes.as_slice())
    }

    /// Append `value`'s two's-complement big-endian bytes and pay 8 bytes out of the budget.
    pub fn write_i64_be(self, value: i64) -> (r: Self)
        requires
            self.wf(),
            8 <= self.spec_remaining(),
        ensures
            self.wrote(r, encode::be_bytes((value as u64) as nat, 8)),
    {
        let bytes = encode::be_byte_vec((value as u64) as u128, 8);
        self.write_slice(bytes.as_slice())
    }

    /// Append `value`'s two's-complement little-endian bytes and pay 16 bytes out of the budget.
    pub fn write_i128_le(self, value: i128) -> (r: Self)
        requires
            self.wf(),
            16 <= self.spec_remaining(),
        ensures
            self.wrote(r, encode::le_bytes((value as u128) as nat, 16)),
    {
        let bytes = encode::le_byte_vec((value as u128) as u128, 16);
        self.write_slice(bytes.as_slice())
    }

    /// Append `value`'s two's-complement big-endian bytes and pay 16 bytes out of the budget.
    pub fn write_i128_be(self, value: i128) -> (r: Self)
        requires
            self.wf(),
            16 <= self.spec_remaining(),
        ensures
            self.wrote(r, encode::be_bytes((value as u128) as nat, 16)),
    {
        let bytes = encode::be_byte_vec((value as u128) as u128, 16);
        self.write_slice(bytes.as_slice())
    }

    /// Re-declare the remaining budget to `m`.
    ///
    /// Shrinking (`m` at most the current budget) is a pure relabeling: the
    /// invariant already proves the space, so no work is done.  Growing asks
    /// the adapter for room, which the precondition guarantees it can give.
    /// Either way the store's content is untouched.
    pub fn convert(self, m: usize) -> (r: Self)
        requires
            self.wf(),
            m as nat <= self.headroom(),
        ensures
            r.wf(),
            r.spec_remaining() == m as nat,
            r.written() == self.written(),
            r.init() == self.init(),
            r.headroom() == self.headroom(),
    {
        if m <= self.remaining {
            ConstWriter { writer_adapter: self.writer_adapter, remaining: m }
        } else {
            ConstWriter { writer_adapter: self.writer_adapter.grow(m), remaining: m }
        }
    }

    /// Release the handle: commit exactly the written bytes into the store
    /// and hand the store back.
    pub fn release<S: View<V = Seq<u8>>>(self) -> (s: S) where T: ConstWriterAdapterCreate<S>
        requires
            self.wf(),
        ensures
            s@ == T::commit(self.init(), self.written()),
    {
        self.writer_adapter.release()
    }
}

/// Obtain a [`ConstWriter`] over a backing store.  This is the sole admitted
/// construction path for writer handles.
pub trait ConstWrite<T>: View<V = Seq<u8>> + Sized where T: ConstWriterAdapterCreate<Self> {
    /// Writer for `n` bytes over this store.  The budget must fit the store;
    /// the verifier rejects any call where it does not.
    fn const_writer(self, n: usize) -> (w: ConstWriter<T>)
        requires
            n as nat <= T::new_headroom(&self),
        ensures
            w.wf(),
            w.init() == self@,
            w.written() == Seq::<u8>::empty(),
            w.spec_remaining() == n as nat,
            w.headroom() == T::new_headroom(&self),
    {
        ConstWriter { writer_adapter: T::new(self, n), remaining: n }
    }

    /// Writer for `n` bytes over this store, or the store handed back
    /// untouched when it is too short for `n`.
    fn try_const_writer(self, n: usize) -> (r: Result<ConstWriter<T>, Self>)
        ensures
            r is Ok <==> n as nat <= T::new_headroom(&self),
            (r matches Ok(w) ==> w.wf() && w.init() == self@ && w.written()
                == Seq::<u8>::empty() && w.spec_remaining() == n as nat && w.headroom()
                == T::new_headroom(&self)),
            (r matches Err(b) ==> b == self),
    {
        match T::try_new(self, n) {
            Ok(a) => Ok(ConstWriter { writer_adapter: a, remaining: n }),
            Err(b) => Err(b),
        }
    }
}

/// Concatenation of a sequence of byte blocks, in order.
pub open spec fn flat(blocks: Seq<Seq<u8>>) -> Seq<u8>
    decreases blocks.len(),
{
    if blocks.len() == 0 {
        Seq::empty()
    } else {
        blocks.first() + flat(blocks.drop_first())
    }
}

/// `ws` is a chain of handles in which step `i` wrote `blocks[i]`.
pub open spec fn write_chain<T: ConstWriterAdapter>(
    ws: Seq<ConstWriter<T>>,
    blocks: Seq<Seq<u8>>,
) -> bool {
    &&& ws.len() == blocks.len() + 1
    &&& forall|i: int| 0 <= i < blocks.len() ==> ws[i].wrote(ws[i + 1], #[trigger] blocks[i])
}

/// One step of a writer chain: either a write of `block`, or, when `block` is
/// empty, a `convert` — which contributes no bytes.
pub open spec fn chain_step<T: ConstWriterAdapter>(
    pre: ConstWriter<T>,
    post: ConstWriter<T>,
    block: Seq<u8>,
) -> bool {
    ||| pre.wrote(post, block)
    ||| (block == Seq::<u8>::empty() && pre.relabeled(post))
}

/// `ws` is a chain of handles in which step `i` either wrote `blocks[i]` or
/// re-declared the budget (and then `blocks[i]` is empty).
pub open spec fn split_chain<T: ConstWriterAdapter>(
    ws: Seq<ConstWriter<T>>,
    blocks: Seq<Seq<u8>>,
) -> bool {
    &&& ws.len() == blocks.len() + 1
    &&& forall|i: int| 0 <= i < blocks.len() ==> chain_step(ws[i], ws[i + 1], #[trigger] blocks[i])
}

/// Round-trip content and capacity conservation: a chain of writes appends
/// exactly the concatenation of its blocks, in call order, and the remaining
/// budget drops by exactly their total length.
pub proof fn lemma_chain_content_and_capacity<T: ConstWriterAdapter>(
    ws: Seq<ConstWriter<T>>,
    blocks: Seq<Seq<u8>>,
)
    requires
        write_chain(ws, blocks),
    ensures
        ws.last().written() == ws.first().written() + flat(blocks),
        flat(blocks).len() <= ws.first().spec_remaining(),
        ws.last().spec_remaining() == ws.first().spec_remaining() - flat(blocks).len(),
    decreases blocks.len(),
{
    if blocks.len() == 0 {
        assert(ws.last() == ws.first());
        assert(ws.first().written() + flat(blocks) =~= ws.first().written());
    } else {
        let ws2 = ws.drop_first();
        let blocks2 = blocks.drop_first();
        assert(ws[0].wrote(ws[1], blocks[0]));
        assert forall|i: int| 0 <= i < blocks2.len() implies ws2[i].wrote(
            ws2[i + 1],
            #[trigger] blocks2[i],
        ) by {
            assert(blocks2[i] == blocks[i + 1]);
            assert(ws[i + 1].wrote(ws[i + 2], blocks[i + 1]));
        }
        lemma_chain_content_and_capacity(ws2, blocks2);
        assert(ws.last() == ws2.last());
        assert(ws.last().written() =~= ws.first().written() + flat(blocks));
    }
}

/// Idempotent ordering: however a write sequence is split across `convert`
/// boundaries, the bytes appended are the concatenation of the written blocks
/// in call order — the convert steps contribute nothing.
pub proof fn lemma_split_chain_content<T: ConstWriterAdapter>(
    ws: Seq<ConstWriter<T>>,
    blocks: Seq<Seq<u8>>,
)
    requires
        split_chain(ws, blocks),
    ensures
        ws.last().written() == ws.first().written() + flat(blocks),
    decreases blocks.len(),
{
    if blocks.len() == 0 {
        assert(ws.last() == ws.first());
        assert(ws.first().written() + flat(blocks) =~= ws.first().written());
    } else {
        let ws2 = ws.drop_first();
        let blocks2 = blocks.drop_first();
        assert(chain_step(ws[0], ws[1], blocks[0]));
        assert(ws[1].written() =~= ws[0].written() + blocks[0]);
        assert forall|i: int| 0 <= i < blocks2.len() implies chain_step(
            ws2[i],
            ws2[i + 1],
            #[trigger] blocks2[i],
        ) by {
            assert(blocks2[i] == blocks[i + 1]);
            assert(chain_step(ws[i + 1], ws[i + 2], blocks[i + 1]));
        }
        lemma_split_chain_content(ws2, blocks2);
        assert(ws.last() == ws2.last());
        assert(ws.last().written() =~= ws.first().written() + flat(blocks));
    }
}

/// Inserting an empty block — the mark a `convert` step leaves in a chain —
/// anywhere in a write sequence leaves the flattened byte layout unchanged.
pub proof fn lemma_flat_insert_empty(blocks: Seq<Seq<u8>>, i: int)
    requires
        0 <= i <= blocks.len(),
    ensures
        flat(blocks.insert(i, Seq::<u8>::empty())) == flat(blocks),
    decreases blocks.len(),
{
    let with = blocks.insert(i, Seq::<u8>::empty());
    if i == 0 {
        assert(with.drop_first() =~= blocks);
        assert(flat(with) =~= flat(blocks));
    } else {
        assert(with.first() == blocks.first());
        assert(with.drop_first() =~= blocks.drop_first().insert(i - 1, Seq::<u8>::empty()));
        lemma_flat_insert_empty(blocks.drop_first(), i - 1);
    }
}

/// Shrink is free: a budget at most the current one always meets `convert`'s
/// precondition — for any handle and any target, including zero — so a
/// shrinking `convert` can never fail, and its contract says the store is
/// never touched.
pub proof fn lemma_shrink_is_free<T: ConstWriterAdapter>(w: ConstWriter<T>, m: nat)
    requires
        w.wf(),
        m <= w.spec_remaining(),
    ensures
        m <= w.headroom(),
{
}

} // verus!
