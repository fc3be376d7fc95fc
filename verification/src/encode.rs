//! Little- and big-endian byte images of unsigned values.
//!
//! Every primitive write of the library appends the bytes described by
//! [`le_bytes`] or [`be_bytes`]; signed values are written through their
//! two's-complement unsigned image of the same width.

use vstd::prelude::*;

verus! {

/// The `width` low-order base-256 digits of `v`, least significant first.
pub open spec fn le_bytes(v: nat, width: nat) -> Seq<u8>
    decreases width,
{
    if width == 0 {
        Seq::empty()
    } else {
        seq![(v % 256) as u8] + le_bytes(v / 256, (width - 1) as nat)
    }
}

/// The `width` low-order base-256 digits of `v`, most significant first.
pub open spec fn be_bytes(v: nat, width: nat) -> Seq<u8> {
    le_bytes(v, width).reverse()
}

pub broadcast proof fn lemma_le_bytes_len(v: nat, width: nat)
    ensures
        (#[trigger] le_bytes(v, width)).len() == width,
    decreases width,
{
    if width > 0 {
        lemma_le_bytes_len(v / 256, (width - 1) as nat);
    }
}

pub broadcast proof fn lemma_be_bytes_len(v: nat, width: nat)
    ensures
        (#[trigger] be_bytes(v, width)).len() == width,
{
    lemma_le_bytes_len(v, width);
}

/// The `width` low-order bytes of `v` as a vector, least significant first.
pub fn le_byte_vec(v: u128, width: usize) -> (r: Vec<u8>)
    ensures
        r@ == le_bytes(v as nat, width as nat),
{
    let mut r: Vec<u8> = Vec::new();
    let mut x: u128 = v;
    let mut i: usize = 0;
    while i < width
        invariant
            i <= width,
            r@.len() == i as nat,
            le_bytes(v as nat, width as nat) == r@ + le_bytes(x as nat, (width - i) as nat),
        decreases width - i,
    {
        let b: u8 = (x % 256) as u8;
        proof {
            assert(le_bytes(x as nat, (width - i) as nat) == seq![b] + le_bytes(
                x as nat / 256,
                (width - i - 1) as nat,
            ));
            assert(r@ + le_bytes(x as nat, (width - i) as nat) =~= (r@ + seq![b]) + le_bytes(
                x as nat / 256,
                (width - i - 1) as nat,
            ));
        }
        r.push(b);
        x = x / 256;
        i = i + 1;
    }
    proof {
        assert(r@ + le_bytes(x as nat, 0) =~= r@);
    }
    r
}

/// The `width` low-order bytes of `v` as a vector, most significant first.
pub fn be_byte_vec(v: u128, width: usize) -> (r: Vec<u8>)
    ensures
        r@ == be_bytes(v as nat, width as nat),
{
    let le = le_byte_vec(v, width);
    proof {
        lemma_le_bytes_len(v as nat, width as nat);
    }
    let mut r: Vec<u8> = Vec::new();
    let mut i: usize = 0;
    while i < width
        invariant
            i <= width,
            le@ == le_bytes(v as nat, width as nat),
            le@.len() == width as nat,
            r@.len() == i as nat,
            forall|j: int| 0 <= j < i ==> r@[j] == le@[width - 1 - j],
        decreases width - i,
    {
        let b: u8 = le[width - 1 - i];
        r.push(b);
        i = i + 1;
    }
    proof {
        assert(r@ =~= le@.reverse());
    }
    r
}

} // verus!
