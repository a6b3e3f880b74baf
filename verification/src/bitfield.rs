//! A growable bit vector backed by bytes.
//!
//! Bit `i` lives in byte `i / 8` under the mask `1 << (i % 8)`. Bits beyond
//! the stored bytes read as `false`.

use vstd::prelude::*;

verus! {

/// The mask that selects bit `k` of a byte, for `k < 8`.
pub open spec fn bit_mask(k: int) -> u8 {
    1u8 << (k as u8)
}

/// Whether bit `i` is set in `bytes`; `false` beyond the stored bytes.
pub open spec fn bit_at(bytes: Seq<u8>, i: int) -> bool {
    0 <= i && i / 8 < bytes.len() && (bytes[i / 8] & bit_mask(i % 8)) != 0
}

/// `byte` with the bit under `bit_mask(k)` replaced by `value`.
pub open spec fn with_bit(byte: u8, k: int, value: bool) -> u8 {
    if value {
        (byte & !bit_mask(k)) | bit_mask(k)
    } else {
        byte & !bit_mask(k)
    }
}

/// `bytes`, followed by as many zero bytes as it takes to reach `len` bytes.
pub open spec fn zero_extended(bytes: Seq<u8>, len: int) -> Seq<u8> {
    if bytes.len() >= len {
        bytes
    } else {
        bytes + Seq::new((len - bytes.len()) as nat, |j: int| 0u8)
    }
}

/// The bytes after setting bit `i` to `value`: storage grows to hold byte
/// `i / 8`, and only that byte changes.
pub open spec fn set_bit(bytes: Seq<u8>, i: int, value: bool) -> Seq<u8> {
    let grown = zero_extended(bytes, i / 8 + 1);
    grown.update(i / 8, with_bit(grown[i / 8], i % 8, value))
}

/// The bytes after the writes `ops`, each a pair of an index and a value,
/// applied in order to an empty bitfield.
pub open spec fn after_writes(ops: Seq<(nat, bool)>) -> Seq<u8>
    decreases ops.len(),
{
    if ops.len() == 0 {
        Seq::<u8>::empty()
    } else {
        set_bit(after_writes(ops.drop_last()), ops.last().0 as int, ops.last().1)
    }
}

/// The value that the last write to bit `i` in `ops` gave it; `false` where
/// `ops` never writes bit `i`.
pub open spec fn last_written(ops: Seq<(nat, bool)>, i: nat) -> bool
    decreases ops.len(),
{
    if ops.len() == 0 {
        false
    } else if ops.last().0 == i {
        ops.last().1
    } else {
        last_written(ops.drop_last(), i)
    }
}

proof fn lemma_with_bit(byte: u8, k: u8, j: u8, value: bool)
    requires
        k < 8,
        j < 8,
    ensures
        (with_bit(byte, k as int, value) & bit_mask(j as int)) != 0 <==> if j == k {
            value
        } else {
            (byte & bit_mask(j as int)) != 0
        },
{
    let mk = 1u8 << k;
    let mj = 1u8 << j;
    assert(k < 8 ==> (((byte & !mk) | mk) & mk) != 0) by (bit_vector)
        requires
            mk == 1u8 << k,
    ;
    assert(k < 8 ==> ((byte & !mk) & mk) == 0) by (bit_vector)
        requires
            mk == 1u8 << k,
    ;
    assert(k < 8 && j < 8 && j != k ==> (((byte & !mk) | mk) & mj) == (byte & mj) && ((byte & !mk)
        & mj) == (byte & mj)) by (bit_vector)
        requires
            mk == 1u8 << k,
            mj == 1u8 << j,
    ;
}

/// Reading after one write: bit `i` holds the value written, every other bit
/// holds what it held before, and the storage has not shrunk.
pub proof fn lemma_set_bit(bytes: Seq<u8>, i: nat, value: bool, j: nat)
    ensures
        bit_at(set_bit(bytes, i as int, value), j as int) == if j == i {
            value
        } else {
            bit_at(bytes, j as int)
        },
        set_bit(bytes, i as int, value).len() >= bytes.len(),
        set_bit(bytes, i as int, value).len() >= i / 8 + 1,
{
    let grown = zero_extended(bytes, i as int / 8 + 1);
    let k = (i % 8) as u8;
    let m = (j % 8) as u8;
    if j / 8 == i / 8 {
        lemma_with_bit(grown[i as int / 8], k, m, value);
        if (i as int) / 8 >= bytes.len() {
            assert((0u8 & (1u8 << m)) == 0) by (bit_vector);
        }
    } else if (j as int) / 8 < grown.len() && (j as int) / 8 >= bytes.len() {
        assert((0u8 & (1u8 << m)) == 0) by (bit_vector);
    }
}

/// After any sequence of writes to an empty bitfield, each bit holds the
/// value of the last write to it, and a bit never written reads `false`.
pub proof fn lemma_after_writes(ops: Seq<(nat, bool)>, i: nat)
    ensures
        bit_at(after_writes(ops), i as int) == last_written(ops, i),
    decreases ops.len(),
{
    if ops.len() > 0 {
        lemma_after_writes(ops.drop_last(), i);
        lemma_set_bit(after_writes(ops.drop_last()), ops.last().0, ops.last().1, i);
    }
}

/// A growable bit vector. Two bitfields are equal where their stored bytes
/// are, so trailing zero bytes tell them apart.
#[derive(Debug, PartialEq, Eq)]
pub struct Bitfield {
    bytes: Vec<u8>,
}

impl View for Bitfield {
    type V = Seq<u8>;

    closed spec fn view(&self) -> Seq<u8> {
        self.bytes@
    }
}

impl Clone for Bitfield {
    fn clone(&self) -> (r: Self)
        ensures
            r@ == self@,
    {
        Self { bytes: self.bytes.clone() }
    }
}

impl Bitfield {
    /// An empty bitfield: every bit reads as `false`.
    pub fn new() -> (r: Self)
        ensures
            r@ == Seq::<u8>::empty(),
    {
        Self { bytes: Vec::new() }
    }

    /// The bitfield stored in `bytes`.
    pub fn from_bytes(bytes: Vec<u8>) -> (r: Self)
        ensures
            r@ == bytes@,
    {
        Self { bytes }
    }

    /// The stored bytes.
    pub fn get_bytes(&self) -> (r: &Vec<u8>)
        ensures
            r@ == self@,
    {
        &self.bytes
    }

    /// Sets bit `idx` to `value`, growing the storage with zero bytes as needed.
    pub fn set(&mut self, idx: usize, value: bool)
        ensures
            final(self)@ == set_bit(old(self)@, idx as int, value),
    {
        self.ensure(idx);
        let array_index = idx / 8;
        let bit_index = (idx % 8) as u8;
        let bit_mask = 1u8 << bit_index;
        let mut val = self.bytes[array_index] & (!bit_mask);
        if value {
            val |= bit_mask;
        }
        self.bytes.set(array_index, val);
    }

    /// Bit `idx`; `false` where `idx` lies beyond the stored bytes.
    pub fn get(&self, idx: usize) -> (r: bool)
        ensures
            r == bit_at(self@, idx as int),
    {
        let required_size = idx / 8 + 1;
        if self.bytes.len() < required_size {
            return false;
        }
        let array_index = idx / 8;
        let bit_index = (idx % 8) as u8;
        let bit_mask = 1u8 << bit_index;
        (self.bytes[array_index] & bit_mask) != 0
    }

    /// Every stored bit in order, eight for each stored byte.
    pub fn iter(&self) -> (r: Vec<bool>)
        ensures
            r@.len() == 8 * self@.len(),
            forall|i: int| 0 <= i < r@.len() ==> r@[i] == bit_at(self@, i),
    {
        let mut bits: Vec<bool> = Vec::new();
        let mut n: usize = 0;
        while n < self.bytes.len()
            invariant
                n <= self.bytes@.len(),
                bits@.len() == 8 * n,
                forall|i: int| 0 <= i < bits@.len() ==> bits@[i] == bit_at(self.bytes@, i),
            decreases self.bytes@.len() - n,
        {
            let byte = self.bytes[n];
            let mut k: u8 = 0;
            while k < 8
                invariant
                    k <= 8,
                    n < self.bytes@.len(),
                    byte == self.bytes@[n as int],
                    bits@.len() == 8 * n + k,
                    forall|i: int| 0 <= i < bits@.len() ==> bits@[i] == bit_at(self.bytes@, i),
                decreases 8 - k,
            {
                bits.push((byte & (1u8 << k)) != 0);
                k += 1;
            }
            n += 1;
        }
        bits
    }

    /// Grows the storage with zero bytes until it holds byte `idx / 8`.
    fn ensure(&mut self, idx: usize)
        ensures
            final(self)@ == zero_extended(old(self)@, idx as int / 8 + 1),
    {
        let required_size = idx / 8 + 1;
        if self.bytes.len() < required_size {
            self.bytes.resize(required_size, 0);
        }
    }
}

} // verus!
