use vstd::prelude::*;

verus! {

/// Whether bit `k` of the byte is set.
pub open spec fn byte_bit(b: u8, k: u8) -> bool {
    (b >> k) & 1u8 == 1u8
}

proof fn lemma_set_bit(b: u8, k: u8, j: u8)
    requires
        k < 8,
        j < 8,
    ensures
        byte_bit(b | (1u8 << k), j) == (j == k || byte_bit(b, j)),
        (b & (1u8 << k) != 0u8) == byte_bit(b, k),
{
    assert(((b | (1u8 << k)) >> j) & 1u8 == 1u8 <==> (j == k || (b >> j) & 1u8 == 1u8))
        by (bit_vector)
        requires
            k < 8,
            j < 8,
    ;
    assert((b & (1u8 << k) != 0u8) <==> ((b >> k) & 1u8 == 1u8)) by (bit_vector)
        requires
            k < 8,
    ;
}

proof fn lemma_or_bit(a: u8, b: u8, j: u8)
    requires
        j < 8,
    ensures
        byte_bit(a | b, j) == (byte_bit(a, j) || byte_bit(b, j)),
{
    assert((((a | b) >> j) & 1u8 == 1u8) <==> (((a >> j) & 1u8 == 1u8) || ((b >> j) & 1u8 == 1u8)))
        by (bit_vector)
        requires
            j < 8,
    ;
}

/// A reachability fingerprint: one bit per entry point, eight to a byte.
#[derive(Debug, Clone)]
pub struct BitSet {
    pub entries: Vec<u8>,
}

impl View for BitSet {
    type V = Seq<u8>;

    open spec fn view(&self) -> Seq<u8> {
        self.entries@
    }
}

impl BitSet {
    /// How many bits the set holds.
    pub open spec fn capacity(&self) -> nat {
        self.entries@.len() * 8
    }

    /// Whether bit `i` is set.
    pub open spec fn has(&self, i: nat) -> bool
        recommends
            i < self.capacity(),
    {
        byte_bit(self.entries@[(i / 8) as int], (i % 8) as u8)
    }

    /// An empty set with room for `max_bit_count` bits.
    pub fn new(max_bit_count: u32) -> (r: Self)
        ensures
            r@.len() == (max_bit_count as nat + 7) / 8,
            r.capacity() >= max_bit_count,
            forall|i: nat| i < r.capacity() ==> !#[trigger] r.has(i),
    {
        let len: u32 = max_bit_count / 8 + (if max_bit_count % 8 == 0 {
            0
        } else {
            1
        });
        let mut entries: Vec<u8> = Vec::new();
        let mut k: u32 = 0;
        while k < len
            invariant
                k <= len,
                entries@.len() == k,
                forall|j: int| 0 <= j < k ==> entries@[j] == 0u8,
            decreases len - k,
        {
            entries.push(0u8);
            k += 1;
        }
        let r = BitSet { entries };
        proof {
            assert forall|i: nat| i < r.capacity() implies !#[trigger] r.has(i) by {
                let k = (i % 8) as u8;
                assert((0u8 >> k) & 1u8 == 0u8) by (bit_vector);
            }
        }
        r
    }

    /// Whether bit `i` is set.
    pub fn has_bit(&self, i: u32) -> (r: bool)
        requires
            (i as nat) < self.capacity(),
        ensures
            r == self.has(i as nat),
    {
        let k: u8 = (i % 8) as u8;
        let b: u8 = self.entries[(i / 8) as usize];
        proof {
            lemma_set_bit(b, k, k);
        }
        b & (1u8 << k) != 0
    }

    /// Sets bit `i`; every other bit keeps its value.
    pub fn set_bit(&mut self, i: u32)
        requires
            (i as nat) < old(self).capacity(),
        ensures
            final(self).capacity() == old(self).capacity(),
            forall|j: nat|
                j < old(self).capacity() ==> #[trigger] final(self).has(j) == (j == i || old(
                    self,
                ).has(j)),
    {
        let k: u8 = (i % 8) as u8;
        let at: usize = (i / 8) as usize;
        let b: u8 = self.entries[at];
        self.entries.set(at, b | (1u8 << k));
        proof {
            assert forall|j: nat| j < old(self).capacity() implies #[trigger] self.has(j) == (j
                == i || old(self).has(j)) by {
                if j / 8 == at as nat {
                    lemma_set_bit(b, k, (j % 8) as u8);
                }
            }
        }
    }

    /// Adds every bit of `other` to `self`.
    pub fn union(&mut self, other: &BitSet)
        requires
            old(self)@.len() == other@.len(),
        ensures
            final(self)@.len() == old(self)@.len(),
            forall|j: nat|
                j < old(self).capacity() ==> #[trigger] final(self).has(j) == (old(self).has(j)
                    || other.has(j)),
    {
        let mut at: usize = 0;
        while at < self.entries.len()
            invariant
                at <= self.entries@.len(),
                self.entries@.len() == old(self).entries@.len(),
                self.entries@.len() == other.entries@.len(),
                forall|p: int|
                    0 <= p < at ==> self.entries@[p] == old(self).entries@[p] | other.entries@[p],
                forall|p: int|
                    at <= p < self.entries@.len() ==> self.entries@[p] == old(self).entries@[p],
            decreases self.entries@.len() - at,
        {
            let b: u8 = self.entries[at] | other.entries[at];
            self.entries.set(at, b);
            at += 1;
        }
        proof {
            assert forall|j: nat| j < old(self).capacity() implies #[trigger] self.has(j) == (old(
                self,
            ).has(j) || other.has(j)) by {
                let p = (j / 8) as int;
                lemma_or_bit(old(self).entries@[p], other.entries@[p], (j % 8) as u8);
            }
        }
    }

    /// A set with the same bits.
    pub fn copy(&self) -> (r: Self)
        ensures
            r@ == self@,
    {
        BitSet { entries: self.entries.clone() }
    }

    /// Whether the two sets are bit-identical.
    pub fn same_bits(&self, other: &BitSet) -> (r: bool)
        ensures
            r == (self@ == other@),
    {
        if self.entries.len() != other.entries.len() {
            return false;
        }
        let mut at: usize = 0;
        while at < self.entries.len()
            invariant
                at <= self.entries@.len(),
                self.entries@.len() == other.entries@.len(),
                forall|p: int| 0 <= p < at ==> self.entries@[p] == other.entries@[p],
            decreases self.entries@.len() - at,
        {
            if self.entries[at] != other.entries[at] {
                return false;
            }
            at += 1;
        }
        proof {
            assert(self.entries@ =~= other.entries@);
        }
        true
    }
}

} // verus!
