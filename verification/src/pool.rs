//! The pool of subnets of a suite: the range of addresses from which every
//! test's subnet is cut, so that no two tests that run at a time share an
//! address.
//!
//! The range is divided into slots of one size. A test gets the lowest free
//! slot and a subnet that begins where the slot begins; the subnet is not
//! wider than the slot, so that subnets in different slots never overlap.

use crate::address::{block_size, valid_subnet, Subnet, MAX_WIDTH_BITS};
use vstd::arithmetic::div_mod::{
    lemma_fundamental_div_mod, lemma_fundamental_div_mod_converse,
};
use vstd::arithmetic::power2::{
    lemma2_to64, lemma_pow2_adds, lemma_pow2_pos, lemma_pow2_strictly_increases, pow2,
};
use vstd::prelude::*;

verus! {

/// Why the pool of subnets refused a request.
#[derive(Clone, Copy, Debug, PartialEq, Eq)]
pub enum PoolError {
    /// The width is zero or larger than the pool allows.
    InvalidWidth,
    /// The pool's first address is not a multiple of the size of its slots.
    Misaligned,
    /// The pool ends beyond the last IPv4 address.
    TooLarge,
    /// Every slot is leased.
    Exhausted,
    /// The subnet is not one that the pool has leased.
    NotLeased,
}

/// What stands in the way of a pool of `slots` slots of `2^slot_bits`
/// addresses at `base`, if anything.
pub open spec fn pool_refusal(base: u32, slot_bits: u32, slots: u32) -> Option<PoolError> {
    if !(0 < slot_bits <= MAX_WIDTH_BITS) {
        Some(PoolError::InvalidWidth)
    } else if base as int % pow2(slot_bits as nat) as int != 0 {
        Some(PoolError::Misaligned)
    } else if base + slots * pow2(slot_bits as nat) > 0x1_0000_0000 {
        Some(PoolError::TooLarge)
    } else {
        None
    }
}

/// The slots of a size are whole multiples of every smaller power of two.
proof fn lemma_slot_aligned(base: int, k: int, slot_bits: nat, width: nat)
    requires
        0 <= base,
        0 <= k,
        width <= slot_bits,
        base % pow2(slot_bits) as int == 0,
    ensures
        (base + k * pow2(slot_bits)) % pow2(width) as int == 0,
        pow2(width) <= pow2(slot_bits),
{
    let s = pow2(slot_bits) as int;
    let w = pow2(width) as int;
    let m = pow2((slot_bits - width) as nat) as int;
    lemma_pow2_adds(width, (slot_bits - width) as nat);
    lemma_pow2_pos(width);
    lemma_pow2_pos(slot_bits);
    lemma_pow2_pos((slot_bits - width) as nat);
    let a = base / s;
    lemma_fundamental_div_mod(base, s);
    let x = m * a + m * k;
    assert(base + k * s == x * w + 0) by (nonlinear_arith)
        requires
            base == s * a,
            s == w * m,
            x == m * a + m * k,
    ;
    lemma_fundamental_div_mod_converse(base + k * s, w, x, 0);
    assert(w <= s) by (nonlinear_arith)
        requires
            s == w * m,
            m >= 1,
            w >= 1,
    ;
}

/// Slots lie side by side: each ends where the next begins, or before.
proof fn lemma_slots_in_order(i: int, j: int, size: int)
    by (nonlinear_arith)
    requires
        0 <= i < j,
        0 <= size,
    ensures
        i * size + size <= j * size,
        0 <= i * size,
{
}

/// Of two slots the later begins a whole slot after the earlier, or more.
proof fn lemma_slots_apart(i: int, j: int, size: int)
    by (nonlinear_arith)
    requires
        i < j,
        0 < size,
    ensures
        i * size + size <= j * size,
{
}

/// A suite's pool of subnets.
pub struct SubnetPool {
    base: u32,
    slot_bits: u32,
    taken: Vec<bool>,
}

impl SubnetPool {
    /// The first address of the pool.
    pub closed spec fn first(self) -> int {
        self.base as int
    }

    /// The host bits of a slot: the width of the widest subnet to lease.
    pub closed spec fn slot_bits(self) -> nat {
        self.slot_bits as nat
    }

    /// The number of slots.
    pub closed spec fn slots(self) -> int {
        self.taken@.len() as int
    }

    /// The slot `k` is leased.
    pub closed spec fn leased(self, k: int) -> bool {
        0 <= k < self.taken@.len() && self.taken@[k]
    }

    /// The number of addresses of a slot.
    pub open spec fn slot_size(self) -> int {
        pow2(self.slot_bits()) as int
    }

    /// The first address of the slot `k`.
    pub open spec fn slot_base(self, k: int) -> int {
        self.first() + k * self.slot_size()
    }

    /// The pool's invariant: its slots are aligned and lie inside the IPv4
    /// address space.
    pub open spec fn wf(self) -> bool {
        &&& 0 < self.slot_bits() <= MAX_WIDTH_BITS
        &&& 0 <= self.first()
        &&& self.first() % self.slot_size() == 0
        &&& 0 <= self.slots() <= u32::MAX
        &&& self.first() + self.slots() * self.slot_size() <= 0x1_0000_0000
    }

    /// The pool has the slots of `other`.
    pub open spec fn same_slots(self, other: SubnetPool) -> bool {
        &&& self.first() == other.first()
        &&& self.slot_bits() == other.slot_bits()
        &&& self.slots() == other.slots()
    }

    /// The slot `k` is free and no lower slot is.
    pub open spec fn is_lowest_free(self, k: int) -> bool {
        &&& 0 <= k < self.slots()
        &&& !self.leased(k)
        &&& forall|j: int| 0 <= j < k ==> self.leased(j)
    }

    /// Every slot is leased.
    pub open spec fn full(self) -> bool {
        forall|k: int| 0 <= k < self.slots() ==> self.leased(k)
    }

    /// `subnet` begins where the slot `k` begins, and that slot is leased.
    pub open spec fn leases(self, subnet: Subnet, k: int) -> bool {
        self.leased(k) && subnet.first() == self.slot_base(k)
    }

    /// What stands in the way of a lease of a subnet of `width_bits` host
    /// bits, if anything.
    pub open spec fn acquire_refusal(self, width_bits: u32) -> Option<PoolError> {
        if !(0 < width_bits <= self.slot_bits()) {
            Some(PoolError::InvalidWidth)
        } else if self.full() {
            Some(PoolError::Exhausted)
        } else {
            None
        }
    }

    /// A pool of `slots` slots of `2^slot_bits` addresses each, the first of
    /// which begins at `base`. No slot is leased.
    pub fn new(base: u32, slot_bits: u32, slots: u32) -> (r: Result<SubnetPool, PoolError>)
        ensures
            match r {
                Ok(pool) => {
                    &&& pool_refusal(base, slot_bits, slots) is None
                    &&& pool.wf()
                    &&& pool.first() == base
                    &&& pool.slot_bits() == slot_bits
                    &&& pool.slots() == slots
                    &&& forall|k: int| !pool.leased(k)
                },
                Err(e) => pool_refusal(base, slot_bits, slots) == Some(e),
            },
    {
        if slot_bits == 0 || slot_bits > MAX_WIDTH_BITS {
            return Err(PoolError::InvalidWidth);
        }
        let size = block_size(slot_bits);
        proof {
            lemma2_to64();
            if slot_bits < 24 {
                lemma_pow2_strictly_increases(slot_bits as nat, 24);
            }
        }
        if base % size != 0 {
            return Err(PoolError::Misaligned);
        }
        assert(slots * size <= 0xffff_ffff * 0x100_0000) by (nonlinear_arith)
            requires
                0 <= slots <= 0xffff_ffff,
                0 <= size <= 0x100_0000,
        ;
        let end: u64 = base as u64 + slots as u64 * size as u64;
        if end > 0x1_0000_0000 {
            return Err(PoolError::TooLarge);
        }
        let mut taken: Vec<bool> = Vec::new();
        let mut k: u32 = 0;
        while k < slots
            invariant
                k <= slots,
                taken@.len() == k,
                forall|j: int| 0 <= j < k ==> !taken@[j],
            decreases slots - k,
        {
            taken.push(false);
            k = k + 1;
        }
        Ok(SubnetPool { base, slot_bits, taken })
    }

    /// The number of slots.
    pub fn slot_count(&self) -> (n: usize)
        ensures
            n == self.slots(),
    {
        self.taken.len()
    }

    /// The host bits of a slot.
    pub fn get_slot_bits(&self) -> (bits: u32)
        ensures
            bits == self.slot_bits(),
    {
        self.slot_bits
    }

    /// Leases a subnet of `width_bits` host bits: it begins where the lowest
    /// free slot begins, and that slot is leased from now on.
    ///
    /// Refused, with the pool unchanged, when the width is zero or larger
    /// than a slot's, and else when every slot is leased.
    pub fn acquire(&mut self, width_bits: u32) -> (r: Result<Subnet, PoolError>)
        requires
            old(self).wf(),
        ensures
            final(self).wf(),
            final(self).same_slots(*old(self)),
            match r {
                Ok(subnet) => {
                    &&& old(self).acquire_refusal(width_bits) is None
                    &&& subnet.wf()
                    &&& subnet.bits() == width_bits
                    &&& exists|k: int| #[trigger]
                        old(self).is_lowest_free(k) && subnet.first() == old(self).slot_base(k)
                            && forall|j: int|
                            final(self).leased(j) == (old(self).leased(j) || j == k)
                },
                Err(e) => {
                    &&& old(self).acquire_refusal(width_bits) == Some(e)
                    &&& forall|j: int| final(self).leased(j) == old(self).leased(j)
                },
            },
    {
        if width_bits == 0 || width_bits > self.slot_bits {
            return Err(PoolError::InvalidWidth);
        }
        let size = block_size(self.slot_bits);
        let mut k: usize = 0;
        while k < self.taken.len()
            invariant
                k <= self.taken.len(),
                *self == *old(self),
                self.wf(),
                size == self.slot_size(),
                0 < width_bits <= self.slot_bits,
                forall|j: int| 0 <= j < k ==> self.leased(j),
            decreases self.taken.len() - k,
        {
            if !self.taken[k] {
                proof {
                    lemma_slots_in_order(k as int, self.slots(), size as int);
                    lemma_slot_aligned(
                        self.first(),
                        k as int,
                        self.slot_bits(),
                        width_bits as nat,
                    );
                }
                let start = self.base + (k as u32) * size;
                self.taken.set(k, true);
                proof {
                    assert(old(self).is_lowest_free(k as int));
                }
                return Ok(Subnet::at(start, width_bits));
            }
            k = k + 1;
        }
        Err(PoolError::Exhausted)
    }

    /// Takes back the subnet `subnet`: the slot at whose beginning it begins
    /// is free again.
    ///
    /// Refused with `NotLeased`, and the pool unchanged, exactly when the
    /// subnet does not begin where a leased slot begins.
    pub fn release(&mut self, subnet: &Subnet) -> (r: Result<(), PoolError>)
        requires
            old(self).wf(),
        ensures
            final(self).wf(),
            final(self).same_slots(*old(self)),
            match r {
                Ok(()) => exists|k: int| #[trigger]
                    old(self).leases(*subnet, k) && forall|j: int|
                        final(self).leased(j) == (old(self).leased(j) && j != k),
                Err(e) => {
                    &&& e == PoolError::NotLeased
                    &&& forall|k: int| !old(self).leases(*subnet, k)
                    &&& forall|j: int| final(self).leased(j) == old(self).leased(j)
                },
            },
    {
        let size = block_size(self.slot_bits);
        let start = subnet.network_address();
        proof {
            assert forall|k: int| old(self).leases(*subnet, k) implies start >= self.base && (start
                - self.base) % (size as int) == 0 && (start - self.base) / (size as int) == k by {
                lemma_slots_in_order(k, self.slots(), size as int);
                lemma_fundamental_div_mod_converse(start - self.base, size as int, k, 0);
            }
        }
        if start < self.base {
            return Err(PoolError::NotLeased);
        }
        let offset = start - self.base;
        if offset % size != 0 {
            return Err(PoolError::NotLeased);
        }
        let slot = offset / size;
        if slot as usize >= self.taken.len() || !self.taken[slot as usize] {
            return Err(PoolError::NotLeased);
        }
        self.taken.set(slot as usize, false);
        proof {
            lemma_fundamental_div_mod(offset as int, size as int);
            let first = old(self).first();
            let whole = old(self).slot_base(slot as int);
            assert(start == whole) by (nonlinear_arith)
                requires
                    offset == size * slot + 0,
                    start == first + offset,
                    whole == first + slot * size,
            ;
            assert(old(self).leases(*subnet, slot as int));
        }
        Ok(())
    }
}

/// Only slots of the pool are leased, and no two slots begin at the same
/// address.
pub proof fn lemma_slots_distinct(pool: SubnetPool, i: int, j: int)
    requires
        pool.wf(),
    ensures
        pool.leased(i) ==> 0 <= i < pool.slots(),
        pool.slot_base(i) == pool.slot_base(j) ==> i == j,
{
    lemma_pow2_pos(pool.slot_bits());
    if i < j {
        lemma_slots_apart(i, j, pool.slot_size());
    } else if j < i {
        lemma_slots_apart(j, i, pool.slot_size());
    }
}

/// Subnets that begin in different slots of a pool and are not wider than
/// a slot share no address.
pub proof fn lemma_leases_disjoint(pool: SubnetPool, a: Subnet, i: int, b: Subnet, j: int)
    requires
        pool.wf(),
        0 <= i < pool.slots(),
        0 <= j < pool.slots(),
        i != j,
        a.first() == pool.slot_base(i),
        b.first() == pool.slot_base(j),
        a.bits() <= pool.slot_bits(),
        b.bits() <= pool.slot_bits(),
    ensures
        a.disjoint(b),
        forall|ip: u32| !(a.contains(ip) && b.contains(ip)),
{
    lemma_slot_aligned(pool.first(), i, pool.slot_bits(), a.bits());
    lemma_slot_aligned(pool.first(), j, pool.slot_bits(), b.bits());
    if i < j {
        lemma_slots_in_order(i, j, pool.slot_size());
    } else {
        lemma_slots_in_order(j, i, pool.slot_size());
    }
}

} // verus!
