//! Subnets and the allocation of addresses inside one.
//!
//! A subnet is an aligned block of IPv4 addresses with `w` host bits. Three of
//! its addresses are reserved: the network address (the first), the gateway
//! (the second) and the broadcast address (the last). The allocator hands out
//! the others, always the lowest one that is not in use.

use vstd::arithmetic::power2::{lemma2_to64, lemma_pow2_adds, lemma_pow2_pos, lemma_pow2_strictly_increases, lemma_pow2_unfold, pow2};
use vstd::prelude::*;

verus! {

/// The largest host-bit width of a subnet.
pub const MAX_WIDTH_BITS: u32 = 24;

/// Why a subnet was refused.
#[derive(Clone, Copy, Debug, PartialEq, Eq)]
pub enum SubnetError {
    /// The width is zero or larger than `MAX_WIDTH_BITS`.
    InvalidWidth,
    /// The base address is not a multiple of the subnet's size.
    Misaligned,
}

/// Why the allocator refused a request.
#[derive(Clone, Copy, Debug, PartialEq, Eq)]
pub enum AllocError {
    /// Every usable address of the subnet is in use.
    PoolExhausted,
    /// The address to release is not in use.
    NotAllocated,
}

/// An aligned block of `2^width` IPv4 addresses that starts at `base`.
#[derive(Clone, Copy, Debug, PartialEq, Eq)]
pub struct Subnet {
    base: u32,
    width: u32,
}

/// Whether `base` and `width` describe a subnet.
pub open spec fn valid_subnet(base: u32, width: u32) -> bool {
    &&& 0 < width <= MAX_WIDTH_BITS
    &&& base as int % pow2(width as nat) as int == 0
}

/// `2^width`, for a width of at most 31 bits.
pub(crate) fn block_size(width: u32) -> (n: u32)
    requires
        width <= 31,
    ensures
        n == pow2(width as nat),
        n >= 1,
{
    let mut n: u32 = 1;
    let mut i: u32 = 0;
    proof {
        lemma2_to64();
    }
    while i < width
        invariant
            i <= width <= 31,
            n == pow2(i as nat),
            n >= 1,
        decreases width - i,
    {
        proof {
            lemma2_to64();
            lemma_pow2_unfold((i + 1) as nat);
            if i + 1 < 31 {
                lemma_pow2_strictly_increases((i + 1) as nat, 31);
            }
        }
        n = n * 2;
        i = i + 1;
    }
    n
}

/// An aligned block of `size` addresses below `2^32` ends at or below `2^32`.
proof fn lemma_aligned_block_fits(base: int, width: nat)
    requires
        0 <= base < 0x1_0000_0000,
        width <= 32,
        base % pow2(width) as int == 0,
    ensures
        base + pow2(width) <= 0x1_0000_0000,
{
    let s = pow2(width) as int;
    let m = pow2((32 - width) as nat) as int;
    lemma2_to64();
    lemma_pow2_pos(width);
    lemma_pow2_adds(width, (32 - width) as nat);
    assert(s * m == 0x1_0000_0000);
    let q = base / s;
    assert(base == s * q) by {
        vstd::arithmetic::div_mod::lemma_fundamental_div_mod(base, s);
    }
    assert(q < m) by (nonlinear_arith)
        requires
            s > 0,
            s * q < s * m,
    ;
    assert(s * q + s <= s * m) by (nonlinear_arith)
        requires
            s > 0,
            q + 1 <= m,
    ;
}

impl Subnet {
    /// The network address, the first of the block.
    pub closed spec fn first(self) -> int {
        self.base as int
    }

    /// The number of host bits.
    pub closed spec fn bits(self) -> nat {
        self.width as nat
    }

    /// The number of addresses in the block, reserved ones included.
    pub open spec fn size(self) -> int {
        pow2(self.bits()) as int
    }

    /// The block is aligned, not wider than `MAX_WIDTH_BITS` and ends inside
    /// the IPv4 address space.
    pub open spec fn wf(self) -> bool {
        &&& 0 < self.bits() <= MAX_WIDTH_BITS
        &&& 0 <= self.first()
        &&& self.first() % self.size() == 0
        &&& self.first() + self.size() <= 0x1_0000_0000
        &&& 2 <= self.size() <= 0x100_0000
    }

    /// `ip` lies in the block.
    pub open spec fn contains(self, ip: u32) -> bool {
        self.first() <= ip < self.first() + self.size()
    }

    /// `ip` is the network address, the gateway or the broadcast address.
    pub open spec fn is_reserved(self, ip: u32) -> bool {
        ||| ip == self.first()
        ||| ip == self.first() + 1
        ||| ip == self.first() + self.size() - 1
    }

    /// `ip` lies in the block and is not reserved.
    pub open spec fn is_usable(self, ip: u32) -> bool {
        self.contains(ip) && !self.is_reserved(ip)
    }

    /// The number of usable addresses: the size less the three reserved
    /// ones, and none where the block is too small to hold all three.
    pub open spec fn pool_size(self) -> int {
        if self.size() >= 3 {
            self.size() - 3
        } else {
            0
        }
    }

    /// The subnet of `2^width` addresses at `base`.
    pub fn new(base: u32, width: u32) -> (r: Result<Subnet, SubnetError>)
        ensures
            r is Ok <==> valid_subnet(base, width),
            r matches Ok(s) ==> s.wf() && s.first() == base && s.bits() == width,
            r matches Err(e) ==> (e == SubnetError::InvalidWidth <==> !(0 < width
                <= MAX_WIDTH_BITS)),
    {
        if width == 0 || width > MAX_WIDTH_BITS {
            return Err(SubnetError::InvalidWidth);
        }
        let size = block_size(width);
        if base % size != 0 {
            return Err(SubnetError::Misaligned);
        }
        proof {
            lemma2_to64();
            lemma_aligned_block_fits(base as int, width as nat);
            lemma_pow2_strictly_increases(0, width as nat);
            if width < 24 {
                lemma_pow2_strictly_increases(width as nat, 24);
            }
        }
        Ok(Subnet { base, width })
    }

    /// The subnet of `2^width` addresses at `base`, where the two are known
    /// to describe one.
    pub(crate) fn at(base: u32, width: u32) -> (s: Subnet)
        requires
            valid_subnet(base, width),
        ensures
            s.wf(),
            s.first() == base,
            s.bits() == width,
    {
        proof {
            lemma2_to64();
            lemma_aligned_block_fits(base as int, width as nat);
            lemma_pow2_strictly_increases(0, width as nat);
            if width < 24 {
                lemma_pow2_strictly_increases(width as nat, 24);
            }
        }
        Subnet { base, width }
    }

    /// The network address.
    pub fn network_address(&self) -> (ip: u32)
        ensures
            ip == self.first(),
    {
        self.base
    }

    /// The number of host bits.
    pub fn width_bits(&self) -> (w: u32)
        ensures
            w == self.bits(),
    {
        self.width
    }

    /// The number of addresses in the block.
    pub fn address_count(&self) -> (n: u32)
        requires
            self.wf(),
        ensures
            n == self.size(),
    {
        block_size(self.width)
    }

    /// The gateway, the second address of the block.
    pub fn gateway(&self) -> (ip: u32)
        requires
            self.wf(),
        ensures
            ip == self.first() + 1,
    {
        self.base + 1
    }

    /// The broadcast address, the last of the block.
    pub fn broadcast(&self) -> (ip: u32)
        requires
            self.wf(),
        ensures
            ip == self.first() + self.size() - 1,
    {
        let size = block_size(self.width);
        self.base + (size - 1)
    }

    /// The number of addresses that can be handed out.
    pub fn capacity(&self) -> (n: u32)
        requires
            self.wf(),
        ensures
            n == self.pool_size(),
    {
        let size = block_size(self.width);
        if size >= 3 {
            size - 3
        } else {
            0
        }
    }

    /// Whether `ip` lies in the block.
    pub fn contains_address(&self, ip: u32) -> (b: bool)
        requires
            self.wf(),
        ensures
            b == self.contains(ip),
    {
        let size = block_size(self.width);
        self.base <= ip && ip - self.base < size
    }

    /// Whether `ip` is one of the three reserved addresses.
    pub fn is_reserved_address(&self, ip: u32) -> (b: bool)
        requires
            self.wf(),
        ensures
            b == self.is_reserved(ip),
    {
        let size = block_size(self.width);
        ip == self.base || ip == self.base + 1 || ip == self.base + (size - 1)
    }

    /// Whether `ip` can be handed out: inside the block and not reserved.
    pub fn is_usable_address(&self, ip: u32) -> (b: bool)
        requires
            self.wf(),
        ensures
            b == self.is_usable(ip),
    {
        self.contains_address(ip) && !self.is_reserved_address(ip)
    }

    /// Whether the two blocks share no address.
    pub open spec fn disjoint(self, other: Subnet) -> bool {
        self.first() + self.size() <= other.first() || other.first() + other.size()
            <= self.first()
    }
}

/// The usable addresses of a subnet are as many as its pool size says.
pub proof fn lemma_usable_count(subnet: Subnet)
    requires
        subnet.wf(),
    ensures
        Set::new(|ip: int| 0 <= ip <= u32::MAX && subnet.is_usable(ip as u32)).finite(),
        Set::new(|ip: int| 0 <= ip <= u32::MAX && subnet.is_usable(ip as u32)).len()
            == subnet.pool_size(),
{
    let usable = Set::new(|ip: int| 0 <= ip <= u32::MAX && subnet.is_usable(ip as u32));
    let lo = subnet.first() + 2;
    let hi = subnet.first() + subnet.size() - 1;
    if subnet.size() >= 3 {
        vstd::set_lib::lemma_int_range(lo, hi);
        assert(usable =~= vstd::set_lib::set_int_range(lo, hi));
    } else {
        assert(usable =~= Set::<int>::empty());
    }
}

/// Hands out the usable addresses of one subnet, lowest first.
pub struct AddressAllocator {
    subnet: Subnet,
    used: Vec<bool>,
}

impl AddressAllocator {
    /// The subnet that the addresses come from.
    pub closed spec fn subnet(self) -> Subnet {
        self.subnet
    }

    /// The addresses that are in use.
    pub closed spec fn allocated(self) -> Set<u32> {
        Set::new(
            |ip: u32| self.subnet.contains(ip) && self.used@[ip as int - self.subnet.first()],
        )
    }

    /// The allocator's invariant: it covers its subnet, and only usable
    /// addresses are in use.
    pub closed spec fn wf(self) -> bool {
        &&& self.subnet.wf()
        &&& self.used@.len() == self.subnet.size()
        &&& !self.used@[0]
        &&& !self.used@[1]
        &&& !self.used@[self.subnet.size() - 1]
    }

    /// `ip` is usable and not in use.
    pub open spec fn is_free(self, ip: u32) -> bool {
        self.subnet().is_usable(ip) && !self.allocated().contains(ip)
    }

    /// `ip` is free and no lower address is.
    pub open spec fn is_lowest_free(self, ip: u32) -> bool {
        self.is_free(ip) && forall|other: u32| other < ip ==> !self.is_free(other)
    }

    /// The address that the next allocation returns, if there is one.
    pub open spec fn lowest_free(self) -> Option<u32> {
        if exists|ip: u32| self.is_lowest_free(ip) {
            Some(choose|ip: u32| self.is_lowest_free(ip))
        } else {
            None
        }
    }

    /// The answer to an allocation in this state.
    pub open spec fn allocate_reply(self) -> Result<u32, AllocError> {
        match self.lowest_free() {
            Some(ip) => Ok(ip),
            None => Err(AllocError::PoolExhausted),
        }
    }

    /// The answer to a release of `ip` in this state.
    pub open spec fn release_reply(self, ip: u32) -> Result<(), AllocError> {
        if self.allocated().contains(ip) {
            Ok(())
        } else {
            Err(AllocError::NotAllocated)
        }
    }

    /// The two allocators hand out the addresses of one subnet and have the
    /// same addresses in use.
    pub open spec fn agrees(self, other: AddressAllocator) -> bool {
        self.subnet() == other.subnet() && self.allocated() == other.allocated()
    }

    /// The allocator is in the state that an allocation leaves `before` in:
    /// the address that was handed out is in use, if there was one to hand
    /// out.
    pub open spec fn follows_allocate(self, before: AddressAllocator) -> bool {
        &&& self.subnet() == before.subnet()
        &&& self.allocated() == (match before.lowest_free() {
            Some(ip) => before.allocated().insert(ip),
            None => before.allocated(),
        })
    }

    /// The allocator is in the state that a release of `ip` leaves `before`
    /// in: the address is not in use.
    pub open spec fn follows_release(self, before: AddressAllocator, ip: u32) -> bool {
        &&& self.subnet() == before.subnet()
        &&& self.allocated() == before.allocated().remove(ip)
    }

    /// Every address in use is a usable address of the subnet.
    pub proof fn lemma_allocated_usable(self)
        requires
            self.wf(),
        ensures
            self.subnet().wf(),
            forall|ip: u32| self.allocated().contains(ip) ==> self.subnet().is_usable(ip),
    {
    }

    /// An allocator over `subnet` with no address in use.
    pub fn new(subnet: Subnet) -> (a: AddressAllocator)
        requires
            subnet.wf(),
        ensures
            a.wf(),
            a.subnet() == subnet,
            a.allocated() == Set::<u32>::empty(),
    {
        let size = subnet.address_count();
        let mut used: Vec<bool> = Vec::new();
        let mut i: u32 = 0;
        while i < size
            invariant
                i <= size,
                used@.len() == i,
                forall|j: int| 0 <= j < i ==> !used@[j],
            decreases size - i,
        {
            used.push(false);
            i = i + 1;
        }
        let a = AddressAllocator { subnet, used };
        assert(a.allocated() =~= Set::<u32>::empty());
        a
    }

    /// The subnet that the addresses come from.
    pub fn get_subnet(&self) -> (s: Subnet)
        ensures
            s == self.subnet(),
    {
        self.subnet
    }

    /// Whether `ip` is in use.
    pub fn is_allocated(&self, ip: u32) -> (b: bool)
        requires
            self.wf(),
        ensures
            b == self.allocated().contains(ip),
    {
        if self.subnet.contains_address(ip) {
            let offset = (ip - self.subnet.base) as usize;
            self.used[offset]
        } else {
            false
        }
    }

    /// Takes the lowest usable address that is not in use.
    ///
    /// Fails with `PoolExhausted`, and changes nothing, exactly when no usable
    /// address is free.
    pub fn allocate(&mut self) -> (r: Result<u32, AllocError>)
        requires
            old(self).wf(),
        ensures
            final(self).wf(),
            final(self).follows_allocate(*old(self)),
            r == old(self).allocate_reply(),
            match r {
                Ok(ip) => old(self).is_lowest_free(ip) && final(self).allocated() == old(self).allocated().insert(ip),
                Err(e) => e == AllocError::PoolExhausted && (forall|ip: u32|
                    !old(self).is_free(ip)) && final(self).allocated() == old(self).allocated(),
            },
    {
        let last = (self.subnet.address_count() - 1) as usize;
        let mut i: usize = 2;
        while i < last
            invariant
                2 <= i,
                *self == *old(self),
                self.wf(),
                last == self.subnet.size() - 1,
                forall|j: int| 2 <= j < i && j < last ==> self.used@[j],
            decreases last - i,
        {
            if !self.used[i] {
                let ip = self.subnet.base + i as u32;
                self.used.set(i, true);
                proof {
                    assert(old(self).is_free(ip));
                    assert forall|other: u32| other < ip implies !old(self).is_free(other) by {
                        if old(self).subnet.is_usable(other) {
                            assert(old(self).used@[other as int - old(self).subnet.first()]);
                        }
                    }
                    assert(self.allocated() =~= old(self).allocated().insert(ip));
                    old(self).lemma_lowest_free_is(ip);
                }
                return Ok(ip);
            }
            i = i + 1;
        }
        proof {
            assert forall|ip: u32| !old(self).is_free(ip) by {
                if old(self).subnet.is_usable(ip) {
                    assert(old(self).used@[ip as int - old(self).subnet.first()]);
                }
            }
        }
        Err(AllocError::PoolExhausted)
    }

    /// Returns `ip` to the pool.
    ///
    /// Fails with `NotAllocated`, and changes nothing, exactly when `ip` is
    /// not in use.
    pub fn release(&mut self, ip: u32) -> (r: Result<(), AllocError>)
        requires
            old(self).wf(),
        ensures
            final(self).wf(),
            final(self).follows_release(*old(self), ip),
            r == old(self).release_reply(ip),
            match r {
                Ok(()) => old(self).allocated().contains(ip) && final(self).allocated() == old(self).allocated().remove(ip),
                Err(e) => e == AllocError::NotAllocated && !old(self).allocated().contains(ip)
                    && final(self).allocated() == old(self).allocated(),
            },
    {
        if !self.is_allocated(ip) {
            assert(self.allocated() =~= self.allocated().remove(ip));
            return Err(AllocError::NotAllocated);
        }
        let offset = (ip - self.subnet.base) as usize;
        self.used.set(offset, false);
        proof {
            assert(self.allocated() =~= old(self).allocated().remove(ip));
        }
        Ok(())
    }

    /// Where an address is free, there is a lowest free address, and it is
    /// not above that one: an allocation succeeds.
    pub proof fn lemma_free_address_is_found(self, ip: u32)
        requires
            self.is_free(ip),
        ensures
            self.lowest_free() is Some,
            self.lowest_free()->0 <= ip,
            self.is_lowest_free(self.lowest_free()->0),
            self.allocate_reply() is Ok,
        decreases ip,
    {
        if forall|other: u32| other < ip ==> !self.is_free(other) {
            assert(self.is_lowest_free(ip));
            self.lemma_lowest_free_is(ip);
        } else {
            let other = choose|other: u32| other < ip && self.is_free(other);
            self.lemma_free_address_is_found(other);
        }
    }

    /// The lowest free address is the one that `lowest_free` names.
    pub proof fn lemma_lowest_free_is(self, ip: u32)
        requires
            self.is_lowest_free(ip),
        ensures
            self.lowest_free() == Some(ip),
    {
        let chosen = choose|c: u32| self.is_lowest_free(c);
        assert(self.is_lowest_free(chosen));
        assert(chosen == ip) by {
            if chosen < ip {
                assert(!self.is_free(chosen));
            }
            if ip < chosen {
                assert(!self.is_free(ip));
            }
        }
    }
}

/// Allocation is a function of the subnet and of the addresses in use: two
/// allocators that agree on both give the same answer to the next request
/// and agree again after it, so that equal sequences of requests are
/// answered alike from the first request to the last.
pub proof fn lemma_allocation_deterministic(a: AddressAllocator, b: AddressAllocator)
    requires
        a.agrees(b),
    ensures
        a.allocate_reply() == b.allocate_reply(),
        forall|ip: u32| a.release_reply(ip) == b.release_reply(ip),
        forall|a2: AddressAllocator, b2: AddressAllocator|
            #![trigger a2.follows_allocate(a), b2.follows_allocate(b)]
            a2.follows_allocate(a) && b2.follows_allocate(b) ==> a2.agrees(b2),
        forall|a2: AddressAllocator, b2: AddressAllocator, ip: u32|
            #![trigger a2.follows_release(a, ip), b2.follows_release(b, ip)]
            a2.follows_release(a, ip) && b2.follows_release(b, ip) ==> a2.agrees(b2),
{
    assert forall|ip: u32| a.is_free(ip) == b.is_free(ip) by {}
    assert forall|ip: u32| a.is_lowest_free(ip) == b.is_lowest_free(ip) by {
        if a.is_lowest_free(ip) {
            assert forall|other: u32| other < ip implies !b.is_free(other) by {
                assert(!a.is_free(other));
            }
        }
        if b.is_lowest_free(ip) {
            assert forall|other: u32| other < ip implies !a.is_free(other) by {
                assert(!b.is_free(other));
            }
        }
    }
    if exists|ip: u32| a.is_lowest_free(ip) {
        let ip = choose|ip: u32| a.is_lowest_free(ip);
        a.lemma_lowest_free_is(ip);
        b.lemma_lowest_free_is(ip);
    }
}

/// One request to an allocator.
pub enum AllocRequest {
    /// Hand out an address.
    Allocate,
    /// Take this address back.
    Release(u32),
}

/// The answer to one request to an allocator.
pub enum AllocReply {
    /// The address that was handed out.
    Allocated(u32),
    /// The address was taken back.
    Released,
    /// The request was refused.
    Refused(AllocError),
}

/// The answer of `allocator` to `request`.
pub open spec fn reply_to(allocator: AddressAllocator, request: AllocRequest) -> AllocReply {
    match request {
        AllocRequest::Allocate => match allocator.allocate_reply() {
            Ok(ip) => AllocReply::Allocated(ip),
            Err(e) => AllocReply::Refused(e),
        },
        AllocRequest::Release(ip) => match allocator.release_reply(ip) {
            Ok(()) => AllocReply::Released,
            Err(e) => AllocReply::Refused(e),
        },
    }
}

/// `after` is the state in which `request` leaves `before`.
pub open spec fn follows(after: AddressAllocator, before: AddressAllocator, request: AllocRequest) -> bool {
    match request {
        AllocRequest::Allocate => after.follows_allocate(before),
        AllocRequest::Release(ip) => after.follows_release(before, ip),
    }
}

/// `states` are the states that an allocator goes through as it serves
/// `requests` one after the other, from the state before the first request
/// to the state after the last.
pub open spec fn is_run(states: Seq<AddressAllocator>, requests: Seq<AllocRequest>) -> bool {
    &&& states.len() == requests.len() + 1
    &&& forall|i: int|
        0 <= i < requests.len() ==> follows(states[i + 1], states[i], #[trigger] requests[i])
}

/// The answers that an allocator gives as it goes through `states`.
pub open spec fn replies(states: Seq<AddressAllocator>, requests: Seq<AllocRequest>) -> Seq<
    AllocReply,
> {
    Seq::new(requests.len(), |i: int| reply_to(states[i], requests[i]))
}

/// Two allocators that begin in agreement and serve the same requests agree
/// after each of them.
proof fn lemma_runs_agree(
    a: Seq<AddressAllocator>,
    b: Seq<AddressAllocator>,
    requests: Seq<AllocRequest>,
    i: int,
)
    requires
        is_run(a, requests),
        is_run(b, requests),
        a[0].agrees(b[0]),
        0 <= i <= requests.len(),
    ensures
        a[i].agrees(b[i]),
    decreases i,
{
    if i > 0 {
        lemma_runs_agree(a, b, requests, i - 1);
        lemma_allocation_deterministic(a[i - 1], b[i - 1]);
        assert(follows(a[i], a[i - 1], requests[i - 1]));
        assert(follows(b[i], b[i - 1], requests[i - 1]));
    }
}

/// The answers to a sequence of requests are a function of the subnet, of
/// the addresses in use at the beginning and of the requests: two allocators
/// that begin in agreement and serve the same requests give the same answers.
pub proof fn lemma_runs_deterministic(
    a: Seq<AddressAllocator>,
    b: Seq<AddressAllocator>,
    requests: Seq<AllocRequest>,
)
    requires
        is_run(a, requests),
        is_run(b, requests),
        a[0].agrees(b[0]),
    ensures
        replies(a, requests) == replies(b, requests),
{
    assert forall|i: int| 0 <= i < requests.len() implies reply_to(a[i], requests[i]) == reply_to(
        b[i],
        requests[i],
    ) by {
        lemma_runs_agree(a, b, requests, i);
        lemma_allocation_deterministic(a[i], b[i]);
    }
    assert(replies(a, requests) =~= replies(b, requests));
}

/// An address that was released stays free until an allocation hands it out
/// again: while the set of addresses in use only shrinks, a second release of
/// it is refused.
pub proof fn lemma_no_double_free(before: AddressAllocator, after: AddressAllocator, ip: u32)
    requires
        before.release_reply(ip) is Ok,
        after.allocated().subset_of(before.allocated().remove(ip)),
    ensures
        after.release_reply(ip) == Err::<(), AllocError>(AllocError::NotAllocated),
{
}

} // verus!
