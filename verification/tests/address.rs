use kurtosis_rust_lib::address::{AddressAllocator, AllocError, Subnet, SubnetError, MAX_WIDTH_BITS};
use kurtosis_rust_lib::pool::{PoolError, SubnetPool};

const BASE: u32 = 0x0a00_0000; // 10.0.0.0

fn subnet(base: u32, width: u32) -> Subnet {
    Subnet::new(base, width).unwrap()
}

#[test]
fn subnet_rejects_width_zero() {
    assert_eq!(Subnet::new(BASE, 0), Err(SubnetError::InvalidWidth));
}

#[test]
fn subnet_rejects_width_above_the_limit() {
    assert_eq!(MAX_WIDTH_BITS, 24);
    assert_eq!(Subnet::new(0, 25), Err(SubnetError::InvalidWidth));
    assert!(Subnet::new(0, 24).is_ok());
}

#[test]
fn subnet_rejects_a_base_that_is_not_aligned() {
    assert_eq!(Subnet::new(BASE + 8, 4), Err(SubnetError::Misaligned));
    assert!(Subnet::new(BASE + 16, 4).is_ok());
}

#[test]
fn subnet_of_width_four_has_sixteen_addresses_and_thirteen_usable() {
    let s = subnet(BASE, 4);
    assert_eq!(s.network_address(), BASE);
    assert_eq!(s.width_bits(), 4);
    assert_eq!(s.address_count(), 16);
    assert_eq!(s.gateway(), BASE + 1);
    assert_eq!(s.broadcast(), BASE + 15);
    assert_eq!(s.capacity(), 13);
}

#[test]
fn subnet_of_width_two_has_one_usable_address() {
    let s = subnet(BASE, 2);
    assert_eq!(s.address_count(), 4);
    assert_eq!(s.capacity(), 1);
    assert!(s.is_usable_address(BASE + 2));
    assert!(!s.is_usable_address(BASE + 3));
}

#[test]
fn subnet_of_width_one_has_no_usable_address() {
    let s = subnet(BASE, 1);
    assert_eq!(s.address_count(), 2);
    assert_eq!(s.capacity(), 0);
    assert_eq!(s.gateway(), s.broadcast());
    let mut a = AddressAllocator::new(s);
    assert_eq!(a.allocate(), Err(AllocError::PoolExhausted));
}

#[test]
fn subnet_of_the_largest_width_has_its_full_size() {
    let s = subnet(BASE, 24);
    assert_eq!(s.address_count(), 1 << 24);
    assert_eq!(s.capacity(), (1 << 24) - 3);
    assert_eq!(s.broadcast(), 0x0aff_ffff);
}

#[test]
fn subnet_at_the_end_of_the_address_space() {
    let s = subnet(0xffff_fff0, 4);
    assert_eq!(s.broadcast(), 0xffff_ffff);
    assert!(s.contains_address(0xffff_ffff));
    assert!(!s.contains_address(0xffff_ffef));
}

#[test]
fn subnet_knows_its_addresses_and_its_reserved_ones() {
    let s = subnet(BASE, 4);
    assert!(!s.contains_address(BASE - 1));
    assert!(s.contains_address(BASE));
    assert!(s.contains_address(BASE + 15));
    assert!(!s.contains_address(BASE + 16));
    assert!(s.is_reserved_address(BASE));
    assert!(s.is_reserved_address(BASE + 1));
    assert!(s.is_reserved_address(BASE + 15));
    assert!(!s.is_reserved_address(BASE + 2));
    assert!(!s.is_reserved_address(BASE + 14));
    let usable = (0..40u32).filter(|i| s.is_usable_address(BASE - 10 + i)).count();
    assert_eq!(usable as u32, s.capacity());
}

#[test]
fn allocator_hands_out_lowest_first() {
    let mut a = AddressAllocator::new(subnet(BASE, 4));
    assert_eq!(a.allocate(), Ok(BASE + 2));
    assert_eq!(a.allocate(), Ok(BASE + 3));
    assert_eq!(a.allocate(), Ok(BASE + 4));
    assert_eq!(a.release(BASE + 3), Ok(()));
    assert_eq!(a.allocate(), Ok(BASE + 3));
    assert_eq!(a.allocate(), Ok(BASE + 5));
}

#[test]
fn allocator_never_hands_out_a_reserved_address() {
    let s = subnet(BASE, 4);
    let mut a = AddressAllocator::new(s);
    let mut seen = Vec::new();
    while let Ok(ip) = a.allocate() {
        assert!(s.contains_address(ip));
        assert!(!s.is_reserved_address(ip));
        assert!(!seen.contains(&ip));
        seen.push(ip);
    }
    assert_eq!(seen.len(), 13);
    assert_eq!(seen, (2..15).map(|i| BASE + i).collect::<Vec<u32>>());
}

#[test]
fn allocator_is_exhausted_when_every_usable_address_is_taken() {
    let mut a = AddressAllocator::new(subnet(BASE, 2));
    assert_eq!(a.allocate(), Ok(BASE + 2));
    assert_eq!(a.allocate(), Err(AllocError::PoolExhausted));
    assert_eq!(a.allocate(), Err(AllocError::PoolExhausted));
    assert_eq!(a.release(BASE + 2), Ok(()));
    assert_eq!(a.allocate(), Ok(BASE + 2));
}

#[test]
fn allocator_refuses_to_release_what_is_not_allocated() {
    let mut a = AddressAllocator::new(subnet(BASE, 4));
    assert_eq!(a.release(BASE + 2), Err(AllocError::NotAllocated));
    assert_eq!(a.release(BASE), Err(AllocError::NotAllocated));
    assert_eq!(a.release(BASE + 15), Err(AllocError::NotAllocated));
    assert_eq!(a.release(BASE + 16), Err(AllocError::NotAllocated));
    assert_eq!(a.release(0), Err(AllocError::NotAllocated));
    assert_eq!(a.allocate(), Ok(BASE + 2));
}

#[test]
fn allocator_refuses_a_second_release() {
    let mut a = AddressAllocator::new(subnet(BASE, 4));
    assert_eq!(a.allocate(), Ok(BASE + 2));
    assert_eq!(a.allocate(), Ok(BASE + 3));
    assert_eq!(a.release(BASE + 2), Ok(()));
    assert_eq!(a.release(BASE + 2), Err(AllocError::NotAllocated));
    assert_eq!(a.release(BASE + 3), Ok(()));
    assert_eq!(a.release(BASE + 2), Err(AllocError::NotAllocated));
    assert_eq!(a.allocate(), Ok(BASE + 2));
    assert_eq!(a.release(BASE + 2), Ok(()));
}

#[test]
fn allocator_tells_what_is_allocated() {
    let mut a = AddressAllocator::new(subnet(BASE, 4));
    assert_eq!(a.get_subnet(), subnet(BASE, 4));
    assert!(!a.is_allocated(BASE + 2));
    assert_eq!(a.allocate(), Ok(BASE + 2));
    assert!(a.is_allocated(BASE + 2));
    assert!(!a.is_allocated(BASE + 3));
    assert!(!a.is_allocated(BASE - 1));
    assert_eq!(a.release(BASE + 2), Ok(()));
    assert!(!a.is_allocated(BASE + 2));
}

/// One request to an allocator.
#[derive(Clone, Copy)]
enum Op {
    Allocate,
    Release(u32),
}

fn replay(ops: &[Op]) -> Vec<Result<u32, AllocError>> {
    let mut a = AddressAllocator::new(subnet(BASE, 3));
    ops.iter()
        .map(|op| match op {
            Op::Allocate => a.allocate(),
            Op::Release(ip) => a.release(*ip).map(|_| *ip),
        })
        .collect()
}

#[test]
fn allocator_answers_equal_requests_alike() {
    let ops = [
        Op::Allocate,
        Op::Allocate,
        Op::Release(BASE + 2),
        Op::Release(BASE + 2),
        Op::Allocate,
        Op::Allocate,
        Op::Allocate,
        Op::Allocate,
        Op::Allocate,
        Op::Release(BASE + 4),
        Op::Allocate,
    ];
    let first = replay(&ops);
    assert_eq!(
        first,
        vec![
            Ok(BASE + 2),
            Ok(BASE + 3),
            Ok(BASE + 2),
            Err(AllocError::NotAllocated),
            Ok(BASE + 2),
            Ok(BASE + 4),
            Ok(BASE + 5),
            Ok(BASE + 6),
            Err(AllocError::PoolExhausted),
            Ok(BASE + 4),
            Ok(BASE + 4),
        ]
    );
    assert_eq!(replay(&ops), first);
}

#[test]
fn pool_checks_its_parameters() {
    assert_eq!(SubnetPool::new(BASE, 0, 4).err(), Some(PoolError::InvalidWidth));
    assert_eq!(SubnetPool::new(BASE, 25, 4).err(), Some(PoolError::InvalidWidth));
    assert_eq!(SubnetPool::new(BASE + 1, 4, 4).err(), Some(PoolError::Misaligned));
    assert_eq!(SubnetPool::new(0xffff_fff0, 4, 2).err(), Some(PoolError::TooLarge));
    assert!(SubnetPool::new(0xffff_fff0, 4, 1).is_ok());
    assert!(SubnetPool::new(BASE, 4, 0).is_ok());
}

#[test]
fn pool_leases_the_lowest_free_slot() {
    let mut pool = SubnetPool::new(BASE, 8, 3).unwrap();
    assert_eq!(pool.slot_count(), 3);
    assert_eq!(pool.get_slot_bits(), 8);
    let a = pool.acquire(4).unwrap();
    let b = pool.acquire(8).unwrap();
    let c = pool.acquire(2).unwrap();
    assert_eq!((a.network_address(), a.width_bits()), (BASE, 4));
    assert_eq!((b.network_address(), b.width_bits()), (BASE + 256, 8));
    assert_eq!((c.network_address(), c.width_bits()), (BASE + 512, 2));
    assert_eq!(pool.acquire(4), Err(PoolError::Exhausted));
    assert_eq!(pool.release(&b), Ok(()));
    assert_eq!(pool.acquire(3).unwrap().network_address(), BASE + 256);
}

#[test]
fn pool_refuses_widths_that_do_not_fit_a_slot() {
    let mut pool = SubnetPool::new(BASE, 4, 2).unwrap();
    assert_eq!(pool.acquire(0), Err(PoolError::InvalidWidth));
    assert_eq!(pool.acquire(5), Err(PoolError::InvalidWidth));
    assert!(pool.acquire(4).is_ok());
}

#[test]
fn pool_without_slots_is_exhausted() {
    let mut pool = SubnetPool::new(BASE, 4, 0).unwrap();
    assert_eq!(pool.acquire(4), Err(PoolError::Exhausted));
}

#[test]
fn pool_takes_back_only_what_it_leased() {
    let mut pool = SubnetPool::new(BASE, 4, 2).unwrap();
    let a = pool.acquire(4).unwrap();
    assert_eq!(pool.release(&subnet(BASE + 16, 4)), Err(PoolError::NotLeased));
    assert_eq!(pool.release(&subnet(BASE + 8, 3)), Err(PoolError::NotLeased));
    assert_eq!(pool.release(&subnet(BASE - 16, 4)), Err(PoolError::NotLeased));
    assert_eq!(pool.release(&subnet(BASE + 32, 4)), Err(PoolError::NotLeased));
    assert_eq!(pool.release(&a), Ok(()));
    assert_eq!(pool.release(&a), Err(PoolError::NotLeased));
}

#[test]
fn pool_leases_do_not_overlap() {
    let mut pool = SubnetPool::new(BASE, 6, 8).unwrap();
    let mut leases = Vec::new();
    for width in [1u32, 6, 3, 6, 2, 5, 4, 6] {
        leases.push(pool.acquire(width).unwrap());
    }
    for (i, a) in leases.iter().enumerate() {
        for b in leases.iter().skip(i + 1) {
            let a_end = a.network_address() + (a.address_count() - 1);
            let b_end = b.network_address() + (b.address_count() - 1);
            assert!(a_end < b.network_address() || b_end < a.network_address());
        }
    }
}
