use mini_vmm::memory::{GuestMemory, MemoryError};

#[test]
fn new_memory_is_zeroed() {
    let mem = GuestMemory::new(64).unwrap();
    assert_eq!(mem.size(), 64);
    assert_eq!(mem.start_addr(), 0);
    assert!(mem.host_bytes().iter().all(|b| *b == 0));
}

#[test]
fn empty_memory_is_refused() {
    assert!(matches!(GuestMemory::new(0), Err(MemoryError::EmptyRegion)));
    assert!(matches!(GuestMemory::new_at(0x1000, 0), Err(MemoryError::EmptyRegion)));
}

#[test]
fn region_past_the_last_address_is_refused() {
    assert!(matches!(
        GuestMemory::new_at(u64::MAX - 4, 8),
        Err(MemoryError::TooLarge { start, size: 8 }) if start == u64::MAX - 4
    ));
}

#[test]
fn write_puts_bytes_at_guest_address() {
    let mut mem = GuestMemory::new(16).unwrap();
    assert_eq!(mem.write(4, &[1, 2, 3]), Ok(()));
    assert_eq!(mem.host_bytes(), &[0, 0, 0, 0, 1, 2, 3, 0, 0, 0, 0, 0, 0, 0, 0, 0]);
}

#[test]
fn write_into_region_at_an_offset() {
    let mut mem = GuestMemory::new_at(0x1000, 16).unwrap();
    assert_eq!(mem.start_addr(), 0x1000);
    assert_eq!(mem.write(0x1002, &[7, 8]), Ok(()));
    assert_eq!(&mem.host_bytes()[..5], &[0, 0, 7, 8, 0]);
    assert_eq!(
        mem.write(0xfff, &[1]),
        Err(MemoryError::AddressOutOfRange { guest_addr: 0xfff, start: 0x1000, end: 0x1010 })
    );
    assert_eq!(
        mem.write(0x100f, &[1, 2]),
        Err(MemoryError::WriteOutOfRange { end: 0x1011, limit: 0x1010 })
    );
}

#[test]
fn write_up_to_the_last_byte_succeeds() {
    let mut mem = GuestMemory::new(8).unwrap();
    assert_eq!(mem.write(6, &[9, 9]), Ok(()));
    assert_eq!(mem.host_bytes()[7], 9);
}

#[test]
fn write_past_the_end_is_refused_and_changes_nothing() {
    let mut mem = GuestMemory::new(8).unwrap();
    assert_eq!(
        mem.write(6, &[1, 2, 3]),
        Err(MemoryError::WriteOutOfRange { end: 9, limit: 8 })
    );
    assert!(mem.host_bytes().iter().all(|b| *b == 0));
}

#[test]
fn empty_write_at_the_end_is_refused() {
    let mut mem = GuestMemory::new(8).unwrap();
    assert_eq!(
        mem.write(8, &[]),
        Err(MemoryError::AddressOutOfRange { guest_addr: 8, start: 0, end: 8 })
    );
}

#[test]
fn load_is_a_write() {
    let mut mem = GuestMemory::new(0x2000).unwrap();
    assert_eq!(mem.load(0x1000, &[0xf4]), Ok(()));
    assert_eq!(mem.host_bytes()[0x1000], 0xf4);
    assert_eq!(
        mem.load(0x1fff, &[1, 2]),
        Err(MemoryError::WriteOutOfRange { end: 0x2001, limit: 0x2000 })
    );
}

#[test]
fn guest_to_host_translates_inside_memory_only() {
    let mem = GuestMemory::new_at(0x1000, 0x100).unwrap();
    assert_eq!(mem.guest_to_host(0x1010), Ok(0x10));
    assert_eq!(mem.guest_to_host(0x10ff), Ok(0xff));
    assert_eq!(
        mem.guest_to_host(0x1100),
        Err(MemoryError::AddressOutOfRange { guest_addr: 0x1100, start: 0x1000, end: 0x1100 })
    );
    assert_eq!(
        mem.guest_to_host(0x10),
        Err(MemoryError::AddressOutOfRange { guest_addr: 0x10, start: 0x1000, end: 0x1100 })
    );
}
