use mini_vmm::devices::{BusDevice, DebugPort, IoDirection, IoError, IoExit, IoOutcome, SerialPort};
use mini_vmm::memory::{GuestMemory, MemoryError};
use mini_vmm::vmm::{
    check_api_version, guest_memory_region, handle_exit, initial_regs, real_mode_cr0, real_mode_segment,
    real_mode_sregs, run_area_len, ExitAction, SegmentSetup, SetupError, SpecialRegs, VcpuExit, VmmError,
    GUEST_ENTRY, GUEST_MEM_SIZE, GUEST_MEM_START,
};

#[test]
fn api_version_twelve_is_accepted() {
    assert_eq!(check_api_version(12), Ok(()));
    assert_eq!(check_api_version(11), Err(SetupError::UnsupportedApiVersion(11)));
    assert_eq!(check_api_version(-1), Err(SetupError::ApiVersionUnavailable));
}

#[test]
fn run_area_size_must_be_nonnegative() {
    assert_eq!(run_area_len(12288), Ok(12288));
    assert_eq!(run_area_len(0), Ok(0));
    assert_eq!(run_area_len(-22), Err(SetupError::RunAreaSizeUnavailable(-22)));
}

#[test]
fn guest_starts_at_the_loaded_image() {
    let r = initial_regs();
    assert_eq!(r.rip, 0x1000);
    assert_eq!(r.rsp, 0x2000);
    assert_eq!(r.rflags, 0x2);
}

#[test]
fn real_mode_clears_protection_enable_only() {
    assert_eq!(real_mode_cr0(0x6000_0011), 0x6000_0010);
    assert_eq!(real_mode_cr0(0x6000_0010), 0x6000_0010);
    assert_eq!(real_mode_cr0(u64::MAX), u64::MAX - 1);
    let s = real_mode_segment();
    assert_eq!((s.base, s.selector, s.limit), (0, 0, 0xffff));
}

#[test]
fn guest_memory_is_mapped_at_0x1000() {
    let r = guest_memory_region(0x7f00_0000_0000);
    assert_eq!(r.slot, 0);
    assert_eq!(r.flags, 0);
    assert_eq!(r.guest_phys_addr, 0x1000);
    assert_eq!(r.memory_size, GUEST_MEM_SIZE);
    assert_eq!(r.memory_size, 8192);
    assert_eq!(r.userspace_addr, 0x7f00_0000_0000);
}

#[test]
fn raw_guest_image_must_fit_8192_bytes() {
    let mut mem = GuestMemory::new_at(GUEST_MEM_START, GUEST_MEM_SIZE).unwrap();
    assert_eq!(mem.load(GUEST_ENTRY, &vec![0xf4; 8192]), Ok(()));
    assert_eq!(
        mem.load(GUEST_ENTRY, &vec![0x90; 8193]),
        Err(MemoryError::WriteOutOfRange { end: 0x1000 + 8193, limit: 0x3000 })
    );
    assert_eq!(mem.host_bytes()[0], 0xf4);
}

#[test]
fn real_mode_special_registers() {
    let odd = SegmentSetup { base: 0x1234, selector: 8, limit: 0xfffff };
    let r = real_mode_sregs(SpecialRegs { cr0: 0x11, cs: odd, ds: odd, es: odd, fs: odd, gs: odd, ss: odd });
    let flat = SegmentSetup { base: 0, selector: 0, limit: 0xffff };
    assert_eq!(r, SpecialRegs { cr0: 0x10, cs: flat, ds: flat, es: flat, fs: flat, gs: flat, ss: flat });
}

fn devices() -> Vec<BusDevice> {
    vec![BusDevice::Debug(DebugPort), BusDevice::Serial(SerialPort::new())]
}

#[test]
fn sample_guest_prints_a_then_halts() {
    let mut run = vec![0u8; 64];
    run[40] = b'A';
    let mut devs = devices();
    let out = VcpuExit::Io(IoExit { direction: IoDirection::Out, size: 1, port: 0xe9, count: 1, data_offset: 40 });
    assert_eq!(
        handle_exit(&out, &mut run, &mut devs),
        Ok(ExitAction::Resume(IoOutcome::Handled(vec![b'A'])))
    );
    assert_eq!(handle_exit(&VcpuExit::Halt, &mut run, &mut devs), Ok(ExitAction::Stop));
}

#[test]
fn failing_exits_end_the_run() {
    let mut run = vec![0u8; 8];
    let mut devs = devices();
    assert_eq!(handle_exit(&VcpuExit::FailEntry, &mut run, &mut devs), Err(VmmError::FailedEntry));
    assert_eq!(handle_exit(&VcpuExit::InternalError, &mut run, &mut devs), Err(VmmError::InternalError));
    assert_eq!(handle_exit(&VcpuExit::Mmio, &mut run, &mut devs), Err(VmmError::UnmappedMmio));
    assert_eq!(handle_exit(&VcpuExit::Other(42), &mut run, &mut devs), Err(VmmError::UnhandledExit(42)));
    let bad = VcpuExit::Io(IoExit { direction: IoDirection::Other(3), size: 1, port: 0xe9, count: 1, data_offset: 0 });
    assert_eq!(handle_exit(&bad, &mut run, &mut devs), Err(VmmError::Io(IoError::UnknownDirection(3))));
}

