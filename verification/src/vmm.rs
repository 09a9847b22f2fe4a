//! The decisions of the monitor: the vCPU's initial state, the checks on
//! what KVM reports while the VM is set up, and what is done on each exit.

use vstd::prelude::*;

use crate::memory::write_outcome;
use crate::devices::{data_in_run, handle_io_exit, io_exit_effect, outcome_view, IoError, IoExit, IoOutcome, PortDevice};

verus! {

/// The KVM API version this monitor is written for.
pub const KVM_API_VERSION: i32 = 12;
/// Guest physical address of the first instruction of a raw guest image.
pub const GUEST_ENTRY: u64 = 0x1000;
/// Real-mode stack pointer: the stack grows down from just below 0x2000.
pub const GUEST_STACK_TOP: u64 = 0x2000;
/// RFLAGS with only the reserved bit 1 set.
pub const RFLAGS_RESERVED: u64 = 0x2;
/// Guest physical address where guest RAM starts: the raw guest image is
/// its first byte.
pub const GUEST_MEM_START: u64 = 0x1000;
/// Size of guest RAM: 8192 bytes.
pub const GUEST_MEM_SIZE: u64 = 0x2000;
/// Limit of a real-mode segment.
pub const REAL_MODE_SEGMENT_LIMIT: u32 = 0xffff;

/// Why setting up the VM failed on what KVM reported.
#[derive(Debug, Clone, Copy, PartialEq, Eq, Structural)]
pub enum SetupError {
    /// KVM did not report its API version (the OS error says why).
    ApiVersionUnavailable,
    /// KVM reports an API version other than [`KVM_API_VERSION`].
    UnsupportedApiVersion(i32),
    /// KVM did not report the size of the vCPU run area (the OS error says why).
    RunAreaSizeUnavailable(i32),
}

/// Checks the API version that KVM reports.
pub fn check_api_version(version: i32) -> (r: Result<(), SetupError>)
    ensures
        version < 0 ==> r == Err::<(), SetupError>(SetupError::ApiVersionUnavailable),
        version >= 0 && version != KVM_API_VERSION ==> r == Err::<(), SetupError>(
            SetupError::UnsupportedApiVersion(version),
        ),
        version == KVM_API_VERSION ==> r is Ok,
{
    if version < 0 {
        return Err(SetupError::ApiVersionUnavailable);
    }
    if version != KVM_API_VERSION {
        return Err(SetupError::UnsupportedApiVersion(version));
    }
    Ok(())
}

/// The length of the vCPU run area from the size KVM reports.
pub fn run_area_len(size: i32) -> (r: Result<usize, SetupError>)
    ensures
        size < 0 ==> r == Err::<usize, SetupError>(SetupError::RunAreaSizeUnavailable(size)),
        size >= 0 ==> r == Ok::<usize, SetupError>(size as usize),
{
    if size < 0 {
        return Err(SetupError::RunAreaSizeUnavailable(size));
    }
    Ok(size as usize)
}

/// The general-purpose registers a raw guest starts with.
#[derive(Debug, Clone, Copy, PartialEq, Eq, Structural)]
pub struct InitialRegs {
    pub rip: u64,
    pub rsp: u64,
    pub rflags: u64,
}

/// The registers [`initial_regs`] gives.
pub open spec fn initial_regs_spec() -> InitialRegs {
    InitialRegs { rip: GUEST_ENTRY, rsp: GUEST_STACK_TOP, rflags: RFLAGS_RESERVED }
}

/// Registers for a raw guest: execution starts at the loaded image, with a
/// real-mode stack below 0x2000; every other register is zero.
pub fn initial_regs() -> (r: InitialRegs)
    ensures
        r == initial_regs_spec(),
{
    InitialRegs { rip: GUEST_ENTRY, rsp: GUEST_STACK_TOP, rflags: RFLAGS_RESERVED }
}

/// A segment register's base, selector and limit.
#[derive(Debug, Clone, Copy, PartialEq, Eq, Structural)]
pub struct SegmentSetup {
    pub base: u64,
    pub selector: u16,
    pub limit: u32,
}

/// The real-mode setting of every segment register (cs, ds, es, fs, gs, ss):
/// flat from address 0 with a 64 KiB limit.
pub fn real_mode_segment() -> (r: SegmentSetup)
    ensures
        r == (SegmentSetup { base: 0, selector: 0, limit: REAL_MODE_SEGMENT_LIMIT }),
{
    SegmentSetup { base: 0, selector: 0, limit: REAL_MODE_SEGMENT_LIMIT }
}

/// CR0 with the protection-enable bit (bit 0) cleared and every other bit
/// kept.
pub fn real_mode_cr0(cr0: u64) -> (r: u64)
    ensures
        r == cr0 & !1u64,
        r & 1 == 0,
        r | (cr0 & 1) == cr0,
{
    let r = cr0 & !1u64;
    assert(r & 1 == 0 && r | (cr0 & 1) == cr0) by (bit_vector)
        requires
            r == cr0 & !1u64,
    ;
    r
}

/// The special registers that real mode sets: CR0 and the six segment
/// registers (only their base, selector and limit).
#[derive(Debug, Clone, Copy, PartialEq, Eq, Structural)]
pub struct SpecialRegs {
    pub cr0: u64,
    pub cs: SegmentSetup,
    pub ds: SegmentSetup,
    pub es: SegmentSetup,
    pub fs: SegmentSetup,
    pub gs: SegmentSetup,
    pub ss: SegmentSetup,
}

/// The special registers for real mode: protection disabled in CR0, and
/// the code, data, extra, fs, gs and stack segments flat from address 0
/// with a 64 KiB limit.
pub fn real_mode_sregs(current: SpecialRegs) -> (r: SpecialRegs)
    ensures
        r.cr0 == current.cr0 & !1u64,
        ({
            let flat = SegmentSetup { base: 0, selector: 0, limit: REAL_MODE_SEGMENT_LIMIT };
            &&& r.cs == flat
            &&& r.ds == flat
            &&& r.es == flat
            &&& r.fs == flat
            &&& r.gs == flat
            &&& r.ss == flat
        }),
{
    SpecialRegs {
        cr0: real_mode_cr0(current.cr0),
        cs: real_mode_segment(),
        ds: real_mode_segment(),
        es: real_mode_segment(),
        fs: real_mode_segment(),
        gs: real_mode_segment(),
        ss: real_mode_segment(),
    }
}

/// The raw guest image is loaded at the first byte of guest memory, where
/// execution starts, and the initial stack lies inside guest memory.
pub proof fn lemma_entry_and_stack_in_guest_memory()
    ensures
        initial_regs_spec().rip == GUEST_MEM_START,
        GUEST_MEM_START < initial_regs_spec().rsp <= GUEST_MEM_START + GUEST_MEM_SIZE,
{
}

/// A raw guest image of `len` bytes loads into guest memory exactly when it
/// fits in its 8192 bytes.
pub proof fn lemma_raw_image_fits_iff(len: nat)
    ensures
        write_outcome(GUEST_MEM_START as int, GUEST_MEM_SIZE as nat, GUEST_ENTRY as int, len) is Ok
            <==> len <= GUEST_MEM_SIZE,
{
}

/// A KVM user memory region.
#[derive(Debug, Clone, Copy, PartialEq, Eq, Structural)]
pub struct MemoryRegion {
    pub slot: u32,
    pub flags: u32,
    pub guest_phys_addr: u64,
    pub memory_size: u64,
    pub userspace_addr: u64,
}

/// The region that maps guest RAM, backed at `userspace_addr`, at guest
/// physical addresses `GUEST_MEM_START..GUEST_MEM_START + GUEST_MEM_SIZE`.
pub fn guest_memory_region(userspace_addr: u64) -> (r: MemoryRegion)
    ensures
        r == (MemoryRegion {
            slot: 0,
            flags: 0,
            guest_phys_addr: GUEST_MEM_START,
            memory_size: GUEST_MEM_SIZE,
            userspace_addr,
        }),
{
    MemoryRegion {
        slot: 0,
        flags: 0,
        guest_phys_addr: GUEST_MEM_START,
        memory_size: GUEST_MEM_SIZE,
        userspace_addr,
    }
}

/// Why a vCPU exit ended the run of the VM.
#[derive(Debug, Clone, Copy, PartialEq, Eq, Structural)]
pub enum VmmError {
    /// KVM could not enter the guest.
    FailedEntry,
    /// KVM reported an internal error.
    InternalError,
    /// The guest accessed memory that is not mapped.
    UnmappedMmio,
    /// An exit reason this monitor does not handle.
    UnhandledExit(u32),
    /// A port I/O exit could not be handled.
    Io(IoError),
}

/// Why the vCPU left the guest.
#[derive(Debug, Clone, Copy, PartialEq, Eq, Structural)]
pub enum VcpuExit {
    Halt,
    Io(IoExit),
    FailEntry,
    InternalError,
    Mmio,
    Other(u32),
}

/// What to do after an exit.
#[derive(Debug, PartialEq, Eq)]
pub enum ExitAction {
    /// The guest halted: stop running it.
    Stop,
    /// Enter the guest again, after the port I/O exit came to this.
    Resume(IoOutcome),
}

/// What an exit leads to, as seen in contracts: `None` to stop, or what the
/// port I/O came to before the guest is entered again.
pub open spec fn action_view(r: Result<ExitAction, VmmError>) -> Result<Option<Option<(Seq<u8>, bool)>>, VmmError> {
    match r {
        Ok(ExitAction::Stop) => Ok(None),
        Ok(ExitAction::Resume(o)) => match outcome_view(Ok(o)) {
            Ok(v) => Ok(Some(v)),
            Err(e) => Err(VmmError::Io(e)),
        },
        Err(e) => Err(e),
    }
}

/// The run area, the devices and what an exit leads to (see
/// [`action_view`]) after the monitor handled `exit`.
pub open spec fn exit_effect<D: PortDevice>(exit: VcpuExit, run: Seq<u8>, devices: Seq<D>) -> (
    Seq<u8>,
    Seq<D>,
    Result<Option<Option<(Seq<u8>, bool)>>, VmmError>,
) {
    match exit {
        VcpuExit::Halt => (run, devices, Ok(None)),
        VcpuExit::Io(io) => {
            let (run1, devices1, out) = io_exit_effect(io, run, devices);
            (run1, devices1, match out {
                Ok(v) => Ok(Some(v)),
                Err(e) => Err(VmmError::Io(e)),
            })
        },
        VcpuExit::FailEntry => (run, devices, Err(VmmError::FailedEntry)),
        VcpuExit::InternalError => (run, devices, Err(VmmError::InternalError)),
        VcpuExit::Mmio => (run, devices, Err(VmmError::UnmappedMmio)),
        VcpuExit::Other(code) => (run, devices, Err(VmmError::UnhandledExit(code))),
    }
}

/// Decides what an exit of the vCPU leads to: a halt stops the VM, a port
/// I/O exit is handled and the guest resumed, anything else ends the run
/// with an error.
pub fn handle_exit<D: PortDevice>(exit: &VcpuExit, run: &mut [u8], devices: &mut Vec<D>) -> (r: Result<ExitAction, VmmError>)
    requires
        *exit matches VcpuExit::Io(io) ==> (!(io.direction is Other) ==> data_in_run(io, old(run)@.len())),
    ensures
        (final(run)@, final(devices)@, action_view(r)) == exit_effect(*exit, old(run)@, old(devices)@),
{
    match exit {
        VcpuExit::Halt => Ok(ExitAction::Stop),
        VcpuExit::Io(io) => match handle_io_exit(*io, run, devices) {
            Ok(outcome) => Ok(ExitAction::Resume(outcome)),
            Err(e) => Err(VmmError::Io(e)),
        },
        VcpuExit::FailEntry => Err(VmmError::FailedEntry),
        VcpuExit::InternalError => Err(VmmError::InternalError),
        VcpuExit::Mmio => Err(VmmError::UnmappedMmio),
        VcpuExit::Other(code) => Err(VmmError::UnhandledExit(*code)),
    }
}

/// Only a halt stops the VM. A port I/O exit that is handled resumes the
/// guest, with what the handling came to, and leaves the run area and the
/// devices as the handling leaves them; a port I/O exit that cannot be
/// handled ends the run with that error. Every other exit ends the run with
/// its own error and changes nothing.
pub proof fn lemma_exit_actions<D: PortDevice>(exit: VcpuExit, run: Seq<u8>, devices: Seq<D>)
    ensures
        exit_effect(exit, run, devices).2 == Ok::<Option<Option<(Seq<u8>, bool)>>, VmmError>(None) <==> exit
            is Halt,
        !(exit is Io) ==> exit_effect(exit, run, devices).0 == run && exit_effect(exit, run, devices).1
            == devices,
        exit matches VcpuExit::Io(io) ==> {
            let (run1, devices1, answer) = io_exit_effect(io, run, devices);
            &&& exit_effect(exit, run, devices).0 == run1
            &&& exit_effect(exit, run, devices).1 == devices1
            &&& answer matches Ok(o) ==> exit_effect(exit, run, devices).2 == Ok::<
                Option<Option<(Seq<u8>, bool)>>,
                VmmError,
            >(Some(o))
            &&& answer matches Err(e) ==> exit_effect(exit, run, devices).2 == Err::<
                Option<Option<(Seq<u8>, bool)>>,
                VmmError,
            >(VmmError::Io(e))
        },
        exit is FailEntry ==> exit_effect(exit, run, devices).2 == Err::<Option<Option<(Seq<u8>, bool)>>, VmmError>(
            VmmError::FailedEntry,
        ),
        exit is InternalError ==> exit_effect(exit, run, devices).2 == Err::<
            Option<Option<(Seq<u8>, bool)>>,
            VmmError,
        >(VmmError::InternalError),
        exit is Mmio ==> exit_effect(exit, run, devices).2 == Err::<Option<Option<(Seq<u8>, bool)>>, VmmError>(
            VmmError::UnmappedMmio,
        ),
        exit matches VcpuExit::Other(code) ==> exit_effect(exit, run, devices).2 == Err::<
            Option<Option<(Seq<u8>, bool)>>,
            VmmError,
        >(VmmError::UnhandledExit(code)),
{
}

/// What [`action_view`] says of an answer: `Ok(None)` is a stop and nothing
/// else, `Ok(Some(..))` a resume with the port I/O outcome, and errors are
/// passed on.
pub proof fn lemma_action_view(r: Result<ExitAction, VmmError>)
    ensures
        action_view(r) == Ok::<Option<Option<(Seq<u8>, bool)>>, VmmError>(None) <==> r matches Ok(
            ExitAction::Stop,
        ),
        r matches Ok(ExitAction::Resume(o)) ==> action_view(r) == Ok::<
            Option<Option<(Seq<u8>, bool)>>,
            VmmError,
        >(Some(outcome_view(Ok(o))->Ok_0)),
        r matches Err(e) ==> action_view(r) == Err::<Option<Option<(Seq<u8>, bool)>>, VmmError>(e),
{
}

/// The raw guest starts at guest address 0x1000 with its stack below 0x2000
/// and only the reserved bit 1 of RFLAGS set; guest RAM is the 8192 bytes
/// from 0x1000; KVM must report API version 12.
pub proof fn lemma_guest_layout()
    ensures
        initial_regs_spec() == (InitialRegs { rip: 0x1000, rsp: 0x2000, rflags: 0x2 }),
        GUEST_MEM_START == 0x1000,
        GUEST_MEM_SIZE == 8192,
        KVM_API_VERSION == 12,
{
}

} // verus!
