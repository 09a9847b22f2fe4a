//! Port I/O devices and the dispatch of a port I/O exit to them.

use vstd::prelude::*;
use vstd::slice::{slice_subrange, slice_to_vec};

use crate::memory::written;

verus! {

/// The debug console port that the sample guest writes to.
pub const DEBUG_PORT: u16 = 0xe9;
/// COM1: transmit holding / receive buffer register.
pub const COM1_DATA: u16 = 0x3f8;
/// COM1: interrupt enable register.
pub const COM1_IER: u16 = 0x3f9;
/// COM1: FIFO control register on write, interrupt identification on read.
pub const COM1_FCR_IIR: u16 = 0x3fa;
/// COM1: line control register.
pub const COM1_LCR: u16 = 0x3fb;
/// COM1: modem control register.
pub const COM1_MCR: u16 = 0x3fc;
/// COM1: line status register.
pub const COM1_LSR: u16 = 0x3fd;

/// Interrupt identification: bit 0 set, no interrupt pending.
pub const IIR_NO_INTERRUPT: u8 = 0x01;
/// Line status: transmit holding register empty and transmitter empty.
pub const LSR_TRANSMITTER_IDLE: u8 = 0x60;

/// A device's refusal of an access.
#[derive(Debug, Clone, Copy, PartialEq, Eq, Structural)]
pub enum DeviceError {
    /// The device does not serve this access to `port`.
    Refused { port: u16 },
}

/// The bytes of a device's console output, or its error.
pub open spec fn output_view(r: Result<Vec<u8>, DeviceError>) -> Result<Seq<u8>, DeviceError> {
    match r {
        Ok(v) => Ok(v@),
        Err(e) => Err(e),
    }
}

/// A device on the I/O port bus.
///
/// `io_out` answers with the bytes the device emits on the host console;
/// `io_in` fills the whole buffer, or leaves it as it was when it fails.
pub trait PortDevice: Sized {
    /// Whether the device serves `port`.
    spec fn claims(&self, port: u16) -> bool;

    /// Whether the device has a register at `port` that it knows how to
    /// read or write.
    spec fn register_at(&self, port: u16) -> bool;

    /// The device after `data` was written to `port`.
    spec fn after_out(&self, port: u16, data: Seq<u8>) -> Self;

    /// The console output of a write of `data` to `port`, or its error.
    spec fn out_result(&self, port: u16, data: Seq<u8>) -> Result<Seq<u8>, DeviceError>;

    /// The device after a read of `len` bytes from `port`.
    spec fn after_in(&self, port: u16, len: nat) -> Self;

    /// The bytes a read of `len` bytes from `port` gives, or its error.
    spec fn in_result(&self, port: u16, len: nat) -> Result<Seq<u8>, DeviceError>;

    /// A read that succeeds gives as many bytes as were asked for.
    proof fn lemma_in_result_len(&self, port: u16, len: nat)
        ensures
            self.in_result(port, len) matches Ok(bytes) ==> bytes.len() == len,
    ;

    fn handles(&self, port: u16) -> (r: bool)
        ensures
            r == self.claims(port),
    ;

    fn has_register(&self, port: u16) -> (r: bool)
        ensures
            r == self.register_at(port),
    ;

    fn io_out(&mut self, port: u16, data: &[u8]) -> (r: Result<Vec<u8>, DeviceError>)
        ensures
            *final(self) == old(self).after_out(port, data@),
            output_view(r) == old(self).out_result(port, data@),
    ;

    fn io_in(&mut self, port: u16, data: &mut [u8]) -> (r: Result<(), DeviceError>)
        ensures
            *final(self) == old(self).after_in(port, old(data)@.len()),
            final(data)@.len() == old(data)@.len(),
            match old(self).in_result(port, old(data)@.len()) {
                Ok(bytes) => r is Ok && final(data)@ == bytes,
                Err(e) => r == Err::<(), DeviceError>(e) && final(data)@ == old(data)@,
            },
    ;
}

/// Fills `data` with `value`.
fn fill(data: &mut [u8], value: u8)
    ensures
        final(data)@ == Seq::new(old(data)@.len(), |i: int| value),
{
    let n = data.len();
    let mut i: usize = 0;
    while i < n
        invariant
            n == data@.len(),
            i <= n,
            forall|j: int| 0 <= j < i ==> #[trigger] data@[j] == value,
        decreases n - i,
    {
        data[i] = value;
        i = i + 1;
    }
    assert(data@ =~= Seq::new(n as nat, |i: int| value));
}

/// The debug port: bytes written to it go to the host console, reads give
/// zeros.
#[derive(Debug, Clone, Copy, PartialEq, Eq, Structural)]
pub struct DebugPort;

impl PortDevice for DebugPort {
    open spec fn claims(&self, port: u16) -> bool {
        port == DEBUG_PORT
    }

    open spec fn register_at(&self, port: u16) -> bool {
        true
    }

    open spec fn after_out(&self, port: u16, data: Seq<u8>) -> Self {
        *self
    }

    open spec fn out_result(&self, port: u16, data: Seq<u8>) -> Result<Seq<u8>, DeviceError> {
        Ok(data)
    }

    open spec fn after_in(&self, port: u16, len: nat) -> Self {
        *self
    }

    open spec fn in_result(&self, port: u16, len: nat) -> Result<Seq<u8>, DeviceError> {
        Ok(Seq::new(len, |i: int| 0u8))
    }

    proof fn lemma_in_result_len(&self, port: u16, len: nat) {
    }

    fn handles(&self, port: u16) -> (r: bool) {
        port == DEBUG_PORT
    }

    fn has_register(&self, _port: u16) -> (r: bool) {
        // Every access to the debug port is console traffic.
        true
    }

    fn io_out(&mut self, _port: u16, data: &[u8]) -> (r: Result<Vec<u8>, DeviceError>) {
        Ok(slice_to_vec(data))
    }

    fn io_in(&mut self, _port: u16, data: &mut [u8]) -> (r: Result<(), DeviceError>) {
        // A read of the debug port gives a fixed, deterministic value.
        fill(data, 0);
        Ok(())
    }
}

/// A minimal 16550-style UART at COM1 (ports 0x3f8 to 0x3fd).
#[derive(Debug, Clone, Copy, PartialEq, Eq, Structural)]
pub struct SerialPort {
    pub interrupt_enable: u8,
    pub fifo_control: u8,
    pub line_control: u8,
    pub modem_control: u8,
}

impl SerialPort {
    /// A UART with every register zero.
    pub fn new() -> (r: SerialPort)
        ensures
            r == (SerialPort { interrupt_enable: 0, fifo_control: 0, line_control: 0, modem_control: 0 }),
    {
        SerialPort { interrupt_enable: 0, fifo_control: 0, line_control: 0, modem_control: 0 }
    }
}

impl Default for SerialPort {
    fn default() -> (r: SerialPort)
        ensures
            r == (SerialPort { interrupt_enable: 0, fifo_control: 0, line_control: 0, modem_control: 0 }),
    {
        SerialPort::new()
    }
}

impl PortDevice for SerialPort {
    open spec fn claims(&self, port: u16) -> bool {
        COM1_DATA <= port <= COM1_LSR
    }

    open spec fn register_at(&self, port: u16) -> bool {
        COM1_DATA <= port <= COM1_LSR
    }

    open spec fn after_out(&self, port: u16, data: Seq<u8>) -> Self {
        if data.len() == 0 {
            *self
        } else if port == COM1_IER {
            SerialPort { interrupt_enable: data.last(), ..*self }
        } else if port == COM1_FCR_IIR {
            SerialPort { fifo_control: data.last(), ..*self }
        } else if port == COM1_LCR {
            SerialPort { line_control: data.last(), ..*self }
        } else if port == COM1_MCR {
            SerialPort { modem_control: data.last(), ..*self }
        } else {
            *self
        }
    }

    open spec fn out_result(&self, port: u16, data: Seq<u8>) -> Result<Seq<u8>, DeviceError> {
        if port == COM1_DATA {
            Ok(data)
        } else {
            Ok(Seq::empty())
        }
    }

    open spec fn after_in(&self, port: u16, len: nat) -> Self {
        *self
    }

    open spec fn in_result(&self, port: u16, len: nat) -> Result<Seq<u8>, DeviceError> {
        let value: u8 = if port == COM1_IER {
            self.interrupt_enable
        } else if port == COM1_FCR_IIR {
            IIR_NO_INTERRUPT
        } else if port == COM1_LCR {
            self.line_control
        } else if port == COM1_MCR {
            self.modem_control
        } else if port == COM1_LSR {
            LSR_TRANSMITTER_IDLE
        } else {
            0u8
        };
        Ok(Seq::new(len, |i: int| value))
    }

    proof fn lemma_in_result_len(&self, port: u16, len: nat) {
    }

    fn handles(&self, port: u16) -> (r: bool) {
        COM1_DATA <= port && port <= COM1_LSR
    }

    fn has_register(&self, port: u16) -> (r: bool) {
        COM1_DATA <= port && port <= COM1_LSR
    }

    fn io_out(&mut self, port: u16, data: &[u8]) -> (r: Result<Vec<u8>, DeviceError>) {
        if port == COM1_DATA {
            // Transmit holding register: bytes written here are serial output.
            return Ok(slice_to_vec(data));
        }
        if let Some(byte) = data.last() {
            if port == COM1_IER {
                self.interrupt_enable = *byte;
            } else if port == COM1_FCR_IIR {
                self.fifo_control = *byte;
            } else if port == COM1_LCR {
                self.line_control = *byte;
            } else if port == COM1_MCR {
                self.modem_control = *byte;
            }
            // The line status register is read-only in this model.
        }
        Ok(Vec::new())
    }

    fn io_in(&mut self, port: u16, data: &mut [u8]) -> (r: Result<(), DeviceError>) {
        let value = if port == COM1_DATA {
            // Receive buffer: no input available.
            0u8
        } else if port == COM1_IER {
            self.interrupt_enable
        } else if port == COM1_FCR_IIR {
            IIR_NO_INTERRUPT
        } else if port == COM1_LCR {
            self.line_control
        } else if port == COM1_MCR {
            self.modem_control
        } else if port == COM1_LSR {
            LSR_TRANSMITTER_IDLE
        } else {
            0u8
        };
        fill(data, value);
        Ok(())
    }
}

/// One of the devices this monitor puts on the port bus.
#[derive(Debug, Clone, Copy, PartialEq, Eq, Structural)]
pub enum BusDevice {
    Debug(DebugPort),
    Serial(SerialPort),
}

impl PortDevice for BusDevice {
    open spec fn claims(&self, port: u16) -> bool {
        match self {
            BusDevice::Debug(d) => d.claims(port),
            BusDevice::Serial(s) => s.claims(port),
        }
    }

    open spec fn register_at(&self, port: u16) -> bool {
        match self {
            BusDevice::Debug(d) => d.register_at(port),
            BusDevice::Serial(s) => s.register_at(port),
        }
    }

    open spec fn after_out(&self, port: u16, data: Seq<u8>) -> Self {
        match self {
            BusDevice::Debug(d) => BusDevice::Debug(d.after_out(port, data)),
            BusDevice::Serial(s) => BusDevice::Serial(s.after_out(port, data)),
        }
    }

    open spec fn out_result(&self, port: u16, data: Seq<u8>) -> Result<Seq<u8>, DeviceError> {
        match self {
            BusDevice::Debug(d) => d.out_result(port, data),
            BusDevice::Serial(s) => s.out_result(port, data),
        }
    }

    open spec fn after_in(&self, port: u16, len: nat) -> Self {
        match self {
            BusDevice::Debug(d) => BusDevice::Debug(d.after_in(port, len)),
            BusDevice::Serial(s) => BusDevice::Serial(s.after_in(port, len)),
        }
    }

    open spec fn in_result(&self, port: u16, len: nat) -> Result<Seq<u8>, DeviceError> {
        match self {
            BusDevice::Debug(d) => d.in_result(port, len),
            BusDevice::Serial(s) => s.in_result(port, len),
        }
    }

    proof fn lemma_in_result_len(&self, port: u16, len: nat) {
    }

    fn handles(&self, port: u16) -> (r: bool) {
        match self {
            BusDevice::Debug(d) => d.handles(port),
            BusDevice::Serial(s) => s.handles(port),
        }
    }

    fn has_register(&self, port: u16) -> (r: bool) {
        match self {
            BusDevice::Debug(d) => d.has_register(port),
            BusDevice::Serial(s) => s.has_register(port),
        }
    }

    fn io_out(&mut self, port: u16, data: &[u8]) -> (r: Result<Vec<u8>, DeviceError>) {
        match self {
            BusDevice::Debug(d) => d.io_out(port, data),
            BusDevice::Serial(s) => s.io_out(port, data),
        }
    }

    fn io_in(&mut self, port: u16, data: &mut [u8]) -> (r: Result<(), DeviceError>) {
        match self {
            BusDevice::Debug(d) => d.io_in(port, data),
            BusDevice::Serial(s) => s.io_in(port, data),
        }
    }
}

/// The direction of a port I/O exit.
#[derive(Debug, Clone, Copy, PartialEq, Eq, Structural)]
pub enum IoDirection {
    /// The guest reads from the port (`in`).
    In,
    /// The guest writes to the port (`out`).
    Out,
    /// A direction code the hypervisor does not define.
    Other(u8),
}

/// A port I/O exit as the hypervisor reports it: `count` accesses of `size`
/// bytes each, whose data lie at `data_offset` in the shared run area.
#[derive(Debug, Clone, Copy, PartialEq, Eq, Structural)]
pub struct IoExit {
    pub direction: IoDirection,
    pub size: u8,
    pub port: u16,
    pub count: u32,
    pub data_offset: u64,
}

/// What the handling of a port I/O exit came to.
#[derive(Debug, PartialEq, Eq)]
pub enum IoOutcome {
    /// A device served the access; the bytes are its console output.
    Handled(Vec<u8>),
    /// The device that claims the port has no register there; it took the
    /// access as it would any other (the bytes are its console output), and
    /// the access is worth reporting.
    Unrecognised(Vec<u8>),
    /// No device serves the port.
    Unclaimed,
}

/// Why a port I/O exit could not be handled.
#[derive(Debug, Clone, Copy, PartialEq, Eq, Structural)]
pub enum IoError {
    /// The exit's direction is neither in nor out.
    UnknownDirection(u8),
    /// The device that serves the port refused the access.
    Device(DeviceError),
}

/// Number of data bytes of an exit.
pub open spec fn data_len(io: IoExit) -> int {
    io.size * io.count
}

/// Whether the data of an exit lie inside a run area of `run_len` bytes.
pub open spec fn data_in_run(io: IoExit, run_len: nat) -> bool {
    io.data_offset + data_len(io) <= run_len
}

/// Whether the data of `io` lie inside a run area of `run_len` bytes; this
/// is what [`handle_io_exit`] requires of an `in` or `out` exit.
pub fn data_fits(io: IoExit, run_len: usize) -> (r: bool)
    ensures
        r == data_in_run(io, run_len as nat),
{
    assert((io.size as u128) * (io.count as u128) <= 0xff * 0xffff_ffffu128) by (nonlinear_arith)
        requires
            io.size <= 0xff,
            io.count <= 0xffff_ffffu32,
    ;
    let len = (io.size as u128) * (io.count as u128);
    io.data_offset as u128 + len <= run_len as u128
}

/// `i` is the first of `devices` that claims `port`.
pub open spec fn is_first_claimant<D: PortDevice>(devices: Seq<D>, port: u16, i: int) -> bool {
    &&& 0 <= i < devices.len()
    &&& devices[i].claims(port)
    &&& forall|j: int| 0 <= j < i ==> !(#[trigger] devices[j].claims(port))
}

/// The first of `devices` that claims `port`, if any does.
pub open spec fn first_claimant<D: PortDevice>(devices: Seq<D>, port: u16) -> Option<int> {
    if exists|i: int| is_first_claimant(devices, port, i) {
        Some(choose|i: int| is_first_claimant(devices, port, i))
    } else {
        None
    }
}

/// A handled exit as seen in contracts: `Some` of the console output and of
/// whether the device has a register at the port when a device claims the
/// port, `None` when none does.
pub open spec fn outcome_view(r: Result<IoOutcome, IoError>) -> Result<Option<(Seq<u8>, bool)>, IoError> {
    match r {
        Ok(IoOutcome::Handled(v)) => Ok(Some((v@, true))),
        Ok(IoOutcome::Unrecognised(v)) => Ok(Some((v@, false))),
        Ok(IoOutcome::Unclaimed) => Ok(None),
        Err(e) => Err(e),
    }
}

/// The run area, the devices and the answer after handling `io`.
pub open spec fn io_exit_effect<D: PortDevice>(io: IoExit, run: Seq<u8>, devices: Seq<D>) -> (
    Seq<u8>,
    Seq<D>,
    Result<Option<(Seq<u8>, bool)>, IoError>,
) {
    let off = io.data_offset as int;
    let len = data_len(io);
    match io.direction {
        IoDirection::Out => {
            let data = run.subrange(off, off + len);
            match first_claimant(devices, io.port) {
                Some(i) => (
                    run,
                    devices.update(i, devices[i].after_out(io.port, data)),
                    match devices[i].out_result(io.port, data) {
                        Ok(bytes) => Ok(Some((bytes, devices[i].register_at(io.port)))),
                        Err(e) => Err(IoError::Device(e)),
                    },
                ),
                None => (run, devices, Ok(None)),
            }
        },
        IoDirection::In => {
            match first_claimant(devices, io.port) {
                Some(i) => match devices[i].in_result(io.port, len as nat) {
                    Ok(bytes) => (
                        written(run, off, bytes),
                        devices.update(i, devices[i].after_in(io.port, len as nat)),
                        Ok(Some((Seq::empty(), devices[i].register_at(io.port)))),
                    ),
                    Err(e) => (
                        run,
                        devices.update(i, devices[i].after_in(io.port, len as nat)),
                        Err(IoError::Device(e)),
                    ),
                },
                None => (written(run, off, Seq::new(len as nat, |k: int| 0u8)), devices, Ok(None)),
            }
        },
        IoDirection::Other(d) => (run, devices, Err(IoError::UnknownDirection(d))),
    }
}

/// The first of `devices` that handles `port`.
fn find_claimant<D: PortDevice>(devices: &Vec<D>, port: u16) -> (r: Option<usize>)
    ensures
        match r {
            Some(i) => is_first_claimant(devices@, port, i as int),
            None => forall|j: int| 0 <= j < devices@.len() ==> !(#[trigger] devices@[j].claims(port)),
        },
        r == (match first_claimant(devices@, port) {
            Some(i) => Some(i as usize),
            None => None::<usize>,
        }),
{
    let mut i: usize = 0;
    while i < devices.len()
        invariant
            i <= devices@.len(),
            forall|j: int| 0 <= j < i ==> !(#[trigger] devices@[j].claims(port)),
        decreases devices@.len() - i,
    {
        if devices[i].handles(port) {
            assert(is_first_claimant(devices@, port, i as int));
            proof {
                let c = choose|k: int| is_first_claimant(devices@, port, k);
                assert(is_first_claimant(devices@, port, c));
                if c < i {
                    assert(!devices@[c].claims(port));
                } else if c > i {
                    assert(!devices@[i as int].claims(port));
                }
            }
            return Some(i);
        }
        i = i + 1;
    }
    None
}

/// Handles a port I/O exit: an `out` hands the guest's bytes to the first
/// device that claims the port; an `in` lets that device fill the data area,
/// or fills it with zeros when no device claims the port.
pub fn handle_io_exit<D: PortDevice>(io: IoExit, run: &mut [u8], devices: &mut Vec<D>) -> (r: Result<IoOutcome, IoError>)
    requires
        !(io.direction is Other) ==> data_in_run(io, old(run)@.len()),
    ensures
        (final(run)@, final(devices)@, outcome_view(r)) == io_exit_effect(io, old(run)@, old(devices)@),
{
    let ghost run0 = run@;
    let run_len = run.len();
    match io.direction {
        IoDirection::Out => {
            assert(io.data_offset + io.size * io.count <= run_len);
            let off = io.data_offset as usize;
            let len = io.size as usize * io.count as usize;
            let data = slice_subrange(&*run, off, off + len);
            match find_claimant(devices, io.port) {
                Some(i) => {
                    let known = devices[i].has_register(io.port);
                    let out = devices[i].io_out(io.port, data);
                    match out {
                        Ok(bytes) => if known {
                            Ok(IoOutcome::Handled(bytes))
                        } else {
                            Ok(IoOutcome::Unrecognised(bytes))
                        },
                        Err(e) => Err(IoError::Device(e)),
                    }
                },
                None => Ok(IoOutcome::Unclaimed),
            }
        },
        IoDirection::In => {
            assert(io.data_offset + io.size * io.count <= run_len);
            let off = io.data_offset as usize;
            let len = io.size as usize * io.count as usize;
            let (head, rest) = run.split_at_mut(off);
            let (window, tail) = rest.split_at_mut(len);
            let ghost head0 = head@;
            let ghost tail0 = tail@;
            assert(head0 =~= run0.subrange(0, off as int));
            assert(tail0 =~= run0.subrange(off + len, run0.len() as int));
            let r = match find_claimant(devices, io.port) {
                Some(i) => {
                    let known = devices[i].has_register(io.port);
                    let res = devices[i].io_in(io.port, window);
                    match res {
                        Ok(()) => if known {
                            Ok(IoOutcome::Handled(Vec::new()))
                        } else {
                            Ok(IoOutcome::Unrecognised(Vec::new()))
                        },
                        Err(e) => Err(IoError::Device(e)),
                    }
                },
                None => {
                    fill(window, 0);
                    Ok(IoOutcome::Unclaimed)
                },
            };
            assert(window@.len() == len);
            assert(head0 + window@ + tail0 =~= written(run0, off as int, window@));
            r
        },
        IoDirection::Other(d) => Err(IoError::UnknownDirection(d)),
    }
}

/// A read of the interrupt enable, line control or modem control register
/// gives, in every byte, the last byte that was written to it.
pub proof fn lemma_serial_register_read_back(uart: SerialPort, port: u16, data: Seq<u8>, len: nat)
    requires
        port == COM1_IER || port == COM1_LCR || port == COM1_MCR,
        data.len() > 0,
    ensures
        uart.after_out(port, data).in_result(port, len) == Ok::<Seq<u8>, DeviceError>(
            Seq::new(len, |i: int| data.last()),
        ),
{
    let v = data.last();
    assert(uart.after_out(port, data).in_result(port, len) =~= Ok::<Seq<u8>, DeviceError>(
        Seq::new(len, |i: int| v),
    ));
}

/// Reading a port of a device on the bus leaves the device as it was.
pub proof fn lemma_bus_read_has_no_effect(device: BusDevice, port: u16, len: nat)
    ensures
        device.after_in(port, len) == device,
{
}

/// What the guest writes to the debug port or to COM1's data register goes
/// to the console unchanged, and leaves the device as it was.
pub proof fn lemma_console_ports_echo(device: BusDevice, port: u16, data: Seq<u8>)
    requires
        device is Debug || (device is Serial && port == COM1_DATA),
    ensures
        device.out_result(port, data) == Ok::<Seq<u8>, DeviceError>(data),
        device.after_out(port, data) == device,
{
}

/// An `out` exit leaves the run area as it was, and every device but the
/// first that claims the port.
pub proof fn lemma_out_exit_effect<D: PortDevice>(io: IoExit, run: Seq<u8>, devices: Seq<D>)
    requires
        io.direction is Out,
    ensures
        io_exit_effect(io, run, devices).0 == run,
        io_exit_effect(io, run, devices).1.len() == devices.len(),
        forall|j: int|
            0 <= j < devices.len() && Some(j) != first_claimant(devices, io.port)
                ==> #[trigger] io_exit_effect(io, run, devices).1[j] == devices[j],
{
    lemma_first_claimant_in_range(devices, io.port);
}

/// An `in` exit changes the run area only inside the exit's data, and no
/// device but the first that claims the port.
pub proof fn lemma_in_exit_effect<D: PortDevice>(io: IoExit, run: Seq<u8>, devices: Seq<D>)
    requires
        io.direction is In,
        data_in_run(io, run.len()),
    ensures
        io_exit_effect(io, run, devices).0.len() == run.len(),
        forall|k: int|
            0 <= k < run.len() && !(io.data_offset <= k < io.data_offset + data_len(io))
                ==> #[trigger] io_exit_effect(io, run, devices).0[k] == run[k],
        io_exit_effect(io, run, devices).1.len() == devices.len(),
        forall|j: int|
            0 <= j < devices.len() && Some(j) != first_claimant(devices, io.port)
                ==> #[trigger] io_exit_effect(io, run, devices).1[j] == devices[j],
{
    lemma_first_claimant_in_range(devices, io.port);
    match first_claimant(devices, io.port) {
        Some(i) => {
            devices[i].lemma_in_result_len(io.port, data_len(io) as nat);
        },
        None => {},
    }
}

/// The first claimant is a device of the list that claims the port.
pub proof fn lemma_first_claimant_in_range<D: PortDevice>(devices: Seq<D>, port: u16)
    ensures
        first_claimant(devices, port) matches Some(i) ==> is_first_claimant(devices, port, i),
{
}

/// A write to a COM1 register changes that register alone, to the last byte
/// written: 0x3f9 the interrupt enable, 0x3fa the FIFO control, 0x3fb the
/// line control and 0x3fc the modem control register. A write of no bytes,
/// or to any other port, changes nothing.
pub proof fn lemma_serial_write_changes_one_register(uart: SerialPort, port: u16, data: Seq<u8>)
    ensures
        ({
            let t = uart.after_out(port, data);
            let n = data.len();
            &&& t.interrupt_enable == if port == 0x3f9 && n > 0 {
                data[n - 1]
            } else {
                uart.interrupt_enable
            }
            &&& t.fifo_control == if port == 0x3fa && n > 0 {
                data[n - 1]
            } else {
                uart.fifo_control
            }
            &&& t.line_control == if port == 0x3fb && n > 0 {
                data[n - 1]
            } else {
                uart.line_control
            }
            &&& t.modem_control == if port == 0x3fc && n > 0 {
                data[n - 1]
            } else {
                uart.modem_control
            }
        }),
{
}

/// A read of the interrupt enable, line control or modem control register
/// gives, in every byte, the last byte written to that register, whatever
/// was written to other ports since.
pub proof fn lemma_serial_read_back_after_other_writes(
    uart: SerialPort,
    port: u16,
    data: Seq<u8>,
    other: u16,
    other_data: Seq<u8>,
    len: nat,
)
    requires
        port == 0x3f9 || port == 0x3fb || port == 0x3fc,
        data.len() > 0,
        other != port,
    ensures
        uart.after_out(port, data).after_out(other, other_data).in_result(port, len) == Ok::<
            Seq<u8>,
            DeviceError,
        >(Seq::new(len, |i: int| data[data.len() - 1])),
{
    let v = data[data.len() - 1];
    assert(uart.after_out(port, data).after_out(other, other_data).in_result(port, len) =~= Ok::<
        Seq<u8>,
        DeviceError,
    >(Seq::new(len, |i: int| v)));
}

/// What a read of each COM1 port gives, in every byte: nothing received
/// (0) at 0x3f8, the interrupt enable register at 0x3f9, "no interrupt
/// pending" (0x01) at 0x3fa, the line and modem control registers at 0x3fb
/// and 0x3fc, and "transmitter idle" (0x20 | 0x40) at 0x3fd. Reads always
/// succeed.
pub proof fn lemma_serial_reads(uart: SerialPort, len: nat)
    ensures
        uart.in_result(0x3f8, len) == Ok::<Seq<u8>, DeviceError>(Seq::new(len, |i: int| 0u8)),
        uart.in_result(0x3f9, len) == Ok::<Seq<u8>, DeviceError>(Seq::new(len, |i: int| uart.interrupt_enable)),
        uart.in_result(0x3fa, len) == Ok::<Seq<u8>, DeviceError>(Seq::new(len, |i: int| 0x01u8)),
        uart.in_result(0x3fb, len) == Ok::<Seq<u8>, DeviceError>(Seq::new(len, |i: int| uart.line_control)),
        uart.in_result(0x3fc, len) == Ok::<Seq<u8>, DeviceError>(Seq::new(len, |i: int| uart.modem_control)),
        uart.in_result(0x3fd, len) == Ok::<Seq<u8>, DeviceError>(Seq::new(len, |i: int| (0x20u8 | 0x40u8))),
{
    assert(0x20u8 | 0x40u8 == 0x60u8) by (bit_vector);
    assert(uart.in_result(0x3f8, len) =~= Ok::<Seq<u8>, DeviceError>(Seq::new(len, |i: int| 0u8)));
    assert(uart.in_result(0x3fa, len) =~= Ok::<Seq<u8>, DeviceError>(Seq::new(len, |i: int| 0x01u8)));
    assert(uart.in_result(0x3fd, len) =~= Ok::<Seq<u8>, DeviceError>(Seq::new(len, |i: int| (0x20u8 | 0x40u8))));
}

/// The UART's console output is exactly what is written to its data
/// register (0x3f8); a write to any other port outputs nothing. Writes always
/// succeed.
pub proof fn lemma_serial_console(uart: SerialPort, port: u16, data: Seq<u8>)
    ensures
        port == 0x3f8 ==> uart.out_result(port, data) == Ok::<Seq<u8>, DeviceError>(data),
        port != 0x3f8 ==> uart.out_result(port, data) == Ok::<Seq<u8>, DeviceError>(Seq::empty()),
{
}

/// The debug port serves only port 0xe9 and the UART only ports 0x3f8 to
/// 0x3fd; both know every port they serve. The debug port echoes every write
/// and reads zeros.
pub proof fn lemma_device_ports(debug: DebugPort, uart: SerialPort, port: u16, data: Seq<u8>, len: nat)
    ensures
        debug.claims(port) <==> port == 0xe9,
        uart.claims(port) <==> 0x3f8 <= port <= 0x3fd,
        uart.claims(port) ==> uart.register_at(port),
        debug.claims(port) ==> debug.register_at(port),
        debug.out_result(port, data) == Ok::<Seq<u8>, DeviceError>(data),
        debug.in_result(port, len) == Ok::<Seq<u8>, DeviceError>(Seq::new(len, |i: int| 0u8)),
{
}

/// An `in` or `out` exit to a port no device claims changes no device and
/// is answered "unclaimed"; an `out` leaves the run area as it was, and an
/// `in` reads zeros into its data and leaves the rest of the run area.
pub proof fn lemma_unclaimed_port<D: PortDevice>(io: IoExit, run: Seq<u8>, devices: Seq<D>)
    requires
        forall|j: int| 0 <= j < devices.len() ==> !(#[trigger] devices[j].claims(io.port)),
        !(io.direction is Other),
    ensures
        io_exit_effect(io, run, devices).1 == devices,
        io_exit_effect(io, run, devices).2 == Ok::<Option<(Seq<u8>, bool)>, IoError>(None),
        io.direction is Out ==> io_exit_effect(io, run, devices).0 == run,
        io.direction is In && data_in_run(io, run.len()) ==> {
            let r = io_exit_effect(io, run, devices).0;
            &&& r.len() == run.len()
            &&& forall|k: int|
                0 <= k < run.len() ==> #[trigger] r[k] == if io.data_offset <= k < io.data_offset + io.size
                    * io.count {
                    0u8
                } else {
                    run[k]
                }
        },
{
    if exists|i: int| is_first_claimant(devices, io.port, i) {
        let i = choose|i: int| is_first_claimant(devices, io.port, i);
        assert(devices[i].claims(io.port));
    }
    assert(first_claimant(devices, io.port) is None);
}

/// The device that serves an exit is the first in the list that claims the
/// port: an `out` changes that device alone, as its own write does, and is
/// answered with its console output; an `in` puts what that device's read
/// gives into the exit's data, changes that device alone, and is answered
/// with no console output.
pub proof fn lemma_first_claimant_serves<D: PortDevice>(io: IoExit, run: Seq<u8>, devices: Seq<D>, i: int)
    requires
        0 <= i < devices.len(),
        devices[i].claims(io.port),
        forall|j: int| 0 <= j < i ==> !(#[trigger] devices[j].claims(io.port)),
    ensures
        first_claimant(devices, io.port) == Some(i),
        ({
            let off = io.data_offset as int;
            let len = io.size * io.count;
            let data = run.subrange(off, off + len);
            let (run1, devices1, answer) = io_exit_effect(io, run, devices);
            &&& io.direction is Out ==> {
                &&& run1 == run
                &&& devices1 == devices.update(i, devices[i].after_out(io.port, data))
                &&& devices[i].out_result(io.port, data) matches Ok(bytes) ==> answer == Ok::<
                    Option<(Seq<u8>, bool)>,
                    IoError,
                >(Some((bytes, devices[i].register_at(io.port))))
                &&& devices[i].out_result(io.port, data) matches Err(e) ==> answer == Err::<
                    Option<(Seq<u8>, bool)>,
                    IoError,
                >(IoError::Device(e))
            }
            &&& io.direction is In && data_in_run(io, run.len()) ==> {
                &&& devices1 == devices.update(i, devices[i].after_in(io.port, len as nat))
                &&& devices[i].in_result(io.port, len as nat) matches Ok(bytes) ==> {
                    &&& run1.len() == run.len()
                    &&& run1.subrange(off, off + len) == bytes
                    &&& answer == Ok::<Option<(Seq<u8>, bool)>, IoError>(
                        Some((Seq::empty(), devices[i].register_at(io.port))),
                    )
                }
                &&& devices[i].in_result(io.port, len as nat) matches Err(e) ==> run1 == run
                    && answer == Err::<Option<(Seq<u8>, bool)>, IoError>(IoError::Device(e))
            }
        }),
{
    assert(is_first_claimant(devices, io.port, i));
    let c = choose|k: int| is_first_claimant(devices, io.port, k);
    assert(is_first_claimant(devices, io.port, c));
    if c < i {
        assert(!devices[c].claims(io.port));
    } else if c > i {
        assert(!devices[i].claims(io.port));
    }
    assert(first_claimant(devices, io.port) == Some(i));
    let off = io.data_offset as int;
    let len = io.size * io.count;
    if io.direction is In && data_in_run(io, run.len()) {
        devices[i].lemma_in_result_len(io.port, len as nat);
        match devices[i].in_result(io.port, len as nat) {
            Ok(bytes) => {
                assert(io_exit_effect(io, run, devices).0.subrange(off, off + len) =~= bytes);
            },
            Err(e) => {},
        }
    }
}

/// An exit carries `size * count` bytes of data from `data_offset`; an
/// answer of `Handled` means the serving device knows the port, one of
/// `Unrecognised` that it does not, and `Unclaimed` that no device serves
/// it.
pub proof fn lemma_exit_data_and_answers(io: IoExit, run_len: nat, v: Vec<u8>)
    ensures
        data_len(io) == io.size * io.count,
        data_in_run(io, run_len) <==> io.data_offset + io.size * io.count <= run_len,
        outcome_view(Ok(IoOutcome::Handled(v))) == Ok::<Option<(Seq<u8>, bool)>, IoError>(Some((v@, true))),
        outcome_view(Ok(IoOutcome::Unrecognised(v))) == Ok::<Option<(Seq<u8>, bool)>, IoError>(Some((v@, false))),
        outcome_view(Ok(IoOutcome::Unclaimed)) == Ok::<Option<(Seq<u8>, bool)>, IoError>(None),
{
}

} // verus!
