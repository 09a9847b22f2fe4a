use mini_vmm::devices::{
    data_fits, handle_io_exit, BusDevice, DebugPort, DeviceError, IoDirection, IoError, IoExit, IoOutcome, PortDevice,
    SerialPort,
};

fn bus() -> Vec<BusDevice> {
    vec![BusDevice::Debug(DebugPort), BusDevice::Serial(SerialPort::new())]
}

fn exit(direction: IoDirection, port: u16, size: u8, count: u32, data_offset: u64) -> IoExit {
    IoExit { direction, size, port, count, data_offset }
}

#[test]
fn debug_port_claims_only_0xe9() {
    assert!(DebugPort.handles(0xe9));
    assert!(!DebugPort.handles(0xe8));
    assert!(!DebugPort.handles(0x3f8));
}

#[test]
fn debug_port_echoes_and_reads_zero() {
    let mut d = DebugPort;
    assert_eq!(d.io_out(0xe9, b"hi"), Ok(b"hi".to_vec()));
    let mut buf = [7u8; 3];
    assert_eq!(d.io_in(0xe9, &mut buf), Ok(()));
    assert_eq!(buf, [0, 0, 0]);
}

#[test]
fn serial_port_claims_com1() {
    let s = SerialPort::new();
    assert!(!s.handles(0x3f7));
    for p in 0x3f8..=0x3fd {
        assert!(s.handles(p));
    }
    assert!(!s.handles(0x3fe));
}

#[test]
fn serial_registers_read_back_last_byte_written() {
    let mut s = SerialPort::default();
    for port in [0x3f9u16, 0x3fb, 0x3fc] {
        assert_eq!(s.io_out(port, &[0x11, 0x22]), Ok(vec![]));
        let mut buf = [0u8; 2];
        assert_eq!(s.io_in(port, &mut buf), Ok(()));
        assert_eq!(buf, [0x22, 0x22]);
    }
    assert_eq!(s.interrupt_enable, 0x22);
    assert_eq!(s.line_control, 0x22);
    assert_eq!(s.modem_control, 0x22);
}

#[test]
fn serial_fifo_control_is_write_only() {
    let mut s = SerialPort::new();
    assert_eq!(s.io_out(0x3fa, &[0xc7]), Ok(vec![]));
    assert_eq!(s.fifo_control, 0xc7);
    let mut buf = [0u8; 1];
    assert_eq!(s.io_in(0x3fa, &mut buf), Ok(()));
    assert_eq!(buf, [0x01]);
}

#[test]
fn serial_status_and_receive_registers() {
    let mut s = SerialPort::new();
    let mut buf = [9u8; 2];
    s.io_in(0x3fd, &mut buf).unwrap();
    assert_eq!(buf, [0x60, 0x60]);
    s.io_in(0x3f8, &mut buf).unwrap();
    assert_eq!(buf, [0, 0]);
    // Writes to the line status register are ignored.
    assert_eq!(s.io_out(0x3fd, &[0xff]), Ok(vec![]));
    assert_eq!(s, SerialPort::new());
}

#[test]
fn serial_empty_write_changes_nothing() {
    let mut s = SerialPort::new();
    assert_eq!(s.io_out(0x3f9, &[]), Ok(vec![]));
    assert_eq!(s, SerialPort::new());
}

#[test]
fn serial_transmit_goes_to_console() {
    let mut s = SerialPort::new();
    assert_eq!(s.io_out(0x3f8, b"ok\n"), Ok(b"ok\n".to_vec()));
    assert_eq!(s, SerialPort::new());
}

#[test]
fn out_to_debug_port_prints_the_guest_byte() {
    // The sample guest: mov dx, 0xe9; mov al, 'A'; out dx, al.
    let mut run = vec![0u8; 64];
    run[32] = b'A';
    let mut devices = bus();
    let r = handle_io_exit(exit(IoDirection::Out, 0xe9, 1, 1, 32), &mut run, &mut devices);
    assert_eq!(r, Ok(IoOutcome::Handled(vec![b'A'])));
    assert_eq!(run[32], b'A');
}

#[test]
fn out_to_serial_register_updates_the_uart() {
    let mut run = vec![0u8; 64];
    run[8] = 0x03;
    let mut devices = bus();
    let r = handle_io_exit(exit(IoDirection::Out, 0x3fb, 1, 1, 8), &mut run, &mut devices);
    assert_eq!(r, Ok(IoOutcome::Handled(vec![])));
    assert_eq!(
        devices[1],
        BusDevice::Serial(SerialPort { interrupt_enable: 0, fifo_control: 0, line_control: 3, modem_control: 0 })
    );
    assert_eq!(devices[0], BusDevice::Debug(DebugPort));
}

#[test]
fn in_from_serial_fills_the_data_area_only() {
    let mut run = vec![0xaau8; 16];
    let mut devices = bus();
    let r = handle_io_exit(exit(IoDirection::In, 0x3fd, 1, 2, 4), &mut run, &mut devices);
    assert_eq!(r, Ok(IoOutcome::Handled(vec![])));
    assert_eq!(run[3], 0xaa);
    assert_eq!(&run[4..6], &[0x60, 0x60]);
    assert_eq!(run[6], 0xaa);
}

#[test]
fn unclaimed_out_is_reported() {
    let mut run = vec![5u8; 8];
    let mut devices = bus();
    let r = handle_io_exit(exit(IoDirection::Out, 0x80, 1, 1, 0), &mut run, &mut devices);
    assert_eq!(r, Ok(IoOutcome::Unclaimed));
    assert_eq!(run, vec![5u8; 8]);
}

#[test]
fn unclaimed_in_reads_zeros() {
    let mut run = vec![5u8; 8];
    let mut devices = bus();
    let r = handle_io_exit(exit(IoDirection::In, 0x80, 2, 1, 2), &mut run, &mut devices);
    assert_eq!(r, Ok(IoOutcome::Unclaimed));
    assert_eq!(run, vec![5, 5, 0, 0, 5, 5, 5, 5]);
}

#[test]
fn unknown_direction_is_an_error() {
    let mut run = vec![5u8; 8];
    let mut devices = bus();
    let r = handle_io_exit(exit(IoDirection::Other(7), 0xe9, 1, 1, 0), &mut run, &mut devices);
    assert_eq!(r, Err(IoError::UnknownDirection(7)));
    assert_eq!(run, vec![5u8; 8]);
}

#[test]
fn first_claiming_device_wins() {
    let mut run = vec![b'x'; 4];
    let mut devices = vec![BusDevice::Serial(SerialPort::new()), BusDevice::Serial(SerialPort::new())];
    let r = handle_io_exit(exit(IoDirection::Out, 0x3f9, 1, 1, 0), &mut run, &mut devices);
    assert_eq!(r, Ok(IoOutcome::Handled(vec![])));
    assert_eq!(
        devices[0],
        BusDevice::Serial(SerialPort { interrupt_enable: b'x', fifo_control: 0, line_control: 0, modem_control: 0 })
    );
    assert_eq!(devices[1], BusDevice::Serial(SerialPort::new()));
}

#[test]
fn device_error_value() {
    let e = IoError::Device(DeviceError::Refused { port: 1 });
    assert_ne!(e, IoError::UnknownDirection(0));
}

#[test]
fn reads_leave_devices_unchanged() {
    let mut s = SerialPort { interrupt_enable: 1, fifo_control: 2, line_control: 3, modem_control: 4 };
    let before = s;
    let mut buf = [0u8; 4];
    for port in 0x3f8..=0x3fd {
        s.io_in(port, &mut buf).unwrap();
    }
    assert_eq!(s, before);
    let mut d = BusDevice::Debug(DebugPort);
    d.io_in(0xe9, &mut buf).unwrap();
    assert_eq!(d, BusDevice::Debug(DebugPort));
}

#[test]
fn data_window_check() {
    assert!(data_fits(exit(IoDirection::Out, 0xe9, 1, 1, 63), 64));
    assert!(!data_fits(exit(IoDirection::Out, 0xe9, 1, 1, 64), 64));
    assert!(data_fits(exit(IoDirection::In, 0xe9, 4, 4, 48), 64));
    assert!(!data_fits(exit(IoDirection::In, 0xe9, 255, u32::MAX, u64::MAX), usize::MAX));
}

#[test]
fn devices_know_their_registers() {
    assert!(DebugPort.has_register(0xe9));
    let s = SerialPort::new();
    assert!(s.has_register(0x3f8) && s.has_register(0x3fd));
    assert!(!s.has_register(0x3fe));
}
