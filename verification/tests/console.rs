use sos::logger::{format_record, LogLevel};
use sos::serial::{PortWrite, SerialImpl, SerialPort};

#[test]
fn uart_setup_sequence() {
    let writes = SerialPort::init();
    let expected = vec![
        (0x3F9, 0x00),
        (0x3FB, 0x80),
        (0x3F8, 0x03),
        (0x3F9, 0x00),
        (0x3FB, 0x03),
        (0x3FA, 0xC7),
        (0x3FC, 0x0B),
    ];
    let got: Vec<(u16, u8)> = writes.iter().map(|w| (w.port, w.value)).collect();
    assert_eq!(got, expected);
}

#[test]
fn send_waits_for_empty_transmitter() {
    assert_eq!(SerialPort::send(b'x', 0x00), None);
    assert_eq!(SerialPort::send(b'x', 0xDF), None);
    assert_eq!(SerialPort::send(b'x', 0x20), Some(PortWrite { port: 0x3F8, value: b'x' }));
    assert_eq!(SerialPort::send(b'y', 0x60), Some(PortWrite { port: 0x3F8, value: b'y' }));
    assert_eq!(SerialImpl::line_status_port(), 0x3FD);
}

#[test]
fn log_lines() {
    assert_eq!(format_record(LogLevel::Info, b"Welcome to SOS!"), b"[ INFO]: Welcome to SOS!\n".to_vec());
    assert_eq!(format_record(LogLevel::Warn, b"w"), b"[ WARN]: w\n".to_vec());
    assert_eq!(format_record(LogLevel::Error, b""), b"[ERROR]: \n".to_vec());
    assert_eq!(format_record(LogLevel::Debug, b"d"), b"[DEBUG]: d\n".to_vec());
    assert_eq!(format_record(LogLevel::Trace, b"t"), b"[TRACE]: t\n".to_vec());
}
