use vstd::prelude::*;

verus! {

/// The I/O port base of the first serial port (COM1).
pub const PORT: u16 = 0x3F8;

/// The bit of the line status register that is set while the transmitter
/// can take another byte.
pub const TRANSMIT_EMPTY: u8 = 0x20;

/// A byte to write to an I/O port.
#[derive(Clone, Copy, Debug, PartialEq, Eq, Structural)]
pub struct PortWrite {
    pub port: u16,
    pub value: u8,
}

/// The register writes that set up the UART, in order: interrupts off,
/// divisor latch on, 38400 baud (divisor 3, low then high byte), 8 data
/// bits with no parity and one stop bit, FIFO on, then the modem control
/// register with IRQs on (OUT2) and RTS and DTR set.
pub open spec fn uart_setup() -> Seq<PortWrite> {
    seq![
        PortWrite { port: (PORT + 1) as u16, value: 0x00 },
        PortWrite { port: (PORT + 3) as u16, value: 0x80 },
        PortWrite { port: PORT, value: 0x03 },
        PortWrite { port: (PORT + 1) as u16, value: 0x00 },
        PortWrite { port: (PORT + 3) as u16, value: 0x03 },
        PortWrite { port: (PORT + 2) as u16, value: 0xC7 },
        PortWrite { port: (PORT + 4) as u16, value: 0x0B },
    ]
}

/// What sending `byte` does once the line status register reads
/// `line_status`: when the transmitter is empty, write the byte to the data
/// port; else nothing yet, and the status is to be read again.
pub open spec fn send_step(byte: u8, line_status: u8) -> Option<PortWrite> {
    if line_status & TRANSMIT_EMPTY != 0 {
        Some(PortWrite { port: PORT, value: byte })
    } else {
        None
    }
}

/// The 16550 UART driver of COM1. It decides what to write to which port;
/// the caller does the port I/O.
pub struct SerialImpl;

impl SerialImpl {
    /// The register writes that set up the UART; see `uart_setup`.
    pub fn init() -> (writes: Vec<PortWrite>)
        ensures
            writes@ == uart_setup(),
    {
        let mut writes: Vec<PortWrite> = Vec::new();
        writes.push(PortWrite { port: PORT + 1, value: 0x00 });  // Disable interrupts
        writes.push(PortWrite { port: PORT + 3, value: 0x80 });  // Enable DLAB
        writes.push(PortWrite { port: PORT + 0, value: 0x03 });  // Set 38400 baud
        writes.push(PortWrite { port: PORT + 1, value: 0x00 });  // (hi byte)
        writes.push(PortWrite { port: PORT + 3, value: 0x03 });  // 8 bits, no parity, one stop bit
        writes.push(PortWrite { port: PORT + 2, value: 0xC7 });  // Enable FIFO
        writes.push(PortWrite { port: PORT + 4, value: 0x0B });  // IRQs enabled, RTS/DTR set
        proof {
            assert(writes@ =~= uart_setup());
        }
        writes
    }

    /// The port to poll before each byte: the line status register.
    pub fn line_status_port() -> (port: u16)
        ensures
            port == PORT + 5,
    {
        PORT + 5
    }

    /// One step of sending `byte`, given what the line status register
    /// reads; see `send_step`.
    pub fn send(byte: u8, line_status: u8) -> (w: Option<PortWrite>)
        ensures
            w == send_step(byte, line_status),
    {
        if (line_status & TRANSMIT_EMPTY) == 0 {
            None
        } else {
            Some(PortWrite { port: PORT, value: byte })
        }
    }
}

/// The kernel's serial console.
pub struct SerialPort;

impl SerialPort {
    /// The register writes that set up the console's UART.
    pub fn init() -> (writes: Vec<PortWrite>)
        ensures
            writes@ == uart_setup(),
    {
        SerialImpl::init()
    }

    /// One step of sending `byte` to the console, given what its line status
    /// register reads.
    pub fn send(byte: u8, line_status: u8) -> (w: Option<PortWrite>)
        ensures
            w == send_step(byte, line_status),
    {
        SerialImpl::send(byte, line_status)
    }
}

/// Sending depends on the transmitter-empty bit of the line status alone:
/// with that bit set the byte goes, unchanged, to the data port, whatever
/// the other bits say (a received byte waiting, for one); with it clear
/// nothing is written yet.
pub proof fn law_send_waits_only_for_transmitter(byte: u8, line_status: u8)
    ensures
        send_step(byte, line_status | TRANSMIT_EMPTY) == Some(PortWrite { port: PORT, value: byte }),
        send_step(byte, line_status & !TRANSMIT_EMPTY) is None,
        line_status & TRANSMIT_EMPTY != 0 ==> send_step(byte, line_status) == Some(
            PortWrite { port: PORT, value: byte },
        ),
{
    assert((line_status | 0x20u8) & 0x20u8 != 0) by (bit_vector);
    assert((line_status & !0x20u8) & 0x20u8 == 0) by (bit_vector);
}

} // verus!
