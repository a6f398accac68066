use vstd::prelude::*;

verus! {

/// The serial ports the kernel knows.
#[derive(Debug, Clone, Copy, PartialEq, Eq, Structural)]
pub enum COMPort {
    COM1,
}

impl COMPort {
    /// The port's base I/O address.
    pub fn getPortAddress(&self) -> (r: u16)
        ensures
            *self == COMPort::COM1 ==> r == 0x3F8,
    {
        match self {
            COMPort::COM1 => 0x3F8,
        }
    }
}

/// Byte sent through the loopback to test a port.
pub const LOOPBACK_TEST_BYTE: u8 = 0xDA;

/// Offset of the line status register from the port's base.
pub const LINE_STATUS_REGISTER: u16 = 5;

/// A 16550 serial port.
#[derive(Debug, Clone, Copy, PartialEq, Eq, Structural)]
pub struct SerialPort {
    pub port: COMPort,
}

impl SerialPort {
    /// The I/O address of the port's register at `offset` (0 to 7).
    pub fn register(&self, offset: u16) -> (r: u16)
        requires
            offset < 8,
        ensures
            *self == (SerialPort { port: COMPort::COM1 }) ==> r == 0x3F8 + offset,
    {
        self.port.getPortAddress() + offset
    }

    /// Whether the line status says the transmit buffer is still busy.
    pub fn isTransmitNotEmpty(lineStatus: u8) -> (r: bool)
        ensures
            r == (lineStatus & 0x20 == 0),
    {
        lineStatus & 0x20 == 0
    }

    /// Whether the line status says a received byte is waiting.
    pub fn dataAvailable(lineStatus: u8) -> (r: bool)
        ensures
            r == (lineStatus & 0x01 != 0),
    {
        lineStatus & 0x01 != 0
    }

    /// Whether the byte read back through the loopback is the test byte.
    pub fn loopbackOk(received: u8) -> (r: bool)
        ensures
            r == (received == LOOPBACK_TEST_BYTE),
    {
        received == LOOPBACK_TEST_BYTE
    }
}

} // verus!
