use vstd::prelude::*;

use crate::serial::SerialPort;

verus! {

/// The system logger: the serial port it also writes to, when one was found.
#[derive(Debug, Clone, Copy, PartialEq, Eq, Structural)]
pub struct Logger {
    pub serial: Option<SerialPort>,
}

/// A formatting sink that forwards to the system logger.
#[derive(Debug, Clone, Copy, PartialEq, Eq, Structural)]
pub struct LogWriter;

impl LogWriter {
    /// The sink.
    pub fn new() -> (w: Self)
        ensures
            w == LogWriter,
    {
        LogWriter
    }
}

} // verus!
