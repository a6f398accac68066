use vstd::prelude::*;

verus! {

/// A formatting sink that forwards to the system logger.
#[derive(Debug, Clone, Copy, PartialEq, Eq, Structural)]
pub struct LogWriter;

impl LogWriter {
    /// The sink.
    pub fn new() -> (w: Self)
        ensures
            w == LogWriter,
    {
        LogWriter
    }
}

} // verus!
