use vstd::prelude::*;

verus! {

/// A formatting sink that writes to the VGA text screen.
#[derive(Debug, Clone, Copy, PartialEq, Eq, Structural)]
pub struct Writer;

impl Writer {
    /// The sink.
    pub fn new() -> (w: Self)
        ensures
            w == Writer,
    {
        Writer
    }
}

} // verus!
