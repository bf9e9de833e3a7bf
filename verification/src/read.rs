use crate::semantics::Chip8Error;
use vstd::prelude::*;

verus! {

/// The port to a ROM byte source: the host implements it over a file or any
/// other stream of bytes.
pub trait Reader {
    /// Reads the bytes into the buffer and returns the amount read.
    fn read(&mut self, buf: &mut Vec<u8>) -> Result<usize, Chip8Error>;
}

} // verus!
