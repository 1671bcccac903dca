use vstd::prelude::*;
use crate::elf::LoadError;

verus! {

/// Failures of the monitor.
#[derive(Clone, Copy, Debug, PartialEq, Eq, Structural)]
pub enum Error {
    /// Guest memory of zero bytes was asked for.
    InvalidMemorySize,
    /// A guest memory access leaves guest memory.
    InvalidMemoryAccess,
    /// The kernel or the initial RAM disk could not be loaded.
    Load(LoadError),
    /// The guest wrote to a port that is not emulated.
    UnsupportedPort(u16),
    /// The guest read from a port.
    UnsupportedPortRead(u16),
    /// A message port was written with an operand of this size.
    InvalidOperandSize(usize),
    /// A console write carried a value that is not a character.
    InvalidCharacter(u32),
    /// Guest memory did not hold a message where one was expected.
    InvalidMessage,
    /// The virtual processor stopped for a reason that is not emulated.
    UnknownExit,
    /// A channel between the monitor and its peers was closed.
    ChannelDisconnected,
}

} // verus!
