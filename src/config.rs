use vstd::prelude::*;

verus! {

/// Name of the program.
pub const PROGRAM_NAME: &'static str = "microvm";

/// Default size of guest memory (128 MiB).
pub const DEFAULT_MEMORY_SIZE: usize = 134217728;

/// Value placed in `rax` at reset, telling the guest it runs on this monitor.
pub const MICROVM_MAGIC: u32 = 0x0c00ffee;

/// Guest physical address where the initial RAM disk is placed.
pub const INITRD_BASE: usize = 0x00800000;

/// Port that the guest writes to in order to send output.
pub const STDOUT_PORT: u16 = 0xe9;

/// Port that the guest writes to in order to receive input.
pub const STDIN_PORT: u16 = 0xea;

/// Port that the guest writes to in order to shut down.
pub const VMM_PORT: u16 = 0x604;

/// Default socket address of the HTTP gateway.
pub const DEFAULT_HTTP_SOCKADDR: &'static str = "127.0.0.1:8080";

} // verus!
