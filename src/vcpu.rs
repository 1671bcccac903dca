use vstd::prelude::*;

verus! {

/// Why a virtual processor stopped.
#[derive(Clone, Copy, Debug, PartialEq, Eq, Structural)]
pub enum VirtualProcessorExitReason {
    /// Port-mapped I/O access.
    PmioAccess,
    /// The processor halted.
    Halt,
    /// Any other reason.
    Unknown,
}

/// What a virtual processor was doing when it stopped.
#[derive(Clone, Copy, Debug, PartialEq, Eq, Structural)]
pub enum VirtualProcessorExitContext {
    /// Read of `len` bytes from a port.
    PmioIn(u16, usize),
    /// Write to a port of a value of the given size in bytes.
    PmioOut(u16, u32, usize),
    /// The processor halted.
    Halt,
    /// Any other reason.
    Unknown,
}

/// The reason that an exit context belongs to.
pub open spec fn exit_reason(c: VirtualProcessorExitContext) -> VirtualProcessorExitReason {
    match c {
        VirtualProcessorExitContext::PmioIn(..) => VirtualProcessorExitReason::PmioAccess,
        VirtualProcessorExitContext::PmioOut(..) => VirtualProcessorExitReason::PmioAccess,
        VirtualProcessorExitContext::Halt => VirtualProcessorExitReason::Halt,
        VirtualProcessorExitContext::Unknown => VirtualProcessorExitReason::Unknown,
    }
}

impl VirtualProcessorExitContext {
    /// The reason for this exit.
    pub fn reason(&self) -> (r: VirtualProcessorExitReason)
        ensures
            r == exit_reason(*self),
    {
        match self {
            VirtualProcessorExitContext::PmioIn(..) => VirtualProcessorExitReason::PmioAccess,
            VirtualProcessorExitContext::PmioOut(..) => VirtualProcessorExitReason::PmioAccess,
            VirtualProcessorExitContext::Halt => VirtualProcessorExitReason::Halt,
            VirtualProcessorExitContext::Unknown => VirtualProcessorExitReason::Unknown,
        }
    }

    /// The exit for a write to `port` of the bytes `data`, packed least
    /// significant first.
    pub fn pmio_out(port: u16, data: &[u8]) -> (r: VirtualProcessorExitContext)
        requires
            data@.len() <= 4,
        ensures
            r == VirtualProcessorExitContext::PmioOut(
                port,
                crate::bytes::le_value(data@) as u32,
                data@.len() as usize,
            ),
    {
        VirtualProcessorExitContext::PmioOut(port, crate::bytes::pack_le(data), data.len())
    }
}

/// Registers of a virtual processor.
#[allow(unused)]
#[derive(Clone, Copy, Debug, PartialEq, Eq, Structural)]
pub enum VirtualProcessorRegister {
    Rax,
    Rbx,
    Rcx,
    Rdx,
    Rsi,
    Rdi,
    Rbp,
    Rsp,
    Rip,
    Rflags,
}

/// The register state that a reset establishes.
#[derive(Clone, Copy, Debug, PartialEq, Eq, Structural)]
pub struct BootRegisters {
    pub rip: u64,
    pub rax: u64,
    pub rbx: u64,
    pub rflags: u64,
    pub cs_base: u64,
    pub cs_selector: u16,
}

/// A virtual processor: whether it runs, and the registers it was last
/// reset to.
pub struct VirtualProcessor {
    online: bool,
    registers: BootRegisters,
}

impl VirtualProcessor {
    /// A processor that is offline.
    pub fn new() -> (r: VirtualProcessor)
        ensures
            !r.spec_online(),
    {
        VirtualProcessor {
            online: false,
            registers: BootRegisters {
                rip: 0,
                rax: 0,
                rbx: 0,
                rflags: 0,
                cs_base: 0,
                cs_selector: 0,
            },
        }
    }

    pub closed spec fn spec_online(&self) -> bool {
        self.online
    }

    pub closed spec fn spec_registers(&self) -> BootRegisters {
        self.registers
    }

    /// Sets `rip`, `rax` and `rbx`, clears the code segment, sets `rflags`
    /// to 2, and brings the processor online.
    pub fn reset(&mut self, rip: u64, rax: u64, rbx: u64)
        ensures
            final(self).spec_online(),
            final(self).spec_registers() == (BootRegisters {
                rip,
                rax,
                rbx,
                rflags: 2,
                cs_base: 0,
                cs_selector: 0,
            }),
    {
        self.registers = BootRegisters { rip, rax, rbx, rflags: 2, cs_base: 0, cs_selector: 0 };
        self.online = true;
    }

    /// Takes the processor offline.
    pub fn poweroff(&mut self)
        ensures
            !final(self).spec_online(),
            final(self).spec_registers() == old(self).spec_registers(),
    {
        self.online = false;
    }

    /// Whether the processor is online.
    pub fn is_online(&self) -> (r: bool)
        ensures
            r == self.spec_online(),
    {
        self.online
    }

    /// The registers of the last reset.
    pub fn registers(&self) -> (r: BootRegisters)
        ensures
            r == self.spec_registers(),
    {
        self.registers
    }
}

/// Powering off is idempotent: when `once` is `before` powered off, and
/// `twice` is `once` powered off (as `poweroff` ensures), the second call
/// changed nothing.
pub proof fn lemma_poweroff_idempotent(
    before: VirtualProcessor,
    once: VirtualProcessor,
    twice: VirtualProcessor,
)
    requires
        !once.spec_online(),
        once.spec_registers() == before.spec_registers(),
        !twice.spec_online(),
        twice.spec_registers() == once.spec_registers(),
    ensures
        twice.spec_online() == once.spec_online(),
        twice.spec_registers() == once.spec_registers(),
{
}

} // verus!
