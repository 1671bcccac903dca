use vstd::prelude::*;
use crate::config;
use crate::emulator::{Emulator, OutputEvent, PmioAction, pmio_outcome};
use crate::error::Error;
use crate::message::{Message, opt_view};
use crate::vcpu::{BootRegisters, VirtualProcessor, VirtualProcessorExitContext};
use crate::vmem::{MemoryView, VirtualMemory};

verus! {

/// The initial RAM disk descriptor passed to the guest in `rbx`: the
/// page-aligned base, and the size in pages in the low twelve bits.
pub open spec fn initrd_descriptor(base: u64, size: u64) -> u64 {
    (base & 0xfffff000) | ((size >> 12) & 0xfff)
}

/// The value of `rbx` at reset for an optional initial RAM disk.
pub open spec fn boot_rbx(initrd: Option<(u64, usize)>) -> u64 {
    match initrd {
        Some((base, size)) => initrd_descriptor(base, size as u64),
        None => initrd_descriptor(0, 0),
    }
}

/// A virtual machine with one processor and one memory region.
pub struct MicroVm {
    vmem: VirtualMemory,
    vcpu: VirtualProcessor,
    emulator: Emulator,
    initrd: Option<(u64, usize)>,
}

impl MicroVm {
    pub const STDOUT_PORT: u16 = config::STDOUT_PORT;

    pub const STDIN_PORT: u16 = config::STDIN_PORT;

    pub const VMM_PORT: u16 = config::VMM_PORT;

    pub closed spec fn spec_memory(&self) -> MemoryView {
        self.vmem@
    }

    pub closed spec fn spec_online(&self) -> bool {
        self.vcpu.spec_online()
    }

    pub closed spec fn spec_registers(&self) -> BootRegisters {
        self.vcpu.spec_registers()
    }

    pub closed spec fn spec_initrd(&self) -> Option<(u64, usize)> {
        self.initrd
    }

    /// Creates a machine with `memory_size` bytes of zeroed memory and a
    /// processor that is offline.
    pub fn new(memory_size: usize) -> (r: Result<MicroVm, Error>)
        ensures
            memory_size == 0 <==> r is Err,
            r matches Err(e) ==> e == Error::InvalidMemorySize,
            r matches Ok(vm) ==> {
                &&& vm.spec_memory().bytes == Seq::new(memory_size as nat, |i: int| 0u8)
                &&& vm.spec_memory().kernel is None
                &&& vm.spec_initrd() is None
                &&& !vm.spec_online()
            },
    {
        let vmem = VirtualMemory::new(memory_size)?;
        Ok(MicroVm { vmem, vcpu: VirtualProcessor::new(), emulator: Emulator::new(), initrd: None })
    }

    /// The guest memory.
    pub fn memory(&self) -> (r: &VirtualMemory)
        ensures
            r@ == self.spec_memory(),
    {
        &self.vmem
    }

    /// Writes `data` to guest memory at `addr`.
    pub fn write_bytes(&mut self, addr: u64, data: &[u8]) -> (r: Result<(), Error>)
        ensures
            final(self).spec_online() == old(self).spec_online(),
            final(self).spec_registers() == old(self).spec_registers(),
            final(self).spec_initrd() == old(self).spec_initrd(),
            final(self).spec_memory().kernel == old(self).spec_memory().kernel,
            final(self).spec_memory().initrd == old(self).spec_memory().initrd,
            r is Ok <==> crate::vmem::in_range(
                addr as int,
                data@.len() as int,
                old(self).spec_memory().bytes.len() as int,
            ),
            r matches Err(e) ==> e == Error::InvalidMemoryAccess && final(self).spec_memory() == old(self).spec_memory(),
            r is Ok ==> final(self).spec_memory().bytes == crate::elf::splice(
                old(self).spec_memory().bytes,
                addr as int,
                data@,
            ),
    {
        self.vmem.write_bytes(addr, data)
    }

    /// Loads the kernel executable `image`; returns its entry point.
    pub fn load_kernel(&mut self, image: &[u8]) -> (r: Result<u64, Error>)
        ensures
            final(self).spec_online() == old(self).spec_online(),
            final(self).spec_registers() == old(self).spec_registers(),
            final(self).spec_initrd() == old(self).spec_initrd(),
            final(self).spec_memory().bytes.len() == old(self).spec_memory().bytes.len(),
            match (r, crate::elf::load_outcome(image@, old(self).spec_memory().bytes.len())) {
                (Ok(entry), Ok((e, f, s))) => {
                    &&& entry == e
                    &&& final(self).spec_memory().kernel == Some((f as u64, s as usize))
                    &&& final(self).spec_memory().bytes == crate::elf::apply_segments(
                        image@,
                        crate::elf::e_phnum(image@),
                        old(self).spec_memory().bytes,
                    )
                },
                (Err(err), Err(e)) => err == Error::Load(e),
                _ => false,
            },
    {
        self.vmem.load_kernel(image)
    }

    /// Loads the initial RAM disk `image` and records it for the next reset.
    pub fn load_initrd(&mut self, image: &[u8]) -> (r: Result<(), Error>)
        ensures
            final(self).spec_online() == old(self).spec_online(),
            final(self).spec_registers() == old(self).spec_registers(),
            final(self).spec_memory().kernel == old(self).spec_memory().kernel,
            match crate::vmem::initrd_outcome(old(self).spec_memory(), image@.len() as int) {
                Ok(_) => {
                    &&& r is Ok
                    &&& final(self).spec_initrd() == Some(
                        (config::INITRD_BASE as u64, image@.len() as usize),
                    )
                    &&& final(self).spec_memory().bytes == crate::elf::splice(
                        old(self).spec_memory().bytes,
                        config::INITRD_BASE as int,
                        image@,
                    )
                },
                Err(e) => r == Err::<(), Error>(Error::Load(e)) && final(self).spec_memory()
                    == old(self).spec_memory() && final(self).spec_initrd() == old(self).spec_initrd(),
            },
    {
        let initrd = self.vmem.load_initrd(image)?;
        self.initrd = Some(initrd);
        Ok(())
    }

    /// Resets the processor to the boot convention and brings it online:
    /// `rip` is the entry point, `rax` the monitor's magic number, `rbx` the
    /// initial RAM disk descriptor.
    pub fn reset(&mut self, rip: u64)
        ensures
            final(self).spec_online(),
            final(self).spec_registers() == (BootRegisters {
                rip,
                rax: config::MICROVM_MAGIC as u64,
                rbx: boot_rbx(old(self).spec_initrd()),
                rflags: 2,
                cs_base: 0,
                cs_selector: 0,
            }),
            final(self).spec_memory() == old(self).spec_memory(),
            final(self).spec_initrd() == old(self).spec_initrd(),
    {
        let rax: u64 = config::MICROVM_MAGIC as u64;
        let (base, size): (u64, u64) = match self.initrd {
            Some((base, size)) => (base, size as u64),
            None => (0, 0),
        };
        let rbx: u64 = (base & 0xfffff000) | ((size >> 12) & 0xfff);
        self.vcpu.reset(rip, rax, rbx);
    }

    /// Whether the processor is online.
    pub fn is_online(&self) -> (r: bool)
        ensures
            r == self.spec_online(),
    {
        self.vcpu.is_online()
    }

    /// The registers of the last reset.
    pub fn registers(&self) -> (r: BootRegisters)
        ensures
            r == self.spec_registers(),
    {
        self.vcpu.registers()
    }

    /// Decides what to do for an exit of the processor; a request for
    /// shutdown takes the processor offline.
    pub fn handle_exit(&mut self, exit: VirtualProcessorExitContext) -> (r: Result<PmioAction, Error>)
        ensures
            r == pmio_outcome(exit),
            final(self).spec_memory() == old(self).spec_memory(),
            final(self).spec_initrd() == old(self).spec_initrd(),
            final(self).spec_registers() == old(self).spec_registers(),
            final(self).spec_online() == (old(self).spec_online() && r != Ok::<PmioAction, Error>(
                PmioAction::Shutdown,
            )),
    {
        let action = self.emulator.handle_pmio_access(exit)?;
        if action == PmioAction::Shutdown {
            self.vcpu.poweroff();
        }
        Ok(action)
    }

    /// Emulates a write to the standard output port.
    pub fn emulate_output(&self, data: u32, size: usize) -> (r: Result<OutputEvent, Error>)
        ensures
            crate::emulator::output_done(self.spec_memory(), data, size, r),
    {
        self.emulator.emulate_output(&self.vmem, data, size)
    }

    /// Emulates a write to the standard input port, with the message that is
    /// pending, if any.
    pub fn emulate_input(&mut self, data: u32, size: usize, incoming: Option<Message>) -> (r: Result<(), Error>)
        requires
            incoming matches Some(m) ==> m.wf(),
        ensures
            final(self).spec_online() == old(self).spec_online(),
            final(self).spec_registers() == old(self).spec_registers(),
            final(self).spec_initrd() == old(self).spec_initrd(),
            crate::emulator::input_done(
                old(self).spec_memory(),
                final(self).spec_memory(),
                data,
                size,
                opt_view(incoming),
                r,
            ),
    {
        self.emulator.emulate_input(&mut self.vmem, data, size, incoming)
    }
}

} // verus!
