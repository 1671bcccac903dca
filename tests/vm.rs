use microvm::config::{INITRD_BASE, MICROVM_MAGIC, STDIN_PORT, STDOUT_PORT, VMM_PORT};
use microvm::elf::LoadError;
use microvm::emulator::{Emulator, OutputEvent, PmioAction};
use microvm::error::Error;
use microvm::message::{Message, MessageType, MESSAGE_SIZE, PAYLOAD_SIZE};
use microvm::microvm::MicroVm;
use microvm::vcpu::{
    VirtualProcessor, VirtualProcessorExitContext, VirtualProcessorExitReason,
};
use microvm::vmem::VirtualMemory;

#[test]
fn memory_write_then_read() {
    let mut m = VirtualMemory::new(16).unwrap();
    assert_eq!(m.size(), 16);
    m.write_bytes(12, &[1, 2, 3, 4]).unwrap();
    assert_eq!(m.read_bytes(12, 4).unwrap(), vec![1, 2, 3, 4]);
    assert_eq!(m.read_bytes(11, 2).unwrap(), vec![0, 1]);
}

#[test]
fn memory_out_of_range_access_fails_without_change() {
    let mut m = VirtualMemory::new(16).unwrap();
    assert_eq!(m.write_bytes(13, &[9, 9, 9, 9]), Err(Error::InvalidMemoryAccess));
    assert_eq!(m.as_slice(), &[0u8; 16][..]);
    assert_eq!(m.write_bytes(u64::MAX, &[1]), Err(Error::InvalidMemoryAccess));
    assert_eq!(m.read_bytes(13, 4), Err(Error::InvalidMemoryAccess));
    assert_eq!(m.read_bytes(17, 0), Err(Error::InvalidMemoryAccess));
    assert_eq!(m.read_bytes(16, 0), Ok(vec![]));
}

#[test]
fn zero_memory_is_refused() {
    assert!(matches!(VirtualMemory::new(0), Err(Error::InvalidMemorySize)));
    assert!(matches!(MicroVm::new(0), Err(Error::InvalidMemorySize)));
}

#[test]
fn initrd_is_placed_at_its_base() {
    let mut vm = MicroVm::new(INITRD_BASE + 0x4000).unwrap();
    let image = vec![0xabu8; 0x4000];
    vm.load_initrd(&image).unwrap();
    assert_eq!(vm.memory().initrd(), Some((INITRD_BASE as u64, 0x4000)));
    assert_eq!(vm.memory().read_bytes(INITRD_BASE as u64 - 1, 2).unwrap(), vec![0, 0xab]);
}

#[test]
fn initrd_out_of_memory_fails() {
    let mut vm = MicroVm::new(INITRD_BASE + 0x3fff).unwrap();
    assert_eq!(
        vm.load_initrd(&vec![1u8; 0x4000]),
        Err(Error::Load(LoadError::InitrdOutOfRange))
    );
}

#[test]
fn initrd_packing_in_rbx() {
    let mut vm = MicroVm::new(INITRD_BASE + 0x4000).unwrap();
    vm.load_initrd(&vec![0u8; 0x4000]).unwrap();
    vm.reset(0x1000);
    let regs = vm.registers();
    assert_eq!(regs.rbx, 0x0080_0004);
    assert_eq!(regs.rax, MICROVM_MAGIC as u64);
    assert_eq!(regs.rip, 0x1000);
    assert_eq!(regs.rflags, 2);
    assert_eq!(regs.cs_base, 0);
    assert_eq!(regs.cs_selector, 0);
}

#[test]
fn reset_without_initrd_clears_rbx() {
    let mut vm = MicroVm::new(4096).unwrap();
    assert!(!vm.is_online());
    vm.reset(0x10);
    assert!(vm.is_online());
    assert_eq!(vm.registers().rbx, 0);
}

#[test]
fn poweroff_twice_stays_offline() {
    let mut cpu = VirtualProcessor::new();
    cpu.reset(1, 2, 3);
    assert!(cpu.is_online());
    cpu.poweroff();
    let regs = cpu.registers();
    cpu.poweroff();
    assert!(!cpu.is_online());
    assert_eq!(cpu.registers(), regs);
}

#[test]
fn exit_reasons() {
    assert_eq!(VirtualProcessorExitContext::PmioIn(1, 1).reason(), VirtualProcessorExitReason::PmioAccess);
    assert_eq!(
        VirtualProcessorExitContext::PmioOut(1, 0, 1).reason(),
        VirtualProcessorExitReason::PmioAccess
    );
    assert_eq!(VirtualProcessorExitContext::Halt.reason(), VirtualProcessorExitReason::Halt);
    assert_eq!(VirtualProcessorExitContext::Unknown.reason(), VirtualProcessorExitReason::Unknown);
}

#[test]
fn port_writes_pack_little_endian() {
    assert_eq!(
        VirtualProcessorExitContext::pmio_out(STDOUT_PORT, &[0x78, 0x56, 0x34, 0x12]),
        VirtualProcessorExitContext::PmioOut(STDOUT_PORT, 0x1234_5678, 4)
    );
    assert_eq!(
        VirtualProcessorExitContext::pmio_out(VMM_PORT, &[0x48]),
        VirtualProcessorExitContext::PmioOut(VMM_PORT, 0x48, 1)
    );
}

#[test]
fn port_dispatch() {
    let emulator = Emulator::new();
    let handle_pmio_access = |exit| emulator.handle_pmio_access(exit);
    assert_eq!(
        handle_pmio_access(VirtualProcessorExitContext::PmioOut(STDOUT_PORT, 5, 4)),
        Ok(PmioAction::Output(5, 4))
    );
    assert_eq!(
        handle_pmio_access(VirtualProcessorExitContext::PmioOut(STDIN_PORT, 6, 4)),
        Ok(PmioAction::Input(6, 4))
    );
    assert_eq!(
        handle_pmio_access(VirtualProcessorExitContext::PmioOut(VMM_PORT, 0, 1)),
        Ok(PmioAction::Shutdown)
    );
    assert_eq!(
        handle_pmio_access(VirtualProcessorExitContext::PmioIn(STDIN_PORT, 4)),
        Err(Error::UnsupportedPortRead(STDIN_PORT))
    );
    assert_eq!(
        handle_pmio_access(VirtualProcessorExitContext::Halt),
        Err(Error::UnknownExit)
    );
}

#[test]
fn unsupported_port_fails_the_run() {
    let mut vm = MicroVm::new(4096).unwrap();
    vm.reset(0);
    let exit = VirtualProcessorExitContext::pmio_out(0xbeef, &[1, 2, 3, 4]);
    assert_eq!(vm.handle_exit(exit), Err(Error::UnsupportedPort(0xbeef)));
}

#[test]
fn hello_on_the_console() {
    let mut vm = MicroVm::new(4096).unwrap();
    vm.reset(0);
    let mut console: Vec<u8> = Vec::new();
    let exits = [
        VirtualProcessorExitContext::pmio_out(STDOUT_PORT, &[b'H']),
        VirtualProcessorExitContext::pmio_out(STDOUT_PORT, &[b'i']),
        VirtualProcessorExitContext::pmio_out(VMM_PORT, &[0]),
    ];
    for exit in exits {
        assert!(vm.is_online());
        match vm.handle_exit(exit).unwrap() {
            PmioAction::Output(data, size) => match vm.emulate_output(data, size).unwrap() {
                OutputEvent::Console(b) => console.push(b),
                OutputEvent::Message(_) => panic!("unexpected message"),
            },
            PmioAction::Input(..) => panic!("unexpected input"),
            PmioAction::Shutdown => {},
        }
    }
    assert_eq!(console, b"Hi".to_vec());
    assert!(!vm.is_online());
}

#[test]
fn console_rejects_non_characters() {
    let vm = MicroVm::new(4096).unwrap();
    assert!(matches!(vm.emulate_output(0xd800, 1), Err(Error::InvalidCharacter(0xd800))));
}

#[test]
fn message_ports_reject_other_sizes() {
    let mut vm = MicroVm::new(4096).unwrap();
    for size in [2usize, 3] {
        assert!(matches!(vm.emulate_output(0, size), Err(Error::InvalidOperandSize(s)) if s == size));
        assert_eq!(vm.emulate_input(0, size, None), Err(Error::InvalidOperandSize(size)));
    }
}

#[test]
fn message_output_reads_guest_memory() {
    let mut vm = MicroVm::new(4096).unwrap();
    let m = Message::ikc(1, 7, &[3u8; PAYLOAD_SIZE]);
    vm.emulate_input(100, 4, Some(m.clone())).unwrap();
    match vm.emulate_output(100, 4).unwrap() {
        OutputEvent::Message(back) => assert_eq!(back, m),
        OutputEvent::Console(_) => panic!("unexpected console byte"),
    }
    assert!(matches!(vm.emulate_output(4096 - 63, 4), Err(Error::InvalidMemoryAccess)));
    assert!(matches!(vm.emulate_output(4096 - 64, 4), Err(Error::InvalidMessage) | Ok(_)));
}

#[test]
fn input_forces_inter_kernel_type() {
    let mut vm = MicroVm::new(4096).unwrap();
    let mut m = Message::empty();
    m.source = 9;
    m.message_type = MessageType::Exception;
    vm.emulate_input(0, 4, Some(m)).unwrap();
    let bytes = vm.memory().read_bytes(0, MESSAGE_SIZE).unwrap();
    let back = Message::try_from_bytes(&bytes).unwrap();
    assert_eq!(back.message_type, MessageType::Ikc);
    assert_eq!(back.source, 9);
}

#[test]
fn input_without_pending_message_writes_empty_message() {
    let mut vm = MicroVm::new(4096).unwrap();
    vm.memory();
    vm.emulate_input(0, 4, Some(Message::ikc(5, 6, &[1u8; PAYLOAD_SIZE]))).unwrap();
    vm.emulate_input(0, 4, None).unwrap();
    let bytes = vm.memory().read_bytes(0, MESSAGE_SIZE).unwrap();
    assert_eq!(Message::try_from_bytes(&bytes).unwrap(), Message::empty());
    assert_eq!(vm.emulate_input(4096 - 63, 4, None), Err(Error::InvalidMemoryAccess));
}

#[test]
fn echo_through_guest_memory() {
    let mut vm = MicroVm::new(4096).unwrap();
    let mut block = vec![0u8; PAYLOAD_SIZE];
    block[..4].copy_from_slice(&[0xde, 0xad, 0xbe, 0xef]);
    let request = Message::ikc(0, 1, &block);
    vm.emulate_input(0x100, 4, Some(request)).unwrap();
    // The guest answers with source and destination swapped.
    let got = Message::try_from_bytes(&vm.memory().read_bytes(0x100, MESSAGE_SIZE).unwrap()).unwrap();
    let answer = Message::ikc(got.destination, got.source, &got.payload);
    vm.write_bytes(0x200, &answer.to_bytes()).unwrap();
    let exit = VirtualProcessorExitContext::pmio_out(STDOUT_PORT, &0x200u32.to_le_bytes());
    let (data, size) = match vm.handle_exit(exit).unwrap() {
        PmioAction::Output(data, size) => (data, size),
        other => panic!("unexpected action {:?}", other),
    };
    match vm.emulate_output(data, size).unwrap() {
        OutputEvent::Message(out) => {
            assert_eq!(out.source, 1);
            assert_eq!(out.destination, 0);
            assert_eq!(out.payload, block);
        },
        OutputEvent::Console(_) => panic!("unexpected console byte"),
    }
}
