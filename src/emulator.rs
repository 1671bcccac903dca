use vstd::prelude::*;
use crate::config::{STDIN_PORT, STDOUT_PORT, VMM_PORT};
use crate::elf::splice;
use crate::error::Error;
use crate::message::{opt_view, MESSAGE_SIZE, PAYLOAD_SIZE, Message, MessageType, MessageView, decode, encode};
use crate::vcpu::VirtualProcessorExitContext;
use crate::vmem::{MemoryView, VirtualMemory, in_range};

verus! {

/// What the monitor does for a port write of the guest.
#[derive(Clone, Copy, Debug, PartialEq, Eq, Structural)]
pub enum PmioAction {
    /// Output on the standard output port: operand and its size.
    Output(u32, usize),
    /// Input on the standard input port: operand and its size.
    Input(u32, usize),
    /// The guest asked to shut down.
    Shutdown,
}

/// What the guest sent through the standard output port.
#[derive(Debug)]
pub enum OutputEvent {
    /// One byte for the console.
    Console(u8),
    /// A message read from guest memory.
    Message(Message),
}

/// The action for an exit of the virtual processor.
pub open spec fn pmio_outcome(exit: VirtualProcessorExitContext) -> Result<PmioAction, Error> {
    match exit {
        VirtualProcessorExitContext::PmioIn(port, _) => Err(Error::UnsupportedPortRead(port)),
        VirtualProcessorExitContext::PmioOut(port, data, size) => {
            if port == STDOUT_PORT {
                Ok(PmioAction::Output(data, size))
            } else if port == STDIN_PORT {
                Ok(PmioAction::Input(data, size))
            } else if port == VMM_PORT {
                Ok(PmioAction::Shutdown)
            } else {
                Err(Error::UnsupportedPort(port))
            }
        },
        _ => Err(Error::UnknownExit),
    }
}

/// Whether `x` is a Unicode scalar value.
pub open spec fn is_char_value(x: u32) -> bool {
    x < 0xd800 || (0xe000 <= x && x <= 0x10ffff)
}

/// The message that an input operation places in guest memory: the pending
/// message, forced to inter-kernel type, or the empty message.
pub open spec fn input_message(incoming: Option<MessageView>) -> MessageView {
    match incoming {
        Some(m) => MessageView { message_type: MessageType::Ikc, ..m },
        None => MessageView {
            source: 0,
            destination: 0,
            message_type: MessageType::Interrupt,
            payload: Seq::new(PAYLOAD_SIZE as nat, |i: int| 0u8),
        },
    }
}

/// What an output operation returns: a console byte for an operand of
/// size 1 that is a character; for one of size 4, the message that guest
/// memory holds at the operand.
pub open spec fn output_done(mem: MemoryView, data: u32, size: usize, r: Result<OutputEvent, Error>) -> bool {
    &&& size == 1 && is_char_value(data) ==> r == Ok::<OutputEvent, Error>(
        OutputEvent::Console((data % 256) as u8),
    )
    &&& size == 1 && !is_char_value(data) ==> r == Err::<OutputEvent, Error>(
        Error::InvalidCharacter(data),
    )
    &&& size == 4 && !in_range(data as int, MESSAGE_SIZE as int, mem.bytes.len() as int) ==> r
        == Err::<OutputEvent, Error>(Error::InvalidMemoryAccess)
    &&& size == 4 && in_range(data as int, MESSAGE_SIZE as int, mem.bytes.len() as int) ==> match decode(
        mem.bytes.subrange(data as int, data + MESSAGE_SIZE),
    ) {
        None => r == Err::<OutputEvent, Error>(Error::InvalidMessage),
        Some(v) => r matches Ok(OutputEvent::Message(m)) && m@ == v && m.wf(),
    }
    &&& size != 1 && size != 4 ==> r == Err::<OutputEvent, Error>(Error::InvalidOperandSize(size))
}

/// What an input operation does to guest memory `m0`, giving `m1`: with an
/// operand of size 4 within memory, the input message is written at it;
/// otherwise memory is left alone and the operation fails.
pub open spec fn input_done(
    m0: MemoryView,
    m1: MemoryView,
    data: u32,
    size: usize,
    incoming: Option<MessageView>,
    r: Result<(), Error>,
) -> bool {
    &&& m1.kernel == m0.kernel
    &&& m1.initrd == m0.initrd
    &&& size != 4 ==> r == Err::<(), Error>(Error::InvalidOperandSize(size)) && m1 == m0
    &&& size == 4 && !in_range(data as int, MESSAGE_SIZE as int, m0.bytes.len() as int) ==> r
        == Err::<(), Error>(Error::InvalidMemoryAccess) && m1 == m0
    &&& size == 4 && in_range(data as int, MESSAGE_SIZE as int, m0.bytes.len() as int) ==> r is Ok
        && m1.bytes == splice(m0.bytes, data as int, encode(input_message(incoming)))
}

/// The port-I/O emulator: decides what each port access of the guest asks
/// for, and carries out console and message operations on the guest memory
/// that it is handed.
pub struct Emulator {}

impl Emulator {
    /// An emulator for the standard output, standard input and monitor
    /// ports.
    pub fn new() -> Emulator {
        Emulator {}
    }

    /// Decides what a port access of the guest asks for: writes to the
    /// standard output and input ports are handed on with their operand, a
    /// write to the monitor port asks for shutdown, and anything else fails.
    pub fn handle_pmio_access(&self, exit: VirtualProcessorExitContext) -> (r: Result<PmioAction, Error>)
        ensures
            r == pmio_outcome(exit),
    {
        match exit {
            VirtualProcessorExitContext::PmioIn(port, _) => Err(Error::UnsupportedPortRead(port)),
            VirtualProcessorExitContext::PmioOut(port, data, size) => {
                if port == STDOUT_PORT {
                    Ok(PmioAction::Output(data, size))
                } else if port == STDIN_PORT {
                    Ok(PmioAction::Input(data, size))
                } else if port == VMM_PORT {
                    Ok(PmioAction::Shutdown)
                } else {
                    Err(Error::UnsupportedPort(port))
                }
            },
            _ => Err(Error::UnknownExit),
        }
    }

    /// Emulates a write to the standard output port: an operand of size 1 is a
    /// console character; one of size 4 is the guest address of a message.
    pub fn emulate_output(&self, mem: &VirtualMemory, data: u32, size: usize) -> (r: Result<OutputEvent, Error>)
        ensures
            output_done(mem@, data, size, r),
    {
        if size == 1 {
            if data < 0xd800 || (0xe000 <= data && data <= 0x10ffff) {
                Ok(OutputEvent::Console((data % 256) as u8))
            } else {
                Err(Error::InvalidCharacter(data))
            }
        } else if size == 4 {
            let bytes = mem.read_bytes(data as u64, MESSAGE_SIZE)?;
            match Message::try_from_bytes(bytes.as_slice()) {
                Some(m) => Ok(OutputEvent::Message(m)),
                None => Err(Error::InvalidMessage),
            }
        } else {
            Err(Error::InvalidOperandSize(size))
        }
    }

    /// Emulates a write to the standard input port: the operand, of size 4, is
    /// the guest address where the pending message (or the empty message, when
    /// none is pending) is placed.
    pub fn emulate_input(&self, mem: &mut VirtualMemory, data: u32, size: usize, incoming: Option<Message>) -> (r:
        Result<(), Error>)
        requires
            incoming matches Some(m) ==> m.wf(),
        ensures
            input_done(old(mem)@, final(mem)@, data, size, opt_view(incoming), r),
    {
        if size != 4 {
            return Err(Error::InvalidOperandSize(size));
        }
        let message = match incoming {
            Some(m) => Message {
                source: m.source,
                destination: m.destination,
                message_type: MessageType::Ikc,
                payload: m.payload,
            },
            None => Message::empty(),
        };
        let bytes = message.to_bytes();
        assert(message@ == input_message(opt_view(incoming)));
        mem.write_bytes(data as u64, bytes.as_slice())
    }
}

/// Each write of size 4 to the standard output port is handed on with its
/// operand, and when the operand addresses `MESSAGE_SIZE` bytes within
/// guest memory, the output operation that follows reads them: it fails
/// neither for the operand size nor for the memory access.
pub proof fn lemma_stdout_message_read(mem: MemoryView, data: u32, r: Result<OutputEvent, Error>)
    requires
        in_range(data as int, MESSAGE_SIZE as int, mem.bytes.len() as int),
        output_done(mem, data, 4, r),
    ensures
        pmio_outcome(VirtualProcessorExitContext::PmioOut(STDOUT_PORT, data, 4)) == Ok::<
            PmioAction,
            Error,
        >(PmioAction::Output(data, 4)),
        r != Err::<OutputEvent, Error>(Error::InvalidMemoryAccess),
        r != Err::<OutputEvent, Error>(Error::InvalidOperandSize(4)),
        r matches Ok(OutputEvent::Message(m)) ==> m@ == decode(
            mem.bytes.subrange(data as int, data + MESSAGE_SIZE),
        )->Some_0,
{
}

} // verus!
