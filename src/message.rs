use vstd::prelude::*;
use crate::bytes::{le_bytes, le_value, le32_at, lemma_le_value_of_bytes, push_le32, read_le32};

verus! {

/// Identifier of a process inside the guest.
pub type ProcessIdentifier = u32;

/// Size in bytes of an encoded message.
pub const MESSAGE_SIZE: usize = 64;

/// Size in bytes of the payload of a message.
pub const PAYLOAD_SIZE: usize = 52;

/// Offset of the payload in an encoded message.
pub const PAYLOAD_OFFSET: usize = 12;

/// Kind of a message.
#[derive(Clone, Copy, Debug, PartialEq, Eq, Structural)]
pub enum MessageType {
    Interrupt,
    Exception,
    /// Inter-kernel communication.
    Ikc,
    SchedulingEvent,
}

/// The tag that encodes a message type on the wire.
pub open spec fn type_tag(t: MessageType) -> u32 {
    match t {
        MessageType::Interrupt => 0,
        MessageType::Exception => 1,
        MessageType::Ikc => 2,
        MessageType::SchedulingEvent => 3,
    }
}

/// The message type that a tag encodes, if any.
pub open spec fn type_of_tag(tag: nat) -> Option<MessageType> {
    if tag == 0 {
        Some(MessageType::Interrupt)
    } else if tag == 1 {
        Some(MessageType::Exception)
    } else if tag == 2 {
        Some(MessageType::Ikc)
    } else if tag == 3 {
        Some(MessageType::SchedulingEvent)
    } else {
        None
    }
}

/// The name of a message type.
pub open spec fn kind_name(t: MessageType) -> Seq<char> {
    match t {
        MessageType::Interrupt => "Interrupt"@,
        MessageType::Exception => "Exception"@,
        MessageType::Ikc => "Ikc"@,
        MessageType::SchedulingEvent => "SchedulingEvent"@,
    }
}

impl MessageType {
    /// Encodes this type as its wire tag.
    pub fn tag(&self) -> (r: u32)
        ensures
            r == type_tag(*self),
    {
        match self {
            MessageType::Interrupt => 0,
            MessageType::Exception => 1,
            MessageType::Ikc => 2,
            MessageType::SchedulingEvent => 3,
        }
    }

    /// Decodes a wire tag.
    pub fn from_tag(tag: u32) -> (r: Option<MessageType>)
        ensures
            r == type_of_tag(tag as nat),
    {
        if tag == 0 {
            Some(MessageType::Interrupt)
        } else if tag == 1 {
            Some(MessageType::Exception)
        } else if tag == 2 {
            Some(MessageType::Ikc)
        } else if tag == 3 {
            Some(MessageType::SchedulingEvent)
        } else {
            None
        }
    }

    /// The name of this type.
    pub fn name(&self) -> (r: &'static str)
        ensures
            r@ == kind_name(*self),
    {
        match self {
            MessageType::Interrupt => "Interrupt",
            MessageType::Exception => "Exception",
            MessageType::Ikc => "Ikc",
            MessageType::SchedulingEvent => "SchedulingEvent",
        }
    }
}

/// A fixed-size record exchanged with the guest.
#[derive(Clone, Debug, PartialEq, Eq)]
pub struct Message {
    pub source: ProcessIdentifier,
    pub destination: ProcessIdentifier,
    pub message_type: MessageType,
    /// Exactly `PAYLOAD_SIZE` bytes.
    pub payload: Vec<u8>,
}

/// Mathematical value of a message.
pub struct MessageView {
    pub source: u32,
    pub destination: u32,
    pub message_type: MessageType,
    pub payload: Seq<u8>,
}

impl View for Message {
    type V = MessageView;

    open spec fn view(&self) -> MessageView {
        MessageView {
            source: self.source,
            destination: self.destination,
            message_type: self.message_type,
            payload: self.payload@,
        }
    }
}

/// The value of an optional message.
pub open spec fn opt_view(o: Option<Message>) -> Option<MessageView> {
    match o {
        Some(m) => Some(m@),
        None => None,
    }
}

/// The encoding of a message: source, destination and type tag as
/// little-endian 32-bit words, then the payload.
pub open spec fn encode(m: MessageView) -> Seq<u8> {
    le_bytes(m.source) + le_bytes(m.destination) + le_bytes(type_tag(m.message_type)) + m.payload
}

/// The message that `b` encodes, if it encodes one.
pub open spec fn decode(b: Seq<u8>) -> Option<MessageView> {
    if b.len() != MESSAGE_SIZE {
        None
    } else {
        match type_of_tag(le32_at(b, 8)) {
            None => None,
            Some(t) => Some(
                MessageView {
                    source: le32_at(b, 0) as u32,
                    destination: le32_at(b, 4) as u32,
                    message_type: t,
                    payload: b.subrange(PAYLOAD_OFFSET as int, MESSAGE_SIZE as int),
                },
            ),
        }
    }
}

impl Message {
    /// Size in bytes of the payload of a message.
    pub const PAYLOAD_SIZE: usize = 52;

    /// A message holds exactly `PAYLOAD_SIZE` payload bytes.
    pub open spec fn wf(&self) -> bool {
        self.payload@.len() == PAYLOAD_SIZE
    }

    /// The message with zero identifiers, type `Interrupt` and a zero payload.
    pub fn empty() -> (r: Message)
        ensures
            r.wf(),
            r.source == 0,
            r.destination == 0,
            r.message_type == MessageType::Interrupt,
            r.payload@ == Seq::new(PAYLOAD_SIZE as nat, |i: int| 0u8),
    {
        Message {
            source: 0,
            destination: 0,
            message_type: MessageType::Interrupt,
            payload: zeroed(PAYLOAD_SIZE),
        }
    }

    /// An inter-kernel message from `source` to `destination` carrying
    /// `payload`.
    pub fn ikc(source: u32, destination: u32, payload: &[u8]) -> (r: Message)
        requires
            payload@.len() == PAYLOAD_SIZE,
        ensures
            r.wf(),
            r@ == (MessageView { source, destination, message_type: MessageType::Ikc, payload: payload@ }),
    {
        let bytes = copy_range(payload, 0, PAYLOAD_SIZE);
        assert(payload@.subrange(0, PAYLOAD_SIZE as int) =~= payload@);
        Message { source, destination, message_type: MessageType::Ikc, payload: bytes }
    }

    /// Encodes this message into `MESSAGE_SIZE` bytes.
    pub fn to_bytes(&self) -> (r: Vec<u8>)
        requires
            self.wf(),
        ensures
            r@ == encode(self@),
            r@.len() == MESSAGE_SIZE,
    {
        let mut out: Vec<u8> = Vec::new();
        push_le32(&mut out, self.source);
        push_le32(&mut out, self.destination);
        push_le32(&mut out, self.message_type.tag());
        let mut i: usize = 0;
        while i < self.payload.len()
            invariant
                i <= self.payload@.len(),
                out@ == le_bytes(self.source) + le_bytes(self.destination) + le_bytes(
                    type_tag(self.message_type),
                ) + self.payload@.subrange(0, i as int),
            decreases self.payload@.len() - i,
        {
            out.push(self.payload[i]);
            i = i + 1;
            assert(self.payload@.subrange(0, i as int) =~= self.payload@.subrange(0, i - 1)
                + seq![self.payload@[i - 1]]);
        }
        assert(self.payload@.subrange(0, i as int) =~= self.payload@);
        out
    }

    /// Decodes `MESSAGE_SIZE` bytes into a message; `None` when the length
    /// is wrong or the type tag is unknown.
    pub fn try_from_bytes(bytes: &[u8]) -> (r: Option<Message>)
        ensures
            match (r, decode(bytes@)) {
                (Some(m), Some(v)) => m@ == v && m.wf(),
                (None, None) => true,
                _ => false,
            },
    {
        if bytes.len() != MESSAGE_SIZE {
            return None;
        }
        let source = read_le32(bytes, 0);
        let destination = read_le32(bytes, 4);
        let tag = read_le32(bytes, 8);
        match MessageType::from_tag(tag) {
            None => None,
            Some(message_type) => {
                let payload = copy_range(bytes, PAYLOAD_OFFSET, PAYLOAD_SIZE);
                Some(Message { source, destination, message_type, payload })
            },
        }
    }
}

/// `n` zero bytes.
pub fn zeroed(n: usize) -> (r: Vec<u8>)
    ensures
        r@ == Seq::new(n as nat, |i: int| 0u8),
{
    let v: Vec<u8> = vec![0u8; n];
    assert(v@ =~= Seq::new(n as nat, |i: int| 0u8));
    v
}

/// A copy of the `len` bytes of `src` at `off`.
pub fn copy_range(src: &[u8], off: usize, len: usize) -> (r: Vec<u8>)
    requires
        off + len <= src@.len(),
    ensures
        r@ == src@.subrange(off as int, off + len),
{
    let mut v: Vec<u8> = Vec::new();
    let n = src.len();
    let mut i: usize = 0;
    while i < len
        invariant
            i <= len,
            n == src@.len(),
            off + len <= src@.len(),
            v@ == src@.subrange(off as int, off + i),
        decreases len - i,
    {
        v.push(src[off + i]);
        i = i + 1;
        assert(v@ =~= src@.subrange(off as int, off + i));
    }
    v
}

/// Decoding an encoded message gives back the same message.
pub proof fn lemma_decode_encode(m: MessageView)
    requires
        m.payload.len() == PAYLOAD_SIZE,
    ensures
        decode(encode(m)) == Some(m),
{
    let b = encode(m);
    lemma_le_value_of_bytes(m.source);
    lemma_le_value_of_bytes(m.destination);
    lemma_le_value_of_bytes(type_tag(m.message_type));
    assert(b.subrange(0, 4) =~= le_bytes(m.source));
    assert(b.subrange(4, 8) =~= le_bytes(m.destination));
    assert(b.subrange(8, 12) =~= le_bytes(type_tag(m.message_type)));
    assert(b.subrange(12, 64) =~= m.payload);
}

} // verus!
