use microvm::message::{Message, MessageType, MESSAGE_SIZE, PAYLOAD_SIZE};

fn sample() -> Message {
    let mut payload = vec![0u8; PAYLOAD_SIZE];
    payload[0] = 0xde;
    payload[1] = 0xad;
    payload[PAYLOAD_SIZE - 1] = 7;
    Message::ikc(0x0102_0304, 42, &payload)
}

#[test]
fn message_round_trip() {
    let m = sample();
    let bytes = m.to_bytes();
    assert_eq!(bytes.len(), MESSAGE_SIZE);
    let back = Message::try_from_bytes(&bytes).unwrap();
    assert_eq!(back, m);
}

#[test]
fn message_layout_is_little_endian() {
    let bytes = sample().to_bytes();
    assert_eq!(&bytes[0..4], &[0x04, 0x03, 0x02, 0x01]);
    assert_eq!(&bytes[4..8], &[42, 0, 0, 0]);
    assert_eq!(&bytes[8..12], &[2, 0, 0, 0]);
    assert_eq!(bytes[12], 0xde);
    assert_eq!(bytes[63], 7);
}

#[test]
fn message_round_trip_every_type() {
    for t in [
        MessageType::Interrupt,
        MessageType::Exception,
        MessageType::Ikc,
        MessageType::SchedulingEvent,
    ] {
        let mut m = Message::empty();
        m.message_type = t;
        m.source = u32::MAX;
        let back = Message::try_from_bytes(&m.to_bytes()).unwrap();
        assert_eq!(back, m);
    }
}

#[test]
fn message_rejects_wrong_length() {
    assert!(Message::try_from_bytes(&[0u8; MESSAGE_SIZE - 1]).is_none());
    assert!(Message::try_from_bytes(&[0u8; MESSAGE_SIZE + 1]).is_none());
}

#[test]
fn message_rejects_unknown_type() {
    let mut bytes = sample().to_bytes();
    bytes[8] = 9;
    assert!(Message::try_from_bytes(&bytes).is_none());
}

#[test]
fn message_type_names() {
    assert_eq!(MessageType::Ikc.name(), "Ikc");
    assert_eq!(MessageType::Interrupt.name(), "Interrupt");
    assert_eq!(MessageType::from_tag(3), Some(MessageType::SchedulingEvent));
    assert_eq!(MessageType::Exception.tag(), 1);
}

#[test]
fn empty_message_is_zero() {
    let m = Message::empty();
    assert_eq!(m.source, 0);
    assert_eq!(m.destination, 0);
    assert_eq!(m.payload, vec![0u8; PAYLOAD_SIZE]);
    assert_eq!(Message::PAYLOAD_SIZE, PAYLOAD_SIZE);
}
