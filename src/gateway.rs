use vstd::prelude::*;
use vstd::string::StringSliceAdditionalSpecFns;
use crate::http::{HttpResponse, content_length_name, content_type_name, decimal};
use crate::message::{PAYLOAD_SIZE, Message, MessageType, MessageView, kind_name};

verus! {

/// The member `key` of the JSON object in `body`, when it is an unsigned
/// integer that fits in 64 bits.
pub uninterp spec fn json_u64_member(body: Seq<char>, key: Seq<char>) -> Option<u64>;

/// The member `key` of the JSON object in `body`, when it is an array: for
/// each item, the item when it is an unsigned integer that fits in 64 bits.
pub uninterp spec fn json_u64_array_member(body: Seq<char>, key: Seq<char>) -> Option<Seq<Option<u64>>>;

/// The JSON encoding of an object with the members `source`,
/// `destination`, `message_type` and `payload` (an array of numbers).
pub uninterp spec fn json_reply(source: u32, destination: u32, kind: Seq<char>, payload: Seq<u8>) -> Option<Seq<u8>>;

/// Relies on `serde_json::from_str`, `Value::get` and `Value::as_u64`: reads
/// the member `key` of the JSON document `body` as an unsigned integer.
#[verifier::external_body]
fn json_u64_field(body: &str, key: &str) -> (r: Option<u64>)
    ensures
        r == json_u64_member(body@, key@),
{
    let value: serde_json::Value = match serde_json::from_str(body) {
        Ok(v) => v,
        Err(_) => return None,
    };
    value.get(key).and_then(serde_json::Value::as_u64)
}

/// Relies on `serde_json::from_str`, `Value::get`, `Value::as_array` and
/// `Value::as_u64`: reads the member `key` of the JSON document `body` as an
/// array, each item as an unsigned integer.
#[verifier::external_body]
fn json_u64_array_field(body: &str, key: &str) -> (r: Option<Vec<Option<u64>>>)
    ensures
        match (r, json_u64_array_member(body@, key@)) {
            (Some(v), Some(s)) => v@ == s,
            (None, None) => true,
            _ => false,
        },
{
    let value: serde_json::Value = match serde_json::from_str(body) {
        Ok(v) => v,
        Err(_) => return None,
    };
    let items = value.get(key).and_then(serde_json::Value::as_array)?;
    Some(items.iter().map(serde_json::Value::as_u64).collect())
}

/// Relies on `serde_json::Map`, `Value::from` and `serde_json::to_vec`:
/// encodes a message as a JSON object.
#[verifier::external_body]
fn json_encode_reply(source: u32, destination: u32, kind: &str, payload: &[u8]) -> (r: Option<Vec<u8>>)
    ensures
        match (r, json_reply(source, destination, kind@, payload@)) {
            (Some(v), Some(s)) => v@ == s,
            (None, None) => true,
            _ => false,
        },
{
    let mut json = serde_json::Map::new();
    json.insert("source".to_string(), serde_json::Value::from(source));
    json.insert("destination".to_string(), serde_json::Value::from(destination));
    json.insert("message_type".to_string(), serde_json::Value::from(kind));
    json.insert("payload".to_string(), serde_json::Value::from(payload.to_vec()));
    serde_json::to_vec(&json).ok()
}

/// Why a request body does not describe a message.
#[derive(Clone, Copy, Debug, PartialEq, Eq, Structural)]
pub enum RequestError {
    /// `source` is missing or not a 32-bit unsigned integer.
    InvalidSource,
    /// `destination` is missing or not a 32-bit unsigned integer.
    InvalidDestination,
    /// `payload` is not an array of unsigned integers.
    InvalidPayload,
}

/// A process identifier read from a JSON number.
pub open spec fn pid_of(x: Option<u64>) -> Option<u32> {
    match x {
        Some(n) => if n <= u32::MAX {
            Some(n as u32)
        } else {
            None
        },
        None => None,
    }
}

/// The payload byte at `i`: the low byte of the item, or zero past the
/// last item.
pub open spec fn payload_byte(items: Seq<Option<u64>>, i: int) -> u8 {
    if 0 <= i < items.len() {
        match items[i] {
            Some(n) => (n % 256) as u8,
            None => 0,
        }
    } else {
        0
    }
}

/// The payload for the items of a request: truncated to `PAYLOAD_SIZE`
/// bytes, or padded with zeros up to it.
pub open spec fn payload_of(items: Option<Seq<Option<u64>>>) -> Option<Seq<u8>> {
    match items {
        None => Some(Seq::new(PAYLOAD_SIZE as nat, |i: int| 0u8)),
        Some(s) => if forall|i: int| 0 <= i < s.len() ==> #[trigger] s[i] is Some {
            Some(Seq::new(PAYLOAD_SIZE as nat, |i: int| payload_byte(s, i)))
        } else {
            None
        },
    }
}

/// The message that a request with these members describes.
pub open spec fn request_outcome(
    source: Option<u64>,
    destination: Option<u64>,
    payload: Option<Seq<Option<u64>>>,
) -> Result<MessageView, RequestError> {
    if pid_of(source) is None {
        Err(RequestError::InvalidSource)
    } else if pid_of(destination) is None {
        Err(RequestError::InvalidDestination)
    } else if payload_of(payload) is None {
        Err(RequestError::InvalidPayload)
    } else {
        Ok(
            MessageView {
                source: pid_of(source)->Some_0,
                destination: pid_of(destination)->Some_0,
                message_type: MessageType::Ikc,
                payload: payload_of(payload)->Some_0,
            },
        )
    }
}

/// The value of an optional list of items.
pub open spec fn items_view(p: Option<Vec<Option<u64>>>) -> Option<Seq<Option<u64>>> {
    match p {
        Some(v) => Some(v@),
        None => None,
    }
}

/// Builds the message that a request describes from its members.
pub fn message_from_fields(
    source: Option<u64>,
    destination: Option<u64>,
    payload: Option<Vec<Option<u64>>>,
) -> (r: Result<Message, RequestError>)
    ensures
        match (r, request_outcome(source, destination, items_view(payload))) {
            (Ok(m), Ok(v)) => m@ == v && m.wf(),
            (Err(e), Err(f)) => e == f,
            _ => false,
        },
{
    let src_pid: u32 = match source {
        Some(n) if n <= 0xffff_ffff => n as u32,
        _ => return Err(RequestError::InvalidSource),
    };
    let dst_pid: u32 = match destination {
        Some(n) if n <= 0xffff_ffff => n as u32,
        _ => return Err(RequestError::InvalidDestination),
    };
    let mut bytes: Vec<u8> = Vec::new();
    match payload {
        None => {
            bytes = crate::message::zeroed(PAYLOAD_SIZE);
        },
        Some(items) => {
            let n = items.len();
            let mut i: usize = 0;
            while i < n
                invariant
                    i <= n,
                    n == items@.len(),
                    items_view(payload) == Some(items@),
                    pid_of(source) == Some(src_pid),
                    pid_of(destination) == Some(dst_pid),
                    forall|j: int| 0 <= j < i ==> #[trigger] items@[j] is Some,
                decreases n - i,
            {
                if items[i].is_none() {
                    assert(items@[i as int] is None);
                    assert(!(forall|j: int| 0 <= j < items@.len() ==> #[trigger] items@[j] is Some));
                    return Err(RequestError::InvalidPayload);
                }
                i = i + 1;
            }
            let mut k: usize = 0;
            while k < PAYLOAD_SIZE
                invariant
                    k <= PAYLOAD_SIZE,
                    n == items@.len(),
                    bytes@.len() == k,
                    forall|j: int| 0 <= j < k ==> bytes@[j] == payload_byte(items@, j),
                decreases PAYLOAD_SIZE - k,
            {
                let b: u8 = if k < n {
                    match items[k] {
                        Some(x) => (x % 256) as u8,
                        None => 0,
                    }
                } else {
                    0
                };
                bytes.push(b);
                k = k + 1;
            }
            assert(bytes@ =~= Seq::new(PAYLOAD_SIZE as nat, |i: int| payload_byte(items@, i)));
        },
    }
    Ok(Message { source: src_pid, destination: dst_pid, message_type: MessageType::Ikc, payload: bytes })
}

/// Reads the message that the JSON body of a request describes.
pub fn parse_request(body: &str) -> (r: Result<Message, RequestError>)
    ensures
        match (
            r,
            request_outcome(
                json_u64_member(body@, "source"@),
                json_u64_member(body@, "destination"@),
                json_u64_array_member(body@, "payload"@),
            ),
        ) {
            (Ok(m), Ok(v)) => m@ == v && m.wf(),
            (Err(e), Err(f)) => e == f,
            _ => false,
        },
{
    let source = json_u64_field(body, "source");
    let destination = json_u64_field(body, "destination");
    let payload = json_u64_array_field(body, "payload");
    message_from_fields(source, destination, payload)
}

/// The bytes of `application/json`.
pub open spec fn json_content_type() -> Seq<u8> {
    seq![97u8, 112u8, 112u8, 108u8, 105u8, 99u8, 97u8, 116u8, 105u8, 111u8, 110u8, 47u8, 106u8, 115u8, 111u8, 110u8]
}

/// The response that carries a reply from the guest: `200 OK` with the
/// message as a JSON body, or `500 Internal Server Error` when it cannot
/// be encoded.
pub fn reply_response(message: &Message) -> (r: HttpResponse)
    requires
        message.wf(),
    ensures
        match json_reply(message.source, message.destination, kind_name(message.message_type), message.payload@) {
            Some(body) => {
                &&& r.spec_status() == 200
                &&& r.spec_body() == body
                &&& r.spec_headers() == seq![
                    (content_type_name(), json_content_type()),
                    (content_length_name(), decimal(body.len())),
                ]
            },
            None => r.spec_status() == 500 && r.spec_body().len() == 0,
        },
{
    let kind = message.message_type.name();
    match json_encode_reply(message.source, message.destination, kind, message.payload.as_slice()) {
        Some(body) => {
            let mut response = HttpResponse::new(200, "OK");
            response.set_content("application/json", body);
            proof {
                reveal_strlit("application/json");
                vstd::string::is_ascii_spec_bytes("application/json");
            }
            assert("application/json".spec_bytes() =~= json_content_type());
            assert(response.spec_headers() =~= seq![
                (content_type_name(), json_content_type()),
                (content_length_name(), decimal(body@.len())),
            ]);
            response
        },
        None => HttpResponse::new(500, "Internal Server Error"),
    }
}

} // verus!
