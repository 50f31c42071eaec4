use crate::message::Message;
use vstd::prelude::*;
use vstd::utf8::encode_utf8;

verus! {

/// Field numbers of a message on the wire: hostname, title, body, and the
/// timestamp, itself a nested message whose field `SECONDS_FIELD` holds Unix seconds.
pub const HOSTNAME_FIELD: u32 = 1;
pub const TITLE_FIELD: u32 = 2;
pub const BODY_FIELD: u32 = 3;
pub const TIMESTAMP_FIELD: u32 = 4;
pub const SECONDS_FIELD: u32 = 1;

/// Protobuf wire types used here.
pub const WIRE_VARINT: u32 = 0;
pub const WIRE_LENGTH_DELIMITED: u32 = 2;

/// LEB128: seven bits per byte, least significant first, high bit set on all but
/// the last byte.
pub open spec fn varint(v: nat) -> Seq<u8>
    decreases v,
{
    if v < 128 {
        seq![v as u8]
    } else {
        seq![(v % 128 + 128) as u8] + varint(v / 128)
    }
}

/// A field key: the field number and the wire type.
pub open spec fn field_key(tag: u32, wire_type: u32) -> Seq<u8> {
    varint(tag as nat * 8 + wire_type as nat)
}

/// A string field: key, byte length, UTF-8 bytes.
pub open spec fn string_field(tag: u32, s: Seq<char>) -> Seq<u8> {
    field_key(tag, WIRE_LENGTH_DELIMITED) + varint(encode_utf8(s).len()) + encode_utf8(s)
}

/// A 64-bit signed integer field, the value taken as two's complement.
pub open spec fn int64_field(tag: u32, v: i64) -> Seq<u8> {
    field_key(tag, WIRE_VARINT) + varint((v as u64) as nat)
}

/// A string field, left out when the string is empty.
pub open spec fn optional_string(tag: u32, s: Seq<char>) -> Seq<u8> {
    if s.len() == 0 {
        Seq::empty()
    } else {
        string_field(tag, s)
    }
}

/// The nested timestamp message; its seconds are left out when zero.
pub open spec fn timestamp_body(seconds: i64) -> Seq<u8> {
    if seconds == 0 {
        Seq::empty()
    } else {
        int64_field(SECONDS_FIELD, seconds)
    }
}

/// The bytes of `m` on the wire.
pub open spec fn encoded_message(m: Message) -> Seq<u8> {
    optional_string(HOSTNAME_FIELD, m.hostname@) + optional_string(TITLE_FIELD, m.title@)
        + optional_string(BODY_FIELD, m.body@) + field_key(
        TIMESTAMP_FIELD,
        WIRE_LENGTH_DELIMITED,
    ) + varint(timestamp_body(m.timestamp).len()) + timestamp_body(m.timestamp)
}

/// Relies on prost's `encoding::string::encode`: key with the length-delimited wire
/// type, the byte length as a varint, then the bytes.
#[verifier::external_body]
fn put_string_field(tag: u32, value: &String, buf: &mut Vec<u8>)
    requires
        1 <= tag < 0x2000_0000,
    ensures
        final(buf)@ == old(buf)@ + string_field(tag, value@),
{
    prost::encoding::string::encode(tag, value, buf)
}

/// Relies on prost's `encoding::int64::encode`: key with the varint wire type, then
/// the value as a varint of its two's complement.
#[verifier::external_body]
fn put_int64_field(tag: u32, value: i64, buf: &mut Vec<u8>)
    requires
        1 <= tag < 0x2000_0000,
    ensures
        final(buf)@ == old(buf)@ + int64_field(tag, value),
{
    prost::encoding::int64::encode(tag, &value, buf)
}

/// Relies on prost's `encoding::encode_key` with the length-delimited wire type.
#[verifier::external_body]
fn put_length_delimited_key(tag: u32, buf: &mut Vec<u8>)
    requires
        1 <= tag < 0x2000_0000,
    ensures
        final(buf)@ == old(buf)@ + field_key(tag, WIRE_LENGTH_DELIMITED),
{
    prost::encoding::encode_key(tag, prost::encoding::WireType::LengthDelimited, buf)
}

/// Relies on prost's `encoding::encode_varint`: LEB128.
#[verifier::external_body]
fn put_varint(value: u64, buf: &mut Vec<u8>)
    ensures
        final(buf)@ == old(buf)@ + varint(value as nat),
{
    prost::encoding::encode_varint(value, buf)
}

/// Encodes `message` for the wire: hostname, title and body as string fields 1 to 3
/// (each left out when empty), then field 4, a nested timestamp holding the seconds.
pub fn serialize_message(message: &Message) -> (r: Vec<u8>)
    ensures
        r@ == encoded_message(*message),
{
    let mut buf: Vec<u8> = Vec::new();
    if !message.hostname.as_str().is_empty() {
        put_string_field(HOSTNAME_FIELD, &message.hostname, &mut buf);
    }
    if !message.title.as_str().is_empty() {
        put_string_field(TITLE_FIELD, &message.title, &mut buf);
    }
    if !message.body.as_str().is_empty() {
        put_string_field(BODY_FIELD, &message.body, &mut buf);
    }
    let mut inner: Vec<u8> = Vec::new();
    if message.timestamp != 0 {
        put_int64_field(SECONDS_FIELD, message.timestamp, &mut inner);
    }
    put_length_delimited_key(TIMESTAMP_FIELD, &mut buf);
    put_varint(inner.len() as u64, &mut buf);
    let ghost before = buf@;
    let ghost body = inner@;
    buf.append(&mut inner);
    assert(buf@ == before + body);
    assert(body == timestamp_body(message.timestamp));
    assert(buf@ =~= encoded_message(*message));
    buf
}

} // verus!
