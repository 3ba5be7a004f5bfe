//! The gateway's message stream: frames `[length][kind][body]`, and the
//! message variants that a `(kind, body length)` pair selects.
use vstd::prelude::*;
use vstd::utf8::{decode_utf8, encode_utf8, encode_utf8_decode_utf8, encode_utf8_valid_utf8, valid_utf8};
use crate::can::{decode_frame, encode_frame, lemma_frame_round_trip, CanPacket, FrameModel};
use crate::error::{unexpected_eof, Error, ErrorCode};
use crate::wire::{extend_bytes, lemma_u16_le_round_trip, push_u16_le, read_u16_le, u16_from_le, u16_le_bytes};

verus! {

pub const KIND_FRAME: u8 = 0x11;
pub const KIND_RESET: u8 = 0x14;
pub const KIND_PING: u8 = 0x15;
pub const KIND_RESYNC: u8 = 0x16;
pub const KIND_VERSION: u8 = 0x17;
pub const KIND_FIRMWARE_ID: u8 = 0x18;
pub const KIND_BUS_POWER: u8 = 0x1b;

/// A gateway message.
#[derive(Debug, Clone, PartialEq, Eq)]
pub enum Message {
    Frame(CanPacket),
    Reset { cause: u8 },
    Ping,
    Resync,
    VersionRequest,
    VersionReply { major: u8, minor: u8 },
    FirmwareIdRequest,
    FirmwareIdResponse(String),
    BusPowerRequest,
    BusPowerResponse { v: u16, i: u16, reference: u16, gnd: u16 },
    /// A `(kind, body)` that matches no other variant, kept as it came.
    Unknown { kind: u8, payload: Vec<u8> },
}

/// A gateway message as plain values.
pub enum MessageModel {
    Frame(FrameModel),
    Reset { cause: u8 },
    Ping,
    Resync,
    VersionRequest,
    VersionReply { major: u8, minor: u8 },
    FirmwareIdRequest,
    FirmwareIdResponse(Seq<char>),
    BusPowerRequest,
    BusPowerResponse { v: u16, i: u16, reference: u16, gnd: u16 },
    Unknown { kind: u8, payload: Seq<u8> },
}

impl View for Message {
    type V = MessageModel;

    open spec fn view(&self) -> MessageModel {
        match self {
            Message::Frame(p) => MessageModel::Frame(p@),
            Message::Reset { cause } => MessageModel::Reset { cause: *cause },
            Message::Ping => MessageModel::Ping,
            Message::Resync => MessageModel::Resync,
            Message::VersionRequest => MessageModel::VersionRequest,
            Message::VersionReply { major, minor } => MessageModel::VersionReply {
                major: *major,
                minor: *minor,
            },
            Message::FirmwareIdRequest => MessageModel::FirmwareIdRequest,
            Message::FirmwareIdResponse(s) => MessageModel::FirmwareIdResponse(s@),
            Message::BusPowerRequest => MessageModel::BusPowerRequest,
            Message::BusPowerResponse { v, i, reference, gnd } => MessageModel::BusPowerResponse {
                v: *v,
                i: *i,
                reference: *reference,
                gnd: *gnd,
            },
            Message::Unknown { kind, payload } => MessageModel::Unknown {
                kind: *kind,
                payload: payload@,
            },
        }
    }
}

/// What `String::from_utf8_lossy` makes of bytes that are not valid UTF-8.
pub uninterp spec fn utf8_lossy(b: Seq<u8>) -> Seq<char>;

/// The text of a firmware-ID body: its UTF-8 decoding where it is valid UTF-8,
/// else the lossy decoding.
pub open spec fn lossy_text(b: Seq<u8>) -> Seq<char> {
    if valid_utf8(b) {
        decode_utf8(b)
    } else {
        utf8_lossy(b)
    }
}

/// Relies on `String::from_utf8_lossy`: valid UTF-8 comes back as the text it
/// encodes; other input is decoded with replacement characters, never an error.
#[verifier::external_body]
fn decode_lossy(b: &[u8]) -> (r: String)
    ensures
        r@ == (if valid_utf8(b@) {
            decode_utf8(b@)
        } else {
            utf8_lossy(b@)
        }),
{
    String::from_utf8_lossy(b).into_owned()
}

/// `(kind, len)` selects a variant other than `Unknown`.
pub open spec fn is_known_shape(kind: u8, len: nat) -> bool {
    ||| kind == KIND_FRAME
    ||| kind == KIND_RESET && len == 1
    ||| kind == KIND_PING && len == 0
    ||| kind == KIND_RESYNC && len == 0
    ||| kind == KIND_VERSION && (len == 0 || len == 2)
    ||| kind == KIND_FIRMWARE_ID
    ||| kind == KIND_BUS_POWER && (len == 0 || len == 8)
}

/// The message of kind `kind` with body `body`, or the failure met reading it
/// (only a frame body can fail).
pub open spec fn decode_message(kind: u8, body: Seq<u8>) -> Result<MessageModel, ErrorCode> {
    let n = body.len();
    if kind == KIND_FRAME {
        match decode_frame(body) {
            Ok(f) => Ok(MessageModel::Frame(f)),
            Err(e) => Err(e),
        }
    } else if kind == KIND_RESET && n == 1 {
        Ok(MessageModel::Reset { cause: body[0] })
    } else if kind == KIND_PING && n == 0 {
        Ok(MessageModel::Ping)
    } else if kind == KIND_RESYNC && n == 0 {
        Ok(MessageModel::Resync)
    } else if kind == KIND_VERSION && n == 0 {
        Ok(MessageModel::VersionRequest)
    } else if kind == KIND_VERSION && n == 2 {
        Ok(MessageModel::VersionReply { major: body[0], minor: body[1] })
    } else if kind == KIND_FIRMWARE_ID && n == 0 {
        Ok(MessageModel::FirmwareIdRequest)
    } else if kind == KIND_FIRMWARE_ID {
        Ok(MessageModel::FirmwareIdResponse(lossy_text(body)))
    } else if kind == KIND_BUS_POWER && n == 0 {
        Ok(MessageModel::BusPowerRequest)
    } else if kind == KIND_BUS_POWER && n == 8 {
        Ok(
            MessageModel::BusPowerResponse {
                v: u16_from_le(body.subrange(0, 2)),
                i: u16_from_le(body.subrange(2, 4)),
                reference: u16_from_le(body.subrange(4, 6)),
                gnd: u16_from_le(body.subrange(6, 8)),
            },
        )
    } else {
        Ok(MessageModel::Unknown { kind, payload: body })
    }
}

/// The kind byte of a message.
pub open spec fn message_kind(m: MessageModel) -> u8 {
    match m {
        MessageModel::Frame(_) => KIND_FRAME,
        MessageModel::Reset { .. } => KIND_RESET,
        MessageModel::Ping => KIND_PING,
        MessageModel::Resync => KIND_RESYNC,
        MessageModel::VersionRequest => KIND_VERSION,
        MessageModel::VersionReply { .. } => KIND_VERSION,
        MessageModel::FirmwareIdRequest => KIND_FIRMWARE_ID,
        MessageModel::FirmwareIdResponse(_) => KIND_FIRMWARE_ID,
        MessageModel::BusPowerRequest => KIND_BUS_POWER,
        MessageModel::BusPowerResponse { .. } => KIND_BUS_POWER,
        MessageModel::Unknown { kind, .. } => kind,
    }
}

/// The body bytes of a message.
pub open spec fn encode_body(m: MessageModel) -> Seq<u8> {
    match m {
        MessageModel::Frame(f) => encode_frame(f),
        MessageModel::Reset { cause } => seq![cause],
        MessageModel::VersionReply { major, minor } => seq![major, minor],
        MessageModel::FirmwareIdResponse(s) => encode_utf8(s),
        MessageModel::BusPowerResponse { v, i, reference, gnd } => u16_le_bytes(v) + u16_le_bytes(i)
            + u16_le_bytes(reference) + u16_le_bytes(gnd),
        MessageModel::Unknown { payload, .. } => payload,
        _ => Seq::empty(),
    }
}

/// The body of `m` can be written: a frame's payload fits in its length byte.
pub open spec fn body_encodable(m: MessageModel) -> bool {
    match m {
        MessageModel::Frame(f) => f.payload.len() <= 255,
        _ => true,
    }
}

impl MessageModel {
    /// Decoding the kind and body of this message gives it back: its frame is
    /// valid, a firmware ID is not empty, and an unknown message has a shape
    /// that no other variant claims.
    pub open spec fn valid(self) -> bool {
        match self {
            MessageModel::Frame(f) => f.valid(),
            MessageModel::FirmwareIdResponse(s) => s.len() > 0,
            MessageModel::Unknown { kind, payload } => !is_known_shape(kind, payload.len()),
            _ => true,
        }
    }
}

proof fn lemma_encode_utf8_nonempty(s: Seq<char>)
    requires
        s.len() > 0,
    ensures
        encode_utf8(s).len() > 0,
{
    assert(encode_utf8(s) == vstd::utf8::encode_scalar(s[0] as u32) + encode_utf8(s.drop_first()));
}

/// For every valid message, decoding its kind and body gives back the message.
pub proof fn lemma_message_round_trip(m: MessageModel)
    requires
        m.valid(),
    ensures
        decode_message(message_kind(m), encode_body(m)) == Ok::<MessageModel, ErrorCode>(m),
{
    match m {
        MessageModel::Frame(f) => {
            lemma_frame_round_trip(f);
        },
        MessageModel::FirmwareIdResponse(s) => {
            lemma_encode_utf8_nonempty(s);
            encode_utf8_valid_utf8(s);
            encode_utf8_decode_utf8(s);
        },
        MessageModel::BusPowerResponse { v, i, reference, gnd } => {
            let b = encode_body(m);
            lemma_u16_le_round_trip(v);
            lemma_u16_le_round_trip(i);
            lemma_u16_le_round_trip(reference);
            lemma_u16_le_round_trip(gnd);
            assert(b.subrange(0, 2) =~= u16_le_bytes(v));
            assert(b.subrange(2, 4) =~= u16_le_bytes(i));
            assert(b.subrange(4, 6) =~= u16_le_bytes(reference));
            assert(b.subrange(6, 8) =~= u16_le_bytes(gnd));
        },
        MessageModel::Reset { cause } => {
            assert(encode_body(m).len() == 1);
        },
        MessageModel::VersionReply { major, minor } => {
            assert(encode_body(m).len() == 2);
        },
        _ => {},
    }
}

/// Wire form of a message on the gateway stream: body length, kind, body.
pub open spec fn encode_packet(m: MessageModel) -> Seq<u8> {
    seq![encode_body(m).len() as u8, message_kind(m)] + encode_body(m)
}

/// `m` can be written to the stream: its body can be written and is at most
/// 255 bytes long.
pub open spec fn packet_encodable(m: MessageModel) -> bool {
    body_encodable(m) && encode_body(m).len() <= 255
}

/// `rest` starts with a whole packet: the two header bytes and the body length
/// that the first of them declares.
pub open spec fn packet_complete(rest: Seq<u8>) -> bool {
    rest.len() >= 2 && rest.len() - 2 >= rest[0]
}

/// Number of bytes of the packet at the start of `rest`.
pub open spec fn packet_len(rest: Seq<u8>) -> int {
    2 + rest[0]
}

/// What reading the next packet of a channel whose remaining bytes are `rest`
/// gives: no message where the channel ends at the packet boundary, an I/O
/// failure where it ends inside the packet, else the decoded message.
pub open spec fn read_outcome(rest: Seq<u8>) -> Result<Option<MessageModel>, ErrorCode> {
    if rest.len() == 0 {
        Ok(None)
    } else if !packet_complete(rest) {
        Err(ErrorCode::IOError)
    } else {
        match decode_message(rest[1], rest.subrange(2, packet_len(rest))) {
            Ok(m) => Ok(Some(m)),
            Err(e) => Err(e),
        }
    }
}

/// Reading a written packet back gives the message it was written for.
pub proof fn lemma_packet_round_trip(m: MessageModel, tail: Seq<u8>)
    requires
        m.valid(),
        packet_encodable(m),
    ensures
        packet_complete(encode_packet(m) + tail),
        packet_len(encode_packet(m) + tail) == encode_packet(m).len(),
        read_outcome(encode_packet(m) + tail) == Ok::<Option<MessageModel>, ErrorCode>(Some(m)),
{
    let b = encode_packet(m) + tail;
    lemma_message_round_trip(m);
    assert(b.subrange(2, packet_len(b)) =~= encode_body(m));
}

impl Message {
    /// The message of kind `kind` whose body is `buf`. A `(kind, length)` pair
    /// that no variant claims gives `Unknown`; only a frame body can fail.
    pub fn read(kind: u8, buf: &[u8]) -> (r: Result<Message, Error>)
        ensures
            match r {
                Ok(m) => decode_message(kind, buf@) == Ok::<MessageModel, ErrorCode>(m@),
                Err(e) => decode_message(kind, buf@) == Err::<MessageModel, ErrorCode>(e.code()),
            },
    {
        let len = buf.len();
        if kind == KIND_FRAME {
            match CanPacket::read(buf) {
                Ok(p) => Ok(Message::Frame(p)),
                Err(e) => Err(e),
            }
        } else if kind == KIND_RESET && len == 1 {
            Ok(Message::Reset { cause: buf[0] })
        } else if kind == KIND_PING && len == 0 {
            Ok(Message::Ping)
        } else if kind == KIND_RESYNC && len == 0 {
            Ok(Message::Resync)
        } else if kind == KIND_VERSION && len == 0 {
            Ok(Message::VersionRequest)
        } else if kind == KIND_VERSION && len == 2 {
            Ok(Message::VersionReply { major: buf[0], minor: buf[1] })
        } else if kind == KIND_FIRMWARE_ID && len == 0 {
            Ok(Message::FirmwareIdRequest)
        } else if kind == KIND_FIRMWARE_ID {
            Ok(Message::FirmwareIdResponse(decode_lossy(buf)))
        } else if kind == KIND_BUS_POWER && len == 0 {
            Ok(Message::BusPowerRequest)
        } else if kind == KIND_BUS_POWER && len == 8 {
            Ok(
                Message::BusPowerResponse {
                    v: read_u16_le(buf, 0),
                    i: read_u16_le(buf, 2),
                    reference: read_u16_le(buf, 4),
                    gnd: read_u16_le(buf, 6),
                },
            )
        } else {
            Ok(Message::Unknown { kind, payload: vstd::slice::slice_to_vec(buf) })
        }
    }

    /// The kind byte of this message.
    pub fn kind(&self) -> (r: u8)
        ensures
            r == message_kind(self@),
    {
        match self {
            Message::Frame(_) => KIND_FRAME,
            Message::Reset { .. } => KIND_RESET,
            Message::Ping => KIND_PING,
            Message::Resync => KIND_RESYNC,
            Message::VersionRequest => KIND_VERSION,
            Message::VersionReply { .. } => KIND_VERSION,
            Message::FirmwareIdRequest => KIND_FIRMWARE_ID,
            Message::FirmwareIdResponse(_) => KIND_FIRMWARE_ID,
            Message::Unknown { kind, .. } => *kind,
            Message::BusPowerRequest => KIND_BUS_POWER,
            Message::BusPowerResponse { .. } => KIND_BUS_POWER,
        }
    }

    /// Appends the body of this message to `out`; fails, writing nothing, only
    /// for a frame whose payload is longer than 255 bytes.
    pub fn write(&self, out: &mut Vec<u8>) -> (r: Result<(), Error>)
        ensures
            match r {
                Ok(_) => body_encodable(self@) && final(out)@ == old(out)@ + encode_body(self@),
                Err(e) => !body_encodable(self@) && e is WrongLength && final(out)@ == old(out)@,
            },
    {
        let ghost start = out@;
        match self {
            Message::Frame(frame) => {
                return frame.write(out);
            },
            Message::Reset { cause } => {
                out.push(*cause);
            },
            Message::VersionReply { major, minor } => {
                out.push(*major);
                out.push(*minor);
            },
            Message::FirmwareIdResponse(id) => {
                extend_bytes(out, id.as_str().as_bytes());
            },
            Message::Unknown { payload, .. } => {
                extend_bytes(out, payload.as_slice());
            },
            Message::BusPowerResponse { v, i, reference, gnd } => {
                push_u16_le(out, *v);
                push_u16_le(out, *i);
                push_u16_le(out, *reference);
                push_u16_le(out, *gnd);
            },
            _ => {},
        }
        assert(out@ =~= start + encode_body(self@));
        Ok(())
    }
}

/// `data[pos..]` starts with a whole packet, so that `read_packet` there will
/// not run out of bytes.
pub fn has_complete_packet(data: &[u8], pos: usize) -> (r: bool)
    requires
        pos <= data@.len(),
    ensures
        r == packet_complete(data@.subrange(pos as int, data@.len() as int)),
{
    let rest = data.len() - pos;
    rest >= 2 && rest - 2 >= data[pos] as usize
}

/// Reads the packet at `data[*pos..]`, where `data` holds what the channel
/// delivers up to its end. At the end of the channel gives `None`; where the
/// channel ends inside the packet fails with an I/O error and leaves `pos`;
/// else moves `pos` past the packet and decodes it.
pub fn read_packet(data: &[u8], pos: &mut usize) -> (r: Result<Option<Message>, Error>)
    requires
        *old(pos) <= data@.len(),
    ensures
        ({
            let rest = data@.subrange(*old(pos) as int, data@.len() as int);
            &&& match r {
                Ok(Some(m)) => read_outcome(rest) == Ok::<Option<MessageModel>, ErrorCode>(Some(m@)),
                Ok(None) => read_outcome(rest) == Ok::<Option<MessageModel>, ErrorCode>(None),
                Err(e) => read_outcome(rest) == Err::<Option<MessageModel>, ErrorCode>(e.code()),
            }
            &&& *final(pos) == if packet_complete(rest) {
                *old(pos) + packet_len(rest)
            } else {
                *old(pos) as int
            }
            &&& rest.len() == 0 ==> (r matches Ok(None))
            &&& rest.len() > 0 && !packet_complete(rest) ==> (r matches Err(Error::IOError(_)))
        }),
{
    let start = *pos;
    let ghost rest = data@.subrange(start as int, data@.len() as int);
    if start == data.len() {
        return Ok(None);
    }
    if !has_complete_packet(data, start) {
        return Err(Error::IOError(unexpected_eof()));
    }
    let size = data[start] as usize;
    let kind = data[start + 1];
    let body = &data[start + 2..start + 2 + size];
    assert(body@ =~= rest.subrange(2, packet_len(rest)));
    *pos = start + 2 + size;
    match Message::read(kind, body) {
        Ok(m) => Ok(Some(m)),
        Err(e) => Err(e),
    }
}

/// Appends the packet for `msg` to `w`: body length, kind, body. Fails, writing
/// nothing, when the body cannot be written or is longer than 255 bytes.
pub fn write_packet_to_cand(w: &mut Vec<u8>, msg: &Message) -> (r: Result<(), Error>)
    ensures
        match r {
            Ok(_) => packet_encodable(msg@) && final(w)@ == old(w)@ + encode_packet(msg@),
            Err(e) => !packet_encodable(msg@) && e is WrongLength && final(w)@ == old(w)@,
        },
{
    let mut buf: Vec<u8> = Vec::new();
    match msg.write(&mut buf) {
        Ok(_) => {},
        Err(e) => return Err(e),
    }
    assert(buf@ =~= encode_body(msg@));
    if buf.len() > 255 {
        return Err(Error::WrongLength);
    }
    let ghost start = w@;
    w.push(buf.len() as u8);
    w.push(msg.kind());
    extend_bytes(w, buf.as_slice());
    assert(w@ =~= start + encode_packet(msg@));
    Ok(())
}

} // verus!
