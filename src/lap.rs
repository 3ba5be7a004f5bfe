//! Payloads of the lab application protocol, carried in CAN frames.
use vstd::prelude::*;
use crate::can::{CanAddr, CanPacket, FrameModel};
use crate::cand::{encode_packet, write_packet_to_cand, Message, MessageModel};
use crate::error::Error;
use crate::wire::extend_bytes;
use vstd::utf8::encode_utf8;

verus! {

/// A message of the lab protocol that can be sent as a CAN frame.
pub trait LapPacket {
    /// The payload bytes of the frame.
    spec fn payload_spec(&self) -> Seq<u8>;

    /// The frame from `src` to `dst` that carries this message.
    fn to_can(&self, src: CanAddr, dst: CanAddr) -> (r: CanPacket)
        ensures
            r.src == src,
            r.dest == dst,
            r.payload@ == self.payload_spec(),
    ;
}

/// How a lamp command sets the lamp.
#[derive(Debug, Clone, Copy, PartialEq, Eq)]
pub enum LampMode {
    Toggle,
    Dim,
}

impl LampMode {
    pub open spec fn code_spec(self) -> u8 {
        match self {
            LampMode::Toggle => 0,
            LampMode::Dim => 1,
        }
    }

    /// The byte that stands for this mode on the wire.
    pub fn code(self) -> (r: u8)
        ensures
            r == self.code_spec(),
    {
        match self {
            LampMode::Toggle => 0,
            LampMode::Dim => 1,
        }
    }
}

/// The commands of the scrolling-text display, by their first payload byte.
#[derive(Debug, Clone, Copy, PartialEq, Eq)]
pub enum BorgMessage {
    Info,
    Mode,
    ScrollReset,
    ScrollAppend,
}

impl BorgMessage {
    pub open spec fn code_spec(self) -> u8 {
        match self {
            BorgMessage::Info => 0,
            BorgMessage::Mode => 1,
            BorgMessage::ScrollReset => 2,
            BorgMessage::ScrollAppend => 3,
        }
    }

    /// The byte that stands for this command on the wire.
    pub fn code(self) -> (r: u8)
        ensures
            r == self.code_spec(),
    {
        match self {
            BorgMessage::Info => 0,
            BorgMessage::Mode => 1,
            BorgMessage::ScrollReset => 2,
            BorgMessage::ScrollAppend => 3,
        }
    }
}

/// Sets lamp `lamp_id` to `value` in mode `mode`.
pub struct SetLampPacket {
    pub mode: LampMode,
    pub lamp_id: u8,
    pub value: u8,
}

impl LapPacket for SetLampPacket {
    open spec fn payload_spec(&self) -> Seq<u8> {
        seq![self.mode.code_spec(), self.lamp_id, self.value]
    }

    fn to_can(&self, src: CanAddr, dest: CanAddr) -> (r: CanPacket) {
        let mut payload: Vec<u8> = Vec::new();
        payload.push(self.mode.code());
        payload.push(self.lamp_id);
        payload.push(self.value);
        assert(payload@ =~= self.payload_spec());
        CanPacket { src, dest, payload }
    }
}

/// Clears the scrolling text.
pub struct ClearBorgText;

impl LapPacket for ClearBorgText {
    open spec fn payload_spec(&self) -> Seq<u8> {
        seq![BorgMessage::ScrollReset.code_spec()]
    }

    fn to_can(&self, src: CanAddr, dest: CanAddr) -> (r: CanPacket) {
        let mut payload: Vec<u8> = Vec::new();
        payload.push(BorgMessage::ScrollReset.code());
        assert(payload@ =~= self.payload_spec());
        CanPacket { src, dest, payload }
    }
}

/// Sets the display mode.
pub struct BorgMode(pub u8);

impl LapPacket for BorgMode {
    open spec fn payload_spec(&self) -> Seq<u8> {
        seq![BorgMessage::Mode.code_spec(), self.0]
    }

    fn to_can(&self, src: CanAddr, dest: CanAddr) -> (r: CanPacket) {
        let mut payload: Vec<u8> = Vec::new();
        payload.push(BorgMessage::Mode.code());
        payload.push(self.0);
        assert(payload@ =~= self.payload_spec());
        CanPacket { src, dest, payload }
    }
}

/// Appends seven bytes of text to the scrolling text.
pub struct AppendBorgText {
    text: [u8; 7],
}

impl LapPacket for AppendBorgText {
    closed spec fn payload_spec(&self) -> Seq<u8> {
        seq![BorgMessage::ScrollAppend.code_spec()] + self.text@
    }

    fn to_can(&self, src: CanAddr, dest: CanAddr) -> (r: CanPacket) {
        let mut payload: Vec<u8> = Vec::new();
        payload.push(BorgMessage::ScrollAppend.code());
        extend_bytes(&mut payload, self.text.as_slice());
        assert(payload@ =~= self.payload_spec());
        CanPacket { src, dest, payload }
    }
}

/// Number of seven-byte pieces that `n` bytes of text take.
pub open spec fn scroll_chunk_count(n: nat) -> nat {
    (n + 6) / 7
}

/// Payload that appends piece `k` of `text`: the append command, then bytes
/// `7k .. 7k+7` of `text`, with zeros past its end.
pub open spec fn scroll_chunk(text: Seq<u8>, k: int) -> Seq<u8> {
    seq![BorgMessage::ScrollAppend.code_spec()] + Seq::new(
        7,
        |j: int|
            if 7 * k + j < text.len() {
                text[7 * k + j]
            } else {
                0u8
            },
    )
}

/// Copies `src` over the start of `dest`.
fn copy_data(src: &[u8], dest: &mut [u8])
    requires
        src@.len() <= old(dest)@.len(),
    ensures
        final(dest)@ == src@ + old(dest)@.subrange(src@.len() as int, old(dest)@.len() as int),
{
    let ghost start = dest@;
    let mut idx: usize = 0;
    while idx < src.len()
        invariant
            idx <= src@.len(),
            src@.len() <= start.len(),
            dest@.len() == start.len(),
            forall|j: int| 0 <= j < idx ==> dest@[j] == src@[j],
            forall|j: int| idx <= j < start.len() ==> dest@[j] == start[j],
        decreases src@.len() - idx,
    {
        dest[idx] = src[idx];
        idx = idx + 1;
    }
    assert(dest@ =~= src@ + start.subrange(src@.len() as int, start.len() as int));
}

/// The frames that replace the scrolling text with `input`: one that clears it,
/// then one per seven bytes of the UTF-8 text, the last padded with zeros.
pub fn set_scroll_text(input: &str, src: CanAddr, dst: CanAddr) -> (r: Vec<CanPacket>)
    ensures
        r@.len() == 1 + scroll_chunk_count(encode_utf8(input@).len()),
        forall|i: int| 0 <= i < r@.len() ==> (#[trigger] r@[i]).src == src && r@[i].dest == dst,
        r@[0].payload@ == seq![BorgMessage::ScrollReset.code_spec()],
        forall|k: int|
            0 <= k < scroll_chunk_count(encode_utf8(input@).len()) ==> (#[trigger] r@[k + 1]).payload@
                == scroll_chunk(encode_utf8(input@), k),
{
    let input_data = input.as_bytes();
    let ghost text = encode_utf8(input@);
    let n = input_data.len();
    let count = n / 7 + if n % 7 != 0 {
        1
    } else {
        0
    };
    assert(count == scroll_chunk_count(n as nat));
    let mut buf: Vec<CanPacket> = Vec::new();
    buf.push(ClearBorgText.to_can(src, dst));
    let mut k: usize = 0;
    while k < count
        invariant
            k <= count,
            count == scroll_chunk_count(n as nat),
            n == text.len(),
            input_data@ == text,
            buf@.len() == 1 + k,
            forall|i: int| 0 <= i < buf@.len() ==> (#[trigger] buf@[i]).src == src && buf@[i].dest == dst,
            buf@[0].payload@ == seq![BorgMessage::ScrollReset.code_spec()],
            forall|j: int| 0 <= j < k ==> (#[trigger] buf@[j + 1]).payload@ == scroll_chunk(text, j),
        decreases count - k,
    {
        let idx = 7 * k;
        let end = if n - idx < 7 {
            n
        } else {
            idx + 7
        };
        let sub = &input_data[idx..end];
        let mut text_piece = [0u8; 7];
        copy_data(sub, &mut text_piece);
        let piece = AppendBorgText { text: text_piece };
        let p = piece.to_can(src, dst);
        assert(p.payload@ =~= scroll_chunk(text, k as int));
        buf.push(p);
        k = k + 1;
    }
    buf
}

/// Address of the endpoint that lab commands are sent from.
pub const COMMAND_SRC_ADDR: u8 = 0;

/// Port of the endpoint that lab commands are sent from.
pub const COMMAND_SRC_PORT: u8 = 0x23;

/// Appends to `out` the gateway packet that sets the display at `dst` to
/// mode `mode`, sent from the command endpoint.
pub fn borg_mode(out: &mut Vec<u8>, mode: u8, dst: CanAddr) -> (r: Result<(), Error>)
    ensures
        r is Ok,
        final(out)@ == old(out)@ + encode_packet(
            MessageModel::Frame(
                FrameModel {
                    src_addr: COMMAND_SRC_ADDR,
                    src_port: COMMAND_SRC_PORT,
                    dest_addr: dst.addr_spec(),
                    dest_port: dst.port_spec(),
                    payload: seq![BorgMessage::Mode.code_spec(), mode],
                },
            ),
        ),
{
    let src = match CanAddr::new(COMMAND_SRC_ADDR, COMMAND_SRC_PORT) {
        Ok(a) => a,
        Err(e) => return Err(Error::from(e)),
    };
    let p = BorgMode(mode).to_can(src, dst);
    write_packet_to_cand(out, &Message::Frame(p))
}

} // verus!
