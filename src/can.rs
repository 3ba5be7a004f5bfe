//! CAN endpoints, the 29-bit identifier that carries two of them, and the
//! wire form of a CAN frame.
use vstd::prelude::*;
use crate::error::{unexpected_eof, CanAddrParseError, Error, ErrorCode, InvalidCanId, InvalidCanPort};
use crate::wire::{extend_bytes, lemma_u32_le_round_trip, push_u32_le, read_u32_le, u32_from_le, u32_le_bytes};

verus! {

/// Largest port number an endpoint can carry (six bits).
pub const MAX_PORT: u8 = 0x3f;

/// Largest identifier of the 29-bit CAN extended space.
pub const MAX_CAN_ID: u32 = 0x1fff_ffff;

/// A CAN endpoint: an 8-bit address and a 6-bit port.
#[derive(Debug, Clone, Copy, PartialEq, Eq)]
pub struct CanAddr(u8, u8);

impl CanAddr {
    /// The address of this endpoint.
    pub closed spec fn addr_spec(&self) -> u8 {
        self.0
    }

    /// The port of this endpoint.
    pub closed spec fn port_spec(&self) -> u8 {
        self.1
    }

    #[verifier::type_invariant]
    spec fn port_fits(&self) -> bool {
        self.1 <= MAX_PORT
    }

    /// The endpoint `(addr, port)`; fails when the port does not fit in six bits.
    pub fn new(addr: u8, port: u8) -> (r: Result<CanAddr, InvalidCanPort>)
        ensures
            r is Ok <==> port <= MAX_PORT,
            r matches Ok(a) ==> a.addr_spec() == addr && a.port_spec() == port,
    {
        if port > MAX_PORT {
            return Err(InvalidCanPort);
        }
        Ok(CanAddr(addr, port))
    }

    pub fn addr(&self) -> (r: u8)
        ensures
            r == self.addr_spec(),
    {
        self.0
    }

    pub fn port(&self) -> (r: u8)
        ensures
            r == self.port_spec(),
            r <= MAX_PORT,
    {
        proof {
            use_type_invariant(self);
        }
        self.1
    }
}

/// The identifier that carries source `(sa, sp)` and destination `(da, dp)`.
/// The destination port is split: its top two bits go to bits 21..22, its low
/// four bits to bits 16..19.
pub open spec fn can_id_spec(sa: u8, sp: u8, da: u8, dp: u8) -> u32 {
    ((sp & 0x3f) as u32) << 23u32 | ((dp & 0x30) as u32) << 17u32 | ((dp & 0x0f) as u32) << 16u32
        | (sa as u32) << 8u32 | da as u32
}

/// Source address held in an identifier.
pub open spec fn id_src_addr(id: u32) -> u8 {
    ((id >> 8u32) & 0xff) as u8
}

/// Source port held in an identifier.
pub open spec fn id_src_port(id: u32) -> u8 {
    ((id >> 23u32) & 0x3f) as u8
}

/// Destination address held in an identifier.
pub open spec fn id_dest_addr(id: u32) -> u8 {
    (id & 0xff) as u8
}

/// Destination port held in an identifier.
pub open spec fn id_dest_port(id: u32) -> u8 {
    (((id >> 16u32) & 0x0f) | ((id >> 17u32) & 0x30)) as u8
}

/// The identifier of a frame from `src` to `dest`.
pub fn can_id_from_tuple(src: CanAddr, dest: CanAddr) -> (r: u32)
    ensures
        r == can_id_spec(src.addr_spec(), src.port_spec(), dest.addr_spec(), dest.port_spec()),
{
    ((src.port() & 0x3f) as u32) << 23u32 | ((dest.port() & 0x30) as u32) << 17u32
        | ((dest.port() & 0x0f) as u32) << 16u32 | (src.addr() as u32) << 8u32 | dest.addr() as u32
}

/// The source and destination endpoints held in `id`; fails when any of bits
/// 29 to 31 is set.
pub fn can_id_to_tuple(id: u32) -> (r: Result<(CanAddr, CanAddr), InvalidCanId>)
    ensures
        r is Err <==> id & 0xe000_0000 != 0,
        r is Err <==> id > MAX_CAN_ID,
        r matches Ok((s, d)) ==> {
            &&& s.addr_spec() == id_src_addr(id)
            &&& s.port_spec() == id_src_port(id)
            &&& d.addr_spec() == id_dest_addr(id)
            &&& d.port_spec() == id_dest_port(id)
        },
{
    assert(id & 0xe000_0000 != 0 <==> id > 0x1fff_ffff) by (bit_vector);
    if id > MAX_CAN_ID {
        return Err(InvalidCanId);
    }
    let src_addr = ((id >> 8u32) & 0xff) as u8;
    let dest_addr = (id & 0xff) as u8;
    let src_port = ((id >> 23u32) & 0x3f) as u8;
    let dest_port = (((id >> 16u32) & 0x0f) | ((id >> 17u32) & 0x30)) as u8;
    assert(((id >> 23u32) & 0x3f) <= 0x3f) by (bit_vector);
    assert((((id >> 16u32) & 0x0f) | ((id >> 17u32) & 0x30)) <= 0x3f) by (bit_vector);
    Ok((CanAddr(src_addr, src_port), CanAddr(dest_addr, dest_port)))
}

/// Unpacking the identifier of two endpoints gives back those endpoints, and
/// the identifier stays within the 29-bit space.
pub proof fn lemma_can_id_round_trip(sa: u8, sp: u8, da: u8, dp: u8)
    requires
        sp <= MAX_PORT,
        dp <= MAX_PORT,
    ensures
        can_id_spec(sa, sp, da, dp) <= MAX_CAN_ID,
        id_src_addr(can_id_spec(sa, sp, da, dp)) == sa,
        id_src_port(can_id_spec(sa, sp, da, dp)) == sp,
        id_dest_addr(can_id_spec(sa, sp, da, dp)) == da,
        id_dest_port(can_id_spec(sa, sp, da, dp)) == dp,
{
    let id = can_id_spec(sa, sp, da, dp);
    assert(sp <= 0x3f && dp <= 0x3f ==> (((sp & 0x3f) as u32) << 23u32 | ((dp & 0x30) as u32) << 17u32
        | ((dp & 0x0f) as u32) << 16u32 | (sa as u32) << 8u32 | da as u32) <= 0x1fff_ffff) by (bit_vector);
    assert(id_src_addr(id) == sa) by (bit_vector)
        requires id == ((sp & 0x3f) as u32) << 23u32 | ((dp & 0x30) as u32) << 17u32
        | ((dp & 0x0f) as u32) << 16u32 | (sa as u32) << 8u32 | da as u32;
    assert(id_src_port(id) == sp) by (bit_vector)
        requires sp <= 0x3f, id == ((sp & 0x3f) as u32) << 23u32 | ((dp & 0x30) as u32) << 17u32
        | ((dp & 0x0f) as u32) << 16u32 | (sa as u32) << 8u32 | da as u32;
    assert(id_dest_addr(id) == da) by (bit_vector)
        requires id == ((sp & 0x3f) as u32) << 23u32 | ((dp & 0x30) as u32) << 17u32
        | ((dp & 0x0f) as u32) << 16u32 | (sa as u32) << 8u32 | da as u32;
    assert(id_dest_port(id) == dp) by (bit_vector)
        requires dp <= 0x3f, id == ((sp & 0x3f) as u32) << 23u32 | ((dp & 0x30) as u32) << 17u32
        | ((dp & 0x0f) as u32) << 16u32 | (sa as u32) << 8u32 | da as u32;
}

/// The lowercase hexadecimal digit for `d < 16`.
pub open spec fn hex_char(d: u8) -> char {
    if d < 10 {
        ((48 + d) as u8) as char
    } else {
        ((87 + d) as u8) as char
    }
}

/// A byte as two lowercase hexadecimal digits.
pub open spec fn hex_pair(b: u8) -> Seq<char> {
    seq![hex_char(b / 16), hex_char(b % 16)]
}

/// The text of endpoint `(addr, port)`: `aa:pp` in lowercase hexadecimal.
pub open spec fn endpoint_text(addr: u8, port: u8) -> Seq<char> {
    hex_pair(addr) + seq![':'] + hex_pair(port)
}

/// `c` is one of `0-9`, `a-f`, `A-F`.
pub open spec fn is_hex_digit(c: char) -> bool {
    let u = c as u32;
    (48 <= u <= 57) || (97 <= u <= 102) || (65 <= u <= 70)
}

/// The value of a hexadecimal digit.
pub open spec fn hex_digit_value(c: char) -> nat {
    let u = c as u32;
    if 48 <= u <= 57 {
        (u - 48) as nat
    } else if 97 <= u <= 102 {
        (u - 87) as nat
    } else {
        (u - 55) as nat
    }
}

/// The value of a string of hexadecimal digits, most significant first.
pub open spec fn hex_value(f: Seq<char>) -> nat
    decreases f.len(),
{
    if f.len() == 0 {
        0
    } else {
        hex_value(f.drop_last()) * 16 + hex_digit_value(f.last())
    }
}

/// The byte written by `f`: one or more hexadecimal digits whose value fits in a byte.
pub open spec fn hex_field(f: Seq<char>) -> Option<u8> {
    if f.len() > 0 && (forall|i: int| 0 <= i < f.len() ==> is_hex_digit(#[trigger] f[i]))
        && hex_value(f) <= 255 {
        Some(hex_value(f) as u8)
    } else {
        None
    }
}

/// Index of the first `:` in `s` at or after `i`, or `s.len()` if there is none.
pub open spec fn colon_from(s: Seq<char>, i: int) -> int
    decreases s.len() - i,
{
    if i >= s.len() {
        s.len() as int
    } else if s[i] == ':' {
        i
    } else {
        colon_from(s, i + 1)
    }
}

/// The endpoint written by `s`: two hexadecimal fields around a single `:`,
/// the port at most `MAX_PORT`.
pub open spec fn parse_endpoint_text(s: Seq<char>) -> Option<(u8, u8)> {
    let k = colon_from(s, 0);
    if k >= s.len() {
        None
    } else {
        match (hex_field(s.subrange(0, k)), hex_field(s.subrange(k + 1, s.len() as int))) {
            (Some(a), Some(p)) => if p <= MAX_PORT {
                Some((a, p))
            } else {
                None
            },
            _ => None,
        }
    }
}

/// Relies on `String::push`: appends one character.
#[verifier::external_body]
fn push_char(s: &mut String, c: char)
    ensures
        final(s)@ == old(s)@.push(c),
{
    s.push(c);
}

fn hex_digit_char(d: u8) -> (c: char)
    requires
        d < 16,
    ensures
        c == hex_char(d),
{
    if d < 10 {
        (d + 48) as char
    } else {
        (d + 87) as char
    }
}

/// Value of `c` as a hexadecimal digit, or `None` if it is none.
fn hex_digit_of(c: char) -> (r: Option<u8>)
    ensures
        r is Some <==> is_hex_digit(c),
        r matches Some(v) ==> v == hex_digit_value(c) && v < 16,
{
    let u = c as u32;
    if 48 <= u && u <= 57 {
        Some((u - 48) as u8)
    } else if 97 <= u && u <= 102 {
        Some((u - 87) as u8)
    } else if 65 <= u && u <= 70 {
        Some((u - 55) as u8)
    } else {
        None
    }
}

proof fn lemma_hex_value_step(s: Seq<char>, from: int, i: int)
    requires
        0 <= from <= i < s.len(),
    ensures
        hex_value(s.subrange(from, i + 1)) == hex_value(s.subrange(from, i)) * 16 + hex_digit_value(s[i]),
{
    assert(s.subrange(from, i + 1).drop_last() =~= s.subrange(from, i));
}

proof fn lemma_hex_value_prefix(f: Seq<char>, i: int)
    requires
        0 <= i <= f.len(),
    ensures
        hex_value(f.subrange(0, i)) <= hex_value(f),
    decreases f.len(),
{
    if i < f.len() {
        lemma_hex_value_prefix(f.drop_last(), i);
        assert(f.drop_last().subrange(0, i) =~= f.subrange(0, i));
    } else {
        assert(f.subrange(0, i) =~= f);
    }
}

/// The byte written by `s[from..to]` as a hexadecimal field.
fn parse_hex_field(s: &str, from: usize, to: usize) -> (r: Option<u8>)
    requires
        from <= to <= s@.len(),
    ensures
        r == hex_field(s@.subrange(from as int, to as int)),
{
    let ghost f = s@.subrange(from as int, to as int);
    if from == to {
        return None;
    }
    let mut v: u32 = 0;
    let mut i: usize = from;
    while i < to
        invariant
            from <= i <= to <= s@.len(),
            f == s@.subrange(from as int, to as int),
            v <= 255,
            v == hex_value(s@.subrange(from as int, i as int)),
            forall|j: int| from <= j < i ==> is_hex_digit(#[trigger] s@[j]),
        decreases to - i,
    {
        let c = s.get_char(i);
        let d = match hex_digit_of(c) {
            Some(d) => d,
            None => {
                assert(!is_hex_digit(f[i - from]));
                return None;
            },
        };
        proof {
            lemma_hex_value_step(s@, from as int, i as int);
        }
        v = v * 16 + d as u32;
        if v > 255 {
            proof {
                assert(s@.subrange(from as int, i + 1) =~= f.subrange(0, i + 1 - from));
                lemma_hex_value_prefix(f, i + 1 - from);
            }
            return None;
        }
        i = i + 1;
    }
    assert(s@.subrange(from as int, i as int) =~= f);
    assert(forall|j: int| 0 <= j < f.len() ==> f[j] == s@[from + j]);
    Some(v as u8)
}

impl CanAddr {
    /// The endpoint as text: address and port as two lowercase hexadecimal
    /// digits each, joined by `:`.
    pub fn to_string(&self) -> (r: String)
        ensures
            r@ == endpoint_text(self.addr_spec(), self.port_spec()),
    {
        let mut s = String::new();
        push_char(&mut s, hex_digit_char(self.0 / 16));
        push_char(&mut s, hex_digit_char(self.0 % 16));
        push_char(&mut s, ':');
        push_char(&mut s, hex_digit_char(self.1 / 16));
        push_char(&mut s, hex_digit_char(self.1 % 16));
        assert(s@ =~= endpoint_text(self.addr_spec(), self.port_spec()));
        s
    }

    /// Reads an endpoint from its text `aa:pp`.
    pub fn parse(s: &str) -> (r: Result<CanAddr, CanAddrParseError>)
        ensures
            match r {
                Ok(a) => parse_endpoint_text(s@) == Some((a.addr_spec(), a.port_spec())),
                Err(_) => parse_endpoint_text(s@) is None,
            },
    {
        let n = s.unicode_len();
        let mut k: usize = 0;
        loop
            invariant
                k <= n,
                n == s@.len(),
                colon_from(s@, 0) == colon_from(s@, k as int),
            ensures
                k == n || s@[k as int] == ':',
                colon_from(s@, 0) == colon_from(s@, k as int),
                k <= n,
            decreases n - k,
        {
            if k == n {
                break;
            }
            if s.get_char(k) == ':' {
                break;
            }
            k = k + 1;
        }
        if k == n {
            return Err(CanAddrParseError);
        }
        let addr = match parse_hex_field(s, 0, k) {
            Some(a) => a,
            None => return Err(CanAddrParseError),
        };
        let port = match parse_hex_field(s, k + 1, n) {
            Some(p) => p,
            None => return Err(CanAddrParseError),
        };
        if port > MAX_PORT {
            return Err(CanAddrParseError);
        }
        Ok(CanAddr(addr, port))
    }
}

impl std::str::FromStr for CanAddr {
    type Err = CanAddrParseError;

    fn from_str(s: &str) -> Result<CanAddr, CanAddrParseError> {
        CanAddr::parse(s)
    }
}

proof fn lemma_hex_char(d: u8)
    requires
        d < 16,
    ensures
        is_hex_digit(hex_char(d)),
        hex_digit_value(hex_char(d)) == d,
        hex_char(d) != ':',
{
}

proof fn lemma_hex_pair_field(b: u8)
    ensures
        hex_field(hex_pair(b)) == Some(b),
{
    let f = hex_pair(b);
    lemma_hex_char(b / 16);
    lemma_hex_char(b % 16);
    assert(f.drop_last() =~= seq![hex_char(b / 16)]);
    assert(f.drop_last().drop_last() =~= Seq::<char>::empty());
    let g = seq![hex_char(b / 16)];
    assert(g.drop_last() =~= Seq::<char>::empty());
    assert(hex_value(Seq::<char>::empty()) == 0);
    assert(g.last() == hex_char(b / 16));
    assert(hex_value(g) == b / 16);
    assert(f.drop_last() =~= g);
    assert(f.last() == hex_char(b % 16));
    assert(hex_value(f) == (b / 16) * 16 + b % 16);
}

/// Reading back the text of a valid endpoint gives that endpoint.
pub proof fn lemma_endpoint_text_round_trip(addr: u8, port: u8)
    requires
        port <= MAX_PORT,
    ensures
        parse_endpoint_text(endpoint_text(addr, port)) == Some((addr, port)),
{
    let t = endpoint_text(addr, port);
    lemma_hex_char(addr / 16);
    lemma_hex_char(addr % 16);
    assert(colon_from(t, 2) == 2);
    assert(colon_from(t, 1) == 2);
    assert(colon_from(t, 0) == 2);
    assert(t.subrange(0, 2) =~= hex_pair(addr));
    assert(t.subrange(3, 5) =~= hex_pair(port));
    lemma_hex_pair_field(addr);
    lemma_hex_pair_field(port);
}

/// A CAN frame as plain values.
pub struct FrameModel {
    pub src_addr: u8,
    pub src_port: u8,
    pub dest_addr: u8,
    pub dest_port: u8,
    pub payload: Seq<u8>,
}

impl FrameModel {
    /// Both ports fit in six bits and the payload length fits in its length byte.
    pub open spec fn valid(self) -> bool {
        &&& self.src_port <= MAX_PORT
        &&& self.dest_port <= MAX_PORT
        &&& self.payload.len() <= 255
    }
}

/// The identifier of a frame.
pub open spec fn frame_id(f: FrameModel) -> u32 {
    can_id_spec(f.src_addr, f.src_port, f.dest_addr, f.dest_port)
}

/// Wire form of a frame: identifier (4 bytes, little-endian), payload length
/// (1 byte), payload.
pub open spec fn encode_frame(f: FrameModel) -> Seq<u8> {
    u32_le_bytes(frame_id(f)) + seq![f.payload.len() as u8] + f.payload
}

/// The frame held in `b`, or the failure met while reading it: input that ends
/// inside the identifier or before the length byte, an identifier outside the
/// 29-bit space, or a length byte that disagrees with the bytes after it.
pub open spec fn decode_frame(b: Seq<u8>) -> Result<FrameModel, ErrorCode> {
    if b.len() < 4 {
        Err(ErrorCode::IOError)
    } else {
        let id = u32_from_le(b.subrange(0, 4));
        if id > MAX_CAN_ID {
            Err(ErrorCode::InvalidCanId)
        } else if b.len() < 5 {
            Err(ErrorCode::IOError)
        } else if b[4] as int != b.len() - 5 {
            Err(ErrorCode::WrongLength)
        } else {
            Ok(
                FrameModel {
                    src_addr: id_src_addr(id),
                    src_port: id_src_port(id),
                    dest_addr: id_dest_addr(id),
                    dest_port: id_dest_port(id),
                    payload: b.subrange(5, b.len() as int),
                },
            )
        }
    }
}

/// Decoding the wire form of a valid frame gives back that frame.
pub proof fn lemma_frame_round_trip(f: FrameModel)
    requires
        f.valid(),
    ensures
        decode_frame(encode_frame(f)) == Ok::<FrameModel, ErrorCode>(f),
{
    let b = encode_frame(f);
    let id = frame_id(f);
    lemma_u32_le_round_trip(id);
    lemma_can_id_round_trip(f.src_addr, f.src_port, f.dest_addr, f.dest_port);
    assert(b.subrange(0, 4) =~= u32_le_bytes(id));
    assert(b.subrange(5, b.len() as int) =~= f.payload);
}

/// A CAN frame: source and destination endpoints and up to 255 payload bytes.
#[derive(Debug, Clone, PartialEq, Eq)]
pub struct CanPacket {
    pub src: CanAddr,
    pub dest: CanAddr,
    pub payload: Vec<u8>,
}

impl View for CanPacket {
    type V = FrameModel;

    open spec fn view(&self) -> FrameModel {
        FrameModel {
            src_addr: self.src.addr_spec(),
            src_port: self.src.port_spec(),
            dest_addr: self.dest.addr_spec(),
            dest_port: self.dest.port_spec(),
            payload: self.payload@,
        }
    }
}

impl CanPacket {
    pub fn new(src: CanAddr, dest: CanAddr, payload: Vec<u8>) -> (r: CanPacket)
        ensures
            r.src == src,
            r.dest == dest,
            r.payload == payload,
    {
        CanPacket { src, dest, payload }
    }

    /// Appends the wire form of this frame to `out`; fails, writing nothing, when
    /// the payload is longer than its length byte can say.
    pub fn write(&self, out: &mut Vec<u8>) -> (r: Result<(), Error>)
        ensures
            match r {
                Ok(_) => self@.valid() && final(out)@ == old(out)@ + encode_frame(self@),
                Err(e) => self.payload@.len() > 255 && e is WrongLength && final(out)@ == old(out)@,
            },
    {
        if self.payload.len() > 255 {
            return Err(Error::WrongLength);
        }
        proof {
            use_type_invariant(&self.src);
            use_type_invariant(&self.dest);
        }
        let can_id = can_id_from_tuple(self.src, self.dest);
        let ghost start = out@;
        push_u32_le(out, can_id);
        out.push(self.payload.len() as u8);
        extend_bytes(out, self.payload.as_slice());
        assert(out@ =~= start + encode_frame(self@));
        Ok(())
    }

    /// Reads a frame from its wire form, which must fill `buf` exactly.
    pub fn read(buf: &[u8]) -> (r: Result<CanPacket, Error>)
        ensures
            match r {
                Ok(p) => decode_frame(buf@) == Ok::<FrameModel, ErrorCode>(p@),
                Err(e) => decode_frame(buf@) == Err::<FrameModel, ErrorCode>(e.code()),
            },
            buf@.len() >= 5 && u32_from_le(buf@.subrange(0, 4)) <= MAX_CAN_ID && buf@[4] != buf@.len()
                - 5 ==> (r matches Err(Error::WrongLength)),
    {
        if buf.len() < 4 {
            return Err(Error::IOError(unexpected_eof()));
        }
        let can_id = read_u32_le(buf, 0);
        let (src, dest) = match can_id_to_tuple(can_id) {
            Ok(t) => t,
            Err(_) => return Err(Error::InvalidCanId),
        };
        if buf.len() < 5 {
            return Err(Error::IOError(unexpected_eof()));
        }
        let dlc = buf[4];
        if dlc as usize != buf.len() - 5 {
            return Err(Error::WrongLength);
        }
        let payload = vstd::slice::slice_to_vec(&buf[5..buf.len()]);
        let p = CanPacket { src, dest, payload };
        assert(p@ == decode_frame(buf@)->Ok_0);
        Ok(p)
    }
}

} // verus!
