use labctl::can::CanAddr;
use labctl::cand::{read_packet, Message};
use labctl::lap::{borg_mode, set_scroll_text, BorgMode, ClearBorgText, LampMode, LapPacket, SetLampPacket};

fn addr(a: u8, p: u8) -> CanAddr {
    CanAddr::new(a, p).unwrap()
}

#[test]
fn lamp_packet_payload() {
    let p = SetLampPacket { mode: LampMode::Dim, lamp_id: 6, value: 255 }.to_can(addr(0, 2), addr(60, 2));
    assert_eq!(p.payload, vec![1, 6, 255]);
    assert_eq!(p.src, addr(0, 2));
    assert_eq!(p.dest, addr(60, 2));
    let t = SetLampPacket { mode: LampMode::Toggle, lamp_id: 3, value: 0 }.to_can(addr(0, 2), addr(60, 2));
    assert_eq!(t.payload, vec![0, 3, 0]);
}

#[test]
fn borg_payloads() {
    assert_eq!(ClearBorgText.to_can(addr(0, 0x23), addr(1, 1)).payload, vec![0x02]);
    assert_eq!(BorgMode(4).to_can(addr(0, 0x23), addr(1, 1)).payload, vec![0x01, 4]);
}

#[test]
fn scroll_text_is_split_in_sevens() {
    let ps = set_scroll_text("Hello World!", addr(0, 0x23), addr(0x24, 0x23));
    assert_eq!(ps.len(), 3);
    assert_eq!(ps[0].payload, vec![0x02]);
    assert_eq!(ps[1].payload, vec![0x03, b'H', b'e', b'l', b'l', b'o', b' ', b'W']);
    assert_eq!(ps[2].payload, vec![0x03, b'o', b'r', b'l', b'd', b'!', 0, 0]);
    for p in &ps {
        assert_eq!(p.src, addr(0, 0x23));
        assert_eq!(p.dest, addr(0x24, 0x23));
    }
}

#[test]
fn scroll_text_edges() {
    let empty = set_scroll_text("", addr(0, 0x23), addr(1, 1));
    assert_eq!(empty.len(), 1);
    let seven = set_scroll_text("abcdefg", addr(0, 0x23), addr(1, 1));
    assert_eq!(seven.len(), 2);
    assert_eq!(seven[1].payload, vec![0x03, b'a', b'b', b'c', b'd', b'e', b'f', b'g']);
    let eight = set_scroll_text("abcdefgh", addr(0, 0x23), addr(1, 1));
    assert_eq!(eight.len(), 3);
    assert_eq!(eight[2].payload, vec![0x03, b'h', 0, 0, 0, 0, 0, 0]);
    let utf = set_scroll_text("ä", addr(0, 0x23), addr(1, 1));
    assert_eq!(utf[1].payload, vec![0x03, 0xc3, 0xa4, 0, 0, 0, 0, 0]);
}

#[test]
fn borg_mode_packet() {
    let mut out = Vec::new();
    borg_mode(&mut out, 1, addr(0x24, 0x23)).unwrap();
    // length 7, kind 0x11, id of 00:23 -> 24:23, payload length 2, [1, 1]
    assert_eq!(out, vec![7, 0x11, 0x24, 0x00, 0xc3, 0x11, 2, 1, 1]);
    let mut pos = 0usize;
    match read_packet(&out, &mut pos).unwrap().unwrap() {
        Message::Frame(p) => {
            assert_eq!(p.src, addr(0, 0x23));
            assert_eq!(p.dest, addr(0x24, 0x23));
            assert_eq!(p.payload, vec![1, 1]);
        }
        other => panic!("unexpected {:?}", other),
    }
}
