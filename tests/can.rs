use labctl::can::{can_id_from_tuple, can_id_to_tuple, CanAddr, CanPacket};
use labctl::error::{Error, InvalidCanId};

fn addr(a: u8, p: u8) -> CanAddr {
    CanAddr::new(a, p).unwrap()
}

#[test]
fn test_recode() {
    // A port of 0xaa does not fit in six bits and is refused; the frame is
    // recoded with the six bits that an endpoint can hold.
    assert!(CanAddr::new(0x42, 0xaa).is_err());
    let input = CanPacket {
        src: CanAddr::new(0x42, 0xaa & 0x3f).unwrap(),
        dest: CanAddr::new(0b101010, 0b110011).unwrap(),
        payload: vec![0x13, 0x37],
    };

    let mut cursor = Vec::new();
    input.write(&mut cursor).unwrap();

    let output = CanPacket::read(&cursor).unwrap();

    assert_eq!(input, output);
}

#[test]
fn test_can_addr_display() {
    let addr = CanAddr::new(0x42, 0x3f).unwrap();

    assert_eq!(addr.to_string(), "42:3f");
}

#[test]
fn endpoint_new_checks_port() {
    assert!(CanAddr::new(0, 63).is_ok());
    assert!(CanAddr::new(0, 64).is_err());
    assert!(CanAddr::new(255, 255).is_err());
    let a = addr(0xab, 0x12);
    assert_eq!(a.addr(), 0xab);
    assert_eq!(a.port(), 0x12);
}

#[test]
fn endpoint_text_is_two_lowercase_hex_bytes() {
    assert_eq!(addr(0, 0).to_string(), "00:00");
    assert_eq!(addr(0xff, 0x3f).to_string(), "ff:3f");
    assert_eq!(addr(0x2a, 0x0b).to_string(), "2a:0b");
}

#[test]
fn endpoint_text_round_trip() {
    for a in [0u8, 1, 0x0f, 0x10, 0x2a, 0x99, 0xa5, 0xff] {
        for p in [0u8, 1, 0x0a, 0x1f, 0x20, 0x3e, 0x3f] {
            let text = addr(a, p).to_string();
            let back = CanAddr::parse(&text).unwrap();
            assert_eq!(back.addr(), a);
            assert_eq!(back.port(), p);
        }
    }
}

#[test]
fn endpoint_parse_rejects_malformed_text() {
    assert!(CanAddr::parse("xyz").is_err());
    assert!(CanAddr::parse("12:34:56").is_err());
    assert!(CanAddr::parse("12").is_err());
    assert!(CanAddr::parse("").is_err());
    assert!(CanAddr::parse(":").is_err());
    assert!(CanAddr::parse("12:").is_err());
    assert!(CanAddr::parse("g1:01").is_err());
    assert!(CanAddr::parse("100:01").is_err());
    assert!(CanAddr::parse("12:40").is_err());
    assert!("xyz".parse::<CanAddr>().is_err());
}

#[test]
fn endpoint_parse_accepts_hex_fields() {
    let a = CanAddr::parse("2A:3f").unwrap();
    assert_eq!((a.addr(), a.port()), (0x2a, 0x3f));
    let b: CanAddr = "7:0".parse().unwrap();
    assert_eq!((b.addr(), b.port()), (7, 0));
    let c = CanAddr::parse("00ff:01").unwrap();
    assert_eq!((c.addr(), c.port()), (0xff, 1));
}

#[test]
fn can_id_packs_fields_at_their_bits() {
    // source (0x42, 0x2a), destination (0x2a, 0x33)
    let id = can_id_from_tuple(addr(0x42, 0x2a), addr(0x2a, 0x33));
    let expected = (0x2a_u32 << 23) | (0x30_u32 << 17) | (0x03_u32 << 16) | (0x42 << 8) | 0x2a;
    assert_eq!(id, expected);
    assert_eq!(id, 0x1563_422a);
    assert_eq!(can_id_from_tuple(addr(0, 0), addr(0, 0)), 0);
    assert_eq!(can_id_from_tuple(addr(0xff, 0x3f), addr(0xff, 0x3f)), 0x1fef_ffff);
}

#[test]
fn can_id_unpack_inverts_pack() {
    for (sa, sp, da, dp) in [(0u8, 0u8, 0u8, 0u8), (1, 2, 3, 4), (0x42, 0x2a, 0x2a, 0x33), (0xff, 0x3f, 0xff, 0x3f), (0x80, 0x10, 0x7f, 0x20)] {
        let id = can_id_from_tuple(addr(sa, sp), addr(da, dp));
        let (s, d) = can_id_to_tuple(id).unwrap();
        assert_eq!((s.addr(), s.port(), d.addr(), d.port()), (sa, sp, da, dp));
    }
}

#[test]
fn can_id_rejects_high_bits() {
    for id in [0x2000_0000u32, 0x4000_0000, 0x8000_0000, 0xe000_0000, 0xffff_ffff, 0x3fff_ffff] {
        assert!(matches!(can_id_to_tuple(id), Err(InvalidCanId)));
    }
    assert!(can_id_to_tuple(0x1fff_ffff).is_ok());
    assert!(can_id_to_tuple(0).is_ok());
}

#[test]
fn frame_wire_form() {
    let p = CanPacket::new(addr(0x42, 0x2a), addr(0x2a, 0x33), vec![0x13, 0x37]);
    let mut out = vec![0xee];
    p.write(&mut out).unwrap();
    assert_eq!(out, vec![0xee, 0x2a, 0x42, 0x63, 0x15, 0x02, 0x13, 0x37]);
}

#[test]
fn frame_round_trip() {
    for len in [0usize, 1, 7, 254, 255] {
        let payload: Vec<u8> = (0..len).map(|i| (i * 7) as u8).collect();
        let p = CanPacket::new(addr(0x10, 0x3f), addr(0xfe, 0x01), payload);
        let mut out = Vec::new();
        p.write(&mut out).unwrap();
        assert_eq!(out.len(), 5 + len);
        assert_eq!(CanPacket::read(&out).unwrap(), p);
    }
}

#[test]
fn frame_write_rejects_long_payload() {
    let p = CanPacket::new(addr(1, 1), addr(2, 2), vec![0; 256]);
    let mut out = vec![9];
    assert!(matches!(p.write(&mut out), Err(Error::WrongLength)));
    assert_eq!(out, vec![9]);
}

#[test]
fn frame_read_rejects_length_mismatch() {
    // declared 3 bytes, 2 present
    let short = [0x2a, 0x42, 0x63, 0x15, 0x03, 0x13, 0x37];
    assert!(matches!(CanPacket::read(&short), Err(Error::WrongLength)));
    // declared 1 byte, 2 present
    let long = [0x2a, 0x42, 0x63, 0x15, 0x01, 0x13, 0x37];
    assert!(matches!(CanPacket::read(&long), Err(Error::WrongLength)));
}

#[test]
fn frame_read_errors() {
    assert!(matches!(CanPacket::read(&[]), Err(Error::IOError(_))));
    assert!(matches!(CanPacket::read(&[1, 2, 3]), Err(Error::IOError(_))));
    assert!(matches!(CanPacket::read(&[1, 2, 3, 4]), Err(Error::IOError(_))));
    assert!(matches!(CanPacket::read(&[0, 0, 0, 0x20, 0]), Err(Error::InvalidCanId)));
    assert!(matches!(CanPacket::read(&[0, 0, 0, 0x80]), Err(Error::InvalidCanId)));
    let p = CanPacket::read(&[0x2a, 0x42, 0x63, 0x15, 0x00]).unwrap();
    assert_eq!((p.src.addr(), p.src.port()), (0x42, 0x2a));
    assert_eq!((p.dest.addr(), p.dest.port()), (0x2a, 0x33));
    assert!(p.payload.is_empty());
}

#[test]
fn error_from_conversions() {
    assert!(matches!(Error::from(labctl::error::InvalidCanPort), Error::InvalidCanPort));
    assert!(matches!(Error::from(InvalidCanId), Error::InvalidCanId));
    let io = std::io::Error::from(std::io::ErrorKind::BrokenPipe);
    assert!(matches!(Error::from(io), Error::IOError(_)));
}
