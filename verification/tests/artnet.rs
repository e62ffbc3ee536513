use ledcat::device::artnet::{
    art_dmx_packet, art_poll_packet, dedup_addresses, parse_poll_reply, parse_target_line,
    Broadcast, NetAddr, Unicast, PORT,
};

fn addr(a: u8, b: u8, c: u8, d: u8, port: u16) -> NetAddr {
    NetAddr { a, b, c, d, port }
}

#[test]
fn art_dmx_packet_structure() {
    // Universe 0x1234 with a three-byte payload.
    let packet = art_dmx_packet(0x1234, &vec![0xAB, 0xCD, 0xEF]).unwrap();
    assert_eq!(
        vec![
            0x41, 0x72, 0x74, 0x2D, 0x4E, 0x65, 0x74, 0x00, // "Art-Net\0"
            0x00, 0x50, // OpCode 0x5000 little endian
            0x04, 0x0E, // protocol 4.14
            0x00, 0x00, // sequence, physical
            0x34, 0x12, // universe low, high
            0x00, 0x03, // length big endian
            0xAB, 0xCD, 0xEF,
        ],
        packet
    );
}

#[test]
fn art_dmx_packet_too_long() {
    let data = vec![0u8; 0xFFFF];
    let err = art_dmx_packet(0, &data).unwrap_err();
    assert_eq!("data exceeds max dmx packet length", err.message());
    assert!(art_dmx_packet(0, &vec![0u8; 0xFFFE]).is_ok());
}

#[test]
fn art_poll_packet_structure() {
    assert_eq!(
        vec![0x41, 0x72, 0x74, 0x2D, 0x4E, 0x65, 0x74, 0x00, 0x00, 0x20, 0x04, 0x0E, 0x00, 0x80],
        art_poll_packet()
    );
}

#[test]
fn poll_reply_accepted() {
    let mut reply = vec![0u8; 231];
    reply[0..8].copy_from_slice(b"Art-Net\0");
    reply[8] = 0x00;
    reply[9] = 0x21;
    for (i, b) in b"panel-in-the-window".iter().enumerate() {
        reply[19 + i] = *b;
    }
    let name = parse_poll_reply(&reply).unwrap();
    assert_eq!(b"panel-in-the-window".to_vec(), name);
}

#[test]
fn poll_reply_wrong_opcode_ignored() {
    let mut reply = vec![0u8; 231];
    reply[0..8].copy_from_slice(b"Art-Net\0");
    reply[8] = 0x00;
    reply[9] = 0x50; // An ArtDmx opcode, not a reply.
    assert!(parse_poll_reply(&reply).is_none());
}

#[test]
fn poll_reply_missing_header_ignored() {
    let mut reply = vec![0u8; 231];
    reply[0..8].copy_from_slice(b"Art-Nut\0");
    reply[8] = 0x00;
    reply[9] = 0x21;
    assert!(parse_poll_reply(&reply).is_none());
    assert!(parse_poll_reply(&vec![0u8; 10]).is_none());
}

#[test]
fn unicast_buffers_until_whole_frame() {
    let mut u = Unicast::to(6, 0x0001);
    assert_eq!(None, u.write(&vec![1, 2, 3]).unwrap());
    let packet = u.write(&vec![4, 5, 6, 7]).unwrap().unwrap();
    // The packet carries the first whole frame; the seventh byte stays for
    // the next frame.
    assert_eq!(&[1, 2, 3, 4, 5, 6], &packet[18..]);
    // The carried-over seventh byte heads the next frame.
    let packet = u.write(&vec![8, 9, 10, 11, 12]).unwrap().unwrap();
    assert_eq!(&[7, 8, 9, 10, 11, 12], &packet[18..]);
    assert!(u.write(&vec![]).unwrap().is_none());
}

#[test]
fn unicast_rejects_oversized_frames() {
    // A frame too large for one DMX packet errors when it completes.
    let mut u = Unicast::to(0xFFFF, 0);
    let big = vec![0u8; 0xFFFF];
    let err = match u.write(&big) {
        Err(e) => e,
        Ok(_) => panic!("oversized frame accepted"),
    };
    assert_eq!("data exceeds max dmx packet length", err.message());
}

#[test]
fn broadcast_addresses() {
    let b = Broadcast {};
    assert_eq!(vec![addr(255, 255, 255, 255, PORT)], b.addresses());
}

#[test]
fn target_lines() {
    assert_eq!(Some(addr(10, 0, 0, 1, PORT)), parse_target_line("10.0.0.1"));
    assert_eq!(
        Some(addr(192, 168, 1, 42, 9000)),
        parse_target_line("192.168.1.42:9000")
    );
    assert_eq!(None, parse_target_line(""));
    assert_eq!(None, parse_target_line("hostname"));
    assert_eq!(None, parse_target_line("256.0.0.1"));
    // A multi-digit octet must not start with a zero; a lone zero is fine.
    assert_eq!(None, parse_target_line("010.1.1.1"));
    assert_eq!(None, parse_target_line("1.1.1.01"));
    assert_eq!(Some(addr(0, 0, 0, 0, PORT)), parse_target_line("0.0.0.0"));
    assert_eq!(None, parse_target_line("1.2.3"));
    assert_eq!(None, parse_target_line("1.2.3.4.5"));
    assert_eq!(None, parse_target_line("1.2.3.4:"));
    assert_eq!(None, parse_target_line("1.2.3.4:70000"));
    assert_eq!(None, parse_target_line(":80"));
}

#[test]
fn dedup_consecutive_addresses() {
    let a = addr(1, 2, 3, 4, PORT);
    let b = addr(5, 6, 7, 8, PORT);
    let list = vec![a, a, b, b, a];
    assert_eq!(vec![a, b, a], dedup_addresses(&list));
    assert_eq!(Vec::<NetAddr>::new(), dedup_addresses(&vec![]));
}
