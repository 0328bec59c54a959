use jrpc_client::codec::LineCodec;

#[test]
fn round_trip_frame() {
    let mut codec = LineCodec;
    let frame: Vec<u8> = b"{\"id\":1}".to_vec();
    let mut wire: Vec<u8> = Vec::new();
    codec.encode(&frame, &mut wire);
    assert_eq!(wire, b"{\"id\":1}\n".to_vec());

    let mut buf = wire;
    let got = codec.decode(&mut buf);
    assert_eq!(got, Some(frame));
    assert!(buf.is_empty());
}

#[test]
fn empty_frame_round_trip() {
    let mut codec = LineCodec;
    let frame: Vec<u8> = Vec::new();
    let mut wire: Vec<u8> = Vec::new();
    codec.encode(&frame, &mut wire);
    assert_eq!(wire, b"\n".to_vec());
    let got = codec.decode(&mut wire);
    assert_eq!(got, Some(Vec::new()));
    assert!(wire.is_empty());
}

#[test]
fn partial_frame_waits_then_completes() {
    let mut codec = LineCodec;
    let mut buf: Vec<u8> = b"{\"id\"".to_vec();
    assert_eq!(codec.decode(&mut buf), None);
    assert_eq!(buf, b"{\"id\"".to_vec());

    buf.extend_from_slice(b":1}\n");
    let got = codec.decode(&mut buf);
    assert_eq!(got, Some(b"{\"id\":1}".to_vec()));
    assert!(buf.is_empty());
}

#[test]
fn decode_splits_at_first_terminator() {
    let mut codec = LineCodec;
    let mut buf: Vec<u8> = b"ab\ncd\n".to_vec();
    assert_eq!(codec.decode(&mut buf), Some(b"ab".to_vec()));
    assert_eq!(buf, b"cd\n".to_vec());
    assert_eq!(codec.decode(&mut buf), Some(b"cd".to_vec()));
    assert!(buf.is_empty());
    assert_eq!(codec.decode(&mut buf), None);
}
