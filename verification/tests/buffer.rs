use itm::Buffer;

#[test]
fn buffer_pop_bytes() {
    let bytes: &[u8] = &[0b1000_0000, 0b1010_0000, 0b1000_0100, 0b0110_0000];
    let mut buffer = Buffer::new();
    buffer.feed(bytes.to_vec());

    assert_eq!(buffer.pop_bytes(3).unwrap().len(), 3);
}

#[test]
fn buffer_pop_payload() {
    let payload: &[u8] = &[0b1000_0000, 0b1010_0000, 0b1000_0100, 0b0110_0000];
    let mut buffer = Buffer::new();
    buffer.feed(payload.to_vec());

    assert_eq!(buffer.pop_payload().unwrap(), payload);
}

#[test]
fn lib_extract_timestamp() {
    let ts: Vec<u8> = [0b1000_0000, 0b1000_0000, 0b1000_0000, 0b0000_0000].to_vec();

    assert_eq!(itm::extract_timestamp(ts, 25), 0);

    let ts: Vec<u8> = [0b1000_0001, 0b1000_0111, 0b1001_1111, 0b0111_1111].to_vec();

    assert_eq!(
        itm::extract_timestamp(ts, 27),
        0b1111111_0011111_0000111_0000001,
    );

    let ts: Vec<u8> = [0b1000_0001, 0b1000_0111, 0b1001_1111, 0b1111_1111].to_vec();

    assert_eq!(
        itm::extract_timestamp(ts, 25),
        0b11111_0011111_0000111_0000001,
    );
}

#[test]
fn extract_timestamp() {
    let ts: Vec<u8> = [0b1000_0000, 0b1000_0000, 0b1000_0000, 0b0000_0000].to_vec();

    assert_eq!(itm::extract_timestamp(ts, 25), 0);

    let ts: Vec<u8> = [0b1000_0001, 0b1000_0111, 0b1001_1111, 0b0111_1111].to_vec();

    assert_eq!(
        itm::extract_timestamp(ts, 27),
        0b1111111_0011111_0000111_0000001,
    );

    let ts: Vec<u8> = [0b1000_0001, 0b1000_0111, 0b1001_1111, 0b1111_1111].to_vec();

    assert_eq!(
        itm::extract_timestamp(ts, 25),
        0b11111_0011111_0000111_0000001,
    );
}

#[test]
fn buffer_pops_bits_in_stream_order() {
    let mut buffer = Buffer::new();
    assert_eq!(buffer.pop_bit(), None);
    buffer.feed(vec![0b0000_0101]);
    buffer.feed(vec![0xff]);
    assert_eq!(buffer.len(), 16);
    assert_eq!(buffer.pop_bit(), Some(true));
    assert_eq!(buffer.pop_bit(), Some(false));
    assert_eq!(buffer.pop_bit(), Some(true));
    assert_eq!(buffer.pop_bit(), Some(false));
    assert_eq!(buffer.len(), 12);
}

#[test]
fn buffer_pop_byte_is_lsb_first() {
    let mut buffer = Buffer::new();
    buffer.feed(vec![0b1100_1010, 0x01]);
    assert_eq!(buffer.pop_byte(), Some(0b1100_1010));
    assert_eq!(buffer.pop_byte(), Some(0x01));
    assert_eq!(buffer.pop_byte(), None);
}

#[test]
fn buffer_keeps_sub_byte_alignment() {
    // after three bits, a byte is made of the five bits left of the
    // first byte and three of the next
    let mut buffer = Buffer::new();
    buffer.feed(vec![0b1010_1000, 0b0000_0110]);
    for _ in 0..3 {
        assert_eq!(buffer.pop_bit(), Some(false));
    }
    assert_eq!(buffer.pop_byte(), Some(0b1101_0101));
    assert_eq!(buffer.len(), 5);
    assert_eq!(buffer.pop_byte(), None);
    assert_eq!(buffer.len(), 5);
}

#[test]
fn buffer_pops_nothing_when_short() {
    let mut buffer = Buffer::new();
    buffer.feed(vec![0x81, 0x82]);
    // no byte without continuation bit yet
    assert_eq!(buffer.pop_payload(), None);
    assert_eq!(buffer.pop_bytes(3), None);
    assert_eq!(buffer.len(), 16);
    buffer.feed(vec![0x03, 0x04]);
    assert_eq!(buffer.pop_payload(), Some(vec![0x81, 0x82, 0x03]));
    assert_eq!(buffer.pop_bytes(0), Some(vec![]));
    assert_eq!(buffer.pop_bytes(1), Some(vec![0x04]));
    assert!(buffer.has_room(16));
    assert!(!buffer.has_room(usize::MAX / 8));
}

#[test]
fn extract_timestamp_of_long_payloads() {
    // ten groups of seven bits: the last reaches past bit 63
    let ts: Vec<u8> = vec![0x80, 0x80, 0x80, 0x80, 0x80, 0x80, 0x80, 0x80, 0x80, 0x03];
    assert_eq!(itm::extract_timestamp(ts, 27), 1 << 63);
    let ts: Vec<u8> = vec![0xff; 11];
    assert_eq!(itm::extract_timestamp(ts, 27), u64::MAX);
    assert_eq!(itm::extract_timestamp(vec![0xff], 21), 1);
    assert_eq!(itm::extract_timestamp(vec![0xff], 37), 7);
}
