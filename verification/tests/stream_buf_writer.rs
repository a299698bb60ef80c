use stream_buf::StreamBufReader;
use stream_buf::StreamBufWriter;

#[test]
fn stream_buf_writer_new() {
    const BUF_SIZE: usize = 64;
    let mut data = [0u8; BUF_SIZE];
    let mut sbuf = StreamBufWriter::new(&mut data);
    sbuf.write_u16(0x1234);
    assert_eq!(sbuf[0], 0x34);
    assert_eq!(sbuf[1], 0x12);
}

#[test]
fn stream_buf_writer_stream_buf() {
    const BUF_SIZE: usize = 256;
    let mut data = [0u8; BUF_SIZE];
    let mut sbuf = StreamBufWriter::new(&mut data);

    assert_eq!(BUF_SIZE, sbuf.bytes_remaining());

    sbuf.write_u8(1);
    assert_eq!(1, sbuf.bytes_written());
    assert_eq!(BUF_SIZE - 1, sbuf.bytes_remaining());

    sbuf.write_u16(2);
    assert_eq!(3, sbuf.bytes_written());
    assert_eq!(BUF_SIZE - 3, sbuf.bytes_remaining());

    sbuf.write_u32(3);
    assert_eq!(7, sbuf.bytes_written());
    assert_eq!(BUF_SIZE - 7, sbuf.bytes_remaining());

    let mut sbuf_reader: StreamBufReader = sbuf.into();
    assert_eq!(0, sbuf_reader.bytes_read());
    assert_eq!(7, sbuf_reader.bytes_remaining());

    let v1 = sbuf_reader.read_u8();
    assert_eq!(1, v1);
    assert_eq!(1, sbuf_reader.bytes_read());
    assert_eq!(6, sbuf_reader.bytes_remaining());

    let v2 = sbuf_reader.read_u16();
    assert_eq!(2, v2);
    assert_eq!(3, sbuf_reader.bytes_read());
    assert_eq!(4, sbuf_reader.bytes_remaining());

    let v3 = sbuf_reader.read_u32();
    assert_eq!(3, v3);
    assert_eq!(7, sbuf_reader.bytes_read());
    assert_eq!(0, sbuf_reader.bytes_remaining());
}

#[test]
fn stream_buf_big_endian() {
    const BUF_SIZE: usize = 256;
    let mut data = [0u8; BUF_SIZE];
    let mut sbuf = StreamBufWriter::new(&mut data);

    assert_eq!(BUF_SIZE, sbuf.bytes_remaining());

    sbuf.write_u8(1);
    assert_eq!(BUF_SIZE - 1, sbuf.bytes_remaining());

    sbuf.write_u16_big_endian(2);
    assert_eq!(BUF_SIZE - 3, sbuf.bytes_remaining());

    sbuf.write_u32_big_endian(3);
    assert_eq!(BUF_SIZE - 7, sbuf.bytes_remaining());

    let mut sbuf_reader: StreamBufReader = sbuf.into();
    assert_eq!(0, sbuf_reader.bytes_read());
    assert_eq!(7, sbuf_reader.bytes_remaining());

    let v1 = sbuf_reader.read_u8();
    assert_eq!(1, v1);
    assert_eq!(1, sbuf_reader.bytes_read());
    assert_eq!(6, sbuf_reader.bytes_remaining());

    let v2 = sbuf_reader.read_u16_big_endian();
    assert_eq!(2, v2);
    assert_eq!(3, sbuf_reader.bytes_read());
    assert_eq!(4, sbuf_reader.bytes_remaining());

    let v3 = sbuf_reader.read_u32_big_endian();
    assert_eq!(3, v3);
    assert_eq!(7, sbuf_reader.bytes_read());
    assert_eq!(0, sbuf_reader.bytes_remaining());
}

fn check_availability(sbuf: &StreamBufWriter, expected: [bool; 4]) {
    for (size, want) in expected.iter().enumerate() {
        assert_eq!(*want, sbuf.is_available(size));
    }
}

#[test]
fn stream_buf_size() {
    const BUF_SIZE: usize = 2;
    let mut buf = [0u8; BUF_SIZE];
    buf.fill(0xFF);
    assert_eq!(0xFF, buf[0]);
    assert_eq!(0xFF, buf[1]);

    let mut sbuf = StreamBufWriter::new(&mut buf);

    assert!(sbuf.is_empty());
    assert_eq!(BUF_SIZE, sbuf.bytes_remaining());
    assert_eq!(0, sbuf.bytes_written());
    assert!(sbuf.is_available(0));
    assert!(sbuf.is_available(1));
    assert!(sbuf.is_available(2));
    assert!(!sbuf.is_available(3));

    sbuf.write_u16(0xABCD);

    assert!(!sbuf.is_empty());
    assert_eq!(2, sbuf.pos());
    assert!(sbuf.is_full());
    assert_eq!(0, sbuf.bytes_remaining());
    assert_eq!(2, sbuf.bytes_written());
    assert!(sbuf.is_available(0));
    assert!(!sbuf.is_available(1));
    assert!(!sbuf.is_available(2));
    assert!(!sbuf.is_available(3));

    assert_eq!(0xCD, sbuf[0]);
    assert_eq!(0xAB, sbuf[1]);

    sbuf.reset();
    assert!(sbuf.is_empty());
    assert!(!sbuf.is_full());
    assert_eq!(BUF_SIZE, sbuf.bytes_remaining());
    assert_eq!(0, sbuf.bytes_written());
    assert!(sbuf.is_available(0));
    assert!(sbuf.is_available(1));
    assert!(sbuf.is_available(2));
    assert!(!sbuf.is_available(3));

    // try and write a u32. this will fail since there is not enough room
    sbuf.write_u32(0xABCD_1234);
    assert!(sbuf.is_empty());
    assert!(!sbuf.is_full());
    assert_eq!(BUF_SIZE, sbuf.bytes_remaining());
    assert_eq!(0, sbuf.bytes_written());
    assert!(sbuf.is_available(0));
    assert!(sbuf.is_available(1));
    assert!(sbuf.is_available(2));
    assert!(!sbuf.is_available(3));

    sbuf.write_u8(0xAB);
    assert!(!sbuf.is_empty());
    assert!(!sbuf.is_full());
    assert_eq!(1, sbuf.bytes_remaining());
    assert_eq!(1, sbuf.bytes_written());
    assert!(sbuf.is_available(0));
    assert!(sbuf.is_available(1));
    assert!(!sbuf.is_available(2));
    assert!(!sbuf.is_available(3));

    // try and write a u16, this will fail since there is not enough room
    sbuf.write_u16(0xABCD);
    assert!(!sbuf.is_empty());
    assert!(!sbuf.is_full());
    assert_eq!(1, sbuf.bytes_remaining());
    assert_eq!(1, sbuf.bytes_written());
    assert!(sbuf.is_available(0));
    assert!(sbuf.is_available(1));
    assert!(!sbuf.is_available(2));
    assert!(!sbuf.is_available(3));

    sbuf.write_u8(0xAB);
    assert!(!sbuf.is_empty());
    assert!(sbuf.is_full());
    assert_eq!(0, sbuf.bytes_remaining());
    assert_eq!(2, sbuf.bytes_written());
    assert!(sbuf.is_available(0));
    assert!(!sbuf.is_available(1));
    assert!(!sbuf.is_available(2));
    assert!(!sbuf.is_available(3));

    // try and write a u8, this will fail since there is not enough room
    sbuf.write_u8(0xAB);
    assert!(!sbuf.is_empty());
    assert!(sbuf.is_full());
    assert_eq!(0, sbuf.bytes_remaining());
    assert_eq!(2, sbuf.bytes_written());
    assert!(sbuf.is_available(0));
    assert!(!sbuf.is_available(1));
    assert!(!sbuf.is_available(2));
    assert!(!sbuf.is_available(3));
    check_availability(&sbuf, [true, false, false, false]);
}

#[test]
fn stream_buf_strings() {
    const BUF_SIZE: usize = 6;
    let mut buf = [0u8; BUF_SIZE];
    let mut sbuf = StreamBufWriter::new(&mut buf);

    assert_eq!(BUF_SIZE, sbuf.bytes_remaining());
    _ = sbuf.fill_without_advancing(0xFF, BUF_SIZE);
    assert_eq!(BUF_SIZE, sbuf.bytes_remaining());
    assert_eq!(0xFF, sbuf[0]);
    assert_eq!(0xFF, sbuf[1]);
    assert_eq!(0xFF, sbuf[2]);
    assert_eq!(0xFF, sbuf[3]);
    assert_eq!(0xFF, sbuf[4]);
    assert_eq!(0xFF, sbuf[5]);

    _ = sbuf.write_str("Hello");
    assert_eq!(5, sbuf.bytes_written());
    assert_eq!(BUF_SIZE - 5, sbuf.bytes_remaining());
    assert_eq!('H', sbuf[0] as char);
    assert_eq!('e', sbuf[1] as char);
    assert_eq!('l', sbuf[2] as char);
    assert_eq!('l', sbuf[3] as char);
    assert_eq!('o', sbuf[4] as char);
    assert_eq!(0xFF, sbuf[5]);

    sbuf.reset();
    assert_eq!(0, sbuf.bytes_written());
    assert_eq!(BUF_SIZE, sbuf.bytes_remaining());
    _ = sbuf.fill_without_advancing(0xFF, BUF_SIZE);

    _ = sbuf.write_str_with_zero_terminator("Hello");
    assert_eq!(6, sbuf.bytes_written());
    assert_eq!(BUF_SIZE - 6, sbuf.bytes_remaining());
    assert_eq!('H', sbuf[0] as char);
    assert_eq!('e', sbuf[1] as char);
    assert_eq!('l', sbuf[2] as char);
    assert_eq!('l', sbuf[3] as char);
    assert_eq!('o', sbuf[4] as char);
    assert_eq!(0, sbuf[5]);
}

#[test]
fn stream_buf_float() {
    const BUF_SIZE: usize = 256;
    let mut buf = [0u8; BUF_SIZE];
    let mut sbuf = StreamBufWriter::new(&mut buf);

    assert_eq!(0, sbuf.bytes_written());
    assert_eq!(BUF_SIZE, sbuf.bytes_remaining());
    assert_eq!(0, sbuf.bytes_written());
    assert_eq!(BUF_SIZE, sbuf.bytes_remaining());

    sbuf.write_u32(18.9_f32.to_bits());
    assert_eq!(4, sbuf.bytes_written());
    assert_eq!(BUF_SIZE - 4, sbuf.bytes_remaining());

    sbuf.write_u8(7);

    sbuf.write_u16(19);

    sbuf.write_u32(3.12345_f32.to_bits());
    assert_eq!(11, sbuf.bytes_written());
    assert_eq!(BUF_SIZE - 11, sbuf.bytes_remaining());
    assert!(sbuf.is_available(BUF_SIZE - 12));
    assert!(sbuf.is_available(BUF_SIZE - 11));
    assert!(!sbuf.is_available(BUF_SIZE - 10));

    let mut sbuf_reader: StreamBufReader = sbuf.into();
    assert_eq!(0, sbuf_reader.bytes_read());
    assert_eq!(11, sbuf_reader.bytes_remaining());

    let v1 = f32::from_bits(sbuf_reader.read_u32());
    assert_eq!(18.9, v1);
    assert_eq!(7, sbuf_reader.bytes_remaining());

    let v2 = sbuf_reader.read_u8();
    assert_eq!(7, v2);
    assert_eq!(6, sbuf_reader.bytes_remaining());

    let v3 = sbuf_reader.read_u16();
    assert_eq!(19, v3);
    assert_eq!(4, sbuf_reader.bytes_remaining());

    let v4 = f32::from_bits(sbuf_reader.read_u32());
    assert_eq!(3.12345, v4);
    assert_eq!(0, sbuf_reader.bytes_remaining());
}

#[test]
fn write_f32() {
    let mut data = [0u8; 8];
    let mut sbuf_writer = StreamBufWriter::new(&mut data);
    sbuf_writer.write_u32(1234.56_f32.to_bits());
    assert_eq!([0xec, 0x51, 0x9a, 0x44], data[0..4]);
}

#[test]
fn write_doc_examples() {
    let mut data = [0u8; 8];
    StreamBufWriter::new(&mut data).write_u16(0x0a1b);
    assert_eq!([0x1b, 0x0a], data[0..2]);

    let mut data = [0u8; 8];
    StreamBufWriter::new(&mut data).write_u32(0x0a1b2c3d);
    assert_eq!([0x3d, 0x2c, 0x1b, 0x0a], data[0..4]);

    let mut data = [0u8; 8];
    StreamBufWriter::new(&mut data).write_u16_big_endian(0x0a1b);
    assert_eq!([0x0a, 0x1b], data[0..2]);

    let mut data = [0u8; 8];
    StreamBufWriter::new(&mut data).write_u32_big_endian(0x0a1b2c3d);
    assert_eq!([0x0a, 0x1b, 0x2c, 0x3d], data[0..4]);
}

#[test]
fn failed_writes_change_nothing() {
    let mut data = [0x55u8; 3];
    {
        let mut w = StreamBufWriter::new(&mut data);
        w.write_u8(1);
        w.write_u32(0xFFFF_FFFF);
        w.write_u32_big_endian(0xFFFF_FFFF);
        assert_eq!(1, w.pos());
        assert_eq!(0, w.write(&[9, 9, 9]));
        assert_eq!(0, w.write_str("abc"));
        assert_eq!(0, w.write_str_with_zero_terminator("ab"));
        assert!(!w.fill_without_advancing(0, 3));
        w.fill(0, 3);
        assert_eq!(1, w.pos());
        w.write_u16_big_endian(0x0102);
        assert!(w.is_full());
        w.write_u8(7);
        w.write_u16(0x0304);
        assert_eq!(3, w.bytes_written());
    }
    assert_eq!([1, 1, 2], data);
}

#[test]
fn fill_and_write_runs() {
    let mut data = [0u8; 8];
    {
        let mut w = StreamBufWriter::new(&mut data);
        w.fill(0xEE, 3);
        assert_eq!(3, w.pos());
        assert_eq!(2, w.write(&[1, 2]));
        assert_eq!(5, w.pos());
        assert_eq!(0, w.write(&[]));
        assert_eq!(3, w.write_str_with_zero_terminator("ok"));
        assert!(w.is_full());
        assert!(w.fill_without_advancing(0x11, 0));
        assert_eq!(&[0xEE, 0xEE, 0xEE, 1, 2, b'o', b'k', 0][..], w.get_data());
        assert_eq!(w.get_data(), w.get_ref());
        assert_eq!(w.get_data(), w.get_data_slice());
        assert_eq!(2, w.at(4));
    }
    assert_eq!([0xEE, 0xEE, 0xEE, 1, 2, b'o', b'k', 0], data);
}

#[test]
fn advance_and_partial_views() {
    let mut data = [7u8; 5];
    let mut w = StreamBufWriter::new(&mut data);
    w.advance(2);
    assert_eq!(2, w.pos());
    assert_eq!(&[7u8, 7][..], w.get_data_slice());
    w.advance(usize::MAX);
    assert_eq!(5, w.pos());
    assert_eq!(0, w.bytes_remaining());
    assert!(!w.is_available(usize::MAX));
    w.reset();
    assert!(w.is_available(5));
    assert!(!w.is_available(usize::MAX));
}

#[test]
fn reader_from_writer_sees_only_what_was_written() {
    let mut data = [0xFFu8; 16];
    let mut w = StreamBufWriter::new(&mut data);
    w.write_str("hi");
    w.write_u16_big_endian(0xBEEF);
    let r: StreamBufReader = StreamBufReader::from(w);
    assert_eq!(&[b'h', b'i', 0xBE, 0xEF][..], r.get_data());
    assert_eq!(0, r.pos());
    assert_eq!(4, r.bytes_remaining());
}

#[test]
fn set_changes_one_byte_and_keeps_the_cursor() {
    let mut data = [0u8; 4];
    {
        let mut w = StreamBufWriter::new(&mut data);
        w.write_u8(1);
        w.set(3, 9);
        w.set(0, 5);
        assert_eq!(1, w.pos());
        assert_eq!(9, w[3]);
        w.write_u8(2);
    }
    assert_eq!([5, 2, 0, 9], data);
}
