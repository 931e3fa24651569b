use reversi::protocol::{frame_body, frame_len, frame_start, read_frame, ByteReader, FrameError, MAX_FRAME};

#[test]
fn clean_eof_returns_none() {
    let mut empty = ByteReader::new(Vec::new());
    assert!(read_frame(&mut empty).unwrap().is_none());
}

#[test]
fn two_frames_read_in_order() {
    let first_body = br#"{"Game":{"Move":{"square":1}}}"#.to_vec();
    let second_body = br#"{"Game":{"Move":{"square":2}}}"#.to_vec();
    let mut buf = frame_body(&first_body);
    buf.extend(frame_body(&second_body));
    let mut cursor = ByteReader::new(buf);
    let first = read_frame(&mut cursor).unwrap().unwrap();
    let second = read_frame(&mut cursor).unwrap().unwrap();
    assert_eq!(first, first_body);
    assert_eq!(second, second_body);
}

#[test]
fn a_frame_is_a_big_endian_length_then_the_body() {
    assert_eq!(frame_body(b"hi"), vec![0, 0, 0, 2, b'h', b'i']);
    assert_eq!(frame_body(b""), vec![0, 0, 0, 0]);
}

#[test]
fn a_short_prefix_is_an_unexpected_end() {
    for n in 1..4 {
        let mut reader = ByteReader::new(vec![0; n]);
        assert_eq!(read_frame(&mut reader), Err(FrameError::UnexpectedEof));
        assert_eq!(reader.position(), n);
    }
}

#[test]
fn a_stream_reader_starts_a_frame_from_its_prefix() {
    assert_eq!(frame_start(0, [0; 4]), Ok(None));
    assert_eq!(frame_start(2, [0, 0, 9, 9]), Err(FrameError::UnexpectedEof));
    assert_eq!(frame_start(4, [0, 0, 0, 7]), Ok(Some(7)));
    assert_eq!(frame_start(4, [1, 0, 0, 0]), Err(FrameError::TooLarge));
}

#[test]
fn an_oversized_length_is_refused() {
    let len = (MAX_FRAME as u32 + 1).to_be_bytes();
    let mut reader = ByteReader::new(len.to_vec());
    assert_eq!(read_frame(&mut reader), Err(FrameError::TooLarge));
    assert_eq!(reader.position(), 4);
}

#[test]
fn a_body_cut_short_is_an_unexpected_end() {
    let mut reader = ByteReader::new(vec![0, 0, 0, 5, 1, 2]);
    assert_eq!(read_frame(&mut reader), Err(FrameError::UnexpectedEof));
    assert_eq!(reader.position(), 6);
}

#[test]
fn the_largest_frame_is_read() {
    let body = vec![7u8; MAX_FRAME];
    let mut reader = ByteReader::new(frame_body(&body));
    assert_eq!(read_frame(&mut reader), Ok(Some(body)));
    assert_eq!(read_frame(&mut reader), Ok(None));
}

#[test]
fn a_prefix_announces_the_body_length() {
    assert_eq!(frame_len([0, 0, 1, 2]), Ok(258));
    assert_eq!(frame_len([0, 1, 0, 0]), Ok(MAX_FRAME));
    assert_eq!(frame_len([0, 1, 0, 1]), Err(FrameError::TooLarge));
}
