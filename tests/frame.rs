use chat_broker::frame::{encode_frame, frame_header, FrameReader, TransportError};

#[test]
fn frame_bytes_are_header_then_payload() {
    assert_eq!(encode_frame(&[7, 8, 9]), vec![0, 0, 0, 0, 0, 0, 0, 3, 7, 8, 9]);
    assert_eq!(frame_header(0x0102), vec![0, 0, 0, 0, 0, 0, 1, 2]);
}

#[test]
fn written_frame_is_read_back() {
    let payload: Vec<u8> = (0..=255u8).collect();
    let mut r = FrameReader::new();
    r.feed(&encode_frame(&payload));
    assert_eq!(r.next_frame(), Ok(Some(payload)));
    assert_eq!(r.next_frame(), Ok(None));
    assert_eq!(r.at_eof(), TransportError::Closed);
}

#[test]
fn any_chunking_gives_the_same_payload() {
    let payload: Vec<u8> = (0..40u8).collect();
    let wire = encode_frame(&payload);
    for size in 1..=wire.len() {
        let mut r = FrameReader::new();
        let mut got = None;
        for chunk in wire.chunks(size) {
            r.feed(chunk);
            if let Some(p) = r.next_frame().unwrap() {
                got = Some(p);
            }
        }
        assert_eq!(got, Some(payload.clone()), "chunk size {}", size);
    }
}

#[test]
fn byte_by_byte_two_frames() {
    let mut wire = encode_frame(b"one");
    wire.extend(encode_frame(b"second"));
    let mut r = FrameReader::new();
    let mut frames = Vec::new();
    for b in wire {
        r.feed(&[b]);
        while let Some(p) = r.next_frame().unwrap() {
            frames.push(p);
        }
    }
    assert_eq!(frames, vec![b"one".to_vec(), b"second".to_vec()]);
}

#[test]
fn zero_length_frame_is_an_error() {
    let mut r = FrameReader::new();
    r.feed(&[0, 0, 0, 0, 0, 0, 0, 0]);
    r.feed(&encode_frame(b"ok"));
    assert_eq!(r.next_frame(), Err(TransportError::EmptyFrame));
    assert_eq!(r.next_frame(), Ok(Some(b"ok".to_vec())));
}

#[test]
fn end_of_stream_inside_a_frame_is_truncation() {
    let mut r = FrameReader::new();
    assert_eq!(r.at_eof(), TransportError::Closed);
    r.feed(&[0, 0, 0]);
    assert_eq!(r.next_frame(), Ok(None));
    assert_eq!(r.at_eof(), TransportError::Truncated);
    let mut r = FrameReader::new();
    r.feed(&[0, 0, 0, 0, 0, 0, 0, 5, 1, 2]);
    assert_eq!(r.next_frame(), Ok(None));
    assert_eq!(r.at_eof(), TransportError::Truncated);
}

#[test]
fn bytes_wanted_counts_what_is_missing() {
    let mut r = FrameReader::new();
    assert_eq!(r.bytes_wanted(), 8);
    r.feed(&[0, 0, 0, 0, 0, 0]);
    assert_eq!(r.bytes_wanted(), 2);
    r.feed(&[0, 10, 1, 2, 3]);
    assert_eq!(r.bytes_wanted(), 7);
    r.feed(&[0; 7]);
    assert_eq!(r.bytes_wanted(), 0);
    let mut e = FrameReader::new();
    e.feed(&[0; 8]);
    assert_eq!(e.bytes_wanted(), 0);
}

#[test]
fn take_frames_is_the_same_for_every_chunking() {
    let mut wire = Vec::new();
    let payloads: Vec<Vec<u8>> = vec![b"a".to_vec(), (0..30u8).collect(), b"xyz".to_vec()];
    for p in &payloads {
        wire.extend(encode_frame(p));
    }
    wire.extend([0, 0, 0]);
    for size in 1..=wire.len() {
        let mut r = FrameReader::new();
        let mut got = Vec::new();
        for chunk in wire.chunks(size) {
            r.feed(chunk);
            let (frames, failure) = r.take_frames();
            assert_eq!(failure, None);
            got.extend(frames);
        }
        assert_eq!(got, payloads, "chunk size {}", size);
        assert_eq!(r.bytes_wanted(), 5);
        assert_eq!(r.at_eof(), TransportError::Truncated);
    }
}

#[test]
fn take_frames_keeps_frames_before_an_empty_one() {
    let mut wire = encode_frame(b"first");
    wire.extend([0u8; 8]);
    wire.extend(encode_frame(b"later"));
    let mut r = FrameReader::new();
    r.feed(&wire);
    let (frames, failure) = r.take_frames();
    assert_eq!(frames, vec![b"first".to_vec()]);
    assert_eq!(failure, Some(TransportError::EmptyFrame));
}
