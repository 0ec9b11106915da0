use keysync::frame::{frame_payload, FrameError, FrameReader, MAX_PAYLOAD_LEN};

#[test]
fn frame_has_big_endian_length_prefix() {
    let payload = vec![7u8; 300];
    let frame = frame_payload(&payload).unwrap();
    assert_eq!(frame.len(), 302);
    assert_eq!(frame[0], 1);
    assert_eq!(frame[1], 44);
    assert_eq!(&frame[2..], &payload[..]);
}

#[test]
fn empty_payload_is_a_frame_of_two_zero_bytes() {
    assert_eq!(frame_payload(&[]).unwrap(), vec![0u8, 0u8]);
}

#[test]
fn longest_payload_is_framed_and_one_more_byte_is_refused() {
    let longest = vec![1u8; MAX_PAYLOAD_LEN];
    let frame = frame_payload(&longest).unwrap();
    assert_eq!(frame[0], 255);
    assert_eq!(frame[1], 255);
    let too_long = vec![1u8; MAX_PAYLOAD_LEN + 1];
    assert_eq!(frame_payload(&too_long), Err(FrameError::TooLong));
}

#[test]
fn reader_hands_out_whole_frames() {
    let mut stream = frame_payload(&[1, 2, 3]).unwrap();
    stream.extend(frame_payload(&[]).unwrap());
    stream.extend(frame_payload(&[9]).unwrap());
    let mut reader = FrameReader::new();
    let out = reader.push(&stream);
    assert_eq!(out, vec![vec![1u8, 2, 3], vec![], vec![9u8]]);
    assert_eq!(reader.pending_len(), 0);
}

#[test]
fn reader_is_independent_of_chunk_boundaries() {
    let payloads: Vec<Vec<u8>> = vec![vec![1, 2, 3], vec![], vec![0; 260], vec![255]];
    let mut stream = Vec::new();
    for p in &payloads {
        stream.extend(frame_payload(p).unwrap());
    }
    let mut byte_wise = FrameReader::new();
    let mut got = Vec::new();
    for b in &stream {
        got.extend(byte_wise.push(&[*b]));
    }
    assert_eq!(got, payloads);
    assert_eq!(byte_wise.pending_len(), 0);
    for cut in 0..=stream.len() {
        let mut reader = FrameReader::new();
        let mut got = reader.push(&stream[..cut]);
        got.extend(reader.push(&stream[cut..]));
        assert_eq!(got, payloads);
        assert_eq!(reader.pending_len(), 0);
    }
}

#[test]
fn reader_keeps_an_unfinished_frame() {
    let frame = frame_payload(&[5, 6, 7, 8]).unwrap();
    let mut reader = FrameReader::new();
    assert!(reader.push(&frame[..1]).is_empty());
    assert_eq!(reader.pending_len(), 1);
    assert!(reader.push(&frame[1..5]).is_empty());
    assert_eq!(reader.pending_len(), 5);
    assert_eq!(reader.push(&frame[5..]), vec![vec![5u8, 6, 7, 8]]);
    assert_eq!(reader.pending_len(), 0);
}

#[test]
fn reader_loses_no_byte() {
    let stream: Vec<u8> = vec![0, 1, 9, 0, 0, 0, 3, 1, 2];
    let mut reader = FrameReader::new();
    let out = reader.push(&stream);
    assert_eq!(out, vec![vec![9u8], vec![]]);
    assert_eq!(reader.pending_len(), 4);
    let rest = reader.push(&[7, 0]);
    assert_eq!(rest, vec![vec![1u8, 2, 7]]);
    assert_eq!(reader.pending_len(), 1);
    let mut rebuilt = Vec::new();
    for payload in out.iter().chain(rest.iter()) {
        rebuilt.extend(frame_payload(payload).unwrap());
    }
    rebuilt.push(0);
    let mut whole = stream.clone();
    whole.extend([7, 0]);
    assert_eq!(rebuilt, whole);
}

#[test]
fn empty_chunk_changes_nothing() {
    let mut reader = FrameReader::new();
    assert!(reader.push(&[]).is_empty());
    assert_eq!(reader.pending_len(), 0);
    assert!(reader.push(&[0]).is_empty());
    assert!(reader.push(&[]).is_empty());
    assert_eq!(reader.pending_len(), 1);
}
