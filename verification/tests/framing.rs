use server::network::framing::{check_message, encode_frame, encode_line, FrameReader, PACKET_SEP};

const MAGIC_NUMBER: [u8; 2] = [0x52, 0x56];

/// Feeds the reads to a reader as its loop would: the loop ends at a broken
/// frame, or when the reads run out (the stream closed).
fn setup(input: Vec<Vec<u8>>) -> (Vec<Vec<u8>>, bool) {
    let mut reader = FrameReader::new();
    let mut read = vec![];
    let mut ended = false;
    let mut chunks = input.into_iter();
    while !ended {
        match chunks.next() {
            None => ended = true,
            Some(chunk) => {
                let frames = reader.push_bytes(&chunk);
                read.extend(frames.messages);
                if !frames.magic_matched {
                    ended = true;
                }
            }
        }
    }
    (read, ended)
}

#[test]
fn test_read_basic() {
    let mut input = MAGIC_NUMBER.to_vec();
    input.extend_from_slice(&[0, 4, 1, 2, 3, 4]); // length 4, message 1 2 3 4
    let (read, ended) = setup(vec![input]);

    assert_eq!(read, vec![vec![1, 2, 3, 4]]);
    assert!(ended);
}

#[test]
fn test_read_invalid_number() {
    let mut input = MAGIC_NUMBER.to_vec();
    input.extend_from_slice(&[0, 4, 1, 2, 3, 4]);
    input[0] += 1;

    let (read, ended) = setup(vec![input]);

    assert!(read.is_empty());
    assert!(ended);
}

#[test]
fn test_read_twice() {
    let mut input = MAGIC_NUMBER.to_vec();
    input.extend_from_slice(&[0, 2, 9, 3]);
    let mut input_2 = MAGIC_NUMBER.to_vec();
    input_2.extend_from_slice(&[0, 2, 1, 2]);

    let (read, ended) = setup(vec![input, input_2]);

    assert_eq!(read, vec![vec![9, 3], vec![1, 2]]);
    assert!(ended);
}

#[test]
fn test_read_twice_mixed_reads() {
    let mut inputs = vec![];
    MAGIC_NUMBER.iter().for_each(|byte| inputs.push(vec![*byte]));
    inputs.push(vec![0, 1, 3, MAGIC_NUMBER[0]]); // length 1, message 3, start of the next
    MAGIC_NUMBER[1..].iter().for_each(|byte| inputs.push(vec![*byte]));
    inputs.push(vec![0, 3, 4, 5]);
    inputs.push(vec![4]); // length 3, message 4 5 4

    let (read, ended) = setup(inputs);

    assert_eq!(read, vec![vec![3], vec![4, 5, 4]]);
    assert!(ended);
}

#[test]
fn test_not_ended() {
    let mut input = MAGIC_NUMBER.to_vec();
    input.extend_from_slice(&[0, 2, 9, 3]);
    let mut input_2 = MAGIC_NUMBER.to_vec();
    input_2.extend_from_slice(&[0, 2, 1, 2]);

    let mut reader = FrameReader::new();
    let first = reader.push_bytes(&input);
    // The stream is still open: nothing ended and the reader waits.
    assert!(first.magic_matched);
    let second = reader.push_bytes(&input_2);
    let mut result = first.messages;
    result.extend(second.messages);
    assert_eq!(result, vec![vec![9, 3], vec![1, 2]]);
    assert!(reader.pending().is_empty());
}

#[test]
fn test_write_basic() {
    let input = [1, 2, 2, 1];
    let mut expected = input.to_vec();
    expected.push(PACKET_SEP);

    assert_eq!(encode_line(&input.to_vec()), expected);
}

#[test]
fn test_write_twice() {
    let input_1 = [1, 2, 2, 1];
    let mut expected_1 = input_1.to_vec();
    expected_1.push(PACKET_SEP);

    let input_2 = [9, 7];
    let mut expected_2 = input_2.to_vec();
    expected_2.push(PACKET_SEP);

    let mut written = encode_line(&input_1.to_vec());
    written.extend(encode_line(&input_2.to_vec()));
    let mut expected = expected_1;
    expected.extend(expected_2);
    assert_eq!(written, expected);
}

#[test]
fn incomplete_frame_waits() {
    let mut message = vec![0x52, 0x56, 0, 3, 7, 8];
    let frames = check_message(&mut message);
    assert!(frames.messages.is_empty());
    assert!(frames.magic_matched);
    assert_eq!(message, vec![0x52, 0x56, 0, 3, 7, 8]);
}

#[test]
fn bad_magic_after_frame_keeps_rest() {
    let mut message = vec![0x52, 0x56, 0, 1, 7, 1, 2, 3, 4];
    let frames = check_message(&mut message);
    assert_eq!(frames.messages, vec![vec![7]]);
    assert!(!frames.magic_matched);
    assert_eq!(message, vec![1, 2, 3, 4]);
}

#[test]
fn empty_message_frame() {
    let mut message = vec![0x52, 0x56, 0, 0, 0x52];
    let frames = check_message(&mut message);
    assert_eq!(frames.messages, vec![Vec::<u8>::new()]);
    assert_eq!(message, vec![0x52]);
}

#[test]
fn frames_read_back() {
    let mut reader = FrameReader::new();
    let mut stream = encode_frame(&vec![1, 2, 3]);
    stream.extend(encode_frame(&vec![]));
    stream.extend(encode_frame(&vec![9; 300]));
    assert_eq!(&stream[0..4], &[0x52, 0x56, 0, 3]);
    let frames = reader.push_bytes(&stream);
    assert!(frames.magic_matched);
    assert_eq!(frames.messages, vec![vec![1, 2, 3], vec![], vec![9; 300]]);
}
