use dp_net::frame::{write_frame, Frame, FrameReader, CTRL_TYPE, DATA_TYPE};

fn read_all(mut stream: &[u8]) -> (Vec<Frame>, &'static str) {
    let mut reader = FrameReader::new();
    let mut frames = Vec::new();
    loop {
        let n = reader.want();
        if stream.len() < n {
            return (frames, reader.context());
        }
        let (chunk, rest) = stream.split_at(n);
        stream = rest;
        if let Some(frame) = reader.feed(chunk.to_vec()) {
            frames.push(frame);
        }
    }
}

#[test]
fn frame_layout() {
    assert_eq!(write_frame(DATA_TYPE, &[7, 8]), vec![0, 0, 0, 1, 0, 0, 0, 2, 7, 8]);
    assert_eq!(write_frame(CTRL_TYPE, &[]), vec![0; 8]);
    assert_eq!(write_frame(0x0102_0304, &[9])[..8], [1, 2, 3, 4, 0, 0, 0, 1]);
    assert_eq!(write_frame(1, &vec![0; 0x1_0203])[4..8], [0, 1, 2, 3]);
}

#[test]
fn written_frames_come_back_in_order() {
    let payloads: Vec<Vec<u8>> = vec![vec![], vec![1], vec![2; 300], vec![3; 70000]];
    let mut stream = Vec::new();
    for (i, p) in payloads.iter().enumerate() {
        stream.extend(write_frame(i as u32 * 0x0101_0101, p));
    }
    let (frames, stage) = read_all(&stream);
    assert_eq!(frames.len(), 4);
    for (i, frame) in frames.iter().enumerate() {
        assert_eq!(frame.typ, i as u32 * 0x0101_0101);
        assert_eq!(frame.payload, payloads[i]);
    }
    assert_eq!(stage, "read frame header");
}

#[test]
fn frame_that_is_cut_off() {
    let bytes = write_frame(1, &[1, 2, 3]);
    assert_eq!(read_all(&bytes[..7]), (vec![], "read frame header"));
    assert_eq!(read_all(&bytes[..10]), (vec![], "read frame payload"));
    assert_eq!(read_all(&bytes).0, vec![Frame { typ: 1, payload: vec![1, 2, 3] }]);
}

#[test]
fn reader_wants_what_the_header_says() {
    let mut reader = FrameReader::new();
    assert_eq!(reader.want(), 8);
    assert_eq!(reader.feed(vec![0, 0, 0, 5, 0xff, 0xff, 0xff, 0xfe]), None);
    assert_eq!(reader.want(), 0xffff_fffe);
}
