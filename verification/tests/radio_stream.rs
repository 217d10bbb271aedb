use rebels::audio::radio_stream::{
    relay_frame, BodyEvent, Chunk, RadioStream, ReadEnd, RelayStep,
};

#[test]
fn a_new_stream_has_to_receive_first() {
    let mut stream: RadioStream = RadioStream::new();
    let mut buf: [u8; 4] = [7; 4];
    assert_eq!(stream.read(&mut buf), None);
    assert_eq!(buf, [7; 4]);
}

#[test]
fn a_chunk_is_read_in_pieces() {
    let mut stream: RadioStream = RadioStream::new();
    assert!(stream.receive(Some(Chunk::Data { bytes: vec![1, 2, 3, 4, 5] })).is_none());
    let mut buf: [u8; 3] = [0; 3];
    assert_eq!(stream.read(&mut buf), Some(3));
    assert_eq!(buf, [1, 2, 3]);
    let mut buf: [u8; 3] = [9; 3];
    assert_eq!(stream.read(&mut buf), Some(2));
    assert_eq!(buf, [4, 5, 9]);
    assert_eq!(stream.read(&mut buf), None);
}

#[test]
fn a_read_into_an_empty_buffer_takes_nothing() {
    let mut stream: RadioStream = RadioStream::new();
    stream.receive(Some(Chunk::Data { bytes: vec![1] }));
    assert_eq!(stream.read(&mut []), Some(0));
    let mut buf: [u8; 1] = [0];
    assert_eq!(stream.read(&mut buf), Some(1));
    assert_eq!(buf, [1]);
}

#[test]
fn an_empty_chunk_is_passed_over() {
    let mut stream: RadioStream = RadioStream::new();
    assert!(stream.receive(Some(Chunk::Data { bytes: Vec::new() })).is_none());
    assert_eq!(stream.read(&mut [0; 2]), None);
}

#[test]
fn a_failure_and_the_end_of_the_stream_end_the_read() {
    let mut stream: RadioStream = RadioStream::new();
    let failed: Option<ReadEnd> = stream.receive(Some(Chunk::Failed { message: "reset".to_string() }));
    assert!(matches!(failed, Some(ReadEnd::Failed { message }) if message == "reset"));
    assert!(matches!(stream.receive(None), Some(ReadEnd::Read { count: 0 })));
}

#[test]
fn a_body_arrives_byte_for_byte() {
    let frames: Vec<BodyEvent> = vec![
        BodyEvent::Data { bytes: vec![1, 2, 3] },
        BodyEvent::NoData,
        BodyEvent::Data { bytes: Vec::new() },
        BodyEvent::Data { bytes: vec![4, 5, 6, 7] },
        BodyEvent::End,
    ];
    let mut stream: RadioStream = RadioStream::new();
    let mut read: Vec<u8> = Vec::new();
    for frame in frames {
        match relay_frame(frame) {
            RelayStep::Send { chunk, last } => {
                assert!(!last);
                assert!(stream.receive(Some(chunk)).is_none());
            }
            RelayStep::Skip => {}
            RelayStep::Stop => {
                assert!(stream.receive(None).is_some());
            }
        }
        let mut buf: [u8; 2] = [0; 2];
        while let Some(count) = stream.read(&mut buf) {
            read.extend_from_slice(&buf[..count]);
        }
    }
    assert_eq!(read, vec![1, 2, 3, 4, 5, 6, 7]);
}

#[test]
fn a_failed_transfer_is_the_last_chunk() {
    let step: RelayStep = relay_frame(BodyEvent::Failed { message: "reset".to_string() });
    assert!(matches!(
        step,
        RelayStep::Send { chunk: Chunk::Failed { message }, last: true } if message == "reset"
    ));
}

#[test]
fn a_failure_is_reported_in_its_place_and_reading_goes_on() {
    let mut chunks: Vec<Chunk> = vec![
        Chunk::Data { bytes: vec![1, 2, 3] },
        Chunk::Failed { message: "reset".to_string() },
        Chunk::Data { bytes: vec![4] },
    ];
    chunks.reverse();
    let mut stream: RadioStream = RadioStream::new();
    let mut results: Vec<Result<Vec<u8>, String>> = Vec::new();
    for _ in 0..5 {
        let mut buf: [u8; 2] = [0; 2];
        let result: Result<Vec<u8>, String> = loop {
            if let Some(count) = stream.read(&mut buf) {
                break Ok(buf[..count].to_vec());
            }
            match stream.receive(chunks.pop()) {
                Some(ReadEnd::Read { count }) => break Ok(buf[..count].to_vec()),
                Some(ReadEnd::Failed { message }) => break Err(message),
                None => {}
            }
        };
        results.push(result);
    }
    assert_eq!(
        results,
        vec![
            Ok(vec![1, 2]),
            Ok(vec![3]),
            Err("reset".to_string()),
            Ok(vec![4]),
            Ok(Vec::new())
        ]
    );
}

#[test]
fn data_is_handed_on_until_the_body_ends() {
    assert!(matches!(relay_frame(BodyEvent::End), RelayStep::Stop));
    assert!(matches!(
        relay_frame(BodyEvent::Data { bytes: vec![1] }),
        RelayStep::Send { chunk: Chunk::Data { bytes }, last: false } if bytes == vec![1]
    ));
}
