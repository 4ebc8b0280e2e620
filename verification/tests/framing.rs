use communication::packet::{
    announced_len, encode_frame, encode_packet, frame_header, Error, FrameReader, Progress,
    HEADER_LEN, MAX_PAYLOAD_LEN,
};
use communication::packets::{Level, Log, ToClient, ToClientKind, ToRobot, ToRobotKind};

fn sample_payloads() -> Vec<Vec<u8>> {
    vec![
        vec![1, 2, 3],
        vec![],
        vec![0xff; 300],
        vec![0, 0, 0, 1],
        (0..=255u8).collect(),
    ]
}

fn stream_of(payloads: &[Vec<u8>]) -> Vec<u8> {
    let mut bytes = Vec::new();
    for p in payloads {
        bytes.extend(encode_frame(p).unwrap());
    }
    bytes
}

#[test]
fn frame_is_big_endian_length_then_payload() {
    assert_eq!(encode_frame(&[1, 2, 3]), Ok(vec![0, 0, 0, 3, 1, 2, 3]));
    assert_eq!(encode_frame(&[]), Ok(vec![0, 0, 0, 0]));
    let long = vec![7u8; 0x0102_03];
    let framed = encode_frame(&long).unwrap();
    assert_eq!(&framed[..4], &[0x00, 0x01, 0x02, 0x03]);
    assert_eq!(&framed[4..], &long[..]);
}

#[test]
fn header_bytes_are_exact() {
    assert_eq!(frame_header(0), Ok([0, 0, 0, 0]));
    assert_eq!(frame_header(1), Ok([0, 0, 0, 1]));
    assert_eq!(frame_header(0x1234_5678), Ok([0x12, 0x34, 0x56, 0x78]));
    assert_eq!(frame_header(MAX_PAYLOAD_LEN), Ok([0xff, 0xff, 0xff, 0xff]));
    assert_eq!(HEADER_LEN, 4);
}

#[test]
fn header_refuses_what_four_bytes_cannot_count() {
    if let Some(too_long) = MAX_PAYLOAD_LEN.checked_add(1) {
        assert_eq!(frame_header(too_long), Err(Error::PayloadTooLong));
        assert_eq!(frame_header(usize::MAX), Err(Error::PayloadTooLong));
    }
}

#[test]
fn announced_len_reads_the_header_back() {
    assert_eq!(announced_len(0, 0, 0, 0), 0);
    assert_eq!(announced_len(0, 0, 1, 0), 256);
    assert_eq!(announced_len(0x12, 0x34, 0x56, 0x78), 0x1234_5678);
    assert_eq!(announced_len(0xff, 0xff, 0xff, 0xff), u32::MAX);
    for n in [0usize, 1, 255, 256, 65_535, 65_536, 16_777_216, 0xdead_beef] {
        let h = frame_header(n).unwrap();
        assert_eq!(announced_len(h[0], h[1], h[2], h[3]) as usize, n);
    }
}

#[test]
fn one_frame_comes_back_whole() {
    let mut reader = FrameReader::new();
    let got = reader.receive(&encode_frame(&[9, 8, 7]).unwrap());
    assert_eq!(got, vec![vec![9, 8, 7]]);
    assert_eq!(reader.buffered(), 0);
}

#[test]
fn pump_delivers_every_packet_byte_by_byte() {
    let payloads = sample_payloads();
    let bytes = stream_of(&payloads);
    let mut reader = FrameReader::new();
    let mut got: Vec<Vec<u8>> = Vec::new();
    for b in &bytes {
        got.extend(reader.receive(&[*b]));
    }
    assert_eq!(got, payloads);
    assert_eq!(reader.buffered(), 0);
}

#[test]
fn pump_delivers_every_packet_in_uneven_chunks() {
    let payloads = sample_payloads();
    let bytes = stream_of(&payloads);
    for step in [1usize, 2, 3, 4, 5, 7, 64, 299, 1000, bytes.len()] {
        let mut reader = FrameReader::new();
        let mut got: Vec<Vec<u8>> = Vec::new();
        let mut calls_with_packets = 0;
        for chunk in bytes.chunks(step) {
            let out = reader.receive(chunk);
            if !out.is_empty() {
                calls_with_packets += 1;
            }
            got.extend(out);
        }
        assert_eq!(got, payloads, "chunks of {}", step);
        assert_eq!(got.len(), payloads.len());
        assert!(calls_with_packets >= 1);
        assert_eq!(reader.buffered(), 0);
    }
}

#[test]
fn pump_keeps_an_unfinished_frame() {
    let mut reader = FrameReader::new();
    let framed = encode_frame(&[1, 2, 3, 4, 5]).unwrap();
    assert_eq!(reader.progress(), Progress::Header(4));
    assert!(reader.receive(&framed[..2]).is_empty());
    assert_eq!(reader.progress(), Progress::Header(2));
    assert!(reader.receive(&framed[2..4]).is_empty());
    assert_eq!(reader.progress(), Progress::Body(5));
    assert!(reader.receive(&framed[4..7]).is_empty());
    assert_eq!(reader.progress(), Progress::Body(2));
    assert_eq!(reader.buffered(), 7);
    assert_eq!(reader.next_frame(), None);
    assert_eq!(reader.buffered(), 7);
    reader.push(&framed[7..]);
    assert_eq!(reader.progress(), Progress::Ready);
    assert_eq!(reader.next_frame(), Some(vec![1, 2, 3, 4, 5]));
    assert_eq!(reader.next_frame(), None);
    assert_eq!(reader.progress(), Progress::Header(4));
}

#[test]
fn drain_takes_all_whole_frames_and_leaves_the_rest() {
    let mut reader = FrameReader::new();
    let mut bytes = stream_of(&[vec![1], vec![2, 2], vec![]]);
    bytes.extend([0, 0, 0, 9, 1]);
    reader.push(&bytes);
    assert_eq!(reader.drain(), vec![vec![1], vec![2, 2], vec![]]);
    assert_eq!(reader.buffered(), 5);
    assert_eq!(reader.progress(), Progress::Body(8));
    assert!(reader.drain().is_empty());
}

#[test]
fn packet_is_length_tag_body() {
    assert_eq!(encode_packet(3, &[0xaa, 0xbb]), Ok(vec![0, 0, 0, 3, 3, 0xaa, 0xbb]));
    assert_eq!(encode_packet(1, &[]), Ok(vec![0, 0, 0, 1, 1]));
}

#[test]
fn packet_round_trip_through_the_reader() {
    let body = vec![5u8, 4, 3, 2, 1];
    let framed = encode_packet(ToClientKind::PointBuffer.tag(), &body).unwrap();
    let mut reader = FrameReader::new();
    let got = reader.receive(&framed);
    assert_eq!(got.len(), 1);
    let (kind, rest) = ToClientKind::of_payload(&got[0]).unwrap();
    assert_eq!(kind, ToClientKind::PointBuffer);
    assert_eq!(rest, &body[..]);

    let framed = encode_packet(ToRobotKind::Path.tag(), &body).unwrap();
    let got = reader.receive(&framed);
    let (kind, rest) = ToRobotKind::of_payload(&got[0]).unwrap();
    assert_eq!(kind, ToRobotKind::Path);
    assert_eq!(rest, &body[..]);
}

#[test]
fn tags_are_the_table() {
    assert_eq!(ToClientKind::Log.tag(), 0);
    assert_eq!(ToClientKind::Pong.tag(), 1);
    assert_eq!(ToClientKind::Path.tag(), 2);
    assert_eq!(ToClientKind::PointBuffer.tag(), 3);
    assert_eq!(ToClientKind::RobotInfo.tag(), 5);
    assert_eq!(ToRobotKind::ClientInfo.tag(), 0);
    assert_eq!(ToRobotKind::Ping.tag(), 1);
    assert_eq!(ToRobotKind::Path.tag(), 2);
    assert_eq!(ToRobotKind::RequestLogs.tag(), 3);
    assert_eq!(ToClient::Pong.tag(), 1);
    assert_eq!(ToClient::Path(vec![1]).tag(), 2);
    assert_eq!(ToClient::Pong.kind(), ToClientKind::Pong);
    assert_eq!(ToRobot::RequestLogs.tag(), 3);
    assert_eq!(ToRobot::Ping.kind(), ToRobotKind::Ping);
}

#[test]
fn every_tag_names_its_variant_and_no_other() {
    let to_client = [
        ToClientKind::Log,
        ToClientKind::Pong,
        ToClientKind::Path,
        ToClientKind::PointBuffer,
        ToClientKind::RobotInfo,
    ];
    let to_robot = [
        ToRobotKind::ClientInfo,
        ToRobotKind::Ping,
        ToRobotKind::Path,
        ToRobotKind::RequestLogs,
    ];
    for k in to_client {
        assert_eq!(ToClientKind::from_tag(k.tag()), Some(k));
    }
    for k in to_robot {
        assert_eq!(ToRobotKind::from_tag(k.tag()), Some(k));
    }
    for tag in 0..=255u8 {
        assert_eq!(
            ToClientKind::from_tag(tag).is_some(),
            to_client.iter().any(|k| k.tag() == tag)
        );
        assert_eq!(
            ToRobotKind::from_tag(tag).is_some(),
            to_robot.iter().any(|k| k.tag() == tag)
        );
    }
    assert_eq!(ToClientKind::from_tag(4), None);
    assert_eq!(ToRobotKind::from_tag(4), None);
}

#[test]
fn payload_without_tag_is_refused() {
    assert_eq!(ToClientKind::of_payload(&[]), Err(Error::EmptyPayload));
    assert_eq!(ToRobotKind::of_payload(&[]), Err(Error::EmptyPayload));
}

#[test]
fn payload_with_unknown_tag_is_refused() {
    assert_eq!(ToClientKind::of_payload(&[4, 1, 2]), Err(Error::UnknownTag(4)));
    assert_eq!(ToClientKind::of_payload(&[200]), Err(Error::UnknownTag(200)));
    assert_eq!(ToRobotKind::of_payload(&[5]), Err(Error::UnknownTag(5)));
    let empty: &[u8] = &[];
    assert_eq!(ToRobotKind::of_payload(&[1]), Ok((ToRobotKind::Ping, empty)));
}

#[test]
fn serialize() {
    let test_val = ToClient::Log(Log {
        level: Level::Info,
        msg: String::from("test"),
        source: String::from("test2"),
        timestamp: 1_700_000_000_123_456_789,
    });
    let ToClient::Log(log) = &test_val else { unreachable!() };
    let body = rmp_serde::to_vec(&(&log.source, 3u8, &log.msg, log.timestamp)).unwrap();
    let data = encode_packet(test_val.tag(), &body).unwrap();

    let mut reader = FrameReader::new();
    let mut payloads = Vec::new();
    for chunk in data.chunks(3) {
        payloads.extend(reader.receive(chunk));
    }
    assert_eq!(payloads.len(), 1);
    let (kind, body) = ToClientKind::of_payload(&payloads[0]).unwrap();
    assert_eq!(kind, ToClientKind::Log);
    let (source, level, msg, timestamp): (String, u8, String, u64) = rmp_serde::from_slice(body).unwrap();
    assert_eq!(level, 3);
    assert_eq!(test_val, ToClient::Log(Log { source, level: Level::Info, msg, timestamp }));
}
