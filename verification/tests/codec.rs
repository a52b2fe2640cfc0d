use swb::codec::{create_header, create_packet, create_packet_chunks, decode_packet};

#[test]
fn create_header_generates_valid_header() {
    let result = create_header(&[257, 10_000_000]);
    assert_eq!(result, [1, 1, 0, 0, 128, 150, 152, 0]);
}

#[test]
fn connection_manager_create_header_generates_valid_header() {
    let result = create_header(&[257, 10_000_000]);
    assert_eq!(result, [1, 1, 0, 0, 128, 150, 152, 0]);
}

#[test]
fn create_packet_generates_valid_packet() {
    let data: Vec<u8> = vec![255, 60, 75, 0, 1, 127, 205, 15, 99, 191];
    let result = create_packet(12345, data);

    let stream_id_vec = result[0..4].to_vec();
    let size_vec = result[4..8].to_vec();
    let data_vec = result[8..].to_vec();

    assert_eq!(stream_id_vec, vec![57, 48, 0, 0]);
    assert_eq!(size_vec, vec![10, 0, 0, 0]);
    assert_eq!(data_vec, vec![255, 60, 75, 0, 1, 127, 205, 15, 99, 191]);
}

#[test]
fn connection_manager_create_packet_generates_valid_packet() {
    let data_1: Vec<u8> = vec![255, 60, 75, 0, 1, 127];
    let data_2: Vec<u8> = vec![205, 15, 99, 191];
    let data: Vec<Vec<u8>> = vec![data_1, data_2];
    let result = create_packet_chunks(12345, data);

    let stream_id_vec = result[0..4].to_vec();
    let size_vec = result[4..8].to_vec();
    let data_vec = result[8..].to_vec();

    assert_eq!(stream_id_vec, vec![57, 48, 0, 0]);
    assert_eq!(size_vec, vec![10, 0, 0, 0]);
    assert_eq!(data_vec, vec![255, 60, 75, 0, 1, 127, 205, 15, 99, 191]);
}

#[test]
fn decode_packet_reads_header_and_data() {
    let data_1: Vec<u8> = vec![255, 60, 75, 0, 1, 127];
    let data_2: Vec<u8> = vec![205, 15, 99, 191];
    let data: Vec<Vec<u8>> = vec![data_1, data_2];
    let packet = create_packet_chunks(12345, data);
    let result = decode_packet(&packet);

    assert_eq!(result.0, 12345);
    assert_eq!(result.1, 10);
    assert_eq!(result.2, vec![255, 60, 75, 0, 1, 127, 205, 15, 99, 191]);
}

#[test]
fn round_trip_returns_id_length_and_payload() {
    let payload: Vec<u8> = (0..=200u8).collect();
    let frame = create_packet(u32::MAX, payload.clone());
    let (id, len, data) = decode_packet(&frame);
    assert_eq!(id, u32::MAX);
    assert_eq!(len, payload.len() as u32);
    assert_eq!(data, payload);
}

#[test]
fn single_byte_payload_frame() {
    let frame = create_packet(7, vec![9]);
    assert_eq!(frame, vec![7, 0, 0, 0, 1, 0, 0, 0, 9]);
}

#[test]
fn large_payload_round_trip() {
    let payload: Vec<u8> = (0..65536u32).map(|i| (i % 251) as u8).collect();
    let frame = create_packet(3, payload.clone());
    let (id, len, data) = decode_packet(&frame);
    assert_eq!(id, 3);
    assert_eq!(len, 65536);
    assert_eq!(data, payload);
}
