use swb::mux::{forward_element, Multiplexer, MuxError};

#[test]
fn rejects_too_few_stream_ids() {
    let res = Multiplexer::new(vec![1, 2], 3);
    assert!(matches!(res, Err(MuxError::NotEnoughStreamIds)));
}

#[test]
fn empty_payload_produces_no_frame() {
    let mut m = Multiplexer::new(vec![5], 1).unwrap();
    assert!(m.on_source_item(0, vec![]).is_none());
    assert!(forward_element(&mut m, 0, vec![]).is_none());
}

#[test]
fn stream_ids_are_assigned_positionally() {
    let mut m = Multiplexer::new(vec![42, 7, 99], 3).unwrap();
    let a = m.on_source_item(0, vec![1]).unwrap();
    let b = m.on_source_item(1, vec![2]).unwrap();
    let c = m.on_source_item(2, vec![3]).unwrap();
    assert_eq!(a.stream_id, 42);
    assert_eq!(b.stream_id, 7);
    assert_eq!(c.stream_id, 99);
}

#[test]
fn within_stream_order_is_preserved() {
    let mut m = Multiplexer::new(vec![10, 20], 2).unwrap();
    let mut wire: Vec<(u32, Vec<u8>)> = Vec::new();
    for (k, payload) in [
        (0usize, vec![1u8]),
        (1, vec![9]),
        (0, vec![]),
        (0, vec![2]),
        (1, vec![8]),
        (0, vec![3]),
    ] {
        if let Some(p) = m.on_source_item(k, payload) {
            wire.push((p.stream_id, p.payload));
        }
    }
    let from_first: Vec<Vec<u8>> = wire
        .iter()
        .filter(|(id, _)| *id == 10)
        .map(|(_, p)| p.clone())
        .collect();
    assert_eq!(from_first, vec![vec![1], vec![2], vec![3]]);
    let from_second: Vec<Vec<u8>> = wire
        .iter()
        .filter(|(id, _)| *id == 20)
        .map(|(_, p)| p.clone())
        .collect();
    assert_eq!(from_second, vec![vec![9], vec![8]]);
}

#[test]
fn merge_ends_only_when_every_source_ended() {
    let mut m = Multiplexer::new(vec![1, 2], 2).unwrap();
    assert!(!m.is_done());
    m.on_source_end(0);
    assert!(!m.is_done());
    // the surviving source still delivers
    let p = m.on_source_item(1, vec![5]).unwrap();
    assert_eq!(p.stream_id, 2);
    m.on_source_end(1);
    assert!(m.is_done());
}

#[test]
fn forward_element_frames_with_assigned_id() {
    let mut m = Multiplexer::new(vec![7], 1).unwrap();
    let frame = forward_element(&mut m, 0, b"HELLO".to_vec()).unwrap();
    assert_eq!(frame, vec![7, 0, 0, 0, 5, 0, 0, 0, b'H', b'E', b'L', b'L', b'O']);
}
