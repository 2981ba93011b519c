use multishiva::codec::{decode, encode};
use multishiva::events::Event;
use multishiva::transport::{
    frame, heartbeat_frame, FrameParse, FrameReader, OutboundQueue, HEARTBEAT_INTERVAL_MS,
    MAX_FRAME_LEN, READ_DEADLINE_MS,
};

#[test]
fn test_heartbeat_frame_is_four_zero_bytes() {
    assert_eq!(heartbeat_frame(), vec![0u8, 0, 0, 0]);
}

#[test]
fn test_read_deadline_is_three_heartbeats() {
    assert_eq!(READ_DEADLINE_MS, 3 * HEARTBEAT_INTERVAL_MS);
}

#[test]
fn test_frame_reader_round_trip() {
    let ev = Event::MouseMove { x: 11, y: 540 };
    let payload = encode(&ev);
    let framed = frame(payload.as_slice());

    let mut reader = FrameReader::new();
    reader.feed(framed.as_slice());
    match reader.next_frame() {
        FrameParse::Payload(p) => {
            assert_eq!(decode(p.as_slice()).unwrap(), ev);
        }
        other => panic!("expected a payload, got {:?}", other),
    }
    assert_eq!(reader.next_frame(), FrameParse::Incomplete);
}

#[test]
fn test_frame_reader_handles_split_and_joined_chunks() {
    let a = encode(&Event::FocusRelease);
    let b = encode(&Event::MouseMove { x: 1, y: 2 });
    let mut bytes = frame(a.as_slice());
    bytes.extend_from_slice(heartbeat_frame().as_slice());
    bytes.extend_from_slice(frame(b.as_slice()).as_slice());

    let mut reader = FrameReader::new();
    // feed byte by byte: reassembly must not care about chunk boundaries
    for byte in bytes.iter() {
        reader.feed(&[*byte]);
    }
    match reader.next_frame() {
        FrameParse::Payload(p) => assert_eq!(decode(p.as_slice()).unwrap(), Event::FocusRelease),
        other => panic!("expected a payload, got {:?}", other),
    }
    assert_eq!(reader.next_frame(), FrameParse::HeartbeatTick);
    match reader.next_frame() {
        FrameParse::Payload(p) => {
            assert_eq!(decode(p.as_slice()).unwrap(), Event::MouseMove { x: 1, y: 2 })
        }
        other => panic!("expected a payload, got {:?}", other),
    }
    assert_eq!(reader.next_frame(), FrameParse::Incomplete);
}

#[test]
fn test_frame_reader_rejects_oversized_declaration() {
    let declared = (MAX_FRAME_LEN as u32) + 1;
    let mut reader = FrameReader::new();
    reader.feed(&declared.to_be_bytes());
    assert_eq!(reader.next_frame(), FrameParse::Oversized);
}

#[test]
fn test_outbound_queue_keeps_order() {
    let mut q = OutboundQueue::new(3);
    q.push(Event::MouseMove { x: 1, y: 1 });
    q.push(Event::MouseMove { x: 2, y: 2 });
    q.push(Event::MouseMove { x: 3, y: 3 });
    assert_eq!(q.pop(), Some(Event::MouseMove { x: 1, y: 1 }));
    assert_eq!(q.pop(), Some(Event::MouseMove { x: 2, y: 2 }));
    assert_eq!(q.pop(), Some(Event::MouseMove { x: 3, y: 3 }));
    assert_eq!(q.pop(), None);
    assert_eq!(q.dropped_count(), 0);
}

#[test]
fn test_outbound_queue_drops_oldest_when_full() {
    let mut q = OutboundQueue::new(2);
    q.push(Event::MouseMove { x: 1, y: 1 });
    q.push(Event::MouseMove { x: 2, y: 2 });
    q.push(Event::MouseMove { x: 3, y: 3 });
    assert_eq!(q.len(), 2);
    assert_eq!(q.dropped_count(), 1);
    assert_eq!(q.pop(), Some(Event::MouseMove { x: 2, y: 2 }));
    assert_eq!(q.pop(), Some(Event::MouseMove { x: 3, y: 3 }));
}
