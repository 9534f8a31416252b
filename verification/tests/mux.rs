use omnistreams::CancelReason;
use omnistreams::DecodeError;
use omnistreams::EventEmitter;
use omnistreams::MessageType;
use omnistreams::Multiplexer;
use omnistreams::MultiplexerEvent;
use omnistreams::MuxError;
use omnistreams::MuxState;
use omnistreams::ProducerEvent;
use omnistreams::TransportEvent;
use omnistreams::WireMessage;
use omnistreams::decode;
use omnistreams::encode;

#[test]
fn create() {
    Multiplexer::new();
}

#[test]
fn transfer_largefile() {
}

#[test]
fn wire_round_trip_request_data() {
    // Encoding a demand frame for stream id 7, count 42 and decoding it
    // on the peer side yields exactly the same message.
    let bytes = encode(&WireMessage::StreamRequestData { stream_id: 7, count: 42 });
    assert_eq!(bytes, vec![4, 7, 42]);
    let decoded = decode(&bytes).unwrap();
    assert_eq!(decoded, WireMessage::StreamRequestData { stream_id: 7, count: 42 });
}

#[test]
fn wire_round_trip_all_types() {
    let messages = vec![
        WireMessage::CreateReceiver { stream_id: 3, payload: vec![1, 2] },
        WireMessage::StreamData { stream_id: 9, payload: vec![5, 6, 7] },
        WireMessage::StreamEnd { stream_id: 200 },
        WireMessage::CancelSender { stream_id: 0 },
        WireMessage::StreamRequestData { stream_id: 254, count: 255 },
        WireMessage::ControlMessage { payload: vec![8] },
    ];
    for m in messages {
        let decoded = decode(&encode(&m)).unwrap();
        assert_eq!(decoded, m);
    }
}

#[test]
fn wire_exact_bytes() {
    assert_eq!(
        encode(&WireMessage::CreateReceiver { stream_id: 3, payload: vec![9] }),
        vec![0, 3, 9]
    );
    assert_eq!(encode(&WireMessage::StreamData { stream_id: 1, payload: vec![7, 8] }), vec![
        1, 1, 7, 8
    ]);
    assert_eq!(encode(&WireMessage::StreamEnd { stream_id: 2 }), vec![2, 2]);
    assert_eq!(encode(&WireMessage::CancelSender { stream_id: 4 }), vec![3, 4]);
    assert_eq!(encode(&WireMessage::ControlMessage { payload: vec![1, 2] }), vec![5, 1, 2]);
}

#[test]
fn wire_decode_faults() {
    assert_eq!(decode(&vec![]), Err(DecodeError::Truncated));
    assert_eq!(decode(&vec![1]), Err(DecodeError::Truncated));
    assert_eq!(decode(&vec![4, 7]), Err(DecodeError::Truncated));
    assert_eq!(decode(&vec![9, 0, 0]), Err(DecodeError::InvalidType));
    assert!(MessageType::from_byte(6).is_none());
    assert_eq!(MessageType::from_byte(4), Some(MessageType::StreamRequestData));
    assert_eq!(MessageType::StreamEnd.as_byte(), 2);
}

#[test]
fn mux_create_receiver_surfaces_conduit() {
    let mut mux = Multiplexer::new();
    let rx = mux.events().unwrap();
    let inbound = vec![TransportEvent::Message(vec![0, 99, 10, 11])];
    let (out, res) = mux.poll(inbound);
    assert!(res.is_ok());
    assert!(out.is_empty());
    match mux.next_event(&rx) {
        Some(MultiplexerEvent::Conduit(handle, payload)) => {
            // The id in the frame is ignored: ids are assigned here.
            assert_eq!(handle.stream_id(), 0);
            assert_eq!(payload, vec![10, 11]);
        },
        _ => panic!("expected a new inbound stream"),
    }
    assert!(mux.next_event(&rx).is_none());
}

#[test]
fn mux_events_taken_once() {
    let mut mux = Multiplexer::new();
    assert!(mux.events().is_some());
    assert!(mux.events().is_none());
}

#[test]
fn mux_stream_data_and_end() {
    let mut mux = Multiplexer::new();
    let rx = mux.events().unwrap();
    let (_, res) = mux.poll(vec![TransportEvent::Message(vec![0, 0])]);
    assert!(res.is_ok());
    let handle = match mux.next_event(&rx) {
        Some(MultiplexerEvent::Conduit(handle, _)) => handle,
        _ => panic!("expected a new inbound stream"),
    };
    let srx = handle.event_stream(&mut mux).unwrap();
    assert!(handle.event_stream(&mut mux).is_none());

    let inbound = vec![
        TransportEvent::Message(vec![1, 0, 5, 6]),
        TransportEvent::Message(vec![1, 0, 7]),
        TransportEvent::Message(vec![2, 0]),
    ];
    let (_, res) = mux.poll(inbound);
    assert!(res.is_ok());
    assert_eq!(srx.next_event(&mut mux), Some(ProducerEvent::Data(vec![5, 6])));
    assert_eq!(srx.next_event(&mut mux), Some(ProducerEvent::Data(vec![7])));
    assert_eq!(srx.next_event(&mut mux), Some(ProducerEvent::End));
    assert_eq!(srx.next_event(&mut mux), None);
}

#[test]
fn mux_isolation_between_streams() {
    // Two open streams; cancelling the first produces no observable
    // event on the second, which keeps receiving data and end normally.
    let mut mux = Multiplexer::new();
    let rx = mux.events().unwrap();
    let (_, res) = mux.poll(vec![
        TransportEvent::Message(vec![0, 0]),
        TransportEvent::Message(vec![0, 0]),
    ]);
    assert!(res.is_ok());
    let a = match mux.next_event(&rx) {
        Some(MultiplexerEvent::Conduit(h, _)) => h,
        _ => panic!("expected stream a"),
    };
    let b = match mux.next_event(&rx) {
        Some(MultiplexerEvent::Conduit(h, _)) => h,
        _ => panic!("expected stream b"),
    };
    assert_eq!(a.stream_id(), 0);
    assert_eq!(b.stream_id(), 1);
    let brx = b.event_stream(&mut mux).unwrap();

    a.cancel(&mut mux, CancelReason::Disconnected);
    let (out, res) = mux.poll(vec![]);
    assert!(res.is_ok());
    assert_eq!(out, vec![vec![3, 0]]);
    assert_eq!(brx.next_event(&mut mux), None);

    let (_, res) = mux.poll(vec![
        TransportEvent::Message(vec![1, 1, 42]),
        TransportEvent::Message(vec![2, 1]),
    ]);
    assert!(res.is_ok());
    assert_eq!(brx.next_event(&mut mux), Some(ProducerEvent::Data(vec![42])));
    assert_eq!(brx.next_event(&mut mux), Some(ProducerEvent::End));
}

#[test]
fn mux_unknown_stream_is_fatal() {
    let mut mux = Multiplexer::new();
    let (_, res) = mux.poll(vec![TransportEvent::Message(vec![1, 7, 1])]);
    assert_eq!(res, Err(MuxError::UnknownStreamId));
    // The session is dead: every later turn reports the same fault.
    let (_, res) = mux.poll(vec![]);
    assert_eq!(res, Err(MuxError::UnknownStreamId));
}

#[test]
fn mux_invalid_type_is_fatal() {
    let mut mux = Multiplexer::new();
    let (_, res) = mux.poll(vec![TransportEvent::Message(vec![9, 0])]);
    assert_eq!(res, Err(MuxError::InvalidMessageType));
}

#[test]
fn mux_malformed_is_fatal() {
    let mut mux = Multiplexer::new();
    let (_, res) = mux.poll(vec![TransportEvent::Message(vec![])]);
    assert_eq!(res, Err(MuxError::Malformed));
    let mut mux2 = Multiplexer::new();
    let (_, res2) = mux2.poll(vec![TransportEvent::Message(vec![1])]);
    assert_eq!(res2, Err(MuxError::Malformed));
}

#[test]
fn mux_stream_id_exhaustion() {
    let mut mux = Multiplexer::new();
    for _ in 0..255 {
        assert!(mux.handle_message(&vec![0, 0]).is_ok());
    }
    // All 255 ids (0 through 254) are out: the next allocation is fatal.
    assert_eq!(mux.handle_message(&vec![0, 0]), Err(MuxError::StreamIdsExhausted));
}

#[test]
fn mux_control_messages_both_ways() {
    let mut mux = Multiplexer::new();
    let rx = mux.events().unwrap();
    mux.send_control_message(vec![1, 2, 3]);
    let (out, res) = mux.poll(vec![TransportEvent::Message(vec![5, 9, 9])]);
    assert!(res.is_ok());
    assert_eq!(out, vec![vec![5, 1, 2, 3]]);
    match mux.next_event(&rx) {
        Some(MultiplexerEvent::ControlMessage(payload)) => assert_eq!(payload, vec![9, 9]),
        _ => panic!("expected a control message event"),
    }
}

#[test]
fn mux_request_demand_chunking() {
    let mut mux = Multiplexer::new();
    let rx = mux.events().unwrap();
    let (_, res) = mux.poll(vec![TransportEvent::Message(vec![0, 0])]);
    assert!(res.is_ok());
    let handle = match mux.next_event(&rx) {
        Some(MultiplexerEvent::Conduit(h, _)) => h,
        _ => panic!("expected a new inbound stream"),
    };
    handle.request(&mut mux, 300);
    let (out, res) = mux.poll(vec![]);
    assert!(res.is_ok());
    // 300 units of demand do not fit one byte: two frames whose counts
    // sum to exactly 300.
    assert_eq!(out, vec![vec![4, 0, 255], vec![4, 0, 45]]);

    handle.request(&mut mux, 42);
    let (out, res) = mux.poll(vec![]);
    assert!(res.is_ok());
    assert_eq!(out, vec![vec![4, 0, 42]]);
}

#[test]
fn mux_state_lifecycle() {
    let mut mux = Multiplexer::new();
    let rx = mux.events().unwrap();
    assert_eq!(mux.state(), MuxState::Active);
    let (_, res) = mux.poll(vec![TransportEvent::Message(vec![0, 0])]);
    assert!(res.is_ok());
    let handle = match mux.next_event(&rx) {
        Some(MultiplexerEvent::Conduit(h, _)) => h,
        _ => panic!("expected a new inbound stream"),
    };
    assert_eq!(mux.state(), MuxState::Active);

    let (_, res) = mux.poll(vec![TransportEvent::Close]);
    assert!(res.is_ok());
    assert_eq!(mux.state(), MuxState::Draining);

    handle.cancel(&mut mux, CancelReason::Disconnected);
    let (out, res) = mux.poll(vec![]);
    assert!(res.is_ok());
    assert_eq!(out, vec![vec![3, 0]]);
    assert_eq!(mux.state(), MuxState::Closed);
}

#[test]
fn mux_data_before_cancel_in_same_turn_is_delivered() {
    // Data that arrives in the same turn as the receiver's cancellation
    // is dispatched before the cancellation unregisters the stream.
    let mut mux = Multiplexer::new();
    let rx = mux.events().unwrap();
    let (_, res) = mux.poll(vec![TransportEvent::Message(vec![0, 0])]);
    assert!(res.is_ok());
    let handle = match mux.next_event(&rx) {
        Some(MultiplexerEvent::Conduit(h, _)) => h,
        _ => panic!("expected a new inbound stream"),
    };
    let srx = handle.event_stream(&mut mux).unwrap();
    handle.cancel(&mut mux, CancelReason::Disconnected);
    let (out, res) = mux.poll(vec![TransportEvent::Message(vec![1, 0, 8])]);
    assert!(res.is_ok());
    assert_eq!(out, vec![vec![3, 0]]);
    assert_eq!(srx.next_event(&mut mux), Some(ProducerEvent::Data(vec![8])));
}
