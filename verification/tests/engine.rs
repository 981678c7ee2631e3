use esphome::frame::write_frame;
use esphome::{Connection, EspHomeError, HeaderOutcome, MessageType, ReceiveOutcome, State};

fn hello_payload() -> Vec<u8> {
    vec![0x0A, 0x02, 0x68, 0x69]
}

#[test]
fn state_dedup_emits_once_for_repeats() {
    let mut conn = Connection::new();
    let first = conn.on_new_state(5, State::Binary(true));
    assert!(first.is_some());
    let second = conn.on_new_state(5, State::Binary(true));
    assert!(second.is_none(), "a repeated value must not emit");
    let third = conn.on_new_state(5, State::Binary(false));
    let third = third.expect("a changed value must emit");
    assert_eq!(third.key, 5);
    assert!(third.state == State::Binary(false));
    assert!(conn.get_last_state_for_key(5) == Some(State::Binary(false)));
}

#[test]
fn first_observation_always_emits() {
    let mut conn = Connection::new();
    assert!(conn.get_last_state_for_key(9).is_none());
    let ev = conn
        .on_new_state(9, State::Text(String::from("open")))
        .expect("the first observation of a key must emit");
    assert_eq!(ev.key, 9);
    assert!(ev.state == State::Text(String::from("open")));
    assert!(conn.get_last_state_for_key(9) == Some(State::Text(String::from("open"))));
}

#[test]
fn state_dedup_is_by_value_per_shape() {
    let mut conn = Connection::new();
    assert!(conn.on_new_state(1, State::Measurement(0x3F80_0000)).is_some());
    assert!(conn.on_new_state(1, State::Measurement(0x3F80_0000)).is_none());
    assert!(conn.on_new_state(1, State::Binary(true)).is_some(), "a shape change is a change");
    assert!(conn.on_new_state(2, State::LightState((true, 7))).is_some());
    assert!(conn.on_new_state(2, State::LightState((true, 7))).is_none());
    assert!(conn.on_new_state(2, State::LightState((true, 8))).is_some());
}

#[test]
fn keep_alive_is_answered_and_does_not_surface() {
    let mut conn = Connection::new();
    // a keep-alive request (type 7, two stray body bytes) sits in front of
    // the awaited reply
    let mut injected = vec![0x00, 0x02, 0x07, 0xAA, 0xBB];
    injected.extend_from_slice(&write_frame(2, &vec![0x01]));
    conn.feed(&injected);
    let r = conn.request(MessageType::HelloRequest, &hello_payload(), MessageType::HelloResponse);
    match r {
        Ok(ReceiveOutcome::Reply(body)) => assert_eq!(body, vec![0x01]),
        other => panic!("the request must complete against the reply, got {:?}", other),
    }
    let written = conn.take_output();
    let mut expected = write_frame(1, &hello_payload());
    expected.extend_from_slice(&vec![0x00, 0x00, 0x08]);
    assert_eq!(written, expected, "request frame, then the keep-alive answer");
}

#[test]
fn mismatched_reply_type_fails_with_both_tags() {
    let mut conn = Connection::new();
    // a recognized but unhandled frame of the wrong type: ConnectResponse
    conn.feed(&write_frame(4, &vec![0xDE, 0xAD]));
    let r = conn.request(MessageType::HelloRequest, &hello_payload(), MessageType::HelloResponse);
    match r {
        Err(EspHomeError::UnexpectedResponse { expected, received }) => {
            assert_eq!(expected, MessageType::HelloResponse);
            assert_eq!(received, 4);
        }
        other => panic!("expected the mismatch error, got {:?}", other),
    }
}

#[test]
fn cover_push_is_skipped_whole_without_caching() {
    let mut conn = Connection::new();
    // a cover state push (type 22) of length 6, then the awaited reply
    let mut bytes = write_frame(22, &vec![1, 2, 3, 4, 5, 6]);
    bytes.extend_from_slice(&write_frame(2, &vec![0x09]));
    conn.feed(&bytes);
    let r = conn.receive_message(MessageType::HelloResponse);
    match r {
        Ok(ReceiveOutcome::Reply(body)) => assert_eq!(body, vec![0x09]),
        other => panic!("the skipped push must not surface, got {:?}", other),
    }
    assert!(conn.get_last_state_for_key(1).is_none());
    assert!(conn.take_output().is_empty(), "skipping writes nothing back");
}

#[test]
fn keep_alive_scenario_end_to_end() {
    // the sole input: marker, length 2, type 7, two body bytes
    let mut conn = Connection::new();
    conn.feed(&vec![0x00, 0x02, 0x07, 0xAA, 0xBB]);
    let r = conn.request(MessageType::HelloRequest, &hello_payload(), MessageType::HelloResponse);
    match r {
        Ok(ReceiveOutcome::NeedMoreData) => {}
        other => panic!("the request must not complete yet, got {:?}", other),
    }
    // the keep-alive was answered with a type 8 frame before blocking
    let written = conn.take_output();
    let mut expected = write_frame(1, &hello_payload());
    expected.extend_from_slice(&vec![0x00, 0x00, 0x08]);
    assert_eq!(written, expected);
    // only once the matching reply arrives does the wait complete
    conn.feed(&write_frame(2, &vec![0x05, 0x06]));
    match conn.receive_message(MessageType::HelloResponse) {
        Ok(ReceiveOutcome::Reply(body)) => assert_eq!(body, vec![0x05, 0x06]),
        other => panic!("expected the reply, got {:?}", other),
    }
}

#[test]
fn disconnect_request_is_acknowledged() {
    let mut conn = Connection::new();
    conn.feed(&write_frame(5, &Vec::new()));
    match conn.receive_message_header() {
        Ok(HeaderOutcome::NeedMoreData) => {}
        other => panic!("the disconnect must be absorbed, got {:?}", other),
    }
    assert_eq!(conn.take_output(), vec![0x00, 0x00, 0x06]);
}

#[test]
fn time_query_is_surfaced_for_answering() {
    let mut conn = Connection::new();
    conn.feed(&write_frame(36, &Vec::new()));
    match conn.receive_message_header() {
        Ok(HeaderOutcome::TimeQuery) => {}
        other => panic!("expected the time query, got {:?}", other),
    }
    // the owner answers with the wall clock, schema-encoded
    let time_payload = vec![0x0D, 0x10, 0x20, 0x30, 0x40];
    conn.send_message(MessageType::GetTimeResponse, &time_payload);
    let mut expected = vec![0x00, 0x05, 0x25];
    expected.extend_from_slice(&time_payload);
    assert_eq!(conn.take_output(), expected);
}

#[test]
fn state_push_hands_payload_out_for_decoding() {
    let mut conn = Connection::new();
    let body = vec![0x0D, 0x2A, 0x00, 0x00, 0x00, 0x10, 0x01];
    conn.feed(&write_frame(21, &body));
    match conn.receive_message_header() {
        Ok(HeaderOutcome::StatePush { kind, payload }) => {
            assert_eq!(kind, MessageType::BinarySensorStateResponse);
            assert_eq!(payload, body);
        }
        other => panic!("expected the state push, got {:?}", other),
    }
    // the owner decodes the payload and applies the state
    let ev = conn.on_new_state(42, State::Binary(true));
    assert!(ev.is_some());
    assert!(conn.get_last_state_for_key(42) == Some(State::Binary(true)));
}

#[test]
fn unknown_tag_aborts() {
    let mut conn = Connection::new();
    conn.feed(&write_frame(99, &vec![0x01]));
    match conn.receive_message_header() {
        Err(EspHomeError::UnknownMessageType { received }) => assert_eq!(received, 99),
        other => panic!("an unknown tag must be fatal, got {:?}", other),
    }
}

#[test]
fn malformed_length_fails_the_read() {
    let mut conn = Connection::new();
    conn.feed(&vec![0x00, 0x80, 0x80, 0x80, 0x80, 0x80, 0x00]);
    match conn.receive_message_header() {
        Err(EspHomeError::MalformedVarint) => {}
        other => panic!("expected the malformed-varint error, got {:?}", other),
    }
}

#[test]
fn partial_frames_ask_for_more_data() {
    let mut conn = Connection::new();
    match conn.receive_message_header() {
        Ok(HeaderOutcome::NeedMoreData) => {}
        other => panic!("an empty buffer asks for more, got {:?}", other),
    }
    // header present but the body not yet
    conn.feed(&vec![0x00, 0x03, 0x02, 0xAA]);
    match conn.receive_message_header() {
        Ok(HeaderOutcome::NeedMoreData) => {}
        other => panic!("a torn frame asks for more, got {:?}", other),
    }
    // the remaining body bytes complete the frame
    conn.feed(&vec![0xBB, 0xCC]);
    match conn.receive_message(MessageType::HelloResponse) {
        Ok(ReceiveOutcome::Reply(body)) => assert_eq!(body, vec![0xAA, 0xBB, 0xCC]),
        other => panic!("expected the reply, got {:?}", other),
    }
}

#[test]
fn skip_and_body_read_respect_the_buffer() {
    let mut conn = Connection::new();
    conn.feed(&vec![0x01, 0x02, 0x03]);
    assert!(conn.read_frame_body(4).is_none());
    let body = conn.read_frame_body(2).expect("two bytes are buffered");
    assert_eq!(body, vec![0x01, 0x02]);
    assert!(!conn.skip_bytes(2), "only one byte is left");
    assert!(conn.skip_bytes(1));
}

#[test]
fn take_output_drains_the_queue() {
    let mut conn = Connection::new();
    conn.send_message(MessageType::PingResponse, &Vec::new());
    assert_eq!(conn.take_output(), vec![0x00, 0x00, 0x08]);
    assert!(conn.take_output().is_empty());
}
