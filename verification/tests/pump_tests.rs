use pty_session::codec::decode_chunk;
use pty_session::pump::drain_stream;
use pty_session::pump::ReadOutcome;
use pty_session::pump::ReaderPump;
use pty_session::pump::SessionEvent;

fn payload_of(ev: &SessionEvent, session: &str) -> String {
    match ev {
        SessionEvent::Output { session_id, payload } => {
            assert_eq!(session_id, session);
            payload.clone()
        }
        SessionEvent::Exit { .. } => panic!("expected an output event"),
    }
}

fn assert_exit(ev: &SessionEvent, session: &str) {
    match ev {
        SessionEvent::Exit { session_id } => assert_eq!(session_id, session),
        SessionEvent::Output { .. } => panic!("expected the exit event"),
    }
}

#[test]
fn stream_emits_outputs_in_order_then_one_exit() {
    let chunks = vec![b"c1".to_vec(), b"c2".to_vec(), b"c3".to_vec()];
    let events = drain_stream("s1".to_string(), &chunks, true);
    assert_eq!(events.len(), 4);
    assert_eq!(payload_of(&events[0], "s1"), "YzE=");
    assert_eq!(payload_of(&events[1], "s1"), "YzI=");
    assert_eq!(payload_of(&events[2], "s1"), "YzM=");
    assert_exit(&events[3], "s1");
}

#[test]
fn read_error_ends_the_stream_the_same_way() {
    let chunks = vec![b"partial".to_vec()];
    let events = drain_stream("s9".to_string(), &chunks, false);
    assert_eq!(events.len(), 2);
    assert_eq!(decode_chunk(&payload_of(&events[0], "s9")), Some(b"partial".to_vec()));
    assert_exit(&events[1], "s9");
}

#[test]
fn empty_stream_emits_only_the_exit() {
    let events = drain_stream("s1".to_string(), &Vec::new(), true);
    assert_eq!(events.len(), 1);
    assert_exit(&events[0], "s1");
}

#[test]
fn pump_steps_encode_each_chunk() {
    let mut pump = ReaderPump::start("term".to_string());
    let first = pump.on_read(ReadOutcome::Data(b"hi".to_vec()));
    assert_eq!(payload_of(&first, "term"), "aGk=");
    let second = pump.on_read(ReadOutcome::Data(vec![0u8, 255, 13, 10]));
    assert_eq!(
        decode_chunk(&payload_of(&second, "term")),
        Some(vec![0u8, 255, 13, 10])
    );
    let last = pump.on_read(ReadOutcome::Eof);
    assert_exit(&last, "term");
}

#[test]
fn echoed_output_decodes_to_the_written_text() {
    // The consumer-side view of a shell that echoes `hi` after the command
    // was written to the session.
    let chunks = vec![b"echo hi\r\n".to_vec(), b"hi\r\n".to_vec()];
    let events = drain_stream("s1".to_string(), &chunks, true);
    let mut decoded: Vec<u8> = Vec::new();
    for ev in &events[..events.len() - 1] {
        decoded.extend(decode_chunk(&payload_of(ev, "s1")).unwrap());
    }
    let text = String::from_utf8(decoded).unwrap();
    assert!(text.contains("hi"));
    assert_exit(&events[events.len() - 1], "s1");
}
