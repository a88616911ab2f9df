use std::io::Read;

use portable_pty::{native_pty_system, CommandBuilder, PtySize};

use pty_session::codec::decode_chunk;
use pty_session::pump::{ReadOutcome, ReaderPump, SessionEvent};

#[test]
fn real_channel_output_reaches_the_consumer_decoded() {
    let pty_system = native_pty_system();
    let pair = pty_system
        .openpty(PtySize { rows: 24, cols: 80, pixel_width: 0, pixel_height: 0 })
        .expect("allocate a pseudo-terminal");

    let mut cmd = CommandBuilder::new("sh");
    cmd.arg("-c");
    cmd.arg("echo hi");
    cmd.env("TERM", "xterm-256color");
    let mut child = pair.slave.spawn_command(cmd).expect("spawn the child");
    drop(pair.slave);

    let mut reader = pair.master.try_clone_reader().expect("clone the reader");
    let writer = pair.master.take_writer().expect("take the writer");
    drop(writer);

    let mut pump = ReaderPump::start("it".to_string());
    let mut decoded: Vec<u8> = Vec::new();
    let mut buf = [0u8; 8192];
    let mut saw_exit = false;
    loop {
        let outcome = match reader.read(&mut buf) {
            Ok(0) => ReadOutcome::Eof,
            Ok(n) => ReadOutcome::Data(buf[..n].to_vec()),
            Err(_) => ReadOutcome::Failed,
        };
        let stop = !matches!(outcome, ReadOutcome::Data(_));
        match pump.on_read(outcome) {
            SessionEvent::Output { session_id, payload } => {
                assert_eq!(session_id, "it");
                assert!(!saw_exit, "no output may follow the exit event");
                decoded.extend(decode_chunk(&payload).expect("transport chunks decode"));
            }
            SessionEvent::Exit { session_id } => {
                assert_eq!(session_id, "it");
                saw_exit = true;
            }
        }
        if stop {
            break;
        }
    }
    let _ = child.wait();

    assert!(saw_exit, "the stream must end in exactly one exit event");
    let text = String::from_utf8_lossy(&decoded);
    assert!(text.contains("hi"), "child output must survive the transport: {text:?}");
}
