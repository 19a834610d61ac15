use gfoc::link::{
    receive_byte, reply_event, Config, Event, Input, ResponseReader, Status, Worker, WorkerStep,
};
use gfoc::protocol::{encode_frame, Command, ProtocolError, Response, State};

fn frame(r: &Response) -> Vec<u8> {
    let mut buf = [0u8; 16];
    let n = encode_frame(r, &mut buf).unwrap();
    buf[..n].to_vec()
}

#[test]
fn status_labels() {
    assert_eq!(Status::Disconnected.label(), "Disconnected");
    let connecting = Status::Connecting { port: "/dev/ttyUSB0".into(), baud_rate: 115200 };
    assert_eq!(connecting.label(), "Connecting to /dev/ttyUSB0 at 115200 baud");
    let connected = Status::Connected { port: "COM3".into(), baud_rate: 0 };
    assert_eq!(connected.label(), "Connected to COM3 at 0 baud");
    let again = Status::Reconnecting { port: "p".into(), reason: "lost".into() };
    assert_eq!(again.label(), "Reconnecting to p: lost");
    let max = Status::Connected { port: "x".into(), baud_rate: u32::MAX };
    assert_eq!(max.label(), format!("Connected to x at {} baud", u32::MAX));
}

#[test]
fn only_connected_counts_as_connected() {
    assert!(Status::Connected { port: "a".into(), baud_rate: 1 }.is_connected());
    assert!(!Status::Disconnected.is_connected());
    assert!(!Status::Connecting { port: "a".into(), baud_rate: 1 }.is_connected());
    assert!(!Status::Reconnecting { port: "a".into(), reason: "r".into() }.is_connected());
}

#[test]
fn receive_byte_reassembles_a_response() {
    let r = Response::CyclicStatus { state: State::Running };
    let bytes = frame(&r);
    let mut buf = Vec::new();
    for b in &bytes[..bytes.len() - 1] {
        assert!(receive_byte(*b, &mut buf).is_none());
    }
    assert_eq!(receive_byte(0, &mut buf), Some(Ok(r)));
    assert!(buf.is_empty());
}

#[test]
fn receive_byte_skips_empty_frames_and_reports_bad_ones() {
    let mut buf = Vec::new();
    assert_eq!(receive_byte(0, &mut buf), None);
    assert!(buf.is_empty());
    receive_byte(2, &mut buf);
    receive_byte(9, &mut buf);
    assert_eq!(
        receive_byte(0, &mut buf),
        Some(Err(String::from("failed to decode response frame: Decode")))
    );
    assert!(buf.is_empty());
}

#[test]
fn receive_byte_drops_oversized_frames() {
    let mut buf = Vec::new();
    for _ in 0..255 {
        assert_eq!(receive_byte(7, &mut buf), None);
    }
    assert_eq!(buf.len(), 255);
    assert_eq!(
        receive_byte(7, &mut buf),
        Some(Err(String::from("response frame exceeded maximum size")))
    );
    assert!(buf.is_empty());
}

#[test]
fn response_reader_decodes_at_the_terminator() {
    let mut reader = ResponseReader::new();
    let bytes = frame(&Response::Ack);
    for b in &bytes[..bytes.len() - 1] {
        assert!(reader.accept(*b).is_none());
    }
    assert_eq!(reader.accept(0), Some(Ok(Response::Ack)));
    let mut empty = ResponseReader::new();
    assert_eq!(empty.accept(0), Some(Err(ProtocolError::Decode)));
}

#[test]
fn response_reader_fills_up() {
    let mut reader = ResponseReader::new();
    for _ in 0..256 {
        assert!(!reader.is_full());
        assert!(reader.accept(1).is_none());
    }
    assert!(reader.is_full());
}

#[test]
fn worker_decisions() {
    let mut w = Worker::new_with_config(None);
    assert_eq!(w.on_poll(), None);
    assert!(matches!(w.on_input(Input::Command(Command::Start)), WorkerStep::Ignore));
    let cfg = Config { port: "tty0".into(), baud_rate: 9600 };
    match w.on_input(Input::OpenPort(cfg.clone())) {
        WorkerStep::Open(c) => assert_eq!(c, cfg),
        other => panic!("unexpected {other:?}"),
    }
    let failed: Option<Event<()>> = w.on_open(cfg.clone(), false);
    assert!(failed.is_none());
    assert!(!w.connected);
    assert_eq!(w.config, Some(cfg.clone()));
    match w.on_open::<()>(cfg.clone(), true) {
        Some(Event::Status(s)) => {
            assert_eq!(s, Status::Connected { port: "tty0".into(), baud_rate: 9600 })
        }
        _ => panic!("expected a connected status"),
    }
    assert_eq!(w.on_poll(), Some(Command::Status));
    assert!(matches!(
        w.on_input(Input::Command(Command::Stop)),
        WorkerStep::Transact(Command::Stop)
    ));
    assert!(matches!(w.on_input(Input::ClosePort), WorkerStep::Disconnect));
    assert!(!w.connected);
    assert_eq!(w.on_poll(), None);
}

#[test]
fn reply_events() {
    assert!(matches!(reply_event::<()>(Ok(Response::Ack)), Event::Response(Response::Ack)));
    match reply_event::<()>(Err("Timeout Error".into())) {
        Event::Error(e) => assert_eq!(e, "Timeout Error"),
        _ => panic!("expected an error event"),
    }
}
