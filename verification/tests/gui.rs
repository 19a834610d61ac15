use gfoc::gui::{state_label, toggle_label, ConnectButton, GFoc, Message, UiEffect};
use gfoc::link::{Config, Event, Input, Status};
use gfoc::protocol::{Command, Response, State};

type Ui = GFoc<u8>;

#[test]
fn starts_disconnected() {
    let ui = Ui::new();
    assert_eq!(ui.baud_rate, "115200");
    assert_eq!(ui.last_message, "Waiting for serial connection");
    assert_eq!(ui.connect_button(), ConnectButton::Connect);
    assert!(!ui.shows_controls());
}

#[test]
fn labels() {
    assert_eq!(state_label(State::Idle), "Idle");
    assert_eq!(state_label(State::Running), "Running");
    assert_eq!(toggle_label(Some(State::Running)), "Stop");
    assert_eq!(toggle_label(Some(State::Idle)), "Start");
    assert_eq!(toggle_label(None), "Start");
}

#[test]
fn serial_config_needs_a_port_and_a_number() {
    let mut ui = Ui::new();
    assert_eq!(ui.serial_config(), Err(String::from("No Selected Port")));
    ui.update(Message::SelectedPort("tty1".into()));
    assert_eq!(ui.serial_config(), Ok(Config { port: "tty1".into(), baud_rate: 115200 }));
    ui.update(Message::BaudRateChanged("fast".into()));
    assert_eq!(ui.serial_config(), Err(String::from("invalid digit found in string")));
    assert_eq!(ui.last_message, "Baud rate changed");
    ui.update(Message::BaudRateChanged("".into()));
    assert_eq!(
        ui.serial_config(),
        Err(String::from("cannot parse integer from empty string"))
    );
}

#[test]
fn connect_saves_and_opens_once_ready() {
    let mut ui = Ui::new();
    ui.update(Message::SelectedPort("tty1".into()));
    match ui.update(Message::Connect) {
        UiEffect::SaveConfig { config, open } => {
            assert_eq!(config.port, "tty1");
            assert!(!open);
        }
        e => panic!("unexpected {e:?}"),
    }
    ui.update(Message::Worker(Event::Ready(1)));
    assert_eq!(ui.connection, Some(1));
    assert_eq!(ui.last_message, "Serial client ready");
    assert!(matches!(ui.update(Message::Connect), UiEffect::SaveConfig { open: true, .. }));
    assert!(matches!(ui.update(Message::ClosePort), UiEffect::Send(Input::ClosePort)));
}

#[test]
fn toggle_run_follows_the_reported_state() {
    let mut ui = Ui::new();
    assert!(matches!(ui.update(Message::ToggleRun), UiEffect::Nothing));
    assert_eq!(ui.last_message, "Serial client is not ready");
    ui.update(Message::Worker(Event::Ready(3)));
    assert!(matches!(ui.update(Message::ToggleRun), UiEffect::Nothing));
    ui.update(Message::Worker(Event::Response(Response::CyclicStatus { state: State::Idle })));
    assert!(matches!(ui.update(Message::ToggleRun), UiEffect::SendCommand(Command::Start)));
    ui.command_sent(Command::Start, true);
    assert_eq!(ui.last_message, "Sent Start");
    ui.update(Message::Worker(Event::Response(Response::CyclicStatus { state: State::Running })));
    assert!(matches!(ui.update(Message::ToggleRun), UiEffect::SendCommand(Command::Stop)));
    ui.command_sent(Command::Stop, false);
    assert_eq!(ui.last_message, "Serial command channel is full");
    assert_eq!(ui.connection, None);
}

#[test]
fn run_and_stop_need_a_connection() {
    let mut ui = Ui::new();
    ui.update(Message::Worker(Event::Ready(0)));
    assert!(matches!(ui.update(Message::Run), UiEffect::Nothing));
    ui.update(Message::Worker(Event::Status(Status::Connected {
        port: "tty1".into(),
        baud_rate: 9600,
    })));
    assert_eq!(ui.last_message, "Connected to tty1 at 9600 baud");
    assert_eq!(ui.connect_button(), ConnectButton::Disconnect);
    assert!(ui.shows_controls());
    assert!(matches!(
        ui.update(Message::Run),
        UiEffect::Send(Input::Command(Command::Start))
    ));
    assert!(matches!(
        ui.update(Message::Stop),
        UiEffect::Send(Input::Command(Command::Stop))
    ));
    ui.update(Message::Worker(Event::Status(Status::Connecting {
        port: "tty1".into(),
        baud_rate: 9600,
    })));
    assert_eq!(ui.connect_button(), ConnectButton::Connecting);
    ui.update(Message::Worker(Event::Response(Response::Ack)));
    assert_eq!(ui.last_message, "Device acknowledged command");
    ui.update(Message::Worker(Event::Error("boom".into())));
    assert_eq!(ui.last_message, "boom");
}

#[test]
fn stored_port_is_restored_when_available() {
    let mut ui = Ui::new();
    assert!(matches!(
        ui.update(Message::AvailablePorts(vec!["ttyA".into(), "ttyB".into()])),
        UiEffect::LoadConfig
    ));
    ui.restore_port(Some(Config { port: "ttyC".into(), baud_rate: 1 }));
    assert_eq!(ui.selected_port, None);
    ui.restore_port(Some(Config { port: "ttyB".into(), baud_rate: 1 }));
    assert_eq!(ui.selected_port, Some("ttyB".into()));
    ui.restore_port(Some(Config { port: "ttyA".into(), baud_rate: 1 }));
    assert_eq!(ui.selected_port, Some("ttyB".into()));
}
