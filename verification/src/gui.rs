//! State and decisions of the operator interface; drawing the widgets and
//! talking to the worker are left to the program around it.
use vstd::prelude::*;
use vstd::string::*;
use crate::link::{status_label, Config, Event, Input, Status};
use crate::protocol::{Command, Response, State};
use crate::text::{int_error_message, parse_u32, parse_u32_spec, IntErrorKind};

verus! {

/// The operator interface; `C` is the handle to the link worker.
pub struct GFoc<C> {
    pub baud_rate: String,
    pub connection: Option<C>,
    pub serial_status: Status,
    pub last_message: String,
    pub available_ports: Vec<String>,
    pub selected_port: Option<String>,
    pub foc_status: Option<State>,
}

/// A user action or a report from the worker.
#[derive(Debug, Clone)]
pub enum Message<C> {
    BaudRateChanged(String),
    ToggleRun,
    Worker(Event<C>),
    AvailablePorts(Vec<String>),
    SelectedPort(String),
    Connect,
    ClosePort,
    Run,
    Stop,
}

/// What the surrounding program must do after an update.
#[derive(Debug)]
pub enum UiEffect {
    Nothing,
    /// Store the settings; when `open`, also ask the worker to open them.
    SaveConfig { config: Config, open: bool },
    /// Hand this request to the worker; its acceptance does not matter.
    Send(Input),
    /// Hand this command to the worker and report with [`GFoc::command_sent`]
    /// whether it was accepted.
    SendCommand(Command),
    /// Read the stored settings and report them with [`GFoc::restore_port`].
    LoadConfig,
}

/// The main connection button.
#[derive(Debug, Clone, Copy, PartialEq, Eq, Structural)]
pub enum ConnectButton {
    Disconnect,
    Connect,
    Connecting,
}

/// The settings the interface would open, or why it cannot.
pub open spec fn config_result(baud_rate: Seq<char>, selected: Option<String>) -> Result<
    (Seq<char>, u32),
    Seq<char>,
> {
    match parse_u32_spec(baud_rate) {
        Err(IntErrorKind::Empty) => Err("cannot parse integer from empty string"@),
        Err(IntErrorKind::InvalidDigit) => Err("invalid digit found in string"@),
        Err(IntErrorKind::PosOverflow) => Err("number too large to fit in target type"@),
        Ok(b) => match selected {
            Some(p) => Ok((p@, b)),
            None => Err("No Selected Port"@),
        },
    }
}

/// Debug text of a command.
pub open spec fn command_text(c: Command) -> Seq<char> {
    match c {
        Command::Start => "Start"@,
        Command::SetCyclic(true) => "SetCyclic(true)"@,
        Command::SetCyclic(false) => "SetCyclic(false)"@,
        Command::Stop => "Stop"@,
        Command::Status => "Status"@,
    }
}

pub fn command_debug(c: Command) -> (s: String)
    ensures
        s@ == command_text(c),
{
    match c {
        Command::Start => String::from_str("Start"),
        Command::SetCyclic(true) => String::from_str("SetCyclic(true)"),
        Command::SetCyclic(false) => String::from_str("SetCyclic(false)"),
        Command::Stop => String::from_str("Stop"),
        Command::Status => String::from_str("Status"),
    }
}

pub fn state_label(state: State) -> (s: &'static str)
    ensures
        s@ == (match state {
            State::Idle => "Idle"@,
            State::Running => "Running"@,
        }),
{
    match state {
        State::Idle => "Idle",
        State::Running => "Running",
    }
}

pub fn toggle_label(state: Option<State>) -> (s: &'static str)
    ensures
        s@ == (match state {
            Some(State::Running) => "Stop"@,
            _ => "Start"@,
        }),
{
    match state {
        Some(State::Running) => "Stop",
        _ => "Start",
    }
}

impl<C> GFoc<C> {
    pub fn new() -> (g: GFoc<C>)
        ensures
            g.baud_rate@ == "115200"@,
            g.connection is None,
            g.serial_status == Status::Disconnected,
            g.last_message@ == "Waiting for serial connection"@,
            g.available_ports@.len() == 0,
            g.selected_port is None,
            g.foc_status is None,
    {
        GFoc {
            baud_rate: String::from_str("115200"),
            connection: None,
            serial_status: Status::Disconnected,
            last_message: String::from_str("Waiting for serial connection"),
            available_ports: Vec::new(),
            selected_port: None,
            foc_status: None,
        }
    }

    /// The settings chosen in the interface: the parsed baud rate and the
    /// selected port.
    pub fn serial_config(&self) -> (r: Result<Config, String>)
        ensures
            match (r, config_result(self.baud_rate@, self.selected_port)) {
                (Ok(c), Ok((p, b))) => c.port@ == p && c.baud_rate == b,
                (Err(e), Err(m)) => e@ == m,
                _ => false,
            },
    {
        let baud_rate = match parse_u32(self.baud_rate.as_str()) {
            Ok(b) => b,
            Err(kind) => return Err(int_error_message(kind)),
        };
        match &self.selected_port {
            Some(port) => Ok(Config { port: port.clone(), baud_rate }),
            None => Err(String::from_str("No Selected Port")),
        }
    }

    /// Which connection button is shown.
    pub fn connect_button(&self) -> (b: ConnectButton)
        ensures
            b == (match self.serial_status {
                Status::Connected { .. } => ConnectButton::Disconnect,
                Status::Disconnected => ConnectButton::Connect,
                _ => ConnectButton::Connecting,
            }),
    {
        if self.serial_status.is_connected() {
            ConnectButton::Disconnect
        } else if let Status::Disconnected = self.serial_status {
            ConnectButton::Connect
        } else {
            ConnectButton::Connecting
        }
    }

    /// The run and stop controls are shown only while connected.
    pub fn shows_controls(&self) -> (b: bool)
        ensures
            b <==> self.serial_status is Connected,
    {
        self.serial_status.is_connected()
    }

    /// Applies one message and says what the surrounding program must do.
    pub fn update(&mut self, msg: Message<C>) -> (e: UiEffect)
        ensures
            final(self).available_ports@ == (match msg {
                Message::AvailablePorts(ports) => ports@,
                _ => old(self).available_ports@,
            }),
            final(self).baud_rate == (match msg {
                Message::BaudRateChanged(b) => b,
                _ => old(self).baud_rate,
            }),
            final(self).selected_port == (match msg {
                Message::SelectedPort(p) => Some(p),
                _ => old(self).selected_port,
            }),
            final(self).serial_status == (match msg {
                Message::Worker(Event::Status(s)) => s,
                _ => old(self).serial_status,
            }),
            final(self).foc_status == (match msg {
                Message::Worker(Event::Response(Response::CyclicStatus { state })) => Some(state),
                _ => old(self).foc_status,
            }),
            final(self).connection == (match msg {
                Message::BaudRateChanged(_) => None,
                Message::Worker(Event::Ready(c)) => Some(c),
                _ => old(self).connection,
            }),
            final(self).last_message@ == (match msg {
                Message::BaudRateChanged(_) => "Baud rate changed"@,
                Message::ToggleRun => if old(self).connection is None {
                    "Serial client is not ready"@
                } else {
                    old(self).last_message@
                },
                Message::Worker(Event::Ready(_)) => "Serial client ready"@,
                Message::Worker(Event::Status(s)) => status_label(s),
                Message::Worker(Event::Response(Response::Ack)) => "Device acknowledged command"@,
                Message::Worker(Event::Error(err)) => err@,
                _ => old(self).last_message@,
            }),
            match msg {
                Message::Connect => match (e, config_result(
                    old(self).baud_rate@,
                    old(self).selected_port,
                )) {
                    (UiEffect::SaveConfig { config, open }, Ok((p, b))) => config.port@ == p
                        && config.baud_rate == b && open == old(self).connection is Some,
                    (UiEffect::Nothing, Err(_)) => true,
                    _ => false,
                },
                Message::ClosePort => if old(self).connection is Some {
                    e == UiEffect::Send(Input::ClosePort)
                } else {
                    e is Nothing
                },
                Message::ToggleRun => if old(self).connection is Some && old(self).foc_status is Some {
                    e == UiEffect::SendCommand(
                        if old(self).foc_status == Some(State::Running) {
                            Command::Stop
                        } else {
                            Command::Start
                        },
                    )
                } else {
                    e is Nothing
                },
                Message::Run => if old(self).serial_status is Connected && old(self).connection is Some {
                    e == UiEffect::Send(Input::Command(Command::Start))
                } else {
                    e is Nothing
                },
                Message::Stop => if old(self).serial_status is Connected && old(self).connection is Some {
                    e == UiEffect::Send(Input::Command(Command::Stop))
                } else {
                    e is Nothing
                },
                Message::AvailablePorts(_) => e is LoadConfig,
                _ => e is Nothing,
            },
    {
        match msg {
            Message::BaudRateChanged(baud_rate) => {
                self.baud_rate = baud_rate;
                self.connection = None;
                self.last_message = String::from_str("Baud rate changed");
                UiEffect::Nothing
            },
            Message::Connect => {
                match self.serial_config() {
                    Ok(config) => UiEffect::SaveConfig { config, open: self.connection.is_some() },
                    Err(_) => UiEffect::Nothing,
                }
            },
            Message::ClosePort => {
                if self.connection.is_some() {
                    UiEffect::Send(Input::ClosePort)
                } else {
                    UiEffect::Nothing
                }
            },
            Message::ToggleRun => {
                if self.connection.is_none() {
                    self.last_message = String::from_str("Serial client is not ready");
                    return UiEffect::Nothing;
                }
                match self.foc_status {
                    None => UiEffect::Nothing,
                    Some(State::Running) => UiEffect::SendCommand(Command::Stop),
                    Some(State::Idle) => UiEffect::SendCommand(Command::Start),
                }
            },
            Message::AvailablePorts(ports) => {
                self.available_ports = ports;
                UiEffect::LoadConfig
            },
            Message::SelectedPort(port) => {
                self.selected_port = Some(port);
                UiEffect::Nothing
            },
            Message::Run => {
                if self.serial_status.is_connected() && self.connection.is_some() {
                    UiEffect::Send(Input::Command(Command::Start))
                } else {
                    UiEffect::Nothing
                }
            },
            Message::Stop => {
                if self.serial_status.is_connected() && self.connection.is_some() {
                    UiEffect::Send(Input::Command(Command::Stop))
                } else {
                    UiEffect::Nothing
                }
            },
            Message::Worker(event) => {
                match event {
                    Event::Ready(connection) => {
                        self.connection = Some(connection);
                        self.last_message = String::from_str("Serial client ready");
                    },
                    Event::Status(status) => {
                        self.last_message = status.label();
                        self.serial_status = status;
                    },
                    Event::Response(Response::CyclicStatus { state }) => {
                        self.foc_status = Some(state);
                    },
                    Event::Response(Response::Ack) => {
                        self.last_message = String::from_str("Device acknowledged command");
                    },
                    Event::Error(error) => {
                        self.last_message = error;
                    },
                }
                UiEffect::Nothing
            },
        }
    }

    /// Reports whether the worker accepted a command asked for by
    /// [`UiEffect::SendCommand`]; a refusal drops the worker handle.
    pub fn command_sent(&mut self, command: Command, accepted: bool)
        ensures
            accepted ==> final(self).last_message@ == "Sent "@ + command_text(command)
                && final(self).connection == old(self).connection,
            !accepted ==> final(self).last_message@ == "Serial command channel is full"@
                && final(self).connection is None,
            final(self).baud_rate == old(self).baud_rate,
            final(self).serial_status == old(self).serial_status,
            final(self).available_ports == old(self).available_ports,
            final(self).selected_port == old(self).selected_port,
            final(self).foc_status == old(self).foc_status,
    {
        if accepted {
            let mut m = String::from_str("Sent ");
            let text = command_debug(command);
            m.append(text.as_str());
            self.last_message = m;
        } else {
            self.connection = None;
            self.last_message = String::from_str("Serial command channel is full");
        }
    }

    /// With no port selected yet, selects the stored port when it is among
    /// the available ones.
    pub fn restore_port(&mut self, saved: Option<Config>)
        ensures
            final(self).baud_rate == old(self).baud_rate,
            final(self).connection == old(self).connection,
            final(self).serial_status == old(self).serial_status,
            final(self).last_message == old(self).last_message,
            final(self).available_ports == old(self).available_ports,
            final(self).foc_status == old(self).foc_status,
            match (old(self).selected_port, saved) {
                (None, Some(c)) => if exists|i: int|
                    0 <= i < old(self).available_ports@.len()
                        && #[trigger] old(self).available_ports@[i]@ == c.port@ {
                    final(self).selected_port matches Some(p) && p@ == c.port@
                } else {
                    final(self).selected_port is None
                },
                _ => final(self).selected_port == old(self).selected_port,
            },
    {
        if self.selected_port.is_some() {
            return;
        }
        let config = match saved {
            Some(c) => c,
            None => return,
        };
        let n = self.available_ports.len();
        let mut i: usize = 0;
        while i < n
            invariant
                n == self.available_ports@.len(),
                i <= n,
                self.baud_rate == old(self).baud_rate,
                self.connection == old(self).connection,
                self.serial_status == old(self).serial_status,
                self.last_message == old(self).last_message,
                self.available_ports == old(self).available_ports,
                self.foc_status == old(self).foc_status,
                self.selected_port is None,
                old(self).selected_port is None,
                saved == Some(config),
                forall|j: int| 0 <= j < i ==> self.available_ports@[j]@ != config.port@,
            decreases n - i,
        {
            if self.available_ports[i] == config.port {
                let p = self.available_ports[i].clone();
                assert(old(self).available_ports@[i as int]@ == config.port@);
                self.selected_port = Some(p);
                return;
            }
            i = i + 1;
        }
    }
}

} // verus!
