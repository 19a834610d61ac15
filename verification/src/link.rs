//! Host side of the serial link: connection settings and status, reassembly
//! of response frames from the byte stream, and the decisions of the link
//! worker.
use vstd::prelude::*;
use vstd::string::*;
use crate::cobs::{frame_of, unframed_in_place};
use crate::protocol::{
    decode_frame, decoded, lemma_frame_shape, response_payload, Command, ProtocolError,
    Response, WireMessage, MAX_FRAME,
};
use crate::text::{decimal, push_decimal};

verus! {

/// Serial port settings.
#[derive(Debug, Clone, PartialEq, Eq, Hash)]
pub struct Config {
    pub port: String,
    pub baud_rate: u32,
}

/// The serial transport; the link worker opens it from a [`Config`].
pub struct Serial;

/// State of the serial connection as shown to the user.
#[derive(Debug, Clone, PartialEq, Eq)]
pub enum Status {
    Disconnected,
    Connecting { port: String, baud_rate: u32 },
    Connected { port: String, baud_rate: u32 },
    Reconnecting { port: String, reason: String },
}

/// The text shown for a connection status.
pub open spec fn status_label(s: Status) -> Seq<char> {
    match s {
        Status::Disconnected => "Disconnected"@,
        Status::Connecting { port, baud_rate } => "Connecting to "@ + port@ + " at "@ + decimal(
            baud_rate as nat,
        ) + " baud"@,
        Status::Connected { port, baud_rate } => "Connected to "@ + port@ + " at "@ + decimal(
            baud_rate as nat,
        ) + " baud"@,
        Status::Reconnecting { port, reason } => "Reconnecting to "@ + port@ + ": "@ + reason@,
    }
}

impl Status {
    pub fn is_connected(&self) -> (b: bool)
        ensures
            b <==> self is Connected,
    {
        match self {
            Status::Connected { .. } => true,
            _ => false,
        }
    }

    pub fn label(&self) -> (s: String)
        ensures
            s@ == status_label(*self),
    {
        match self {
            Status::Disconnected => String::from_str("Disconnected"),
            Status::Connecting { port, baud_rate } => {
                let mut s = String::from_str("Connecting to ");
                s.append(port.as_str());
                s.append(" at ");
                push_decimal(&mut s, *baud_rate);
                s.append(" baud");
                s
            },
            Status::Connected { port, baud_rate } => {
                let mut s = String::from_str("Connected to ");
                s.append(port.as_str());
                s.append(" at ");
                push_decimal(&mut s, *baud_rate);
                s.append(" baud");
                s
            },
            Status::Reconnecting { port, reason } => {
                let mut s = String::from_str("Reconnecting to ");
                s.append(port.as_str());
                s.append(": ");
                s.append(reason.as_str());
                s
            },
        }
    }
}

/// A request to the link worker.
#[derive(Debug, Clone)]
pub enum Input {
    Command(Command),
    ClosePort,
    OpenPort(Config),
}

/// What the link worker reports; `C` is the handle through which the user
/// interface reaches the worker.
#[derive(Debug, Clone)]
pub enum Event<C> {
    Ready(C),
    Status(Status),
    Response(Response),
    Error(String),
}

pub open spec fn decode_failed_message() -> Seq<char> {
    "failed to decode response frame: Decode"@
}

pub open spec fn oversize_message() -> Seq<char> {
    "response frame exceeded maximum size"@
}

/// The frame buffer after one received byte.
pub open spec fn rx_next(frame: Seq<u8>, byte: u8) -> Seq<u8> {
    if byte == 0 {
        if frame.len() == 0 {
            frame
        } else {
            Seq::<u8>::empty()
        }
    } else if frame.len() >= MAX_FRAME - 1 {
        Seq::<u8>::empty()
    } else {
        frame.push(byte)
    }
}

/// What one received byte completes: nothing, a response, or an error text.
pub open spec fn rx_out(frame: Seq<u8>, byte: u8) -> Option<Result<Response, Seq<char>>> {
    if byte == 0 {
        if frame.len() == 0 {
            None
        } else {
            match decoded::<Response>(frame.push(0)) {
                Ok(r) => Some(Ok(r)),
                Err(_) => Some(Err(decode_failed_message())),
            }
        }
    } else if frame.len() >= MAX_FRAME - 1 {
        Some(Err(oversize_message()))
    } else {
        None
    }
}

pub open spec fn out_view(r: Option<Result<Response, String>>) -> Option<
    Result<Response, Seq<char>>,
> {
    match r {
        None => None,
        Some(Ok(x)) => Some(Ok(x)),
        Some(Err(e)) => Some(Err(e@)),
    }
}

/// Feeds one byte of the response stream into the frame being assembled.
/// A `0` ends the frame (an empty frame is skipped); a frame that would
/// exceed the buffer is dropped with an error.
pub fn receive_byte(byte: u8, frame: &mut Vec<u8>) -> (r: Option<Result<Response, String>>)
    ensures
        final(frame)@ == rx_next(old(frame)@, byte),
        out_view(r) == rx_out(old(frame)@, byte),
{
    if byte == 0 {
        if frame.len() == 0 {
            return None;
        }
        frame.push(0);
        let result = match decode_frame::<Response>(frame.as_mut_slice()) {
            Ok(response) => Ok(response),
            Err(_) => Err(String::from_str("failed to decode response frame: Decode")),
        };
        frame.clear();
        return Some(result);
    }
    if frame.len() >= MAX_FRAME - 1 {
        frame.clear();
        return Some(Err(String::from_str("response frame exceeded maximum size")));
    }
    frame.push(byte);
    None
}

/// Byte by byte, the frame of a response is assembled and decoded: every
/// byte but the last completes nothing, and the closing `0` yields the
/// response and empties the buffer.
pub proof fn lemma_receive_frame(r: Response)
    ensures
        ({
            let f = frame_of(response_payload(r));
            &&& forall|i: int|
                0 <= i < f.len() - 1 ==> rx_next(#[trigger] f.take(i), f[i]) == f.take(i + 1)
                    && rx_out(f.take(i), f[i]) is None
            &&& rx_out(f.drop_last(), f.last()) == Some(Ok::<Response, Seq<char>>(r))
            &&& rx_next(f.drop_last(), f.last()) == Seq::<u8>::empty()
        }),
{
    let f = frame_of(response_payload(r));
    lemma_frame_shape(r);
    crate::protocol::lemma_decode_encode(r);
    assert forall|i: int| 0 <= i < f.len() - 1 implies rx_next(#[trigger] f.take(i), f[i])
        == f.take(i + 1) && rx_out(f.take(i), f[i]) is None by {
        assert(f[i] == f.drop_last()[i]);
        assert(f.take(i).push(f[i]) =~= f.take(i + 1));
    }
    assert(f.drop_last().push(0) =~= f);
}

/// Between bytes the frame buffer always holds fewer than `MAX_FRAME` bytes.
pub proof fn lemma_rx_bounded(frame: Seq<u8>, byte: u8)
    requires
        frame.len() < MAX_FRAME,
    ensures
        rx_next(frame, byte).len() < MAX_FRAME,
{
}

/// Assembles one response from a transport that delivers a byte at a time.
pub struct ResponseReader {
    frame: Vec<u8>,
}

impl ResponseReader {
    /// The bytes received so far.
    pub closed spec fn received(&self) -> Seq<u8> {
        self.frame@
    }

    pub closed spec fn wf(&self) -> bool {
        self.frame@.len() <= MAX_FRAME
    }

    pub fn new() -> (r: ResponseReader)
        ensures
            r.wf(),
            r.received() == Seq::<u8>::empty(),
    {
        ResponseReader { frame: Vec::new() }
    }

    /// The buffer holds a whole frame's worth of bytes without a `0`.
    pub fn is_full(&self) -> (b: bool)
        requires
            self.wf(),
        ensures
            b <==> self.received().len() == MAX_FRAME,
    {
        self.frame.len() == MAX_FRAME
    }

    /// Takes the next byte; the `0` that ends a frame yields the decoded
    /// response (the frame is decoded in place), any other byte is kept.
    pub fn accept(&mut self, byte: u8) -> (r: Option<Result<Response, ProtocolError>>)
        requires
            old(self).wf(),
            old(self).received().len() < MAX_FRAME,
        ensures
            final(self).wf(),
            byte != 0 ==> final(self).received() == old(self).received().push(byte),
            byte == 0 ==> final(self).received() == unframed_in_place(
                old(self).received().push(byte),
            ),
            byte != 0 ==> r is None,
            byte == 0 ==> r == Some(decoded::<Response>(old(self).received().push(byte))),
    {
        self.frame.push(byte);
        if byte == 0 {
            Some(decode_frame::<Response>(self.frame.as_mut_slice()))
        } else {
            None
        }
    }
}

/// The link worker's state: whether a transport is open, and the last
/// settings it was asked to open.
pub struct Worker {
    pub connected: bool,
    pub config: Option<Config>,
}

/// What the worker does for a request.
#[derive(Debug)]
pub enum WorkerStep {
    /// Report [`Status::Disconnected`] and drop the transport.
    Disconnect,
    /// Try to open a transport with these settings.
    Open(Config),
    /// Send this command and wait for the answer.
    Transact(Command),
    /// Nothing to do.
    Ignore,
}

impl Worker {
    pub fn new_with_config(config: Option<Config>) -> (w: Worker)
        ensures
            !w.connected,
            w.config == config,
    {
        Worker { connected: false, config }
    }

    /// The command sent at every status poll: `Status`, when connected.
    pub fn on_poll(&self) -> (c: Option<Command>)
        ensures
            c == (if self.connected { Some(Command::Status) } else { None::<Command> }),
    {
        if self.connected {
            Some(Command::Status)
        } else {
            None
        }
    }

    /// Decides what a request asks of the worker.
    pub fn on_input(&mut self, input: Input) -> (s: WorkerStep)
        ensures
            match input {
                Input::ClosePort => s is Disconnect && !final(self).connected
                    && final(self).config == old(self).config,
                Input::OpenPort(config) => s == WorkerStep::Open(config) && *final(self) == *old(
                    self,
                ),
                Input::Command(cmd) => *final(self) == *old(self) && (if old(self).connected {
                    s == WorkerStep::Transact(cmd)
                } else {
                    s is Ignore
                }),
            },
    {
        match input {
            Input::ClosePort => {
                self.connected = false;
                WorkerStep::Disconnect
            },
            Input::OpenPort(config) => WorkerStep::Open(config),
            Input::Command(cmd) => {
                if self.connected {
                    WorkerStep::Transact(cmd)
                } else {
                    WorkerStep::Ignore
                }
            },
        }
    }

    /// Records the outcome of opening a transport; a success is reported as
    /// [`Status::Connected`].
    pub fn on_open<C>(&mut self, config: Config, opened: bool) -> (e: Option<Event<C>>)
        ensures
            final(self).config == Some(config),
            final(self).connected == (old(self).connected || opened),
            opened ==> e == Some(
                Event::<C>::Status(
                    Status::Connected { port: config.port, baud_rate: config.baud_rate },
                ),
            ),
            !opened ==> e is None,
    {
        let port = config.port.clone();
        let baud_rate = config.baud_rate;
        self.config = Some(config);
        if opened {
            self.connected = true;
            Some(Event::Status(Status::Connected { port, baud_rate }))
        } else {
            None
        }
    }
}

/// The event that reports the outcome of a command exchange.
pub fn reply_event<C>(result: Result<Response, String>) -> (e: Event<C>)
    ensures
        match result {
            Ok(r) => e == Event::<C>::Response(r),
            Err(s) => e == Event::<C>::Error(s),
        },
{
    match result {
        Ok(r) => Event::Response(r),
        Err(s) => Event::Error(s),
    }
}

} // verus!
