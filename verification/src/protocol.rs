//! Messages exchanged between the host and the motor controller, and their
//! framed wire encoding.
//!
//! A message is laid out as its variant index (an unsigned LEB128 varint of at
//! most five bytes, the last holding at most four bits) followed by its
//! fields (`bool` as one byte `0` or `1`); the bytes are then stuffed and
//! terminated by `0` (see [`crate::cobs`]). Bytes after a complete message
//! are ignored when decoding.
use vstd::prelude::*;
use vstd::slice::slice_subrange;
use crate::cobs::{
    code_index_of, frame_cut, frame_of, lemma_unframe_frame, stuff_bytes, unframe,
    unframe_in_place, unframed_in_place, zero_free,
};

verus! {

/// Largest frame, sentinel included, that either side buffers.
pub const MAX_FRAME: usize = 256;

/// A request from the host to the controller.
#[derive(Debug, Clone, Copy, PartialEq, Eq, Structural)]
pub enum Command {
    Start,
    SetCyclic(bool),
    Stop,
    Status,
}

/// Whether the controller is driving the motor.
#[derive(Debug, Clone, Copy, PartialEq, Eq, Structural)]
pub enum State {
    Idle,
    Running,
}

/// The controller's answer to a [`Command`].
#[derive(Debug, Clone, Copy, PartialEq, Eq, Structural)]
pub enum Response {
    CyclicStatus { state: State },
    Ack,
}

/// Failure to produce or to read a frame.
#[derive(Debug, Clone, Copy, PartialEq, Eq, Structural)]
pub enum ProtocolError {
    Encode,
    Decode,
}

/// Exclusive upper bound of a varint whose first byte is at offset `i`.
pub open spec fn varint_cap(i: int) -> int {
    if i == 4 {
        16
    } else if i == 3 {
        2048
    } else if i == 2 {
        262144
    } else if i == 1 {
        33554432
    } else {
        4294967296
    }
}

/// Reads the unsigned varint that starts at byte `i` (0 <= i < 5) of a
/// varint beginning at index 0 of `d`: the value and the index just past it.
pub open spec fn varint_at(d: Seq<u8>, i: int) -> Option<(int, int)>
    decreases 5 - i,
{
    if i < 0 || i >= 5 || i >= d.len() {
        None
    } else if d[i] < 128 {
        if i == 4 && d[i] > 15 {
            None
        } else {
            Some((d[i] as int, i + 1))
        }
    } else {
        match varint_at(d, i + 1) {
            Some((v, n)) => Some((d[i] - 128 + 128 * v, n)),
            None => None,
        }
    }
}

/// The value of the varint at the start of `d` and its length.
pub open spec fn varint(d: Seq<u8>) -> Option<(int, int)> {
    varint_at(d, 0)
}

/// The byte that stands for a `bool`.
pub open spec fn bool_byte(b: bool) -> u8 {
    if b { 1 } else { 0 }
}

pub open spec fn command_payload(c: Command) -> Seq<u8> {
    match c {
        Command::Start => seq![0u8],
        Command::SetCyclic(b) => seq![1u8, bool_byte(b)],
        Command::Stop => seq![2u8],
        Command::Status => seq![3u8],
    }
}

pub open spec fn state_payload(s: State) -> Seq<u8> {
    match s {
        State::Idle => seq![0u8],
        State::Running => seq![1u8],
    }
}

pub open spec fn response_payload(r: Response) -> Seq<u8> {
    match r {
        Response::CyclicStatus { state } => seq![0u8] + state_payload(state),
        Response::Ack => seq![1u8],
    }
}

pub open spec fn parse_command(d: Seq<u8>) -> Option<Command> {
    match varint(d) {
        None => None,
        Some((v, n)) => if v == 0 {
            Some(Command::Start)
        } else if v == 1 {
            if n < d.len() && d[n] == 0 {
                Some(Command::SetCyclic(false))
            } else if n < d.len() && d[n] == 1 {
                Some(Command::SetCyclic(true))
            } else {
                None
            }
        } else if v == 2 {
            Some(Command::Stop)
        } else if v == 3 {
            Some(Command::Status)
        } else {
            None
        },
    }
}

pub open spec fn parse_state(d: Seq<u8>) -> Option<State> {
    match varint(d) {
        Some((v, _)) => if v == 0 {
            Some(State::Idle)
        } else if v == 1 {
            Some(State::Running)
        } else {
            None
        },
        None => None,
    }
}

pub open spec fn parse_response(d: Seq<u8>) -> Option<Response> {
    match varint(d) {
        None => None,
        Some((v, n)) => if v == 0 {
            match parse_state(d.skip(n)) {
                Some(state) => Some(Response::CyclicStatus { state }),
                None => None,
            }
        } else if v == 1 {
            Some(Response::Ack)
        } else {
            None
        },
    }
}

/// Reads the varint that starts at byte `i` of `d`.
fn read_varint(d: &[u8], i: usize) -> (r: Option<(u64, usize)>)
    requires
        i < 5,
    ensures
        match r {
            Some((v, n)) => varint_at(d@, i as int) == Some((v as int, n as int)),
            None => varint_at(d@, i as int) is None,
        },
        r matches Some((v, n)) ==> v < varint_cap(i as int) && i < n <= 5 && n <= d@.len(),
    decreases 5 - i,
{
    if i >= d.len() {
        return None;
    }
    let b = d[i];
    if b < 128 {
        if i == 4 && b > 15 {
            None
        } else {
            Some((b as u64, i + 1))
        }
    } else if i == 4 {
        None
    } else {
        match read_varint(d, i + 1) {
            Some((v, n)) => Some(((b - 128) as u64 + 128 * v, n)),
            None => None,
        }
    }
}

/// A message with a wire layout.
pub trait WireMessage: Sized {
    /// The bytes that stand for the message, before stuffing.
    spec fn spec_payload(self) -> Seq<u8>;

    /// The message that a payload stands for, if any.
    spec fn spec_parse(payload: Seq<u8>) -> Option<Self>;

    fn payload(&self) -> (p: Vec<u8>)
        ensures
            p@ == self.spec_payload(),
    ;

    fn parse(payload: &[u8]) -> (r: Option<Self>)
        ensures
            r == Self::spec_parse(payload@),
    ;

    /// Every message has a payload of at most two bytes, and parsing it gives
    /// the message back.
    proof fn lemma_parse_payload(self)
        ensures
            Self::spec_parse(self.spec_payload()) == Some(self),
            1 <= self.spec_payload().len() <= 2,
    ;
}

impl WireMessage for Command {
    open spec fn spec_payload(self) -> Seq<u8> {
        command_payload(self)
    }

    open spec fn spec_parse(payload: Seq<u8>) -> Option<Command> {
        parse_command(payload)
    }

    fn payload(&self) -> (p: Vec<u8>) {
        let p = match self {
            Command::Start => vec![0u8],
            Command::SetCyclic(b) => vec![1u8, if *b { 1u8 } else { 0u8 }],
            Command::Stop => vec![2u8],
            Command::Status => vec![3u8],
        };
        assert(p@ =~= command_payload(*self));
        p
    }

    fn parse(payload: &[u8]) -> (r: Option<Command>) {
        match read_varint(payload, 0) {
            None => None,
            Some((v, n)) => {
                if v == 0 {
                    Some(Command::Start)
                } else if v == 1 {
                    if n < payload.len() && payload[n] == 0 {
                        Some(Command::SetCyclic(false))
                    } else if n < payload.len() && payload[n] == 1 {
                        Some(Command::SetCyclic(true))
                    } else {
                        None
                    }
                } else if v == 2 {
                    Some(Command::Stop)
                } else if v == 3 {
                    Some(Command::Status)
                } else {
                    None
                }
            },
        }
    }

    proof fn lemma_parse_payload(self) {
        let p = command_payload(self);
        assert(varint_at(p, 0) == Some((p[0] as int, 1int)));
    }
}

fn parse_state_bytes(d: &[u8]) -> (r: Option<State>)
    ensures
        r == parse_state(d@),
{
    match read_varint(d, 0) {
        Some((v, _)) => {
            if v == 0 {
                Some(State::Idle)
            } else if v == 1 {
                Some(State::Running)
            } else {
                None
            }
        },
        None => None,
    }
}

impl WireMessage for Response {
    open spec fn spec_payload(self) -> Seq<u8> {
        response_payload(self)
    }

    open spec fn spec_parse(payload: Seq<u8>) -> Option<Response> {
        parse_response(payload)
    }

    fn payload(&self) -> (p: Vec<u8>) {
        let p = match self {
            Response::CyclicStatus { state: State::Idle } => vec![0u8, 0u8],
            Response::CyclicStatus { state: State::Running } => vec![0u8, 1u8],
            Response::Ack => vec![1u8],
        };
        assert(p@ =~= response_payload(*self));
        p
    }

    fn parse(payload: &[u8]) -> (r: Option<Response>) {
        match read_varint(payload, 0) {
            None => None,
            Some((v, n)) => {
                if v == 0 {
                    let rest = slice_subrange(payload, n, payload.len());
                    assert(rest@ =~= payload@.skip(n as int));
                    match parse_state_bytes(rest) {
                        Some(state) => Some(Response::CyclicStatus { state }),
                        None => None,
                    }
                } else if v == 1 {
                    Some(Response::Ack)
                } else {
                    None
                }
            },
        }
    }

    proof fn lemma_parse_payload(self) {
        let p = response_payload(self);
        assert(varint_at(p, 0) == Some((p[0] as int, 1int)));
        match self {
            Response::CyclicStatus { state } => {
                assert(p.skip(1) =~= state_payload(state));
                assert(varint_at(p.skip(1), 0) == Some((p[1] as int, 1int)));
            },
            Response::Ack => {},
        }
    }
}

/// The outcome of [`decode_frame`] on a received frame.
pub open spec fn decoded<T: WireMessage>(frame: Seq<u8>) -> Result<T, ProtocolError> {
    match unframe(frame) {
        Some(p) => match T::spec_parse(p) {
            Some(m) => Ok(m),
            None => Err(ProtocolError::Decode),
        },
        None => Err(ProtocolError::Decode),
    }
}

/// Writes the frame of `value` at the start of `out` and returns its length.
/// When `out` is too short the frame is written as far as it fits, as a
/// streaming encoder leaves it (see [`frame_cut`]), and the result is
/// [`ProtocolError::Encode`].
pub fn encode_frame<T: WireMessage>(value: &T, out: &mut [u8]) -> (r: Result<usize, ProtocolError>)
    ensures
        final(out)@.len() == old(out)@.len(),
        frame_of(value.spec_payload()).len() <= old(out)@.len() ==> r == Ok::<usize, ProtocolError>(
            frame_of(value.spec_payload()).len() as usize,
        ),
        old(out)@.len() < frame_of(value.spec_payload()).len() ==> r == Err::<usize, ProtocolError>(
            ProtocolError::Encode,
        ),
        r is Ok ==> final(out)@ == frame_of(value.spec_payload()) + old(out)@.skip(
            frame_of(value.spec_payload()).len() as int,
        ),
        r is Err ==> final(out)@ == frame_cut(value.spec_payload(), old(out)@.len() as int),
{
    let payload = value.payload();
    proof {
        value.lemma_parse_payload();
        lemma_unframe_frame(value.spec_payload());
    }
    let stuffed = stuff_bytes(payload.as_slice());
    let total = stuffed.len() + 1;
    let ghost before = out@;
    let ghost frame = frame_of(value.spec_payload());
    assert(frame =~= stuffed@ + seq![0u8]);
    if out.len() < total {
        let n = out.len();
        let mut i: usize = 0;
        while i < n
            invariant
                n == out@.len(),
                n < total,
                total == stuffed@.len() + 1,
                i <= n,
                forall|j: int| 0 <= j < i ==> out@[j] == stuffed@[j],
            decreases n - i,
        {
            out[i] = stuffed[i];
            i = i + 1;
        }
        assert(out@ =~= frame.take(n as int));
        if 1 <= n && n <= payload.len() && payload[n - 1] != 0 {
            let c = code_index_of(payload.as_slice(), n - 1);
            out[c] = 0;
        }
        assert(out@ =~= frame_cut(value.spec_payload(), n as int));
        return Err(ProtocolError::Encode);
    }
    let mut i: usize = 0;
    while i < stuffed.len()
        invariant
            total == stuffed@.len() + 1,
            total <= out@.len(),
            out@.len() == before.len(),
            i <= stuffed@.len(),
            forall|j: int| 0 <= j < i ==> out@[j] == stuffed@[j],
            forall|j: int| i <= j < out@.len() ==> out@[j] == before[j],
        decreases stuffed@.len() - i,
    {
        out[i] = stuffed[i];
        i = i + 1;
    }
    out[i] = 0;
    assert(out@ =~= frame_of(value.spec_payload()) + before.skip(total as int));
    Ok(total)
}

/// Reads the message that a frame carries; any malformed frame is a
/// [`ProtocolError::Decode`]. The frame is decoded in place: the decoded
/// bytes, as far as decoding went, are written over the start of the buffer.
pub fn decode_frame<T: WireMessage>(frame: &mut [u8]) -> (r: Result<T, ProtocolError>)
    ensures
        final(frame)@ == unframed_in_place(old(frame)@),
        final(frame)@.len() == old(frame)@.len(),
        r == decoded::<T>(old(frame)@),
{
    match unframe_in_place(frame) {
        Some(n) => {
            let p = slice_subrange(frame, 0, n);
            match T::parse(p) {
                Some(m) => Ok(m),
                None => Err(ProtocolError::Decode),
            }
        },
        None => Err(ProtocolError::Decode),
    }
}

/// What a frame gives back of what was written: decoding the frame of a
/// message yields that message.
pub proof fn lemma_decode_encode<T: WireMessage>(value: T)
    ensures
        decoded::<T>(frame_of(value.spec_payload())) == Ok::<T, ProtocolError>(value),
{
    value.lemma_parse_payload();
    lemma_unframe_frame(value.spec_payload());
}

/// Every frame is at most four bytes long, ends in its only `0`, and fits the
/// buffers of both sides.
pub proof fn lemma_frame_shape<T: WireMessage>(value: T)
    ensures
        3 <= frame_of(value.spec_payload()).len() <= 4,
        frame_of(value.spec_payload()).len() <= MAX_FRAME,
        frame_of(value.spec_payload()).last() == 0,
        zero_free(frame_of(value.spec_payload()).drop_last()),
{
    value.lemma_parse_payload();
    lemma_unframe_frame(value.spec_payload());
}

/// Different messages have different frames.
pub proof fn lemma_frames_distinct<T: WireMessage>(a: T, b: T)
    requires
        a != b,
    ensures
        frame_of(a.spec_payload()) != frame_of(b.spec_payload()),
{
    lemma_decode_encode(a);
    lemma_decode_encode(b);
}

} // verus!
