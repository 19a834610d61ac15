//! Controller side of the serial link: assembling command frames from the
//! chunks that the UART delivers.
use vstd::prelude::*;
use crate::cobs::frame_of;
use crate::protocol::{
    command_payload, decode_frame, decoded, lemma_decode_encode, lemma_frame_shape, Command,
    MAX_FRAME,
};

verus! {

/// What a received chunk leads to.
#[derive(Debug, Clone, Copy, PartialEq, Eq, Structural)]
pub enum RxOutcome {
    /// The frame is not complete yet.
    Pending,
    /// The frame filled the buffer; it is dropped.
    Overflow,
    /// Too long passed since the previous chunk; the frame is dropped.
    Timeout,
    /// A complete frame carried this command.
    Command(Command),
    /// A complete frame did not decode.
    DecodeError,
}

/// What a chunk `data` received at `now` leads to, given the frame so far
/// and the time of the previous chunk.
pub open spec fn chunk_outcome(
    frame: Seq<u8>,
    last_chunk: Option<u64>,
    timeout: u64,
    data: Seq<u8>,
    now: u64,
) -> RxOutcome {
    let f = frame + data;
    if f.len() >= MAX_FRAME {
        RxOutcome::Overflow
    } else if last_chunk matches Some(t) && now - t > timeout {
        RxOutcome::Timeout
    } else if f.len() > 1 && f.last() == 0 {
        match decoded::<Command>(f) {
            Ok(c) => RxOutcome::Command(c),
            Err(_) => RxOutcome::DecodeError,
        }
    } else {
        RxOutcome::Pending
    }
}

/// The frame kept after a chunk: it grows while pending, and is dropped
/// on any other outcome.
pub open spec fn frame_after(
    frame: Seq<u8>,
    last_chunk: Option<u64>,
    timeout: u64,
    data: Seq<u8>,
    now: u64,
) -> Seq<u8> {
    if chunk_outcome(frame, last_chunk, timeout, data, now) is Pending {
        frame + data
    } else {
        Seq::<u8>::empty()
    }
}

/// Whatever arrives, the kept frame stays below `MAX_FRAME` bytes; a chunk
/// that would fill the buffer drops the frame without decoding it, and a
/// frame whose previous chunk is older than the timeout is dropped too.
pub proof fn lemma_rx_frame_bounded(
    frame: Seq<u8>,
    last_chunk: Option<u64>,
    timeout: u64,
    data: Seq<u8>,
    now: u64,
)
    requires
        frame.len() < MAX_FRAME,
    ensures
        frame_after(frame, last_chunk, timeout, data, now).len() < MAX_FRAME,
        (frame + data).len() >= MAX_FRAME ==> chunk_outcome(frame, last_chunk, timeout, data, now)
            == RxOutcome::Overflow && frame_after(frame, last_chunk, timeout, data, now)
            == Seq::<u8>::empty(),
        (frame + data).len() < MAX_FRAME && (last_chunk matches Some(t) && now - t > timeout)
            ==> chunk_outcome(frame, last_chunk, timeout, data, now) == RxOutcome::Timeout
            && frame_after(frame, last_chunk, timeout, data, now) == Seq::<u8>::empty(),
{
}

/// The frame being received, when its latest chunk arrived, and how long a
/// gap between chunks is tolerated (clock ticks).
pub struct RxFramer {
    frame: Vec<u8>,
    last_chunk: Option<u64>,
    timeout: u64,
}

impl RxFramer {
    pub closed spec fn frame(&self) -> Seq<u8> {
        self.frame@
    }

    pub closed spec fn last_chunk(&self) -> Option<u64> {
        self.last_chunk
    }

    pub closed spec fn timeout(&self) -> u64 {
        self.timeout
    }

    /// Between chunks the buffer always has room for at least one byte.
    pub open spec fn wf(&self) -> bool {
        self.frame().len() < MAX_FRAME
    }

    pub fn new(timeout: u64) -> (r: RxFramer)
        ensures
            r.wf(),
            r.frame() == Seq::<u8>::empty(),
            r.last_chunk() is None,
            r.timeout() == timeout,
    {
        RxFramer { frame: Vec::new(), last_chunk: None, timeout }
    }

    /// How many bytes the next read may deliver before the frame overflows.
    pub fn free_space(&self) -> (n: usize)
        requires
            self.wf(),
        ensures
            n == MAX_FRAME - self.frame().len(),
            n >= 1,
    {
        MAX_FRAME - self.frame.len()
    }

    fn reset(&mut self)
        ensures
            final(self).frame() == Seq::<u8>::empty(),
            final(self).last_chunk() is None,
            final(self).timeout() == old(self).timeout(),
    {
        self.frame.clear();
        self.last_chunk = None;
    }

    /// A read failed: the frame is dropped.
    pub fn on_error(&mut self)
        ensures
            final(self).wf(),
            final(self).frame() == Seq::<u8>::empty(),
            final(self).last_chunk() is None,
            final(self).timeout() == old(self).timeout(),
    {
        self.reset();
    }

    /// Appends a received chunk read at time `now`. A frame that reaches the
    /// buffer size is dropped; so is one whose previous chunk is more than
    /// the timeout old. Otherwise a chunk that ends in `0`, on a frame longer
    /// than one byte, completes the frame, which is decoded and dropped.
    pub fn on_data(&mut self, data: &[u8], now: u64) -> (r: RxOutcome)
        requires
            old(self).wf(),
            old(self).last_chunk() matches Some(t) ==> t <= now,
        ensures
            final(self).wf(),
            final(self).timeout() == old(self).timeout(),
            r == chunk_outcome(old(self).frame(), old(self).last_chunk(), old(self).timeout(), data@, now),
            final(self).frame() == frame_after(old(self).frame(), old(self).last_chunk(), old(self).timeout(), data@, now),
            r is Pending ==> final(self).last_chunk() == Some(now),
            !(r is Pending) ==> final(self).frame() == Seq::<u8>::empty()
                && final(self).last_chunk() is None,
    {
        let ghost f = self.frame@ + data@;
        let ghost start = self.frame@;
        let mut i: usize = 0;
        while i < data.len()
            invariant
                self.frame@ == start + data@.take(i as int),
                self.last_chunk == old(self).last_chunk,
                self.timeout == old(self).timeout,
                old(self).last_chunk() matches Some(t) ==> t <= now,
                i <= data@.len(),
            decreases data@.len() - i,
        {
            self.frame.push(data[i]);
            assert(data@.take(i + 1) =~= data@.take(i as int).push(data@[i as int]));
            i = i + 1;
        }
        assert(data@.take(data@.len() as int) =~= data@);
        let len = self.frame.len();
        if len > MAX_FRAME - 1 {
            self.reset();
            return RxOutcome::Overflow;
        }
        match self.last_chunk {
            Some(t) => {
                if now - t > self.timeout {
                    self.reset();
                    return RxOutcome::Timeout;
                }
            },
            None => {},
        }
        self.last_chunk = Some(now);
        if len > 1 && self.frame[len - 1] == 0 {
            let r = match decode_frame::<Command>(self.frame.as_mut_slice()) {
                Ok(c) => RxOutcome::Command(c),
                Err(_) => RxOutcome::DecodeError,
            };
            self.reset();
            return r;
        }
        RxOutcome::Pending
    }
}

/// A command frame that arrives whole in one chunk at an idle receiver is
/// delivered as that command.
pub proof fn lemma_receive_command(c: Command, timeout: u64, now: u64)
    ensures
        chunk_outcome(Seq::<u8>::empty(), None, timeout, frame_of(command_payload(c)), now)
            == RxOutcome::Command(c),
{
    lemma_frame_shape(c);
    lemma_decode_encode(c);
    assert(Seq::<u8>::empty() + frame_of(command_payload(c)) =~= frame_of(command_payload(c)));
}

/// A command frame split in two chunks is delivered when its second chunk
/// arrives within the timeout of the first; the first chunk alone completes
/// nothing.
pub proof fn lemma_receive_command_in_two_chunks(
    c: Command,
    k: int,
    timeout: u64,
    first: u64,
    second: u64,
)
    requires
        0 < k < frame_of(command_payload(c)).len(),
        first <= second,
        second - first <= timeout,
    ensures
        ({
            let f = frame_of(command_payload(c));
            &&& chunk_outcome(Seq::<u8>::empty(), None, timeout, f.take(k), first)
                == RxOutcome::Pending
            &&& chunk_outcome(f.take(k), Some(first), timeout, f.skip(k), second)
                == RxOutcome::Command(c)
        }),
{
    let f = frame_of(command_payload(c));
    lemma_frame_shape(c);
    lemma_decode_encode(c);
    assert(Seq::<u8>::empty() + f.take(k) =~= f.take(k));
    assert(f.take(k).last() == f.drop_last()[k - 1]);
    assert(f.take(k) + f.skip(k) =~= f);
}

} // verus!
