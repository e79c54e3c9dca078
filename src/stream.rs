//! Incremental decoding of a byte stream into messages.
//!
//! Bytes are handed to the stream as they arrive; each request for a message makes frame
//! attempts on the bytes held so far and drops the bytes that the attempts used up.
use vstd::prelude::*;

use crate::message::{spec_body, MessageBody};
use crate::protocol::{
    frame_result_view, garbage_len, spec_read_frame, Frame, FrameConfig, FrameHeader, LdError,
};

verus! {

/// What the stream does with a frame that fails to decode.
#[derive(Debug, Clone, Copy, PartialEq, Eq, Structural)]
pub enum StreamMode {
    /// Every failed attempt is handed to the caller as an error.
    Strict,
    /// Failed attempts are dropped and the next frame is tried.
    Lenient,
}

/// The message that a frame attempt's outcome gives.
pub open spec fn spec_frame_body<E>(r: Result<(FrameHeader, Seq<u8>), LdError<E>>) -> Result<MessageBody, LdError<E>> {
    match r {
        Ok(f) => spec_body::<E>(f.0.ty, f.1),
        Err(e) => Err(e),
    }
}

/// The next item of the stream held in `s`, and the bytes that remain after it.
///
/// `None` means that more bytes are needed.
pub open spec fn spec_next<E>(s: Seq<u8>, cfg: FrameConfig, mode: StreamMode) -> (Option<Result<MessageBody, LdError<E>>>, Seq<u8>)
    decreases s.len(),
{
    let rc = spec_read_frame::<E>(s, cfg);
    let rest = s.skip(rc.1 as int);
    if rc.0 == Err::<(FrameHeader, Seq<u8>), LdError<E>>(LdError::Eof) {
        (None, rest)
    } else {
        let out = spec_frame_body(rc.0);
        if mode == StreamMode::Strict || out is Ok {
            (Some(out), rest)
        } else if 0 < rc.1 <= s.len() {
            spec_next::<E>(rest, cfg, mode)
        } else {
            (None, rest)
        }
    }
}

proof fn lemma_garbage_len_bound(s: Seq<u8>)
    ensures
        garbage_len(s) <= s.len(),
    decreases s.len(),
{
    if s.len() > 0 {
        lemma_garbage_len_bound(s.drop_first());
    }
}

/// A frame attempt never uses more bytes than it was given, and one that does not end for
/// want of bytes uses at least one.
pub proof fn lemma_read_progress<E>(s: Seq<u8>, cfg: FrameConfig)
    ensures
        spec_read_frame::<E>(s, cfg).1 <= s.len(),
        spec_read_frame::<E>(s, cfg).0 != Err::<(FrameHeader, Seq<u8>), LdError<E>>(LdError::Eof)
            ==> spec_read_frame::<E>(s, cfg).1 > 0,
{
    lemma_garbage_len_bound(s);
}

/// A decoder fed with bytes, yielding messages.
pub struct MessageStream {
    pending: Vec<u8>,
    config: FrameConfig,
    mode: StreamMode,
}

impl View for MessageStream {
    type V = Seq<u8>;

    /// The bytes received and not yet used up.
    closed spec fn view(&self) -> Seq<u8> {
        self.pending@
    }
}

impl MessageStream {
    pub closed spec fn spec_config(&self) -> FrameConfig {
        self.config
    }

    pub closed spec fn spec_mode(&self) -> StreamMode {
        self.mode
    }

    /// An empty stream.
    pub fn new(config: FrameConfig, mode: StreamMode) -> (r: MessageStream)
        ensures
            r@ == Seq::<u8>::empty(),
            r.spec_config() == config,
            r.spec_mode() == mode,
    {
        MessageStream { pending: Vec::new(), config, mode }
    }

    /// Hands one received byte to the stream.
    pub fn push(&mut self, byte: u8)
        ensures
            final(self)@ == old(self)@.push(byte),
            final(self).spec_config() == old(self).spec_config(),
            final(self).spec_mode() == old(self).spec_mode(),
    {
        self.pending.push(byte);
    }

    /// Makes one frame attempt on the bytes held and drops the bytes it used up.
    ///
    /// `Eof` means that the bytes held do not yet decide the attempt.
    pub fn read<E>(&mut self) -> (r: Result<Frame, LdError<E>>)
        ensures
            frame_result_view(r) == spec_read_frame::<E>(old(self)@, old(self).spec_config()).0,
            final(self)@ == old(self)@.skip(spec_read_frame::<E>(old(self)@, old(self).spec_config()).1 as int),
            r is Ok ==> r->Ok_0.wf(),
            final(self).spec_config() == old(self).spec_config(),
            final(self).spec_mode() == old(self).spec_mode(),
    {
        let (r, used) = Frame::read(self.pending.as_slice(), self.config);
        proof {
            lemma_read_progress::<E>(self.pending@, self.config);
        }
        let rest = self.pending.split_off(used);
        self.pending = rest;
        r
    }

    /// The next message, or `None` when the bytes held do not complete one.
    ///
    /// In strict mode a failed attempt is returned as an error; in lenient mode it is
    /// dropped and the next attempt is made.
    pub fn next_message<E>(&mut self) -> (r: Option<Result<MessageBody, LdError<E>>>)
        ensures
            (r, final(self)@) == spec_next::<E>(old(self)@, old(self).spec_config(), old(self).spec_mode()),
            final(self).spec_config() == old(self).spec_config(),
            final(self).spec_mode() == old(self).spec_mode(),
    {
        loop
            invariant
                spec_next::<E>(self@, self.spec_config(), self.spec_mode())
                    == spec_next::<E>(old(self)@, old(self).spec_config(), old(self).spec_mode()),
                self.spec_config() == old(self).spec_config(),
                self.spec_mode() == old(self).spec_mode(),
            decreases self@.len(),
        {
            let ghost s = self@;
            proof {
                lemma_read_progress::<E>(s, self.config);
            }
            let out = match self.read() {
                Err(LdError::Eof) => return None,
                Err(e) => Err(e),
                Ok(frame) => frame.body(),
            };
            if self.mode == StreamMode::Strict || out.is_ok() {
                return Some(out);
            }
        }
    }
}

} // verus!
