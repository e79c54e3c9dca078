//! Typed interpretation of a frame's payload.
//!
//! Measurements are 32-bit IEEE-754 floats; they are carried here as their bit patterns,
//! read from the payload as little-endian 32-bit words.
use vstd::prelude::*;

use crate::protocol::{spec_expected_length, Frame, LdError, MessageType};

verus! {

/// A decoded measurement; each value is the bit pattern of an `f32`.
#[derive(Debug, Clone, Copy, PartialEq, Eq)]
pub enum MessageBody {
    Phase([u32; 3]),
    Respiratory(u32),
    Heartbeat(u32),
    /// `None` when the sensor reports no detection.
    Distance(Option<u32>),
}

/// The little-endian 32-bit word stored at `s[i..i + 4]`.
pub open spec fn le32(s: Seq<u8>, i: int) -> u32 {
    (s[i] as int + s[i + 1] as int * 0x100 + s[i + 2] as int * 0x1_0000 + s[i + 3] as int * 0x100_0000) as u32
}

/// How a payload of type `ty` is read; the pair of type and length decides.
pub open spec fn spec_body<E>(ty: MessageType, p: Seq<u8>) -> Result<MessageBody, LdError<E>> {
    if ty == MessageType::Phase && p.len() == 12 {
        Ok(MessageBody::Phase([le32(p, 0), le32(p, 4), le32(p, 8)]))
    } else if ty == MessageType::Respiratory && p.len() == 4 {
        Ok(MessageBody::Respiratory(le32(p, 0)))
    } else if ty == MessageType::Heartbeat && p.len() == 4 {
        Ok(MessageBody::Heartbeat(le32(p, 0)))
    } else if ty == MessageType::Distance && p.len() == 8 {
        Ok(MessageBody::Distance(Some(if le32(p, 0) == 1 { le32(p, 4) } else { 0 })))
    } else if ty == MessageType::Distance && p.len() == 4 {
        Ok(MessageBody::Distance(None))
    } else {
        Err(LdError::InvalidDataLength { expected: spec_expected_length(ty), got: p.len() as u16, ty })
    }
}

/// Reads the little-endian word at `s[i..i + 4]`.
pub fn read_le32(s: &[u8], i: usize) -> (r: u32)
    requires
        i + 4 <= s@.len(),
    ensures
        r == le32(s@, i as int),
{
    (s[i] as u32) + (s[i + 1] as u32) * 0x100 + (s[i + 2] as u32) * 0x1_0000 + (s[i + 3] as u32) * 0x100_0000
}

impl Frame {
    /// Interprets the payload according to the message type and the payload length.
    pub fn body<E>(&self) -> (r: Result<MessageBody, LdError<E>>)
        requires
            self.wf(),
        ensures
            r == spec_body::<E>(self@.0.ty, self@.1),
    {
        let p = self.data().as_slice();
        let ty = self.header().ty;
        let n = p.len();
        match ty {
            MessageType::Phase if n == 12 => {
                Ok(MessageBody::Phase([read_le32(p, 0), read_le32(p, 4), read_le32(p, 8)]))
            },
            MessageType::Respiratory if n == 4 => Ok(MessageBody::Respiratory(read_le32(p, 0))),
            MessageType::Heartbeat if n == 4 => Ok(MessageBody::Heartbeat(read_le32(p, 0))),
            MessageType::Distance if n == 8 => {
                let distance = if read_le32(p, 0) == 1 {
                    read_le32(p, 4)
                } else {
                    0
                };
                Ok(MessageBody::Distance(Some(distance)))
            },
            MessageType::Distance if n == 4 => Ok(MessageBody::Distance(None)),
            _ => Err(LdError::InvalidDataLength { expected: ty.expected_length(), got: n as u16, ty }),
        }
    }
}

} // verus!
