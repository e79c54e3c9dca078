//! Wire-level items of the protocol: message types, frame headers, frames.
use vstd::prelude::*;
use vstd::slice::slice_subrange;

use crate::checksum::{checksum, spec_checksum};

verus! {

/// The byte that marks the start of a frame.
pub const SYNC_BYTE: u8 = 1;

/// Number of header bytes that follow the sync byte.
pub const HEADER_LEN: usize = 7;

/// Largest payload a frame can carry.
pub const MAX_PAYLOAD: usize = 16;

/// Which of the two checksums of a frame failed.
#[derive(Debug, Clone, Copy, PartialEq, Eq, Structural)]
pub enum ChecksumKind {
    Header,
    Body,
}

/// The closed set of message kinds the sensor sends.
#[derive(Debug, Clone, Copy, PartialEq, Eq, Structural)]
pub enum MessageType {
    Phase,
    Respiratory,
    Heartbeat,
    Distance,
}

/// Everything that can go wrong while decoding; `E` is the byte source's own error.
#[derive(Debug, Clone, PartialEq, Eq)]
pub enum LdError<E> {
    InvalidMessageType(u16),
    InvalidDataLength { expected: u16, got: u16, ty: MessageType },
    /// `got` is the computed checksum, `expected` the byte that was received.
    InvalidChecksum { kind: ChecksumKind, got: u8, expected: u8 },
    InvalidFrameStart(u8),
    Eof,
    Read(E),
}

/// The wire code of a message type.
pub open spec fn spec_code(t: MessageType) -> u16 {
    match t {
        MessageType::Phase => 0x0a13,
        MessageType::Respiratory => 0x0a14,
        MessageType::Heartbeat => 0x0a15,
        MessageType::Distance => 0x0a16,
    }
}

/// The message type that a wire code stands for, if any.
pub open spec fn spec_message_type(code: u16) -> Option<MessageType> {
    if code == 0x0a13 {
        Some(MessageType::Phase)
    } else if code == 0x0a14 {
        Some(MessageType::Respiratory)
    } else if code == 0x0a15 {
        Some(MessageType::Heartbeat)
    } else if code == 0x0a16 {
        Some(MessageType::Distance)
    } else {
        None
    }
}

/// The payload length a message type normally carries.
pub open spec fn spec_expected_length(t: MessageType) -> u16 {
    match t {
        MessageType::Phase => 12,
        MessageType::Respiratory => 4,
        MessageType::Heartbeat => 4,
        MessageType::Distance => 8,
    }
}

/// The big-endian 16-bit value of two bytes.
pub open spec fn be16(hi: u8, lo: u8) -> u16 {
    (hi as int * 256 + lo as int) as u16
}

/// Decoding a wire code: the known type, or the code itself as the error.
pub open spec fn spec_decode_type<E>(code: u16) -> Result<MessageType, LdError<E>> {
    match spec_message_type(code) {
        Some(t) => Ok(t),
        None => Err(LdError::InvalidMessageType(code)),
    }
}

pub fn read_be16(hi: u8, lo: u8) -> (r: u16)
    ensures
        r == be16(hi, lo),
{
    (hi as u16) * 256 + (lo as u16)
}

impl MessageType {
    /// Maps a wire code to its message type; unknown codes are rejected.
    pub fn from_code<E>(code: u16) -> (r: Result<MessageType, LdError<E>>)
        ensures
            r == spec_decode_type::<E>(code),
    {
        if code == 0x0a13 {
            Ok(MessageType::Phase)
        } else if code == 0x0a14 {
            Ok(MessageType::Respiratory)
        } else if code == 0x0a15 {
            Ok(MessageType::Heartbeat)
        } else if code == 0x0a16 {
            Ok(MessageType::Distance)
        } else {
            Err(LdError::InvalidMessageType(code))
        }
    }

    /// Reads a big-endian type code from the first two bytes of `bytes`.
    pub fn read<E>(bytes: &[u8]) -> (r: Result<MessageType, LdError<E>>)
        ensures
            bytes@.len() < 2 ==> r == Err::<MessageType, LdError<E>>(LdError::Eof),
            bytes@.len() >= 2 ==> r == spec_decode_type::<E>(be16(bytes@[0], bytes@[1])),
    {
        if bytes.len() < 2 {
            return Err(LdError::Eof);
        }
        let code = read_be16(bytes[0], bytes[1]);
        MessageType::from_code(code)
    }

    /// The wire code of this type.
    pub fn code(self) -> (r: u16)
        ensures
            r == spec_code(self),
    {
        match self {
            MessageType::Phase => 0x0a13,
            MessageType::Respiratory => 0x0a14,
            MessageType::Heartbeat => 0x0a15,
            MessageType::Distance => 0x0a16,
        }
    }

    /// The payload length this type normally carries.
    pub fn expected_length(self) -> (r: u16)
        ensures
            r == spec_expected_length(self),
    {
        match self {
            MessageType::Phase => 12,
            MessageType::Respiratory => 4,
            MessageType::Heartbeat => 4,
            MessageType::Distance => 8,
        }
    }
}

/// What the frame decoder checks beyond the sync byte, the type code and the body checksum.
#[derive(Debug, Clone, Copy, PartialEq, Eq, Structural)]
pub struct FrameConfig {
    /// Reject a frame whose declared length differs from its type's expected length.
    pub strict_length: bool,
    /// Verify the header checksum byte against the six header bytes before it.
    pub check_header_checksum: bool,
}

/// The fixed-size header that follows the sync byte.
#[derive(Debug, Clone, Copy, PartialEq, Eq, Structural)]
pub struct FrameHeader {
    pub id: u16,
    pub length: u16,
    pub ty: MessageType,
}

/// Parsing a header from the front of `s` (seven bytes are needed).
pub open spec fn spec_read_header<E>(s: Seq<u8>, check_header_checksum: bool) -> Result<FrameHeader, LdError<E>> {
    if s.len() < 7 {
        Err(LdError::Eof)
    } else {
        match spec_message_type(be16(s[4], s[5])) {
            None => Err(LdError::InvalidMessageType(be16(s[4], s[5]))),
            Some(t) => if check_header_checksum && s[6] != spec_checksum(s.take(6)) {
                Err(LdError::InvalidChecksum { kind: ChecksumKind::Header, got: spec_checksum(s.take(6)), expected: s[6] })
            } else {
                Ok(FrameHeader { id: be16(s[0], s[1]), length: be16(s[2], s[3]), ty: t })
            },
        }
    }
}

impl FrameHeader {
    /// Parses a header from the first seven bytes of `bytes`: sequence id, declared length and
    /// type code (all big-endian), then the header checksum byte.
    pub fn read<E>(bytes: &[u8], check_header_checksum: bool) -> (r: Result<FrameHeader, LdError<E>>)
        ensures
            r == spec_read_header::<E>(bytes@, check_header_checksum),
    {
        if bytes.len() < HEADER_LEN {
            return Err(LdError::Eof);
        }
        let code = read_be16(bytes[4], bytes[5]);
        let ty = match MessageType::from_code(code) {
            Ok(t) => t,
            Err(e) => return Err(e),
        };
        if check_header_checksum {
            let head = slice_subrange(bytes, 0, 6);
            let c = checksum(head);
            assert(head@ =~= bytes@.take(6));
            if bytes[6] != c {
                return Err(LdError::InvalidChecksum { kind: ChecksumKind::Header, got: c, expected: bytes[6] });
            }
        }
        Ok(FrameHeader { id: read_be16(bytes[0], bytes[1]), length: read_be16(bytes[2], bytes[3]), ty })
    }
}

/// A payload buffer of capacity `N` holding its first `len` bytes.
#[derive(Debug, Clone, Copy)]
pub struct FrameData<const N: usize> {
    data: [u8; N],
    len: u16,
}

impl<const N: usize> View for FrameData<N> {
    type V = Seq<u8>;

    closed spec fn view(&self) -> Seq<u8> {
        self.data@.take(self.len as int)
    }
}

impl<const N: usize> FrameData<N> {
    pub closed spec fn wf(&self) -> bool {
        self.len as int <= N
    }

    /// Number of payload bytes held.
    pub fn len(&self) -> (r: u16)
        requires
            self.wf(),
        ensures
            r as int == self@.len(),
    {
        self.len
    }

    /// The payload bytes as a vector.
    pub fn to_vec(&self) -> (r: Vec<u8>)
        requires
            self.wf(),
        ensures
            r@ == self@,
    {
        let mut v: Vec<u8> = Vec::new();
        let mut i: usize = 0;
        while i < self.len as usize
            invariant
                self.wf(),
                i <= self.len,
                v@ == self@.take(i as int),
            decreases self.len - i,
        {
            v.push(self.data[i]);
            i = i + 1;
            assert(v@ =~= self@.take(i as int));
        }
        assert(self@.take(i as int) =~= self@);
        v
    }

    /// The payload bytes as a slice.
    pub fn as_slice(&self) -> (r: &[u8])
        requires
            self.wf(),
        ensures
            r@ == self@,
    {
        let all = vstd::array::array_as_slice(&self.data);
        let r = slice_subrange(all, 0, self.len as usize);
        assert(r@ =~= self@);
        r
    }

    /// Takes the payload that `header` declares from the front of `bytes`.
    ///
    /// The declared length must fit the buffer and, when `strict_length` is set, equal the
    /// type's expected length; this is checked before any byte is read.
    pub fn read<E>(bytes: &[u8], header: &FrameHeader, strict_length: bool) -> (r: Result<FrameData<N>, LdError<E>>)
        ensures
            !(header.length <= N && (!strict_length || header.length == spec_expected_length(header.ty)))
                ==> r == Err::<FrameData<N>, LdError<E>>(LdError::InvalidDataLength {
                    expected: spec_expected_length(header.ty),
                    got: header.length,
                    ty: header.ty,
                }),
            header.length <= N && (!strict_length || header.length == spec_expected_length(header.ty)) ==> {
                &&& bytes@.len() < header.length ==> r == Err::<FrameData<N>, LdError<E>>(LdError::Eof)
                &&& bytes@.len() >= header.length ==> r is Ok && r->Ok_0.wf() && r->Ok_0@ == bytes@.take(header.length as int)
            },
    {
        let expected = header.ty.expected_length();
        if header.length as usize > N || (strict_length && header.length != expected) {
            return Err(LdError::InvalidDataLength { expected, got: header.length, ty: header.ty });
        }
        let len = header.length as usize;
        if bytes.len() < len {
            return Err(LdError::Eof);
        }
        let payload = slice_subrange(bytes, 0, len);
        assert(payload@ =~= bytes@.take(len as int));
        Ok(FrameData::from_slice(payload))
    }

    /// Copies `bytes` into a new buffer.
    pub fn from_slice(bytes: &[u8]) -> (r: FrameData<N>)
        requires
            bytes@.len() <= N,
            bytes@.len() <= u16::MAX,
        ensures
            r.wf(),
            r@ == bytes@,
    {
        let mut data = [0u8; N];
        let mut i: usize = 0;
        while i < bytes.len()
            invariant
                i <= bytes@.len() <= N,
                data@.len() == N,
                data@.take(i as int) == bytes@.take(i as int),
            decreases bytes@.len() - i,
        {
            data[i] = bytes[i];
            i = i + 1;
            assert(data@.take(i as int) =~= bytes@.take(i as int));
        }
        assert(bytes@.take(i as int) =~= bytes@);
        FrameData { data, len: bytes.len() as u16 }
    }
}

/// A frame that passed every check: its header and its payload.
#[derive(Debug, Clone, Copy)]
pub struct Frame {
    header: FrameHeader,
    data: FrameData<16>,
}

impl View for Frame {
    type V = (FrameHeader, Seq<u8>);

    closed spec fn view(&self) -> (FrameHeader, Seq<u8>) {
        (self.header, self.data@)
    }
}

/// Number of bytes before the first sync byte of `s` (all of `s` when there is none).
pub open spec fn garbage_len(s: Seq<u8>) -> nat
    decreases s.len(),
{
    if s.len() == 0 || s[0] == SYNC_BYTE {
        0
    } else {
        1 + garbage_len(s.drop_first())
    }
}

/// Whether the declared length of `h` is acceptable under `cfg`.
pub open spec fn length_ok(h: FrameHeader, cfg: FrameConfig) -> bool {
    h.length <= MAX_PAYLOAD && (!cfg.strict_length || h.length == spec_expected_length(h.ty))
}

/// One frame attempt on the bytes `s`: the outcome, and how many bytes of `s` it used up.
///
/// Bytes before the first sync byte are discarded. `Eof` means that `s` ends before the
/// outcome is known; the count then covers only the discarded bytes, so the attempt can be
/// made again once more bytes have arrived.
pub open spec fn spec_read_frame<E>(s: Seq<u8>, cfg: FrameConfig) -> (Result<(FrameHeader, Seq<u8>), LdError<E>>, nat) {
    let g = garbage_len(s);
    let t = s.skip(g as int + 1);
    if g >= s.len() || t.len() < 7 {
        (Err(LdError::Eof), g)
    } else {
        match spec_read_header::<E>(t, cfg.check_header_checksum) {
            Err(e) => (Err(e), g + 8),
            Ok(h) => if !length_ok(h, cfg) {
                (Err(LdError::InvalidDataLength { expected: spec_expected_length(h.ty), got: h.length, ty: h.ty }), g + 8)
            } else if t.len() < 8 + h.length {
                (Err(LdError::Eof), g)
            } else {
                let p = t.subrange(7, 7 + h.length);
                let c = t[7 + h.length];
                if c != spec_checksum(p) {
                    (Err(LdError::InvalidChecksum { kind: ChecksumKind::Body, got: spec_checksum(p), expected: c }), (g + 9 + h.length) as nat)
                } else {
                    (Ok((h, p)), (g + 9 + h.length) as nat)
                }
            },
        }
    }
}

/// The abstract value of a frame result.
pub open spec fn frame_result_view<E>(r: Result<Frame, LdError<E>>) -> Result<(FrameHeader, Seq<u8>), LdError<E>> {
    match r {
        Ok(f) => Ok(f@),
        Err(e) => Err(e),
    }
}

proof fn lemma_garbage_len(s: Seq<u8>, g: int)
    requires
        0 <= g <= s.len(),
        forall|k: int| 0 <= k < g ==> s[k] != SYNC_BYTE,
        g == s.len() || s[g] == SYNC_BYTE,
    ensures
        garbage_len(s) == g,
    decreases g,
{
    if g > 0 {
        assert forall|k: int| 0 <= k < g - 1 implies s.drop_first()[k] != SYNC_BYTE by {
            assert(s.drop_first()[k] == s[k + 1]);
        }
        lemma_garbage_len(s.drop_first(), g - 1);
    }
}

impl Frame {
    pub closed spec fn wf(&self) -> bool {
        self.data.wf()
    }

    /// A frame with the given header and payload.
    pub fn new(header: FrameHeader, payload: &[u8]) -> (r: Frame)
        requires
            payload@.len() <= MAX_PAYLOAD,
        ensures
            r.wf(),
            r@ == (header, payload@),
    {
        Frame { header, data: FrameData::from_slice(payload) }
    }

    /// The header.
    pub fn header(&self) -> (r: FrameHeader)
        ensures
            r == self@.0,
    {
        self.header
    }

    /// The payload buffer.
    pub fn data(&self) -> (r: &FrameData<16>)
        requires
            self.wf(),
        ensures
            r.wf(),
            r@ == self@.1,
    {
        &self.data
    }

    /// Makes one frame attempt on `bytes`, returning its outcome and the number of bytes it used.
    ///
    /// Leading bytes other than the sync byte are skipped. The declared length is checked
    /// before any payload byte is looked at; the trailing byte must equal the checksum of
    /// the payload.
    pub fn read<E>(bytes: &[u8], cfg: FrameConfig) -> (r: (Result<Frame, LdError<E>>, usize))
        ensures
            frame_result_view(r.0) == spec_read_frame::<E>(bytes@, cfg).0,
            r.1 as nat == spec_read_frame::<E>(bytes@, cfg).1,
            r.0 is Ok ==> r.0->Ok_0.wf(),
    {
        let n = bytes.len();
        let mut g: usize = 0;
        while g < n && bytes[g] != SYNC_BYTE
            invariant
                n == bytes@.len(),
                g <= n,
                forall|k: int| 0 <= k < g ==> bytes@[k] != SYNC_BYTE,
            decreases n - g,
        {
            g = g + 1;
        }
        proof {
            lemma_garbage_len(bytes@, g as int);
        }
        if g == n {
            return (Err(LdError::Eof), g);
        }
        let rest = slice_subrange(bytes, g + 1, n);
        assert(rest@ =~= bytes@.skip(g + 1));
        let header = match FrameHeader::read(rest, cfg.check_header_checksum) {
            Ok(h) => h,
            Err(LdError::Eof) => return (Err(LdError::Eof), g),
            Err(e) => return (Err(e), g + 8),
        };
        let len = header.length as usize;
        let after_header = slice_subrange(rest, 7, rest.len());
        let data = match FrameData::<16>::read(after_header, &header, cfg.strict_length) {
            Ok(d) => d,
            Err(LdError::Eof) => return (Err(LdError::Eof), g),
            Err(e) => return (Err(e), g + 8),
        };
        if after_header.len() < len + 1 {
            return (Err(LdError::Eof), g);
        }
        let c = checksum(data.as_slice());
        let received = after_header[len];
        assert(after_header@.take(len as int) =~= rest@.subrange(7, 7 + len));
        if received != c {
            return (Err(LdError::InvalidChecksum { kind: ChecksumKind::Body, got: c, expected: received }), g + 9 + len);
        }
        (Ok(Frame { header, data }), g + 9 + len)
    }
}

} // verus!
