//! General properties of the decoder, proved over the specifications of its functions.
use vstd::prelude::*;

use crate::aggregate::{is_positive_f32, spec_update, Data};
use crate::checksum::{spec_checksum, xor_all};
use crate::message::{le32, spec_body, MessageBody};
use crate::stream::{spec_next, StreamMode};
use crate::protocol::{
    garbage_len, length_ok, spec_expected_length, spec_read_frame, spec_read_header, ChecksumKind,
    FrameConfig, FrameHeader, LdError, MessageType, MAX_PAYLOAD, SYNC_BYTE,
};

verus! {

/// The checksum is a function of the bytes alone: equal spans have equal checksums.
pub proof fn checksum_is_deterministic(a: Seq<u8>, b: Seq<u8>)
    requires
        a == b,
    ensures
        spec_checksum(a) == spec_checksum(b),
{
}

proof fn lemma_xor_flip(p: Seq<u8>, i: int, m: u8)
    requires
        0 <= i < p.len(),
    ensures
        xor_all(p.update(i, p[i] ^ m)) == xor_all(p) ^ m,
    decreases p.len(),
{
    let q = p.update(i, p[i] ^ m);
    let x = xor_all(p.drop_last());
    if i == p.len() - 1 {
        assert(q.drop_last() =~= p.drop_last());
        let a = p.last();
        assert((x ^ (a ^ m)) == ((x ^ a) ^ m)) by (bit_vector);
    } else {
        assert(q.drop_last() =~= p.drop_last().update(i, p[i] ^ m));
        lemma_xor_flip(p.drop_last(), i, m);
        let a = p.last();
        assert(((x ^ m) ^ a) == ((x ^ a) ^ m)) by (bit_vector);
    }
}

/// The bytes of one frame on the wire: sync byte, header, payload, body checksum byte.
pub open spec fn wire_frame(header: Seq<u8>, payload: Seq<u8>, check: u8) -> Seq<u8> {
    seq![SYNC_BYTE] + header + payload + seq![check]
}

/// A frame whose header is accepted, whose payload has the declared length and which ends
/// with the checksum of its payload is decoded, using up exactly its own bytes, whatever
/// follows it.
pub proof fn correct_checksum_is_accepted<E>(header: Seq<u8>, payload: Seq<u8>, after: Seq<u8>, cfg: FrameConfig)
    requires
        header.len() == 7,
        spec_read_header::<E>(header, cfg.check_header_checksum) is Ok,
        length_ok(spec_read_header::<E>(header, cfg.check_header_checksum)->Ok_0, cfg),
        payload.len() == spec_read_header::<E>(header, cfg.check_header_checksum)->Ok_0.length,
    ensures
        spec_read_frame::<E>(wire_frame(header, payload, spec_checksum(payload)) + after, cfg)
            == (Ok::<(FrameHeader, Seq<u8>), LdError<E>>(
                (spec_read_header::<E>(header, cfg.check_header_checksum)->Ok_0, payload),
            ), 9 + payload.len()),
{
    let s = wire_frame(header, payload, spec_checksum(payload)) + after;
    assert(s[0] == SYNC_BYTE);
    assert(garbage_len(s) == 0);
    let t = s.skip(1);
    assert(t.take(7) =~= header);
    assert(t.subrange(7, 7 + payload.len() as int) =~= payload);
    assert(t[7 + payload.len() as int] == spec_checksum(payload));
    assert(spec_read_header::<E>(t, cfg.check_header_checksum) == spec_read_header::<E>(header, cfg.check_header_checksum)) by {
        assert(t[0] == header[0] && t[1] == header[1] && t[2] == header[2] && t[3] == header[3]);
        assert(t[4] == header[4] && t[5] == header[5] && t[6] == header[6]);
        assert(t.take(6) =~= header.take(6));
    }
}

/// Flipping one bit of the payload, while keeping the checksum byte of the original
/// payload, makes the frame fail with a body checksum error.
pub proof fn flipped_bit_is_rejected<E>(header: Seq<u8>, payload: Seq<u8>, i: int, bit: u8, cfg: FrameConfig)
    requires
        header.len() == 7,
        spec_read_header::<E>(header, cfg.check_header_checksum) is Ok,
        length_ok(spec_read_header::<E>(header, cfg.check_header_checksum)->Ok_0, cfg),
        payload.len() == spec_read_header::<E>(header, cfg.check_header_checksum)->Ok_0.length,
        0 <= i < payload.len(),
        bit < 8,
    ensures
        spec_checksum(payload.update(i, payload[i] ^ (1u8 << bit))) != spec_checksum(payload),
        spec_read_frame::<E>(wire_frame(header, payload.update(i, payload[i] ^ (1u8 << bit)), spec_checksum(payload)), cfg).0
            == Err::<(FrameHeader, Seq<u8>), LdError<E>>(LdError::InvalidChecksum {
                kind: ChecksumKind::Body,
                got: spec_checksum(payload.update(i, payload[i] ^ (1u8 << bit))),
                expected: spec_checksum(payload),
            }),
{
    let m: u8 = 1u8 << bit;
    let q = payload.update(i, payload[i] ^ m);
    lemma_xor_flip(payload, i, m);
    let x = xor_all(payload);
    assert(bit < 8 ==> !(x ^ (1u8 << bit)) != !x) by (bit_vector);
    let s = wire_frame(header, q, spec_checksum(payload));
    assert(s[0] == SYNC_BYTE);
    assert(garbage_len(s) == 0);
    let t = s.skip(1);
    assert(t.subrange(7, 7 + q.len() as int) =~= q);
    assert(t[7 + q.len() as int] == spec_checksum(payload));
    assert(spec_read_header::<E>(t, cfg.check_header_checksum) == spec_read_header::<E>(header, cfg.check_header_checksum)) by {
        assert(t[0] == header[0] && t[1] == header[1] && t[2] == header[2] && t[3] == header[3]);
        assert(t[4] == header[4] && t[5] == header[5] && t[6] == header[6]);
        assert(t.take(6) =~= header.take(6));
    }
}

proof fn lemma_garbage_prefix(garbage: Seq<u8>, s: Seq<u8>)
    requires
        forall|k: int| 0 <= k < garbage.len() ==> garbage[k] != SYNC_BYTE,
    ensures
        garbage_len(garbage + s) == garbage.len() + garbage_len(s),
    decreases garbage.len(),
{
    if garbage.len() > 0 {
        assert((garbage + s).drop_first() =~= garbage.drop_first() + s);
        lemma_garbage_prefix(garbage.drop_first(), s);
    } else {
        assert(garbage + s =~= s);
    }
}

/// Bytes other than the sync byte in front of a stream change nothing but the count of
/// bytes used up: the attempt has the same outcome as on the stream without them.
pub proof fn garbage_is_skipped<E>(garbage: Seq<u8>, s: Seq<u8>, cfg: FrameConfig)
    requires
        forall|k: int| 0 <= k < garbage.len() ==> garbage[k] != SYNC_BYTE,
    ensures
        spec_read_frame::<E>(garbage + s, cfg).0 == spec_read_frame::<E>(s, cfg).0,
        spec_read_frame::<E>(garbage + s, cfg).1 == garbage.len() + spec_read_frame::<E>(s, cfg).1,
{
    lemma_garbage_prefix(garbage, s);
    let g = garbage_len(s);
    if g < s.len() {
        assert((garbage + s).skip(garbage.len() + g + 1 as int) =~= s.skip(g + 1 as int));
    }
}

/// Any run of bytes other than the sync byte followed by one well-formed frame decodes to
/// that frame.
pub proof fn frame_after_garbage_is_decoded<E>(garbage: Seq<u8>, header: Seq<u8>, payload: Seq<u8>, cfg: FrameConfig)
    requires
        forall|k: int| 0 <= k < garbage.len() ==> garbage[k] != SYNC_BYTE,
        header.len() == 7,
        spec_read_header::<E>(header, cfg.check_header_checksum) is Ok,
        length_ok(spec_read_header::<E>(header, cfg.check_header_checksum)->Ok_0, cfg),
        payload.len() == spec_read_header::<E>(header, cfg.check_header_checksum)->Ok_0.length,
    ensures
        spec_read_frame::<E>(garbage + wire_frame(header, payload, spec_checksum(payload)), cfg)
            == (Ok::<(FrameHeader, Seq<u8>), LdError<E>>(
                (spec_read_header::<E>(header, cfg.check_header_checksum)->Ok_0, payload),
            ), garbage.len() + 9 + payload.len()),
{
    let w = wire_frame(header, payload, spec_checksum(payload));
    correct_checksum_is_accepted::<E>(header, payload, Seq::empty(), cfg);
    assert(w + Seq::<u8>::empty() =~= w);
    garbage_is_skipped::<E>(garbage, w, cfg);
}

/// A stream holding a run of bytes other than the sync byte and then one well-formed frame
/// yields that frame's message and uses up every byte; in lenient mode this needs the
/// payload to decode.
pub proof fn stream_recovers_after_garbage<E>(
    garbage: Seq<u8>,
    header: Seq<u8>,
    payload: Seq<u8>,
    cfg: FrameConfig,
    mode: StreamMode,
)
    requires
        forall|k: int| 0 <= k < garbage.len() ==> garbage[k] != SYNC_BYTE,
        header.len() == 7,
        spec_read_header::<E>(header, cfg.check_header_checksum) is Ok,
        length_ok(spec_read_header::<E>(header, cfg.check_header_checksum)->Ok_0, cfg),
        payload.len() == spec_read_header::<E>(header, cfg.check_header_checksum)->Ok_0.length,
        mode == StreamMode::Strict
            || spec_body::<E>(spec_read_header::<E>(header, cfg.check_header_checksum)->Ok_0.ty, payload) is Ok,
    ensures
        spec_next::<E>(garbage + wire_frame(header, payload, spec_checksum(payload)), cfg, mode) == (
            Some(spec_body::<E>(spec_read_header::<E>(header, cfg.check_header_checksum)->Ok_0.ty, payload)),
            Seq::<u8>::empty(),
        ),
{
    let s = garbage + wire_frame(header, payload, spec_checksum(payload));
    frame_after_garbage_is_decoded::<E>(garbage, header, payload, cfg);
    assert(s.skip(s.len() as int) =~= Seq::<u8>::empty());
}

/// A header that declares more than the largest payload is rejected as soon as the header
/// has arrived: the outcome and the eight bytes used up do not depend on what follows.
pub proof fn oversized_length_is_rejected<E>(header: Seq<u8>, after: Seq<u8>, cfg: FrameConfig)
    requires
        header.len() == 7,
        spec_read_header::<E>(header, cfg.check_header_checksum) is Ok,
        spec_read_header::<E>(header, cfg.check_header_checksum)->Ok_0.length > MAX_PAYLOAD,
    ensures
        ({
            let h = spec_read_header::<E>(header, cfg.check_header_checksum)->Ok_0;
            spec_read_frame::<E>(seq![SYNC_BYTE] + header + after, cfg) == (Err::<(FrameHeader, Seq<u8>), LdError<E>>(
                LdError::InvalidDataLength { expected: spec_expected_length(h.ty), got: h.length, ty: h.ty },
            ), 8nat)
        }),
{
    let s = seq![SYNC_BYTE] + header + after;
    assert(s[0] == SYNC_BYTE);
    assert(garbage_len(s) == 0);
    let t = s.skip(1);
    assert(spec_read_header::<E>(t, cfg.check_header_checksum) == spec_read_header::<E>(header, cfg.check_header_checksum)) by {
        assert(t[0] == header[0] && t[1] == header[1] && t[2] == header[2] && t[3] == header[3]);
        assert(t[4] == header[4] && t[5] == header[5] && t[6] == header[6]);
        assert(t.take(6) =~= header.take(6));
    }
}

/// An eight-byte distance payload whose first word is not 1 reports a distance of zero,
/// whatever its second word holds.
pub proof fn distance_without_presence_is_zero<E>(payload: Seq<u8>)
    requires
        payload.len() == 8,
        le32(payload, 0) != 1,
    ensures
        spec_body::<E>(MessageType::Distance, payload) == Ok::<MessageBody, LdError<E>>(MessageBody::Distance(Some(0u32))),
{
}

/// A value that is not greater than zero leaves the snapshot as it was.
pub proof fn implausible_values_are_ignored(d: Data, value: u32)
    requires
        !is_positive_f32(value),
    ensures
        spec_update(d, MessageBody::Respiratory(value)) == d,
        spec_update(d, MessageBody::Heartbeat(value)) == d,
        spec_update(d, MessageBody::Distance(Some(value))) == d,
        spec_update(d, MessageBody::Distance(None)) == d,
{
}

} // verus!
