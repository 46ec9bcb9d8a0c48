//! The binary wire encoding of the gateway protocol messages, carried in
//! binary frames: variable-length integers and length-delimited fields
//! in protobuf wire format, every field present and in tag order.
//!
//! Encoders state exactly which bytes they produce. Decoders are strict:
//! they accept precisely the canonical encoding and give back the one
//! message whose encoding the frame is — anything else is malformed, and
//! the gateway skips malformed frames.

use vstd::prelude::*;

use crate::proto::EventMessage;
use crate::proto::GatewayClientEvent;
use crate::proto::GatewayHandshake;
use crate::proto::GatewayIdentify;
use crate::proto::GatewayServerEvent;
use vstd::slice::slice_subrange;
use vstd::slice::slice_to_vec;
use vstd::utf8::encode_utf8;

verus! {

/// The variable-length encoding of an integer: seven value bits per
/// byte, least significant group first, the high bit marking
/// continuation. The last byte is never a bare continuation remainder of
/// zero, so every value has exactly one encoding.
pub open spec fn spec_varint(n: u64) -> Seq<u8>
    decreases n via spec_varint_decreases
{
    if n < 0x80 {
        seq![n as u8]
    } else {
        seq![(n % 0x80 + 0x80) as u8] + spec_varint(n / 0x80)
    }
}

#[via_fn]
proof fn spec_varint_decreases(n: u64) {
    if n >= 0x80 {
        assert(n / 0x80 < n) by (nonlinear_arith)
            requires
                n >= 0x80,
        ;
    }
}

/// A length-delimited field: its tag, the payload length, the payload.
pub open spec fn spec_field_bytes(field: u64, payload: Seq<u8>) -> Seq<u8>
    recommends
        field < 0x1000_0000,
{
    spec_varint((field * 8 + 2) as u64) + spec_varint(payload.len() as u64) + payload
}

/// A variable-length integer field: its tag, then the value.
pub open spec fn spec_field_varint(field: u64, value: u64) -> Seq<u8>
    recommends
        field < 0x1000_0000,
{
    spec_varint((field * 8) as u64) + spec_varint(value)
}

/// Appends the variable-length encoding of `n`.
pub fn push_varint(out: &mut Vec<u8>, n: u64)
    ensures
        final(out)@ == old(out)@ + spec_varint(n),
    decreases n,
{
    if n < 0x80 {
        out.push(n as u8);
        assert(out@ =~= old(out)@ + spec_varint(n));
    } else {
        out.push((n % 0x80 + 0x80) as u8);
        proof {
            assert(n / 0x80 < n) by (nonlinear_arith)
                requires
                    n >= 0x80,
            ;
        }
        push_varint(out, n / 0x80);
        assert(out@ =~= old(out)@ + spec_varint(n));
    }
}

/// The canonical encoding of `v` sits at position `pos` of `b`.
pub open spec fn varint_at(b: Seq<u8>, pos: int, v: u64) -> bool {
    &&& 0 <= pos
    &&& pos + spec_varint(v).len() <= b.len()
    &&& b.subrange(pos, pos + spec_varint(v).len() as int) == spec_varint(v)
}

/// At most one value's encoding sits at a given position.
pub proof fn lemma_varint_at_unique(b: Seq<u8>, pos: int, v1: u64, v2: u64)
    requires
        varint_at(b, pos, v1),
        varint_at(b, pos, v2),
    ensures
        v1 == v2,
{
    let l1 = spec_varint(v1).len() as int;
    let l2 = spec_varint(v2).len() as int;
    assert(spec_varint(v1) + b.subrange(pos + l1, b.len() as int) =~= b.subrange(
        pos,
        b.len() as int,
    ));
    assert(spec_varint(v2) + b.subrange(pos + l2, b.len() as int) =~= b.subrange(
        pos,
        b.len() as int,
    ));
    lemma_varint_prefix_code(
        v1,
        v2,
        b.subrange(pos + l1, b.len() as int),
        b.subrange(pos + l2, b.len() as int),
    );
}

/// Reads one variable-length integer starting at `pos`. On success the
/// consumed bytes are exactly the value's canonical encoding; it fails
/// exactly when no value's canonical encoding sits at `pos` — truncated,
/// non-minimal and overlong integers are rejected.
pub fn take_varint(b: &Vec<u8>, pos: usize) -> (r: Option<(u64, usize)>)
    requires
        pos <= b@.len(),
    ensures
        r matches Some(v) ==> pos < v.1 <= b@.len() && b@.subrange(pos as int, v.1 as int)
            == spec_varint(v.0),
        r matches Some(v) ==> varint_at(b@, pos as int, v.0) && v.1 == pos + spec_varint(
            v.0,
        ).len(),
        r is None ==> forall|v: u64| !varint_at(b@, pos as int, v),
    decreases b@.len() - pos,
{
    if pos == b.len() {
        assert forall|v: u64| !varint_at(b@, pos as int, v) by {
            assert(spec_varint(v).len() >= 1);
        }
        return None;
    }
    let byte = b[pos];
    if byte < 0x80 {
        let v = byte as u64;
        assert(b@.subrange(pos as int, pos + 1) =~= spec_varint(v));
        Some((v, pos + 1))
    } else {
        // Every encoding at `pos` must continue past this byte: a value
        // below the continuation threshold would put a terminal byte
        // here.
        assert forall|v: u64| varint_at(b@, pos as int, v) implies v >= 0x80 && varint_at(
            b@,
            pos + 1,
            v / 0x80,
        ) by {
            assert(b@.subrange(pos as int, pos + spec_varint(v).len() as int)[0] == b@[pos as int]);
            if v < 0x80 {
                assert(spec_varint(v) =~= seq![v as u8]);
            } else {
                assert(spec_varint(v) =~= seq![(v % 0x80 + 0x80) as u8] + spec_varint(v / 0x80));
                assert(spec_varint(v)[0] == (v % 0x80 + 0x80) as u8);
                assert forall|i: int| 0 <= i < spec_varint(v / 0x80).len() implies b@[pos + 1 + i]
                    == #[trigger] spec_varint(v / 0x80)[i] by {
                    assert(b@.subrange(pos as int, pos + spec_varint(v).len() as int)[i + 1]
                        == spec_varint(v)[i + 1]);
                }
                assert(b@.subrange(
                    pos + 1,
                    pos + 1 + spec_varint(v / 0x80).len() as int,
                ) =~= spec_varint(v / 0x80));
            }
        }
        match take_varint(b, pos + 1) {
            Some((high, end)) => {
                if high == 0 {
                    // A continuation byte followed by a zero remainder:
                    // not the canonical encoding of anything.
                    proof {
                        assert forall|v: u64| !varint_at(b@, pos as int, v) by {
                            if varint_at(b@, pos as int, v) {
                                lemma_varint_at_unique(b@, pos + 1, v / 0x80, high);
                            }
                        }
                    }
                    return None;
                }
                if high > (u64::MAX - 0x7F) / 0x80 {
                    proof {
                        assert forall|v: u64| !varint_at(b@, pos as int, v) by {
                            if varint_at(b@, pos as int, v) {
                                lemma_varint_at_unique(b@, pos + 1, v / 0x80, high);
                                assert(false) by (nonlinear_arith)
                                    requires
                                        v / 0x80 == high,
                                        high > (u64::MAX - 0x7F) / 0x80,
                                        v <= u64::MAX,
                                ;
                            }
                        }
                    }
                    return None;
                }
                let low = (byte - 0x80) as u64;
                let v = high * 0x80 + low;
                proof {
                    assert(v >= 0x80 && v % 0x80 == low && v / 0x80 == high) by (nonlinear_arith)
                        requires
                            v == high * 0x80 + low,
                            1 <= high,
                            low < 0x80,
                            high <= (u64::MAX - 0x7F) / 0x80,
                    ;
                    assert(b@.subrange(pos as int, end as int) =~= seq![(v % 0x80 + 0x80) as u8]
                        + b@.subrange(pos + 1, end as int));
                }
                Some((v, end))
            },
            None => None,
        }
    }
}

/// The variable-length encoding is a prefix code: no encoding is a
/// proper prefix of another, so a value and the bytes after it are
/// recovered unambiguously from a concatenation.
pub proof fn lemma_varint_prefix_code(a: u64, b: u64, r1: Seq<u8>, r2: Seq<u8>)
    requires
        spec_varint(a) + r1 == spec_varint(b) + r2,
    ensures
        a == b,
        r1 == r2,
    decreases a,
{
    let va = spec_varint(a);
    let vb = spec_varint(b);
    assert((va + r1)[0] == (vb + r2)[0]);
    if a < 0x80 && b < 0x80 {
        assert(va[0] == vb[0]);
        assert((va + r1).skip(1) =~= r1);
        assert((vb + r2).skip(1) =~= r2);
        assert(r1 =~= r2);
    } else if a >= 0x80 && b >= 0x80 {
        assert(va[0] == vb[0]);
        assert(a % 0x80 == b % 0x80);
        assert((va + r1).skip(1) =~= spec_varint(a / 0x80) + r1);
        assert((vb + r2).skip(1) =~= spec_varint(b / 0x80) + r2);
        assert(a / 0x80 < a) by (nonlinear_arith)
            requires
                a >= 0x80,
        ;
        lemma_varint_prefix_code(a / 0x80, b / 0x80, r1, r2);
        assert(a == (a / 0x80) * 0x80 + a % 0x80) by (nonlinear_arith);
        assert(b == (b / 0x80) * 0x80 + b % 0x80) by (nonlinear_arith);
    } else {
        // One encoding starts with a terminal byte, the other with a
        // continuation byte: the first bytes cannot agree.
        assert(va[0] != vb[0]);
    }
}

/// A length-delimited field is recovered unambiguously from a
/// concatenation: equal tags force equal payloads and equal remainders.
pub proof fn lemma_field_bytes_prefix_code(
    field: u64,
    p1: Seq<u8>,
    p2: Seq<u8>,
    r1: Seq<u8>,
    r2: Seq<u8>,
)
    requires
        field < 0x1000_0000,
        p1.len() <= u64::MAX,
        p2.len() <= u64::MAX,
        spec_field_bytes(field, p1) + r1 == spec_field_bytes(field, p2) + r2,
    ensures
        p1 == p2,
        r1 == r2,
{
    let tag = (field * 8 + 2) as u64;
    assert(spec_varint(tag) + (spec_varint(p1.len() as u64) + (p1 + r1)) =~= spec_field_bytes(
        field,
        p1,
    ) + r1);
    assert(spec_varint(tag) + (spec_varint(p2.len() as u64) + (p2 + r2)) =~= spec_field_bytes(
        field,
        p2,
    ) + r2);
    lemma_varint_prefix_code(
        tag,
        tag,
        spec_varint(p1.len() as u64) + (p1 + r1),
        spec_varint(p2.len() as u64) + (p2 + r2),
    );
    lemma_varint_prefix_code(p1.len() as u64, p2.len() as u64, p1 + r1, p2 + r2);
    assert(p1.len() == p2.len());
    assert(p1 =~= (p1 + r1).take(p1.len() as int));
    assert(p2 =~= (p2 + r2).take(p2.len() as int));
    assert(r1 =~= (p1 + r1).skip(p1.len() as int));
    assert(r2 =~= (p2 + r2).skip(p2.len() as int));
}

/// A variable-length integer field is recovered unambiguously from a
/// concatenation.
pub proof fn lemma_field_varint_prefix_code(field: u64, v1: u64, v2: u64, r1: Seq<u8>, r2: Seq<u8>)
    requires
        field < 0x1000_0000,
        spec_field_varint(field, v1) + r1 == spec_field_varint(field, v2) + r2,
    ensures
        v1 == v2,
        r1 == r2,
{
    let tag = (field * 8) as u64;
    assert(spec_varint(tag) + (spec_varint(v1) + r1) =~= spec_field_varint(field, v1) + r1);
    assert(spec_varint(tag) + (spec_varint(v2) + r2) =~= spec_field_varint(field, v2) + r2);
    lemma_varint_prefix_code(tag, tag, spec_varint(v1) + r1, spec_varint(v2) + r2);
    lemma_varint_prefix_code(v1, v2, r1, r2);
}

/// Law: the identify encoding is unambiguous — two identify messages
/// with the same canonical encoding are the same message. Together with
/// the decoder's contract this pins the round trip down: decoding the
/// encoding of `m` can only yield `m` itself. The requires only keeps
/// each string's byte length inside the length field's 64-bit range.
pub proof fn lemma_identify_encoding_injective(
    m1: crate::proto::IdentifyModel,
    m2: crate::proto::IdentifyModel,
)
    requires
        spec_encode_identify(m1) == spec_encode_identify(m2),
        encode_utf8(m1.token).len() <= u64::MAX,
        encode_utf8(m2.token).len() <= u64::MAX,
        encode_utf8(m1.client_agent).len() <= u64::MAX,
        encode_utf8(m2.client_agent).len() <= u64::MAX,
    ensures
        m1 == m2,
{
    broadcast use vstd::utf8::encode_utf8_decode_utf8;
    broadcast use vstd::utf8::encode_utf8_valid_utf8;

    let t1 = encode_utf8(m1.token);
    let t2 = encode_utf8(m2.token);
    let a1 = encode_utf8(m1.client_agent);
    let a2 = encode_utf8(m2.client_agent);
    assert(spec_field_bytes(1, t1) + (spec_field_bytes(2, a1) + spec_field_varint(
        3,
        m1.capabilities,
    )) =~= spec_encode_identify(m1));
    assert(spec_field_bytes(1, t2) + (spec_field_bytes(2, a2) + spec_field_varint(
        3,
        m2.capabilities,
    )) =~= spec_encode_identify(m2));
    lemma_field_bytes_prefix_code(
        1,
        t1,
        t2,
        spec_field_bytes(2, a1) + spec_field_varint(3, m1.capabilities),
        spec_field_bytes(2, a2) + spec_field_varint(3, m2.capabilities),
    );
    lemma_field_bytes_prefix_code(
        2,
        a1,
        a2,
        spec_field_varint(3, m1.capabilities),
        spec_field_varint(3, m2.capabilities),
    );
    lemma_field_varint_prefix_code(3, m1.capabilities, m2.capabilities, Seq::empty(), Seq::empty());
    assert(vstd::utf8::decode_utf8(t1) == m1.token);
    assert(vstd::utf8::decode_utf8(t2) == m2.token);
    assert(vstd::utf8::decode_utf8(a1) == m1.client_agent);
    assert(vstd::utf8::decode_utf8(a2) == m2.client_agent);
    assert(m1.token == m2.token);
    assert(m1.client_agent == m2.client_agent);
}

/// Law: the handshake encoding is unambiguous.
pub proof fn lemma_handshake_encoding_injective(
    m1: crate::proto::HandshakeModel,
    m2: crate::proto::HandshakeModel,
)
    requires
        spec_encode_handshake(m1) == spec_encode_handshake(m2),
        encode_utf8(m1.version).len() <= u64::MAX,
        encode_utf8(m2.version).len() <= u64::MAX,
    ensures
        m1 == m2,
{
    broadcast use vstd::utf8::encode_utf8_decode_utf8;
    broadcast use vstd::utf8::encode_utf8_valid_utf8;

    let v1 = encode_utf8(m1.version);
    let v2 = encode_utf8(m2.version);
    assert(spec_field_bytes(1, v1) + Seq::<u8>::empty() =~= spec_encode_handshake(m1));
    assert(spec_field_bytes(1, v2) + Seq::<u8>::empty() =~= spec_encode_handshake(m2));
    lemma_field_bytes_prefix_code(1, v1, v2, Seq::empty(), Seq::empty());
    assert(vstd::utf8::decode_utf8(v1) == m1.version);
    assert(vstd::utf8::decode_utf8(v2) == m2.version);
}

/// True when an event message's content is short enough for the
/// submessage and length fields of the wire format; every real message
/// is, by a huge margin.
pub open spec fn event_message_lengths_in_range(m: crate::proto::EventMessageModel) -> bool {
    encode_utf8(m.content).len() + 0x100 <= u64::MAX
}

/// Law: the event-message encoding is unambiguous.
pub proof fn lemma_event_message_encoding_injective(
    m1: crate::proto::EventMessageModel,
    m2: crate::proto::EventMessageModel,
)
    requires
        spec_encode_event_message(m1) == spec_encode_event_message(m2),
        event_message_lengths_in_range(m1),
        event_message_lengths_in_range(m2),
    ensures
        m1 == m2,
{
    broadcast use vstd::utf8::encode_utf8_decode_utf8;
    broadcast use vstd::utf8::encode_utf8_valid_utf8;

    let c1 = encode_utf8(m1.content);
    let c2 = encode_utf8(m2.content);
    let tail1 = spec_field_varint(3, m1.timestamp_ms) + spec_field_bytes(4, c1);
    let tail2 = spec_field_varint(3, m2.timestamp_ms) + spec_field_bytes(4, c2);
    assert(spec_field_varint(1, m1.channel) + (spec_field_varint(2, m1.author) + tail1)
        =~= spec_encode_event_message(m1));
    assert(spec_field_varint(1, m2.channel) + (spec_field_varint(2, m2.author) + tail2)
        =~= spec_encode_event_message(m2));
    lemma_field_varint_prefix_code(
        1,
        m1.channel,
        m2.channel,
        spec_field_varint(2, m1.author) + tail1,
        spec_field_varint(2, m2.author) + tail2,
    );
    lemma_field_varint_prefix_code(2, m1.author, m2.author, tail1, tail2);
    assert(spec_field_varint(3, m1.timestamp_ms) + spec_field_bytes(4, c1) == spec_field_varint(
        3,
        m2.timestamp_ms,
    ) + spec_field_bytes(4, c2));
    lemma_field_varint_prefix_code(
        3,
        m1.timestamp_ms,
        m2.timestamp_ms,
        spec_field_bytes(4, c1),
        spec_field_bytes(4, c2),
    );
    assert(spec_field_bytes(4, c1) + Seq::<u8>::empty() =~= spec_field_bytes(4, c1));
    assert(spec_field_bytes(4, c2) + Seq::<u8>::empty() =~= spec_field_bytes(4, c2));
    lemma_field_bytes_prefix_code(4, c1, c2, Seq::empty(), Seq::empty());
    assert(vstd::utf8::decode_utf8(c1) == m1.content);
    assert(vstd::utf8::decode_utf8(c2) == m2.content);
}

/// Law: the server-event encoding is unambiguous: the variant tag tells
/// created from edited apart, and the carried message is recovered
/// exactly.
pub proof fn lemma_server_event_encoding_injective(
    m1: crate::proto::ServerEventModel,
    m2: crate::proto::ServerEventModel,
)
    requires
        spec_encode_server_event(m1) == spec_encode_server_event(m2),
        event_message_lengths_in_range(
            match m1 {
                crate::proto::ServerEventModel::MessageCreated(em) => em,
                crate::proto::ServerEventModel::MessageEdited(em) => em,
            },
        ),
        event_message_lengths_in_range(
            match m2 {
                crate::proto::ServerEventModel::MessageCreated(em) => em,
                crate::proto::ServerEventModel::MessageEdited(em) => em,
            },
        ),
    ensures
        m1 == m2,
{
    let em1 = match m1 {
        crate::proto::ServerEventModel::MessageCreated(em) => em,
        crate::proto::ServerEventModel::MessageEdited(em) => em,
    };
    let em2 = match m2 {
        crate::proto::ServerEventModel::MessageCreated(em) => em,
        crate::proto::ServerEventModel::MessageEdited(em) => em,
    };
    let p1 = spec_encode_event_message(em1);
    let p2 = spec_encode_event_message(em2);
    lemma_event_message_length_bound(em1);
    lemma_event_message_length_bound(em2);
    if m1 is MessageCreated != m2 is MessageCreated {
        // Different variants carry different field tags, and the tag is
        // the first byte of the frame.
        assert(spec_varint(10u64) =~= seq![10u8]);
        assert(spec_varint(18u64) =~= seq![18u8]);
        assert(spec_encode_server_event(m1)[0] == (if m1 is MessageCreated {
            10u8
        } else {
            18u8
        }));
        assert(spec_encode_server_event(m2)[0] == (if m2 is MessageCreated {
            10u8
        } else {
            18u8
        }));
        assert(spec_encode_server_event(m1)[0] != spec_encode_server_event(m2)[0]);
    } else {
        let field: u64 = if m1 is MessageCreated {
            1
        } else {
            2
        };
        assert(spec_field_bytes(field, p1) + Seq::<u8>::empty() =~= spec_encode_server_event(m1));
        assert(spec_field_bytes(field, p2) + Seq::<u8>::empty() =~= spec_encode_server_event(m2));
        lemma_field_bytes_prefix_code(field, p1, p2, Seq::empty(), Seq::empty());
        lemma_event_message_encoding_injective(em1, em2);
    }
}

/// An event message's encoding fits the submessage length field whenever
/// its content does: the three integer fields take at most ten bytes
/// each.
proof fn lemma_event_message_length_bound(m: crate::proto::EventMessageModel)
    requires
        event_message_lengths_in_range(m),
    ensures
        spec_encode_event_message(m).len() <= u64::MAX,
{
    lemma_varint_len_le_ten(m.channel);
    lemma_varint_len_le_ten(m.author);
    lemma_varint_len_le_ten(m.timestamp_ms);
    lemma_varint_len_le_ten(8u64);
    lemma_varint_len_le_ten(16u64);
    lemma_varint_len_le_ten(24u64);
    lemma_varint_len_le_ten(34u64);
    lemma_varint_len_le_ten(encode_utf8(m.content).len() as u64);
}

/// True when a client event's content is short enough for the
/// submessage and length fields of the wire format.
pub open spec fn client_event_lengths_in_range(m: crate::proto::ClientEventModel) -> bool {
    match m {
        crate::proto::ClientEventModel::CreateMessage { content, .. } => encode_utf8(content).len()
            + 0x100 <= u64::MAX,
        crate::proto::ClientEventModel::EditMessage { content, .. } => encode_utf8(content).len()
            + 0x100 <= u64::MAX,
    }
}

/// Law: the client-event encoding is unambiguous: the variant tag tells
/// create from edit apart, and the carried action is recovered exactly.
pub proof fn lemma_client_event_encoding_injective(
    m1: crate::proto::ClientEventModel,
    m2: crate::proto::ClientEventModel,
)
    requires
        spec_encode_client_event(m1) == spec_encode_client_event(m2),
        client_event_lengths_in_range(m1),
        client_event_lengths_in_range(m2),
    ensures
        m1 == m2,
{
    broadcast use vstd::utf8::encode_utf8_decode_utf8;
    broadcast use vstd::utf8::encode_utf8_valid_utf8;

    let p1 = match m1 {
        crate::proto::ClientEventModel::CreateMessage { channel, content } => {
            spec_encode_create_message(channel, content)
        },
        crate::proto::ClientEventModel::EditMessage { channel, timestamp_ms, content } => {
            spec_encode_edit_message(channel, timestamp_ms, content)
        },
    };
    let p2 = match m2 {
        crate::proto::ClientEventModel::CreateMessage { channel, content } => {
            spec_encode_create_message(channel, content)
        },
        crate::proto::ClientEventModel::EditMessage { channel, timestamp_ms, content } => {
            spec_encode_edit_message(channel, timestamp_ms, content)
        },
    };
    lemma_client_payload_length_bound(m1, p1);
    lemma_client_payload_length_bound(m2, p2);
    if m1 is CreateMessage != m2 is CreateMessage {
        // Different variants carry different field tags, and the tag is
        // the first byte of the frame.
        assert(spec_varint(10u64) =~= seq![10u8]);
        assert(spec_varint(18u64) =~= seq![18u8]);
        assert(spec_encode_client_event(m1)[0] == (if m1 is CreateMessage {
            10u8
        } else {
            18u8
        }));
        assert(spec_encode_client_event(m2)[0] == (if m2 is CreateMessage {
            10u8
        } else {
            18u8
        }));
        assert(spec_encode_client_event(m1)[0] != spec_encode_client_event(m2)[0]);
    } else {
        let field: u64 = if m1 is CreateMessage {
            1
        } else {
            2
        };
        assert(spec_field_bytes(field, p1) + Seq::<u8>::empty() =~= spec_encode_client_event(m1));
        assert(spec_field_bytes(field, p2) + Seq::<u8>::empty() =~= spec_encode_client_event(m2));
        lemma_field_bytes_prefix_code(field, p1, p2, Seq::empty(), Seq::empty());
        if m1 is CreateMessage {
            let c1 = encode_utf8(m1->CreateMessage_content);
            let c2 = encode_utf8(m2->CreateMessage_content);
            assert(spec_field_varint(1, m1->CreateMessage_channel) + spec_field_bytes(2, c1)
                =~= p1);
            assert(spec_field_varint(1, m2->CreateMessage_channel) + spec_field_bytes(2, c2)
                =~= p2);
            lemma_field_varint_prefix_code(
                1,
                m1->CreateMessage_channel,
                m2->CreateMessage_channel,
                spec_field_bytes(2, c1),
                spec_field_bytes(2, c2),
            );
            assert(spec_field_bytes(2, c1) + Seq::<u8>::empty() =~= spec_field_bytes(2, c1));
            assert(spec_field_bytes(2, c2) + Seq::<u8>::empty() =~= spec_field_bytes(2, c2));
            lemma_field_bytes_prefix_code(2, c1, c2, Seq::empty(), Seq::empty());
            assert(vstd::utf8::decode_utf8(c1) == m1->CreateMessage_content);
            assert(vstd::utf8::decode_utf8(c2) == m2->CreateMessage_content);
        } else {
            let c1 = encode_utf8(m1->EditMessage_content);
            let c2 = encode_utf8(m2->EditMessage_content);
            let tail1 = spec_field_varint(2, m1->EditMessage_timestamp_ms) + spec_field_bytes(
                3,
                c1,
            );
            let tail2 = spec_field_varint(2, m2->EditMessage_timestamp_ms) + spec_field_bytes(
                3,
                c2,
            );
            assert(spec_field_varint(1, m1->EditMessage_channel) + tail1 =~= p1);
            assert(spec_field_varint(1, m2->EditMessage_channel) + tail2 =~= p2);
            lemma_field_varint_prefix_code(
                1,
                m1->EditMessage_channel,
                m2->EditMessage_channel,
                tail1,
                tail2,
            );
            lemma_field_varint_prefix_code(
                2,
                m1->EditMessage_timestamp_ms,
                m2->EditMessage_timestamp_ms,
                spec_field_bytes(3, c1),
                spec_field_bytes(3, c2),
            );
            assert(spec_field_bytes(3, c1) + Seq::<u8>::empty() =~= spec_field_bytes(3, c1));
            assert(spec_field_bytes(3, c2) + Seq::<u8>::empty() =~= spec_field_bytes(3, c2));
            lemma_field_bytes_prefix_code(3, c1, c2, Seq::empty(), Seq::empty());
            assert(vstd::utf8::decode_utf8(c1) == m1->EditMessage_content);
            assert(vstd::utf8::decode_utf8(c2) == m2->EditMessage_content);
        }
    }
}

/// A client action's submessage fits the outer length field whenever its
/// content does.
proof fn lemma_client_payload_length_bound(m: crate::proto::ClientEventModel, p: Seq<u8>)
    requires
        client_event_lengths_in_range(m),
        m is CreateMessage ==> p == spec_encode_create_message(
            m->CreateMessage_channel,
            m->CreateMessage_content,
        ),
        m is EditMessage ==> p == spec_encode_edit_message(
            m->EditMessage_channel,
            m->EditMessage_timestamp_ms,
            m->EditMessage_content,
        ),
    ensures
        p.len() <= u64::MAX,
{
    lemma_varint_len_le_ten(8u64);
    lemma_varint_len_le_ten(16u64);
    lemma_varint_len_le_ten(18u64);
    lemma_varint_len_le_ten(26u64);
    match m {
        crate::proto::ClientEventModel::CreateMessage { channel, content } => {
            lemma_varint_len_le_ten(channel);
            lemma_varint_len_le_ten(encode_utf8(content).len() as u64);
        },
        crate::proto::ClientEventModel::EditMessage { channel, timestamp_ms, content } => {
            lemma_varint_len_le_ten(channel);
            lemma_varint_len_le_ten(timestamp_ms);
            lemma_varint_len_le_ten(encode_utf8(content).len() as u64);
        },
    }
}

/// A value below one hundred twenty-eight to the `k`-th has at most `k`
/// encoded bytes.
proof fn lemma_varint_len(n: u64, k: nat)
    requires
        k >= 1,
        n < pow128(k),
    ensures
        1 <= spec_varint(n).len() <= k,
    decreases k,
{
    if n >= 0x80 {
        assert(n / 0x80 < pow128((k - 1) as nat)) by (nonlinear_arith)
            requires
                n < pow128(k),
                pow128(k) == 128 * pow128((k - 1) as nat),
                n >= 0x80,
        ;
        lemma_varint_len(n / 0x80, (k - 1) as nat);
    }
}

/// A 64-bit value's variable-length encoding takes at most ten bytes.
proof fn lemma_varint_len_le_ten(n: u64)
    ensures
        1 <= spec_varint(n).len() <= 10,
{
    assert(pow128(10) > u64::MAX) by {
        reveal_with_fuel(pow128, 11);
    }
    lemma_varint_len(n, 10);
}

/// One hundred twenty-eight to the `k`-th power.
pub open spec fn pow128(k: nat) -> nat
    decreases k,
{
    if k == 0 {
        1
    } else {
        128 * pow128((k - 1) as nat)
    }
}

/// Copies the bytes in `[from, to)` out of the buffer.
fn bytes_range(b: &Vec<u8>, from: usize, to: usize) -> (r: Vec<u8>)
    requires
        from <= to <= b@.len(),
    ensures
        r@ == b@.subrange(from as int, to as int),
{
    slice_to_vec(slice_subrange(b.as_slice(), from, to))
}

/// Relies on `String::from_utf8`: the string whose UTF-8 encoding is
/// exactly the given bytes, or nothing when the bytes are not valid
/// UTF-8.
#[verifier::external_body]
fn bytes_to_string(v: Vec<u8>) -> (r: Option<String>)
    ensures
        r matches Some(s) ==> encode_utf8(s@) == v@,
        r is None ==> !vstd::utf8::valid_utf8(v@),
{
    String::from_utf8(v).ok()
}

/// Appends a length-delimited string field.
fn push_string_field(out: &mut Vec<u8>, field: u64, s: &str)
    requires
        field < 0x1000_0000,
    ensures
        final(out)@ == old(out)@ + spec_field_bytes(field, encode_utf8(s@)),
{
    let payload = s.as_bytes_vec();
    push_varint(out, field * 8 + 2);
    push_varint(out, payload.len() as u64);
    let mut payload = payload;
    out.append(&mut payload);
    assert(out@ =~= old(out)@ + spec_field_bytes(field, encode_utf8(s@)));
}

/// Appends a variable-length integer field.
fn push_varint_field(out: &mut Vec<u8>, field: u64, value: u64)
    requires
        field < 0x1000_0000,
    ensures
        final(out)@ == old(out)@ + spec_field_varint(field, value),
{
    push_varint(out, field * 8);
    push_varint(out, value);
    assert(out@ =~= old(out)@ + spec_field_varint(field, value));
}

/// The canonical encoding of a string field with the given tag and text
/// sits at position `pos` of `b`. Only texts whose byte length fits the
/// 64-bit length field count; every real string's does.
pub open spec fn string_field_at(b: Seq<u8>, pos: int, field: u64, t: Seq<char>) -> bool {
    let enc = spec_field_bytes(field, encode_utf8(t));
    &&& encode_utf8(t).len() <= u64::MAX
    &&& 0 <= pos
    &&& pos + enc.len() <= b.len()
    &&& b.subrange(pos, pos + enc.len() as int) == enc
}

/// The canonical encoding of an integer field with the given tag and
/// value sits at position `pos` of `b`.
pub open spec fn varint_field_at(b: Seq<u8>, pos: int, field: u64, v: u64) -> bool {
    let enc = spec_field_varint(field, v);
    &&& 0 <= pos
    &&& pos + enc.len() <= b.len()
    &&& b.subrange(pos, pos + enc.len() as int) == enc
}

/// A string field at a position breaks into its tag, its length and its
/// payload, each at its own position.
proof fn lemma_string_field_structure(b: Seq<u8>, pos: int, field: u64, t: Seq<char>)
    requires
        field < 0x1000_0000,
        string_field_at(b, pos, field, t),
    ensures
        ({
            let tag = (field * 8 + 2) as u64;
            let payload = encode_utf8(t);
            let p1 = pos + spec_varint(tag).len();
            let p2 = p1 + spec_varint(payload.len() as u64).len();
            &&& varint_at(b, pos, tag)
            &&& varint_at(b, p1, payload.len() as u64)
            &&& b.subrange(p2, p2 + payload.len() as int) == payload
        }),
{
    let tag = (field * 8 + 2) as u64;
    let payload = encode_utf8(t);
    let enc = spec_field_bytes(field, payload);
    let lt = spec_varint(tag).len() as int;
    let ll = spec_varint(payload.len() as u64).len() as int;
    assert(b.subrange(pos, pos + lt) =~= spec_varint(tag)) by {
        assert forall|i: int| 0 <= i < lt implies b[pos + i] == #[trigger] spec_varint(tag)[i] by {
            assert(b.subrange(pos, pos + enc.len() as int)[i] == enc[i]);
        }
    }
    assert(b.subrange(pos + lt, pos + lt + ll) =~= spec_varint(payload.len() as u64)) by {
        assert forall|i: int| 0 <= i < ll implies b[pos + lt + i] == #[trigger] spec_varint(
            payload.len() as u64,
        )[i] by {
            assert(b.subrange(pos, pos + enc.len() as int)[lt + i] == enc[lt + i]);
        }
    }
    assert(b.subrange(pos + lt + ll, pos + lt + ll + payload.len() as int) =~= payload) by {
        assert forall|i: int| 0 <= i < payload.len() implies b[pos + lt + ll + i]
            == #[trigger] payload[i] by {
            assert(b.subrange(pos, pos + enc.len() as int)[lt + ll + i] == enc[lt + ll + i]);
        }
    }
}

/// An integer field at a position breaks into its tag and its value,
/// each at its own position.
proof fn lemma_varint_field_structure(b: Seq<u8>, pos: int, field: u64, v: u64)
    requires
        field < 0x1000_0000,
        varint_field_at(b, pos, field, v),
    ensures
        varint_at(b, pos, (field * 8) as u64),
        varint_at(b, pos + spec_varint((field * 8) as u64).len(), v),
{
    let tag = (field * 8) as u64;
    let enc = spec_field_varint(field, v);
    let lt = spec_varint(tag).len() as int;
    let lv = spec_varint(v).len() as int;
    assert(b.subrange(pos, pos + lt) =~= spec_varint(tag)) by {
        assert forall|i: int| 0 <= i < lt implies b[pos + i] == #[trigger] spec_varint(tag)[i] by {
            assert(b.subrange(pos, pos + enc.len() as int)[i] == enc[i]);
        }
    }
    assert(b.subrange(pos + lt, pos + lt + lv) =~= spec_varint(v)) by {
        assert forall|i: int| 0 <= i < lv implies b[pos + lt + i] == #[trigger] spec_varint(v)[i]
            by {
            assert(b.subrange(pos, pos + enc.len() as int)[lt + i] == enc[lt + i]);
        }
    }
}

/// Reads a length-delimited string field with the given tag: the tag,
/// the length, and that many bytes of valid UTF-8. It fails exactly when
/// no string field with that tag sits at `pos`.
fn take_string_field(b: &Vec<u8>, pos: usize, field: u64) -> (r: Option<(String, usize)>)
    requires
        pos <= b@.len(),
        field < 0x1000_0000,
    ensures
        r matches Some(v) ==> pos < v.1 <= b@.len() && b@.subrange(pos as int, v.1 as int)
            == spec_field_bytes(field, encode_utf8(v.0@)),
        r matches Some(v) ==> string_field_at(b@, pos as int, field, v.0@) && v.1 == pos
            + spec_field_bytes(field, encode_utf8(v.0@)).len(),
        r is None ==> forall|t: Seq<char>| !string_field_at(b@, pos as int, field, t),
{
    proof {
        assert forall|t: Seq<char>| string_field_at(b@, pos as int, field, t) implies varint_at(
            b@,
            pos as int,
            (field * 8 + 2) as u64,
        ) by {
            lemma_string_field_structure(b@, pos as int, field, t);
        }
    }
    let (tag, p1) = match take_varint(b, pos) {
        Some(v) => v,
        None => {
            // No integer encoding at `pos`, so no field tag either.
            return None;
        },
    };
    // Any string field here would put its own tag at `pos`; the tag the
    // buffer actually holds is unique.
    proof {
        assert forall|t: Seq<char>| string_field_at(b@, pos as int, field, t) implies tag == field
            * 8 + 2 && varint_at(b@, p1 as int, encode_utf8(t).len() as u64) by {
            lemma_string_field_structure(b@, pos as int, field, t);
            lemma_varint_at_unique(b@, pos as int, tag, (field * 8 + 2) as u64);
        }
    }
    if tag != field * 8 + 2 {
        return None;
    }
    let (len, p2) = match take_varint(b, p1) {
        Some(v) => v,
        None => {
            return None;
        },
    };
    proof {
        assert forall|t: Seq<char>| string_field_at(b@, pos as int, field, t) implies len
            == encode_utf8(t).len() && p2 + encode_utf8(t).len() <= b@.len() && b@.subrange(
            p2 as int,
            p2 + encode_utf8(t).len() as int,
        ) == encode_utf8(t) by {
            lemma_string_field_structure(b@, pos as int, field, t);
            lemma_varint_at_unique(b@, p1 as int, len, encode_utf8(t).len() as u64);
        }
    }
    if len > (b.len() - p2) as u64 {
        return None;
    }
    let end = p2 + (len as usize);
    let payload = bytes_range(b, p2, end);
    let s = match bytes_to_string(payload) {
        Some(s) => s,
        None => {
            // The payload is not UTF-8, so it is no string's encoding.
            proof {
                broadcast use vstd::utf8::encode_utf8_valid_utf8;

                assert forall|t: Seq<char>| !string_field_at(b@, pos as int, field, t) by {
                    if string_field_at(b@, pos as int, field, t) {
                        assert(b@.subrange(p2 as int, end as int) == encode_utf8(t));
                    }
                }
            }
            return None;
        },
    };
    assert(b@.subrange(pos as int, end as int) =~= b@.subrange(pos as int, p1 as int)
        + b@.subrange(p1 as int, p2 as int) + b@.subrange(p2 as int, end as int));
    Some((s, end))
}

/// Reads a variable-length integer field with the given tag. It fails
/// exactly when no integer field with that tag sits at `pos`.
fn take_varint_field(b: &Vec<u8>, pos: usize, field: u64) -> (r: Option<(u64, usize)>)
    requires
        pos <= b@.len(),
        field < 0x1000_0000,
    ensures
        r matches Some(v) ==> pos < v.1 <= b@.len() && b@.subrange(pos as int, v.1 as int)
            == spec_field_varint(field, v.0),
        r matches Some(v) ==> varint_field_at(b@, pos as int, field, v.0) && v.1 == pos
            + spec_field_varint(field, v.0).len(),
        r is None ==> forall|v: u64| !varint_field_at(b@, pos as int, field, v),
{
    proof {
        assert forall|v: u64| #[trigger] varint_field_at(b@, pos as int, field, v)
            implies varint_at(b@, pos as int, (field * 8) as u64) by {
            lemma_varint_field_structure(b@, pos as int, field, v);
        }
    }
    let (tag, p1) = match take_varint(b, pos) {
        Some(v) => v,
        None => {
            return None;
        },
    };
    proof {
        assert forall|v: u64| #[trigger] varint_field_at(b@, pos as int, field, v) implies tag
            == field * 8 && varint_at(b@, p1 as int, v) by {
            lemma_varint_field_structure(b@, pos as int, field, v);
            lemma_varint_at_unique(b@, pos as int, tag, (field * 8) as u64);
        }
    }
    if tag != field * 8 {
        return None;
    }
    let (value, p2) = match take_varint(b, p1) {
        Some(v) => v,
        None => {
            return None;
        },
    };
    assert(b@.subrange(pos as int, p2 as int) =~= b@.subrange(pos as int, p1 as int)
        + b@.subrange(p1 as int, p2 as int));
    Some((value, p2))
}

/// At most one text's string field with a given tag sits at a position.
proof fn lemma_string_field_at_same_pos(b: Seq<u8>, pos: int, field: u64, t1: Seq<char>, t2: Seq<char>)
    requires
        field < 0x1000_0000,
        string_field_at(b, pos, field, t1),
        string_field_at(b, pos, field, t2),
    ensures
        t1 == t2,
        encode_utf8(t1) == encode_utf8(t2),
{
    broadcast use vstd::utf8::encode_utf8_decode_utf8;

    let tag = (field * 8 + 2) as u64;
    let lt = spec_varint(tag).len() as int;
    lemma_string_field_structure(b, pos, field, t1);
    lemma_string_field_structure(b, pos, field, t2);
    lemma_varint_at_unique(
        b,
        pos + lt,
        encode_utf8(t1).len() as u64,
        encode_utf8(t2).len() as u64,
    );
    let ll = spec_varint(encode_utf8(t1).len() as u64).len() as int;
    assert(encode_utf8(t1) == b.subrange(pos + lt + ll, pos + lt + ll + encode_utf8(t1).len()));
    assert(encode_utf8(t2) == b.subrange(pos + lt + ll, pos + lt + ll + encode_utf8(t2).len()));
    assert(vstd::utf8::decode_utf8(encode_utf8(t1)) == t1);
    assert(vstd::utf8::decode_utf8(encode_utf8(t2)) == t2);
}

/// At most one value's integer field with a given tag sits at a position.
proof fn lemma_varint_field_at_same_pos(b: Seq<u8>, pos: int, field: u64, v1: u64, v2: u64)
    requires
        field < 0x1000_0000,
        varint_field_at(b, pos, field, v1),
        varint_field_at(b, pos, field, v2),
    ensures
        v1 == v2,
{
    let lt = spec_varint((field * 8) as u64).len() as int;
    lemma_varint_field_structure(b, pos, field, v1);
    lemma_varint_field_structure(b, pos, field, v2);
    lemma_varint_at_unique(b, pos + lt, v1, v2);
}

/// A buffer equal to a concatenation of three pieces holds each piece at
/// its own position.
proof fn lemma_concat3_parts(b: Seq<u8>, e1: Seq<u8>, e2: Seq<u8>, e3: Seq<u8>)
    requires
        b == e1 + e2 + e3,
    ensures
        b.subrange(0, e1.len() as int) == e1,
        b.subrange(e1.len() as int, e1.len() as int + e2.len() as int) == e2,
        b.subrange(
            e1.len() as int + e2.len() as int,
            e1.len() as int + e2.len() as int + e3.len() as int,
        ) == e3,
{
    assert(b.subrange(0, e1.len() as int) =~= e1);
    assert(b.subrange(e1.len() as int, e1.len() as int + e2.len() as int) =~= e2);
    assert(b.subrange(
        e1.len() as int + e2.len() as int,
        e1.len() as int + e2.len() as int + e3.len() as int,
    ) =~= e3);
}

/// The canonical encoding of a handshake: one string field holding the
/// protocol version.
pub open spec fn spec_encode_handshake(m: crate::proto::HandshakeModel) -> Seq<u8> {
    spec_field_bytes(1, encode_utf8(m.version))
}

/// Encodes a handshake message.
pub fn encode_handshake(m: &GatewayHandshake) -> (out: Vec<u8>)
    ensures
        out@ == spec_encode_handshake(m@),
{
    let mut out: Vec<u8> = Vec::new();
    push_string_field(&mut out, 1, m.version.as_str());
    assert(out@ =~= spec_encode_handshake(m@));
    out
}

/// True when a handshake message's version is short enough for the wire
/// format's 64-bit length field; every real message's is.
pub open spec fn handshake_lengths_in_range(m: crate::proto::HandshakeModel) -> bool {
    encode_utf8(m.version).len() <= u64::MAX
}

/// Decodes a handshake frame: succeeds on exactly the canonical
/// handshake encodings, and then returns the message those bytes encode.
pub fn decode_handshake(b: &Vec<u8>) -> (r: Option<GatewayHandshake>)
    ensures
        r matches Some(m) ==> b@ == spec_encode_handshake(m@),
        (exists|m: crate::proto::HandshakeModel|
            b@ == spec_encode_handshake(m) && handshake_lengths_in_range(m)) ==> r is Some,
{
    proof {
        if exists|m: crate::proto::HandshakeModel|
            b@ == spec_encode_handshake(m) && handshake_lengths_in_range(m) {
            let m = choose|m: crate::proto::HandshakeModel|
                b@ == spec_encode_handshake(m) && handshake_lengths_in_range(m);
            assert(b@.subrange(0, b@.len() as int) =~= b@);
            assert(string_field_at(b@, 0, 1, m.version));
        }
    }
    let (version, p1) = match take_string_field(b, 0, 1) {
        Some(v) => v,
        None => {
            return None;
        },
    };
    proof {
        if exists|m: crate::proto::HandshakeModel|
            b@ == spec_encode_handshake(m) && handshake_lengths_in_range(m) {
            let m = choose|m: crate::proto::HandshakeModel|
                b@ == spec_encode_handshake(m) && handshake_lengths_in_range(m);
            lemma_string_field_at_same_pos(b@, 0, 1, version@, m.version);
        }
    }
    if p1 != b.len() {
        return None;
    }
    let m = GatewayHandshake { version };
    assert(b@ =~= b@.subrange(0, p1 as int));
    Some(m)
}

/// The canonical encoding of an identify message: token, client agent,
/// capability flags.
pub open spec fn spec_encode_identify(m: crate::proto::IdentifyModel) -> Seq<u8> {
    spec_field_bytes(1, encode_utf8(m.token)) + spec_field_bytes(2, encode_utf8(m.client_agent))
        + spec_field_varint(3, m.capabilities)
}

/// Encodes an identify message.
pub fn encode_identify(m: &GatewayIdentify) -> (out: Vec<u8>)
    ensures
        out@ == spec_encode_identify(m@),
{
    let mut out: Vec<u8> = Vec::new();
    push_string_field(&mut out, 1, m.token.as_str());
    push_string_field(&mut out, 2, m.client_agent.as_str());
    push_varint_field(&mut out, 3, m.capabilities);
    assert(out@ =~= spec_encode_identify(m@));
    out
}

/// True when an identify message's strings are short enough for the wire
/// format's 64-bit length fields; every real message's are.
pub open spec fn identify_lengths_in_range(m: crate::proto::IdentifyModel) -> bool {
    encode_utf8(m.token).len() <= u64::MAX && encode_utf8(m.client_agent).len() <= u64::MAX
}

/// Decodes an identify frame: succeeds on exactly the canonical identify
/// encodings, and then returns the message those bytes encode.
pub fn decode_identify(b: &Vec<u8>) -> (r: Option<GatewayIdentify>)
    ensures
        r matches Some(m) ==> b@ == spec_encode_identify(m@),
        (exists|m: crate::proto::IdentifyModel|
            b@ == spec_encode_identify(m) && identify_lengths_in_range(m)) ==> r is Some,
{
    proof {
        if exists|m: crate::proto::IdentifyModel|
            b@ == spec_encode_identify(m) && identify_lengths_in_range(m) {
            let m = choose|m: crate::proto::IdentifyModel|
                b@ == spec_encode_identify(m) && identify_lengths_in_range(m);
            lemma_concat3_parts(
                b@,
                spec_field_bytes(1, encode_utf8(m.token)),
                spec_field_bytes(2, encode_utf8(m.client_agent)),
                spec_field_varint(3, m.capabilities),
            );
            assert(string_field_at(b@, 0, 1, m.token));
        }
    }
    let (token, p1) = match take_string_field(b, 0, 1) {
        Some(v) => v,
        None => {
            return None;
        },
    };
    proof {
        if exists|m: crate::proto::IdentifyModel|
            b@ == spec_encode_identify(m) && identify_lengths_in_range(m) {
            let m = choose|m: crate::proto::IdentifyModel|
                b@ == spec_encode_identify(m) && identify_lengths_in_range(m);
            lemma_concat3_parts(
                b@,
                spec_field_bytes(1, encode_utf8(m.token)),
                spec_field_bytes(2, encode_utf8(m.client_agent)),
                spec_field_varint(3, m.capabilities),
            );
            lemma_string_field_at_same_pos(b@, 0, 1, token@, m.token);
            assert(string_field_at(b@, p1 as int, 2, m.client_agent));
        }
    }
    let (client_agent, p2) = match take_string_field(b, p1, 2) {
        Some(v) => v,
        None => {
            return None;
        },
    };
    proof {
        if exists|m: crate::proto::IdentifyModel|
            b@ == spec_encode_identify(m) && identify_lengths_in_range(m) {
            let m = choose|m: crate::proto::IdentifyModel|
                b@ == spec_encode_identify(m) && identify_lengths_in_range(m);
            lemma_concat3_parts(
                b@,
                spec_field_bytes(1, encode_utf8(m.token)),
                spec_field_bytes(2, encode_utf8(m.client_agent)),
                spec_field_varint(3, m.capabilities),
            );
            lemma_string_field_at_same_pos(b@, 0, 1, token@, m.token);
            lemma_string_field_at_same_pos(b@, p1 as int, 2, client_agent@, m.client_agent);
            assert(varint_field_at(b@, p2 as int, 3, m.capabilities));
        }
    }
    let (capabilities, p3) = match take_varint_field(b, p2, 3) {
        Some(v) => v,
        None => {
            return None;
        },
    };
    proof {
        if exists|m: crate::proto::IdentifyModel|
            b@ == spec_encode_identify(m) && identify_lengths_in_range(m) {
            let m = choose|m: crate::proto::IdentifyModel|
                b@ == spec_encode_identify(m) && identify_lengths_in_range(m);
            lemma_concat3_parts(
                b@,
                spec_field_bytes(1, encode_utf8(m.token)),
                spec_field_bytes(2, encode_utf8(m.client_agent)),
                spec_field_varint(3, m.capabilities),
            );
            lemma_string_field_at_same_pos(b@, 0, 1, token@, m.token);
            lemma_string_field_at_same_pos(b@, p1 as int, 2, client_agent@, m.client_agent);
            lemma_varint_field_at_same_pos(b@, p2 as int, 3, capabilities, m.capabilities);
            assert(p3 == b@.len());
        }
    }
    if p3 != b.len() {
        return None;
    }
    let m = GatewayIdentify { token, client_agent, capabilities };
    assert(b@ =~= b@.subrange(0, p1 as int) + b@.subrange(p1 as int, p2 as int) + b@.subrange(
        p2 as int,
        p3 as int,
    ));
    Some(m)
}

/// The canonical encoding of a length-delimited field with the given tag
/// and raw payload sits at position `pos` of `b`.
pub open spec fn bytes_field_at(b: Seq<u8>, pos: int, field: u64, payload: Seq<u8>) -> bool {
    let enc = spec_field_bytes(field, payload);
    &&& payload.len() <= u64::MAX
    &&& 0 <= pos
    &&& pos + enc.len() <= b.len()
    &&& b.subrange(pos, pos + enc.len() as int) == enc
}

/// A length-delimited field at a position breaks into its tag, its
/// length and its payload, each at its own position.
proof fn lemma_bytes_field_structure(b: Seq<u8>, pos: int, field: u64, payload: Seq<u8>)
    requires
        field < 0x1000_0000,
        bytes_field_at(b, pos, field, payload),
    ensures
        ({
            let tag = (field * 8 + 2) as u64;
            let p1 = pos + spec_varint(tag).len();
            let p2 = p1 + spec_varint(payload.len() as u64).len();
            &&& varint_at(b, pos, tag)
            &&& varint_at(b, p1, payload.len() as u64)
            &&& b.subrange(p2, p2 + payload.len() as int) == payload
        }),
{
    let tag = (field * 8 + 2) as u64;
    let enc = spec_field_bytes(field, payload);
    let lt = spec_varint(tag).len() as int;
    let ll = spec_varint(payload.len() as u64).len() as int;
    assert(b.subrange(pos, pos + lt) =~= spec_varint(tag)) by {
        assert forall|i: int| 0 <= i < lt implies b[pos + i] == #[trigger] spec_varint(tag)[i] by {
            assert(b.subrange(pos, pos + enc.len() as int)[i] == enc[i]);
        }
    }
    assert(b.subrange(pos + lt, pos + lt + ll) =~= spec_varint(payload.len() as u64)) by {
        assert forall|i: int| 0 <= i < ll implies b[pos + lt + i] == #[trigger] spec_varint(
            payload.len() as u64,
        )[i] by {
            assert(b.subrange(pos, pos + enc.len() as int)[lt + i] == enc[lt + i]);
        }
    }
    assert(b.subrange(pos + lt + ll, pos + lt + ll + payload.len() as int) =~= payload) by {
        assert forall|i: int| 0 <= i < payload.len() implies b[pos + lt + ll + i]
            == #[trigger] payload[i] by {
            assert(b.subrange(pos, pos + enc.len() as int)[lt + ll + i] == enc[lt + ll + i]);
        }
    }
}

/// A buffer equal to a concatenation of two pieces holds each piece at
/// its own position.
proof fn lemma_concat2_parts(b: Seq<u8>, e1: Seq<u8>, e2: Seq<u8>)
    requires
        b == e1 + e2,
    ensures
        b.subrange(0, e1.len() as int) == e1,
        b.subrange(e1.len() as int, e1.len() as int + e2.len() as int) == e2,
{
    assert(b.subrange(0, e1.len() as int) =~= e1);
    assert(b.subrange(e1.len() as int, e1.len() as int + e2.len() as int) =~= e2);
}

/// A piece of a known segment of `b` sits at its absolute position in
/// `b` itself.
proof fn lemma_piece_at(b: Seq<u8>, pos: int, end: int, enc: Seq<u8>, off: int, piece: Seq<u8>)
    requires
        0 <= pos <= end <= b.len(),
        b.subrange(pos, end) == enc,
        0 <= off,
        off + piece.len() <= enc.len(),
        enc.subrange(off, off + piece.len() as int) == piece,
    ensures
        b.subrange(pos + off, pos + off + piece.len() as int) == piece,
{
    assert(b.subrange(pos + off, pos + off + piece.len() as int) =~= piece) by {
        assert forall|i: int| 0 <= i < piece.len() implies b[pos + off + i] == #[trigger] piece[i]
            by {
            assert(b.subrange(pos, end)[off + i] == enc[off + i]);
            assert(enc.subrange(off, off + piece.len() as int)[i] == piece[i]);
        }
    }
}

/// The canonical encoding of the message carried by a gateway event:
/// channel, author, timestamp, content.
pub open spec fn spec_encode_event_message(m: crate::proto::EventMessageModel) -> Seq<u8> {
    spec_field_varint(1, m.channel) + spec_field_varint(2, m.author) + spec_field_varint(
        3,
        m.timestamp_ms,
    ) + spec_field_bytes(4, encode_utf8(m.content))
}

/// Encodes the message carried by a gateway event.
pub fn encode_event_message(m: &EventMessage) -> (out: Vec<u8>)
    ensures
        out@ == spec_encode_event_message(m@),
{
    let mut out: Vec<u8> = Vec::new();
    push_varint_field(&mut out, 1, m.channel);
    push_varint_field(&mut out, 2, m.author);
    push_varint_field(&mut out, 3, m.timestamp_ms);
    push_string_field(&mut out, 4, m.content.as_str());
    assert(out@ =~= spec_encode_event_message(m@));
    out
}

/// An event-message encoding filling `b[pos..end]` holds its four fields
/// at their own positions.
proof fn lemma_event_message_fields(
    b: Seq<u8>,
    pos: int,
    end: int,
    em: crate::proto::EventMessageModel,
)
    requires
        0 <= pos <= end <= b.len(),
        b.subrange(pos, end) == spec_encode_event_message(em),
        event_message_lengths_in_range(em),
    ensures
        ({
            let f1 = spec_field_varint(1, em.channel);
            let f2 = spec_field_varint(2, em.author);
            let f3 = spec_field_varint(3, em.timestamp_ms);
            let f4 = spec_field_bytes(4, encode_utf8(em.content));
            &&& varint_field_at(b, pos, 1, em.channel)
            &&& varint_field_at(b, pos + f1.len(), 2, em.author)
            &&& varint_field_at(b, pos + f1.len() + f2.len(), 3, em.timestamp_ms)
            &&& string_field_at(b, pos + f1.len() + f2.len() + f3.len(), 4, em.content)
            &&& end == pos + f1.len() + f2.len() + f3.len() + f4.len()
        }),
{
    let enc = spec_encode_event_message(em);
    let f1 = spec_field_varint(1, em.channel);
    let f2 = spec_field_varint(2, em.author);
    let f3 = spec_field_varint(3, em.timestamp_ms);
    let f4 = spec_field_bytes(4, encode_utf8(em.content));
    assert(enc.subrange(0, f1.len() as int) =~= f1);
    assert(enc.subrange(f1.len() as int, f1.len() as int + f2.len() as int) =~= f2);
    assert(enc.subrange(
        f1.len() as int + f2.len() as int,
        f1.len() as int + f2.len() as int + f3.len() as int,
    ) =~= f3);
    assert(enc.subrange(
        f1.len() as int + f2.len() as int + f3.len() as int,
        enc.len() as int,
    ) =~= f4);
    lemma_piece_at(b, pos, end, enc, 0, f1);
    lemma_piece_at(b, pos, end, enc, f1.len() as int, f2);
    lemma_piece_at(b, pos, end, enc, f1.len() as int + f2.len() as int, f3);
    lemma_piece_at(b, pos, end, enc, f1.len() as int + f2.len() as int + f3.len() as int, f4);
}

/// Decodes an event message out of `b[pos..end]`: succeeds on exactly
/// the canonical event-message encodings of that range, and then returns
/// the message it is.
fn decode_event_message_range(b: &Vec<u8>, pos: usize, end: usize) -> (r: Option<EventMessage>)
    requires
        pos <= end <= b@.len(),
    ensures
        r matches Some(m) ==> b@.subrange(pos as int, end as int) == spec_encode_event_message(m@),
        (exists|em: crate::proto::EventMessageModel|
            b@.subrange(pos as int, end as int) == spec_encode_event_message(em)
                && event_message_lengths_in_range(em)) ==> r is Some,
{
    proof {
        if exists|em: crate::proto::EventMessageModel|
            b@.subrange(pos as int, end as int) == spec_encode_event_message(em)
                && event_message_lengths_in_range(em) {
            let em = choose|em: crate::proto::EventMessageModel|
                b@.subrange(pos as int, end as int) == spec_encode_event_message(em)
                    && event_message_lengths_in_range(em);
            lemma_event_message_fields(b@, pos as int, end as int, em);
        }
    }
    let (channel, p1) = match take_varint_field(b, pos, 1) {
        Some(v) => v,
        None => {
            return None;
        },
    };
    proof {
        if exists|em: crate::proto::EventMessageModel|
            b@.subrange(pos as int, end as int) == spec_encode_event_message(em)
                && event_message_lengths_in_range(em) {
            let em = choose|em: crate::proto::EventMessageModel|
                b@.subrange(pos as int, end as int) == spec_encode_event_message(em)
                    && event_message_lengths_in_range(em);
            lemma_event_message_fields(b@, pos as int, end as int, em);
            lemma_varint_field_at_same_pos(b@, pos as int, 1, channel, em.channel);
        }
    }
    if p1 > end {
        return None;
    }
    let (author, p2) = match take_varint_field(b, p1, 2) {
        Some(v) => v,
        None => {
            return None;
        },
    };
    proof {
        if exists|em: crate::proto::EventMessageModel|
            b@.subrange(pos as int, end as int) == spec_encode_event_message(em)
                && event_message_lengths_in_range(em) {
            let em = choose|em: crate::proto::EventMessageModel|
                b@.subrange(pos as int, end as int) == spec_encode_event_message(em)
                    && event_message_lengths_in_range(em);
            lemma_event_message_fields(b@, pos as int, end as int, em);
            lemma_varint_field_at_same_pos(b@, pos as int, 1, channel, em.channel);
            lemma_varint_field_at_same_pos(b@, p1 as int, 2, author, em.author);
        }
    }
    if p2 > end {
        return None;
    }
    let (timestamp_ms, p3) = match take_varint_field(b, p2, 3) {
        Some(v) => v,
        None => {
            return None;
        },
    };
    proof {
        if exists|em: crate::proto::EventMessageModel|
            b@.subrange(pos as int, end as int) == spec_encode_event_message(em)
                && event_message_lengths_in_range(em) {
            let em = choose|em: crate::proto::EventMessageModel|
                b@.subrange(pos as int, end as int) == spec_encode_event_message(em)
                    && event_message_lengths_in_range(em);
            lemma_event_message_fields(b@, pos as int, end as int, em);
            lemma_varint_field_at_same_pos(b@, pos as int, 1, channel, em.channel);
            lemma_varint_field_at_same_pos(b@, p1 as int, 2, author, em.author);
            lemma_varint_field_at_same_pos(b@, p2 as int, 3, timestamp_ms, em.timestamp_ms);
        }
    }
    if p3 > end {
        return None;
    }
    let (content, p4) = match take_string_field(b, p3, 4) {
        Some(v) => v,
        None => {
            return None;
        },
    };
    proof {
        if exists|em: crate::proto::EventMessageModel|
            b@.subrange(pos as int, end as int) == spec_encode_event_message(em)
                && event_message_lengths_in_range(em) {
            let em = choose|em: crate::proto::EventMessageModel|
                b@.subrange(pos as int, end as int) == spec_encode_event_message(em)
                    && event_message_lengths_in_range(em);
            lemma_event_message_fields(b@, pos as int, end as int, em);
            lemma_varint_field_at_same_pos(b@, pos as int, 1, channel, em.channel);
            lemma_varint_field_at_same_pos(b@, p1 as int, 2, author, em.author);
            lemma_varint_field_at_same_pos(b@, p2 as int, 3, timestamp_ms, em.timestamp_ms);
            lemma_string_field_at_same_pos(b@, p3 as int, 4, content@, em.content);
            assert(p4 == end);
        }
    }
    if p4 != end {
        return None;
    }
    let m = EventMessage { channel, author, timestamp_ms, content };
    assert(b@.subrange(pos as int, end as int) =~= b@.subrange(pos as int, p1 as int)
        + b@.subrange(p1 as int, p2 as int) + b@.subrange(p2 as int, p3 as int) + b@.subrange(
        p3 as int,
        p4 as int,
    ));
    Some(m)
}

/// The canonical encoding of a server event: the carried message as a
/// length-delimited submessage under the variant's tag — field 1 for a
/// created message, field 2 for an edited one.
pub open spec fn spec_encode_server_event(m: crate::proto::ServerEventModel) -> Seq<u8> {
    match m {
        crate::proto::ServerEventModel::MessageCreated(em) => spec_field_bytes(
            1,
            spec_encode_event_message(em),
        ),
        crate::proto::ServerEventModel::MessageEdited(em) => spec_field_bytes(
            2,
            spec_encode_event_message(em),
        ),
    }
}

/// Encodes a server event.
pub fn encode_server_event(m: &GatewayServerEvent) -> (out: Vec<u8>)
    ensures
        out@ == spec_encode_server_event(m@),
{
    let mut out: Vec<u8> = Vec::new();
    let (field, em): (u64, &EventMessage) = match m {
        GatewayServerEvent::MessageCreated(em) => (1u64, em),
        GatewayServerEvent::MessageEdited(em) => (2u64, em),
    };
    let mut payload = encode_event_message(em);
    push_varint(&mut out, field * 8 + 2);
    push_varint(&mut out, payload.len() as u64);
    out.append(&mut payload);
    assert(out@ =~= spec_encode_server_event(m@));
    out
}

/// True when a server event's carried message is short enough for the
/// wire format's 64-bit length fields.
pub open spec fn server_event_lengths_in_range(m: crate::proto::ServerEventModel) -> bool {
    event_message_lengths_in_range(
        match m {
            crate::proto::ServerEventModel::MessageCreated(em) => em,
            crate::proto::ServerEventModel::MessageEdited(em) => em,
        },
    )
}

/// A server-event frame is one length-delimited field whose tag names the
/// variant and whose payload is the carried message's encoding.
proof fn lemma_server_event_frame(b: Seq<u8>, m: crate::proto::ServerEventModel)
    requires
        b == spec_encode_server_event(m),
        server_event_lengths_in_range(m),
    ensures
        ({
            let em = match m {
                crate::proto::ServerEventModel::MessageCreated(em) => em,
                crate::proto::ServerEventModel::MessageEdited(em) => em,
            };
            let field: u64 = if m is MessageCreated {
                1
            } else {
                2
            };
            bytes_field_at(b, 0, field, spec_encode_event_message(em))
        }),
{
    let em = match m {
        crate::proto::ServerEventModel::MessageCreated(em) => em,
        crate::proto::ServerEventModel::MessageEdited(em) => em,
    };
    lemma_event_message_length_bound(em);
    assert(b.subrange(0, b.len() as int) =~= b);
}

/// Decodes a server event frame: succeeds on exactly the canonical
/// server event encodings, and then returns the event those bytes
/// encode.
pub fn decode_server_event(b: &Vec<u8>) -> (r: Option<GatewayServerEvent>)
    ensures
        r matches Some(m) ==> b@ == spec_encode_server_event(m@),
        (exists|m: crate::proto::ServerEventModel|
            b@ == spec_encode_server_event(m) && server_event_lengths_in_range(m)) ==> r is Some,
{
    proof {
        if exists|m: crate::proto::ServerEventModel|
            b@ == spec_encode_server_event(m) && server_event_lengths_in_range(m) {
            let m = choose|m: crate::proto::ServerEventModel|
                b@ == spec_encode_server_event(m) && server_event_lengths_in_range(m);
            let em = match m {
                crate::proto::ServerEventModel::MessageCreated(em) => em,
                crate::proto::ServerEventModel::MessageEdited(em) => em,
            };
            let field: u64 = if m is MessageCreated {
                1
            } else {
                2
            };
            lemma_server_event_frame(b@, m);
            lemma_bytes_field_structure(b@, 0, field, spec_encode_event_message(em));
        }
    }
    let (tag, p1) = match take_varint(b, 0) {
        Some(v) => v,
        None => {
            return None;
        },
    };
    proof {
        if exists|m: crate::proto::ServerEventModel|
            b@ == spec_encode_server_event(m) && server_event_lengths_in_range(m) {
            let m = choose|m: crate::proto::ServerEventModel|
                b@ == spec_encode_server_event(m) && server_event_lengths_in_range(m);
            let em = match m {
                crate::proto::ServerEventModel::MessageCreated(em) => em,
                crate::proto::ServerEventModel::MessageEdited(em) => em,
            };
            let field: u64 = if m is MessageCreated {
                1
            } else {
                2
            };
            lemma_server_event_frame(b@, m);
            lemma_bytes_field_structure(b@, 0, field, spec_encode_event_message(em));
            lemma_varint_at_unique(b@, 0, tag, (field * 8 + 2) as u64);
        }
    }
    if tag != 1 * 8 + 2 && tag != 2 * 8 + 2 {
        return None;
    }
    let (len, p2) = match take_varint(b, p1) {
        Some(v) => v,
        None => {
            return None;
        },
    };
    proof {
        if exists|m: crate::proto::ServerEventModel|
            b@ == spec_encode_server_event(m) && server_event_lengths_in_range(m) {
            let m = choose|m: crate::proto::ServerEventModel|
                b@ == spec_encode_server_event(m) && server_event_lengths_in_range(m);
            let em = match m {
                crate::proto::ServerEventModel::MessageCreated(em) => em,
                crate::proto::ServerEventModel::MessageEdited(em) => em,
            };
            let field: u64 = if m is MessageCreated {
                1
            } else {
                2
            };
            lemma_server_event_frame(b@, m);
            lemma_bytes_field_structure(b@, 0, field, spec_encode_event_message(em));
            lemma_varint_at_unique(b@, 0, tag, (field * 8 + 2) as u64);
            lemma_varint_at_unique(
                b@,
                p1 as int,
                len,
                spec_encode_event_message(em).len() as u64,
            );
            assert(b@.subrange(p2 as int, b@.len() as int) == spec_encode_event_message(em));
        }
    }
    if len != (b.len() - p2) as u64 {
        return None;
    }
    let end = b.len();
    let em = match decode_event_message_range(b, p2, end) {
        Some(em) => em,
        None => {
            return None;
        },
    };
    let r = if tag == 1 * 8 + 2 {
        GatewayServerEvent::MessageCreated(em)
    } else {
        GatewayServerEvent::MessageEdited(em)
    };
    assert(b@ =~= b@.subrange(0, p1 as int) + b@.subrange(p1 as int, p2 as int) + b@.subrange(
        p2 as int,
        end as int,
    ));
    Some(r)
}

/// The canonical encoding of the create-message client action.
pub open spec fn spec_encode_create_message(channel: u64, content: Seq<char>) -> Seq<u8> {
    spec_field_varint(1, channel) + spec_field_bytes(2, encode_utf8(content))
}

/// The canonical encoding of the edit-message client action.
pub open spec fn spec_encode_edit_message(
    channel: u64,
    timestamp_ms: u64,
    content: Seq<char>,
) -> Seq<u8> {
    spec_field_varint(1, channel) + spec_field_varint(2, timestamp_ms) + spec_field_bytes(
        3,
        encode_utf8(content),
    )
}

/// The canonical encoding of a client event: the action as a
/// length-delimited submessage under the variant's tag — field 1 to
/// create a message, field 2 to edit one.
pub open spec fn spec_encode_client_event(m: crate::proto::ClientEventModel) -> Seq<u8> {
    match m {
        crate::proto::ClientEventModel::CreateMessage { channel, content } => spec_field_bytes(
            1,
            spec_encode_create_message(channel, content),
        ),
        crate::proto::ClientEventModel::EditMessage { channel, timestamp_ms, content } => {
            spec_field_bytes(2, spec_encode_edit_message(channel, timestamp_ms, content))
        },
    }
}

/// Encodes a client event.
pub fn encode_client_event(m: &GatewayClientEvent) -> (out: Vec<u8>)
    ensures
        out@ == spec_encode_client_event(m@),
{
    let mut out: Vec<u8> = Vec::new();
    let mut payload: Vec<u8> = Vec::new();
    let field: u64 = match m {
        GatewayClientEvent::CreateMessage { channel, content } => {
            push_varint_field(&mut payload, 1, *channel);
            push_string_field(&mut payload, 2, content.as_str());
            assert(payload@ =~= spec_encode_create_message(*channel, content@));
            1u64
        },
        GatewayClientEvent::EditMessage { channel, timestamp_ms, content } => {
            push_varint_field(&mut payload, 1, *channel);
            push_varint_field(&mut payload, 2, *timestamp_ms);
            push_string_field(&mut payload, 3, content.as_str());
            assert(payload@ =~= spec_encode_edit_message(*channel, *timestamp_ms, content@));
            2u64
        },
    };
    push_varint(&mut out, field * 8 + 2);
    push_varint(&mut out, payload.len() as u64);
    out.append(&mut payload);
    assert(out@ =~= spec_encode_client_event(m@));
    out
}

/// A create-message payload filling `b[pos..end]` holds its two fields
/// at their own positions.
proof fn lemma_create_payload_fields(
    b: Seq<u8>,
    pos: int,
    end: int,
    channel: u64,
    content: Seq<char>,
)
    requires
        0 <= pos <= end <= b.len(),
        b.subrange(pos, end) == spec_encode_create_message(channel, content),
        encode_utf8(content).len() + 0x100 <= u64::MAX,
    ensures
        varint_field_at(b, pos, 1, channel),
        string_field_at(b, pos + spec_field_varint(1, channel).len(), 2, content),
        end == pos + spec_field_varint(1, channel).len() + spec_field_bytes(
            2,
            encode_utf8(content),
        ).len(),
{
    let enc = spec_encode_create_message(channel, content);
    let g1 = spec_field_varint(1, channel);
    let g2 = spec_field_bytes(2, encode_utf8(content));
    assert(enc.subrange(0, g1.len() as int) =~= g1);
    assert(enc.subrange(g1.len() as int, enc.len() as int) =~= g2);
    lemma_piece_at(b, pos, end, enc, 0, g1);
    lemma_piece_at(b, pos, end, enc, g1.len() as int, g2);
}

/// An edit-message payload filling `b[pos..end]` holds its three fields
/// at their own positions.
proof fn lemma_edit_payload_fields(
    b: Seq<u8>,
    pos: int,
    end: int,
    channel: u64,
    timestamp_ms: u64,
    content: Seq<char>,
)
    requires
        0 <= pos <= end <= b.len(),
        b.subrange(pos, end) == spec_encode_edit_message(channel, timestamp_ms, content),
        encode_utf8(content).len() + 0x100 <= u64::MAX,
    ensures
        varint_field_at(b, pos, 1, channel),
        varint_field_at(b, pos + spec_field_varint(1, channel).len(), 2, timestamp_ms),
        string_field_at(
            b,
            pos + spec_field_varint(1, channel).len() + spec_field_varint(2, timestamp_ms).len(),
            3,
            content,
        ),
        end == pos + spec_field_varint(1, channel).len() + spec_field_varint(
            2,
            timestamp_ms,
        ).len() + spec_field_bytes(3, encode_utf8(content)).len(),
{
    let enc = spec_encode_edit_message(channel, timestamp_ms, content);
    let g1 = spec_field_varint(1, channel);
    let g2 = spec_field_varint(2, timestamp_ms);
    let g3 = spec_field_bytes(3, encode_utf8(content));
    assert(enc.subrange(0, g1.len() as int) =~= g1);
    assert(enc.subrange(g1.len() as int, g1.len() as int + g2.len() as int) =~= g2);
    assert(enc.subrange(g1.len() as int + g2.len() as int, enc.len() as int) =~= g3);
    lemma_piece_at(b, pos, end, enc, 0, g1);
    lemma_piece_at(b, pos, end, enc, g1.len() as int, g2);
    lemma_piece_at(b, pos, end, enc, g1.len() as int + g2.len() as int, g3);
}

/// The payload a client event's single field carries: the encoding of
/// the carried action.
pub open spec fn spec_client_event_payload(m: crate::proto::ClientEventModel) -> Seq<u8> {
    match m {
        crate::proto::ClientEventModel::CreateMessage { channel, content } => {
            spec_encode_create_message(channel, content)
        },
        crate::proto::ClientEventModel::EditMessage { channel, timestamp_ms, content } => {
            spec_encode_edit_message(channel, timestamp_ms, content)
        },
    }
}

/// The field tag a client event's variant carries on the wire.
pub open spec fn spec_client_event_field(m: crate::proto::ClientEventModel) -> u64 {
    if m is CreateMessage {
        1
    } else {
        2
    }
}

/// A client-event frame is one length-delimited field whose tag names
/// the variant and whose payload is the carried action's encoding.
proof fn lemma_client_event_frame(b: Seq<u8>, m: crate::proto::ClientEventModel)
    requires
        b == spec_encode_client_event(m),
        client_event_lengths_in_range(m),
    ensures
        bytes_field_at(b, 0, spec_client_event_field(m), spec_client_event_payload(m)),
{
    lemma_client_payload_length_bound(m, spec_client_event_payload(m));
    assert(b.subrange(0, b.len() as int) =~= b);
}

/// Decodes a client event frame: succeeds on exactly the canonical
/// client event encodings, and then returns the event those bytes
/// encode.
pub fn decode_client_event(b: &Vec<u8>) -> (r: Option<GatewayClientEvent>)
    ensures
        r matches Some(m) ==> b@ == spec_encode_client_event(m@),
        (exists|m: crate::proto::ClientEventModel|
            b@ == spec_encode_client_event(m) && client_event_lengths_in_range(m)) ==> r is Some,
{
    proof {
        if exists|m: crate::proto::ClientEventModel|
            b@ == spec_encode_client_event(m) && client_event_lengths_in_range(m) {
            let m = choose|m: crate::proto::ClientEventModel|
                b@ == spec_encode_client_event(m) && client_event_lengths_in_range(m);
            lemma_client_event_frame(b@, m);
            lemma_bytes_field_structure(
                b@,
                0,
                spec_client_event_field(m),
                spec_client_event_payload(m),
            );
        }
    }
    let (tag, p1) = match take_varint(b, 0) {
        Some(v) => v,
        None => {
            return None;
        },
    };
    proof {
        if exists|m: crate::proto::ClientEventModel|
            b@ == spec_encode_client_event(m) && client_event_lengths_in_range(m) {
            let m = choose|m: crate::proto::ClientEventModel|
                b@ == spec_encode_client_event(m) && client_event_lengths_in_range(m);
            lemma_client_event_frame(b@, m);
            lemma_bytes_field_structure(
                b@,
                0,
                spec_client_event_field(m),
                spec_client_event_payload(m),
            );
            lemma_varint_at_unique(b@, 0, tag, (spec_client_event_field(m) * 8 + 2) as u64);
        }
    }
    if tag != 1 * 8 + 2 && tag != 2 * 8 + 2 {
        return None;
    }
    let (len, p2) = match take_varint(b, p1) {
        Some(v) => v,
        None => {
            return None;
        },
    };
    proof {
        if exists|m: crate::proto::ClientEventModel|
            b@ == spec_encode_client_event(m) && client_event_lengths_in_range(m) {
            let m = choose|m: crate::proto::ClientEventModel|
                b@ == spec_encode_client_event(m) && client_event_lengths_in_range(m);
            lemma_client_event_frame(b@, m);
            lemma_bytes_field_structure(
                b@,
                0,
                spec_client_event_field(m),
                spec_client_event_payload(m),
            );
            lemma_varint_at_unique(b@, 0, tag, (spec_client_event_field(m) * 8 + 2) as u64);
            lemma_varint_at_unique(
                b@,
                p1 as int,
                len,
                spec_client_event_payload(m).len() as u64,
            );
            assert(b@.subrange(p2 as int, b@.len() as int) == spec_client_event_payload(m));
            lemma_client_payload_length_bound(m, spec_client_event_payload(m));
            if m is CreateMessage {
                lemma_create_payload_fields(
                    b@,
                    p2 as int,
                    b@.len() as int,
                    m->CreateMessage_channel,
                    m->CreateMessage_content,
                );
            } else {
                lemma_edit_payload_fields(
                    b@,
                    p2 as int,
                    b@.len() as int,
                    m->EditMessage_channel,
                    m->EditMessage_timestamp_ms,
                    m->EditMessage_content,
                );
            }
        }
    }
    if len != (b.len() - p2) as u64 {
        return None;
    }
    let end = b.len();
    let r = if tag == 1 * 8 + 2 {
        let (channel, q1) = match take_varint_field(b, p2, 1) {
            Some(v) => v,
            None => {
                return None;
            },
        };
        proof {
            if exists|m: crate::proto::ClientEventModel|
                b@ == spec_encode_client_event(m) && client_event_lengths_in_range(m) {
                let m = choose|m: crate::proto::ClientEventModel|
                    b@ == spec_encode_client_event(m) && client_event_lengths_in_range(m);
                lemma_varint_field_at_same_pos(b@, p2 as int, 1, channel, m->CreateMessage_channel);
            }
        }
        let (content, q2) = match take_string_field(b, q1, 2) {
            Some(v) => v,
            None => {
                return None;
            },
        };
        proof {
            if exists|m: crate::proto::ClientEventModel|
                b@ == spec_encode_client_event(m) && client_event_lengths_in_range(m) {
                let m = choose|m: crate::proto::ClientEventModel|
                    b@ == spec_encode_client_event(m) && client_event_lengths_in_range(m);
                lemma_varint_field_at_same_pos(b@, p2 as int, 1, channel, m->CreateMessage_channel);
                lemma_string_field_at_same_pos(b@, q1 as int, 2, content@, m->CreateMessage_content);
                assert(q2 == end);
            }
        }
        if q2 != end {
            return None;
        }
        assert(b@.subrange(p2 as int, end as int) =~= b@.subrange(p2 as int, q1 as int)
            + b@.subrange(q1 as int, q2 as int));
        GatewayClientEvent::CreateMessage { channel, content }
    } else {
        let (channel, q1) = match take_varint_field(b, p2, 1) {
            Some(v) => v,
            None => {
                return None;
            },
        };
        proof {
            if exists|m: crate::proto::ClientEventModel|
                b@ == spec_encode_client_event(m) && client_event_lengths_in_range(m) {
                let m = choose|m: crate::proto::ClientEventModel|
                    b@ == spec_encode_client_event(m) && client_event_lengths_in_range(m);
                lemma_varint_field_at_same_pos(b@, p2 as int, 1, channel, m->EditMessage_channel);
            }
        }
        let (timestamp_ms, q2) = match take_varint_field(b, q1, 2) {
            Some(v) => v,
            None => {
                return None;
            },
        };
        proof {
            if exists|m: crate::proto::ClientEventModel|
                b@ == spec_encode_client_event(m) && client_event_lengths_in_range(m) {
                let m = choose|m: crate::proto::ClientEventModel|
                    b@ == spec_encode_client_event(m) && client_event_lengths_in_range(m);
                lemma_varint_field_at_same_pos(b@, p2 as int, 1, channel, m->EditMessage_channel);
                lemma_varint_field_at_same_pos(
                    b@,
                    q1 as int,
                    2,
                    timestamp_ms,
                    m->EditMessage_timestamp_ms,
                );
            }
        }
        let (content, q3) = match take_string_field(b, q2, 3) {
            Some(v) => v,
            None => {
                return None;
            },
        };
        proof {
            if exists|m: crate::proto::ClientEventModel|
                b@ == spec_encode_client_event(m) && client_event_lengths_in_range(m) {
                let m = choose|m: crate::proto::ClientEventModel|
                    b@ == spec_encode_client_event(m) && client_event_lengths_in_range(m);
                lemma_varint_field_at_same_pos(b@, p2 as int, 1, channel, m->EditMessage_channel);
                lemma_varint_field_at_same_pos(
                    b@,
                    q1 as int,
                    2,
                    timestamp_ms,
                    m->EditMessage_timestamp_ms,
                );
                lemma_string_field_at_same_pos(b@, q2 as int, 3, content@, m->EditMessage_content);
                assert(q3 == end);
            }
        }
        if q3 != end {
            return None;
        }
        assert(b@.subrange(p2 as int, end as int) =~= b@.subrange(p2 as int, q1 as int)
            + b@.subrange(q1 as int, q2 as int) + b@.subrange(q2 as int, q3 as int));
        GatewayClientEvent::EditMessage { channel, timestamp_ms, content }
    };
    assert(b@ =~= b@.subrange(0, p1 as int) + b@.subrange(p1 as int, p2 as int) + b@.subrange(
        p2 as int,
        end as int,
    ));
    Some(r)
}

} // verus!
