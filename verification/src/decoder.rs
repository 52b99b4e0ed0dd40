//! A streaming decoder: bytes are fed as they arrive, and whole packets come
//! out one at a time.

use vstd::prelude::*;

use crate::codec::limits::{Limits, DEFAULT_MAX_PACKET_SIZE};
use crate::codec::variable_byte_integer::{
    lemma_vbi_decode_canonical, lemma_vbi_decode_prefix, spec_vbi_decode, VariableByteInteger, VBI_MAX,
};
use crate::codec::text::{push_decimal, spec_decimal};
use crate::codec::wire::copy_range;
use vstd::string::StringExecFns;
use crate::codec::MqttVersion;
use crate::error::DecodeError;
use crate::v311;
use crate::v5;

verus! {

/// The bytes that a packet may take beyond its maximum size while it is being
/// received: the fixed header's first byte and up to four length bytes.
pub const MAX_PACKET_OVERHEAD: usize = 5;

/// A packet decoded by a [`Decoder`], of the decoder's protocol version.
#[derive(Debug, Clone, PartialEq, Eq)]
pub enum VersionedIncomingPacket {
    /// An MQTT v5.0 packet.
    V5(v5::packet::IncomingPacket),
    /// An MQTT v3.1.1 packet.
    V311(v311::packet::IncomingPacket),
}

/// The abstract value of a [`VersionedIncomingPacket`].
pub enum VersionedView {
    /// An MQTT v5.0 packet.
    V5(v5::packet::IncomingView),
    /// An MQTT v3.1.1 packet.
    V311(v311::packet::IncomingView),
}

impl View for VersionedIncomingPacket {
    type V = VersionedView;

    open spec fn view(&self) -> VersionedView {
        match self {
            VersionedIncomingPacket::V5(p) => VersionedView::V5(p@),
            VersionedIncomingPacket::V311(p) => VersionedView::V311(p@),
        }
    }
}

/// Where the decoder stands in the packet at the front of its buffer.
#[derive(Debug, Clone, Copy)]
enum DecodePhase {
    /// Waiting for the first byte.
    FixedHeader,
    /// Waiting for the remaining length.
    RemainingLength,
    /// Waiting for the rest of a packet whose remaining length, and the number
    /// of bytes it takes, are known.
    Payload { rlen_len: usize, remaining_length: usize },
}

/// The abstract value of a decoder's phase.
pub enum PhaseView {
    /// Waiting for the first byte.
    FixedHeader,
    /// Waiting for the remaining length.
    RemainingLength,
    /// Waiting for the rest of a packet: the length of its remaining length,
    /// and the remaining length.
    Payload(nat, nat),
}

/// The abstract value of a [`Decoder`]: its version and limits, the bytes fed
/// and not yet consumed, and its phase.
pub struct DecoderView {
    /// The protocol version.
    pub version: MqttVersion,
    /// The limits.
    pub limits: Limits,
    /// The bytes fed and not yet consumed.
    pub pending: Seq<u8>,
    /// The phase.
    pub phase: PhaseView,
}

/// A streaming decoder of the packets that a client receives.
///
/// `{:?}` is derived and shows the bytes it holds;
/// [`redacted_debug`](Self::redacted_debug) shows only their number.
#[derive(Debug)]
pub struct Decoder {
    version: MqttVersion,
    limits: Limits,
    buf: Vec<u8>,
    buf_offset: usize,
    phase: DecodePhase,
}

impl View for Decoder {
    type V = DecoderView;

    closed spec fn view(&self) -> DecoderView {
        DecoderView {
            version: self.version,
            limits: self.limits,
            pending: self.buf@.skip(self.buf_offset as int),
            phase: match self.phase {
                DecodePhase::FixedHeader => PhaseView::FixedHeader,
                DecodePhase::RemainingLength => PhaseView::RemainingLength,
                DecodePhase::Payload { rlen_len, remaining_length } => PhaseView::Payload(
                    rlen_len as nat,
                    remaining_length as nat,
                ),
            },
        }
    }
}

/// The decoder `v` with another phase.
pub open spec fn spec_with_phase(v: DecoderView, phase: PhaseView) -> DecoderView {
    DecoderView { version: v.version, limits: v.limits, pending: v.pending, phase }
}

/// The decoder `v` after `data` was fed to it.
pub open spec fn spec_fed(v: DecoderView, data: Seq<u8>) -> DecoderView {
    DecoderView { version: v.version, limits: v.limits, pending: v.pending + data, phase: v.phase }
}

/// The decoder `v` after a reset: nothing pending, waiting for a first byte.
pub open spec fn spec_reset(v: DecoderView) -> DecoderView {
    DecoderView { version: v.version, limits: v.limits, pending: Seq::empty(), phase: PhaseView::FixedHeader }
}

/// The result of decoding the bytes of one whole packet for `version`; a packet
/// that its own lengths cut short is malformed.
#[verifier::opaque]
pub open spec fn spec_decode_packet(version: MqttVersion, bytes: Seq<u8>) -> Result<VersionedView, DecodeError> {
    match version {
        MqttVersion::V5 => match v5::packet::spec_incoming_decode(bytes) {
            Ok((p, _)) => Ok(VersionedView::V5(p)),
            Err(DecodeError::InsufficientData) => Err(DecodeError::MalformedPacket),
            Err(e) => Err(e),
        },
        MqttVersion::V311 => match v311::packet::spec_incoming_decode(bytes) {
            Ok((p, _)) => Ok(VersionedView::V311(p)),
            Err(DecodeError::InsufficientData) => Err(DecodeError::MalformedPacket),
            Err(e) => Err(e),
        },
    }
}

/// Decoding in the phase where the packet's lengths are known: the packet
/// comes out and its bytes are consumed once they are all there.
pub open spec fn spec_payload_step(v: DecoderView, rlen_len: nat, remaining_length: nat) -> (
    Result<VersionedView, DecodeError>,
    DecoderView,
) {
    let packet_len = 1 + rlen_len + remaining_length;
    if v.pending.len() < packet_len {
        (Err(DecodeError::InsufficientData), spec_with_phase(v, PhaseView::Payload(rlen_len, remaining_length)))
    } else {
        (
            spec_decode_packet(v.version, v.pending.take(packet_len as int)),
            DecoderView {
                version: v.version,
                limits: v.limits,
                pending: v.pending.skip(packet_len as int),
                phase: PhaseView::FixedHeader,
            },
        )
    }
}

/// Decoding in the phase that reads the remaining length: a length that is
/// not complete yet waits, a malformed one or a packet above the maximum size
/// resets the decoder.
pub open spec fn spec_length_step(v: DecoderView) -> (Result<VersionedView, DecodeError>, DecoderView) {
    if v.pending.len() < 2 {
        (Err(DecodeError::InsufficientData), spec_with_phase(v, PhaseView::RemainingLength))
    } else {
        match spec_vbi_decode(v.pending.skip(1)) {
            Err(DecodeError::InsufficientData) => (
                Err(DecodeError::InsufficientData),
                spec_with_phase(v, PhaseView::RemainingLength),
            ),
            Err(e) => (Err(e), spec_reset(v)),
            Ok((len, n)) => if 1 + n + len > v.limits.max_packet_size {
                (
                    Err(
                        DecodeError::PacketTooLarge {
                            size: (1 + n + len) as usize,
                            limit: v.limits.max_packet_size,
                        },
                    ),
                    spec_reset(v),
                )
            } else {
                spec_payload_step(v, n, len as nat)
            },
        }
    }
}

/// One attempt to decode the packet at the front of the pending bytes: the
/// packet or why there is none, and the decoder afterwards.
pub open spec fn spec_try_decode(v: DecoderView) -> (Result<VersionedView, DecodeError>, DecoderView) {
    match v.phase {
        PhaseView::FixedHeader => if v.pending.len() == 0 {
            (Err(DecodeError::InsufficientData), v)
        } else {
            spec_length_step(v)
        },
        PhaseView::RemainingLength => spec_length_step(v),
        PhaseView::Payload(rlen_len, remaining_length) => spec_payload_step(v, rlen_len, remaining_length),
    }
}

/// What [`Decoder::feed`] returns for `pending` bytes already held and `data`:
/// more than `usize::MAX` bytes, or more than the maximum packet size with its
/// overhead, are too large.
pub open spec fn spec_feed_result(pending_len: nat, data_len: nat, limits: Limits) -> Result<(), DecodeError> {
    let allowed = limits.max_packet_size.saturating_add(MAX_PACKET_OVERHEAD);
    if pending_len + data_len > usize::MAX {
        Err(DecodeError::PacketTooLarge { size: usize::MAX, limit: limits.max_packet_size })
    } else if pending_len + data_len > allowed {
        Err(DecodeError::PacketTooLarge { size: (pending_len + data_len) as usize, limit: allowed })
    } else {
        Ok(())
    }
}

/// A decode attempt that finds the packet at the front incomplete loses
/// nothing: once more bytes arrive, the decoder decodes them exactly as it would
/// have without that attempt. So a packet fed in fragments comes out as if it
/// had been fed at once.
pub proof fn lemma_incomplete_attempt_transparent(v: DecoderView, more: Seq<u8>)
    requires
        spec_try_decode(v).0 == Err::<VersionedView, DecodeError>(DecodeError::InsufficientData),
    ensures
        spec_try_decode(spec_fed(spec_try_decode(v).1, more)) == spec_try_decode(spec_fed(v, more)),
{
    reveal(spec_decode_packet);
    let w = spec_fed(v, more);
    let after = spec_try_decode(v).1;
    match v.phase {
        PhaseView::Payload(a, b) => {
            assert(spec_fed(after, more) == w);
        },
        _ => {
            if v.phase == PhaseView::FixedHeader && v.pending.len() == 0 {
                assert(after == v);
            } else {
                lemma_steps_ignore_phase(w, after.phase);
                assert(spec_fed(after, more) == spec_with_phase(w, after.phase));
                if v.pending.len() >= 2 {
                    if let Ok((len, n)) = spec_vbi_decode(v.pending.skip(1)) {
                        assert(w.pending.skip(1) =~= v.pending.skip(1) + more);
                        lemma_vbi_decode_prefix(v.pending.skip(1), more);
                        lemma_steps_ignore_phase(w, PhaseView::RemainingLength);
                    }
                }
            }
        },
    }
}

/// The steps that read the length and the rest of a packet do not depend on
/// the phase they start from.
proof fn lemma_steps_ignore_phase(v: DecoderView, phase: PhaseView)
    ensures
        spec_length_step(spec_with_phase(v, phase)) == spec_length_step(v),
        forall|a: nat, b: nat|
            #[trigger] spec_payload_step(spec_with_phase(v, phase), a, b) == spec_payload_step(v, a, b),
{
}

/// Bytes behind a whole packet change nothing about that packet: the decoder
/// gives the same result for it, and keeps the bytes behind it for what comes
/// next. So packets fed together come out one at a time, each as if alone.
pub proof fn lemma_bytes_behind_packet(v: DecoderView, more: Seq<u8>)
    requires
        v.phase == PhaseView::FixedHeader,
        v.pending.len() >= 2,
        spec_vbi_decode(v.pending.skip(1)) matches Ok((len, n)) && v.pending.len() == 1 + n + len && 1 + n + len
            <= v.limits.max_packet_size,
    ensures
        spec_try_decode(spec_fed(v, more)).0 == spec_try_decode(v).0,
        spec_try_decode(spec_fed(v, more)).1 == spec_fed(spec_try_decode(v).1, more),
        spec_try_decode(v).1.pending == Seq::<u8>::empty(),
{
    let w = spec_fed(v, more);
    let (len, n) = spec_vbi_decode(v.pending.skip(1))->Ok_0;
    assert(w.pending.skip(1) =~= v.pending.skip(1) + more);
    lemma_vbi_decode_prefix(v.pending.skip(1), more);
    let k = (1 + n + len) as int;
    assert(w.pending.take(k) =~= v.pending);
    assert(v.pending.take(k) =~= v.pending);
    assert(w.pending.skip(k) =~= Seq::<u8>::empty() + more);
    assert(v.pending.skip(k) =~= Seq::<u8>::empty());
}

/// A packet of a type that only a client sends (CONNECT, SUBSCRIBE,
/// UNSUBSCRIBE, PINGREQ) is refused as unexpected, with its type, under either
/// protocol version.
pub proof fn lemma_client_only_types_refused(version: MqttVersion, bytes: Seq<u8>)
    requires
        bytes.len() > 0,
        bytes[0] & 0xF0 == 0x10 || bytes[0] & 0xF0 == 0x80 || bytes[0] & 0xF0 == 0xA0 || bytes[0] & 0xF0 == 0xC0,
    ensures
        spec_decode_packet(version, bytes) == Err::<VersionedView, DecodeError>(
            DecodeError::UnexpectedPacket { packet_type: bytes[0] & 0xF0 },
        ),
{
    reveal(spec_decode_packet);
}

/// A decoder for MQTT v5.0, waiting for a first byte, that holds the wire
/// form of a packet that a server sends (and that fits the maximum packet
/// size), followed by any bytes, gives that packet back and keeps the bytes
/// that follow: what an encoder writes, the decoder reads.
pub proof fn lemma_decoder_reads_written_packet(v: DecoderView, p: v5::packet::codec::Packet, rest: Seq<u8>)
    requires
        v.version == MqttVersion::V5,
        v.phase == PhaseView::FixedHeader,
        v.pending == v5::packet::codec::spec_packet_wire(p) + rest,
        v5::packet::receive::spec_receivable(p),
        v5::packet::codec::spec_packet_wire(p).len() <= v.limits.max_packet_size,
    ensures
        spec_try_decode(v).0 == Ok::<VersionedView, DecodeError>(
            VersionedView::V5(v5::packet::receive::spec_incoming_of(p@)->Some_0),
        ),
        spec_try_decode(v).1 == (DecoderView { pending: rest, phase: PhaseView::FixedHeader, ..v }),
{
    reveal(spec_decode_packet);
    let w = v5::packet::codec::spec_packet_wire(p);
    v5::packet::receive::lemma_incoming_roundtrip(p, rest);
    v5::packet::receive::lemma_incoming_frame(w + rest);
    v5::packet::receive::lemma_incoming_roundtrip(p, Seq::<u8>::empty());
    assert(w + Seq::<u8>::empty() =~= w);
    lemma_vbi_decode_canonical(v.pending.skip(1));
    assert(v.pending.take(w.len() as int) =~= w);
    assert(v.pending.skip(w.len() as int) =~= rest);
}

/// The packets that decoding attempts give one after another, until an
/// attempt gives none: the packets, why the last attempt gave none, and the
/// decoder then. (`decode` returning `Ok(None)` is the reason
/// `InsufficientData`.)
pub open spec fn spec_drain(v: DecoderView) -> (Seq<VersionedView>, DecodeError, DecoderView)
    decreases v.pending.len(),
{
    let (r, w) = spec_try_decode(v);
    match r {
        Err(e) => (Seq::empty(), e, w),
        Ok(p) => {
            proof {
                lemma_packet_consumes_bytes(v);
            }
            let (ps, e, z) = spec_drain(w);
            (seq![p] + ps, e, z)
        },
    }
}

/// Feeding the chunks one after another, and after each one decoding until no
/// packet comes: the packets in the order they came, whether every round
/// ended for want of bytes (`Ok(None)`), and the decoder at the end.
pub open spec fn spec_feed_each(v: DecoderView, chunks: Seq<Seq<u8>>) -> (Seq<VersionedView>, bool, DecoderView)
    decreases chunks.len(),
{
    if chunks.len() == 0 {
        (Seq::empty(), true, v)
    } else {
        let (ps, e, w) = spec_drain(spec_fed(v, chunks[0]));
        let (qs, all, z) = spec_feed_each(w, chunks.skip(1));
        (ps + qs, all && e == DecodeError::InsufficientData, z)
    }
}

/// The chunks (or frames) one after another.
pub open spec fn spec_flatten(chunks: Seq<Seq<u8>>) -> Seq<u8>
    decreases chunks.len(),
{
    if chunks.len() == 0 {
        Seq::empty()
    } else {
        chunks[0] + spec_flatten(chunks.skip(1))
    }
}

/// Whether `f` is one well-formed packet that a client of `version` receives:
/// a first byte, a remaining length and that many bytes, no more than the
/// maximum packet size of `limits`, that decode as a packet.
#[verifier::opaque]
pub open spec fn spec_frame_ok(version: MqttVersion, f: Seq<u8>, limits: Limits) -> bool {
    &&& f.len() >= 2
    &&& spec_vbi_decode(f.skip(1)) matches Ok((len, n)) && f.len() == 1 + n + len
    &&& f.len() <= limits.max_packet_size
    &&& spec_decode_packet(version, f) is Ok
}

/// Whether each of the frames is one well-formed packet that a client of
/// `version` receives, within the maximum packet size of `limits`.
pub open spec fn spec_frames_ok(version: MqttVersion, fs: Seq<Seq<u8>>, limits: Limits) -> bool {
    forall|i: int| 0 <= i < fs.len() ==> spec_frame_ok(version, #[trigger] fs[i], limits)
}

/// The packets that the frames decode as, one for each.
pub open spec fn spec_received(version: MqttVersion, fs: Seq<Seq<u8>>) -> Seq<VersionedView> {
    fs.map_values(|f: Seq<u8>| spec_decode_packet(version, f)->Ok_0)
}

/// Whether the decoder's phase agrees with its pending bytes: a phase other
/// than waiting for a first byte has that first byte, and known lengths are
/// those that the bytes give, within the maximum packet size.
pub open spec fn spec_phase_consistent(v: DecoderView) -> bool {
    match v.phase {
        PhaseView::FixedHeader => true,
        PhaseView::RemainingLength => v.pending.len() >= 1,
        PhaseView::Payload(a, b) => {
            &&& v.pending.len() >= 2
            &&& spec_vbi_decode(v.pending.skip(1)) matches Ok((len, n))
            &&& n == a
            &&& len as nat == b
            &&& 1 + n + len <= v.limits.max_packet_size
        },
    }
}

/// The law of fragmentation: a stream of well-formed packets that a client
/// receives, of the decoder's protocol version (MQTT v5.0 or v3.1.1), split
/// into chunks anywhere, comes out of a fresh decoder as the same packets, in
/// the same order, none lost or repeated, whether it is fed at once and
/// decoded until `Ok(None)`, or fed chunk by chunk and decoded until
/// `Ok(None)` after each chunk. Both end with nothing pending.
pub proof fn lemma_fragmentation(d: DecoderView, fs: Seq<Seq<u8>>, chunks: Seq<Seq<u8>>)
    requires
        d.pending == Seq::<u8>::empty(),
        d.phase == PhaseView::FixedHeader,
        spec_frames_ok(d.version, fs, d.limits),
        spec_flatten(chunks) == spec_flatten(fs),
    ensures
        spec_drain(spec_fed(d, spec_flatten(fs))) == (spec_received(d.version, fs), DecodeError::InsufficientData, d),
        spec_feed_each(d, chunks) == (spec_received(d.version, fs), true, d),
{
    if fs.len() > 0 {
        assert(spec_frame_ok(d.version, fs[0], d.limits));
        reveal(spec_frame_ok);
    }
    lemma_feed_each_frames(d, fs, chunks);
    let one = seq![spec_flatten(fs)];
    assert(one.skip(1) =~= Seq::<Seq<u8>>::empty());
    assert(spec_flatten(one.skip(1)) == Seq::<u8>::empty());
    assert(spec_flatten(one) =~= spec_flatten(fs));
    lemma_feed_each_frames(d, fs, one);
    let (ps, e, w) = spec_drain(spec_fed(d, one[0]));
    assert(spec_feed_each(w, one.skip(1)) == (Seq::<VersionedView>::empty(), true, w));
    assert(ps + Seq::<VersionedView>::empty() =~= ps);
}

/// The wire forms of MQTT v5.0 packets one after another.
pub open spec fn spec_wires(ps: Seq<v5::packet::codec::Packet>) -> Seq<u8> {
    spec_flatten(ps.map_values(|p: v5::packet::codec::Packet| v5::packet::codec::spec_packet_wire(p)))
}

/// The law of fragmentation for what an MQTT v5.0 server writes: the wire
/// forms of packets that a server sends, each within the maximum packet size,
/// split into chunks anywhere, come out of a fresh MQTT v5.0 decoder as those
/// packets, in order, fed at once or chunk by chunk.
pub proof fn lemma_fragmentation_of_written_packets(
    d: DecoderView,
    ps: Seq<v5::packet::codec::Packet>,
    chunks: Seq<Seq<u8>>,
)
    requires
        d.version == MqttVersion::V5,
        d.pending == Seq::<u8>::empty(),
        d.phase == PhaseView::FixedHeader,
        forall|i: int| 0 <= i < ps.len() ==> v5::packet::receive::spec_receivable(#[trigger] ps[i])
            && v5::packet::codec::spec_packet_wire(ps[i]).len() <= d.limits.max_packet_size,
        spec_flatten(chunks) == spec_wires(ps),
    ensures
        ({
            let expected = ps.map_values(
                |p: v5::packet::codec::Packet| VersionedView::V5(v5::packet::receive::spec_incoming_of(p@)->Some_0),
            );
            &&& spec_drain(spec_fed(d, spec_wires(ps))) == (expected, DecodeError::InsufficientData, d)
            &&& spec_feed_each(d, chunks) == (expected, true, d)
        }),
{
    let fs = ps.map_values(|p: v5::packet::codec::Packet| v5::packet::codec::spec_packet_wire(p));
    assert forall|i: int| 0 <= i < fs.len() implies spec_frame_ok(d.version, #[trigger] fs[i], d.limits)
        && spec_decode_packet(d.version, fs[i]) == Ok::<VersionedView, DecodeError>(
            VersionedView::V5(v5::packet::receive::spec_incoming_of(ps[i]@)->Some_0),
        ) by {
        lemma_written_packet_frame(d.limits, ps[i]);
    }
    lemma_fragmentation(d, fs, chunks);
    let expected = ps.map_values(
        |p: v5::packet::codec::Packet| VersionedView::V5(v5::packet::receive::spec_incoming_of(p@)->Some_0),
    );
    assert(spec_received(d.version, fs) =~= expected);
}

/// The wire form of a packet that a server sends, within the maximum packet
/// size, is a well-formed frame for an MQTT v5.0 client, and decodes as that
/// packet.
proof fn lemma_written_packet_frame(limits: Limits, p: v5::packet::codec::Packet)
    requires
        v5::packet::receive::spec_receivable(p),
        v5::packet::codec::spec_packet_wire(p).len() <= limits.max_packet_size,
    ensures
        spec_frame_ok(MqttVersion::V5, v5::packet::codec::spec_packet_wire(p), limits),
        spec_decode_packet(MqttVersion::V5, v5::packet::codec::spec_packet_wire(p)) == Ok::<VersionedView, DecodeError>(
            VersionedView::V5(v5::packet::receive::spec_incoming_of(p@)->Some_0),
        ),
{
    reveal(spec_decode_packet);
    reveal(spec_frame_ok);
    let w = v5::packet::codec::spec_packet_wire(p);
    v5::packet::receive::lemma_incoming_roundtrip(p, Seq::<u8>::empty());
    assert(w + Seq::<u8>::empty() =~= w);
    v5::packet::receive::lemma_incoming_frame(w);
}

/// An attempt that gives a packet consumes its bytes.
pub proof fn lemma_packet_consumes_bytes(v: DecoderView)
    ensures
        spec_try_decode(v).0 is Ok ==> spec_try_decode(v).1.pending.len() < v.pending.len(),
{
}

/// For a consistent phase, an attempt goes as it would from the first byte.
proof fn lemma_phase_irrelevant(v: DecoderView)
    requires
        spec_phase_consistent(v),
    ensures
        spec_try_decode(v) == spec_try_decode(spec_with_phase(v, PhaseView::FixedHeader)),
{
    lemma_steps_ignore_phase(v, PhaseView::FixedHeader);
    if v.phase == PhaseView::FixedHeader {
        assert(spec_with_phase(v, PhaseView::FixedHeader) == v);
    }
}

/// Feeding keeps the phase consistent.
proof fn lemma_fed_consistent(v: DecoderView, data: Seq<u8>)
    requires
        spec_phase_consistent(v),
    ensures
        spec_phase_consistent(spec_fed(v, data)),
{
    if v.phase is Payload {
        assert(spec_fed(v, data).pending.skip(1) =~= v.pending.skip(1) + data);
        lemma_vbi_decode_prefix(v.pending.skip(1), data);
    }
}

/// A decoder waiting for a first byte that holds a well-formed frame, then any
/// bytes, gives the packet of the frame and keeps the bytes behind it.
proof fn lemma_reads_frame(v: DecoderView, f: Seq<u8>, rest: Seq<u8>)
    requires
        v.phase == PhaseView::FixedHeader,
        v.pending == f + rest,
        spec_frame_ok(v.version, f, v.limits),
    ensures
        spec_try_decode(v).0 == spec_decode_packet(v.version, f),
        spec_try_decode(v).0 is Ok,
        spec_try_decode(v).1 == (DecoderView { pending: rest, phase: PhaseView::FixedHeader, ..v }),
{
    reveal(spec_frame_ok);
    assert(v.pending.skip(1) =~= f.skip(1) + rest);
    lemma_vbi_decode_prefix(f.skip(1), rest);
    assert(v.pending.take(f.len() as int) =~= f);
    assert(v.pending.skip(f.len() as int) =~= rest);
}

/// A proper beginning of a well-formed frame is not enough for a packet: the
/// attempt waits, keeps the bytes, and leaves a consistent phase.
proof fn lemma_partial_frame(v: DecoderView, q: Seq<u8>)
    requires
        v.phase == PhaseView::FixedHeader,
        spec_frame_ok(v.version, q, v.limits),
        0 < v.pending.len() < q.len(),
        v.pending == q.take(v.pending.len() as int),
    ensures
        spec_try_decode(v).0 == Err::<VersionedView, DecodeError>(DecodeError::InsufficientData),
        spec_try_decode(v).1.pending == v.pending,
        spec_try_decode(v).1.version == v.version,
        spec_try_decode(v).1.limits == v.limits,
        spec_phase_consistent(spec_try_decode(v).1),
{
    reveal(spec_frame_ok);
    if v.pending.len() >= 2 {
        let k = (v.pending.len() - 1) as nat;
        assert(v.pending.skip(1) =~= q.skip(1).take(k as int));
        crate::codec::variable_byte_integer::lemma_vbi_decode_take(q.skip(1), k);
    }
}

/// Decoding a consistent decoder that holds whole frames, then a proper
/// beginning of another (or nothing), gives the packets of those frames and
/// then waits, holding the beginning, in a consistent phase; with nothing
/// left, it waits for a first byte.
proof fn lemma_drain_frames(v: DecoderView, fs: Seq<Seq<u8>>, x: Seq<u8>, q: Seq<u8>)
    requires
        spec_phase_consistent(v),
        spec_frames_ok(v.version, fs, v.limits),
        v.pending == spec_flatten(fs) + x,
        x.len() > 0 ==> {
            &&& spec_frame_ok(v.version, q, v.limits)
            &&& x.len() < q.len()
            &&& x == q.take(x.len() as int)
        },
    ensures
        spec_drain(v).0 == spec_received(v.version, fs),
        spec_drain(v).1 == DecodeError::InsufficientData,
        spec_drain(v).2.version == v.version,
        spec_drain(v).2.limits == v.limits,
        spec_drain(v).2.pending == x,
        spec_phase_consistent(spec_drain(v).2),
        x.len() == 0 ==> spec_drain(v).2.phase == PhaseView::FixedHeader,
    decreases fs.len(),
{
    lemma_phase_irrelevant(v);
    let h = spec_with_phase(v, PhaseView::FixedHeader);
    if fs.len() == 0 {
        assert(v.pending =~= x);
        if x.len() == 0 {
            assert(spec_drain(v).2 == spec_try_decode(v).1);
        } else {
            lemma_partial_frame(h, q);
        }
        assert(spec_received(v.version, fs) =~= Seq::<VersionedView>::empty());
    } else {
        let f = fs[0];
        assert(spec_frame_ok(v.version, fs[0], v.limits));
        let rest = spec_flatten(fs.skip(1)) + x;
        assert(h.pending =~= f + rest);
        lemma_reads_frame(h, f, rest);
        let w = spec_try_decode(v).1;
        assert forall|i: int| 0 <= i < fs.skip(1).len() implies spec_frame_ok(v.version, #[trigger] fs.skip(1)[i], v.limits) by {
            assert(fs.skip(1)[i] == fs[i + 1]);
        }
        lemma_drain_frames(w, fs.skip(1), x, q);
        lemma_packet_consumes_bytes(v);
        assert(spec_received(v.version, fs) =~= seq![spec_decode_packet(v.version, f)->Ok_0]
            + spec_received(v.version, fs.skip(1)));
    }
}

/// The first `k` frames one after another, then the rest.
proof fn lemma_flatten_split(fs: Seq<Seq<u8>>, k: nat)
    requires
        k <= fs.len(),
    ensures
        spec_flatten(fs) == spec_flatten(fs.take(k as int)) + spec_flatten(fs.skip(k as int)),
    decreases k,
{
    if k == 0 {
        assert(fs.take(0) =~= Seq::<Seq<u8>>::empty());
        assert(fs.skip(0) =~= fs);
        assert(spec_flatten(fs.take(0)) + spec_flatten(fs) =~= spec_flatten(fs));
    } else {
        lemma_flatten_split(fs.skip(1), (k - 1) as nat);
        assert(fs.take(k as int).skip(1) =~= fs.skip(1).take(k - 1));
        assert(fs.skip(1).skip(k - 1) =~= fs.skip(k as int));
        assert(fs.take(k as int)[0] == fs[0]);
    }
}

/// A beginning of a stream of frames is some whole ones, then a proper
/// beginning of the next (or nothing).
proof fn lemma_prefix_split(fs: Seq<Seq<u8>>, pre: Seq<u8>) -> (k: nat)
    requires
        pre.len() <= spec_flatten(fs).len(),
        pre == spec_flatten(fs).take(pre.len() as int),
    ensures
        k <= fs.len(),
        ({
            let y = pre.skip(spec_flatten(fs.take(k as int)).len() as int);
            &&& spec_flatten(fs.take(k as int)).len() <= pre.len()
            &&& pre == spec_flatten(fs.take(k as int)) + y
            &&& k == fs.len() ==> y.len() == 0
            &&& k < fs.len() ==> y.len() < fs[k as int].len() && y == fs[k as int].take(y.len() as int)
        }),
    decreases fs.len(),
{
    if fs.len() == 0 {
        assert(fs.take(0) =~= fs);
        assert(pre.skip(0) =~= pre);
        assert(pre =~= Seq::<u8>::empty() + pre);
        0
    } else {
        let w0 = fs[0];
        assert(fs.take(0) =~= Seq::<Seq<u8>>::empty());
        if pre.len() < w0.len() {
            assert(pre.skip(0) =~= pre);
            assert(pre =~= Seq::<u8>::empty() + pre);
            assert(pre =~= w0.take(pre.len() as int));
            0
        } else {
            let rest = pre.skip(w0.len() as int);
            assert(rest =~= spec_flatten(fs.skip(1)).take(rest.len() as int));
            let k1 = lemma_prefix_split(fs.skip(1), rest);
            let k = k1 + 1;
            assert(fs.take(k as int).skip(1) =~= fs.skip(1).take(k1 as int));
            assert(fs.take(k as int)[0] == fs[0]);
            assert(spec_flatten(fs.take(k as int)) == w0 + spec_flatten(fs.skip(1).take(k1 as int)));
            let y1 = rest.skip(spec_flatten(fs.skip(1).take(k1 as int)).len() as int);
            assert(pre.skip(spec_flatten(fs.take(k as int)).len() as int) =~= y1);
            assert(pre =~= w0 + rest);
            assert(pre =~= spec_flatten(fs.take(k as int)) + y1);
            if k1 < fs.skip(1).len() {
                assert(fs.skip(1)[k1 as int] == fs[k as int]);
            }
            k
        }
    }
}

/// The round of the first chunk: feeding it and decoding until no packet
/// comes gives the packets of the whole frames now held, and keeps a proper
/// beginning of the next one.
#[verifier::spinoff_prover]
proof fn lemma_feed_round(v: DecoderView, fs: Seq<Seq<u8>>, chunk: Seq<u8>, tail: Seq<u8>) -> (k: nat)
    requires
        spec_phase_consistent(v),
        spec_frames_ok(v.version, fs, v.limits),
        v.pending + chunk + tail == spec_flatten(fs),
    ensures
        k <= fs.len(),
        spec_drain(spec_fed(v, chunk)).0 == spec_received(v.version, fs.take(k as int)),
        spec_drain(spec_fed(v, chunk)).1 == DecodeError::InsufficientData,
        ({
            let w = spec_drain(spec_fed(v, chunk)).2;
            &&& w.version == v.version
            &&& w.limits == v.limits
            &&& spec_phase_consistent(w)
            &&& w.pending + tail == spec_flatten(fs.skip(k as int))
            &&& k < fs.len() ==> w.pending.len() < fs[k as int].len()
            &&& w.pending.len() == 0 ==> w.phase == PhaseView::FixedHeader
        }),
{
    let u = spec_fed(v, chunk);
    lemma_fed_consistent(v, chunk);
    assert(spec_flatten(fs) =~= u.pending + tail);
    assert(u.pending =~= spec_flatten(fs).take(u.pending.len() as int));
    let k = lemma_prefix_split(fs, u.pending);
    let front = fs.take(k as int);
    let y = u.pending.skip(spec_flatten(front).len() as int);
    let q = if k < fs.len() { fs[k as int] } else { Seq::<u8>::empty() };
    assert forall|i: int| 0 <= i < front.len() implies spec_frame_ok(v.version, #[trigger] front[i], v.limits) by {
        assert(front[i] == fs[i]);
    }
    if y.len() > 0 {
        assert(spec_frame_ok(v.version, fs[k as int], v.limits));
    }
    lemma_drain_frames(u, front, y, q);
    lemma_flatten_split(fs, k);
    let wf = spec_flatten(front);
    assert(spec_flatten(fs) =~= wf + (y + tail));
    assert((wf + (y + tail)).skip(wf.len() as int) =~= y + tail);
    assert((wf + spec_flatten(fs.skip(k as int))).skip(wf.len() as int) =~= spec_flatten(fs.skip(k as int)));
    k
}

/// Feeding chunks that continue a stream of frames, decoding after each,
/// gives the packets of the stream, each round ending for want of bytes.
#[verifier::spinoff_prover]
proof fn lemma_feed_each_frames(v: DecoderView, fs: Seq<Seq<u8>>, chunks: Seq<Seq<u8>>)
    requires
        spec_phase_consistent(v),
        spec_frames_ok(v.version, fs, v.limits),
        v.pending + spec_flatten(chunks) == spec_flatten(fs),
        fs.len() > 0 ==> v.pending.len() < fs[0].len(),
        v.pending.len() == 0 ==> v.phase == PhaseView::FixedHeader,
    ensures
        spec_feed_each(v, chunks) == (spec_received(v.version, fs), true, DecoderView {
            pending: Seq::empty(),
            phase: PhaseView::FixedHeader,
            ..v
        }),
    decreases chunks.len(),
{
    if chunks.len() == 0 {
        lemma_feed_nothing(v, fs);
    } else {
        assert(v.pending + chunks[0] + spec_flatten(chunks.skip(1)) =~= spec_flatten(fs));
        let k = lemma_feed_round(v, fs, chunks[0], spec_flatten(chunks.skip(1)));
        let w = spec_drain(spec_fed(v, chunks[0])).2;
        let back = fs.skip(k as int);
        assert forall|i: int| 0 <= i < back.len() implies spec_frame_ok(v.version, #[trigger] back[i], v.limits) by {
            assert(back[i] == fs[i + k]);
        }
        if back.len() > 0 {
            assert(back[0] == fs[k as int]);
        }
        lemma_feed_each_frames(w, back, chunks.skip(1));
        lemma_received_split(v.version, fs, k);
    }
}

/// With no chunk left, the stream has been read to its end.
proof fn lemma_feed_nothing(v: DecoderView, fs: Seq<Seq<u8>>)
    requires
        v.pending + spec_flatten(Seq::<Seq<u8>>::empty()) == spec_flatten(fs),
        fs.len() > 0 ==> v.pending.len() < fs[0].len(),
        v.pending.len() == 0 ==> v.phase == PhaseView::FixedHeader,
    ensures
        spec_feed_each(v, Seq::<Seq<u8>>::empty()) == (spec_received(v.version, fs), true, DecoderView {
            pending: Seq::empty(),
            phase: PhaseView::FixedHeader,
            ..v
        }),
{
    assert(v.pending + Seq::<u8>::empty() =~= v.pending);
    if fs.len() > 0 {
        lemma_flatten_split(fs, 1);
        assert(fs.take(1).skip(1) =~= Seq::<Seq<u8>>::empty());
        assert(spec_flatten(fs.take(1)) =~= fs[0]);
    }
    assert(spec_received(v.version, fs) =~= Seq::<VersionedView>::empty());
    assert(v == (DecoderView { pending: Seq::empty(), phase: PhaseView::FixedHeader, ..v }));
}

/// The packets received for a stream are those of its first `k` frames, then
/// those of the rest.
proof fn lemma_received_split(version: MqttVersion, fs: Seq<Seq<u8>>, k: nat)
    requires
        k <= fs.len(),
    ensures
        spec_received(version, fs) == spec_received(version, fs.take(k as int)) + spec_received(
            version,
            fs.skip(k as int),
        ),
{
    assert(spec_received(version, fs) =~= spec_received(version, fs.take(k as int)) + spec_received(
        version,
        fs.skip(k as int),
    ));
}

impl Decoder {
    /// The decoder's internal consistency: the read position lies in the
    /// buffer, and known lengths are those of a real remaining length.
    pub closed spec fn wf(&self) -> bool {
        &&& self.buf_offset <= self.buf@.len()
        &&& match self.phase {
            DecodePhase::Payload { rlen_len, remaining_length } => 1 <= rlen_len <= 4
                && remaining_length <= VBI_MAX,
            _ => true,
        }
    }

    /// Creates a decoder for `version` with the default limits.
    pub fn new(version: MqttVersion) -> (r: Self)
        ensures
            r.wf(),
            r@.version == version,
            r@.limits.max_packet_size == DEFAULT_MAX_PACKET_SIZE,
            r@.pending == Seq::<u8>::empty(),
            r@.phase == PhaseView::FixedHeader,
    {
        let r = Self {
            version,
            limits: Limits::new(),
            buf: Vec::new(),
            buf_offset: 0,
            phase: DecodePhase::FixedHeader,
        };
        assert(r@.pending =~= Seq::<u8>::empty());
        r
    }

    /// Returns the decoder with `limits` in place of its limits.
    pub fn with_limits(self, limits: Limits) -> (r: Self)
        requires
            self.wf(),
        ensures
            r.wf(),
            r@ == (DecoderView { limits, ..self@ }),
    {
        let mut s = self;
        s.limits = limits;
        s
    }

    /// Creates an MQTT v5.0 decoder with `limits`.
    pub fn new_v5(limits: Limits) -> (r: Self)
        ensures
            r.wf(),
            r@ == (DecoderView {
                version: MqttVersion::V5,
                limits,
                pending: Seq::empty(),
                phase: PhaseView::FixedHeader,
            }),
    {
        Self::new(MqttVersion::V5).with_limits(limits)
    }

    /// Creates an MQTT v3.1.1 decoder with `limits`.
    pub fn new_v311(limits: Limits) -> (r: Self)
        ensures
            r.wf(),
            r@ == (DecoderView {
                version: MqttVersion::V311,
                limits,
                pending: Seq::empty(),
                phase: PhaseView::FixedHeader,
            }),
    {
        Self::new(MqttVersion::V311).with_limits(limits)
    }

    /// Replaces the limits; a packet whose size was already checked keeps its
    /// check.
    pub fn set_limits(&mut self, limits: Limits)
        requires
            old(self).wf(),
        ensures
            final(self).wf(),
            final(self)@ == (DecoderView { limits, ..old(self)@ }),
    {
        self.limits = limits;
    }

    /// Adds received bytes; refuses them when the bytes held would exceed the
    /// maximum packet size with its overhead.
    pub fn feed(&mut self, data: &[u8]) -> (r: Result<(), DecodeError>)
        requires
            old(self).wf(),
        ensures
            final(self).wf(),
            r == spec_feed_result(old(self)@.pending.len(), data@.len(), old(self)@.limits),
            r is Ok ==> final(self)@ == spec_fed(old(self)@, data@),
            r is Err ==> final(self)@ == old(self)@,
    {
        let pending_len = self.buf.len() - self.buf_offset;
        let accumulated_size = match pending_len.checked_add(data.len()) {
            None => {
                return Err(
                    DecodeError::PacketTooLarge { size: usize::MAX, limit: self.limits.max_packet_size },
                );
            },
            Some(n) => n,
        };
        let allowed_size = self.limits.max_packet_size.saturating_add(MAX_PACKET_OVERHEAD);
        if accumulated_size > allowed_size {
            return Err(DecodeError::PacketTooLarge { size: accumulated_size, limit: allowed_size });
        }
        let ghost before = self.buf@;
        self.buf.extend_from_slice(data);
        proof {
            assert(self.buf@ =~= before + data@);
            assert(self.buf@.skip(self.buf_offset as int) =~= before.skip(self.buf_offset as int) + data@);
        }
        Ok(())
    }

    /// Decodes the next packet, or returns `None` when its bytes have not all
    /// arrived yet.
    pub fn decode(&mut self) -> (r: Result<Option<VersionedIncomingPacket>, DecodeError>)
        requires
            old(self).wf(),
        ensures
            final(self).wf(),
            final(self)@ == spec_try_decode(old(self)@).1,
            match spec_try_decode(old(self)@).0 {
                Ok(p) => r matches Ok(Some(q)) && q@ == p,
                Err(DecodeError::InsufficientData) => r == Ok::<Option<VersionedIncomingPacket>, DecodeError>(None),
                Err(e) => r == Err::<Option<VersionedIncomingPacket>, DecodeError>(e),
            },
    {
        match self.try_decode() {
            Ok(packet) => Ok(Some(packet)),
            Err(DecodeError::InsufficientData) => Ok(None),
            Err(e) => Err(e),
        }
    }

    /// Makes one attempt to decode the packet at the front of the buffer.
    fn try_decode(&mut self) -> (r: Result<VersionedIncomingPacket, DecodeError>)
        requires
            old(self).wf(),
        ensures
            final(self).wf(),
            final(self)@ == spec_try_decode(old(self)@).1,
            match spec_try_decode(old(self)@).0 {
                Ok(p) => r matches Ok(q) && q@ == p,
                Err(e) => r == Err::<VersionedIncomingPacket, DecodeError>(e),
            },
    {
        match self.phase {
            DecodePhase::FixedHeader => {
                if self.buf.len() <= self.buf_offset {
                    return Err(DecodeError::InsufficientData);
                }
                self.phase = DecodePhase::RemainingLength;
                self.length_step()
            },
            DecodePhase::RemainingLength => self.length_step(),
            DecodePhase::Payload { rlen_len, remaining_length } => self.payload_step(rlen_len, remaining_length),
        }
    }

    /// Reads the remaining length, checks the packet's size, then goes on to
    /// the rest of the packet.
    fn length_step(&mut self) -> (r: Result<VersionedIncomingPacket, DecodeError>)
        requires
            old(self).wf(),
        ensures
            final(self).wf(),
            final(self)@ == spec_length_step(old(self)@).1,
            match spec_length_step(old(self)@).0 {
                Ok(p) => r matches Ok(q) && q@ == p,
                Err(e) => r == Err::<VersionedIncomingPacket, DecodeError>(e),
            },
    {
        self.phase = DecodePhase::RemainingLength;
        if self.buf.len() - self.buf_offset < 2 {
            return Err(DecodeError::InsufficientData);
        }
        let ghost pending = self.buf@.skip(self.buf_offset as int);
        proof {
            assert(self.buf@.subrange(self.buf_offset + 1, self.buf@.len() as int) =~= pending.skip(1));
        }
        let (vbi, rlen_len) = match VariableByteInteger::decode(&self.buf[self.buf_offset + 1..self.buf.len()]) {
            Ok(v) => v,
            Err(DecodeError::InsufficientData) => {
                return Err(DecodeError::InsufficientData);
            },
            Err(e) => {
                self.reset();
                return Err(e);
            },
        };
        proof {
            lemma_vbi_decode_canonical(pending.skip(1));
        }
        let remaining_length = vbi.0 as usize;
        let total_size = 1 + rlen_len + remaining_length;
        if total_size > self.limits.max_packet_size {
            self.reset();
            return Err(DecodeError::PacketTooLarge { size: total_size, limit: self.limits.max_packet_size });
        }
        self.phase = DecodePhase::Payload { rlen_len, remaining_length };
        self.payload_step(rlen_len, remaining_length)
    }

    /// Decodes the packet once all its bytes are there.
    fn payload_step(&mut self, rlen_len: usize, remaining_length: usize) -> (r: Result<VersionedIncomingPacket, DecodeError>)
        requires
            old(self).wf(),
            1 <= rlen_len <= 4,
            remaining_length <= VBI_MAX,
        ensures
            final(self).wf(),
            final(self)@ == spec_payload_step(old(self)@, rlen_len as nat, remaining_length as nat).1,
            match spec_payload_step(old(self)@, rlen_len as nat, remaining_length as nat).0 {
                Ok(p) => r matches Ok(q) && q@ == p,
                Err(e) => r == Err::<VersionedIncomingPacket, DecodeError>(e),
            },
    {
        self.phase = DecodePhase::Payload { rlen_len, remaining_length };
        let packet_len = 1 + rlen_len + remaining_length;
        let available = self.buf.len() - self.buf_offset;
        if available < packet_len {
            return Err(DecodeError::InsufficientData);
        }
        let start = self.buf_offset;
        let end = start + packet_len;
        let ghost pending = self.buf@.skip(start as int);
        proof {
            assert(self.buf@.subrange(start as int, end as int) =~= pending.take(packet_len as int));
            assert(self.buf@.skip(end as int) =~= pending.skip(packet_len as int));
        }
        let result = Self::decode_packet(self.version, &self.buf[start..end]);
        self.buf_offset = end;
        self.phase = DecodePhase::FixedHeader;
        self.maybe_compact();
        result
    }

    /// Drops what has been consumed and starts over with the next first byte.
    fn reset(&mut self)
        requires
            old(self).wf(),
        ensures
            final(self).wf(),
            final(self)@ == spec_reset(old(self)@),
    {
        self.buf = Vec::new();
        self.buf_offset = 0;
        self.phase = DecodePhase::FixedHeader;
        assert(self.buf@.skip(0) =~= Seq::<u8>::empty());
    }

    /// Drops the consumed bytes once they make up more than half the buffer.
    fn maybe_compact(&mut self)
        requires
            old(self).wf(),
        ensures
            final(self).wf(),
            final(self)@ == old(self)@,
            old(self).buf_offset > old(self).buf@.len() / 2 ==> final(self).buf_offset == 0
                && final(self).buf@ == old(self).buf@.skip(old(self).buf_offset as int),
            old(self).buf_offset <= old(self).buf@.len() / 2 ==> final(self).buf_offset
                == old(self).buf_offset && final(self).buf@ == old(self).buf@,
    {
        if self.buf_offset > self.buf.len() / 2 {
            let rest = copy_range(&self.buf, self.buf_offset, self.buf.len());
            let ghost pending = self.buf@.skip(self.buf_offset as int);
            self.buf = rest;
            self.buf_offset = 0;
            assert(self.buf@.skip(0) =~= pending);
        }
    }

    /// Decodes the bytes of one whole packet for `version`.
    fn decode_packet(version: MqttVersion, buf: &[u8]) -> (r: Result<VersionedIncomingPacket, DecodeError>)
        ensures
            match spec_decode_packet(version, buf@) {
                Ok(p) => r matches Ok(q) && q@ == p,
                Err(e) => r == Err::<VersionedIncomingPacket, DecodeError>(e),
            },
    {
        reveal(spec_decode_packet);
        match version {
            MqttVersion::V5 => match v5::packet::IncomingPacket::decode(buf) {
                Ok((p, _)) => Ok(VersionedIncomingPacket::V5(p)),
                Err(DecodeError::InsufficientData) => Err(DecodeError::MalformedPacket),
                Err(e) => Err(e),
            },
            MqttVersion::V311 => match v311::packet::IncomingPacket::decode(buf) {
                Ok((p, _)) => Ok(VersionedIncomingPacket::V311(p)),
                Err(DecodeError::InsufficientData) => Err(DecodeError::MalformedPacket),
                Err(e) => Err(e),
            },
        }
    }
}

/// A protocol version as its `Debug` writes it.
pub open spec fn spec_version_text(v: MqttVersion) -> Seq<char> {
    match v {
        MqttVersion::V5 => "V5"@,
        MqttVersion::V311 => "V311"@,
    }
}

/// A phase as the decoder's rendering writes it: its name alone.
pub open spec fn spec_phase_text(p: PhaseView) -> Seq<char> {
    match p {
        PhaseView::FixedHeader => "FixedHeader"@,
        PhaseView::RemainingLength => "RemainingLength"@,
        PhaseView::Payload(_, _) => "Payload"@,
    }
}

/// The rendering of a decoder: its version, limits, phase and read position,
/// and of its buffer only the number of bytes it holds, `buf_len`.
pub open spec fn spec_decoder_text(v: DecoderView, buf_len: nat, offset: nat) -> Seq<char> {
    "Decoder { version: "@ + spec_version_text(v.version) + ", limits: "@ + "Limits { max_packet_size: "@
        + spec_decimal(v.limits.max_packet_size as nat) + " }"@ + ", buf: "@ + "\"<"@ + spec_decimal(buf_len)
        + " bytes>\""@ + ", buf_offset: "@ + spec_decimal(offset) + ", phase: "@ + spec_phase_text(v.phase)
        + " }"@
}

impl Decoder {
    /// The number of bytes in the buffer, those already consumed included.
    pub closed spec fn spec_buffer_len(&self) -> nat {
        self.buf@.len()
    }

    /// The position in the buffer of the first byte not yet consumed.
    pub closed spec fn spec_read_position(&self) -> nat {
        self.buf_offset as nat
    }

    /// The decoder shown without the bytes it holds: its version, limits,
    /// phase and read position, and of the buffer only its length. `{:?}`
    /// itself is derived and shows the bytes: use this rendering where a
    /// decoder is logged.
    pub fn redacted_debug(&self) -> (r: String)
        ensures
            r@ == spec_decoder_text(self@, self.spec_buffer_len(), self.spec_read_position()),
    {
        let mut s = String::new();
        s.append("Decoder { version: ");
        match self.version {
            MqttVersion::V5 => s.append("V5"),
            MqttVersion::V311 => s.append("V311"),
        }
        s.append(", limits: ");
        s.append("Limits { max_packet_size: ");
        push_decimal(&mut s, self.limits.max_packet_size as u64);
        s.append(" }");
        s.append(", buf: ");
        s.append("\"<");
        push_decimal(&mut s, self.buf.len() as u64);
        s.append(" bytes>\"");
        s.append(", buf_offset: ");
        push_decimal(&mut s, self.buf_offset as u64);
        s.append(", phase: ");
        match self.phase {
            DecodePhase::FixedHeader => s.append("FixedHeader"),
            DecodePhase::RemainingLength => s.append("RemainingLength"),
            DecodePhase::Payload { .. } => s.append("Payload"),
        }
        s.append(" }");
        proof {
            assert(s@ =~= spec_decoder_text(self@, self.spec_buffer_len(), self.spec_read_position()));
        }
        s
    }
}

} // verus!
