//! What every packet has in common, and the dispatcher: how a packet is
//! turned into a frame and read from a buffer, the header that every frame
//! begins with, what the client answers to an inbound frame, and the
//! states that a connection goes through.

use crate::error::PacketError;
use crate::packet::Packet;
use crate::packet_utils::{uuid_sum_of, SerKey};
use crate::protocol::heart::{HeartPacket, PACKET_HEART_BEAT};
use crate::protocol::heart_beat::HeartBeatPacket;
use crate::protocol::player_info::{PlayerInfoPacket, PlayerInfoView};
use crate::protocol::preregister_connection::{
    PreregisterConnectionPacket, PreregisterConnectionView,
};
use crate::protocol::register_connection::{
    RegisterConnectionPacket, PACKET_PREREGISTER_CONNECTION,
};
use crate::wire::{
    be32, framed, lemma_be32_wraps, lemma_frame_length, read_bytes_at, read_i32_at, signed32,
};
use vstd::prelude::*;
use vstd::slice::slice_to_vec;

verus! {

/// The header of a frame: the declared length of the fields and the type
/// tag, in the order in which the two stand on the wire.
#[derive(Debug, PartialEq, Eq)]
pub struct PacketModel {
    pub model: i32,
    pub total_length: i32,
}

/// A packet that can be sent.
pub trait ToBytes {
    /// The frame of this packet, byte for byte.
    spec fn frame(&self) -> Seq<u8>;

    /// Encodes the packet as one frame.
    fn to_bytes(&self) -> (res: Result<Vec<u8>, PacketError>)
        ensures
            res matches Ok(bytes) && bytes@ == self.frame(),
    ;
}

/// A value that can be read from a frame buffer.
pub trait FromBytes: Sized {
    /// What reading at `pos` in `bytes` gives: the value and the position
    /// behind it, or the error.
    spec fn parse(bytes: Seq<u8>, pos: int) -> Result<(Self, int), PacketError>;

    /// Reads the value at the cursor. On failure the cursor stays where it
    /// was.
    fn from_packet(packet: &mut Packet) -> (res: Result<Self, PacketError>)
        ensures
            final(packet).payload@ == old(packet).payload@,
            old(packet).wf() ==> final(packet).wf(),
            match res {
                Ok(v) => Self::parse(old(packet).payload@, old(packet).offset as int) == Ok::<
                    _,
                    PacketError,
                >((v, final(packet).offset as int)),
                Err(e) => final(packet).offset == old(packet).offset && Self::parse(
                    old(packet).payload@,
                    old(packet).offset as int,
                ) == Err::<(Self, int), _>(e),
            },
    ;
}

/// The frame of a packet.
pub fn make_packet<T: ToBytes>(packet: &T) -> (out: Vec<u8>)
    ensures
        out@ == packet.frame(),
{
    packet.to_bytes().unwrap()
}

/// The length field for a frame whose type tag and fields take `inner_len`
/// bytes: the length of the fields alone, as 32 bits carry it.
pub(crate) fn content_length(inner_len: usize) -> (n: i32)
    requires
        4 <= inner_len,
    ensures
        be32(n as int) == be32(inner_len - 4),
        inner_len - 4 <= i32::MAX ==> n == inner_len - 4,
{
    let fields: u64 = (inner_len - 4) as u64;
    let low: u64 = fields % 0x1_0000_0000;
    proof {
        lemma_be32_wraps(low as int, (fields / 0x1_0000_0000) as int);
        lemma_be32_wraps(low as int, -1);
    }
    if low >= 0x8000_0000 {
        (low as i64 - 0x1_0000_0000) as i32
    } else {
        low as i32
    }
}

impl FromBytes for PacketModel {
    open spec fn parse(bytes: Seq<u8>, pos: int) -> Result<(Self, int), PacketError> {
        match read_i32_at(bytes, pos) {
            Err(e) => Err(e),
            Ok((total_length, at_tag)) => match read_i32_at(bytes, at_tag) {
                Err(e) => Err(e),
                Ok((model, next)) => Ok((PacketModel { model, total_length }, next)),
            },
        }
    }

    fn from_packet(packet: &mut Packet) -> (res: Result<Self, PacketError>) {
        let start = packet.offset;
        let total_length = packet.read_i32()?;
        let model = match packet.read_i32() {
            Ok(model) => model,
            Err(e) => {
                packet.offset = start;
                return Err(e);
            },
        };
        Ok(Self { total_length, model })
    }
}

/// Every frame is consumed whole by reading its header and then as many
/// bytes as the header declares: the header is eight bytes long, it
/// declares the number of bytes that follow the type tag, and behind those
/// bytes the frame ends. The fields must not take more bytes than a signed
/// 32-bit length can declare.
pub proof fn lemma_frame_is_consumed(inner: Seq<u8>)
    requires
        4 <= inner.len() <= i32::MAX + 4,
    ensures
        PacketModel::parse(framed(inner), 0) == Ok::<_, PacketError>(
            (
                PacketModel {
                    model: signed32(inner.subrange(0, 4)),
                    total_length: (inner.len() - 4) as i32,
                },
                8int,
            ),
        ),
        read_bytes_at(framed(inner), 8, inner.len() - 4) == Ok::<_, PacketError>(
            (inner.subrange(4, inner.len() as int), framed(inner).len() as int),
        ),
{
    reveal(read_bytes_at);
    let frame = framed(inner);
    lemma_frame_length(inner);
    assert(frame.subrange(4, 8) =~= inner.subrange(0, 4));
    assert(frame.subrange(8, 8 + (inner.len() - 4)) =~= inner.subrange(4, inner.len() as int));
}

/// What an inbound frame is taken for.
#[derive(Debug, Clone, Copy, PartialEq, Eq)]
pub enum InboundKind {
    /// The server's registration packet, which asks for the identity.
    IdentityRequest,
    /// A heartbeat ping.
    HeartbeatPing,
    /// Any other frame. It is neither answered nor an error.
    Unrecognized,
}

/// The table by which the dispatcher goes: which type tag stands for which
/// kind of inbound frame.
pub open spec fn inbound_kind(tag: i32) -> InboundKind {
    if tag == PACKET_PREREGISTER_CONNECTION {
        InboundKind::IdentityRequest
    } else if tag == PACKET_HEART_BEAT {
        InboundKind::HeartbeatPing
    } else {
        InboundKind::Unrecognized
    }
}

/// Looks a type tag up in the dispatcher's table.
pub fn classify(tag: i32) -> (kind: InboundKind)
    ensures
        kind == inbound_kind(tag),
{
    if tag == PACKET_PREREGISTER_CONNECTION {
        InboundKind::IdentityRequest
    } else if tag == PACKET_HEART_BEAT {
        InboundKind::HeartbeatPing
    } else {
        InboundKind::Unrecognized
    }
}

/// The kind of the frame `frame`, by its header; the error where it holds
/// no header.
pub open spec fn frame_kind(frame: Seq<u8>) -> Result<InboundKind, PacketError> {
    match PacketModel::parse(frame, 0) {
        Err(e) => Err(e),
        Ok((header, _)) => Ok(inbound_kind(header.model)),
    }
}

/// What the client answers to the inbound frame `frame`, its own UUID
/// being `client_uuid`: to a registration packet the player identity
/// derived from it, to a heartbeat ping the response with the same number,
/// to any other frame nothing. A frame without a header, or one of these
/// two kinds that cannot be decoded, is an error, and so is a UUID text
/// that names no UUID.
pub open spec fn response_to(frame: Seq<u8>, client_uuid: Seq<char>) -> Result<
    Option<Seq<u8>>,
    PacketError,
> {
    match frame_kind(frame) {
        Err(e) => Err(e),
        Ok(InboundKind::IdentityRequest) => match RegisterConnectionPacket::parse(frame, 0) {
            Err(e) => Err(e),
            Ok((request, _)) => match uuid_sum_of(client_uuid, request.network_server_id) {
                None => Err(PacketError::InvalidUuid),
                Some(sum) => Ok(
                    Some(
                        framed(
                            PlayerInfoView::answer(sum, request.server_key, request.color).body(),
                        ),
                    ),
                ),
            },
        },
        Ok(InboundKind::HeartbeatPing) => match HeartPacket::parse(frame, 0) {
            Err(e) => Err(e),
            Ok((ping, _)) => Ok(
                Some(
                    framed(
                        (HeartBeatPacket {
                            ping_number: ping.ping_number,
                            unknown_byte: 1,
                            unknown_byte2: 58,
                        }).body(),
                    ),
                ),
            ),
        },
        Ok(InboundKind::Unrecognized) => Ok(None),
    }
}

/// Whether `res` is what the specification `expected` asks for.
pub open spec fn answers(res: Result<Option<Vec<u8>>, PacketError>, expected: Result<
    Option<Seq<u8>>,
    PacketError,
>) -> bool {
    match res {
        Ok(Some(bytes)) => expected == Ok::<_, PacketError>(Some(bytes@)),
        Ok(None) => expected == Ok::<Option<Seq<u8>>, PacketError>(None),
        Err(e) => expected == Err::<Option<Seq<u8>>, _>(e),
    }
}

/// Handles one inbound frame: the frame to send in answer, or nothing.
pub fn packet_con(a: &[u8], client_uuid: &str) -> (res: Result<Option<Vec<u8>>, PacketError>)
    ensures
        answers(res, response_to(a@, client_uuid@)),
{
    let mut packet1 = Packet { payload: slice_to_vec(a), offset: 0 };
    let packet_type = PacketModel::from_packet(&mut packet1)?;
    packet1.offset = 0;
    match classify(packet_type.model) {
        InboundKind::IdentityRequest => {
            let mut key = SerKey::new();
            SerKey::get(&mut key, &mut packet1)?;
            let packet = PlayerInfoPacket::with_client_uuid(client_uuid, &key)?;
            Ok(Some(make_packet(&packet)))
        },
        InboundKind::HeartbeatPing => {
            let b = HeartPacket::from_packet(&mut packet1)?;
            let packet = HeartBeatPacket::new(b.ping_number);
            Ok(Some(make_packet(&packet)))
        },
        InboundKind::Unrecognized => Ok(None),
    }
}

/// The states of a connection.
#[derive(Debug, Clone, Copy, PartialEq, Eq)]
pub enum HandshakeState {
    /// The transport stands; nothing has been sent.
    Connected,
    /// The pre-registration has been sent; the server has not yet asked for
    /// the identity.
    AwaitingServerResponse,
    /// The identity has been sent; heartbeats are exchanged.
    SteadyState,
    /// The connection is over.
    Closed,
}

/// What the transport reports to the dispatcher.
#[derive(Debug)]
pub enum TransportEvent {
    /// The transport has been opened.
    Opened,
    /// A frame has arrived.
    Frame(Vec<u8>),
    /// The peer has closed the stream.
    EndOfStream,
    /// Reading or writing has failed; the text says how.
    Failed(String),
}

/// The state that follows `state` when `event` happens.
pub open spec fn next_state(state: HandshakeState, event: TransportEvent, client_uuid: Seq<char>)
    -> HandshakeState {
    match (state, event) {
        (HandshakeState::Closed, _) => HandshakeState::Closed,
        (_, TransportEvent::EndOfStream) => HandshakeState::Closed,
        (_, TransportEvent::Failed(_)) => HandshakeState::Closed,
        (HandshakeState::Connected, TransportEvent::Opened) => HandshakeState::AwaitingServerResponse,
        (HandshakeState::Connected, TransportEvent::Frame(_)) => HandshakeState::Connected,
        (_, TransportEvent::Opened) => state,
        (_, TransportEvent::Frame(frame)) => if response_to(frame@, client_uuid) is Err {
            HandshakeState::Closed
        } else if frame_kind(frame@) == Ok::<_, PacketError>(InboundKind::IdentityRequest) {
            HandshakeState::SteadyState
        } else {
            state
        },
    }
}

/// What the dispatcher hands back when `event` happens in `state`: the
/// frame to send, nothing, or the error that closes the connection.
pub open spec fn reaction(state: HandshakeState, event: TransportEvent, client_uuid: Seq<char>)
    -> Result<Option<Seq<u8>>, PacketError> {
    match (state, event) {
        (HandshakeState::Closed, _) => Ok(None),
        (_, TransportEvent::EndOfStream) => Ok(None),
        (_, TransportEvent::Failed(text)) => Err(PacketError::IoError(text)),
        (HandshakeState::Connected, TransportEvent::Opened) => Ok(
            Some(framed(PreregisterConnectionView::initial().body())),
        ),
        (HandshakeState::Connected, TransportEvent::Frame(_)) => Ok(None),
        (_, TransportEvent::Opened) => Ok(None),
        (_, TransportEvent::Frame(frame)) => response_to(frame@, client_uuid),
    }
}

/// One step of the dispatcher. A closed connection stays closed and does
/// nothing. The end of the stream closes the connection, and so does a
/// failure of the transport, which is handed back as `IoError`. When the
/// transport opens, the pre-registration is sent and the server awaited.
/// From then on every frame is handled as `packet_con` says: an error
/// closes the connection, the answer to the server's registration packet
/// begins the steady state, and any other frame leaves the state as it is.
pub fn step(state: HandshakeState, event: TransportEvent, client_uuid: &str) -> (out: (
    HandshakeState,
    Result<Option<Vec<u8>>, PacketError>,
))
    ensures
        out.0 == next_state(state, event, client_uuid@),
        answers(out.1, reaction(state, event, client_uuid@)),
{
    match state {
        HandshakeState::Closed => (HandshakeState::Closed, Ok(None)),
        HandshakeState::Connected => match event {
            TransportEvent::Opened => {
                let packet = PreregisterConnectionPacket::new();
                (HandshakeState::AwaitingServerResponse, Ok(Some(make_packet(&packet))))
            },
            TransportEvent::Frame(_) => (HandshakeState::Connected, Ok(None)),
            TransportEvent::EndOfStream => (HandshakeState::Closed, Ok(None)),
            TransportEvent::Failed(text) => (
                HandshakeState::Closed,
                Err(PacketError::IoError(text)),
            ),
        },
        HandshakeState::AwaitingServerResponse | HandshakeState::SteadyState => match event {
            TransportEvent::Opened => (state, Ok(None)),
            TransportEvent::Frame(frame) => {
                let res = packet_con(frame.as_slice(), client_uuid);
                let next = match &res {
                    Err(_) => HandshakeState::Closed,
                    Ok(Some(_)) => match peek_kind(frame.as_slice()) {
                        Ok(InboundKind::IdentityRequest) => HandshakeState::SteadyState,
                        _ => state,
                    },
                    Ok(None) => state,
                };
                (next, res)
            },
            TransportEvent::EndOfStream => (HandshakeState::Closed, Ok(None)),
            TransportEvent::Failed(text) => (
                HandshakeState::Closed,
                Err(PacketError::IoError(text)),
            ),
        },
    }
}

/// The kind of a frame, read from its header alone.
pub fn peek_kind(frame: &[u8]) -> (res: Result<InboundKind, PacketError>)
    ensures
        res == frame_kind(frame@),
{
    let mut packet = Packet { payload: slice_to_vec(frame), offset: 0 };
    let header = PacketModel::from_packet(&mut packet)?;
    Ok(classify(header.model))
}

} // verus!
