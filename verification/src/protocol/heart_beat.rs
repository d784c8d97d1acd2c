//! The heartbeat response, sent in answer to a heartbeat ping.

use crate::error::PacketError;
use crate::network::{content_length, ToBytes};
use crate::packet::Packet;
use crate::wire::{
    be32, be64, framed, lemma_begins_with_itself, lemma_byte_in_frame, lemma_frame_length,
    lemma_i32_in_frame, lemma_i64_in_frame, read_byte_at, read_i32_at, read_i64_at,
};
use vstd::prelude::*;

verus! {

/// The type tag of the heartbeat response.
pub const PACKET_HEART_BEAT_RESPONSE: i32 = 109;

/// The heartbeat response: the number of the ping it answers and two
/// trailing bytes.
#[derive(Debug, PartialEq)]
pub struct HeartBeatPacket {
    pub ping_number: i64,
    pub unknown_byte: u8,
    pub unknown_byte2: u8,
}

impl HeartBeatPacket {
    /// The answer to the ping with the number `ping`, with the trailing
    /// bytes 1 and 58.
    pub fn new(ping: i64) -> (out: Self)
        ensures
            out == (HeartBeatPacket { ping_number: ping, unknown_byte: 1, unknown_byte2: 58 }),
    {
        Self { ping_number: ping, unknown_byte: 1, unknown_byte2: 58 }
    }

    /// The type tag and the fields, in the order of the wire.
    pub open spec fn body(self) -> Seq<u8> {
        be32(PACKET_HEART_BEAT_RESPONSE as int) + be64(self.ping_number as int)
            + seq![self.unknown_byte] + seq![self.unknown_byte2]
    }

    /// What a frame at `pos` reads as: the declared length is read and not
    /// examined, the type tag must be that of this packet, and the fields
    /// follow.
    pub open spec fn parse(b: Seq<u8>, pos: int) -> Result<(HeartBeatPacket, int), PacketError> {
        match read_i32_at(b, pos) {
            Err(e) => Err(e),
            Ok((_, at_tag)) => match read_i32_at(b, at_tag) {
                Err(e) => Err(e),
                Ok((tag, at0)) => if tag != PACKET_HEART_BEAT_RESPONSE {
                    Err(PacketError::InvalidPacketType)
                } else {
                    match read_i64_at(b, at0) {
                        Err(e) => Err(e),
                        Ok((ping_number, at1)) => match read_byte_at(b, at1) {
                            Err(e) => Err(e),
                            Ok((unknown_byte, at2)) => match read_byte_at(b, at2) {
                                Err(e) => Err(e),
                                Ok((unknown_byte2, at3)) => Ok(
                                    (
                                        HeartBeatPacket { ping_number, unknown_byte, unknown_byte2 },
                                        at3,
                                    ),
                                ),
                            },
                        },
                    }
                },
            },
        }
    }

    /// Decodes the frame at the cursor. On failure the cursor stays where
    /// it was.
    pub fn from_packet(packet: &mut Packet) -> (res: Result<Self, PacketError>)
        ensures
            final(packet).payload@ == old(packet).payload@,
            old(packet).wf() ==> final(packet).wf(),
            match res {
                Ok(p) => Self::parse(old(packet).payload@, old(packet).offset as int) == Ok::<
                    _,
                    PacketError,
                >((p, final(packet).offset as int)),
                Err(e) => final(packet).offset == old(packet).offset && Self::parse(
                    old(packet).payload@,
                    old(packet).offset as int,
                ) == Err::<(HeartBeatPacket, int), _>(e),
            },
    {
        let start = packet.offset;
        match Self::read_frame(packet) {
            Ok(p) => Ok(p),
            Err(e) => {
                packet.offset = start;
                Err(e)
            },
        }
    }

    /// Reads the frame field by field; the cursor stops behind the last
    /// field that was read.
    fn read_frame(packet: &mut Packet) -> (res: Result<Self, PacketError>)
        ensures
            final(packet).payload@ == old(packet).payload@,
            old(packet).wf() ==> final(packet).wf(),
            match res {
                Ok(p) => Self::parse(old(packet).payload@, old(packet).offset as int) == Ok::<
                    _,
                    PacketError,
                >((p, final(packet).offset as int)),
                Err(e) => Self::parse(old(packet).payload@, old(packet).offset as int) == Err::<
                    (HeartBeatPacket, int),
                    _,
                >(e),
            },
    {
        let _total_length = packet.read_i32()?;
        let packet_type = packet.read_i32()?;
        if packet_type != PACKET_HEART_BEAT_RESPONSE {
            return Err(PacketError::InvalidPacketType);
        }
        let ping_number = packet.read_i64()?;
        let unknown_byte = packet.read_byte()?;
        let unknown_byte2 = packet.read_byte()?;
        Ok(Self { ping_number, unknown_byte, unknown_byte2 })
    }
}

impl ToBytes for HeartBeatPacket {
    open spec fn frame(&self) -> Seq<u8> {
        framed(self.body())
    }

    fn to_bytes(&self) -> (res: Result<Vec<u8>, PacketError>) {
        let mut inner = Packet::new();
        inner.write_i32(PACKET_HEART_BEAT_RESPONSE)?;
        inner.write_i64(self.ping_number)?;
        inner.write_byte(self.unknown_byte)?;
        inner.write_byte(self.unknown_byte2)?;

        let mut final_packet = Packet::new();
        let total_length = content_length(inner.payload.len());
        final_packet.write_i32(total_length)?;
        final_packet.write_bytes(&inner.payload)?;
        assert(final_packet.payload@ =~= framed(self.body()));
        Ok(final_packet.payload)
    }
}

/// A heartbeat response that is encoded and decoded again is the packet it
/// was, and the decoder stops at the end of the frame.
pub proof fn lemma_heart_beat_round_trip(p: HeartBeatPacket)
    ensures
        HeartBeatPacket::parse(framed(p.body()), 0) == Ok::<_, PacketError>(
            (p, framed(p.body()).len() as int),
        ),
{
    let body = p.body();
    let w0 = be32(PACKET_HEART_BEAT_RESPONSE as int);
    let w1 = w0 + be64(p.ping_number as int);
    let w2 = w1 + seq![p.unknown_byte];
    lemma_begins_with_itself(body);
    lemma_byte_in_frame(w2, p.unknown_byte2, body);
    lemma_byte_in_frame(w1, p.unknown_byte, body);
    lemma_i64_in_frame(w0, p.ping_number, body);
    assert(Seq::<u8>::empty() + w0 =~= w0);
    lemma_i32_in_frame(Seq::<u8>::empty(), PACKET_HEART_BEAT_RESPONSE, body);
    lemma_frame_length(body);
}

} // verus!
