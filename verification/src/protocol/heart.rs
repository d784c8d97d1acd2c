//! The heartbeat ping, which the server sends and the client answers.

use crate::error::PacketError;
use crate::network::{content_length, ToBytes};
use crate::packet::Packet;
use crate::wire::{
    be32, be64, framed, lemma_begins_with_itself, lemma_byte_in_frame, lemma_frame_length,
    lemma_i32_in_frame, lemma_i64_in_frame, read_byte_at, read_i32_at, read_i64_at,
};
use vstd::prelude::*;

verus! {

/// The type tag of the heartbeat ping.
pub const PACKET_HEART_BEAT: i32 = 108;

/// The heartbeat ping: its number and one trailing byte.
#[derive(Debug, PartialEq)]
pub struct HeartPacket {
    pub ping_number: i64,
    pub end_byte: u8,
}

impl HeartPacket {
    /// The ping with the number `ping_number` and the trailing byte 0.
    pub fn new(ping_number: i64) -> (out: Self)
        ensures
            out == (HeartPacket { ping_number, end_byte: 0 }),
    {
        Self { ping_number, end_byte: 0 }
    }

    /// The type tag and the fields, in the order of the wire.
    pub open spec fn body(self) -> Seq<u8> {
        be32(PACKET_HEART_BEAT as int) + be64(self.ping_number as int) + seq![self.end_byte]
    }

    /// What a frame at `pos` reads as: the declared length is read and not
    /// examined, the type tag must be that of this packet, and the fields
    /// follow.
    pub open spec fn parse(b: Seq<u8>, pos: int) -> Result<(HeartPacket, int), PacketError> {
        match read_i32_at(b, pos) {
            Err(e) => Err(e),
            Ok((_, at_tag)) => match read_i32_at(b, at_tag) {
                Err(e) => Err(e),
                Ok((tag, at0)) => if tag != PACKET_HEART_BEAT {
                    Err(PacketError::InvalidPacketType)
                } else {
                    match read_i64_at(b, at0) {
                        Err(e) => Err(e),
                        Ok((ping_number, at1)) => match read_byte_at(b, at1) {
                            Err(e) => Err(e),
                            Ok((end_byte, at2)) => Ok((HeartPacket { ping_number, end_byte }, at2)),
                        },
                    }
                },
            },
        }
    }

    /// Decodes the frame at the cursor. On failure the cursor stays where
    /// it was.
    pub fn from_packet(packet: &mut Packet) -> (res: Result<Self, PacketError>)
        ensures
            final(packet).payload@ == old(packet).payload@,
            old(packet).wf() ==> final(packet).wf(),
            match res {
                Ok(p) => Self::parse(old(packet).payload@, old(packet).offset as int) == Ok::<
                    _,
                    PacketError,
                >((p, final(packet).offset as int)),
                Err(e) => final(packet).offset == old(packet).offset && Self::parse(
                    old(packet).payload@,
                    old(packet).offset as int,
                ) == Err::<(HeartPacket, int), _>(e),
            },
    {
        let start = packet.offset;
        match Self::read_frame(packet) {
            Ok(p) => Ok(p),
            Err(e) => {
                packet.offset = start;
                Err(e)
            },
        }
    }

    /// Reads the frame field by field; the cursor stops behind the last
    /// field that was read.
    fn read_frame(packet: &mut Packet) -> (res: Result<Self, PacketError>)
        ensures
            final(packet).payload@ == old(packet).payload@,
            old(packet).wf() ==> final(packet).wf(),
            match res {
                Ok(p) => Self::parse(old(packet).payload@, old(packet).offset as int) == Ok::<
                    _,
                    PacketError,
                >((p, final(packet).offset as int)),
                Err(e) => Self::parse(old(packet).payload@, old(packet).offset as int) == Err::<
                    (HeartPacket, int),
                    _,
                >(e),
            },
    {
        let _total_length = packet.read_i32()?;
        let packet_type = packet.read_i32()?;
        if packet_type != PACKET_HEART_BEAT {
            return Err(PacketError::InvalidPacketType);
        }
        let ping_number = packet.read_i64()?;
        let end_byte = packet.read_byte()?;
        Ok(Self { ping_number, end_byte })
    }
}

impl ToBytes for HeartPacket {
    open spec fn frame(&self) -> Seq<u8> {
        framed(self.body())
    }

    fn to_bytes(&self) -> (res: Result<Vec<u8>, PacketError>) {
        let mut inner = Packet::new();
        inner.write_i32(PACKET_HEART_BEAT)?;
        inner.write_i64(self.ping_number)?;
        inner.write_byte(self.end_byte)?;

        let mut final_packet = Packet::new();
        let total_length = content_length(inner.payload.len());
        final_packet.write_i32(total_length)?;
        final_packet.write_bytes(&inner.payload)?;
        assert(final_packet.payload@ =~= framed(self.body()));
        Ok(final_packet.payload)
    }
}

/// A heartbeat ping that is encoded and decoded again is the packet it
/// was, and the decoder stops at the end of the frame.
pub proof fn lemma_heart_round_trip(p: HeartPacket)
    ensures
        HeartPacket::parse(framed(p.body()), 0) == Ok::<_, PacketError>(
            (p, framed(p.body()).len() as int),
        ),
{
    let body = p.body();
    let w0 = be32(PACKET_HEART_BEAT as int);
    let w1 = w0 + be64(p.ping_number as int);
    lemma_begins_with_itself(body);
    lemma_byte_in_frame(w1, p.end_byte, body);
    lemma_i64_in_frame(w0, p.ping_number, body);
    assert(Seq::<u8>::empty() + w0 =~= w0);
    lemma_i32_in_frame(Seq::<u8>::empty(), PACKET_HEART_BEAT, body);
    lemma_frame_length(body);
}

} // verus!
