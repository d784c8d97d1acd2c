//! The registration packet, with which the server asks the client for its
//! identity and hands out the key that the credentials are derived from.

use crate::error::PacketError;
use crate::network::content_length;
use crate::packet::Packet;
use crate::wire::{
    be32, framed, lemma_begins_with_itself, lemma_frame_length, lemma_i32_in_frame,
    lemma_string_in_frame, read_i32_at, read_string_at, sendable, wire_string,
};
use vstd::prelude::*;
use vstd::slice::slice_to_vec;
use vstd::string::StringExecFns;

verus! {

/// The type tag under which the server's registration packet arrives. The
/// dispatcher goes by this value.
pub const PACKET_PREREGISTER_CONNECTION: i32 = 161;

/// A second value that has been seen as the tag of a registration packet.
/// It is the tag of the client's pre-registration too, and nothing here
/// decodes or encodes a registration packet under it.
pub const PACKET_REGISTER_CONNECTION: i32 = 160;

/// The registration packet.
#[derive(Debug, PartialEq)]
pub struct RegisterConnectionPacket {
    pub server_id: String,
    pub protocol_version: i32,
    pub game_version: i32,
    pub another_game_version: i32,
    pub pkg_name: String,
    pub network_server_id: String,
    pub server_key: i32,
    pub color: i32,
    /// The reserved field; it is sent as 0.
    pub zero: i32,
}

/// What a registration packet holds, its texts as sequences of characters.
pub struct RegisterConnectionView {
    pub server_id: Seq<char>,
    pub protocol_version: i32,
    pub game_version: i32,
    pub another_game_version: i32,
    pub pkg_name: Seq<char>,
    pub network_server_id: Seq<char>,
    pub server_key: i32,
    pub color: i32,
    pub zero: i32,
}

impl View for RegisterConnectionPacket {
    type V = RegisterConnectionView;

    open spec fn view(&self) -> RegisterConnectionView {
        RegisterConnectionView {
            server_id: self.server_id@,
            protocol_version: self.protocol_version,
            game_version: self.game_version,
            another_game_version: self.another_game_version,
            pkg_name: self.pkg_name@,
            network_server_id: self.network_server_id@,
            server_key: self.server_key,
            color: self.color,
            zero: self.zero,
        }
    }
}

impl RegisterConnectionView {
    /// The packet as it is before any field has been set.
    pub open spec fn initial() -> RegisterConnectionView {
        RegisterConnectionView {
            server_id: "com.corrodinggames.rts"@,
            protocol_version: 2,
            game_version: 176,
            another_game_version: 176,
            pkg_name: "com.corrodinggames.rts.java"@,
            network_server_id: Seq::<char>::empty(),
            server_key: 0,
            color: 0,
            zero: 0,
        }
    }

    /// The type tag and the fields, in the order of the wire. The reserved
    /// field is sent as 0, whatever the packet holds there.
    pub open spec fn body(self) -> Seq<u8> {
        be32(PACKET_PREREGISTER_CONNECTION as int) + wire_string(self.server_id) + be32(
            self.protocol_version as int,
        ) + be32(self.game_version as int) + be32(self.another_game_version as int) + wire_string(
            self.pkg_name,
        ) + wire_string(self.network_server_id) + be32(self.server_key as int) + be32(
            self.color as int,
        ) + be32(0)
    }

    /// The packet can be sent and read back as it is: every text fits its
    /// length prefix and the reserved field is 0.
    pub open spec fn canonical(self) -> bool {
        &&& sendable(self.server_id)
        &&& sendable(self.pkg_name)
        &&& sendable(self.network_server_id)
        &&& self.zero == 0
    }
}

impl RegisterConnectionPacket {
    /// A packet with the fixed names and versions, no server id, and key
    /// and colour 0.
    pub fn new() -> (out: Self)
        ensures
            out@ == RegisterConnectionView::initial(),
    {
        Self {
            server_id: String::from_str("com.corrodinggames.rts"),
            protocol_version: 2,
            game_version: 176,
            another_game_version: 176,
            pkg_name: String::from_str("com.corrodinggames.rts.java"),
            network_server_id: String::new(),
            server_key: 0,
            color: 0,
            zero: 0,
        }
    }

    /// What the fields behind the type tag read as, from `pos` on.
    pub open spec fn parse_fields(b: Seq<u8>, pos: int) -> Result<
        (RegisterConnectionView, int),
        PacketError,
    > {
        match read_string_at(b, pos) {
            Err(e) => Err(e),
            Ok((server_id, at1)) => match read_i32_at(b, at1) {
                Err(e) => Err(e),
                Ok((protocol_version, at2)) => match read_i32_at(b, at2) {
                    Err(e) => Err(e),
                    Ok((game_version, at3)) => match read_i32_at(b, at3) {
                        Err(e) => Err(e),
                        Ok((another_game_version, at4)) => match read_string_at(b, at4) {
                            Err(e) => Err(e),
                            Ok((pkg_name, at5)) => match read_string_at(b, at5) {
                                Err(e) => Err(e),
                                Ok((network_server_id, at6)) => match read_i32_at(b, at6) {
                                    Err(e) => Err(e),
                                    Ok((server_key, at7)) => match read_i32_at(b, at7) {
                                        Err(e) => Err(e),
                                        Ok((color, at8)) => match read_i32_at(b, at8) {
                                            Err(e) => Err(e),
                                            Ok((zero, at9)) => Ok(
                                                (
                                                    RegisterConnectionView {
                                                        server_id,
                                                        protocol_version,
                                                        game_version,
                                                        another_game_version,
                                                        pkg_name,
                                                        network_server_id,
                                                        server_key,
                                                        color,
                                                        zero,
                                                    },
                                                    at9,
                                                ),
                                            ),
                                        },
                                    },
                                },
                            },
                        },
                    },
                },
            },
        }
    }

    /// What a frame at `pos` reads as: the declared length is read and not
    /// examined, the type tag must be that of this packet, and the fields
    /// follow.
    pub open spec fn parse(b: Seq<u8>, pos: int) -> Result<
        (RegisterConnectionView, int),
        PacketError,
    > {
        match read_i32_at(b, pos) {
            Err(e) => Err(e),
            Ok((_, at_tag)) => match read_i32_at(b, at_tag) {
                Err(e) => Err(e),
                Ok((tag, at_fields)) => if tag != PACKET_PREREGISTER_CONNECTION {
                    Err(PacketError::InvalidPacketType)
                } else {
                    Self::parse_fields(b, at_fields)
                },
            },
        }
    }

    /// What `data` reads as where it must be one whole frame: it has to
    /// hold length and type tag, and the declared length has to be the
    /// number of bytes behind the two, or the frame is out of bounds; then
    /// it is decoded from its start.
    pub open spec fn parse_whole(data: Seq<u8>) -> Result<RegisterConnectionView, PacketError> {
        match read_i32_at(data, 0) {
            Err(e) => Err(e),
            Ok((declared, _)) => if data.len() < 8 || declared != data.len() - 8 {
                Err(PacketError::OutOfBounds)
            } else {
                match Self::parse(data, 0) {
                    Err(e) => Err(e),
                    Ok((v, _)) => Ok(v),
                }
            },
        }
    }

    /// Decodes the frame at the cursor. On failure the cursor stays where
    /// it was.
    pub fn from_packet(packet: &mut Packet) -> (res: Result<Self, PacketError>)
        ensures
            final(packet).payload@ == old(packet).payload@,
            old(packet).wf() ==> final(packet).wf(),
            match res {
                Ok(p) => Self::parse(old(packet).payload@, old(packet).offset as int) == Ok::<
                    _,
                    PacketError,
                >((p@, final(packet).offset as int)),
                Err(e) => final(packet).offset == old(packet).offset && Self::parse(
                    old(packet).payload@,
                    old(packet).offset as int,
                ) == Err::<(RegisterConnectionView, int), _>(e),
            },
    {
        let start = packet.offset;
        match Self::read_frame(packet) {
            Ok(p) => Ok(p),
            Err(e) => {
                packet.offset = start;
                Err(e)
            },
        }
    }

    /// Reads the frame field by field; the cursor stops behind the last
    /// field that was read.
    fn read_frame(packet: &mut Packet) -> (res: Result<Self, PacketError>)
        ensures
            final(packet).payload@ == old(packet).payload@,
            old(packet).wf() ==> final(packet).wf(),
            match res {
                Ok(p) => Self::parse(old(packet).payload@, old(packet).offset as int) == Ok::<
                    _,
                    PacketError,
                >((p@, final(packet).offset as int)),
                Err(e) => Self::parse(old(packet).payload@, old(packet).offset as int) == Err::<
                    (RegisterConnectionView, int),
                    _,
                >(e),
            },
    {
        let _total_length = packet.read_i32()?;
        let packet_type = packet.read_i32()?;
        if packet_type != PACKET_PREREGISTER_CONNECTION {
            return Err(PacketError::InvalidPacketType);
        }
        let server_id = packet.read_string()?;
        let protocol_version = packet.read_i32()?;
        let game_version = packet.read_i32()?;
        let another_game_version = packet.read_i32()?;
        let pkg_name = packet.read_string()?;
        let network_server_id = packet.read_string()?;
        let server_key = packet.read_i32()?;
        let color = packet.read_i32()?;
        let zero = packet.read_i32()?;

        Ok(
            Self {
                server_id,
                protocol_version,
                game_version,
                another_game_version,
                pkg_name,
                network_server_id,
                server_key,
                color,
                zero,
            },
        )
    }

    /// Encodes the packet as one frame.
    pub fn to_bytes(&self) -> (res: Result<Vec<u8>, PacketError>)
        ensures
            res matches Ok(bytes) && bytes@ == framed(self@.body()),
    {
        let mut inner = Packet::new();
        inner.write_i32(PACKET_PREREGISTER_CONNECTION)?;
        inner.write_string(&self.server_id)?;
        inner.write_i32(self.protocol_version)?;
        inner.write_i32(self.game_version)?;
        inner.write_i32(self.another_game_version)?;
        inner.write_string(&self.pkg_name)?;
        inner.write_string(&self.network_server_id)?;
        inner.write_i32(self.server_key)?;
        inner.write_i32(self.color)?;
        inner.write_i32(0)?;

        let mut final_packet = Packet::new();
        let total_length = content_length(inner.payload.len());
        final_packet.write_i32(total_length)?;
        final_packet.write_bytes(&inner.payload)?;
        assert(final_packet.payload@ =~= framed(self@.body()));
        Ok(final_packet.payload)
    }

    /// Decodes `data` as one whole frame: the declared length must be the
    /// number of bytes that follow length and type tag, else the frame is
    /// refused as out of bounds.
    pub fn from_bytes(data: &[u8]) -> (res: Result<Self, PacketError>)
        ensures
            match res {
                Ok(p) => Self::parse_whole(data@) == Ok::<_, PacketError>(p@),
                Err(e) => Self::parse_whole(data@) == Err::<RegisterConnectionView, _>(e),
            },
    {
        let mut packet = Packet { payload: slice_to_vec(data), offset: 0 };
        let declared_length = packet.read_i32()?;
        if declared_length < 0 || packet.payload.len() < 8 || declared_length as usize
            != packet.payload.len() - 8 {
            return Err(PacketError::OutOfBounds);
        }
        packet.offset = 0;
        Self::from_packet(&mut packet)
    }
}

/// A canonical registration packet that is encoded and decoded again is
/// the packet it was, from a buffer and as a whole frame alike, and the
/// decoder stops at the end of the frame.
pub proof fn lemma_register_round_trip(v: RegisterConnectionView)
    requires
        v.canonical(),
    ensures
        RegisterConnectionPacket::parse(framed(v.body()), 0) == Ok::<_, PacketError>(
            (v, framed(v.body()).len() as int),
        ),
        RegisterConnectionPacket::parse_whole(framed(v.body())) == Ok::<_, PacketError>(v),
{
    let body = v.body();
    let w0 = be32(PACKET_PREREGISTER_CONNECTION as int);
    let w1 = w0 + wire_string(v.server_id);
    let w2 = w1 + be32(v.protocol_version as int);
    let w3 = w2 + be32(v.game_version as int);
    let w4 = w3 + be32(v.another_game_version as int);
    let w5 = w4 + wire_string(v.pkg_name);
    let w6 = w5 + wire_string(v.network_server_id);
    let w7 = w6 + be32(v.server_key as int);
    let w8 = w7 + be32(v.color as int);
    lemma_begins_with_itself(body);
    lemma_i32_in_frame(w8, 0, body);
    lemma_i32_in_frame(w7, v.color, body);
    lemma_i32_in_frame(w6, v.server_key, body);
    lemma_string_in_frame(w5, v.network_server_id, body);
    lemma_string_in_frame(w4, v.pkg_name, body);
    lemma_i32_in_frame(w3, v.another_game_version, body);
    lemma_i32_in_frame(w2, v.game_version, body);
    lemma_i32_in_frame(w1, v.protocol_version, body);
    lemma_string_in_frame(w0, v.server_id, body);
    assert(Seq::<u8>::empty() + w0 =~= w0);
    lemma_i32_in_frame(Seq::<u8>::empty(), PACKET_PREREGISTER_CONNECTION, body);
    lemma_frame_length(body);
}

} // verus!
