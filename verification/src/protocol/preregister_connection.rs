//! The pre-registration packet, the first frame the client sends.

use crate::error::PacketError;
use crate::network::{content_length, ToBytes};
use crate::packet::Packet;
use crate::wire::{
    be16, be32, framed, lemma_begins_with_itself, lemma_bytes_in_frame, lemma_field_in_frame,
    lemma_frame_length, lemma_i32_in_frame, lemma_opt_string_in_frame, lemma_string_in_frame,
    read_bytes_at, read_i32_at, read_opt_string_at, read_string_at, sendable, wire_opt_string,
    wire_string,
};
use vstd::prelude::*;
use vstd::string::StringExecFns;

verus! {

/// The type tag of the pre-registration packet.
pub const PACKET_PREREGISTER_CONNECTION: i32 = 160;

/// The protocol revision from which the relay id stands on the wire.
pub const RELAY_ID_SINCE: i32 = 2;

/// The protocol revision from which the nickname stands on the wire.
pub const NICKNAME_SINCE: i32 = 3;

/// The pre-registration packet.
#[derive(Debug, PartialEq)]
pub struct PreregisterConnectionPacket {
    pub package_name: String,
    pub protocol_version: i32,
    pub game_version: i32,
    pub another_game_version: i32,
    pub relay_id: String,
    pub nickname: String,
    pub locale: String,
}

/// What a pre-registration packet holds, its texts as sequences of
/// characters.
pub struct PreregisterConnectionView {
    pub package_name: Seq<char>,
    pub protocol_version: i32,
    pub game_version: i32,
    pub another_game_version: i32,
    pub relay_id: Seq<char>,
    pub nickname: Seq<char>,
    pub locale: Seq<char>,
}

impl View for PreregisterConnectionPacket {
    type V = PreregisterConnectionView;

    open spec fn view(&self) -> PreregisterConnectionView {
        PreregisterConnectionView {
            package_name: self.package_name@,
            protocol_version: self.protocol_version,
            game_version: self.game_version,
            another_game_version: self.another_game_version,
            relay_id: self.relay_id@,
            nickname: self.nickname@,
            locale: self.locale@,
        }
    }
}

impl PreregisterConnectionView {
    /// The packet that opens every connection.
    pub open spec fn initial() -> PreregisterConnectionView {
        PreregisterConnectionView {
            package_name: "com.corrodinggames.rts"@,
            protocol_version: 4,
            game_version: 176,
            another_game_version: 2,
            relay_id: Seq::<char>::empty(),
            nickname: "wanan"@,
            locale: "zh"@,
        }
    }

    /// The relay id as it stands on the wire: an optional string from
    /// revision 2 on, nothing before.
    pub open spec fn wire_relay_id(self) -> Seq<u8> {
        if self.protocol_version >= RELAY_ID_SINCE {
            wire_opt_string(self.relay_id)
        } else {
            Seq::<u8>::empty()
        }
    }

    /// The nickname as it stands on the wire: a plain string from revision
    /// 3 on, nothing before.
    pub open spec fn wire_nickname(self) -> Seq<u8> {
        if self.protocol_version >= NICKNAME_SINCE {
            wire_string(self.nickname)
        } else {
            Seq::<u8>::empty()
        }
    }

    /// The type tag and the fields, in the order of the wire, closed by two
    /// reserved bytes.
    pub open spec fn body(self) -> Seq<u8> {
        be32(PACKET_PREREGISTER_CONNECTION as int) + wire_string(self.package_name) + be32(
            self.protocol_version as int,
        ) + be32(self.game_version as int) + be32(self.another_game_version as int)
            + self.wire_relay_id() + self.wire_nickname() + wire_string(self.locale) + be16(0)
    }

    /// The packet can be sent and read back as it is: every text fits its
    /// length prefix, and a field that its revision leaves out is empty.
    pub open spec fn canonical(self) -> bool {
        &&& sendable(self.package_name)
        &&& sendable(self.relay_id)
        &&& sendable(self.nickname)
        &&& sendable(self.locale)
        &&& (self.protocol_version < RELAY_ID_SINCE ==> self.relay_id.len() == 0)
        &&& (self.protocol_version < NICKNAME_SINCE ==> self.nickname.len() == 0)
    }
}

impl PreregisterConnectionPacket {
    /// The packet that opens every connection: revision 4, game version
    /// 176, no relay id, the nickname "wanan" and the locale "zh".
    pub fn new() -> (out: Self)
        ensures
            out@ == PreregisterConnectionView::initial(),
    {
        Self {
            package_name: String::from_str("com.corrodinggames.rts"),
            protocol_version: 4,
            game_version: 176,
            another_game_version: 2,
            relay_id: String::new(),
            nickname: String::from_str("wanan"),
            locale: String::from_str("zh"),
        }
    }

    /// The relay id field: read only from revision 2 on, else empty.
    pub open spec fn parse_relay_id(b: Seq<u8>, pos: int, protocol_version: i32) -> Result<
        (Seq<char>, int),
        PacketError,
    > {
        if protocol_version >= RELAY_ID_SINCE {
            read_opt_string_at(b, pos)
        } else {
            Ok((Seq::<char>::empty(), pos))
        }
    }

    /// The nickname field: read only from revision 3 on, else empty.
    pub open spec fn parse_nickname(b: Seq<u8>, pos: int, protocol_version: i32) -> Result<
        (Seq<char>, int),
        PacketError,
    > {
        if protocol_version >= NICKNAME_SINCE {
            read_string_at(b, pos)
        } else {
            Ok((Seq::<char>::empty(), pos))
        }
    }

    /// What the fields behind the type tag read as, from `pos` on. The two
    /// reserved bytes must be there; what they hold is not examined.
    pub open spec fn parse_fields(b: Seq<u8>, pos: int) -> Result<
        (PreregisterConnectionView, int),
        PacketError,
    > {
        match read_string_at(b, pos) {
            Err(e) => Err(e),
            Ok((package_name, at1)) => match read_i32_at(b, at1) {
                Err(e) => Err(e),
                Ok((protocol_version, at2)) => match read_i32_at(b, at2) {
                    Err(e) => Err(e),
                    Ok((game_version, at3)) => match read_i32_at(b, at3) {
                        Err(e) => Err(e),
                        Ok((another_game_version, at4)) => match Self::parse_relay_id(
                            b,
                            at4,
                            protocol_version,
                        ) {
                            Err(e) => Err(e),
                            Ok((relay_id, at5)) => match Self::parse_nickname(
                                b,
                                at5,
                                protocol_version,
                            ) {
                                Err(e) => Err(e),
                                Ok((nickname, at6)) => match read_string_at(b, at6) {
                                    Err(e) => Err(e),
                                    Ok((locale, at7)) => match read_bytes_at(b, at7, 2) {
                                        Err(e) => Err(e),
                                        Ok((_, at8)) => Ok(
                                            (
                                                PreregisterConnectionView {
                                                    package_name,
                                                    protocol_version,
                                                    game_version,
                                                    another_game_version,
                                                    relay_id,
                                                    nickname,
                                                    locale,
                                                },
                                                at8,
                                            ),
                                        ),
                                    },
                                },
                            },
                        },
                    },
                },
            },
        }
    }

    /// What a frame at `pos` reads as: the declared length is read and not
    /// examined, the type tag must be that of this packet, and the fields
    /// follow.
    pub open spec fn parse(b: Seq<u8>, pos: int) -> Result<
        (PreregisterConnectionView, int),
        PacketError,
    > {
        match read_i32_at(b, pos) {
            Err(e) => Err(e),
            Ok((_, at_tag)) => match read_i32_at(b, at_tag) {
                Err(e) => Err(e),
                Ok((tag, at_fields)) => if tag != PACKET_PREREGISTER_CONNECTION {
                    Err(PacketError::InvalidPacketType)
                } else {
                    Self::parse_fields(b, at_fields)
                },
            },
        }
    }

    /// Decodes the frame at the cursor. On failure the cursor stays where
    /// it was.
    pub fn from_packet(packet: &mut Packet) -> (res: Result<Self, PacketError>)
        ensures
            final(packet).payload@ == old(packet).payload@,
            old(packet).wf() ==> final(packet).wf(),
            match res {
                Ok(p) => Self::parse(old(packet).payload@, old(packet).offset as int) == Ok::<
                    _,
                    PacketError,
                >((p@, final(packet).offset as int)),
                Err(e) => final(packet).offset == old(packet).offset && Self::parse(
                    old(packet).payload@,
                    old(packet).offset as int,
                ) == Err::<(PreregisterConnectionView, int), _>(e),
            },
    {
        let start = packet.offset;
        match Self::read_frame(packet) {
            Ok(p) => Ok(p),
            Err(e) => {
                packet.offset = start;
                Err(e)
            },
        }
    }

    /// Reads the frame field by field; the cursor stops behind the last
    /// field that was read.
    fn read_frame(packet: &mut Packet) -> (res: Result<Self, PacketError>)
        ensures
            final(packet).payload@ == old(packet).payload@,
            old(packet).wf() ==> final(packet).wf(),
            match res {
                Ok(p) => Self::parse(old(packet).payload@, old(packet).offset as int) == Ok::<
                    _,
                    PacketError,
                >((p@, final(packet).offset as int)),
                Err(e) => Self::parse(old(packet).payload@, old(packet).offset as int) == Err::<
                    (PreregisterConnectionView, int),
                    _,
                >(e),
            },
    {
        let _total_length = packet.read_i32()?;
        let packet_type = packet.read_i32()?;
        if packet_type != PACKET_PREREGISTER_CONNECTION {
            return Err(PacketError::InvalidPacketType);
        }
        let package_name = packet.read_string()?;
        let protocol_version = packet.read_i32()?;
        let game_version = packet.read_i32()?;
        let another_game_version = packet.read_i32()?;

        let relay_id = if protocol_version >= RELAY_ID_SINCE {
            packet.read_is_string()?
        } else {
            String::new()
        };

        let nickname = if protocol_version >= NICKNAME_SINCE {
            packet.read_string()?
        } else {
            String::new()
        };

        let locale = packet.read_string()?;

        packet.read_bytes(2)?;

        Ok(
            Self {
                package_name,
                protocol_version,
                game_version,
                another_game_version,
                relay_id,
                nickname,
                locale,
            },
        )
    }
}

impl ToBytes for PreregisterConnectionPacket {
    open spec fn frame(&self) -> Seq<u8> {
        framed(self@.body())
    }

    fn to_bytes(&self) -> (res: Result<Vec<u8>, PacketError>) {
        let mut inner = Packet::new();
        inner.write_i32(PACKET_PREREGISTER_CONNECTION)?;
        inner.write_string(&self.package_name)?;
        inner.write_i32(self.protocol_version)?;
        inner.write_i32(self.game_version)?;
        inner.write_i32(self.another_game_version)?;
        let ghost head = inner.payload@;

        if self.protocol_version >= RELAY_ID_SINCE {
            inner.write_is_string(&self.relay_id)?;
        }
        assert(inner.payload@ =~= head + self@.wire_relay_id());

        if self.protocol_version >= NICKNAME_SINCE {
            inner.write_string(&self.nickname)?;
        }
        assert(inner.payload@ =~= head + self@.wire_relay_id() + self@.wire_nickname());

        inner.write_string(&self.locale)?;
        inner.write_i16(0)?;

        let mut final_packet = Packet::new();
        let total_length = content_length(inner.payload.len());
        final_packet.write_i32(total_length)?;
        final_packet.write_bytes(&inner.payload)?;
        assert(final_packet.payload@ =~= framed(self@.body()));
        Ok(final_packet.payload)
    }
}

/// A canonical pre-registration packet that is encoded and decoded again is
/// the packet it was, whatever its revision, and the decoder stops at the
/// end of the frame, behind the two reserved bytes.
pub proof fn lemma_preregister_round_trip(v: PreregisterConnectionView)
    requires
        v.canonical(),
    ensures
        PreregisterConnectionPacket::parse(framed(v.body()), 0) == Ok::<_, PacketError>(
            (v, framed(v.body()).len() as int),
        ),
{
    let body = v.body();
    let w0 = be32(PACKET_PREREGISTER_CONNECTION as int);
    let w1 = w0 + wire_string(v.package_name);
    let w2 = w1 + be32(v.protocol_version as int);
    let w3 = w2 + be32(v.game_version as int);
    let w4 = w3 + be32(v.another_game_version as int);
    let w5 = w4 + v.wire_relay_id();
    let w6 = w5 + v.wire_nickname();
    let w7 = w6 + wire_string(v.locale);
    lemma_begins_with_itself(body);
    lemma_bytes_in_frame(w7, be16(0), body);
    lemma_string_in_frame(w6, v.locale, body);
    if v.protocol_version >= NICKNAME_SINCE {
        lemma_string_in_frame(w5, v.nickname, body);
    } else {
        lemma_field_in_frame(w5, Seq::<u8>::empty(), body);
        assert(v.nickname =~= Seq::<char>::empty());
    }
    if v.protocol_version >= RELAY_ID_SINCE {
        lemma_opt_string_in_frame(w4, v.relay_id, body);
    } else {
        lemma_field_in_frame(w4, Seq::<u8>::empty(), body);
        assert(v.relay_id =~= Seq::<char>::empty());
    }
    lemma_i32_in_frame(w3, v.another_game_version, body);
    lemma_i32_in_frame(w2, v.game_version, body);
    lemma_i32_in_frame(w1, v.protocol_version, body);
    lemma_string_in_frame(w0, v.package_name, body);
    assert(Seq::<u8>::empty() + w0 =~= w0);
    lemma_i32_in_frame(Seq::<u8>::empty(), PACKET_PREREGISTER_CONNECTION, body);
    lemma_frame_length(body);
}

} // verus!
