//! The player identity packet, sent in answer to the server's registration
//! request.

use crate::bridge::{fresh_uuid_text, uuid_bytes};
use crate::error::PacketError;
use crate::network::{content_length, ToBytes};
use crate::packet::Packet;
use crate::packet_utils::{
    color_text, compute_color_for_packet, compute_key_for_packet, compute_uuid_for_packet,
    token_text, uuid_sum_of, SerKey,
};
use crate::protocol::register_connection::RegisterConnectionPacket;
use crate::wire::{
    be32, framed, lemma_begins_with_itself, lemma_bool_in_frame, lemma_field_in_frame, lemma_frame_length,
    lemma_i32_in_frame, lemma_string_in_frame, read_bool_at, read_i32_at, read_string_at,
    sendable, wire_bool, wire_string,
};
use vstd::prelude::*;
use vstd::string::StringExecFns;

verus! {

/// The type tag of the player identity packet.
pub const PACKET_PLAYER_INFO: i32 = 110;

/// The player identity packet.
#[derive(Debug, PartialEq)]
pub struct PlayerInfoPacket {
    pub package_name: String,
    pub protocol_version: i32,
    pub game_version: i32,
    pub another_game_version: i32,
    pub nickname: String,
    pub is_password: bool,
    pub password: String,
    pub another_package_name: String,
    pub uuid_sum: String,
    pub client_units_checksum: i32,
    pub token: String,
    pub color: String,
}

/// What a player identity packet holds, its texts as sequences of
/// characters.
pub struct PlayerInfoView {
    pub package_name: Seq<char>,
    pub protocol_version: i32,
    pub game_version: i32,
    pub another_game_version: i32,
    pub nickname: Seq<char>,
    pub is_password: bool,
    pub password: Seq<char>,
    pub another_package_name: Seq<char>,
    pub uuid_sum: Seq<char>,
    pub client_units_checksum: i32,
    pub token: Seq<char>,
    pub color: Seq<char>,
}

impl View for PlayerInfoPacket {
    type V = PlayerInfoView;

    open spec fn view(&self) -> PlayerInfoView {
        PlayerInfoView {
            package_name: self.package_name@,
            protocol_version: self.protocol_version,
            game_version: self.game_version,
            another_game_version: self.another_game_version,
            nickname: self.nickname@,
            is_password: self.is_password,
            password: self.password@,
            another_package_name: self.another_package_name@,
            uuid_sum: self.uuid_sum@,
            client_units_checksum: self.client_units_checksum,
            token: self.token@,
            color: self.color@,
        }
    }
}

impl PlayerInfoView {
    /// The answer to a registration request: the fixed names and versions,
    /// no password, the given sum of UUIDs, and token and colour derived
    /// from the key and the colour number that the server sent.
    pub open spec fn answer(uuid_sum: Seq<char>, key: i32, color: i32) -> PlayerInfoView {
        PlayerInfoView {
            package_name: "com.corrodinggames.rts"@,
            protocol_version: 5,
            game_version: 176,
            another_game_version: 176,
            nickname: "wanan"@,
            is_password: false,
            password: Seq::<char>::empty(),
            another_package_name: "com.corrodinggames.rts.java"@,
            uuid_sum,
            client_units_checksum: 678359601,
            token: token_text(key),
            color: color_text(color),
        }
    }

    /// The password as it stands on the wire: present only with the flag.
    pub open spec fn wire_password(self) -> Seq<u8> {
        if self.is_password {
            wire_string(self.password)
        } else {
            Seq::<u8>::empty()
        }
    }

    /// The type tag and the fields, in the order of the wire.
    pub open spec fn body(self) -> Seq<u8> {
        be32(PACKET_PLAYER_INFO as int) + wire_string(self.package_name) + be32(
            self.protocol_version as int,
        ) + be32(self.game_version as int) + be32(self.another_game_version as int) + wire_string(
            self.nickname,
        ) + wire_bool(self.is_password) + self.wire_password() + wire_string(
            self.another_package_name,
        ) + wire_string(self.uuid_sum) + be32(self.client_units_checksum as int) + wire_string(
            self.token,
        ) + wire_string(self.color)
    }

    /// The packet can be sent and read back as it is: every text fits its
    /// length prefix, and a password is held only together with its flag.
    pub open spec fn canonical(self) -> bool {
        &&& sendable(self.package_name)
        &&& sendable(self.nickname)
        &&& sendable(self.password)
        &&& sendable(self.another_package_name)
        &&& sendable(self.uuid_sum)
        &&& sendable(self.token)
        &&& sendable(self.color)
        &&& (!self.is_password ==> self.password.len() == 0)
    }
}

impl PlayerInfoPacket {
    /// The answer to the registration request at the cursor, under a UUID
    /// that is drawn for this client. A request that cannot be decoded is
    /// answered with the decoder's error, the cursor unmoved; one whose
    /// server identifier names no UUID, with `InvalidUuid`.
    pub fn new(packet: &mut Packet) -> (res: Result<Self, PacketError>)
        ensures
            final(packet).payload@ == old(packet).payload@,
            old(packet).wf() ==> final(packet).wf(),
            match RegisterConnectionPacket::parse(old(packet).payload@, old(packet).offset as int) {
                Err(e) => res == Err::<Self, _>(e) && final(packet).offset == old(packet).offset,
                Ok((request, next)) => {
                    &&& final(packet).offset == next
                    &&& match res {
                        Ok(p) => {
                            &&& p@ == PlayerInfoView::answer(
                                p@.uuid_sum,
                                request.server_key,
                                request.color,
                            )
                            &&& exists|client: Seq<char>|
                                uuid_sum_of(client, request.network_server_id) == Some(p@.uuid_sum)
                        },
                        Err(e) => e == PacketError::InvalidUuid && uuid_bytes(
                            request.network_server_id,
                        ) is None,
                    }
                },
            },
    {
        let mut a = SerKey::new();
        SerKey::get(&mut a, packet)?;
        let client_uuid = fresh_uuid_text();
        let res = Self::with_client_uuid(client_uuid.as_str(), &a);
        assert(res matches Ok(p) ==> uuid_sum_of(client_uuid@, a.network_id@) == Some(
            p@.uuid_sum,
        ));
        res
    }

    /// The answer to a registration request under the client's UUID
    /// `client_uuid`, from the key, identifier and colour that the request
    /// carried. Where one of the two UUID texts names no UUID, the answer
    /// is `InvalidUuid`.
    pub fn with_client_uuid(client_uuid: &str, key: &SerKey) -> (res: Result<Self, PacketError>)
        ensures
            match res {
                Ok(p) => uuid_sum_of(client_uuid@, key.network_id@) == Some(p@.uuid_sum) && p@
                    == PlayerInfoView::answer(p@.uuid_sum, key.keys, key.color),
                Err(e) => e == PacketError::InvalidUuid && uuid_sum_of(
                    client_uuid@,
                    key.network_id@,
                ) is None,
            },
    {
        let uuid_sum = compute_uuid_for_packet(client_uuid, key.network_id.as_str())?;
        Ok(
            Self {
                package_name: String::from_str("com.corrodinggames.rts"),
                protocol_version: 5,
                game_version: 176,
                another_game_version: 176,
                nickname: String::from_str("wanan"),
                is_password: false,
                password: String::new(),
                another_package_name: String::from_str("com.corrodinggames.rts.java"),
                uuid_sum,
                client_units_checksum: 678359601,
                token: compute_key_for_packet(key.keys),
                color: compute_color_for_packet(key.color),
            },
        )
    }

    /// What the fields behind the type tag read as, from `pos` on.
    pub open spec fn parse_fields(b: Seq<u8>, pos: int) -> Result<(PlayerInfoView, int), PacketError> {
        match read_string_at(b, pos) {
            Err(e) => Err(e),
            Ok((package_name, at1)) => match read_i32_at(b, at1) {
                Err(e) => Err(e),
                Ok((protocol_version, at2)) => match read_i32_at(b, at2) {
                    Err(e) => Err(e),
                    Ok((game_version, at3)) => match read_i32_at(b, at3) {
                        Err(e) => Err(e),
                        Ok((another_game_version, at4)) => match read_string_at(b, at4) {
                            Err(e) => Err(e),
                            Ok((nickname, at5)) => match read_bool_at(b, at5) {
                                Err(e) => Err(e),
                                Ok((is_password, at6)) => match Self::parse_password(
                                    b,
                                    at6,
                                    is_password,
                                ) {
                                    Err(e) => Err(e),
                                    Ok((password, at7)) => match Self::parse_credentials(b, at7) {
                                        Err(e) => Err(e),
                                        Ok((credentials, at8)) => Ok(
                                            (
                                                PlayerInfoView {
                                                    package_name,
                                                    protocol_version,
                                                    game_version,
                                                    another_game_version,
                                                    nickname,
                                                    is_password,
                                                    password,
                                                    another_package_name: credentials.0,
                                                    uuid_sum: credentials.1,
                                                    client_units_checksum: credentials.2,
                                                    token: credentials.3,
                                                    color: credentials.4,
                                                },
                                                at8,
                                            ),
                                        ),
                                    },
                                },
                            },
                        },
                    },
                },
            },
        }
    }

    /// The password field: read only where the flag is set, else empty.
    pub open spec fn parse_password(b: Seq<u8>, pos: int, is_password: bool) -> Result<
        (Seq<char>, int),
        PacketError,
    > {
        if is_password {
            read_string_at(b, pos)
        } else {
            Ok((Seq::<char>::empty(), pos))
        }
    }

    /// The five last fields, from `pos` on: the second package name, the
    /// sum of UUIDs, the checksum, the token and the colour.
    pub open spec fn parse_credentials(b: Seq<u8>, pos: int) -> Result<
        ((Seq<char>, Seq<char>, i32, Seq<char>, Seq<char>), int),
        PacketError,
    > {
        match read_string_at(b, pos) {
            Err(e) => Err(e),
            Ok((another_package_name, at1)) => match read_string_at(b, at1) {
                Err(e) => Err(e),
                Ok((uuid_sum, at2)) => match read_i32_at(b, at2) {
                    Err(e) => Err(e),
                    Ok((client_units_checksum, at3)) => match read_string_at(b, at3) {
                        Err(e) => Err(e),
                        Ok((token, at4)) => match read_string_at(b, at4) {
                            Err(e) => Err(e),
                            Ok((color, at5)) => Ok(
                                (
                                    (
                                        another_package_name,
                                        uuid_sum,
                                        client_units_checksum,
                                        token,
                                        color,
                                    ),
                                    at5,
                                ),
                            ),
                        },
                    },
                },
            },
        }
    }

    /// What a frame at `pos` reads as: the declared length is read and not
    /// examined, the type tag must be that of this packet, and the fields
    /// follow.
    pub open spec fn parse(b: Seq<u8>, pos: int) -> Result<(PlayerInfoView, int), PacketError> {
        match read_i32_at(b, pos) {
            Err(e) => Err(e),
            Ok((_, at_tag)) => match read_i32_at(b, at_tag) {
                Err(e) => Err(e),
                Ok((tag, at_fields)) => if tag != PACKET_PLAYER_INFO {
                    Err(PacketError::InvalidPacketType)
                } else {
                    Self::parse_fields(b, at_fields)
                },
            },
        }
    }

    /// Decodes the frame at the cursor. On failure the cursor stays where
    /// it was.
    pub fn from_packet(packet: &mut Packet) -> (res: Result<Self, PacketError>)
        ensures
            final(packet).payload@ == old(packet).payload@,
            old(packet).wf() ==> final(packet).wf(),
            match res {
                Ok(p) => Self::parse(old(packet).payload@, old(packet).offset as int) == Ok::<
                    _,
                    PacketError,
                >((p@, final(packet).offset as int)),
                Err(e) => final(packet).offset == old(packet).offset && Self::parse(
                    old(packet).payload@,
                    old(packet).offset as int,
                ) == Err::<(PlayerInfoView, int), _>(e),
            },
    {
        let start = packet.offset;
        match Self::read_frame(packet) {
            Ok(p) => Ok(p),
            Err(e) => {
                packet.offset = start;
                Err(e)
            },
        }
    }

    /// Reads the frame field by field; the cursor stops behind the last
    /// field that was read.
    fn read_frame(packet: &mut Packet) -> (res: Result<Self, PacketError>)
        ensures
            final(packet).payload@ == old(packet).payload@,
            old(packet).wf() ==> final(packet).wf(),
            match res {
                Ok(p) => Self::parse(old(packet).payload@, old(packet).offset as int) == Ok::<
                    _,
                    PacketError,
                >((p@, final(packet).offset as int)),
                Err(e) => Self::parse(old(packet).payload@, old(packet).offset as int) == Err::<
                    (PlayerInfoView, int),
                    _,
                >(e),
            },
    {
        let _total_length = packet.read_i32()?;
        let packet_type = packet.read_i32()?;
        if packet_type != PACKET_PLAYER_INFO {
            return Err(PacketError::InvalidPacketType);
        }
        let package_name = packet.read_string()?;
        let protocol_version = packet.read_i32()?;
        let game_version = packet.read_i32()?;
        let another_game_version = packet.read_i32()?;
        let nickname = packet.read_string()?;
        let is_password = packet.read_bool()?;
        let password = if is_password {
            packet.read_string()?
        } else {
            String::new()
        };
        let another_package_name = packet.read_string()?;
        let uuid_sum = packet.read_string()?;
        let client_units_checksum = packet.read_i32()?;
        let token = packet.read_string()?;
        let color = packet.read_string()?;
        Ok(
            Self {
                package_name,
                protocol_version,
                game_version,
                another_game_version,
                nickname,
                is_password,
                password,
                another_package_name,
                uuid_sum,
                client_units_checksum,
                token,
                color,
            },
        )
    }
}

impl ToBytes for PlayerInfoPacket {
    open spec fn frame(&self) -> Seq<u8> {
        framed(self@.body())
    }

    fn to_bytes(&self) -> (res: Result<Vec<u8>, PacketError>) {
        let mut inner = Packet::new();
        inner.write_i32(PACKET_PLAYER_INFO)?;
        inner.write_string(&self.package_name)?;
        inner.write_i32(self.protocol_version)?;
        inner.write_i32(self.game_version)?;
        inner.write_i32(self.another_game_version)?;
        inner.write_string(&self.nickname)?;
        inner.write_bool(self.is_password)?;
        if self.is_password {
            inner.write_string(&self.password)?;
        }
        assert(inner.payload@ =~= be32(PACKET_PLAYER_INFO as int) + wire_string(self@.package_name)
            + be32(self.protocol_version as int) + be32(self.game_version as int) + be32(
            self.another_game_version as int,
        ) + wire_string(self@.nickname) + wire_bool(self.is_password) + self@.wire_password());
        inner.write_string(&self.another_package_name)?;
        inner.write_string(&self.uuid_sum)?;
        inner.write_i32(self.client_units_checksum)?;
        inner.write_string(&self.token)?;
        inner.write_string(&self.color)?;

        let mut final_packet = Packet::new();
        let total_length = content_length(inner.payload.len());
        final_packet.write_i32(total_length)?;
        final_packet.write_bytes(&inner.payload)?;
        assert(final_packet.payload@ =~= framed(self@.body()));
        Ok(final_packet.payload)
    }
}

/// A canonical player identity packet that is encoded and decoded again is
/// the packet it was, and the decoder stops at the end of the frame.
pub proof fn lemma_player_info_round_trip(v: PlayerInfoView)
    requires
        v.canonical(),
    ensures
        PlayerInfoPacket::parse(framed(v.body()), 0) == Ok::<_, PacketError>(
            (v, framed(v.body()).len() as int),
        ),
{
    let body = v.body();
    let w0 = be32(PACKET_PLAYER_INFO as int);
    let w1 = w0 + wire_string(v.package_name);
    let w2 = w1 + be32(v.protocol_version as int);
    let w3 = w2 + be32(v.game_version as int);
    let w4 = w3 + be32(v.another_game_version as int);
    let w5 = w4 + wire_string(v.nickname);
    let w6 = w5 + wire_bool(v.is_password);
    let w7 = w6 + v.wire_password();
    let w8 = w7 + wire_string(v.another_package_name);
    let w9 = w8 + wire_string(v.uuid_sum);
    let w10 = w9 + be32(v.client_units_checksum as int);
    let w11 = w10 + wire_string(v.token);
    lemma_begins_with_itself(body);
    lemma_string_in_frame(w11, v.color, body);
    lemma_string_in_frame(w10, v.token, body);
    lemma_i32_in_frame(w9, v.client_units_checksum, body);
    lemma_string_in_frame(w8, v.uuid_sum, body);
    lemma_string_in_frame(w7, v.another_package_name, body);
    if v.is_password {
        lemma_string_in_frame(w6, v.password, body);
    } else {
        lemma_field_in_frame(w6, Seq::<u8>::empty(), body);
        assert(v.password =~= Seq::<char>::empty());
    }
    lemma_bool_in_frame(w5, v.is_password, body);
    lemma_string_in_frame(w4, v.nickname, body);
    lemma_i32_in_frame(w3, v.another_game_version, body);
    lemma_i32_in_frame(w2, v.game_version, body);
    lemma_i32_in_frame(w1, v.protocol_version, body);
    lemma_string_in_frame(w0, v.package_name, body);
    assert(Seq::<u8>::empty() + w0 =~= w0);
    lemma_i32_in_frame(Seq::<u8>::empty(), PACKET_PLAYER_INFO, body);
    lemma_frame_length(body);
}

} // verus!
