use crate::protocol::types::error::DatatypeError;
use crate::protocol::types::identifier::{
    lemma_read_identifier_consumed, spec_read_identifier, Identifier, IdentifierModel,
};
use crate::protocol::types::known_pack::{KnownPack, KnownPackModel};
use crate::protocol::types::primitives::{spec_read_bool, spec_read_i8, spec_read_u8};
use crate::protocol::types::reader::Reader;
use crate::protocol::types::string::{lemma_read_string_consumed, read_string, spec_read_string};
use crate::protocol::types::var_num::{lemma_varint_consumed, spec_varint, VarInt};
use crate::protocol::types::vec::{
    identifiers_view, known_packs_view, read_identifier_list, read_known_pack_list,
    spec_read_identifier_list, spec_read_known_pack_list,
};
use vstd::prelude::*;

verus! {

/// A client-to-server channel message: the channel's identifier, then the
/// message bytes, which run to the end of the body.
#[derive(Debug, Clone)]
pub struct ServerboundPluginMessage {
    pub channel: Identifier,
    pub data: Vec<u8>,
}

/// Mathematical image of a [`ServerboundPluginMessage`].
pub struct ServerboundPluginMessageModel {
    pub channel: IdentifierModel,
    pub data: Seq<u8>,
}

impl View for ServerboundPluginMessage {
    type V = ServerboundPluginMessageModel;

    open spec fn view(&self) -> ServerboundPluginMessageModel {
        ServerboundPluginMessageModel { channel: self.channel@, data: self.data@ }
    }
}

/// A channel-message body: an identifier field, then every remaining byte.
pub open spec fn spec_read_plugin_message(s: Seq<u8>) -> Result<
    (ServerboundPluginMessageModel, int),
    DatatypeError,
> {
    match spec_read_identifier(s) {
        Ok((channel, c)) => Ok(
            (
                ServerboundPluginMessageModel { channel, data: s.skip(c) },
                s.len() as int,
            ),
        ),
        Err(e) => Err(e),
    }
}

impl ServerboundPluginMessage {
    /// Decode a channel-message body, as [`spec_read_plugin_message`]
    /// describes.
    pub fn from_bytes(r: &mut Reader) -> (res: Result<ServerboundPluginMessage, DatatypeError>)
        requires
            old(r).wf(),
        ensures
            final(r).wf(),
            final(r).data == old(r).data,
            match spec_read_plugin_message(old(r).rest()) {
                Ok((v, c)) => res is Ok && res->Ok_0@ == v && final(r).rest() == old(
                    r,
                ).rest().skip(c),
                Err(e) => res is Err && res->Err_0 == e,
            },
    {
        let ghost s0 = old(r).rest();
        let channel = match Identifier::from_bytes(r) {
            Ok(v) => v,
            Err(e) => {
                return Err(e);
            },
        };
        let data = r.read_rest();
        proof {
            lemma_read_identifier_consumed(s0);
            assert(final(r).rest() =~= s0.skip(s0.len() as int));
        }
        Ok(ServerboundPluginMessage { channel, data })
    }
}

/// The client's settings: locale, view distance, chat and display options.
#[derive(Debug, Clone)]
pub struct ClientInformation {
    pub locale: String,
    pub view_distance: i8,
    pub chat_mode: VarInt,
    pub chat_colors: bool,
    pub displayed_skin_parts: u8,
    pub main_hand: VarInt,
    pub enable_text_filtering: bool,
    pub allow_server_listings: bool,
    pub particle_status: VarInt,
}

/// Mathematical image of a [`ClientInformation`].
pub struct ClientInformationModel {
    pub locale: Seq<char>,
    pub view_distance: i8,
    pub chat_mode: VarInt,
    pub chat_colors: bool,
    pub displayed_skin_parts: u8,
    pub main_hand: VarInt,
    pub enable_text_filtering: bool,
    pub allow_server_listings: bool,
    pub particle_status: VarInt,
}

impl View for ClientInformation {
    type V = ClientInformationModel;

    open spec fn view(&self) -> ClientInformationModel {
        ClientInformationModel {
            locale: self.locale@,
            view_distance: self.view_distance,
            chat_mode: self.chat_mode,
            chat_colors: self.chat_colors,
            displayed_skin_parts: self.displayed_skin_parts,
            main_hand: self.main_hand,
            enable_text_filtering: self.enable_text_filtering,
            allow_server_listings: self.allow_server_listings,
            particle_status: self.particle_status,
        }
    }
}

/// A client-information body: a string locale, a signed byte view distance,
/// then the chat, skin, hand, filtering, listing and particle fields in
/// order.
pub open spec fn spec_read_client_information(s: Seq<u8>) -> Result<
    (ClientInformationModel, int),
    DatatypeError,
> {
    match spec_read_string(s) {
        Ok((locale, c1)) => {
            let s1 = s.skip(c1);
            match spec_read_i8(s1) {
                Ok((view_distance, _c)) => {
                    let s2 = s1.skip(1);
                    match spec_varint(s2) {
                        Ok((chat_mode, c3)) => {
                            let s3 = s2.skip(c3);
                            match spec_read_bool(s3) {
                                Ok((chat_colors, _c)) => {
                                    let s4 = s3.skip(1);
                                    match spec_read_u8(s4) {
                                        Ok((displayed_skin_parts, _c)) => {
                                            let s5 = s4.skip(1);
                                            match spec_varint(s5) {
                                                Ok((main_hand, c6)) => {
                                                    let s6 = s5.skip(c6);
                                                    match spec_read_bool(s6) {
                                                        Ok((enable_text_filtering, _c)) => {
                                                            let s7 = s6.skip(1);
                                                            match spec_read_bool(s7) {
                                                                Ok((allow_server_listings, _c)) => {
                                                                    let s8 = s7.skip(1);
                                                                    match spec_varint(s8) {
                                                                        Ok((particle_status, c9)) => Ok(
                                                                            (
                                                                                ClientInformationModel {
                                                                                    locale,
                                                                                    view_distance,
                                                                                    chat_mode: VarInt { value: chat_mode },
                                                                                    chat_colors,
                                                                                    displayed_skin_parts,
                                                                                    main_hand: VarInt { value: main_hand },
                                                                                    enable_text_filtering,
                                                                                    allow_server_listings,
                                                                                    particle_status: VarInt { value: particle_status },
                                                                                },
                                                                                c1 + 1 + c3 + 1 + 1
                                                                                    + c6 + 1 + 1
                                                                                    + c9,
                                                                            ),
                                                                        ),
                                                                        Err(e) => Err(e),
                                                                    }
                                                                },
                                                                Err(e) => Err(e),
                                                            }
                                                        },
                                                        Err(e) => Err(e),
                                                    }
                                                },
                                                Err(e) => Err(e),
                                            }
                                        },
                                        Err(e) => Err(e),
                                    }
                                },
                                Err(e) => Err(e),
                            }
                        },
                        Err(e) => Err(e),
                    }
                },
                Err(e) => Err(e),
            }
        },
        Err(e) => Err(e),
    }
}

impl ClientInformation {
    /// Decode a client-information body, as [`spec_read_client_information`]
    /// describes.
    pub fn from_bytes(r: &mut Reader) -> (res: Result<ClientInformation, DatatypeError>)
        requires
            old(r).wf(),
        ensures
            final(r).wf(),
            final(r).data == old(r).data,
            match spec_read_client_information(old(r).rest()) {
                Ok((v, c)) => res is Ok && res->Ok_0@ == v && final(r).rest() == old(
                    r,
                ).rest().skip(c),
                Err(e) => res is Err && res->Err_0 == e,
            },
    {
        let ghost s0 = old(r).rest();
        let locale = match read_string(r) {
            Ok(v) => v,
            Err(e) => {
                return Err(e);
            },
        };
        let view_distance = match r.read_i8() {
            Ok(v) => v,
            Err(e) => {
                return Err(e);
            },
        };
        let chat_mode = match VarInt::from_bytes(r) {
            Ok(v) => v,
            Err(e) => {
                return Err(e);
            },
        };
        let chat_colors = match r.read_bool() {
            Ok(v) => v,
            Err(e) => {
                return Err(e);
            },
        };
        let displayed_skin_parts = match r.read_u8() {
            Ok(v) => v,
            Err(e) => {
                return Err(e);
            },
        };
        let main_hand = match VarInt::from_bytes(r) {
            Ok(v) => v,
            Err(e) => {
                return Err(e);
            },
        };
        let enable_text_filtering = match r.read_bool() {
            Ok(v) => v,
            Err(e) => {
                return Err(e);
            },
        };
        let allow_server_listings = match r.read_bool() {
            Ok(v) => v,
            Err(e) => {
                return Err(e);
            },
        };
        let particle_status = match VarInt::from_bytes(r) {
            Ok(v) => v,
            Err(e) => {
                return Err(e);
            },
        };
        proof {
            let c1 = spec_read_string(s0)->Ok_0.1;
            let s1 = s0.skip(c1);
            let s2 = s1.skip(1);
            let c3 = spec_varint(s2)->Ok_0.1;
            let s3 = s2.skip(c3);
            let s4 = s3.skip(1);
            let s5 = s4.skip(1);
            let c6 = spec_varint(s5)->Ok_0.1;
            let s6 = s5.skip(c6);
            let s7 = s6.skip(1);
            let s8 = s7.skip(1);
            let c9 = spec_varint(s8)->Ok_0.1;
            lemma_read_string_consumed(s0);
            lemma_varint_consumed(s2);
            lemma_varint_consumed(s5);
            lemma_varint_consumed(s8);
            assert(s8.skip(c9) =~= s0.skip(c1 + 1 + c3 + 1 + 1 + c6 + 1 + 1 + c9));
        }
        Ok(
            ClientInformation {
                locale,
                view_distance,
                chat_mode,
                chat_colors,
                displayed_skin_parts,
                main_hand,
                enable_text_filtering,
                allow_server_listings,
                particle_status,
            },
        )
    }
}

/// A server-to-client channel message: the channel's identifier, then the
/// message bytes.
#[derive(Debug, Clone)]
pub struct ClientboundPluginMessage {
    pub channel: Identifier,
    pub data: Vec<u8>,
}

/// Mathematical image of a [`ClientboundPluginMessage`].
pub struct ClientboundPluginMessageModel {
    pub channel: IdentifierModel,
    pub data: Seq<u8>,
}

impl View for ClientboundPluginMessage {
    type V = ClientboundPluginMessageModel;

    open spec fn view(&self) -> ClientboundPluginMessageModel {
        ClientboundPluginMessageModel { channel: self.channel@, data: self.data@ }
    }
}

impl ClientboundPluginMessage {
    /// Decode a channel-message body, as [`spec_read_plugin_message`]
    /// describes; the layout is the same in both directions.
    pub fn from_bytes(r: &mut Reader) -> (res: Result<ClientboundPluginMessage, DatatypeError>)
        requires
            old(r).wf(),
        ensures
            final(r).wf(),
            final(r).data == old(r).data,
            match spec_read_plugin_message(old(r).rest()) {
                Ok((v, c)) => res is Ok && res->Ok_0@.channel == v.channel && res->Ok_0@.data
                    == v.data && final(r).rest() == old(r).rest().skip(c),
                Err(e) => res is Err && res->Err_0 == e,
            },
    {
        match ServerboundPluginMessage::from_bytes(r) {
            Ok(temp) => Ok(ClientboundPluginMessage { channel: temp.channel, data: temp.data }),
            Err(e) => Err(e),
        }
    }
}

/// The feature flags the server enables for the session.
#[derive(Debug, Clone)]
pub struct FeatureFlags {
    pub feature_flags: Vec<Identifier>,
}

/// Mathematical image of a [`FeatureFlags`].
pub struct FeatureFlagsModel {
    pub feature_flags: Seq<IdentifierModel>,
}

impl View for FeatureFlags {
    type V = FeatureFlagsModel;

    open spec fn view(&self) -> FeatureFlagsModel {
        FeatureFlagsModel { feature_flags: identifiers_view(self.feature_flags@) }
    }
}

/// A feature-flags body: an identifiers list field.
pub open spec fn spec_read_feature_flags(s: Seq<u8>) -> Result<
    (FeatureFlagsModel, int),
    DatatypeError,
> {
    match spec_read_identifier_list(s) {
        Ok((flags, c)) => Ok((FeatureFlagsModel { feature_flags: flags }, c)),
        Err(e) => Err(e),
    }
}

impl FeatureFlags {
    /// Decode a feature-flags body, as [`spec_read_feature_flags`]
    /// describes.
    pub fn from_bytes(r: &mut Reader) -> (res: Result<FeatureFlags, DatatypeError>)
        requires
            old(r).wf(),
        ensures
            final(r).wf(),
            final(r).data == old(r).data,
            match spec_read_feature_flags(old(r).rest()) {
                Ok((v, c)) => res is Ok && res->Ok_0@ == v && final(r).rest() == old(
                    r,
                ).rest().skip(c),
                Err(e) => res is Err && res->Err_0 == e,
            },
    {
        match read_identifier_list(r) {
            Ok(feature_flags) => Ok(FeatureFlags { feature_flags }),
            Err(e) => Err(e),
        }
    }
}

/// The data packs the server knows; sent toward the client.
#[derive(Debug, Clone)]
pub struct ClientboundKnownPacks {
    pub known_packs: Vec<KnownPack>,
}

/// Mathematical image of a [`ClientboundKnownPacks`].
pub struct ClientboundKnownPacksModel {
    pub known_packs: Seq<KnownPackModel>,
}

impl View for ClientboundKnownPacks {
    type V = ClientboundKnownPacksModel;

    open spec fn view(&self) -> ClientboundKnownPacksModel {
        ClientboundKnownPacksModel { known_packs: known_packs_view(self.known_packs@) }
    }
}

/// A known-packs body: a known-packs list field.
pub open spec fn spec_read_known_packs(s: Seq<u8>) -> Result<
    (Seq<KnownPackModel>, int),
    DatatypeError,
> {
    spec_read_known_pack_list(s)
}

impl ClientboundKnownPacks {
    /// Decode a known-packs body, as [`spec_read_known_packs`] describes.
    pub fn from_bytes(r: &mut Reader) -> (res: Result<ClientboundKnownPacks, DatatypeError>)
        requires
            old(r).wf(),
        ensures
            final(r).wf(),
            final(r).data == old(r).data,
            match spec_read_known_packs(old(r).rest()) {
                Ok((v, c)) => res is Ok && res->Ok_0@.known_packs == v && final(r).rest() == old(
                    r,
                ).rest().skip(c),
                Err(e) => res is Err && res->Err_0 == e,
            },
    {
        match read_known_pack_list(r) {
            Ok(known_packs) => Ok(ClientboundKnownPacks { known_packs }),
            Err(e) => Err(e),
        }
    }
}

/// The data packs the client knows; sent toward the server, with the same
/// layout as the client-bound form.
#[derive(Debug, Clone)]
pub struct ServerboundKnownPacks {
    pub known_packs: Vec<KnownPack>,
}

/// Mathematical image of a [`ServerboundKnownPacks`].
pub struct ServerboundKnownPacksModel {
    pub known_packs: Seq<KnownPackModel>,
}

impl View for ServerboundKnownPacks {
    type V = ServerboundKnownPacksModel;

    open spec fn view(&self) -> ServerboundKnownPacksModel {
        ServerboundKnownPacksModel { known_packs: known_packs_view(self.known_packs@) }
    }
}

impl ServerboundKnownPacks {
    /// Decode a known-packs body, as [`spec_read_known_packs`] describes.
    pub fn from_bytes(r: &mut Reader) -> (res: Result<ServerboundKnownPacks, DatatypeError>)
        requires
            old(r).wf(),
        ensures
            final(r).wf(),
            final(r).data == old(r).data,
            match spec_read_known_packs(old(r).rest()) {
                Ok((v, c)) => res is Ok && res->Ok_0@.known_packs == v && final(r).rest() == old(
                    r,
                ).rest().skip(c),
                Err(e) => res is Err && res->Err_0 == e,
            },
    {
        match ClientboundKnownPacks::from_bytes(r) {
            Ok(temp) => Ok(ServerboundKnownPacks { known_packs: temp.known_packs }),
            Err(e) => Err(e),
        }
    }
}

} // verus!
