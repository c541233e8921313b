//! The packet layouts the dispatch table knows, one module per state, and
//! the closed union of every packet the decoder can produce.

pub mod configuration;
pub mod handshaking;
pub mod login;
pub mod status;
pub mod unknown;

use crate::protocol::packets::configuration::{
    ClientInformation, ClientInformationModel, ClientboundKnownPacks, ClientboundKnownPacksModel,
    ClientboundPluginMessage, ClientboundPluginMessageModel, FeatureFlags, FeatureFlagsModel,
    ServerboundKnownPacks, ServerboundKnownPacksModel, ServerboundPluginMessage,
    ServerboundPluginMessageModel,
};
use crate::protocol::packets::handshaking::{Handshake, HandshakeModel};
use crate::protocol::packets::login::{
    LoginAcknowledged, LoginStart, LoginStartModel, LoginSuccess, LoginSuccessModel,
    SetCompression,
};
use crate::protocol::packets::status::{
    PingRequest, PongResponse, StatusRequest, StatusResponse, StatusResponseModel,
};
use crate::protocol::packets::unknown::{Unknown, UnknownModel};
use vstd::prelude::*;

verus! {

/// Every packet the decoder can produce: one case per known triple of
/// direction, state and identifier, plus the catch-all unrecognized case.
#[derive(Debug)]
pub enum Packet {
    Handshake(Handshake),
    StatusRequest(StatusRequest),
    PingRequest(PingRequest),
    LoginStart(LoginStart),
    LoginAcknowledged(LoginAcknowledged),
    ClientInformation(ClientInformation),
    ServerboundPluginMessage(ServerboundPluginMessage),
    ServerboundKnownPacks(ServerboundKnownPacks),
    StatusResponse(StatusResponse),
    PongResponse(PongResponse),
    LoginSuccess(LoginSuccess),
    SetCompression(SetCompression),
    ClientboundPluginMessage(ClientboundPluginMessage),
    FeatureFlags(FeatureFlags),
    ClientboundKnownPacks(ClientboundKnownPacks),
    Unknown(Unknown),
}

/// Mathematical image of a [`Packet`].
pub enum PacketModel {
    Handshake(HandshakeModel),
    StatusRequest,
    PingRequest(PingRequest),
    LoginStart(LoginStartModel),
    LoginAcknowledged,
    ClientInformation(ClientInformationModel),
    ServerboundPluginMessage(ServerboundPluginMessageModel),
    ServerboundKnownPacks(ServerboundKnownPacksModel),
    StatusResponse(StatusResponseModel),
    PongResponse(PongResponse),
    LoginSuccess(LoginSuccessModel),
    SetCompression(SetCompression),
    ClientboundPluginMessage(ClientboundPluginMessageModel),
    FeatureFlags(FeatureFlagsModel),
    ClientboundKnownPacks(ClientboundKnownPacksModel),
    Unknown(UnknownModel),
}

impl View for Packet {
    type V = PacketModel;

    open spec fn view(&self) -> PacketModel {
        match self {
            Packet::Handshake(p) => PacketModel::Handshake(p@),
            Packet::StatusRequest(_) => PacketModel::StatusRequest,
            Packet::PingRequest(p) => PacketModel::PingRequest(*p),
            Packet::LoginStart(p) => PacketModel::LoginStart(p@),
            Packet::LoginAcknowledged(_) => PacketModel::LoginAcknowledged,
            Packet::ClientInformation(p) => PacketModel::ClientInformation(p@),
            Packet::ServerboundPluginMessage(p) => PacketModel::ServerboundPluginMessage(p@),
            Packet::ServerboundKnownPacks(p) => PacketModel::ServerboundKnownPacks(p@),
            Packet::StatusResponse(p) => PacketModel::StatusResponse(p@),
            Packet::PongResponse(p) => PacketModel::PongResponse(*p),
            Packet::LoginSuccess(p) => PacketModel::LoginSuccess(p@),
            Packet::SetCompression(p) => PacketModel::SetCompression(*p),
            Packet::ClientboundPluginMessage(p) => PacketModel::ClientboundPluginMessage(p@),
            Packet::FeatureFlags(p) => PacketModel::FeatureFlags(p@),
            Packet::ClientboundKnownPacks(p) => PacketModel::ClientboundKnownPacks(p@),
            Packet::Unknown(p) => PacketModel::Unknown(p@),
        }
    }
}

} // verus!
