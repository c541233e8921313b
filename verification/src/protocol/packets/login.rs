use crate::protocol::types::error::DatatypeError;
use crate::protocol::types::player_property::PlayerProperty;
use crate::protocol::types::reader::Reader;
use crate::protocol::types::string::{lemma_read_string_consumed, read_string, spec_read_string};
use crate::protocol::types::uuid::{spec_read_uuid, Uuid};
use crate::protocol::types::var_num::{spec_varint, VarInt};
use crate::protocol::types::player_property::PlayerPropertyModel;
use crate::protocol::types::vec::{
    player_properties_view, read_player_property_list, spec_read_player_property_list,
};
use vstd::prelude::*;

verus! {

/// The client's opening of the login exchange: its name and identity.
#[derive(Debug, Clone)]
pub struct LoginStart {
    pub name: String,
    pub uuid: Uuid,
}

/// Mathematical image of a [`LoginStart`].
pub struct LoginStartModel {
    pub name: Seq<char>,
    pub uuid: Seq<u8>,
}

impl View for LoginStart {
    type V = LoginStartModel;

    open spec fn view(&self) -> LoginStartModel {
        LoginStartModel { name: self.name@, uuid: self.uuid.bytes@ }
    }
}

/// A login-start body: a string field, then a 16-byte identity field.
pub open spec fn spec_read_login_start(s: Seq<u8>) -> Result<(LoginStartModel, int), DatatypeError> {
    match spec_read_string(s) {
        Ok((name, c1)) => match spec_read_uuid(s.skip(c1)) {
            Ok((u, c2)) => Ok((LoginStartModel { name, uuid: u }, c1 + c2)),
            Err(e) => Err(e),
        },
        Err(e) => Err(e),
    }
}

impl LoginStart {
    /// Decode a login-start body, as [`spec_read_login_start`] describes.
    pub fn from_bytes(r: &mut Reader) -> (res: Result<LoginStart, DatatypeError>)
        requires
            old(r).wf(),
        ensures
            final(r).wf(),
            final(r).data == old(r).data,
            match spec_read_login_start(old(r).rest()) {
                Ok((v, c)) => res is Ok && res->Ok_0@ == v && res->Ok_0.uuid.wf() && final(r).rest() == old(r).rest().skip(c),
                Err(e) => res is Err && res->Err_0 == e,
            },
    {
        let ghost s0 = old(r).rest();
        let name = match read_string(r) {
            Ok(v) => v,
            Err(e) => {
                return Err(e);
            },
        };
        let uuid = match Uuid::from_bytes(r) {
            Ok(v) => v,
            Err(e) => {
                return Err(e);
            },
        };
        proof {
            let c1 = spec_read_string(s0)->Ok_0.1;
            lemma_read_string_consumed(s0);
            assert(s0.skip(c1).skip(16) =~= s0.skip(c1 + 16));
        }
        Ok(LoginStart { name, uuid })
    }
}

/// The server's order to compress frames past a size threshold; a negative
/// threshold leaves compression off.
#[derive(Debug, Copy, Clone, PartialEq, Eq, Structural)]
pub struct SetCompression {
    pub threshold: VarInt,
}

/// A set-compression body: one variable-length integer field.
pub open spec fn spec_read_set_compression(s: Seq<u8>) -> Result<
    (SetCompression, int),
    DatatypeError,
> {
    match spec_varint(s) {
        Ok((t, c)) => Ok((SetCompression { threshold: VarInt { value: t } }, c)),
        Err(e) => Err(e),
    }
}

impl SetCompression {
    /// Decode a set-compression body, as [`spec_read_set_compression`]
    /// describes.
    pub fn from_bytes(r: &mut Reader) -> (res: Result<SetCompression, DatatypeError>)
        requires
            old(r).wf(),
        ensures
            final(r).wf(),
            final(r).data == old(r).data,
            match spec_read_set_compression(old(r).rest()) {
                Ok((v, c)) => res == Ok::<SetCompression, DatatypeError>(v) && final(r).rest()
                    == old(r).rest().skip(c),
                Err(e) => res is Err && res->Err_0 == e,
            },
    {
        match VarInt::from_bytes(r) {
            Ok(threshold) => Ok(SetCompression { threshold }),
            Err(e) => Err(e),
        }
    }
}

/// The server's acceptance of a login: the player's identity, name, and
/// profile properties.
#[derive(Debug, Clone)]
pub struct LoginSuccess {
    pub uuid: Uuid,
    pub username: String,
    pub property: Vec<PlayerProperty>,
}

/// Mathematical image of a [`LoginSuccess`].
pub struct LoginSuccessModel {
    pub uuid: Seq<u8>,
    pub username: Seq<char>,
    pub property: Seq<PlayerPropertyModel>,
}

impl View for LoginSuccess {
    type V = LoginSuccessModel;

    open spec fn view(&self) -> LoginSuccessModel {
        LoginSuccessModel {
            uuid: self.uuid.bytes@,
            username: self.username@,
            property: player_properties_view(self.property@),
        }
    }
}

/// A login-success body: a 16-byte identity field, a string field, and a
/// profile-properties list field.
pub open spec fn spec_read_login_success(s: Seq<u8>) -> Result<
    (LoginSuccessModel, int),
    DatatypeError,
> {
    match spec_read_uuid(s) {
        Ok((u, c1)) => match spec_read_string(s.skip(c1)) {
            Ok((username, c2)) => match spec_read_player_property_list(s.skip(c1).skip(c2)) {
                Ok((props, c3)) => Ok(
                    (LoginSuccessModel { uuid: u, username, property: props }, c1 + c2 + c3),
                ),
                Err(e) => Err(e),
            },
            Err(e) => Err(e),
        },
        Err(e) => Err(e),
    }
}

impl LoginSuccess {
    /// Decode a login-success body, as [`spec_read_login_success`]
    /// describes.
    pub fn from_bytes(r: &mut Reader) -> (res: Result<LoginSuccess, DatatypeError>)
        requires
            old(r).wf(),
        ensures
            final(r).wf(),
            final(r).data == old(r).data,
            match spec_read_login_success(old(r).rest()) {
                Ok((v, c)) => res is Ok && res->Ok_0@ == v && res->Ok_0.uuid.wf() && final(r).rest() == old(r).rest().skip(c),
                Err(e) => res is Err && res->Err_0 == e,
            },
    {
        let ghost s0 = old(r).rest();
        let uuid = match Uuid::from_bytes(r) {
            Ok(v) => v,
            Err(e) => {
                return Err(e);
            },
        };
        let username = match read_string(r) {
            Ok(v) => v,
            Err(e) => {
                return Err(e);
            },
        };
        let property = match read_player_property_list(r) {
            Ok(v) => v,
            Err(e) => {
                return Err(e);
            },
        };
        proof {
            let c2 = spec_read_string(s0.skip(16))->Ok_0.1;
            let c3 = spec_read_player_property_list(s0.skip(16).skip(c2))->Ok_0.1;
            lemma_read_string_consumed(s0.skip(16));
            crate::protocol::types::vec::lemma_read_player_property_list_consumed(
                s0.skip(16).skip(c2),
            );
            assert(s0.skip(16).skip(c2).skip(c3) =~= s0.skip(16 + c2 + c3));
        }
        Ok(LoginSuccess { uuid, username, property })
    }
}

/// The client's confirmation that login is complete; it carries no fields.
#[derive(Debug, Clone)]
pub struct LoginAcknowledged;

impl LoginAcknowledged {
    /// Decode a login-acknowledged body: there is nothing to read.
    pub fn from_bytes(r: &mut Reader) -> (res: Result<LoginAcknowledged, DatatypeError>)
        requires
            old(r).wf(),
        ensures
            res is Ok,
            *final(r) == *old(r),
    {
        Ok(LoginAcknowledged)
    }
}

} // verus!
