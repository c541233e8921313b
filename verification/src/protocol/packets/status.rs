use crate::protocol::types::error::DatatypeError;
use crate::protocol::types::primitives::spec_read_i64;
use crate::protocol::types::reader::Reader;
use crate::protocol::types::string::{read_string, spec_read_string};
use vstd::prelude::*;

verus! {

/// A client's request for the server listing; it carries no fields.
#[derive(Debug, Clone)]
pub struct StatusRequest;

impl StatusRequest {
    /// Decode a status-request body: there is nothing to read.
    pub fn from_bytes(r: &mut Reader) -> (res: Result<StatusRequest, DatatypeError>)
        requires
            old(r).wf(),
        ensures
            res is Ok,
            *final(r) == *old(r),
    {
        Ok(StatusRequest)
    }
}

/// The server listing: one string of status text.
#[derive(Debug, Clone)]
pub struct StatusResponse {
    pub json_response: String,
}

/// Mathematical image of a [`StatusResponse`].
pub struct StatusResponseModel {
    pub json_response: Seq<char>,
}

impl View for StatusResponse {
    type V = StatusResponseModel;

    open spec fn view(&self) -> StatusResponseModel {
        StatusResponseModel { json_response: self.json_response@ }
    }
}

/// A status-response body: one string field.
pub open spec fn spec_read_status_response(s: Seq<u8>) -> Result<
    (StatusResponseModel, int),
    DatatypeError,
> {
    match spec_read_string(s) {
        Ok((t, c)) => Ok((StatusResponseModel { json_response: t }, c)),
        Err(e) => Err(e),
    }
}

impl StatusResponse {
    /// Decode a status-response body, as [`spec_read_status_response`]
    /// describes.
    pub fn from_bytes(r: &mut Reader) -> (res: Result<StatusResponse, DatatypeError>)
        requires
            old(r).wf(),
        ensures
            final(r).wf(),
            final(r).data == old(r).data,
            match spec_read_status_response(old(r).rest()) {
                Ok((v, c)) => res is Ok && res->Ok_0@ == v && final(r).rest() == old(
                    r,
                ).rest().skip(c),
                Err(e) => res is Err && res->Err_0 == e,
            },
    {
        match read_string(r) {
            Ok(json_response) => Ok(StatusResponse { json_response }),
            Err(e) => Err(e),
        }
    }
}

/// A client's latency probe: the timestamp it sent.
#[derive(Debug, Copy, Clone, PartialEq, Eq, Structural)]
pub struct PingRequest {
    pub timestamp: i64,
}

/// A ping-request body: one signed 64-bit field.
pub open spec fn spec_read_ping_request(s: Seq<u8>) -> Result<(PingRequest, int), DatatypeError> {
    match spec_read_i64(s) {
        Ok((t, c)) => Ok((PingRequest { timestamp: t }, c)),
        Err(e) => Err(e),
    }
}

impl PingRequest {
    /// Decode a ping-request body, as [`spec_read_ping_request`] describes.
    pub fn from_bytes(r: &mut Reader) -> (res: Result<PingRequest, DatatypeError>)
        requires
            old(r).wf(),
        ensures
            final(r).wf(),
            final(r).data == old(r).data,
            match spec_read_ping_request(old(r).rest()) {
                Ok((v, c)) => res == Ok::<PingRequest, DatatypeError>(v) && final(r).rest() == old(
                    r,
                ).rest().skip(c),
                Err(e) => res is Err && res->Err_0 == e,
            },
    {
        match r.read_i64() {
            Ok(timestamp) => Ok(PingRequest { timestamp }),
            Err(e) => Err(e),
        }
    }
}

/// The server's answer to a latency probe: the timestamp echoed back.
#[derive(Debug, Copy, Clone, PartialEq, Eq, Structural)]
pub struct PongResponse {
    pub timestamp: i64,
}

/// A pong-response body: one signed 64-bit field.
pub open spec fn spec_read_pong_response(s: Seq<u8>) -> Result<(PongResponse, int), DatatypeError> {
    match spec_read_i64(s) {
        Ok((t, c)) => Ok((PongResponse { timestamp: t }, c)),
        Err(e) => Err(e),
    }
}

impl PongResponse {
    /// Decode a pong-response body, as [`spec_read_pong_response`]
    /// describes.
    pub fn from_bytes(r: &mut Reader) -> (res: Result<PongResponse, DatatypeError>)
        requires
            old(r).wf(),
        ensures
            final(r).wf(),
            final(r).data == old(r).data,
            match spec_read_pong_response(old(r).rest()) {
                Ok((v, c)) => res == Ok::<PongResponse, DatatypeError>(v) && final(r).rest() == old(
                    r,
                ).rest().skip(c),
                Err(e) => res is Err && res->Err_0 == e,
            },
    {
        match r.read_i64() {
            Ok(timestamp) => Ok(PongResponse { timestamp }),
            Err(e) => Err(e),
        }
    }
}

} // verus!
