//! All message types that can be sent between RPUs.

use vstd::prelude::*;

verus! {

/// A request always has a specific response type.
pub trait Request: Into<RequestData> {
    /// The type of the response.
    type Response;
}

/// One of the requests.
#[derive(Debug, Clone, Copy, PartialEq, Eq, Structural)]
pub enum RequestData {
    /// See `Add`.
    Add(Add),
    /// See `Sub`.
    Sub(Sub),
    /// See `Ping`.
    Ping(Ping),
}

/// Add two numbers.
#[derive(Debug, Clone, Copy, PartialEq, Eq, Structural)]
pub struct Add(pub usize, pub usize);

impl Request for Add {
    type Response = usize;
}

impl From<Add> for RequestData {
    fn from(v: Add) -> (data: RequestData) {
        RequestData::Add(v)
    }
}

impl vstd::std_specs::convert::FromSpecImpl<Add> for RequestData {
    open spec fn obeys_from_spec() -> bool {
        true
    }

    open spec fn from_spec(v: Add) -> RequestData {
        RequestData::Add(v)
    }
}

/// Subtract two numbers.
#[derive(Debug, Clone, Copy, PartialEq, Eq, Structural)]
pub struct Sub(pub usize, pub usize);

impl Request for Sub {
    type Response = usize;
}

impl From<Sub> for RequestData {
    fn from(v: Sub) -> (data: RequestData) {
        RequestData::Sub(v)
    }
}

impl vstd::std_specs::convert::FromSpecImpl<Sub> for RequestData {
    open spec fn obeys_from_spec() -> bool {
        true
    }

    open spec fn from_spec(v: Sub) -> RequestData {
        RequestData::Sub(v)
    }
}

/// Ping message. See `Pong`.
#[derive(Debug, Clone, Copy, PartialEq, Eq, Structural)]
pub struct Ping;

/// Play ping pong. See `Ping`.
#[derive(Debug, Clone, Copy, PartialEq, Eq, Structural)]
pub struct Pong;

impl Request for Ping {
    type Response = Pong;
}

impl From<Ping> for RequestData {
    fn from(v: Ping) -> (data: RequestData) {
        RequestData::Ping(v)
    }
}

impl vstd::std_specs::convert::FromSpecImpl<Ping> for RequestData {
    open spec fn obeys_from_spec() -> bool {
        true
    }

    open spec fn from_spec(v: Ping) -> RequestData {
        RequestData::Ping(v)
    }
}

/// Answer a `Ping` with a `Pong`.
pub fn handle_ping() -> (pong: Pong)
    ensures
        pong == Pong,
{
    Pong
}

} // verus!
