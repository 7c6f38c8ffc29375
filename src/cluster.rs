//! Records exchanged with a cluster coordinator.

use vstd::prelude::*;

verus! {

/// No coordinator is active.
#[derive(Debug, Clone, Copy, PartialEq, Eq, Structural)]
pub struct NoCoordinators;

impl NoCoordinators {
    /// The error's text.
    pub fn message(&self) -> (r: String)
        ensures
            r@ == "no active coordinator"@,
    {
        let mut s = String::new();
        s.append("no active coordinator");
        assert(s@ =~= "no active coordinator"@);
        s
    }
}

/// A coordinator endpoint and whether it answers.
#[derive(Debug, Clone, PartialEq)]
pub struct Coordinator {
    pub endpoint: String,
    pub active: bool,
}

/// A coordinator resource reached with parameter `U`.
pub trait RestPath<U> {
    /// The resource's path on the coordinator.
    fn get_path(param: U) -> String;
}

/// Reply to a ping.
#[derive(Debug, Clone, Copy, PartialEq, Eq, Structural)]
pub struct Pong {
    pub pong: bool,
}

impl RestPath<bool> for Pong {
    fn get_path(_ping: bool) -> String {
        let mut s = String::new();
        s.append("/ping");
        s
    }
}

/// A storage server as a coordinator knows it.
#[derive(Debug, Clone, PartialEq)]
pub struct Server {
    pub nodename: String,
    pub zone: String,
    pub rack: String,
    pub endpoint: String,
}

/// Registration of a server.
#[derive(Debug, Clone, PartialEq)]
pub struct ServerRegistrationRequest {
    pub server: Server,
}

/// Reply to a registration.
#[derive(Debug, Clone, Copy, PartialEq, Eq, Structural)]
pub struct ServerRegistrationResponse {
    pub success: bool,
    pub code: u32,
}

impl RestPath<ServerRegistrationRequest> for ServerRegistrationResponse {
    fn get_path(_param: ServerRegistrationRequest) -> String {
        let mut s = String::new();
        s.append("/v1/server/register");
        s
    }
}

} // verus!
