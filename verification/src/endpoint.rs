//! The network endpoint a miner advertises on chain, and the transaction
//! that declares it.

use vstd::prelude::*;

verus! {

/// Public identifier of a signing identity: its 32-byte public key.
pub type AccountId = [u8; 32];

/// Transport protocol of an advertised endpoint.
#[derive(Clone, Copy, Debug, PartialEq, Eq, Structural)]
pub enum AxonProtocol {
    Tcp,
    Udp,
}

/// An IP address as the number it stands for.
#[derive(Clone, Copy, Debug, PartialEq, Eq, Structural)]
pub enum IpAddress {
    V4(u32),
    V6(u128),
}

impl IpAddress {
    /// The IPv4 address `0.0.0.0`, which stands for every interface of the
    /// host.
    pub fn all_interfaces() -> (ip: IpAddress)
        ensures
            ip == IpAddress::V4(0),
    {
        IpAddress::V4(0)
    }
}

/// Where a miner can be reached, on which subnet.
#[derive(Clone, Copy, Debug, PartialEq, Eq, Structural)]
pub struct NetworkEndpoint {
    /// The subnet the endpoint is registered under.
    pub netuid: u16,
    pub ip: IpAddress,
    pub port: u16,
    pub protocol: AxonProtocol,
}

/// The content of the transaction that declares an endpoint under an
/// identity.
#[derive(Clone, Copy, Debug)]
pub struct AxonCall {
    /// The identity the endpoint is registered for.
    pub account: AccountId,
    pub netuid: u16,
    pub ip: IpAddress,
    pub port: u16,
    pub protocol: AxonProtocol,
}

impl NetworkEndpoint {
    /// The endpoint for the given address.  The port is `port` where one is
    /// given and `default_port` otherwise.
    pub fn new(
        netuid: u16,
        ip: IpAddress,
        port: Option<u16>,
        default_port: u16,
        protocol: AxonProtocol,
    ) -> (endpoint: NetworkEndpoint)
        ensures
            endpoint == (NetworkEndpoint {
                netuid,
                ip,
                port: match port {
                    Some(p) => p,
                    None => default_port,
                },
                protocol,
            }),
    {
        let port = match port {
            Some(p) => p,
            None => default_port,
        };
        NetworkEndpoint { netuid, ip, port, protocol }
    }

    /// The transaction content that declares this endpoint for `account`.
    pub open spec fn call_spec(self, account: AccountId) -> AxonCall {
        AxonCall {
            account,
            netuid: self.netuid,
            ip: self.ip,
            port: self.port,
            protocol: self.protocol,
        }
    }

    /// The transaction content that declares this endpoint for `account`.
    pub fn call(&self, account: AccountId) -> (call: AxonCall)
        ensures
            call == self.call_spec(account),
    {
        AxonCall {
            account,
            netuid: self.netuid,
            ip: self.ip,
            port: self.port,
            protocol: self.protocol,
        }
    }
}

} // verus!
