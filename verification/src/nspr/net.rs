//! Network address translation between the domain form and the foreign
//! wire structure.
//!
//! The dispatch boundary receives addresses in a raw, family-tagged
//! structure with the port in network byte order. The domain form is a
//! plain enum. Only the internet family is recognized; any other family
//! is reported as an unsupported address, a recoverable error rather
//! than a trap.

use vstd::prelude::*;
use crate::nspr::error::Error;
use crate::nspr::error::PR_ADDRESS_NOT_SUPPORTED_ERROR;

verus! {

/// Address family tag of the internet (v4) family in the wire form.
pub const PR_AF_INET: u16 = 2;

/// A network address in the domain form.
#[derive(Clone, Copy, PartialEq, Eq, Structural, Debug)]
pub enum NetAddr {
    V4 { a: u8, b: u8, c: u8, d: u8, port: u16 },
}

/// A network address as the foreign boundary carries it: a family tag,
/// the port split into two network-order bytes, and the four address
/// octets.
#[derive(Clone, Copy, PartialEq, Eq, Structural, Debug)]
pub struct RawNetAddr {
    pub family: u16,
    pub port_hi: u8,
    pub port_lo: u8,
    pub ip0: u8,
    pub ip1: u8,
    pub ip2: u8,
    pub ip3: u8,
}

pub open spec fn spec_read_net_addr(raw: RawNetAddr) -> Option<NetAddr> {
    if raw.family == PR_AF_INET {
        Some(
            NetAddr::V4 {
                a: raw.ip0,
                b: raw.ip1,
                c: raw.ip2,
                d: raw.ip3,
                port: (raw.port_hi as u16 * 256 + raw.port_lo as u16) as u16,
            },
        )
    } else {
        None
    }
}

pub open spec fn spec_write_net_addr(addr: NetAddr) -> RawNetAddr {
    match addr {
        NetAddr::V4 { a, b, c, d, port } => RawNetAddr {
            family: PR_AF_INET,
            port_hi: (port / 256) as u8,
            port_lo: (port % 256) as u8,
            ip0: a,
            ip1: b,
            ip2: c,
            ip3: d,
        },
    }
}

/// Decodes a wire address. An unrecognized family yields `None`; the
/// caller reports it as an unsupported-address error.
pub fn read_net_addr(raw: &RawNetAddr) -> (r: Option<NetAddr>)
    ensures
        r == spec_read_net_addr(*raw),
{
    if raw.family == PR_AF_INET {
        let port: u16 = (raw.port_hi as u16) * 256 + (raw.port_lo as u16);
        Some(NetAddr::V4 { a: raw.ip0, b: raw.ip1, c: raw.ip2, d: raw.ip3, port })
    } else {
        None
    }
}

/// Encodes a domain address into the wire form.
pub fn write_net_addr(addr: &NetAddr) -> (r: RawNetAddr)
    ensures
        r == spec_write_net_addr(*addr),
{
    match addr {
        NetAddr::V4 { a, b, c, d, port } => {
            let hi: u8 = (*port / 256) as u8;
            let lo: u8 = (*port % 256) as u8;
            RawNetAddr {
                family: PR_AF_INET,
                port_hi: hi,
                port_lo: lo,
                ip0: *a,
                ip1: *b,
                ip2: *c,
                ip3: *d,
            }
        },
    }
}

/// The error reported for an address family the boundary does not carry.
pub fn unsupported_address_error() -> (r: Error)
    ensures
        r.nspr_error == PR_ADDRESS_NOT_SUPPORTED_ERROR,
{
    Error { nspr_error: PR_ADDRESS_NOT_SUPPORTED_ERROR }
}

/// Encoding a domain address and decoding it again gives the address
/// back exactly: no information is lost at the dispatch boundary.
pub proof fn lemma_net_addr_round_trip(addr: NetAddr)
    ensures
        spec_read_net_addr(spec_write_net_addr(addr)) == Some(addr),
{
    match addr {
        NetAddr::V4 { a, b, c, d, port } => {
            assert(port / 256 * 256 + port % 256 == port) by (nonlinear_arith);
            assert(port / 256 < 256) by (nonlinear_arith);
        },
    }
}

} // verus!
