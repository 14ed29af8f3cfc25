//! Requests for socket diagnostics, and the answers read back.

use crate::bytes::u32_bytes;
use crate::consts::{AF_INET, AF_INET6, IPPROTO_TCP, IPPROTO_UDP, NLM_F_DUMP, SOCK_DIAG_BY_FAMILY};
use crate::envelope::Message;
use crate::error::Error;
use crate::types::message::{zeros, Attribute};
use crate::types::sock_diag::{
    InetDiagTcpResp, InetDiagUdpResp, SockDiagReq, ALL_STATES, TCP_EXTENSIONS, UDP_EXTENSIONS,
};
use vstd::endian::endianness;
use vstd::prelude::*;

verus! {

/// The address family whose sockets are asked for.
#[derive(Debug, Clone, Copy, PartialEq, Eq, Structural)]
pub enum DiagFamily {
    V4,
    V6,
}

impl DiagFamily {
    /// The family as the kernel numbers it: 2 for IPv4, 10 for IPv6.
    pub open spec fn wire_code(self) -> u8 {
        match self {
            DiagFamily::V4 => AF_INET,
            DiagFamily::V6 => AF_INET6,
        }
    }

    /// The family as the kernel numbers it.
    pub fn code(self) -> (r: u8)
        ensures
            r == self.wire_code(),
    {
        match self {
            DiagFamily::V4 => AF_INET,
            DiagFamily::V6 => AF_INET6,
        }
    }
}

/// The 56 bytes that ask for every socket of a family and protocol: family,
/// protocol, extensions and a zero byte, the filter for every state in host
/// order, and an identifier block of zeros, which names no socket.
pub open spec fn dump_request(family: u8, protocol: u8, ext: u8) -> Seq<u8> {
    seq![family, protocol, ext, 0u8] + u32_bytes(endianness(), ALL_STATES) + zeros(48)
}

/// Puts `msg` into a dump request of type `SOCK_DIAG_BY_FAMILY`.
fn dump(msg: &SockDiagReq) -> (r: Result<Message, Error>)
    requires
        msg.pad() == 0,
        msg.states() == ALL_STATES,
        msg.id().is_default(),
    ensures
        r is Ok,
        r->Ok_0.proto == SOCK_DIAG_BY_FAMILY,
        r->Ok_0.flags == NLM_F_DUMP,
        r->Ok_0.data@ == dump_request(msg.family(), msg.protocol(), msg.ext()),
{
    let mut req = Message::new(SOCK_DIAG_BY_FAMILY, NLM_F_DUMP);
    proof {
        let id = msg.id();
        assert(id.src_ip->V4_0@ =~= zeros(4));
        assert(id.dst_ip->V4_0@ =~= zeros(4));
        assert(id.bytes() =~= zeros(48));
    }
    match msg.serialize() {
        Ok(bytes) => req.add(bytes.as_slice()),
        Err(e) => {
            return Err(e);
        },
    }
    assert(req.data@ =~= dump_request(msg.family(), msg.protocol(), msg.ext()));
    Ok(req)
}

/// The request for every TCP socket of `family`.
pub fn tcp_info_request(family: DiagFamily) -> (r: Result<Message, Error>)
    ensures
        r is Ok,
        r->Ok_0.proto == SOCK_DIAG_BY_FAMILY,
        r->Ok_0.flags == NLM_F_DUMP,
        r->Ok_0.data@ == dump_request(family.wire_code(), IPPROTO_TCP, TCP_EXTENSIONS),
{
    dump(&SockDiagReq::request_tcp_info(family.code()))
}

/// The request for every UDP socket of `family`.
pub fn udp_info_request(family: DiagFamily) -> (r: Result<Message, Error>)
    ensures
        r is Ok,
        r->Ok_0.proto == SOCK_DIAG_BY_FAMILY,
        r->Ok_0.flags == NLM_F_DUMP,
        r->Ok_0.data@ == dump_request(family.wire_code(), IPPROTO_UDP, UDP_EXTENSIONS),
{
    dump(&SockDiagReq::request_udp_info(family.code()))
}

/// Reads each answer to a request for TCP sockets: one record for each
/// buffer, in order, or `ShortRead` where a buffer does not hold one.
pub fn tcp_info_responses(bufs: &Vec<Vec<u8>>) -> (r: Result<Vec<InetDiagTcpResp>, Error>)
    ensures
        match r {
            Ok(v) => v@.len() == bufs@.len() && forall|i: int|
                0 <= i < bufs@.len() ==> InetDiagTcpResp::from_wire(#[trigger] bufs@[i]@) == Ok::<
                    InetDiagTcpResp,
                    Error,
                >(v@[i]),
            Err(e) => e == Error::ShortRead && exists|i: int|
                0 <= i < bufs@.len() && InetDiagTcpResp::from_wire(#[trigger] bufs@[i]@) is Err,
        },
{
    let mut out: Vec<InetDiagTcpResp> = Vec::new();
    let mut i: usize = 0;
    while i < bufs.len()
        invariant
            i <= bufs@.len(),
            out@.len() == i,
            forall|j: int|
                0 <= j < i ==> InetDiagTcpResp::from_wire(#[trigger] bufs@[j]@) == Ok::<
                    InetDiagTcpResp,
                    Error,
                >(out@[j]),
        decreases bufs@.len() - i,
    {
        match InetDiagTcpResp::parse(bufs[i].as_slice()) {
            Ok(resp) => out.push(resp),
            Err(e) => {
                assert(InetDiagTcpResp::from_wire(bufs@[i as int]@) is Err);
                return Err(e);
            },
        }
        i += 1;
    }
    Ok(out)
}

/// Reads each answer to a request for UDP sockets: one record for each
/// buffer, in order, or `ShortRead` where a buffer does not hold one.
pub fn udp_info_responses(bufs: &Vec<Vec<u8>>) -> (r: Result<Vec<InetDiagUdpResp>, Error>)
    ensures
        match r {
            Ok(v) => v@.len() == bufs@.len() && forall|i: int|
                0 <= i < bufs@.len() ==> InetDiagUdpResp::from_wire(#[trigger] bufs@[i]@) == Ok::<
                    InetDiagUdpResp,
                    Error,
                >(v@[i]),
            Err(e) => e == Error::ShortRead && exists|i: int|
                0 <= i < bufs@.len() && InetDiagUdpResp::from_wire(#[trigger] bufs@[i]@) is Err,
        },
{
    let mut out: Vec<InetDiagUdpResp> = Vec::new();
    let mut i: usize = 0;
    while i < bufs.len()
        invariant
            i <= bufs@.len(),
            out@.len() == i,
            forall|j: int|
                0 <= j < i ==> InetDiagUdpResp::from_wire(#[trigger] bufs@[j]@) == Ok::<
                    InetDiagUdpResp,
                    Error,
                >(out@[j]),
        decreases bufs@.len() - i,
    {
        match InetDiagUdpResp::parse(bufs[i].as_slice()) {
            Ok(resp) => out.push(resp),
            Err(e) => {
                assert(InetDiagUdpResp::from_wire(bufs@[i as int]@) is Err);
                return Err(e);
            },
        }
        i += 1;
    }
    Ok(out)
}

} // verus!
