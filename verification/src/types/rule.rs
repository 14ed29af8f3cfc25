//! A policy-routing rule as the caller describes it.

use crate::consts::{AF_INET, AF_INET6};
use vstd::prelude::*;
use vstd::slice::slice_to_vec;

verus! {

/// An IP network: an address and the length of its prefix.
#[allow(inconsistent_fields)]
#[derive(Debug, Clone, Copy, PartialEq, Eq)]
pub enum IpNet {
    V4 { addr: [u8; 4], prefix_len: u8 },
    V6 { addr: [u8; 16], prefix_len: u8 },
}

impl IpNet {
    /// The prefix is no longer than the address: 32 bits for IPv4, 128 for IPv6.
    pub open spec fn is_valid(&self) -> bool {
        match *self {
            IpNet::V4 { prefix_len, .. } => prefix_len <= 32,
            IpNet::V6 { prefix_len, .. } => prefix_len <= 128,
        }
    }

    /// The address family as the kernel numbers it.
    pub open spec fn wire_family(&self) -> u8 {
        match *self {
            IpNet::V4 { .. } => AF_INET,
            IpNet::V6 { .. } => AF_INET6,
        }
    }

    /// The bytes of the address: four for IPv4, sixteen for IPv6.
    pub open spec fn octets(&self) -> Seq<u8> {
        match *self {
            IpNet::V4 { addr, .. } => addr@,
            IpNet::V6 { addr, .. } => addr@,
        }
    }

    /// The length of the prefix in bits.
    pub open spec fn bits(&self) -> u8 {
        match *self {
            IpNet::V4 { prefix_len, .. } => prefix_len,
            IpNet::V6 { prefix_len, .. } => prefix_len,
        }
    }

    /// The IPv4 network `addr/prefix_len`, if the prefix has at most 32 bits.
    pub fn v4(addr: [u8; 4], prefix_len: u8) -> (r: Option<IpNet>)
        ensures
            prefix_len <= 32 ==> r == Some(IpNet::V4 { addr, prefix_len }),
            prefix_len > 32 ==> r is None,
            r is Some ==> r->0.is_valid(),
    {
        if prefix_len <= 32 {
            Some(IpNet::V4 { addr, prefix_len })
        } else {
            None
        }
    }

    /// The IPv6 network `addr/prefix_len`, if the prefix has at most 128 bits.
    pub fn v6(addr: [u8; 16], prefix_len: u8) -> (r: Option<IpNet>)
        ensures
            prefix_len <= 128 ==> r == Some(IpNet::V6 { addr, prefix_len }),
            prefix_len > 128 ==> r is None,
            r is Some ==> r->0.is_valid(),
    {
        if prefix_len <= 128 {
            Some(IpNet::V6 { addr, prefix_len })
        } else {
            None
        }
    }

    /// The address family as the kernel numbers it.
    pub fn family(&self) -> (r: u8)
        ensures
            r == self.wire_family(),
    {
        match self {
            IpNet::V4 { .. } => AF_INET,
            IpNet::V6 { .. } => AF_INET6,
        }
    }

    /// The bytes of the address.
    pub fn addr(&self) -> (r: Vec<u8>)
        ensures
            r@ == self.octets(),
    {
        match self {
            IpNet::V4 { addr, .. } => slice_to_vec(addr.as_slice()),
            IpNet::V6 { addr, .. } => slice_to_vec(addr.as_slice()),
        }
    }

    /// The length of the prefix in bits.
    pub fn prefix_len(&self) -> (r: u8)
        ensures
            r == self.bits(),
    {
        match self {
            IpNet::V4 { prefix_len, .. } => *prefix_len,
            IpNet::V6 { prefix_len, .. } => *prefix_len,
        }
    }
}

/// A range of ports, both ends included.
#[derive(Debug, Clone, Copy, PartialEq, Eq, Structural)]
pub struct RulePortRange {
    pub start: u16,
    pub end: u16,
}

impl RulePortRange {
    /// The ports from `start` to `end`.
    pub fn new(start: u16, end: u16) -> (r: RulePortRange)
        ensures
            r == (RulePortRange { start, end }),
    {
        RulePortRange { start, end }
    }
}

/// A range of user ids, both ends included.
#[derive(Debug, Clone, Copy, PartialEq, Eq, Structural)]
pub struct RuleUIDRange {
    pub start: u32,
    pub end: u32,
}

impl RuleUIDRange {
    /// The user ids from `start` to `end`.
    pub fn new(start: u32, end: u32) -> (r: RuleUIDRange)
        ensures
            r == (RuleUIDRange { start, end }),
    {
        RuleUIDRange { start, end }
    }
}

/// A policy-routing rule. A field at its default is left out of the request.
#[derive(Debug, Clone)]
pub struct Rule {
    /// Priority; negative: not set.
    pub priority: i32,
    /// Address family; 0: taken from `src` and `dst`.
    pub family: i32,
    /// Routing table; -1 or 0: none named.
    pub table: i32,
    pub mark: u32,
    pub mask: Option<u32>,
    pub tos: u32,
    pub tun_id: u32,
    /// Priority of the rule to jump to; negative: no jump.
    pub goto: i32,
    pub src: Option<IpNet>,
    pub dst: Option<IpNet>,
    /// Routing realm; negative: not set.
    pub flow: i32,
    /// Incoming interface; empty: not set.
    pub iif_name: String,
    /// Outgoing interface; empty: not set.
    pub oif_name: String,
    /// Negative: not set.
    pub suppress_ifgroup: i32,
    /// Negative: not set.
    pub suppress_prefixlen: i32,
    pub invert: bool,
    pub dport: Option<RulePortRange>,
    pub sport: Option<RulePortRange>,
    pub ip_proto: i32,
    pub uid_range: Option<RuleUIDRange>,
    pub protocol: u8,
    /// Action of the rule; 0: the kernel's default.
    pub rule_type: u8,
}

impl Rule {
    /// Nothing is set: `priority`, `goto`, `flow` and the two suppress fields are -1,
    /// no prefix, range or mask is there, the names are empty, and every other
    /// field is zero or false.
    pub open spec fn is_unset(&self) -> bool {
        &&& self.priority == -1
        &&& self.family == 0
        &&& self.table == 0
        &&& self.mark == 0
        &&& self.mask is None
        &&& self.tos == 0
        &&& self.tun_id == 0
        &&& self.goto == -1
        &&& self.src is None
        &&& self.dst is None
        &&& self.flow == -1
        &&& self.iif_name@.len() == 0
        &&& self.oif_name@.len() == 0
        &&& self.suppress_ifgroup == -1
        &&& self.suppress_prefixlen == -1
        &&& !self.invert
        &&& self.dport is None
        &&& self.sport is None
        &&& self.ip_proto == 0
        &&& self.uid_range is None
        &&& self.protocol == 0
        &&& self.rule_type == 0
    }

    /// The rule that sets nothing.
    pub fn new() -> (r: Rule)
        ensures
            r.is_unset(),
    {
        Rule {
            priority: -1,
            family: 0,
            table: 0,
            mark: 0,
            mask: None,
            tos: 0,
            tun_id: 0,
            goto: -1,
            src: None,
            dst: None,
            flow: -1,
            iif_name: String::new(),
            oif_name: String::new(),
            suppress_ifgroup: -1,
            suppress_prefixlen: -1,
            invert: false,
            dport: None,
            sport: None,
            ip_proto: 0,
            uid_range: None,
            protocol: 0,
            rule_type: 0,
        }
    }
}

impl Default for Rule {
    fn default() -> (r: Rule)
        ensures
            r.is_unset(),
    {
        Rule::new()
    }
}

} // verus!
