//! Numbers that the kernel's interface fixes.

use vstd::prelude::*;

verus! {

/// Address family of IPv4.
pub const AF_INET: u8 = 2;

/// Address family of IPv6.
pub const AF_INET6: u8 = 10;

/// Route origin: installed at boot.
pub const RTPROT_BOOT: u8 = 3;

/// Route scope: everywhere.
pub const RT_SCOPE_UNIVERSE: u8 = 0;

/// Routing table: none named.
pub const RT_TABLE_UNSPEC: u8 = 0;

/// Rule action: look the packet up in a table.
pub const RTN_UNICAST: u8 = 1;

/// Rule action: jump to another rule.
pub const FR_ACT_GOTO: u8 = 2;

/// Rule flag: the rule matches what its selectors do not.
pub const FIB_RULE_INVERT: u32 = 0x2;

/// Message type: add a rule.
pub const RTM_NEWRULE: u16 = 32;

/// Message type: delete a rule.
pub const RTM_DELRULE: u16 = 33;

/// Message type: socket diagnostics by family.
pub const SOCK_DIAG_BY_FAMILY: u16 = 20;

/// Request flag: answer with an acknowledgement.
pub const NLM_F_ACK: i32 = 0x4;

/// Request flag: fail if the object exists.
pub const NLM_F_EXCL: i32 = 0x200;

/// Request flag: create the object if it does not exist.
pub const NLM_F_CREATE: i32 = 0x400;

/// Request flag: return every object that matches.
pub const NLM_F_DUMP: i32 = 0x300;

/// Transport protocol TCP.
pub const IPPROTO_TCP: u8 = 6;

/// Transport protocol UDP.
pub const IPPROTO_UDP: u8 = 17;

/// Rule attribute: destination address.
pub const FRA_DST: u16 = 1;

/// Rule attribute: source address.
pub const FRA_SRC: u16 = 2;

/// Rule attribute: name of the incoming interface.
pub const FRA_IIFNAME: u16 = 3;

/// Rule attribute: priority of the rule to jump to.
pub const FRA_GOTO: u16 = 4;

/// Rule attribute: priority.
pub const FRA_PRIORITY: u16 = 6;

/// Rule attribute: firewall mark. The mask travels under this code too.
pub const FRA_FWMARK: u16 = 10;

/// Rule attribute: routing realm.
pub const FRA_FLOW: u16 = 11;

/// Rule attribute: tunnel id.
pub const FRA_TUN_ID: u16 = 12;

/// Rule attribute: interface group whose routes are suppressed.
pub const FRA_SUPPRESS_IFGROUP: u16 = 13;

/// Rule attribute: prefix length up to which routes are suppressed.
pub const FRA_SUPPRESS_PREFIXLEN: u16 = 14;

/// Rule attribute: routing table, full width.
pub const FRA_TABLE: u16 = 15;

/// Rule attribute: name of the outgoing interface.
pub const FRA_OIFNAME: u16 = 17;

/// Rule attribute: range of user ids.
pub const FRA_UID_RANGE: u16 = 20;

/// Rule attribute: origin of the rule.
pub const FRA_PROTOCOL: u16 = 21;

/// Rule attribute: transport protocol.
pub const FRA_IP_PROTO: u16 = 22;

/// Rule attribute: range of source ports.
pub const FRA_SPORT_RANGE: u16 = 23;

/// Rule attribute: range of destination ports.
pub const FRA_DPORT_RANGE: u16 = 24;

/// Diagnostics extension: socket memory.
pub const INET_DIAG_MEMINFO: u16 = 1;

/// Diagnostics extension: protocol state.
pub const INET_DIAG_INFO: u16 = 2;

/// Diagnostics extension: BBR congestion control.
pub const INET_DIAG_BBRINFO: u16 = 16;

} // verus!
