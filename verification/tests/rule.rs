use netlink_wire::consts::{
    AF_INET, AF_INET6, FIB_RULE_INVERT, FRA_DPORT_RANGE, FRA_DST, FRA_FLOW, FRA_FWMARK, FRA_GOTO,
    FRA_IIFNAME, FRA_IP_PROTO, FRA_OIFNAME, FRA_PRIORITY, FRA_PROTOCOL, FRA_SPORT_RANGE, FRA_SRC,
    FRA_SUPPRESS_IFGROUP, FRA_SUPPRESS_PREFIXLEN, FRA_TABLE, FRA_TUN_ID, FRA_UID_RANGE,
    FR_ACT_GOTO, RTM_DELRULE, RTM_NEWRULE, RTN_UNICAST, RTPROT_BOOT, RT_SCOPE_UNIVERSE,
    RT_TABLE_UNSPEC,
};
use netlink_wire::error::Error;
use netlink_wire::handle::rule::{
    add_request, del_request, has_mixed_family, header, lower, request, selectors, ADD_FLAGS,
    DEL_FLAGS,
};
use netlink_wire::types::message::{RouteAttr, RouteAttrs};
use netlink_wire::types::rule::{IpNet, Rule, RulePortRange, RuleUIDRange};

fn kinds(attrs: &[RouteAttr]) -> Vec<u16> {
    attrs.iter().map(|a| a.rta_type).collect()
}

fn payloads_of(attrs: &[RouteAttr], kind: u16) -> Vec<Vec<u8>> {
    attrs.iter().filter(|a| a.rta_type == kind).map(|a| a.payload.clone()).collect()
}

fn word(x: u32) -> Vec<u8> {
    x.to_ne_bytes().to_vec()
}

fn v4(a: u8, b: u8, c: u8, d: u8, len: u8) -> IpNet {
    IpNet::v4([a, b, c, d], len).unwrap()
}

fn v6(len: u8) -> IpNet {
    IpNet::v6([0x20, 0x01, 0x0d, 0xb8, 0, 0, 0, 0, 0, 0, 0, 0, 0, 0, 0, 1], len).unwrap()
}

#[test]
fn new_rule_sets_nothing() {
    let rule = Rule::new();
    assert_eq!(rule.priority, -1);
    assert_eq!(rule.family, 0);
    assert_eq!(rule.table, 0);
    assert_eq!(rule.mark, 0);
    assert_eq!(rule.mask, None);
    assert_eq!(rule.tos, 0);
    assert_eq!(rule.tun_id, 0);
    assert_eq!(rule.goto, -1);
    assert_eq!(rule.src, None);
    assert_eq!(rule.dst, None);
    assert_eq!(rule.flow, -1);
    assert_eq!(rule.iif_name, "");
    assert_eq!(rule.oif_name, "");
    assert_eq!(rule.suppress_ifgroup, -1);
    assert_eq!(rule.suppress_prefixlen, -1);
    assert!(!rule.invert);
    assert_eq!(rule.dport, None);
    assert_eq!(rule.sport, None);
    assert_eq!(rule.ip_proto, 0);
    assert_eq!(rule.uid_range, None);
    assert_eq!(rule.protocol, 0);
    assert_eq!(rule.rule_type, 0);
}

#[test]
fn default_rule_is_the_new_rule() {
    let rule = Rule::default();
    assert_eq!(rule.priority, -1);
    assert_eq!(rule.goto, -1);
    assert_eq!(rule.flow, -1);
    assert_eq!(rule.suppress_ifgroup, -1);
    assert_eq!(rule.suppress_prefixlen, -1);
    assert_eq!(rule.table, 0);
}

#[test]
fn ranges_keep_their_ends() {
    assert_eq!(RulePortRange::new(80, 443), RulePortRange { start: 80, end: 443 });
    assert_eq!(RuleUIDRange::new(1000, 2000), RuleUIDRange { start: 1000, end: 2000 });
}

#[test]
fn prefix_longer_than_the_address_is_no_network() {
    assert!(IpNet::v4([10, 0, 0, 0], 32).is_some());
    assert!(IpNet::v4([10, 0, 0, 0], 33).is_none());
    assert!(IpNet::v6([0; 16], 128).is_some());
    assert!(IpNet::v6([0; 16], 129).is_none());
    let net = v4(192, 168, 1, 7, 24);
    assert_eq!(net.family(), 2);
    assert_eq!(net.prefix_len(), 24);
    assert_eq!(net.addr(), vec![192, 168, 1, 7]);
    assert_eq!(v6(64).family(), 10);
    assert_eq!(v6(64).addr().len(), 16);
}

#[test]
fn empty_rule_lowers_to_a_bare_header() {
    let rule = Rule::new();
    let (msg, attrs) = lower(&rule, ADD_FLAGS).unwrap();
    assert_eq!(msg.family, AF_INET);
    assert_eq!(msg.dst_len, 0);
    assert_eq!(msg.src_len, 0);
    assert_eq!(msg.tos, 0);
    assert_eq!(msg.table, RT_TABLE_UNSPEC);
    assert_eq!(msg.protocol, RTPROT_BOOT);
    assert_eq!(msg.scope, RT_SCOPE_UNIVERSE);
    assert_eq!(msg.route_type, RTN_UNICAST);
    assert_eq!(msg.flags, 0);
    assert!(attrs.is_empty());
}

#[test]
fn only_an_add_defaults_the_action_to_unicast() {
    let mut rule = Rule::new();
    assert_eq!(header(&rule, ADD_FLAGS).route_type, RTN_UNICAST);
    assert_eq!(header(&rule, DEL_FLAGS).route_type, 0);
    assert_eq!(header(&rule, 0x400).route_type, RTN_UNICAST);
    assert_eq!(header(&rule, 0x3ff).route_type, 0);
    rule.rule_type = 6;
    assert_eq!(header(&rule, ADD_FLAGS).route_type, 6);
    assert_eq!(header(&rule, DEL_FLAGS).route_type, 6);
}

#[test]
fn invert_sets_the_invert_bit() {
    let mut rule = Rule::new();
    rule.invert = true;
    assert_eq!(header(&rule, ADD_FLAGS).flags, FIB_RULE_INVERT);
    assert_eq!(header(&rule, ADD_FLAGS).flags, 0x2);
}

#[test]
fn family_and_tos_go_to_the_header_as_one_byte() {
    let mut rule = Rule::new();
    rule.family = 10;
    rule.tos = 0x10;
    let msg = header(&rule, ADD_FLAGS);
    assert_eq!(msg.family, 10);
    assert_eq!(msg.tos, 0x10);
    rule.family = 0x10a;
    rule.tos = 0x1ff;
    let msg = header(&rule, ADD_FLAGS);
    assert_eq!(msg.family, 0x0a);
    assert_eq!(msg.tos, 0xff);
    rule.family = -1;
    assert_eq!(header(&rule, ADD_FLAGS).family, 0xff);
    rule.family = 256;
    rule.tos = 256;
    let msg = header(&rule, ADD_FLAGS);
    assert_eq!(msg.family, 0);
    assert_eq!(msg.tos, 0);
}

#[test]
fn prefix_overrides_the_family_field() {
    let mut rule = Rule::new();
    rule.family = 2;
    rule.dst = Some(v6(64));
    let (msg, attrs) = lower(&rule, ADD_FLAGS).unwrap();
    assert_eq!(msg.family, AF_INET6);
    assert_eq!(msg.dst_len, 64);
    assert_eq!(msg.src_len, 0);
    assert_eq!(kinds(&attrs), vec![FRA_DST]);
    assert_eq!(attrs[0].payload, v6(64).addr());
    assert_eq!(attrs[0].payload.len(), 16);
}

#[test]
fn prefix_length_lives_in_the_header_only() {
    let mut rule = Rule::new();
    rule.dst = Some(v4(10, 1, 2, 3, 8));
    rule.src = Some(v4(192, 168, 0, 0, 16));
    let (msg, attrs) = lower(&rule, ADD_FLAGS).unwrap();
    assert_eq!(msg.family, AF_INET);
    assert_eq!(msg.dst_len, 8);
    assert_eq!(msg.src_len, 16);
    assert_eq!(kinds(&attrs), vec![FRA_DST, FRA_SRC]);
    assert_eq!(attrs[0].payload, vec![10, 1, 2, 3]);
    assert_eq!(attrs[1].payload, vec![192, 168, 0, 0]);
}

#[test]
fn mixed_families_are_refused() {
    let mut rule = Rule::new();
    rule.dst = Some(v4(10, 0, 0, 0, 8));
    rule.src = Some(v6(64));
    assert!(has_mixed_family(&rule));
    assert_eq!(lower(&rule, ADD_FLAGS).err(), Some(Error::MixedFamily));
    assert_eq!(add_request(&rule).err(), Some(Error::MixedFamily));
    assert_eq!(del_request(&rule).err(), Some(Error::MixedFamily));
    rule.dst = Some(v6(48));
    rule.src = Some(v4(10, 0, 0, 0, 8));
    assert!(has_mixed_family(&rule));
    assert_eq!(add_request(&rule).err(), Some(Error::MixedFamily));
    assert_eq!(del_request(&rule).err(), Some(Error::MixedFamily));
    assert_eq!(request(&rule, 99, 0).err(), Some(Error::MixedFamily));
}

#[test]
fn one_family_on_both_sides_is_accepted() {
    let mut rule = Rule::new();
    rule.dst = Some(v6(48));
    rule.src = Some(v6(64));
    assert!(!has_mixed_family(&rule));
    let (msg, attrs) = lower(&rule, DEL_FLAGS).unwrap();
    assert_eq!(msg.family, AF_INET6);
    assert_eq!(kinds(&attrs), vec![FRA_DST, FRA_SRC]);
    rule.src = None;
    assert!(!has_mixed_family(&rule));
    rule.dst = None;
    rule.src = Some(v4(1, 2, 3, 4, 32));
    assert!(!has_mixed_family(&rule));
}

#[test]
fn table_300_travels_wide_and_leaves_the_header_field_alone() {
    let mut rule = Rule::new();
    rule.table = 300;
    let (msg, attrs) = lower(&rule, ADD_FLAGS).unwrap();
    assert_eq!(msg.table, RT_TABLE_UNSPEC);
    assert_ne!(msg.table, 44);
    assert_eq!(payloads_of(&attrs, FRA_TABLE), vec![word(300)]);
    assert_eq!(FRA_TABLE, 15);
}

#[test]
fn table_300_emits_no_suppress_prefixlen() {
    let mut rule = Rule::new();
    rule.table = 300;
    rule.suppress_prefixlen = 0;
    rule.suppress_ifgroup = 0;
    let attrs = selectors(&rule);
    assert_eq!(kinds(&attrs), vec![FRA_TABLE]);
    assert!(payloads_of(&attrs, FRA_SUPPRESS_PREFIXLEN).is_empty());
    assert!(payloads_of(&attrs, FRA_SUPPRESS_IFGROUP).is_empty());
}

#[test]
fn table_100_emits_suppress_prefixlen() {
    let mut rule = Rule::new();
    rule.table = 100;
    rule.suppress_prefixlen = 5;
    let (msg, attrs) = lower(&rule, ADD_FLAGS).unwrap();
    assert_eq!(msg.table, 100);
    assert_eq!(kinds(&attrs), vec![FRA_SUPPRESS_PREFIXLEN]);
    assert_eq!(payloads_of(&attrs, 14), vec![word(5)]);
}

#[test]
fn table_bounds() {
    let mut rule = Rule::new();
    rule.suppress_prefixlen = 0;
    rule.suppress_ifgroup = 7;
    for (table, field, wide, suppress) in [
        (-1, 0u8, false, false),
        (0, 0, false, false),
        (1, 1, false, true),
        (255, 255, false, true),
        (256, 0, true, false),
        (i32::MAX, 0, true, false),
    ] {
        rule.table = table;
        let (msg, attrs) = lower(&rule, ADD_FLAGS).unwrap();
        assert_eq!(msg.table, field);
        assert_eq!(!payloads_of(&attrs, FRA_TABLE).is_empty(), wide);
        assert_eq!(!payloads_of(&attrs, FRA_SUPPRESS_PREFIXLEN).is_empty(), suppress);
        assert_eq!(!payloads_of(&attrs, FRA_SUPPRESS_IFGROUP).is_empty(), suppress);
    }
    rule.table = 7;
    assert_eq!(kinds(&selectors(&rule)), vec![FRA_SUPPRESS_PREFIXLEN, FRA_SUPPRESS_IFGROUP]);
    assert_eq!(payloads_of(&selectors(&rule), FRA_SUPPRESS_IFGROUP), vec![word(7)]);
}

#[test]
fn goto_42_forces_the_goto_action() {
    let mut rule = Rule::new();
    rule.goto = 42;
    rule.rule_type = 1;
    let (msg, attrs) = lower(&rule, ADD_FLAGS).unwrap();
    assert_eq!(msg.route_type, FR_ACT_GOTO);
    assert_eq!(msg.route_type, 2);
    assert_eq!(kinds(&attrs), vec![FRA_GOTO]);
    assert_eq!(payloads_of(&attrs, 4), vec![word(42)]);
    let (msg, _) = lower(&rule, DEL_FLAGS).unwrap();
    assert_eq!(msg.route_type, FR_ACT_GOTO);
    rule.goto = 0;
    assert_eq!(payloads_of(&selectors(&rule), FRA_GOTO), vec![word(0)]);
}

#[test]
fn mark_and_mask_share_one_code() {
    let mut rule = Rule::new();
    rule.mark = 0x11;
    assert_eq!(kinds(&selectors(&rule)), vec![FRA_FWMARK]);
    assert_eq!(payloads_of(&selectors(&rule), 10), vec![word(0x11)]);
    rule.mask = Some(0xff);
    assert_eq!(kinds(&selectors(&rule)), vec![10, 10]);
    assert_eq!(payloads_of(&selectors(&rule), 10), vec![word(0x11), word(0xff)]);
    rule.mark = 0;
    assert_eq!(payloads_of(&selectors(&rule), 10), vec![word(0), word(0xff)]);
    rule.mask = Some(0);
    assert_eq!(payloads_of(&selectors(&rule), 10), vec![word(0), word(0)]);
}

#[test]
fn signed_selectors_are_sent_from_zero_on() {
    let mut rule = Rule::new();
    rule.priority = 0;
    rule.flow = 0;
    assert_eq!(kinds(&selectors(&rule)), vec![FRA_PRIORITY, FRA_FLOW]);
    rule.priority = 32766;
    rule.flow = 9;
    let attrs = selectors(&rule);
    assert_eq!(payloads_of(&attrs, 6), vec![32766i32.to_ne_bytes().to_vec()]);
    assert_eq!(payloads_of(&attrs, 11), vec![word(9)]);
    rule.priority = -5;
    rule.flow = i32::MIN;
    assert!(selectors(&rule).is_empty());
}

#[test]
fn positive_selectors_are_sent_from_one_on() {
    let mut rule = Rule::new();
    rule.tun_id = 0;
    rule.ip_proto = 0;
    rule.protocol = 0;
    assert!(selectors(&rule).is_empty());
    rule.ip_proto = -3;
    assert!(selectors(&rule).is_empty());
    rule.tun_id = 77;
    rule.ip_proto = 6;
    rule.protocol = 4;
    let attrs = selectors(&rule);
    assert_eq!(kinds(&attrs), vec![FRA_TUN_ID, FRA_IP_PROTO, FRA_PROTOCOL]);
    assert_eq!(payloads_of(&attrs, 12), vec![word(77)]);
    assert_eq!(payloads_of(&attrs, 22), vec![word(6)]);
    assert_eq!(payloads_of(&attrs, 21), vec![vec![4u8]]);
}

#[test]
fn names_are_sent_without_a_terminator() {
    let mut rule = Rule::new();
    rule.iif_name = String::from("eth0");
    rule.oif_name = String::from("wg-é");
    let attrs = selectors(&rule);
    assert_eq!(kinds(&attrs), vec![FRA_IIFNAME, FRA_OIFNAME]);
    assert_eq!(payloads_of(&attrs, 3), vec![b"eth0".to_vec()]);
    assert_eq!(payloads_of(&attrs, 17), vec!["wg-é".as_bytes().to_vec()]);
}

#[test]
fn ranges_are_sent_in_host_order() {
    let mut rule = Rule::new();
    rule.dport = Some(RulePortRange::new(80, 443));
    rule.sport = Some(RulePortRange::new(1024, 65535));
    rule.uid_range = Some(RuleUIDRange::new(1000, 70000));
    let attrs = selectors(&rule);
    assert_eq!(kinds(&attrs), vec![FRA_DPORT_RANGE, FRA_SPORT_RANGE, FRA_UID_RANGE]);
    let mut d = 80u16.to_ne_bytes().to_vec();
    d.extend_from_slice(&443u16.to_ne_bytes());
    let mut s = 1024u16.to_ne_bytes().to_vec();
    s.extend_from_slice(&65535u16.to_ne_bytes());
    let mut u = word(1000);
    u.extend(word(70000));
    assert_eq!(payloads_of(&attrs, 24), vec![d]);
    assert_eq!(payloads_of(&attrs, 23), vec![s]);
    assert_eq!(payloads_of(&attrs, 20), vec![u]);
}

#[test]
fn attributes_keep_their_order() {
    let mut rule = Rule::new();
    rule.dst = Some(v4(10, 0, 0, 0, 8));
    rule.src = Some(v4(172, 16, 0, 0, 12));
    rule.priority = 100;
    rule.mark = 1;
    rule.mask = Some(0xf);
    rule.flow = 3;
    rule.tun_id = 4;
    rule.table = 200;
    rule.suppress_prefixlen = 0;
    rule.suppress_ifgroup = 1;
    rule.iif_name = String::from("lo");
    rule.oif_name = String::from("eth1");
    rule.goto = 5;
    rule.ip_proto = 17;
    rule.dport = Some(RulePortRange::new(1, 2));
    rule.sport = Some(RulePortRange::new(3, 4));
    rule.uid_range = Some(RuleUIDRange::new(5, 6));
    rule.protocol = 2;
    let attrs = selectors(&rule);
    assert_eq!(kinds(&attrs), vec![1, 2, 6, 10, 10, 11, 12, 14, 13, 3, 17, 4, 22, 24, 23, 20, 21]);
    rule.table = 1000;
    assert_eq!(kinds(&selectors(&rule)), vec![1, 2, 6, 10, 10, 11, 12, 15, 3, 17, 4, 22, 24, 23, 20, 21]);
    assert_eq!(FRA_DST, 1);
    assert_eq!(FRA_SRC, 2);
}

#[test]
fn request_is_header_then_attributes() {
    let mut rule = Rule::new();
    rule.dst = Some(v4(10, 0, 0, 0, 8));
    rule.priority = 7;
    rule.protocol = 9;
    let req = add_request(&rule).unwrap();
    assert_eq!(req.proto, RTM_NEWRULE);
    assert_eq!(req.flags, ADD_FLAGS);
    let mut expected = vec![AF_INET, 8, 0, 0, 0, RTPROT_BOOT, RT_SCOPE_UNIVERSE, RTN_UNICAST];
    expected.extend_from_slice(&0u32.to_ne_bytes());
    expected.extend_from_slice(&8u16.to_ne_bytes());
    expected.extend_from_slice(&1u16.to_ne_bytes());
    expected.extend_from_slice(&[10, 0, 0, 0]);
    expected.extend_from_slice(&8u16.to_ne_bytes());
    expected.extend_from_slice(&6u16.to_ne_bytes());
    expected.extend_from_slice(&7u32.to_ne_bytes());
    expected.extend_from_slice(&5u16.to_ne_bytes());
    expected.extend_from_slice(&21u16.to_ne_bytes());
    expected.extend_from_slice(&[9, 0, 0, 0]);
    assert_eq!(req.data, expected);
    assert_eq!(req.len(), expected.len());

    let del = del_request(&rule).unwrap();
    assert_eq!(del.proto, RTM_DELRULE);
    assert_eq!(del.flags, DEL_FLAGS);
    assert_eq!(del.data[7], 0);
    assert_eq!(del.data[..7], expected[..7]);
    assert_eq!(del.data[8..], expected[8..]);
}

#[test]
fn request_attributes_read_back() {
    let mut rule = Rule::new();
    rule.src = Some(v6(64));
    rule.table = 300;
    rule.iif_name = String::from("eth0");
    rule.goto = 42;
    let req = request(&rule, 32, 0x604).unwrap();
    let found = RouteAttrs::from(&req.data[12..]);
    let sent = selectors(&rule);
    assert_eq!(found.attrs.len(), sent.len());
    for (a, b) in found.attrs.iter().zip(sent.iter()) {
        assert_eq!(a.rta_type, b.rta_type);
        assert_eq!(a.payload, b.payload);
    }
    assert_eq!(kinds(&found.attrs), vec![2, 15, 3, 4]);
}

#[test]
fn name_too_long_for_an_attribute_overflows() {
    let mut rule = Rule::new();
    rule.iif_name = "x".repeat(0xffff - 4);
    assert!(add_request(&rule).is_ok());
    rule.iif_name = "x".repeat(0xffff - 3);
    assert_eq!(add_request(&rule).err(), Some(Error::SerializationOverflow));
    assert_eq!(del_request(&rule).err(), Some(Error::SerializationOverflow));
    assert!(lower(&rule, ADD_FLAGS).is_ok());
    rule.iif_name = String::new();
    rule.oif_name = "y".repeat(70000);
    assert_eq!(add_request(&rule).err(), Some(Error::SerializationOverflow));
    rule.dst = Some(v4(1, 1, 1, 1, 32));
    rule.src = Some(v6(1));
    assert_eq!(add_request(&rule).err(), Some(Error::MixedFamily));
}

#[test]
fn constants_are_the_kernels() {
    assert_eq!(AF_INET as i32, libc::AF_INET);
    assert_eq!(AF_INET6 as i32, libc::AF_INET6);
    assert_eq!(RTPROT_BOOT, libc::RTPROT_BOOT);
    assert_eq!(RT_SCOPE_UNIVERSE, libc::RT_SCOPE_UNIVERSE);
    assert_eq!(RT_TABLE_UNSPEC, libc::RT_TABLE_UNSPEC);
    assert_eq!(RTN_UNICAST, libc::RTN_UNICAST);
    assert_eq!(RTM_NEWRULE, libc::RTM_NEWRULE);
    assert_eq!(RTM_DELRULE, libc::RTM_DELRULE);
    assert_eq!(FRA_DST, libc::RTA_DST);
    assert_eq!(FRA_SRC, libc::RTA_SRC);
    assert_eq!(ADD_FLAGS, libc::NLM_F_CREATE | libc::NLM_F_EXCL | libc::NLM_F_ACK);
    assert_eq!(DEL_FLAGS, libc::NLM_F_ACK);
    assert_eq!(netlink_wire::consts::NLM_F_DUMP, libc::NLM_F_DUMP);
    assert_eq!(netlink_wire::consts::NLM_F_CREATE, libc::NLM_F_CREATE);
    assert_eq!(netlink_wire::consts::NLM_F_EXCL, libc::NLM_F_EXCL);
    assert_eq!(netlink_wire::consts::NLM_F_ACK, libc::NLM_F_ACK);
    assert_eq!(netlink_wire::consts::IPPROTO_TCP as i32, libc::IPPROTO_TCP);
    assert_eq!(netlink_wire::consts::IPPROTO_UDP as i32, libc::IPPROTO_UDP);
}
