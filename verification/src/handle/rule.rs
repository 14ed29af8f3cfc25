//! Lowering a rule to the request that adds or deletes it.

use crate::bytes::{put, u16_bytes, u16_to_ne_bytes, u32_bytes, u32_to_ne_bytes};
use crate::consts::{
    AF_INET, FIB_RULE_INVERT, FRA_DPORT_RANGE, FRA_DST, FRA_FLOW, FRA_FWMARK, FRA_GOTO,
    FRA_IIFNAME, FRA_IP_PROTO, FRA_OIFNAME, FRA_PRIORITY, FRA_PROTOCOL, FRA_SPORT_RANGE, FRA_SRC,
    FRA_SUPPRESS_IFGROUP, FRA_SUPPRESS_PREFIXLEN, FRA_TABLE, FRA_TUN_ID, FRA_UID_RANGE,
    FR_ACT_GOTO, NLM_F_ACK, NLM_F_CREATE, NLM_F_EXCL, RTM_DELRULE, RTM_NEWRULE, RTN_UNICAST,
    RTPROT_BOOT, RT_SCOPE_UNIVERSE, RT_TABLE_UNSPEC,
};
use crate::envelope::Message;
use crate::error::Error;
use crate::types::message::{
    all_fit, tlvs, views, Attribute, RouteAttr, RouteMessage,
};
use crate::types::rule::{IpNet, Rule, RulePortRange, RuleUIDRange};
use vstd::endian::endianness;
use vstd::prelude::*;
use vstd::utf8::encode_utf8;

verus! {

/// The request flags of an add: create, fail if it exists, acknowledge.
pub const ADD_FLAGS: i32 = 0x604;

/// The request flags of a delete: acknowledge.
pub const DEL_FLAGS: i32 = 0x4;

/// `list` with the attribute `(kind, payload)` behind it if `present`, and
/// `list` as it is otherwise.
#[verifier::opaque]
pub open spec fn add_if(
    list: Seq<(u16, Seq<u8>)>,
    present: bool,
    kind: u16,
    payload: Seq<u8>,
) -> Seq<(u16, Seq<u8>)> {
    if present {
        list.push((kind, payload))
    } else {
        list
    }
}

/// A 32-bit value in host order.
pub open spec fn word(x: u32) -> Seq<u8> {
    u32_bytes(endianness(), x)
}

/// The two ends of a port range, each 16 bits in host order.
pub open spec fn ports(range: RulePortRange) -> Seq<u8> {
    u16_bytes(endianness(), range.start) + u16_bytes(endianness(), range.end)
}

/// The two ends of a range of user ids, each 32 bits in host order.
pub open spec fn uids(range: RuleUIDRange) -> Seq<u8> {
    word(range.start) + word(range.end)
}

/// The request creates what it names.
pub open spec fn creates(flags: i32) -> bool {
    flags & NLM_F_CREATE != 0
}

/// The rule names a source and a destination of different address families.
pub open spec fn mixed_family(rule: &Rule) -> bool {
    &&& rule.dst is Some
    &&& rule.src is Some
    &&& rule.dst->0.wire_family() != rule.src->0.wire_family()
}

/// The rule selects one of the tables 1 to 255, which the header can name.
pub open spec fn names_narrow_table(rule: &Rule) -> bool {
    0 < rule.table < 256
}

/// The fixed header of the request for `rule`.
///
/// The family is that of the source prefix, else that of the destination
/// prefix, else the low byte of `rule.family` if that is not zero, else IPv4.
/// The action is "goto" if a target is set, else the rule's own, with unicast
/// in place of none where the request creates the rule.
pub open spec fn layout(rule: &Rule, flags: i32) -> RouteMessage {
    RouteMessage {
        family: if rule.src is Some {
            rule.src->0.wire_family()
        } else if rule.dst is Some {
            rule.dst->0.wire_family()
        } else if rule.family != 0 {
            rule.family as u8
        } else {
            AF_INET
        },
        dst_len: if rule.dst is Some {
            rule.dst->0.bits()
        } else {
            0
        },
        src_len: if rule.src is Some {
            rule.src->0.bits()
        } else {
            0
        },
        tos: rule.tos as u8,
        table: if 0 <= rule.table < 256 {
            rule.table as u8
        } else {
            RT_TABLE_UNSPEC
        },
        protocol: RTPROT_BOOT,
        scope: RT_SCOPE_UNIVERSE,
        route_type: if rule.goto >= 0 {
            FR_ACT_GOTO
        } else if rule.rule_type == 0 && creates(flags) {
            RTN_UNICAST
        } else {
            rule.rule_type
        },
        flags: if rule.invert {
            FIB_RULE_INVERT
        } else {
            0
        },
    }
}

/// The attributes of the request for `rule`, in the order in which they are
/// sent: each selector that is set, and none that is not.
#[verifier::opaque]
pub open spec fn attributes(rule: &Rule) -> Seq<(u16, Seq<u8>)> {
    let a = Seq::empty();
    let a = add_if(a, rule.dst is Some, FRA_DST, rule.dst->0.octets());
    let a = add_if(a, rule.src is Some, FRA_SRC, rule.src->0.octets());
    let a = add_if(a, rule.priority >= 0, FRA_PRIORITY, word(rule.priority as u32));
    let a = add_if(a, rule.mark != 0 || rule.mask is Some, FRA_FWMARK, word(rule.mark));
    let a = add_if(a, rule.mask is Some, FRA_FWMARK, word(rule.mask->0));
    let a = add_if(a, rule.flow >= 0, FRA_FLOW, word(rule.flow as u32));
    let a = add_if(a, rule.tun_id > 0, FRA_TUN_ID, word(rule.tun_id));
    let a = add_if(a, rule.table >= 256, FRA_TABLE, word(rule.table as u32));
    let a = add_if(
        a,
        names_narrow_table(rule) && rule.suppress_prefixlen >= 0,
        FRA_SUPPRESS_PREFIXLEN,
        word(rule.suppress_prefixlen as u32),
    );
    let a = add_if(
        a,
        names_narrow_table(rule) && rule.suppress_ifgroup >= 0,
        FRA_SUPPRESS_IFGROUP,
        word(rule.suppress_ifgroup as u32),
    );
    let a = add_if(a, rule.iif_name@.len() > 0, FRA_IIFNAME, encode_utf8(rule.iif_name@));
    let a = add_if(a, rule.oif_name@.len() > 0, FRA_OIFNAME, encode_utf8(rule.oif_name@));
    let a = add_if(a, rule.goto >= 0, FRA_GOTO, word(rule.goto as u32));
    let a = add_if(a, rule.ip_proto > 0, FRA_IP_PROTO, word(rule.ip_proto as u32));
    let a = add_if(a, rule.dport is Some, FRA_DPORT_RANGE, ports(rule.dport->0));
    let a = add_if(a, rule.sport is Some, FRA_SPORT_RANGE, ports(rule.sport->0));
    let a = add_if(
        a,
        rule.uid_range is Some,
        FRA_UID_RANGE,
        uids(rule.uid_range->0),
    );
    add_if(a, rule.protocol > 0, FRA_PROTOCOL, seq![rule.protocol])
}

/// A text is empty exactly if its UTF-8 encoding is.
pub proof fn lemma_utf8_empty(chars: Seq<char>)
    ensures
        encode_utf8(chars).len() == 0 <==> chars.len() == 0,
{
}

/// Appends the attribute `(kind, payload)`.
fn emit(attrs: &mut Vec<RouteAttr>, kind: u16, payload: &[u8])
    ensures
        views(final(attrs)@) == views(old(attrs)@).push((kind, payload@)),
{
    reveal(views);
    attrs.push(RouteAttr::new(kind, payload));
    assert(views(attrs@) =~= views(old(attrs)@).push((kind, payload@)));
}

/// Appends the address of `net` under `kind`, if there is a network.
fn emit_addr(attrs: &mut Vec<RouteAttr>, kind: u16, net: &Option<IpNet>)
    ensures
        views(final(attrs)@) == add_if(views(old(attrs)@), *net is Some, kind, (*net)->0.octets()),
{
    reveal(add_if);
    if let Some(net) = net {
        emit(attrs, kind, net.addr().as_slice());
    }
}

/// Appends `x` under `kind`, 32 bits in host order, if `present`.
fn emit_word(attrs: &mut Vec<RouteAttr>, present: bool, kind: u16, x: u32)
    ensures
        views(final(attrs)@) == add_if(views(old(attrs)@), present, kind, word(x)),
{
    reveal(add_if);
    if present {
        emit(attrs, kind, u32_to_ne_bytes(x).as_slice());
    }
}

/// Appends `x` under `kind`, as `emit_word` does, if `present`.
fn emit_int(attrs: &mut Vec<RouteAttr>, present: bool, kind: u16, x: i32)
    requires
        present ==> x >= 0,
    ensures
        views(final(attrs)@) == add_if(views(old(attrs)@), present, kind, word(x as u32)),
{
    reveal(add_if);
    if present {
        emit_word(attrs, true, kind, x as u32);
    }
}

/// Appends the bytes of `name` under `kind`, if it is not empty.
fn emit_name(attrs: &mut Vec<RouteAttr>, kind: u16, name: &String)
    ensures
        views(final(attrs)@) == add_if(
            views(old(attrs)@),
            name@.len() > 0,
            kind,
            encode_utf8(name@),
        ),
{
    reveal(add_if);
    let bytes = name.as_str().as_bytes();
    proof {
        lemma_utf8_empty(name@);
    }
    if bytes.len() > 0 {
        emit(attrs, kind, bytes);
    }
}

/// Appends the two ends of `range` under `kind`, if there is a range.
fn emit_ports(attrs: &mut Vec<RouteAttr>, kind: u16, range: &Option<RulePortRange>)
    ensures
        views(final(attrs)@) == add_if(
            views(old(attrs)@),
            *range is Some,
            kind,
            ports((*range)->0),
        ),
{
    reveal(add_if);
    if let Some(range) = range {
        let mut b: Vec<u8> = Vec::with_capacity(4);
        put(&mut b, u16_to_ne_bytes(range.start).as_slice());
        put(&mut b, u16_to_ne_bytes(range.end).as_slice());
        emit(attrs, kind, b.as_slice());
    }
}

/// Appends the two ends of `range` under `kind`, if there is a range.
fn emit_uids(attrs: &mut Vec<RouteAttr>, kind: u16, range: &Option<RuleUIDRange>)
    ensures
        views(final(attrs)@) == add_if(
            views(old(attrs)@),
            *range is Some,
            kind,
            uids((*range)->0),
        ),
{
    reveal(add_if);
    if let Some(range) = range {
        let mut b: Vec<u8> = Vec::with_capacity(8);
        put(&mut b, u32_to_ne_bytes(range.start).as_slice());
        put(&mut b, u32_to_ne_bytes(range.end).as_slice());
        emit(attrs, kind, b.as_slice());
    }
}

/// Appends the one byte `x` under `kind`, if `present`.
fn emit_byte(attrs: &mut Vec<RouteAttr>, present: bool, kind: u16, x: u8)
    ensures
        views(final(attrs)@) == add_if(views(old(attrs)@), present, kind, seq![x]),
{
    reveal(add_if);
    if present {
        let one: [u8; 1] = [x];
        assert(one@ =~= seq![x]);
        emit(attrs, kind, one.as_slice());
    }
}

/// The fixed header of the request for `rule`.
pub fn header(rule: &Rule, flags: i32) -> (msg: RouteMessage)
    ensures
        msg == layout(rule, flags),
{
    let mut msg = RouteMessage::new();
    msg.family = AF_INET;
    msg.protocol = RTPROT_BOOT;
    msg.scope = RT_SCOPE_UNIVERSE;
    msg.table = RT_TABLE_UNSPEC;
    msg.route_type = rule.rule_type;

    if msg.route_type == 0 && (flags & NLM_F_CREATE) != 0 {
        msg.route_type = RTN_UNICAST;
    }
    if rule.invert {
        assert(0u32 | 0x2u32 == 0x2u32) by (bit_vector);
        msg.flags |= FIB_RULE_INVERT;
    }
    if rule.family != 0 {
        msg.family = #[verifier::truncate] (rule.family as u8);
    }
    if rule.table >= 0 && rule.table < 256 {
        msg.table = rule.table as u8;
    }
    if rule.tos != 0 {
        msg.tos = #[verifier::truncate] (rule.tos as u8);
    }
    if let Some(dst) = rule.dst {
        msg.dst_len = dst.prefix_len();
        msg.family = dst.family();
    }
    if let Some(src) = rule.src {
        msg.src_len = src.prefix_len();
        msg.family = src.family();
    }
    if rule.goto >= 0 {
        msg.route_type = FR_ACT_GOTO;
    }
    msg
}

/// The attributes of the request for `rule`, in the order in which they are sent.
pub fn selectors(rule: &Rule) -> (attrs: Vec<RouteAttr>)
    ensures
        views(attrs@) == attributes(rule),
{
    reveal(attributes);
    reveal(add_if);
    let narrow = rule.table > 0 && rule.table < 256;
    let mut attrs: Vec<RouteAttr> = Vec::new();
    assert(views(attrs@) =~= Seq::empty()) by {
        reveal(views);
    }
    emit_addr(&mut attrs, FRA_DST, &rule.dst);
    emit_addr(&mut attrs, FRA_SRC, &rule.src);
    emit_int(&mut attrs, rule.priority >= 0, FRA_PRIORITY, rule.priority);
    emit_word(&mut attrs, rule.mark != 0 || rule.mask.is_some(), FRA_FWMARK, rule.mark);
    emit_word(&mut attrs, rule.mask.is_some(), FRA_FWMARK, rule.mask.unwrap_or(0));
    emit_int(&mut attrs, rule.flow >= 0, FRA_FLOW, rule.flow);
    emit_word(&mut attrs, rule.tun_id > 0, FRA_TUN_ID, rule.tun_id);
    emit_int(&mut attrs, rule.table >= 256, FRA_TABLE, rule.table);
    emit_int(
        &mut attrs,
        narrow && rule.suppress_prefixlen >= 0,
        FRA_SUPPRESS_PREFIXLEN,
        rule.suppress_prefixlen,
    );
    emit_int(
        &mut attrs,
        narrow && rule.suppress_ifgroup >= 0,
        FRA_SUPPRESS_IFGROUP,
        rule.suppress_ifgroup,
    );
    emit_name(&mut attrs, FRA_IIFNAME, &rule.iif_name);
    emit_name(&mut attrs, FRA_OIFNAME, &rule.oif_name);
    emit_int(&mut attrs, rule.goto >= 0, FRA_GOTO, rule.goto);
    emit_int(&mut attrs, rule.ip_proto > 0, FRA_IP_PROTO, rule.ip_proto);
    emit_ports(&mut attrs, FRA_DPORT_RANGE, &rule.dport);
    emit_ports(&mut attrs, FRA_SPORT_RANGE, &rule.sport);
    emit_uids(&mut attrs, FRA_UID_RANGE, &rule.uid_range);
    emit_byte(&mut attrs, rule.protocol > 0, FRA_PROTOCOL, rule.protocol);
    attrs
}

/// Whether `rule` names a source and a destination of different address families.
pub fn has_mixed_family(rule: &Rule) -> (r: bool)
    ensures
        r == mixed_family(rule),
{
    match (rule.dst, rule.src) {
        (Some(dst), Some(src)) => dst.family() != src.family(),
        _ => false,
    }
}

/// The fixed header and the attributes of the request for `rule`, or
/// `MixedFamily` where its source and destination differ in address family.
pub fn lower(rule: &Rule, flags: i32) -> (r: Result<(RouteMessage, Vec<RouteAttr>), Error>)
    ensures
        mixed_family(rule) ==> r == Err::<(RouteMessage, Vec<RouteAttr>), Error>(
            Error::MixedFamily,
        ),
        !mixed_family(rule) ==> r is Ok && r->Ok_0.0 == layout(rule, flags) && views(r->Ok_0.1@)
            == attributes(rule),
{
    if has_mixed_family(rule) {
        return Err(Error::MixedFamily);
    }
    Ok((header(rule, flags), selectors(rule)))
}

/// The body of the request for `rule`: the fixed header, then each attribute
/// encoded. There is none where the rule mixes address families
/// (`MixedFamily`), nor where an attribute is too long to be encoded
/// (`SerializationOverflow`).
pub open spec fn request_body(rule: &Rule, flags: i32) -> Result<Seq<u8>, Error> {
    if mixed_family(rule) {
        Err(Error::MixedFamily)
    } else if !all_fit(attributes(rule)) {
        Err(Error::SerializationOverflow)
    } else {
        Ok(layout(rule, flags).bytes() + tlvs(attributes(rule)))
    }
}

/// The request of type `proto` with the flags `flags` for `rule`: what is
/// handed to the transport.
pub fn request(rule: &Rule, proto: u16, flags: i32) -> (r: Result<Message, Error>)
    ensures
        r is Ok <==> !mixed_family(rule) && names_fit(rule),
        match request_body(rule, flags) {
            Ok(body) => r is Ok && r->Ok_0.proto == proto && r->Ok_0.flags == flags
                && r->Ok_0.data@ == body,
            Err(e) => r == Err::<Message, Error>(e),
        },
{
    proof {
        lemma_fits(rule);
    }
    let mut req = Message::new(proto, flags);
    let (msg, attrs) = match lower(rule, flags) {
        Ok(lowered) => lowered,
        Err(e) => {
            return Err(e);
        },
    };
    match msg.serialize() {
        Ok(bytes) => req.add(bytes.as_slice()),
        Err(e) => {
            return Err(e);
        },
    }
    let ghost all = views(attrs@);
    let ghost head = req.data@;
    let mut i: usize = 0;
    assert(head + tlvs(all.take(0)) =~= head);
    while i < attrs.len()
        invariant
            i <= attrs.len(),
            all == views(attrs@),
            all == attributes(rule),
            !mixed_family(rule),
            all_fit(all) <==> names_fit(rule),
            all_fit(all.take(i as int)),
            req.proto == proto,
            req.flags == flags,
            req.data@ == head + tlvs(all.take(i as int)),
        decreases attrs.len() - i,
    {
        proof {
            reveal(views);
            assert(all.take(i + 1).drop_last() =~= all.take(i as int));
        }
        match attrs[i].serialize() {
            Ok(bytes) => req.add(bytes.as_slice()),
            Err(e) => {
                assert(4 + all[i as int].1.len() > 0xffff);
                return Err(e);
            },
        }
        assert(req.data@ =~= head + tlvs(all.take(i + 1)));
        i += 1;
    }
    assert(all.take(i as int) =~= all) by {
        reveal(views);
    }
    Ok(req)
}

/// The request that adds `rule`.
pub fn add_request(rule: &Rule) -> (r: Result<Message, Error>)
    ensures
        r is Ok <==> !mixed_family(rule) && names_fit(rule),
        match request_body(rule, ADD_FLAGS) {
            Ok(body) => r is Ok && r->Ok_0.proto == RTM_NEWRULE && r->Ok_0.flags == ADD_FLAGS
                && r->Ok_0.data@ == body,
            Err(e) => r == Err::<Message, Error>(e),
        },
{
    assert(NLM_F_CREATE | NLM_F_EXCL | NLM_F_ACK == ADD_FLAGS) by (bit_vector);
    request(rule, RTM_NEWRULE, NLM_F_CREATE | NLM_F_EXCL | NLM_F_ACK)
}

/// The request that deletes `rule`.
pub fn del_request(rule: &Rule) -> (r: Result<Message, Error>)
    ensures
        r is Ok <==> !mixed_family(rule) && names_fit(rule),
        match request_body(rule, DEL_FLAGS) {
            Ok(body) => r is Ok && r->Ok_0.proto == RTM_DELRULE && r->Ok_0.flags == DEL_FLAGS
                && r->Ok_0.data@ == body,
            Err(e) => r == Err::<Message, Error>(e),
        },
{
    request(rule, RTM_DELRULE, NLM_F_ACK)
}

/// `x` is an attribute that `rule` calls for: what `attributes` lists, without
/// the order.
pub open spec fn calls_for(rule: &Rule, x: (u16, Seq<u8>)) -> bool {
    ||| rule.dst is Some && x == (FRA_DST, rule.dst->0.octets())
    ||| rule.src is Some && x == (FRA_SRC, rule.src->0.octets())
    ||| rule.priority >= 0 && x == (FRA_PRIORITY, word(rule.priority as u32))
    ||| (rule.mark != 0 || rule.mask is Some) && x == (FRA_FWMARK, word(rule.mark))
    ||| rule.mask is Some && x == (FRA_FWMARK, word(rule.mask->0))
    ||| rule.flow >= 0 && x == (FRA_FLOW, word(rule.flow as u32))
    ||| rule.tun_id > 0 && x == (FRA_TUN_ID, word(rule.tun_id))
    ||| rule.table >= 256 && x == (FRA_TABLE, word(rule.table as u32))
    ||| names_narrow_table(rule) && rule.suppress_prefixlen >= 0 && x == (
        FRA_SUPPRESS_PREFIXLEN,
        word(rule.suppress_prefixlen as u32),
    )
    ||| names_narrow_table(rule) && rule.suppress_ifgroup >= 0 && x == (
        FRA_SUPPRESS_IFGROUP,
        word(rule.suppress_ifgroup as u32),
    )
    ||| rule.iif_name@.len() > 0 && x == (FRA_IIFNAME, encode_utf8(rule.iif_name@))
    ||| rule.oif_name@.len() > 0 && x == (FRA_OIFNAME, encode_utf8(rule.oif_name@))
    ||| rule.goto >= 0 && x == (FRA_GOTO, word(rule.goto as u32))
    ||| rule.ip_proto > 0 && x == (FRA_IP_PROTO, word(rule.ip_proto as u32))
    ||| rule.dport is Some && x == (FRA_DPORT_RANGE, ports(rule.dport->0))
    ||| rule.sport is Some && x == (FRA_SPORT_RANGE, ports(rule.sport->0))
    ||| rule.uid_range is Some && x == (FRA_UID_RANGE, uids(rule.uid_range->0))
    ||| rule.protocol > 0 && x == (FRA_PROTOCOL, seq![rule.protocol])
}

/// The two interface names are short enough to travel as attributes.
pub open spec fn names_fit(rule: &Rule) -> bool {
    &&& 4 + encode_utf8(rule.iif_name@).len() <= 0xffff
    &&& 4 + encode_utf8(rule.oif_name@).len() <= 0xffff
}

proof fn lemma_add_if_contains(
    list: Seq<(u16, Seq<u8>)>,
    present: bool,
    kind: u16,
    payload: Seq<u8>,
    x: (u16, Seq<u8>),
)
    ensures
        add_if(list, present, kind, payload).contains(x) <==> list.contains(x) || (present && x == (
            kind,
            payload,
        )),
{
    reveal(add_if);
    if present {
        let longer = list.push((kind, payload));
        if longer.contains(x) {
            let i = choose|i: int| 0 <= i < longer.len() && longer[i] == x;
            if i < list.len() {
                assert(list[i] == x);
            }
        }
        if list.contains(x) {
            let i = choose|i: int| 0 <= i < list.len() && list[i] == x;
            assert(longer[i] == x);
        }
        if x == (kind, payload) {
            assert(longer[list.len() as int] == x);
        }
    }
}

/// The request holds an attribute exactly if the rule calls for it.
pub proof fn lemma_attributes_members(rule: &Rule)
    ensures
        forall|x: (u16, Seq<u8>)| #[trigger] attributes(rule).contains(x) <==> calls_for(rule, x),
{
    reveal(attributes);
    let p9 = names_narrow_table(rule) && rule.suppress_prefixlen >= 0;
    let p10 = names_narrow_table(rule) && rule.suppress_ifgroup >= 0;
    let a0 = Seq::<(u16, Seq<u8>)>::empty();
    let a1 = add_if(a0, rule.dst is Some, FRA_DST, rule.dst->0.octets());
    let a2 = add_if(a1, rule.src is Some, FRA_SRC, rule.src->0.octets());
    let a3 = add_if(a2, rule.priority >= 0, FRA_PRIORITY, word(rule.priority as u32));
    let a4 = add_if(a3, rule.mark != 0 || rule.mask is Some, FRA_FWMARK, word(rule.mark));
    let a5 = add_if(a4, rule.mask is Some, FRA_FWMARK, word(rule.mask->0));
    let a6 = add_if(a5, rule.flow >= 0, FRA_FLOW, word(rule.flow as u32));
    let a7 = add_if(a6, rule.tun_id > 0, FRA_TUN_ID, word(rule.tun_id));
    let a8 = add_if(a7, rule.table >= 256, FRA_TABLE, word(rule.table as u32));
    let a9 = add_if(a8, p9, FRA_SUPPRESS_PREFIXLEN, word(rule.suppress_prefixlen as u32));
    let a10 = add_if(a9, p10, FRA_SUPPRESS_IFGROUP, word(rule.suppress_ifgroup as u32));
    let a11 = add_if(a10, rule.iif_name@.len() > 0, FRA_IIFNAME, encode_utf8(rule.iif_name@));
    let a12 = add_if(a11, rule.oif_name@.len() > 0, FRA_OIFNAME, encode_utf8(rule.oif_name@));
    let a13 = add_if(a12, rule.goto >= 0, FRA_GOTO, word(rule.goto as u32));
    let a14 = add_if(a13, rule.ip_proto > 0, FRA_IP_PROTO, word(rule.ip_proto as u32));
    let a15 = add_if(a14, rule.dport is Some, FRA_DPORT_RANGE, ports(rule.dport->0));
    let a16 = add_if(a15, rule.sport is Some, FRA_SPORT_RANGE, ports(rule.sport->0));
    let a17 = add_if(a16, rule.uid_range is Some, FRA_UID_RANGE, uids(rule.uid_range->0));
    let a18 = add_if(a17, rule.protocol > 0, FRA_PROTOCOL, seq![rule.protocol]);
    assert(a18 == attributes(rule));
    assert forall|x: (u16, Seq<u8>)| #[trigger] a18.contains(x) <==> calls_for(rule, x) by {
        assert(!a0.contains(x));
        lemma_add_if_contains(a0, rule.dst is Some, FRA_DST, rule.dst->0.octets(), x);
        lemma_add_if_contains(a1, rule.src is Some, FRA_SRC, rule.src->0.octets(), x);
        lemma_add_if_contains(a2, rule.priority >= 0, FRA_PRIORITY, word(rule.priority as u32), x);
        lemma_add_if_contains(
            a3,
            rule.mark != 0 || rule.mask is Some,
            FRA_FWMARK,
            word(rule.mark),
            x,
        );
        lemma_add_if_contains(a4, rule.mask is Some, FRA_FWMARK, word(rule.mask->0), x);
        lemma_add_if_contains(a5, rule.flow >= 0, FRA_FLOW, word(rule.flow as u32), x);
        lemma_add_if_contains(a6, rule.tun_id > 0, FRA_TUN_ID, word(rule.tun_id), x);
        lemma_add_if_contains(a7, rule.table >= 256, FRA_TABLE, word(rule.table as u32), x);
        lemma_add_if_contains(
            a8,
            p9,
            FRA_SUPPRESS_PREFIXLEN,
            word(rule.suppress_prefixlen as u32),
            x,
        );
        lemma_add_if_contains(
            a9,
            p10,
            FRA_SUPPRESS_IFGROUP,
            word(rule.suppress_ifgroup as u32),
            x,
        );
        lemma_add_if_contains(
            a10,
            rule.iif_name@.len() > 0,
            FRA_IIFNAME,
            encode_utf8(rule.iif_name@),
            x,
        );
        lemma_add_if_contains(
            a11,
            rule.oif_name@.len() > 0,
            FRA_OIFNAME,
            encode_utf8(rule.oif_name@),
            x,
        );
        lemma_add_if_contains(a12, rule.goto >= 0, FRA_GOTO, word(rule.goto as u32), x);
        lemma_add_if_contains(a13, rule.ip_proto > 0, FRA_IP_PROTO, word(rule.ip_proto as u32), x);
        lemma_add_if_contains(a14, rule.dport is Some, FRA_DPORT_RANGE, ports(rule.dport->0), x);
        lemma_add_if_contains(a15, rule.sport is Some, FRA_SPORT_RANGE, ports(rule.sport->0), x);
        lemma_add_if_contains(
            a16,
            rule.uid_range is Some,
            FRA_UID_RANGE,
            uids(rule.uid_range->0),
            x,
        );
        lemma_add_if_contains(a17, rule.protocol > 0, FRA_PROTOCOL, seq![rule.protocol], x);
    }
}

/// Every attribute of a request can be encoded exactly if the two interface
/// names are short enough: nothing else in a rule has a length of its own.
pub proof fn lemma_fits(rule: &Rule)
    ensures
        all_fit(attributes(rule)) <==> names_fit(rule),
{
    lemma_attributes_members(rule);
    let attrs = attributes(rule);
    if names_fit(rule) {
        assert forall|i: int| 0 <= i < attrs.len() implies 4 + (#[trigger] attrs[i]).1.len()
            <= 0xffff by {
            assert(attrs.contains(attrs[i]));
        }
    } else {
        lemma_utf8_empty(rule.iif_name@);
        lemma_utf8_empty(rule.oif_name@);
        let long = if 4 + encode_utf8(rule.iif_name@).len() > 0xffff {
            (FRA_IIFNAME, encode_utf8(rule.iif_name@))
        } else {
            (FRA_OIFNAME, encode_utf8(rule.oif_name@))
        };
        assert(attrs.contains(long));
        let i = choose|i: int| 0 <= i < attrs.len() && attrs[i] == long;
        assert(4 + attrs[i].1.len() > 0xffff);
    }
}

/// An add creates what it names, a delete does not: only an add puts
/// "unicast" in place of a missing action.
pub proof fn lemma_add_creates()
    ensures
        creates(ADD_FLAGS),
        !creates(DEL_FLAGS),
{
    assert(0x604i32 & 0x400i32 != 0) by (bit_vector);
    assert(0x4i32 & 0x400i32 == 0) by (bit_vector);
}

/// A rule whose source and destination differ in address family is refused
/// with `MixedFamily`, whatever the request, and so before anything is sent.
pub proof fn lemma_mixed_family_refused(rule: &Rule, flags: i32)
    requires
        mixed_family(rule),
    ensures
        request_body(rule, flags) == Err::<Seq<u8>, Error>(Error::MixedFamily),
        request_body(rule, ADD_FLAGS) == Err::<Seq<u8>, Error>(Error::MixedFamily),
        request_body(rule, DEL_FLAGS) == Err::<Seq<u8>, Error>(Error::MixedFamily),
{
}

/// A table from 256 on travels as an attribute of full width, and the
/// one-byte field of the header names no table.
pub proof fn lemma_wide_table(rule: &Rule, flags: i32)
    requires
        rule.table >= 256,
    ensures
        attributes(rule).contains((FRA_TABLE, word(rule.table as u32))),
        layout(rule, flags).table == RT_TABLE_UNSPEC,
{
    lemma_attributes_members(rule);
}

/// Unless the header names a table, which it does for the tables 1 to 255
/// only, no suppress attribute is sent, whatever the two suppress fields hold.
pub proof fn lemma_no_suppress_without_table(rule: &Rule)
    requires
        !names_narrow_table(rule),
    ensures
        forall|x: (u16, Seq<u8>)| #[trigger]
            attributes(rule).contains(x) ==> x.0 != FRA_SUPPRESS_PREFIXLEN && x.0
                != FRA_SUPPRESS_IFGROUP,
{
    lemma_attributes_members(rule);
}

/// With one of the tables 1 to 255, each suppress field that is not negative
/// is sent as an attribute.
pub proof fn lemma_suppress_with_table(rule: &Rule)
    requires
        names_narrow_table(rule),
    ensures
        rule.suppress_prefixlen >= 0 ==> attributes(rule).contains(
            (FRA_SUPPRESS_PREFIXLEN, word(rule.suppress_prefixlen as u32)),
        ),
        rule.suppress_ifgroup >= 0 ==> attributes(rule).contains(
            (FRA_SUPPRESS_IFGROUP, word(rule.suppress_ifgroup as u32)),
        ),
{
    lemma_attributes_members(rule);
}

/// A rule with a target to jump to has the action "goto" in its header and
/// the target among its attributes.
pub proof fn lemma_goto(rule: &Rule, flags: i32)
    requires
        rule.goto >= 0,
    ensures
        layout(rule, flags).route_type == FR_ACT_GOTO,
        attributes(rule).contains((FRA_GOTO, word(rule.goto as u32))),
{
    lemma_attributes_members(rule);
}

} // verus!
