//! Attributes (type, length, value) and the fixed header of a rule message.

use crate::bytes::{
    lemma_u16_round_trip, put, u16_at, u16_bytes, u16_from_ne_bytes, u16_to_ne_bytes, u32_bytes,
    u32_to_ne_bytes,
};
use crate::error::Error;
use vstd::endian::endianness;
use vstd::prelude::*;
use vstd::slice::{slice_subrange, slice_to_vec};

verus! {

/// Bytes of an attribute header: a 16-bit length and a 16-bit type.
pub const RTA_HDRLEN: usize = 4;

/// The longest payload whose length, header included, fits 16 bits.
pub const RTA_MAX_PAYLOAD: usize = 0xffff - 4;

/// Bytes of a `RouteMessage` on the wire.
pub const ROUTE_MESSAGE_LEN: usize = 12;

/// `n` rounded up to a multiple of four.
pub open spec fn align4(n: int) -> int {
    (n + 3) / 4 * 4
}

/// How many bytes take `n` to the next multiple of four.
pub open spec fn padding(n: nat) -> int {
    align4(n as int) - n
}

/// `n` zero bytes.
pub open spec fn zeros(n: int) -> Seq<u8> {
    Seq::new(n as nat, |i: int| 0u8)
}

/// What can be written to a byte buffer.
pub trait Attribute {
    /// The length that the structure declares: its bytes without padding.
    spec fn declared_len(&self) -> nat;

    /// The bytes of the structure, or the reason why it has none.
    spec fn wire(&self) -> Result<Seq<u8>, Error>;

    /// The declared length.
    fn len(&self) -> (n: usize)
        requires
            self.declared_len() <= usize::MAX,
        ensures
            n == self.declared_len(),
    ;

    /// The bytes of the structure in a buffer of their own.
    fn serialize(&self) -> (r: Result<Vec<u8>, Error>)
        ensures
            match r {
                Ok(v) => self.wire() == Ok::<Seq<u8>, Error>(v@),
                Err(e) => self.wire() == Err::<Seq<u8>, Error>(e),
            },
    ;
}

/// The encoding of one attribute whose payload fits: the length without
/// padding and the type, each 16 bits in host order, the payload, and zero
/// bytes up to a multiple of four.
pub open spec fn tlv(rta_type: u16, payload: Seq<u8>) -> Seq<u8> {
    u16_bytes(endianness(), (4 + payload.len()) as u16) + u16_bytes(endianness(), rta_type)
        + payload + zeros(padding(4 + payload.len()))
}

/// The encoding of one attribute, or `SerializationOverflow` where header and
/// payload together are longer than 16 bits can say.
pub open spec fn encode(rta_type: u16, payload: Seq<u8>) -> Result<Seq<u8>, Error> {
    if 4 + payload.len() > 0xffff {
        Err(Error::SerializationOverflow)
    } else {
        Ok(tlv(rta_type, payload))
    }
}

/// Every payload of `attrs` is short enough to be encoded.
pub open spec fn all_fit(attrs: Seq<(u16, Seq<u8>)>) -> bool {
    forall|i: int| 0 <= i < attrs.len() ==> 4 + (#[trigger] attrs[i]).1.len() <= 0xffff
}

/// The encodings of `attrs`, one behind the other.
pub open spec fn tlvs(attrs: Seq<(u16, Seq<u8>)>) -> Seq<u8>
    decreases attrs.len(),
{
    if attrs.len() == 0 {
        Seq::empty()
    } else {
        tlvs(attrs.drop_last()) + tlv(attrs.last().0, attrs.last().1)
    }
}

/// The attributes found in `region`, in order, each as (type, payload).
///
/// An attribute is read while at least four bytes are left, its length is at
/// least four and the bytes that are left hold it; the next one starts at the
/// following multiple of four. What is left behind the last attribute read is
/// dropped.
pub open spec fn decode_all(region: Seq<u8>) -> Seq<(u16, Seq<u8>)>
    decreases region.len(),
{
    if region.len() < 4 {
        Seq::empty()
    } else {
        let len = u16_at(endianness(), region, 0) as int;
        let rta_type = u16_at(endianness(), region, 2);
        if len < 4 || len > region.len() {
            Seq::empty()
        } else {
            let next = if align4(len) > region.len() {
                region.len() as int
            } else {
                align4(len)
            };
            seq![(rta_type, region.subrange(4, len))] + decode_all(
                region.subrange(next, region.len() as int),
            )
        }
    }
}

/// An encoded attribute in front of other bytes is read back as that
/// attribute, followed by what the other bytes hold.
pub proof fn lemma_decode_tlv(rta_type: u16, payload: Seq<u8>, rest: Seq<u8>)
    requires
        4 + payload.len() <= 0xffff,
    ensures
        decode_all(tlv(rta_type, payload) + rest) == seq![(rta_type, payload)] + decode_all(rest),
{
    let one = tlv(rta_type, payload);
    let region = one + rest;
    let declared = (4 + payload.len()) as u16;
    lemma_u16_round_trip(endianness(), declared);
    lemma_u16_round_trip(endianness(), rta_type);
    assert(region[0] == u16_bytes(endianness(), declared)[0]);
    assert(region[1] == u16_bytes(endianness(), declared)[1]);
    assert(region[2] == u16_bytes(endianness(), rta_type)[0]);
    assert(region[3] == u16_bytes(endianness(), rta_type)[1]);
    assert(u16_at(endianness(), region, 0) == declared);
    assert(u16_at(endianness(), region, 2) == rta_type);
    assert(one.len() == align4(declared as int));
    assert(region.subrange(4, declared as int) =~= payload);
    assert(region.subrange(one.len() as int, region.len() as int) =~= rest);
}

/// Round trip of one attribute: what `encode` writes, `decode_all` reads back
/// as that one attribute and nothing else, whatever the length of the payload
/// and of the padding behind it.
pub proof fn lemma_decode_encode(rta_type: u16, payload: Seq<u8>)
    requires
        encode(rta_type, payload) is Ok,
    ensures
        decode_all(encode(rta_type, payload)->Ok_0) == seq![(rta_type, payload)],
{
    let none = Seq::<u8>::empty();
    lemma_decode_tlv(rta_type, payload, none);
    assert(tlv(rta_type, payload) + none =~= tlv(rta_type, payload));
    assert(decode_all(none) =~= Seq::empty());
}

/// Round trip of a list: attributes encoded one behind the other, in front of
/// other bytes, are read back in their order, followed by what the other
/// bytes hold.
pub proof fn lemma_decode_tlvs(attrs: Seq<(u16, Seq<u8>)>, rest: Seq<u8>)
    requires
        all_fit(attrs),
    ensures
        decode_all(tlvs(attrs) + rest) == attrs + decode_all(rest),
    decreases attrs.len(),
{
    if attrs.len() == 0 {
        assert(tlvs(attrs) + rest =~= rest);
        assert(attrs + decode_all(rest) =~= decode_all(rest));
    } else {
        let front = attrs.drop_last();
        let last = attrs.last();
        let tail = tlv(last.0, last.1) + rest;
        assert(all_fit(front)) by {
            assert forall|i: int| 0 <= i < front.len() implies 4 + (#[trigger] front[i]).1.len()
                <= 0xffff by {
                assert(front[i] == attrs[i]);
            }
        }
        lemma_decode_tlvs(front, tail);
        lemma_decode_tlv(last.0, last.1, rest);
        assert(tlvs(attrs) + rest =~= tlvs(front) + tail);
        assert(front + (seq![last] + decode_all(rest)) =~= attrs + decode_all(rest));
    }
}

/// One attribute: a type and a payload.
#[derive(Debug, Clone)]
pub struct RouteAttr {
    pub rta_type: u16,
    pub payload: Vec<u8>,
}

impl View for RouteAttr {
    type V = (u16, Seq<u8>);

    open spec fn view(&self) -> (u16, Seq<u8>) {
        (self.rta_type, self.payload@)
    }
}

/// Each attribute of `attrs` as (type, payload).
#[verifier::opaque]
pub open spec fn views(attrs: Seq<RouteAttr>) -> Seq<(u16, Seq<u8>)> {
    Seq::new(attrs.len(), |i: int| attrs[i]@)
}

impl RouteAttr {
    /// The attribute of type `rta_type` with a copy of `payload`.
    pub fn new(rta_type: u16, payload: &[u8]) -> (r: RouteAttr)
        ensures
            r@ == (rta_type, payload@),
    {
        RouteAttr { rta_type, payload: slice_to_vec(payload) }
    }
}

impl Attribute for RouteAttr {
    open spec fn declared_len(&self) -> nat {
        4 + self.payload@.len()
    }

    open spec fn wire(&self) -> Result<Seq<u8>, Error> {
        encode(self.rta_type, self.payload@)
    }

    fn len(&self) -> (n: usize) {
        self.payload.len() + RTA_HDRLEN
    }

    fn serialize(&self) -> (r: Result<Vec<u8>, Error>) {
        let n = self.payload.len();
        if n > RTA_MAX_PAYLOAD {
            return Err(Error::SerializationOverflow);
        }
        let declared: u16 = (n + RTA_HDRLEN) as u16;
        let mut buf: Vec<u8> = Vec::new();
        put(&mut buf, u16_to_ne_bytes(declared).as_slice());
        put(&mut buf, u16_to_ne_bytes(self.rta_type).as_slice());
        put(&mut buf, self.payload.as_slice());
        let ghost unpadded = buf@;
        while buf.len() % 4 != 0
            invariant
                unpadded.len() == 4 + n,
                unpadded.len() <= buf@.len() <= align4(4 + n),
                buf@ == unpadded + zeros(buf@.len() - unpadded.len()),
            decreases align4(4 + n) - buf@.len(),
        {
            buf.push(0u8);
        }
        assert(buf@ =~= tlv(self.rta_type, self.payload@));
        Ok(buf)
    }
}

/// The attributes read from a region of bytes.
#[derive(Debug, Clone)]
pub struct RouteAttrs {
    pub attrs: Vec<RouteAttr>,
}

impl View for RouteAttrs {
    type V = Seq<(u16, Seq<u8>)>;

    open spec fn view(&self) -> Seq<(u16, Seq<u8>)> {
        views(self.attrs@)
    }
}

impl RouteAttrs {
    /// Reads every attribute of `buf`.
    pub fn from(buf: &[u8]) -> (r: RouteAttrs)
        ensures
            r@ == decode_all(buf@),
    {
        reveal(views);
        let n = buf.len();
        let mut attrs: Vec<RouteAttr> = Vec::new();
        let mut off: usize = 0;
        assert(buf@.subrange(0, n as int) =~= buf@);
        assert(views(attrs@) + decode_all(buf@) =~= decode_all(buf@));
        while n - off >= 4
            invariant
                n == buf@.len(),
                off <= n,
                views(attrs@) + decode_all(buf@.subrange(off as int, n as int)) == decode_all(
                    buf@,
                ),
            ensures
                views(attrs@) == decode_all(buf@),
            decreases n - off,
        {
            reveal(views);
            let ghost rest = buf@.subrange(off as int, n as int);
            let len = u16_from_ne_bytes([buf[off], buf[off + 1]]) as usize;
            let rta_type = u16_from_ne_bytes([buf[off + 2], buf[off + 3]]);
            if len < 4 || len > n - off {
                assert(decode_all(rest) =~= Seq::empty());
                break ;
            }
            let payload = slice_to_vec(slice_subrange(buf, off + 4, off + len));
            assert(payload@ =~= rest.subrange(4, len as int));
            let aligned = (len + 3) / 4 * 4;
            let ghost before = views(attrs@);
            attrs.push(RouteAttr { rta_type, payload });
            assert(views(attrs@) =~= before + seq![(rta_type, rest.subrange(4, len as int))]);
            if aligned > n - off {
                assert(rest.subrange(rest.len() as int, rest.len() as int) =~= buf@.subrange(
                    n as int,
                    n as int,
                ));
                off = n;
            } else {
                assert(rest.subrange(aligned as int, rest.len() as int) =~= buf@.subrange(
                    off + aligned,
                    n as int,
                ));
                off = off + aligned;
            }
        }
        RouteAttrs { attrs }
    }
}

/// The fixed header of a rule message: eight bytes and a 32-bit flags word.
#[derive(Debug, Clone, Copy, PartialEq, Eq, Structural)]
pub struct RouteMessage {
    pub family: u8,
    pub dst_len: u8,
    pub src_len: u8,
    pub tos: u8,
    pub table: u8,
    pub protocol: u8,
    pub scope: u8,
    pub route_type: u8,
    pub flags: u32,
}

impl RouteMessage {
    /// The header with every field zero.
    pub fn new() -> (r: RouteMessage)
        ensures
            r == (RouteMessage {
                family: 0,
                dst_len: 0,
                src_len: 0,
                tos: 0,
                table: 0,
                protocol: 0,
                scope: 0,
                route_type: 0,
                flags: 0,
            }),
    {
        RouteMessage {
            family: 0,
            dst_len: 0,
            src_len: 0,
            tos: 0,
            table: 0,
            protocol: 0,
            scope: 0,
            route_type: 0,
            flags: 0,
        }
    }

    /// The twelve bytes of the header: the one-byte fields in order, then the
    /// flags in host order.
    pub open spec fn bytes(&self) -> Seq<u8> {
        seq![
            self.family,
            self.dst_len,
            self.src_len,
            self.tos,
            self.table,
            self.protocol,
            self.scope,
            self.route_type,
        ] + u32_bytes(endianness(), self.flags)
    }
}

impl Attribute for RouteMessage {
    open spec fn declared_len(&self) -> nat {
        12
    }

    open spec fn wire(&self) -> Result<Seq<u8>, Error> {
        Ok(self.bytes())
    }

    fn len(&self) -> (n: usize) {
        ROUTE_MESSAGE_LEN
    }

    fn serialize(&self) -> (r: Result<Vec<u8>, Error>) {
        let mut buf: Vec<u8> = Vec::new();
        buf.push(self.family);
        buf.push(self.dst_len);
        buf.push(self.src_len);
        buf.push(self.tos);
        buf.push(self.table);
        buf.push(self.protocol);
        buf.push(self.scope);
        buf.push(self.route_type);
        put(&mut buf, u32_to_ne_bytes(self.flags).as_slice());
        assert(buf@ =~= self.bytes());
        Ok(buf)
    }
}

} // verus!
