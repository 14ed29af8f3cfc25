//! Requests for socket diagnostics and the records that answer them.

use crate::bytes::{
    bincode_u32, bincode_u64, put, u16_at, u16_bytes, u16_from_be_bytes, u16_to_be_bytes, u32_at,
    u32_bytes, u32_from_ne_bytes, u32_to_ne_bytes, u64_le_at,
};
use crate::consts::{
    INET_DIAG_BBRINFO, INET_DIAG_INFO, INET_DIAG_MEMINFO, IPPROTO_TCP, IPPROTO_UDP,
};
use crate::error::Error;
use crate::types::message::{
    decode_all, lemma_decode_encode, tlv, views, zeros, Attribute, RouteAttrs,
};
use vstd::endian::{endianness, Endian};
use vstd::prelude::*;
use vstd::slice::slice_subrange;

verus! {

/// Bytes of a `SockDiagReq` on the wire.
pub const SOCK_DIAG_REQ_LEN: usize = 56;

/// Bytes of a `SockDiag` on the wire.
pub const SOCK_DIAG_LEN: usize = 72;

/// Extensions asked of a TCP socket: protocol state and Vegas. An extension
/// has the bit whose number is its attribute type less one.
pub const TCP_EXTENSIONS: u8 = 0x06;

/// Extensions asked of a UDP socket: those of TCP, and socket memory.
pub const UDP_EXTENSIONS: u8 = 0x07;

/// State filter: every state.
pub const ALL_STATES: u32 = 0xfff;

/// An IP address.
#[derive(Debug, Clone, Copy, PartialEq, Eq)]
pub enum IpAddr {
    V4([u8; 4]),
    V6([u8; 16]),
}

/// The two ends of a connection, the interface, and the socket's cookie.
#[derive(Debug, Clone, Copy, PartialEq, Eq)]
pub struct SockDiagId {
    pub src_port: u16,
    pub dst_port: u16,
    pub src_ip: IpAddr,
    pub dst_ip: IpAddr,
    pub interface: u32,
    pub cookie: [u32; 2],
}

/// The sixteen-byte slot of an address: an IPv4 address in its last four
/// bytes behind twelve zero bytes, an IPv6 address as it is.
pub open spec fn slot(ip: IpAddr) -> Seq<u8> {
    match ip {
        IpAddr::V4(a) => zeros(12) + a@,
        IpAddr::V6(a) => a@,
    }
}

impl SockDiagId {
    /// Both addresses are IPv4, or both are IPv6.
    pub open spec fn one_family(&self) -> bool {
        (self.src_ip is V4 && self.dst_ip is V4) || (self.src_ip is V6 && self.dst_ip is V6)
    }

    /// The 48 bytes of the block: the ports in network order, the two address
    /// slots, then interface and cookie in host order.
    pub open spec fn bytes(&self) -> Seq<u8> {
        u16_bytes(Endian::Big, self.src_port) + u16_bytes(Endian::Big, self.dst_port) + slot(
            self.src_ip,
        ) + slot(self.dst_ip) + u32_bytes(endianness(), self.interface) + u32_bytes(
            endianness(),
            self.cookie[0],
        ) + u32_bytes(endianness(), self.cookie[1])
    }

    /// Ports, interface and cookie are zero, and both addresses are 0.0.0.0.
    pub open spec fn is_default(&self) -> bool {
        &&& self.src_port == 0
        &&& self.dst_port == 0
        &&& self.src_ip == IpAddr::V4([0u8, 0u8, 0u8, 0u8])
        &&& self.dst_ip == IpAddr::V4([0u8, 0u8, 0u8, 0u8])
        &&& self.interface == 0
        &&& self.cookie[0] == 0
        &&& self.cookie[1] == 0
    }
}

impl Default for SockDiagId {
    fn default() -> (r: SockDiagId)
        ensures
            r.is_default(),
    {
        SockDiagId {
            src_port: 0,
            dst_port: 0,
            src_ip: IpAddr::V4([0, 0, 0, 0]),
            dst_ip: IpAddr::V4([0, 0, 0, 0]),
            interface: 0,
            cookie: [0, 0],
        }
    }
}

/// A request for the sockets of one family and protocol.
#[derive(Debug, Clone, Copy, PartialEq, Eq)]
pub struct SockDiagReq {
    family: u8,
    protocol: u8,
    ext: u8,
    pad: u8,
    states: u32,
    id: SockDiagId,
}

impl SockDiagReq {
    pub closed spec fn family(&self) -> u8 {
        self.family
    }

    pub closed spec fn protocol(&self) -> u8 {
        self.protocol
    }

    /// The extensions asked for, one bit each.
    pub closed spec fn ext(&self) -> u8 {
        self.ext
    }

    pub closed spec fn pad(&self) -> u8 {
        self.pad
    }

    /// The states asked for, one bit each.
    pub closed spec fn states(&self) -> u32 {
        self.states
    }

    pub closed spec fn id(&self) -> SockDiagId {
        self.id
    }

    /// The 56 bytes of the request: family, protocol, extensions, padding,
    /// the states in host order, and the identifier block.
    pub open spec fn bytes(&self) -> Seq<u8> {
        seq![self.family(), self.protocol(), self.ext(), self.pad()] + u32_bytes(
            endianness(),
            self.states(),
        ) + self.id().bytes()
    }

    /// The request for every TCP socket of `family`, with protocol state and
    /// Vegas as extensions.
    pub fn request_tcp_info(family: u8) -> (r: SockDiagReq)
        ensures
            r.family() == family,
            r.protocol() == IPPROTO_TCP,
            r.ext() == TCP_EXTENSIONS,
            r.pad() == 0,
            r.states() == ALL_STATES,
            r.id().is_default(),
    {
        SockDiagReq {
            family,
            protocol: IPPROTO_TCP,
            ext: TCP_EXTENSIONS,
            pad: 0,
            states: ALL_STATES,
            id: SockDiagId::default(),
        }
    }

    /// The same request for the socket that `id` names.
    pub fn with_id(self, id: SockDiagId) -> (r: SockDiagReq)
        ensures
            r.family() == self.family(),
            r.protocol() == self.protocol(),
            r.ext() == self.ext(),
            r.pad() == self.pad(),
            r.states() == self.states(),
            r.id() == id,
    {
        SockDiagReq {
            family: self.family,
            protocol: self.protocol,
            ext: self.ext,
            pad: self.pad,
            states: self.states,
            id,
        }
    }

    /// The request for every UDP socket of `family`, with socket memory as
    /// one more extension.
    pub fn request_udp_info(family: u8) -> (r: SockDiagReq)
        ensures
            r.family() == family,
            r.protocol() == IPPROTO_UDP,
            r.ext() == UDP_EXTENSIONS,
            r.pad() == 0,
            r.states() == ALL_STATES,
            r.id().is_default(),
    {
        SockDiagReq {
            family,
            protocol: IPPROTO_UDP,
            ext: UDP_EXTENSIONS,
            pad: 0,
            states: ALL_STATES,
            id: SockDiagId::default(),
        }
    }
}

impl Default for SockDiagReq {
    /// The request with every field zero and the default identifier block.
    fn default() -> (r: SockDiagReq)
        ensures
            r.family() == 0,
            r.protocol() == 0,
            r.ext() == 0,
            r.pad() == 0,
            r.states() == 0,
            r.id().is_default(),
    {
        SockDiagReq { family: 0, protocol: 0, ext: 0, pad: 0, states: 0, id: SockDiagId::default() }
    }
}

/// The sixteen bytes of the slot of `ip`.
fn slot_of(ip: &IpAddr) -> (r: [u8; 16])
    ensures
        r@ == slot(*ip),
{
    match ip {
        IpAddr::V4(a) => {
            let r: [u8; 16] = [0, 0, 0, 0, 0, 0, 0, 0, 0, 0, 0, 0, a[0], a[1], a[2], a[3]];
            assert(r@ =~= slot(*ip));
            r
        },
        IpAddr::V6(a) => *a,
    }
}

impl Attribute for SockDiagReq {
    open spec fn declared_len(&self) -> nat {
        56
    }

    open spec fn wire(&self) -> Result<Seq<u8>, Error> {
        if self.id().one_family() {
            Ok(self.bytes())
        } else {
            Err(Error::UnsupportedFamily)
        }
    }

    fn len(&self) -> (n: usize) {
        SOCK_DIAG_REQ_LEN
    }

    fn serialize(&self) -> (r: Result<Vec<u8>, Error>) {
        let mut buf: Vec<u8> = Vec::with_capacity(SOCK_DIAG_REQ_LEN);
        buf.push(self.family);
        buf.push(self.protocol);
        buf.push(self.ext);
        buf.push(self.pad);
        put(&mut buf, u32_to_ne_bytes(self.states).as_slice());
        put(&mut buf, u16_to_be_bytes(self.id.src_port).as_slice());
        put(&mut buf, u16_to_be_bytes(self.id.dst_port).as_slice());
        let (src_octets, dst_octets) = match (&self.id.src_ip, &self.id.dst_ip) {
            (IpAddr::V4(_), IpAddr::V4(_)) => (slot_of(&self.id.src_ip), slot_of(&self.id.dst_ip)),
            (IpAddr::V6(_), IpAddr::V6(_)) => (slot_of(&self.id.src_ip), slot_of(&self.id.dst_ip)),
            _ => {
                return Err(Error::UnsupportedFamily);
            },
        };
        put(&mut buf, src_octets.as_slice());
        put(&mut buf, dst_octets.as_slice());
        put(&mut buf, u32_to_ne_bytes(self.id.interface).as_slice());
        put(&mut buf, u32_to_ne_bytes(self.id.cookie[0]).as_slice());
        put(&mut buf, u32_to_ne_bytes(self.id.cookie[1]).as_slice());
        assert(buf@ =~= self.bytes());
        Ok(buf)
    }
}

/// A cursor over a buffer: the bytes, and how many of them have been read.
pub struct ReadBuffer<'a> {
    pub buf: &'a [u8],
    pub pos: usize,
}

impl<'a> ReadBuffer<'a> {
    /// A cursor at the start of `buf`.
    pub fn new(buf: &'a [u8]) -> (r: ReadBuffer<'a>)
        ensures
            r.buf@ == buf@,
            r.pos == 0,
    {
        ReadBuffer { buf, pos: 0 }
    }

    /// The byte at the cursor, which moves on by one.
    pub fn read(&mut self) -> (c: u8)
        requires
            old(self).pos < old(self).buf@.len(),
        ensures
            c == old(self).buf@[old(self).pos as int],
            final(self).buf@ == old(self).buf@,
            final(self).pos == old(self).pos + 1,
    {
        let c = self.buf[self.pos];
        self.pos += 1;
        c
    }

    /// The `N` bytes at the cursor, which moves on by `N`.
    pub fn read_n<const N: usize>(&mut self) -> (r: [u8; N])
        requires
            old(self).pos + N <= old(self).buf@.len(),
        ensures
            r@ == old(self).buf@.subrange(old(self).pos as int, old(self).pos + N),
            final(self).buf@ == old(self).buf@,
            final(self).pos == old(self).pos + N,
    {
        let len = self.buf.len();
        let mut out: [u8; N] = [0u8; N];
        let mut i: usize = 0;
        while i < N
            invariant
                i <= N,
                len == self.buf@.len(),
                self.pos + N <= self.buf@.len(),
                self.pos == old(self).pos,
                self.buf@ == old(self).buf@,
                forall|j: int| 0 <= j < i ==> out@[j] == self.buf@[self.pos + j],
            decreases N - i,
        {
            out[i] = self.buf[self.pos + i];
            i += 1;
        }
        assert(out@ =~= self.buf@.subrange(self.pos as int, self.pos + N));
        self.pos += N;
        out
    }

    /// Moves the cursor on by `n` bytes.
    pub fn seek(&mut self, n: usize)
        requires
            old(self).pos + n <= usize::MAX,
        ensures
            final(self).buf@ == old(self).buf@,
            final(self).pos == old(self).pos + n,
    {
        self.pos += n;
    }
}

/// The fixed header of one answer: the socket, its state and its queues.
#[derive(Debug, Clone, Copy, PartialEq, Eq)]
pub struct SockDiag {
    pub family: u8,
    pub state: u8,
    pub timer: u8,
    pub retrans: u8,
    pub id: SockDiagId,
    pub expires: u32,
    pub rqueue: u32,
    pub wqueue: u32,
    pub uid: u32,
    pub inode: u32,
}

impl Default for SockDiag {
    fn default() -> (r: SockDiag)
        ensures
            r.is_default(),
    {
        SockDiag {
            family: 0,
            state: 0,
            timer: 0,
            retrans: 0,
            id: SockDiagId::default(),
            expires: 0,
            rqueue: 0,
            wqueue: 0,
            uid: 0,
            inode: 0,
        }
    }
}

/// The first four bytes of the address slot that starts at `s[i]`, read as
/// an IPv4 address. The other twelve bytes of the slot are not looked at.
pub open spec fn v4_at(s: Seq<u8>, i: int) -> IpAddr {
    IpAddr::V4([s[i], s[i + 1], s[i + 2], s[i + 3]])
}

impl SockDiag {
    /// Every field is zero, and the identifier block is the default one.
    pub open spec fn is_default(&self) -> bool {
        &&& self.family == 0
        &&& self.state == 0
        &&& self.timer == 0
        &&& self.retrans == 0
        &&& self.id.is_default()
        &&& self.expires == 0
        &&& self.rqueue == 0
        &&& self.wqueue == 0
        &&& self.uid == 0
        &&& self.inode == 0
    }

    /// The header that the first 72 bytes of `s` spell: four single bytes,
    /// the ports in network order, the two addresses, then seven 32-bit
    /// values in host order.
    pub open spec fn from_wire(s: Seq<u8>) -> SockDiag {
        SockDiag {
            family: s[0],
            state: s[1],
            timer: s[2],
            retrans: s[3],
            id: SockDiagId {
                src_port: u16_at(Endian::Big, s, 4),
                dst_port: u16_at(Endian::Big, s, 6),
                src_ip: v4_at(s, 8),
                dst_ip: v4_at(s, 24),
                interface: u32_at(endianness(), s, 40),
                cookie: [u32_at(endianness(), s, 44), u32_at(endianness(), s, 48)],
            },
            expires: u32_at(endianness(), s, 52),
            rqueue: u32_at(endianness(), s, 56),
            wqueue: u32_at(endianness(), s, 60),
            uid: u32_at(endianness(), s, 64),
            inode: u32_at(endianness(), s, 68),
        }
    }

    /// Reads the header from the front of `buf`; `ShortRead` where `buf` has
    /// fewer than 72 bytes.
    pub fn deserialize(buf: &[u8]) -> (r: Result<SockDiag, Error>)
        ensures
            buf@.len() < 72 ==> r == Err::<SockDiag, Error>(Error::ShortRead),
            buf@.len() >= 72 ==> r == Ok::<SockDiag, Error>(SockDiag::from_wire(buf@)),
    {
        if buf.len() < SOCK_DIAG_LEN {
            return Err(Error::ShortRead);
        }
        let mut rb = ReadBuffer::new(buf);
        let family = rb.read();
        let state = rb.read();
        let timer = rb.read();
        let retrans = rb.read();
        let src_port = u16_from_be_bytes(rb.read_n::<2>());
        let dst_port = u16_from_be_bytes(rb.read_n::<2>());
        let src_ip = read_v4(&mut rb);
        let dst_ip = read_v4(&mut rb);
        let interface = read_word(&mut rb);
        let cookie = [read_word(&mut rb), read_word(&mut rb)];
        let expires = read_word(&mut rb);
        let rqueue = read_word(&mut rb);
        let wqueue = read_word(&mut rb);
        let uid = read_word(&mut rb);
        let inode = read_word(&mut rb);
        let id = SockDiagId { src_port, dst_port, src_ip, dst_ip, interface, cookie };
        assert(id.cookie =~= SockDiag::from_wire(buf@).id.cookie);
        assert(src_ip == v4_at(buf@, 8)) by {
            assert(src_ip->V4_0 =~= v4_at(buf@, 8)->V4_0);
        }
        assert(dst_ip == v4_at(buf@, 24)) by {
            assert(dst_ip->V4_0 =~= v4_at(buf@, 24)->V4_0);
        }
        Ok(SockDiag { family, state, timer, retrans, id, expires, rqueue, wqueue, uid, inode })
    }
}

/// Reads an IPv4 address from the front of a sixteen-byte slot and steps
/// over the rest of the slot.
fn read_v4(rb: &mut ReadBuffer) -> (ip: IpAddr)
    requires
        old(rb).pos + 16 <= old(rb).buf@.len(),
    ensures
        ip is V4,
        ip->V4_0@ == old(rb).buf@.subrange(old(rb).pos as int, old(rb).pos + 4),
        final(rb).buf@ == old(rb).buf@,
        final(rb).pos == old(rb).pos + 16,
{
    let len = rb.buf.len();
    let a = rb.read();
    let b = rb.read();
    let c = rb.read();
    let d = rb.read();
    rb.seek(12);
    let ip = [a, b, c, d];
    assert(ip@ =~= old(rb).buf@.subrange(old(rb).pos as int, old(rb).pos + 4));
    IpAddr::V4(ip)
}

/// Reads a 32-bit value in host order.
fn read_word(rb: &mut ReadBuffer) -> (x: u32)
    requires
        old(rb).pos + 4 <= old(rb).buf@.len(),
    ensures
        x == u32_at(endianness(), old(rb).buf@, old(rb).pos as int),
        final(rb).buf@ == old(rb).buf@,
        final(rb).pos == old(rb).pos + 4,
{
    u32_from_ne_bytes(rb.read_n::<4>())
}

/// The byte at `off`; `ShortRead` where `buf` ends before it.
fn byte_at(buf: &[u8], off: usize) -> (r: Result<u8, Error>)
    ensures
        off < buf@.len() ==> r == Ok::<u8, Error>(buf@[off as int]),
        off >= buf@.len() ==> r == Err::<u8, Error>(Error::ShortRead),
{
    if off < buf.len() {
        Ok(buf[off])
    } else {
        Err(Error::ShortRead)
    }
}

/// The little-endian 32-bit value at `off`; `ShortRead` where `buf` ends
/// before its last byte.
fn word_at(buf: &[u8], off: usize) -> (r: Result<u32, Error>)
    ensures
        off + 4 <= buf@.len() ==> r == Ok::<u32, Error>(u32_at(Endian::Little, buf@, off as int)),
        off + 4 > buf@.len() ==> r == Err::<u32, Error>(Error::ShortRead),
{
    if off > buf.len() {
        return Err(Error::ShortRead);
    }
    match bincode_u32(slice_subrange(buf, off, buf.len())) {
        Ok(x) => Ok(x),
        Err(_) => Err(Error::ShortRead),
    }
}

/// The little-endian 64-bit value at `off`; `ShortRead` where `buf` ends
/// before its last byte.
fn long_at(buf: &[u8], off: usize) -> (r: Result<u64, Error>)
    ensures
        off + 8 <= buf@.len() ==> r == Ok::<u64, Error>(u64_le_at(buf@, off as int)),
        off + 8 > buf@.len() ==> r == Err::<u64, Error>(Error::ShortRead),
{
    if off > buf.len() {
        return Err(Error::ShortRead);
    }
    match bincode_u64(slice_subrange(buf, off, buf.len())) {
        Ok(x) => Ok(x),
        Err(_) => Err(Error::ShortRead),
    }
}

/// Bytes of a `TcpDiag` on the wire.
pub const TCP_DIAG_LEN: usize = 232;

/// The state of a TCP connection as the kernel reports it.
#[derive(Debug, Clone, Copy, PartialEq, Eq)]
pub struct TcpDiag {
    pub state: u8,
    pub ca_state: u8,
    pub retransmits: u8,
    pub probes: u8,
    pub backoff: u8,
    pub options: u8,
    pub scales: u8,
    pub rate_limit_and_fast_open: u8,
    pub rto: u32,
    pub ato: u32,
    pub snd_mss: u32,
    pub rcv_mss: u32,
    pub unacked: u32,
    pub sacked: u32,
    pub lost: u32,
    pub retrans: u32,
    pub fackets: u32,
    pub last_data_send: u32,
    pub last_ack_sent: u32,
    pub last_data_recv: u32,
    pub last_ack_recv: u32,
    pub pmtu: u32,
    pub rcv_ssthresh: u32,
    pub rtt: u32,
    pub rttval: u32,
    pub snd_ssthresh: u32,
    pub snd_cwnd: u32,
    pub advmss: u32,
    pub reordering: u32,
    pub rcv_rtt: u32,
    pub rcv_space: u32,
    pub total_retrans: u32,
    pub pacing_rate: u64,
    pub max_pacing_rate: u64,
    pub bytes_acked: u64,
    pub bytes_received: u64,
    pub segs_out: u32,
    pub segs_in: u32,
    pub notsent_bytes: u32,
    pub min_rtt: u32,
    pub data_segs_in: u32,
    pub data_segs_out: u32,
    pub delivery_rate: u64,
    pub busy_time: u64,
    pub rwnd_limited: u64,
    pub sndbuf_limited: u64,
    pub delivered: u32,
    pub delivered_ce: u32,
    pub bytes_sent: u64,
    pub bytes_retrans: u64,
    pub dsack_dups: u32,
    pub reord_seen: u32,
    pub rcv_ooopack: u32,
    pub snd_wnd: u32,
}

impl TcpDiag {
    /// The record with every field zero.
    pub open spec fn zero() -> TcpDiag {
        TcpDiag {
            state: 0,
            ca_state: 0,
            retransmits: 0,
            probes: 0,
            backoff: 0,
            options: 0,
            scales: 0,
            rate_limit_and_fast_open: 0,
            rto: 0,
            ato: 0,
            snd_mss: 0,
            rcv_mss: 0,
            unacked: 0,
            sacked: 0,
            lost: 0,
            retrans: 0,
            fackets: 0,
            last_data_send: 0,
            last_ack_sent: 0,
            last_data_recv: 0,
            last_ack_recv: 0,
            pmtu: 0,
            rcv_ssthresh: 0,
            rtt: 0,
            rttval: 0,
            snd_ssthresh: 0,
            snd_cwnd: 0,
            advmss: 0,
            reordering: 0,
            rcv_rtt: 0,
            rcv_space: 0,
            total_retrans: 0,
            pacing_rate: 0,
            max_pacing_rate: 0,
            bytes_acked: 0,
            bytes_received: 0,
            segs_out: 0,
            segs_in: 0,
            notsent_bytes: 0,
            min_rtt: 0,
            data_segs_in: 0,
            data_segs_out: 0,
            delivery_rate: 0,
            busy_time: 0,
            rwnd_limited: 0,
            sndbuf_limited: 0,
            delivered: 0,
            delivered_ce: 0,
            bytes_sent: 0,
            bytes_retrans: 0,
            dsack_dups: 0,
            reord_seen: 0,
            rcv_ooopack: 0,
            snd_wnd: 0,
        }
    }

    /// The record that the first 232 bytes of `s` spell: the fields in
    /// their order, without gaps, each little-endian.
    pub open spec fn from_wire(s: Seq<u8>) -> TcpDiag {
        TcpDiag {
            state: s[0],
            ca_state: s[1],
            retransmits: s[2],
            probes: s[3],
            backoff: s[4],
            options: s[5],
            scales: s[6],
            rate_limit_and_fast_open: s[7],
            rto: u32_at(Endian::Little, s, 8),
            ato: u32_at(Endian::Little, s, 12),
            snd_mss: u32_at(Endian::Little, s, 16),
            rcv_mss: u32_at(Endian::Little, s, 20),
            unacked: u32_at(Endian::Little, s, 24),
            sacked: u32_at(Endian::Little, s, 28),
            lost: u32_at(Endian::Little, s, 32),
            retrans: u32_at(Endian::Little, s, 36),
            fackets: u32_at(Endian::Little, s, 40),
            last_data_send: u32_at(Endian::Little, s, 44),
            last_ack_sent: u32_at(Endian::Little, s, 48),
            last_data_recv: u32_at(Endian::Little, s, 52),
            last_ack_recv: u32_at(Endian::Little, s, 56),
            pmtu: u32_at(Endian::Little, s, 60),
            rcv_ssthresh: u32_at(Endian::Little, s, 64),
            rtt: u32_at(Endian::Little, s, 68),
            rttval: u32_at(Endian::Little, s, 72),
            snd_ssthresh: u32_at(Endian::Little, s, 76),
            snd_cwnd: u32_at(Endian::Little, s, 80),
            advmss: u32_at(Endian::Little, s, 84),
            reordering: u32_at(Endian::Little, s, 88),
            rcv_rtt: u32_at(Endian::Little, s, 92),
            rcv_space: u32_at(Endian::Little, s, 96),
            total_retrans: u32_at(Endian::Little, s, 100),
            pacing_rate: u64_le_at(s, 104),
            max_pacing_rate: u64_le_at(s, 112),
            bytes_acked: u64_le_at(s, 120),
            bytes_received: u64_le_at(s, 128),
            segs_out: u32_at(Endian::Little, s, 136),
            segs_in: u32_at(Endian::Little, s, 140),
            notsent_bytes: u32_at(Endian::Little, s, 144),
            min_rtt: u32_at(Endian::Little, s, 148),
            data_segs_in: u32_at(Endian::Little, s, 152),
            data_segs_out: u32_at(Endian::Little, s, 156),
            delivery_rate: u64_le_at(s, 160),
            busy_time: u64_le_at(s, 168),
            rwnd_limited: u64_le_at(s, 176),
            sndbuf_limited: u64_le_at(s, 184),
            delivered: u32_at(Endian::Little, s, 192),
            delivered_ce: u32_at(Endian::Little, s, 196),
            bytes_sent: u64_le_at(s, 200),
            bytes_retrans: u64_le_at(s, 208),
            dsack_dups: u32_at(Endian::Little, s, 216),
            reord_seen: u32_at(Endian::Little, s, 220),
            rcv_ooopack: u32_at(Endian::Little, s, 224),
            snd_wnd: u32_at(Endian::Little, s, 228),
        }
    }

    /// Reads the record from the front of `payload`; `ShortRead` where
    /// `payload` has fewer than 232 bytes.
    pub fn decode(payload: &[u8]) -> (r: Result<TcpDiag, Error>)
        ensures
            payload@.len() < 232 ==> r == Err::<TcpDiag, Error>(Error::ShortRead),
            payload@.len() >= 232 ==> r == Ok::<TcpDiag, Error>(TcpDiag::from_wire(payload@)),
    {
        Ok(
            TcpDiag {
                state: byte_at(payload, 0)?,
                ca_state: byte_at(payload, 1)?,
                retransmits: byte_at(payload, 2)?,
                probes: byte_at(payload, 3)?,
                backoff: byte_at(payload, 4)?,
                options: byte_at(payload, 5)?,
                scales: byte_at(payload, 6)?,
                rate_limit_and_fast_open: byte_at(payload, 7)?,
                rto: word_at(payload, 8)?,
                ato: word_at(payload, 12)?,
                snd_mss: word_at(payload, 16)?,
                rcv_mss: word_at(payload, 20)?,
                unacked: word_at(payload, 24)?,
                sacked: word_at(payload, 28)?,
                lost: word_at(payload, 32)?,
                retrans: word_at(payload, 36)?,
                fackets: word_at(payload, 40)?,
                last_data_send: word_at(payload, 44)?,
                last_ack_sent: word_at(payload, 48)?,
                last_data_recv: word_at(payload, 52)?,
                last_ack_recv: word_at(payload, 56)?,
                pmtu: word_at(payload, 60)?,
                rcv_ssthresh: word_at(payload, 64)?,
                rtt: word_at(payload, 68)?,
                rttval: word_at(payload, 72)?,
                snd_ssthresh: word_at(payload, 76)?,
                snd_cwnd: word_at(payload, 80)?,
                advmss: word_at(payload, 84)?,
                reordering: word_at(payload, 88)?,
                rcv_rtt: word_at(payload, 92)?,
                rcv_space: word_at(payload, 96)?,
                total_retrans: word_at(payload, 100)?,
                pacing_rate: long_at(payload, 104)?,
                max_pacing_rate: long_at(payload, 112)?,
                bytes_acked: long_at(payload, 120)?,
                bytes_received: long_at(payload, 128)?,
                segs_out: word_at(payload, 136)?,
                segs_in: word_at(payload, 140)?,
                notsent_bytes: word_at(payload, 144)?,
                min_rtt: word_at(payload, 148)?,
                data_segs_in: word_at(payload, 152)?,
                data_segs_out: word_at(payload, 156)?,
                delivery_rate: long_at(payload, 160)?,
                busy_time: long_at(payload, 168)?,
                rwnd_limited: long_at(payload, 176)?,
                sndbuf_limited: long_at(payload, 184)?,
                delivered: word_at(payload, 192)?,
                delivered_ce: word_at(payload, 196)?,
                bytes_sent: long_at(payload, 200)?,
                bytes_retrans: long_at(payload, 208)?,
                dsack_dups: word_at(payload, 216)?,
                reord_seen: word_at(payload, 220)?,
                rcv_ooopack: word_at(payload, 224)?,
                snd_wnd: word_at(payload, 228)?,
            },
        )
    }
}

impl Default for TcpDiag {
    fn default() -> (r: TcpDiag)
        ensures
            r == TcpDiag::zero(),
    {
        TcpDiag {
            state: 0,
            ca_state: 0,
            retransmits: 0,
            probes: 0,
            backoff: 0,
            options: 0,
            scales: 0,
            rate_limit_and_fast_open: 0,
            rto: 0,
            ato: 0,
            snd_mss: 0,
            rcv_mss: 0,
            unacked: 0,
            sacked: 0,
            lost: 0,
            retrans: 0,
            fackets: 0,
            last_data_send: 0,
            last_ack_sent: 0,
            last_data_recv: 0,
            last_ack_recv: 0,
            pmtu: 0,
            rcv_ssthresh: 0,
            rtt: 0,
            rttval: 0,
            snd_ssthresh: 0,
            snd_cwnd: 0,
            advmss: 0,
            reordering: 0,
            rcv_rtt: 0,
            rcv_space: 0,
            total_retrans: 0,
            pacing_rate: 0,
            max_pacing_rate: 0,
            bytes_acked: 0,
            bytes_received: 0,
            segs_out: 0,
            segs_in: 0,
            notsent_bytes: 0,
            min_rtt: 0,
            data_segs_in: 0,
            data_segs_out: 0,
            delivery_rate: 0,
            busy_time: 0,
            rwnd_limited: 0,
            sndbuf_limited: 0,
            delivered: 0,
            delivered_ce: 0,
            bytes_sent: 0,
            bytes_retrans: 0,
            dsack_dups: 0,
            reord_seen: 0,
            rcv_ooopack: 0,
            snd_wnd: 0,
        }
    }
}
/// Bytes of a `TcpBbrDiag` on the wire.
pub const TCP_BBR_DIAG_LEN: usize = 20;

/// What BBR congestion control knows of a connection.
#[derive(Debug, Clone, Copy, PartialEq, Eq)]
pub struct TcpBbrDiag {
    pub bandwidth: u64,
    pub min_rtt: u32,
    pub pacing_gain: u32,
    pub cwnd_gain: u32,
}

impl TcpBbrDiag {
    /// The record with every field zero.
    pub open spec fn zero() -> TcpBbrDiag {
        TcpBbrDiag {
            bandwidth: 0,
            min_rtt: 0,
            pacing_gain: 0,
            cwnd_gain: 0,
        }
    }

    /// The record that the first 20 bytes of `s` spell: the fields in
    /// their order, without gaps, each little-endian.
    pub open spec fn from_wire(s: Seq<u8>) -> TcpBbrDiag {
        TcpBbrDiag {
            bandwidth: u64_le_at(s, 0),
            min_rtt: u32_at(Endian::Little, s, 8),
            pacing_gain: u32_at(Endian::Little, s, 12),
            cwnd_gain: u32_at(Endian::Little, s, 16),
        }
    }

    /// Reads the record from the front of `payload`; `ShortRead` where
    /// `payload` has fewer than 20 bytes.
    pub fn decode(payload: &[u8]) -> (r: Result<TcpBbrDiag, Error>)
        ensures
            payload@.len() < 20 ==> r == Err::<TcpBbrDiag, Error>(Error::ShortRead),
            payload@.len() >= 20 ==> r == Ok::<TcpBbrDiag, Error>(TcpBbrDiag::from_wire(payload@)),
    {
        Ok(
            TcpBbrDiag {
                bandwidth: long_at(payload, 0)?,
                min_rtt: word_at(payload, 8)?,
                pacing_gain: word_at(payload, 12)?,
                cwnd_gain: word_at(payload, 16)?,
            },
        )
    }
}

impl Default for TcpBbrDiag {
    fn default() -> (r: TcpBbrDiag)
        ensures
            r == TcpBbrDiag::zero(),
    {
        TcpBbrDiag {
            bandwidth: 0,
            min_rtt: 0,
            pacing_gain: 0,
            cwnd_gain: 0,
        }
    }
}
/// Bytes of a `Memory` on the wire.
pub const MEMORY_LEN: usize = 16;

/// The memory that a socket holds.
#[derive(Debug, Clone, Copy, PartialEq, Eq)]
pub struct Memory {
    pub rmem: u32,
    pub wmem: u32,
    pub fmem: u32,
    pub tmem: u32,
}

impl Memory {
    /// The record with every field zero.
    pub open spec fn zero() -> Memory {
        Memory {
            rmem: 0,
            wmem: 0,
            fmem: 0,
            tmem: 0,
        }
    }

    /// The record that the first 16 bytes of `s` spell: the fields in
    /// their order, without gaps, each little-endian.
    pub open spec fn from_wire(s: Seq<u8>) -> Memory {
        Memory {
            rmem: u32_at(Endian::Little, s, 0),
            wmem: u32_at(Endian::Little, s, 4),
            fmem: u32_at(Endian::Little, s, 8),
            tmem: u32_at(Endian::Little, s, 12),
        }
    }

    /// Reads the record from the front of `payload`; `ShortRead` where
    /// `payload` has fewer than 16 bytes.
    pub fn decode(payload: &[u8]) -> (r: Result<Memory, Error>)
        ensures
            payload@.len() < 16 ==> r == Err::<Memory, Error>(Error::ShortRead),
            payload@.len() >= 16 ==> r == Ok::<Memory, Error>(Memory::from_wire(payload@)),
    {
        Ok(
            Memory {
                rmem: word_at(payload, 0)?,
                wmem: word_at(payload, 4)?,
                fmem: word_at(payload, 8)?,
                tmem: word_at(payload, 12)?,
            },
        )
    }
}

impl Default for Memory {
    fn default() -> (r: Memory)
        ensures
            r == Memory::zero(),
    {
        Memory {
            rmem: 0,
            wmem: 0,
            fmem: 0,
            tmem: 0,
        }
    }
}
/// The payload of the last attribute of type `kind`, if there is one.
pub open spec fn last_of(attrs: Seq<(u16, Seq<u8>)>, kind: u16) -> Option<Seq<u8>>
    decreases attrs.len(),
{
    if attrs.len() == 0 {
        None
    } else if attrs.last().0 == kind {
        Some(attrs.last().1)
    } else {
        last_of(attrs.drop_last(), kind)
    }
}

/// Some attribute of type `kind` has a payload of fewer than `len` bytes.
pub open spec fn short_of(attrs: Seq<(u16, Seq<u8>)>, kind: u16, len: int) -> bool {
    exists|i: int| 0 <= i < attrs.len() && (#[trigger] attrs[i]).0 == kind && attrs[i].1.len() < len
}

/// The attributes behind the fixed header of an answer.
pub open spec fn extensions(buf: Seq<u8>) -> Seq<(u16, Seq<u8>)> {
    decode_all(buf.subrange(72, buf.len() as int))
}

/// One answer to a request for TCP sockets.
#[derive(Debug, Clone, Copy, PartialEq, Eq)]
pub struct InetDiagTcpResp {
    pub msg: SockDiag,
    pub tcp_diag: TcpDiag,
    pub tcp_bbr: TcpBbrDiag,
}

impl InetDiagTcpResp {
    /// What `buf` holds as an answer: the fixed header, the protocol state
    /// from the last attribute of that type, and the BBR record from the last
    /// attribute of that type; a record without an attribute is zero, and
    /// attributes of other types are passed over. `ShortRead` where `buf` is
    /// shorter than the header, or an attribute of one of the two types is
    /// shorter than its record.
    pub open spec fn from_wire(buf: Seq<u8>) -> Result<InetDiagTcpResp, Error> {
        let attrs = extensions(buf);
        if buf.len() < 72 || short_of(attrs, INET_DIAG_INFO, 232) || short_of(attrs, INET_DIAG_BBRINFO, 20) {
            Err(Error::ShortRead)
        } else {
            Ok(
                InetDiagTcpResp {
                    msg: SockDiag::from_wire(buf),
                    tcp_diag: match last_of(attrs, INET_DIAG_INFO) {
                        Some(payload) => TcpDiag::from_wire(payload),
                        None => TcpDiag::zero(),
                    },
                    tcp_bbr: match last_of(attrs, INET_DIAG_BBRINFO) {
                        Some(payload) => TcpBbrDiag::from_wire(payload),
                        None => TcpBbrDiag::zero(),
                    },
                },
            )
        }
    }

    /// Reads one answer.
    pub fn parse(buf: &[u8]) -> (r: Result<InetDiagTcpResp, Error>)
        ensures
            r == InetDiagTcpResp::from_wire(buf@),
    {
        let msg = match SockDiag::deserialize(buf) {
            Ok(msg) => msg,
            Err(e) => {
                return Err(e);
            },
        };
        let found = RouteAttrs::from(slice_subrange(buf, SOCK_DIAG_LEN, buf.len()));
        let ghost all = extensions(buf@);
        let mut resp = InetDiagTcpResp {
            msg,
            tcp_diag: TcpDiag::default(),
            tcp_bbr: TcpBbrDiag::default(),
        };
        let mut i: usize = 0;
        while i < found.attrs.len()
            invariant
                i <= found.attrs.len(),
                buf@.len() >= 72,
                all == extensions(buf@),
                all == views(found.attrs@),
                !short_of(all.take(i as int), INET_DIAG_INFO, 232),
                !short_of(all.take(i as int), INET_DIAG_BBRINFO, 20),
                resp == (InetDiagTcpResp {
                    msg: SockDiag::from_wire(buf@),
                    tcp_diag: match last_of(all.take(i as int), INET_DIAG_INFO) {
                        Some(payload) => TcpDiag::from_wire(payload),
                        None => TcpDiag::zero(),
                    },
                    tcp_bbr: match last_of(all.take(i as int), INET_DIAG_BBRINFO) {
                        Some(payload) => TcpBbrDiag::from_wire(payload),
                        None => TcpBbrDiag::zero(),
                    },
                }),
            decreases found.attrs.len() - i,
        {
            let attr = &found.attrs[i];
            proof {
                reveal(views);
                assert(all[i as int] == attr@);
                assert(all.take(i + 1).drop_last() =~= all.take(i as int));
                assert(all.take(i + 1).last() == all[i as int]);
            }
            if attr.rta_type == INET_DIAG_INFO {
                match TcpDiag::decode(attr.payload.as_slice()) {
                    Ok(record) => resp.tcp_diag = record,
                    Err(e) => {
                        return Err(e);
                    },
                }
            } else if attr.rta_type == INET_DIAG_BBRINFO {
                match TcpBbrDiag::decode(attr.payload.as_slice()) {
                    Ok(record) => resp.tcp_bbr = record,
                    Err(e) => {
                        return Err(e);
                    },
                }
            }
            proof {
                lemma_short_of_step(all.take(i + 1), INET_DIAG_INFO, 232);
                lemma_short_of_step(all.take(i + 1), INET_DIAG_BBRINFO, 20);
            }
            i += 1;
        }
        proof {
            reveal(views);
            assert(all.take(i as int) =~= all);
        }
        Ok(resp)
    }
}

impl Default for InetDiagTcpResp {
    fn default() -> (r: InetDiagTcpResp)
        ensures
            r.msg.is_default(),
            r.tcp_diag == TcpDiag::zero(),
            r.tcp_bbr == TcpBbrDiag::zero(),
    {
        InetDiagTcpResp {
            msg: SockDiag::default(),
            tcp_diag: TcpDiag::default(),
            tcp_bbr: TcpBbrDiag::default(),
        }
    }
}

/// One answer to a request for UDP sockets.
#[derive(Debug, Clone, Copy, PartialEq, Eq)]
pub struct InetDiagUdpResp {
    pub msg: SockDiag,
    pub memory: Memory,
}

impl InetDiagUdpResp {
    /// What `buf` holds as an answer: the fixed header, and the socket memory
    /// from the last attribute of that type; without such an attribute the
    /// record is zero, and attributes of other types are passed over.
    /// `ShortRead` where `buf` is shorter than the header, or an attribute of
    /// that type is shorter than the record.
    pub open spec fn from_wire(buf: Seq<u8>) -> Result<InetDiagUdpResp, Error> {
        let attrs = extensions(buf);
        if buf.len() < 72 || short_of(attrs, INET_DIAG_MEMINFO, 16) {
            Err(Error::ShortRead)
        } else {
            Ok(
                InetDiagUdpResp {
                    msg: SockDiag::from_wire(buf),
                    memory: match last_of(attrs, INET_DIAG_MEMINFO) {
                        Some(payload) => Memory::from_wire(payload),
                        None => Memory::zero(),
                    },
                },
            )
        }
    }

    /// Reads one answer.
    pub fn parse(buf: &[u8]) -> (r: Result<InetDiagUdpResp, Error>)
        ensures
            r == InetDiagUdpResp::from_wire(buf@),
    {
        let msg = match SockDiag::deserialize(buf) {
            Ok(msg) => msg,
            Err(e) => {
                return Err(e);
            },
        };
        let found = RouteAttrs::from(slice_subrange(buf, SOCK_DIAG_LEN, buf.len()));
        let ghost all = extensions(buf@);
        let mut resp = InetDiagUdpResp { msg, memory: Memory::default() };
        let mut i: usize = 0;
        while i < found.attrs.len()
            invariant
                i <= found.attrs.len(),
                buf@.len() >= 72,
                all == extensions(buf@),
                all == views(found.attrs@),
                !short_of(all.take(i as int), INET_DIAG_MEMINFO, 16),
                resp == (InetDiagUdpResp {
                    msg: SockDiag::from_wire(buf@),
                    memory: match last_of(all.take(i as int), INET_DIAG_MEMINFO) {
                        Some(payload) => Memory::from_wire(payload),
                        None => Memory::zero(),
                    },
                }),
            decreases found.attrs.len() - i,
        {
            let attr = &found.attrs[i];
            proof {
                reveal(views);
                assert(all[i as int] == attr@);
                assert(all.take(i + 1).drop_last() =~= all.take(i as int));
                assert(all.take(i + 1).last() == all[i as int]);
            }
            if attr.rta_type == INET_DIAG_MEMINFO {
                match Memory::decode(attr.payload.as_slice()) {
                    Ok(record) => resp.memory = record,
                    Err(e) => {
                        return Err(e);
                    },
                }
            }
            proof {
                lemma_short_of_step(all.take(i + 1), INET_DIAG_MEMINFO, 16);
            }
            i += 1;
        }
        proof {
            reveal(views);
            assert(all.take(i as int) =~= all);
        }
        Ok(resp)
    }
}

impl Default for InetDiagUdpResp {
    fn default() -> (r: InetDiagUdpResp)
        ensures
            r.msg.is_default(),
            r.memory == Memory::zero(),
    {
        InetDiagUdpResp { msg: SockDiag::default(), memory: Memory::default() }
    }
}

/// A list has a short attribute exactly if its last attribute is one, or the
/// list in front of it has one.
proof fn lemma_short_of_step(attrs: Seq<(u16, Seq<u8>)>, kind: u16, len: int)
    requires
        attrs.len() > 0,
    ensures
        short_of(attrs, kind, len) <==> short_of(attrs.drop_last(), kind, len) || (attrs.last().0
            == kind && attrs.last().1.len() < len),
{
    let front = attrs.drop_last();
    if short_of(attrs, kind, len) {
        let i = choose|i: int|
            0 <= i < attrs.len() && (#[trigger] attrs[i]).0 == kind && attrs[i].1.len() < len;
        if i < front.len() {
            assert(front[i] == attrs[i]);
        }
    }
    if short_of(front, kind, len) {
        let i = choose|i: int|
            0 <= i < front.len() && (#[trigger] front[i]).0 == kind && front[i].1.len() < len;
        assert(attrs[i] == front[i]);
    }
    if attrs.last().0 == kind && attrs.last().1.len() < len {
        assert(attrs[attrs.len() - 1] == attrs.last());
    }
}

/// An answer made of a fixed header and one attribute with the protocol
/// state is read back as that header and the record that the attribute
/// holds, field for field; the BBR record stays zero.
pub proof fn lemma_tcp_answer(head: Seq<u8>, payload: Seq<u8>)
    requires
        head.len() == 72,
        232 <= payload.len() <= 0xffff - 4,
    ensures
        InetDiagTcpResp::from_wire(head + tlv(INET_DIAG_INFO, payload)) == Ok::<
            InetDiagTcpResp,
            Error,
        >(
            InetDiagTcpResp {
                msg: SockDiag::from_wire(head),
                tcp_diag: TcpDiag::from_wire(payload),
                tcp_bbr: TcpBbrDiag::zero(),
            },
        ),
{
    let buf = head + tlv(INET_DIAG_INFO, payload);
    let attrs = extensions(buf);
    lemma_decode_encode(INET_DIAG_INFO, payload);
    assert(buf.subrange(72, buf.len() as int) =~= tlv(INET_DIAG_INFO, payload));
    assert(attrs =~= seq![(INET_DIAG_INFO, payload)]);
    assert(last_of(attrs.drop_last(), INET_DIAG_BBRINFO) is None);
    assert(buf.subrange(0, 72) =~= head);
    lemma_same_header(head, buf);
}

/// An answer made of a fixed header and one attribute with the socket memory
/// is read back as that header and the record that the attribute holds.
pub proof fn lemma_udp_answer(head: Seq<u8>, payload: Seq<u8>)
    requires
        head.len() == 72,
        16 <= payload.len() <= 0xffff - 4,
    ensures
        InetDiagUdpResp::from_wire(head + tlv(INET_DIAG_MEMINFO, payload)) == Ok::<
            InetDiagUdpResp,
            Error,
        >(InetDiagUdpResp { msg: SockDiag::from_wire(head), memory: Memory::from_wire(payload) }),
{
    let buf = head + tlv(INET_DIAG_MEMINFO, payload);
    let attrs = extensions(buf);
    lemma_decode_encode(INET_DIAG_MEMINFO, payload);
    assert(buf.subrange(72, buf.len() as int) =~= tlv(INET_DIAG_MEMINFO, payload));
    assert(attrs =~= seq![(INET_DIAG_MEMINFO, payload)]);
    assert(buf.subrange(0, 72) =~= head);
    lemma_same_header(head, buf);
}

/// The header depends on the first 72 bytes only.
proof fn lemma_same_header(head: Seq<u8>, buf: Seq<u8>)
    requires
        head.len() == 72,
        buf.len() >= 72,
        buf.subrange(0, 72) == head,
    ensures
        SockDiag::from_wire(buf) == SockDiag::from_wire(head),
{
    assert forall|i: int| 0 <= i < 72 implies buf[i] == head[i] by {
        assert(buf.subrange(0, 72)[i] == buf[i]);
    }
    let a = SockDiag::from_wire(buf);
    let b = SockDiag::from_wire(head);
    assert(a.id.cookie =~= b.id.cookie);
    assert(a.id.src_ip->V4_0 =~= b.id.src_ip->V4_0);
    assert(a.id.dst_ip->V4_0 =~= b.id.dst_ip->V4_0);
}

} // verus!
