use vstd::prelude::*;
use vstd::slice::slice_subrange;

use crate::addr::IpAddr;

verus! {

/// The big-endian 16-bit number held by the two bytes of `s` at `i` and `i + 1`.
pub open spec fn be16(s: Seq<u8>, i: int) -> int {
    s[i] * 256 + s[i + 1]
}

/// The same number as a `u16`.
pub open spec fn be16_word(s: Seq<u8>, i: int) -> u16 {
    be16(s, i) as u16
}

/// Reads the big-endian 16-bit number at `i` and `i + 1`.
pub(crate) fn read_be_u16(buf: &[u8], i: usize) -> (r: u16)
    requires
        i + 1 < buf@.len(),
    ensures
        r as int == be16(buf@, i as int),
        r == be16_word(buf@, i as int),
{
    let hi = buf[i];
    let lo = buf[i + 1];
    let r = ((hi as u16) << 8u16) | (lo as u16);
    assert(r == hi * 256 + lo) by (bit_vector)
        requires
            r == ((hi as u16) << 8u16) | (lo as u16),
    ;
    r
}

// ---------------------------------------------------------------- IPv4 model

/// The version field of an IPv4 header: the high nibble of byte 0.
pub open spec fn ip_version(s: Seq<u8>) -> int {
    s[0] as int / 16
}

/// The header-length field of an IPv4 header, in 32-bit words: the low nibble of byte 0.
pub open spec fn ip_hdr_len(s: Seq<u8>) -> int {
    s[0] as int % 16
}

/// The header length of an IPv4 header in bytes.
pub open spec fn ip_hdr_bytes(s: Seq<u8>) -> int {
    4 * ip_hdr_len(s)
}

/// What the parser reports as the type-of-service byte: byte 0 of the buffer.
pub open spec fn ip_tos(s: Seq<u8>) -> int {
    s[0] as int
}

/// The total-length field of an IPv4 header (bytes 2 and 3).
pub open spec fn ip_total_len(s: Seq<u8>) -> int {
    be16(s, 2)
}

/// The fragment identification field (bytes 4 and 5).
pub open spec fn ip_frag_id(s: Seq<u8>) -> int {
    be16(s, 4)
}

/// The 13-bit fragment offset: the low five bits of byte 6, then byte 7.
pub open spec fn ip_offset(s: Seq<u8>) -> int {
    (s[6] % 32) * 256 + s[7]
}

/// The header checksum field (bytes 10 and 11).
pub open spec fn ip_checksum(s: Seq<u8>) -> int {
    be16(s, 10)
}

/// Where the payload ends: at the total length, or at the end of the buffer
/// when the total length claims more than the buffer holds.
pub open spec fn ip_payload_end(s: Seq<u8>) -> int {
    if ip_total_len(s) > s.len() {
        s.len() as int
    } else {
        ip_total_len(s)
    }
}

/// The payload can be cut out: the header ends within the payload's bounds.
pub open spec fn ip_payload_defined(s: Seq<u8>) -> bool {
    &&& s.len() >= 4
    &&& ip_hdr_bytes(s) <= ip_payload_end(s)
}

/// The bytes after the header, up to the payload's end.
pub open spec fn ip_payload(s: Seq<u8>) -> Seq<u8> {
    s.subrange(ip_hdr_bytes(s), ip_payload_end(s))
}

/// A view of an IPv4 header (and what follows it) over a borrowed buffer.
pub struct Ip<'a> {
    buf: &'a [u8],
}

impl<'a> View for Ip<'a> {
    type V = Seq<u8>;

    closed spec fn view(&self) -> Seq<u8> {
        self.buf@
    }
}

impl<'a> Ip<'a> {
    /// Wraps `buf`; nothing is checked here, each accessor states what it needs.
    pub fn new(buf: &'a [u8]) -> (ip: Ip<'a>)
        ensures
            ip@ == buf@,
    {
        Ip { buf }
    }

    /// The version field: the high nibble of the first byte.
    pub fn version(&self) -> (v: u8)
        requires
            self@.len() >= 1,
        ensures
            v == ip_version(self@),
    {
        let b = self.buf[0];
        let v = b >> 4u8;
        assert(v == b / 16) by (bit_vector)
            requires
                v == b >> 4u8,
        ;
        v
    }

    /// The header length in 32-bit words: the low nibble of the first byte.
    pub fn hdr_len(&self) -> (n: u8)
        requires
            self@.len() >= 1,
        ensures
            n == ip_hdr_len(self@),
    {
        let b = self.buf[0];
        let n = b & 0x0Fu8;
        assert(n == b % 16) by (bit_vector)
            requires
                n == b & 0x0Fu8,
        ;
        n
    }

    /// The header length in bytes.
    pub fn hdr_bytes(&self) -> (n: u8)
        requires
            self@.len() >= 1,
        ensures
            n == ip_hdr_bytes(self@),
    {
        self.hdr_len() * 4
    }

    /// The first byte of the buffer, reported as the type of service.
    pub fn tos(&self) -> (t: u8)
        requires
            self@.len() >= 1,
        ensures
            t == ip_tos(self@),
    {
        self.buf[0]
    }

    /// The total length of the datagram, header included.
    pub fn total_len(&self) -> (n: u16)
        requires
            self@.len() >= 4,
        ensures
            n == ip_total_len(self@),
            n == self@[2] as int * 256 + self@[3] as int,
    {
        read_be_u16(self.buf, 2)
    }

    /// The fragment identification.
    pub fn frag_id(&self) -> (n: u16)
        requires
            self@.len() >= 6,
        ensures
            n == ip_frag_id(self@),
            n == self@[4] as int * 256 + self@[5] as int,
    {
        read_be_u16(self.buf, 4)
    }

    /// The fragment offset (13 bits).
    pub fn offset(&self) -> (n: u16)
        requires
            self@.len() >= 8,
        ensures
            n == ip_offset(self@),
    {
        let hi = self.buf[6];
        let lo = self.buf[7];
        let n = (((hi & 0x1Fu8) as u16) << 8u16) | (lo as u16);
        assert(n == (hi % 32) * 256 + lo) by (bit_vector)
            requires
                n == (((hi & 0x1Fu8) as u16) << 8u16) | (lo as u16),
        ;
        n
    }

    /// The time-to-live field (byte 8).
    pub fn ttl(&self) -> (t: u8)
        requires
            self@.len() >= 9,
        ensures
            t == self@[8],
    {
        self.buf[8]
    }

    /// The protocol field (byte 9).
    pub fn protocol(&self) -> (p: u8)
        requires
            self@.len() >= 10,
        ensures
            p == self@[9],
    {
        self.buf[9]
    }

    /// The header checksum.
    pub fn checksum(&self) -> (c: u16)
        requires
            self@.len() >= 12,
        ensures
            c == ip_checksum(self@),
            c == self@[10] as int * 256 + self@[11] as int,
    {
        read_be_u16(self.buf, 10)
    }

    /// The source address (bytes 12 to 15).
    pub fn source(&self) -> (a: IpAddr)
        requires
            self@.len() >= 16,
        ensures
            a == IpAddr::Ipv4Addr(self@[12], self@[13], self@[14], self@[15]),
    {
        IpAddr::Ipv4Addr(self.buf[12], self.buf[13], self.buf[14], self.buf[15])
    }

    /// The destination address (bytes 16 to 19).
    pub fn dest(&self) -> (a: IpAddr)
        requires
            self@.len() >= 20,
        ensures
            a == IpAddr::Ipv4Addr(self@[16], self@[17], self@[18], self@[19]),
    {
        IpAddr::Ipv4Addr(self.buf[16], self.buf[17], self.buf[18], self.buf[19])
    }

    /// The payload: from the end of the header to the total length, or to the
    /// end of the buffer when the total length is larger than the buffer.
    pub fn payload(&self) -> (p: &'a [u8])
        requires
            ip_payload_defined(self@),
        ensures
            p@ == ip_payload(self@),
    {
        let total = self.total_len() as usize;
        let start = self.hdr_bytes() as usize;
        if total > self.buf.len() {
            slice_subrange(self.buf, start, self.buf.len())
        } else {
            slice_subrange(self.buf, start, total)
        }
    }
}

/// Version and header length together make up the first byte, which the
/// parser also reports as the type of service.
pub proof fn lemma_ip_first_byte(s: Seq<u8>)
    requires
        s.len() >= 1,
    ensures
        ip_version(s) * 16 + ip_hdr_len(s) == ip_tos(s),
        0 <= ip_version(s) < 16,
        ip_hdr_bytes(s) <= 60,
{
}

/// The IPv4 fields, in terms of the header's bytes: version and header length
/// are the nibbles of byte 0, the 16-bit fields are big-endian, and the
/// payload runs from byte `4 * (s[0] % 16)` to the total length, cut at the
/// end of the buffer.
pub proof fn lemma_ip_fields(s: Seq<u8>)
    ensures
        s.len() >= 1 ==> ip_version(s) == s[0] as int / 16 && ip_hdr_len(s) == s[0] as int % 16
            && ip_hdr_bytes(s) == 4 * (s[0] as int % 16) && ip_tos(s) == s[0] as int,
        s.len() >= 4 ==> ip_total_len(s) == s[2] as int * 256 + s[3] as int,
        s.len() >= 6 ==> ip_frag_id(s) == s[4] as int * 256 + s[5] as int,
        s.len() >= 8 ==> ip_offset(s) == (s[6] as int % 32) * 256 + s[7] as int,
        s.len() >= 12 ==> ip_checksum(s) == s[10] as int * 256 + s[11] as int,
        ip_payload_defined(s) ==> ip_payload(s) == s.subrange(
            4 * (s[0] as int % 16),
            if s[2] as int * 256 + s[3] as int > s.len() {
                s.len() as int
            } else {
                s[2] as int * 256 + s[3] as int
            },
        ),
        ip_payload_defined(s) ==> ip_payload(s).len() <= s[2] as int * 256 + s[3] as int - 4 * (
        s[0] as int % 16),
{
}

/// The header followed by the payload gives back the buffer up to the payload's end.
pub proof fn lemma_ip_header_then_payload(s: Seq<u8>)
    requires
        ip_payload_defined(s),
    ensures
        s.subrange(0, ip_hdr_bytes(s)) + ip_payload(s) == s.subrange(0, ip_payload_end(s)),
        ip_payload(s).len() <= ip_total_len(s) - ip_hdr_bytes(s),
{
    assert(s.subrange(0, ip_hdr_bytes(s)) + ip_payload(s) =~= s.subrange(0, ip_payload_end(s)));
}

// ---------------------------------------------------------------- ICMP model

/// The checksum field of an ICMP header (bytes 2 and 3).
pub open spec fn icmp_checksum(s: Seq<u8>) -> int {
    be16(s, 2)
}

/// The four bytes after the ICMP type, code and checksum.
pub open spec fn icmp_data(s: Seq<u8>) -> Seq<u8> {
    s.subrange(4, 8)
}

/// What follows the eight-byte ICMP header.
pub open spec fn icmp_payload(s: Seq<u8>) -> Seq<u8> {
    s.skip(8)
}

/// A view of an ICMP message over a borrowed buffer.
pub struct Icmp<'a> {
    buf: &'a [u8],
}

impl<'a> View for Icmp<'a> {
    type V = Seq<u8>;

    closed spec fn view(&self) -> Seq<u8> {
        self.buf@
    }
}

impl<'a> Icmp<'a> {
    /// Wraps `buf`; nothing is checked here, each accessor states what it needs.
    pub fn new(buf: &'a [u8]) -> (icmp: Icmp<'a>)
        ensures
            icmp@ == buf@,
    {
        Icmp { buf }
    }

    /// The ICMP type (byte 0).
    pub fn icmp_type(&self) -> (t: u8)
        requires
            self@.len() >= 1,
        ensures
            t == self@[0],
    {
        self.buf[0]
    }

    /// The ICMP code (byte 1).
    pub fn code(&self) -> (c: u8)
        requires
            self@.len() >= 2,
        ensures
            c == self@[1],
    {
        self.buf[1]
    }

    /// The ICMP checksum.
    pub fn checksum(&self) -> (c: u16)
        requires
            self@.len() >= 4,
        ensures
            c == icmp_checksum(self@),
            c == self@[2] * 256 + self@[3],
    {
        read_be_u16(self.buf, 2)
    }

    /// Bytes 4 to 7: the rest of the ICMP header.
    pub fn data(&self) -> (d: &'a [u8])
        requires
            self@.len() >= 8,
        ensures
            d@ == icmp_data(self@),
    {
        slice_subrange(self.buf, 4, 8)
    }

    /// Everything after the eight-byte header.
    pub fn payload(&self) -> (p: &'a [u8])
        requires
            self@.len() >= 8,
        ensures
            p@ == icmp_payload(self@),
    {
        slice_subrange(self.buf, 8, self.buf.len())
    }
}

/// The ICMP fields, in terms of the message's bytes: the checksum is the
/// big-endian number of bytes 2 and 3, the data is bytes 4 to 7, and the
/// payload is everything from byte 8.
pub proof fn lemma_icmp_fields(s: Seq<u8>)
    ensures
        s.len() >= 4 ==> icmp_checksum(s) == s[2] * 256 + s[3],
        s.len() >= 8 ==> icmp_data(s) == seq![s[4], s[5], s[6], s[7]],
        s.len() >= 8 ==> icmp_payload(s).len() == s.len() - 8 && forall|i: int|
            0 <= i < s.len() - 8 ==> #[trigger] icmp_payload(s)[i] == s[i + 8],
{
    if s.len() >= 8 {
        assert(icmp_data(s) =~= seq![s[4], s[5], s[6], s[7]]);
    }
}

/// The data bytes followed by the payload are everything after the checksum.
pub proof fn lemma_icmp_data_then_payload(s: Seq<u8>)
    requires
        s.len() >= 8,
    ensures
        icmp_data(s) + icmp_payload(s) == s.skip(4),
{
    assert(icmp_data(s) + icmp_payload(s) =~= s.skip(4));
}

// ----------------------------------------------------------------- UDP model

/// The length field of a UDP header (bytes 4 and 5): header and data, in bytes.
pub open spec fn udp_length(s: Seq<u8>) -> int {
    be16(s, 4)
}

/// Where the payload ends: at the length field when the buffer is longer than
/// that, else at the end of the buffer.
pub open spec fn udp_payload_end(s: Seq<u8>) -> int {
    if s.len() > udp_length(s) {
        udp_length(s)
    } else {
        s.len() as int
    }
}

/// The payload can be cut out: the eight-byte header ends within its bounds.
pub open spec fn udp_payload_defined(s: Seq<u8>) -> bool {
    &&& s.len() >= 6
    &&& 8 <= udp_payload_end(s)
}

/// The bytes after the eight-byte header, up to the payload's end.
pub open spec fn udp_payload(s: Seq<u8>) -> Seq<u8> {
    s.subrange(8, udp_payload_end(s))
}

/// A view of a UDP datagram over a borrowed buffer.
pub struct Udp<'a> {
    buf: &'a [u8],
}

impl<'a> View for Udp<'a> {
    type V = Seq<u8>;

    closed spec fn view(&self) -> Seq<u8> {
        self.buf@
    }
}

impl<'a> Udp<'a> {
    /// Wraps `buf`; nothing is checked here, each accessor states what it needs.
    pub fn new(buf: &'a [u8]) -> (udp: Udp<'a>)
        ensures
            udp@ == buf@,
    {
        Udp { buf }
    }

    /// The source port.
    pub fn srcport(&self) -> (p: u16)
        requires
            self@.len() >= 2,
        ensures
            p == be16(self@, 0),
            p == self@[0] as int * 256 + self@[1] as int,
    {
        read_be_u16(self.buf, 0)
    }

    /// The destination port.
    pub fn dstport(&self) -> (p: u16)
        requires
            self@.len() >= 4,
        ensures
            p == be16(self@, 2),
            p == self@[2] as int * 256 + self@[3] as int,
    {
        read_be_u16(self.buf, 2)
    }

    /// The length of the packet, including header, in bytes.
    pub fn length(&self) -> (n: u16)
        requires
            self@.len() >= 6,
        ensures
            n == udp_length(self@),
            n == self@[4] as int * 256 + self@[5] as int,
    {
        read_be_u16(self.buf, 4)
    }

    /// The UDP checksum.
    pub fn checksum(&self) -> (c: u16)
        requires
            self@.len() >= 8,
        ensures
            c == be16(self@, 6),
            c == self@[6] as int * 256 + self@[7] as int,
    {
        read_be_u16(self.buf, 6)
    }

    /// The data after the header: up to the length field when the buffer is
    /// longer than that, else to the end of the buffer.
    pub fn payload(&self) -> (p: &'a [u8])
        requires
            udp_payload_defined(self@),
        ensures
            p@ == udp_payload(self@),
    {
        let len = self.length() as usize;
        if self.buf.len() > len {
            slice_subrange(self.buf, 8, len)
        } else {
            slice_subrange(self.buf, 8, self.buf.len())
        }
    }
}

/// The UDP fields, in terms of the datagram's bytes: the 16-bit fields are
/// big-endian, and the payload runs from byte 8 to the length field when the
/// buffer is longer than that, else to the end of the buffer.
pub proof fn lemma_udp_fields(s: Seq<u8>)
    ensures
        s.len() >= 6 ==> udp_length(s) == s[4] as int * 256 + s[5] as int,
        udp_payload_defined(s) ==> udp_payload(s) == s.subrange(
            8,
            if s.len() > s[4] as int * 256 + s[5] as int {
                s[4] as int * 256 + s[5] as int
            } else {
                s.len() as int
            },
        ),
        udp_payload_defined(s) && s.len() > s[4] as int * 256 + s[5] as int ==> udp_payload(s).len()
            == s[4] as int * 256 + s[5] as int - 8,
{
}

/// The header followed by the payload gives back the buffer up to the payload's end.
pub proof fn lemma_udp_header_then_payload(s: Seq<u8>)
    requires
        udp_payload_defined(s),
    ensures
        s.subrange(0, 8) + udp_payload(s) == s.subrange(0, udp_payload_end(s)),
        udp_payload(s).len() <= udp_length(s) - 8 || udp_payload_end(s) == s.len(),
{
    assert(s.subrange(0, 8) + udp_payload(s) =~= s.subrange(0, udp_payload_end(s)));
}

} // verus!
