use vstd::prelude::*;

use crate::addr::IpAddr;
use crate::parser::{be16_word, read_be_u16};

verus! {

/// Why a captured packet could not be summarised.
#[derive(Clone, Copy, Debug, PartialEq, Eq, Structural)]
pub enum ReportError {
    /// The buffer ended before a field that had to be read.
    UnexpectedEnd,
    /// The first header byte is not 0x45: not IPv4, or header options set.
    NotPlainIpv4(u8),
}

/// The fields of an IPv4 header that a summary shows.
#[derive(Clone, Copy, Debug, PartialEq, Eq, Structural)]
pub struct IpSummary {
    pub ttl: u8,
    pub protocol: u8,
    pub src: IpAddr,
    pub dst: IpAddr,
}

/// What an ICMP message is, by its type.
#[derive(Clone, Copy, Debug, PartialEq, Eq, Structural)]
pub enum IcmpKind {
    /// Type 1.
    PingReply,
    /// Type 3.
    DestinationUnreachable,
    /// Type 8.
    PingRequest,
    /// Type 11, with the summary of the header read after it.
    TtlExpired(IpSummary),
    /// Any other type.
    Unhandled(u8),
}

/// A captured IPv4 packet carrying ICMP, summarised.
#[derive(Clone, Copy, Debug, PartialEq, Eq, Structural)]
pub struct IcmpReport {
    pub outer: IpSummary,
    pub icmp_type: u8,
    pub code: u8,
    pub checksum: u16,
    pub kind: IcmpKind,
}

/// The summary of the header whose first byte stands at `start`. That byte
/// must be 0x45; the other fields are read at their places from the start
/// of the buffer, whatever `start` is.
pub open spec fn summary_at(s: Seq<u8>, start: int) -> Result<IpSummary, ReportError> {
    if start < 0 || start >= s.len() {
        Err(ReportError::UnexpectedEnd)
    } else if s[start] != 0x45 {
        Err(ReportError::NotPlainIpv4(s[start]))
    } else if s.len() < 20 {
        Err(ReportError::UnexpectedEnd)
    } else {
        Ok(
            IpSummary {
                ttl: s[8],
                protocol: s[9],
                src: IpAddr::Ipv4Addr(s[12], s[13], s[14], s[15]),
                dst: IpAddr::Ipv4Addr(s[16], s[17], s[18], s[19]),
            },
        )
    }
}

/// The kind of an ICMP message of type `t`, given how reading the header
/// quoted by a TTL-expired message turned out.
pub open spec fn kind_of(t: u8, quoted: Result<IpSummary, ReportError>) -> Result<
    IcmpKind,
    ReportError,
> {
    if t == 1 {
        Ok(IcmpKind::PingReply)
    } else if t == 3 {
        Ok(IcmpKind::DestinationUnreachable)
    } else if t == 8 {
        Ok(IcmpKind::PingRequest)
    } else if t == 11 {
        match quoted {
            Ok(q) => Ok(IcmpKind::TtlExpired(q)),
            Err(e) => Err(e),
        }
    } else {
        Ok(IcmpKind::Unhandled(t))
    }
}

/// The report on `s`: the outer header's summary, then the ICMP header at
/// byte 20 (type, code, checksum), then, for a TTL-expired message, the
/// summary of the header that starts at byte 28.
pub open spec fn report_of(s: Seq<u8>) -> Result<IcmpReport, ReportError> {
    match summary_at(s, 0) {
        Err(e) => Err(e),
        Ok(outer) => if s.len() < 24 {
            Err(ReportError::UnexpectedEnd)
        } else {
            match kind_of(s[20], summary_at(s, 28)) {
                Err(e) => Err(e),
                Ok(kind) => Ok(
                    IcmpReport {
                        outer,
                        icmp_type: s[20],
                        code: s[21],
                        checksum: be16_word(s, 22),
                        kind,
                    },
                ),
            }
        },
    }
}

/// The header quoted by a TTL-expired message is checked for its first byte
/// only: its summary repeats the outer header's ttl, protocol and addresses.
pub proof fn lemma_quoted_summary_repeats_outer(s: Seq<u8>)
    requires
        report_of(s) is Ok,
    ensures
        report_of(s)->Ok_0.outer == summary_at(s, 0)->Ok_0,
        summary_at(s, 0) is Ok,
        report_of(s)->Ok_0.kind matches IcmpKind::TtlExpired(q) ==> q == report_of(s)->Ok_0.outer,
{
}

/// A report is had exactly when the outer header starts with 0x45, the ICMP
/// header is complete, and a TTL-expired message quotes a header starting
/// with 0x45.
pub proof fn lemma_report_ok_iff(s: Seq<u8>)
    ensures
        report_of(s) is Ok <==> {
            &&& s.len() >= 24
            &&& s[0] == 0x45
            &&& s[20] == 11 ==> s.len() > 28 && s[28] == 0x45
        },
{
}

/// What a report says, in terms of the packet's bytes: the outer summary comes
/// from bytes 8, 9 and 12 to 19; the type, code and checksum from bytes 20 to
/// 23; and the kind is decided by the type byte alone: 1 is a ping reply, 3 a
/// destination unreachable, 8 a ping request, 11 a TTL expired, and any other
/// type is unhandled and carries that type.
pub proof fn lemma_report_fields(s: Seq<u8>)
    requires
        report_of(s) is Ok,
    ensures
        ({
            let r = report_of(s)->Ok_0;
            &&& r.outer.ttl == s[8]
            &&& r.outer.protocol == s[9]
            &&& r.outer.src == IpAddr::Ipv4Addr(s[12], s[13], s[14], s[15])
            &&& r.outer.dst == IpAddr::Ipv4Addr(s[16], s[17], s[18], s[19])
            &&& r.icmp_type == s[20]
            &&& r.code == s[21]
            &&& r.checksum == s[22] * 256 + s[23]
            &&& (r.kind == IcmpKind::PingReply <==> s[20] == 1)
            &&& (r.kind == IcmpKind::DestinationUnreachable <==> s[20] == 3)
            &&& (r.kind == IcmpKind::PingRequest <==> s[20] == 8)
            &&& (r.kind is TtlExpired <==> s[20] == 11)
            &&& (r.kind is Unhandled <==> (s[20] != 1 && s[20] != 3 && s[20] != 8 && s[20] != 11))
            &&& (r.kind is Unhandled ==> r.kind == IcmpKind::Unhandled(s[20]))
        }),
{
    assert(s[22] * 256 + s[23] < 65536);
}

impl IpSummary {
    /// Whether the header says an ICMP message follows (protocol 1).
    pub fn is_icmp(&self) -> (b: bool)
        ensures
            b == (self.protocol == 1),
    {
        self.protocol == 1
    }
}

/// Reads the summary of the header whose first byte stands at `start`.
pub fn read_ip_summary(buf: &[u8], start: usize) -> (r: Result<IpSummary, ReportError>)
    ensures
        r == summary_at(buf@, start as int),
{
    if start >= buf.len() {
        return Err(ReportError::UnexpectedEnd);
    }
    let first = buf[start];
    if first != 0x45 {
        return Err(ReportError::NotPlainIpv4(first));
    }
    if buf.len() < 20 {
        return Err(ReportError::UnexpectedEnd);
    }
    Ok(
        IpSummary {
            ttl: buf[8],
            protocol: buf[9],
            src: IpAddr::Ipv4Addr(buf[12], buf[13], buf[14], buf[15]),
            dst: IpAddr::Ipv4Addr(buf[16], buf[17], buf[18], buf[19]),
        },
    )
}

/// Reads a captured IPv4 packet carrying ICMP.
pub fn read_icmp_report(buf: &[u8]) -> (r: Result<IcmpReport, ReportError>)
    ensures
        r == report_of(buf@),
        r matches Ok(rep) ==> {
            &&& rep.icmp_type == buf@[20]
            &&& rep.code == buf@[21]
            &&& rep.checksum == buf@[22] * 256 + buf@[23]
            &&& (rep.kind == IcmpKind::PingReply <==> buf@[20] == 1)
            &&& (rep.kind == IcmpKind::DestinationUnreachable <==> buf@[20] == 3)
            &&& (rep.kind == IcmpKind::PingRequest <==> buf@[20] == 8)
            &&& (rep.kind is TtlExpired <==> buf@[20] == 11)
            &&& (rep.kind is Unhandled ==> rep.kind == IcmpKind::Unhandled(buf@[20]))
        },
{
    let outer = match read_ip_summary(buf, 0) {
        Ok(o) => o,
        Err(e) => return Err(e),
    };
    if buf.len() < 24 {
        return Err(ReportError::UnexpectedEnd);
    }
    let icmp_type = buf[20];
    let code = buf[21];
    let checksum = read_be_u16(buf, 22);
    let kind = if icmp_type == 1 {
        IcmpKind::PingReply
    } else if icmp_type == 3 {
        IcmpKind::DestinationUnreachable
    } else if icmp_type == 8 {
        IcmpKind::PingRequest
    } else if icmp_type == 11 {
        match read_ip_summary(buf, 28) {
            Ok(q) => IcmpKind::TtlExpired(q),
            Err(e) => return Err(e),
        }
    } else {
        IcmpKind::Unhandled(icmp_type)
    };
    let rep = IcmpReport { outer, icmp_type, code, checksum, kind };
    proof {
        lemma_report_fields(buf@);
    }
    Ok(rep)
}

} // verus!
