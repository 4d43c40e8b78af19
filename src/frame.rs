//! Classification of captured link-layer frames.

use vstd::prelude::*;

verus! {

/// Length of an Ethernet header: two hardware addresses and the EtherType.
pub const ETH_HEADER_LEN: usize = 14;

/// Length of an Ethernet frame that carries an IPv4-over-Ethernet ARP payload.
pub const ARP_FRAME_LEN: usize = 42;

/// The EtherType of ARP.
pub const ETHERTYPE_ARP: u16 = 0x0806;

/// The 16-bit big-endian EtherType field at offsets 12 and 13.
pub open spec fn ethertype(f: Seq<u8>) -> int {
    f[12] as int * 256 + f[13] as int
}

/// The ARP sender hardware address.
pub open spec fn sender_mac(f: Seq<u8>) -> Seq<u8> {
    f.subrange(22, 28)
}

/// The ARP sender protocol address.
pub open spec fn sender_ip(f: Seq<u8>) -> Seq<u8> {
    f.subrange(28, 32)
}

/// The ARP target protocol address.
pub open spec fn target_ip(f: Seq<u8>) -> Seq<u8> {
    f.subrange(38, 42)
}

/// A frame long enough for an Ethernet header whose EtherType is ARP.
pub open spec fn is_arp(f: Seq<u8>) -> bool {
    f.len() >= ETH_HEADER_LEN && ethertype(f) == ETHERTYPE_ARP as int
}

/// An ARP frame long enough for its payload whose sender and target protocol
/// addresses agree.
pub open spec fn is_gratuitous_arp(f: Seq<u8>) -> bool {
    is_arp(f) && f.len() >= ARP_FRAME_LEN && sender_ip(f) == target_ip(f)
}

/// An announcement seen on the link: the address pair it binds.
#[derive(Clone, Copy, Debug, PartialEq, Eq)]
pub struct GratuitousArpEvent {
    pub sender_ip: [u8; 4],
    pub sender_mac: [u8; 6],
}

/// What a captured frame turned out to be.
#[derive(Clone, Copy, Debug, PartialEq, Eq)]
pub enum Verdict {
    /// A read of no bytes: the capture source is closed.
    Closed,
    /// Too short to hold an Ethernet header.
    TooShort,
    /// The EtherType is not ARP.
    NotArp,
    /// An ARP frame too short to hold its payload.
    ArpTooShort,
    /// An ordinary ARP request or reply.
    NotGratuitous,
    /// A gratuitous ARP announcement.
    Gratuitous(GratuitousArpEvent),
}

impl Verdict {
    /// The announcement the frame carried, if any.
    pub open spec fn spec_event(self) -> Option<GratuitousArpEvent> {
        match self {
            Verdict::Gratuitous(e) => Some(e),
            _ => None,
        }
    }

    /// The announcement the frame carried, if any.
    pub fn event(self) -> (r: Option<GratuitousArpEvent>)
        ensures
            r == self.spec_event(),
    {
        match self {
            Verdict::Gratuitous(e) => Some(e),
            _ => None,
        }
    }
}

/// Decides what a captured frame is, checking in turn that it is not empty,
/// that it holds an Ethernet header, that its EtherType is ARP, that it holds
/// the ARP payload and that the sender and target protocol addresses agree.
pub fn classify(frame: &[u8]) -> (r: Verdict)
    ensures
        frame@.len() == 0 <==> r is Closed,
        0 < frame@.len() < ETH_HEADER_LEN <==> r is TooShort,
        frame@.len() >= ETH_HEADER_LEN && ethertype(frame@) != ETHERTYPE_ARP as int
            <==> r is NotArp,
        is_arp(frame@) && frame@.len() < ARP_FRAME_LEN <==> r is ArpTooShort,
        is_arp(frame@) && frame@.len() >= ARP_FRAME_LEN && sender_ip(frame@) != target_ip(
            frame@,
        ) <==> r is NotGratuitous,
        is_gratuitous_arp(frame@) <==> r is Gratuitous,
        frame@.len() < ETH_HEADER_LEN ==> r.spec_event() is None,
        !is_arp(frame@) ==> r.spec_event() is None,
        r matches Verdict::Gratuitous(e) ==> e.sender_ip@ == sender_ip(frame@)
            && e.sender_mac@ == sender_mac(frame@),
{
    let n = frame.len();
    if n == 0 {
        return Verdict::Closed;
    }
    if n < ETH_HEADER_LEN {
        return Verdict::TooShort;
    }
    let kind: u16 = (frame[12] as u16) * 256 + (frame[13] as u16);
    if kind != ETHERTYPE_ARP {
        return Verdict::NotArp;
    }
    if n < ARP_FRAME_LEN {
        return Verdict::ArpTooShort;
    }
    let same = frame[28] == frame[38] && frame[29] == frame[39] && frame[30] == frame[40]
        && frame[31] == frame[41];
    proof {
        if same {
            assert(sender_ip(frame@) =~= target_ip(frame@));
        } else {
            assert(sender_ip(frame@) != target_ip(frame@)) by {
                let (s, t) = (sender_ip(frame@), target_ip(frame@));
                assert(s[0] == frame@[28] && s[1] == frame@[29] && s[2] == frame@[30] && s[3]
                    == frame@[31]);
                assert(t[0] == frame@[38] && t[1] == frame@[39] && t[2] == frame@[40] && t[3]
                    == frame@[41]);
            }
        }
    }
    if !same {
        return Verdict::NotGratuitous;
    }
    let e = GratuitousArpEvent {
        sender_ip: [frame[28], frame[29], frame[30], frame[31]],
        sender_mac: [frame[22], frame[23], frame[24], frame[25], frame[26], frame[27]],
    };
    assert(e.sender_ip@ =~= sender_ip(frame@));
    assert(e.sender_mac@ =~= sender_mac(frame@));
    Verdict::Gratuitous(e)
}

} // verus!
