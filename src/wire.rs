//! Text forms of an announcement: the line sent to subscribers and the line
//! reported on the service's own output.

use vstd::prelude::*;
use vstd::string::{is_ascii, is_ascii_spec_bytes, StringSliceAdditionalSpecFns};
use crate::frame::GratuitousArpEvent;

verus! {

/// The ASCII digit for a value below ten.
pub open spec fn dec_digit(d: int) -> u8 {
    (d + 48) as u8
}

/// The lowercase ASCII hexadecimal digit for a value below sixteen.
pub open spec fn hex_digit(d: int) -> u8 {
    if d < 10 {
        (d + 48) as u8
    } else {
        (d + 87) as u8
    }
}

/// A byte in decimal, without leading zeros.
pub open spec fn dec_text(b: u8) -> Seq<u8> {
    if b < 10 {
        seq![dec_digit(b as int)]
    } else if b < 100 {
        seq![dec_digit(b as int / 10), dec_digit(b as int % 10)]
    } else {
        seq![dec_digit(b as int / 100), dec_digit((b as int / 10) % 10), dec_digit(b as int % 10)]
    }
}

/// A byte in lowercase hexadecimal, without leading zeros.
pub open spec fn hex_text(b: u8) -> Seq<u8> {
    if b < 16 {
        seq![hex_digit(b as int)]
    } else {
        seq![hex_digit(b as int / 16), hex_digit(b as int % 16)]
    }
}

/// An ASCII text as bytes.
pub open spec fn ascii(s: Seq<char>) -> Seq<u8> {
    Seq::new(s.len(), |i: int| s[i] as u8)
}

/// An IPv4 address in dotted decimal.
pub open spec fn ip_text(ip: Seq<u8>) -> Seq<u8> {
    let dot = ascii("."@);
    dec_text(ip[0]) + dot + dec_text(ip[1]) + dot + dec_text(ip[2]) + dot + dec_text(ip[3])
}

/// A hardware address as colon-separated hexadecimal bytes.
pub open spec fn mac_text(mac: Seq<u8>) -> Seq<u8> {
    let colon = ascii(":"@);
    hex_text(mac[0]) + colon + hex_text(mac[1]) + colon + hex_text(mac[2]) + colon + hex_text(
        mac[3],
    ) + colon + hex_text(mac[4]) + colon + hex_text(mac[5])
}

/// The record sent to subscribers: `{"ip": "<ip>", "mac": "<mac>"}` and a
/// newline.
pub open spec fn wire_line(e: GratuitousArpEvent) -> Seq<u8> {
    ascii("{\"ip\": \""@) + ip_text(e.sender_ip@) + ascii("\", \"mac\": \""@) + mac_text(
        e.sender_mac@,
    ) + ascii("\"}\n"@)
}

/// The line reported on the service's own output:
/// `Gratuitous ARP! IP: <ip>, MAC: <mac>`, without a newline.
pub open spec fn report_line(e: GratuitousArpEvent) -> Seq<u8> {
    ascii("Gratuitous ARP! IP: "@) + ip_text(e.sender_ip@) + ascii(", MAC: "@) + mac_text(
        e.sender_mac@,
    )
}

fn push_dec(out: &mut Vec<u8>, b: u8)
    ensures
        final(out)@ == old(out)@ + dec_text(b),
{
    let ghost start = out@;
    if b >= 100 {
        out.push(b / 100 + 48);
    }
    if b >= 10 {
        out.push((b / 10) % 10 + 48);
    }
    out.push(b % 10 + 48);
    assert(out@ =~= start + dec_text(b));
}

fn push_hex(out: &mut Vec<u8>, b: u8)
    ensures
        final(out)@ == old(out)@ + hex_text(b),
{
    let ghost start = out@;
    if b >= 16 {
        out.push(hex_char(b / 16));
    }
    out.push(hex_char(b % 16));
    assert(out@ =~= start + hex_text(b));
}

fn hex_char(d: u8) -> (r: u8)
    requires
        d < 16,
    ensures
        r == hex_digit(d as int),
{
    if d < 10 {
        d + 48
    } else {
        d + 87
    }
}

fn push_bytes(out: &mut Vec<u8>, text: &[u8])
    ensures
        final(out)@ == old(out)@ + text@,
{
    let ghost start = out@;
    let mut i: usize = 0;
    while i < text.len()
        invariant
            i <= text@.len(),
            out@ == start + text@.subrange(0, i as int),
        decreases text@.len() - i,
    {
        out.push(text[i]);
        i += 1;
        assert(out@ =~= start + text@.subrange(0, i as int));
    }
    assert(text@.subrange(0, i as int) =~= text@);
}

fn push_ip(out: &mut Vec<u8>, ip: &[u8; 4])
    ensures
        final(out)@ == old(out)@ + ip_text(ip@),
{
    let ghost start = out@;
    push_dec(out, ip[0]);
    proof {
        reveal_strlit(".");
    }
    push_ascii(out, ".");
    push_dec(out, ip[1]);
    proof {
        reveal_strlit(".");
    }
    push_ascii(out, ".");
    push_dec(out, ip[2]);
    proof {
        reveal_strlit(".");
    }
    push_ascii(out, ".");
    push_dec(out, ip[3]);
    assert(out@ =~= start + ip_text(ip@));
}

fn push_colon_hex(out: &mut Vec<u8>, b: u8)
    ensures
        final(out)@ == old(out)@ + ascii(":"@) + hex_text(b),
{
    proof {
        reveal_strlit(":");
    }
    push_ascii(out, ":");
    push_hex(out, b);
}

fn push_mac(out: &mut Vec<u8>, mac: &[u8; 6])
    ensures
        final(out)@ == old(out)@ + mac_text(mac@),
{
    let ghost start = out@;
    let ghost m = mac@;
    let ghost colon = ascii(":"@);
    push_hex(out, mac[0]);
    push_colon_hex(out, mac[1]);
    push_colon_hex(out, mac[2]);
    assert(out@ =~= start + (hex_text(m[0]) + colon + hex_text(m[1]) + colon + hex_text(m[2])));
    push_colon_hex(out, mac[3]);
    push_colon_hex(out, mac[4]);
    push_colon_hex(out, mac[5]);
    assert(out@ =~= start + mac_text(m));
}

fn push_ascii(out: &mut Vec<u8>, text: &str)
    requires
        is_ascii(text),
    ensures
        final(out)@ == old(out)@ + ascii(text@),
{
    proof {
        is_ascii_spec_bytes(text);
    }
    push_bytes(out, text.as_bytes());
    assert(ascii(text@) =~= text.spec_bytes());
}

/// The newline-terminated record that announces `e` to subscribers.
pub fn encode_event(e: &GratuitousArpEvent) -> (r: Vec<u8>)
    ensures
        r@ == wire_line(*e),
{
    let mut out: Vec<u8> = Vec::new();
    proof {
        reveal_strlit("{\"ip\": \"");
    }
    push_ascii(&mut out, "{\"ip\": \"");
    push_ip(&mut out, &e.sender_ip);
    proof {
        reveal_strlit("\", \"mac\": \"");
    }
    push_ascii(&mut out, "\", \"mac\": \"");
    push_mac(&mut out, &e.sender_mac);
    proof {
        reveal_strlit("\"}\n");
    }
    push_ascii(&mut out, "\"}\n");
    assert(out@ =~= wire_line(*e));
    out
}

/// The line that reports `e` on the service's own output.
pub fn describe_event(e: &GratuitousArpEvent) -> (r: Vec<u8>)
    ensures
        r@ == report_line(*e),
{
    let mut out: Vec<u8> = Vec::new();
    proof {
        reveal_strlit("Gratuitous ARP! IP: ");
    }
    push_ascii(&mut out, "Gratuitous ARP! IP: ");
    push_ip(&mut out, &e.sender_ip);
    proof {
        reveal_strlit(", MAC: ");
    }
    push_ascii(&mut out, ", MAC: ");
    push_mac(&mut out, &e.sender_mac);
    assert(out@ =~= report_line(*e));
    out
}

} // verus!
