use garpd::dispatch::{Broadcast, Dispatcher};
use garpd::frame::{classify, GratuitousArpEvent, Verdict};
use garpd::wire::{describe_event, encode_event};

/// A 42-byte ARP frame with the given sender hardware address and sender and
/// target protocol addresses.
fn arp_frame(mac: [u8; 6], sender: [u8; 4], target: [u8; 4]) -> Vec<u8> {
    let mut f = vec![0xffu8; 6];
    f.extend_from_slice(&mac);
    f.extend_from_slice(&[0x08, 0x06]);
    f.extend_from_slice(&[0x00, 0x01, 0x08, 0x00, 6, 4, 0x00, 0x01]);
    f.extend_from_slice(&mac);
    f.extend_from_slice(&sender);
    f.extend_from_slice(&[0u8; 6]);
    f.extend_from_slice(&target);
    assert_eq!(f.len(), 42);
    f
}

fn sample_event() -> GratuitousArpEvent {
    GratuitousArpEvent { sender_ip: [192, 168, 1, 1], sender_mac: [0, 17, 34, 51, 68, 85] }
}

#[test]
fn it_works() {
    let frame = arp_frame([0x00, 0x11, 0x22, 0x33, 0x44, 0x55], [192, 168, 1, 1], [192, 168, 1, 1]);
    let event = classify(&frame).event().expect("a gratuitous ARP frame");
    let mut d = Dispatcher::new();
    let id = d.connect().unwrap();
    let b = d.broadcast(&event);
    assert_eq!(b.targets, vec![id]);
    assert_eq!(String::from_utf8(b.line).unwrap(), "{\"ip\": \"192.168.1.1\", \"mac\": \"0:11:22:33:44:55\"}\n");
}

#[test]
fn empty_read_means_closed() {
    assert_eq!(classify(&[]), Verdict::Closed);
    assert_eq!(classify(&[]).event(), None);
}

#[test]
fn short_frame_is_rejected_before_ethertype() {
    let mut f = vec![0u8; 13];
    f[12] = 0x08;
    assert_eq!(classify(&f), Verdict::TooShort);
    assert_eq!(classify(&[0x08]), Verdict::TooShort);
}

#[test]
fn other_ethertype_is_not_arp() {
    let mut f = arp_frame([1, 2, 3, 4, 5, 6], [10, 0, 0, 1], [10, 0, 0, 1]);
    f[12] = 0x08;
    f[13] = 0x00;
    assert_eq!(classify(&f), Verdict::NotArp);
    let mut g = vec![0u8; 14];
    g[12] = 0x06;
    g[13] = 0x08;
    assert_eq!(classify(&g), Verdict::NotArp);
}

#[test]
fn short_arp_payload_is_rejected() {
    let f = arp_frame([1, 2, 3, 4, 5, 6], [10, 0, 0, 1], [10, 0, 0, 1]);
    assert_eq!(classify(&f[..41]), Verdict::ArpTooShort);
    assert_eq!(classify(&f[..14]), Verdict::ArpTooShort);
}

#[test]
fn ordinary_arp_is_not_gratuitous() {
    let f = arp_frame([1, 2, 3, 4, 5, 6], [10, 0, 0, 1], [10, 0, 0, 2]);
    assert_eq!(classify(&f), Verdict::NotGratuitous);
    assert_eq!(classify(&f).event(), None);
}

#[test]
fn gratuitous_arp_gives_its_addresses() {
    let f = arp_frame([0xde, 0xad, 0xbe, 0xef, 0x00, 0x01], [10, 1, 2, 3], [10, 1, 2, 3]);
    assert_eq!(
        classify(&f),
        Verdict::Gratuitous(GratuitousArpEvent {
            sender_ip: [10, 1, 2, 3],
            sender_mac: [0xde, 0xad, 0xbe, 0xef, 0x00, 0x01],
        })
    );
}

#[test]
fn padded_frame_is_classified_on_its_first_bytes() {
    let mut f = arp_frame([1, 2, 3, 4, 5, 6], [172, 16, 0, 9], [172, 16, 0, 9]);
    f.extend_from_slice(&[0xaa; 18]);
    assert_eq!(classify(&f).event().unwrap().sender_ip, [172, 16, 0, 9]);
}

#[test]
fn end_to_end_scenario() {
    let frame = arp_frame([0x00, 0x11, 0x22, 0x33, 0x44, 0x55], [192, 168, 1, 1], [192, 168, 1, 1]);
    let event = classify(&frame).event().unwrap();
    assert_eq!(event, sample_event());
    let line = encode_event(&event);
    assert_eq!(line, b"{\"ip\": \"192.168.1.1\", \"mac\": \"0:11:22:33:44:55\"}\n".to_vec());
}

#[test]
fn wire_line_drops_leading_zeros() {
    let e = GratuitousArpEvent { sender_ip: [0, 10, 100, 255], sender_mac: [0x0a, 0x00, 0xff, 0x10, 0x01, 0xab] };
    assert_eq!(
        String::from_utf8(encode_event(&e)).unwrap(),
        "{\"ip\": \"0.10.100.255\", \"mac\": \"a:0:ff:10:1:ab\"}\n"
    );
}

#[test]
fn report_line_is_human_readable() {
    assert_eq!(
        String::from_utf8(describe_event(&sample_event())).unwrap(),
        "Gratuitous ARP! IP: 192.168.1.1, MAC: 0:11:22:33:44:55"
    );
}

#[test]
fn connections_get_fresh_ids_in_order() {
    let mut d = Dispatcher::new();
    assert_eq!(d.subscribers(), Vec::<u64>::new());
    let a = d.connect().unwrap();
    let b = d.connect().unwrap();
    let c = d.connect().unwrap();
    assert!(a < b && b < c);
    assert_eq!(d.subscribers(), vec![a, b, c]);
}

#[test]
fn broadcast_reaches_each_subscriber_once() {
    let mut d = Dispatcher::new();
    let ids: Vec<u64> = (0..4).map(|_| d.connect().unwrap()).collect();
    let Broadcast { line, targets } = d.broadcast(&sample_event());
    assert_eq!(targets, ids);
    for id in &ids {
        assert_eq!(targets.iter().filter(|t| *t == id).count(), 1);
    }
    assert_eq!(line, encode_event(&sample_event()));
}

#[test]
fn broadcast_with_no_subscribers_has_no_targets() {
    let d = Dispatcher::new();
    assert!(d.broadcast(&sample_event()).targets.is_empty());
}

#[test]
fn failed_subscriber_is_dropped_and_others_stay() {
    let mut d = Dispatcher::new();
    let a = d.connect().unwrap();
    let b = d.connect().unwrap();
    let c = d.connect().unwrap();
    assert_eq!(d.broadcast(&sample_event()).targets, vec![a, b, c]);
    d.drop_failed(&vec![b]);
    assert_eq!(d.broadcast(&sample_event()).targets, vec![a, c]);
    let e = d.connect().unwrap();
    assert_ne!(e, b);
    assert_eq!(d.broadcast(&sample_event()).targets, vec![a, c, e]);
    d.drop_failed(&vec![]);
    assert_eq!(d.subscribers(), vec![a, c, e]);
}

#[test]
fn late_joiner_gets_only_later_events() {
    let mut d = Dispatcher::new();
    let early = d.connect().unwrap();
    let first = d.broadcast(&sample_event());
    let late = d.connect().unwrap();
    let second = d.broadcast(&sample_event());
    assert_eq!(first.targets, vec![early]);
    assert_eq!(second.targets, vec![early, late]);
}
