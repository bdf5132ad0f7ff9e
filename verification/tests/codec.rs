//! Wire codec behaviour: encode layout, decode checks, and the round trip.

use rvrrpd::codec::{decode_advert, encode_advert, VrrpFrame};

fn sample_frame() -> VrrpFrame {
    VrrpFrame {
        ipsrc: [10, 0, 0, 1],
        ipdst: [224, 0, 0, 18],
        vrid: 10,
        prio: 255,
        authtype: 0,
        adverint: 1,
        addrs: vec![[10, 0, 0, 1]],
        authdata: [0; 8],
    }
}

#[test]
fn encode_layout() {
    let b = encode_advert(&sample_frame());
    assert_eq!(b.len(), 54);
    // Ethernet: VRRP multicast destination, virtual source MAC, IPv4.
    assert_eq!(&b[0..6], &[0x01, 0x00, 0x5e, 0x00, 0x00, 0x12]);
    assert_eq!(&b[6..12], &[0x00, 0x00, 0x5e, 0x00, 0x01, 0x0a]);
    assert_eq!(&b[12..14], &[0x08, 0x00]);
    // IPv4: version/IHL, DSCP, total length 40, TTL 255, protocol 112.
    assert_eq!(b[14], 0x45);
    assert_eq!(b[15], 0xc0);
    assert_eq!(&b[16..18], &[0x00, 40]);
    assert_eq!(b[22], 255);
    assert_eq!(b[23], 112);
    assert_eq!(&b[26..30], &[10, 0, 0, 1]);
    assert_eq!(&b[30..34], &[224, 0, 0, 18]);
    // VRRP: version/type, VRID, priority, count, auth type, interval.
    assert_eq!(b[34], 0x21);
    assert_eq!(b[35], 10);
    assert_eq!(b[36], 255);
    assert_eq!(b[37], 1);
    assert_eq!(b[38], 0);
    assert_eq!(b[39], 1);
    // Both checksums validate.
    assert_eq!(rvrrpd::checksums::rfc1071(&b[34..]), 0xffff);
    assert_eq!(rvrrpd::checksums::rfc1071(&b[14..34]), 0xffff);
}

#[test]
fn decode_encode_roundtrip() {
    let f = sample_frame();
    let b = encode_advert(&f);
    let g = decode_advert(&b).expect("a well-formed frame decodes");
    assert_eq!(g.ipsrc, f.ipsrc);
    assert_eq!(g.ipdst, f.ipdst);
    assert_eq!(g.vrid, f.vrid);
    assert_eq!(g.prio, f.prio);
    assert_eq!(g.authtype, f.authtype);
    assert_eq!(g.adverint, f.adverint);
    assert_eq!(g.addrs, f.addrs);
    assert_eq!(g.authdata, f.authdata);
}

#[test]
fn decode_encode_roundtrip_many_addresses() {
    let mut f = sample_frame();
    f.addrs = vec![[10, 0, 0, 1], [10, 0, 0, 2], [192, 168, 1, 9]];
    f.authdata = [1, 2, 3, 4, 5, 6, 7, 8];
    f.vrid = 201;
    let b = encode_advert(&f);
    assert_eq!(b.len(), 50 + 4 * 3);
    let g = decode_advert(&b).expect("a well-formed frame decodes");
    assert_eq!(g.addrs, f.addrs);
    assert_eq!(g.authdata, f.authdata);
    assert_eq!(g.vrid, 201);
}

#[test]
fn decode_drops_bad_frames() {
    let good = encode_advert(&sample_frame());
    // Too short.
    assert!(decode_advert(&good[..53]).is_none());
    // Wrong IP protocol.
    let mut b = good.clone();
    b[23] = 6;
    assert!(decode_advert(&b).is_none());
    // Wrong TTL.
    let mut b = good.clone();
    b[22] = 64;
    assert!(decode_advert(&b).is_none());
    // Wrong VRRP version/type byte.
    let mut b = good.clone();
    b[34] = 0x31;
    assert!(decode_advert(&b).is_none());
    // Address count inconsistent with the length.
    let mut b = good.clone();
    b[37] = 2;
    assert!(decode_advert(&b).is_none());
    // Corrupted payload fails the checksum.
    let mut b = good.clone();
    b[36] ^= 0x01;
    assert!(decode_advert(&b).is_none());
}
