//! The VRRPv2 wire codec: the exact byte layout of an advertisement frame
//! (Ethernet, IPv4, VRRP header, address list, authentication trailer), an
//! encoder that fills both checksums, a decoder that performs the stateless
//! validation steps, and the law that decoding an encoded frame gives the
//! frame back.

use crate::checksums::{
    checksum16, fold16, lemma_checksum_write_validates, one_complement_sum, ones_sum, rfc1071,
    zero2,
};
use vstd::prelude::*;
use vstd::slice::slice_subrange;

verus! {

broadcast use vstd::array::group_array_axioms;

/// The information content of one advertisement frame: everything that is
/// not fixed by the protocol or derivable from the rest.
pub ghost struct FrameModel {
    /// IPv4 source address (the sender's primary address), 4 bytes.
    pub ipsrc: Seq<u8>,
    /// IPv4 destination address (the VRRP group when sending), 4 bytes.
    pub ipdst: Seq<u8>,
    pub vrid: u8,
    pub prio: u8,
    pub authtype: u8,
    pub adverint: u8,
    /// The advertised address list; each entry is 4 bytes.
    pub addrs: Seq<Seq<u8>>,
    /// The 8-byte authentication trailer.
    pub authdata: Seq<u8>,
}

impl FrameModel {
    /// A frame carries 1 to 255 addresses and exact-size fields.
    pub open spec fn wf(self) -> bool {
        &&& self.ipsrc.len() == 4
        &&& self.ipdst.len() == 4
        &&& 1 <= self.addrs.len() <= 255
        &&& (forall|i: int| 0 <= i < self.addrs.len() ==> (#[trigger] self.addrs[i]).len() == 4)
        &&& self.authdata.len() == 8
    }
}

/// An advertisement frame in decoded form.
pub struct VrrpFrame {
    pub ipsrc: [u8; 4],
    pub ipdst: [u8; 4],
    pub vrid: u8,
    pub prio: u8,
    pub authtype: u8,
    pub adverint: u8,
    pub addrs: Vec<[u8; 4]>,
    pub authdata: [u8; 8],
}

impl View for VrrpFrame {
    type V = FrameModel;

    open spec fn view(&self) -> FrameModel {
        FrameModel {
            ipsrc: self.ipsrc@,
            ipdst: self.ipdst@,
            vrid: self.vrid,
            prio: self.prio,
            authtype: self.authtype,
            adverint: self.adverint,
            addrs: self.addrs@.map_values(|a: [u8; 4]| a@),
            authdata: self.authdata@,
        }
    }
}

impl VrrpFrame {
    /// A frame carries 1 to 255 addresses.
    pub open spec fn wf(&self) -> bool {
        self@.wf()
    }
}

/// The address list flattened to bytes, in order.
pub open spec fn spec_flat_addrs(addrs: Seq<Seq<u8>>) -> Seq<u8>
    decreases addrs.len(),
{
    if addrs.len() == 0 {
        Seq::<u8>::empty()
    } else {
        addrs[0] + spec_flat_addrs(addrs.skip(1))
    }
}

pub proof fn lemma_flat_addrs_len(addrs: Seq<Seq<u8>>)
    requires
        forall|i: int| 0 <= i < addrs.len() ==> (#[trigger] addrs[i]).len() == 4,
    ensures
        spec_flat_addrs(addrs).len() == 4 * addrs.len(),
    decreases addrs.len(),
{
    if addrs.len() > 0 {
        lemma_flat_addrs_len(addrs.skip(1));
    }
}

pub proof fn lemma_flat_addrs_index(addrs: Seq<Seq<u8>>, i: int, j: int)
    requires
        forall|k: int| 0 <= k < addrs.len() ==> (#[trigger] addrs[k]).len() == 4,
        0 <= i < addrs.len(),
        0 <= j < 4,
    ensures
        spec_flat_addrs(addrs)[4 * i + j] == addrs[i][j],
    decreases i,
{
    lemma_flat_addrs_len(addrs.skip(1));
    if i == 0 {
    } else {
        lemma_flat_addrs_index(addrs.skip(1), i - 1, j);
    }
}

/// The Ethernet header: the VRRP multicast MAC, the virtual source MAC with
/// the VRID in its last byte, and the IPv4 ethertype.
pub open spec fn spec_eth_header(f: FrameModel) -> Seq<u8> {
    seq![
        0x01u8,
        0x00u8,
        0x5eu8,
        0x00u8,
        0x00u8,
        0x12u8,
        0x00u8,
        0x00u8,
        0x5eu8,
        0x00u8,
        0x01u8,
        f.vrid,
        0x08u8,
        0x00u8,
    ]
}

/// IPv4 total length: header plus VRRP region.
pub open spec fn spec_ip_len(f: FrameModel) -> int {
    36 + 4 * (f.addrs.len() as int)
}

/// The IPv4 header with its checksum field zero: version/IHL 0x45, DSCP CS6,
/// total length, zero identification and flags, TTL 255, protocol 112, the
/// source address, and the 224.0.0.18 group.
pub open spec fn spec_ip_header_zero(f: FrameModel) -> Seq<u8> {
    seq![
        0x45u8,
        0xc0u8,
        (spec_ip_len(f) / 256) as u8,
        (spec_ip_len(f) % 256) as u8,
        0u8,
        0u8,
        0u8,
        0u8,
        255u8,
        112u8,
        0u8,
        0u8,
    ] + f.ipsrc + f.ipdst
}

pub open spec fn spec_ip_csum(f: FrameModel) -> int {
    checksum16(spec_ip_header_zero(f))
}

/// The IPv4 header with its checksum written.
pub open spec fn spec_ip_header(f: FrameModel) -> Seq<u8> {
    spec_ip_header_zero(f).update(10, (spec_ip_csum(f) / 256) as u8).update(
        11,
        (spec_ip_csum(f) % 256) as u8,
    )
}

/// The VRRP region with its checksum field zero: version/type 0x21, VRID,
/// priority, address count, authentication type, advertisement interval,
/// zero checksum, the address list, and the authentication trailer.
pub open spec fn spec_vrrp_region_zero(f: FrameModel) -> Seq<u8> {
    seq![
        0x21u8,
        f.vrid,
        f.prio,
        f.addrs.len() as u8,
        f.authtype,
        f.adverint,
        0u8,
        0u8,
    ] + spec_flat_addrs(f.addrs) + f.authdata
}

pub open spec fn spec_vrrp_csum(f: FrameModel) -> int {
    checksum16(spec_vrrp_region_zero(f))
}

/// The VRRP region with its checksum written.
pub open spec fn spec_vrrp_region(f: FrameModel) -> Seq<u8> {
    spec_vrrp_region_zero(f).update(6, (spec_vrrp_csum(f) / 256) as u8).update(
        7,
        (spec_vrrp_csum(f) % 256) as u8,
    )
}

/// The full frame on the wire.
pub open spec fn spec_encode(f: FrameModel) -> Seq<u8> {
    spec_eth_header(f) + spec_ip_header(f) + spec_vrrp_region(f)
}

/// The stateless receive checks (steps 1 to 5 of validation): minimum size,
/// IP protocol 112, TTL 255, VRRP version/type byte, address count
/// consistent with the length, and the VRRP checksum folding to all-ones.
/// On success, the decoded frame.
pub open spec fn spec_decode(b: Seq<u8>) -> Option<FrameModel> {
    if b.len() < 54 {
        None
    } else if b[23] != 112 {
        None
    } else if b[22] != 255 {
        None
    } else if b[34] != 0x21 {
        None
    } else if b.len() != 50 + 4 * (b[37] as int) {
        None
    } else if fold16(ones_sum(b.skip(34))) != 0xffff {
        None
    } else {
        Some(spec_fields(b))
    }
}

/// Read the variable fields out of a frame that passed the checks.
pub open spec fn spec_fields(b: Seq<u8>) -> FrameModel {
    let n = b[37] as int;
    FrameModel {
        ipsrc: b.subrange(26, 30),
        ipdst: b.subrange(30, 34),
        vrid: b[35],
        prio: b[36],
        authtype: b[38],
        adverint: b[39],
        addrs: Seq::new(n as nat, |i: int| b.subrange(42 + 4 * i, 46 + 4 * i)),
        authdata: b.subrange(42 + 4 * n, 50 + 4 * n),
    }
}

/// Build the wire frame for a decoded frame: both checksums are computed
/// and written as the layout specifies.
pub fn encode_advert(f: &VrrpFrame) -> (r: Vec<u8>)
    requires
        f.wf(),
    ensures
        r@ == spec_encode(f@),
{
    let n = f.addrs.len();
    proof {
        assert(f@.addrs.len() == n);
        lemma_flat_addrs_len(f@.addrs);
    }
    // The VRRP region with a zero checksum field.
    let mut region: Vec<u8> = Vec::new();
    region.push(0x21);
    region.push(f.vrid);
    region.push(f.prio);
    region.push(n as u8);
    region.push(f.authtype);
    region.push(f.adverint);
    region.push(0);
    region.push(0);
    let mut i: usize = 0;
    while i < n
        invariant
            n == f.addrs@.len() <= 255,
            f.wf(),
            0 <= i <= n,
            region@.len() == 8 + 4 * i,
            region@ =~= seq![
                0x21u8,
                f.vrid,
                f.prio,
                n as u8,
                f.authtype,
                f.adverint,
                0u8,
                0u8,
            ] + spec_flat_addrs(f@.addrs.take(i as int)),
        decreases n - i,
    {
        let a = &f.addrs[i];
        region.push(a[0]);
        region.push(a[1]);
        region.push(a[2]);
        region.push(a[3]);
        proof {
            lemma_flat_take_step(f@.addrs, i as int);
            assert(f@.addrs[i as int] == f.addrs@[i as int]@);
        }
        i = i + 1;
    }
    proof {
        assert(f@.addrs.take(n as int) =~= f@.addrs);
    }
    let mut k: usize = 0;
    while k < 8
        invariant
            0 <= k <= 8,
            f.wf(),
            n == f.addrs@.len(),
            region@.len() == 8 + 4 * (n as int) + k,
            region@ =~= seq![
                0x21u8,
                f.vrid,
                f.prio,
                n as u8,
                f.authtype,
                f.adverint,
                0u8,
                0u8,
            ] + spec_flat_addrs(f@.addrs) + f.authdata@.take(k as int),
        decreases 8 - k,
    {
        region.push(f.authdata[k]);
        proof {
            assert(f.authdata@.take(k + 1) =~= f.authdata@.take(k as int).push(
                f.authdata@[k as int],
            ));
        }
        k = k + 1;
    }
    proof {
        assert(f.authdata@.take(8) =~= f.authdata@);
        assert(region@ =~= spec_vrrp_region_zero(f@));
        assert(region@.len() == 16 + 4 * (n as int));
    }
    let vcsum = one_complement_sum(region.as_slice(), Some(6));
    proof {
        assert(zero2(region@, 6) =~= region@);
        assert(vcsum as int == spec_vrrp_csum(f@));
    }

    // The IPv4 header with a zero checksum field.
    let iplen: u16 = 36 + 4 * (n as u16);
    let mut iphdr: Vec<u8> = Vec::new();
    iphdr.push(0x45);
    iphdr.push(0xc0);
    iphdr.push((iplen / 256) as u8);
    iphdr.push((iplen % 256) as u8);
    iphdr.push(0);
    iphdr.push(0);
    iphdr.push(0);
    iphdr.push(0);
    iphdr.push(255);
    iphdr.push(112);
    iphdr.push(0);
    iphdr.push(0);
    iphdr.push(f.ipsrc[0]);
    iphdr.push(f.ipsrc[1]);
    iphdr.push(f.ipsrc[2]);
    iphdr.push(f.ipsrc[3]);
    iphdr.push(f.ipdst[0]);
    iphdr.push(f.ipdst[1]);
    iphdr.push(f.ipdst[2]);
    iphdr.push(f.ipdst[3]);
    proof {
        assert(iplen as int == spec_ip_len(f@));
        assert(iphdr@ =~= spec_ip_header_zero(f@));
    }
    let icsum = one_complement_sum(iphdr.as_slice(), Some(10));
    proof {
        assert(zero2(iphdr@, 10) =~= iphdr@);
        assert(icsum as int == spec_ip_csum(f@));
    }

    // Assemble: Ethernet header, IP header with checksum, VRRP region with
    // checksum.
    let mut frame: Vec<u8> = Vec::new();
    frame.push(0x01);
    frame.push(0x00);
    frame.push(0x5e);
    frame.push(0x00);
    frame.push(0x00);
    frame.push(0x12);
    frame.push(0x00);
    frame.push(0x00);
    frame.push(0x5e);
    frame.push(0x00);
    frame.push(0x01);
    frame.push(f.vrid);
    frame.push(0x08);
    frame.push(0x00);
    proof {
        assert(frame@ =~= spec_eth_header(f@));
    }
    let mut p: usize = 0;
    while p < 20
        invariant
            0 <= p <= 20,
            iphdr@.len() == 20,
            iphdr@ =~= spec_ip_header_zero(f@),
            icsum as int == spec_ip_csum(f@),
            0 <= spec_ip_csum(f@) <= 0xffff,
            frame@ =~= spec_eth_header(f@) + spec_ip_header(f@).take(p as int),
        decreases 20 - p,
    {
        if p == 10 {
            frame.push((icsum / 256) as u8);
        } else if p == 11 {
            frame.push((icsum % 256) as u8);
        } else {
            frame.push(iphdr[p]);
        }
        proof {
            assert(spec_ip_header(f@).take(p + 1) =~= spec_ip_header(f@).take(p as int).push(
                spec_ip_header(f@)[p as int],
            ));
        }
        p = p + 1;
    }
    proof {
        assert(spec_ip_header(f@).take(20) =~= spec_ip_header(f@));
    }
    let rl = region.len();
    let mut q: usize = 0;
    while q < rl
        invariant
            0 <= q <= rl,
            rl == region@.len() == 16 + 4 * (f@.addrs.len() as int),
            region@ =~= spec_vrrp_region_zero(f@),
            vcsum as int == spec_vrrp_csum(f@),
            0 <= spec_vrrp_csum(f@) <= 0xffff,
            frame@ =~= spec_eth_header(f@) + spec_ip_header(f@) + spec_vrrp_region(f@).take(
                q as int,
            ),
        decreases rl - q,
    {
        if q == 6 {
            frame.push((vcsum / 256) as u8);
        } else if q == 7 {
            frame.push((vcsum % 256) as u8);
        } else {
            frame.push(region[q]);
        }
        proof {
            assert(spec_vrrp_region(f@).take(q + 1) =~= spec_vrrp_region(f@).take(q as int).push(
                spec_vrrp_region(f@)[q as int],
            ));
        }
        q = q + 1;
    }
    proof {
        assert(spec_vrrp_region(f@).len() == rl);
        assert(spec_vrrp_region(f@).take(rl as int) =~= spec_vrrp_region(f@));
        assert(frame@ =~= spec_encode(f@));
    }
    frame
}

/// Flatten an address list to bytes, in order.
pub fn flat_addr_bytes(addrs: &Vec<[u8; 4]>) -> (r: Vec<u8>)
    requires
        addrs@.len() <= 256,
    ensures
        r@ == spec_flat_addrs(addrs@.map_values(|a: [u8; 4]| a@)),
        r@.len() == 4 * addrs@.len(),
{
    let ghost model = addrs@.map_values(|a: [u8; 4]| a@);
    proof {
        lemma_flat_addrs_len(model);
    }
    let n = addrs.len();
    let mut r: Vec<u8> = Vec::new();
    let mut i: usize = 0;
    while i < n
        invariant
            n == addrs@.len() <= 256,
            model == addrs@.map_values(|a: [u8; 4]| a@),
            0 <= i <= n,
            r@.len() == 4 * i,
            r@ =~= spec_flat_addrs(model.take(i as int)),
        decreases n - i,
    {
        let a = &addrs[i];
        r.push(a[0]);
        r.push(a[1]);
        r.push(a[2]);
        r.push(a[3]);
        proof {
            lemma_flat_take_step(model, i as int);
            assert(model[i as int] == addrs@[i as int]@);
        }
        i = i + 1;
    }
    proof {
        assert(model.take(n as int) =~= model);
    }
    r
}

/// Run the stateless receive checks on a frame and decode it; `None` means
/// the frame is dropped. The checks, in order: minimum size, IP protocol,
/// TTL 255, VRRP version/type, address count against the length, and the
/// VRRP checksum.
pub fn decode_advert(b: &[u8]) -> (r: Option<VrrpFrame>)
    requires
        b@.len() < 0x1000_0000,
    ensures
        r is Some <==> spec_decode(b@) is Some,
        r matches Some(fr) ==> spec_decode(b@) == Some(fr@) && fr.wf(),
{
    let len = b.len();
    if len < 54 {
        return None;
    }
    if b[23] != 112 {
        return None;
    }
    if b[22] != 255 {
        return None;
    }
    if b[34] != 0x21 {
        return None;
    }
    let n = b[37] as usize;
    if len != 50 + 4 * n {
        return None;
    }
    let region = slice_subrange(b, 34, len);
    proof {
        assert(region@ =~= b@.skip(34));
    }
    if rfc1071(region) != 0xffff {
        return None;
    }
    let ipsrc = [b[26], b[27], b[28], b[29]];
    let ipdst = [b[30], b[31], b[32], b[33]];
    proof {
        assert(ipsrc@ =~= b@.subrange(26, 30));
        assert(ipdst@ =~= b@.subrange(30, 34));
    }
    let mut addrs: Vec<[u8; 4]> = Vec::new();
    let mut i: usize = 0;
    while i < n
        invariant
            n == b@[37] as int,
            1 <= n <= 255,
            len == b@.len() == 50 + 4 * n,
            0 <= i <= n,
            addrs@.len() == i,
            forall|k: int|
                0 <= k < i ==> (#[trigger] addrs@[k])@ =~= b@.subrange(42 + 4 * k, 46 + 4 * k),
        decreases n - i,
    {
        let a = [b[42 + 4 * i], b[43 + 4 * i], b[44 + 4 * i], b[45 + 4 * i]];
        proof {
            assert(a@ =~= b@.subrange(42 + 4 * (i as int), 46 + 4 * (i as int)));
        }
        addrs.push(a);
        i = i + 1;
    }
    let authdata = [
        b[42 + 4 * n],
        b[43 + 4 * n],
        b[44 + 4 * n],
        b[45 + 4 * n],
        b[46 + 4 * n],
        b[47 + 4 * n],
        b[48 + 4 * n],
        b[49 + 4 * n],
    ];
    proof {
        assert(authdata@ =~= b@.subrange(42 + 4 * (n as int), 50 + 4 * (n as int)));
    }
    let fr = VrrpFrame {
        ipsrc,
        ipdst,
        vrid: b[35],
        prio: b[36],
        authtype: b[38],
        adverint: b[39],
        addrs,
        authdata,
    };
    proof {
        let m = spec_fields(b@);
        assert(fr@.addrs =~= m.addrs) by {
            assert(forall|k: int|
                0 <= k < n ==> (#[trigger] fr@.addrs[k]) =~= m.addrs[k]);
        }
        assert(fr@ == m);
        assert(fr.wf());
    }
    Some(fr)
}

/// The round-trip law: decoding an encoded well-formed frame succeeds and
/// gives the frame back, field for field.
pub proof fn lemma_decode_encode(f: FrameModel)
    requires
        f.wf(),
    ensures
        spec_decode(spec_encode(f)) == Some(f),
{
    let b = spec_encode(f);
    let n = f.addrs.len() as int;
    lemma_flat_addrs_len(f.addrs);
    let eth = spec_eth_header(f);
    let iph = spec_ip_header(f);
    let ipz = spec_ip_header_zero(f);
    let region = spec_vrrp_region(f);
    let rz = spec_vrrp_region_zero(f);
    assert(eth.len() == 14);
    assert(ipz.len() == 20);
    assert(iph.len() == 20);
    assert(rz.len() == 16 + 4 * n);
    assert(region.len() == 16 + 4 * n);
    assert(b.len() == 50 + 4 * n);
    // The fixed field bytes.
    assert(b[23] == iph[9]);
    assert(iph[9] == ipz[9]);
    assert(ipz[9] == 112);
    assert(b[22] == iph[8] && iph[8] == ipz[8] && ipz[8] == 255);
    assert(b[34] == region[0] && region[0] == rz[0] && rz[0] == 0x21);
    assert(b[37] == region[3] && region[3] == rz[3] && rz[3] == f.addrs.len() as u8);
    assert(b[37] as int == n);
    // The checksum validates: the region is the zero-checksum region with
    // its own checksum written at offset 6.
    assert(b.skip(34) =~= region);
    assert(zero2(rz, 6) =~= rz);
    lemma_checksum_write_validates(rz, 6);
    assert(fold16(ones_sum(region)) == 0xffff);
    // The decoded fields are the frame's fields.
    let m = spec_fields(b);
    assert(m.ipsrc =~= f.ipsrc) by {
        assert(forall|j: int| 0 <= j < 4 ==> b[26 + j] == ipz[12 + j] && ipz[12 + j] == f.ipsrc[j]);
    }
    assert(m.ipdst =~= f.ipdst) by {
        assert(forall|j: int| 0 <= j < 4 ==> b[30 + j] == ipz[16 + j] && ipz[16 + j] == f.ipdst[j]);
    }
    assert(b[35] == rz[1] && rz[1] == f.vrid);
    assert(b[36] == rz[2] && rz[2] == f.prio);
    assert(b[38] == rz[4] && rz[4] == f.authtype);
    assert(b[39] == rz[5] && rz[5] == f.adverint);
    assert(m.addrs =~= f.addrs) by {
        assert forall|i: int| 0 <= i < n implies #[trigger] m.addrs[i] =~= f.addrs[i] by {
            assert forall|j: int| 0 <= j < 4 implies m.addrs[i][j] == f.addrs[i][j] by {
                lemma_flat_addrs_index(f.addrs, i, j);
                assert(m.addrs[i][j] == b[42 + 4 * i + j]);
                assert(b[42 + 4 * i + j] == region[8 + 4 * i + j]);
                assert(region[8 + 4 * i + j] == rz[8 + 4 * i + j]);
                assert(rz[8 + 4 * i + j] == spec_flat_addrs(f.addrs)[4 * i + j]);
            }
            assert(m.addrs[i].len() == 4 && f.addrs[i].len() == 4);
        }
    }
    assert(m.authdata =~= f.authdata) by {
        assert forall|j: int| 0 <= j < 8 implies m.authdata[j] == f.authdata[j] by {
            assert(m.authdata[j] == b[42 + 4 * n + j]);
            assert(b[42 + 4 * n + j] == region[8 + 4 * n + j]);
            assert(region[8 + 4 * n + j] == rz[8 + 4 * n + j]);
            assert(rz[8 + 4 * n + j] == f.authdata[j]);
        }
    }
    assert(m == f);
}

/// Law: the IPv4 header an encoded frame carries validates: the folded sum
/// of its 20 bytes is all-ones.
pub proof fn lemma_encoded_ip_header_validates(f: FrameModel)
    requires
        f.wf(),
    ensures
        fold16(ones_sum(spec_encode(f).subrange(14, 34))) == 0xffff,
{
    let ipz = spec_ip_header_zero(f);
    let iph = spec_ip_header(f);
    assert(ipz.len() == 20);
    assert(zero2(ipz, 10) =~= ipz);
    lemma_checksum_write_validates(ipz, 10);
    assert(spec_encode(f).subrange(14, 34) =~= iph);
}

proof fn lemma_flat_take_step(addrs: Seq<Seq<u8>>, i: int)
    requires
        forall|k: int| 0 <= k < addrs.len() ==> (#[trigger] addrs[k]).len() == 4,
        0 <= i < addrs.len(),
    ensures
        spec_flat_addrs(addrs.take(i + 1)) =~= spec_flat_addrs(addrs.take(i)) + addrs[i],
    decreases i,
{
    if i == 0 {
        assert(addrs.take(1).skip(1) =~= Seq::<Seq<u8>>::empty());
        assert(addrs.take(0) =~= Seq::<Seq<u8>>::empty());
        assert(spec_flat_addrs(addrs.take(1)) == addrs.take(1)[0] + spec_flat_addrs(
            addrs.take(1).skip(1),
        ));
        assert(spec_flat_addrs(addrs.take(1)) =~= addrs[0]);
        assert(spec_flat_addrs(addrs.take(0)) + addrs[0] =~= addrs[0]);
    } else {
        lemma_flat_take_step(addrs.skip(1), i - 1);
        assert(addrs.take(i + 1).skip(1) =~= addrs.skip(1).take(i));
        assert(addrs.take(i).skip(1) =~= addrs.skip(1).take(i - 1));
        assert(addrs.take(i + 1)[0] == addrs[0]);
        assert(addrs.take(i)[0] == addrs[0]);
        assert(spec_flat_addrs(addrs.take(i + 1)) == addrs[0] + spec_flat_addrs(
            addrs.skip(1).take(i),
        ));
        assert(spec_flat_addrs(addrs.take(i)) == addrs[0] + spec_flat_addrs(
            addrs.skip(1).take(i - 1),
        ));
        assert(addrs.skip(1)[i - 1] == addrs[i]);
    }
}

} // verus!
