//! Validation of inbound frames against the configured virtual routers
//! (RFC 3768 section 7.1): after the stateless codec checks, an
//! advertisement is matched to the router configured for its arrival
//! interface and VRID, and checked against that router's own addresses,
//! authentication settings and advertisement interval.

use crate::auth::{gen_auth_data, spec_auth_trailer};
use crate::codec::{decode_advert, flat_addr_bytes, spec_decode, spec_flat_addrs, FrameModel};
use crate::constants::{AUTH_TYPE_P0, AUTH_TYPE_P1, AUTH_TYPE_SIMPLE};
use crate::fsm::VrState;
use crate::vrouter::VirtualRouter;
use vstd::prelude::*;

verus! {

broadcast use vstd::array::group_array_axioms;

/// The views of a router list.
pub open spec fn spec_vr_views(vrs: Seq<VirtualRouter>) -> Seq<VrState> {
    vrs.map_values(|v: VirtualRouter| v@)
}

/// Whether a router is the one configured for this arrival interface and
/// VRID.
pub open spec fn spec_vr_key_match(v: VrState, ifidx: i32, vrid: u8) -> bool {
    v.ifindex == ifidx && v.vrid == vrid
}

/// The first router configured for this interface and VRID, if any.
pub open spec fn spec_find_vr(vrs: Seq<VrState>, ifidx: i32, vrid: u8) -> Option<int>
    decreases vrs.len(),
{
    if vrs.len() == 0 {
        None
    } else if spec_vr_key_match(vrs[0], ifidx, vrid) {
        Some(0)
    } else {
        match spec_find_vr(vrs.skip(1), ifidx, vrid) {
            Some(i) => Some(i + 1),
            None => None,
        }
    }
}

pub proof fn lemma_find_vr_characterization(vrs: Seq<VrState>, ifidx: i32, vrid: u8)
    ensures
        match spec_find_vr(vrs, ifidx, vrid) {
            Some(i) => 0 <= i < vrs.len() && spec_vr_key_match(vrs[i], ifidx, vrid) && forall|
                j: int,
            | 0 <= j < i ==> !spec_vr_key_match(vrs[j], ifidx, vrid),
            None => forall|j: int| 0 <= j < vrs.len() ==> !spec_vr_key_match(vrs[j], ifidx, vrid),
        },
    decreases vrs.len(),
{
    if vrs.len() > 0 {
        lemma_find_vr_characterization(vrs.skip(1), ifidx, vrid);
        if !spec_vr_key_match(vrs[0], ifidx, vrid) {
            match spec_find_vr(vrs.skip(1), ifidx, vrid) {
                Some(i) => {
                    assert(vrs.skip(1)[i] == vrs[i + 1]);
                    assert forall|j: int| 0 <= j < i + 1 implies !spec_vr_key_match(
                        vrs[j],
                        ifidx,
                        vrid,
                    ) by {
                        if j > 0 {
                            assert(vrs.skip(1)[j - 1] == vrs[j]);
                        }
                    }
                },
                None => {
                    assert forall|j: int| 0 <= j < vrs.len() implies !spec_vr_key_match(
                        vrs[j],
                        ifidx,
                        vrid,
                    ) by {
                        if j > 0 {
                            assert(vrs.skip(1)[j - 1] == vrs[j]);
                        }
                    }
                },
            }
        }
    }
}

/// The message a keyed trailer covers, read off a received frame: its VRRP
/// region with a zero checksum field and no trailer.
pub open spec fn spec_frame_msg(f: FrameModel) -> Seq<u8> {
    seq![
        0x21u8,
        f.vrid,
        f.prio,
        f.addrs.len() as u8,
        f.authtype,
        f.adverint,
        0u8,
        0u8,
    ] + spec_flat_addrs(f.addrs)
}

/// The per-router receive checks (steps 7 to 10): the IP destination is not
/// one of the router's own addresses, the authentication type matches, the
/// trailer verifies for the keyed and plain schemes, and the advertisement
/// interval matches.
pub open spec fn spec_vr_accepts(vr: VrState, f: FrameModel) -> bool {
    &&& !(exists|i: int| 0 <= i < vr.ipaddrs.len() && (#[trigger] vr.ipaddrs[i])@ == f.ipdst)
    &&& f.authtype == vr.auth_type
    &&& ((f.authtype == AUTH_TYPE_SIMPLE || f.authtype == AUTH_TYPE_P0 || f.authtype
        == AUTH_TYPE_P1) ==> f.authdata == spec_auth_trailer(
        f.authtype,
        vr.auth_secret,
        Some(spec_frame_msg(f)),
    ))
    &&& f.adverint == vr.adverint
}

/// What full validation of a received frame yields: the matched router's
/// interface index and VRID, and the advertisement's source address and
/// priority; `None` when any check drops the frame.
pub open spec fn spec_verify_vrrp_pkt(ifidx: i32, b: Seq<u8>, vrs: Seq<VrState>) -> Option<
    (i32, u8, Seq<u8>, u8),
> {
    match spec_decode(b) {
        None => None,
        Some(f) => match spec_find_vr(vrs, ifidx, f.vrid) {
            None => None,
            Some(i) => if spec_vr_accepts(vrs[i], f) {
                Some((vrs[i].ifindex, vrs[i].vrid, f.ipsrc, f.prio))
            } else {
                None
            },
        },
    }
}

/// Find the router configured for this arrival interface and VRID.
pub fn find_vrouter(vrouters: &Vec<VirtualRouter>, ifindex: i32, vrid: u8) -> (r: Option<usize>)
    ensures
        match r {
            Some(i) => i < vrouters@.len() && spec_find_vr(spec_vr_views(vrouters@), ifindex, vrid)
                == Some(i as int),
            None => spec_find_vr(spec_vr_views(vrouters@), ifindex, vrid) is None,
        },
{
    let ghost views = spec_vr_views(vrouters@);
    proof {
        lemma_find_vr_characterization(views, ifindex, vrid);
    }
    let n = vrouters.len();
    let mut i: usize = 0;
    while i < n
        invariant
            n == vrouters@.len(),
            views == spec_vr_views(vrouters@),
            0 <= i <= n,
            forall|j: int| 0 <= j < i ==> !spec_vr_key_match(#[trigger] views[j], ifindex, vrid),
            match spec_find_vr(views, ifindex, vrid) {
                Some(k) => 0 <= k < views.len() && spec_vr_key_match(views[k], ifindex, vrid)
                    && forall|j: int| 0 <= j < k ==> !spec_vr_key_match(views[j], ifindex, vrid),
                None => forall|j: int|
                    0 <= j < views.len() ==> !spec_vr_key_match(views[j], ifindex, vrid),
            },
        decreases n - i,
    {
        let v = &vrouters[i];
        if v.parameters.ifindex == ifindex && v.parameters.vrid == vrid {
            proof {
                assert(spec_vr_key_match(views[i as int], ifindex, vrid));
            }
            return Some(i);
        }
        proof {
            assert(!spec_vr_key_match(views[i as int], ifindex, vrid));
        }
        i = i + 1;
    }
    None
}

/// Validate a received frame (RFC 3768 7.1): run the stateless codec checks,
/// find the router configured for the arrival interface and the frame's
/// VRID, and run the per-router checks. On success, the router's interface
/// index and VRID with the advertisement's source address and priority; the
/// caller delivers the event.
#[verifier::loop_isolation(false)]
pub fn verify_vrrp_pkt(in_ifidx: i32, packet: &[u8], vrouters: &Vec<VirtualRouter>) -> (r: Option<
    (i32, u8, [u8; 4], u8),
>)
    requires
        packet@.len() < 0x1000_0000,
    ensures
        match r {
            Some(t) => spec_verify_vrrp_pkt(in_ifidx, packet@, spec_vr_views(vrouters@)) == Some(
                (t.0, t.1, t.2@, t.3),
            ),
            None => spec_verify_vrrp_pkt(in_ifidx, packet@, spec_vr_views(vrouters@)) is None,
        },
{
    let ghost views = spec_vr_views(vrouters@);
    let fr = match decode_advert(packet) {
        Some(fr) => fr,
        None => {
            return None;
        },
    };
    let ghost f = fr@;
    let idx = match find_vrouter(vrouters, in_ifidx, fr.vrid) {
        Some(i) => i,
        None => {
            return None;
        },
    };
    let vr = &vrouters[idx];
    proof {
        assert(views[idx as int] == vr@);
    }
    // Step 7: the destination must not be one of this router's own
    // addresses.
    if vr.is_owner_vip(&fr.ipdst) {
        proof {
            let i = choose|i: int|
                0 <= i < vr.parameters.ipaddrs@.len() && vr.parameters.ipaddrs@[i] == fr.ipdst;
            assert(vr@.ipaddrs[i]@ == f.ipdst);
            assert(!spec_vr_accepts(vr@, f));
        }
        return None;
    }
    proof {
        if exists|i: int| 0 <= i < vr@.ipaddrs.len() && (#[trigger] vr@.ipaddrs[i])@ == f.ipdst {
            let i = choose|i: int|
                0 <= i < vr@.ipaddrs.len() && (#[trigger] vr@.ipaddrs[i])@ == f.ipdst;
            assert(vr.parameters.ipaddrs@[i] =~= fr.ipdst);
        }
    }
    // Step 8: the declared authentication type must be the configured one.
    if fr.authtype != vr.parameters.auth_type {
        return None;
    }
    // Step 9: the trailer must verify for the plain and keyed schemes.
    let at = fr.authtype;
    if at == AUTH_TYPE_SIMPLE || at == AUTH_TYPE_P0 || at == AUTH_TYPE_P1 {
        let n = fr.addrs.len();
        let mut msg: Vec<u8> = Vec::new();
        msg.push(0x21);
        msg.push(fr.vrid);
        msg.push(fr.prio);
        msg.push(n as u8);
        msg.push(fr.authtype);
        msg.push(fr.adverint);
        msg.push(0);
        msg.push(0);
        let flat = flat_addr_bytes(&fr.addrs);
        let fl = flat.len();
        let mut j: usize = 0;
        while j < fl
            invariant
                fl == flat@.len(),
                0 <= j <= fl,
                msg@ =~= spec_frame_msg(f).take(8 + j as int),
                spec_frame_msg(f).len() == 8 + fl,
                forall|t: int| 0 <= t < fl ==> spec_frame_msg(f)[8 + t] == flat@[t],
            decreases fl - j,
        {
            msg.push(flat[j]);
            proof {
                assert(spec_frame_msg(f).take(8 + (j + 1)) =~= spec_frame_msg(f).take(
                    8 + j as int,
                ).push(spec_frame_msg(f)[8 + j as int]));
            }
            j = j + 1;
        }
        proof {
            assert(spec_frame_msg(f).take(8 + fl as int) =~= spec_frame_msg(f));
            assert(msg@ =~= spec_frame_msg(f));
        }
        let expected = gen_auth_data(at, &vr.parameters.auth_secret, Some(msg.as_slice()));
        let mut k: usize = 0;
        while k < 8
            invariant
                0 <= k <= 8,
                expected@.len() == 8,
                forall|t: int| 0 <= t < k ==> expected@[t] == fr.authdata@[t],
                expected@ == spec_auth_trailer(at, vr@.auth_secret, Some(spec_frame_msg(f))),
                at == f.authtype && at == vr@.auth_type,
                f.authdata == fr.authdata@,
            decreases 8 - k,
        {
            if expected[k] != fr.authdata[k] {
                proof {
                    assert(expected@[k as int] != f.authdata[k as int]);
                    if f.authdata == spec_auth_trailer(
                        at,
                        vr@.auth_secret,
                        Some(spec_frame_msg(f)),
                    ) {
                        assert(f.authdata[k as int] == expected@[k as int]);
                        assert(false);
                    }
                    assert(f.authdata != spec_auth_trailer(
                        f.authtype,
                        vr@.auth_secret,
                        Some(spec_frame_msg(f)),
                    ));
                    assert(f.authtype == AUTH_TYPE_SIMPLE || f.authtype == AUTH_TYPE_P0
                        || f.authtype == AUTH_TYPE_P1);
                    assert(!spec_vr_accepts(vr@, f));
                }
                return None;
            }
            k = k + 1;
        }
        proof {
            assert(f.authdata =~= spec_auth_trailer(at, vr@.auth_secret, Some(spec_frame_msg(f))));
        }
    }
    // Step 10: the advertisement interval must be the configured one.
    if fr.adverint != vr.parameters.adverint {
        return None;
    }
    proof {
        assert(spec_vr_accepts(vr@, f));
    }
    Some((vr.parameters.ifindex, vr.parameters.vrid, fr.ipsrc, fr.prio))
}

} // verus!
