//! The authenticator: the 8-byte trailer of an advertisement, for the four
//! schemes the wire knows (none, RFC 2338 plain, truncated HMAC-SHA-256,
//! SHAKE256).

use crate::constants::{AUTH_TYPE_P0, AUTH_TYPE_P1, AUTH_TYPE_SIMPLE};
use crate::crypto::{hmac_sha256, shake256_xof8, spec_hmac_sha256, spec_shake256_8};
use vstd::prelude::*;

verus! {

/// The view of an optional byte vector.
pub open spec fn spec_opt_bytes(s: Option<Vec<u8>>) -> Option<Seq<u8>> {
    match s {
        Some(v) => Some(v@),
        None => None,
    }
}

/// The view of an optional byte slice.
pub open spec fn spec_opt_slice(m: Option<&[u8]>) -> Option<Seq<u8>> {
    match m {
        Some(v) => Some(v@),
        None => None,
    }
}

/// A byte string truncated or right-padded with NUL to exactly 8 bytes.
pub open spec fn spec_pad8(s: Seq<u8>) -> Seq<u8> {
    if s.len() >= 8 {
        s.take(8)
    } else {
        s + Seq::new((8 - s.len()) as nat, |i: int| 0u8)
    }
}

/// Eight zero bytes.
pub open spec fn spec_zero8() -> Seq<u8> {
    Seq::new(8, |i: int| 0u8)
}

/// The 8-byte trailer for one authentication type: all zeros for none, the
/// padded secret for the plain scheme, the first 8 bytes of
/// HMAC-SHA-256(secret, msg) for the truncated-HMAC scheme, and the first 8
/// bytes of SHAKE256(secret followed by msg) for the XOF scheme. A missing
/// secret counts as empty.
pub open spec fn spec_auth_trailer(
    autht: u8,
    secret: Option<Seq<u8>>,
    msg: Option<Seq<u8>>,
) -> Seq<u8> {
    let key = match secret {
        Some(s) => s,
        None => Seq::<u8>::empty(),
    };
    let m = match msg {
        Some(m) => m,
        None => Seq::<u8>::empty(),
    };
    if autht == AUTH_TYPE_SIMPLE {
        match secret {
            Some(s) => spec_pad8(s),
            None => spec_zero8(),
        }
    } else if autht == AUTH_TYPE_P0 {
        spec_hmac_sha256(key, m).take(8)
    } else if autht == AUTH_TYPE_P1 {
        spec_shake256_8(key + m)
    } else {
        spec_zero8()
    }
}

/// Compute the 8-byte authentication trailer. The keyed schemes need the
/// message (the VRRP region with a zero checksum and no trailer).
pub fn gen_auth_data(autht: u8, secret: &Option<Vec<u8>>, msg: Option<&[u8]>) -> (r: Vec<u8>)
    requires
        (autht == AUTH_TYPE_P0 || autht == AUTH_TYPE_P1) ==> msg is Some,
    ensures
        r@ == spec_auth_trailer(autht, spec_opt_bytes(*secret), spec_opt_slice(msg)),
        r@.len() == 8,
{
    let ghost sview = spec_opt_bytes(*secret);
    let ghost mview = spec_opt_slice(msg);
    if autht == AUTH_TYPE_SIMPLE {
        match secret {
            Some(s) => {
                let mut data: Vec<u8> = Vec::new();
                let mut i: usize = 0;
                while i < 8
                    invariant
                        0 <= i <= 8,
                        data@.len() == i,
                        data@ =~= spec_pad8(s@).take(i as int),
                    decreases 8 - i,
                {
                    if i < s.len() {
                        data.push(s[i]);
                    } else {
                        data.push(0);
                    }
                    proof {
                        assert(spec_pad8(s@).len() == 8);
                        assert(spec_pad8(s@).take(i + 1) =~= spec_pad8(s@).take(i as int).push(
                            spec_pad8(s@)[i as int],
                        ));
                    }
                    i = i + 1;
                }
                proof {
                    assert(spec_pad8(s@).take(8) =~= spec_pad8(s@));
                }
                data
            },
            None => {
                let data = zero_trailer();
                proof {
                    assert(data@ =~= spec_zero8());
                }
                data
            },
        }
    } else if autht == AUTH_TYPE_P0 {
        let m = match msg {
            Some(m) => m,
            None => unreached(),
        };
        proof {
            assert(mview == Some(m@));
        }
        let mut tag = match secret {
            Some(s) => hmac_sha256(s.as_slice(), m),
            None => {
                let empty: Vec<u8> = Vec::new();
                proof {
                    assert(empty@ =~= Seq::<u8>::empty());
                }
                hmac_sha256(empty.as_slice(), m)
            },
        };
        proof {
            let key: Seq<u8> = match sview {
                Some(s) => s,
                None => Seq::<u8>::empty(),
            };
            assert(tag@ == spec_hmac_sha256(key, m@));
        }
        tag.truncate(8);
        proof {
            assert(tag@ =~= spec_auth_trailer(autht, sview, mview));
        }
        tag
    } else if autht == AUTH_TYPE_P1 {
        let m = match msg {
            Some(m) => m,
            None => unreached(),
        };
        proof {
            assert(mview == Some(m@));
        }
        let mut km: Vec<u8> = Vec::new();
        match secret {
            Some(s) => {
                let mut i: usize = 0;
                while i < s.len()
                    invariant
                        0 <= i <= s@.len(),
                        km@ =~= s@.take(i as int),
                    decreases s@.len() - i,
                {
                    km.push(s[i]);
                    proof {
                        assert(s@.take(i + 1) =~= s@.take(i as int).push(s@[i as int]));
                    }
                    i = i + 1;
                }
                proof {
                    assert(s@.take(s@.len() as int) =~= s@);
                }
            },
            None => {},
        }
        let ghost key: Seq<u8> = match sview {
            Some(s) => s,
            None => Seq::<u8>::empty(),
        };
        proof {
            assert(km@ =~= key);
        }
        let mut i: usize = 0;
        while i < m.len()
            invariant
                0 <= i <= m@.len(),
                km@ =~= key + m@.take(i as int),
            decreases m@.len() - i,
        {
            km.push(m[i]);
            proof {
                assert(m@.take(i + 1) =~= m@.take(i as int).push(m@[i as int]));
                assert(key + m@.take(i + 1) =~= (key + m@.take(i as int)).push(m@[i as int]));
            }
            i = i + 1;
        }
        proof {
            assert(m@.take(m@.len() as int) =~= m@);
            assert(km@ =~= key + m@);
        }
        let r = shake256_xof8(km.as_slice());
        r
    } else {
        let data = zero_trailer();
        proof {
            assert(data@ =~= spec_zero8());
        }
        data
    }
}

/// Eight zero bytes, the trailer of the unauthenticated scheme.
fn zero_trailer() -> (r: Vec<u8>)
    ensures
        r@ =~= spec_zero8(),
{
    let mut data: Vec<u8> = Vec::new();
    let mut i: usize = 0;
    while i < 8
        invariant
            0 <= i <= 8,
            data@.len() == i,
            forall|j: int| 0 <= j < i ==> data@[j] == 0u8,
        decreases 8 - i,
    {
        data.push(0);
        i = i + 1;
    }
    data
}

/// Law: for every authentication type, and for the keyed types in
/// particular, the trailer is a deterministic function of the secret and
/// the message: equal inputs give equal trailers.
pub proof fn lemma_trailer_deterministic(
    autht: u8,
    s1: Option<Seq<u8>>,
    s2: Option<Seq<u8>>,
    m1: Option<Seq<u8>>,
    m2: Option<Seq<u8>>,
)
    requires
        s1 == s2,
        m1 == m2,
    ensures
        spec_auth_trailer(autht, s1, m1) == spec_auth_trailer(autht, s2, m2),
{
}

} // verus!
