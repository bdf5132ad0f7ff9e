//! Textual forms of values: lowercase hex of byte strings, decimal of
//! integers, and the dotted-quad form of IPv4 addresses with its parser.

use vstd::prelude::*;

verus! {

broadcast use vstd::array::group_array_axioms;

/// The lowercase hex digit of a value below 16.
pub open spec fn spec_hex_digit(v: int) -> u8 {
    if v < 10 {
        (0x30 + v) as u8
    } else {
        (0x57 + v) as u8
    }
}

/// The lowercase hex form of a byte string, two digits per byte.
pub open spec fn spec_hex_of(s: Seq<u8>) -> Seq<u8> {
    Seq::new(
        2 * s.len(),
        |i: int|
            if i % 2 == 0 {
                spec_hex_digit(s[i / 2] as int / 16)
            } else {
                spec_hex_digit(s[i / 2] as int % 16)
            },
    )
}

/// Encode a byte string as lowercase hex.
pub fn hex_encode(data: &[u8]) -> (r: Vec<u8>)
    requires
        data@.len() < 0x1000_0000,
    ensures
        r@ == spec_hex_of(data@),
{
    let n = data.len();
    let mut r: Vec<u8> = Vec::new();
    let mut i: usize = 0;
    while i < n
        invariant
            n == data@.len() < 0x1000_0000,
            0 <= i <= n,
            r@.len() == 2 * i,
            r@ =~= spec_hex_of(data@).take(2 * i as int),
        decreases n - i,
    {
        let b = data[i];
        r.push(hex_digit(b / 16));
        r.push(hex_digit(b % 16));
        proof {
            let h = spec_hex_of(data@);
            assert((2 * (i as int)) / 2 == i as int);
            assert((2 * (i as int) + 1) / 2 == i as int);
            assert(h[2 * (i as int)] == spec_hex_digit((data@[i as int] / 16) as int));
            assert(h[2 * (i as int) + 1] == spec_hex_digit((data@[i as int] % 16) as int));
            assert(h.take(2 * (i + 1)) =~= h.take(2 * (i as int)).push(h[2 * (i as int)]).push(
                h[2 * (i as int) + 1],
            ));
        }
        i = i + 1;
    }
    proof {
        assert(spec_hex_of(data@).take(2 * (n as int)) =~= spec_hex_of(data@));
    }
    r
}

/// One lowercase hex digit.
fn hex_digit(v: u8) -> (r: u8)
    requires
        v < 16,
    ensures
        r == spec_hex_digit(v as int),
{
    if v < 10 {
        0x30 + v
    } else {
        0x57 + v
    }
}

/// The decimal form of a nonnegative integer, most significant digit first,
/// no leading zeros.
pub open spec fn spec_dec_of(n: int) -> Seq<u8>
    recommends
        n >= 0,
    decreases n,
    when n >= 0
{
    if n < 10 {
        seq![(0x30 + n) as u8]
    } else {
        spec_dec_of(n / 10).push((0x30 + n % 10) as u8)
    }
}

/// The value of a digit string, most significant digit first.
pub open spec fn spec_digits_val(s: Seq<u8>) -> int
    decreases s.len(),
{
    if s.len() == 0 {
        0
    } else {
        spec_digits_val(s.drop_last()) * 10 + (s.last() - 0x30)
    }
}

/// All bytes are ASCII digits.
pub open spec fn spec_all_digits(s: Seq<u8>) -> bool {
    forall|i: int| 0 <= i < s.len() ==> 0x30 <= #[trigger] s[i] <= 0x39
}

/// Render an integer in decimal.
pub fn u64_to_dec(n: u64) -> (r: Vec<u8>)
    ensures
        r@ == spec_dec_of(n as int),
    decreases n,
{
    if n < 10 {
        let mut r: Vec<u8> = Vec::new();
        r.push(0x30 + (n as u8));
        proof {
            assert(r@ =~= spec_dec_of(n as int));
        }
        r
    } else {
        let mut r = u64_to_dec(n / 10);
        r.push(0x30 + ((n % 10) as u8));
        proof {
            assert(r@ =~= spec_dec_of(n as int));
        }
        r
    }
}

/// The decimal form of a value up to 255 is 1 to 3 digits, carries no
/// leading zero, and reads back to the value.
pub proof fn lemma_dec_of_props(n: int)
    requires
        0 <= n <= 255,
    ensures
        1 <= spec_dec_of(n).len() <= 3,
        spec_all_digits(spec_dec_of(n)),
        spec_dec_of(n).len() > 1 ==> spec_dec_of(n)[0] != 0x30,
        spec_digits_val(spec_dec_of(n)) == n,
        spec_dec_of(n).len() == if n < 10 {
            1int
        } else if n < 100 {
            2int
        } else {
            3int
        },
    decreases n,
{
    reveal_with_fuel(spec_digits_val, 4);
    if n < 10 {
        let s = spec_dec_of(n);
        assert(s =~= seq![(0x30 + n) as u8]);
        assert(s.drop_last() =~= Seq::<u8>::empty());
    } else {
        lemma_dec_of_props(n / 10);
        let t = spec_dec_of(n / 10);
        let s = spec_dec_of(n);
        assert(s == t.push((0x30 + n % 10) as u8));
        assert(s.drop_last() =~= t);
        assert(s[0] == t[0]);
        assert(t.len() > 1 ==> t[0] != 0x30);
        assert(n / 10 >= 1);
        if t.len() == 1 {
            assert(t[0] == (0x30 + n / 10) as u8);
            assert(t[0] != 0x30);
        }
        assert(spec_digits_val(s) == spec_digits_val(t) * 10 + (n % 10));
    }
}

/// A canonical decimal octet: a digit string that some value up to 255
/// renders to.
pub open spec fn spec_canonical_octet(s: Seq<u8>) -> bool {
    &&& 1 <= s.len() <= 3
    &&& spec_all_digits(s)
    &&& (s.len() > 1 ==> s[0] != 0x30)
    &&& spec_digits_val(s) <= 255
}

/// A canonical octet string is the decimal form of its own value.
pub proof fn lemma_canonical_octet_dec(s: Seq<u8>)
    requires
        spec_canonical_octet(s),
    ensures
        0 <= spec_digits_val(s) <= 255,
        spec_dec_of(spec_digits_val(s)) =~= s,
    decreases s.len(),
{
    reveal_with_fuel(spec_digits_val, 4);
    let v = spec_digits_val(s);
    if s.len() == 1 {
        assert(s.drop_last() =~= Seq::<u8>::empty());
        assert(v == s[0] - 0x30);
        assert(spec_dec_of(v) =~= seq![(0x30 + v) as u8]);
        assert(spec_dec_of(v)[0] == s[0]);
    } else {
        let t = s.drop_last();
        assert(t[0] == s[0]);
        assert(spec_all_digits(t)) by {
            assert(forall|i: int| 0 <= i < t.len() ==> t[i] == s[i]);
        }
        // The prefix is itself canonical and at least 1, so the whole value
        // is at least 10 and the recursive step of the decimal form applies.
        assert(spec_digits_val(t) >= 1) by {
            if t.len() == 1 {
                assert(spec_digits_val(t) == t[0] - 0x30);
            } else {
                let u = t.drop_last();
                assert(u[0] == t[0]);
                assert(u.len() == 1);
                assert(spec_digits_val(u) == u[0] - 0x30);
                assert(spec_digits_val(t) == spec_digits_val(u) * 10 + (t.last() - 0x30));
            }
        }
        assert(v == spec_digits_val(t) * 10 + (s.last() - 0x30));
        assert(v >= 10);
        assert(spec_digits_val(t) <= 25);
        lemma_canonical_octet_dec(t);
        assert(v / 10 == spec_digits_val(t) && v % 10 == s.last() - 0x30) by {
            assert(0 <= s.last() - 0x30 < 10);
        }
        assert(spec_dec_of(v) == spec_dec_of(v / 10).push((0x30 + v % 10) as u8));
        assert(spec_dec_of(v / 10) =~= t);
        assert(spec_dec_of(v) =~= s);
    }
}

/// The dotted-quad form of an IPv4 address.
pub open spec fn spec_dotted(ip: [u8; 4]) -> Seq<u8> {
    spec_dec_of(ip[0] as int) + seq![0x2eu8] + spec_dec_of(ip[1] as int) + seq![0x2eu8]
        + spec_dec_of(ip[2] as int) + seq![0x2eu8] + spec_dec_of(ip[3] as int)
}

/// An ASCII digit.
pub open spec fn spec_is_digit(b: u8) -> bool {
    0x30 <= b <= 0x39
}

/// Scan one canonical decimal octet starting at `pos`: a run of 1 to 3
/// digits, no leading zero, value up to 255, ending at the end of the input
/// or before a non-digit. `None` when no such octet starts there.
fn scan_octet(s: &[u8], pos: usize) -> (r: Option<(u8, usize)>)
    requires
        pos <= s@.len(),
        s@.len() < 0x1000_0000,
    ensures
        match r {
            Some(t) => pos < t.1 <= s@.len() && s@.subrange(pos as int, t.1 as int) == spec_dec_of(
                t.0 as int,
            ) && (t.1 == s@.len() || !spec_is_digit(s@[t.1 as int])),
            None => forall|v: u8, end: int|
                pos < end <= s@.len() && (end == s@.len() || !spec_is_digit(s@[end]))
                    ==> s@.subrange(pos as int, end) != spec_dec_of(v as int),
        },
{
    let len = s.len();
    let mut end = pos;
    let mut val: u32 = 0;
    while end < len
        invariant
            pos <= end <= len,
            len == s@.len() < 0x1000_0000,
            end <= pos + 4,
            forall|j: int| pos <= j < end ==> spec_is_digit(#[trigger] s@[j]),
            val == spec_digits_val(s@.subrange(pos as int, end as int)),
            end - pos == 0 ==> val == 0,
            end - pos == 1 ==> val <= 9,
            end - pos == 2 ==> val <= 99,
            end - pos == 3 ==> val <= 999,
            end - pos == 4 ==> val <= 9999,
        ensures
            pos <= end <= len,
            end <= pos + 4,
            forall|j: int| pos <= j < end ==> spec_is_digit(#[trigger] s@[j]),
            val == spec_digits_val(s@.subrange(pos as int, end as int)),
            val <= 9999,
            end == pos + 4 || end == len || !spec_is_digit(s@[end as int]),
        decreases len - end,
    {
        if end == pos + 4 {
            break ;
        }
        let b = s[end];
        if b < 0x30 || b > 0x39 {
            break ;
        }
        proof {
            reveal_with_fuel(spec_digits_val, 2);
            let t = s@.subrange(pos as int, end as int);
            let t1 = s@.subrange(pos as int, end + 1);
            assert(t1.drop_last() =~= t);
            assert(t1.last() == s@[end as int]);
        }
        val = val * 10 + ((b - 0x30) as u32);
        end = end + 1;
    }
    let run = end - pos;
    let ghost sv = s@;
    if run == 0 {
        // Nothing that starts with a digit begins here.
        proof {
            assert forall|v: u8, end2: int|
                pos < end2 <= sv.len() && (end2 == sv.len() || !spec_is_digit(sv[end2]))
                    implies sv.subrange(pos as int, end2) != spec_dec_of(v as int) by {
                lemma_dec_of_props(v as int);
                if sv.subrange(pos as int, end2) == spec_dec_of(v as int) {
                    assert(spec_is_digit(sv.subrange(pos as int, end2)[0]));
                    assert(spec_is_digit(sv[pos as int]));
                }
            }
        }
        return None;
    }
    if run == 4 {
        // Four digits in a row: no octet of value up to 255 fits.
        proof {
            assert forall|v: u8, end2: int|
                pos < end2 <= sv.len() && (end2 == sv.len() || !spec_is_digit(sv[end2]))
                    implies sv.subrange(pos as int, end2) != spec_dec_of(v as int) by {
                lemma_dec_of_props(v as int);
                if sv.subrange(pos as int, end2) == spec_dec_of(v as int) {
                    assert(end2 - pos <= 3);
                    assert(end2 < pos + 4 <= sv.len());
                    assert(spec_is_digit(sv[end2]));
                }
            }
        }
        return None;
    }
    let first = s[pos];
    if run > 1 && first == 0x30 {
        // A leading zero is not canonical.
        proof {
            assert forall|v: u8, end2: int|
                pos < end2 <= sv.len() && (end2 == sv.len() || !spec_is_digit(sv[end2]))
                    implies sv.subrange(pos as int, end2) != spec_dec_of(v as int) by {
                lemma_dec_of_props(v as int);
                if sv.subrange(pos as int, end2) == spec_dec_of(v as int) {
                    if end2 - pos >= 2 {
                        assert(spec_dec_of(v as int)[0] != 0x30);
                        assert(sv.subrange(pos as int, end2)[0] == sv[pos as int]);
                    } else {
                        // A one-digit octet would have to end before the
                        // second digit of the run.
                        assert(end2 == pos + 1);
                        assert(pos + 1 < sv.len() && spec_is_digit(sv[pos + 1]));
                    }
                }
            }
        }
        return None;
    }
    if val > 255 {
        // The run reads above 255; any octet here would be the same run.
        proof {
            assert forall|v: u8, end2: int|
                pos < end2 <= sv.len() && (end2 == sv.len() || !spec_is_digit(sv[end2]))
                    implies sv.subrange(pos as int, end2) != spec_dec_of(v as int) by {
                lemma_dec_of_props(v as int);
                if sv.subrange(pos as int, end2) == spec_dec_of(v as int) {
                    if end2 < end {
                        assert(spec_is_digit(sv[end2]));
                    } else if end2 > end {
                        assert(end < sv.len() && !spec_is_digit(sv[end as int]));
                        assert(sv.subrange(pos as int, end2)[end - pos] == sv[end as int]);
                        assert(spec_is_digit(spec_dec_of(v as int)[end - pos]));
                    } else {
                        assert(spec_digits_val(spec_dec_of(v as int)) == v as int);
                        assert(val <= 255);
                    }
                }
            }
        }
        return None;
    }
    // A canonical octet: 1 to 3 digits, no leading zero, value up to 255.
    proof {
        let t = sv.subrange(pos as int, end as int);
        assert(spec_canonical_octet(t)) by {
            assert(t[0] == sv[pos as int]);
            assert(forall|i: int| 0 <= i < t.len() ==> t[i] == sv[pos + i]);
        }
        lemma_canonical_octet_dec(t);
        assert(spec_dec_of(val as int) =~= t);
    }
    Some((val as u8, end))
}

/// Where each part of a dotted quad sits.
proof fn lemma_dotted_layout(ip: [u8; 4], s: Seq<u8>)
    requires
        s == spec_dotted(ip),
    ensures
        ({
            let l0 = spec_dec_of(ip[0] as int).len() as int;
            let l1 = spec_dec_of(ip[1] as int).len() as int;
            let l2 = spec_dec_of(ip[2] as int).len() as int;
            let l3 = spec_dec_of(ip[3] as int).len() as int;
            let q1 = l0;
            let q2 = q1 + 1 + l1;
            let q3 = q2 + 1 + l2;
            &&& s.len() == l0 + l1 + l2 + l3 + 3
            &&& s.subrange(0, q1) == spec_dec_of(ip[0] as int)
            &&& s[q1] == 0x2eu8
            &&& s.subrange(q1 + 1, q2) == spec_dec_of(ip[1] as int)
            &&& s[q2] == 0x2eu8
            &&& s.subrange(q2 + 1, q3) == spec_dec_of(ip[2] as int)
            &&& s[q3] == 0x2eu8
            &&& s.subrange(q3 + 1, s.len() as int) == spec_dec_of(ip[3] as int)
        }),
{
    lemma_dec_of_props(ip[0] as int);
    lemma_dec_of_props(ip[1] as int);
    lemma_dec_of_props(ip[2] as int);
    lemma_dec_of_props(ip[3] as int);
    let l0 = spec_dec_of(ip[0] as int).len() as int;
    let l1 = spec_dec_of(ip[1] as int).len() as int;
    let l2 = spec_dec_of(ip[2] as int).len() as int;
    let l3 = spec_dec_of(ip[3] as int).len() as int;
    let q1 = l0;
    let q2 = q1 + 1 + l1;
    let q3 = q2 + 1 + l2;
    assert(s.subrange(0, q1) =~= spec_dec_of(ip[0] as int));
    assert(s.subrange(q1 + 1, q2) =~= spec_dec_of(ip[1] as int));
    assert(s.subrange(q2 + 1, q3) =~= spec_dec_of(ip[2] as int));
    assert(s.subrange(q3 + 1, s.len() as int) =~= spec_dec_of(ip[3] as int));
}

/// A successful octet scan at the start of a decimal group lands exactly on
/// the group.
proof fn lemma_scan_agrees(s: Seq<u8>, pos: int, w: u8, gend: int, v: u8, end: int)
    requires
        0 <= pos < gend <= s.len(),
        s.subrange(pos, gend) == spec_dec_of(w as int),
        gend == s.len() || !spec_is_digit(s[gend]),
        pos < end <= s.len(),
        s.subrange(pos, end) == spec_dec_of(v as int),
        end == s.len() || !spec_is_digit(s[end]),
    ensures
        v == w,
        end == gend,
{
    lemma_dec_of_props(w as int);
    lemma_dec_of_props(v as int);
    if end < gend {
        assert(spec_is_digit(spec_dec_of(w as int)[end - pos]));
        assert(spec_dec_of(w as int)[end - pos] == s[end]);
        assert(false);
    } else if end > gend {
        assert(spec_is_digit(spec_dec_of(v as int)[gend - pos]));
        assert(spec_dec_of(v as int)[gend - pos] == s[gend]);
        assert(false);
    }
    assert(spec_digits_val(spec_dec_of(v as int)) == spec_digits_val(spec_dec_of(w as int)));
}

/// Parse a dotted-quad IPv4 address: exactly the strings that
/// `ipv4_to_dotted` produces are accepted, and the parsed address renders
/// back to the input.
#[verifier::rlimit(100)]
pub fn parse_ipv4(s: &[u8]) -> (r: Option<[u8; 4]>)
    requires
        s@.len() < 0x1000_0000,
    ensures
        r matches Some(ip) ==> s@ == spec_dotted(ip),
        r is None ==> forall|ip: [u8; 4]| s@ != spec_dotted(ip),
{
    let len = s.len();
    let ghost sv = s@;
    let r1 = scan_octet(s, 0);
    let (a, p1) = match r1 {
        Some(t) => t,
        None => {
            proof {
                assert forall|ip: [u8; 4]| sv != spec_dotted(ip) by {
                    if sv == spec_dotted(ip) {
                        lemma_dotted_layout(ip, sv);
                        let l0 = spec_dec_of(ip[0] as int).len() as int;
                        assert(sv[l0] == 0x2eu8 && !spec_is_digit(sv[l0]));
                    }
                }
            }
            return None;
        },
    };
    if p1 >= len || s[p1] != 0x2e {
        proof {
            assert forall|ip: [u8; 4]| sv != spec_dotted(ip) by {
                if sv == spec_dotted(ip) {
                    lemma_dotted_layout(ip, sv);
                    let l0 = spec_dec_of(ip[0] as int).len() as int;
                    lemma_scan_agrees(sv, 0, ip[0], l0, a, p1 as int);
                }
            }
        }
        return None;
    }
    let r2 = scan_octet(s, p1 + 1);
    let (b, p2) = match r2 {
        Some(t) => t,
        None => {
            proof {
                assert forall|ip: [u8; 4]| sv != spec_dotted(ip) by {
                    if sv == spec_dotted(ip) {
                        lemma_dotted_layout(ip, sv);
                        let l0 = spec_dec_of(ip[0] as int).len() as int;
                        let l1 = spec_dec_of(ip[1] as int).len() as int;
                        lemma_scan_agrees(sv, 0, ip[0], l0, a, p1 as int);
                        assert(sv[l0 + 1 + l1] == 0x2eu8);
                    }
                }
            }
            return None;
        },
    };
    if p2 >= len || s[p2] != 0x2e {
        proof {
            assert forall|ip: [u8; 4]| sv != spec_dotted(ip) by {
                if sv == spec_dotted(ip) {
                    lemma_dotted_layout(ip, sv);
                    let l0 = spec_dec_of(ip[0] as int).len() as int;
                    let l1 = spec_dec_of(ip[1] as int).len() as int;
                    lemma_scan_agrees(sv, 0, ip[0], l0, a, p1 as int);
                    lemma_scan_agrees(sv, l0 + 1, ip[1], l0 + 1 + l1, b, p2 as int);
                }
            }
        }
        return None;
    }
    let r3 = scan_octet(s, p2 + 1);
    let (c, p3) = match r3 {
        Some(t) => t,
        None => {
            proof {
                assert forall|ip: [u8; 4]| sv != spec_dotted(ip) by {
                    if sv == spec_dotted(ip) {
                        lemma_dotted_layout(ip, sv);
                        let l0 = spec_dec_of(ip[0] as int).len() as int;
                        let l1 = spec_dec_of(ip[1] as int).len() as int;
                        let l2 = spec_dec_of(ip[2] as int).len() as int;
                        lemma_scan_agrees(sv, 0, ip[0], l0, a, p1 as int);
                        lemma_scan_agrees(sv, l0 + 1, ip[1], l0 + 1 + l1, b, p2 as int);
                        assert(sv[l0 + 1 + l1 + 1 + l2] == 0x2eu8);
                    }
                }
            }
            return None;
        },
    };
    if p3 >= len || s[p3] != 0x2e {
        proof {
            assert forall|ip: [u8; 4]| sv != spec_dotted(ip) by {
                if sv == spec_dotted(ip) {
                    lemma_dotted_layout(ip, sv);
                    let l0 = spec_dec_of(ip[0] as int).len() as int;
                    let l1 = spec_dec_of(ip[1] as int).len() as int;
                    let l2 = spec_dec_of(ip[2] as int).len() as int;
                    lemma_scan_agrees(sv, 0, ip[0], l0, a, p1 as int);
                    lemma_scan_agrees(sv, l0 + 1, ip[1], l0 + 1 + l1, b, p2 as int);
                    lemma_scan_agrees(sv, l0 + 1 + l1 + 1, ip[2], l0 + 1 + l1 + 1 + l2, c, p3 as int);
                }
            }
        }
        return None;
    }
    let r4 = scan_octet(s, p3 + 1);
    let (d, p4) = match r4 {
        Some(t) => t,
        None => {
            proof {
                assert forall|ip: [u8; 4]| sv != spec_dotted(ip) by {
                    if sv == spec_dotted(ip) {
                        lemma_dotted_layout(ip, sv);
                        let l0 = spec_dec_of(ip[0] as int).len() as int;
                        let l1 = spec_dec_of(ip[1] as int).len() as int;
                        let l2 = spec_dec_of(ip[2] as int).len() as int;
                        lemma_scan_agrees(sv, 0, ip[0], l0, a, p1 as int);
                        lemma_scan_agrees(sv, l0 + 1, ip[1], l0 + 1 + l1, b, p2 as int);
                        lemma_scan_agrees(sv, l0 + 1 + l1 + 1, ip[2], l0 + 1 + l1 + 1 + l2, c, p3 as int);
                    }
                }
            }
            return None;
        },
    };
    if p4 != len {
        proof {
            assert forall|ip: [u8; 4]| sv != spec_dotted(ip) by {
                if sv == spec_dotted(ip) {
                    lemma_dotted_layout(ip, sv);
                    let l0 = spec_dec_of(ip[0] as int).len() as int;
                    let l1 = spec_dec_of(ip[1] as int).len() as int;
                    let l2 = spec_dec_of(ip[2] as int).len() as int;
                    let l3 = spec_dec_of(ip[3] as int).len() as int;
                    lemma_scan_agrees(sv, 0, ip[0], l0, a, p1 as int);
                    lemma_scan_agrees(sv, l0 + 1, ip[1], l0 + 1 + l1, b, p2 as int);
                    lemma_scan_agrees(sv, l0 + 1 + l1 + 1, ip[2], l0 + 1 + l1 + 1 + l2, c, p3 as int);
                    lemma_scan_agrees(
                        sv,
                        l0 + 1 + l1 + 1 + l2 + 1,
                        ip[3],
                        sv.len() as int,
                        d,
                        p4 as int,
                    );
                }
            }
        }
        return None;
    }
    let ip = [a, b, c, d];
    proof {
        assert(sv =~= spec_dotted(ip)) by {
            assert(sv.subrange(0, p1 as int) == spec_dec_of(a as int));
            assert(sv.subrange(p1 + 1, p2 as int) == spec_dec_of(b as int));
            assert(sv.subrange(p2 + 1, p3 as int) == spec_dec_of(c as int));
            assert(sv.subrange(p3 + 1, p4 as int) == spec_dec_of(d as int));
            assert(ip[0] == a && ip[1] == b && ip[2] == c && ip[3] == d);
        }
    }
    Some(ip)
}

/// Render an IPv4 address in dotted-quad form.
pub fn ipv4_to_dotted(ip: &[u8; 4]) -> (r: Vec<u8>)
    ensures
        r@ == spec_dotted(*ip),
{
    let mut r = u64_to_dec(ip[0] as u64);
    let mut part = u64_to_dec(ip[1] as u64);
    r.push(0x2e);
    r.append(&mut part);
    let mut part = u64_to_dec(ip[2] as u64);
    r.push(0x2e);
    r.append(&mut part);
    let mut part = u64_to_dec(ip[3] as u64);
    r.push(0x2e);
    r.append(&mut part);
    proof {
        assert(r@ =~= spec_dotted(*ip));
    }
    r
}

} // verus!
