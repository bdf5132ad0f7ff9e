//! Client API sessions: the account-line grammar, password verification
//! against the stored hashes, and the session token.

use crate::config::CConfig;
use crate::crypto::{
    hmac_sha3_256, random_u64, scrypt_check_raw, sha256_digest, spec_hmac_sha3_256,
    spec_scrypt_check_ok, spec_sha256, unix_time_secs,
};
use crate::textutil::{hex_encode, spec_dec_of, spec_hex_of, spec_is_digit, u64_to_dec};
use vstd::prelude::*;
use vstd::utf8::{encode_utf8, is_ascii_chars};

verus! {

broadcast use vstd::array::group_array_axioms;

/// An ASCII letter or digit.
pub open spec fn spec_is_alnum(b: u8) -> bool {
    (0x30 <= b <= 0x39) || (0x41 <= b <= 0x5a) || (0x61 <= b <= 0x7a)
}

/// An ASCII hex digit.
pub open spec fn spec_is_xdigit(b: u8) -> bool {
    (0x30 <= b <= 0x39) || (0x41 <= b <= 0x46) || (0x61 <= b <= 0x66)
}

/// A printable ASCII character.
pub open spec fn spec_is_print(b: u8) -> bool {
    0x20 <= b <= 0x7e
}

/// The account-line form: the hash algorithm in double braces, then the
/// user name, access level, salt and password hash, colon-separated.
pub open spec fn spec_account_line(
    alg: Seq<u8>,
    user: Seq<u8>,
    level: u8,
    salt: Seq<u8>,
    hash: Seq<u8>,
) -> Seq<u8> {
    seq![0x7bu8, 0x7bu8] + alg + seq![0x7du8, 0x7du8] + user + seq![0x3au8, level, 0x3au8] + salt
        + seq![0x3au8] + hash
}

/// Field constraints of an account line: a short alphanumeric algorithm
/// name, an alphanumeric user name, a single digit access level, a hex
/// salt of up to 64 digits, and a printable hash of 16 to 256 characters.
pub open spec fn spec_account_fields_wf(
    alg: Seq<u8>,
    user: Seq<u8>,
    level: u8,
    salt: Seq<u8>,
    hash: Seq<u8>,
) -> bool {
    &&& 1 <= alg.len() <= 16
    &&& (forall|i: int| 0 <= i < alg.len() ==> spec_is_alnum(#[trigger] alg[i]))
    &&& 1 <= user.len() <= 256
    &&& (forall|i: int| 0 <= i < user.len() ==> spec_is_alnum(#[trigger] user[i]))
    &&& spec_is_digit(level)
    &&& salt.len() <= 64
    &&& (forall|i: int| 0 <= i < salt.len() ==> spec_is_xdigit(#[trigger] salt[i]))
    &&& 16 <= hash.len() <= 256
    &&& (forall|i: int| 0 <= i < hash.len() ==> spec_is_print(#[trigger] hash[i]))
}

/// One parsed account line.
pub struct AccountInfo {
    pub alg: Vec<u8>,
    pub user: Vec<u8>,
    pub level: u8,
    pub salt: Vec<u8>,
    pub hash: Vec<u8>,
}

impl AccountInfo {
    /// The line these fields come from.
    pub open spec fn line(&self) -> Seq<u8> {
        spec_account_line(self.alg@, self.user@, self.level, self.salt@, self.hash@)
    }

    pub open spec fn wf(&self) -> bool {
        spec_account_fields_wf(self.alg@, self.user@, self.level, self.salt@, self.hash@)
    }
}

/// The end of the alphanumeric run starting at `pos`.
fn scan_alnum(s: &[u8], pos: usize) -> (end: usize)
    requires
        pos <= s@.len(),
        s@.len() < 0x1000_0000,
    ensures
        pos <= end <= s@.len(),
        forall|j: int| pos <= j < end ==> spec_is_alnum(#[trigger] s@[j]),
        end == s@.len() || !spec_is_alnum(s@[end as int]),
{
    let len = s.len();
    let mut end = pos;
    while end < len
        invariant
            pos <= end <= len,
            len == s@.len(),
            forall|j: int| pos <= j < end ==> spec_is_alnum(#[trigger] s@[j]),
        ensures
            pos <= end <= len,
            forall|j: int| pos <= j < end ==> spec_is_alnum(#[trigger] s@[j]),
            end == len || !spec_is_alnum(s@[end as int]),
        decreases len - end,
    {
        let b = s[end];
        let alnum = (0x30 <= b && b <= 0x39) || (0x41 <= b && b <= 0x5a) || (0x61 <= b && b
            <= 0x7a);
        if !alnum {
            break ;
        }
        end = end + 1;
    }
    end
}

/// The end of the hex-digit run starting at `pos`.
fn scan_xdigit(s: &[u8], pos: usize) -> (end: usize)
    requires
        pos <= s@.len(),
        s@.len() < 0x1000_0000,
    ensures
        pos <= end <= s@.len(),
        forall|j: int| pos <= j < end ==> spec_is_xdigit(#[trigger] s@[j]),
        end == s@.len() || !spec_is_xdigit(s@[end as int]),
{
    let len = s.len();
    let mut end = pos;
    while end < len
        invariant
            pos <= end <= len,
            len == s@.len(),
            forall|j: int| pos <= j < end ==> spec_is_xdigit(#[trigger] s@[j]),
        ensures
            pos <= end <= len,
            forall|j: int| pos <= j < end ==> spec_is_xdigit(#[trigger] s@[j]),
            end == len || !spec_is_xdigit(s@[end as int]),
        decreases len - end,
    {
        let b = s[end];
        let xd = (0x30 <= b && b <= 0x39) || (0x41 <= b && b <= 0x46) || (0x61 <= b && b <= 0x66);
        if !xd {
            break ;
        }
        end = end + 1;
    }
    end
}

/// Where each field of an account line sits.
proof fn lemma_account_layout(alg: Seq<u8>, user: Seq<u8>, level: u8, salt: Seq<u8>, hash: Seq<u8>)
    requires
        spec_account_fields_wf(alg, user, level, salt, hash),
    ensures
        ({
            let s = spec_account_line(alg, user, level, salt, hash);
            let la = alg.len() as int;
            let lu = user.len() as int;
            let ls = salt.len() as int;
            let u0 = 4 + la;
            let v0 = u0 + lu + 1;
            let s0 = v0 + 2;
            let h0 = s0 + ls + 1;
            &&& s.len() == h0 + hash.len()
            &&& s[0] == 0x7bu8 && s[1] == 0x7bu8
            &&& s.subrange(2, 2 + la) == alg
            &&& s[2 + la] == 0x7du8 && s[3 + la] == 0x7du8
            &&& s.subrange(u0, u0 + lu) == user
            &&& s[u0 + lu] == 0x3au8
            &&& s[v0] == level
            &&& s[v0 + 1] == 0x3au8
            &&& s.subrange(s0, s0 + ls) == salt
            &&& s[s0 + ls] == 0x3au8
            &&& s.subrange(h0, s.len() as int) == hash
        }),
{
    let s = spec_account_line(alg, user, level, salt, hash);
    let la = alg.len() as int;
    let lu = user.len() as int;
    let ls = salt.len() as int;
    let u0 = 4 + la;
    let v0 = u0 + lu + 1;
    let s0 = v0 + 2;
    let h0 = s0 + ls + 1;
    assert(s.subrange(2, 2 + la) =~= alg);
    assert(s.subrange(u0, u0 + lu) =~= user);
    assert(s.subrange(s0, s0 + ls) =~= salt);
    assert(s.subrange(h0, s.len() as int) =~= hash);
}

/// Parse one account line; exactly the well-formed lines are accepted, and
/// the parsed fields rebuild the line.
#[verifier::rlimit(100)]
#[verifier::loop_isolation(false)]
pub fn parse_account(s: &[u8]) -> (r: Option<AccountInfo>)
    requires
        s@.len() < 0x1000_0000,
    ensures
        r matches Some(acc) ==> acc.wf() && s@ == acc.line(),
        r is None ==> forall|alg: Seq<u8>, user: Seq<u8>, level: u8, salt: Seq<u8>, hash: Seq<u8>|
            spec_account_fields_wf(alg, user, level, salt, hash) ==> s@ != spec_account_line(
                alg,
                user,
                level,
                salt,
                hash,
            ),
{
    let len = s.len();
    let ghost sv = s@;
    // A line opens with two braces.
    if len < 2 || s[0] != 0x7b || s[1] != 0x7b {
        proof {
            assert forall|alg: Seq<u8>, user: Seq<u8>, level: u8, salt: Seq<u8>, hash: Seq<u8>|
                spec_account_fields_wf(alg, user, level, salt, hash) implies sv
                != spec_account_line(alg, user, level, salt, hash) by {
                if sv == spec_account_line(alg, user, level, salt, hash) {
                    lemma_account_layout(alg, user, level, salt, hash);
                }
            }
        }
        return None;
    }
    // The algorithm name, closed by two braces.
    let ae = scan_alnum(s, 2);
    if ae == 2 || ae - 2 > 16 || ae + 1 >= len || s[ae] != 0x7d || s[ae + 1] != 0x7d {
        proof {
            assert forall|alg: Seq<u8>, user: Seq<u8>, level: u8, salt: Seq<u8>, hash: Seq<u8>|
                spec_account_fields_wf(alg, user, level, salt, hash) implies sv
                != spec_account_line(alg, user, level, salt, hash) by {
                if sv == spec_account_line(alg, user, level, salt, hash) {
                    lemma_account_layout(alg, user, level, salt, hash);
                    let la = alg.len() as int;
                    assert(forall|j: int| 2 <= j < 2 + la ==> spec_is_alnum(#[trigger] sv[j]));
                    assert(!spec_is_alnum(sv[2 + la]));
                    assert(ae == 2 + la) by {
                        if ae < 2 + la {
                            assert(spec_is_alnum(sv[ae as int]));
                        }
                        if ae > 2 + la {
                            assert(spec_is_alnum(sv[2 + la]));
                        }
                    }
                }
            }
        }
        return None;
    }
    // The user name, closed by a colon.
    let u0 = ae + 2;
    let ue = scan_alnum(s, u0);
    if ue == u0 || ue - u0 > 256 || ue >= len || s[ue] != 0x3a {
        proof {
            assert forall|alg: Seq<u8>, user: Seq<u8>, level: u8, salt: Seq<u8>, hash: Seq<u8>|
                spec_account_fields_wf(alg, user, level, salt, hash) implies sv
                != spec_account_line(alg, user, level, salt, hash) by {
                if sv == spec_account_line(alg, user, level, salt, hash) {
                    lemma_account_layout(alg, user, level, salt, hash);
                    let la = alg.len() as int;
                    let lu = user.len() as int;
                    assert(ae == 2 + la) by {
                        if ae < 2 + la {
                            assert(spec_is_alnum(sv[ae as int]));
                        }
                        if ae > 2 + la {
                            assert(spec_is_alnum(sv[2 + la]));
                        }
                    }
                    assert(forall|j: int|
                        4 + la <= j < 4 + la + lu ==> spec_is_alnum(#[trigger] sv[j]));
                    assert(!spec_is_alnum(sv[4 + la + lu]));
                    assert(ue == 4 + la + lu) by {
                        if ue < 4 + la + lu {
                            assert(spec_is_alnum(sv[ue as int]));
                        }
                        if ue > 4 + la + lu {
                            assert(spec_is_alnum(sv[4 + la + lu]));
                        }
                    }
                }
            }
        }
        return None;
    }
    // A single-digit access level between colons.
    let v0 = ue + 1;
    if v0 + 1 >= len || s[v0] < 0x30 || s[v0] > 0x39 || s[v0 + 1] != 0x3a {
        proof {
            assert forall|alg: Seq<u8>, user: Seq<u8>, level: u8, salt: Seq<u8>, hash: Seq<u8>|
                spec_account_fields_wf(alg, user, level, salt, hash) implies sv
                != spec_account_line(alg, user, level, salt, hash) by {
                if sv == spec_account_line(alg, user, level, salt, hash) {
                    lemma_account_layout(alg, user, level, salt, hash);
                    let la = alg.len() as int;
                    let lu = user.len() as int;
                    assert(ae == 2 + la) by {
                        if ae < 2 + la {
                            assert(spec_is_alnum(sv[ae as int]));
                        }
                        if ae > 2 + la {
                            assert(spec_is_alnum(sv[2 + la]));
                        }
                    }
                    assert(ue == 4 + la + lu) by {
                        if ue < 4 + la + lu {
                            assert(spec_is_alnum(sv[ue as int]));
                        }
                        if ue > 4 + la + lu {
                            assert(spec_is_alnum(sv[4 + la + lu]));
                        }
                    }
                }
            }
        }
        return None;
    }
    // The salt, hex digits closed by a colon.
    let s0 = v0 + 2;
    let se = scan_xdigit(s, s0);
    if se - s0 > 64 || se >= len || s[se] != 0x3a {
        proof {
            assert forall|alg: Seq<u8>, user: Seq<u8>, level: u8, salt: Seq<u8>, hash: Seq<u8>|
                spec_account_fields_wf(alg, user, level, salt, hash) implies sv
                != spec_account_line(alg, user, level, salt, hash) by {
                if sv == spec_account_line(alg, user, level, salt, hash) {
                    lemma_account_layout(alg, user, level, salt, hash);
                    let la = alg.len() as int;
                    let lu = user.len() as int;
                    let ls = salt.len() as int;
                    assert(ae == 2 + la) by {
                        if ae < 2 + la {
                            assert(spec_is_alnum(sv[ae as int]));
                        }
                        if ae > 2 + la {
                            assert(spec_is_alnum(sv[2 + la]));
                        }
                    }
                    assert(ue == 4 + la + lu) by {
                        if ue < 4 + la + lu {
                            assert(spec_is_alnum(sv[ue as int]));
                        }
                        if ue > 4 + la + lu {
                            assert(spec_is_alnum(sv[4 + la + lu]));
                        }
                    }
                    let q0 = 4 + la + lu + 3;
                    assert(forall|j: int| q0 <= j < q0 + ls ==> spec_is_xdigit(#[trigger] sv[j]));
                    assert(!spec_is_xdigit(sv[q0 + ls]));
                    assert(se == q0 + ls) by {
                        if se < q0 + ls {
                            assert(spec_is_xdigit(sv[se as int]));
                        }
                        if se > q0 + ls {
                            assert(spec_is_xdigit(sv[q0 + ls]));
                        }
                    }
                }
            }
        }
        return None;
    }
    // The hash: the printable remainder, 16 to 256 characters.
    let h0 = se + 1;
    let lh = len - h0;
    let mut printable = true;
    let mut j: usize = h0;
    while j < len
        invariant
            h0 <= j <= len,
            printable <==> (forall|t: int| h0 <= t < j ==> spec_is_print(#[trigger] sv[t])),
        decreases len - j,
    {
        let b = s[j];
        if b < 0x20 || b > 0x7e {
            printable = false;
        }
        j = j + 1;
    }
    if lh < 16 || lh > 256 || !printable {
        proof {
            assert forall|alg: Seq<u8>, user: Seq<u8>, level: u8, salt: Seq<u8>, hash: Seq<u8>|
                spec_account_fields_wf(alg, user, level, salt, hash) implies sv
                != spec_account_line(alg, user, level, salt, hash) by {
                if sv == spec_account_line(alg, user, level, salt, hash) {
                    lemma_account_layout(alg, user, level, salt, hash);
                    let la = alg.len() as int;
                    let lu = user.len() as int;
                    let ls = salt.len() as int;
                    assert(ae == 2 + la) by {
                        if ae < 2 + la {
                            assert(spec_is_alnum(sv[ae as int]));
                        }
                        if ae > 2 + la {
                            assert(spec_is_alnum(sv[2 + la]));
                        }
                    }
                    assert(ue == 4 + la + lu) by {
                        if ue < 4 + la + lu {
                            assert(spec_is_alnum(sv[ue as int]));
                        }
                        if ue > 4 + la + lu {
                            assert(spec_is_alnum(sv[4 + la + lu]));
                        }
                    }
                    let q0 = 4 + la + lu + 3;
                    assert(se == q0 + ls) by {
                        if se < q0 + ls {
                            assert(spec_is_xdigit(sv[se as int]));
                        }
                        if se > q0 + ls {
                            assert(spec_is_xdigit(sv[q0 + ls]));
                        }
                    }
                    assert(h0 == q0 + ls + 1);
                    assert(lh == hash.len());
                    assert(forall|t: int|
                        h0 <= t < len ==> sv[t] == hash[t - h0] && spec_is_print(
                            #[trigger] sv[t],
                        ));
                }
            }
        }
        return None;
    }
    let acc = AccountInfo {
        alg: vstd::slice::slice_to_vec(vstd::slice::slice_subrange(s, 2, ae)),
        user: vstd::slice::slice_to_vec(vstd::slice::slice_subrange(s, u0, ue)),
        level: s[v0],
        salt: vstd::slice::slice_to_vec(vstd::slice::slice_subrange(s, s0, se)),
        hash: vstd::slice::slice_to_vec(vstd::slice::slice_subrange(s, h0, len)),
    };
    proof {
        assert(acc.wf());
        assert(sv =~= acc.line());
    }
    Some(acc)
}

/// The algorithm name `SHA256`, as bytes.
pub open spec fn spec_alg_sha256() -> Seq<u8> {
    seq![0x53u8, 0x48u8, 0x41u8, 0x32u8, 0x35u8, 0x36u8]
}

/// The algorithm name `scrypt`, as bytes.
pub open spec fn spec_alg_scrypt() -> Seq<u8> {
    seq![0x73u8, 0x63u8, 0x72u8, 0x79u8, 0x70u8, 0x74u8]
}

/// Whether an account line matches this user and password: it parses, the
/// user name agrees, and the password verifies under the named algorithm
/// (`SHA256` of password and salt, or `scrypt`).
pub open spec fn spec_account_matches(line: Seq<u8>, user: Seq<u8>, passwd: Seq<u8>) -> bool {
    exists|alg: Seq<u8>, uname: Seq<u8>, level: u8, salt: Seq<u8>, hash: Seq<u8>|
        {
            &&& #[trigger] spec_account_fields_wf(alg, uname, level, salt, hash)
            &&& line == spec_account_line(alg, uname, level, salt, hash)
            &&& uname == user
            &&& ((alg == spec_alg_sha256() && hash == spec_hex_of(spec_sha256(passwd + salt))) || (
            alg == spec_alg_scrypt() && spec_scrypt_check_ok(passwd, hash)))
        }
}

/// An account line determines its fields.
proof fn lemma_account_line_injective(
    a1: Seq<u8>,
    u1: Seq<u8>,
    l1: u8,
    s1: Seq<u8>,
    h1: Seq<u8>,
    a2: Seq<u8>,
    u2: Seq<u8>,
    l2: u8,
    s2: Seq<u8>,
    h2: Seq<u8>,
)
    requires
        spec_account_fields_wf(a1, u1, l1, s1, h1),
        spec_account_fields_wf(a2, u2, l2, s2, h2),
        spec_account_line(a1, u1, l1, s1, h1) == spec_account_line(a2, u2, l2, s2, h2),
    ensures
        a1 == a2,
        u1 == u2,
        l1 == l2,
        s1 == s2,
        h1 == h2,
{
    let sv = spec_account_line(a1, u1, l1, s1, h1);
    lemma_account_layout(a1, u1, l1, s1, h1);
    lemma_account_layout(a2, u2, l2, s2, h2);
    let la1 = a1.len() as int;
    let la2 = a2.len() as int;
    assert(la1 == la2) by {
        if la1 < la2 {
            assert(sv[2 + la1] == 0x7du8);
            assert(spec_is_alnum(a2[la1]));
            assert(sv[2 + la1] == a2[la1]);
        }
        if la2 < la1 {
            assert(sv[2 + la2] == 0x7du8);
            assert(spec_is_alnum(a1[la2]));
            assert(sv[2 + la2] == a1[la2]);
        }
    }
    assert(a1 =~= a2) by {
        assert(a1 == sv.subrange(2, 2 + la1) && a2 == sv.subrange(2, 2 + la2));
    }
    let u0 = 4 + la1;
    let lu1 = u1.len() as int;
    let lu2 = u2.len() as int;
    assert(lu1 == lu2) by {
        if lu1 < lu2 {
            assert(sv[u0 + lu1] == 0x3au8);
            assert(spec_is_alnum(u2[lu1]));
            assert(sv[u0 + lu1] == u2[lu1]);
        }
        if lu2 < lu1 {
            assert(sv[u0 + lu2] == 0x3au8);
            assert(spec_is_alnum(u1[lu2]));
            assert(sv[u0 + lu2] == u1[lu2]);
        }
    }
    assert(u1 =~= u2) by {
        assert(u1 == sv.subrange(u0, u0 + lu1) && u2 == sv.subrange(u0, u0 + lu2));
    }
    let v0 = u0 + lu1 + 1;
    assert(l1 == sv[v0] && l2 == sv[v0]);
    let s0 = v0 + 2;
    let ls1 = s1.len() as int;
    let ls2 = s2.len() as int;
    assert(ls1 == ls2) by {
        if ls1 < ls2 {
            assert(sv[s0 + ls1] == 0x3au8);
            assert(spec_is_xdigit(s2[ls1]));
            assert(sv[s0 + ls1] == s2[ls1]);
        }
        if ls2 < ls1 {
            assert(sv[s0 + ls2] == 0x3au8);
            assert(spec_is_xdigit(s1[ls2]));
            assert(sv[s0 + ls2] == s1[ls2]);
        }
    }
    assert(s1 =~= s2) by {
        assert(s1 == sv.subrange(s0, s0 + ls1) && s2 == sv.subrange(s0, s0 + ls2));
    }
    let h0 = s0 + ls1 + 1;
    assert(h1 =~= h2) by {
        assert(h1 == sv.subrange(h0, sv.len() as int) && h2 == sv.subrange(h0, sv.len() as int));
    }
}

/// Compare two byte strings.
pub fn bytes_eq(a: &[u8], b: &[u8]) -> (r: bool)
    ensures
        r == (a@ == b@),
{
    let n = a.len();
    if n != b.len() {
        proof {
            assert(a@ != b@);
        }
        return false;
    }
    let mut i: usize = 0;
    while i < n
        invariant
            n == a@.len() == b@.len(),
            0 <= i <= n,
            forall|j: int| 0 <= j < i ==> a@[j] == b@[j],
        decreases n - i,
    {
        if a[i] != b[i] {
            proof {
                assert(a@[i as int] != b@[i as int]);
            }
            return false;
        }
        i = i + 1;
    }
    proof {
        assert(a@ =~= b@);
    }
    true
}

/// Try this user and password against every configured account line: the
/// user name must agree and the password must verify under the line's
/// algorithm. Returns the authenticated user name.
#[verifier::loop_isolation(false)]
pub fn auth_user_from_db(cfg: &CConfig, user: &[u8], passwd: &[u8]) -> (r: Option<Vec<u8>>)
    ensures
        match (r, &cfg.api) {
            (Some(u), Some(api)) => u@ == user@ && exists|i: int|
                0 <= i < api.users@.len() && spec_account_matches(
                    encode_utf8(#[trigger] api.users@[i]@),
                    user@,
                    passwd@,
                ),
            (None, Some(api)) => forall|i: int|
                0 <= i < api.users@.len() ==> !spec_account_matches(
                    encode_utf8(#[trigger] api.users@[i]@),
                    user@,
                    passwd@,
                ),
            (None, None) => true,
            _ => false,
        },
{
    let api = match &cfg.api {
        Some(api) => api,
        None => {
            return None;
        },
    };
    let n = api.users.len();
    let mut i: usize = 0;
    while i < n
        invariant
            n == api.users@.len(),
            0 <= i <= n,
            forall|j: int|
                0 <= j < i ==> !spec_account_matches(
                    encode_utf8(#[trigger] api.users@[j]@),
                    user@,
                    passwd@,
                ),
        decreases n - i,
    {
        let line = api.users[i].as_str().as_bytes();
        let ghost lv = encode_utf8(api.users@[i as int]@);
        proof {
            assert(line@ == lv);
        }
        if line.len() < 0x1000_0000 {
            match parse_account(line) {
                Some(acc) => {
                    let ghost af = (acc.alg@, acc.user@, acc.level, acc.salt@, acc.hash@);
                    if bytes_eq(acc.user.as_slice(), user) {
                        let sha = [0x53u8, 0x48, 0x41, 0x32, 0x35, 0x36];
                        let scr = [0x73u8, 0x63, 0x72, 0x79, 0x70, 0x74];
                        proof {
                            assert(sha@ =~= spec_alg_sha256());
                            assert(scr@ =~= spec_alg_scrypt());
                        }
                        if bytes_eq(acc.alg.as_slice(), sha.as_slice()) {
                            // SHA-256 of password and salt, in hex.
                            let mut pwsalt = vstd::slice::slice_to_vec(passwd);
                            let mut saltv = vstd::slice::slice_to_vec(acc.salt.as_slice());
                            pwsalt.append(&mut saltv);
                            let digest = sha256_digest(pwsalt.as_slice());
                            let h2 = hex_encode(digest.as_slice());
                            if bytes_eq(h2.as_slice(), acc.hash.as_slice()) {
                                proof {
                                    lemma_account_match_holds(lv, user@, passwd@, af);
                                }
                                return Some(vstd::slice::slice_to_vec(user));
                            } else {
                                proof {
                                    lemma_account_match_fails(lv, user@, passwd@, af);
                                }
                            }
                        } else if bytes_eq(acc.alg.as_slice(), scr.as_slice()) {
                            if scrypt_check_raw(passwd, acc.hash.as_slice()) {
                                proof {
                                    lemma_account_match_holds(lv, user@, passwd@, af);
                                }
                                return Some(vstd::slice::slice_to_vec(user));
                            } else {
                                proof {
                                    lemma_account_match_fails(lv, user@, passwd@, af);
                                }
                            }
                        } else {
                            proof {
                                lemma_account_match_fails(lv, user@, passwd@, af);
                            }
                        }
                    } else {
                        proof {
                            lemma_account_match_fails(lv, user@, passwd@, af);
                        }
                    }
                },
                None => {
                    proof {
                        if spec_account_matches(lv, user@, passwd@) {
                            let (alg, uname, level, salt, hash) = choose|
                                alg: Seq<u8>,
                                uname: Seq<u8>,
                                level: u8,
                                salt: Seq<u8>,
                                hash: Seq<u8>,
                            |
                                spec_account_fields_wf(alg, uname, level, salt, hash) && lv
                                    == spec_account_line(alg, uname, level, salt, hash);
                        }
                    }
                },
            }
        } else {
            proof {
                lemma_long_line_no_match(lv, user@, passwd@);
            }
        }
        i = i + 1;
    }
    None
}

/// A line whose parsed fields satisfy one of the algorithms matches.
proof fn lemma_account_match_holds(
    line: Seq<u8>,
    user: Seq<u8>,
    passwd: Seq<u8>,
    f: (Seq<u8>, Seq<u8>, u8, Seq<u8>, Seq<u8>),
)
    requires
        spec_account_fields_wf(f.0, f.1, f.2, f.3, f.4),
        line == spec_account_line(f.0, f.1, f.2, f.3, f.4),
        f.1 == user,
        (f.0 == spec_alg_sha256() && f.4 == spec_hex_of(spec_sha256(passwd + f.3))) || (f.0
            == spec_alg_scrypt() && spec_scrypt_check_ok(passwd, f.4)),
    ensures
        spec_account_matches(line, user, passwd),
{
}

/// A line whose (unique) fields fail both algorithms does not match.
proof fn lemma_account_match_fails(
    line: Seq<u8>,
    user: Seq<u8>,
    passwd: Seq<u8>,
    f: (Seq<u8>, Seq<u8>, u8, Seq<u8>, Seq<u8>),
)
    requires
        spec_account_fields_wf(f.0, f.1, f.2, f.3, f.4),
        line == spec_account_line(f.0, f.1, f.2, f.3, f.4),
        !(f.1 == user && ((f.0 == spec_alg_sha256() && f.4 == spec_hex_of(
            spec_sha256(passwd + f.3),
        )) || (f.0 == spec_alg_scrypt() && spec_scrypt_check_ok(passwd, f.4)))),
    ensures
        !spec_account_matches(line, user, passwd),
{
    if spec_account_matches(line, user, passwd) {
        let (alg, uname, level, salt, hash) = choose|
            alg: Seq<u8>,
            uname: Seq<u8>,
            level: u8,
            salt: Seq<u8>,
            hash: Seq<u8>,
        |
            {
                &&& #[trigger] spec_account_fields_wf(alg, uname, level, salt, hash)
                &&& line == spec_account_line(alg, uname, level, salt, hash)
                &&& uname == user
                &&& ((alg == spec_alg_sha256() && hash == spec_hex_of(spec_sha256(passwd + salt)))
                    || (alg == spec_alg_scrypt() && spec_scrypt_check_ok(passwd, hash)))
            };
        lemma_account_line_injective(
            alg,
            uname,
            level,
            salt,
            hash,
            f.0,
            f.1,
            f.2,
            f.3,
            f.4,
        );
    }
}

/// A byte string too long to be an account line does not match.
proof fn lemma_long_line_no_match(line: Seq<u8>, user: Seq<u8>, passwd: Seq<u8>)
    requires
        line.len() >= 0x1000_0000,
    ensures
        !spec_account_matches(line, user, passwd),
{
    if spec_account_matches(line, user, passwd) {
        let (alg, uname, level, salt, hash) = choose|
            alg: Seq<u8>,
            uname: Seq<u8>,
            level: u8,
            salt: Seq<u8>,
            hash: Seq<u8>,
        |
            spec_account_fields_wf(alg, uname, level, salt, hash) && line == spec_account_line(
                alg,
                uname,
                level,
                salt,
                hash,
            );
    }
}

/// A client API session token.
pub struct SessionToken {
    pub user: Vec<u8>,
    pub ts_since: u64,
    pub ts_valid: u64,
    pub nonce: u64,
    pub token: Vec<u8>,
    pub secure: bool,
}

impl SessionToken {
    /// An empty token: the literal `null` user and token, zero timestamps.
    pub fn new() -> (r: SessionToken)
        ensures
            r.user@ =~= seq![0x6eu8, 0x75u8, 0x6cu8, 0x6cu8],
            r.ts_since == 0,
            r.ts_valid == 0,
            r.nonce == 0,
            r.token@ =~= seq![0x6eu8, 0x75u8, 0x6cu8, 0x6cu8],
            r.secure == false,
    {
        let user = vstd::slice::slice_to_vec("null".as_bytes());
        let token = vstd::slice::slice_to_vec("null".as_bytes());
        proof {
            reveal_strlit("null");
            assert(is_ascii_chars("null"@));
            vstd::utf8::is_ascii_chars_encode_utf8("null"@);
            assert(encode_utf8("null"@) =~= seq![0x6eu8, 0x75u8, 0x6cu8, 0x6cu8]);
        }
        SessionToken { user, ts_since: 0, ts_valid: 0, nonce: 0, token, secure: false }
    }

    pub fn set_user(&mut self, user: Vec<u8>)
        ensures
            *final(self) == (SessionToken { user, ..*old(self) }),
    {
        self.user = user;
    }

    pub fn set_tssince(&mut self, ts: u64)
        ensures
            *final(self) == (SessionToken { ts_since: ts, ..*old(self) }),
    {
        self.ts_since = ts;
    }

    /// Arm the validity window: valid until `ts_since + duration`,
    /// saturating.
    pub fn set_validfor(&mut self, duration: u64) -> (r: u64)
        ensures
            final(self).ts_valid as int == if old(self).ts_since + duration <= u64::MAX {
                old(self).ts_since + duration
            } else {
                u64::MAX as int
            },
            *final(self) == (SessionToken { ts_valid: final(self).ts_valid, ..*old(self) }),
            r == final(self).ts_valid,
    {
        if self.ts_since <= u64::MAX - duration {
            self.ts_valid = self.ts_since + duration;
        } else {
            self.ts_valid = u64::MAX;
        }
        self.ts_valid
    }

    pub fn set_nonce(&mut self, nonce: u64)
        ensures
            *final(self) == (SessionToken { nonce, ..*old(self) }),
    {
        self.nonce = nonce;
    }

    pub fn set_token(&mut self, token: Vec<u8>)
        ensures
            *final(self) == (SessionToken { token, ..*old(self) }),
    {
        self.token = token;
    }

    /// Generate the token: the current time becomes `ts_since`, a fresh
    /// nonce is drawn, and the token is the hex HMAC-SHA3-256 of the user,
    /// timestamp and nonce (in decimal) under the secret. `tls` marks the
    /// token secure.
    pub fn gen_token(&mut self, secret: &[u8], tls: bool)
        ensures
            final(self).user == old(self).user,
            final(self).ts_valid == old(self).ts_valid,
            final(self).secure == (old(self).secure || tls),
            final(self).token@ == spec_token_of(
                secret@,
                old(self).user@,
                final(self).ts_since,
                final(self).nonce,
            ),
    {
        let time = unix_time_secs();
        self.ts_since = time;
        let nonce = random_u64();
        self.nonce = nonce;
        let mut utn = vstd::slice::slice_to_vec(self.user.as_slice());
        let mut d1 = u64_to_dec(time);
        utn.append(&mut d1);
        let mut d2 = u64_to_dec(nonce);
        utn.append(&mut d2);
        let token = gen_hmac_string(utn.as_slice(), secret);
        self.token = token;
        if tls {
            self.secure = true;
        }
    }

    /// The authenticated user name.
    pub fn user(&self) -> (r: Vec<u8>)
        ensures
            r@ == self.user@,
    {
        vstd::slice::slice_to_vec(self.user.as_slice())
    }

    /// Seconds since the Unix epoch when the token was issued.
    pub fn ts_since(&self) -> (r: u64)
        ensures
            r == self.ts_since,
    {
        self.ts_since
    }

    /// The token's nonce.
    pub fn nonce(&self) -> (r: u64)
        ensures
            r == self.nonce,
    {
        self.nonce
    }

    /// The token value, lowercase hex.
    pub fn token(&self) -> (r: Vec<u8>)
        ensures
            r@ == self.token@,
    {
        vstd::slice::slice_to_vec(self.token.as_slice())
    }

    /// Whether the token was issued over TLS.
    pub fn secure(&self) -> (r: bool)
        ensures
            r == self.secure,
    {
        self.secure
    }

    /// Check the token's integrity: recompute the HMAC over the stored
    /// user, timestamp and nonce and compare. The caller is expected to
    /// sleep a short random delay before calling, as a timing-attack
    /// mitigation.
    pub fn validate(&self, secret: &[u8]) -> (r: Option<Vec<u8>>)
        ensures
            r is Some <==> self.token@ == spec_token_of(
                secret@,
                self.user@,
                self.ts_since,
                self.nonce,
            ),
            r matches Some(t) ==> t@ == self.token@,
    {
        let mut utn = vstd::slice::slice_to_vec(self.user.as_slice());
        let mut d1 = u64_to_dec(self.ts_since);
        utn.append(&mut d1);
        let mut d2 = u64_to_dec(self.nonce);
        utn.append(&mut d2);
        let expected = gen_hmac_string(utn.as_slice(), secret);
        if bytes_eq(expected.as_slice(), self.token.as_slice()) {
            Some(expected)
        } else {
            None
        }
    }
}

/// What a session token is: the hex HMAC-SHA3-256, under the secret, of the
/// user name followed by the decimal timestamp and decimal nonce.
pub open spec fn spec_token_of(secret: Seq<u8>, user: Seq<u8>, ts: u64, nonce: u64) -> Seq<u8> {
    spec_hex_of(spec_hmac_sha3_256(secret, user + spec_dec_of(ts as int) + spec_dec_of(nonce as int)))
}

/// The hex HMAC-SHA3-256 of an input under a secret.
pub fn gen_hmac_string(input: &[u8], secret: &[u8]) -> (r: Vec<u8>)
    ensures
        r@ == spec_hex_of(spec_hmac_sha3_256(secret@, input@)),
{
    let tag = hmac_sha3_256(secret, input);
    hex_encode(tag.as_slice())
}

/// Authenticate an API user and mint a session token valid for 60 seconds.
/// Succeeds exactly when some configured account line matches the user and
/// password.
pub fn auth_api_client(cfg: &CConfig, user: &[u8], passwd: &[u8]) -> (r: Option<SessionToken>)
    ensures
        match (r, &cfg.api) {
            (Some(tok), Some(api)) => {
                &&& tok.user@ == user@
                &&& tok.ts_valid as int == if tok.ts_since + 60 <= u64::MAX {
                    tok.ts_since + 60
                } else {
                    u64::MAX as int
                }
                &&& tok.token@ == spec_token_of(
                    encode_utf8(api.secret@),
                    user@,
                    tok.ts_since,
                    tok.nonce,
                )
                &&& tok.secure == api.tls
                &&& exists|i: int|
                    0 <= i < api.users@.len() && spec_account_matches(
                        encode_utf8(#[trigger] api.users@[i]@),
                        user@,
                        passwd@,
                    )
            },
            (None, Some(api)) => forall|i: int|
                0 <= i < api.users@.len() ==> !spec_account_matches(
                    encode_utf8(#[trigger] api.users@[i]@),
                    user@,
                    passwd@,
                ),
            (None, None) => true,
            _ => false,
        },
{
    let usr = match auth_user_from_db(cfg, user, passwd) {
        Some(u) => u,
        None => {
            return None;
        },
    };
    let api = match &cfg.api {
        Some(api) => api,
        None => {
            return None;
        },
    };
    let mut token = SessionToken::new();
    token.set_user(usr);
    token.gen_token(api.secret.as_str().as_bytes(), api.tls);
    token.set_validfor(60);
    Some(token)
}

} // verus!
