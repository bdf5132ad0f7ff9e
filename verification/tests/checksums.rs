//! Internet checksum behaviour on concrete byte strings.

use rvrrpd::checksums::{one_complement_sum, propagate_carries, rfc1071};

#[test]
fn rfc1071_known_sum() {
    // 0x0001 + 0xf203 + 0xf4f5 + 0xf6f7 = 0x2ddf0; folding gives 0xddf2.
    let data = [0x00u8, 0x01, 0xf2, 0x03, 0xf4, 0xf5, 0xf6, 0xf7];
    assert_eq!(rfc1071(&data), 0xddf2);
}

#[test]
fn rfc1071_empty_and_single() {
    assert_eq!(rfc1071(&[]), 0);
    // An odd trailing byte counts as the high half of a word.
    assert_eq!(rfc1071(&[0xab]), 0xab00);
}

#[test]
fn propagate_carries_values() {
    assert_eq!(propagate_carries(0), 0);
    assert_eq!(propagate_carries(0xffff), 0xffff);
    assert_eq!(propagate_carries(0x2ddf0), 0xddf2);
    assert_eq!(propagate_carries(0xffff_ffff), 0xffff);
}

#[test]
fn one_complement_sum_matches_inverted_fold() {
    let data = [0x00u8, 0x01, 0xf2, 0x03, 0xf4, 0xf5, 0xf6, 0xf7];
    assert_eq!(one_complement_sum(&data, None), !0xddf2u16);
}

#[test]
fn checksum_write_then_validate() {
    // The checksum law on a concrete header: compute with the field zeroed,
    // write it, and the folded sum of the whole string is all-ones.
    let mut hdr = vec![
        0x45u8, 0xc0, 0x00, 0x28, 0x00, 0x00, 0x00, 0x00, 0xff, 0x70, 0x00, 0x00, 10, 0, 0, 1,
        224, 0, 0, 18,
    ];
    let csum = one_complement_sum(&hdr, Some(10));
    hdr[10] = (csum >> 8) as u8;
    hdr[11] = csum as u8;
    assert_eq!(rfc1071(&hdr), 0xffff);
}

#[test]
fn one_complement_sum_skips_the_field() {
    // The skipped field does not contribute: garbage there changes nothing.
    let a = [0x12u8, 0x34, 0x00, 0x00, 0x56, 0x78];
    let b = [0x12u8, 0x34, 0xde, 0xad, 0x56, 0x78];
    assert_eq!(one_complement_sum(&a, Some(2)), one_complement_sum(&b, Some(2)));
}
