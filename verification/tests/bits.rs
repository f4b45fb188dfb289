use ls_sim::bits::{low_bits, pow2_u64};

#[test]
fn low_bits_small_widths() {
    assert_eq!(low_bits(0), 0);
    assert_eq!(low_bits(1), 1);
    assert_eq!(low_bits(2), 3);
    assert_eq!(low_bits(8), 0xff);
    assert_eq!(low_bits(16), 0xffff);
}

#[test]
fn low_bits_wide_widths() {
    assert_eq!(low_bits(32), 0xffff_ffff);
    assert_eq!(low_bits(63), 0x7fff_ffff_ffff_ffff);
    assert_eq!(low_bits(64), u64::MAX);
}

#[test]
fn pow2_values() {
    assert_eq!(pow2_u64(0), 1);
    assert_eq!(pow2_u64(1), 2);
    assert_eq!(pow2_u64(10), 1024);
    assert_eq!(pow2_u64(63), 0x8000_0000_0000_0000);
}
