use ark_ff::BigInt;
use ark_xsk233::bigint_to_le_bytes;
use ark_xsk233::scalar::words_to_le_bytes;

#[test]
fn zero_scalar_has_no_bytes() {
    assert_eq!(bigint_to_le_bytes(BigInt([0, 0, 0, 0])), Vec::<u8>::new());
}

#[test]
fn small_scalar_is_one_byte() {
    assert_eq!(bigint_to_le_bytes(BigInt([100, 0, 0, 0])), vec![100u8]);
    assert_eq!(bigint_to_le_bytes(BigInt([1, 0, 0, 0])), vec![1u8]);
}

#[test]
fn scalar_bytes_are_little_endian() {
    assert_eq!(bigint_to_le_bytes(BigInt([0x0102, 0, 0, 0])), vec![2u8, 1]);
    assert_eq!(
        bigint_to_le_bytes(BigInt([0x0807_0605_0403_0201, 0, 0, 0])),
        vec![1u8, 2, 3, 4, 5, 6, 7, 8]
    );
}

#[test]
fn inner_zero_bytes_are_kept() {
    assert_eq!(
        bigint_to_le_bytes(BigInt([0, 1, 0, 0])),
        vec![0u8, 0, 0, 0, 0, 0, 0, 0, 1]
    );
}

#[test]
fn scalar_bytes_are_cut_to_thirty() {
    let r = bigint_to_le_bytes(BigInt([u64::MAX; 4]));
    assert_eq!(r, vec![0xffu8; 30]);
    let r = bigint_to_le_bytes(BigInt([0, 0, 0, 0xffff_0000_0000_0000]));
    assert_eq!(r, Vec::<u8>::new());
    let r = bigint_to_le_bytes(BigInt([0, 0, 0, 0x0000_5500_0000_0000]));
    let mut expected = vec![0u8; 29];
    expected.push(0x55);
    assert_eq!(r, expected);
}

#[test]
fn scalar_field_order_fits_in_twenty_nine_bytes() {
    let r = bigint_to_le_bytes(BigInt([
        0x6efb_1ad5_f173_abdf,
        0x0006_9d5b_b915_bcd4,
        0,
        0x80_0000_0000,
    ]));
    assert_eq!(r.len(), 29);
    assert_eq!(r[0], 0xdf);
    assert_eq!(r[28], 0x80);
}

#[test]
fn words_give_eight_bytes_each() {
    assert_eq!(words_to_le_bytes(&[]), Vec::<u8>::new());
    assert_eq!(
        words_to_le_bytes(&[0x0807_0605_0403_0201]),
        vec![1u8, 2, 3, 4, 5, 6, 7, 8]
    );
    assert_eq!(
        words_to_le_bytes(&[1, 0]),
        vec![1u8, 0, 0, 0, 0, 0, 0, 0, 0, 0, 0, 0, 0, 0, 0, 0]
    );
}
