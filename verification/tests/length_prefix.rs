use miden_objects::utils::{ByteWriter, Serializable};
use miden_objects::{Digest, Felt};
use transaction_store::length_prefix::{announced_items_fit, read_count};

fn encoded_count(count: usize) -> Vec<u8> {
    let mut bytes: Vec<u8> = Vec::new();
    bytes.write_usize(count);
    bytes
}

fn digests(count: usize) -> Vec<Digest> {
    let mut all = Vec::new();
    for i in 0..count {
        let base = 4 * i as u64;
        all.push(Digest::new([
            Felt::new(base),
            Felt::new(base + 1),
            Felt::new(base + 2),
            Felt::new(base + 3),
        ]));
    }
    all
}

#[test]
fn count_of_one_byte() {
    assert_eq!(read_count(&[0x01]), Some(0));
    assert_eq!(read_count(&[0x03]), Some(1));
    assert_eq!(read_count(&[0xff]), Some(127));
    assert_eq!(read_count(&[0x05, 0xaa, 0xbb]), Some(2));
}

#[test]
fn count_of_two_bytes() {
    assert_eq!(read_count(&[0x02, 0x02]), Some(128));
    assert_eq!(read_count(&[0xfe, 0xff]), Some(16_383));
}

#[test]
fn count_of_nine_bytes() {
    assert_eq!(read_count(&[0, 0xff, 0xff, 0xff, 0xff, 0xff, 0xff, 0xff, 0xff]), Some(u64::MAX));
    assert_eq!(read_count(&[0, 1, 0, 0, 0, 0, 0, 0, 0]), Some(1));
    assert_eq!(read_count(&[0, 0, 0, 0, 0, 0, 0, 0, 1]), Some(1 << 56));
}

#[test]
fn count_that_is_cut_short() {
    assert_eq!(read_count(&[]), None);
    assert_eq!(read_count(&[0x02]), None);
    assert_eq!(read_count(&[0x80, 1, 2, 3, 4, 5, 6]), None);
    assert_eq!(read_count(&[0, 1, 2, 3, 4, 5, 6, 7]), None);
}

#[test]
fn count_agrees_with_the_encoder() {
    let mut samples: Vec<u64> = vec![0, 1, 2, 126, 127, 128, 129, 255, 256, 16_383, 16_384];
    for shift in 0..64u32 {
        let power = 1u64 << shift;
        samples.push(power - 1);
        samples.push(power);
        samples.push(power + 1);
    }
    samples.push(u64::MAX - 1);
    samples.push(u64::MAX);
    for count in samples {
        let bytes = encoded_count(count as usize);
        assert_eq!(read_count(&bytes), Some(count), "count {count}");
        let mut longer = bytes.clone();
        longer.extend_from_slice(&[0xab, 0xcd]);
        assert_eq!(read_count(&longer), Some(count), "count {count} with more bytes");
        if bytes.len() > 1 {
            assert_eq!(read_count(&bytes[..bytes.len() - 1]), None, "count {count} cut short");
        }
    }
}

#[test]
fn encoded_lists_fit() {
    for count in [0usize, 1, 2, 63, 64, 127, 128, 129, 300] {
        let bytes = digests(count).to_bytes();
        assert_eq!(read_count(&bytes), Some(count as u64));
        assert!(announced_items_fit(&bytes, 32), "count {count}");
        let mut longer = bytes.clone();
        longer.push(7);
        assert!(announced_items_fit(&longer, 32), "count {count} with one more byte");
        if count > 0 {
            assert!(!announced_items_fit(&bytes[..bytes.len() - 1], 32), "count {count} cut short");
        }
    }
}

#[test]
fn a_count_beyond_the_bytes_does_not_fit() {
    assert!(!announced_items_fit(&[], 32));
    assert!(!announced_items_fit(&[0x03], 32));
    assert!(!announced_items_fit(&[0, 0xff, 0xff, 0xff, 0xff, 0xff, 0xff, 0xff, 0xff], 32));
    let mut bytes = encoded_count(1 << 58);
    bytes.extend_from_slice(&[0u8; 64]);
    assert!(!announced_items_fit(&bytes, 32));
    let mut bytes = encoded_count(3);
    bytes.extend_from_slice(&[0u8; 95]);
    assert!(!announced_items_fit(&bytes, 32));
    bytes.push(0);
    assert!(announced_items_fit(&bytes, 32));
}

#[test]
fn items_of_another_length() {
    let mut bytes = encoded_count(5);
    bytes.extend_from_slice(&[0u8; 14]);
    assert!(!announced_items_fit(&bytes, 3));
    bytes.push(0);
    assert!(announced_items_fit(&bytes, 3));
    assert!(announced_items_fit(&bytes, 1));
    assert!(!announced_items_fit(&bytes, 4));
    assert!(!announced_items_fit(&bytes, usize::MAX));
    assert!(announced_items_fit(&encoded_count(0), usize::MAX));
}
