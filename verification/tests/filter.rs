use miden_objects::transaction::TransactionId;
use miden_objects::{Digest, Felt};
use transaction_store::filter::TransactionFilter;

fn id(seed: u64) -> TransactionId {
    TransactionId::from(Digest::new([
        Felt::new(seed),
        Felt::new(seed + 1),
        Felt::new(seed + 2),
        Felt::new(seed + 3),
    ]))
}

#[test]
fn all_is_spelled_all() {
    assert_eq!(TransactionFilter::All.encode(), "All");
}

#[test]
fn uncommitted_keeps_the_wire_spelling() {
    assert_eq!(TransactionFilter::Uncomitted.encode(), "Uncomitted");
}

#[test]
fn expired_before_carries_the_height() {
    assert_eq!(TransactionFilter::ExpiredBefore(0).encode(), "ExpiredPending:0");
    assert_eq!(TransactionFilter::ExpiredBefore(7).encode(), "ExpiredPending:7");
    assert_eq!(TransactionFilter::ExpiredBefore(1200).encode(), "ExpiredPending:1200");
    assert_eq!(TransactionFilter::ExpiredBefore(u32::MAX).encode(), "ExpiredPending:4294967295");
}

#[test]
fn no_ids_give_the_bare_tag() {
    assert_eq!(TransactionFilter::Ids(Vec::new()).encode(), "Ids:");
}

#[test]
fn one_id_has_no_comma() {
    let token = TransactionFilter::Ids(vec![id(5)]).encode();
    assert_eq!(token, format!("Ids:{}", id(5)));
    assert_eq!(
        token,
        "Ids:0x0500000000000000060000000000000007000000000000000800000000000000"
    );
}

#[test]
fn two_ids_are_joined_in_their_order() {
    let (id1, id2) = (id(1), id(2));
    let token = TransactionFilter::Ids(vec![id1, id2]).encode();
    assert_eq!(token, format!("Ids:{id1},{id2}"));
    let swapped = TransactionFilter::Ids(vec![id2, id1]).encode();
    assert_eq!(swapped, format!("Ids:{id2},{id1}"));
    assert_ne!(token, swapped);
}

#[test]
fn many_ids_are_joined_in_their_order() {
    let ids: Vec<TransactionId> = [9u64, 3, 7, 3, 1].iter().map(|seed| id(*seed)).collect();
    let texts: Vec<String> = ids.iter().map(|id| id.to_string()).collect();
    let token = TransactionFilter::Ids(ids).encode();
    assert_eq!(token, format!("Ids:{}", texts.join(",")));
    let mut start = 4;
    for text in texts {
        assert_eq!(&token[start..start + text.len()], text);
        start += text.len() + 1;
    }
    assert_eq!(start, token.len() + 1);
}

#[test]
fn encoding_twice_gives_one_token() {
    let filter = TransactionFilter::Ids(vec![id(1), id(2), id(3)]);
    assert_eq!(filter.encode(), filter.encode());
}

#[test]
fn id_texts_are_digests_in_hexadecimal() {
    for seed in [0u64, 1, 255, 1 << 40, 0xffff_fffe_ffff_fffc] {
        let text = id(seed).to_string();
        let token = TransactionFilter::Ids(vec![id(seed)]).encode();
        assert_eq!(token, format!("Ids:{text}"));
        assert_eq!(text.len(), 66);
        assert!(text.starts_with("0x"));
        assert!(text[2..].chars().all(|c| matches!(c, '0'..='9' | 'a'..='f')));
        assert!(!token.contains(','));
    }
}
