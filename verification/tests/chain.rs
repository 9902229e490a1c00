use hashchain::block::Block;
use hashchain::chain::Blockchain;
use sha2::Digest;
use sha2::Sha256;

#[test]
fn genesis_block_form() {
    let c = Blockchain::new();
    assert_eq!(c.chain.len(), 1);
    assert_eq!(c.chain[0].index, 0);
    assert_eq!(c.chain[0].prev_hash, "0");
    assert_eq!(c.chain[0].data, "Genesis Block");
    assert_eq!(c.chain[0].hash.len(), 64);
    assert!(c.is_valid());
}

#[test]
fn genesis_form_kept_by_every_operation() {
    let mut c = Blockchain::new();
    c.add_block("a".to_string());
    c.tamper_block(0, "rewritten genesis");
    c.recompute_hashes_from(0);
    assert_eq!(c.chain[0].index, 0);
    assert_eq!(c.chain[0].prev_hash, "0");
    assert!(c.is_valid());
}

#[test]
fn fresh_chain_is_valid() {
    let mut c = Blockchain::new();
    c.add_block("hari pays ram 10 coins".to_string());
    c.add_block("ram pays rahim 5 coins".to_string());
    c.add_block("rahim pays tina 2 coins".to_string());
    assert_eq!(c.chain.len(), 4);
    for i in 0..c.chain.len() {
        assert_eq!(c.chain[i].index as usize, i);
        if i > 0 {
            assert_eq!(c.chain[i].prev_hash, c.chain[i - 1].hash);
        }
    }
    assert!(c.is_valid());
}

#[test]
fn calculate_hash_matches_sha256() {
    let b = Block {
        index: 7,
        timestamp: "2020-01-01T00:00:00+00:00".to_string(),
        data: "payload".to_string(),
        prev_hash: "abc".to_string(),
        hash: String::new(),
    };
    let expected = format!(
        "{:x}",
        Sha256::digest(format!("{}{}{}{}", 7, "abc", "2020-01-01T00:00:00+00:00", "payload"))
    );
    assert_eq!(b.calculate_hash(), expected);
}

#[test]
fn digest_is_lowercase_hex() {
    let b = Block::new(0, "x".to_string(), "0".to_string());
    let h = b.calculate_hash();
    assert_eq!(h.len(), 64);
    assert!(h.chars().all(|c| matches!(c, '0'..='9' | 'a'..='f')));
}

#[test]
fn block_timestamp_is_set() {
    let b = Block::new(0, "x".to_string(), "0".to_string());
    assert!(!b.timestamp.is_empty());
    assert_eq!(b.hash, b.calculate_hash());
}

#[test]
fn tamper_breaks_validity() {
    let mut c = Blockchain::new();
    c.add_block("a".to_string());
    c.add_block("b".to_string());
    assert!(c.is_valid());
    c.tamper_block(1, "forged");
    assert_eq!(c.chain[1].data, "forged");
    // The tampered block is re-sealed, so its own check still passes; the
    // successor's stored predecessor digest is now stale.
    assert_eq!(c.chain[1].hash, c.chain[1].calculate_hash());
    assert_ne!(c.chain[2].prev_hash, c.chain[1].hash);
    assert!(!c.is_valid());
}

#[test]
fn tamper_at_tail_leaves_no_successor_mismatch() {
    let mut c = Blockchain::new();
    c.add_block("a".to_string());
    c.tamper_block(1, "forged");
    // The tail has no successor, so validation still passes; extending the
    // chain afterwards links to the forged digest and stays valid.
    assert!(c.is_valid());
    c.add_block("b".to_string());
    assert!(c.is_valid());
}

#[test]
fn tamper_out_of_range_is_noop() {
    let mut c = Blockchain::new();
    c.add_block("a".to_string());
    let hashes: Vec<String> = c.chain.iter().map(|b| b.hash.clone()).collect();
    c.tamper_block(2, "forged");
    assert_eq!(c.chain.len(), 2);
    for i in 0..c.chain.len() {
        assert_eq!(c.chain[i].hash, hashes[i]);
        assert_ne!(c.chain[i].data, "forged");
    }
    assert!(c.is_valid());
}

#[test]
fn recompute_restores_validity() {
    let mut c = Blockchain::new();
    c.add_block("a".to_string());
    c.add_block("b".to_string());
    c.add_block("c".to_string());
    c.tamper_block(1, "forged");
    assert!(!c.is_valid());
    c.recompute_hashes_from(1);
    assert!(c.is_valid());
    assert_eq!(c.chain[1].data, "forged");
}

#[test]
fn recompute_is_idempotent() {
    let mut c = Blockchain::new();
    c.add_block("a".to_string());
    c.add_block("b".to_string());
    c.tamper_block(1, "forged");
    c.recompute_hashes_from(1);
    let once: Vec<(String, String)> = c
        .chain
        .iter()
        .map(|b| (b.prev_hash.clone(), b.hash.clone()))
        .collect();
    c.recompute_hashes_from(1);
    let twice: Vec<(String, String)> = c
        .chain
        .iter()
        .map(|b| (b.prev_hash.clone(), b.hash.clone()))
        .collect();
    assert_eq!(once, twice);
}

#[test]
fn recompute_out_of_range_is_noop() {
    let mut c = Blockchain::new();
    c.add_block("a".to_string());
    let hashes: Vec<String> = c.chain.iter().map(|b| b.hash.clone()).collect();
    c.recompute_hashes_from(5);
    for i in 0..c.chain.len() {
        assert_eq!(c.chain[i].hash, hashes[i]);
    }
}

#[test]
fn tamper_then_repair_scenario() {
    let mut c = Blockchain::new();
    c.add_block("A pays B 10".to_string());
    c.add_block("B pays C 5".to_string());
    assert!(c.is_valid());
    c.tamper_block(1, "A pays B 1000");
    assert!(!c.is_valid());
    c.recompute_hashes_from(1);
    assert!(c.is_valid());
    assert_eq!(c.chain[2].prev_hash, c.chain[1].hash);
    assert_eq!(c.chain[1].data, "A pays B 1000");
}
