use miner::aggregator::Aggregator;
use miner::{
    get_time_ms, meets_threshold, mine_chunk, thread_count, Block, BlockManager, ConfigError,
    Resource, ResourceKind, ResourceMatcher, CHUNK_SIZE, NONCE_MAX,
};

fn digest_with_prefix(prefix: &[u8], fill: u8) -> [u8; 32] {
    let mut d = [fill; 32];
    d[..prefix.len()].copy_from_slice(prefix);
    d
}

#[test]
fn first_chunks_are_consecutive() {
    let mut bm = BlockManager::new();
    let (_, s1, e1) = bm.get_block();
    let (_, s2, e2) = bm.get_block();
    assert_eq!((s1, e1), (0, 50000));
    assert_eq!((s2, e2), (50000, 100000));
    assert_eq!(bm.mined, 0);
}

#[test]
fn chunks_partition_one_header() {
    let mut bm = BlockManager::new();
    let header = bm.active;
    let mut expected_start: u32 = 0;
    let mut calls: u64 = 0;
    loop {
        let (b, start, end) = bm.get_block();
        assert_eq!(b, header);
        assert_eq!(start, expected_start);
        assert!(end > start);
        calls += 1;
        if end == NONCE_MAX {
            assert_eq!(end - start, 17295);
            break;
        }
        assert_eq!(end - start, CHUNK_SIZE);
        expected_start = end;
    }
    assert_eq!(calls, 85900);
    assert_eq!(bm.mined, 0);
}

#[test]
fn boundary_chunk() {
    let mut bm = BlockManager::new();
    bm.offset = NONCE_MAX - 17295;
    let header = bm.active;
    let spare = bm.spare;
    let (b, start, end) = bm.get_block();
    assert_eq!(b, header);
    assert_eq!(start, NONCE_MAX - 17295);
    assert_eq!(end - start, 17295);
    assert_eq!(end, NONCE_MAX);
    let (b2, start2, end2) = bm.get_block();
    assert_eq!(b2, spare);
    assert_eq!((start2, end2), (0, 50000));
    assert_eq!(bm.mined, 1);
}

#[test]
fn rotation_promotes_spare_and_counts() {
    let mut bm = BlockManager::new();
    bm.offset = NONCE_MAX;
    bm.mined = 7;
    let spare = bm.spare;
    let (b, start, end) = bm.get_block();
    assert_eq!(b, spare);
    assert_eq!(bm.active, spare);
    assert_eq!((start, end), (0, 50000));
    assert_eq!(bm.offset, 50000);
    assert_eq!(bm.mined, 8);
}

#[test]
fn table_thresholds() {
    let m = ResourceMatcher::new();
    let kinds: Vec<ResourceKind> = m.resources.iter().map(|r| r.kind).collect();
    assert_eq!(
        kinds,
        vec![ResourceKind::DIAMOND, ResourceKind::GOLD, ResourceKind::IRON, ResourceKind::COAL]
    );
    assert_eq!(m.resources[0].target, digest_with_prefix(&[0, 0, 0, 0, 0x0f, 0xff], 0));
    assert_eq!(m.resources[3].target, digest_with_prefix(&[0, 0, 0, 0x3f, 0xff, 0xff], 0));
}

#[test]
fn classification_nesting() {
    let m = ResourceMatcher::new();
    let d = [0u8; 32];
    for r in m.resources.iter() {
        assert!(meets_threshold(&d, &r.target));
    }
    assert_eq!(m.match_hash(&d).map(|r| r.kind), Some(ResourceKind::DIAMOND));
}

#[test]
fn classification_equal_counts_as_match() {
    let m = ResourceMatcher::new();
    let d = m.resources[0].target;
    assert_eq!(m.match_hash(&d).map(|r| r.kind), Some(ResourceKind::DIAMOND));
    let mut above = d;
    above[31] = 1;
    assert_eq!(m.match_hash(&above).map(|r| r.kind), Some(ResourceKind::GOLD));
}

#[test]
fn classification_middle_tiers() {
    let m = ResourceMatcher::new();
    let gold = digest_with_prefix(&[0, 0, 0, 0, 0x0f, 0xff, 0xff], 0xff);
    assert_eq!(m.match_hash(&gold).map(|r| r.kind), Some(ResourceKind::GOLD));
    let iron = digest_with_prefix(&[0, 0, 0, 0x03], 0);
    assert_eq!(m.match_hash(&iron).map(|r| r.kind), Some(ResourceKind::IRON));
    let coal = digest_with_prefix(&[0, 0, 0, 0x3f, 0xff, 0xff], 0);
    assert_eq!(m.match_hash(&coal).map(|r| r.kind), Some(ResourceKind::COAL));
}

#[test]
fn classification_no_match() {
    let m = ResourceMatcher::new();
    let d = digest_with_prefix(&[0, 0, 0, 0x3f, 0xff, 0xff, 0x01], 0);
    assert_eq!(m.match_hash(&d), None);
    assert_eq!(m.match_hash(&[0xff; 32]), None);
}

#[test]
fn threshold_comparison_is_big_endian() {
    let t = digest_with_prefix(&[0, 1], 0);
    let low = digest_with_prefix(&[0, 0], 0xff);
    let high = digest_with_prefix(&[1, 0], 0);
    assert!(meets_threshold(&low, &t));
    assert!(meets_threshold(&t, &t));
    assert!(!meets_threshold(&high, &t));
}

#[test]
fn resource_from_hex() {
    let r = Resource::new(ResourceKind::IRON, "0aFf").unwrap();
    assert_eq!(r.kind, ResourceKind::IRON);
    assert_eq!(r.target, digest_with_prefix(&[0x0a, 0xff], 0));
    let empty = Resource::new(ResourceKind::COAL, "").unwrap();
    assert_eq!(empty.target, [0u8; 32]);
}

#[test]
fn resource_rejects_bad_hex() {
    assert_eq!(Resource::new(ResourceKind::COAL, "0g"), Err(ConfigError::MalformedThreshold));
    assert_eq!(Resource::new(ResourceKind::COAL, "abc"), Err(ConfigError::MalformedThreshold));
    let wide = "00".repeat(33);
    assert_eq!(Resource::new(ResourceKind::COAL, &wide), Err(ConfigError::ThresholdTooWide));
    let full = "ff".repeat(32);
    assert_eq!(Resource::new(ResourceKind::COAL, &full).unwrap().target, [0xff; 32]);
}

#[test]
fn digest_is_deterministic() {
    let b = Block { created_at: 1_700_000_000_000, seed: [7u8; 32] };
    assert_eq!(b.hash(42), b.hash(42));
    assert_ne!(b.hash(42), b.hash(43));
    let b2 = Block { created_at: 1_700_000_000_001, seed: [7u8; 32] };
    assert_ne!(b.hash(42), b2.hash(42));
}

#[test]
fn digest_hashes_time_seed_nonce() {
    let b = Block { created_at: 0x0102, seed: [9u8; 32] };
    let mut msg: Vec<u8> = Vec::new();
    msg.extend_from_slice(&0x0102u128.to_be_bytes());
    msg.extend_from_slice(&[9u8; 32]);
    msg.extend_from_slice(&0x0a0b0c0du32.to_be_bytes());
    let expected: [u8; 32] = blake3::hash(&msg).into();
    assert_eq!(b.hash(0x0a0b0c0d), expected);
}

#[test]
fn mine_chunk_reports_classified_digests() {
    let b = Block { created_at: 5, seed: [1u8; 32] };
    let mut m = ResourceMatcher::new();
    // A table that accepts every digest, to see each nonce reported.
    m.resources.push(Resource::new(ResourceKind::COAL, &"ff".repeat(32)).unwrap());
    let found = mine_chunk(&b, 10, 14, &m);
    assert_eq!(found.len(), 5);
    for (i, (res, digest)) in found.iter().enumerate() {
        let n = 10 + i as u32;
        assert_eq!(*digest, b.hash(n));
        assert_eq!(m.match_hash(digest), Some(*res));
    }
    let plain = ResourceMatcher::new();
    let none = mine_chunk(&b, 0, 99, &plain);
    for (res, digest) in none.iter() {
        assert_eq!(plain.match_hash(digest), Some(*res));
    }
}

#[test]
fn mine_chunk_single_nonce_at_top() {
    let b = Block { created_at: 5, seed: [1u8; 32] };
    let mut m = ResourceMatcher::new();
    m.resources.push(Resource::new(ResourceKind::COAL, &"ff".repeat(32)).unwrap());
    let found = mine_chunk(&b, NONCE_MAX, NONCE_MAX, &m);
    assert_eq!(found.len(), 1);
    assert_eq!(found[0].1, b.hash(NONCE_MAX));
}

#[test]
fn aggregation_counts() {
    let mut a = Aggregator::new();
    for k in [
        ResourceKind::COAL,
        ResourceKind::IRON,
        ResourceKind::COAL,
        ResourceKind::IRON,
        ResourceKind::COAL,
    ] {
        a.receive(k);
    }
    assert_eq!(a.count(ResourceKind::COAL), 3);
    assert_eq!(a.count(ResourceKind::IRON), 2);
    assert_eq!(a.count(ResourceKind::GOLD), 0);
    assert_eq!(a.count(ResourceKind::DIAMOND), 0);
    assert_eq!(a.recorded, 5);
}

#[test]
fn aggregation_order_independent() {
    let mut a = Aggregator::new();
    let mut b = Aggregator::new();
    let seq = [
        ResourceKind::COAL,
        ResourceKind::COAL,
        ResourceKind::COAL,
        ResourceKind::GOLD,
        ResourceKind::GOLD,
    ];
    for k in seq.iter() {
        a.receive(*k);
    }
    for k in seq.iter().rev() {
        b.receive(*k);
    }
    assert_eq!(a.counts, b.counts);
    assert_eq!(a.recorded, b.recorded);
}

#[test]
fn aggregation_saturates() {
    let mut a = Aggregator::new();
    a.counts[3] = u128::MAX;
    a.receive(ResourceKind::DIAMOND);
    assert_eq!(a.count(ResourceKind::DIAMOND), u128::MAX);
    assert_eq!(a.recorded, 1);
}

#[test]
fn kind_names() {
    assert_eq!(ResourceKind::COAL.name(), "COAL");
    assert_eq!(ResourceKind::DIAMOND.name(), "DIAMOND");
    assert_eq!(ResourceKind::GOLD.index(), 2);
}

#[test]
fn thread_count_rules() {
    assert_eq!(thread_count(Some(4), 8), Ok(4));
    assert_eq!(thread_count(None, 8), Ok(8));
    assert_eq!(thread_count(Some(0), 8), Err(ConfigError::InvalidThreadCount));
    assert_eq!(thread_count(None, 0), Err(ConfigError::InvalidThreadCount));
}

#[test]
fn clock_is_after_epoch() {
    let t = get_time_ms();
    assert!(t > 1_600_000_000_000);
    let b = Block::new();
    assert!(b.created_at >= t);
}

#[test]
fn fresh_headers_differ() {
    let bm = BlockManager::new();
    assert_ne!(bm.active.seed, bm.spare.seed);
    assert_eq!(bm.offset, 0);
}
