use ergo_node::byte_order::compare_bytes;
use ergo_node::ordering::{FeeOrdering, WeightedTxId};
use std::cmp::Ordering;
use std::collections::{BTreeSet, HashSet};

/// A set key that orders weighted transactions by their priority order.
#[derive(Debug, Clone)]
struct ByWeight(WeightedTxId);

impl PartialEq for ByWeight {
    fn eq(&self, other: &Self) -> bool {
        self.0.cmp(&other.0) == Ordering::Equal
    }
}

impl Eq for ByWeight {}

impl PartialOrd for ByWeight {
    fn partial_cmp(&self, other: &Self) -> Option<Ordering> {
        Some(self.cmp(other))
    }
}

impl Ord for ByWeight {
    fn cmp(&self, other: &Self) -> Ordering {
        self.0.cmp(&other.0)
    }
}

/// A set key that orders fee entries by their floating-point fee per byte
/// (higher first), then by earlier arrival.
#[derive(Debug, Clone)]
struct ByFee(FeeOrdering);

impl ByFee {
    fn fee_per_byte(&self) -> f64 {
        if self.0.size == 0 {
            0.0
        } else {
            self.0.fee as f64 / self.0.size as f64
        }
    }
}

impl PartialEq for ByFee {
    fn eq(&self, other: &Self) -> bool {
        self.cmp(other) == Ordering::Equal
    }
}

impl Eq for ByFee {}

impl PartialOrd for ByFee {
    fn partial_cmp(&self, other: &Self) -> Option<Ordering> {
        Some(self.cmp(other))
    }
}

impl Ord for ByFee {
    fn cmp(&self, other: &Self) -> Ordering {
        match other.fee_per_byte().partial_cmp(&self.fee_per_byte()) {
            Some(Ordering::Equal) | None => self.0.arrival_time.cmp(&other.0.arrival_time),
            Some(ord) => ord,
        }
    }
}

#[test]
fn test_fee_ordering() {
    let tx1 = FeeOrdering::new(vec![1], 1000, 100, 1000); // 10 per byte
    let tx2 = FeeOrdering::new(vec![2], 2000, 100, 1001); // 20 per byte
    let tx3 = FeeOrdering::new(vec![3], 1000, 100, 999); // 10 per byte, earlier

    let mut set = BTreeSet::new();
    set.insert(ByFee(tx1.clone()));
    set.insert(ByFee(tx2.clone()));
    set.insert(ByFee(tx3.clone()));

    let ordered: Vec<_> = set.into_iter().collect();

    // tx2 should be first (highest fee), then tx3 (earlier), then tx1
    assert_eq!(ordered[0].0.tx_id, vec![2]);
    assert_eq!(ordered[1].0.tx_id, vec![3]);
    assert_eq!(ordered[2].0.tx_id, vec![1]);
}

#[test]
fn test_weighted_tx_id_ordering() {
    // tx1: 1000 fee, 100 bytes -> fee_per_factor = 1000 * 1024 / 100 = 10240
    let tx1 = WeightedTxId::new(vec![1], 1000, 100, 1000);
    // tx2: 2000 fee, 100 bytes -> fee_per_factor = 2000 * 1024 / 100 = 20480
    let tx2 = WeightedTxId::new(vec![2], 2000, 100, 1001);
    // tx3: 500 fee, 100 bytes -> fee_per_factor = 500 * 1024 / 100 = 5120
    let tx3 = WeightedTxId::new(vec![3], 500, 100, 999);

    let mut set = BTreeSet::new();
    set.insert(ByWeight(tx1.clone()));
    set.insert(ByWeight(tx2.clone()));
    set.insert(ByWeight(tx3.clone()));

    let ordered: Vec<_> = set.into_iter().collect();

    // tx2 should be first (highest weight), then tx1, then tx3
    assert_eq!(ordered[0].0.tx_id, vec![2]);
    assert_eq!(ordered[1].0.tx_id, vec![1]);
    assert_eq!(ordered[2].0.tx_id, vec![3]);
}

#[test]
fn test_weighted_tx_id_with_child_weight() {
    // Parent tx with low fee
    let parent = WeightedTxId::new(vec![1], 100, 100, 1000);
    // Child tx with high fee
    let child = WeightedTxId::new(vec![2], 5000, 100, 1001);

    // Parent's weight should increase by child's weight
    let parent_updated = WeightedTxId::with_weight(
        parent.tx_id.clone(),
        parent.weight + child.weight,
        parent.fee_per_factor,
        parent.size,
        parent.created,
    );

    // Now parent should have higher priority than a tx with medium fee
    let medium = WeightedTxId::new(vec![3], 2000, 100, 1002);

    let mut set = BTreeSet::new();
    set.insert(ByWeight(parent_updated.clone()));
    set.insert(ByWeight(child.clone()));
    set.insert(ByWeight(medium.clone()));

    let ordered: Vec<_> = set.into_iter().collect();

    // parent_updated has weight = 1024 + 51200 = 52224 (highest)
    // child has weight = 51200
    // medium has weight = 20480
    assert_eq!(ordered[0].0.tx_id, vec![1]); // parent (with child weight)
    assert_eq!(ordered[1].0.tx_id, vec![2]); // child
    assert_eq!(ordered[2].0.tx_id, vec![3]); // medium
}

#[test]
fn test_weighted_tx_id_equality() {
    let tx1 = WeightedTxId::new(vec![1], 1000, 100, 1000);
    let tx2 = WeightedTxId::with_weight(vec![1], 5000, 1000, 100, 2000);

    // Same ID means equal, even with different weights
    assert_eq!(tx1, tx2);
}

#[test]
fn weighted_new_computes_fee_per_factor() {
    let tx = WeightedTxId::new(vec![7, 8], 1000, 100, 42);
    assert_eq!(tx.fee_per_factor, 10240);
    assert_eq!(tx.weight, 10240);
    assert_eq!(tx.size, 100);
    assert_eq!(tx.created, 42);
    assert_eq!(tx.tx_id, vec![7, 8]);
    // Rounded down.
    assert_eq!(WeightedTxId::new(vec![1], 1, 3, 0).fee_per_factor, 341);
}

#[test]
fn weighted_new_with_zero_size() {
    let tx = WeightedTxId::new(vec![1], 1000, 0, 0);
    assert_eq!(tx.fee_per_factor, 0);
    assert_eq!(tx.weight, 0);
    assert_eq!(tx.fee(), 0);
}

#[test]
fn weighted_fee_reconstruction() {
    assert_eq!(WeightedTxId::new(vec![1], 1000, 100, 0).fee(), 1000);
    // 1024 / 3 = 341, and 341 * 3 / 1024 = 0: short by less than 1 + 3 / 1024.
    assert_eq!(WeightedTxId::new(vec![1], 1, 3, 0).fee(), 0);
    assert_eq!(WeightedTxId::new(vec![1], 12345, 777, 0).fee(), 12344);
}

#[test]
fn weighted_fee_of_negative_factor_wraps() {
    // -5 * 1000 / 1024 rounds toward zero to -4, read as a u64.
    let tx = WeightedTxId::with_weight(vec![1], 0, -5, 1000, 0);
    assert_eq!(tx.fee(), 18446744073709551612);
}

#[test]
fn weighted_priority_order_laws() {
    let heavy = WeightedTxId::with_weight(vec![9], 100, 0, 1, 0);
    let light = WeightedTxId::with_weight(vec![1], 50, 0, 1, 0);
    let light_b = WeightedTxId::with_weight(vec![2], 50, 0, 1, 0);
    assert_eq!(heavy.cmp(&light), Ordering::Less);
    assert_eq!(light.cmp(&heavy), Ordering::Greater);
    // Equal weights: by ID.
    assert_eq!(light.cmp(&light_b), Ordering::Less);
    assert_eq!(light_b.cmp(&light), Ordering::Greater);
    assert_eq!(light.cmp(&light.clone()), Ordering::Equal);
    assert_eq!(light.partial_cmp(&light_b), Some(Ordering::Less));
    assert!(heavy < light);
    // Same ID, different weights: equal, but not tied in priority.
    let other_weight = WeightedTxId::with_weight(vec![9], 7, 0, 1, 0);
    assert_eq!(heavy, other_weight);
    assert_eq!(heavy.cmp(&other_weight), Ordering::Less);
}

#[test]
fn weighted_hash_follows_id() {
    let mut set = HashSet::new();
    set.insert(WeightedTxId::with_weight(vec![1, 2], 5, 5, 10, 0));
    set.insert(WeightedTxId::with_weight(vec![1, 2], 99, 1, 20, 3));
    set.insert(WeightedTxId::with_weight(vec![3], 5, 5, 10, 0));
    assert_eq!(set.len(), 2);
}

#[test]
fn fee_ordering_new_keeps_fields() {
    let entry = FeeOrdering::new(vec![4], 500, 250, 77);
    assert_eq!(entry.tx_id, vec![4]);
    assert_eq!(entry.fee, 500);
    assert_eq!(entry.size, 250);
    assert_eq!(entry.arrival_time, 77);
}

#[test]
fn fee_ordering_equality_by_id() {
    let entry = FeeOrdering::new(vec![5], 1_000_000, 0, 0);
    assert_eq!(entry, FeeOrdering::new(vec![5], 1, 1, 1));
    assert_ne!(entry, FeeOrdering::new(vec![6], 1_000_000, 0, 0));
}

#[test]
fn byte_order_is_lexicographic() {
    assert_eq!(compare_bytes(&vec![1, 2], &vec![1, 3]), Ordering::Less);
    assert_eq!(compare_bytes(&vec![2], &vec![1, 9, 9]), Ordering::Greater);
    assert_eq!(compare_bytes(&vec![1, 2], &vec![1, 2, 0]), Ordering::Less);
    assert_eq!(compare_bytes(&vec![], &vec![]), Ordering::Equal);
    assert_eq!(compare_bytes(&vec![5, 5], &vec![5, 5]), Ordering::Equal);
    let a = vec![0u8, 255, 3];
    let b = vec![0u8, 255];
    assert_eq!(compare_bytes(&a, &b), a.cmp(&b));
}

#[test]
fn parent_with_child_weight_precedes_child() {
    let parent = WeightedTxId::new(vec![5], 100, 100, 0);
    let child = WeightedTxId::new(vec![1], 5000, 100, 1);
    let updated = WeightedTxId::with_weight(
        parent.tx_id.clone(),
        parent.weight + child.weight,
        parent.fee_per_factor,
        parent.size,
        parent.created,
    );
    assert_eq!(updated.cmp(&child), Ordering::Less);

    // A zero-fee parent only gets the child's weight: the tie is broken by ID.
    let free_parent = WeightedTxId::new(vec![5], 0, 100, 0);
    let updated = WeightedTxId::with_weight(vec![5], free_parent.weight + child.weight, 0, 100, 0);
    assert_eq!(updated.cmp(&child), Ordering::Greater);
}
