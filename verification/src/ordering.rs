//! Transaction ordering by weight (fee + child transaction weights).
//!
//! When a transaction spends outputs of another memory-pool transaction, the
//! parent's weight is increased by the child's weight, so that parents are
//! always processed before their children.

use crate::byte_order::{byte_order, compare_bytes};
use std::cmp::Ordering;
use vstd::std_specs::cmp::{PartialEqSpec, PartialOrdSpec};
use vstd::prelude::*;

verus! {

/// Weighted transaction identifier for ordering.
///
/// The weight starts as `fee_per_factor` and increases when child
/// transactions arrive that spend this transaction's outputs.
#[derive(Debug, Clone)]
pub struct WeightedTxId {
    /// Transaction ID.
    pub tx_id: Vec<u8>,
    /// Weight of transaction (fee_per_factor + accumulated child weights).
    /// Higher weight = higher priority.
    pub weight: i64,
    /// Original fee per factor (fee * 1024 / size for precision).
    pub fee_per_factor: i64,
    /// Transaction size in bytes (the factor).
    pub size: usize,
    /// Creation/arrival time (unix timestamp in millis).
    pub created: u64,
}

/// The quotient of `dividend` by `divisor`, rounded toward zero, as Rust's
/// integer division computes it.
pub open spec fn quotient_toward_zero(dividend: int, divisor: int) -> int {
    if dividend == 0 {
        0
    } else if dividend > 0 && divisor > 0 {
        dividend / divisor
    } else if dividend < 0 && divisor < 0 {
        (dividend * -1) / (divisor * -1)
    } else if dividend < 0 {
        ((dividend * -1) / divisor) * -1
    } else {
        (dividend / (divisor * -1)) * -1
    }
}

/// The fee scaled by 1024, as a signed 64-bit number: the fee is read as an
/// `i64` (wrapping when above `i64::MAX`) and then multiplied by 1024.
pub open spec fn scaled_fee(fee: u64) -> int {
    (fee as i64) * 1024
}

/// The fee per factor of a transaction: its scaled fee divided by its size
/// (read as an `i64`), rounded toward zero; zero for a transaction of size 0.
pub open spec fn fee_per_factor_of(fee: u64, size: usize) -> int {
    if size == 0 {
        0
    } else {
        quotient_toward_zero(scaled_fee(fee), (size as i64) as int)
    }
}

/// The inputs on which the fee per factor is computable without overflow:
/// the scaled fee fits in an `i64`, and the division does not overflow.
pub open spec fn fee_per_factor_computable(fee: u64, size: usize) -> bool {
    size == 0 || (i64::MIN <= scaled_fee(fee) <= i64::MAX && !(scaled_fee(fee) == i64::MIN && (
    size as i64) == -1))
}

/// The fee reconstructed from a fee per factor and a size: their product
/// divided by 1024 (rounded toward zero), read as a `u64`.
pub open spec fn fee_from_factor(fee_per_factor: i64, size: usize) -> u64 {
    (quotient_toward_zero(fee_per_factor * size, 1024)) as u64
}

/// A quotient rounded toward zero lies between zero and the dividend, and
/// is at most half the dividend in size when the divisor is not 1 or -1.
proof fn lemma_quotient_bounds(dividend: int, divisor: int)
    requires
        divisor != 0,
    ensures
        dividend >= 0 && divisor > 0 ==> 0 <= quotient_toward_zero(dividend, divisor) <= dividend,
        dividend >= 0 && divisor < 0 ==> -dividend <= quotient_toward_zero(dividend, divisor) <= 0,
        dividend < 0 && divisor > 0 ==> dividend <= quotient_toward_zero(dividend, divisor) <= 0,
        dividend < 0 && divisor == -1 ==> quotient_toward_zero(dividend, divisor) == -dividend,
        dividend < 0 && divisor < -1 ==> 0 <= 2 * quotient_toward_zero(dividend, divisor)
            <= -dividend,
{
    if dividend > 0 && divisor > 0 {
        assert(dividend / divisor <= dividend) by (nonlinear_arith)
            requires
                dividend > 0,
                divisor > 0,
        ;
        assert(dividend / divisor >= 0) by (nonlinear_arith)
            requires
                dividend > 0,
                divisor > 0,
        ;
    } else if dividend < 0 && divisor < 0 {
        let a = dividend * -1;
        let b = divisor * -1;
        if divisor == -1 {
            assert(a / 1 == a);
        }
        if divisor < -1 {
            assert(0 <= 2 * (a / b) <= a) by (nonlinear_arith)
                requires
                    a > 0,
                    b >= 2,
            ;
        }
    } else if dividend < 0 {
        let a = dividend * -1;
        assert(0 <= a / divisor <= a) by (nonlinear_arith)
            requires
                a > 0,
                divisor > 0,
        ;
    } else if dividend > 0 {
        let b = divisor * -1;
        assert(0 <= dividend / b <= dividend) by (nonlinear_arith)
            requires
                dividend > 0,
                b > 0,
        ;
    }
}

impl WeightedTxId {
    /// Create a new weighted transaction ID.
    ///
    /// The initial weight equals `fee_per_factor`. The weight may be
    /// increased later when child transactions arrive.
    pub fn new(tx_id: Vec<u8>, fee: u64, size: usize, created: u64) -> (tx: Self)
        requires
            fee_per_factor_computable(fee, size),
        ensures
            tx.tx_id@ == tx_id@,
            tx.fee_per_factor == fee_per_factor_of(fee, size),
            tx.weight == tx.fee_per_factor,
            tx.size == size,
            tx.created == created,
    {
        // Multiply by 1024 for better precision. `checked_div` gives the same
        // quotient as `/`, rounded toward zero, and its specification says so.
        let fee_per_factor: i64 = if size == 0 {
            0
        } else {
            proof {
                assert(size as i64 != 0) by (bit_vector)
                    requires
                        size != 0,
                ;
                lemma_quotient_bounds(scaled_fee(fee), (size as i64) as int);
            }
            (fee as i64 * 1024).checked_div(size as i64).unwrap()
        };
        WeightedTxId { tx_id, weight: fee_per_factor, fee_per_factor, size, created }
    }

    /// Create with explicit weight (used when updating family weights).
    pub fn with_weight(tx_id: Vec<u8>, weight: i64, fee_per_factor: i64, size: usize, created: u64) -> (tx: Self)
        ensures
            tx.tx_id@ == tx_id@,
            tx.weight == weight,
            tx.fee_per_factor == fee_per_factor,
            tx.size == size,
            tx.created == created,
    {
        WeightedTxId { tx_id, weight, fee_per_factor, size, created }
    }

    /// Get the original fee (reconstructed from fee_per_factor).
    pub fn fee(&self) -> (fee: u64)
        ensures
            fee == fee_from_factor(self.fee_per_factor, self.size),
    {
        proof {
            let factor = self.fee_per_factor as int;
            let size = self.size as int;
            assert(i128::MIN <= factor * size <= i128::MAX) by (nonlinear_arith)
                requires
                    i64::MIN <= factor <= i64::MAX,
                    0 <= size <= u64::MAX,
            ;
        }
        ((self.fee_per_factor as i128 * self.size as i128) / 1024) as u64
    }
}

/// The priority order of two weighted transactions: the one with the higher
/// weight comes first; equal weights are ordered by transaction ID.
pub open spec fn priority_order(first: WeightedTxId, second: WeightedTxId) -> Ordering {
    if second.weight < first.weight {
        Ordering::Less
    } else if second.weight > first.weight {
        Ordering::Greater
    } else {
        byte_order(first.tx_id@, second.tx_id@)
    }
}

impl WeightedTxId {
    /// Compare by priority: higher weight first (`Less`), then by ID for
    /// determinism.
    pub fn cmp(&self, other: &Self) -> (order: Ordering)
        ensures
            order == priority_order(*self, *other),
    {
        if other.weight < self.weight {
            Ordering::Less
        } else if other.weight > self.weight {
            Ordering::Greater
        } else {
            // If equal weight, order by ID for determinism
            compare_bytes(&self.tx_id, &other.tx_id)
        }
    }
}

impl PartialEq for WeightedTxId {
    fn eq(&self, other: &Self) -> (same: bool) {
        // The ID uniquely identifies the transaction.
        let same = self.tx_id == other.tx_id;
        proof {
            if same {
                assert(self.tx_id@ =~= other.tx_id@);
            }
        }
        same
    }
}

impl vstd::std_specs::cmp::PartialEqSpecImpl for WeightedTxId {
    open spec fn obeys_eq_spec() -> bool {
        true
    }

    open spec fn eq_spec(&self, other: &WeightedTxId) -> bool {
        self.tx_id@ == other.tx_id@
    }
}

impl Eq for WeightedTxId {

}

impl PartialOrd for WeightedTxId {
    fn partial_cmp(&self, other: &Self) -> (order: Option<Ordering>) {
        Some(self.cmp(other))
    }
}

impl vstd::std_specs::cmp::PartialOrdSpecImpl for WeightedTxId {
    open spec fn obeys_partial_cmp_spec() -> bool {
        true
    }

    open spec fn partial_cmp_spec(&self, other: &WeightedTxId) -> Option<Ordering> {
        Some(priority_order(*self, *other))
    }
}

impl std::hash::Hash for WeightedTxId {
    /// Hashes the transaction ID alone, as equality compares it alone. Calls
    /// `Hash::hash` of `Vec<u8>`; nothing is stated of the hasher's state.
    #[verifier::external_body]
    fn hash<H: std::hash::Hasher>(&self, state: &mut H) {
        self.tx_id.hash(state);
    }
}

/// Division rounded toward zero: the quotient times the divisor lies between
/// zero and the dividend, and falls short of the dividend by less than the
/// size of the divisor.
pub proof fn law_quotient_toward_zero(dividend: int, divisor: int)
    requires
        divisor != 0,
    ensures
        ({
            let product = quotient_toward_zero(dividend, divisor) * divisor;
            &&& dividend >= 0 ==> 0 <= product <= dividend && dividend - product < if divisor
                > 0 {
                divisor
            } else {
                -divisor
            }
            &&& dividend < 0 ==> dividend <= product <= 0 && product - dividend < if divisor
                > 0 {
                divisor
            } else {
                -divisor
            }
        }),
{
    let q = quotient_toward_zero(dividend, divisor);
    if dividend > 0 && divisor > 0 {
        assert(0 <= q * divisor <= dividend && dividend - q * divisor < divisor)
            by (nonlinear_arith)
            requires
                dividend > 0,
                divisor > 0,
                q == dividend / divisor,
        ;
    } else if dividend < 0 && divisor < 0 {
        let a = dividend * -1;
        let b = divisor * -1;
        assert(0 <= q * b <= a && a - q * b < b) by (nonlinear_arith)
            requires
                a > 0,
                b > 0,
                q == a / b,
        ;
        assert(q * divisor == -(q * b)) by (nonlinear_arith)
            requires
                b == divisor * -1,
        ;
    } else if dividend < 0 {
        let a = dividend * -1;
        let p = a / divisor;
        assert(0 <= p * divisor <= a && a - p * divisor < divisor) by (nonlinear_arith)
            requires
                a > 0,
                divisor > 0,
                p == a / divisor,
        ;
        assert(q * divisor == -(p * divisor)) by (nonlinear_arith)
            requires
                q == p * -1,
        ;
    } else if dividend > 0 {
        let b = divisor * -1;
        let p = dividend / b;
        assert(0 <= p * b <= dividend && dividend - p * b < b) by (nonlinear_arith)
            requires
                dividend > 0,
                b > 0,
                p == dividend / b,
        ;
        assert(q * divisor == p * b) by (nonlinear_arith)
            requires
                q == p * -1,
                b == divisor * -1,
        ;
    }
}

/// With a fee whose scaled value fits in an `i64` and a size in the range
/// of `i64`, the fee per factor is the fee times 1024 divided by the size,
/// rounded down (and zero for size 0).
pub proof fn law_fee_per_factor_is_scaled_rate(fee: u64, size: usize)
    requires
        fee * 1024 <= i64::MAX,
        size <= i64::MAX,
    ensures
        fee_per_factor_computable(fee, size),
        size == 0 ==> fee_per_factor_of(fee, size) == 0,
        size > 0 ==> fee_per_factor_of(fee, size) == (fee * 1024) / (size as int),
{
    assert(fee as i64 == fee);
    assert(size as i64 == size);
}

/// The fee reconstructed from a fee per factor is never more than the fee
/// the transaction was created with. For a nonzero size, 1024 times the
/// shortfall is less than the size plus 1023, and there is no shortfall when
/// the size divides 1024 times the fee; for size 0 it is zero.
pub proof fn law_fee_reconstruction(fee: u64, size: usize)
    requires
        fee * 1024 <= i64::MAX,
        size <= i64::MAX,
    ensures
        ({
            let rebuilt = fee_from_factor(fee_per_factor_of(fee, size) as i64, size);
            &&& size == 0 ==> rebuilt == 0
            &&& rebuilt <= fee
            &&& size > 0 ==> 1024 * (fee - rebuilt) < size + 1023
            &&& size > 0 && (fee * 1024) % (size as int) == 0 ==> rebuilt == fee
        }),
{
    law_fee_per_factor_is_scaled_rate(fee, size);
    if size > 0 {
        let f = fee as int;
        let s = size as int;
        let q = (f * 1024) / s;
        assert(0 <= q <= f * 1024) by (nonlinear_arith)
            requires
                f >= 0,
                s > 0,
                q == (f * 1024) / s,
        ;
        assert(f * 1024 - s < q * s <= f * 1024) by (nonlinear_arith)
            requires
                f >= 0,
                s > 0,
                q == (f * 1024) / s,
        ;
        let x = q * s;
        assert(0 <= x);
        assert((q as i64) as int == q);
        let r = x / 1024;
        assert(r * 1024 <= x < r * 1024 + 1024) by (nonlinear_arith)
            requires
                x >= 0,
                r == x / 1024,
        ;
        assert(x <= u64::MAX);
        assert(quotient_toward_zero(x, 1024) == r);
        assert((r as u64) as int == r);
        assert(fee_per_factor_of(fee, size) == q);
        assert(fee_from_factor(q as i64, size) == r);
        assert(r <= f) by (nonlinear_arith)
            requires
                r * 1024 <= x,
                x <= f * 1024,
        ;
        if (f * 1024) % s == 0 {
            assert(x == f * 1024) by (nonlinear_arith)
                requires
                    s > 0,
                    q == (f * 1024) / s,
                    x == q * s,
                    (f * 1024) % s == 0,
            ;
            assert(r == f);
        }
    } else {
        assert(fee_per_factor_of(fee, size) == 0);
        assert((0 as i64) * size == 0);
        assert(quotient_toward_zero(0, 1024) == 0);
        assert(fee_from_factor(0, size) == 0);
    }
}

/// Swapping two transactions reverses their priority order.
pub proof fn law_priority_antisymmetric(first: WeightedTxId, second: WeightedTxId)
    ensures
        priority_order(second, first) == crate::byte_order::reversed(
            priority_order(first, second),
        ),
{
    crate::byte_order::law_byte_order_antisymmetric(first.tx_id@, second.tx_id@);
}

/// The priority order is transitive.
pub proof fn law_priority_transitive(
    first: WeightedTxId,
    second: WeightedTxId,
    third: WeightedTxId,
)
    requires
        priority_order(first, second) == Ordering::Less,
        priority_order(second, third) == Ordering::Less,
    ensures
        priority_order(first, third) == Ordering::Less,
{
    if first.weight == second.weight && second.weight == third.weight {
        crate::byte_order::law_byte_order_transitive(first.tx_id@, second.tx_id@, third.tx_id@);
    }
}

/// Two transactions are tied in the priority order exactly when they have
/// the same weight and the same ID.
pub proof fn law_priority_tie(first: WeightedTxId, second: WeightedTxId)
    ensures
        (priority_order(first, second) == Ordering::Equal) == (first.weight == second.weight
            && first.tx_id@ == second.tx_id@),
{
    crate::byte_order::law_byte_order_equal(first.tx_id@, second.tx_id@);
}

/// Two transactions of equal weight are ordered by their IDs: where the IDs
/// first differ, the smaller byte comes first, and a proper prefix comes
/// first; the other fields play no part.
pub proof fn law_equal_weight_by_id(first: WeightedTxId, second: WeightedTxId)
    requires
        first.weight == second.weight,
    ensures
        priority_order(first, second) == byte_order(first.tx_id@, second.tx_id@),
        forall|index: int|
            0 <= index < first.tx_id@.len() && index < second.tx_id@.len() && (forall|j: int|
                0 <= j < index ==> first.tx_id@[j] == second.tx_id@[j]) && first.tx_id@[index]
                != second.tx_id@[index] ==> (priority_order(first, second) == Ordering::Less
                <==> first.tx_id@[index] < second.tx_id@[index]),
        first.tx_id@.len() < second.tx_id@.len() && (forall|j: int|
            0 <= j < first.tx_id@.len() ==> first.tx_id@[j] == second.tx_id@[j])
            ==> priority_order(first, second) == Ordering::Less,
{
    assert forall|index: int|
        0 <= index < first.tx_id@.len() && index < second.tx_id@.len() && (forall|j: int|
            0 <= j < index ==> first.tx_id@[j] == second.tx_id@[j]) && first.tx_id@[index]
            != second.tx_id@[index] implies (priority_order(first, second) == Ordering::Less
        <==> first.tx_id@[index] < second.tx_id@[index]) by {
        crate::byte_order::law_byte_order_first_difference(first.tx_id@, second.tx_id@, index);
    }
    if first.tx_id@.len() < second.tx_id@.len() && (forall|j: int|
        0 <= j < first.tx_id@.len() ==> first.tx_id@[j] == second.tx_id@[j]) {
        crate::byte_order::law_byte_order_proper_prefix(first.tx_id@, second.tx_id@);
    }
}

/// Two weighted transactions are equal (`==`) exactly when their IDs have
/// the same length and the same byte at every position; weight, fee, size
/// and creation time play no part.
pub proof fn law_weighted_eq_is_id_equality(first: WeightedTxId, second: WeightedTxId)
    ensures
        WeightedTxId::obeys_eq_spec(),
        first.eq_spec(&second) <==> (first.tx_id@.len() == second.tx_id@.len() && forall|
            j: int,
        |
            0 <= j < first.tx_id@.len() ==> first.tx_id@[j] == second.tx_id@[j]),
{
    if first.tx_id@.len() == second.tx_id@.len() && forall|j: int|
        0 <= j < first.tx_id@.len() ==> first.tx_id@[j] == second.tx_id@[j] {
        assert(first.tx_id@ =~= second.tx_id@);
    }
}

/// `partial_cmp` (and so `<`, `<=`, `>`, `>=`) always answers, and answers the
/// priority order: the heavier transaction first, and equal weights by ID.
pub proof fn law_partial_cmp_is_priority(first: WeightedTxId, second: WeightedTxId)
    ensures
        WeightedTxId::obeys_partial_cmp_spec(),
        first.partial_cmp_spec(&second) == Some(priority_order(first, second)),
        first.weight > second.weight ==> first.partial_cmp_spec(&second) == Some(Ordering::Less),
        first.weight < second.weight ==> first.partial_cmp_spec(&second) == Some(
            Ordering::Greater,
        ),
        first.weight == second.weight ==> first.partial_cmp_spec(&second) == Some(
            byte_order(first.tx_id@, second.tx_id@),
        ),
{
}

/// A transaction with a higher weight comes first, whatever the IDs.
pub proof fn law_heavier_first(first: WeightedTxId, second: WeightedTxId)
    requires
        first.weight > second.weight,
    ensures
        priority_order(first, second) == Ordering::Less,
        priority_order(second, first) == Ordering::Greater,
{
}

/// A parent transaction whose weight has been increased by the weight of a
/// child that spends its outputs comes before that child, provided the
/// parent's own weight is positive (or zero, with the parent's ID first).
pub proof fn law_parent_precedes_child(
    parent: WeightedTxId,
    child: WeightedTxId,
    updated_parent: WeightedTxId,
)
    requires
        updated_parent.weight == parent.weight + child.weight,
        updated_parent.tx_id@ == parent.tx_id@,
        parent.weight > 0 || (parent.weight == 0 && byte_order(parent.tx_id@, child.tx_id@)
            == Ordering::Less),
    ensures
        priority_order(updated_parent, child) == Ordering::Less,
{
}

/// Fee ordering entry of the legacy fee-per-byte order. The order itself
/// compares floating-point fees per byte and is not part of this library.
#[derive(Debug, Clone)]
pub struct FeeOrdering {
    /// Transaction ID.
    pub tx_id: Vec<u8>,
    /// Transaction fee in nanoERG.
    pub fee: u64,
    /// Transaction size in bytes.
    pub size: usize,
    /// Arrival time (unix timestamp in millis).
    pub arrival_time: u64,
}

impl FeeOrdering {
    /// Create a new fee ordering entry.
    pub fn new(tx_id: Vec<u8>, fee: u64, size: usize, arrival_time: u64) -> (entry: Self)
        ensures
            entry.tx_id@ == tx_id@,
            entry.fee == fee,
            entry.size == size,
            entry.arrival_time == arrival_time,
    {
        FeeOrdering { tx_id, fee, size, arrival_time }
    }
}

impl PartialEq for FeeOrdering {
    fn eq(&self, other: &Self) -> (same: bool) {
        let same = self.tx_id == other.tx_id;
        proof {
            if same {
                assert(self.tx_id@ =~= other.tx_id@);
            }
        }
        same
    }
}

impl vstd::std_specs::cmp::PartialEqSpecImpl for FeeOrdering {
    open spec fn obeys_eq_spec() -> bool {
        true
    }

    open spec fn eq_spec(&self, other: &FeeOrdering) -> bool {
        self.tx_id@ == other.tx_id@
    }
}

impl Eq for FeeOrdering {

}

/// Two fee-ordering entries are equal (`==`) exactly when their IDs have the
/// same length and the same byte at every position; fee, size and arrival
/// time play no part.
pub proof fn law_fee_entry_eq_is_id_equality(first: FeeOrdering, second: FeeOrdering)
    ensures
        FeeOrdering::obeys_eq_spec(),
        first.eq_spec(&second) <==> (first.tx_id@.len() == second.tx_id@.len() && forall|
            j: int,
        |
            0 <= j < first.tx_id@.len() ==> first.tx_id@[j] == second.tx_id@[j]),
{
    if first.tx_id@.len() == second.tx_id@.len() && forall|j: int|
        0 <= j < first.tx_id@.len() ==> first.tx_id@[j] == second.tx_id@[j] {
        assert(first.tx_id@ =~= second.tx_id@);
    }
}

} // verus!
