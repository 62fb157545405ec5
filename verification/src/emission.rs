//! The emission schedule: the miner reward at each height, the coins issued
//! up to a height, and the emission summary reported for a height.

use vstd::prelude::*;

verus! {

/// Total ERG supply in nanoERG (97,739,924 ERG).
pub const TOTAL_SUPPLY: u64 = 97_739_924_000_000_000;

/// Initial block reward in nanoERG (75 ERG).
pub const INITIAL_REWARD: u64 = 75_000_000_000;

/// Reward reduction per period in nanoERG (3 ERG every 64800 blocks, about 3 months).
pub const REWARD_REDUCTION: u64 = 3_000_000_000;

/// Blocks per reduction period (approximately 3 months).
pub const REDUCTION_PERIOD: u64 = 64_800;

/// Fixed rate period (first 2 years = 525600 blocks at 2 min/block).
pub const FIXED_RATE_PERIOD: u64 = 525_600;

/// Minimum block reward in nanoERG (3 ERG).
pub const MIN_REWARD: u64 = 3_000_000_000;

/// Emission delay in blocks (720 blocks before a miner can spend the reward).
pub const EMISSION_DELAY: u32 = 720;

/// The highest height whose miner reward is computable within `u64`.
pub const MAX_REWARD_HEIGHT: u64 = 398_449_672_567_200;

/// The highest height whose issued coins are computable within `u64`.
pub const MAX_ISSUANCE_HEIGHT: u64 = 6_116_860_291;

/// Emission information at a specific height.
#[derive(Debug)]
pub struct EmissionInfo {
    /// Block height.
    pub height: u32,
    /// Miner reward at this height in nanoERG.
    pub miner_reward: u64,
    /// Total coins issued up to this height in nanoERG.
    pub total_coins_issued: u64,
    /// Total remaining coins in emission contract in nanoERG.
    pub total_remain_coins: u64,
    /// Re-emission amount (EIP-27) in nanoERG.
    pub reemission_amt: u64,
}

/// Emission scripts information.
#[derive(Debug)]
pub struct EmissionScripts {
    /// Emission box proposition address.
    pub emission: String,
    /// Re-emission box proposition address (EIP-27).
    pub reemission: String,
    /// Pay-to-reemission address (EIP-27).
    pub pay_to_reemission: String,
}

/// The reward of a block whose reward has been reduced `periods` times:
/// 3 ERG less per period, never below the minimum reward.
pub open spec fn reduced_reward(periods: nat) -> nat {
    let reduction = periods * REWARD_REDUCTION;
    if reduction >= INITIAL_REWARD - MIN_REWARD {
        MIN_REWARD as nat
    } else {
        (INITIAL_REWARD - reduction) as nat
    }
}

/// The miner reward at `height`: nothing at the genesis height, the initial
/// reward during the fixed rate period, then one reduction per reduction
/// period after it. The blocks after the fixed rate period fall into periods
/// of `REDUCTION_PERIOD` blocks, the first being blocks 525601..=590400; the
/// `k`-th period (from 0) pays the initial reward less `k` reductions.
pub open spec fn reward_at(height: nat) -> nat {
    if height == 0 {
        0
    } else if height <= FIXED_RATE_PERIOD {
        INITIAL_REWARD as nat
    } else {
        reduced_reward(((height - FIXED_RATE_PERIOD - 1) / (REDUCTION_PERIOD as int)) as nat)
    }
}

/// Calculate the miner reward at a specific height.
///
/// Emission schedule:
/// - Blocks 1-525600 (first ~2 years): 75 ERG per block
/// - Blocks 525601+: decreases by 3 ERG every 64800 blocks
/// - Minimum reward: 3 ERG per block
pub fn miners_reward_at_height(height: u64) -> (reward: u64)
    requires
        height <= MAX_REWARD_HEIGHT,
    ensures
        reward == reward_at(height as nat),
{
    proof {
        law_reward_height_limit(height as nat);
    }
    if height == 0 {
        return 0;
    }
    if height <= FIXED_RATE_PERIOD {
        INITIAL_REWARD
    } else {
        // Blocks 525601..=590400 form the first reduction period.
        let blocks_after_fixed = height - FIXED_RATE_PERIOD - 1;
        let reduction_epochs = blocks_after_fixed / REDUCTION_PERIOD;
        let reduction = reduction_epochs * REWARD_REDUCTION;
        if reduction >= INITIAL_REWARD - MIN_REWARD {
            MIN_REWARD
        } else {
            INITIAL_REWARD - reduction
        }
    }
}

/// The sum of the miner rewards of the blocks `1..=height`, without any cap.
pub open spec fn emitted_through(height: nat) -> nat
    decreases height,
{
    if height == 0 {
        0
    } else {
        emitted_through((height - 1) as nat) + reward_at(height)
    }
}

/// The total coins issued up to and including `height`: the emitted sum,
/// capped at the total supply.
pub open spec fn issued_total(height: nat) -> nat {
    if emitted_through(height) < TOTAL_SUPPLY {
        emitted_through(height)
    } else {
        TOTAL_SUPPLY as nat
    }
}

/// Adding `count` blocks that each emit `amount` adds `count * amount`.
proof fn lemma_emitted_run(start: nat, count: nat, amount: nat)
    requires
        forall|i: nat| start < i <= start + count ==> #[trigger] reward_at(i) == amount,
    ensures
        emitted_through(start + count) == emitted_through(start) + count * amount,
    decreases count,
{
    if count > 0 {
        let prev = (count - 1) as nat;
        lemma_emitted_run(start, prev, amount);
        assert(emitted_through(start + count) == emitted_through(start + prev) + amount);
        assert(prev * amount + amount == count * amount) by (nonlinear_arith)
            requires
                prev + 1 == count,
        ;
    } else {
        assert(count * amount == 0) by (nonlinear_arith)
            requires
                count == 0,
        ;
    }
}

/// The emitted sum never decreases as the height grows.
proof fn lemma_emitted_monotone(low: nat, high: nat)
    requires
        low <= high,
    ensures
        emitted_through(low) <= emitted_through(high),
    decreases high - low,
{
    if low < high {
        lemma_emitted_monotone(low, (high - 1) as nat);
    }
}

/// The reward of a reduction period, as the executable loop tracks it.
proof fn lemma_reduced_reward_step(periods: nat)
    ensures
        reduced_reward(periods) > MIN_REWARD ==> reduced_reward(periods) > REWARD_REDUCTION
            && reduced_reward(periods + 1) == reduced_reward(periods) - REWARD_REDUCTION,
        reduced_reward(periods) <= MIN_REWARD ==> reduced_reward(periods) == MIN_REWARD
            && reduced_reward(periods + 1) == MIN_REWARD,
        MIN_REWARD <= reduced_reward(periods) <= INITIAL_REWARD,
{
    assert((periods + 1) * REWARD_REDUCTION == periods * REWARD_REDUCTION + REWARD_REDUCTION)
        by (nonlinear_arith);
}

/// The last block of the last reduction period: 24 reductions bring the
/// reward down to the minimum, and every block after this one earns it.
spec fn last_reduction_end() -> nat {
    (FIXED_RATE_PERIOD + 24 * REDUCTION_PERIOD) as nat
}

/// Every block after the last reduction period earns the minimum reward.
proof fn lemma_minimum_emission_beyond(index: nat)
    requires
        index > last_reduction_end(),
    ensures
        reward_at(index) == MIN_REWARD,
{
    let periods = ((index - FIXED_RATE_PERIOD - 1) / (REDUCTION_PERIOD as int)) as nat;
    assert(periods >= 24);
    assert(periods * REWARD_REDUCTION >= 24 * REWARD_REDUCTION) by (nonlinear_arith)
        requires
            periods >= 24,
    ;
}

/// The coins emitted by the first `periods` reduction periods.
spec fn reduction_periods_sum(periods: nat) -> nat
    decreases periods,
{
    if periods == 0 {
        0
    } else {
        reduction_periods_sum((periods - 1) as nat) + (REDUCTION_PERIOD as nat) * reduced_reward(
            (periods - 1) as nat,
        )
    }
}

/// The coins emitted through the end of a reduction period.
proof fn lemma_emitted_through_periods(periods: nat)
    ensures
        emitted_through((FIXED_RATE_PERIOD + periods * REDUCTION_PERIOD) as nat) == FIXED_RATE_PERIOD
            * INITIAL_REWARD + reduction_periods_sum(periods),
    decreases periods,
{
    if periods == 0 {
        lemma_emitted_run(0, FIXED_RATE_PERIOD as nat, INITIAL_REWARD as nat);
    } else {
        let prev = (periods - 1) as nat;
        lemma_emitted_through_periods(prev);
        let start = (FIXED_RATE_PERIOD + prev * REDUCTION_PERIOD) as nat;
        assert forall|i: nat| start < i <= start + REDUCTION_PERIOD implies #[trigger] reward_at(
            i,
        ) == reduced_reward(prev) by {
            assert((i - FIXED_RATE_PERIOD - 1) / (REDUCTION_PERIOD as int) == prev)
                by (nonlinear_arith)
                requires
                    prev * REDUCTION_PERIOD < i - FIXED_RATE_PERIOD <= prev * REDUCTION_PERIOD
                        + REDUCTION_PERIOD,
            ;
        }
        lemma_emitted_run(start, REDUCTION_PERIOD as nat, reduced_reward(prev));
        assert(start + REDUCTION_PERIOD == FIXED_RATE_PERIOD + periods * REDUCTION_PERIOD)
            by (nonlinear_arith)
            requires
                start == FIXED_RATE_PERIOD + prev * REDUCTION_PERIOD,
                periods == prev + 1,
        ;
    }
}

/// The coins emitted through a height after the last reduction period:
/// everything up to it, plus the minimum reward for each block since.
proof fn lemma_emitted_after_reductions(height: nat)
    requires
        height >= last_reduction_end(),
    ensures
        emitted_through(height) == 102_405_600_000_000_000 + (height - last_reduction_end())
            * MIN_REWARD,
{
    lemma_emitted_through_periods(24);
    reveal_with_fuel(reduction_periods_sum, 25);
    assert(reduction_periods_sum(24) == 62_985_600_000_000_000);
    let end = last_reduction_end();
    assert forall|i: nat| end < i <= end + (height - end) implies #[trigger] reward_at(i)
        == MIN_REWARD by {
        lemma_minimum_emission_beyond(i);
    }
    lemma_emitted_run(end, (height - end) as nat, MIN_REWARD as nat);
}

/// The miner reward is computable within `u64` exactly up to
/// `MAX_REWARD_HEIGHT`: beyond it the reduction overflows.
pub proof fn law_reward_height_limit(height: nat)
    ensures
        (height <= MAX_REWARD_HEIGHT) == (height <= FIXED_RATE_PERIOD || ((height
            - FIXED_RATE_PERIOD - 1) / (REDUCTION_PERIOD as int)) * REWARD_REDUCTION <= u64::MAX),
{
    if height > FIXED_RATE_PERIOD {
        let periods = (height - FIXED_RATE_PERIOD - 1) / (REDUCTION_PERIOD as int);
        assert((height <= MAX_REWARD_HEIGHT) == (periods <= 6_148_914_691)) by (nonlinear_arith)
            requires
                periods == (height - FIXED_RATE_PERIOD - 1) / (REDUCTION_PERIOD as int),
                height > FIXED_RATE_PERIOD,
        ;
        assert((periods <= 6_148_914_691) == (periods * REWARD_REDUCTION <= u64::MAX))
            by (nonlinear_arith)
            requires
                periods >= 0,
        ;
    }
}

/// The coins issued are computable within `u64` exactly up to
/// `MAX_ISSUANCE_HEIGHT`: beyond it the uncapped sum overflows.
pub proof fn law_issuance_height_limit(height: nat)
    ensures
        (height <= MAX_ISSUANCE_HEIGHT) == (emitted_through(height) <= u64::MAX),
{
    if height >= last_reduction_end() {
        lemma_emitted_after_reductions(height);
    } else {
        lemma_emitted_after_reductions(last_reduction_end());
        lemma_emitted_monotone(height, last_reduction_end());
    }
}

/// Calculate the total coins issued up to and including a given height.
pub fn issued_coins_after_height(height: u64) -> (total: u64)
    requires
        height <= MAX_ISSUANCE_HEIGHT,
    ensures
        total == issued_total(height as nat),
{
    proof {
        law_issuance_height_limit(height as nat);
    }
    if height == 0 {
        return 0;
    }
    let mut total: u64 = 0;

    if height <= FIXED_RATE_PERIOD {
        proof {
            lemma_emitted_run(0, height as nat, INITIAL_REWARD as nat);
            assert(height * INITIAL_REWARD <= FIXED_RATE_PERIOD * INITIAL_REWARD)
                by (nonlinear_arith)
                requires
                    height <= FIXED_RATE_PERIOD,
            ;
        }
        total = height * INITIAL_REWARD;
    } else {
        proof {
            lemma_emitted_run(0, FIXED_RATE_PERIOD as nat, INITIAL_REWARD as nat);
        }
        total = FIXED_RATE_PERIOD * INITIAL_REWARD;

        let remaining_height = height - FIXED_RATE_PERIOD;
        let mut current_reward = INITIAL_REWARD;
        let mut blocks_processed: u64 = 0;
        let ghost mut periods: nat = 0;

        while blocks_processed < remaining_height && current_reward > MIN_REWARD
            invariant
                remaining_height == height - FIXED_RATE_PERIOD,
                FIXED_RATE_PERIOD < height,
                emitted_through(height as nat) <= u64::MAX,
                blocks_processed <= remaining_height,
                blocks_processed < remaining_height ==> blocks_processed == periods
                    * REDUCTION_PERIOD,
                current_reward == reduced_reward(periods),
                total == emitted_through((FIXED_RATE_PERIOD + blocks_processed) as nat),
            decreases remaining_height - blocks_processed,
        {
            let blocks_at_this_rate = if REDUCTION_PERIOD < remaining_height - blocks_processed {
                REDUCTION_PERIOD
            } else {
                remaining_height - blocks_processed
            };
            proof {
                let start = (FIXED_RATE_PERIOD + blocks_processed) as nat;
                assert forall|i: nat|
                    start < i <= start + blocks_at_this_rate implies #[trigger] reward_at(i)
                    == current_reward by {
                    assert((i - FIXED_RATE_PERIOD - 1) / (REDUCTION_PERIOD as int) == periods)
                        by (nonlinear_arith)
                        requires
                            periods * REDUCTION_PERIOD < i - FIXED_RATE_PERIOD <= periods
                                * REDUCTION_PERIOD + REDUCTION_PERIOD,
                    ;
                }
                lemma_emitted_run(start, blocks_at_this_rate as nat, current_reward as nat);
                lemma_emitted_monotone((start + blocks_at_this_rate) as nat, height as nat);
                lemma_reduced_reward_step(periods);
            }
            total += blocks_at_this_rate * current_reward;
            blocks_processed += blocks_at_this_rate;

            if current_reward > REWARD_REDUCTION {
                current_reward -= REWARD_REDUCTION;
            } else {
                current_reward = MIN_REWARD;
            }
            proof {
                periods = periods + 1;
                assert(blocks_processed < remaining_height ==> blocks_processed == periods
                    * REDUCTION_PERIOD) by (nonlinear_arith)
                    requires
                        blocks_processed < remaining_height ==> blocks_processed == (periods - 1)
                            * REDUCTION_PERIOD + REDUCTION_PERIOD,
                ;
            }
        }

        // Remaining blocks at minimum rate
        if blocks_processed < remaining_height {
            proof {
                lemma_reduced_reward_step(periods);
                let start = (FIXED_RATE_PERIOD + blocks_processed) as nat;
                let count = (remaining_height - blocks_processed) as nat;
                assert forall|i: nat| start < i <= start + count implies #[trigger] reward_at(
                    i,
                ) == MIN_REWARD by {
                    let k = ((i - FIXED_RATE_PERIOD - 1) / (REDUCTION_PERIOD as int)) as nat;
                    assert(k >= periods) by (nonlinear_arith)
                        requires
                            periods * REDUCTION_PERIOD < i - FIXED_RATE_PERIOD,
                            k == (i - FIXED_RATE_PERIOD - 1) / (REDUCTION_PERIOD as int),
                    ;
                    assert(k * REWARD_REDUCTION >= periods * REWARD_REDUCTION) by (nonlinear_arith)
                        requires
                            k >= periods,
                    ;
                }
                lemma_emitted_run(start, count, MIN_REWARD as nat);
            }
            total += (remaining_height - blocks_processed) * MIN_REWARD;
        }
    }

    // Cap at total supply
    if total < TOTAL_SUPPLY {
        total
    } else {
        TOTAL_SUPPLY
    }
}

/// Calculate emission information at a given height.
pub fn calculate_emission_info(height: u32) -> (info: EmissionInfo)
    ensures
        info.height == height,
        info.miner_reward == reward_at(height as nat),
        info.total_coins_issued == issued_total(height as nat),
        info.total_remain_coins == TOTAL_SUPPLY - issued_total(height as nat),
        info.reemission_amt == 0,
{
    let miner_reward = miners_reward_at_height(height as u64);
    let total_coins_issued = issued_coins_after_height(height as u64);
    let total_remain_coins = TOTAL_SUPPLY.saturating_sub(total_coins_issued);

    // Re-emission is 0 for now (EIP-27 not yet implemented)
    let reemission_amt: u64 = 0;

    EmissionInfo { height, miner_reward, total_coins_issued, total_remain_coins, reemission_amt }
}

/// The emission-related script addresses. These are placeholder addresses
/// until they are derived from the actual emission contracts.
pub fn emission_scripts() -> (scripts: EmissionScripts)
    ensures
        scripts.emission@ == "emission_contract_address"@,
        scripts.reemission@ == "reemission_contract_address"@,
        scripts.pay_to_reemission@ == "pay_to_reemission_address"@,
{
    EmissionScripts {
        emission: "emission_contract_address".to_string(),
        reemission: "reemission_contract_address".to_string(),
        pay_to_reemission: "pay_to_reemission_address".to_string(),
    }
}

/// More reductions never give a larger reward.
proof fn lemma_reduced_reward_non_increasing(fewer: nat, more: nat)
    requires
        fewer <= more,
    ensures
        reduced_reward(more) <= reduced_reward(fewer),
{
    assert(fewer * REWARD_REDUCTION <= more * REWARD_REDUCTION) by (nonlinear_arith)
        requires
            fewer <= more,
    ;
}

/// The miner reward is zero at the genesis height and lies between the
/// minimum reward and the initial reward at every other height.
pub proof fn law_reward_bounds(height: nat)
    ensures
        height == 0 ==> reward_at(height) == 0,
        height >= 1 ==> MIN_REWARD <= reward_at(height) <= INITIAL_REWARD,
{
    if height > FIXED_RATE_PERIOD {
        lemma_reduced_reward_step(
            ((height - FIXED_RATE_PERIOD - 1) / (REDUCTION_PERIOD as int)) as nat,
        );
    }
}

/// The reward schedule by block ranges: every block of the fixed rate period
/// earns the initial reward, and every block of the `periods`-th reduction
/// period after it (blocks `FIXED_RATE_PERIOD + periods * REDUCTION_PERIOD + 1`
/// through `FIXED_RATE_PERIOD + (periods + 1) * REDUCTION_PERIOD`) earns the
/// initial reward less `periods` reductions, but never less than the minimum.
pub proof fn law_reward_schedule(height: nat, periods: nat)
    ensures
        1 <= height <= FIXED_RATE_PERIOD ==> reward_at(height) == INITIAL_REWARD,
        FIXED_RATE_PERIOD + periods * REDUCTION_PERIOD < height <= FIXED_RATE_PERIOD + (periods
            + 1) * REDUCTION_PERIOD ==> reward_at(height) == if periods * REWARD_REDUCTION
            < INITIAL_REWARD - MIN_REWARD {
            INITIAL_REWARD - periods * REWARD_REDUCTION
        } else {
            MIN_REWARD as int
        },
{
    if FIXED_RATE_PERIOD + periods * REDUCTION_PERIOD < height <= FIXED_RATE_PERIOD + (periods
        + 1) * REDUCTION_PERIOD {
        assert((height - FIXED_RATE_PERIOD - 1) / (REDUCTION_PERIOD as int) == periods)
            by (nonlinear_arith)
            requires
                periods * REDUCTION_PERIOD < height - FIXED_RATE_PERIOD <= periods
                    * REDUCTION_PERIOD + REDUCTION_PERIOD,
        ;
    }
}

/// The miner reward never grows with the height (from height 1 on).
pub proof fn law_reward_non_increasing(lower: nat, higher: nat)
    requires
        1 <= lower <= higher,
    ensures
        reward_at(higher) <= reward_at(lower),
{
    law_reward_bounds(lower);
    law_reward_bounds(higher);
    if lower > FIXED_RATE_PERIOD {
        vstd::arithmetic::div_mod::lemma_div_is_ordered(
            lower - FIXED_RATE_PERIOD - 1,
            higher - FIXED_RATE_PERIOD - 1,
            REDUCTION_PERIOD as int,
        );
        lemma_reduced_reward_non_increasing(
            ((lower - FIXED_RATE_PERIOD - 1) / (REDUCTION_PERIOD as int)) as nat,
            ((higher - FIXED_RATE_PERIOD - 1) / (REDUCTION_PERIOD as int)) as nat,
        );
    }
}

/// After the fixed rate period, every further reduction period lowers the
/// miner reward by the reward reduction, down to the minimum reward.
pub proof fn law_reward_drops_each_period(height: nat)
    requires
        height > FIXED_RATE_PERIOD,
    ensures
        reward_at((height + REDUCTION_PERIOD) as nat) == if reward_at(height) - REWARD_REDUCTION
            > MIN_REWARD {
            reward_at(height) - REWARD_REDUCTION
        } else {
            MIN_REWARD as int
        },
{
    let periods = ((height - FIXED_RATE_PERIOD - 1) / (REDUCTION_PERIOD as int)) as nat;
    assert((height + REDUCTION_PERIOD - FIXED_RATE_PERIOD - 1) / (REDUCTION_PERIOD as int)
        == periods + 1) by (nonlinear_arith)
        requires
            periods == (height - FIXED_RATE_PERIOD - 1) / (REDUCTION_PERIOD as int),
            height > FIXED_RATE_PERIOD,
    ;
    lemma_reduced_reward_step(periods);
}

/// During the fixed rate period, the coins issued up to a height are that
/// height times the initial reward.
pub proof fn law_issued_during_fixed_period(height: nat)
    requires
        height <= FIXED_RATE_PERIOD,
    ensures
        issued_total(height) == height * INITIAL_REWARD,
{
    lemma_emitted_run(0, height, INITIAL_REWARD as nat);
    assert(height * INITIAL_REWARD <= FIXED_RATE_PERIOD * INITIAL_REWARD) by (nonlinear_arith)
        requires
            height <= FIXED_RATE_PERIOD,
    ;
}

/// The coins issued never decrease as the height grows, and never exceed
/// the total supply.
pub proof fn law_issued_monotone(lower: nat, higher: nat)
    requires
        lower <= higher,
    ensures
        issued_total(lower) <= issued_total(higher),
        issued_total(higher) <= TOTAL_SUPPLY,
{
    lemma_emitted_monotone(lower, higher);
}

/// The coins issued up to a height are those issued up to the previous
/// height plus the miner reward at that height, capped at the total supply.
pub proof fn law_issued_adds_reward(height: nat)
    requires
        height >= 1,
    ensures
        issued_total(height) == if issued_total((height - 1) as nat) + reward_at(height)
            < TOTAL_SUPPLY {
            issued_total((height - 1) as nat) + reward_at(height)
        } else {
            TOTAL_SUPPLY as nat
        },
{
    let prev = (height - 1) as nat;
    assert(emitted_through(height) == emitted_through(prev) + reward_at(height));
}

} // verus!
