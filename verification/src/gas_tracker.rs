//! Gas tracking and reservation for bundles.

use vstd::prelude::*;

verus! {

/// Tracks gas usage and determines when to reserve gas for bundles.
#[derive(Debug)]
pub struct GasTracker {
    block_gas_limit: u64,
    threshold_percentage: u8,
    reserve_percentage: u8,
}

/// The settings of a gas tracker.
pub struct GasTrackerView {
    /// Total block gas limit.
    pub block_gas_limit: u64,
    /// Percentage of block gas at which to stop regular transactions.
    pub threshold_percentage: u8,
    /// Percentage of block gas reserved for bundles.
    pub reserve_percentage: u8,
}

impl GasTrackerView {
    /// Both percentages are at most 100.
    pub open spec fn valid(self) -> bool {
        &&& self.threshold_percentage <= 100
        &&& self.reserve_percentage <= 100
    }

    /// The gas at which regular transactions stop.
    pub open spec fn threshold_gas(self) -> nat {
        (self.block_gas_limit * self.threshold_percentage / 100) as nat
    }

    /// The gas reserved for bundles.
    pub open spec fn reserved_gas(self) -> nat {
        (self.block_gas_limit * self.reserve_percentage / 100) as nat
    }

    /// Whether regular transactions have used up their gas.
    pub open spec fn threshold_reached(self, cumulative_gas_used: u64) -> bool {
        cumulative_gas_used >= self.threshold_gas()
    }

    /// Gas left for regular transactions.
    pub open spec fn available(self, cumulative_gas_used: u64) -> nat {
        if self.threshold_reached(cumulative_gas_used) {
            0
        } else {
            (self.threshold_gas() - cumulative_gas_used) as nat
        }
    }

    /// Whether a transaction fits in the gas left for regular transactions.
    pub open spec fn can_fit(self, cumulative_gas_used: u64, tx_gas_limit: u64) -> bool {
        cumulative_gas_used < self.threshold_gas() && cumulative_gas_used + tx_gas_limit
            <= self.threshold_gas()
    }
}

impl View for GasTracker {
    type V = GasTrackerView;

    closed spec fn view(&self) -> GasTrackerView {
        GasTrackerView {
            block_gas_limit: self.block_gas_limit,
            threshold_percentage: self.threshold_percentage,
            reserve_percentage: self.reserve_percentage,
        }
    }
}

/// Result of checking gas reservation.
#[derive(Debug, PartialEq, Eq)]
pub struct GasReservation {
    /// Whether the threshold has been reached and regular transactions stop.
    pub threshold_reached: bool,
    /// Gas available for regular transactions.
    pub available_for_txs: u64,
    /// Gas reserved for bundles.
    pub reserved_for_bundles: u64,
}

impl Clone for GasReservation {
    fn clone(&self) -> (r: Self)
        ensures
            r == *self,
    {
        GasReservation {
            threshold_reached: self.threshold_reached,
            available_for_txs: self.available_for_txs,
            reserved_for_bundles: self.reserved_for_bundles,
        }
    }
}

/// `percentage`, at most 100.
pub open spec fn clamp_percentage(percentage: u8) -> u8 {
    if percentage > 100 {
        100
    } else {
        percentage
    }
}

impl Clone for GasTracker {
    fn clone(&self) -> (r: Self)
        ensures
            r@ == self@,
    {
        proof {
            use_type_invariant(self);
        }
        GasTracker {
            block_gas_limit: self.block_gas_limit,
            threshold_percentage: self.threshold_percentage,
            reserve_percentage: self.reserve_percentage,
        }
    }
}

fn percent_of(gas: u64, percentage: u8) -> (r: u64)
    requires
        percentage <= 100,
    ensures
        r == gas * percentage / 100,
{
    assert(gas * percentage <= gas * 100) by (nonlinear_arith)
        requires
            percentage <= 100,
    ;
    (gas as u128 * percentage as u128 / 100) as u64
}

impl GasTracker {
    #[verifier::type_invariant]
    spec fn percentages_clamped(self) -> bool {
        self.threshold_percentage <= 100 && self.reserve_percentage <= 100
    }

    /// Create a new gas tracker. Percentages above 100 count as 100.
    pub fn new(block_gas_limit: u64, threshold_percentage: u8, reserve_percentage: u8) -> (r: Self)
        ensures
            r@ == (GasTrackerView {
                block_gas_limit,
                threshold_percentage: clamp_percentage(threshold_percentage),
                reserve_percentage: clamp_percentage(reserve_percentage),
            }),
            r@.block_gas_limit == block_gas_limit,
            threshold_percentage <= 100 ==> r@.threshold_percentage == threshold_percentage,
            threshold_percentage > 100 ==> r@.threshold_percentage == 100,
            reserve_percentage <= 100 ==> r@.reserve_percentage == reserve_percentage,
            reserve_percentage > 100 ==> r@.reserve_percentage == 100,
    {
        let threshold_percentage: u8 = if threshold_percentage > 100 {
            100
        } else {
            threshold_percentage
        };
        let reserve_percentage: u8 = if reserve_percentage > 100 {
            100
        } else {
            reserve_percentage
        };
        GasTracker { block_gas_limit, threshold_percentage, reserve_percentage }
    }

    /// Gas reservation status at the current cumulative gas used.
    pub fn check_reservation(&self, cumulative_gas_used: u64) -> (r: GasReservation)
        ensures
            r.threshold_reached == self@.threshold_reached(cumulative_gas_used),
            r.available_for_txs == self@.available(cumulative_gas_used),
            r.reserved_for_bundles == self@.reserved_gas(),
            r.threshold_reached <==> (cumulative_gas_used + 1) * 100 > self@.block_gas_limit
                * self@.threshold_percentage,
            r.threshold_reached ==> r.available_for_txs == 0,
            !r.threshold_reached ==> (cumulative_gas_used + r.available_for_txs) * 100
                <= self@.block_gas_limit * self@.threshold_percentage < (cumulative_gas_used
                + r.available_for_txs + 1) * 100,
            r.reserved_for_bundles * 100 <= self@.block_gas_limit * self@.reserve_percentage < (
            r.reserved_for_bundles + 1) * 100,
    {
        proof {
            law_threshold_splits_the_block(self@, cumulative_gas_used, 0);
        }
        let threshold_gas: u64 = self.calculate_threshold_gas();
        let reserved_gas: u64 = self.calculate_reserved_gas();
        GasReservation {
            threshold_reached: cumulative_gas_used >= threshold_gas,
            available_for_txs: threshold_gas.saturating_sub(cumulative_gas_used),
            reserved_for_bundles: reserved_gas,
        }
    }

    /// The gas threshold at which regular transactions stop. It is never above
    /// the block gas limit.
    pub fn calculate_threshold_gas(&self) -> (r: u64)
        ensures
            r == self@.threshold_gas(),
            r <= self@.block_gas_limit,
            r * 100 <= self@.block_gas_limit * self@.threshold_percentage < (r + 1) * 100,
    {
        proof {
            law_shares_of_the_block(self@);
        }
        proof {
            use_type_invariant(self);
            lemma_percent_of_at_most(self.block_gas_limit, self.threshold_percentage);
        }
        percent_of(self.block_gas_limit, self.threshold_percentage)
    }

    /// The gas reserved for bundles. It is never above the block gas limit.
    pub fn calculate_reserved_gas(&self) -> (r: u64)
        ensures
            r == self@.reserved_gas(),
            r <= self@.block_gas_limit,
            r * 100 <= self@.block_gas_limit * self@.reserve_percentage < (r + 1) * 100,
    {
        proof {
            law_shares_of_the_block(self@);
            use_type_invariant(self);
            lemma_percent_of_at_most(self.block_gas_limit, self.reserve_percentage);
        }
        percent_of(self.block_gas_limit, self.reserve_percentage)
    }

    /// Whether a transaction fits within the gas left for regular
    /// transactions.
    pub fn can_fit_transaction(&self, cumulative_gas_used: u64, tx_gas_limit: u64) -> (r: bool)
        ensures
            r == self@.can_fit(cumulative_gas_used, tx_gas_limit),
            r <==> (cumulative_gas_used + 1) * 100 <= self@.block_gas_limit
                * self@.threshold_percentage && (cumulative_gas_used + tx_gas_limit) * 100
                <= self@.block_gas_limit * self@.threshold_percentage,
    {
        proof {
            law_threshold_splits_the_block(self@, cumulative_gas_used, tx_gas_limit);
        }
        let reservation = self.check_reservation(cumulative_gas_used);
        !reservation.threshold_reached && tx_gas_limit <= reservation.available_for_txs
    }

    /// The block gas limit.
    pub fn block_gas_limit(&self) -> (r: u64)
        ensures
            r == self@.block_gas_limit,
    {
        self.block_gas_limit
    }

    /// The threshold percentage, at most 100.
    pub fn threshold_percentage(&self) -> (r: u8)
        ensures
            r == self@.threshold_percentage,
            r <= 100,
    {
        proof {
            use_type_invariant(self);
        }
        self.threshold_percentage
    }

    /// The reserve percentage, at most 100.
    pub fn reserve_percentage(&self) -> (r: u8)
        ensures
            r == self@.reserve_percentage,
            r <= 100,
    {
        proof {
            use_type_invariant(self);
        }
        self.reserve_percentage
    }
}

pub proof fn lemma_percent_of_at_most(gas: u64, percentage: u8)
    requires
        percentage <= 100,
    ensures
        gas * percentage / 100 <= gas,
{
    assert(gas * percentage <= gas * 100) by (nonlinear_arith)
        requires
            percentage <= 100,
    ;
}

/// A transaction that fits leaves cumulative gas within the threshold, and
/// the threshold is within the block gas limit.
pub proof fn law_fitting_transaction_stays_below_threshold(
    tracker: GasTrackerView,
    cumulative_gas_used: u64,
    tx_gas_limit: u64,
)
    requires
        tracker.valid(),
        tracker.can_fit(cumulative_gas_used, tx_gas_limit),
    ensures
        cumulative_gas_used + tx_gas_limit <= tracker.threshold_gas(),
        tracker.threshold_gas() <= tracker.block_gas_limit,
{
    lemma_percent_of_at_most(tracker.block_gas_limit, tracker.threshold_percentage);
}

/// Once the threshold is reached it stays reached, and then no transaction
/// fits, whatever its gas limit; below the threshold there is gas left.
pub proof fn law_threshold_is_final(tracker: GasTrackerView, earlier: u64, later: u64)
    requires
        earlier <= later,
    ensures
        tracker.threshold_reached(earlier) ==> tracker.threshold_reached(later),
        tracker.threshold_reached(earlier) <==> tracker.available(earlier) == 0,
        tracker.threshold_reached(earlier) <==> forall|tx_gas_limit: u64|
            !tracker.can_fit(earlier, tx_gas_limit),
        tracker.available(later) <= tracker.available(earlier),
{
    if !tracker.threshold_reached(earlier) {
        assert(tracker.can_fit(earlier, 0));
    }
}

/// The threshold and the reserve are the configured shares of the block,
/// rounded down; and they are computed from their own percentages alone.
pub proof fn law_shares_of_the_block(tracker: GasTrackerView)
    ensures
        tracker.threshold_gas() * 100 <= tracker.block_gas_limit * tracker.threshold_percentage < (
        tracker.threshold_gas() + 1) * 100,
        tracker.reserved_gas() * 100 <= tracker.block_gas_limit * tracker.reserve_percentage < (
        tracker.reserved_gas() + 1) * 100,
{
    let block = tracker.block_gas_limit as int;
    assert(block * tracker.threshold_percentage >= 0) by (nonlinear_arith)
        requires
            block >= 0,
    ;
    assert(block * tracker.reserve_percentage >= 0) by (nonlinear_arith)
        requires
            block >= 0,
    ;
}

/// Regular transactions stop with the first unit of gas beyond the share of
/// the block that is theirs, and until then they have the rest of that share.
pub proof fn law_threshold_splits_the_block(tracker: GasTrackerView, used: u64, tx_gas_limit: u64)
    ensures
        tracker.threshold_reached(used) <==> (used + 1) * 100 > tracker.block_gas_limit
            * tracker.threshold_percentage,
        tracker.threshold_reached(used) ==> tracker.available(used) == 0,
        !tracker.threshold_reached(used) ==> (used + tracker.available(used)) * 100
            <= tracker.block_gas_limit * tracker.threshold_percentage < (used + tracker.available(
            used,
        ) + 1) * 100,
        tracker.can_fit(used, tx_gas_limit) <==> !tracker.threshold_reached(used) && (used
            + tx_gas_limit) * 100 <= tracker.block_gas_limit * tracker.threshold_percentage,
{
    law_shares_of_the_block(tracker);
}

/// A percentage up to 100 is kept, one above counts as 100.
pub proof fn law_percentages_are_clamped(percentage: u8)
    ensures
        percentage <= 100 ==> clamp_percentage(percentage) == percentage,
        percentage > 100 ==> clamp_percentage(percentage) == 100,
{
}

} // verus!
