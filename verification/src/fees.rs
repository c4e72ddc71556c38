//! Fee estimates.
use vstd::prelude::*;

verus! {

/// The least estimate that is given, in satoshis for 1000 units of weight: a little more than one
/// satoshi a byte.
pub const MIN_SAT_PER_1000_WEIGHT: u64 = 253;

/// How soon a transaction should confirm.
#[derive(Clone, Copy, Debug, PartialEq, Eq, Structural)]
pub enum ConfirmationTarget {
    /// Some time.
    Background,
    /// Without much delay.
    Normal,
    /// In the next few blocks.
    HighPriority,
}

/// Estimates of the fee that makes a transaction confirm.
pub struct FeeEstimator {
    background_est: usize,
    normal_est: usize,
    high_prio_est: usize,
}

impl FeeEstimator {
    /// The estimate on record.
    pub closed spec fn recorded(&self, target: ConfirmationTarget) -> nat {
        match target {
            ConfirmationTarget::Background => self.background_est as nat,
            ConfirmationTarget::Normal => self.normal_est as nat,
            ConfirmationTarget::HighPriority => self.high_prio_est as nat,
        }
    }

    /// An estimator that has no estimates yet: they are all zero.
    pub fn new() -> (estimator: Self)
        ensures
            forall|target: ConfirmationTarget| #[trigger] estimator.recorded(target) == 0,
    {
        FeeEstimator { background_est: 0, normal_est: 0, high_prio_est: 0 }
    }

    /// Looks for new estimates. There is no source of estimates, so those on record stay.
    pub fn update_values(&mut self)
        ensures
            *final(self) == *old(self),
    {
    }

    /// The fee, in satoshis for 1000 units of weight: the estimate on record, but no less than the least
    /// one that is given.
    pub fn get_est_sat_per_1000_weight(&self, conf_target: ConfirmationTarget) -> (fee: u64)
        ensures
            fee == if self.recorded(conf_target) > MIN_SAT_PER_1000_WEIGHT {
                self.recorded(conf_target)
            } else {
                MIN_SAT_PER_1000_WEIGHT as nat
            },
    {
        let recorded: u64 = match conf_target {
            ConfirmationTarget::Background => self.background_est as u64,
            ConfirmationTarget::Normal => self.normal_est as u64,
            ConfirmationTarget::HighPriority => self.high_prio_est as u64,
        };
        if recorded > MIN_SAT_PER_1000_WEIGHT {
            recorded
        } else {
            MIN_SAT_PER_1000_WEIGHT
        }
    }
}

} // verus!
