use rusty_lightning::fees::{ConfirmationTarget, FeeEstimator};

#[test]
fn a_new_estimator_gives_the_least_estimate() {
    let mut estimator = FeeEstimator::new();
    estimator.update_values();
    for target in [
        ConfirmationTarget::Background,
        ConfirmationTarget::Normal,
        ConfirmationTarget::HighPriority,
    ] {
        assert_eq!(estimator.get_est_sat_per_1000_weight(target), 253);
    }
}
