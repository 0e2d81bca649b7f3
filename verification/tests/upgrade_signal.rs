//! Runtime upgrade signal validation.

use base_batcher_prover::upgrade_signal::{
    BaseUpgrade, UpgradeSignal, UpgradeSignalError, UpgradeSignalRuntimeValidation,
    UpgradeSignalSchedule,
};

fn signal(hardfork_id: BaseUpgrade, positive_activation_timestamp: Option<u64>) -> UpgradeSignal {
    UpgradeSignal { hardfork_id, positive_activation_timestamp }
}

fn schedule(signals: Vec<UpgradeSignal>) -> UpgradeSignalSchedule {
    UpgradeSignalSchedule { signals }
}

#[test]
fn fail_closed_rejects_positive_beryl() {
    let validation = UpgradeSignalRuntimeValidation::fail_closed();
    let positive = schedule(vec![
        signal(BaseUpgrade::Other, Some(5)),
        signal(BaseUpgrade::Beryl, Some(7)),
    ]);
    assert_eq!(
        validation.validate_schedule(8453, &positive),
        Err(UpgradeSignalError::MissingActivationAdminAddress { chain_id: 8453 })
    );
}

#[test]
fn fail_closed_accepts_everything_else() {
    let validation = UpgradeSignalRuntimeValidation::fail_closed();
    for signals in [
        vec![],
        vec![signal(BaseUpgrade::Beryl, None)],
        vec![signal(BaseUpgrade::Other, Some(1))],
    ] {
        assert_eq!(validation.validate_schedule(1, &schedule(signals)), Ok(()));
    }
}

#[test]
fn known_admin_accepts_beryl() {
    let validation =
        UpgradeSignalRuntimeValidation::with_activation_admin_address(Some([1; 20]));
    let positive = schedule(vec![signal(BaseUpgrade::Beryl, Some(7))]);
    assert_eq!(validation.validate_schedule(1, &positive), Ok(()));
}

#[test]
fn disabled_is_the_default_and_accepts_beryl() {
    let validation = UpgradeSignalRuntimeValidation::default();
    assert_eq!(validation, UpgradeSignalRuntimeValidation::disabled());
    assert!(!validation.require_activation_admin_for_beryl);
    let positive = schedule(vec![signal(BaseUpgrade::Beryl, Some(7))]);
    assert_eq!(validation.validate_schedule(1, &positive), Ok(()));
}

#[test]
fn fail_closed_is_an_enforcing_context_without_an_address() {
    assert_eq!(
        UpgradeSignalRuntimeValidation::fail_closed(),
        UpgradeSignalRuntimeValidation::with_activation_admin_address(None)
    );
}
