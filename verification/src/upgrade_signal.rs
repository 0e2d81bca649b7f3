//! Runtime upgrade signal validation.

use crate::normalized::Address;
use vstd::prelude::*;

verus! {

/// Upgrade that a signal is about, as far as validation tells upgrades apart.
#[derive(Clone, Copy, Debug, PartialEq, Eq, Structural)]
pub enum BaseUpgrade {
    /// The Beryl upgrade.
    Beryl,
    /// Any other upgrade.
    Other,
}

/// One upgrade signal.
#[derive(Clone, Copy, Debug, PartialEq, Eq, Structural)]
pub struct UpgradeSignal {
    /// Upgrade that the signal is about.
    pub hardfork_id: BaseUpgrade,
    /// Activation timestamp of a positive signal; `None` where the signal does
    /// not activate the upgrade.
    pub positive_activation_timestamp: Option<u64>,
}

/// A schedule of upgrade signals.
#[derive(Clone, Debug)]
pub struct UpgradeSignalSchedule {
    /// The signals of the schedule.
    pub signals: Vec<UpgradeSignal>,
}

/// Why a schedule is not accepted.
#[derive(Clone, Copy, Debug, PartialEq, Eq, Structural)]
pub enum UpgradeSignalError {
    /// A positive Beryl signal without an activation admin address.
    MissingActivationAdminAddress {
        /// L2 chain of the schedule.
        chain_id: u64,
    },
}

/// Runtime schedule validation context shared by execution and consensus refresh paths.
#[derive(Clone, Copy, Debug, PartialEq, Eq)]
pub struct UpgradeSignalRuntimeValidation {
    /// Whether positive Beryl signals require an execution activation admin address.
    pub require_activation_admin_for_beryl: bool,
    /// Execution activation admin address for the L2 chain, when known.
    pub activation_admin_address: Option<Address>,
}

impl UpgradeSignal {
    /// The signal activates the Beryl upgrade.
    pub open spec fn activates_beryl(self) -> bool {
        self.positive_activation_timestamp is Some && self.hardfork_id == BaseUpgrade::Beryl
    }
}

impl UpgradeSignalSchedule {
    /// Some signal activates the Beryl upgrade.
    pub open spec fn activates_beryl(self) -> bool {
        exists|i: int|
            0 <= i < self.signals@.len() && (#[trigger] self.signals@[i]).activates_beryl()
    }

    /// Whether some signal activates the Beryl upgrade.
    fn has_beryl(&self) -> (found: bool)
        ensures
            found == self.activates_beryl(),
    {
        let mut i: usize = 0;
        while i < self.signals.len()
            invariant
                i <= self.signals.len(),
                forall|k: int| 0 <= k < i ==> !(#[trigger] self.signals@[k]).activates_beryl(),
            decreases self.signals.len() - i,
        {
            let signal = self.signals[i];
            if signal.positive_activation_timestamp.is_some() && signal.hardfork_id
                == BaseUpgrade::Beryl {
                assert(self.signals@[i as int].activates_beryl());
                return true;
            }
            i = i + 1;
        }
        false
    }
}

impl UpgradeSignalRuntimeValidation {
    /// The schedule is not acceptable: it activates Beryl, for which an
    /// activation admin address is required but not known.
    pub open spec fn rejects(self, schedule: UpgradeSignalSchedule) -> bool {
        &&& self.require_activation_admin_for_beryl
        &&& self.activation_admin_address is None
        &&& schedule.activates_beryl()
    }

    /// Creates a validation context with execution-specific checks disabled.
    pub fn disabled() -> (validation: Self)
        ensures
            validation.require_activation_admin_for_beryl == false,
            validation.activation_admin_address is None,
    {
        UpgradeSignalRuntimeValidation {
            require_activation_admin_for_beryl: false,
            activation_admin_address: None,
        }
    }

    /// Creates a validation context that enforces execution activation admin invariants.
    pub fn with_activation_admin_address(activation_admin_address: Option<Address>) -> (validation:
        Self)
        ensures
            validation.require_activation_admin_for_beryl == true,
            validation.activation_admin_address == activation_admin_address,
    {
        UpgradeSignalRuntimeValidation {
            require_activation_admin_for_beryl: true,
            activation_admin_address,
        }
    }

    /// Creates the fail-closed validation context used when no activation admin
    /// source is known.
    ///
    /// This requires an activation admin address for positive Beryl signals but
    /// has none, so a positive Beryl signal is rejected rather than applied
    /// unguarded.
    pub fn fail_closed() -> (validation: Self)
        ensures
            validation.require_activation_admin_for_beryl == true,
            validation.activation_admin_address is None,
            forall|schedule: UpgradeSignalSchedule| #[trigger]
                validation.rejects(schedule) <==> schedule.activates_beryl(),
    {
        Self::with_activation_admin_address(None)
    }

    /// Validates a schedule before it mutates the process-local runtime registry.
    pub fn validate_schedule(&self, chain_id: u64, schedule: &UpgradeSignalSchedule) -> (result:
        Result<(), UpgradeSignalError>)
        ensures
            result == (if self.rejects(*schedule) {
                Err::<(), UpgradeSignalError>(
                    UpgradeSignalError::MissingActivationAdminAddress { chain_id },
                )
            } else {
                Ok(())
            }),
    {
        if self.require_activation_admin_for_beryl && self.activation_admin_address.is_none()
            && schedule.has_beryl() {
            return Err(UpgradeSignalError::MissingActivationAdminAddress { chain_id });
        }
        Ok(())
    }
}

impl Default for UpgradeSignalRuntimeValidation {
    /// A validation context with execution-specific checks disabled.
    fn default() -> (validation: Self)
        ensures
            validation.require_activation_admin_for_beryl == false,
            validation.activation_admin_address is None,
    {
        Self::disabled()
    }
}

/// With the checks disabled, or with an activation admin address, every schedule
/// is accepted.
pub proof fn law_known_admin_accepts_all(
    validation: UpgradeSignalRuntimeValidation,
    schedule: UpgradeSignalSchedule,
)
    requires
        !validation.require_activation_admin_for_beryl || validation.activation_admin_address
            is Some,
    ensures
        !validation.rejects(schedule),
{
}

/// A schedule without a positive Beryl signal is accepted in every context.
pub proof fn law_other_upgrades_are_accepted(
    validation: UpgradeSignalRuntimeValidation,
    schedule: UpgradeSignalSchedule,
)
    requires
        forall|i: int|
            0 <= i < schedule.signals@.len() ==> (#[trigger] schedule.signals@[i]).hardfork_id
                != BaseUpgrade::Beryl
                || schedule.signals@[i].positive_activation_timestamp is None,
    ensures
        !validation.rejects(schedule),
{
}

/// A schedule is rejected exactly if an activation admin address is required but
/// not known and some signal, at any position, is a positive one about Beryl.
pub proof fn law_unguarded_beryl_is_rejected(
    validation: UpgradeSignalRuntimeValidation,
    schedule: UpgradeSignalSchedule,
)
    ensures
        validation.rejects(schedule) <==> validation.require_activation_admin_for_beryl
            && validation.activation_admin_address is None && exists|i: int|
            0 <= i < schedule.signals@.len() && (#[trigger] schedule.signals@[i]).hardfork_id
                == BaseUpgrade::Beryl
                && schedule.signals@[i].positive_activation_timestamp is Some,
{
    if exists|i: int|
        0 <= i < schedule.signals@.len() && (#[trigger] schedule.signals@[i]).hardfork_id
            == BaseUpgrade::Beryl && schedule.signals@[i].positive_activation_timestamp is Some {
        let i = choose|i: int|
            0 <= i < schedule.signals@.len() && (#[trigger] schedule.signals@[i]).hardfork_id
                == BaseUpgrade::Beryl && schedule.signals@[i].positive_activation_timestamp is Some;
        assert(schedule.signals@[i].activates_beryl());
    }
    if schedule.activates_beryl() {
        let i = choose|i: int|
            0 <= i < schedule.signals@.len() && (#[trigger] schedule.signals@[i]).activates_beryl();
        assert(schedule.signals@[i].hardfork_id == BaseUpgrade::Beryl);
    }
}

/// The order of signals and signals about other upgrades do not matter: a
/// schedule that is rejected stays so with more signals in front and behind.
pub proof fn law_more_signals_do_not_help(
    validation: UpgradeSignalRuntimeValidation,
    schedule: UpgradeSignalSchedule,
    larger: UpgradeSignalSchedule,
    before: Seq<UpgradeSignal>,
    behind: Seq<UpgradeSignal>,
)
    requires
        validation.rejects(schedule),
        larger.signals@ == before + schedule.signals@ + behind,
    ensures
        validation.rejects(larger),
{
    let i = choose|i: int|
        0 <= i < schedule.signals@.len() && (#[trigger] schedule.signals@[i]).activates_beryl();
    assert(larger.signals@[before.len() + i] == schedule.signals@[i]);
}

} // verus!
