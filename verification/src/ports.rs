//! What the engine of a deployment asks of its drivers. Each port is for one concern. Nothing
//! is stated of whoever serves one.
use vstd::prelude::*;

use crate::building::{MaterializedRelease, SealedRelease};
use crate::lease::SequenceAdmittedWarming;
use crate::observation::{InstalledReleaseObservation, WorkloadObservation};
use crate::records::{
    IdunnExpectedIncarnationRecord, IdunnProcessWriteLeaseRecord, IdunnRuntimeActivationRecord,
    ServiceIdentityTrustAnchor,
};
use crate::source::{FrozenSource, FrozenSourceReceipt, ResolvedSource};
use crate::text::Refusal;
use crate::topology::ReceivedOdinTopologyCorrelation;

verus! {

/// Where sources come from: they are selected, frozen for a transaction, found again, and
/// cleaned up.
pub trait SourcePort {
    /// What an operator binds for a target.
    type Binding;

    /// What a deployment was compiled to.
    type Plan;

    fn resolve(
        &self,
        binding: &Self::Binding,
        resolution_id: &str,
        selected_at_unix_millis: u64,
    ) -> Result<ResolvedSource, Refusal>;

    fn freeze(
        &self,
        transaction_id: &str,
        plan: &Self::Plan,
    ) -> Result<FrozenSourceReceipt, Refusal>;

    fn observe_frozen(&self, plan: &Self::Plan, receipt: &FrozenSourceReceipt) -> Result<
        FrozenSource,
        Refusal,
    >;

    fn cleanup(&self, transaction_id: &str, receipt: Option<&FrozenSourceReceipt>) -> Result<
        (),
        Refusal,
    >;
}

/// What makes a release of a frozen source.
pub trait RunnerPort {
    /// What a deployment was compiled to.
    type Plan;

    fn materialize(
        &self,
        source: &FrozenSource,
        plan: &Self::Plan,
        staging_root: &str,
        sealed_at_unix_millis: u64,
    ) -> Result<MaterializedRelease, Refusal>;
}

/// What installs, starts, observes and stops a workload.
pub trait WorkloadPort {
    /// What a deployment was compiled to.
    type Plan;

    /// An activation together with the credential that it is launched with.
    type Launch;

    fn install(&self, plan: &Self::Plan, release: &MaterializedRelease) -> Result<
        InstalledReleaseObservation,
        Refusal,
    >;

    fn prepare_activation(
        &self,
        plan: &Self::Plan,
        expected: &IdunnExpectedIncarnationRecord,
        launch: Self::Launch,
    ) -> Result<IdunnRuntimeActivationRecord, Refusal>;

    fn start_prepared(
        &self,
        plan: &Self::Plan,
        release: &SealedRelease,
        installed: &InstalledReleaseObservation,
        expected: &IdunnExpectedIncarnationRecord,
        activation: &IdunnRuntimeActivationRecord,
    ) -> Result<WorkloadObservation, Refusal>;

    fn discard_prepared(
        &self,
        plan: &Self::Plan,
        expected: &IdunnExpectedIncarnationRecord,
        activation: &IdunnRuntimeActivationRecord,
    ) -> Result<(), Refusal>;

    fn observe(
        &self,
        expected: &IdunnExpectedIncarnationRecord,
        activation: &IdunnRuntimeActivationRecord,
        prior: &WorkloadObservation,
    ) -> Result<WorkloadObservation, Refusal>;

    fn stop(&self, observation: &WorkloadObservation) -> Result<(), Refusal>;

    /// Whether a candidate can never run again without a new transaction. One whose unit has
    /// failed, or is no longer known, does not come back on its own.
    fn is_permanently_stopped(&self, observation: &WorkloadObservation) -> Result<bool, Refusal>;
}

/// Where expectations, activations and leases are published for Odin, and where its
/// correlations come from.
pub trait TopologyPort {
    fn publish_expected(
        &self,
        expected: &IdunnExpectedIncarnationRecord,
        provider_anchor: &ServiceIdentityTrustAnchor,
    ) -> Result<String, Refusal>;

    /// Removes every record of one incarnation. Other incarnations of the same target, and
    /// the target's anchor while any remain, stay.
    fn withdraw_incarnation(
        &self,
        expected: &IdunnExpectedIncarnationRecord,
        provider_anchor: &ServiceIdentityTrustAnchor,
        activation: Option<&IdunnRuntimeActivationRecord>,
        lease: Option<&IdunnProcessWriteLeaseRecord>,
    ) -> Result<(), Refusal>;

    fn publish_observed_activation(
        &self,
        expected: &IdunnExpectedIncarnationRecord,
        activation: &IdunnRuntimeActivationRecord,
        observation: &WorkloadObservation,
    ) -> Result<String, Refusal>;

    fn publish_process_write_lease(
        &self,
        expected: &IdunnExpectedIncarnationRecord,
        activation: &IdunnRuntimeActivationRecord,
        lease: &IdunnProcessWriteLeaseRecord,
    ) -> Result<String, Refusal>;

    fn withdraw_process_write_lease(
        &self,
        expected: &IdunnExpectedIncarnationRecord,
        activation: &IdunnRuntimeActivationRecord,
        lease: Option<&IdunnProcessWriteLeaseRecord>,
    ) -> Result<(), Refusal>;

    /// Odin's correlation for one exact incarnation. One about another incarnation of the
    /// same target is never returned for it.
    fn receive(&self, target: &str, expected_sha256: &str) -> Result<
        Option<ReceivedOdinTopologyCorrelation>,
        Refusal,
    >;
}

/// Who may write a target's state.
pub trait WriteLeasePort {
    fn revoke_exact(&self, incumbent: Option<&IdunnProcessWriteLeaseRecord>) -> Result<(), Refusal>;

    fn observe_empty(&self) -> Result<bool, Refusal>;

    fn observe_exact(&self, lease: &IdunnProcessWriteLeaseRecord) -> Result<bool, Refusal>;

    fn grant(
        &self,
        expected: &IdunnExpectedIncarnationRecord,
        activation: &IdunnRuntimeActivationRecord,
        warming: &SequenceAdmittedWarming,
        lease: &IdunnProcessWriteLeaseRecord,
    ) -> Result<String, Refusal>;

    fn observe(
        &self,
        expected: &IdunnExpectedIncarnationRecord,
        activation: &IdunnRuntimeActivationRecord,
        warming: &SequenceAdmittedWarming,
        lease: &IdunnProcessWriteLeaseRecord,
    ) -> Result<bool, Refusal>;
}

} // verus!
