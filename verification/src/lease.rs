//! The write lease of one target. One store holds at most one lease; it is granted
//! into an empty store and revoked only when it is exactly the one named.
use vstd::prelude::*;

use crate::clock::{instant_text, rfc3339_millis};
use crate::records::{
    cult_cache_envelope_views, read_lease, reads, CultCacheEnvelope, CultCacheEnvelopeView, Document,
    DocumentView, IdunnExpectedIncarnationRecord, IdunnExpectedIncarnationRecordView,
    IdunnProcessWriteLeaseRecord, IdunnProcessWriteLeaseRecordView, IdunnRuntimeActivationRecord,
    IdunnRuntimeActivationRecordView, RecordSchema, RecordSchemaView, RecordType, RecordTypeView,
};
use crate::text::{copy_bytes, judged, refuse, same_text, Refusal};

verus! {

/// A warming that the control plane admitted in sequence.
#[derive(Clone, Debug, PartialEq, Eq)]
pub struct SequenceAdmittedWarming {
    pub signed_presence_sha256: String,
    pub runtime_instance_id: String,
}

/// What one attempt to exchange a store's whole content came to.
#[derive(Clone, Copy, Debug, PartialEq, Eq, Structural)]
pub enum ExchangeOutcome {
    Exchanged,
    Mismatch,
    LockContended,
}

/// What a grant asks of the store.
#[derive(Clone, Debug, PartialEq, Eq)]
pub enum GrantStep {
    /// The store holds exactly this lease already.
    AlreadyGranted,
    /// The empty store is to be exchanged for this one envelope.
    Exchange(CultCacheEnvelope),
}

/// The write-lease authority of one target. Route membership never enters its store.
#[derive(Clone, Debug, PartialEq, Eq)]
pub struct CultCacheWriteLeaseDriver {
    pub target: String,
    pub record_path: String,
}

/// The one lease a store holds for a target, or why the store is refused.
pub open spec fn current_lease(target: Seq<char>, entries: Seq<CultCacheEnvelopeView>) -> Result<
    Option<IdunnProcessWriteLeaseRecordView>,
    Seq<char>,
> {
    if entries.len() == 0 {
        Ok(None)
    } else if entries.len() == 1 && entries[0].record_type == RecordTypeView::Lease
        && entries[0].schema_id == RecordSchemaView::Lease {
        match read_lease(entries[0].document) {
            Err(words) => Err(words),
            Ok(lease) => if entries[0].key != lease.target {
                Err("write-lease key is not its target"@)
            } else if lease.target != target {
                Err("write-lease store belongs to another target"@)
            } else {
                Ok(Some(lease))
            },
        }
    } else {
        Err("process write-lease store is foreign or ambiguous"@)
    }
}

/// The envelope a granted lease is stored in, or why it cannot be written.
pub open spec fn lease_envelope(lease: IdunnProcessWriteLeaseRecordView) -> Result<
    CultCacheEnvelopeView,
    Seq<char>,
> {
    match instant_text(lease.issued_at_unix_millis as int) {
        Err(words) => Err(words),
        Ok(stored_at) => Ok(
            CultCacheEnvelopeView {
                key: lease.target,
                record_type: RecordTypeView::Lease,
                payload: lease.canonical_bytes,
                stored_at,
                schema_id: RecordSchemaView::Lease,
                document: DocumentView::Lease(lease),
            },
        ),
    }
}

/// Whether a lease names the expected incarnation, the activation and the target.
pub open spec fn lease_names(
    target: Seq<char>,
    expected: IdunnExpectedIncarnationRecordView,
    activation: IdunnRuntimeActivationRecordView,
    lease: IdunnProcessWriteLeaseRecordView,
) -> bool {
    &&& target == expected.target
    &&& lease.target == expected.target
    &&& lease.expected_projection_sha256 == expected.canonical_sha256
    &&& lease.plan_id == expected.plan_id
    &&& lease.incarnation_id == expected.incarnation_id
    &&& lease.sealed_release_id == expected.sealed_release_id
    &&& lease.activation_witness_sha256 == activation.canonical_sha256
    &&& lease.runtime_id == expected.runtime_id
    &&& lease.runtime_instance_id == activation.runtime_instance_id
}

/// Why a lease may not be granted to a warming candidate, if so.
pub open spec fn grant_refusal(
    target: Seq<char>,
    expected: IdunnExpectedIncarnationRecordView,
    activation: IdunnRuntimeActivationRecordView,
    presence_sha256: Seq<char>,
    warming_instance: Seq<char>,
    lease: IdunnProcessWriteLeaseRecordView,
) -> Option<Seq<char>> {
    let unbound = Some("process write lease does not bind the exact warming candidate"@);
    if !lease_names(target, expected, activation, lease) {
        unbound
    } else if expected.state_schema_generation is None {
        Some("write-lease Expected has no state generation"@)
    } else if expected.state_schema_generation != Some(lease.state_schema_generation) {
        unbound
    } else if expected.state_contract_sha256 is None {
        Some("write-lease Expected has no state contract"@)
    } else if expected.state_contract_sha256 != Some(lease.state_contract_sha256)
        || lease.warming_presence_sha256 != presence_sha256 || warming_instance
        != activation.runtime_instance_id {
        unbound
    } else {
        None
    }
}

/// What granting a lease on a store comes to: `None` where it is granted already, an
/// envelope to store, or the words with which it is refused.
pub open spec fn grant_step(
    target: Seq<char>,
    entries: Seq<CultCacheEnvelopeView>,
    lease: IdunnProcessWriteLeaseRecordView,
) -> Result<Option<CultCacheEnvelopeView>, Seq<char>> {
    match current_lease(target, entries) {
        Err(words) => Err(words),
        Ok(Some(current)) => if current == lease {
            Ok(None)
        } else {
            Err("another process already owns the write lease"@)
        },
        Ok(None) => match lease_envelope(lease) {
            Err(words) => Err(words),
            Ok(envelope) => Ok(Some(envelope)),
        },
    }
}

/// What revoking an incumbent's lease comes to: nothing to do, an envelope to remove,
/// or the words with which it is refused.
pub open spec fn revoke_step(
    target: Seq<char>,
    entries: Seq<CultCacheEnvelopeView>,
    incumbent: Option<IdunnProcessWriteLeaseRecordView>,
) -> Result<Option<CultCacheEnvelopeView>, Seq<char>> {
    if incumbent is Some && incumbent->0.target != target {
        Err("incumbent write lease belongs to another target"@)
    } else {
        match current_lease(target, entries) {
            Err(words) => Err(words),
            Ok(None) => Ok(None),
            Ok(Some(current)) => if incumbent == Some(current) {
                Ok(Some(entries[0]))
            } else {
                Err("refusing to revoke an unexpected process write lease"@)
            },
        }
    }
}

/// Whether a driver's answer is the one a step names.
pub open spec fn revocation_is(
    outcome: Result<Option<CultCacheEnvelope>, Refusal>,
    step: Result<Option<CultCacheEnvelopeView>, Seq<char>>,
) -> bool {
    match (outcome, step) {
        (Ok(Some(envelope)), Ok(Some(view))) => envelope@ == view,
        (Ok(None), Ok(None)) => true,
        (Err(refusal), Err(words)) => refusal@ == words,
        _ => false,
    }
}

/// Whether a driver's answer is the one a step names.
pub open spec fn grant_is(
    outcome: Result<GrantStep, Refusal>,
    step: Result<Option<CultCacheEnvelopeView>, Seq<char>>,
) -> bool {
    match (outcome, step) {
        (Ok(GrantStep::Exchange(envelope)), Ok(Some(view))) => envelope@ == view,
        (Ok(GrantStep::AlreadyGranted), Ok(None)) => true,
        (Err(refusal), Err(words)) => refusal@ == words,
        _ => false,
    }
}

impl CultCacheWriteLeaseDriver {
    pub fn new(target: String, record_path: String) -> (driver: Self)
        ensures
            driver.target@ == target@,
            driver.record_path@ == record_path@,
    {
        CultCacheWriteLeaseDriver { target, record_path }
    }

    /// The one lease that the store holds for this target.
    pub fn current(&self, entries: &[CultCacheEnvelope]) -> (outcome: Result<
        Option<IdunnProcessWriteLeaseRecord>,
        Refusal,
    >)
        ensures
            match (outcome, current_lease(self.target@, cult_cache_envelope_views(entries@))) {
                (Ok(Some(lease)), Ok(Some(view))) => lease@ == view,
                (Ok(None), Ok(None)) => true,
                (Err(refusal), Err(words)) => refusal@ == words,
                _ => false,
            },
    {
        let ghost views = cult_cache_envelope_views(entries@);
        assert(views.len() == entries@.len());
        if entries.len() == 0 {
            return Ok(None);
        }
        let envelope = &entries[0];
        assert(views[0] == envelope@);
        let lease_type = matches!(envelope.record_type, RecordType::Lease);
        let lease_schema = matches!(envelope.schema_id, RecordSchema::Lease);
        if entries.len() != 1 || !lease_type || !lease_schema {
            return Err(refuse("process write-lease store is foreign or ambiguous"));
        }
        let lease = envelope.lease()?;
        if !same_text(envelope.key.as_str(), lease.target.as_str()) {
            return Err(refuse("write-lease key is not its target"));
        }
        if !same_text(lease.target.as_str(), self.target.as_str()) {
            return Err(refuse("write-lease store belongs to another target"));
        }
        Ok(Some(lease))
    }

    /// The envelope a granted lease is stored in.
    pub fn envelope(&self, lease: &IdunnProcessWriteLeaseRecord) -> (outcome: Result<
        CultCacheEnvelope,
        Refusal,
    >)
        ensures
            reads(outcome, lease_envelope(lease@)),
    {
        let stored_at = rfc3339_millis(lease.issued_at_unix_millis)?;
        Ok(
            CultCacheEnvelope {
                key: lease.target.clone(),
                record_type: RecordType::Lease,
                payload: copy_bytes(lease.canonical_bytes.as_slice()),
                stored_at,
                schema_id: RecordSchema::Lease,
                document: Document::Lease(lease.copy()),
            },
        )
    }

    /// Admits a grant only to the exact warming candidate that the lease names. The
    /// records have passed their own validation.
    pub fn validate_grant(
        &self,
        expected: &IdunnExpectedIncarnationRecord,
        activation: &IdunnRuntimeActivationRecord,
        warming: &SequenceAdmittedWarming,
        lease: &IdunnProcessWriteLeaseRecord,
    ) -> (outcome: Result<(), Refusal>)
        ensures
            judged(
                outcome,
                grant_refusal(
                    self.target@,
                    expected@,
                    activation@,
                    warming.signed_presence_sha256@,
                    warming.runtime_instance_id@,
                    lease@,
                ),
            ),
    {
        let words = "process write lease does not bind the exact warming candidate";
        let named = same_text(self.target.as_str(), expected.target.as_str()) && same_text(
            lease.target.as_str(),
            expected.target.as_str(),
        ) && same_text(
            lease.expected_projection_sha256.as_str(),
            expected.canonical_sha256.as_str(),
        ) && same_text(lease.plan_id.as_str(), expected.plan_id.as_str()) && same_text(
            lease.incarnation_id.as_str(),
            expected.incarnation_id.as_str(),
        ) && same_text(lease.sealed_release_id.as_str(), expected.sealed_release_id.as_str())
            && same_text(
            lease.activation_witness_sha256.as_str(),
            activation.canonical_sha256.as_str(),
        ) && same_text(lease.runtime_id.as_str(), expected.runtime_id.as_str()) && same_text(
            lease.runtime_instance_id.as_str(),
            activation.runtime_instance_id.as_str(),
        );
        if !named {
            return Err(refuse(words));
        }
        match &expected.state_schema_generation {
            None => return Err(refuse("write-lease Expected has no state generation")),
            Some(generation) => {
                if !same_text(lease.state_schema_generation.as_str(), generation.as_str()) {
                    return Err(refuse(words));
                }
            },
        }
        match &expected.state_contract_sha256 {
            None => return Err(refuse("write-lease Expected has no state contract")),
            Some(contract) => {
                if !same_text(lease.state_contract_sha256.as_str(), contract.as_str()) {
                    return Err(refuse(words));
                }
            },
        }
        if !same_text(
            lease.warming_presence_sha256.as_str(),
            warming.signed_presence_sha256.as_str(),
        ) || !same_text(
            warming.runtime_instance_id.as_str(),
            activation.runtime_instance_id.as_str(),
        ) {
            return Err(refuse(words));
        }
        Ok(())
    }

    /// Which envelope leaves the store when the incumbent's lease is revoked. A store
    /// that holds another lease than the incumbent's is refused.
    pub fn revoke_exact(
        &self,
        incumbent: Option<&IdunnProcessWriteLeaseRecord>,
        entries: &[CultCacheEnvelope],
    ) -> (outcome: Result<Option<CultCacheEnvelope>, Refusal>)
        ensures
            revocation_is(
                outcome,
                revoke_step(
                    self.target@,
                    cult_cache_envelope_views(entries@),
                    match incumbent {
                        Some(lease) => Some(lease@),
                        None => None,
                    },
                ),
            ),
    {
        if let Some(lease) = incumbent {
            if !same_text(lease.target.as_str(), self.target.as_str()) {
                return Err(refuse("incumbent write lease belongs to another target"));
            }
        }
        match self.current(entries)? {
            None => Ok(None),
            Some(current) => {
                assert(cult_cache_envelope_views(entries@)[0] == entries@[0]@);
                match incumbent {
                    Some(lease) => if lease.same(&current) {
                        Ok(Some(entries[0].copy()))
                    } else {
                        Err(refuse("refusing to revoke an unexpected process write lease"))
                    },
                    None => Err(refuse("refusing to revoke an unexpected process write lease")),
                }
            },
        }
    }

    /// What the exchange behind a revocation came to.
    pub fn settle_revocation(&self, outcome: ExchangeOutcome) -> (settled: Result<(), Refusal>)
        ensures
            judged(
                settled,
                match outcome {
                    ExchangeOutcome::Exchanged => None,
                    ExchangeOutcome::Mismatch => Some(
                        "process write lease changed while fencing the incumbent"@,
                    ),
                    ExchangeOutcome::LockContended => Some(
                        "process write lease is held by a shared-lock consumer"@,
                    ),
                },
            ),
    {
        match outcome {
            ExchangeOutcome::Exchanged => Ok(()),
            ExchangeOutcome::Mismatch => Err(
                refuse("process write lease changed while fencing the incumbent"),
            ),
            ExchangeOutcome::LockContended => Err(
                refuse("process write lease is held by a shared-lock consumer"),
            ),
        }
    }

    /// Whether the store holds no lease.
    pub fn observe_empty(&self, entries: &[CultCacheEnvelope]) -> (outcome: Result<bool, Refusal>)
        ensures
            match current_lease(self.target@, cult_cache_envelope_views(entries@)) {
                Ok(current) => outcome == Ok::<bool, Refusal>(current is None),
                Err(words) => outcome matches Err(refusal) && refusal@ == words,
            },
    {
        let current = self.current(entries)?;
        Ok(current.is_none())
    }

    /// Whether the store holds exactly this lease.
    pub fn observe_exact(
        &self,
        lease: &IdunnProcessWriteLeaseRecord,
        entries: &[CultCacheEnvelope],
    ) -> (outcome: Result<bool, Refusal>)
        ensures
            if lease@.target != self.target@ {
                outcome matches Err(refusal) && refusal@
                    == "observed process write lease belongs to another target"@
            } else {
                match current_lease(self.target@, cult_cache_envelope_views(entries@)) {
                    Ok(current) => outcome == Ok::<bool, Refusal>(current == Some(lease@)),
                    Err(words) => outcome matches Err(refusal) && refusal@ == words,
                }
            },
    {
        if !same_text(lease.target.as_str(), self.target.as_str()) {
            return Err(refuse("observed process write lease belongs to another target"));
        }
        match self.current(entries)? {
            Some(current) => Ok(current.same(lease)),
            None => Ok(false),
        }
    }

    /// What the store has to do for a grant to the exact warming candidate.
    pub fn grant(
        &self,
        expected: &IdunnExpectedIncarnationRecord,
        activation: &IdunnRuntimeActivationRecord,
        warming: &SequenceAdmittedWarming,
        lease: &IdunnProcessWriteLeaseRecord,
        entries: &[CultCacheEnvelope],
    ) -> (outcome: Result<GrantStep, Refusal>)
        ensures
            match grant_refusal(
                self.target@,
                expected@,
                activation@,
                warming.signed_presence_sha256@,
                warming.runtime_instance_id@,
                lease@,
            ) {
                Some(words) => outcome matches Err(refusal) && refusal@ == words,
                None => grant_is(
                    outcome,
                    grant_step(self.target@, cult_cache_envelope_views(entries@), lease@),
                ),
            },
    {
        self.validate_grant(expected, activation, warming, lease)?;
        match self.current(entries)? {
            Some(current) => if current.same(lease) {
                Ok(GrantStep::AlreadyGranted)
            } else {
                Err(refuse("another process already owns the write lease"))
            },
            None => Ok(GrantStep::Exchange(self.envelope(lease)?)),
        }
    }

    /// What the exchange behind a grant came to: the digest of the granted lease.
    pub fn settle_grant(
        &self,
        lease: &IdunnProcessWriteLeaseRecord,
        outcome: ExchangeOutcome,
    ) -> (settled: Result<String, Refusal>)
        ensures
            match outcome {
                ExchangeOutcome::Exchanged => settled matches Ok(id) && id@
                    == lease@.canonical_sha256,
                ExchangeOutcome::Mismatch => settled matches Err(refusal) && refusal@
                    == "process write-lease grant lost its empty-store compare-exchange"@,
                ExchangeOutcome::LockContended => settled matches Err(refusal) && refusal@
                    == "process write lease is held by a shared-lock consumer"@,
            },
    {
        match outcome {
            ExchangeOutcome::Exchanged => Ok(lease.canonical_sha256.clone()),
            ExchangeOutcome::Mismatch => Err(
                refuse("process write-lease grant lost its empty-store compare-exchange"),
            ),
            ExchangeOutcome::LockContended => Err(
                refuse("process write lease is held by a shared-lock consumer"),
            ),
        }
    }

    /// Whether the exact warming candidate holds the lease.
    pub fn observe(
        &self,
        expected: &IdunnExpectedIncarnationRecord,
        activation: &IdunnRuntimeActivationRecord,
        warming: &SequenceAdmittedWarming,
        lease: &IdunnProcessWriteLeaseRecord,
        entries: &[CultCacheEnvelope],
    ) -> (outcome: Result<bool, Refusal>)
        ensures
            match grant_refusal(
                self.target@,
                expected@,
                activation@,
                warming.signed_presence_sha256@,
                warming.runtime_instance_id@,
                lease@,
            ) {
                Some(words) => outcome matches Err(refusal) && refusal@ == words,
                None => match current_lease(self.target@, cult_cache_envelope_views(entries@)) {
                    Ok(current) => outcome == Ok::<bool, Refusal>(current == Some(lease@)),
                    Err(words) => outcome matches Err(refusal) && refusal@ == words,
                },
            },
    {
        self.validate_grant(expected, activation, warming, lease)?;
        match self.current(entries)? {
            Some(current) => Ok(current.same(lease)),
            None => Ok(false),
        }
    }
}

/// A granted lease is the one the store then holds; granting it again changes
/// nothing, and no other lease can be granted beside it.
pub proof fn a_granted_lease_is_held_alone(
    target: Seq<char>,
    lease: IdunnProcessWriteLeaseRecordView,
    other: IdunnProcessWriteLeaseRecordView,
    envelope: CultCacheEnvelopeView,
)
    requires
        lease.target == target,
        grant_step(target, Seq::empty(), lease) == Ok::<
            Option<CultCacheEnvelopeView>,
            Seq<char>,
        >(Some(envelope)),
    ensures
        current_lease(target, seq![envelope]) == Ok::<
            Option<IdunnProcessWriteLeaseRecordView>,
            Seq<char>,
        >(Some(lease)),
        grant_step(target, seq![envelope], lease) == Ok::<
            Option<CultCacheEnvelopeView>,
            Seq<char>,
        >(None),
        other != lease ==> grant_step(target, seq![envelope], other) is Err,
{
}

/// A granted lease is revoked by naming it and by nothing else, and revoking it
/// leaves the store empty for the next grant.
pub proof fn a_lease_is_revoked_only_by_name(
    target: Seq<char>,
    lease: IdunnProcessWriteLeaseRecordView,
    envelope: CultCacheEnvelopeView,
    incumbent: Option<IdunnProcessWriteLeaseRecordView>,
)
    requires
        lease.target == target,
        lease_envelope(lease) == Ok::<CultCacheEnvelopeView, Seq<char>>(envelope),
    ensures
        revoke_step(target, seq![envelope], incumbent) == Ok::<
            Option<CultCacheEnvelopeView>,
            Seq<char>,
        >(Some(envelope)) <==> incumbent == Some(lease),
        incumbent != Some(lease) ==> revoke_step(target, seq![envelope], incumbent) is Err,
        revoke_step(target, Seq::empty(), Some(lease)) == Ok::<
            Option<CultCacheEnvelopeView>,
            Seq<char>,
        >(None),
{
}

/// No store is ever emptied of a lease other than the incumbent's own: whatever the
/// store holds, what a revocation removes is its one envelope and holds that lease.
pub proof fn a_revocation_never_deletes_a_surprise(
    target: Seq<char>,
    entries: Seq<CultCacheEnvelopeView>,
    incumbent: Option<IdunnProcessWriteLeaseRecordView>,
)
    ensures
        revoke_step(target, entries, incumbent) matches Ok(Some(envelope)) ==> {
            &&& entries == seq![envelope]
            &&& incumbent is Some
            &&& envelope.document == DocumentView::Lease(incumbent->0)
            &&& envelope.key == target
        },
{
    if let Ok(Some(envelope)) = revoke_step(target, entries, incumbent) {
        assert(entries =~= seq![envelope]);
    }
}

} // verus!
