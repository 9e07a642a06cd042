//! What every envelope that is put into a store carries: the bytes and the record of one
//! document, under the key by which it is found again.
use vstd::prelude::*;

use crate::bundle::bundled_expectation;
use crate::clock::{creation_instant, instant_text};
use crate::lease::{current_lease, grant_refusal, grant_step, revoke_step};
use crate::observation::WorkloadObservationView;
use crate::records::{
    read_anchor, read_lease, CultCacheEnvelopeView, DocumentView,
    GameCultServiceTrustAnchorRecordView, IdunnExpectedIncarnationRecordView,
    IdunnProcessWriteLeaseRecordView, IdunnRuntimeActivationRecordView, RecordSchemaView,
    RecordTypeView, ServiceIdentityTrustAnchorView,
};
use crate::topology::{
    activation_envelope_view, admission_refusal, admitted_expected, admitted_runtime,
    anchor_id_text, entry_of, named, observes, presence_anchor, publication, publishing_activation,
    publishing_lease, stays, topology_lease_refusal, withdrawal_refusal, PresenceContract,
    RemovalView,
};
use crate::topology_laws::after;

verus! {

/// Whether the bytes of an envelope and the record that they decode to are of one document,
/// and the envelope says of which kind it is.
pub open spec fn tells_one_record(e: CultCacheEnvelopeView) -> bool {
    match e.document {
        DocumentView::Expected(record) => e.payload == record.canonical_bytes && e.record_type
            == RecordTypeView::Expected && e.schema_id == RecordSchemaView::Expected,
        DocumentView::Activation(record) => e.payload == record.canonical_bytes && e.record_type
            == RecordTypeView::Activation && e.schema_id == RecordSchemaView::Activation,
        DocumentView::Lease(record) => e.payload == record.canonical_bytes && e.record_type
            == RecordTypeView::Lease && e.schema_id == RecordSchemaView::Lease,
        DocumentView::Anchor(_) => e.record_type == RecordTypeView::Anchor && e.schema_id
            == RecordSchemaView::Anchor,
        _ => false,
    }
}

/// Whether an envelope holds a document under a key, as it was written at an instant.
pub open spec fn holds(
    e: CultCacheEnvelopeView,
    key: Seq<char>,
    document: DocumentView,
    millis: u64,
) -> bool {
    &&& tells_one_record(e)
    &&& e.document == document
    &&& e.key == key
    &&& instant_text(millis as int) == Ok::<Seq<char>, Seq<char>>(e.stored_at)
}

/// What a grant puts into the store is the granted lease: the store was empty, and the one
/// envelope carries the lease's canonical bytes as its payload and the lease itself as what
/// they decode to, under the lease's target and with the time at which it was issued. Two
/// leases are so granted in the same payload only where they have the same bytes.
pub proof fn a_grant_stores_the_lease_itself(
    target: Seq<char>,
    entries: Seq<CultCacheEnvelopeView>,
    lease: IdunnProcessWriteLeaseRecordView,
    other: IdunnProcessWriteLeaseRecordView,
    envelope: CultCacheEnvelopeView,
    second: CultCacheEnvelopeView,
)
    requires
        grant_step(target, entries, lease) == Ok::<Option<CultCacheEnvelopeView>, Seq<char>>(
            Some(envelope),
        ),
        grant_step(target, entries, other) == Ok::<Option<CultCacheEnvelopeView>, Seq<char>>(
            Some(second),
        ),
    ensures
        entries.len() == 0,
        envelope.payload == lease.canonical_bytes,
        holds(envelope, lease.target, DocumentView::Lease(lease), lease.issued_at_unix_millis),
        envelope.payload == second.payload <==> lease.canonical_bytes == other.canonical_bytes,
{
}

/// A lease can be granted into an empty store wherever its time of issue can be written.
pub proof fn an_empty_store_takes_any_lease(
    target: Seq<char>,
    lease: IdunnProcessWriteLeaseRecordView,
)
    ensures
        grant_step(target, Seq::empty(), lease) is Ok <==> instant_text(
            lease.issued_at_unix_millis as int,
        ) is Ok,
        grant_step(target, Seq::empty(), lease) matches Ok(step) ==> step is Some,
{
}

/// A bundle hands a workload the two records of its own launch: what is expected of it and its
/// activation, each whole and under its target, as of the time at which the activation was
/// issued.
pub proof fn a_bundle_holds_the_records_of_its_launch(
    expected: IdunnExpectedIncarnationRecordView,
    activation: IdunnRuntimeActivationRecordView,
)
    ensures
        bundled_expectation(expected, activation) matches Ok(e) ==> holds(
            e,
            expected.target,
            DocumentView::Expected(expected),
            activation.issued_at_unix_millis,
        ),
        activation_envelope_view(expected.target, activation) matches Ok(e) ==> holds(
            e,
            expected.target,
            DocumentView::Activation(activation),
            activation.issued_at_unix_millis,
        ),
        bundled_expectation(expected, activation) is Ok <==> instant_text(
            activation.issued_at_unix_millis as int,
        ) is Ok,
        activation_envelope_view(expected.target, activation) is Ok <==> instant_text(
            activation.issued_at_unix_millis as int,
        ) is Ok,
{
}

/// The key of an incarnation: its target, and the digest of what is expected of it.
pub open spec fn incarnation(expected: IdunnExpectedIncarnationRecordView) -> Seq<char> {
    expected.target + "@"@ + expected.canonical_sha256
}

/// Whether an envelope is the one that an expectation is published in at a time.
pub open spec fn is_expectation(
    e: CultCacheEnvelopeView,
    expected: IdunnExpectedIncarnationRecordView,
    now: Seq<char>,
) -> bool {
    &&& tells_one_record(e)
    &&& e.document == DocumentView::Expected(expected)
    &&& e.key == incarnation(expected)
    &&& e.stored_at == now
}

/// Whether an envelope is the one that a target's anchor is published in.
pub open spec fn is_anchor(
    e: CultCacheEnvelopeView,
    target: Seq<char>,
    anchor: GameCultServiceTrustAnchorRecordView,
    bytes: Seq<u8>,
) -> bool {
    &&& e.payload == bytes
    &&& holds(
        e,
        "root/"@ + target + "/runtime-presence"@,
        DocumentView::Anchor(anchor),
        anchor.bound_at_unix_millis,
    )
}

/// Whether a store holds a record of a kind under a key in some bytes.
pub open spec fn stands(
    entries: Seq<CultCacheEnvelopeView>,
    key: Seq<char>,
    kind: RecordTypeView,
    bytes: Seq<u8>,
) -> bool {
    exists|i: int|
        0 <= i < entries.len() && (#[trigger] entries[i]).key == key && entries[i].record_type
            == kind && entries[i].payload == bytes
}

proof fn lemma_found(
    entries: Seq<CultCacheEnvelopeView>,
    kind: RecordTypeView,
    key: Seq<char>,
    e: CultCacheEnvelopeView,
)
    requires
        entry_of(entries, kind, key) == Ok::<Option<CultCacheEnvelopeView>, Seq<char>>(Some(e)),
    ensures
        entries.contains(e),
        e.record_type == kind,
        e.key == key,
{
    let pred = named(kind, key);
    entries.lemma_filter_pred(pred, 0);
    assert(pred(entries.filter(pred)[0]));
    assert(entries.filter(pred).contains(e));
    entries.lemma_filter_contains_rev(pred, e);
}

proof fn lemma_stayed(
    entries: Seq<CultCacheEnvelopeView>,
    removal: RemovalView,
    e: CultCacheEnvelopeView,
)
    requires
        entries.filter(stays(removal)).contains(e),
    ensures
        entries.contains(e),
{
    entries.lemma_filter_contains_rev(stays(removal), e);
}

/// Publishing an expectation puts nothing into the store but that expectation and the anchor
/// that its provider gives its target, each whole and under its own key; and both then stand
/// there, in their own bytes.
pub proof fn what_is_published_is_the_expectation(
    entries: Seq<CultCacheEnvelopeView>,
    expected: IdunnExpectedIncarnationRecordView,
    provider: ServiceIdentityTrustAnchorView,
    contract: PresenceContract,
    anchor_payload: Seq<u8>,
    now: Seq<char>,
    e: CultCacheEnvelopeView,
)
    ensures
        ({
            let decision = publication(entries, expected, provider, contract, anchor_payload, now);
            let content = after(entries, decision);
            decision is Ok ==> {
                &&& presence_anchor(expected, provider, contract) is Ok
                &&& content.contains(e) ==> {
                    ||| entries.contains(e)
                    ||| is_expectation(e, expected, now)
                    ||| is_anchor(
                        e,
                        expected.target,
                        presence_anchor(expected, provider, contract)->Ok_0,
                        anchor_payload,
                    )
                }
                &&& stands(
                    content,
                    incarnation(expected),
                    RecordTypeView::Expected,
                    expected.canonical_bytes,
                )
                &&& stands(
                    content,
                    "root/"@ + expected.target + "/runtime-presence"@,
                    RecordTypeView::Anchor,
                    anchor_payload,
                )
            }
        }),
{
    let decision = publication(entries, expected, provider, contract, anchor_payload, now);
    let content = after(entries, decision);
    if decision is Ok {
        let anchor = presence_anchor(expected, provider, contract)->Ok_0;
        let key = incarnation(expected);
        let id = "root/"@ + expected.target + "/runtime-presence"@;
        let current = entry_of(entries, RecordTypeView::Expected, key)->Ok_0;
        let current_anchor = entry_of(entries, RecordTypeView::Anchor, id)->Ok_0;
        if let Some(x) = current {
            lemma_found(entries, RecordTypeView::Expected, key, x);
        }
        if let Some(x) = current_anchor {
            lemma_found(entries, RecordTypeView::Anchor, id, x);
        }
        if let Ok(Some(_)) = decision {
            let n = content.len() as int;
            let removal = crate::topology::publishing_removes(expected, anchor);
            let rest = entries.filter(stays(removal));
            assert(content =~= rest.push(content[n - 2]).push(content[n - 1]));
            assert(content[n - 2].key == key);
            assert(content[n - 1].key == id);
            if content.contains(e) {
                let i = choose|i: int| 0 <= i < content.len() && content[i] == e;
                if i < rest.len() {
                    assert(rest[i] == e);
                    lemma_stayed(entries, removal, e);
                }
            }
        } else {
            let i = choose|i: int| 0 <= i < entries.len() && entries[i] == current->0;
            assert(entries[i].key == key);
            let k = choose|k: int| 0 <= k < entries.len() && entries[k] == current_anchor->0;
            assert(entries[k].key == id);
        }
    }
}

/// The anchor that is published for a target binds the signer that its incarnation is expected
/// to have, and binds it to the target and its runtime alone, with no end and nothing private.
pub proof fn a_presence_anchor_binds_the_expected_signer(
    expected: IdunnExpectedIncarnationRecordView,
    provider: ServiceIdentityTrustAnchorView,
    contract: PresenceContract,
)
    ensures
        presence_anchor(expected, provider, contract) matches Ok(anchor) ==> {
            &&& provider.derived_identity_id == provider.identity_id
            &&& anchor.signer_identity_id == expected.expected_signer_identity_id
            &&& anchor.signer_identity_id == provider.identity_id
            &&& anchor.signer_public_key == provider.public_key
            &&& anchor.service_id == expected.target
            &&& anchor.runtime_id == expected.runtime_id
            &&& anchor.trust_anchor_id == "root/"@ + expected.target + "/runtime-presence"@
            &&& anchor.binding_authority == "root"@
            &&& anchor.signature_algorithm == "ed25519"@
            &&& anchor.schema_version == contract.trust_anchor_schema@
            &&& anchor.signing_purpose == contract.presence_signing_purpose@
            &&& anchor.signed_schema == contract.presence_schema@
            &&& anchor.expires_at_unix_millis is None
            &&& !anchor.private_state_exposed
        },
{
}

/// Publishing an observed activation puts nothing into the store but that activation, whole
/// and under the key of its incarnation; and it then stands there in its own bytes.
pub proof fn what_is_published_is_the_activation(
    entries: Seq<CultCacheEnvelopeView>,
    expected: IdunnExpectedIncarnationRecordView,
    activation: IdunnRuntimeActivationRecordView,
    e: CultCacheEnvelopeView,
)
    ensures
        ({
            let decision = publishing_activation(entries, expected, activation);
            let content = after(entries, decision);
            decision is Ok ==> {
                &&& content.contains(e) ==> entries.contains(e) || holds(
                    e,
                    incarnation(expected),
                    DocumentView::Activation(activation),
                    activation.issued_at_unix_millis,
                )
                &&& stands(
                    content,
                    incarnation(expected),
                    RecordTypeView::Activation,
                    activation.canonical_bytes,
                )
            }
        }),
{
    let decision = publishing_activation(entries, expected, activation);
    let content = after(entries, decision);
    let key = incarnation(expected);
    if let Ok(change) = decision {
        if change is Some {
            let n = content.len() as int;
            let removal = crate::topology::one_kind_removes(key, RecordTypeView::Activation);
            let rest = entries.filter(stays(removal));
            assert(content =~= rest.push(content[n - 1]));
            assert(content[n - 1].key == key);
            if content.contains(e) {
                let i = choose|i: int| 0 <= i < content.len() && content[i] == e;
                if i < rest.len() {
                    assert(rest[i] == e);
                    lemma_stayed(entries, removal, e);
                }
            }
        } else {
            let current = entry_of(entries, RecordTypeView::Activation, key)->Ok_0->0;
            lemma_found(entries, RecordTypeView::Activation, key, current);
            let i = choose|i: int| 0 <= i < entries.len() && entries[i] == current;
            assert(entries[i].key == key);
        }
    }
}

/// Publishing a write lease adds that lease and nothing else, whole and under the key of its
/// incarnation, and takes nothing away.
pub proof fn what_is_published_is_the_lease(
    entries: Seq<CultCacheEnvelopeView>,
    expected: IdunnExpectedIncarnationRecordView,
    activation: IdunnRuntimeActivationRecordView,
    lease: IdunnProcessWriteLeaseRecordView,
    presence_schema: Seq<char>,
    presence_signing_purpose: Seq<char>,
)
    ensures
        publishing_lease(
            entries,
            expected,
            activation,
            lease,
            presence_schema,
            presence_signing_purpose,
        ) matches Ok(Some(content)) ==> {
            &&& content.len() == entries.len() + 1
            &&& content.drop_last() == entries
            &&& holds(
                content.last(),
                incarnation(expected),
                DocumentView::Lease(lease),
                lease.issued_at_unix_millis,
            )
        },
{
    if let Ok(Some(content)) = publishing_lease(
        entries,
        expected,
        activation,
        lease,
        presence_schema,
        presence_signing_purpose,
    ) {
        assert(content.drop_last() =~= entries);
    }
}

/// A lease is granted exactly to the candidate that it names: to the expected incarnation of the
/// target, in its release and by its plan, with its state's generation and contract, to the
/// activation's own instance, whose presence is the one that was admitted.
pub proof fn a_lease_is_granted_to_the_candidate_that_it_names(
    target: Seq<char>,
    expected: IdunnExpectedIncarnationRecordView,
    activation: IdunnRuntimeActivationRecordView,
    presence_sha256: Seq<char>,
    warming_instance: Seq<char>,
    lease: IdunnProcessWriteLeaseRecordView,
)
    ensures
        grant_refusal(target, expected, activation, presence_sha256, warming_instance, lease)
            is None <==> {
            &&& lease.target == target
            &&& expected.target == target
            &&& lease.expected_projection_sha256 == expected.canonical_sha256
            &&& lease.plan_id == expected.plan_id
            &&& lease.incarnation_id == expected.incarnation_id
            &&& lease.sealed_release_id == expected.sealed_release_id
            &&& lease.runtime_id == expected.runtime_id
            &&& expected.state_schema_generation == Some(lease.state_schema_generation)
            &&& expected.state_contract_sha256 == Some(lease.state_contract_sha256)
            &&& lease.activation_witness_sha256 == activation.canonical_sha256
            &&& lease.runtime_instance_id == activation.runtime_instance_id
            &&& warming_instance == activation.runtime_instance_id
            &&& lease.warming_presence_sha256 == presence_sha256
        },
{
}

/// A lease is projected exactly for the expected activation that it binds, where one is required;
/// so a lease that may be granted to a candidate may be projected for it.
pub proof fn a_lease_is_projected_for_the_activation_that_it_binds(
    target: Seq<char>,
    expected: IdunnExpectedIncarnationRecordView,
    activation: IdunnRuntimeActivationRecordView,
    presence_sha256: Seq<char>,
    warming_instance: Seq<char>,
    lease: IdunnProcessWriteLeaseRecordView,
)
    ensures
        topology_lease_refusal(expected, activation, lease) is None <==> {
            &&& expected.write_lease_required
            &&& lease.target == expected.target
            &&& lease.expected_projection_sha256 == expected.canonical_sha256
            &&& lease.plan_id == expected.plan_id
            &&& lease.incarnation_id == expected.incarnation_id
            &&& lease.sealed_release_id == expected.sealed_release_id
            &&& lease.runtime_id == expected.runtime_id
            &&& expected.state_schema_generation == Some(lease.state_schema_generation)
            &&& expected.state_contract_sha256 == Some(lease.state_contract_sha256)
            &&& lease.activation_witness_sha256 == activation.canonical_sha256
            &&& lease.runtime_instance_id == activation.runtime_instance_id
        },
        grant_refusal(target, expected, activation, presence_sha256, warming_instance, lease)
            is None && expected.write_lease_required ==> topology_lease_refusal(
            expected,
            activation,
            lease,
        ) is None,
{
}

/// Whether a store shows a document under a key.
pub open spec fn shows(
    entries: Seq<CultCacheEnvelopeView>,
    key: Seq<char>,
    document: DocumentView,
) -> bool {
    exists|i: int|
        0 <= i < entries.len() && (#[trigger] entries[i]).key == key && entries[i].document
            == document
}

proof fn lemma_shown(
    entries: Seq<CultCacheEnvelopeView>,
    kind: RecordTypeView,
    key: Seq<char>,
    e: CultCacheEnvelopeView,
)
    requires
        entry_of(entries, kind, key) == Ok::<Option<CultCacheEnvelopeView>, Seq<char>>(Some(e)),
    ensures
        shows(entries, key, e.document),
{
    lemma_found(entries, kind, key, e);
    let i = choose|i: int| 0 <= i < entries.len() && entries[i] == e;
    assert(entries[i].key == key);
}

/// What is admitted as projected is there: the expectation, its activation and its lease, where
/// it has one, each under the key of the incarnation, and the anchor of the target.
pub proof fn what_is_admitted_is_projected(
    entries: Seq<CultCacheEnvelopeView>,
    expected: IdunnExpectedIncarnationRecordView,
    provider: ServiceIdentityTrustAnchorView,
    contract: PresenceContract,
    activation: IdunnRuntimeActivationRecordView,
    lease: Option<IdunnProcessWriteLeaseRecordView>,
)
    ensures
        admitted_expected(entries, expected, provider, contract) == Ok::<bool, Seq<char>>(true)
            ==> {
            &&& shows(entries, incarnation(expected), DocumentView::Expected(expected))
            &&& shows(
                entries,
                "root/"@ + expected.target + "/runtime-presence"@,
                DocumentView::Anchor(presence_anchor(expected, provider, contract)->Ok_0),
            )
        },
        admitted_runtime(entries, expected, provider, contract, activation, lease) == Ok::<
            bool,
            Seq<char>,
        >(true) ==> {
            &&& shows(entries, incarnation(expected), DocumentView::Expected(expected))
            &&& shows(entries, incarnation(expected), DocumentView::Activation(activation))
            &&& lease matches Some(l) ==> shows(
                entries,
                incarnation(expected),
                DocumentView::Lease(l),
            )
            &&& activation.expected_projection_sha256 == expected.canonical_sha256
            &&& shows(
                entries,
                "root/"@ + expected.target + "/runtime-presence"@,
                DocumentView::Anchor(presence_anchor(expected, provider, contract)->Ok_0),
            )
        },
{
    let key = incarnation(expected);
    let id = "root/"@ + expected.target + "/runtime-presence"@;
    if let Ok(Some(e)) = entry_of(entries, RecordTypeView::Expected, key) {
        lemma_shown(entries, RecordTypeView::Expected, key, e);
    }
    if let Ok(Some(e)) = entry_of(entries, RecordTypeView::Activation, key) {
        lemma_shown(entries, RecordTypeView::Activation, key, e);
    }
    if let Ok(Some(e)) = entry_of(entries, RecordTypeView::Lease, key) {
        lemma_shown(entries, RecordTypeView::Lease, key, e);
    }
    if let Ok(Some(e)) = entry_of(entries, RecordTypeView::Anchor, id) {
        lemma_shown(entries, RecordTypeView::Anchor, id, e);
    }
}

/// A lease is revoked exactly where it is the one that stands in the store; an empty store has
/// nothing to revoke; and no other lease is touched.
pub proof fn only_the_expected_lease_is_revoked(
    target: Seq<char>,
    entries: Seq<CultCacheEnvelopeView>,
    incumbent: Option<IdunnProcessWriteLeaseRecordView>,
)
    requires
        incumbent matches Some(lease) ==> lease.target == target,
    ensures
        entries.len() == 0 ==> revoke_step(target, entries, incumbent) == Ok::<
            Option<CultCacheEnvelopeView>,
            Seq<char>,
        >(None),
        revoke_step(target, entries, incumbent) matches Ok(Some(e)) ==> {
            &&& entries == seq![e]
            &&& incumbent is Some
            &&& read_lease(e.document) == Ok::<IdunnProcessWriteLeaseRecordView, Seq<char>>(
                incumbent->0,
            )
            &&& e.key == target
        },
        current_lease(target, entries) == Ok::<Option<IdunnProcessWriteLeaseRecordView>, Seq<char>>(
            incumbent,
        ) && incumbent is Some ==> revoke_step(target, entries, incumbent) == Ok::<
            Option<CultCacheEnvelopeView>,
            Seq<char>,
        >(Some(entries[0])),
        revoke_step(target, entries, incumbent) matches Ok(None) ==> entries.len() == 0,
{
    if let Ok(Some(e)) = revoke_step(target, entries, incumbent) {
        assert(entries =~= seq![e]);
    }
}

/// What was granted can be revoked: a store that holds a lease's own envelope gives that
/// envelope up for that lease, and for no other.
pub proof fn what_was_granted_can_be_revoked(
    target: Seq<char>,
    lease: IdunnProcessWriteLeaseRecordView,
    e: CultCacheEnvelopeView,
    other: IdunnProcessWriteLeaseRecordView,
)
    requires
        lease.target == target,
        grant_step(target, Seq::empty(), lease) == Ok::<Option<CultCacheEnvelopeView>, Seq<char>>(
            Some(e),
        ),
    ensures
        revoke_step(target, seq![e], Some(lease)) == Ok::<Option<CultCacheEnvelopeView>, Seq<char>>(
            Some(e),
        ),
        other != lease ==> revoke_step(target, seq![e], Some(other)) is Err,
        grant_step(target, seq![e], lease) == Ok::<Option<CultCacheEnvelopeView>, Seq<char>>(None),
        other != lease ==> grant_step(target, seq![e], other) is Err,
{
}

/// A presence anchor is made exactly of a provider that speaks the schema of the contract and
/// whose identity is its own and the one that was expected, at an instant that can be read.
pub proof fn a_presence_anchor_is_made_of_the_expected_provider(
    expected: IdunnExpectedIncarnationRecordView,
    provider: ServiceIdentityTrustAnchorView,
    contract: PresenceContract,
)
    ensures
        presence_anchor(expected, provider, contract) is Ok <==> {
            &&& provider.schema_version == contract.provider_anchor_schema@
            &&& provider.derived_identity_id == provider.identity_id
            &&& provider.identity_id == expected.expected_signer_identity_id
            &&& creation_instant(provider.identity_created_at) is Ok
        },
{
}

/// What is withdrawn or admitted together belongs together: an activation to its expectation,
/// and a lease to its activation.
pub proof fn what_is_withdrawn_belongs_together(
    expected: IdunnExpectedIncarnationRecordView,
    activation: Option<IdunnRuntimeActivationRecordView>,
    lease: Option<IdunnProcessWriteLeaseRecordView>,
    words: Seq<char>,
)
    ensures
        withdrawal_refusal(expected, activation, lease) is None <==> {
            &&& activation matches Some(a) ==> a.expected_projection_sha256
                == expected.canonical_sha256 && a.runtime_id == expected.runtime_id
            &&& lease matches Some(l) ==> activation is Some && topology_lease_refusal(
                expected,
                activation->0,
                l,
            ) is None
        },
        activation matches Some(a) ==> (admission_refusal(expected, a, lease, words) is None <==> {
            &&& a.expected_projection_sha256 == expected.canonical_sha256
            &&& lease matches Some(l) ==> topology_lease_refusal(expected, a, l) is None
        }),
{
}

/// An activation is published exactly for the process that was seen to run it: the instance that
/// was activated, with the executable that was expected.
pub proof fn an_activation_is_published_for_the_process_that_runs_it(
    expected: IdunnExpectedIncarnationRecordView,
    activation: IdunnRuntimeActivationRecordView,
    observation: WorkloadObservationView,
)
    ensures
        observes(expected, activation, observation) <==> {
            &&& activation.expected_projection_sha256 == expected.canonical_sha256
            &&& match observation {
                WorkloadObservationView::Systemd(o) => o.runtime_instance_id
                    == activation.runtime_instance_id && o.executable_sha256
                    == expected.artifact_sha256,
                WorkloadObservationView::Host(o) => o.runtime_instance_id
                    == activation.runtime_instance_id && o.executable_sha256
                    == expected.artifact_sha256,
            }
        },
{
}

/// A lease is published only beside an anchor that binds what the expectation binds: its target,
/// its runtime and its signer, for the presence that is signed and under the schema of it.
pub proof fn a_lease_is_published_beside_its_anchor(
    entries: Seq<CultCacheEnvelopeView>,
    expected: IdunnExpectedIncarnationRecordView,
    activation: IdunnRuntimeActivationRecordView,
    lease: IdunnProcessWriteLeaseRecordView,
    presence_schema: Seq<char>,
    presence_signing_purpose: Seq<char>,
)
    requires
        publishing_lease(
            entries,
            expected,
            activation,
            lease,
            presence_schema,
            presence_signing_purpose,
        ) is Ok,
    ensures
        entry_of(entries, RecordTypeView::Anchor, anchor_id_text(expected.target)) matches Ok(
            Some(e),
        ) && e.schema_id == RecordSchemaView::Anchor && (read_anchor(e.document) matches Ok(anchor)
            && anchor.service_id == expected.target && anchor.runtime_id == expected.runtime_id
            && anchor.signer_identity_id == expected.expected_signer_identity_id
            && anchor.signing_purpose == presence_signing_purpose && anchor.signed_schema
            == presence_schema),
{
}

} // verus!
