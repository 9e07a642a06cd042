use idunn_drivers::bundle::{settle_upsert, upsert_record, UpsertStep};
use idunn_drivers::digest::sha256_id;
use idunn_drivers::lease::{
    CultCacheWriteLeaseDriver, ExchangeOutcome, GrantStep, SequenceAdmittedWarming,
};
use idunn_drivers::records::{
    CultCacheEnvelope, Document, GameCultServiceTrustAnchorRecord, IdunnExpectedIncarnationRecord,
    IdunnProcessWriteLeaseRecord, IdunnRuntimeActivationRecord, RecordSchema, RecordType,
    ServiceIdentityTrustAnchor,
};
use idunn_drivers::text::Refusal;
use idunn_drivers::fresh::stamped_expectation;
use idunn_drivers::topology::{
    activation_envelope, incarnation_key, incarnation_key_of, runtime_presence_trust_anchor,
    runtime_presence_trust_anchor_id, service_trust_anchor_from_envelope, AnchorDocument,
    CultCacheTopologyDriver, PresenceContract, PublicationStep, ReceivedOdinTopologyCorrelation,
};

const NOW: &str = "2026-09-03T00:00:00Z";

fn digest(byte: char) -> String {
    format!("sha256-{}", byte.to_string().repeat(64))
}

fn seal_expected(record: &mut IdunnExpectedIncarnationRecord) {
    let text = format!(
        "{} {} {} {} {} {}",
        record.target,
        record.plan_id,
        record.incarnation_id,
        record.sealed_release_id,
        record.artifact_sha256,
        record.runtime_id
    );
    record.canonical_bytes = text.into_bytes();
    record.canonical_sha256 = sha256_id(&record.canonical_bytes);
}

fn seal_activation(record: &mut IdunnRuntimeActivationRecord) {
    let text = format!("{} {}", record.expected_projection_sha256, record.runtime_instance_id);
    record.canonical_bytes = text.into_bytes();
    record.canonical_sha256 = sha256_id(&record.canonical_bytes);
}

fn seal_lease(record: &mut IdunnProcessWriteLeaseRecord, epoch: u64) {
    let text = format!("{} {} {epoch}", record.expected_projection_sha256, record.runtime_instance_id);
    record.canonical_bytes = text.into_bytes();
    record.canonical_sha256 = sha256_id(&record.canonical_bytes);
}

fn expected() -> IdunnExpectedIncarnationRecord {
    let mut record = IdunnExpectedIncarnationRecord {
        target: "service".into(),
        runtime_id: "service-runtime".into(),
        plan_id: digest('1'),
        incarnation_id: "incarnation-1".into(),
        sealed_release_id: digest('2'),
        artifact_sha256: digest('5'),
        expected_signer_identity_id: "service-signer".into(),
        state_schema_generation: Some("state-v1".into()),
        state_contract_sha256: Some(digest('6')),
        write_lease_required: true,
        route: None,
        canonical_sha256: String::new(),
        canonical_bytes: Vec::new(),
    };
    seal_expected(&mut record);
    record
}

fn activation(expected: &IdunnExpectedIncarnationRecord) -> IdunnRuntimeActivationRecord {
    let mut record = IdunnRuntimeActivationRecord {
        expected_projection_sha256: expected.canonical_sha256.clone(),
        runtime_id: expected.runtime_id.clone(),
        runtime_instance_id: digest('7'),
        activation_signer_identity_id: "activation-signer".into(),
        activation_signer_public_key: vec![1; 32],
        issued_at_unix_millis: 100,
        canonical_sha256: String::new(),
        canonical_bytes: Vec::new(),
    };
    seal_activation(&mut record);
    record
}

fn warming(activation: &IdunnRuntimeActivationRecord) -> SequenceAdmittedWarming {
    SequenceAdmittedWarming {
        signed_presence_sha256: digest('9'),
        runtime_instance_id: activation.runtime_instance_id.clone(),
    }
}

fn lease(
    expected: &IdunnExpectedIncarnationRecord,
    activation: &IdunnRuntimeActivationRecord,
    warming: &SequenceAdmittedWarming,
) -> IdunnProcessWriteLeaseRecord {
    let mut record = IdunnProcessWriteLeaseRecord {
        target: expected.target.clone(),
        expected_projection_sha256: expected.canonical_sha256.clone(),
        plan_id: expected.plan_id.clone(),
        incarnation_id: expected.incarnation_id.clone(),
        sealed_release_id: expected.sealed_release_id.clone(),
        activation_witness_sha256: activation.canonical_sha256.clone(),
        runtime_id: expected.runtime_id.clone(),
        runtime_instance_id: activation.runtime_instance_id.clone(),
        state_schema_generation: expected.state_schema_generation.clone().unwrap(),
        state_contract_sha256: expected.state_contract_sha256.clone().unwrap(),
        warming_presence_sha256: warming.signed_presence_sha256.clone(),
        issued_at_unix_millis: 200,
        canonical_sha256: String::new(),
        canonical_bytes: Vec::new(),
    };
    seal_lease(&mut record, 1);
    record
}

fn contract() -> PresenceContract {
    PresenceContract {
        provider_anchor_schema: "provider.anchor.v1".into(),
        trust_anchor_schema: "trust.anchor.v1".into(),
        presence_schema: "presence.v1".into(),
        presence_signing_purpose: "presence".into(),
    }
}

fn provider_anchor() -> ServiceIdentityTrustAnchor {
    ServiceIdentityTrustAnchor {
        schema_version: "provider.anchor.v1".into(),
        identity_id: "service-signer".into(),
        public_key: vec![5; 32],
        identity_created_at: "2026-09-01T00:00:00Z".into(),
        derived_identity_id: "service-signer".into(),
    }
}

fn anchor_document(expected: &IdunnExpectedIncarnationRecord) -> AnchorDocument {
    let record = runtime_presence_trust_anchor(expected, &provider_anchor(), &contract()).unwrap();
    anchored(record)
}

fn anchored(record: GameCultServiceTrustAnchorRecord) -> AnchorDocument {
    let payload = format!("{} {}", record.trust_anchor_id, record.runtime_id).into_bytes();
    AnchorDocument { record, payload }
}

fn driver(name: &str) -> CultCacheTopologyDriver {
    CultCacheTopologyDriver {
        projection_store: format!("/store/{name}.cc"),
        correlation_store: format!("/store/{name}-correlation.cc"),
    }
}

/// A store that takes whole contents, as a projection is exchanged.
struct Store(Vec<CultCacheEnvelope>);

impl Store {
    fn take(&mut self, decided: Result<Option<Vec<CultCacheEnvelope>>, Refusal>) -> Result<bool, Refusal> {
        match decided? {
            Some(next) => {
                self.0 = next;
                Ok(true)
            }
            None => Ok(false),
        }
    }

    fn upsert(&mut self, envelope: CultCacheEnvelope) {
        match upsert_record(&self.0, &envelope).unwrap() {
            UpsertStep::Nothing => {}
            UpsertStep::Insert => self.0.push(envelope),
            UpsertStep::Replace { place } => self.0[place] = envelope,
        }
    }

    fn has(&self, kind: RecordType) -> bool {
        self.0.iter().any(|entry| entry.record_type == kind)
    }
}

fn expected_record(key: &str, record: &IdunnExpectedIncarnationRecord) -> CultCacheEnvelope {
    CultCacheEnvelope {
        key: key.into(),
        record_type: RecordType::Expected,
        payload: record.canonical_bytes.clone(),
        stored_at: NOW.into(),
        schema_id: RecordSchema::Expected,
        document: Document::Expected(record.clone()),
    }
}

fn activation_record(key: &str, record: &IdunnRuntimeActivationRecord) -> CultCacheEnvelope {
    CultCacheEnvelope {
        key: key.into(),
        record_type: RecordType::Activation,
        payload: record.canonical_bytes.clone(),
        stored_at: NOW.into(),
        schema_id: RecordSchema::Activation,
        document: Document::Activation(record.clone()),
    }
}

fn lease_record(key: &str, record: &IdunnProcessWriteLeaseRecord) -> CultCacheEnvelope {
    CultCacheEnvelope {
        key: key.into(),
        record_type: RecordType::Lease,
        payload: record.canonical_bytes.clone(),
        stored_at: NOW.into(),
        schema_id: RecordSchema::Lease,
        document: Document::Lease(record.clone()),
    }
}

fn anchor_record(document: &AnchorDocument) -> CultCacheEnvelope {
    CultCacheEnvelope {
        key: document.record.trust_anchor_id.clone(),
        record_type: RecordType::Anchor,
        payload: document.payload.clone(),
        stored_at: NOW.into(),
        schema_id: RecordSchema::Anchor,
        document: Document::Anchor(document.record.clone()),
    }
}

fn unrelated() -> CultCacheEnvelope {
    CultCacheEnvelope {
        key: "unrelated".into(),
        record_type: RecordType::Foreign("test.unrelated".into()),
        payload: vec![0x90],
        stored_at: NOW.into(),
        schema_id: RecordSchema::Foreign("test.unrelated.v1".into()),
        document: Document::Unread,
    }
}

fn project_activation(
    store: &mut Store,
    expected: &IdunnExpectedIncarnationRecord,
    activation: &IdunnRuntimeActivationRecord,
) {
    assert_eq!(activation.expected_projection_sha256, expected.canonical_sha256);
    let envelope = activation_envelope(&incarnation_key(expected), activation).unwrap();
    store.upsert(envelope);
}

#[test]
fn topology_transport_returns_opaque_odin_bytes_without_deciding_ready() -> Result<(), Refusal> {
    let opaque = b"not a topology receipt".to_vec();
    let entries = vec![CultCacheEnvelope {
        key: incarnation_key_of("service", &digest('1')),
        record_type: RecordType::Correlation,
        payload: opaque.clone(),
        stored_at: NOW.into(),
        schema_id: RecordSchema::Correlation,
        document: Document::Unread,
    }];
    let driver = driver("projection");
    assert_eq!(driver.receive("service", &digest('2'), &entries)?, None);
    assert_eq!(
        driver.receive("service", &digest('1'), &entries)?,
        Some(ReceivedOdinTopologyCorrelation {
            target: "service".into(),
            expected_sha256: digest('1'),
            canonical_bytes: opaque,
        })
    );
    Ok(())
}

#[test]
fn expected_withdrawal_is_exact_atomic_and_idempotent() -> Result<(), Refusal> {
    let expected = expected();
    let activation = activation(&expected);
    let warming = warming(&activation);
    let lease = lease(&expected, &activation, &warming);
    let anchor = anchor_document(&expected);
    let driver = driver("projection");
    let mut store = Store(Vec::new());
    assert!(store.take(driver.publish_expected(
        &expected,
        &provider_anchor(),
        &contract(),
        &anchor.payload,
        &store.0,
        NOW
    ))?);
    assert_eq!(store.0.len(), 2);
    assert!(store.0.iter().any(|entry| {
        entry.key == incarnation_key(&expected) && entry.record_type == RecordType::Expected
    }));
    let published_anchor =
        store.0.iter().find(|entry| entry.record_type == RecordType::Anchor).unwrap();
    assert_eq!(service_trust_anchor_from_envelope(published_anchor)?, anchor.record);
    project_activation(&mut store, &expected, &activation);
    assert!(store.take(driver.publish_process_write_lease(
        &expected,
        &activation,
        &lease,
        &contract(),
        &store.0
    ))?);

    let key = incarnation_key(&expected);
    let mut substituted_expected = expected.clone();
    substituted_expected.incarnation_id = "another-incarnation".into();
    seal_expected(&mut substituted_expected);
    store.upsert(expected_record(&key, &substituted_expected));
    assert!(driver
        .withdraw_incarnation(&expected, &provider_anchor(), &contract(), Some(&activation), Some(&lease), &store.0)
        .is_err());
    store.take(driver.publish_expected(
        &expected,
        &provider_anchor(),
        &contract(),
        &anchor.payload,
        &store.0,
        NOW
    ))?;

    let mut substituted_anchor = anchor.record.clone();
    substituted_anchor.runtime_id = "another-runtime".into();
    store.upsert(anchor_record(&anchored(substituted_anchor)));
    assert!(driver
        .withdraw_incarnation(&expected, &provider_anchor(), &contract(), Some(&activation), Some(&lease), &store.0)
        .is_err());
    store.take(driver.publish_expected(
        &expected,
        &provider_anchor(),
        &contract(),
        &anchor.payload,
        &store.0,
        NOW
    ))?;

    let mut substituted_activation = activation.clone();
    substituted_activation.expected_projection_sha256 = digest('a');
    seal_activation(&mut substituted_activation);
    store.upsert(activation_record(&key, &substituted_activation));
    assert!(driver
        .withdraw_incarnation(&expected, &provider_anchor(), &contract(), Some(&activation), None, &store.0)
        .is_err());
    project_activation(&mut store, &expected, &activation);

    let mut substituted_lease = lease.clone();
    seal_lease(&mut substituted_lease, 2);
    assert!(driver
        .publish_process_write_lease(&expected, &activation, &substituted_lease, &contract(), &store.0)
        .is_err());
    assert!(driver
        .withdraw_incarnation(
            &expected,
            &provider_anchor(), &contract(),
            Some(&activation),
            Some(&substituted_lease),
            &store.0
        )
        .is_err());

    store.upsert(unrelated());
    assert!(store.take(driver.withdraw_incarnation(
        &expected,
        &provider_anchor(), &contract(),
        Some(&activation),
        Some(&lease),
        &store.0
    ))?);
    assert_eq!(store.0.len(), 1);
    assert_eq!(store.0[0].key, "unrelated");
    assert!(!store.take(driver.withdraw_incarnation(
        &expected,
        &provider_anchor(), &contract(),
        Some(&activation),
        Some(&lease),
        &store.0
    ))?);
    Ok(())
}

#[test]
fn incumbent_projection_restoration_demotes_to_expected_only_and_rejects_unknown_authority() -> Result<(), Refusal> {
    let incumbent = expected();
    let activation = activation(&incumbent);
    let warming = warming(&activation);
    let lease = lease(&incumbent, &activation, &warming);
    let anchor = anchor_document(&incumbent);
    let driver = driver("restoration");
    let mut store = Store(Vec::new());
    store.take(driver.publish_expected(
        &incumbent,
        &provider_anchor(),
        &contract(),
        &anchor.payload,
        &store.0,
        NOW
    ))?;
    project_activation(&mut store, &incumbent, &activation);
    store.take(driver.publish_process_write_lease(
        &incumbent,
        &activation,
        &lease,
        &contract(),
        &store.0,
    ))?;
    let incumbent_key = incarnation_key(&incumbent);

    let mut candidate = incumbent.clone();
    candidate.plan_id = digest('a');
    candidate.incarnation_id = "candidate-incarnation".into();
    candidate.sealed_release_id = digest('b');
    candidate.artifact_sha256 = digest('c');
    seal_expected(&mut candidate);
    let mut candidate_activation = activation.clone();
    candidate_activation.expected_projection_sha256 = candidate.canonical_sha256.clone();
    candidate_activation.runtime_instance_id = digest('d');
    seal_activation(&mut candidate_activation);
    let candidate_key = incarnation_key(&candidate);

    let before_candidate = store.0.clone();
    store.take(driver.publish_expected(
        &candidate,
        &provider_anchor(),
        &contract(),
        &anchor.payload,
        &store.0,
        NOW
    ))?;
    project_activation(&mut store, &candidate, &candidate_activation);
    for envelope in &before_candidate {
        if envelope.key == incumbent_key {
            assert!(store.0.contains(envelope));
        }
    }
    assert!(driver.admitted_runtime_projection_is_exact(
        &incumbent,
        &provider_anchor(), &contract(),
        &activation,
        Some(&lease),
        &store.0
    )?);
    assert_eq!(
        store.0.iter().filter(|entry| entry.record_type == RecordType::Expected).count(),
        2
    );
    store.upsert(unrelated());

    store.take(driver.withdraw_incarnation(
        &candidate,
        &provider_anchor(), &contract(),
        Some(&candidate_activation),
        None,
        &store.0,
    ))?;
    assert!(store.0.iter().all(|entry| entry.key != candidate_key));
    assert!(driver.admitted_runtime_projection_is_exact(
        &incumbent,
        &provider_anchor(), &contract(),
        &activation,
        Some(&lease),
        &store.0
    )?);
    assert!(store.has(RecordType::Anchor));

    assert!(store.take(driver.demote_to_expected_only(
        &incumbent,
        &provider_anchor(), &contract(), &anchor.payload,
        &activation,
        Some(&lease),
        &store.0,
        NOW
    ))?);
    assert_eq!(store.0.len(), 3);
    let kept = store.0.iter().find(|entry| entry.record_type == RecordType::Expected).unwrap();
    assert_eq!(kept.expected()?, incumbent);
    let kept = store.0.iter().find(|entry| entry.record_type == RecordType::Anchor).unwrap();
    assert_eq!(service_trust_anchor_from_envelope(kept)?, anchor.record);
    assert!(!store.has(RecordType::Activation) && !store.has(RecordType::Lease));
    assert!(store.0.iter().any(|entry| entry.key == "unrelated"));
    assert!(!driver.projected_activation_is_present(&incumbent, &store.0)?);
    assert!(!store.take(driver.demote_to_expected_only(
        &incumbent,
        &provider_anchor(), &contract(), &anchor.payload,
        &activation,
        Some(&lease),
        &store.0,
        NOW
    ))?);

    let mut unknown_expected = incumbent.clone();
    unknown_expected.incarnation_id = "unknown-incarnation".into();
    seal_expected(&mut unknown_expected);
    let mut unknown_anchor = anchor.record.clone();
    unknown_anchor.runtime_id = "unknown-runtime".into();
    let mut unknown_activation = activation.clone();
    unknown_activation.runtime_instance_id = digest('e');
    seal_activation(&mut unknown_activation);
    let mut unknown_lease = lease.clone();
    seal_lease(&mut unknown_lease, 2);
    for substitution in [
        expected_record(&incumbent_key, &unknown_expected),
        anchor_record(&anchored(unknown_anchor)),
        activation_record(&incumbent_key, &unknown_activation),
        lease_record(&incumbent_key, &unknown_lease),
    ] {
        let mut found = Store(store.0.clone());
        found.upsert(substitution);
        assert!(driver
            .demote_to_expected_only(&incumbent, &provider_anchor(), &contract(), &anchor.payload, &activation, Some(&lease), &found.0, NOW)
            .is_err());
    }
    Ok(())
}

#[test]
fn a_stale_incarnation_is_withdrawn_whole_beside_the_admitted_one() -> Result<(), Refusal> {
    let admitted = expected();
    let activation = activation(&admitted);
    let warming = warming(&activation);
    let lease = lease(&admitted, &activation, &warming);
    let anchor = anchor_document(&admitted);
    let driver = driver("stale");
    let mut stale = admitted.clone();
    stale.plan_id = digest('a');
    stale.incarnation_id = "stale-incarnation".into();
    stale.sealed_release_id = digest('b');
    stale.artifact_sha256 = digest('c');
    seal_expected(&mut stale);
    let mut stale_activation = activation.clone();
    stale_activation.expected_projection_sha256 = stale.canonical_sha256.clone();
    stale_activation.runtime_instance_id = digest('d');
    seal_activation(&mut stale_activation);

    let mut store = Store(Vec::new());
    store.take(driver.publish_expected(
        &stale,
        &provider_anchor(),
        &contract(),
        &anchor.payload,
        &store.0,
        NOW
    ))?;
    project_activation(&mut store, &stale, &stale_activation);
    store.take(driver.publish_expected(
        &admitted,
        &provider_anchor(),
        &contract(),
        &anchor.payload,
        &store.0,
        NOW
    ))?;
    project_activation(&mut store, &admitted, &activation);
    store.take(driver.publish_process_write_lease(
        &admitted,
        &activation,
        &lease,
        &contract(),
        &store.0,
    ))?;

    let projected = driver.projected_incarnations(&admitted.target, &store.0)?;
    assert_eq!(projected.len(), 2);
    assert!(projected.contains(&stale) && projected.contains(&admitted));

    assert!(store.take(driver.withdraw_stale_incarnation(&stale, &provider_anchor(), &contract(), &store.0))?);
    assert_eq!(
        driver.projected_incarnations(&admitted.target, &store.0)?,
        vec![admitted.clone()]
    );
    assert!(driver.admitted_runtime_projection_is_exact(
        &admitted,
        &provider_anchor(), &contract(),
        &activation,
        Some(&lease),
        &store.0
    )?);
    assert!(!store.take(driver.withdraw_stale_incarnation(&stale, &provider_anchor(), &contract(), &store.0))?);
    Ok(())
}

#[test]
fn a_legacy_target_keyed_slot_is_retired_on_publish() -> Result<(), Refusal> {
    let expected = expected();
    let activation = activation(&expected);
    let anchor = anchor_document(&expected);
    let driver = driver("legacy");
    let mut store = Store(Vec::new());
    store.upsert(expected_record(&expected.target, &expected));
    store.upsert(activation_record(&expected.target, &activation));
    assert!(!driver.admitted_expected_projection_is_exact(&expected, &provider_anchor(), &contract(), &store.0)?);
    assert!(!driver.projected_activation_is_present(&expected, &store.0)?);
    store.take(driver.publish_expected(
        &expected,
        &provider_anchor(),
        &contract(),
        &anchor.payload,
        &store.0,
        NOW
    ))?;
    assert!(store.0.iter().all(|entry| entry.key != expected.target));
    assert_eq!(store.0.len(), 2);
    assert!(driver.admitted_expected_projection_is_exact(&expected, &provider_anchor(), &contract(), &store.0)?);
    Ok(())
}

#[test]
fn write_lease_revoke_is_exact_and_never_deletes_a_surprise() -> Result<(), Refusal> {
    let expected = expected();
    let activation = activation(&expected);
    let warming = warming(&activation);
    let lease = lease(&expected, &activation, &warming);
    let anchor = anchor_document(&expected);
    let driver = CultCacheWriteLeaseDriver::new("service".into(), "/store/lease.cc".into());
    let topology = driver_for_leases();
    let mut projection = Store(Vec::new());
    projection.take(topology.publish_expected(
        &expected,
        &provider_anchor(),
        &contract(),
        &anchor.payload,
        &projection.0,
        NOW
    ))?;
    project_activation(&mut projection, &expected, &activation);

    let mut held: Vec<CultCacheEnvelope> = Vec::new();
    match driver.grant(&expected, &activation, &warming, &lease, &held)? {
        GrantStep::Exchange(envelope) => held = vec![envelope],
        GrantStep::AlreadyGranted => panic!("an empty store grants nothing yet"),
    }
    let lease_sha256 = driver.settle_grant(&lease, ExchangeOutcome::Exchanged)?;
    assert_eq!(lease_sha256, lease.canonical_sha256);
    assert!(driver.observe(&expected, &activation, &warming, &lease, &held)?);
    assert_eq!(
        driver.grant(&expected, &activation, &warming, &lease, &held)?,
        GrantStep::AlreadyGranted
    );
    assert!(!projection.has(RecordType::Lease));
    assert!(projection.take(topology.publish_process_write_lease(
        &expected,
        &activation,
        &lease,
        &contract(),
        &projection.0
    ))?);

    let mut surprise = lease.clone();
    seal_lease(&mut surprise, 2);
    assert!(driver.revoke_exact(Some(&surprise), &held).is_err());
    assert!(driver.observe(&expected, &activation, &warming, &lease, &held)?);

    let denial = driver.settle_revocation(ExchangeOutcome::LockContended).unwrap_err();
    assert!(denial.text.contains("held by a shared-lock consumer"));
    assert!(driver.observe(&expected, &activation, &warming, &lease, &held)?);

    assert_eq!(driver.revoke_exact(Some(&lease), &held)?, Some(held[0].clone()));
    driver.settle_revocation(ExchangeOutcome::Exchanged)?;
    held.clear();
    assert!(driver.observe_empty(&held)?);
    assert!(projection.take(topology.withdraw_process_write_lease(
        &expected,
        &activation,
        Some(&lease),
        &projection.0
    ))?);
    assert!(!projection.has(RecordType::Lease));
    assert!(!projection.take(topology.withdraw_process_write_lease(
        &expected,
        &activation,
        Some(&lease),
        &projection.0
    ))?);
    assert_eq!(driver.revoke_exact(Some(&lease), &held)?, None);

    let denial = driver.settle_grant(&lease, ExchangeOutcome::LockContended).unwrap_err();
    assert!(denial.text.contains("held by a shared-lock consumer"));
    assert!(driver.observe_empty(&held)?);
    assert!(driver.settle_grant(&lease, ExchangeOutcome::Mismatch).is_err());
    assert!(driver.settle_revocation(ExchangeOutcome::Mismatch).is_err());
    Ok(())
}

fn driver_for_leases() -> CultCacheTopologyDriver {
    driver("lease-projection")
}

#[test]
fn an_incarnation_is_keyed_by_its_target_and_what_is_expected() {
    let expected = expected();
    assert_eq!(incarnation_key_of("service", "sha256-1"), "service@sha256-1");
    assert_eq!(
        incarnation_key(&expected),
        format!("service@{}", expected.canonical_sha256)
    );
    let id = runtime_presence_trust_anchor_id("service");
    assert_eq!(anchor_document(&expected).record.trust_anchor_id, id);
}

#[test]
fn a_presence_anchor_is_that_of_the_expected_signer() {
    let expected = expected();
    let mut foreign = provider_anchor();
    foreign.identity_id = "another-signer".into();
    foreign.derived_identity_id = "another-signer".into();
    assert!(runtime_presence_trust_anchor(&expected, &foreign, &contract()).is_err());
    let mut other_schema = provider_anchor();
    other_schema.schema_version = "other.v1".into();
    assert!(runtime_presence_trust_anchor(&expected, &other_schema, &contract()).is_err());
    let anchor = runtime_presence_trust_anchor(&expected, &provider_anchor(), &contract()).unwrap();
    assert_eq!(anchor.runtime_id, "service-runtime");
    assert_eq!(anchor.signer_public_key, vec![5; 32]);
    assert_eq!(anchor.bound_at_unix_millis, 1_788_220_800_000);
}

#[test]
fn a_publication_that_keeps_losing_is_given_up() {
    assert_eq!(CultCacheTopologyDriver::mutate(0, true).unwrap(), PublicationStep::Published);
    assert_eq!(CultCacheTopologyDriver::mutate(7, false).unwrap(), PublicationStep::Retry);
    assert_eq!(
        CultCacheTopologyDriver::mutate(8, false).unwrap_err().text,
        "CultCache projection changed repeatedly during publication"
    );
}

#[test]
fn an_ambiguous_record_is_never_replaced() {
    let expected = expected();
    let record = expected_record("k", &expected);
    let entries = vec![record.clone(), record.clone()];
    assert_eq!(
        upsert_record(&entries, &record).unwrap_err().text,
        "CultCache projection identity is ambiguous"
    );
    assert_eq!(upsert_record(&[], &record).unwrap(), UpsertStep::Insert);
    assert_eq!(upsert_record(&[record.clone()], &record).unwrap(), UpsertStep::Nothing);
    assert!(settle_upsert(0, true).is_ok());
    assert!(settle_upsert(7, false).is_err());
}

#[test]
fn an_ambiguous_projection_is_refused_whole() {
    let expected = expected();
    let anchor = anchor_document(&expected);
    let driver = driver("twice");
    let key = incarnation_key(&expected);
    let entries = vec![expected_record(&key, &expected), expected_record(&key, &expected)];
    assert!(driver.publish_expected(
        &expected,
        &provider_anchor(),
        &contract(),
        &anchor.payload,
        &entries,
        NOW
    ).is_err());
    assert!(driver.projected_activation_is_present(&expected, &entries).is_ok());
    assert!(driver
        .withdraw_incarnation(&expected, &provider_anchor(), &contract(), None, None, &entries)
        .is_err());
}

#[test]
fn every_writer_takes_its_anchor_from_the_provider_and_the_expectation() {
    let expected = expected();
    let activation = activation(&expected);
    let anchor = anchor_document(&expected);
    let driver = driver("provider");
    let contract = contract();
    let mut old = provider_anchor();
    old.schema_version = "provider.anchor.v0".into();
    let mut foreign = provider_anchor();
    foreign.identity_id = "another-signer".into();
    foreign.derived_identity_id = "another-signer".into();
    for (provider, words) in [
        (old, "runtime presence trust anchor schema is unsupported"),
        (foreign, "runtime presence trust anchor does not bind the Expected signer"),
    ] {
        let published =
            driver.publish_expected(&expected, &provider, &contract, &anchor.payload, &[], NOW);
        assert_eq!(published.unwrap_err().text, words);
        let withdrawn =
            driver.withdraw_incarnation(&expected, &provider, &contract, None, None, &[]);
        assert_eq!(withdrawn.unwrap_err().text, words);
        let demoted = driver.demote_to_expected_only(
            &expected,
            &provider,
            &contract,
            &anchor.payload,
            &activation,
            None,
            &[],
            NOW,
        );
        assert_eq!(demoted.unwrap_err().text, words);
        let stale = driver.withdraw_stale_incarnation(&expected, &provider, &contract, &[]);
        assert_eq!(stale.unwrap_err().text, words);
        let admitted =
            driver.admitted_expected_projection_is_exact(&expected, &provider, &contract, &[]);
        assert_eq!(admitted.unwrap_err().text, words);
    }
}

#[test]
fn a_withdrawal_takes_only_its_own_key_and_the_last_anchor() -> Result<(), Refusal> {
    let first = expected();
    let mut second = first.clone();
    second.incarnation_id = "second-incarnation".into();
    seal_expected(&mut second);
    let anchor = anchor_document(&first);
    let (driver, provider, contract) = (driver("both"), provider_anchor(), contract());
    let mut store = Store(vec![unrelated()]);
    for expected in [&first, &second] {
        store.take(driver.publish_expected(
            expected,
            &provider,
            &contract,
            &anchor.payload,
            &store.0,
            NOW,
        ))?;
    }
    assert_eq!(store.0.len(), 4);
    store.take(driver.withdraw_incarnation(&first, &provider, &contract, None, None, &store.0))?;
    assert_eq!(store.0.len(), 3);
    assert!(store.has(RecordType::Anchor));
    store.take(driver.withdraw_incarnation(&second, &provider, &contract, None, None, &store.0))?;
    assert_eq!(store.0, vec![unrelated()]);
    Ok(())
}

#[test]
fn an_expectation_is_stamped_with_the_present_and_otherwise_its_own() {
    let record = expected();
    let stamped = stamped_expectation(&record);
    assert_eq!(stamped.key, incarnation_key(&record));
    assert_eq!(stamped.payload, record.canonical_bytes);
    assert_eq!(stamped.schema_id, RecordSchema::Expected);
    assert!(stamped.stored_at.contains('T') && stamped.stored_at.ends_with("+00:00"));
}
