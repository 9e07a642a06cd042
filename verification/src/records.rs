//! The records the drivers exchange: what an incarnation is expected to be, how it
//! was activated, which process may write, who signs its presence, and the envelopes
//! that hold such records in a store.
//!
//! A record carries its canonical bytes and their digest beside its fields, so that
//! two records are the same exactly when they hold the same.
use vstd::prelude::*;

use crate::text::{
    copy_bytes, copy_option, same_bytes, same_option, same_text, text_option, Refusal,
};

verus! {

/// The route an incarnation is expected to serve.
#[derive(Clone, Debug, PartialEq, Eq)]
pub struct ExpectedRoute {
    pub route_id: String,
    pub stable_endpoint: String,
    pub candidate_endpoint: String,
    pub transport: String,
}

/// What `ExpectedRoute` holds.
#[verifier::ext_equal]
pub struct ExpectedRouteView {
    pub route_id: Seq<char>,
    pub stable_endpoint: Seq<char>,
    pub candidate_endpoint: Seq<char>,
    pub transport: Seq<char>,
}

impl View for ExpectedRoute {
    type V = ExpectedRouteView;

    open spec fn view(&self) -> ExpectedRouteView {
        ExpectedRouteView {
            route_id: self.route_id@,
            stable_endpoint: self.stable_endpoint@,
            candidate_endpoint: self.candidate_endpoint@,
            transport: self.transport@,
        }
    }
}

impl ExpectedRoute {
    /// Whether two records hold the same.
    pub fn same(&self, other: &Self) -> (same: bool)
        ensures
            same == (self@ == other@),
    {
        let same_route_id: bool = same_text(self.route_id.as_str(), other.route_id.as_str());
        let same_stable_endpoint: bool = same_text(
            self.stable_endpoint.as_str(),
            other.stable_endpoint.as_str(),
        );
        let same_candidate_endpoint: bool = same_text(
            self.candidate_endpoint.as_str(),
            other.candidate_endpoint.as_str(),
        );
        let same_transport: bool = same_text(self.transport.as_str(), other.transport.as_str());
        same_route_id && same_stable_endpoint && same_candidate_endpoint && same_transport
    }

    /// A copy of the record.
    pub fn copy(&self) -> (copy: Self)
        ensures
            copy@ == self@,
    {
        ExpectedRoute {
            route_id: self.route_id.clone(),
            stable_endpoint: self.stable_endpoint.clone(),
            candidate_endpoint: self.candidate_endpoint.clone(),
            transport: self.transport.clone(),
        }
    }
}

/// What Idunn expects one incarnation of a target to be.
#[derive(Clone, Debug, PartialEq, Eq)]
pub struct IdunnExpectedIncarnationRecord {
    pub target: String,
    pub runtime_id: String,
    pub plan_id: String,
    pub incarnation_id: String,
    pub sealed_release_id: String,
    pub artifact_sha256: String,
    pub expected_signer_identity_id: String,
    pub state_schema_generation: Option<String>,
    pub state_contract_sha256: Option<String>,
    pub write_lease_required: bool,
    pub route: Option<ExpectedRoute>,
    pub canonical_sha256: String,
    pub canonical_bytes: Vec<u8>,
}

/// What `IdunnExpectedIncarnationRecord` holds.
#[verifier::ext_equal]
pub struct IdunnExpectedIncarnationRecordView {
    pub target: Seq<char>,
    pub runtime_id: Seq<char>,
    pub plan_id: Seq<char>,
    pub incarnation_id: Seq<char>,
    pub sealed_release_id: Seq<char>,
    pub artifact_sha256: Seq<char>,
    pub expected_signer_identity_id: Seq<char>,
    pub state_schema_generation: Option<Seq<char>>,
    pub state_contract_sha256: Option<Seq<char>>,
    pub write_lease_required: bool,
    pub route: Option<ExpectedRouteView>,
    pub canonical_sha256: Seq<char>,
    pub canonical_bytes: Seq<u8>,
}

impl View for IdunnExpectedIncarnationRecord {
    type V = IdunnExpectedIncarnationRecordView;

    open spec fn view(&self) -> IdunnExpectedIncarnationRecordView {
        IdunnExpectedIncarnationRecordView {
            target: self.target@,
            runtime_id: self.runtime_id@,
            plan_id: self.plan_id@,
            incarnation_id: self.incarnation_id@,
            sealed_release_id: self.sealed_release_id@,
            artifact_sha256: self.artifact_sha256@,
            expected_signer_identity_id: self.expected_signer_identity_id@,
            state_schema_generation: text_option(self.state_schema_generation),
            state_contract_sha256: text_option(self.state_contract_sha256),
            write_lease_required: self.write_lease_required,
            route: match self.route {
                Some(r) => Some(r@),
                None => None,
            },
            canonical_sha256: self.canonical_sha256@,
            canonical_bytes: self.canonical_bytes@,
        }
    }
}

impl IdunnExpectedIncarnationRecord {
    /// Whether two records hold the same.
    pub fn same(&self, other: &Self) -> (same: bool)
        ensures
            same == (self@ == other@),
    {
        let same_target: bool = same_text(self.target.as_str(), other.target.as_str());
        let same_runtime_id: bool = same_text(self.runtime_id.as_str(), other.runtime_id.as_str());
        let same_plan_id: bool = same_text(self.plan_id.as_str(), other.plan_id.as_str());
        let same_incarnation_id: bool = same_text(
            self.incarnation_id.as_str(),
            other.incarnation_id.as_str(),
        );
        let same_sealed_release_id: bool = same_text(
            self.sealed_release_id.as_str(),
            other.sealed_release_id.as_str(),
        );
        let same_artifact_sha256: bool = same_text(
            self.artifact_sha256.as_str(),
            other.artifact_sha256.as_str(),
        );
        let same_expected_signer_identity_id: bool = same_text(
            self.expected_signer_identity_id.as_str(),
            other.expected_signer_identity_id.as_str(),
        );
        let same_state_schema_generation: bool = same_option(
            &self.state_schema_generation,
            &other.state_schema_generation,
        );
        let same_state_contract_sha256: bool = same_option(
            &self.state_contract_sha256,
            &other.state_contract_sha256,
        );
        let same_write_lease_required: bool = self.write_lease_required
            == other.write_lease_required;
        let same_route: bool = match (&self.route, &other.route) {
                (Some(x), Some(y)) => x.same(y),
                (None, None) => true,
                _ => false,
            };
        let same_canonical_sha256: bool = same_text(
            self.canonical_sha256.as_str(),
            other.canonical_sha256.as_str(),
        );
        let same_canonical_bytes: bool = same_bytes(
            self.canonical_bytes.as_slice(),
            other.canonical_bytes.as_slice(),
        );
        same_target
            && same_runtime_id
            && same_plan_id
            && same_incarnation_id
            && same_sealed_release_id
            && same_artifact_sha256
            && same_expected_signer_identity_id
            && same_state_schema_generation
            && same_state_contract_sha256
            && same_write_lease_required
            && same_route
            && same_canonical_sha256
            && same_canonical_bytes
    }

    /// A copy of the record.
    pub fn copy(&self) -> (copy: Self)
        ensures
            copy@ == self@,
    {
        IdunnExpectedIncarnationRecord {
            target: self.target.clone(),
            runtime_id: self.runtime_id.clone(),
            plan_id: self.plan_id.clone(),
            incarnation_id: self.incarnation_id.clone(),
            sealed_release_id: self.sealed_release_id.clone(),
            artifact_sha256: self.artifact_sha256.clone(),
            expected_signer_identity_id: self.expected_signer_identity_id.clone(),
            state_schema_generation: copy_option(&self.state_schema_generation),
            state_contract_sha256: copy_option(&self.state_contract_sha256),
            write_lease_required: self.write_lease_required,
            route: match &self.route {
                Some(r) => Some(r.copy()),
                None => None,
            },
            canonical_sha256: self.canonical_sha256.clone(),
            canonical_bytes: copy_bytes(self.canonical_bytes.as_slice()),
        }
    }
}

/// How one process was activated for an incarnation.
#[derive(Clone, Debug, PartialEq, Eq)]
pub struct IdunnRuntimeActivationRecord {
    pub expected_projection_sha256: String,
    pub runtime_id: String,
    pub runtime_instance_id: String,
    pub activation_signer_identity_id: String,
    pub activation_signer_public_key: Vec<u8>,
    pub issued_at_unix_millis: u64,
    pub canonical_sha256: String,
    pub canonical_bytes: Vec<u8>,
}

/// What `IdunnRuntimeActivationRecord` holds.
#[verifier::ext_equal]
pub struct IdunnRuntimeActivationRecordView {
    pub expected_projection_sha256: Seq<char>,
    pub runtime_id: Seq<char>,
    pub runtime_instance_id: Seq<char>,
    pub activation_signer_identity_id: Seq<char>,
    pub activation_signer_public_key: Seq<u8>,
    pub issued_at_unix_millis: u64,
    pub canonical_sha256: Seq<char>,
    pub canonical_bytes: Seq<u8>,
}

impl View for IdunnRuntimeActivationRecord {
    type V = IdunnRuntimeActivationRecordView;

    open spec fn view(&self) -> IdunnRuntimeActivationRecordView {
        IdunnRuntimeActivationRecordView {
            expected_projection_sha256: self.expected_projection_sha256@,
            runtime_id: self.runtime_id@,
            runtime_instance_id: self.runtime_instance_id@,
            activation_signer_identity_id: self.activation_signer_identity_id@,
            activation_signer_public_key: self.activation_signer_public_key@,
            issued_at_unix_millis: self.issued_at_unix_millis,
            canonical_sha256: self.canonical_sha256@,
            canonical_bytes: self.canonical_bytes@,
        }
    }
}

impl IdunnRuntimeActivationRecord {
    /// Whether two records hold the same.
    pub fn same(&self, other: &Self) -> (same: bool)
        ensures
            same == (self@ == other@),
    {
        let same_expected_projection_sha256: bool = same_text(
            self.expected_projection_sha256.as_str(),
            other.expected_projection_sha256.as_str(),
        );
        let same_runtime_id: bool = same_text(self.runtime_id.as_str(), other.runtime_id.as_str());
        let same_runtime_instance_id: bool = same_text(
            self.runtime_instance_id.as_str(),
            other.runtime_instance_id.as_str(),
        );
        let same_activation_signer_identity_id: bool = same_text(
            self.activation_signer_identity_id.as_str(),
            other.activation_signer_identity_id.as_str(),
        );
        let same_activation_signer_public_key: bool = same_bytes(
            self.activation_signer_public_key.as_slice(),
            other.activation_signer_public_key.as_slice(),
        );
        let same_issued_at_unix_millis: bool = self.issued_at_unix_millis
            == other.issued_at_unix_millis;
        let same_canonical_sha256: bool = same_text(
            self.canonical_sha256.as_str(),
            other.canonical_sha256.as_str(),
        );
        let same_canonical_bytes: bool = same_bytes(
            self.canonical_bytes.as_slice(),
            other.canonical_bytes.as_slice(),
        );
        same_expected_projection_sha256
            && same_runtime_id
            && same_runtime_instance_id
            && same_activation_signer_identity_id
            && same_activation_signer_public_key
            && same_issued_at_unix_millis
            && same_canonical_sha256
            && same_canonical_bytes
    }

    /// A copy of the record.
    pub fn copy(&self) -> (copy: Self)
        ensures
            copy@ == self@,
    {
        IdunnRuntimeActivationRecord {
            expected_projection_sha256: self.expected_projection_sha256.clone(),
            runtime_id: self.runtime_id.clone(),
            runtime_instance_id: self.runtime_instance_id.clone(),
            activation_signer_identity_id: self.activation_signer_identity_id.clone(),
            activation_signer_public_key: copy_bytes(self.activation_signer_public_key.as_slice()),
            issued_at_unix_millis: self.issued_at_unix_millis,
            canonical_sha256: self.canonical_sha256.clone(),
            canonical_bytes: copy_bytes(self.canonical_bytes.as_slice()),
        }
    }
}

/// Which process of an incarnation may write its state.
#[derive(Clone, Debug, PartialEq, Eq)]
pub struct IdunnProcessWriteLeaseRecord {
    pub target: String,
    pub expected_projection_sha256: String,
    pub plan_id: String,
    pub incarnation_id: String,
    pub sealed_release_id: String,
    pub activation_witness_sha256: String,
    pub runtime_id: String,
    pub runtime_instance_id: String,
    pub state_schema_generation: String,
    pub state_contract_sha256: String,
    pub warming_presence_sha256: String,
    pub issued_at_unix_millis: u64,
    pub canonical_sha256: String,
    pub canonical_bytes: Vec<u8>,
}

/// What `IdunnProcessWriteLeaseRecord` holds.
#[verifier::ext_equal]
pub struct IdunnProcessWriteLeaseRecordView {
    pub target: Seq<char>,
    pub expected_projection_sha256: Seq<char>,
    pub plan_id: Seq<char>,
    pub incarnation_id: Seq<char>,
    pub sealed_release_id: Seq<char>,
    pub activation_witness_sha256: Seq<char>,
    pub runtime_id: Seq<char>,
    pub runtime_instance_id: Seq<char>,
    pub state_schema_generation: Seq<char>,
    pub state_contract_sha256: Seq<char>,
    pub warming_presence_sha256: Seq<char>,
    pub issued_at_unix_millis: u64,
    pub canonical_sha256: Seq<char>,
    pub canonical_bytes: Seq<u8>,
}

impl View for IdunnProcessWriteLeaseRecord {
    type V = IdunnProcessWriteLeaseRecordView;

    open spec fn view(&self) -> IdunnProcessWriteLeaseRecordView {
        IdunnProcessWriteLeaseRecordView {
            target: self.target@,
            expected_projection_sha256: self.expected_projection_sha256@,
            plan_id: self.plan_id@,
            incarnation_id: self.incarnation_id@,
            sealed_release_id: self.sealed_release_id@,
            activation_witness_sha256: self.activation_witness_sha256@,
            runtime_id: self.runtime_id@,
            runtime_instance_id: self.runtime_instance_id@,
            state_schema_generation: self.state_schema_generation@,
            state_contract_sha256: self.state_contract_sha256@,
            warming_presence_sha256: self.warming_presence_sha256@,
            issued_at_unix_millis: self.issued_at_unix_millis,
            canonical_sha256: self.canonical_sha256@,
            canonical_bytes: self.canonical_bytes@,
        }
    }
}

impl IdunnProcessWriteLeaseRecord {
    /// Whether two records hold the same.
    pub fn same(&self, other: &Self) -> (same: bool)
        ensures
            same == (self@ == other@),
    {
        let same_target: bool = same_text(self.target.as_str(), other.target.as_str());
        let same_expected_projection_sha256: bool = same_text(
            self.expected_projection_sha256.as_str(),
            other.expected_projection_sha256.as_str(),
        );
        let same_plan_id: bool = same_text(self.plan_id.as_str(), other.plan_id.as_str());
        let same_incarnation_id: bool = same_text(
            self.incarnation_id.as_str(),
            other.incarnation_id.as_str(),
        );
        let same_sealed_release_id: bool = same_text(
            self.sealed_release_id.as_str(),
            other.sealed_release_id.as_str(),
        );
        let same_activation_witness_sha256: bool = same_text(
            self.activation_witness_sha256.as_str(),
            other.activation_witness_sha256.as_str(),
        );
        let same_runtime_id: bool = same_text(self.runtime_id.as_str(), other.runtime_id.as_str());
        let same_runtime_instance_id: bool = same_text(
            self.runtime_instance_id.as_str(),
            other.runtime_instance_id.as_str(),
        );
        let same_state_schema_generation: bool = same_text(
            self.state_schema_generation.as_str(),
            other.state_schema_generation.as_str(),
        );
        let same_state_contract_sha256: bool = same_text(
            self.state_contract_sha256.as_str(),
            other.state_contract_sha256.as_str(),
        );
        let same_warming_presence_sha256: bool = same_text(
            self.warming_presence_sha256.as_str(),
            other.warming_presence_sha256.as_str(),
        );
        let same_issued_at_unix_millis: bool = self.issued_at_unix_millis
            == other.issued_at_unix_millis;
        let same_canonical_sha256: bool = same_text(
            self.canonical_sha256.as_str(),
            other.canonical_sha256.as_str(),
        );
        let same_canonical_bytes: bool = same_bytes(
            self.canonical_bytes.as_slice(),
            other.canonical_bytes.as_slice(),
        );
        same_target
            && same_expected_projection_sha256
            && same_plan_id
            && same_incarnation_id
            && same_sealed_release_id
            && same_activation_witness_sha256
            && same_runtime_id
            && same_runtime_instance_id
            && same_state_schema_generation
            && same_state_contract_sha256
            && same_warming_presence_sha256
            && same_issued_at_unix_millis
            && same_canonical_sha256
            && same_canonical_bytes
    }

    /// A copy of the record.
    pub fn copy(&self) -> (copy: Self)
        ensures
            copy@ == self@,
    {
        IdunnProcessWriteLeaseRecord {
            target: self.target.clone(),
            expected_projection_sha256: self.expected_projection_sha256.clone(),
            plan_id: self.plan_id.clone(),
            incarnation_id: self.incarnation_id.clone(),
            sealed_release_id: self.sealed_release_id.clone(),
            activation_witness_sha256: self.activation_witness_sha256.clone(),
            runtime_id: self.runtime_id.clone(),
            runtime_instance_id: self.runtime_instance_id.clone(),
            state_schema_generation: self.state_schema_generation.clone(),
            state_contract_sha256: self.state_contract_sha256.clone(),
            warming_presence_sha256: self.warming_presence_sha256.clone(),
            issued_at_unix_millis: self.issued_at_unix_millis,
            canonical_sha256: self.canonical_sha256.clone(),
            canonical_bytes: copy_bytes(self.canonical_bytes.as_slice()),
        }
    }
}

/// Whose signature under a runtime presence is to be believed.
#[derive(Clone, Debug, PartialEq, Eq)]
pub struct GameCultServiceTrustAnchorRecord {
    pub schema_version: String,
    pub trust_anchor_id: String,
    pub service_id: String,
    pub runtime_id: String,
    pub signer_identity_id: String,
    pub signer_public_key: Vec<u8>,
    pub signature_algorithm: String,
    pub signing_purpose: String,
    pub signed_schema: String,
    pub binding_authority: String,
    pub bound_at_unix_millis: u64,
    pub expires_at_unix_millis: Option<u64>,
    pub private_state_exposed: bool,
}

/// What `GameCultServiceTrustAnchorRecord` holds.
#[verifier::ext_equal]
pub struct GameCultServiceTrustAnchorRecordView {
    pub schema_version: Seq<char>,
    pub trust_anchor_id: Seq<char>,
    pub service_id: Seq<char>,
    pub runtime_id: Seq<char>,
    pub signer_identity_id: Seq<char>,
    pub signer_public_key: Seq<u8>,
    pub signature_algorithm: Seq<char>,
    pub signing_purpose: Seq<char>,
    pub signed_schema: Seq<char>,
    pub binding_authority: Seq<char>,
    pub bound_at_unix_millis: u64,
    pub expires_at_unix_millis: Option<u64>,
    pub private_state_exposed: bool,
}

impl View for GameCultServiceTrustAnchorRecord {
    type V = GameCultServiceTrustAnchorRecordView;

    open spec fn view(&self) -> GameCultServiceTrustAnchorRecordView {
        GameCultServiceTrustAnchorRecordView {
            schema_version: self.schema_version@,
            trust_anchor_id: self.trust_anchor_id@,
            service_id: self.service_id@,
            runtime_id: self.runtime_id@,
            signer_identity_id: self.signer_identity_id@,
            signer_public_key: self.signer_public_key@,
            signature_algorithm: self.signature_algorithm@,
            signing_purpose: self.signing_purpose@,
            signed_schema: self.signed_schema@,
            binding_authority: self.binding_authority@,
            bound_at_unix_millis: self.bound_at_unix_millis,
            expires_at_unix_millis: self.expires_at_unix_millis,
            private_state_exposed: self.private_state_exposed,
        }
    }
}

impl GameCultServiceTrustAnchorRecord {
    /// Whether two records hold the same.
    pub fn same(&self, other: &Self) -> (same: bool)
        ensures
            same == (self@ == other@),
    {
        let same_schema_version: bool = same_text(
            self.schema_version.as_str(),
            other.schema_version.as_str(),
        );
        let same_trust_anchor_id: bool = same_text(
            self.trust_anchor_id.as_str(),
            other.trust_anchor_id.as_str(),
        );
        let same_service_id: bool = same_text(self.service_id.as_str(), other.service_id.as_str());
        let same_runtime_id: bool = same_text(self.runtime_id.as_str(), other.runtime_id.as_str());
        let same_signer_identity_id: bool = same_text(
            self.signer_identity_id.as_str(),
            other.signer_identity_id.as_str(),
        );
        let same_signer_public_key: bool = same_bytes(
            self.signer_public_key.as_slice(),
            other.signer_public_key.as_slice(),
        );
        let same_signature_algorithm: bool = same_text(
            self.signature_algorithm.as_str(),
            other.signature_algorithm.as_str(),
        );
        let same_signing_purpose: bool = same_text(
            self.signing_purpose.as_str(),
            other.signing_purpose.as_str(),
        );
        let same_signed_schema: bool = same_text(
            self.signed_schema.as_str(),
            other.signed_schema.as_str(),
        );
        let same_binding_authority: bool = same_text(
            self.binding_authority.as_str(),
            other.binding_authority.as_str(),
        );
        let same_bound_at_unix_millis: bool = self.bound_at_unix_millis
            == other.bound_at_unix_millis;
        let same_expires_at_unix_millis: bool = self.expires_at_unix_millis
            == other.expires_at_unix_millis;
        let same_private_state_exposed: bool = self.private_state_exposed
            == other.private_state_exposed;
        same_schema_version
            && same_trust_anchor_id
            && same_service_id
            && same_runtime_id
            && same_signer_identity_id
            && same_signer_public_key
            && same_signature_algorithm
            && same_signing_purpose
            && same_signed_schema
            && same_binding_authority
            && same_bound_at_unix_millis
            && same_expires_at_unix_millis
            && same_private_state_exposed
    }

    /// A copy of the record.
    pub fn copy(&self) -> (copy: Self)
        ensures
            copy@ == self@,
    {
        GameCultServiceTrustAnchorRecord {
            schema_version: self.schema_version.clone(),
            trust_anchor_id: self.trust_anchor_id.clone(),
            service_id: self.service_id.clone(),
            runtime_id: self.runtime_id.clone(),
            signer_identity_id: self.signer_identity_id.clone(),
            signer_public_key: copy_bytes(self.signer_public_key.as_slice()),
            signature_algorithm: self.signature_algorithm.clone(),
            signing_purpose: self.signing_purpose.clone(),
            signed_schema: self.signed_schema.clone(),
            binding_authority: self.binding_authority.clone(),
            bound_at_unix_millis: self.bound_at_unix_millis,
            expires_at_unix_millis: self.expires_at_unix_millis,
            private_state_exposed: self.private_state_exposed,
        }
    }
}

/// A provider's public anchor, with the identity its public key derives.
#[derive(Clone, Debug, PartialEq, Eq)]
pub struct ServiceIdentityTrustAnchor {
    pub schema_version: String,
    pub identity_id: String,
    pub public_key: Vec<u8>,
    pub identity_created_at: String,
    pub derived_identity_id: String,
}

/// What `ServiceIdentityTrustAnchor` holds.
#[verifier::ext_equal]
pub struct ServiceIdentityTrustAnchorView {
    pub schema_version: Seq<char>,
    pub identity_id: Seq<char>,
    pub public_key: Seq<u8>,
    pub identity_created_at: Seq<char>,
    pub derived_identity_id: Seq<char>,
}

impl View for ServiceIdentityTrustAnchor {
    type V = ServiceIdentityTrustAnchorView;

    open spec fn view(&self) -> ServiceIdentityTrustAnchorView {
        ServiceIdentityTrustAnchorView {
            schema_version: self.schema_version@,
            identity_id: self.identity_id@,
            public_key: self.public_key@,
            identity_created_at: self.identity_created_at@,
            derived_identity_id: self.derived_identity_id@,
        }
    }
}


/// The kinds of record a store holds.
#[derive(Clone, Debug, PartialEq, Eq)]
pub enum RecordType {
    Expected,
    Activation,
    Lease,
    Anchor,
    Correlation,
    Foreign(String),
}

/// What `RecordType` holds.
pub enum RecordTypeView {
    Expected,
    Activation,
    Lease,
    Anchor,
    Correlation,
    Foreign(Seq<char>),
}

impl View for RecordType {
    type V = RecordTypeView;

    open spec fn view(&self) -> RecordTypeView {
        match self {
            RecordType::Expected => RecordTypeView::Expected,
            RecordType::Activation => RecordTypeView::Activation,
            RecordType::Lease => RecordTypeView::Lease,
            RecordType::Anchor => RecordTypeView::Anchor,
            RecordType::Correlation => RecordTypeView::Correlation,
            RecordType::Foreign(name) => RecordTypeView::Foreign(name@),
        }
    }
}

impl RecordType {
    /// Whether two kinds are the same.
    pub fn same(&self, other: &Self) -> (same: bool)
        ensures
            same == (self@ == other@),
    {
        match (self, other) {
            (RecordType::Expected, RecordType::Expected) => true,
            (RecordType::Activation, RecordType::Activation) => true,
            (RecordType::Lease, RecordType::Lease) => true,
            (RecordType::Anchor, RecordType::Anchor) => true,
            (RecordType::Correlation, RecordType::Correlation) => true,
            (RecordType::Foreign(a), RecordType::Foreign(b)) => same_text(a.as_str(), b.as_str()),
            _ => false,
        }
    }

    /// A copy of the kind.
    pub fn copy(&self) -> (copy: Self)
        ensures
            copy@ == self@,
    {
        match self {
            RecordType::Expected => RecordType::Expected,
            RecordType::Activation => RecordType::Activation,
            RecordType::Lease => RecordType::Lease,
            RecordType::Anchor => RecordType::Anchor,
            RecordType::Correlation => RecordType::Correlation,
            RecordType::Foreign(name) => RecordType::Foreign(name.clone()),
        }
    }
}

/// The schema an envelope declares for its record, if any.
#[derive(Clone, Debug, PartialEq, Eq)]
pub enum RecordSchema {
    Absent,
    Expected,
    Activation,
    Lease,
    Anchor,
    Correlation,
    Foreign(String),
}

/// What `RecordSchema` holds.
pub enum RecordSchemaView {
    Absent,
    Expected,
    Activation,
    Lease,
    Anchor,
    Correlation,
    Foreign(Seq<char>),
}

impl View for RecordSchema {
    type V = RecordSchemaView;

    open spec fn view(&self) -> RecordSchemaView {
        match self {
            RecordSchema::Absent => RecordSchemaView::Absent,
            RecordSchema::Expected => RecordSchemaView::Expected,
            RecordSchema::Activation => RecordSchemaView::Activation,
            RecordSchema::Lease => RecordSchemaView::Lease,
            RecordSchema::Anchor => RecordSchemaView::Anchor,
            RecordSchema::Correlation => RecordSchemaView::Correlation,
            RecordSchema::Foreign(name) => RecordSchemaView::Foreign(name@),
        }
    }
}

impl RecordSchema {
    /// Whether two schemas are the same.
    pub fn same(&self, other: &Self) -> (same: bool)
        ensures
            same == (self@ == other@),
    {
        match (self, other) {
            (RecordSchema::Absent, RecordSchema::Absent) => true,
            (RecordSchema::Expected, RecordSchema::Expected) => true,
            (RecordSchema::Activation, RecordSchema::Activation) => true,
            (RecordSchema::Lease, RecordSchema::Lease) => true,
            (RecordSchema::Anchor, RecordSchema::Anchor) => true,
            (RecordSchema::Correlation, RecordSchema::Correlation) => true,
            (RecordSchema::Foreign(a), RecordSchema::Foreign(b)) => same_text(
                a.as_str(),
                b.as_str(),
            ),
            _ => false,
        }
    }

    /// A copy of the schema.
    pub fn copy(&self) -> (copy: Self)
        ensures
            copy@ == self@,
    {
        match self {
            RecordSchema::Absent => RecordSchema::Absent,
            RecordSchema::Expected => RecordSchema::Expected,
            RecordSchema::Activation => RecordSchema::Activation,
            RecordSchema::Lease => RecordSchema::Lease,
            RecordSchema::Anchor => RecordSchema::Anchor,
            RecordSchema::Correlation => RecordSchema::Correlation,
            RecordSchema::Foreign(name) => RecordSchema::Foreign(name.clone()),
        }
    }
}

/// What the payload of an envelope decodes to: a record, the words with which its
/// decoder refused it, or nothing where no decoder of these records is for it.
#[derive(Clone, Debug, PartialEq, Eq)]
pub enum Document {
    Expected(IdunnExpectedIncarnationRecord),
    Activation(IdunnRuntimeActivationRecord),
    Lease(IdunnProcessWriteLeaseRecord),
    Anchor(GameCultServiceTrustAnchorRecord),
    Undecodable(String),
    Unread,
}

/// What `Document` holds.
pub enum DocumentView {
    Expected(IdunnExpectedIncarnationRecordView),
    Activation(IdunnRuntimeActivationRecordView),
    Lease(IdunnProcessWriteLeaseRecordView),
    Anchor(GameCultServiceTrustAnchorRecordView),
    Undecodable(Seq<char>),
    Unread,
}

impl View for Document {
    type V = DocumentView;

    open spec fn view(&self) -> DocumentView {
        match self {
            Document::Expected(record) => DocumentView::Expected(record@),
            Document::Activation(record) => DocumentView::Activation(record@),
            Document::Lease(record) => DocumentView::Lease(record@),
            Document::Anchor(record) => DocumentView::Anchor(record@),
            Document::Undecodable(words) => DocumentView::Undecodable(words@),
            Document::Unread => DocumentView::Unread,
        }
    }
}

impl Document {
    /// Whether two documents are the same.
    pub fn same(&self, other: &Self) -> (same: bool)
        ensures
            same == (self@ == other@),
    {
        match (self, other) {
            (Document::Expected(a), Document::Expected(b)) => a.same(b),
            (Document::Activation(a), Document::Activation(b)) => a.same(b),
            (Document::Lease(a), Document::Lease(b)) => a.same(b),
            (Document::Anchor(a), Document::Anchor(b)) => a.same(b),
            (Document::Undecodable(a), Document::Undecodable(b)) => same_text(
                a.as_str(),
                b.as_str(),
            ),
            (Document::Unread, Document::Unread) => true,
            _ => false,
        }
    }

    /// A copy of the document.
    pub fn copy(&self) -> (copy: Self)
        ensures
            copy@ == self@,
    {
        match self {
            Document::Expected(record) => Document::Expected(record.copy()),
            Document::Activation(record) => Document::Activation(record.copy()),
            Document::Lease(record) => Document::Lease(record.copy()),
            Document::Anchor(record) => Document::Anchor(record.copy()),
            Document::Undecodable(words) => Document::Undecodable(words.clone()),
            Document::Unread => Document::Unread,
        }
    }
}

/// One record as a store holds it, with the time at which it was stored.
#[derive(Clone, Debug, PartialEq, Eq)]
pub struct CultCacheEnvelope {
    pub key: String,
    pub record_type: RecordType,
    pub payload: Vec<u8>,
    pub stored_at: String,
    pub schema_id: RecordSchema,
    pub document: Document,
}

/// What `CultCacheEnvelope` holds.
#[verifier::ext_equal]
pub struct CultCacheEnvelopeView {
    pub key: Seq<char>,
    pub record_type: RecordTypeView,
    pub payload: Seq<u8>,
    pub stored_at: Seq<char>,
    pub schema_id: RecordSchemaView,
    pub document: DocumentView,
}

impl View for CultCacheEnvelope {
    type V = CultCacheEnvelopeView;

    open spec fn view(&self) -> CultCacheEnvelopeView {
        CultCacheEnvelopeView {
            key: self.key@,
            record_type: self.record_type@,
            payload: self.payload@,
            stored_at: self.stored_at@,
            schema_id: self.schema_id@,
            document: self.document@,
        }
    }
}

impl CultCacheEnvelope {
    /// Whether two records hold the same.
    pub fn same(&self, other: &Self) -> (same: bool)
        ensures
            same == (self@ == other@),
    {
        let same_key: bool = same_text(self.key.as_str(), other.key.as_str());
        let same_record_type: bool = self.record_type.same(&other.record_type);
        let same_payload: bool = same_bytes(self.payload.as_slice(), other.payload.as_slice());
        let same_stored_at: bool = same_text(self.stored_at.as_str(), other.stored_at.as_str());
        let same_schema_id: bool = self.schema_id.same(&other.schema_id);
        let same_document: bool = self.document.same(&other.document);
        same_key
            && same_record_type
            && same_payload
            && same_stored_at
            && same_schema_id
            && same_document
    }

    /// A copy of the record.
    pub fn copy(&self) -> (copy: Self)
        ensures
            copy@ == self@,
    {
        CultCacheEnvelope {
            key: self.key.clone(),
            record_type: self.record_type.copy(),
            payload: copy_bytes(self.payload.as_slice()),
            stored_at: self.stored_at.clone(),
            schema_id: self.schema_id.copy(),
            document: self.document.copy(),
        }
    }
}

/// What each record of a list holds.
pub open spec fn cult_cache_envelope_views(
    list: Seq<CultCacheEnvelope>,
) -> Seq<CultCacheEnvelopeView> {
    Seq::new(list.len(), |i: int| list[i]@)
}

/// A copy of a list of records.
pub fn copy_cult_cache_envelope_list(list: &[CultCacheEnvelope]) -> (copy: Vec<CultCacheEnvelope>)
    ensures
        cult_cache_envelope_views(copy@) == cult_cache_envelope_views(list@),
{
    let mut copy: Vec<CultCacheEnvelope> = Vec::new();
    let mut i: usize = 0;
    while i < list.len()
        invariant
            i <= list@.len(),
            copy@.len() == i,
            forall|j: int| 0 <= j < i ==> (#[trigger] copy@[j])@ == list@[j]@,
        decreases list@.len() - i,
    {
        copy.push(list[i].copy());
        i += 1;
    }
    assert(cult_cache_envelope_views(copy@) =~= cult_cache_envelope_views(list@));
    copy
}

/// Whether two lists hold the same records in the same order.
pub fn same_cult_cache_envelope_list(
    a: &[CultCacheEnvelope],
    b: &[CultCacheEnvelope],
) -> (same: bool)
    ensures
        same == (cult_cache_envelope_views(a@) == cult_cache_envelope_views(b@)),
{
    if a.len() != b.len() {
        assert(cult_cache_envelope_views(a@).len() != cult_cache_envelope_views(b@).len());
        return false;
    }
    let mut i: usize = 0;
    while i < a.len()
        invariant
            i <= a@.len(),
            a@.len() == b@.len(),
            forall|j: int| 0 <= j < i ==> (#[trigger] a@[j])@ == b@[j]@,
        decreases a@.len() - i,
    {
        if !a[i].same(&b[i]) {
            assert(
                cult_cache_envelope_views(a@)[i as int] != cult_cache_envelope_views(b@)[i as int]
            );
            return false;
        }
        i += 1;
    }
    assert(cult_cache_envelope_views(a@) =~= cult_cache_envelope_views(b@));
    true
}

/// The record of an expectation, or the words with which its decoding is refused.
pub open spec fn read_expected(document: DocumentView) -> Result<
    IdunnExpectedIncarnationRecordView,
    Seq<char>,
> {
    match document {
        DocumentView::Expected(record) => Ok(record),
        DocumentView::Undecodable(words) => Err(words),
        _ => Err("stored record is not an Expected incarnation"@),
    }
}

/// The record of an activation, or the words with which its decoding is refused.
pub open spec fn read_activation(document: DocumentView) -> Result<
    IdunnRuntimeActivationRecordView,
    Seq<char>,
> {
    match document {
        DocumentView::Activation(record) => Ok(record),
        DocumentView::Undecodable(words) => Err(words),
        _ => Err("stored record is not a runtime activation"@),
    }
}

/// The record of a write lease, or the words with which its decoding is refused.
pub open spec fn read_lease(document: DocumentView) -> Result<
    IdunnProcessWriteLeaseRecordView,
    Seq<char>,
> {
    match document {
        DocumentView::Lease(record) => Ok(record),
        DocumentView::Undecodable(words) => Err(words),
        _ => Err("stored record is not a process write lease"@),
    }
}

/// The record of a trust anchor, or the words with which its decoding is refused.
pub open spec fn read_anchor(document: DocumentView) -> Result<
    GameCultServiceTrustAnchorRecordView,
    Seq<char>,
> {
    match document {
        DocumentView::Anchor(record) => Ok(record),
        DocumentView::Undecodable(words) => Err(words),
        _ => Err("stored record is not a service trust anchor"@),
    }
}

/// Whether reading a record came out as it should.
pub open spec fn reads<T: View>(
    outcome: Result<T, Refusal>,
    read: Result<T::V, Seq<char>>,
) -> bool {
    match (outcome, read) {
        (Ok(value), Ok(record)) => value@ == record,
        (Err(refusal), Err(words)) => refusal@ == words,
        _ => false,
    }
}

impl CultCacheEnvelope {
    /// The expectation that the envelope holds.
    pub fn expected(&self) -> (outcome: Result<IdunnExpectedIncarnationRecord, Refusal>)
        ensures
            reads(outcome, read_expected(self@.document)),
    {
        match &self.document {
            Document::Expected(record) => Ok(record.copy()),
            Document::Undecodable(words) => Err(Refusal { text: words.clone() }),
            _ => Err(crate::text::refuse("stored record is not an Expected incarnation")),
        }
    }

    /// The activation that the envelope holds.
    pub fn activation(&self) -> (outcome: Result<IdunnRuntimeActivationRecord, Refusal>)
        ensures
            reads(outcome, read_activation(self@.document)),
    {
        match &self.document {
            Document::Activation(record) => Ok(record.copy()),
            Document::Undecodable(words) => Err(Refusal { text: words.clone() }),
            _ => Err(crate::text::refuse("stored record is not a runtime activation")),
        }
    }

    /// The write lease that the envelope holds.
    pub fn lease(&self) -> (outcome: Result<IdunnProcessWriteLeaseRecord, Refusal>)
        ensures
            reads(outcome, read_lease(self@.document)),
    {
        match &self.document {
            Document::Lease(record) => Ok(record.copy()),
            Document::Undecodable(words) => Err(Refusal { text: words.clone() }),
            _ => Err(crate::text::refuse("stored record is not a process write lease")),
        }
    }

    /// The trust anchor that the envelope holds.
    pub fn anchor(&self) -> (outcome: Result<GameCultServiceTrustAnchorRecord, Refusal>)
        ensures
            reads(outcome, read_anchor(self@.document)),
    {
        match &self.document {
            Document::Anchor(record) => Ok(record.copy()),
            Document::Undecodable(words) => Err(Refusal { text: words.clone() }),
            _ => Err(crate::text::refuse("stored record is not a service trust anchor")),
        }
    }
}

} // verus!
