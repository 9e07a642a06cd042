//! The topology projection: what Idunn publishes of each incarnation it manages.
//!
//! Every record is keyed by the incarnation it describes, never by the target alone. A
//! target that is being replaced has two incarnations at once, and both are projected
//! side by side. The one record a target's incarnations share is the trust anchor of
//! its runtime presence.
//!
//! Each writer is a function from the store's whole content to the content that is to
//! take its place, or to nothing where the content has the wanted shape already.
use vstd::prelude::*;

use crate::listing::{lemma_filter_push, lemma_filter_two_places};
use crate::clock::{creation_instant, creation_millis, instant_text, rfc3339_millis};
use crate::digest::{driver_id_refusal, require_driver_id};
use crate::observation::WorkloadObservation;
use crate::records::{
    cult_cache_envelope_views, read_activation, read_anchor, read_expected, read_lease, reads,
    CultCacheEnvelope, CultCacheEnvelopeView, Document, DocumentView,
    GameCultServiceTrustAnchorRecord, GameCultServiceTrustAnchorRecordView,
    IdunnExpectedIncarnationRecord, IdunnExpectedIncarnationRecordView,
    IdunnProcessWriteLeaseRecord, IdunnProcessWriteLeaseRecordView, IdunnRuntimeActivationRecord,
    IdunnRuntimeActivationRecordView, RecordSchema, RecordSchemaView, RecordType, RecordTypeView,
    ServiceIdentityTrustAnchor, ServiceIdentityTrustAnchorView,
};
use crate::scan::{cut_first, split_once};
use crate::text::{
    behind, cat3, copy_bytes, judged, refuse, refuse_behind, same_text, unless, Refusal,
};

verus! {

/// The names by which provider contracts are known: the schemas of trust anchors and
/// of runtime presence, and the purpose presence is signed for.
#[derive(Clone, Debug, PartialEq, Eq)]
pub struct PresenceContract {
    pub provider_anchor_schema: String,
    pub trust_anchor_schema: String,
    pub presence_schema: String,
    pub presence_signing_purpose: String,
}

/// A trust anchor with the bytes it is stored as.
#[derive(Clone, Debug, PartialEq, Eq)]
pub struct AnchorDocument {
    pub record: GameCultServiceTrustAnchorRecord,
    pub payload: Vec<u8>,
}

/// The stores that hold the projection and Odin's correlations.
#[derive(Clone, Debug, PartialEq, Eq)]
pub struct CultCacheTopologyDriver {
    pub projection_store: String,
    pub correlation_store: String,
}

/// Odin's correlation of one incarnation, as the bytes it signed.
#[derive(Clone, Debug, PartialEq, Eq)]
pub struct ReceivedOdinTopologyCorrelation {
    pub target: String,
    pub expected_sha256: String,
    pub canonical_bytes: Vec<u8>,
}

/// The key one incarnation's records live under.
pub open spec fn incarnation_key_text(target: Seq<char>, expected_sha256: Seq<char>) -> Seq<char> {
    target + "@"@ + expected_sha256
}

/// The key an expectation's records live under.
pub open spec fn key_of(expected: IdunnExpectedIncarnationRecordView) -> Seq<char> {
    incarnation_key_text(expected.target, expected.canonical_sha256)
}

/// The key of the trust anchor that a target's incarnations share.
pub open spec fn anchor_id_text(target: Seq<char>) -> Seq<char> {
    "root/"@ + target + "/runtime-presence"@
}

/// The key one incarnation's projection records live under.
pub fn incarnation_key(expected: &IdunnExpectedIncarnationRecord) -> (key: String)
    ensures
        key@ == key_of(expected@),
{
    incarnation_key_of(expected.target.as_str(), expected.canonical_sha256.as_str())
}

/// The key of the incarnation of a target with an expected projection.
pub fn incarnation_key_of(target: &str, expected_sha256: &str) -> (key: String)
    ensures
        key@ == incarnation_key_text(target@, expected_sha256@),
{
    cat3(target, "@", expected_sha256)
}

/// The key of the trust anchor that a target's incarnations share.
pub fn runtime_presence_trust_anchor_id(target: &str) -> (id: String)
    ensures
        id@ == anchor_id_text(target@),
{
    cat3("root/", target, "/runtime-presence")
}

/// Whether a record is of a kind that belongs to one incarnation.
pub open spec fn incarnation_type(kind: RecordTypeView) -> bool {
    kind == RecordTypeView::Expected || kind == RecordTypeView::Activation || kind
        == RecordTypeView::Lease
}

/// Whether a record is of a kind that belongs to one incarnation.
pub fn is_incarnation_record_type(kind: &RecordType) -> (is: bool)
    ensures
        is == incarnation_type(kind@),
{
    matches!(kind, RecordType::Expected | RecordType::Activation | RecordType::Lease)
}

/// Whether a record has the shape of the former projection: keyed by the bare target.
pub open spec fn legacy_slot(e: CultCacheEnvelopeView, target: Seq<char>) -> bool {
    incarnation_type(e.record_type) && e.key == target
}

/// The records of a kind under a key.
pub open spec fn named(
    kind: RecordTypeView,
    key: Seq<char>,
) -> spec_fn(CultCacheEnvelopeView) -> bool {
    |e: CultCacheEnvelopeView| e.record_type == kind && e.key == key
}

/// The one record of a kind under a key; more than one is refused.
pub open spec fn entry_of(
    entries: Seq<CultCacheEnvelopeView>,
    kind: RecordTypeView,
    key: Seq<char>,
) -> Result<Option<CultCacheEnvelopeView>, Seq<char>> {
    let found = entries.filter(named(kind, key));
    if found.len() > 1 {
        Err("CultCache projection identity is ambiguous"@)
    } else if found.len() == 1 {
        Ok(Some(found[0]))
    } else {
        Ok(None)
    }
}

/// Finds the one record of a kind under a key, by its place.
pub fn projection_entry(
    entries: &[CultCacheEnvelope],
    kind: &RecordType,
    key: &str,
) -> (outcome: Result<Option<usize>, Refusal>)
    ensures
        match outcome {
            Ok(Some(i)) => i < entries@.len() && entry_of(
                cult_cache_envelope_views(entries@),
                kind@,
                key@,
            ) == Ok::<Option<CultCacheEnvelopeView>, Seq<char>>(Some(entries@[i as int]@))
                && entries@[i as int]@.record_type == kind@ && entries@[i as int]@.key == key@,
            Ok(None) => entry_of(cult_cache_envelope_views(entries@), kind@, key@) == Ok::<
                Option<CultCacheEnvelopeView>,
                Seq<char>,
            >(None),
            Err(refusal) => entry_of(cult_cache_envelope_views(entries@), kind@, key@) == Err::<
                Option<CultCacheEnvelopeView>,
                Seq<char>,
            >(refusal@),
        },
{
    let ghost views = cult_cache_envelope_views(entries@);
    let ghost pred = named(kind@, key@);
    let mut found: Option<usize> = None;
    let mut i: usize = 0;
    proof {
        reveal(Seq::filter);
        assert(views.take(0).filter(pred) =~= Seq::<CultCacheEnvelopeView>::empty());
    }
    while i < entries.len()
        invariant
            i <= entries@.len(),
            views == cult_cache_envelope_views(entries@),
            pred == named(kind@, key@),
            match found {
                Some(k) => k < i && views.take(i as int).filter(pred) == seq![views[k as int]]
                    && pred(views[k as int]),
                None => views.take(i as int).filter(pred) == Seq::<CultCacheEnvelopeView>::empty(),
            },
        decreases entries@.len() - i,
    {
        proof {
            assert(views.take(i + 1) =~= views.take(i as int).push(views[i as int]));
            lemma_filter_push(views.take(i as int), views[i as int], pred);
        }
        if entries[i].record_type.same(kind) && same_text(entries[i].key.as_str(), key) {
            assert(pred(views[i as int]));
            if found.is_some() {
                proof {
                    lemma_filter_two_places(views, pred, i + 1);
                }
                return Err(refuse("CultCache projection identity is ambiguous"));
            }
            found = Some(i);
            assert(views.take(i + 1).filter(pred) =~= seq![views[i as int]]);
        }
        i += 1;
    }
    assert(views.take(i as int) =~= views);
    Ok(found)
}

/// What leaves a projection: the records under a key, all of them or those of a kind;
/// the shared anchor under its id; and the records of a former projection.
pub struct Removal {
    pub key: String,
    pub kind: Option<RecordType>,
    pub anchor_id: Option<String>,
    pub legacy_target: Option<String>,
}

/// What `Removal` names.
pub struct RemovalView {
    pub key: Seq<char>,
    pub kind: Option<RecordTypeView>,
    pub anchor_id: Option<Seq<char>>,
    pub legacy_target: Option<Seq<char>>,
}

impl View for Removal {
    type V = RemovalView;

    open spec fn view(&self) -> RemovalView {
        RemovalView {
            key: self.key@,
            kind: match self.kind {
                Some(kind) => Some(kind@),
                None => None,
            },
            anchor_id: crate::text::text_option(self.anchor_id),
            legacy_target: crate::text::text_option(self.legacy_target),
        }
    }
}

/// Whether a record leaves.
pub open spec fn leaves(removal: RemovalView, e: CultCacheEnvelopeView) -> bool {
    ||| e.key == removal.key && (removal.kind is None || removal.kind == Some(e.record_type))
    ||| e.record_type == RecordTypeView::Anchor && removal.anchor_id == Some(e.key)
    ||| removal.legacy_target is Some && legacy_slot(e, removal.legacy_target->0)
}

/// The records that stay.
pub open spec fn stays(removal: RemovalView) -> spec_fn(CultCacheEnvelopeView) -> bool {
    |e: CultCacheEnvelopeView| !leaves(removal, e)
}

fn does_leave(removal: &Removal, e: &CultCacheEnvelope) -> (leaving: bool)
    ensures
        leaving == leaves(removal@, e@),
{
    let under_key = same_text(e.key.as_str(), removal.key.as_str()) && match &removal.kind {
        None => true,
        Some(kind) => e.record_type.same(kind),
    };
    let is_anchor = matches!(e.record_type, RecordType::Anchor);
    let anchor = is_anchor && crate::text::is_text(&removal.anchor_id, e.key.as_str());
    let legacy = match &removal.legacy_target {
        None => false,
        Some(target) => is_incarnation_record_type(&e.record_type) && same_text(
            e.key.as_str(),
            target.as_str(),
        ),
    };
    under_key || anchor || legacy
}

/// The records of a store that stay, in order.
fn without(entries: &[CultCacheEnvelope], removal: &Removal) -> (rest: Vec<CultCacheEnvelope>)
    ensures
        cult_cache_envelope_views(rest@) == cult_cache_envelope_views(entries@).filter(
            stays(removal@),
        ),
{
    let ghost views = cult_cache_envelope_views(entries@);
    let ghost pred = stays(removal@);
    let mut rest: Vec<CultCacheEnvelope> = Vec::new();
    let mut i: usize = 0;
    proof {
        reveal(Seq::filter);
        assert(cult_cache_envelope_views(rest@) =~= views.take(0).filter(pred));
    }
    while i < entries.len()
        invariant
            i <= entries@.len(),
            views == cult_cache_envelope_views(entries@),
            pred == stays(removal@),
            cult_cache_envelope_views(rest@) == views.take(i as int).filter(pred),
        decreases entries@.len() - i,
    {
        proof {
            assert(views.take(i + 1) =~= views.take(i as int).push(views[i as int]));
            lemma_filter_push(views.take(i as int), views[i as int], pred);
        }
        if !does_leave(removal, &entries[i]) {
            push_envelope(&mut rest, entries[i].copy());
        }
        i += 1;
    }
    assert(views.take(i as int) =~= views);
    rest
}

fn push_envelope(list: &mut Vec<CultCacheEnvelope>, envelope: CultCacheEnvelope)
    ensures
        cult_cache_envelope_views(final(list)@) == cult_cache_envelope_views(old(list)@).push(
            envelope@,
        ),
{
    list.push(envelope);
    assert(cult_cache_envelope_views(list@) =~= cult_cache_envelope_views(old(list)@).push(
        envelope@,
    ));
}

fn copy_at(entries: &[CultCacheEnvelope], i: usize) -> (copy: CultCacheEnvelope)
    requires
        i < entries@.len(),
    ensures
        copy@ == entries@[i as int]@,
{
    entries[i].copy()
}

/// Whether some other incarnation of a target is projected.
pub open spec fn has_other_incarnation(
    entries: Seq<CultCacheEnvelopeView>,
    target: Seq<char>,
    key: Seq<char>,
) -> bool {
    exists|i: int| 0 <= i < entries.len()
        && is_other_incarnation(#[trigger] entries[i], target, key)
}

/// Whether a record is the expectation of another incarnation of a target.
pub open spec fn is_other_incarnation(
    e: CultCacheEnvelopeView,
    target: Seq<char>,
    key: Seq<char>,
) -> bool {
    &&& e.record_type == RecordTypeView::Expected
    &&& e.key != key
    &&& cut_first(e.key, '@') matches Some((owner, _)) && owner == target
}

/// Whether some other incarnation of a target is projected.
pub fn other_incarnations_of(
    entries: &[CultCacheEnvelope],
    target: &str,
    key: &str,
) -> (found: bool)
    ensures
        found == has_other_incarnation(cult_cache_envelope_views(entries@), target@, key@),
{
    let ghost views = cult_cache_envelope_views(entries@);
    let mut i: usize = 0;
    while i < entries.len()
        invariant
            i <= entries@.len(),
            views == cult_cache_envelope_views(entries@),
            forall|j: int| 0 <= j < i ==> !is_other_incarnation(#[trigger] views[j], target@, key@),
        decreases entries@.len() - i,
    {
        let e = &entries[i];
        assert(views[i as int] == e@);
        let is_expected = matches!(e.record_type, RecordType::Expected);
        if is_expected && !same_text(e.key.as_str(), key) {
            if let Some((owner, _)) = split_once(e.key.as_str(), '@') {
                if same_text(owner.as_str(), target) {
                    assert(is_other_incarnation(views[i as int], target@, key@));
                    return true;
                }
            }
        }
        i += 1;
    }
    false
}

/// Whether two envelopes hold the same record, whenever each was stored.
pub open spec fn same_record_view(a: CultCacheEnvelopeView, b: CultCacheEnvelopeView) -> bool {
    a.key == b.key && a.record_type == b.record_type && a.schema_id == b.schema_id && a.payload
        == b.payload
}

/// Whether two envelopes hold the same record, whenever each was stored.
pub fn same_record(current: &CultCacheEnvelope, replacement: &CultCacheEnvelope) -> (same: bool)
    ensures
        same == same_record_view(current@, replacement@),
{
    same_text(current.key.as_str(), replacement.key.as_str()) && current.record_type.same(
        &replacement.record_type,
    ) && current.schema_id.same(&replacement.schema_id) && crate::text::same_bytes(
        current.payload.as_slice(),
        replacement.payload.as_slice(),
    )
}

/// The envelope an expectation is published in.
pub open spec fn expected_envelope_view(
    expected: IdunnExpectedIncarnationRecordView,
    now: Seq<char>,
) -> CultCacheEnvelopeView {
    CultCacheEnvelopeView {
        key: key_of(expected),
        record_type: RecordTypeView::Expected,
        payload: expected.canonical_bytes,
        stored_at: now,
        schema_id: RecordSchemaView::Expected,
        document: DocumentView::Expected(expected),
    }
}

/// The envelope an expectation is published in.
pub fn expected_envelope(expected: &IdunnExpectedIncarnationRecord, now: &str) -> (envelope:
    CultCacheEnvelope)
    ensures
        envelope@ == expected_envelope_view(expected@, now@),
{
    CultCacheEnvelope {
        key: incarnation_key(expected),
        record_type: RecordType::Expected,
        payload: copy_bytes(expected.canonical_bytes.as_slice()),
        stored_at: now.to_owned(),
        schema_id: RecordSchema::Expected,
        document: Document::Expected(expected.copy()),
    }
}

/// The envelope a trust anchor is published in, or why it cannot be written.
pub open spec fn anchor_envelope_view(
    record: GameCultServiceTrustAnchorRecordView,
    payload: Seq<u8>,
) -> Result<CultCacheEnvelopeView, Seq<char>> {
    match instant_text(record.bound_at_unix_millis as int) {
        Err(words) => Err(words),
        Ok(stored_at) => Ok(
            CultCacheEnvelopeView {
                key: record.trust_anchor_id,
                record_type: RecordTypeView::Anchor,
                payload,
                stored_at,
                schema_id: RecordSchemaView::Anchor,
                document: DocumentView::Anchor(record),
            },
        ),
    }
}

/// The envelope a trust anchor is published in.
pub fn anchor_envelope(anchor: &AnchorDocument) -> (outcome: Result<CultCacheEnvelope, Refusal>)
    ensures
        reads(outcome, anchor_envelope_view(anchor.record@, anchor.payload@)),
{
    let stored_at = rfc3339_millis(anchor.record.bound_at_unix_millis)?;
    Ok(
        CultCacheEnvelope {
            key: anchor.record.trust_anchor_id.clone(),
            record_type: RecordType::Anchor,
            payload: copy_bytes(anchor.payload.as_slice()),
            stored_at,
            schema_id: RecordSchema::Anchor,
            document: Document::Anchor(anchor.record.copy()),
        },
    )
}

/// The envelope an activation is published in, or why it cannot be written.
pub open spec fn activation_envelope_view(
    key: Seq<char>,
    activation: IdunnRuntimeActivationRecordView,
) -> Result<CultCacheEnvelopeView, Seq<char>> {
    match instant_text(activation.issued_at_unix_millis as int) {
        Err(words) => Err(words),
        Ok(stored_at) => Ok(
            CultCacheEnvelopeView {
                key,
                record_type: RecordTypeView::Activation,
                payload: activation.canonical_bytes,
                stored_at,
                schema_id: RecordSchemaView::Activation,
                document: DocumentView::Activation(activation),
            },
        ),
    }
}

/// The envelope an activation is published in.
pub fn activation_envelope(key: &str, activation: &IdunnRuntimeActivationRecord) -> (outcome:
    Result<CultCacheEnvelope, Refusal>)
    ensures
        reads(outcome, activation_envelope_view(key@, activation@)),
{
    let stored_at = rfc3339_millis(activation.issued_at_unix_millis)?;
    Ok(
        CultCacheEnvelope {
            key: key.to_owned(),
            record_type: RecordType::Activation,
            payload: copy_bytes(activation.canonical_bytes.as_slice()),
            stored_at,
            schema_id: RecordSchema::Activation,
            document: Document::Activation(activation.copy()),
        },
    )
}

/// The envelope a lease is projected in, or why it cannot be written.
pub open spec fn projected_lease_view(
    key: Seq<char>,
    lease: IdunnProcessWriteLeaseRecordView,
) -> Result<CultCacheEnvelopeView, Seq<char>> {
    match instant_text(lease.issued_at_unix_millis as int) {
        Err(words) => Err(words),
        Ok(stored_at) => Ok(
            CultCacheEnvelopeView {
                key,
                record_type: RecordTypeView::Lease,
                payload: lease.canonical_bytes,
                stored_at,
                schema_id: RecordSchemaView::Lease,
                document: DocumentView::Lease(lease),
            },
        ),
    }
}

fn projected_lease(key: &str, lease: &IdunnProcessWriteLeaseRecord) -> (outcome: Result<
    CultCacheEnvelope,
    Refusal,
>)
    ensures
        reads(outcome, projected_lease_view(key@, lease@)),
{
    let stored_at = rfc3339_millis(lease.issued_at_unix_millis)?;
    Ok(
        CultCacheEnvelope {
            key: key.to_owned(),
            record_type: RecordType::Lease,
            payload: copy_bytes(lease.canonical_bytes.as_slice()),
            stored_at,
            schema_id: RecordSchema::Lease,
            document: Document::Lease(lease.copy()),
        },
    )
}

/// The trust anchor an envelope holds, or why it is refused.
pub open spec fn anchor_in(e: CultCacheEnvelopeView) -> Result<
    GameCultServiceTrustAnchorRecordView,
    Seq<char>,
> {
    if e.schema_id != RecordSchemaView::Anchor {
        Err("service trust-anchor projection schema is foreign"@)
    } else {
        read_anchor(e.document)
    }
}

/// The trust anchor an envelope holds.
pub fn service_trust_anchor_from_envelope(envelope: &CultCacheEnvelope) -> (outcome: Result<
    GameCultServiceTrustAnchorRecord,
    Refusal,
>)
    ensures
        reads(outcome, anchor_in(envelope@)),
{
    let anchor_schema = matches!(envelope.schema_id, RecordSchema::Anchor);
    if !anchor_schema {
        return Err(refuse("service trust-anchor projection schema is foreign"));
    }
    envelope.anchor()
}

/// Why a projected expectation is not the one a caller names, if so.
pub open spec fn expected_refusal(
    found: Option<CultCacheEnvelopeView>,
    expected: IdunnExpectedIncarnationRecordView,
    words: Seq<char>,
) -> Option<Seq<char>> {
    match found {
        None => None,
        Some(e) => if e.schema_id != RecordSchemaView::Expected {
            Some(words)
        } else {
            match read_expected(e.document) {
                Err(fault) => Some(fault),
                Ok(record) => unless(record == expected, words),
            }
        },
    }
}

/// Why a projected activation is not the one a caller names, if so.
pub open spec fn activation_refusal(
    found: Option<CultCacheEnvelopeView>,
    activation: Option<IdunnRuntimeActivationRecordView>,
) -> Option<Seq<char>> {
    match found {
        None => None,
        Some(e) => match read_activation(e.document) {
            Err(fault) => Some(fault),
            Ok(record) => unless(
                e.schema_id == RecordSchemaView::Activation && activation == Some(record),
                "projected activation under this incarnation key is substituted"@,
            ),
        },
    }
}

/// Why a projected lease is not the one a caller names, if so.
pub open spec fn lease_refusal(
    found: Option<CultCacheEnvelopeView>,
    lease: Option<IdunnProcessWriteLeaseRecordView>,
    words: Seq<char>,
) -> Option<Seq<char>> {
    match found {
        None => None,
        Some(e) => match read_lease(e.document) {
            Err(fault) => Some(fault),
            Ok(record) => unless(
                e.schema_id == RecordSchemaView::Lease && lease == Some(record),
                words,
            ),
        },
    }
}

/// One incarnation's records as they are projected.
pub struct ProjectedView {
    pub expected: Option<CultCacheEnvelopeView>,
    pub activation: Option<CultCacheEnvelopeView>,
    pub lease: Option<CultCacheEnvelopeView>,
}

/// One incarnation's records as they are projected, each checked to be exactly the one
/// a caller names; a record that differs is a substitution and is refused.
pub open spec fn projected(
    entries: Seq<CultCacheEnvelopeView>,
    expected: IdunnExpectedIncarnationRecordView,
    activation: Option<IdunnRuntimeActivationRecordView>,
    lease: Option<IdunnProcessWriteLeaseRecordView>,
) -> Result<ProjectedView, Seq<char>> {
    let key = key_of(expected);
    match entry_of(entries, RecordTypeView::Expected, key) {
        Err(words) => Err(words),
        Ok(e) => match expected_refusal(
            e,
            expected,
            "projected Expected under this incarnation key is substituted"@,
        ) {
            Some(words) => Err(words),
            None => match entry_of(entries, RecordTypeView::Activation, key) {
                Err(words) => Err(words),
                Ok(a) => match activation_refusal(a, activation) {
                    Some(words) => Err(words),
                    None => match entry_of(entries, RecordTypeView::Lease, key) {
                        Err(words) => Err(words),
                        Ok(l) => match lease_refusal(
                            l,
                            lease,
                            "projected write lease under this incarnation key is substituted"@,
                        ) {
                            Some(words) => Err(words),
                            None => Ok(ProjectedView { expected: e, activation: a, lease: l }),
                        },
                    },
                },
            },
        },
    }
}

/// What a record that may be absent holds.
pub open spec fn activation_view(v: Option<&IdunnRuntimeActivationRecord>) -> Option<
    IdunnRuntimeActivationRecordView,
> {
    match v {
        Some(r) => Some(r@),
        None => None,
    }
}

/// What a record that may be absent holds.
pub open spec fn lease_view(v: Option<&IdunnProcessWriteLeaseRecord>) -> Option<
    IdunnProcessWriteLeaseRecordView,
> {
    match v {
        Some(r) => Some(r@),
        None => None,
    }
}

/// The places of one incarnation's records in a store.
pub struct ProjectedIncarnation {
    pub expected: Option<usize>,
    pub activation: Option<usize>,
    pub lease: Option<usize>,
}

/// The envelope at a place that may be absent.
pub open spec fn envelope_at(entries: Seq<CultCacheEnvelope>, i: Option<usize>) -> Option<
    CultCacheEnvelopeView,
> {
    match i {
        Some(k) => Some(entries[k as int]@),
        None => None,
    }
}

fn check_expected(
    entries: &[CultCacheEnvelope],
    found: Option<usize>,
    expected: &IdunnExpectedIncarnationRecord,
    words: &str,
) -> (outcome: Result<(), Refusal>)
    requires
        found matches Some(i) ==> i < entries@.len(),
    ensures
        judged(outcome, expected_refusal(envelope_at(entries@, found), expected@, words@)),
{
    match found {
        None => Ok(()),
        Some(i) => {
            let e = &entries[i];
            let expected_schema = matches!(e.schema_id, RecordSchema::Expected);
            if !expected_schema {
                return Err(refuse(words));
            }
            let record = e.expected()?;
            if record.same(expected) {
                Ok(())
            } else {
                Err(refuse(words))
            }
        },
    }
}

fn check_activation(
    entries: &[CultCacheEnvelope],
    found: Option<usize>,
    activation: Option<&IdunnRuntimeActivationRecord>,
) -> (outcome: Result<(), Refusal>)
    requires
        found matches Some(i) ==> i < entries@.len(),
    ensures
        judged(
            outcome,
            activation_refusal(envelope_at(entries@, found), activation_view(activation)),
        ),
{
    match found {
        None => Ok(()),
        Some(i) => {
            let e = &entries[i];
            let record = e.activation()?;
            let activation_schema = matches!(e.schema_id, RecordSchema::Activation);
            let exact = match activation {
                Some(named) => named.same(&record),
                None => false,
            };
            if activation_schema && exact {
                Ok(())
            } else {
                Err(refuse("projected activation under this incarnation key is substituted"))
            }
        },
    }
}

fn check_lease(
    entries: &[CultCacheEnvelope],
    found: Option<usize>,
    lease: Option<&IdunnProcessWriteLeaseRecord>,
    words: &str,
) -> (outcome: Result<(), Refusal>)
    requires
        found matches Some(i) ==> i < entries@.len(),
    ensures
        judged(outcome, lease_refusal(envelope_at(entries@, found), lease_view(lease), words@)),
{
    match found {
        None => Ok(()),
        Some(i) => {
            let e = &entries[i];
            let record = e.lease()?;
            let lease_schema = matches!(e.schema_id, RecordSchema::Lease);
            let exact = match lease {
                Some(named) => named.same(&record),
                None => false,
            };
            if lease_schema && exact {
                Ok(())
            } else {
                Err(refuse(words))
            }
        },
    }
}

impl ProjectedIncarnation {
    /// Reads one incarnation's records, each exactly the one named.
    pub fn read(
        entries: &[CultCacheEnvelope],
        expected: &IdunnExpectedIncarnationRecord,
        activation: Option<&IdunnRuntimeActivationRecord>,
        lease: Option<&IdunnProcessWriteLeaseRecord>,
    ) -> (outcome: Result<Self, Refusal>)
        ensures
            match (
                outcome,
                projected(
                    cult_cache_envelope_views(entries@),
                    expected@,
                    activation_view(activation),
                    lease_view(lease),
                ),
            ) {
                (Ok(found), Ok(view)) => {
                    &&& found.expected matches Some(i) ==> i < entries@.len()
                    &&& found.activation matches Some(i) ==> i < entries@.len()
                    &&& found.lease matches Some(i) ==> i < entries@.len()
                    &&& envelope_at(entries@, found.expected) == view.expected
                    &&& envelope_at(entries@, found.activation) == view.activation
                    &&& envelope_at(entries@, found.lease) == view.lease
                },
                (Err(refusal), Err(words)) => refusal@ == words,
                _ => false,
            },
    {
        let key = incarnation_key(expected);
        let e = projection_entry(entries, &RecordType::Expected, key.as_str())?;
        check_expected(
            entries,
            e,
            expected,
            "projected Expected under this incarnation key is substituted",
        )?;
        let a = projection_entry(entries, &RecordType::Activation, key.as_str())?;
        check_activation(entries, a, activation)?;
        let l = projection_entry(entries, &RecordType::Lease, key.as_str())?;
        check_lease(
            entries,
            l,
            lease,
            "projected write lease under this incarnation key is substituted",
        )?;
        Ok(ProjectedIncarnation { expected: e, activation: a, lease: l })
    }
}

/// What a writer makes of a store: nothing, a new content, or a refusal.
pub type Decision = Result<Option<Seq<CultCacheEnvelopeView>>, Seq<char>>;

/// Whether a writer's answer is the decision.
pub open spec fn decides(
    outcome: Result<Option<Vec<CultCacheEnvelope>>, Refusal>,
    decision: Decision,
) -> bool {
    match (outcome, decision) {
        (Ok(Some(content)), Ok(Some(views))) => cult_cache_envelope_views(content@) == views,
        (Ok(None), Ok(None)) => true,
        (Err(refusal), Err(words)) => refusal@ == words,
        _ => false,
    }
}

/// Why a shared anchor that is projected is not the one a caller names, if so.
pub open spec fn anchor_refusal(
    found: Option<CultCacheEnvelopeView>,
    anchor: GameCultServiceTrustAnchorRecordView,
    words: Seq<char>,
) -> Option<Seq<char>> {
    match found {
        None => None,
        Some(e) => match anchor_in(e) {
            Err(fault) => Some(fault),
            Ok(record) => unless(record == anchor, words),
        },
    }
}

fn check_anchor(
    entries: &[CultCacheEnvelope],
    found: Option<usize>,
    anchor: &GameCultServiceTrustAnchorRecord,
    words: &str,
) -> (outcome: Result<(), Refusal>)
    requires
        found matches Some(i) ==> i < entries@.len(),
    ensures
        judged(outcome, anchor_refusal(envelope_at(entries@, found), anchor@, words@)),
{
    match found {
        None => Ok(()),
        Some(i) => {
            let record = service_trust_anchor_from_envelope(&entries[i])?;
            if record.same(anchor) {
                Ok(())
            } else {
                Err(refuse(words))
            }
        },
    }
}

/// The content that carries an expectation and its anchor.
pub open spec fn publishing_expected(
    entries: Seq<CultCacheEnvelopeView>,
    expected: IdunnExpectedIncarnationRecordView,
    anchor: GameCultServiceTrustAnchorRecordView,
    anchor_payload: Seq<u8>,
    now: Seq<char>,
) -> Decision {
    let key = key_of(expected);
    let expected_record = expected_envelope_view(expected, now);
    match anchor_envelope_view(anchor, anchor_payload) {
        Err(words) => Err(words),
        Ok(anchor_record) => match entry_of(entries, RecordTypeView::Expected, key) {
            Err(words) => Err(words),
            Ok(current_expected) => match entry_of(
                entries,
                RecordTypeView::Anchor,
                anchor.trust_anchor_id,
            ) {
                Err(words) => Err(words),
                Ok(current_anchor) => {
                    let legacy = exists|i: int|
                        0 <= i < entries.len()
                            && legacy_slot(#[trigger] entries[i], expected.target);
                    let kept = current_expected is Some && same_record_view(
                        current_expected->0,
                        expected_record,
                    );
                    if !legacy && kept && current_anchor is Some && same_record_view(
                        current_anchor->0,
                        anchor_record,
                    ) {
                        Ok(None)
                    } else {
                        let rest = entries.filter(stays(publishing_removes(expected, anchor)));
                        Ok(
                            Some(
                                rest.push(
                                    if kept {
                                        current_expected->0
                                    } else {
                                        expected_record
                                    },
                                ).push(anchor_record),
                            ),
                        )
                    }
                },
            },
        },
    }
}

/// What publishing an expectation takes out: the expectation under its key, the shared
/// anchor, and the records of a former projection.
pub open spec fn publishing_removes(
    expected: IdunnExpectedIncarnationRecordView,
    anchor: GameCultServiceTrustAnchorRecordView,
) -> RemovalView {
    RemovalView {
        key: key_of(expected),
        kind: Some(RecordTypeView::Expected),
        anchor_id: Some(anchor.trust_anchor_id),
        legacy_target: Some(expected.target),
    }
}

/// What demoting an incarnation takes out: all that is under its key, and the anchor.
pub open spec fn demoting_removes(
    expected: IdunnExpectedIncarnationRecordView,
    anchor: GameCultServiceTrustAnchorRecordView,
) -> RemovalView {
    RemovalView {
        key: key_of(expected),
        kind: None,
        anchor_id: Some(anchor.trust_anchor_id),
        legacy_target: None,
    }
}

/// What withdrawing an incarnation takes out: all that is under its key, and the
/// anchor unless another incarnation of the target stays.
pub open spec fn withdrawing_removes(
    entries: Seq<CultCacheEnvelopeView>,
    expected: IdunnExpectedIncarnationRecordView,
    anchor: GameCultServiceTrustAnchorRecordView,
) -> RemovalView {
    RemovalView {
        key: key_of(expected),
        kind: None,
        anchor_id: if has_other_incarnation(entries, expected.target, key_of(expected)) {
            None
        } else {
            Some(anchor.trust_anchor_id)
        },
        legacy_target: None,
    }
}

/// What replacing one record under a key takes out.
pub open spec fn one_kind_removes(key: Seq<char>, kind: RecordTypeView) -> RemovalView {
    RemovalView { key, kind: Some(kind), anchor_id: None, legacy_target: None }
}

/// The content in which an incarnation is expected and nothing more.
pub open spec fn demoting(
    entries: Seq<CultCacheEnvelopeView>,
    expected: IdunnExpectedIncarnationRecordView,
    anchor: GameCultServiceTrustAnchorRecordView,
    anchor_payload: Seq<u8>,
    activation: IdunnRuntimeActivationRecordView,
    lease: Option<IdunnProcessWriteLeaseRecordView>,
    now: Seq<char>,
) -> Decision {
    match projected(entries, expected, Some(activation), lease) {
        Err(words) => Err(words),
        Ok(found) => match entry_of(entries, RecordTypeView::Anchor, anchor.trust_anchor_id) {
            Err(words) => Err(words),
            Ok(current_anchor) => match anchor_refusal(
                current_anchor,
                anchor,
                "refusing to replace an unknown runtime presence trust anchor"@,
            ) {
                Some(words) => Err(words),
                None => if found.expected is Some && current_anchor is Some && found.activation
                    is None && found.lease is None {
                    Ok(None)
                } else {
                    let rest = entries.filter(stays(demoting_removes(expected, anchor)));
                    let with_expected = rest.push(
                        match found.expected {
                            Some(e) => e,
                            None => expected_envelope_view(expected, now),
                        },
                    );
                    match current_anchor {
                        Some(e) => Ok(Some(with_expected.push(e))),
                        None => match anchor_envelope_view(anchor, anchor_payload) {
                            Err(words) => Err(words),
                            Ok(e) => Ok(Some(with_expected.push(e))),
                        },
                    }
                },
            },
        },
    }
}

/// The content without one incarnation, whatever is under its key.
pub open spec fn withdrawing_stale(
    entries: Seq<CultCacheEnvelopeView>,
    expected: IdunnExpectedIncarnationRecordView,
    anchor: GameCultServiceTrustAnchorRecordView,
) -> Decision {
    if exists|i: int| 0 <= i < entries.len() && (#[trigger] entries[i]).key == key_of(expected) {
        Ok(Some(entries.filter(stays(withdrawing_removes(entries, expected, anchor)))))
    } else {
        Ok(None)
    }
}

/// The content without one incarnation, every record of it being the one named.
pub open spec fn withdrawing(
    entries: Seq<CultCacheEnvelopeView>,
    expected: IdunnExpectedIncarnationRecordView,
    anchor: GameCultServiceTrustAnchorRecordView,
    activation: Option<IdunnRuntimeActivationRecordView>,
    lease: Option<IdunnProcessWriteLeaseRecordView>,
) -> Decision {
    match projected(entries, expected, activation, lease) {
        Err(words) => Err(words),
        Ok(found) => match entry_of(entries, RecordTypeView::Anchor, anchor.trust_anchor_id) {
            Err(words) => Err(words),
            Ok(current_anchor) => match anchor_refusal(
                current_anchor,
                anchor,
                "refusing to withdraw a substituted runtime presence trust anchor"@,
            ) {
                Some(words) => Err(words),
                None => if found.expected is None && found.activation is None && found.lease is None
                    && (has_other_incarnation(entries, expected.target, key_of(expected))
                    || current_anchor is None) {
                    Ok(None)
                } else {
                    Ok(Some(entries.filter(stays(withdrawing_removes(entries, expected, anchor)))))
                },
            },
        },
    }
}

/// The content that carries an observed activation.
pub open spec fn publishing_activation(
    entries: Seq<CultCacheEnvelopeView>,
    expected: IdunnExpectedIncarnationRecordView,
    activation: IdunnRuntimeActivationRecordView,
) -> Decision {
    let key = key_of(expected);
    match entry_of(entries, RecordTypeView::Expected, key) {
        Err(words) => Err(words),
        Ok(None) => Err("observed activation has no current Expected projection"@),
        Ok(Some(current_expected)) => match expected_refusal(
            Some(current_expected),
            expected,
            "observed activation's Expected projection is substituted"@,
        ) {
            Some(words) => Err(words),
            None => match activation_envelope_view(key, activation) {
                Err(words) => Err(words),
                Ok(record) => match entry_of(entries, RecordTypeView::Activation, key) {
                    Err(words) => Err(words),
                    Ok(current) => if current is Some && same_record_view(current->0, record) {
                        Ok(None)
                    } else {
                        Ok(
                            Some(
                                entries.filter(
                                    stays(one_kind_removes(key, RecordTypeView::Activation)),
                                ).push(record),
                            ),
                        )
                    },
                },
            },
        },
    }
}

/// Whether a projected anchor is the presence anchor of the expected incarnation.
pub open spec fn anchors_presence(
    anchor: GameCultServiceTrustAnchorRecordView,
    expected: IdunnExpectedIncarnationRecordView,
    presence_schema: Seq<char>,
    presence_signing_purpose: Seq<char>,
) -> bool {
    &&& anchor.service_id == expected.target
    &&& anchor.runtime_id == expected.runtime_id
    &&& anchor.signer_identity_id == expected.expected_signer_identity_id
    &&& anchor.signing_purpose == presence_signing_purpose
    &&& anchor.signed_schema == presence_schema
}

/// The content that carries a process's write lease.
pub open spec fn publishing_lease(
    entries: Seq<CultCacheEnvelopeView>,
    expected: IdunnExpectedIncarnationRecordView,
    activation: IdunnRuntimeActivationRecordView,
    lease: IdunnProcessWriteLeaseRecordView,
    presence_schema: Seq<char>,
    presence_signing_purpose: Seq<char>,
) -> Decision {
    match projected(entries, expected, Some(activation), Some(lease)) {
        Err(words) => Err(words),
        Ok(found) => if found.expected is None {
            Err("process write lease has no current Expected projection"@)
        } else if found.activation is None {
            Err("process write lease has no observed activation projection"@)
        } else {
            match entry_of(entries, RecordTypeView::Anchor, anchor_id_text(expected.target)) {
                Err(words) => Err(words),
                Ok(None) => Err("process write lease has no runtime presence trust anchor"@),
                Ok(Some(e)) => match anchor_in(e) {
                    Err(words) => Err(words),
                    Ok(anchor) => if !anchors_presence(
                        anchor,
                        expected,
                        presence_schema,
                        presence_signing_purpose,
                    ) {
                        Err("process write lease runtime presence trust anchor is substituted"@)
                    } else if found.lease is Some {
                        Ok(None)
                    } else {
                        match projected_lease_view(key_of(expected), lease) {
                            Err(words) => Err(words),
                            Ok(record) => Ok(Some(entries.push(record))),
                        }
                    },
                },
            }
        },
    }
}

/// The content without a process's write lease.
pub open spec fn withdrawing_lease(
    entries: Seq<CultCacheEnvelopeView>,
    expected: IdunnExpectedIncarnationRecordView,
    lease: Option<IdunnProcessWriteLeaseRecordView>,
) -> Decision {
    match entry_of(entries, RecordTypeView::Lease, key_of(expected)) {
        Err(words) => Err(words),
        Ok(None) => Ok(None),
        Ok(Some(e)) => match lease_refusal(
            Some(e),
            lease,
            "refusing to withdraw an unexpected process write-lease projection"@,
        ) {
            Some(words) => Err(words),
            None => Ok(
                Some(
                    entries.filter(
                        stays(one_kind_removes(key_of(expected), RecordTypeView::Lease)),
                    ),
                ),
            ),
        },
    }
}

/// Why a lease does not bind an expectation and its activation, if so.
pub open spec fn topology_lease_refusal(
    expected: IdunnExpectedIncarnationRecordView,
    activation: IdunnRuntimeActivationRecordView,
    lease: IdunnProcessWriteLeaseRecordView,
) -> Option<Seq<char>> {
    let unbound = Some("topology write lease does not bind the exact Expected activation"@);
    if !(expected.write_lease_required && lease.target == expected.target
        && lease.expected_projection_sha256 == expected.canonical_sha256 && lease.plan_id
        == expected.plan_id && lease.incarnation_id == expected.incarnation_id
        && lease.sealed_release_id == expected.sealed_release_id && lease.activation_witness_sha256
        == activation.canonical_sha256) {
        unbound
    } else if expected.state_schema_generation is None {
        Some("write-lease Expected has no state generation"@)
    } else if expected.state_schema_generation != Some(lease.state_schema_generation) {
        unbound
    } else if expected.state_contract_sha256 is None {
        Some("write-lease Expected has no state contract"@)
    } else if expected.state_contract_sha256 != Some(lease.state_contract_sha256)
        || lease.runtime_id != expected.runtime_id || lease.runtime_instance_id
        != activation.runtime_instance_id {
        unbound
    } else {
        None
    }
}

/// Admits a lease only where it binds an expectation and its activation. The records
/// have passed their own validation.
pub fn validate_topology_lease(
    expected: &IdunnExpectedIncarnationRecord,
    activation: &IdunnRuntimeActivationRecord,
    lease: &IdunnProcessWriteLeaseRecord,
) -> (outcome: Result<(), Refusal>)
    ensures
        judged(outcome, topology_lease_refusal(expected@, activation@, lease@)),
{
    let words = "topology write lease does not bind the exact Expected activation";
    let named = expected.write_lease_required && same_text(
        lease.target.as_str(),
        expected.target.as_str(),
    ) && same_text(
        lease.expected_projection_sha256.as_str(),
        expected.canonical_sha256.as_str(),
    ) && same_text(lease.plan_id.as_str(), expected.plan_id.as_str()) && same_text(
        lease.incarnation_id.as_str(),
        expected.incarnation_id.as_str(),
    ) && same_text(lease.sealed_release_id.as_str(), expected.sealed_release_id.as_str())
        && same_text(
        lease.activation_witness_sha256.as_str(),
        activation.canonical_sha256.as_str(),
    );
    if !named {
        return Err(refuse(words));
    }
    match &expected.state_schema_generation {
        None => return Err(refuse("write-lease Expected has no state generation")),
        Some(generation) => {
            if !same_text(lease.state_schema_generation.as_str(), generation.as_str()) {
                return Err(refuse(words));
            }
        },
    }
    match &expected.state_contract_sha256 {
        None => return Err(refuse("write-lease Expected has no state contract")),
        Some(contract) => {
            if !same_text(lease.state_contract_sha256.as_str(), contract.as_str()) {
                return Err(refuse(words));
            }
        },
    }
    if !same_text(lease.runtime_id.as_str(), expected.runtime_id.as_str()) || !same_text(
        lease.runtime_instance_id.as_str(),
        activation.runtime_instance_id.as_str(),
    ) {
        return Err(refuse(words));
    }
    Ok(())
}

/// The trust anchor of a target's runtime presence, or why a provider's anchor does not
/// give one.
pub open spec fn presence_anchor(
    expected: IdunnExpectedIncarnationRecordView,
    provider: ServiceIdentityTrustAnchorView,
    contract: PresenceContract,
) -> Result<GameCultServiceTrustAnchorRecordView, Seq<char>> {
    if provider.schema_version != contract.provider_anchor_schema@ {
        Err("runtime presence trust anchor schema is unsupported"@)
    } else if provider.derived_identity_id != provider.identity_id || provider.identity_id
        != expected.expected_signer_identity_id {
        Err("runtime presence trust anchor does not bind the Expected signer"@)
    } else {
        match creation_instant(provider.identity_created_at) {
            Err(words) => Err(words),
            Ok(millis) => Ok(
                GameCultServiceTrustAnchorRecordView {
                    schema_version: contract.trust_anchor_schema@,
                    trust_anchor_id: anchor_id_text(expected.target),
                    service_id: expected.target,
                    runtime_id: expected.runtime_id,
                    signer_identity_id: provider.identity_id,
                    signer_public_key: provider.public_key,
                    signature_algorithm: "ed25519"@,
                    signing_purpose: contract.presence_signing_purpose@,
                    signed_schema: contract.presence_schema@,
                    binding_authority: "root"@,
                    bound_at_unix_millis: millis as u64,
                    expires_at_unix_millis: None,
                    private_state_exposed: false,
                },
            ),
        }
    }
}

/// The content that carries an expectation and the anchor that a provider gives it.
pub open spec fn publication(
    entries: Seq<CultCacheEnvelopeView>,
    expected: IdunnExpectedIncarnationRecordView,
    provider: ServiceIdentityTrustAnchorView,
    contract: PresenceContract,
    anchor_payload: Seq<u8>,
    now: Seq<char>,
) -> Decision {
    match presence_anchor(expected, provider, contract) {
        Err(words) => Err(words),
        Ok(anchor) => publishing_expected(entries, expected, anchor, anchor_payload, now),
    }
}

/// The content without one incarnation, every record of it being the one named, its anchor
/// the one that a provider gives it.
pub open spec fn withdrawal(
    entries: Seq<CultCacheEnvelopeView>,
    expected: IdunnExpectedIncarnationRecordView,
    provider: ServiceIdentityTrustAnchorView,
    contract: PresenceContract,
    activation: Option<IdunnRuntimeActivationRecordView>,
    lease: Option<IdunnProcessWriteLeaseRecordView>,
) -> Decision {
    match presence_anchor(expected, provider, contract) {
        Err(words) => Err(words),
        Ok(anchor) => match withdrawal_refusal(expected, activation, lease) {
            Some(words) => Err(words),
            None => withdrawing(entries, expected, anchor, activation, lease),
        },
    }
}

/// The content in which an incarnation is expected and nothing more, its anchor the one that
/// a provider gives it.
pub open spec fn demotion(
    entries: Seq<CultCacheEnvelopeView>,
    expected: IdunnExpectedIncarnationRecordView,
    provider: ServiceIdentityTrustAnchorView,
    contract: PresenceContract,
    anchor_payload: Seq<u8>,
    activation: IdunnRuntimeActivationRecordView,
    lease: Option<IdunnProcessWriteLeaseRecordView>,
    now: Seq<char>,
) -> Decision {
    match admission_refusal(
        expected,
        activation,
        lease,
        "admitted activation does not bind the admitted Expected projection"@,
    ) {
        Some(words) => Err(words),
        None => match presence_anchor(expected, provider, contract) {
            Err(words) => Err(words),
            Ok(anchor) => demoting(
                entries,
                expected,
                anchor,
                anchor_payload,
                activation,
                lease,
                now,
            ),
        },
    }
}

/// The content without one incarnation, whatever is under its key, its anchor the one that a
/// provider gives it.
pub open spec fn stale_withdrawal(
    entries: Seq<CultCacheEnvelopeView>,
    expected: IdunnExpectedIncarnationRecordView,
    provider: ServiceIdentityTrustAnchorView,
    contract: PresenceContract,
) -> Decision {
    match presence_anchor(expected, provider, contract) {
        Err(words) => Err(words),
        Ok(anchor) => withdrawing_stale(entries, expected, anchor),
    }
}

/// Whether an expectation and the anchor that a provider gives it are projected exactly.
pub open spec fn admitted_expected(
    entries: Seq<CultCacheEnvelopeView>,
    expected: IdunnExpectedIncarnationRecordView,
    provider: ServiceIdentityTrustAnchorView,
    contract: PresenceContract,
) -> Result<bool, Seq<char>> {
    match presence_anchor(expected, provider, contract) {
        Err(words) => Err(words),
        Ok(anchor) => expected_projection_exact(entries, expected, anchor),
    }
}

/// Whether an incarnation's runtime records are projected exactly, with the anchor that a
/// provider gives it.
pub open spec fn admitted_runtime(
    entries: Seq<CultCacheEnvelopeView>,
    expected: IdunnExpectedIncarnationRecordView,
    provider: ServiceIdentityTrustAnchorView,
    contract: PresenceContract,
    activation: IdunnRuntimeActivationRecordView,
    lease: Option<IdunnProcessWriteLeaseRecordView>,
) -> Result<bool, Seq<char>> {
    match admission_refusal(
        expected,
        activation,
        lease,
        "admitted activation does not bind its Expected projection"@,
    ) {
        Some(words) => Err(words),
        None => match presence_anchor(expected, provider, contract) {
            Err(words) => Err(words),
            Ok(anchor) => runtime_projection_exact(entries, expected, anchor, activation, lease),
        },
    }
}

/// The trust anchor of a target's runtime presence, from a provider's anchor.
pub fn runtime_presence_trust_anchor(
    expected: &IdunnExpectedIncarnationRecord,
    provider_anchor: &ServiceIdentityTrustAnchor,
    contract: &PresenceContract,
) -> (outcome: Result<GameCultServiceTrustAnchorRecord, Refusal>)
    ensures
        reads(outcome, presence_anchor(expected@, provider_anchor@, *contract)),
{
    if !same_text(
        provider_anchor.schema_version.as_str(),
        contract.provider_anchor_schema.as_str(),
    ) {
        return Err(refuse("runtime presence trust anchor schema is unsupported"));
    }
    if !same_text(
        provider_anchor.derived_identity_id.as_str(),
        provider_anchor.identity_id.as_str(),
    ) || !same_text(
        provider_anchor.identity_id.as_str(),
        expected.expected_signer_identity_id.as_str(),
    ) {
        return Err(refuse("runtime presence trust anchor does not bind the Expected signer"));
    }
    let bound_at_unix_millis: u64 = creation_millis(provider_anchor.identity_created_at.as_str())?;
    Ok(
        GameCultServiceTrustAnchorRecord {
            schema_version: contract.trust_anchor_schema.clone(),
            trust_anchor_id: runtime_presence_trust_anchor_id(expected.target.as_str()),
            service_id: expected.target.clone(),
            runtime_id: expected.runtime_id.clone(),
            signer_identity_id: provider_anchor.identity_id.clone(),
            signer_public_key: copy_bytes(provider_anchor.public_key.as_slice()),
            signature_algorithm: "ed25519".to_owned(),
            signing_purpose: contract.presence_signing_purpose.clone(),
            signed_schema: contract.presence_schema.clone(),
            binding_authority: "root".to_owned(),
            bound_at_unix_millis,
            expires_at_unix_millis: None,
            private_state_exposed: false,
        },
    )
}

/// The expectations projected for a target, each under its own key, or the words with
/// which the first that does not decode is refused.
pub open spec fn incarnations_of(entries: Seq<CultCacheEnvelopeView>, target: Seq<char>) -> Result<
    Seq<IdunnExpectedIncarnationRecordView>,
    Seq<char>,
>
    decreases entries.len(),
{
    if entries.len() == 0 {
        Ok(Seq::empty())
    } else {
        let e = entries.last();
        match incarnations_of(entries.drop_last(), target) {
            Err(words) => Err(words),
            Ok(list) => if e.record_type == RecordTypeView::Expected && e.schema_id
                == RecordSchemaView::Expected && owned_by(e, target) {
                match read_expected(e.document) {
                    Err(words) => Err(words),
                    Ok(record) => if key_of(record) == e.key {
                        Ok(list.push(record))
                    } else {
                        Ok(list)
                    },
                }
            } else {
                Ok(list)
            },
        }
    }
}

/// Whether a record's key names a target as its owner.
pub open spec fn owned_by(e: CultCacheEnvelopeView, target: Seq<char>) -> bool {
    cut_first(e.key, '@') matches Some((owner, _)) && owner == target
}

/// What a retried publication does after one exchange.
#[derive(Clone, Copy, Debug, PartialEq, Eq, Structural)]
pub enum PublicationStep {
    Published,
    Retry,
}

impl CultCacheTopologyDriver {
    /// What follows one attempt to exchange the store's content. After eight attempts
    /// that lost, publication is refused.
    pub fn mutate(attempts: u32, exchanged: bool) -> (outcome: Result<PublicationStep, Refusal>)
        ensures
            match outcome {
                Ok(PublicationStep::Published) => exchanged,
                Ok(PublicationStep::Retry) => !exchanged && attempts < 8,
                Err(refusal) => !exchanged && attempts >= 8 && refusal@
                    == "CultCache projection changed repeatedly during publication"@,
            },
    {
        if exchanged {
            Ok(PublicationStep::Published)
        } else if attempts < 8 {
            Ok(PublicationStep::Retry)
        } else {
            Err(refuse("CultCache projection changed repeatedly during publication"))
        }
    }

    /// The content that carries an expectation and its anchor. An activation or lease
    /// that is projected under the key is left exactly as it was published.
    pub fn publish_expected(
        &self,
        expected: &IdunnExpectedIncarnationRecord,
        provider_anchor: &ServiceIdentityTrustAnchor,
        contract: &PresenceContract,
        anchor_payload: &[u8],
        entries: &[CultCacheEnvelope],
        now: &str,
    ) -> (outcome: Result<Option<Vec<CultCacheEnvelope>>, Refusal>)
        ensures
            decides(
                outcome,
                publication(
                    cult_cache_envelope_views(entries@),
                    expected@,
                    provider_anchor@,
                    *contract,
                    anchor_payload@,
                    now@,
                ),
            ),
    {
        let ghost views = cult_cache_envelope_views(entries@);
        let anchor = runtime_presence_trust_anchor(expected, provider_anchor, contract)?;
        let document = AnchorDocument { record: anchor, payload: copy_bytes(anchor_payload) };
        let key = incarnation_key(expected);
        let expected_record = expected_envelope(expected, now);
        let anchor_record = anchor_envelope(&document)?;
        let current_expected = projection_entry(entries, &RecordType::Expected, key.as_str())?;
        let current_anchor = projection_entry(
            entries,
            &RecordType::Anchor,
            document.record.trust_anchor_id.as_str(),
        )?;
        let legacy = Self::has_legacy_slot(entries, expected.target.as_str());
        let kept = match current_expected {
            Some(i) => same_record(&entries[i], &expected_record),
            None => false,
        };
        let anchor_kept = match current_anchor {
            Some(i) => same_record(&entries[i], &anchor_record),
            None => false,
        };
        if !legacy && kept && anchor_kept {
            return Ok(None);
        }
        let removal = Removal {
            key,
            kind: Some(RecordType::Expected),
            anchor_id: Some(document.record.trust_anchor_id.clone()),
            legacy_target: Some(expected.target.clone()),
        };
        let mut content = without(entries, &removal);
        let published = match current_expected {
            Some(i) => if kept {
                copy_at(entries, i)
            } else {
                expected_record
            },
            None => expected_record,
        };
        push_envelope(&mut content, published);
        push_envelope(&mut content, anchor_record);
        Ok(Some(content))
    }

    /// Whether a store holds a record of the former projection of a target.
    pub fn has_legacy_slot(entries: &[CultCacheEnvelope], target: &str) -> (found: bool)
        ensures
            found == exists|i: int|
                0 <= i < cult_cache_envelope_views(entries@).len() && legacy_slot(
                    #[trigger] cult_cache_envelope_views(entries@)[i],
                    target@,
                ),
    {
        let ghost views = cult_cache_envelope_views(entries@);
        let mut i: usize = 0;
        while i < entries.len()
            invariant
                i <= entries@.len(),
                views == cult_cache_envelope_views(entries@),
                forall|j: int| 0 <= j < i ==> !legacy_slot(#[trigger] views[j], target@),
            decreases entries@.len() - i,
        {
            assert(views[i as int] == entries@[i as int]@);
            if Self::is_legacy_slot_record(&entries[i], target) {
                return true;
            }
            i += 1;
        }
        false
    }

    /// Whether a record has the shape of the former projection of a target.
    pub fn is_legacy_slot_record(envelope: &CultCacheEnvelope, target: &str) -> (is: bool)
        ensures
            is == legacy_slot(envelope@, target@),
    {
        is_incarnation_record_type(&envelope.record_type) && same_text(
            envelope.key.as_str(),
            target,
        )
    }

    /// The content without one incarnation's records. Other incarnations of the target,
    /// and its anchor while any remain, are untouched.
    pub fn withdraw_incarnation(
        &self,
        expected: &IdunnExpectedIncarnationRecord,
        provider_anchor: &ServiceIdentityTrustAnchor,
        contract: &PresenceContract,
        activation: Option<&IdunnRuntimeActivationRecord>,
        lease: Option<&IdunnProcessWriteLeaseRecord>,
        entries: &[CultCacheEnvelope],
    ) -> (outcome: Result<Option<Vec<CultCacheEnvelope>>, Refusal>)
        ensures
            decides(
                outcome,
                withdrawal(
                    cult_cache_envelope_views(entries@),
                    expected@,
                    provider_anchor@,
                    *contract,
                    activation_view(activation),
                    lease_view(lease),
                ),
            ),
    {
        let anchor = runtime_presence_trust_anchor(expected, provider_anchor, contract)?;
        if let Some(named) = activation {
            if !same_text(
                named.expected_projection_sha256.as_str(),
                expected.canonical_sha256.as_str(),
            ) || !same_text(named.runtime_id.as_str(), expected.runtime_id.as_str()) {
                return Err(
                    refuse("withdrawn activation does not bind the exact Expected projection"),
                );
            }
        }
        if let Some(named) = lease {
            match activation {
                None => return Err(refuse("withdrawn lease has no exact activation")),
                Some(bound) => validate_topology_lease(expected, bound, named)?,
            }
        }
        let key = incarnation_key(expected);
        let found = ProjectedIncarnation::read(entries, expected, activation, lease)?;
        let anchor_stays = other_incarnations_of(entries, expected.target.as_str(), key.as_str());
        let current_anchor = projection_entry(
            entries,
            &RecordType::Anchor,
            anchor.trust_anchor_id.as_str(),
        )?;
        check_anchor(
            entries,
            current_anchor,
            &anchor,
            "refusing to withdraw a substituted runtime presence trust anchor",
        )?;
        if found.expected.is_none() && found.activation.is_none() && found.lease.is_none() && (
        anchor_stays || current_anchor.is_none()) {
            return Ok(None);
        }
        let removal = Removal {
            key,
            kind: None,
            anchor_id: if anchor_stays {
                None
            } else {
                Some(anchor.trust_anchor_id.clone())
            },
            legacy_target: None,
        };
        Ok(Some(without(entries, &removal)))
    }

    /// The content that carries an activation whose process was observed. A prior
    /// activation under the key is replaced without comparison.
    pub fn publish_observed_activation(
        &self,
        expected: &IdunnExpectedIncarnationRecord,
        activation: &IdunnRuntimeActivationRecord,
        observation: &WorkloadObservation,
        entries: &[CultCacheEnvelope],
    ) -> (outcome: Result<Option<Vec<CultCacheEnvelope>>, Refusal>)
        ensures
            if observes(expected@, activation@, observation@) {
                decides(
                    outcome,
                    publishing_activation(
                        cult_cache_envelope_views(entries@),
                        expected@,
                        activation@,
                    ),
                )
            } else {
                outcome matches Err(refusal) && refusal@
                    == "observed activation does not name the Expected native process"@
            },
    {
        if !same_text(
            activation.expected_projection_sha256.as_str(),
            expected.canonical_sha256.as_str(),
        ) || !same_text(activation.runtime_instance_id.as_str(), observation.runtime_instance_id())
            || !same_text(observation.executable_sha256(), expected.artifact_sha256.as_str()) {
            return Err(refuse("observed activation does not name the Expected native process"));
        }
        let key = incarnation_key(expected);
        let current_expected = projection_entry(entries, &RecordType::Expected, key.as_str())?;
        if current_expected.is_none() {
            return Err(refuse("observed activation has no current Expected projection"));
        }
        check_expected(
            entries,
            current_expected,
            expected,
            "observed activation's Expected projection is substituted",
        )?;
        let record = activation_envelope(key.as_str(), activation)?;
        let current = projection_entry(entries, &RecordType::Activation, key.as_str())?;
        if let Some(i) = current {
            if same_record(&entries[i], &record) {
                return Ok(None);
            }
        }
        let removal = Removal {
            key,
            kind: Some(RecordType::Activation),
            anchor_id: None,
            legacy_target: None,
        };
        let mut content = without(entries, &removal);
        push_envelope(&mut content, record);
        Ok(Some(content))
    }

    /// The content that carries a process's write lease.
    pub fn publish_process_write_lease(
        &self,
        expected: &IdunnExpectedIncarnationRecord,
        activation: &IdunnRuntimeActivationRecord,
        lease: &IdunnProcessWriteLeaseRecord,
        contract: &PresenceContract,
        entries: &[CultCacheEnvelope],
    ) -> (outcome: Result<Option<Vec<CultCacheEnvelope>>, Refusal>)
        ensures
            match topology_lease_refusal(expected@, activation@, lease@) {
                Some(words) => outcome matches Err(refusal) && refusal@ == words,
                None => decides(
                    outcome,
                    publishing_lease(
                        cult_cache_envelope_views(entries@),
                        expected@,
                        activation@,
                        lease@,
                        contract.presence_schema@,
                        contract.presence_signing_purpose@,
                    ),
                ),
            },
    {
        validate_topology_lease(expected, activation, lease)?;
        let key = incarnation_key(expected);
        let anchor_id = runtime_presence_trust_anchor_id(expected.target.as_str());
        let found = ProjectedIncarnation::read(entries, expected, Some(activation), Some(lease))?;
        if found.expected.is_none() {
            return Err(refuse("process write lease has no current Expected projection"));
        }
        if found.activation.is_none() {
            return Err(refuse("process write lease has no observed activation projection"));
        }
        let anchor = match projection_entry(entries, &RecordType::Anchor, anchor_id.as_str())? {
            None => return Err(refuse("process write lease has no runtime presence trust anchor")),
            Some(i) => service_trust_anchor_from_envelope(&entries[i])?,
        };
        if !same_text(anchor.service_id.as_str(), expected.target.as_str()) || !same_text(
            anchor.runtime_id.as_str(),
            expected.runtime_id.as_str(),
        ) || !same_text(
            anchor.signer_identity_id.as_str(),
            expected.expected_signer_identity_id.as_str(),
        ) || !same_text(
            anchor.signing_purpose.as_str(),
            contract.presence_signing_purpose.as_str(),
        ) || !same_text(anchor.signed_schema.as_str(), contract.presence_schema.as_str()) {
            return Err(
                refuse("process write lease runtime presence trust anchor is substituted"),
            );
        }
        if found.lease.is_some() {
            return Ok(None);
        }
        let record = projected_lease(key.as_str(), lease)?;
        let mut content = crate::records::copy_cult_cache_envelope_list(entries);
        push_envelope(&mut content, record);
        Ok(Some(content))
    }

    /// The content without a process's write lease.
    pub fn withdraw_process_write_lease(
        &self,
        expected: &IdunnExpectedIncarnationRecord,
        activation: &IdunnRuntimeActivationRecord,
        lease: Option<&IdunnProcessWriteLeaseRecord>,
        entries: &[CultCacheEnvelope],
    ) -> (outcome: Result<Option<Vec<CultCacheEnvelope>>, Refusal>)
        ensures
            match (match lease {
                Some(named) => topology_lease_refusal(expected@, activation@, named@),
                None => None,
            }) {
                Some(words) => outcome matches Err(refusal) && refusal@ == words,
                None => decides(
                    outcome,
                    withdrawing_lease(
                        cult_cache_envelope_views(entries@),
                        expected@,
                        lease_view(lease),
                    ),
                ),
            },
    {
        if let Some(named) = lease {
            validate_topology_lease(expected, activation, named)?;
        }
        let key = incarnation_key(expected);
        let current = projection_entry(entries, &RecordType::Lease, key.as_str())?;
        if current.is_none() {
            return Ok(None);
        }
        check_lease(
            entries,
            current,
            lease,
            "refusing to withdraw an unexpected process write-lease projection",
        )?;
        let removal = Removal {
            key,
            kind: Some(RecordType::Lease),
            anchor_id: None,
            legacy_target: None,
        };
        Ok(Some(without(entries, &removal)))
    }

    /// The content in which an incarnation whose process is gone is expected and
    /// nothing more. It says nothing about any other incarnation of the target.
    pub fn demote_to_expected_only(
        &self,
        expected: &IdunnExpectedIncarnationRecord,
        provider_anchor: &ServiceIdentityTrustAnchor,
        contract: &PresenceContract,
        anchor_payload: &[u8],
        activation: &IdunnRuntimeActivationRecord,
        lease: Option<&IdunnProcessWriteLeaseRecord>,
        entries: &[CultCacheEnvelope],
        now: &str,
    ) -> (outcome: Result<Option<Vec<CultCacheEnvelope>>, Refusal>)
        ensures
            decides(
                outcome,
                demotion(
                    cult_cache_envelope_views(entries@),
                    expected@,
                    provider_anchor@,
                    *contract,
                    anchor_payload@,
                    activation@,
                    lease_view(lease),
                    now@,
                ),
            ),
    {
        if !same_text(
            activation.expected_projection_sha256.as_str(),
            expected.canonical_sha256.as_str(),
        ) {
            return Err(
                refuse("admitted activation does not bind the admitted Expected projection"),
            );
        }
        if let Some(named) = lease {
            validate_topology_lease(expected, activation, named)?;
        }
        let anchor = runtime_presence_trust_anchor(expected, provider_anchor, contract)?;
        let document = AnchorDocument { record: anchor, payload: copy_bytes(anchor_payload) };
        let key = incarnation_key(expected);
        let found = ProjectedIncarnation::read(entries, expected, Some(activation), lease)?;
        let current_anchor = projection_entry(
            entries,
            &RecordType::Anchor,
            document.record.trust_anchor_id.as_str(),
        )?;
        check_anchor(
            entries,
            current_anchor,
            &document.record,
            "refusing to replace an unknown runtime presence trust anchor",
        )?;
        if found.expected.is_some() && current_anchor.is_some() && found.activation.is_none()
            && found.lease.is_none() {
            return Ok(None);
        }
        let removal = Removal {
            key,
            kind: None,
            anchor_id: Some(document.record.trust_anchor_id.clone()),
            legacy_target: None,
        };
        let mut content = without(entries, &removal);
        match found.expected {
            Some(i) => push_envelope(&mut content, copy_at(entries, i)),
            None => push_envelope(&mut content, expected_envelope(expected, now)),
        }
        match current_anchor {
            Some(i) => push_envelope(&mut content, copy_at(entries, i)),
            None => push_envelope(&mut content, anchor_envelope(&document)?),
        }
        Ok(Some(content))
    }

    /// Whether the projection names an activation for an incarnation.
    pub fn projected_activation_is_present(
        &self,
        expected: &IdunnExpectedIncarnationRecord,
        entries: &[CultCacheEnvelope],
    ) -> (outcome: Result<bool, Refusal>)
        ensures
            match entry_of(
                cult_cache_envelope_views(entries@),
                RecordTypeView::Activation,
                key_of(expected@),
            ) {
                Ok(found) => outcome == Ok::<bool, Refusal>(found is Some),
                Err(words) => outcome matches Err(refusal) && refusal@ == words,
            },
    {
        let key = incarnation_key(expected);
        let found = projection_entry(entries, &RecordType::Activation, key.as_str())?;
        Ok(found.is_some())
    }

    /// Every incarnation projected for one target, by its expectation.
    pub fn projected_incarnations(&self, target: &str, entries: &[CultCacheEnvelope]) -> (outcome:
        Result<Vec<IdunnExpectedIncarnationRecord>, Refusal>)
        ensures
            match (outcome, incarnations_of(cult_cache_envelope_views(entries@), target@)) {
                (Ok(list), Ok(views)) => list@.len() == views.len() && forall|i: int|
                    0 <= i < list@.len() ==> (#[trigger] list@[i])@ == views[i],
                (Err(refusal), Err(words)) => refusal@ == words,
                _ => false,
            },
    {
        let ghost views = cult_cache_envelope_views(entries@);
        let mut list: Vec<IdunnExpectedIncarnationRecord> = Vec::new();
        let mut i: usize = 0;
        while i < entries.len()
            invariant
                i <= entries@.len(),
                views == cult_cache_envelope_views(entries@),
                incarnations_of(views.take(i as int), target@) matches Ok(found)
                    && list@.len() == found.len() && forall|j: int|
                    0 <= j < list@.len() ==> (#[trigger] list@[j])@ == found[j],
            decreases entries@.len() - i,
        {
            let e = &entries[i];
            assert(views.take(i + 1).drop_last() =~= views.take(i as int));
            assert(views.take(i + 1).last() == e@);
            let expected_type = matches!(e.record_type, RecordType::Expected);
            let expected_schema = matches!(e.schema_id, RecordSchema::Expected);
            let owned = match split_once(e.key.as_str(), '@') {
                Some((owner, _)) => same_text(owner.as_str(), target),
                None => false,
            };
            assert(owned == owned_by(e@, target@));
            if expected_type && expected_schema && owned {
                match e.expected() {
                    Err(refusal) => {
                        proof {
                            lemma_incarnations_error(views, target@, i + 1);
                        }
                        return Err(refusal);
                    },
                    Ok(record) => {
                        let key = incarnation_key(&record);
                        if same_text(key.as_str(), e.key.as_str()) {
                            list.push(record);
                        }
                    },
                }
            }
            i += 1;
        }
        assert(views.take(i as int) =~= views);
        Ok(list)
    }

    /// The content without an incarnation that nothing owns any more. No record under
    /// the key is compared: a stale incarnation is stale whatever it carries.
    pub fn withdraw_stale_incarnation(
        &self,
        expected: &IdunnExpectedIncarnationRecord,
        provider_anchor: &ServiceIdentityTrustAnchor,
        contract: &PresenceContract,
        entries: &[CultCacheEnvelope],
    ) -> (outcome: Result<Option<Vec<CultCacheEnvelope>>, Refusal>)
        ensures
            decides(
                outcome,
                stale_withdrawal(
                    cult_cache_envelope_views(entries@),
                    expected@,
                    provider_anchor@,
                    *contract,
                ),
            ),
    {
        let anchor = runtime_presence_trust_anchor(expected, provider_anchor, contract)?;
        let ghost views = cult_cache_envelope_views(entries@);
        let key = incarnation_key(expected);
        let mut present = false;
        let mut i: usize = 0;
        while i < entries.len()
            invariant
                i <= entries@.len(),
                views == cult_cache_envelope_views(entries@),
                key@ == key_of(expected@),
                present == exists|j: int| 0 <= j < i && (#[trigger] views[j]).key == key@,
            decreases entries@.len() - i,
        {
            assert(views[i as int] == entries@[i as int]@);
            if same_text(entries[i].key.as_str(), key.as_str()) {
                present = true;
                assert(views[i as int].key == key@);
            }
            i += 1;
        }
        if !present {
            return Ok(None);
        }
        let anchor_stays = other_incarnations_of(entries, expected.target.as_str(), key.as_str());
        let removal = Removal {
            key,
            kind: None,
            anchor_id: if anchor_stays {
                None
            } else {
                Some(anchor.trust_anchor_id.clone())
            },
            legacy_target: None,
        };
        Ok(Some(without(entries, &removal)))
    }

    /// Whether the projection carries an expectation and its anchor already. It says
    /// nothing about the activation.
    pub fn admitted_expected_projection_is_exact(
        &self,
        expected: &IdunnExpectedIncarnationRecord,
        provider_anchor: &ServiceIdentityTrustAnchor,
        contract: &PresenceContract,
        entries: &[CultCacheEnvelope],
    ) -> (outcome: Result<bool, Refusal>)
        ensures
            answers(
                outcome,
                admitted_expected(
                    cult_cache_envelope_views(entries@),
                    expected@,
                    provider_anchor@,
                    *contract,
                ),
            ),
    {
        let anchor = runtime_presence_trust_anchor(expected, provider_anchor, contract)?;
        let key = incarnation_key(expected);
        let expected_is_exact = match projection_entry(
            entries,
            &RecordType::Expected,
            key.as_str(),
        )? {
            Some(i) => {
                let e = &entries[i];
                let expected_schema = matches!(e.schema_id, RecordSchema::Expected);
                if expected_schema {
                    let record = e.expected()?;
                    record.same(expected)
                } else {
                    false
                }
            },
            None => false,
        };
        let anchor_is_exact = match projection_entry(
            entries,
            &RecordType::Anchor,
            anchor.trust_anchor_id.as_str(),
        )? {
            Some(i) => {
                let record = service_trust_anchor_from_envelope(&entries[i])?;
                record.same(&anchor)
            },
            None => false,
        };
        Ok(expected_is_exact && anchor_is_exact)
    }

    /// Whether the projection carries an incarnation's expectation, anchor, activation
    /// and lease already; a record that was replaced is refused.
    pub fn admitted_runtime_projection_is_exact(
        &self,
        expected: &IdunnExpectedIncarnationRecord,
        provider_anchor: &ServiceIdentityTrustAnchor,
        contract: &PresenceContract,
        activation: &IdunnRuntimeActivationRecord,
        lease: Option<&IdunnProcessWriteLeaseRecord>,
        entries: &[CultCacheEnvelope],
    ) -> (outcome: Result<bool, Refusal>)
        ensures
            answers(
                outcome,
                admitted_runtime(
                    cult_cache_envelope_views(entries@),
                    expected@,
                    provider_anchor@,
                    *contract,
                    activation@,
                    lease_view(lease),
                ),
            ),
    {
        if !same_text(
            activation.expected_projection_sha256.as_str(),
            expected.canonical_sha256.as_str(),
        ) {
            return Err(refuse("admitted activation does not bind its Expected projection"));
        }
        if let Some(named) = lease {
            validate_topology_lease(expected, activation, named)?;
        }
        let anchor = runtime_presence_trust_anchor(expected, provider_anchor, contract)?;
        let found = match ProjectedIncarnation::read(entries, expected, Some(activation), lease) {
            Ok(found) => found,
            Err(cause) => {
                return Err(refuse_behind("admitted runtime projection was replaced", &cause));
            },
        };
        let current_anchor = projection_entry(
            entries,
            &RecordType::Anchor,
            anchor.trust_anchor_id.as_str(),
        )?;
        check_anchor(
            entries,
            current_anchor,
            &anchor,
            "admitted runtime presence trust anchor was replaced",
        )?;
        Ok(
            found.expected.is_some() && current_anchor.is_some() && found.activation.is_some()
                && found.lease.is_some() == lease.is_some(),
        )
    }

    /// Odin's correlation of one exact incarnation. A correlation of another
    /// incarnation of the same target is never returned for it.
    pub fn receive(&self, target: &str, expected_sha256: &str, entries: &[CultCacheEnvelope]) -> (
        outcome: Result<Option<ReceivedOdinTopologyCorrelation>, Refusal>)
        ensures
            match (
                outcome,
                receiving(target@, expected_sha256@, cult_cache_envelope_views(entries@)),
            ) {
                (Ok(Some(received)), Ok(Some(bytes))) => received.target@ == target@
                    && received.expected_sha256@ == expected_sha256@
                    && received.canonical_bytes@ == bytes,
                (Ok(None), Ok(None)) => true,
                (Err(refusal), Err(words)) => refusal@ == words,
                _ => false,
            },
    {
        require_driver_id(target, "topology target")?;
        let key = incarnation_key_of(target, expected_sha256);
        match projection_entry(entries, &RecordType::Correlation, key.as_str()) {
            Err(_) => Err(refuse("Odin topology correlation is ambiguous")),
            Ok(None) => Ok(None),
            Ok(Some(i)) => {
                let e = &entries[i];
                let correlation_schema = matches!(e.schema_id, RecordSchema::Correlation);
                if !correlation_schema {
                    return Err(refuse("Odin topology correlation schema is foreign"));
                }
                Ok(
                    Some(
                        ReceivedOdinTopologyCorrelation {
                            target: target.to_owned(),
                            expected_sha256: expected_sha256.to_owned(),
                            canonical_bytes: copy_bytes(e.payload.as_slice()),
                        },
                    ),
                )
            },
        }
    }
}

/// Whether an answer is the one that is owed.
pub open spec fn answers(outcome: Result<bool, Refusal>, owed: Result<bool, Seq<char>>) -> bool {
    match owed {
        Ok(answer) => outcome == Ok::<bool, Refusal>(answer),
        Err(words) => outcome matches Err(refusal) && refusal@ == words,
    }
}

/// Why a withdrawal's records do not belong together, if so.
pub open spec fn withdrawal_refusal(
    expected: IdunnExpectedIncarnationRecordView,
    activation: Option<IdunnRuntimeActivationRecordView>,
    lease: Option<IdunnProcessWriteLeaseRecordView>,
) -> Option<Seq<char>> {
    if activation is Some && (activation->0.expected_projection_sha256 != expected.canonical_sha256
        || activation->0.runtime_id != expected.runtime_id) {
        Some("withdrawn activation does not bind the exact Expected projection"@)
    } else if lease is Some && activation is None {
        Some("withdrawn lease has no exact activation"@)
    } else if lease is Some {
        topology_lease_refusal(expected, activation->0, lease->0)
    } else {
        None
    }
}

/// Why an admitted incarnation's records do not belong together, if so.
pub open spec fn admission_refusal(
    expected: IdunnExpectedIncarnationRecordView,
    activation: IdunnRuntimeActivationRecordView,
    lease: Option<IdunnProcessWriteLeaseRecordView>,
    words: Seq<char>,
) -> Option<Seq<char>> {
    if activation.expected_projection_sha256 != expected.canonical_sha256 {
        Some(words)
    } else {
        match lease {
            Some(named) => topology_lease_refusal(expected, activation, named),
            None => None,
        }
    }
}

/// Whether an observation is of the activated process of an expectation.
pub open spec fn observes(
    expected: IdunnExpectedIncarnationRecordView,
    activation: IdunnRuntimeActivationRecordView,
    observation: crate::observation::WorkloadObservationView,
) -> bool {
    let (instance, executable) = match observation {
        crate::observation::WorkloadObservationView::Systemd(o) => (
            o.runtime_instance_id,
            o.executable_sha256,
        ),
        crate::observation::WorkloadObservationView::Host(o) => (
            o.runtime_instance_id,
            o.executable_sha256,
        ),
    };
    &&& activation.expected_projection_sha256 == expected.canonical_sha256
    &&& activation.runtime_instance_id == instance
    &&& executable == expected.artifact_sha256
}

/// Whether an expectation and its anchor are projected exactly.
pub open spec fn expected_projection_exact(
    entries: Seq<CultCacheEnvelopeView>,
    expected: IdunnExpectedIncarnationRecordView,
    anchor: GameCultServiceTrustAnchorRecordView,
) -> Result<bool, Seq<char>> {
    let expected_exact: Result<bool, Seq<char>> = match entry_of(
        entries,
        RecordTypeView::Expected,
        key_of(expected),
    ) {
        Err(words) => Err(words),
        Ok(None) => Ok(false),
        Ok(Some(e)) => if e.schema_id != RecordSchemaView::Expected {
            Ok(false)
        } else {
            match read_expected(e.document) {
                Err(words) => Err(words),
                Ok(record) => Ok(record == expected),
            }
        },
    };
    let anchor_exact: Result<bool, Seq<char>> = match entry_of(
        entries,
        RecordTypeView::Anchor,
        anchor.trust_anchor_id,
    ) {
        Err(words) => Err(words),
        Ok(None) => Ok(false),
        Ok(Some(e)) => match anchor_in(e) {
            Err(words) => Err(words),
            Ok(record) => Ok(record == anchor),
        },
    };
    match (expected_exact, anchor_exact) {
        (Err(words), _) => Err(words),
        (_, Err(words)) => Err(words),
        (Ok(a), Ok(b)) => Ok(a && b),
    }
}

/// Whether an incarnation's runtime records are projected exactly.
pub open spec fn runtime_projection_exact(
    entries: Seq<CultCacheEnvelopeView>,
    expected: IdunnExpectedIncarnationRecordView,
    anchor: GameCultServiceTrustAnchorRecordView,
    activation: IdunnRuntimeActivationRecordView,
    lease: Option<IdunnProcessWriteLeaseRecordView>,
) -> Result<bool, Seq<char>> {
    match projected(entries, expected, Some(activation), lease) {
        Err(cause) => Err(behind("admitted runtime projection was replaced"@, cause)),
        Ok(found) => match entry_of(entries, RecordTypeView::Anchor, anchor.trust_anchor_id) {
            Err(words) => Err(words),
            Ok(current_anchor) => match anchor_refusal(
                current_anchor,
                anchor,
                "admitted runtime presence trust anchor was replaced"@,
            ) {
                Some(words) => Err(words),
                None => Ok(
                    found.expected is Some && current_anchor is Some && found.activation is Some
                        && (found.lease is Some <==> lease is Some),
                ),
            },
        },
    }
}

/// The bytes of Odin's correlation of one incarnation.
pub open spec fn receiving(
    target: Seq<char>,
    expected_sha256: Seq<char>,
    entries: Seq<CultCacheEnvelopeView>,
) -> Result<Option<Seq<u8>>, Seq<char>> {
    match driver_id_refusal(target, "topology target"@) {
        Some(words) => Err(words),
        None => match entry_of(
            entries,
            RecordTypeView::Correlation,
            incarnation_key_text(target, expected_sha256),
        ) {
            Err(_) => Err("Odin topology correlation is ambiguous"@),
            Ok(None) => Ok(None),
            Ok(Some(e)) => if e.schema_id != RecordSchemaView::Correlation {
                Err("Odin topology correlation schema is foreign"@)
            } else {
                Ok(Some(e.payload))
            },
        },
    }
}

proof fn lemma_incarnations_error(entries: Seq<CultCacheEnvelopeView>, target: Seq<char>, n: int)
    requires
        0 <= n <= entries.len(),
        incarnations_of(entries.take(n), target) is Err,
    ensures
        incarnations_of(entries, target) == incarnations_of(entries.take(n), target),
    decreases entries.len() - n,
{
    if n < entries.len() {
        assert(entries.take(n + 1).drop_last() =~= entries.take(n));
        lemma_incarnations_error(entries, target, n + 1);
    } else {
        assert(entries.take(n) =~= entries);
    }
}

} // verus!
