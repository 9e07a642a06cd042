//! The two records that a launched workload reads at its start, and how a record is put
//! into a store that may already hold one.
use vstd::prelude::*;

use crate::clock::{instant_text, rfc3339_millis};
use crate::paths::{join, joined};
use crate::records::{
    reads, CultCacheEnvelope, CultCacheEnvelopeView, Document, DocumentView,
    IdunnExpectedIncarnationRecord, IdunnExpectedIncarnationRecordView,
    IdunnRuntimeActivationRecord, IdunnRuntimeActivationRecordView, RecordSchema,
    RecordSchemaView, RecordType, RecordTypeView,
};
use crate::text::{cat3, copy_bytes, refuse, same_bytes, same_text, Refusal};
use crate::topology::{activation_envelope, activation_envelope_view};

verus! {

/// The expectation as a bundle holds it, or why it cannot be written.
pub open spec fn bundled_expectation(
    expected: IdunnExpectedIncarnationRecordView,
    activation: IdunnRuntimeActivationRecordView,
) -> Result<CultCacheEnvelopeView, Seq<char>> {
    match instant_text(activation.issued_at_unix_millis as int) {
        Err(w) => Err(w),
        Ok(stored_at) => Ok(
            CultCacheEnvelopeView {
                key: expected.target,
                record_type: RecordTypeView::Expected,
                payload: expected.canonical_bytes,
                stored_at,
                schema_id: RecordSchemaView::Expected,
                document: DocumentView::Expected(expected),
            },
        ),
    }
}

/// The record that `expected.cc` of a bundle holds.
pub fn bundle_expectation(
    expected: &IdunnExpectedIncarnationRecord,
    activation: &IdunnRuntimeActivationRecord,
) -> (outcome: Result<CultCacheEnvelope, Refusal>)
    ensures
        reads(outcome, bundled_expectation(expected@, activation@)),
{
    let stored_at = rfc3339_millis(activation.issued_at_unix_millis)?;
    Ok(
        CultCacheEnvelope {
            key: expected.target.clone(),
            record_type: RecordType::Expected,
            payload: copy_bytes(expected.canonical_bytes.as_slice()),
            stored_at,
            schema_id: RecordSchema::Expected,
            document: Document::Expected(expected.copy()),
        },
    )
}

/// The record that `activation.cc` of a bundle holds.
pub fn bundle_activation(
    expected: &IdunnExpectedIncarnationRecord,
    activation: &IdunnRuntimeActivationRecord,
) -> (outcome: Result<CultCacheEnvelope, Refusal>)
    ensures
        reads(outcome, activation_envelope_view(expected@.target, activation@)),
{
    activation_envelope(expected.target.as_str(), activation)
}

/// Where a bundle's expectation is kept.
pub fn expectation_place(bundle: &str) -> (place: String)
    ensures
        place@ == joined(bundle@, "expected.cc"@),
{
    join(bundle, "expected.cc")
}

/// Where a bundle's activation is kept.
pub fn activation_place(bundle: &str) -> (place: String)
    ensures
        place@ == joined(bundle@, "activation.cc"@),
{
    join(bundle, "activation.cc")
}

/// Whether two entries of a store are the same, the time at which they were stored with
/// them.
pub open spec fn same_entry(a: CultCacheEnvelopeView, b: CultCacheEnvelopeView) -> bool {
    &&& a.key == b.key
    &&& a.record_type == b.record_type
    &&& a.payload == b.payload
    &&& a.stored_at == b.stored_at
    &&& a.schema_id == b.schema_id
}

fn is_same_entry(a: &CultCacheEnvelope, b: &CultCacheEnvelope) -> (same: bool)
    ensures
        same == same_entry(a@, b@),
{
    let keys = same_text(a.key.as_str(), b.key.as_str());
    let types = a.record_type.same(&b.record_type);
    let payloads = same_bytes(a.payload.as_slice(), b.payload.as_slice());
    let times = same_text(a.stored_at.as_str(), b.stored_at.as_str());
    let schemas = a.schema_id.same(&b.schema_id);
    keys && types && payloads && times && schemas
}

/// What is to be done about a record in a store.
#[derive(Clone, Copy, Debug, PartialEq, Eq, Structural)]
pub enum StoreStep {
    Nothing,
    Write,
}

/// Decides how a record that never changes gets into its store: it is written once, and
/// anything else that stands there is refused.
pub fn write_immutable_record(
    path: &str,
    entries: &[CultCacheEnvelope],
    envelope: &CultCacheEnvelope,
) -> (outcome: Result<StoreStep, Refusal>)
    ensures
        crate::procfs::comes_to(
            outcome,
            if entries@.len() == 0 {
                Ok(StoreStep::Write)
            } else if entries@.len() == 1 && same_entry(entries@[0]@, envelope@) {
                Ok(StoreStep::Nothing)
            } else {
                Err("immutable runtime document "@ + path@ + " already differs"@)
            },
        ),
{
    if entries.len() == 0 {
        return Ok(StoreStep::Write);
    }
    if entries.len() == 1 && is_same_entry(&entries[0], envelope) {
        return Ok(StoreStep::Nothing);
    }
    Err(Refusal { text: cat3("immutable runtime document ", path, " already differs") })
}

/// Whether an entry has the identity of another.
pub open spec fn same_identity(a: CultCacheEnvelopeView, b: CultCacheEnvelopeView) -> bool {
    a.record_type == b.record_type && a.key == b.key
}

/// How many of the first entries have an identity.
pub open spec fn count_of(entries: Seq<CultCacheEnvelope>, one: CultCacheEnvelopeView) -> nat
    decreases entries.len(),
{
    if entries.len() == 0 {
        0
    } else {
        count_of(entries.drop_last(), one) + (if same_identity(entries.last()@, one) {
            1nat
        } else {
            0nat
        })
    }
}

/// Whether an entry of a list is the first with an identity.
pub open spec fn first_with(
    entries: Seq<CultCacheEnvelope>,
    one: CultCacheEnvelopeView,
    i: int,
) -> bool {
    &&& 0 <= i < entries.len()
    &&& same_identity(entries[i]@, one)
    &&& forall|j: int| 0 <= j < i ==> !same_identity((#[trigger] entries[j])@, one)
}

/// What is exchanged to put a record into a store: the place of the entry that it
/// replaces, if there is one. A record that is already there needs no exchange, and two of
/// its identity are refused.
#[derive(Clone, Copy, Debug, PartialEq, Eq, Structural)]
pub enum UpsertStep {
    Nothing,
    Insert,
    Replace { place: usize },
}

/// Decides how a record is put into a store.
pub fn upsert_record(entries: &[CultCacheEnvelope], replacement: &CultCacheEnvelope) -> (outcome:
    Result<UpsertStep, Refusal>)
    ensures
        match outcome {
            Err(refusal) => count_of(entries@, replacement@) > 1 && refusal@
                == "CultCache projection identity is ambiguous"@,
            Ok(UpsertStep::Insert) => count_of(entries@, replacement@) == 0,
            Ok(UpsertStep::Nothing) => count_of(entries@, replacement@) == 1 && exists|i: int|
                first_with(entries@, replacement@, i) && same_entry(
                    (#[trigger] entries@[i])@,
                    replacement@,
                ),
            Ok(UpsertStep::Replace { place }) => count_of(entries@, replacement@) == 1
                && first_with(entries@, replacement@, place as int) && !same_entry(
                entries@[place as int]@,
                replacement@,
            ),
        },
{
    let mut found: Option<usize> = None;
    let mut i: usize = 0;
    assert(entries@.take(0) =~= Seq::<CultCacheEnvelope>::empty());
    while i < entries.len()
        invariant
            i <= entries@.len(),
            count_of(entries@.take(i as int), replacement@) == (if found is Some {
                1nat
            } else {
                0nat
            }),
            match found {
                Some(place) => first_with(entries@, replacement@, place as int) && place < i,
                None => forall|j: int|
                    0 <= j < i ==> !same_identity((#[trigger] entries@[j])@, replacement@),
            },
        decreases entries@.len() - i,
    {
        proof {
            assert(entries@.take(i + 1).drop_last() =~= entries@.take(i as int));
            assert(entries@.take(i + 1).last() == entries@[i as int]);
        }
        let same_type = entries[i].record_type.same(&replacement.record_type);
        let same_key = same_text(entries[i].key.as_str(), replacement.key.as_str());
        if same_type && same_key {
            if found.is_some() {
                proof {
                    lemma_count_grows(entries@, replacement@, i + 1);
                }
                return Err(refuse("CultCache projection identity is ambiguous"));
            }
            found = Some(i);
        }
        i += 1;
    }
    assert(entries@.take(i as int) =~= entries@);
    match found {
        None => Ok(UpsertStep::Insert),
        Some(place) => if is_same_entry(&entries[place], replacement) {
            assert(first_with(entries@, replacement@, place as int));
            Ok(UpsertStep::Nothing)
        } else {
            Ok(UpsertStep::Replace { place })
        },
    }
}

proof fn lemma_count_grows(entries: Seq<CultCacheEnvelope>, one: CultCacheEnvelopeView, n: int)
    requires
        0 <= n <= entries.len(),
    ensures
        count_of(entries.take(n), one) <= count_of(entries, one),
    decreases entries.len() - n,
{
    if n < entries.len() {
        assert(entries.take(n + 1).drop_last() =~= entries.take(n));
        lemma_count_grows(entries, one, n + 1);
    } else {
        assert(entries.take(n) =~= entries);
    }
}

/// How often an exchange that lost a race is tried again.
pub const UPSERT_ATTEMPTS: u32 = 8;

/// Settles an exchange: one that lost the race is tried again, a bounded number of times.
pub fn settle_upsert(attempt: u32, exchanged: bool) -> (outcome: Result<bool, Refusal>)
    ensures
        crate::procfs::comes_to(
            outcome,
            if exchanged {
                Ok(true)
            } else if attempt + 1 < UPSERT_ATTEMPTS {
                Ok(false)
            } else {
                Err("CultCache projection changed too often to publish"@)
            },
        ),
{
    if exchanged {
        Ok(true)
    } else if attempt < UPSERT_ATTEMPTS - 1 {
        Ok(false)
    } else {
        Err(refuse("CultCache projection changed too often to publish"))
    }
}

} // verus!
