//! What holds of the topology projection as a whole.
use vstd::prelude::*;

use crate::digest::driver_name;
use crate::listing::{lemma_filter_all, lemma_filter_gone, lemma_filter_inner, lemma_filter_push};
use crate::records::{
    read_expected, CultCacheEnvelopeView, GameCultServiceTrustAnchorRecordView,
    IdunnExpectedIncarnationRecordView, IdunnProcessWriteLeaseRecordView,
    IdunnRuntimeActivationRecordView, RecordSchemaView, RecordTypeView,
    ServiceIdentityTrustAnchorView,
};
use crate::scan::{alphanumeric, cut_first, lemma_cut_first, stands_first};
use crate::topology::{
    admitted_runtime, anchor_id_text, anchor_in, demoting_removes, demotion, entry_of,
    has_other_incarnation, incarnation_key_text, incarnation_type, is_other_incarnation, key_of,
    leaves, legacy_slot, named, one_kind_removes, presence_anchor, projected, publication,
    publishing_activation, publishing_lease, publishing_removes, receiving, stale_withdrawal,
    stays, topology_lease_refusal, withdrawal, withdrawing_lease, withdrawing_removes, Decision,
    PresenceContract, RemovalView,
};

verus! {

/// What a store holds after a decision: what was decided, or what it held where nothing was
/// to be done or the decision is a refusal.
pub open spec fn after(
    entries: Seq<CultCacheEnvelopeView>,
    decision: Decision,
) -> Seq<CultCacheEnvelopeView> {
    match decision {
        Ok(Some(content)) => content,
        _ => entries,
    }
}

/// The records that are neither under an incarnation's key nor its target's anchor.
pub open spec fn beside(
    expected: IdunnExpectedIncarnationRecordView,
) -> spec_fn(CultCacheEnvelopeView) -> bool {
    |e: CultCacheEnvelopeView|
        e.key != key_of(expected) && !(e.record_type == RecordTypeView::Anchor && e.key
            == anchor_id_text(expected.target))
}

/// The records that are neither an incarnation's expectation, nor its target's anchor, nor of
/// the former projection of the target.
pub open spec fn beside_publication(
    expected: IdunnExpectedIncarnationRecordView,
) -> spec_fn(CultCacheEnvelopeView) -> bool {
    |e: CultCacheEnvelopeView|
        !(e.record_type == RecordTypeView::Expected && e.key == key_of(expected)) && !(
        e.record_type == RecordTypeView::Anchor && e.key == anchor_id_text(expected.target))
            && !legacy_slot(e, expected.target)
}

/// Whether a store that holds an anchor of the target holds this one.
pub open spec fn anchors_as(
    entries: Seq<CultCacheEnvelopeView>,
    anchor: GameCultServiceTrustAnchorRecordView,
) -> bool {
    entry_of(entries, RecordTypeView::Anchor, anchor.trust_anchor_id) matches Ok(Some(e))
        ==> anchor_in(e) == Ok::<GameCultServiceTrustAnchorRecordView, Seq<char>>(anchor)
}

proof fn lemma_key_shape(target: Seq<char>, sha: Seq<char>)
    ensures
        incarnation_key_text(target, sha).len() == target.len() + 1 + sha.len(),
        incarnation_key_text(target, sha)[target.len() as int] == '@',
        incarnation_key_text(target, sha).take(target.len() as int) == target,
        incarnation_key_text(target, sha).skip(target.len() as int + 1) == sha,
{
    reveal_strlit("@");
    let key = incarnation_key_text(target, sha);
    assert(key.take(target.len() as int) =~= target);
    assert(key.skip(target.len() as int + 1) =~= sha);
}

proof fn lemma_driver_name_plain(target: Seq<char>)
    requires
        driver_name(target),
    ensures
        !target.contains('@'),
{
    assert forall|i: int| 0 <= i < target.len() implies target[i] != '@' by {
        let kind = |c: char| alphanumeric(c) || c == '.' || c == '_' || c == '-';
        assert(kind(target[i]));
    }
}

proof fn lemma_key_owner(target: Seq<char>, sha: Seq<char>)
    requires
        !target.contains('@'),
    ensures
        cut_first(incarnation_key_text(target, sha), '@') == Some((target, sha)),
{
    let key = incarnation_key_text(target, sha);
    lemma_key_shape(target, sha);
    let n = target.len() as int;
    assert forall|j: int| 0 <= j < n implies key[j] != '@' by {
        assert(key.take(n)[j] == target[j]);
        assert(target.contains(target[j]));
    }
    assert(stands_first(key, '@', n));
    lemma_cut_first(key, '@', n);
}

/// One key names one incarnation: two incarnations that share a key are of the same target
/// and the same expectation, since no target's name holds the character that ends it.
pub proof fn an_incarnation_key_names_one_incarnation(
    target: Seq<char>,
    sha: Seq<char>,
    other_target: Seq<char>,
    other_sha: Seq<char>,
)
    requires
        !target.contains('@'),
        !other_target.contains('@'),
        incarnation_key_text(target, sha) == incarnation_key_text(other_target, other_sha),
    ensures
        target == other_target,
        sha == other_sha,
{
    lemma_key_owner(target, sha);
    lemma_key_owner(other_target, other_sha);
}

/// A correlation is returned only for the incarnation whose key it stands under.
pub proof fn a_correlation_is_of_its_own_incarnation(
    target: Seq<char>,
    sha: Seq<char>,
    entries: Seq<CultCacheEnvelopeView>,
    other_target: Seq<char>,
    other_sha: Seq<char>,
)
    requires
        !other_target.contains('@'),
    ensures
        receiving(target, sha, entries) matches Ok(Some(bytes)) ==> exists|i: int|
            {
                &&& 0 <= i < entries.len()
                &&& (#[trigger] entries[i]).record_type == RecordTypeView::Correlation
                &&& entries[i].payload == bytes
                &&& entries[i].key == incarnation_key_text(target, sha)
                &&& entries[i].key == incarnation_key_text(other_target, other_sha)
                    ==> other_target == target && other_sha == sha
            },
{
    if let Ok(Some(bytes)) = receiving(target, sha, entries) {
        let key = incarnation_key_text(target, sha);
        let pred = named(RecordTypeView::Correlation, key);
        let found = entries.filter(pred);
        assert(found.contains(found[0]));
        entries.lemma_filter_contains_rev(pred, found[0]);
        let i = choose|i: int| 0 <= i < entries.len() && entries[i] == found[0];
        entries.lemma_filter_pred(pred, 0);
        assert(pred(found[0]));
        if key == incarnation_key_text(other_target, other_sha) {
            lemma_driver_name_plain(target);
            an_incarnation_key_names_one_incarnation(target, sha, other_target, other_sha);
        }
        assert(entries[i].payload == bytes);
    }
}

proof fn lemma_entry_none(
    entries: Seq<CultCacheEnvelopeView>,
    kind: RecordTypeView,
    key: Seq<char>,
)
    requires
        entry_of(entries, kind, key) == Ok::<Option<CultCacheEnvelopeView>, Seq<char>>(None),
    ensures
        forall|i: int|
            0 <= i < entries.len() ==> !((#[trigger] entries[i]).record_type == kind
                && entries[i].key == key),
{
    let pred = named(kind, key);
    assert forall|i: int| 0 <= i < entries.len() implies !((#[trigger] entries[i]).record_type
        == kind && entries[i].key == key) by {
        if pred(entries[i]) {
            entries.lemma_filter_contains(pred, i);
        }
    }
}

proof fn lemma_entry_some(
    entries: Seq<CultCacheEnvelopeView>,
    kind: RecordTypeView,
    key: Seq<char>,
    e: CultCacheEnvelopeView,
)
    requires
        entry_of(entries, kind, key) == Ok::<Option<CultCacheEnvelopeView>, Seq<char>>(Some(e)),
    ensures
        e.record_type == kind,
        e.key == key,
        entries.filter(named(kind, key)) == seq![e],
{
    let pred = named(kind, key);
    entries.lemma_filter_pred(pred, 0);
    assert(pred(entries.filter(pred)[0]));
    assert(entries.filter(pred) =~= seq![e]);
}

/// Looking up a record after others left and one came.
proof fn lemma_lookup_push(
    rest: Seq<CultCacheEnvelopeView>,
    e: CultCacheEnvelopeView,
    kind: RecordTypeView,
    key: Seq<char>,
)
    ensures
        !(e.record_type == kind && e.key == key) ==> entry_of(rest.push(e), kind, key) == entry_of(
            rest,
            kind,
            key,
        ),
        e.record_type == kind && e.key == key && entry_of(rest, kind, key) == Ok::<
            Option<CultCacheEnvelopeView>,
            Seq<char>,
        >(None) ==> entry_of(rest.push(e), kind, key) == Ok::<
            Option<CultCacheEnvelopeView>,
            Seq<char>,
        >(Some(e)),
{
    let pred = named(kind, key);
    lemma_filter_push(rest, e, pred);
    assert(rest.filter(pred).len() == 0 ==> rest.filter(pred).push(e) =~= seq![e]);
}

/// Looking up a record after some left.
proof fn lemma_lookup_rest(
    entries: Seq<CultCacheEnvelopeView>,
    removal: RemovalView,
    kind: RecordTypeView,
    key: Seq<char>,
)
    ensures
        (forall|e: CultCacheEnvelopeView|
            (#[trigger] e.record_type) == kind && e.key == key ==> leaves(removal, e)) ==> entry_of(
            entries.filter(stays(removal)),
            kind,
            key,
        ) == Ok::<Option<CultCacheEnvelopeView>, Seq<char>>(None),
        (forall|e: CultCacheEnvelopeView|
            (#[trigger] e.record_type) == kind && e.key == key ==> !leaves(removal, e))
            ==> entry_of(entries.filter(stays(removal)), kind, key) == entry_of(
            entries,
            kind,
            key,
        ),
{
    let pred = named(kind, key);
    let keep = stays(removal);
    if forall|e: CultCacheEnvelopeView|
        (#[trigger] e.record_type) == kind && e.key == key ==> leaves(removal, e) {
        assert forall|x: CultCacheEnvelopeView| #[trigger] pred(x) implies !keep(x) by {
            assert(x.record_type == kind);
        }
        lemma_filter_gone(entries, keep, pred);
    }
    if forall|e: CultCacheEnvelopeView|
        (#[trigger] e.record_type) == kind && e.key == key ==> !leaves(removal, e) {
        assert forall|x: CultCacheEnvelopeView| #[trigger] pred(x) implies keep(x) by {
            assert(x.record_type == kind);
        }
        lemma_filter_inner(entries, keep, pred);
    }
}

/// Publishing an expectation touches nothing but that expectation, its target's anchor and
/// the records of the former projection: every other record, of whatever kind and under
/// whatever key, stands as it did, the activation and the lease under its own key with it. A
/// refusal touches nothing.
pub proof fn publishing_leaves_other_records_alone(
    entries: Seq<CultCacheEnvelopeView>,
    expected: IdunnExpectedIncarnationRecordView,
    provider: ServiceIdentityTrustAnchorView,
    contract: PresenceContract,
    anchor_payload: Seq<u8>,
    now: Seq<char>,
)
    ensures
        ({
            let decision = publication(entries, expected, provider, contract, anchor_payload, now);
            after(entries, decision).filter(beside_publication(expected)) == entries.filter(
                beside_publication(expected),
            )
        }),
{
    let decision = publication(entries, expected, provider, contract, anchor_payload, now);
    if let Ok(Some(content)) = decision {
        let anchor = presence_anchor(expected, provider, contract)->Ok_0;
        let key = key_of(expected);
        let removal = publishing_removes(expected, anchor);
        let rest = entries.filter(stays(removal));
        let n = content.len();
        let a = content[n - 2];
        let b = content[n - 1];
        assert(content =~= rest.push(a).push(b));
        if let Ok(Some(e)) = entry_of(entries, RecordTypeView::Expected, key) {
            lemma_entry_some(entries, RecordTypeView::Expected, key, e);
        }
        let pred = beside_publication(expected);
        lemma_filter_push(rest, a, pred);
        lemma_filter_push(rest.push(a), b, pred);
        assert forall|x: CultCacheEnvelopeView| #[trigger] pred(x) implies stays(removal)(x) by {}
        lemma_filter_inner(entries, stays(removal), pred);
    }
}

/// Once an expectation is published, publishing it again does nothing, and no record of the
/// former projection is left.
pub proof fn publishing_an_expectation_is_idempotent(
    entries: Seq<CultCacheEnvelopeView>,
    expected: IdunnExpectedIncarnationRecordView,
    provider: ServiceIdentityTrustAnchorView,
    contract: PresenceContract,
    anchor_payload: Seq<u8>,
    now: Seq<char>,
    later: Seq<char>,
)
    ensures
        ({
            let decision = publication(entries, expected, provider, contract, anchor_payload, now);
            let content = after(entries, decision);
            decision is Ok ==> {
                &&& publication(content, expected, provider, contract, anchor_payload, later)
                    == Ok::<Option<Seq<CultCacheEnvelopeView>>, Seq<char>>(None)
                &&& forall|i: int|
                    0 <= i < content.len() ==> !legacy_slot(#[trigger] content[i], expected.target)
            }
        }),
{
    let decision = publication(entries, expected, provider, contract, anchor_payload, now);
    if let Ok(Some(content)) = decision {
        let anchor = presence_anchor(expected, provider, contract)->Ok_0;
        let key = key_of(expected);
        lemma_key_shape(expected.target, expected.canonical_sha256);
        let removal = publishing_removes(expected, anchor);
        let rest = entries.filter(stays(removal));
        let n = content.len();
        let a = content[n - 2];
        let b = content[n - 1];
        assert(content =~= rest.push(a).push(b));
        if let Ok(Some(e)) = entry_of(entries, RecordTypeView::Expected, key) {
            lemma_entry_some(entries, RecordTypeView::Expected, key, e);
        }
        lemma_lookup_rest(entries, removal, RecordTypeView::Expected, key);
        lemma_lookup_rest(entries, removal, RecordTypeView::Anchor, anchor.trust_anchor_id);
        lemma_lookup_push(rest, a, RecordTypeView::Expected, key);
        lemma_lookup_push(rest.push(a), b, RecordTypeView::Expected, key);
        lemma_lookup_push(rest, a, RecordTypeView::Anchor, anchor.trust_anchor_id);
        lemma_lookup_push(rest.push(a), b, RecordTypeView::Anchor, anchor.trust_anchor_id);
        assert forall|i: int| 0 <= i < content.len() implies !legacy_slot(
            #[trigger] content[i],
            expected.target,
        ) by {
            if i < rest.len() {
                entries.lemma_filter_pred(stays(removal), i);
                assert(content[i] == rest[i]);
                assert(stays(removal)(rest[i]));
            }
        }
    }
}

proof fn lemma_other_incarnations_survive(
    entries: Seq<CultCacheEnvelopeView>,
    removal: RemovalView,
    target: Seq<char>,
)
    requires
        removal.kind is None,
        removal.legacy_target is None,
    ensures
        has_other_incarnation(entries.filter(stays(removal)), target, removal.key)
            == has_other_incarnation(entries, target, removal.key),
{
    let keep = stays(removal);
    let rest = entries.filter(keep);
    let key = removal.key;
    if has_other_incarnation(entries, target, key) {
        let i = choose|i: int|
            0 <= i < entries.len() && is_other_incarnation(#[trigger] entries[i], target, key);
        assert(keep(entries[i]));
        entries.lemma_filter_contains(keep, i);
        let k = choose|k: int| 0 <= k < rest.len() && rest[k] == entries[i];
        assert(is_other_incarnation(rest[k], target, key));
    }
    if has_other_incarnation(rest, target, key) {
        let k = choose|k: int|
            0 <= k < rest.len() && is_other_incarnation(#[trigger] rest[k], target, key);
        assert(rest.contains(rest[k]));
        entries.lemma_filter_contains_rev(keep, rest[k]);
        let i = choose|i: int| 0 <= i < entries.len() && entries[i] == rest[k];
        assert(is_other_incarnation(entries[i], target, key));
    }
}

proof fn lemma_no_at(target: Seq<char>, sha: Seq<char>, i: int)
    requires
        anchor_id_text(target) == incarnation_key_text(target, sha),
        0 <= i <= target.len(),
    ensures
        anchor_id_text(target)[i] != '@',
    decreases i,
{
    reveal_strlit("root/");
    lemma_key_shape(target, sha);
    let id = anchor_id_text(target);
    if i < 5 {
        assert(id[i] == "root/"@[i]);
    } else {
        assert(id[i] == target[i - 5]);
        assert(incarnation_key_text(target, sha).take(target.len() as int)[i - 5] == target[i - 5]);
        lemma_no_at(target, sha, i - 5);
    }
}

proof fn lemma_anchor_id_is_no_key(target: Seq<char>, sha: Seq<char>)
    ensures
        anchor_id_text(target) != incarnation_key_text(target, sha),
{
    lemma_key_shape(target, sha);
    if anchor_id_text(target) == incarnation_key_text(target, sha) {
        lemma_no_at(target, sha, target.len() as int);
    }
}

proof fn lemma_withdrawn(
    entries: Seq<CultCacheEnvelopeView>,
    expected: IdunnExpectedIncarnationRecordView,
    anchor: GameCultServiceTrustAnchorRecordView,
)
    requires
        anchor.trust_anchor_id == anchor_id_text(expected.target),
    ensures
        ({
            let key = key_of(expected);
            let id = anchor.trust_anchor_id;
            let content = entries.filter(stays(withdrawing_removes(entries, expected, anchor)));
            let others = has_other_incarnation(entries, expected.target, key);
            &&& forall|i: int| 0 <= i < content.len() ==> (#[trigger] content[i]).key != key
            &&& content.filter(beside(expected)) == entries.filter(beside(expected))
            &&& content.filter(named(RecordTypeView::Anchor, id)) == if others {
                entries.filter(named(RecordTypeView::Anchor, id))
            } else {
                Seq::<CultCacheEnvelopeView>::empty()
            }
            &&& has_other_incarnation(content, expected.target, key) == others
        }),
{
    let key = key_of(expected);
    let removal = withdrawing_removes(entries, expected, anchor);
    let keep = stays(removal);
    let content = entries.filter(keep);
    assert forall|i: int| 0 <= i < content.len() implies (#[trigger] content[i]).key != key by {
        entries.lemma_filter_pred(keep, i);
        assert(keep(content[i]));
    }
    let pred = beside(expected);
    assert forall|x: CultCacheEnvelopeView| #[trigger] pred(x) implies keep(x) by {}
    lemma_filter_inner(entries, keep, pred);
    lemma_anchor_id_is_no_key(expected.target, expected.canonical_sha256);
    let anchors = named(RecordTypeView::Anchor, anchor.trust_anchor_id);
    if has_other_incarnation(entries, expected.target, key) {
        assert forall|x: CultCacheEnvelopeView| #[trigger] anchors(x) implies keep(x) by {}
        lemma_filter_inner(entries, keep, anchors);
    } else {
        assert forall|x: CultCacheEnvelopeView| #[trigger] anchors(x) implies !keep(x) by {}
        lemma_filter_gone(entries, keep, anchors);
    }
    lemma_other_incarnations_survive(entries, removal, expected.target);
}

/// Withdrawing an incarnation leaves none of its records under its key, and every record that
/// is neither under that key nor its target's anchor as it stood. The anchor stands exactly as
/// long as an expectation of the target is left under another key. Withdrawing it again does
/// nothing. A store in which another record takes the place of one that the incarnation or its
/// anchor is named by is refused, and a refusal touches nothing.
pub proof fn withdrawing_removes_exactly_one_incarnation(
    entries: Seq<CultCacheEnvelopeView>,
    expected: IdunnExpectedIncarnationRecordView,
    provider: ServiceIdentityTrustAnchorView,
    contract: PresenceContract,
    activation: Option<IdunnRuntimeActivationRecordView>,
    lease: Option<IdunnProcessWriteLeaseRecordView>,
)
    ensures
        ({
            let key = key_of(expected);
            let anchors = named(RecordTypeView::Anchor, anchor_id_text(expected.target));
            let decision = withdrawal(entries, expected, provider, contract, activation, lease);
            let content = after(entries, decision);
            let others = has_other_incarnation(entries, expected.target, key);
            &&& decision is Err ==> content == entries
            &&& decision is Ok ==> {
                &&& projected(entries, expected, activation, lease) is Ok
                &&& anchors_as(entries, presence_anchor(expected, provider, contract)->Ok_0)
                &&& forall|i: int|
                    0 <= i < content.len() ==> !(incarnation_type(
                        (#[trigger] content[i]).record_type,
                    ) && content[i].key == key)
                &&& content.filter(beside(expected)) == entries.filter(beside(expected))
                &&& others ==> content.filter(anchors) == entries.filter(anchors)
                &&& !others ==> content.filter(anchors) == Seq::<CultCacheEnvelopeView>::empty()
                &&& withdrawal(content, expected, provider, contract, activation, lease) == Ok::<
                    Option<Seq<CultCacheEnvelopeView>>,
                    Seq<char>,
                >(None)
            }
            &&& decision matches Ok(Some(_)) ==> forall|i: int|
                0 <= i < content.len() ==> (#[trigger] content[i]).key != key
        }),
{
    let key = key_of(expected);
    let decision = withdrawal(entries, expected, provider, contract, activation, lease);
    let content = after(entries, decision);
    if decision is Ok {
        let anchor = presence_anchor(expected, provider, contract)->Ok_0;
        if decision->Ok_0 is Some {
            lemma_withdrawn(entries, expected, anchor);
            let removal = withdrawing_removes(entries, expected, anchor);
            lemma_lookup_rest(entries, removal, RecordTypeView::Expected, key);
            lemma_lookup_rest(entries, removal, RecordTypeView::Activation, key);
            lemma_lookup_rest(entries, removal, RecordTypeView::Lease, key);
        } else {
            lemma_entry_none(entries, RecordTypeView::Expected, key);
            lemma_entry_none(entries, RecordTypeView::Activation, key);
            lemma_entry_none(entries, RecordTypeView::Lease, key);
            let anchors = named(RecordTypeView::Anchor, anchor.trust_anchor_id);
            if !has_other_incarnation(entries, expected.target, key) {
                assert(entries.filter(anchors) =~= Seq::<CultCacheEnvelopeView>::empty());
            }
        }
    }
}

/// Withdrawing a stale incarnation leaves no record under its key, whatever it was, and every
/// record that is neither under that key nor its target's anchor as it stood. The anchor
/// leaves with the last incarnation of the target and no sooner. Withdrawing it again does
/// nothing, and a refusal touches nothing.
pub proof fn withdrawing_a_stale_incarnation_removes_exactly_one(
    entries: Seq<CultCacheEnvelopeView>,
    expected: IdunnExpectedIncarnationRecordView,
    provider: ServiceIdentityTrustAnchorView,
    contract: PresenceContract,
)
    ensures
        ({
            let key = key_of(expected);
            let anchors = named(RecordTypeView::Anchor, anchor_id_text(expected.target));
            let decision = stale_withdrawal(entries, expected, provider, contract);
            let content = after(entries, decision);
            let others = has_other_incarnation(entries, expected.target, key);
            &&& decision is Err ==> content == entries
            &&& decision is Ok ==> {
                &&& forall|i: int| 0 <= i < content.len() ==> (#[trigger] content[i]).key != key
                &&& content.filter(beside(expected)) == entries.filter(beside(expected))
                &&& others || decision->Ok_0 is None ==> content.filter(anchors)
                    == entries.filter(anchors)
                &&& !others && decision->Ok_0 is Some ==> content.filter(anchors) == Seq::<
                    CultCacheEnvelopeView,
                >::empty()
                &&& stale_withdrawal(content, expected, provider, contract) == Ok::<
                    Option<Seq<CultCacheEnvelopeView>>,
                    Seq<char>,
                >(None)
            }
        }),
{
    let decision = stale_withdrawal(entries, expected, provider, contract);
    if decision is Ok && decision->Ok_0 is Some {
        lemma_withdrawn(entries, expected, presence_anchor(expected, provider, contract)->Ok_0);
    }
}

/// Demoting an incarnation leaves its expectation and its anchor, neither activation nor lease
/// under its key, and every record that is neither under that key nor its target's anchor as
/// it stood. Demoting it again leaves the store as it is. A store in which another record
/// takes the place of one that the incarnation or its anchor is named by is refused, and a
/// refusal touches nothing.
pub proof fn demoting_leaves_the_expectation_alone(
    entries: Seq<CultCacheEnvelopeView>,
    expected: IdunnExpectedIncarnationRecordView,
    provider: ServiceIdentityTrustAnchorView,
    contract: PresenceContract,
    anchor_payload: Seq<u8>,
    activation: IdunnRuntimeActivationRecordView,
    lease: Option<IdunnProcessWriteLeaseRecordView>,
    now: Seq<char>,
    later: Seq<char>,
)
    ensures
        ({
            let key = key_of(expected);
            let anchor = presence_anchor(expected, provider, contract)->Ok_0;
            let decision = demotion(
                entries,
                expected,
                provider,
                contract,
                anchor_payload,
                activation,
                lease,
                now,
            );
            let content = after(entries, decision);
            &&& decision is Err ==> content == entries
            &&& decision is Ok ==> {
                &&& projected(entries, expected, Some(activation), lease) is Ok
                &&& anchors_as(entries, anchor)
                &&& entry_of(content, RecordTypeView::Expected, key) matches Ok(Some(e))
                    && e.schema_id == RecordSchemaView::Expected && read_expected(e.document) == Ok::<
                    IdunnExpectedIncarnationRecordView,
                    Seq<char>,
                >(expected)
                &&& entry_of(content, RecordTypeView::Activation, key) == Ok::<
                    Option<CultCacheEnvelopeView>,
                    Seq<char>,
                >(None)
                &&& entry_of(content, RecordTypeView::Lease, key) == Ok::<
                    Option<CultCacheEnvelopeView>,
                    Seq<char>,
                >(None)
                &&& entry_of(
                    content,
                    RecordTypeView::Anchor,
                    anchor_id_text(expected.target),
                ) matches Ok(Some(e))
                    && anchor_in(e) == Ok::<GameCultServiceTrustAnchorRecordView, Seq<char>>(anchor)
                &&& content.filter(beside(expected)) == entries.filter(beside(expected))
                &&& demotion(
                    content,
                    expected,
                    provider,
                    contract,
                    anchor_payload,
                    activation,
                    lease,
                    later,
                ) == Ok::<Option<Seq<CultCacheEnvelopeView>>, Seq<char>>(None)
            }
        }),
{
    let decision = demotion(
        entries,
        expected,
        provider,
        contract,
        anchor_payload,
        activation,
        lease,
        now,
    );
    if let Ok(Some(content)) = decision {
        let anchor = presence_anchor(expected, provider, contract)->Ok_0;
        let key = key_of(expected);
        let removal = demoting_removes(expected, anchor);
        let rest = entries.filter(stays(removal));
        let n = content.len();
        let a = content[n - 2];
        let b = content[n - 1];
        assert(content =~= rest.push(a).push(b));
        if let Ok(Some(e)) = entry_of(entries, RecordTypeView::Expected, key) {
            lemma_entry_some(entries, RecordTypeView::Expected, key, e);
        }
        if let Ok(Some(e)) = entry_of(entries, RecordTypeView::Anchor, anchor.trust_anchor_id) {
            lemma_entry_some(entries, RecordTypeView::Anchor, anchor.trust_anchor_id, e);
        }
        lemma_lookup_rest(entries, removal, RecordTypeView::Expected, key);
        lemma_lookup_rest(entries, removal, RecordTypeView::Activation, key);
        lemma_lookup_rest(entries, removal, RecordTypeView::Lease, key);
        lemma_lookup_rest(entries, removal, RecordTypeView::Anchor, anchor.trust_anchor_id);
        lemma_lookup_push(rest, a, RecordTypeView::Expected, key);
        lemma_lookup_push(rest.push(a), b, RecordTypeView::Expected, key);
        lemma_lookup_push(rest, a, RecordTypeView::Activation, key);
        lemma_lookup_push(rest.push(a), b, RecordTypeView::Activation, key);
        lemma_lookup_push(rest, a, RecordTypeView::Lease, key);
        lemma_lookup_push(rest.push(a), b, RecordTypeView::Lease, key);
        lemma_lookup_push(rest, a, RecordTypeView::Anchor, anchor.trust_anchor_id);
        lemma_lookup_push(rest.push(a), b, RecordTypeView::Anchor, anchor.trust_anchor_id);
        let pred = beside(expected);
        lemma_filter_push(rest, a, pred);
        lemma_filter_push(rest.push(a), b, pred);
        assert forall|x: CultCacheEnvelopeView| #[trigger] pred(x) implies stays(removal)(x) by {}
        lemma_filter_inner(entries, stays(removal), pred);
    }
}

/// Withdrawing a process's write lease undoes publishing it.
pub proof fn withdrawing_a_lease_undoes_publishing_it(
    entries: Seq<CultCacheEnvelopeView>,
    expected: IdunnExpectedIncarnationRecordView,
    activation: IdunnRuntimeActivationRecordView,
    lease: IdunnProcessWriteLeaseRecordView,
    presence_schema: Seq<char>,
    presence_signing_purpose: Seq<char>,
)
    ensures
        publishing_lease(
            entries,
            expected,
            activation,
            lease,
            presence_schema,
            presence_signing_purpose,
        ) matches Ok(Some(content)) ==> {
            &&& withdrawing_lease(content, expected, Some(lease)) == Ok::<
                Option<Seq<CultCacheEnvelopeView>>,
                Seq<char>,
            >(Some(entries))
            &&& publishing_lease(
                content,
                expected,
                activation,
                lease,
                presence_schema,
                presence_signing_purpose,
            ) == Ok::<Option<Seq<CultCacheEnvelopeView>>, Seq<char>>(None)
        },
{
    if let Ok(Some(content)) = publishing_lease(
        entries,
        expected,
        activation,
        lease,
        presence_schema,
        presence_signing_purpose,
    ) {
        let key = key_of(expected);
        let record = content[content.len() - 1];
        assert(content =~= entries.push(record));
        lemma_entry_none(entries, RecordTypeView::Lease, key);
        lemma_lookup_push(entries, record, RecordTypeView::Lease, key);
        lemma_lookup_push(entries, record, RecordTypeView::Expected, key);
        lemma_lookup_push(entries, record, RecordTypeView::Activation, key);
        lemma_lookup_push(
            entries,
            record,
            RecordTypeView::Anchor,
            anchor_id_text(expected.target),
        );
        let keep = stays(one_kind_removes(key, RecordTypeView::Lease));
        assert forall|i: int| 0 <= i < entries.len() implies keep(#[trigger] entries[i]) by {
            assert(!(entries[i].record_type == RecordTypeView::Lease && entries[i].key == key));
        }
        lemma_filter_all(entries, keep);
        lemma_filter_push(entries, record, keep);
        assert(!keep(record));
    }
}

/// An activation that was published with its lease, or without one, is the admitted
/// runtime projection exactly.
pub proof fn a_published_runtime_is_the_admitted_projection(
    entries: Seq<CultCacheEnvelopeView>,
    expected: IdunnExpectedIncarnationRecordView,
    provider: ServiceIdentityTrustAnchorView,
    contract: PresenceContract,
    anchor: GameCultServiceTrustAnchorRecordView,
    activation: IdunnRuntimeActivationRecordView,
    lease: IdunnProcessWriteLeaseRecordView,
    presence_schema: Seq<char>,
    presence_signing_purpose: Seq<char>,
)
    requires
        presence_anchor(expected, provider, contract) == Ok::<
            GameCultServiceTrustAnchorRecordView,
            Seq<char>,
        >(anchor),
        entry_of(entries, RecordTypeView::Anchor, anchor.trust_anchor_id) matches Ok(Some(e))
            && anchor_in(e) == Ok::<GameCultServiceTrustAnchorRecordView, Seq<char>>(anchor),
    ensures
        publishing_activation(entries, expected, activation) matches Ok(Some(content)) ==> {
            &&& activation.expected_projection_sha256 == expected.canonical_sha256
            &&& entry_of(entries, RecordTypeView::Lease, key_of(expected)) == Ok::<
                Option<CultCacheEnvelopeView>,
                Seq<char>,
            >(None)
        } ==> admitted_runtime(content, expected, provider, contract, activation, None) == Ok::<
            bool,
            Seq<char>,
        >(true),
        publishing_lease(
            entries,
            expected,
            activation,
            lease,
            presence_schema,
            presence_signing_purpose,
        ) matches Ok(Some(content)) ==> topology_lease_refusal(expected, activation, lease) is None
            ==> activation.expected_projection_sha256 == expected.canonical_sha256
            ==> admitted_runtime(content, expected, provider, contract, activation, Some(lease))
            == Ok::<bool, Seq<char>>(true),
{
    let key = key_of(expected);
    if let Ok(Some(content)) = publishing_activation(entries, expected, activation) {
        let removal = one_kind_removes(key, RecordTypeView::Activation);
        let rest = entries.filter(stays(removal));
        let record = content[content.len() - 1];
        assert(content =~= rest.push(record));
        lemma_lookup_rest(entries, removal, RecordTypeView::Expected, key);
        lemma_lookup_rest(entries, removal, RecordTypeView::Activation, key);
        lemma_lookup_rest(entries, removal, RecordTypeView::Lease, key);
        lemma_lookup_rest(entries, removal, RecordTypeView::Anchor, anchor.trust_anchor_id);
        lemma_lookup_push(rest, record, RecordTypeView::Expected, key);
        lemma_lookup_push(rest, record, RecordTypeView::Activation, key);
        lemma_lookup_push(rest, record, RecordTypeView::Lease, key);
        lemma_lookup_push(rest, record, RecordTypeView::Anchor, anchor.trust_anchor_id);
    }
    if let Ok(Some(content)) = publishing_lease(
        entries,
        expected,
        activation,
        lease,
        presence_schema,
        presence_signing_purpose,
    ) {
        let record = content[content.len() - 1];
        assert(content =~= entries.push(record));
        lemma_lookup_push(entries, record, RecordTypeView::Lease, key);
        lemma_lookup_push(entries, record, RecordTypeView::Expected, key);
        lemma_lookup_push(entries, record, RecordTypeView::Activation, key);
        lemma_lookup_push(entries, record, RecordTypeView::Anchor, anchor.trust_anchor_id);
    }
}

/// Publishing an observed activation touches nothing but the activation under its key, and
/// done twice is done once.
pub proof fn publishing_an_activation_is_idempotent(
    entries: Seq<CultCacheEnvelopeView>,
    expected: IdunnExpectedIncarnationRecordView,
    activation: IdunnRuntimeActivationRecordView,
)
    ensures
        ({
            let decision = publishing_activation(entries, expected, activation);
            let content = after(entries, decision);
            let rest = stays(one_kind_removes(key_of(expected), RecordTypeView::Activation));
            &&& decision is Ok ==> publishing_activation(content, expected, activation) == Ok::<
                Option<Seq<CultCacheEnvelopeView>>,
                Seq<char>,
            >(None)
            &&& content.filter(rest) == entries.filter(rest)
        }),
{
    let key = key_of(expected);
    if let Ok(Some(content)) = publishing_activation(entries, expected, activation) {
        let removal = one_kind_removes(key, RecordTypeView::Activation);
        let rest = entries.filter(stays(removal));
        let record = content[content.len() - 1];
        assert(content =~= rest.push(record));
        lemma_lookup_rest(entries, removal, RecordTypeView::Expected, key);
        lemma_lookup_rest(entries, removal, RecordTypeView::Activation, key);
        lemma_lookup_push(rest, record, RecordTypeView::Expected, key);
        lemma_lookup_push(rest, record, RecordTypeView::Activation, key);
        lemma_filter_push(rest, record, stays(removal));
        lemma_filter_inner(entries, stays(removal), stays(removal));
    }
}

} // verus!
