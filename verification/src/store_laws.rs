//! The places that are made, the names that are given, and the records that are kept.
use vstd::prelude::*;

use crate::bundle::{count_of, first_with, same_entry, same_identity};
use crate::digest::hex_text;
use crate::fresh::{identifier_text, stage_beside};
use crate::gittree::GitTreeEntryView;
use crate::host::{folded_path, one_path, previous_refusal, SpawnedChild};
use crate::links::{
    canonical_of, kind_of, led, led_by, led_on, target_of, EntryKind, KnownFiles, Led, MAX_HOPS,
};
use crate::materialize::entry_directory;
use crate::paths::{
    absolute, below, components, file_name, joined, lemma_component_shape, lemma_join_name,
    lemma_path_text, parent,
};
use crate::platform::{termination_refusal, ProcessFacts};
use crate::records::{
    read_expected, CultCacheEnvelope, CultCacheEnvelopeView, IdunnExpectedIncarnationRecordView,
    RecordSchemaView, RecordTypeView,
};
use crate::scan::{cut_first, hex_value, lower_hex};
use crate::stores::{ancestors, continued, directories_down, leading_names};
use crate::text::Refusal;
use crate::topology::{incarnations_of, key_of};
use crate::workload::{move_refusal, FailedMove};

verus! {

proof fn lemma_leading(parts: Seq<Seq<char>>)
    ensures
        leading_names(parts) <= parts.len(),
        leading_names(parts) == parts.len() ==> forall|i: int|
            0 <= i < parts.len() ==> #[trigger] parts[i] != "."@ && parts[i] != ".."@,
    decreases parts.len(),
{
    if parts.len() > 0 {
        let fewer = parts.drop_last();
        lemma_leading(fewer);
        if leading_names(parts) == parts.len() {
            assert forall|i: int| 0 <= i < parts.len() implies #[trigger] parts[i] != "."@
                && parts[i] != ".."@ by {
                if i < fewer.len() {
                    assert(fewer[i] == parts[i]);
                }
            }
        }
    }
}

proof fn lemma_continued(root: Seq<char>, parts: Seq<Seq<char>>)
    requires
        root.len() > 0,
        forall|i: int|
            0 <= i < parts.len() ==> (#[trigger] parts[i]).len() > 0 && !parts[i].contains('/')
                && parts[i] != seq!['.'],
    ensures
        continued(root, parts).len() > 0,
        components(continued(root, parts)) == components(root) + parts,
    decreases parts.len(),
{
    if parts.len() == 0 {
        assert(components(root) + parts =~= components(root));
    } else {
        let fewer = parts.drop_last();
        assert forall|i: int| 0 <= i < fewer.len() implies (#[trigger] fewer[i]).len() > 0
            && !fewer[i].contains('/') && fewer[i] != seq!['.'] by {
            assert(fewer[i] == parts[i]);
        }
        lemma_continued(root, fewer);
        assert(parts[parts.len() - 1] == parts.last());
        lemma_join_name(continued(root, fewer), parts.last());
        assert(components(root) + parts =~= (components(root) + fewer).push(parts.last()));
    }
}

/// The directories that lead down to a source are made one below the other, from the root of
/// the authority to the directory itself, and none besides.
pub proof fn directories_are_made_one_below_the_other(
    root: Seq<char>,
    directory: Seq<char>,
    i: int,
)
    requires
        root.len() > 0,
        directories_down(root, directory).1 is None,
        0 <= i < directories_down(root, directory).0.len(),
    ensures
        ({
            let made = directories_down(root, directory).0;
            &&& below(directory, root)
            &&& made[0] == root
            &&& made.len() == components(directory).len() - components(root).len() + 1
            &&& components(made[i]) == components(directory).take(components(root).len() + i)
            &&& i > 0 ==> components(made[i]).drop_last() == components(made[i - 1])
        }),
{
    let rest = components(directory).skip(components(root).len() as int);
    let made = directories_down(root, directory).0;
    lemma_leading(rest);
    reveal_strlit(".");
    assert("."@ =~= seq!['.']);
    assert forall|j: int| 0 <= j < rest.len() implies (#[trigger] rest[j]).len() > 0
        && !rest[j].contains('/') && rest[j] != seq!['.'] by {
        let k = components(root).len() + j;
        assert(rest[j] == components(directory)[k]);
        lemma_component_shape(directory, k);
        assert(rest[j] != "."@);
    }
    lemma_down(root, directory, rest, i);
    if i > 0 {
        lemma_down(root, directory, rest, i - 1);
        assert(components(directory).take(components(root).len() + i).drop_last()
            =~= components(directory).take(components(root).len() + i - 1));
    }
    assert(rest.take(0) =~= Seq::<Seq<char>>::empty());
    assert(made[0] == continued(root, rest.take(0)));
}

proof fn lemma_down(root: Seq<char>, directory: Seq<char>, rest: Seq<Seq<char>>, i: int)
    requires
        root.len() > 0,
        below(directory, root),
        rest == components(directory).skip(components(root).len() as int),
        0 <= i <= rest.len(),
        forall|j: int|
            0 <= j < rest.len() ==> (#[trigger] rest[j]).len() > 0 && !rest[j].contains('/')
                && rest[j] != seq!['.'],
    ensures
        components(continued(root, rest.take(i))) == components(directory).take(
            components(root).len() + i,
        ),
{
    let some = rest.take(i);
    assert forall|j: int| 0 <= j < some.len() implies (#[trigger] some[j]).len() > 0
        && !some[j].contains('/') && some[j] != seq!['.'] by {
        assert(some[j] == rest[j]);
    }
    lemma_continued(root, some);
    assert(components(root) =~= components(directory).take(components(root).len() as int));
    assert(components(root) + some =~= components(directory).take(components(root).len() + i));
}

/// The ancestors of a path are all that it stands below, the nearest first.
pub proof fn ancestors_are_told_nearest_first(path: Seq<char>, i: int)
    requires
        0 <= i < ancestors(path).len(),
    ensures
        ancestors(path).len() == components(path).len() - 1,
        components(ancestors(path)[i]) == components(path).take(components(path).len() - 1 - i),
        absolute(ancestors(path)[i]) == absolute(path),
{
    lemma_path_text(path, components(path).len() - 1 - i);
}

/// Two records have one identity exactly where they are of one type under one key, and are the
/// same where nothing in them differs; a record is counted for each of its identity.
pub proof fn a_record_is_told_by_its_type_and_key(
    entries: Seq<CultCacheEnvelope>,
    one: CultCacheEnvelopeView,
    two: CultCacheEnvelopeView,
    i: int,
)
    ensures
        same_identity(one, two) <==> one.record_type == two.record_type && one.key == two.key,
        same_entry(one, two) ==> same_identity(one, two) && one.payload == two.payload
            && one.stored_at == two.stored_at && one.schema_id == two.schema_id,
        same_entry(one, one),
        count_of(entries, one) == entries.filter(
            |e: CultCacheEnvelope| e@.record_type == one.record_type && e@.key == one.key,
        ).len(),
        first_with(entries, one, i) ==> entries[i]@.record_type == one.record_type
            && entries[i]@.key == one.key,
    decreases entries.len(),
{
    reveal(Seq::filter);
    if entries.len() > 0 {
        a_record_is_told_by_its_type_and_key(entries.drop_last(), one, two, i);
    }
}

/// Bytes are written in lower-case digits, two to each, and read back from them.
pub proof fn a_byte_is_read_back_from_its_digits(bytes: Seq<u8>, i: int)
    requires
        0 <= i < bytes.len(),
    ensures
        hex_text(bytes).len() == 2 * bytes.len(),
        lower_hex(hex_text(bytes)[2 * i]),
        lower_hex(hex_text(bytes)[2 * i + 1]),
        hex_value(hex_text(bytes)[2 * i]) * 16 + hex_value(hex_text(bytes)[2 * i + 1])
            == bytes[i],
{
    assert((2 * i) / 2 == i && (2 * i + 1) / 2 == i && (2 * i) % 2 == 0 && (2 * i + 1) % 2 == 1);
}

/// A candidate is staged beside the file that it replaces, under a name that no other stage
/// has, and never as the file itself.
pub proof fn a_stage_stands_beside_its_file(
    path: Seq<char>,
    name: Seq<char>,
    other: Seq<char>,
)
    ensures
        stage_beside(path, name) is Ok <==> absolute(path) && parent(path) is Some && file_name(
            path,
        ) is Some,
        stage_beside(path, name) matches Ok(stage) ==> {
            &&& stage == joined(parent(path)->0, "."@ + file_name(path)->0 + ".idunn-"@ + name)
            &&& stage_beside(path, other) == Ok::<Seq<char>, Seq<char>>(stage) ==> name == other
        },
{
    if let Ok(stage) = stage_beside(path, name) {
        if stage_beside(path, other) == Ok::<Seq<char>, Seq<char>>(stage) {
            reveal_strlit(".");
            reveal_strlit(".idunn-");
            let own = "."@ + file_name(path)->0 + ".idunn-"@;
            let above = parent(path)->0;
            let a = joined(above, own + name);
            let b = joined(above, own + other);
            assert(a == b);
            assert(a.skip(a.len() - name.len()) =~= name);
            assert(a.len() - name.len() == b.len() - other.len());
            assert(b.skip(b.len() - other.len()) =~= other);
        }
    }
}

/// An identifier is written in five groups of digits, and told by what it is written with.
pub proof fn an_identifier_is_written_in_groups(bytes: Seq<u8>)
    requires
        bytes.len() == 16,
    ensures
        ({
            let text = identifier_text(bytes);
            &&& text.len() == 36
            &&& text[8] == '-' && text[13] == '-' && text[18] == '-' && text[23] == '-'
            &&& text.take(8) == hex_text(bytes).take(8)
            &&& text.subrange(9, 13) == hex_text(bytes).subrange(8, 12)
            &&& text.subrange(14, 18) == hex_text(bytes).subrange(12, 16)
            &&& text.subrange(19, 23) == hex_text(bytes).subrange(16, 20)
            &&& text.skip(24) == hex_text(bytes).skip(20)
        }),
{
    reveal_strlit("-");
    let text = identifier_text(bytes);
    assert(text.take(8) =~= hex_text(bytes).take(8));
    assert(text.subrange(9, 13) =~= hex_text(bytes).subrange(8, 12));
    assert(text.subrange(14, 18) =~= hex_text(bytes).subrange(12, 16));
    assert(text.subrange(19, 23) =~= hex_text(bytes).subrange(16, 20));
    assert(text.skip(24) =~= hex_text(bytes).skip(20));
}

/// Paths of a host are told apart whatever the case of their letters and whichever way their
/// separators lean, and are one where both lead to one place; so it is both ways.
pub proof fn a_host_tells_paths_by_letters_and_places(
    left: Seq<char>,
    right: Seq<char>,
    left_leads: Option<Seq<char>>,
    right_leads: Option<Seq<char>>,
)
    ensures
        one_path(left, right, left_leads, right_leads) == one_path(
            right,
            left,
            right_leads,
            left_leads,
        ),
        one_path(left, left, left_leads, right_leads),
        left_leads is Some && left_leads == right_leads ==> one_path(
            left,
            right,
            left_leads,
            right_leads,
        ),
        one_path(left, right, left_leads, right_leads) && !(left_leads is Some && left_leads
            == right_leads) ==> left.len() == right.len() && forall|i: int|
            0 <= i < left.len() ==> is_letter_alike(#[trigger] left[i], right[i]),
{
    if folded_path(left) == folded_path(right) {
        assert(folded_path(left).len() == folded_path(right).len());
        assert forall|i: int| 0 <= i < left.len() implies is_letter_alike(
            #[trigger] left[i],
            right[i],
        ) by {
            assert(folded_path(left)[i] == folded_path(right)[i]);
        }
    }
}

/// Whether two characters of a host's paths are one: the same, a letter in either case, or
/// either separator.
pub open spec fn is_letter_alike(a: char, b: char) -> bool {
    ||| a == b
    ||| 'A' <= a <= 'Z' && a as int + 32 == b as int
    ||| 'A' <= b <= 'Z' && b as int + 32 == a as int
    ||| a == '/' && b == '\\'
    ||| a == '\\' && b == '/'
}

/// A child is started exactly where none is known, or the known one has ended; and a process is
/// ended exactly where it is gone already or is still the one that was started.
pub proof fn no_running_child_is_replaced_and_no_other_is_ended(
    previous: Option<SpawnedChild>,
    pid: u32,
    creation_time: u64,
    found: Option<ProcessFacts>,
)
    ensures
        previous_refusal(previous) is None <==> (previous matches Some(child) ==> (
        child.state matches Ok(state) && state is Exited)),
        termination_refusal(pid, creation_time, found) is None <==> (found matches Some(facts)
            ==> facts.creation_time == creation_time),
{
}

/// A release is installed exactly where it was moved into place, or its place was taken by one
/// that stands and what was not needed was removed.
pub proof fn a_release_is_moved_or_stands_already(
    place: Seq<char>,
    moved: Result<(), FailedMove>,
    removal: Result<(), Refusal>,
    stands: bool,
)
    ensures
        move_refusal(place, moved, removal, stands) is None <==> (moved matches Err(failed)
            ==> removal is Ok && stands && failed.occupied),
{
}

/// Whether an entry of a store is an expectation of a target, under the key of the record that
/// it holds.
pub open spec fn expects(
    e: CultCacheEnvelopeView,
    target: Seq<char>,
    record: IdunnExpectedIncarnationRecordView,
) -> bool {
    &&& e.record_type == RecordTypeView::Expected
    &&& e.schema_id == RecordSchemaView::Expected
    &&& read_expected(e.document) == Ok::<IdunnExpectedIncarnationRecordView, Seq<char>>(record)
    &&& key_of(record) == e.key
    &&& e.key.contains('@')
    &&& cut_first(e.key, '@') matches Some((owner, _)) && owner == target
}

/// The incarnations of a target are the records of its expectations in the store, each under
/// its own key: every one that is listed stands there, and every one that stands is listed.
pub proof fn the_incarnations_of_a_target_are_its_expectations(
    entries: Seq<CultCacheEnvelopeView>,
    target: Seq<char>,
    record: IdunnExpectedIncarnationRecordView,
)
    ensures
        incarnations_of(entries, target) matches Ok(list) ==> (list.contains(record) <==> exists|
            i: int,
        |
            0 <= i < entries.len() && expects(#[trigger] entries[i], target, record)),
    decreases entries.len(),
{
    if let Ok(list) = incarnations_of(entries, target) {
        if entries.len() > 0 {
            let fewer = entries.drop_last();
            let earlier = incarnations_of(fewer, target)->Ok_0;
            let last = entries.last();
            the_incarnations_of_a_target_are_its_expectations(fewer, target, record);
            if list.contains(record) {
                let k = choose|k: int| 0 <= k < list.len() && list[k] == record;
                if k < earlier.len() {
                    assert(earlier[k] == record);
                    let i = choose|i: int|
                        0 <= i < fewer.len() && expects(#[trigger] fewer[i], target, record);
                    assert(entries[i] == fewer[i]);
                } else {
                    assert(expects(entries[entries.len() - 1], target, record));
                }
            }
            if exists|i: int|
                0 <= i < entries.len() && expects(#[trigger] entries[i], target, record) {
                let i = choose|i: int|
                    0 <= i < entries.len() && expects(#[trigger] entries[i], target, record);
                if i < fewer.len() {
                    assert(fewer[i] == entries[i]);
                    let k = choose|k: int| 0 <= k < earlier.len() && earlier[k] == record;
                    assert(list[k] == record);
                } else {
                    assert(entries[i] == last);
                    assert(list[list.len() - 1] == record);
                }
            }
        }
    }
}

/// The directories that lead down to a source can be made exactly where it stands below the
/// root of the authority, by names alone.
pub proof fn directories_lead_down_by_names(root: Seq<char>, directory: Seq<char>)
    ensures
        directories_down(root, directory).1 is None <==> {
            &&& below(directory, root)
            &&& forall|i: int|
                components(root).len() <= i < components(directory).len()
                    ==> #[trigger] components(directory)[i] != "."@ && components(directory)[i]
                    != ".."@
        },
{
    let rest = components(directory).skip(components(root).len() as int);
    lemma_leading(rest);
    if below(directory, root) {
        if leading_names(rest) == rest.len() {
            let parts = components(directory);
            assert forall|i: int| components(root).len() <= i < parts.len() implies #[trigger] parts[i]
                != "."@ && parts[i] != ".."@ by {
                assert(rest[i - components(root).len()] == parts[i]);
            }
        } else if forall|i: int|
            components(root).len() <= i < components(directory).len()
                ==> #[trigger] components(directory)[i] != "."@ && components(directory)[i]
                != ".."@ {
            assert forall|j: int| 0 <= j < rest.len() implies #[trigger] rest[j] != "."@ && rest[j]
                != ".."@ by {
                assert(rest[j] == components(directory)[components(root).len() + j]);
            }
            lemma_all_lead(rest);
        }
    }
}

proof fn lemma_all_lead(parts: Seq<Seq<char>>)
    requires
        forall|j: int| 0 <= j < parts.len() ==> #[trigger] parts[j] != "."@ && parts[j] != ".."@,
    ensures
        leading_names(parts) == parts.len(),
    decreases parts.len(),
{
    if parts.len() > 0 {
        let fewer = parts.drop_last();
        assert forall|j: int| 0 <= j < fewer.len() implies #[trigger] fewer[j] != "."@ && fewer[j]
            != ".."@ by {
            assert(fewer[j] == parts[j]);
        }
        lemma_all_lead(fewer);
        assert(parts[parts.len() - 1] == parts.last());
    }
}

proof fn lemma_plain(
    known: KnownFiles,
    root: Seq<char>,
    at: Seq<char>,
    parts: Seq<Seq<char>>,
    hops: nat,
)
    requires
        hops < MAX_HOPS,
        at.len() > 0,
        below(at, root),
        forall|p: Seq<char>|
            #[trigger] kind_of(known.entries@, p) == Some(
                Ok::<EntryKind, Seq<char>>(EntryKind::Missing),
            ),
        forall|i: int|
            0 <= i < parts.len() ==> (#[trigger] parts[i]).len() > 0 && !parts[i].contains('/')
                && parts[i] != "."@ && parts[i] != ".."@,
    ensures
        led_on(known, root, at, parts, hops) matches Led::At(end) && components(end)
            == components(at) + parts,
    decreases parts.len(),
{
    if parts.len() == 0 {
        assert(components(at) + parts =~= components(at));
    } else {
        let part = parts[0];
        let next = joined(at, part);
        let rest = parts.skip(1);
        reveal_strlit(".");
        assert("."@ =~= seq!['.']);
        lemma_join_name(at, part);
        assert(components(next).take(components(root).len() as int) =~= components(at).take(
            components(root).len() as int,
        ));
        assert(below(next, root));
        assert(kind_of(known.entries@, next) == Some(
            Ok::<EntryKind, Seq<char>>(EntryKind::Missing),
        ));
        assert(led_by(known, root, at, part, hops) == Led::At(next));
        assert forall|i: int| 0 <= i < rest.len() implies (#[trigger] rest[i]).len() > 0
            && !rest[i].contains('/') && rest[i] != "."@ && rest[i] != ".."@ by {
            assert(rest[i] == parts[i + 1]);
        }
        lemma_plain(known, root, next, rest, hops);
        assert(components(at) + parts =~= components(next) + rest);
    }
}

/// Where nothing stands on its way, a link leads where its target says, from where the link
/// itself stands: down by each name of the target.
pub proof fn a_link_leads_where_its_target_says(
    known: KnownFiles,
    root: Seq<char>,
    path: Seq<char>,
    target: Seq<char>,
    start: Seq<char>,
)
    requires
        target_of(known.targets@, path) == Some(Ok::<Seq<char>, Seq<char>>(target)),
        parent(path) is Some,
        canonical_of(known.canonicals@, parent(path)->0) == Some(
            Ok::<Seq<char>, Seq<char>>(start),
        ),
        start.len() > 0,
        below(start, root),
        forall|p: Seq<char>|
            #[trigger] kind_of(known.entries@, p) == Some(
                Ok::<EntryKind, Seq<char>>(EntryKind::Missing),
            ),
        forall|i: int|
            0 <= i < components(target).len() ==> #[trigger] components(target)[i] != "."@
                && components(target)[i] != ".."@,
    ensures
        absolute(target) <==> led(known, root, path, 0) is Refused,
        !absolute(target) ==> (led(known, root, path, 0) matches Led::At(end) && components(end)
            == components(start) + components(target)),
{
    if !absolute(target) {
        let parts = components(target);
        assert forall|i: int| 0 <= i < parts.len() implies (#[trigger] parts[i]).len() > 0
            && !parts[i].contains('/') && parts[i] != "."@ && parts[i] != ".."@ by {
            lemma_component_shape(target, i);
        }
        lemma_plain(known, root, start, parts, 0);
    }
}

/// A step up leads to the directory above, and is refused where that is outside the root; a
/// step to where one stands leads nowhere else; and a link on the way is led on from there.
pub proof fn a_link_is_led_step_by_step(
    known: KnownFiles,
    root: Seq<char>,
    at: Seq<char>,
    name: Seq<char>,
    hops: nat,
)
    requires
        hops < MAX_HOPS,
    ensures
        led_by(known, root, at, "."@, hops) == Led::At(at),
        led_by(known, root, at, ".."@, hops) == (if parent(at) is Some && below(
            parent(at)->0,
            root,
        ) {
            Led::At(parent(at)->0)
        } else {
            Led::Refused("frozen source symlink escapes its root"@)
        }),
        name != "."@ && name != ".."@ && below(joined(at, name), root) && kind_of(
            known.entries@,
            joined(at, name),
        ) == Some(Ok::<EntryKind, Seq<char>>(EntryKind::Link)) ==> led_by(
            known,
            root,
            at,
            name,
            hops,
        ) == led(known, root, joined(at, name), hops + 1),
        name != "."@ && name != ".."@ && !below(joined(at, name), root) ==> led_by(
            known,
            root,
            at,
            name,
            hops,
        ) is Refused,
{
    reveal_strlit(".");
    reveal_strlit("..");
    assert("."@.len() != ".."@.len());
    reveal_with_fuel(led_by, 2);
    reveal_with_fuel(led, 2);
}

/// An entry of a tree is made in the directory that it is named in, and a submodule in its own.
pub proof fn an_entry_is_made_in_its_own_directory(
    destination: Seq<char>,
    entry: GitTreeEntryView,
)
    ensures
        entry_directory(destination, entry) matches Ok(directory) ==> if entry.mode == "160000"@ {
            directory == joined(destination, entry.path)
        } else {
            &&& entry.mode == "100644"@ || entry.mode == "100755"@ || entry.mode == "120000"@
            &&& Some(directory) == parent(joined(destination, entry.path))
        },
        entry.mode == "160000"@ ==> entry_directory(destination, entry) is Ok,
        parent(joined(destination, entry.path)) is Some && (entry.mode == "100644"@ || entry.mode
            == "100755"@ || entry.mode == "120000"@) ==> entry_directory(destination, entry)
            is Ok,
{
    reveal_strlit("160000");
    reveal_strlit("100644");
    reveal_strlit("100755");
    reveal_strlit("120000");
    assert("160000"@[1] == '6');
    assert("100644"@[1] == '0');
    assert("100755"@[1] == '0');
    assert("120000"@[1] == '2');
}

} // verus!
