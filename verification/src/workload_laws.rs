//! What holds of a workload that systemd runs, from its preparation to its stop.
use vstd::prelude::*;

use crate::authority::{
    credential_source_refusal, credential_sources_refusal, removal_of, FileFacts, SourceReading,
};
use crate::binding::{ArtifactReceipt, SystemdWorkloadBinding};
use crate::launch::{
    credential_source,
    descriptor_of,
    open_files,
    unit_description,
    unit_of,
    DescriptorSource,
    LaunchNames,
};
use crate::lifecycle::{
    attempt_refusal, permanently_stopped, planned_unit, prepared_refusal, stopping, PlannedTarget,
};
use crate::maps::{value_of, Pair};
use crate::observation::{
    parent_only_file_descriptor_observation_views, ParentOnlyFileDescriptorObservation,
    ParentOnlyFileDescriptorObservationView, SystemdWorkloadObservation,
    SystemdWorkloadObservationView,
};
use crate::paths::{absolute, components, joined, lemma_join_name, parent, same_path};
use crate::records::{
    IdunnExpectedIncarnationRecordView, IdunnRuntimeActivationRecord,
    IdunnRuntimeActivationRecordView,
};
use crate::scan::{ends, hex, starts};
use crate::start::{request_refusal, Launch};
use crate::stores::{bundle_changes, document_changes};
use crate::text::{texts, Refusal};
use crate::units::UnitView;
use crate::workload::{
    at_rest, credential_refusal, descriptors_refusal, installed_artifacts_refusal, submitted_stop,
    writable_bindings_refusal, writable_paths_refusal, ArtifactFinding, StopStep,
};

verus! {

/// One name of a unit is of one instance: two instances under a prefix share a unit only where
/// they are the same; and a unit is named by its prefix and its instance's digest.
pub proof fn a_unit_is_named_by_its_instance(prefix: Seq<char>, one: Seq<char>, two: Seq<char>)
    ensures
        unit_of(prefix, one) is Ok && unit_of(prefix, one) == unit_of(prefix, two) ==> one == two,
        unit_of(prefix, one) matches Ok(unit) ==> {
            &&& starts(unit, prefix + "-"@)
            &&& ends(unit, ".service"@)
            &&& one == "sha256-"@ + unit.subrange(prefix.len() as int + 1, unit.len() - 8)
            &&& unit.len() == prefix.len() + 73
        },
{
    reveal_strlit("-");
    reveal_strlit(".service");
    if let Ok(unit) = unit_of(prefix, one) {
        let suffix = one.skip("sha256-"@.len() as int);
        assert(unit.take(prefix.len() as int + 1) =~= prefix + "-"@);
        assert(unit.skip(unit.len() - 8) =~= ".service"@);
        assert(unit.subrange(prefix.len() as int + 1, unit.len() - 8) =~= suffix);
        assert(one =~= one.take("sha256-"@.len() as int) + suffix);
        if unit_of(prefix, one) == unit_of(prefix, two) {
            let other = two.skip("sha256-"@.len() as int);
            assert(unit.subrange(prefix.len() as int + 1, unit.len() - 8) =~= other);
            assert(two =~= two.take("sha256-"@.len() as int) + other);
        }
    }
}

/// A unit is described by its target and its instance, where its bundle stands under the runtime
/// root by the name of the instance; so the description of a launch is the one by which a
/// discarded activation is told.
pub proof fn a_unit_is_described_by_its_instance(
    target: Seq<char>,
    runtime_root: Seq<char>,
    instance: Seq<char>,
)
    requires
        runtime_root.len() > 0,
        instance.len() > 0,
        !instance.contains('/'),
        instance != seq!['.'],
        instance != ".."@,
    ensures
        unit_description(target, joined(runtime_root, instance)) == Ok::<Seq<char>, Seq<char>>(
            "Idunn "@ + target + " "@ + instance,
        ),
{
    reveal_strlit("..");
    assert(".."@ =~= seq!['.', '.']);
    lemma_join_name(runtime_root, instance);
    let parts = components(joined(runtime_root, instance));
    assert(parts.last() == instance);
}

/// A submitted unit is stopped exactly where it still has the description that it was submitted
/// with; one that is gone is left, and one with another description is refused.
pub proof fn only_the_submitted_unit_is_stopped(shown: Option<UnitView>, description: Seq<char>)
    ensures
        submitted_stop(shown, description) == Ok::<StopStep, Seq<char>>(StopStep::Stop) <==> (
        shown matches Some(unit) && value_of(unit.properties, "Description"@) == Some(
            description,
        )),
        submitted_stop(shown, description) == Ok::<StopStep, Seq<char>>(StopStep::Leave)
            <==> shown is None,
{
}

/// A unit is at rest exactly where it is gone, inactive or failed.
pub proof fn a_unit_rests_inactive_or_failed(shown: Option<UnitView>)
    ensures
        at_rest(shown) <==> (shown matches Some(unit) ==> {
            ||| value_of(unit.properties, "ActiveState"@) == Some("inactive"@)
            ||| value_of(unit.properties, "ActiveState"@) == Some("failed"@)
        }),
{
}

/// A workload is stopped outright only at rest and only where its invocation and its
/// description are those observed; one that runs is looked at first; where there is no unit
/// there is nothing to do.
pub proof fn a_workload_is_stopped_by_what_was_observed(
    observation: SystemdWorkloadObservationView,
    shown: Option<UnitView>,
)
    ensures
        stopping(observation, shown) is Nothing <==> shown is None,
        stopping(observation, shown) is Stop ==> {
            let unit = shown->0;
            &&& value_of(unit.properties, "InvocationID"@) == Some(observation.invocation_id)
            &&& value_of(unit.properties, "Description"@) == Some(observation.unit_description)
            &&& at_rest(shown)
        },
        stopping(observation, shown) is Recognise <==> (shown matches Some(unit) && {
            &&& value_of(unit.properties, "ActiveState"@) == Some("active"@)
            &&& value_of(unit.properties, "SubState"@) == Some("running"@)
        }),
        shown matches Some(unit) ==> {
            &&& value_of(unit.properties, "InvocationID"@) == Some(observation.invocation_id)
            &&& value_of(unit.properties, "Description"@) == Some(observation.unit_description)
            &&& at_rest(shown)
            &&& value_of(unit.properties, "SubState"@) matches Some(sub) && sub.len() > 0
        } ==> stopping(observation, shown) is Stop,
{
    reveal_strlit("active");
    reveal_strlit("running");
    reveal_strlit("inactive");
    reveal_strlit("failed");
    assert("active"@.len() == 6 && "inactive"@.len() == 8);
    assert("failed"@[0] == 'f' && "active"@[0] == 'a');
}

/// A workload will not run again exactly where its policy is not to restart it and its unit is
/// gone or failed; under another policy that is never said.
pub proof fn a_workload_is_done_where_it_failed_or_is_gone(
    observation: SystemdWorkloadObservationView,
    shown: Option<UnitView>,
)
    ensures
        permanently_stopped(observation, shown) is Ok <==> observation.restart_policy == "no"@,
        permanently_stopped(observation, shown) == Ok::<bool, Seq<char>>(true) <==> {
            &&& observation.restart_policy == "no"@
            &&& shown matches Some(unit) ==> value_of(unit.properties, "ActiveState"@) == Some(
                "failed"@,
            )
        },
{
}

/// A workload counts as started exactly where it was observed, was judged to be the launched
/// one, and runs the executable that is expected.
pub proof fn a_started_workload_runs_what_is_expected(
    observed: Result<SystemdWorkloadObservation, Refusal>,
    validation: Result<(), Refusal>,
    expected: IdunnExpectedIncarnationRecordView,
)
    ensures
        attempt_refusal(observed, validation, expected) is None <==> {
            &&& observed matches Ok(o) && o@.executable_sha256 == expected.artifact_sha256
            &&& validation is Ok
        },
{
}

/// What was prepared is started, and its unit is known, only where the plan, the release, the
/// expectation and the activation are of one incarnation.
pub proof fn only_one_incarnation_is_started(
    plan: PlannedTarget,
    sealed_release_id: Seq<char>,
    expected: IdunnExpectedIncarnationRecordView,
    activation: IdunnRuntimeActivationRecordView,
    writable: Result<(), Refusal>,
    executable: Result<String, Refusal>,
    foreign_plan: Seq<char>,
    foreign_target: Seq<char>,
)
    ensures
        prepared_refusal(plan, sealed_release_id, expected, activation, writable, executable)
            is None <==> {
            &&& expected.plan_id == plan.plan_id@
            &&& expected.sealed_release_id == sealed_release_id
            &&& activation.expected_projection_sha256 == expected.canonical_sha256
            &&& writable is Ok
            &&& executable is Ok
        },
        planned_unit(plan, expected, activation, foreign_plan, foreign_target) matches Ok(unit)
            ==> {
            &&& expected.plan_id == plan.plan_id@
            &&& expected.target == plan.target@
            &&& activation.expected_projection_sha256 == expected.canonical_sha256
            &&& unit_of(plan.unit_prefix@, activation.runtime_instance_id) == Ok::<
                Seq<char>,
                Seq<char>,
            >(unit)
        },
{
}

/// Whether a file is one that root alone may read, and no other name leads to.
pub open spec fn is_kept_by_root(f: FileFacts) -> bool {
    &&& f.is_file
    &&& !f.is_symlink
    &&& f.uid == 0
    &&& f.gid == 0
    &&& f.mode & 0o777 == 0o400
    &&& f.links == 1
}

/// A credential counts as written exactly where it is of the expected activation, stands as a
/// file of thirty-two bytes that root alone may read, and its directory was synchronized.
pub proof fn a_credential_is_written_whole(
    written: Result<IdunnRuntimeActivationRecord, Refusal>,
    expected: IdunnRuntimeActivationRecord,
    found: Result<FileFacts, Refusal>,
    synced: Result<(), Refusal>,
    removal: Result<(), Refusal>,
)
    ensures
        credential_refusal(written, expected, found, synced, removal) is None <==> {
            &&& written matches Ok(activation) && activation@ == expected@
            &&& found matches Ok(f) && is_kept_by_root(f) && f.len == 32
            &&& synced is Ok
        },
{
}

/// Whether an artifact was found to be what its receipt says: by its digest and by its size.
pub open spec fn is_sealed(receipt: ArtifactReceipt, found: ArtifactFinding) -> bool {
    &&& receipt.sha256@ == "sha256-"@ + found.sha256@
    &&& receipt.size_bytes == found.size_bytes
}

/// An installed release is admitted exactly where every artifact of it was found, and found to
/// be what its receipt says.
pub proof fn every_installed_artifact_is_sealed(
    receipts: Seq<ArtifactReceipt>,
    findings: Seq<Result<ArtifactFinding, Refusal>>,
)
    ensures
        installed_artifacts_refusal(receipts, findings) is None <==> forall|i: int|
            0 <= i < receipts.len() ==> (#[trigger] findings[i] matches Ok(found) && is_sealed(
                receipts[i],
                found,
            )),
    decreases receipts.len(),
{
    if receipts.len() > 0 {
        let fewer = receipts.drop_last();
        let last = receipts.len() - 1;
        every_installed_artifact_is_sealed(fewer, findings);
        assert(receipts[last] == receipts.last());
        if installed_artifacts_refusal(receipts, findings) is None {
            assert forall|i: int| 0 <= i < receipts.len() implies (
            #[trigger] findings[i] matches Ok(found) && is_sealed(receipts[i], found)) by {
                if i < last {
                    assert(fewer[i] == receipts[i]);
                }
            }
        }
        if forall|i: int|
            0 <= i < receipts.len() ==> (#[trigger] findings[i] matches Ok(found) && is_sealed(
                receipts[i],
                found,
            )) {
            assert forall|i: int| 0 <= i < fewer.len() implies (
            #[trigger] findings[i] matches Ok(found) && is_sealed(fewer[i], found)) by {
                assert(fewer[i] == receipts[i]);
            }
            let newest = findings[last];
        }
    }
}

/// Whether a path is prepared for a workload to write: it is root's and the state group's, not
/// everyone's, and the group may use it; a directory that must hand its group on does so.
pub open spec fn is_prepared(f: FileFacts, group: u32, hands_on: bool) -> bool {
    &&& !f.is_symlink
    &&& f.uid == 0
    &&& f.gid == group
    &&& f.mode & 0o002 == 0
    &&& if f.is_dir {
        f.mode & 0o070 == 0o070 && (hands_on ==> f.mode & 0o2000 != 0)
    } else {
        f.is_file && f.mode & 0o060 == 0o060
    }
}

proof fn lemma_writable(
    paths: Seq<Seq<char>>,
    readings: Seq<Result<FileFacts, Refusal>>,
    group: u32,
)
    ensures
        writable_paths_refusal(paths, readings, group) is None <==> forall|i: int|
            0 <= i < paths.len() ==> (#[trigger] readings[i] matches Ok(f) && is_prepared(
                f,
                group,
                false,
            )),
    decreases paths.len(),
{
    if paths.len() > 0 {
        lemma_writable(paths.drop_last(), readings, group);
        let newest = readings[paths.len() - 1];
    }
}

/// What a workload may write is admitted exactly where it has a state group and every path that
/// it may write is prepared for that group, its state root so that the group is handed on; or
/// where it may write nothing.
pub proof fn a_workload_writes_only_what_is_prepared(
    binding: SystemdWorkloadBinding,
    group: Result<u32, Refusal>,
    root: Result<FileFacts, Refusal>,
    readings: Seq<Result<FileFacts, Refusal>>,
)
    ensures
        binding.state_group is None ==> (writable_bindings_refusal(binding, group, root, readings)
            is None <==> binding.state_root is None && binding.read_write_paths@.len() == 0),
        binding.state_group is Some ==> (writable_bindings_refusal(binding, group, root, readings)
            is None <==> {
            &&& group is Ok
            &&& binding.state_root is Some ==> (root matches Ok(f) && is_prepared(
                f,
                group->Ok_0,
                true,
            ))
            &&& forall|i: int|
                0 <= i < binding.read_write_paths@.len() ==> (
                #[trigger] readings[i] matches Ok(f) && is_prepared(f, group->Ok_0, false))
        }),
{
    lemma_writable(texts(binding.read_write_paths@), readings, group->Ok_0);
}

/// Whether the source of a service credential is fit: at its canonical place, root's alone to
/// read, not empty, and below a directory that root alone may write.
pub open spec fn is_fit_source(path: Seq<char>, reading: SourceReading) -> bool {
    &&& absolute(path)
    &&& parent(path) matches Some(above) && reading.above.canonical matches Ok(canonical)
        && same_path(canonical@, above)
    &&& reading.above.facts matches Ok(a) && a.is_dir && !a.is_symlink && a.uid == 0 && a.mode
        & 0o022 == 0
    &&& reading.found.canonical matches Ok(canonical) && same_path(canonical@, path)
    &&& reading.found.facts matches Ok(f) && is_kept_by_root(f) && f.len > 0
}

/// The sources of a unit's credentials are admitted exactly where every one of them is fit.
pub proof fn every_credential_source_is_fit(sources: Seq<Pair>, readings: Seq<SourceReading>)
    ensures
        credential_sources_refusal(sources, readings) is None <==> forall|i: int|
            0 <= i < sources.len() ==> is_fit_source(
                sources[i].1,
                #[trigger] readings[i],
            ),
    decreases sources.len(),
{
    if sources.len() > 0 {
        let fewer = sources.drop_last();
        let last = sources.len() - 1;
        every_credential_source_is_fit(fewer, readings);
        assert(credential_source_refusal(
            sources[last].0,
            sources[last].1,
            readings[last].above,
            readings[last].found,
        ) is None <==> is_fit_source(sources[last].1, readings[last]));
        if credential_sources_refusal(sources, readings) is None {
            assert forall|i: int| 0 <= i < sources.len() implies is_fit_source(
                sources[i].1,
                #[trigger] readings[i],
            ) by {
                if i < last {
                    assert(fewer[i] == sources[i]);
                }
            }
        }
        if forall|i: int|
            0 <= i < sources.len() ==> is_fit_source(sources[i].1, #[trigger] readings[i]) {
            assert forall|i: int| 0 <= i < fewer.len() implies is_fit_source(
                fewer[i].1,
                #[trigger] readings[i],
            ) by {
                assert(fewer[i] == sources[i]);
            }
        }
    }
}

/// A credential is removed exactly where it stands as a file of root's, no other name leads to
/// it, it holds no more than a key does, and root alone has its directory; where nothing stands
/// there is nothing to remove, and anything else is refused.
pub proof fn only_a_credential_is_removed(
    path: Seq<char>,
    above: Result<FileFacts, Refusal>,
    found: Result<Option<FileFacts>, Refusal>,
)
    ensures
        removal_of(path, above, found) == Ok::<bool, Seq<char>>(true) <==> {
            &&& parent(path) is Some
            &&& found matches Ok(Some(f)) && f.is_file && !f.is_symlink && f.uid == 0 && f.gid == 0
                && f.links == 1 && f.len <= 32
            &&& above matches Ok(a) && a.is_dir && !a.is_symlink && a.uid == 0 && a.gid == 0
                && a.mode & 0o777 == 0o700
        },
        removal_of(path, above, found) == Ok::<bool, Seq<char>>(false) <==> found == Ok::<
            Option<FileFacts>,
            Refusal,
        >(None),
{
}

/// The two descriptors that a launched process alone gets are the third, its activation's key,
/// and the fourth, the identity of its presence, which is the expected one; each is of a file
/// that root alone may read, at its own place, for reading.
pub proof fn a_process_gets_its_key_and_its_presence(
    activation_source: Seq<char>,
    presence: Seq<char>,
    identity: Seq<char>,
    expected: Seq<char>,
    activation_file: DescriptorSource,
    presence_file: DescriptorSource,
    names: LaunchNames,
)
    requires
        descriptors_refusal(
            activation_source,
            presence,
            identity,
            expected,
            activation_file,
            presence_file,
            names,
        ) is None,
    ensures
        ({
            let key = descriptor_of(
                3,
                names.activation_descriptor@,
                activation_source,
                activation_file,
            );
            let shown = descriptor_of(4, names.presence_descriptor@, presence, presence_file);
            &&& identity == expected
            &&& key is Ok
            &&& shown is Ok
            &&& open_files(seq![key->Ok_0, shown->Ok_0], names) == Ok::<Seq<Seq<char>>, Seq<char>>(
                seq![
                    activation_source + ":"@ + names.activation_descriptor@ + ":read-only"@,
                    presence + ":"@ + names.presence_descriptor@ + ":read-only"@,
                ],
            )
            &&& is_descriptor(
                key->Ok_0,
                3,
                names.activation_descriptor@,
                activation_source,
                activation_file,
            )
            &&& is_descriptor(
                shown->Ok_0,
                4,
                names.presence_descriptor@,
                presence,
                presence_file,
            )
        }),
{
    reveal_strlit(":");
    reveal_strlit("read-only");
    reveal_strlit(":read-only");
    assert(activation_source + ":"@ + names.activation_descriptor@ + ":"@ + "read-only"@
        =~= activation_source + ":"@ + names.activation_descriptor@ + ":read-only"@);
    assert(presence + ":"@ + names.presence_descriptor@ + ":"@ + "read-only"@ =~= presence + ":"@
        + names.presence_descriptor@ + ":read-only"@);
}

/// Whether a descriptor is the one with a number and a name on a file, which root alone may
/// read.
pub open spec fn is_descriptor(
    d: ParentOnlyFileDescriptorObservationView,
    number: u32,
    name: Seq<char>,
    path: Seq<char>,
    file: DescriptorSource,
) -> bool {
    &&& d.fd_number == number
    &&& d.fd_name == name
    &&& d.source_path == path
    &&& absolute(path)
    &&& d.access == "read-only"@
    &&& d.device == file.device
    &&& d.inode == file.inode
    &&& d.sha256 == file.sha256@
    &&& d.size == file.len
    &&& d.size > 0
    &&& d.uid == 0 && file.uid == 0
    &&& d.gid == 0 && file.gid == 0
    &&& d.mode == 0o400 && file.mode & 0o777 == 0o400
    &&& d.links == 1 && file.links == 1
    &&& file.is_file
}

/// A runtime bundle is closed whole or not at all: where nothing in it is refused, its two
/// records and their locks are made readable and no more, and then the bundle itself.
pub proof fn a_bundle_is_closed_whole(
    bundle: Seq<char>,
    found: Result<FileFacts, Refusal>,
    above: Result<FileFacts, Refusal>,
    readings: Seq<Result<FileFacts, Refusal>>,
)
    ensures
        bundle_changes(bundle, found, above, readings).1 is None ==> {
            &&& bundle_changes(bundle, found, above, readings).0 == seq![
                (joined(bundle, "expected.cc"@), 0o444u32),
                (joined(bundle, "expected.cc.lock"@), 0o444u32),
                (joined(bundle, "activation.cc"@), 0o444u32),
                (joined(bundle, "activation.cc.lock"@), 0o444u32),
                (bundle, 0o555u32),
            ]
        },
        bundle_changes(bundle, found, above, readings).1 is None <==> {
            &&& found matches Ok(f) && f.is_dir && !f.is_symlink && f.uid == 0
            &&& parent(bundle) is Some
            &&& above matches Ok(a) && a.is_dir && !a.is_symlink && a.uid == 0 && a.mode & 0o022
                == 0
            &&& forall|i: int|
                0 <= i < 4 ==> (#[trigger] readings[i] matches Ok(f) && f.is_file && !f.is_symlink
                    && f.uid == 0)
        },
{
    reveal_with_fuel(document_changes, 5);
    let (a, b, c, d) = (readings[0], readings[1], readings[2], readings[3]);
    if bundle_changes(bundle, found, above, readings).1 is None {
        assert(bundle_changes(bundle, found, above, readings).0 =~= seq![
            (joined(bundle, "expected.cc"@), 0o444u32),
            (joined(bundle, "expected.cc.lock"@), 0o444u32),
            (joined(bundle, "activation.cc"@), 0o444u32),
            (joined(bundle, "activation.cc.lock"@), 0o444u32),
            (bundle, 0o555u32),
        ]);
    }
}

/// An instance has a unit exactly where it is named by a digest; and its credential is kept
/// under its own name, so that no two instances share one.
pub proof fn an_instance_has_a_unit_and_a_credential_of_its_own(
    prefix: Seq<char>,
    instance: Seq<char>,
    other: Seq<char>,
    credential_root: Seq<char>,
)
    ensures
        unit_of(prefix, instance) is Ok <==> {
            &&& instance.len() == 71
            &&& instance.take(7) == "sha256-"@
            &&& forall|i: int|
                7 <= i < 71 ==> {
                    let c = #[trigger] instance[i];
                    '0' <= c <= '9' || 'a' <= c <= 'f' || 'A' <= c <= 'F'
                }
        },
        credential_source(credential_root, instance) matches Ok(place) ==> {
            &&& absolute(credential_root)
            &&& place == joined(credential_root, instance + ".credential"@)
            &&& credential_source(credential_root, other) == Ok::<Seq<char>, Seq<char>>(place)
                && unit_of(prefix, instance) is Ok && unit_of(prefix, other) is Ok ==> instance
                == other
        },
{
    reveal_strlit("sha256-");
    let suffix = instance.skip("sha256-"@.len() as int);
    if unit_of(prefix, instance) is Ok {
        assert(instance.take(7) =~= "sha256-"@);
        assert forall|i: int| 7 <= i < 71 implies {
            let c = #[trigger] instance[i];
            '0' <= c <= '9' || 'a' <= c <= 'f' || 'A' <= c <= 'F'
        } by {
            assert(suffix[i - 7] == instance[i]);
            assert(hex(suffix[i - 7]));
        }
    }
    if instance.len() == 71 && instance.take(7) == "sha256-"@ && forall|i: int|
        7 <= i < 71 ==> {
            let c = #[trigger] instance[i];
            '0' <= c <= '9' || 'a' <= c <= 'f' || 'A' <= c <= 'F'
        } {
        assert forall|i: int| 0 <= i < suffix.len() implies hex(#[trigger] suffix[i]) by {
            assert(suffix[i] == instance[i + 7]);
        }
    }
    if let Ok(place) = credential_source(credential_root, instance) {
        if credential_source(credential_root, other) == Ok::<Seq<char>, Seq<char>>(place)
            && unit_of(prefix, instance) is Ok && unit_of(prefix, other) is Ok {
            assert(instance.take(7)[0] == 's' && other.take(7)[0] == 's');
            let a = joined(credential_root, instance + ".credential"@);
            let b = joined(credential_root, other + ".credential"@);
            let n = ".credential"@.len() as int;
            assert(instance.len() == other.len());
            assert(a.subrange(a.len() - n - instance.len(), a.len() - n) =~= instance);
            assert(b.subrange(b.len() - n - other.len(), b.len() - n) =~= other);
        }
    }
}

/// A unit is asked for exactly where its target declares the runtime bundle that it is told,
/// nothing that is bound replaces it, its secrets are fit to be handed over, and every part of
/// the request can be written.
pub proof fn a_unit_is_asked_for_where_every_part_can_be_written(
    launch: Launch,
    unit: Seq<char>,
    descriptors: Seq<ParentOnlyFileDescriptorObservation>,
    readings: Seq<SourceReading>,
    executable_is_file: bool,
    names: LaunchNames,
)
    ensures
        request_refusal(launch, unit, descriptors, readings, executable_is_file, names) is None
            <==> {
            &&& texts(launch.declaration.service.required_environment@).contains(
                names.runtime_bundle@,
            )
            &&& value_of(launch.binding.environment@, names.runtime_bundle@) is None
            &&& value_of(launch.binding.secret_files@, names.runtime_bundle@) is None
            &&& credential_sources_refusal(launch.binding.secret_files@, readings) is None
            &&& open_files(
                parent_only_file_descriptor_observation_views(descriptors),
                names,
            ) is Ok
            &&& launch.environment(unit, names) is Ok
            &&& launch.command(executable_is_file) is Ok
            &&& launch.description() is Ok
        },
{
}

} // verus!
