//! The driver of workloads that systemd runs: what it decides before it starts, observes
//! or stops one, and what it makes of what it finds.
use vstd::prelude::*;

use crate::authority::{
    root_file, validate_activation_credential_source, validate_workload_writable_path,
    writable_refusal, FileFacts,
};
use crate::binding::{ArtifactReceipt, SystemdWorkloadBinding};
use crate::launch::{
    descriptor_of, observe_parent_only_file_descriptor, open_files,
    parent_only_open_file_properties, DescriptorSource, LaunchNames,
};
use crate::maps::{value_of, Pair};
use crate::observation::{
    parent_only_file_descriptor_observation_views, InstalledReleaseObservation,
    ParentOnlyFileDescriptorObservation,
};
use crate::paths::{is_absolute, is_same_path, join, joined, same_path, absolute};
use crate::procfs::fault;
use crate::records::{IdunnExpectedIncarnationRecord, IdunnRuntimeActivationRecord};
use crate::scan::{trim, trimmed};
use crate::text::{
    behind, cat2, cat3, cat4, check, either, is_text, judged, refuse, refuse_behind, same_bytes,
    same_text, texts, unless, Refusal,
};
use crate::units::{SystemdUnitObservation, UnitView};
use crate::watch::{missed, shown_unit};

verus! {

/// The programs and places that the driver works with.
#[derive(Clone, Debug, PartialEq, Eq)]
pub struct SystemdTransientWorkloadDriver {
    pub systemd_run_program: String,
    pub systemctl_program: String,
    pub proc_root: String,
    pub credential_root: String,
}

impl Default for SystemdTransientWorkloadDriver {
    fn default() -> (driver: Self)
        ensures
            driver.systemd_run_program@ == "/usr/bin/systemd-run"@,
            driver.systemctl_program@ == "/usr/bin/systemctl"@,
            driver.proc_root@ == "/proc"@,
            driver.credential_root@ == "/run/idunn/activation-credentials"@,
    {
        SystemdTransientWorkloadDriver {
            systemd_run_program: "/usr/bin/systemd-run".to_owned(),
            systemctl_program: "/usr/bin/systemctl".to_owned(),
            proc_root: "/proc".to_owned(),
            credential_root: "/run/idunn/activation-credentials".to_owned(),
        }
    }
}

/// Admits a program to be run by its path.
pub fn admit_actuator(program: &str) -> (outcome: Result<(), Refusal>)
    ensures
        judged(
            outcome,
            unless(absolute(program@), "workload actuator program is not absolute"@),
        ),
{
    check(is_absolute(program), "workload actuator program is not absolute")
}

/// Settles a run of an actuator: one that failed is refused with what it complained.
pub fn settle_actuator(program: &str, success: bool, status: &str, complaint: &str) -> (outcome:
    Result<(), Refusal>)
    ensures
        judged(
            outcome,
            unless(
                success,
                "workload actuator "@ + program@ + " exited with "@ + status@ + ": "@ + trimmed(
                    complaint@,
                ),
            ),
        ),
{
    let words = trim(complaint);
    let head = cat4("workload actuator ", program, " exited with ", status);
    let all = cat3(head.as_str(), ": ", words.as_str());
    check(success, all.as_str())
}

/// Why a credential that was written is not good, if so: it is of another activation, it is
/// not the exact file that it must be, or its directory could not be synchronized.
pub open spec fn written_credential_refusal(
    written: IdunnRuntimeActivationRecord,
    expected: IdunnRuntimeActivationRecord,
    found: Result<FileFacts, Refusal>,
    synced: Result<(), Refusal>,
) -> Option<Seq<char>> {
    either(
        unless(
            written@ == expected@,
            "activation launch changed while writing its credential"@,
        ),
        either(
            either(
                missed(found),
                unless(
                    root_file(found->Ok_0, 0o400) && found->Ok_0.len == 32,
                    "activation credential source is not one exact root-owned 0400 32-byte file"@,
                ),
            ),
            missed(synced),
        ),
    )
}

/// Why a credential is not written, if so. One that is not whole or not good is removed; where
/// that fails too, its failure is told before the other.
pub open spec fn credential_refusal(
    written: Result<IdunnRuntimeActivationRecord, Refusal>,
    expected: IdunnRuntimeActivationRecord,
    found: Result<FileFacts, Refusal>,
    synced: Result<(), Refusal>,
    removal: Result<(), Refusal>,
) -> Option<Seq<char>> {
    match written {
        Err(refusal) => match removal {
            Ok(()) => Some(refusal@),
            Err(left) => Some(
                behind(
                    "deleting incomplete activation credential also failed: "@ + left@,
                    refusal@,
                ),
            ),
        },
        Ok(activation) => match (
            written_credential_refusal(activation, expected, found, synced),
            removal,
        ) {
            (None, _) => None,
            (Some(words), Ok(())) => Some(words),
            (Some(words), Err(left)) => Some(
                behind("deleting invalid activation credential also failed: "@ + left@, words),
            ),
        },
    }
}

fn check_written_credential(
    written: &IdunnRuntimeActivationRecord,
    expected: &IdunnRuntimeActivationRecord,
    found: &Result<FileFacts, Refusal>,
    synced: &Result<(), Refusal>,
) -> (outcome: Result<(), Refusal>)
    ensures
        judged(outcome, written_credential_refusal(*written, *expected, *found, *synced)),
{
    check(written.same(expected), "activation launch changed while writing its credential")?;
    match found {
        Err(refusal) => return Err(Refusal { text: refusal.text.clone() }),
        Ok(f) => validate_activation_credential_source(f)?,
    }
    match synced {
        Err(refusal) => Err(Refusal { text: refusal.text.clone() }),
        Ok(()) => Ok(()),
    }
}

/// Settles the writing of an activation credential, given what came of the writing, the file
/// as it is found, and what came of its removal, which counts where it was not good.
pub fn write_activation_credential(
    written: &Result<IdunnRuntimeActivationRecord, Refusal>,
    expected: &IdunnRuntimeActivationRecord,
    found: &Result<FileFacts, Refusal>,
    synced: &Result<(), Refusal>,
    removal: &Result<(), Refusal>,
) -> (outcome: Result<(), Refusal>)
    ensures
        judged(outcome, credential_refusal(*written, *expected, *found, *synced, *removal)),
{
    let (refusal, head) = match written {
        Err(refusal) => (
            Refusal { text: refusal.text.clone() },
            "deleting incomplete activation credential also failed: ",
        ),
        Ok(activation) => match check_written_credential(activation, expected, found, synced) {
            Ok(()) => return Ok(()),
            Err(refusal) => (
                refusal,
                "deleting invalid activation credential also failed: ",
            ),
        },
    };
    match removal {
        Ok(()) => Err(refusal),
        Err(left) => {
            let words = cat2(head, left.text.as_str());
            Err(refuse_behind(words.as_str(), &refusal))
        },
    }
}

/// Admits a prepared activation credential by the key that it holds.
pub fn validate_prepared_activation_credential(
    activation: &IdunnRuntimeActivationRecord,
    identity_id: &str,
    public_key: &[u8],
) -> (outcome: Result<(), Refusal>)
    ensures
        judged(
            outcome,
            unless(
                identity_id@ == activation@.activation_signer_identity_id && public_key@
                    == activation@.activation_signer_public_key,
                "prepared activation credential differs from the persisted activation"@,
            ),
        ),
{
    check(
        same_text(identity_id, activation.activation_signer_identity_id.as_str()) && same_bytes(
            public_key,
            activation.activation_signer_public_key.as_slice(),
        ),
        "prepared activation credential differs from the persisted activation",
    )
}

/// Where the identity of a workload's presence is kept, or why there is no such place.
pub open spec fn presence_source(secrets: Seq<Pair>, names: LaunchNames) -> Result<
    Seq<char>,
    Seq<char>,
> {
    match value_of(secrets, names.presence_identity_binding@) {
        Some(path) => Ok(path),
        None => Err("workload has no parent-only runtime presence identity source"@),
    }
}

/// Where the identity of a workload's presence is kept.
pub fn presence_identity_source(binding: &SystemdWorkloadBinding, names: &LaunchNames) -> (outcome:
    Result<String, Refusal>)
    ensures
        crate::clock::written(outcome, presence_source(binding.secret_files@, *names)),
{
    match binding.secret_files.get(names.presence_identity_binding.as_str()) {
        Some(path) => Ok(path),
        None => Err(refuse("workload has no parent-only runtime presence identity source")),
    }
}

/// Why the descriptors of a launch are refused, if they are: the prepared credential is
/// judged first, and the presence identity must be the expected one.
pub open spec fn descriptors_refusal(
    activation_source: Seq<char>,
    presence: Seq<char>,
    identity: Seq<char>,
    expected: Seq<char>,
    activation_file: DescriptorSource,
    presence_file: DescriptorSource,
    names: LaunchNames,
) -> Option<Seq<char>> {
    let first = descriptor_of(3, names.activation_descriptor@, activation_source, activation_file);
    let second = descriptor_of(4, names.presence_descriptor@, presence, presence_file);
    either(
        unless(
            identity == expected,
            "runtime presence identity source differs from Expected"@,
        ),
        either(
            fault(first),
            either(fault(second), fault(open_files(seq![first->Ok_0, second->Ok_0], names))),
        ),
    )
}

/// The descriptors that a launched process alone gets: its activation key and the
/// identity of its presence.
pub fn parent_only_file_descriptors(
    activation_source: &str,
    presence: &str,
    presence_identity_id: &str,
    expected: &IdunnExpectedIncarnationRecord,
    activation_file: &DescriptorSource,
    presence_file: &DescriptorSource,
    names: &LaunchNames,
) -> (outcome: Result<Vec<ParentOnlyFileDescriptorObservation>, Refusal>)
    ensures
        match descriptors_refusal(
            activation_source@,
            presence@,
            presence_identity_id@,
            expected@.expected_signer_identity_id,
            *activation_file,
            *presence_file,
            *names,
        ) {
            Some(w) => outcome matches Err(refusal) && refusal@ == w,
            None => outcome matches Ok(list) && parent_only_file_descriptor_observation_views(
                list@,
            ) == seq![
                descriptor_of(
                    3,
                    names.activation_descriptor@,
                    activation_source@,
                    *activation_file,
                )->Ok_0,
                descriptor_of(4, names.presence_descriptor@, presence@, *presence_file)->Ok_0,
            ],
        },
{
    check(
        same_text(presence_identity_id, expected.expected_signer_identity_id.as_str()),
        "runtime presence identity source differs from Expected",
    )?;
    let first = observe_parent_only_file_descriptor(
        3,
        names.activation_descriptor.as_str(),
        activation_source,
        activation_file,
    )?;
    let second = observe_parent_only_file_descriptor(
        4,
        names.presence_descriptor.as_str(),
        presence,
        presence_file,
    )?;
    let ghost views = seq![first@, second@];
    let mut list: Vec<ParentOnlyFileDescriptorObservation> = Vec::new();
    list.push(first);
    list.push(second);
    assert(parent_only_file_descriptor_observation_views(list@) =~= views);
    let _ = parent_only_open_file_properties(list.as_slice(), names)?;
    Ok(list)
}

/// What is to be done about a unit.
#[derive(Clone, Copy, Debug, PartialEq, Eq, Structural)]
pub enum StopStep {
    Leave,
    Stop,
}

/// What is to be done about a unit that was submitted, or why nothing is.
pub open spec fn submitted_stop(shown: Option<UnitView>, description: Seq<char>) -> Result<
    StopStep,
    Seq<char>,
> {
    match shown {
        None => Ok(StopStep::Leave),
        Some(unit) => if value_of(unit.properties, "Description"@) == Some(description) {
            Ok(StopStep::Stop)
        } else {
            Err("refusing to stop a submitted unit whose description changed"@)
        },
    }
}

/// Decides whether a submitted unit is to be stopped: only one that is still described as
/// it was submitted is.
pub fn stop_submitted_unit(
    shown: &Option<SystemdUnitObservation>,
    expected_description: &str,
) -> (outcome: Result<StopStep, Refusal>)
    ensures
        crate::procfs::comes_to(
            outcome,
            submitted_stop(shown_unit(*shown), expected_description@),
        ),
{
    match shown {
        None => Ok(StopStep::Leave),
        Some(unit) => {
            let description = unit.properties.get("Description");
            check(
                is_text(&description, expected_description),
                "refusing to stop a submitted unit whose description changed",
            )?;
            Ok(StopStep::Stop)
        },
    }
}

/// Whether a unit is at rest.
pub open spec fn at_rest(shown: Option<UnitView>) -> bool {
    match shown {
        None => true,
        Some(unit) => value_of(unit.properties, "ActiveState"@) == Some("inactive"@) || value_of(
            unit.properties,
            "ActiveState"@,
        ) == Some("failed"@),
    }
}

fn is_at_rest(shown: &Option<SystemdUnitObservation>) -> (is: bool)
    ensures
        is == at_rest(shown_unit(*shown)),
{
    match shown {
        None => true,
        Some(unit) => {
            let state = unit.properties.get("ActiveState");
            is_text(&state, "inactive") || is_text(&state, "failed")
        },
    }
}

/// Settles the stop of a submitted unit: it must be at rest.
pub fn settle_submitted_stop(shown: &Option<SystemdUnitObservation>) -> (outcome: Result<
    (),
    Refusal,
>)
    ensures
        judged(
            outcome,
            unless(
                at_rest(shown_unit(*shown)),
                "submitted systemd unit remained active after stop"@,
            ),
        ),
{
    check(is_at_rest(shown), "submitted systemd unit remained active after stop")
}

/// What an artifact was found to be: its digest without a prefix, and its size.
#[derive(Clone, Debug, PartialEq, Eq)]
pub struct ArtifactFinding {
    pub sha256: String,
    pub size_bytes: u64,
}

/// Why an installed artifact is refused, if it is.
pub open spec fn installed_artifact_refusal(
    receipt: ArtifactReceipt,
    found: ArtifactFinding,
) -> Option<Seq<char>> {
    unless(
        "sha256-"@ + found.sha256@ == receipt.sha256@ && found.size_bytes == receipt.size_bytes,
        "installed artifact "@ + receipt.artifact_id@ + " differs from its sealed receipt"@,
    )
}

/// Why the first bad artifact of a release is refused, if one is.
pub open spec fn installed_artifacts_refusal(
    receipts: Seq<ArtifactReceipt>,
    findings: Seq<Result<ArtifactFinding, Refusal>>,
) -> Option<Seq<char>>
    decreases receipts.len(),
{
    if receipts.len() == 0 {
        None
    } else {
        let last = receipts.len() - 1;
        either(
            installed_artifacts_refusal(receipts.drop_last(), findings),
            either(
                missed(findings[last]),
                installed_artifact_refusal(receipts[last], findings[last]->Ok_0),
            ),
        )
    }
}

proof fn lemma_artifacts_refused(
    receipts: Seq<ArtifactReceipt>,
    findings: Seq<Result<ArtifactFinding, Refusal>>,
    n: int,
)
    requires
        0 <= n <= receipts.len(),
        installed_artifacts_refusal(receipts.take(n), findings) is Some,
    ensures
        installed_artifacts_refusal(receipts, findings) == installed_artifacts_refusal(
            receipts.take(n),
            findings,
        ),
    decreases receipts.len() - n,
{
    if n < receipts.len() {
        assert(receipts.take(n + 1).drop_last() =~= receipts.take(n));
        lemma_artifacts_refused(receipts, findings, n + 1);
    } else {
        assert(receipts.take(n) =~= receipts);
    }
}

fn check_installed_artifact(
    receipt: &ArtifactReceipt,
    found: &Result<ArtifactFinding, Refusal>,
) -> (outcome: Result<(), Refusal>)
    ensures
        judged(
            outcome,
            either(missed(*found), installed_artifact_refusal(*receipt, found->Ok_0)),
        ),
{
    match found {
        Err(refusal) => Err(Refusal { text: refusal.text.clone() }),
        Ok(finding) => {
            let id = cat2("sha256-", finding.sha256.as_str());
            let words = cat3(
                "installed artifact ",
                receipt.artifact_id.as_str(),
                " differs from its sealed receipt",
            );
            check(
                same_text(id.as_str(), receipt.sha256.as_str()) && finding.size_bytes
                    == receipt.size_bytes,
                words.as_str(),
            )
        },
    }
}

/// What is done about the place of a sealed release.
#[derive(Clone, Copy, Debug, PartialEq, Eq, Structural)]
pub enum InstallStep {
    CopyThenMove,
    Keep,
}

/// What is done about the place of a sealed release: one that stands there already is not
/// copied again.
pub fn install_step(stands: bool) -> (step: InstallStep)
    ensures
        step == (if stands {
            InstallStep::Keep
        } else {
            InstallStep::CopyThenMove
        }),
{
    if stands {
        InstallStep::Keep
    } else {
        InstallStep::CopyThenMove
    }
}

/// Why a copy of a sealed release could not be moved to its place, and whether that is because
/// something stood there.
#[derive(Clone, Debug, PartialEq, Eq)]
pub struct FailedMove {
    pub occupied: bool,
    pub refusal: Refusal,
}

/// Why a release is not installed after its copy was to be moved to its place, if so. A copy
/// that was not moved is removed, and that must succeed; where the release stands at its place
/// by then, another installation came first and counts.
pub open spec fn move_refusal(
    place: Seq<char>,
    moved: Result<(), FailedMove>,
    removal: Result<(), Refusal>,
    stands: bool,
) -> Option<Seq<char>> {
    match moved {
        Ok(_) => None,
        Err(failed) => either(
            missed(removal),
            unless(
                stands && failed.occupied,
                behind("installing sealed release "@ + place, failed.refusal@),
            ),
        ),
    }
}

/// Settles the moving of a sealed release to its place, given what came of the removal of a
/// copy that was not moved, and whether the release stands at its place by then.
pub fn settle_move(
    place: &str,
    moved: &Result<(), FailedMove>,
    removal: &Result<(), Refusal>,
    stands: bool,
) -> (outcome: Result<(), Refusal>)
    ensures
        judged(outcome, move_refusal(place@, *moved, *removal, stands)),
{
    let failed = match moved {
        Ok(_) => return Ok(()),
        Err(failed) => failed,
    };
    if let Err(refusal) = removal {
        return Err(Refusal { text: refusal.text.clone() });
    }
    if stands && failed.occupied {
        return Ok(());
    }
    let words = cat2("installing sealed release ", place);
    Err(refuse_behind(words.as_str(), &failed.refusal))
}

/// Admits the artifacts of an installed release: each is the sealed one. There is a
/// finding for each.
pub fn install_release(
    receipts: &Vec<ArtifactReceipt>,
    findings: &Vec<Result<ArtifactFinding, Refusal>>,
) -> (outcome: Result<(), Refusal>)
    requires
        findings@.len() == receipts@.len(),
    ensures
        judged(outcome, installed_artifacts_refusal(receipts@, findings@)),
{
    let mut i: usize = 0;
    assert(receipts@.take(0) =~= Seq::<ArtifactReceipt>::empty());
    while i < receipts.len()
        invariant
            i <= receipts@.len(),
            findings@.len() == receipts@.len(),
            installed_artifacts_refusal(receipts@.take(i as int), findings@) is None,
        decreases receipts@.len() - i,
    {
        proof {
            assert(receipts@.take(i + 1).drop_last() =~= receipts@.take(i as int));
            assert(receipts@.take(i + 1)[i as int] == receipts@[i as int]);
        }
        match check_installed_artifact(&receipts[i], &findings[i]) {
            Ok(()) => {},
            Err(refusal) => {
                proof {
                    lemma_artifacts_refused(receipts@, findings@, i + 1);
                }
                return Err(refusal);
            },
        }
        i += 1;
    }
    assert(receipts@.take(i as int) =~= receipts@);
    Ok(())
}

/// Where a release is installed.
pub fn release_place(binding: &SystemdWorkloadBinding, sealed_release_id: &str) -> (place: String)
    ensures
        place@ == joined(binding.release_root@, sealed_release_id@),
{
    join(binding.release_root.as_str(), sealed_release_id)
}

/// Admits an installed release: it is the sealed one, at its place, and every artifact of
/// it is whole. There is a finding for each artifact.
pub fn validate_installed_release(
    binding: &SystemdWorkloadBinding,
    sealed_release_id: &str,
    installed: &InstalledReleaseObservation,
    receipts: &Vec<ArtifactReceipt>,
    findings: &Vec<Result<ArtifactFinding, Refusal>>,
) -> (outcome: Result<(), Refusal>)
    requires
        findings@.len() == receipts@.len(),
    ensures
        judged(
            outcome,
            either(
                unless(
                    installed@.sealed_release_id == sealed_release_id@ && same_path(
                        installed@.root,
                        joined(binding.release_root@, sealed_release_id@),
                    ),
                    "installed release observation belongs to another sealed release"@,
                ),
                installed_artifacts_refusal(receipts@, findings@),
            ),
        ),
{
    let place = release_place(binding, sealed_release_id);
    check(
        same_text(installed.sealed_release_id.as_str(), sealed_release_id) && is_same_path(
            installed.root.as_str(),
            place.as_str(),
        ),
        "installed release observation belongs to another sealed release",
    )?;
    install_release(receipts, findings)
}

/// Where the bundle of an activation is kept.
pub fn runtime_bundle_place(
    binding: &SystemdWorkloadBinding,
    activation: &IdunnRuntimeActivationRecord,
) -> (place: String)
    ensures
        place@ == joined(binding.runtime_root@, activation@.runtime_instance_id),
{
    join(binding.runtime_root.as_str(), activation.runtime_instance_id.as_str())
}

/// Why the first bad of some writable paths is refused, if one is.
pub open spec fn writable_paths_refusal(
    paths: Seq<Seq<char>>,
    readings: Seq<Result<FileFacts, Refusal>>,
    state_group_id: u32,
) -> Option<Seq<char>>
    decreases paths.len(),
{
    if paths.len() == 0 {
        None
    } else {
        let last = paths.len() - 1;
        either(
            writable_paths_refusal(paths.drop_last(), readings, state_group_id),
            writable_refusal(paths[last], readings[last], state_group_id, false),
        )
    }
}

proof fn lemma_writable_refused(
    paths: Seq<Seq<char>>,
    readings: Seq<Result<FileFacts, Refusal>>,
    state_group_id: u32,
    n: int,
)
    requires
        0 <= n <= paths.len(),
        writable_paths_refusal(paths.take(n), readings, state_group_id) is Some,
    ensures
        writable_paths_refusal(paths, readings, state_group_id) == writable_paths_refusal(
            paths.take(n),
            readings,
            state_group_id,
        ),
    decreases paths.len() - n,
{
    if n < paths.len() {
        assert(paths.take(n + 1).drop_last() =~= paths.take(n));
        lemma_writable_refused(paths, readings, state_group_id, n + 1);
    } else {
        assert(paths.take(n) =~= paths);
    }
}

/// Why what a workload may write is refused, if it is.
pub open spec fn writable_bindings_refusal(
    binding: SystemdWorkloadBinding,
    group: Result<u32, Refusal>,
    root: Result<FileFacts, Refusal>,
    readings: Seq<Result<FileFacts, Refusal>>,
) -> Option<Seq<char>> {
    if binding.state_group is None {
        unless(
            binding.state_root is None && binding.read_write_paths@.len() == 0,
            "dynamic workload writable paths have no fixed state group"@,
        )
    } else {
        either(
            missed(group),
            either(
                match binding.state_root {
                    Some(path) => writable_refusal(path@, root, group->Ok_0, true),
                    None => None,
                },
                writable_paths_refusal(texts(binding.read_write_paths@), readings, group->Ok_0),
            ),
        )
    }
}

/// Admits what a workload may write, given the group that its state belongs to. There is
/// a reading for each writable path.
pub fn validate_writable_bindings(
    binding: &SystemdWorkloadBinding,
    group: &Result<u32, Refusal>,
    root: &Result<FileFacts, Refusal>,
    readings: &Vec<Result<FileFacts, Refusal>>,
) -> (outcome: Result<(), Refusal>)
    requires
        readings@.len() == binding.read_write_paths@.len(),
    ensures
        judged(outcome, writable_bindings_refusal(*binding, *group, *root, readings@)),
{
    if binding.state_group.is_none() {
        return check(
            binding.state_root.is_none() && binding.read_write_paths.len() == 0,
            "dynamic workload writable paths have no fixed state group",
        );
    }
    let id: u32 = match group {
        Ok(id) => *id,
        Err(refusal) => return Err(Refusal { text: refusal.text.clone() }),
    };
    match &binding.state_root {
        Some(path) => validate_workload_writable_path(path.as_str(), root, id, true)?,
        None => {},
    }
    let ghost all = texts(binding.read_write_paths@);
    let mut i: usize = 0;
    assert(all.take(0) =~= Seq::<Seq<char>>::empty());
    while i < binding.read_write_paths.len()
        invariant
            i <= binding.read_write_paths@.len(),
            all == texts(binding.read_write_paths@),
            readings@.len() == binding.read_write_paths@.len(),
            binding.state_group is Some,
            *group == Ok::<u32, Refusal>(id),
            (match binding.state_root {
                Some(path) => writable_refusal(path@, *root, id, true),
                None => None,
            }) is None,
            writable_paths_refusal(all.take(i as int), readings@, id) is None,
        decreases binding.read_write_paths@.len() - i,
    {
        proof {
            assert(all.take(i + 1).drop_last() =~= all.take(i as int));
            assert(all.take(i + 1)[i as int] == binding.read_write_paths@[i as int]@);
        }
        match validate_workload_writable_path(
            binding.read_write_paths[i].as_str(),
            &readings[i],
            id,
            false,
        ) {
            Ok(()) => {},
            Err(refusal) => {
                proof {
                    lemma_writable_refused(all, readings@, id, i + 1);
                }
                return Err(refusal);
            },
        }
        i += 1;
    }
    assert(all.take(i as int) =~= all);
    Ok(())
}

} // verus!
