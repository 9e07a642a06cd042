//! What holds of every workload that was observed.
use vstd::prelude::*;

use crate::admission::observed_names;
use crate::digest::digest_id;
use crate::launch::{open_files, LaunchNames};
use crate::lifecycle::asks_again;
use crate::maps::{value_of, Pair};
use crate::observation::has_private_identity;
use crate::paths::{
    below, components, joined, lemma_component_dot, lemma_component_shape, lemma_join_components,
};
use crate::procfs::{
    environment_entries,
    inside_process_root,
    status_four,
    status_hex,
    status_numbers,
};
use crate::scan::{decimal_number, lines};
use crate::text::{texts, Refusal};
use crate::units::{show_arguments, shown_properties, UnitView};
use crate::watch::{
    contract_of, credentials_in, delivery_in, namespace_in, observation_of, observation_refusal,
    process_found, selected_in, CredentialReading, ObservationRequest, ProcessEvidence,
    ProcessFindings,
};

verus! {

/// A unit whose observation is not refused runs under an identity and in namespaces of its
/// own, so that it can be admitted beside an incumbent.
pub proof fn an_observed_unit_is_private(
    request: ObservationRequest,
    unit: UnitView,
    evidence: ProcessEvidence,
    findings: ProcessFindings,
    process_root: Seq<char>,
    credential_root: Seq<char>,
    names: LaunchNames,
    environment_contract_sha256: Seq<char>,
)
    requires
        observation_refusal(
            request,
            Some(unit),
            evidence,
            process_root,
            credential_root,
            names,
        ) is None,
        process_found(findings, request, evidence, process_root, names),
    ensures
        has_private_identity(
            observation_of(
                request,
                contract_of(unit),
                evidence,
                findings,
                environment_contract_sha256,
            ),
        ),
{
}

/// A path as a process sees it is looked at within the root of that process, and every
/// component of it lies behind that root.
pub proof fn a_projected_path_stays_within(process_root: Seq<char>, path: Seq<char>)
    ensures
        inside_process_root(process_root, path) matches Ok(projected) ==> {
            &&& below(projected, process_root)
            &&& components(projected) == components(process_root) + components(path)
        },
{
    if let Ok(projected) = inside_process_root(process_root, path) {
        let parts = components(path);
        assert forall|i: int| 0 <= i < parts.len() implies (#[trigger] parts[i]).len() > 0
            && !parts[i].contains('/') && parts[i] != seq!['.'] by {
            lemma_component_shape(path, i);
            lemma_component_dot(path, i);
        }
        lemma_join_components(process_root, parts);
        let whole = components(process_root) + parts;
        assert(whole.take(components(process_root).len() as int) =~= components(process_root));
    }
}

/// What systemd shows of a truth.
pub open spec fn shown_truth(b: bool) -> Seq<char> {
    if b {
        "yes"@
    } else {
        "no"@
    }
}

/// An observation tells what its unit shows, each property under its own name, and what its
/// process was found to be; and nothing in it is of another unit or another process.
pub proof fn an_observation_tells_what_its_unit_shows(
    request: ObservationRequest,
    unit: UnitView,
    evidence: ProcessEvidence,
    findings: ProcessFindings,
    process_root: Seq<char>,
    credential_root: Seq<char>,
    names: LaunchNames,
    environment_contract_sha256: Seq<char>,
)
    requires
        observation_refusal(
            request,
            Some(unit),
            evidence,
            process_root,
            credential_root,
            names,
        ) is None,
        process_found(findings, request, evidence, process_root, names),
    ensures
        ({
            let o = observation_of(
                request,
                contract_of(unit),
                evidence,
                findings,
                environment_contract_sha256,
            );
            let shown = |name: Seq<char>| value_of(unit.properties, name);
            let status = evidence.status->Ok_0@;
            &&& o.unit == request.unit@
            &&& o.runtime_instance_id == request.runtime_instance_id@
            &&& shown("ActiveState"@) == Some("active"@)
            &&& shown("SubState"@) == Some("running"@)
            &&& shown("Description"@) == Some(o.unit_description)
            &&& shown("InvocationID"@) == Some(o.invocation_id)
            &&& shown("Type"@) == Some(o.service_type)
            &&& shown("Restart"@) == Some(o.restart_policy)
            &&& shown("KillMode"@) == Some(o.kill_mode)
            &&& shown("DynamicUser"@) == Some(shown_truth(o.dynamic_user))
            &&& shown("User"@) == Some(o.systemd_user)
            &&& shown("Group"@) == Some(o.systemd_group)
            &&& shown("SupplementaryGroups"@) == Some(o.supplementary_groups)
            &&& shown("CapabilityBoundingSet"@) == Some(o.capability_bounding_set)
            &&& shown("AmbientCapabilities"@) == Some(o.ambient_capabilities)
            &&& shown("PrivateMounts"@) == Some(shown_truth(o.private_mounts))
            &&& shown("PrivatePIDs"@) == Some(shown_truth(o.private_pids))
            &&& shown("ProtectProc"@) == Some(o.protect_proc)
            &&& shown("ProcSubset"@) == Some(o.proc_subset)
            &&& shown("NoNewPrivileges"@) == Some(shown_truth(o.no_new_privileges))
            &&& shown("UMask"@) == Some(o.umask)
            &&& shown("InaccessiblePaths"@) == Some(o.inaccessible_paths)
            &&& shown("LoadCredential"@) == Some(o.load_credential)
            &&& shown("WorkingDirectory"@) == Some(o.working_directory)
            &&& shown("ControlGroup"@) == Some(o.control_group)
            &&& decimal_number(shown("MainPID"@)->0, u32::MAX as int) == Some(o.main_pid as int)
            &&& decimal_number(
                shown("ExecMainStartTimestampMonotonic"@)->0,
                u64::MAX as int,
            ) == Some(o.exec_main_start_timestamp_monotonic as int)
            &&& status_four(status, "Uid"@) == Ok::<Seq<u32>, Seq<char>>(o.process_uids)
            &&& status_four(status, "Gid"@) == Ok::<Seq<u32>, Seq<char>>(o.process_gids)
            &&& status_numbers(status, "Groups"@) == Ok::<Seq<u32>, Seq<char>>(o.process_groups)
            &&& status_numbers(status, "NSpid"@) == Ok::<Seq<u32>, Seq<char>>(
                o.process_namespace_pids,
            )
            &&& status_hex(status, "CapInh"@) == Ok::<u64, Seq<char>>(o.process_cap_inheritable)
            &&& status_hex(status, "CapPrm"@) == Ok::<u64, Seq<char>>(o.process_cap_permitted)
            &&& status_hex(status, "CapEff"@) == Ok::<u64, Seq<char>>(o.process_cap_effective)
            &&& status_hex(status, "CapBnd"@) == Ok::<u64, Seq<char>>(o.process_cap_bounding)
            &&& status_hex(status, "CapAmb"@) == Ok::<u64, Seq<char>>(o.process_cap_ambient)
            &&& evidence.executable matches Ok(e) && o.executable == e.path@ && o.executable_device
                == e.device && o.executable_inode == e.inode && e.device == e.sealed_device
                && e.inode == e.sealed_inode && e.is_file
            &&& evidence.executable_sha256 matches Ok(id) && o.executable_sha256 == id@
            &&& evidence.command_line matches Ok(line) && o.command_line_sha256 == digest_id(line@)
            &&& value_of(findings.environment@, names.runtime_bundle@) == Some(o.runtime_bundle)
            &&& o.environment_names == texts(request.environment_names@)
            &&& o.parent_only_file_descriptors == request.descriptors()
            &&& open_files(o.parent_only_file_descriptors, names) == Ok::<
                Seq<Seq<char>>,
                Seq<char>,
            >(unit.open_files)
            &&& o.activation_signer_identity_id == request.activation_signer_identity_id@
            &&& o.activation_signer_public_key == request.activation_signer_public_key@
            &&& evidence.final_unit matches Ok(Some(last)) && last@ == unit
            &&& lines(evidence.control_groups->Ok_0@) == seq!["0::"@ + o.control_group]
        }),
{
}

/// A unit whose observation is not refused is confined by systemd and by the kernel: as every
/// unit is asked to be, under one unprivileged identity of its own, without a capability, and
/// first in a process namespace that is not the observer's.
pub proof fn an_observed_unit_is_confined(
    request: ObservationRequest,
    unit: UnitView,
    evidence: ProcessEvidence,
    findings: ProcessFindings,
    process_root: Seq<char>,
    credential_root: Seq<char>,
    names: LaunchNames,
    environment_contract_sha256: Seq<char>,
    i: int,
)
    requires
        observation_refusal(
            request,
            Some(unit),
            evidence,
            process_root,
            credential_root,
            names,
        ) is None,
        process_found(findings, request, evidence, process_root, names),
    ensures
        ({
            let o = observation_of(
                request,
                contract_of(unit),
                evidence,
                findings,
                environment_contract_sha256,
            );
            &&& o.service_type == "exec"@
            &&& o.restart_policy == "no"@
            &&& o.kill_mode == "mixed"@
            &&& o.umask == "0007"@
            &&& o.protect_proc == "invisible"@
            &&& o.proc_subset == "all"@
            &&& o.dynamic_user && o.private_mounts && o.private_pids && o.no_new_privileges
            &&& o.supplementary_groups.len() == 0
            &&& o.capability_bounding_set.len() == 0
            &&& o.ambient_capabilities.len() == 0
            &&& o.inaccessible_paths == credential_root
            &&& 61_184 <= o.process_uids[0] <= 65_519
            &&& o.process_gids[0] > 0
            &&& 0 <= i < o.process_uids.len() ==> o.process_uids[i] == o.process_uids[0]
            &&& 0 <= i < o.process_gids.len() ==> o.process_gids[i] == o.process_gids[0]
            &&& 0 <= i < o.process_groups.len() ==> o.process_groups[i] == o.process_gids[0]
            &&& o.process_cap_inheritable == 0
            &&& o.process_cap_permitted == 0
            &&& o.process_cap_effective == 0
            &&& o.process_cap_bounding == 0
            &&& o.process_cap_ambient == 0
            &&& o.process_no_new_privileges
            &&& o.process_namespace_pids.len() >= 2
            &&& o.process_namespace_pids[0] == o.main_pid
            &&& o.process_namespace_pids.last() == 1
            &&& namespace_in(evidence.mount_namespace, "mnt"@) == Ok::<u64, Seq<char>>(
                o.mount_namespace_id,
            )
            &&& namespace_in(evidence.pid_namespace, "pid"@) == Ok::<u64, Seq<char>>(
                o.pid_namespace_id,
            )
            &&& namespace_in(evidence.observer_mount_namespace, "mnt"@) != Ok::<u64, Seq<char>>(
                o.mount_namespace_id,
            )
            &&& namespace_in(evidence.observer_pid_namespace, "pid"@) != Ok::<u64, Seq<char>>(
                o.pid_namespace_id,
            )
            &&& o.parent_only_file_descriptors[0].size == 32
        }),
{
}

/// Whether what systemd is asked to show of a unit has a property.
pub open spec fn is_asked(unit: Seq<char>, name: Seq<char>) -> bool {
    show_arguments(unit).contains("--property="@ + name)
}

/// Everything that an observation reads of a unit is asked for when the unit is shown, and what
/// is shown is that unit.
pub proof fn what_is_read_of_a_unit_is_asked_for(unit: Seq<char>)
    ensures
        show_arguments(unit)[0] == "show"@,
        show_arguments(unit)[1] == unit,
        show_arguments(unit)[2] == "--no-pager"@,
        is_asked(unit, "LoadState"@),
        is_asked(unit, "ActiveState"@),
        is_asked(unit, "SubState"@),
        is_asked(unit, "Description"@),
        is_asked(unit, "InvocationID"@),
        is_asked(unit, "MainPID"@),
        is_asked(unit, "ExecMainStartTimestampMonotonic"@),
        is_asked(unit, "Type"@),
        is_asked(unit, "Restart"@),
        is_asked(unit, "KillMode"@),
        is_asked(unit, "DynamicUser"@),
        is_asked(unit, "User"@),
        is_asked(unit, "Group"@),
        is_asked(unit, "SupplementaryGroups"@),
        is_asked(unit, "CapabilityBoundingSet"@),
        is_asked(unit, "AmbientCapabilities"@),
        is_asked(unit, "PrivateMounts"@),
        is_asked(unit, "PrivatePIDs"@),
        is_asked(unit, "ProtectProc"@),
        is_asked(unit, "ProcSubset"@),
        is_asked(unit, "NoNewPrivileges"@),
        is_asked(unit, "UMask"@),
        is_asked(unit, "InaccessiblePaths"@),
        is_asked(unit, "LoadCredential"@),
        is_asked(unit, "OpenFile"@),
        is_asked(unit, "WorkingDirectory"@),
        is_asked(unit, "ControlGroup"@),
{
    let all = show_arguments(unit);
    let list = shown_properties();
    assert forall|i: int| 0 <= i < list.len() implies all.contains(
        "--property="@ + #[trigger] list[i],
    ) by {
        assert(all[i + 3] == "--property="@ + list[i]);
    }
    assert(list[0] == "LoadState"@ && list[1] == "ActiveState"@ && list[2] == "SubState"@);
    assert(list[3] == "Description"@ && list[4] == "InvocationID"@ && list[5] == "MainPID"@);
    assert(list[6] == "ExecMainStartTimestampMonotonic"@ && list[7] == "Type"@);
    assert(list[8] == "Restart"@ && list[9] == "KillMode"@ && list[10] == "DynamicUser"@);
    assert(list[11] == "User"@ && list[12] == "Group"@ && list[13] == "SupplementaryGroups"@);
    assert(list[14] == "CapabilityBoundingSet"@ && list[15] == "AmbientCapabilities"@);
    assert(list[16] == "PrivateMounts"@ && list[17] == "PrivatePIDs"@);
    assert(list[18] == "ProtectProc"@ && list[19] == "ProcSubset"@);
    assert(list[20] == "NoNewPrivileges"@ && list[21] == "UMask"@);
    assert(list[22] == "InaccessiblePaths"@ && list[23] == "LoadCredential"@);
    assert(list[24] == "OpenFile"@ && list[25] == "WorkingDirectory"@);
    assert(list[26] == "ControlGroup"@);
}

/// Each delivered credential is observed under its own name, where systemd delivers it to the
/// unit and where the workload's environment has it, and is closed to all but root and its
/// group.
pub proof fn credentials_are_observed_where_they_are_delivered(
    readings: Seq<Result<CredentialReading, Refusal>>,
    names: Seq<Seq<char>>,
    directory: Option<Seq<char>>,
    pairs: Seq<Pair>,
    process_root: Seq<char>,
    i: int,
)
    requires
        credentials_in(readings, names, directory, pairs, process_root) is Ok,
        0 <= i < names.len(),
    ensures
        ({
            let list = credentials_in(readings, names, directory, pairs, process_root)->Ok_0;
            let place = joined(directory->0, names[i]);
            &&& list.len() == names.len()
            &&& directory is Some
            &&& list[i].environment_name == names[i]
            &&& list[i].delivered_path == place
            &&& value_of(pairs, names[i]) == Some(place)
            &&& readings[i] matches Ok(r) && {
                &&& list[i].device == r.device
                &&& list[i].inode == r.inode
                &&& list[i].uid == r.uid
                &&& list[i].gid == r.gid
                &&& list[i].mode == r.mode
                &&& list[i].size == r.len
                &&& list[i].sha256 == r.sha256@
                &&& r.is_file
                &&& r.len > 0
                &&& r.links == 1
                &&& r.uid == 0
                &&& r.mode & 0o007 == 0
            }
        }),
    decreases names.len(),
{
    let fewer = names.drop_last();
    if fewer.len() > 0 {
        credentials_are_observed_where_they_are_delivered(
            readings,
            fewer,
            directory,
            pairs,
            process_root,
            if i < fewer.len() {
                i
            } else {
                0
            },
        );
    } else {
        assert(credentials_in(readings, fewer, directory, pairs, process_root)->Ok_0.len() == 0);
    }
    if i < fewer.len() {
        assert(fewer[i] == names[i]);
    }
}

proof fn lemma_asked_names(
    readings: Seq<Result<CredentialReading, Refusal>>,
    names: Seq<Seq<char>>,
    directory: Option<Seq<char>>,
    pairs: Seq<Pair>,
    process_root: Seq<char>,
)
    requires
        credentials_in(readings, names, directory, pairs, process_root) is Ok,
    ensures
        observed_names(credentials_in(readings, names, directory, pairs, process_root)->Ok_0)
            == names,
{
    let list = credentials_in(readings, names, directory, pairs, process_root)->Ok_0;
    if names.len() > 0 {
        assert forall|i: int| 0 <= i < names.len() implies list.len() == names.len()
            && #[trigger] observed_names(list)[i] == names[i] by {
            credentials_are_observed_where_they_are_delivered(
                readings,
                names,
                directory,
                pairs,
                process_root,
                i,
            );
        }
        credentials_are_observed_where_they_are_delivered(
            readings,
            names,
            directory,
            pairs,
            process_root,
            0,
        );
    }
    assert(observed_names(list) =~= names);
}

/// A workload that was observed is asked for again as it was asked for before: of the same unit,
/// instance and signer, for the same names and the same descriptors; so what is told of the same
/// evidence is the same.
pub proof fn a_workload_is_asked_for_again_as_before(
    request: ObservationRequest,
    again: ObservationRequest,
    unit: UnitView,
    evidence: ProcessEvidence,
    findings: ProcessFindings,
    process_root: Seq<char>,
    names: LaunchNames,
    environment_contract_sha256: Seq<char>,
)
    requires
        process_found(findings, request, evidence, process_root, names),
        asks_again(
            again,
            observation_of(
                request,
                contract_of(unit),
                evidence,
                findings,
                environment_contract_sha256,
            ),
            request.runtime_instance_id@,
            request.activation_signer_identity_id@,
            request.activation_signer_public_key@,
        ),
    ensures
        again.unit@ == request.unit@,
        again.runtime_instance_id@ == request.runtime_instance_id@,
        again.credential_names() == request.credential_names(),
        texts(again.environment_names@) == texts(request.environment_names@),
        again.descriptors() == request.descriptors(),
        observation_of(again, contract_of(unit), evidence, findings, environment_contract_sha256)
            == observation_of(
            request,
            contract_of(unit),
            evidence,
            findings,
            environment_contract_sha256,
        ),
{
    let credentials = request.credential_names();
    lemma_asked_names(
        evidence.credentials@,
        credentials,
        delivery_in(
            environment_entries(evidence.environment->Ok_0@),
            request.unit@,
            credentials.len() > 0,
        )->Ok_0,
        selected_in(evidence, texts(request.environment_names@))->Ok_0,
        process_root,
    );
}

} // verus!
