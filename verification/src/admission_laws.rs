//! What a running workload that is admitted is: the one that was asked for, confined as it was
//! asked to be.
use vstd::prelude::*;

use crate::admission::{
    admission_refusal, observed_names, terms_refusal, terms_stated, LaunchTerms,
};
use crate::digest::digest_id;
use crate::launch::{credential_source, open_files, LaunchNames};
use crate::maps::{is_named, names_of};
use crate::observation::SystemdWorkloadObservationView;
use crate::paths::{file_name, joined, same_path};
use crate::procfs::command_line;
use crate::records::IdunnRuntimeActivationRecordView;
use crate::scan::ends;
use crate::start::{request_arguments, Launch};
use crate::start_laws::{
    a_unit_has_exactly_what_is_bound, a_unit_is_launched_as_asked,
    a_unit_writes_exactly_where_it_is_bound, is_held_to, no_binding_loosens_a_unit, options, sets,
};
use crate::text::{texts, Refusal};

verus! {

/// A running workload is admitted exactly where every term of its launch holds of it: how its
/// unit is run and confined, where it stands, what its process was given, and whose it is.
pub proof fn a_workload_is_admitted_by_every_term(
    o: SystemdWorkloadObservationView,
    terms: LaunchTerms,
    launch: Launch,
    activation: IdunnRuntimeActivationRecordView,
    credential_root: Seq<char>,
    environment_id: Seq<char>,
)
    ensures
        admission_refusal(o, terms, launch, activation, credential_root, environment_id) is None
            <==> {
            &&& o.unit_description == terms.description@
            &&& o.service_type == "exec"@
            &&& o.restart_policy == "no"@
            &&& o.kill_mode == "mixed"@
            &&& o.umask == "0007"@
            &&& o.protect_proc == "invisible"@
            &&& o.proc_subset == "all"@
            &&& o.dynamic_user
            &&& o.private_mounts
            &&& o.private_pids
            &&& o.no_new_privileges
            &&& o.supplementary_groups.len() == 0
            &&& o.capability_bounding_set.len() == 0
            &&& o.ambient_capabilities.len() == 0
            &&& launch.binding.state_group matches Some(group) ==> o.systemd_group == group@
            &&& launch.binding.state_group is None ==> o.systemd_group.len() == 0
            &&& o.inaccessible_paths == credential_root
            &&& o.load_credential == (if terms.credential_names@.len() > 0 {
                "[unprintable]"@
            } else {
                ""@
            })
            &&& same_path(o.working_directory, launch.installed@)
            &&& same_path(o.runtime_bundle, launch.bundle@)
            &&& if terms.credential_names@.len() > 0 {
                o.credentials_directory matches Some(place) && same_path(
                    place,
                    joined("/run/credentials"@, o.unit),
                )
            } else {
                o.credentials_directory is None
            }
            &&& o.command_line_sha256 == digest_id(command_line(texts(terms.command@)))
            &&& o.environment_names == names_of(terms.environment@)
            &&& o.environment_contract_sha256 == environment_id
            &&& o.parent_only_file_descriptors.len() == 2
            &&& same_path(o.parent_only_file_descriptors[0].source_path, terms.activation_source@)
            &&& o.parent_only_file_descriptors[0].size == 32
            &&& same_path(o.parent_only_file_descriptors[1].source_path, terms.presence_source@)
            &&& o.activation_signer_identity_id == activation.activation_signer_identity_id
            &&& o.activation_signer_public_key == activation.activation_signer_public_key
            &&& observed_names(o.service_credentials) == texts(terms.credential_names@)
            &&& o.process_gids[0] == (match terms.group_id {
                Some(id) => id,
                None => o.process_uids[0],
            })
            &&& file_name(o.control_group) == Some(o.unit)
        },
{
    reveal_strlit("");
    assert(""@ =~= Seq::<char>::empty());
}

/// What is admitted is what was asked for: of an admitted workload, each observed property of
/// its unit is one that the request for that unit set, its command is the one that the request
/// ends with, and its environment has the names that the request set.
pub proof fn an_admitted_workload_is_the_one_asked_for(
    o: SystemdWorkloadObservationView,
    terms: LaunchTerms,
    launch: Launch,
    activation: IdunnRuntimeActivationRecordView,
    group: Option<Result<u32, Refusal>>,
    executable_is_file: bool,
    credential_root: Seq<char>,
    environment_id: Seq<char>,
    open_files: Seq<Seq<char>>,
    names: LaunchNames,
)
    requires
        terms_stated(
            terms,
            o,
            launch,
            activation,
            group,
            executable_is_file,
            credential_root,
            names,
        ),
        admission_refusal(o, terms, launch, activation, credential_root, environment_id) is None,
    ensures
        ({
            let command = launch.command(executable_is_file)->Ok_0;
            let environment = launch.environment(o.unit, names)->Ok_0;
            let arguments = request_arguments(
                launch,
                o.unit,
                launch.description()->Ok_0,
                credential_root,
                open_files,
                environment,
                command,
                names.presence_identity_binding@,
            );
            let before = options(arguments, command);
            &&& sets(before, "Description"@, o.unit_description)
            &&& sets(before, "Type"@, o.service_type)
            &&& sets(before, "Restart"@, o.restart_policy)
            &&& sets(before, "KillMode"@, o.kill_mode)
            &&& sets(before, "UMask"@, o.umask)
            &&& sets(before, "ProtectProc"@, o.protect_proc)
            &&& sets(before, "ProcSubset"@, o.proc_subset)
            &&& sets(before, "SupplementaryGroups"@, o.supplementary_groups)
            &&& sets(before, "CapabilityBoundingSet"@, o.capability_bounding_set)
            &&& sets(before, "AmbientCapabilities"@, o.ambient_capabilities)
            &&& sets(before, "InaccessiblePaths"@, o.inaccessible_paths)
            &&& launch.binding.state_group is Some ==> sets(before, "Group"@, o.systemd_group)
            &&& arguments == before + command
            &&& o.command_line_sha256 == digest_id(command_line(command))
            &&& o.environment_names == names_of(environment)
            &&& before.contains("--unit="@ + o.unit)
        }),
{
    a_workload_is_admitted_by_every_term(
        o,
        terms,
        launch,
        activation,
        credential_root,
        environment_id,
    );
    let command = launch.command(executable_is_file)->Ok_0;
    let environment = launch.environment(o.unit, names)->Ok_0;
    let d = launch.description()->Ok_0;
    let p = names.presence_identity_binding@;
    let e = Seq::<char>::empty();
    let u = o.unit;
    reveal_strlit("");
    assert(""@ =~= e);
    assert(o.supplementary_groups =~= e);
    assert(o.capability_bounding_set =~= e);
    assert(o.ambient_capabilities =~= e);
    a_unit_has_exactly_what_is_bound(
        launch, u, d, credential_root, open_files, environment, command, p, o.unit_description,
    );
    a_unit_has_exactly_what_is_bound(
        launch, u, d, credential_root, open_files, environment, command, p, o.systemd_group,
    );
    a_unit_writes_exactly_where_it_is_bound(
        launch, u, d, credential_root, open_files, environment, command, p, credential_root,
    );
    a_unit_is_launched_as_asked(
        launch, u, d, credential_root, open_files, environment, command, p, u,
    );
    assert(is_held_to("Type"@, o.service_type));
    no_binding_loosens_a_unit(
        launch, u, d, credential_root, open_files, environment, command, p,
        "Type"@, o.service_type, e,
    );
    assert(is_held_to("Restart"@, o.restart_policy));
    no_binding_loosens_a_unit(
        launch, u, d, credential_root, open_files, environment, command, p,
        "Restart"@, o.restart_policy, e,
    );
    assert(is_held_to("KillMode"@, o.kill_mode));
    no_binding_loosens_a_unit(
        launch, u, d, credential_root, open_files, environment, command, p,
        "KillMode"@, o.kill_mode, e,
    );
    assert(is_held_to("UMask"@, o.umask));
    no_binding_loosens_a_unit(
        launch, u, d, credential_root, open_files, environment, command, p,
        "UMask"@, o.umask, e,
    );
    assert(is_held_to("ProtectProc"@, o.protect_proc));
    no_binding_loosens_a_unit(
        launch, u, d, credential_root, open_files, environment, command, p,
        "ProtectProc"@, o.protect_proc, e,
    );
    assert(is_held_to("ProcSubset"@, o.proc_subset));
    no_binding_loosens_a_unit(
        launch, u, d, credential_root, open_files, environment, command, p,
        "ProcSubset"@, o.proc_subset, e,
    );
    assert(is_held_to("SupplementaryGroups"@, e));
    no_binding_loosens_a_unit(
        launch, u, d, credential_root, open_files, environment, command, p,
        "SupplementaryGroups"@, e, e,
    );
    assert(is_held_to("CapabilityBoundingSet"@, e));
    no_binding_loosens_a_unit(
        launch, u, d, credential_root, open_files, environment, command, p,
        "CapabilityBoundingSet"@, e, e,
    );
    assert(is_held_to("AmbientCapabilities"@, e));
    no_binding_loosens_a_unit(
        launch, u, d, credential_root, open_files, environment, command, p,
        "AmbientCapabilities"@, e, e,
    );
}

/// The terms of a launch can be stated exactly where each of them can: its command, its
/// environment, its description, the files that it is handed and where they come from, and the
/// group that it was given, for a unit that is a service.
pub proof fn the_terms_of_a_launch_are_stated_together(
    observation: SystemdWorkloadObservationView,
    launch: Launch,
    activation: IdunnRuntimeActivationRecordView,
    group: Option<Result<u32, Refusal>>,
    executable_is_file: bool,
    credential_root: Seq<char>,
    names: LaunchNames,
)
    ensures
        terms_refusal(
            observation,
            launch,
            activation,
            group,
            executable_is_file,
            credential_root,
            names,
        ) is None <==> {
            &&& launch.command(executable_is_file) is Ok
            &&& launch.environment(observation.unit, names) is Ok
            &&& launch.description() is Ok
            &&& ends(observation.unit, ".service"@)
            &&& group matches Some(reading) ==> reading is Ok
            &&& open_files(observation.parent_only_file_descriptors, names) is Ok
            &&& credential_source(credential_root, activation.runtime_instance_id) is Ok
            &&& is_named(launch.binding.secret_files@, names.presence_identity_binding@)
        },
{
}

} // verus!
