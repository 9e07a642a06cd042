//! Whether a running workload is the one that was admitted: every term of the launch held
//! against what was observed, one clause at a time, so that a mismatch names itself.
use vstd::prelude::*;

use crate::digest::{digest_id, sha256_id};
use crate::encoding::{environment_contract, packed_map};
use crate::launch::{
    activation_credential_source, credential_source, delivered_names, describe_unit,
    launch_command, launch_environment, open_files, parent_only_open_file_properties,
    service_credential_names, LaunchNames,
};
use crate::maps::{names_of, Pair, TextMap};
use crate::observation::{
    service_credential_observation_views, ServiceCredentialObservation,
    ServiceCredentialObservationView, SystemdWorkloadObservation, SystemdWorkloadObservationView,
};
use crate::paths::{file_name, file_name_of, is_same_path, join, joined, same_path};
use crate::procfs::{command_line, fault, proc_command_line};
use crate::records::{IdunnRuntimeActivationRecord, IdunnRuntimeActivationRecordView};
use crate::scan::{ends, ends_with};
use crate::start::Launch;
use crate::text::{
    cat2, check, either, is_text, judged, push_text, same_bytes, same_text, same_texts, text_option,
    texts, unless, Refusal,
};
use crate::watch::{credential_mark, missed};
use crate::workload::{presence_identity_source, presence_source};

verus! {

/// What a launch owes of the workload that it starts.
#[derive(Debug, PartialEq, Eq)]
pub struct LaunchTerms {
    pub command: Vec<String>,
    pub environment: TextMap,
    pub description: String,
    pub credential_names: Vec<String>,
    pub group_id: Option<u32>,
    pub activation_source: String,
    pub presence_source: String,
}

/// Why the terms of a launch cannot be stated, if so.
pub open spec fn terms_refusal(
    observation: SystemdWorkloadObservationView,
    launch: Launch,
    activation: IdunnRuntimeActivationRecordView,
    group: Option<Result<u32, Refusal>>,
    executable_is_file: bool,
    credential_root: Seq<char>,
    names: LaunchNames,
) -> Option<Seq<char>> {
    either(
        fault(launch.command(executable_is_file)),
        either(
            fault(launch.environment(observation.unit, names)),
            either(
                fault(launch.description()),
                either(
                    unless(
                        ends(observation.unit, ".service"@),
                        "workload unit has no service suffix"@,
                    ),
                    either(
                        match group {
                            Some(reading) => missed(reading),
                            None => None,
                        },
                        either(
                            fault(open_files(observation.parent_only_file_descriptors, names)),
                            either(
                                fault(
                                    credential_source(
                                        credential_root,
                                        activation.runtime_instance_id,
                                    ),
                                ),
                                fault(presence_source(launch.binding.secret_files@, names)),
                            ),
                        ),
                    ),
                ),
            ),
        ),
    )
}

/// Whether terms are those of a launch.
pub open spec fn terms_stated(
    terms: LaunchTerms,
    observation: SystemdWorkloadObservationView,
    launch: Launch,
    activation: IdunnRuntimeActivationRecordView,
    group: Option<Result<u32, Refusal>>,
    executable_is_file: bool,
    credential_root: Seq<char>,
    names: LaunchNames,
) -> bool {
    &&& launch.command(executable_is_file) == Ok::<Seq<Seq<char>>, Seq<char>>(
        texts(terms.command@),
    )
    &&& launch.environment(observation.unit, names) == Ok::<Seq<Pair>, Seq<char>>(
        terms.environment@,
    )
    &&& launch.description() == Ok::<Seq<char>, Seq<char>>(terms.description@)
    &&& texts(terms.credential_names@) == delivered_names(
        launch.binding.secret_files@,
        names.presence_identity_binding@,
    )
    &&& terms.group_id == (match group {
        Some(reading) => Some(reading->Ok_0),
        None => None,
    })
    &&& credential_source(credential_root, activation.runtime_instance_id) == Ok::<
        Seq<char>,
        Seq<char>,
    >(terms.activation_source@)
    &&& presence_source(launch.binding.secret_files@, names) == Ok::<Seq<char>, Seq<char>>(
        terms.presence_source@,
    )
}

/// States the terms of a launch, given the group that the state of the workload belongs
/// to. Every argument that the declaration leaves to the operator is bound.
pub fn launch_terms(
    observation: &SystemdWorkloadObservation,
    launch: &Launch,
    activation: &IdunnRuntimeActivationRecord,
    group: &Option<Result<u32, Refusal>>,
    executable_is_file: bool,
    credential_root: &str,
    names: &LaunchNames,
) -> (outcome: Result<LaunchTerms, Refusal>)
    requires
        launch.bound(),
    ensures
        match terms_refusal(
            observation@,
            *launch,
            activation@,
            *group,
            executable_is_file,
            credential_root@,
            *names,
        ) {
            Some(w) => outcome matches Err(refusal) && refusal@ == w,
            None => outcome matches Ok(terms) && terms_stated(
                terms,
                observation@,
                *launch,
                activation@,
                *group,
                executable_is_file,
                credential_root@,
                *names,
            ),
        },
{
    let command = launch_command(
        &launch.declaration,
        &launch.binding,
        launch.installed.as_str(),
        executable_is_file,
    )?;
    let environment = launch_environment(
        &launch.binding,
        &launch.write_lease,
        launch.bundle.as_str(),
        &launch.expected,
        observation.unit.as_str(),
        names,
    )?;
    let description = describe_unit(launch.target.as_str(), launch.bundle.as_str())?;
    check(
        ends_with(observation.unit.as_str(), ".service"),
        "workload unit has no service suffix",
    )?;
    let group_id: Option<u32> = match group {
        None => None,
        Some(Ok(id)) => Some(*id),
        Some(Err(refusal)) => return Err(Refusal { text: refusal.text.clone() }),
    };
    let credential_names = service_credential_names(
        &launch.binding.secret_files,
        names.presence_identity_binding.as_str(),
    );
    let _ = parent_only_open_file_properties(
        observation.parent_only_file_descriptors.as_slice(),
        names,
    )?;
    let activation_source = activation_credential_source(credential_root, activation)?;
    let presence = presence_identity_source(&launch.binding, names)?;
    Ok(
        LaunchTerms {
            command,
            environment,
            description,
            credential_names,
            group_id,
            activation_source,
            presence_source: presence,
        },
    )
}

/// The names of observed credentials.
pub open spec fn observed_names(list: Seq<ServiceCredentialObservationView>) -> Seq<Seq<char>> {
    Seq::new(list.len(), |i: int| list[i].environment_name)
}

/// The names of observed credentials.
pub fn observed_credential_names(list: &Vec<ServiceCredentialObservation>) -> (names: Vec<String>)
    ensures
        texts(names@) == observed_names(service_credential_observation_views(list@)),
{
    let mut names: Vec<String> = Vec::new();
    let ghost owed = observed_names(service_credential_observation_views(list@));
    let mut i: usize = 0;
    assert(texts(names@) =~= owed.take(0));
    while i < list.len()
        invariant
            i <= list@.len(),
            owed == observed_names(service_credential_observation_views(list@)),
            texts(names@) == owed.take(i as int),
        decreases list@.len() - i,
    {
        push_text(&mut names, list[i].environment_name.clone());
        i += 1;
        assert(texts(names@) =~= owed.take(i as int));
    }
    assert(owed.take(i as int) =~= owed);
    names
}

/// Where the credentials of a unit are delivered, if it has any.
pub open spec fn owed_directory(unit: Seq<char>, delivers: bool) -> Option<Seq<char>> {
    if delivers {
        Some(joined("/run/credentials"@, unit))
    } else {
        None
    }
}

/// Whether two paths that may be absent are the same.
pub open spec fn same_place(a: Option<Seq<char>>, b: Option<Seq<char>>) -> bool {
    match (a, b) {
        (Some(x), Some(y)) => same_path(x, y),
        (None, None) => true,
        _ => false,
    }
}

/// The refusal of a clause of the launch contract, where it does not hold.
pub open spec fn broken(holds: bool, clause: Seq<char>) -> Option<Seq<char>> {
    unless(
        holds,
        "running workload launch contract differs from the admitted launch: "@ + clause,
    )
}

fn clause(holds: bool, what: &str) -> (outcome: Result<(), Refusal>)
    ensures
        judged(outcome, broken(holds, what@)),
{
    if holds {
        return Ok(());
    }
    Err(
        Refusal {
            text: cat2(
                "running workload launch contract differs from the admitted launch: ",
                what,
            ),
        },
    )
}

/// Which clause on how the unit is run does not hold, if one does not.
pub open spec fn service_broken(
    o: SystemdWorkloadObservationView,
    t: LaunchTerms,
    launch: Launch,
) -> Option<Seq<char>> {
    either(
        broken(o.unit_description == t.description@, "unit description"@),
        either(
            broken(o.service_type == "exec"@, "service type"@),
            either(
                broken(o.restart_policy == "no"@, "restart policy"@),
                either(
                    broken(o.kill_mode == "mixed"@, "kill mode"@),
                    either(
                        broken(o.dynamic_user, "dynamic user"@),
                        broken(
                            match launch.binding.state_group {
                                Some(group) => o.systemd_group == group@,
                                None => o.systemd_group.len() == 0,
                            },
                            "systemd group"@,
                        ),
                    ),
                ),
            ),
        ),
    )
}

/// Which clause on how the unit is confined does not hold, if one does not.
pub open spec fn confinement_broken(o: SystemdWorkloadObservationView) -> Option<Seq<char>> {
    either(
        broken(o.supplementary_groups.len() == 0, "supplementary groups"@),
        either(
            broken(o.capability_bounding_set.len() == 0, "capability bounding set"@),
            either(
                broken(o.ambient_capabilities.len() == 0, "ambient capabilities"@),
                either(
                    broken(o.private_mounts, "private mounts"@),
                    either(
                        broken(o.private_pids, "private PIDs"@),
                        either(
                            broken(o.protect_proc == "invisible"@, "protect proc"@),
                            either(
                                broken(o.proc_subset == "all"@, "proc subset"@),
                                broken(o.no_new_privileges, "no new privileges"@),
                            ),
                        ),
                    ),
                ),
            ),
        ),
    )
}

/// Which clause on where the workload stands does not hold, if one does not.
pub open spec fn place_broken(
    o: SystemdWorkloadObservationView,
    t: LaunchTerms,
    launch: Launch,
    credential_root: Seq<char>,
) -> Option<Seq<char>> {
    either(
        broken(o.umask == "0007"@, "umask"@),
        either(
            broken(o.inaccessible_paths == credential_root, "inaccessible paths"@),
            either(
                broken(
                    o.load_credential == credential_mark(t.credential_names@.len() > 0),
                    "load credential"@,
                ),
                either(
                    broken(same_path(o.working_directory, launch.installed@), "working directory"@),
                    either(
                        broken(same_path(o.runtime_bundle, launch.bundle@), "runtime bundle"@),
                        broken(
                            same_place(
                                o.credentials_directory,
                                owed_directory(o.unit, t.credential_names@.len() > 0),
                            ),
                            "credentials directory"@,
                        ),
                    ),
                ),
            ),
        ),
    )
}

/// Which clause on what the process was given does not hold, if one does not.
pub open spec fn process_broken(
    o: SystemdWorkloadObservationView,
    t: LaunchTerms,
    activation: IdunnRuntimeActivationRecordView,
    environment_id: Seq<char>,
) -> Option<Seq<char>> {
    either(
        broken(
            o.command_line_sha256 == digest_id(command_line(texts(t.command@))),
            "command line"@,
        ),
        either(
            broken(o.environment_names == names_of(t.environment@), "environment names"@),
            either(
                broken(o.environment_contract_sha256 == environment_id, "environment contract"@),
                either(
                    broken(o.parent_only_file_descriptors.len() == 2, "descriptor count"@),
                    either(
                        broken(
                            same_path(
                                o.parent_only_file_descriptors[0].source_path,
                                t.activation_source@,
                            )
                                && o.parent_only_file_descriptors[0].size == 32
                                && same_path(
                                    o.parent_only_file_descriptors[1].source_path,
                                    t.presence_source@,
                                ),
                            "parent-only descriptors"@,
                        ),
                        either(
                            broken(
                                o.activation_signer_identity_id
                                    == activation.activation_signer_identity_id
                                    && o.activation_signer_public_key
                                        == activation.activation_signer_public_key,
                                "activation signer"@,
                            ),
                            either(
                                broken(
                                    observed_names(
                                        o.service_credentials,
                                    ) == texts(t.credential_names@),
                                    "credential names"@,
                                ),
                                broken(
                                    match t.group_id {
                                        Some(id) => o.process_gids[0] == id,
                                        None => o.process_gids[0] == o.process_uids[0],
                                    },
                                    "process group id"@,
                                ),
                            ),
                        ),
                    ),
                ),
            ),
        ),
    )
}

/// Which clause of the launch contract is the first that does not hold, if one does not.
pub open spec fn launch_broken(
    o: SystemdWorkloadObservationView,
    t: LaunchTerms,
    launch: Launch,
    activation: IdunnRuntimeActivationRecordView,
    credential_root: Seq<char>,
    environment_id: Seq<char>,
) -> Option<Seq<char>> {
    either(
        service_broken(o, t, launch),
        either(
            confinement_broken(o),
            either(
                place_broken(o, t, launch, credential_root),
                process_broken(o, t, activation, environment_id),
            ),
        ),
    )
}

fn is_same_place(a: &Option<String>, unit: &str, delivers: bool) -> (same: bool)
    ensures
        same == same_place(text_option(*a), owed_directory(unit@, delivers)),
{
    match a {
        Some(path) => {
            let owed = join("/run/credentials", unit);
            delivers && is_same_path(path.as_str(), owed.as_str())
        },
        None => !delivers,
    }
}

fn check_service(
    o: &SystemdWorkloadObservation,
    t: &LaunchTerms,
    launch: &Launch,
) -> (outcome: Result<(), Refusal>)
    ensures
        judged(outcome, service_broken(o@, *t, *launch)),
{
    clause(same_text(o.unit_description.as_str(), t.description.as_str()), "unit description")?;
    clause(same_text(o.service_type.as_str(), "exec"), "service type")?;
    clause(same_text(o.restart_policy.as_str(), "no"), "restart policy")?;
    clause(same_text(o.kill_mode.as_str(), "mixed"), "kill mode")?;
    clause(o.dynamic_user, "dynamic user")?;
    clause(match &launch.binding.state_group {
            Some(group) => same_text(o.systemd_group.as_str(), group.as_str()),
            None => o.systemd_group.as_str().is_empty(),
        }, "systemd group")
}

fn check_confinement(o: &SystemdWorkloadObservation) -> (outcome: Result<(), Refusal>)
    ensures
        judged(outcome, confinement_broken(o@)),
{
    clause(o.supplementary_groups.as_str().is_empty(), "supplementary groups")?;
    clause(o.capability_bounding_set.as_str().is_empty(), "capability bounding set")?;
    clause(o.ambient_capabilities.as_str().is_empty(), "ambient capabilities")?;
    clause(o.private_mounts, "private mounts")?;
    clause(o.private_pids, "private PIDs")?;
    clause(same_text(o.protect_proc.as_str(), "invisible"), "protect proc")?;
    clause(same_text(o.proc_subset.as_str(), "all"), "proc subset")?;
    clause(o.no_new_privileges, "no new privileges")
}

fn check_place(
    o: &SystemdWorkloadObservation,
    t: &LaunchTerms,
    launch: &Launch,
    credential_root: &str,
) -> (outcome: Result<(), Refusal>)
    ensures
        judged(outcome, place_broken(o@, *t, *launch, credential_root@)),
{
    let delivers = t.credential_names.len() > 0;
    let mark = if delivers {
        "[unprintable]"
    } else {
        ""
    };
    clause(same_text(o.umask.as_str(), "0007"), "umask")?;
    clause(same_text(o.inaccessible_paths.as_str(), credential_root), "inaccessible paths")?;
    clause(same_text(o.load_credential.as_str(), mark), "load credential")?;
    clause(
        is_same_path(o.working_directory.as_str(), launch.installed.as_str()),
        "working directory",
    )?;
    clause(is_same_path(o.runtime_bundle.as_str(), launch.bundle.as_str()), "runtime bundle")?;
    clause(
        is_same_place(&o.credentials_directory, o.unit.as_str(), delivers),
        "credentials directory",
    )
}

fn check_process(
    o: &SystemdWorkloadObservation,
    t: &LaunchTerms,
    activation: &IdunnRuntimeActivationRecord,
    environment_id: &str,
) -> (outcome: Result<(), Refusal>)
    requires
        o.parent_only_file_descriptors@.len() == 2,
    ensures
        judged(outcome, process_broken(o@, *t, activation@, environment_id@)),
{
    let command = proc_command_line(t.command.as_slice());
    let command_id = sha256_id(command.as_slice());
    let environment_names = t.environment.names();
    let credential_names = observed_credential_names(&o.service_credentials);
    proof {
        assert(o@.parent_only_file_descriptors[0] == o.parent_only_file_descriptors@[0]@);
        assert(o@.parent_only_file_descriptors[1] == o.parent_only_file_descriptors@[1]@);
        assert(o@.parent_only_file_descriptors.len() == 2);
    }
    clause(same_text(o.command_line_sha256.as_str(), command_id.as_str()), "command line")?;
    clause(
        same_texts(o.environment_names.as_slice(), environment_names.as_slice()),
        "environment names",
    )?;
    clause(
        same_text(o.environment_contract_sha256.as_str(), environment_id),
        "environment contract",
    )?;
    clause(o.parent_only_file_descriptors.len() == 2, "descriptor count")?;
    clause(
        is_same_path(
            o.parent_only_file_descriptors[0].source_path.as_str(),
            t.activation_source.as_str(),
        )
            && o.parent_only_file_descriptors[0].size == 32
            && is_same_path(
                o.parent_only_file_descriptors[1].source_path.as_str(),
                t.presence_source.as_str(),
            ),
        "parent-only descriptors",
    )?;
    clause(
        same_text(
            o.activation_signer_identity_id.as_str(),
            activation.activation_signer_identity_id.as_str(),
        )
            && same_bytes(
                o.activation_signer_public_key.as_slice(),
                activation.activation_signer_public_key.as_slice(),
            ),
        "activation signer",
    )?;
    clause(
        same_texts(credential_names.as_slice(), t.credential_names.as_slice()),
        "credential names",
    )?;
    clause(match t.group_id {
            Some(id) => o.process_gids[0] == id,
            None => o.process_gids[0] == o.process_uids[0],
        }, "process group id")
}

/// Why a running workload is not the admitted one, if so, given what the environment of
/// its launch comes to.
pub open spec fn admission_refusal(
    observation: SystemdWorkloadObservationView,
    terms: LaunchTerms,
    launch: Launch,
    activation: IdunnRuntimeActivationRecordView,
    credential_root: Seq<char>,
    environment_id: Seq<char>,
) -> Option<Seq<char>> {
    either(
        launch_broken(
            observation,
            terms,
            launch,
            activation,
            credential_root,
            environment_id,
        ),
        unless(
            file_name(observation.control_group) == Some(observation.unit),
            "running workload control group belongs to another unit"@,
        ),
    )
}

/// Holds a running workload against the terms of its launch. It has two descriptors.
pub fn judge_launch(
    observation: &SystemdWorkloadObservation,
    terms: &LaunchTerms,
    launch: &Launch,
    activation: &IdunnRuntimeActivationRecord,
    credential_root: &str,
    environment_id: &str,
) -> (outcome: Result<(), Refusal>)
    requires
        observation.parent_only_file_descriptors@.len() == 2,
    ensures
        judged(
            outcome,
            admission_refusal(
                observation@,
                *terms,
                *launch,
                activation@,
                credential_root@,
                environment_id@,
            ),
        ),
{
    check_service(observation, terms, launch)?;
    check_confinement(observation)?;
    check_place(observation, terms, launch, credential_root)?;
    check_process(observation, terms, activation, environment_id)?;
    let name = file_name_of(observation.control_group.as_str());
    check(
        is_text(&name, observation.unit.as_str()),
        "running workload control group belongs to another unit",
    )
}

/// Admits a running workload as the one that was launched. Every argument that the
/// declaration leaves to the operator is bound. Apart from the judgement, all that may fail
/// is the packing of the environment.
pub fn validate_launch_observation(
    observation: &SystemdWorkloadObservation,
    launch: &Launch,
    activation: &IdunnRuntimeActivationRecord,
    group: &Option<Result<u32, Refusal>>,
    executable_is_file: bool,
    credential_root: &str,
    names: &LaunchNames,
) -> (outcome: Result<(), Refusal>)
    requires
        launch.bound(),
    ensures
        match terms_refusal(
            observation@,
            *launch,
            activation@,
            *group,
            executable_is_file,
            credential_root@,
            *names,
        ) {
            Some(w) => outcome matches Err(refusal) && refusal@ == w,
            None => outcome is Ok ==> exists|terms: LaunchTerms|
                #![trigger terms.environment@]
                terms_stated(
                    terms,
                    observation@,
                    *launch,
                    activation@,
                    *group,
                    executable_is_file,
                    credential_root@,
                    *names,
                ) && admission_refusal(
                    observation@,
                    terms,
                    *launch,
                    activation@,
                    credential_root@,
                    digest_id(packed_map(terms.environment@)),
                ) is None,
        },
{
    let terms = launch_terms(
        observation,
        launch,
        activation,
        group,
        executable_is_file,
        credential_root,
        names,
    )?;
    proof {
        assert(observation@.parent_only_file_descriptors.len()
            == observation.parent_only_file_descriptors@.len());
    }
    let environment_id = environment_contract(&terms.environment)?;
    judge_launch(
        observation,
        &terms,
        launch,
        activation,
        credential_root,
        environment_id.as_str(),
    )?;
    assert(terms_stated(
        terms,
        observation@,
        *launch,
        activation@,
        *group,
        executable_is_file,
        credential_root@,
        *names,
    ));
    Ok(())
}

} // verus!
