//! The life of a workload that systemd runs: prepared, started, observed, discarded and
//! stopped, each only as itself.
use vstd::prelude::*;

use crate::admission::{observed_credential_names, observed_names};
use crate::authority::FileFacts;
use crate::launch::{unit_name, unit_of};
use crate::maps::value_of;
use crate::observation::{
    copy_parent_only_file_descriptor_observation_list, SystemdWorkloadObservation,
    SystemdWorkloadObservationView, WorkloadObservation,
};
use crate::paths::{is_same_path, same_path};
use crate::procfs::fault;
use crate::records::{
    IdunnExpectedIncarnationRecord, IdunnExpectedIncarnationRecordView,
    IdunnRuntimeActivationRecord, IdunnRuntimeActivationRecordView,
};
use crate::text::{
    behind, cat2, cat4, check, copy_bytes, copy_texts, either, is_text, judged, refuse,
    refuse_behind, same_text, texts, unless, Refusal,
};
use crate::units::{required_property, required_systemd_property, SystemdUnitObservation, UnitView};
use crate::watch::{missed, shown_unit, ObservationRequest};
use crate::workload::at_rest;

verus! {

/// What a deployment plan says of the target that it deploys.
#[derive(Clone, Debug, PartialEq, Eq)]
pub struct PlannedTarget {
    pub plan_id: String,
    pub target: String,
    pub unit_prefix: String,
}

/// The unit of an activation that a plan prepares or discards, or why it is refused.
pub open spec fn planned_unit(
    plan: PlannedTarget,
    expected: IdunnExpectedIncarnationRecordView,
    activation: IdunnRuntimeActivationRecordView,
    foreign_plan: Seq<char>,
    foreign_target: Seq<char>,
) -> Result<Seq<char>, Seq<char>> {
    if expected.plan_id != plan.plan_id@ || activation.expected_projection_sha256
        != expected.canonical_sha256 {
        Err(foreign_plan)
    } else if expected.target != plan.target@ {
        Err(foreign_target)
    } else {
        unit_of(plan.unit_prefix@, activation.runtime_instance_id)
    }
}

fn read_planned_unit(
    plan: &PlannedTarget,
    expected: &IdunnExpectedIncarnationRecord,
    activation: &IdunnRuntimeActivationRecord,
    foreign_plan: &str,
    foreign_target: &str,
) -> (outcome: Result<String, Refusal>)
    ensures
        crate::clock::written(
            outcome,
            planned_unit(
                *plan,
                expected@,
                activation@,
                foreign_plan@,
                foreign_target@,
            ),
        ),
{
    check(
        same_text(expected.plan_id.as_str(), plan.plan_id.as_str()) && same_text(
            activation.expected_projection_sha256.as_str(),
            expected.canonical_sha256.as_str(),
        ),
        foreign_plan,
    )?;
    check(same_text(expected.target.as_str(), plan.target.as_str()), foreign_target)?;
    unit_name(plan.unit_prefix.as_str(), activation.runtime_instance_id.as_str())
}

/// Admits the preparation of an activation: it belongs to the plan. The unit that it will
/// run in is the outcome.
pub fn prepare_activation(
    plan: &PlannedTarget,
    expected: &IdunnExpectedIncarnationRecord,
    activation: &IdunnRuntimeActivationRecord,
) -> (outcome: Result<String, Refusal>)
    ensures
        crate::clock::written(
            outcome,
            planned_unit(
                *plan,
                expected@,
                activation@,
                "prepared activation does not belong to the deployment plan"@,
                "prepared activation target differs from the operator binding"@,
            ),
        ),
{
    read_planned_unit(
        plan,
        expected,
        activation,
        "prepared activation does not belong to the deployment plan",
        "prepared activation target differs from the operator binding",
    )
}

/// Admits the replacement of what was prepared: only while its unit does not exist.
pub fn admit_unstarted(shown: &Option<SystemdUnitObservation>) -> (outcome: Result<(), Refusal>)
    ensures
        judged(
            outcome,
            unless(
                *shown is None,
                "refusing to replace prepared activation material while its deterministic unit exists"@,
            ),
        ),
{
    check(
        shown.is_none(),
        "refusing to replace prepared activation material while its deterministic unit exists",
    )
}

/// What is done about the place of a credential before one is written there.
#[derive(Clone, Copy, Debug, PartialEq, Eq, Structural)]
pub enum CredentialStep {
    Write,
    RetireThenWrite,
}

/// What is done about the place of a credential, given what stands there: an orphan is
/// retired before a new one is written.
pub fn credential_step(source: &str, found: &Result<Option<FileFacts>, Refusal>) -> (outcome:
    Result<CredentialStep, Refusal>)
    ensures
        match found {
            Err(cause) => outcome matches Err(refusal) && refusal@ == behind(
                "inspecting pre-persistence activation credential "@ + source@,
                cause@,
            ),
            Ok(None) => outcome == Ok::<CredentialStep, Refusal>(CredentialStep::Write),
            Ok(Some(_)) => outcome == Ok::<CredentialStep, Refusal>(
                CredentialStep::RetireThenWrite,
            ),
        },
{
    match found {
        Err(cause) => {
            let words = cat2("inspecting pre-persistence activation credential ", source);
            Err(refuse_behind(words.as_str(), cause))
        },
        Ok(None) => Ok(CredentialStep::Write),
        Ok(Some(_)) => Ok(CredentialStep::RetireThenWrite),
    }
}

/// Settles the retiring of an orphaned credential.
pub fn settle_retirement(removal: &Result<(), Refusal>) -> (outcome: Result<(), Refusal>)
    ensures
        match removal {
            Ok(_) => outcome is Ok,
            Err(cause) => outcome matches Err(refusal) && refusal@ == behind(
                "retiring an orphaned pre-persistence activation credential"@,
                cause@,
            ),
        },
{
    match removal {
        Ok(_) => Ok(()),
        Err(cause) => Err(
            refuse_behind("retiring an orphaned pre-persistence activation credential", cause),
        ),
    }
}

/// Settles a preparation: the credential was written where the activation has it. One that
/// was written elsewhere is removed; where that fails too, its failure is told before the
/// other.
pub fn settle_prepared(
    written: &str,
    source: &str,
    removal: &Result<(), Refusal>,
) -> (outcome: Result<(), Refusal>)
    ensures
        judged(
            outcome,
            if same_path(written@, source@) {
                None
            } else {
                let words = "prepared activation used a nondeterministic credential path"@;
                match removal {
                    Ok(_) => Some(words),
                    Err(left) => Some(
                        behind(
                            "deleting nondeterministic activation credential also failed: "@
                                + left@,
                            words,
                        ),
                    ),
                }
            },
        ),
{
    if is_same_path(written, source) {
        return Ok(());
    }
    let refusal = refuse("prepared activation used a nondeterministic credential path");
    match removal {
        Ok(_) => Err(refusal),
        Err(left) => {
            let words = cat2(
                "deleting nondeterministic activation credential also failed: ",
                left.text.as_str(),
            );
            Err(refuse_behind(words.as_str(), &refusal))
        },
    }
}

/// Why nothing that was prepared is started, if so: plan, release, expectation and activation
/// are not of one incarnation, a writable binding does not stand, or the executable is not
/// declared.
pub open spec fn prepared_refusal(
    plan: PlannedTarget,
    sealed_release_id: Seq<char>,
    expected: IdunnExpectedIncarnationRecordView,
    activation: IdunnRuntimeActivationRecordView,
    writable: Result<(), Refusal>,
    executable: Result<String, Refusal>,
) -> Option<Seq<char>> {
    either(
        unless(
            expected.plan_id == plan.plan_id@ && expected.sealed_release_id == sealed_release_id
                && activation.expected_projection_sha256 == expected.canonical_sha256,
            "workload inputs do not describe one sealed incarnation"@,
        ),
        either(missed(writable), missed(executable)),
    )
}

/// Admits the start of what was prepared, given how its writable bindings were judged and
/// which executable it has. Its unit is the outcome.
pub fn start_prepared(
    plan: &PlannedTarget,
    sealed_release_id: &str,
    expected: &IdunnExpectedIncarnationRecord,
    activation: &IdunnRuntimeActivationRecord,
    writable: &Result<(), Refusal>,
    executable: &Result<String, Refusal>,
) -> (outcome: Result<String, Refusal>)
    ensures
        crate::clock::written(
            outcome,
            match prepared_refusal(
                *plan,
                sealed_release_id@,
                expected@,
                activation@,
                *writable,
                *executable,
            ) {
                Some(w) => Err(w),
                None => unit_of(plan.unit_prefix@, activation@.runtime_instance_id),
            },
        ),
{
    check(
        same_text(expected.plan_id.as_str(), plan.plan_id.as_str()) && same_text(
            expected.sealed_release_id.as_str(),
            sealed_release_id,
        ) && same_text(
            activation.expected_projection_sha256.as_str(),
            expected.canonical_sha256.as_str(),
        ),
        "workload inputs do not describe one sealed incarnation",
    )?;
    if let Err(refusal) = writable {
        return Err(Refusal { text: refusal.text.clone() });
    }
    if let Err(refusal) = executable {
        return Err(Refusal { text: refusal.text.clone() });
    }
    unit_name(plan.unit_prefix.as_str(), activation.runtime_instance_id.as_str())
}

/// What is done about a prepared unit.
#[derive(Clone, Copy, Debug, PartialEq, Eq, Structural)]
pub enum StartAction {
    Start,
    Watch,
}

/// What is done about a prepared unit: one that systemd shows already is not started again.
pub fn start_action(shown: &Option<SystemdUnitObservation>) -> (action: StartAction)
    ensures
        action == (if *shown is None {
            StartAction::Start
        } else {
            StartAction::Watch
        }),
{
    match shown {
        None => StartAction::Start,
        Some(_) => StartAction::Watch,
    }
}

/// What follows an attempt to see a started workload.
#[derive(Debug, PartialEq, Eq)]
pub enum StartStep {
    Started { observation: SystemdWorkloadObservation },
    Again { after_millis: u64 },
    Failed { refusal: Refusal },
}

/// How often a started workload is looked for.
pub const START_ATTEMPTS: u32 = 100;

/// Why an attempt did not see the started workload, if so: it was not observed, it is not
/// the launched one, or it does not run the expected executable.
pub open spec fn attempt_refusal(
    observed: Result<SystemdWorkloadObservation, Refusal>,
    validation: Result<(), Refusal>,
    expected: IdunnExpectedIncarnationRecordView,
) -> Option<Seq<char>> {
    either(
        missed(observed),
        either(
            missed(validation),
            unless(
                observed->Ok_0@.executable_sha256 == expected.artifact_sha256,
                "started workload executable differs from Expected"@,
            ),
        ),
    )
}

/// Settles an attempt to see a started workload. The last of them ends in what it found
/// wrong.
pub fn settle_start(
    attempt: u32,
    observed: Result<SystemdWorkloadObservation, Refusal>,
    validation: Result<(), Refusal>,
    expected: &IdunnExpectedIncarnationRecord,
) -> (step: StartStep)
    ensures
        match attempt_refusal(observed, validation, expected@) {
            None => step matches StartStep::Started { observation } && observation
                == observed->Ok_0,
            Some(w) => if attempt + 1 < START_ATTEMPTS {
                step == (StartStep::Again { after_millis: 50 })
            } else {
                step matches StartStep::Failed { refusal } && refusal@ == w
            },
        },
{
    let refusal = match observed {
        Err(refusal) => refusal,
        Ok(observation) => match validation {
            Err(refusal) => refusal,
            Ok(()) => if same_text(
                observation.executable_sha256.as_str(),
                expected.artifact_sha256.as_str(),
            ) {
                return StartStep::Started { observation };
            } else {
                refuse("started workload executable differs from Expected")
            },
        },
    };
    if attempt < START_ATTEMPTS - 1 {
        StartStep::Again { after_millis: 50 }
    } else {
        StartStep::Failed { refusal }
    }
}

/// What is discarded of a prepared activation: its unit, as it would be described.
#[derive(Clone, Debug, PartialEq, Eq)]
pub struct DiscardedUnit {
    pub unit: String,
    pub description: String,
}

/// Admits the discarding of a prepared activation.
pub fn discard_prepared(
    plan: &PlannedTarget,
    expected: &IdunnExpectedIncarnationRecord,
    activation: &IdunnRuntimeActivationRecord,
) -> (outcome: Result<DiscardedUnit, Refusal>)
    ensures
        match (
            outcome,
            planned_unit(
                *plan,
                expected@,
                activation@,
                "discarded activation does not belong to the prepared deployment"@,
                "discarded activation target differs from its binding"@,
            ),
        ) {
            (Ok(found), Ok(unit)) => found.unit@ == unit && found.description@ == "Idunn "@
                + plan.target@ + " "@ + activation@.runtime_instance_id,
            (Err(refusal), Err(w)) => refusal@ == w,
            _ => false,
        },
{
    let unit = read_planned_unit(
        plan,
        expected,
        activation,
        "discarded activation does not belong to the prepared deployment",
        "discarded activation target differs from its binding",
    )?;
    let description = cat4(
        "Idunn ",
        plan.target.as_str(),
        " ",
        activation.runtime_instance_id.as_str(),
    );
    Ok(DiscardedUnit { unit, description })
}

/// What is asked to see a workload again that was observed before.
pub open spec fn asks_again(
    request: ObservationRequest,
    prior: SystemdWorkloadObservationView,
    runtime_instance_id: Seq<char>,
    signer_identity_id: Seq<char>,
    signer_public_key: Seq<u8>,
) -> bool {
    &&& request.unit@ == prior.unit
    &&& request.runtime_instance_id@ == runtime_instance_id
    &&& request.activation_signer_identity_id@ == signer_identity_id
    &&& request.activation_signer_public_key@ == signer_public_key
    &&& texts(request.environment_names@) == prior.environment_names
    &&& request.credential_names() == observed_names(prior.service_credentials)
    &&& request.descriptors() == prior.parent_only_file_descriptors
}

fn ask_again(
    prior: &SystemdWorkloadObservation,
    runtime_instance_id: &str,
    signer_identity_id: &str,
    signer_public_key: &[u8],
) -> (request: ObservationRequest)
    ensures
        asks_again(
            request,
            prior@,
            runtime_instance_id@,
            signer_identity_id@,
            signer_public_key@,
        ),
{
    ObservationRequest {
        unit: prior.unit.clone(),
        runtime_instance_id: runtime_instance_id.to_owned(),
        activation_signer_identity_id: signer_identity_id.to_owned(),
        activation_signer_public_key: copy_bytes(signer_public_key),
        environment_names: copy_texts(prior.environment_names.as_slice()),
        service_credential_names: observed_credential_names(&prior.service_credentials),
        parent_only_file_descriptors: copy_parent_only_file_descriptor_observation_list(
            prior.parent_only_file_descriptors.as_slice(),
        ),
    }
}

/// What is asked to see an activated workload again, where the prior observation is of
/// that activation and of systemd's.
pub fn observe(
    expected: &IdunnExpectedIncarnationRecord,
    activation: &IdunnRuntimeActivationRecord,
    prior: &WorkloadObservation,
) -> (outcome: Result<ObservationRequest, Refusal>)
    ensures
        match *prior {
            WorkloadObservation::Systemd(o) => if activation@.expected_projection_sha256
                == expected@.canonical_sha256 && activation@.runtime_instance_id
                    == o@.runtime_instance_id {
                outcome matches Ok(request) && asks_again(
                    request,
                    o@,
                    activation@.runtime_instance_id,
                    activation@.activation_signer_identity_id,
                    activation@.activation_signer_public_key,
                )
            } else {
                outcome matches Err(refusal) && refusal@
                    == "workload observation belongs to another activation"@
            },
            WorkloadObservation::Host(_) => outcome matches Err(refusal) && refusal@
                == "workload observation is a host process, not a systemd unit"@,
        },
{
    let prior = prior.systemd()?;
    check(
        same_text(
            activation.expected_projection_sha256.as_str(),
            expected.canonical_sha256.as_str(),
        ) && same_text(
            activation.runtime_instance_id.as_str(),
            prior.runtime_instance_id.as_str(),
        ),
        "workload observation belongs to another activation",
    )?;
    Ok(
        ask_again(
            prior,
            activation.runtime_instance_id.as_str(),
            activation.activation_signer_identity_id.as_str(),
            activation.activation_signer_public_key.as_slice(),
        ),
    )
}

/// Settles the first look at a workload that was observed before: it is what it was, and
/// runs the expected executable.
pub fn settle_observation(
    observed: &SystemdWorkloadObservation,
    prior: &SystemdWorkloadObservation,
    expected: &IdunnExpectedIncarnationRecord,
) -> (outcome: Result<(), Refusal>)
    ensures
        judged(
            outcome,
            unless(
                observed@ == prior@ && observed@.executable_sha256 == expected@.artifact_sha256,
                "native workload identity changed after observation"@,
            ),
        ),
{
    check(
        observed.same(prior) && same_text(
            observed.executable_sha256.as_str(),
            expected.artifact_sha256.as_str(),
        ),
        "native workload identity changed after observation",
    )
}

/// Settles the second look at a workload, after its credential was retired.
pub fn settle_recovery(
    after: &SystemdWorkloadObservation,
    observed: &SystemdWorkloadObservation,
) -> (outcome: Result<(), Refusal>)
    ensures
        judged(
            outcome,
            unless(
                after@ == observed@,
                "native workload identity changed after recovered credential cleanup"@,
            ),
        ),
{
    check(
        after.same(observed),
        "native workload identity changed after recovered credential cleanup",
    )
}

/// Whether a unit will not run again, or why that cannot be said: systemd has forgotten
/// it, or it failed under a policy that does not restart it.
pub open spec fn permanently_stopped(
    observation: SystemdWorkloadObservationView,
    shown: Option<UnitView>,
) -> Result<bool, Seq<char>> {
    if observation.restart_policy != "no"@ {
        Err("workload unit does not carry the admitted Restart=no policy"@)
    } else {
        match shown {
            None => Ok(true),
            Some(unit) => Ok(value_of(unit.properties, "ActiveState"@) == Some("failed"@)),
        }
    }
}

/// Whether a workload will not run again.
pub fn is_permanently_stopped(
    observation: &WorkloadObservation,
    shown: &Option<SystemdUnitObservation>,
) -> (outcome: Result<bool, Refusal>)
    ensures
        match *observation {
            WorkloadObservation::Systemd(o) => crate::procfs::comes_to(
                outcome,
                permanently_stopped(o@, shown_unit(*shown)),
            ),
            WorkloadObservation::Host(_) => outcome matches Err(refusal) && refusal@
                == "workload observation is a host process, not a systemd unit"@,
        },
{
    let observation = observation.systemd()?;
    check(
        same_text(observation.restart_policy.as_str(), "no"),
        "workload unit does not carry the admitted Restart=no policy",
    )?;
    match shown {
        None => Ok(true),
        Some(unit) => {
            let state = unit.properties.get("ActiveState");
            Ok(is_text(&state, "failed"))
        },
    }
}

/// What is to be done to stop a workload.
#[derive(Debug, PartialEq, Eq)]
pub enum WorkloadStop {
    Nothing,
    Recognise { request: ObservationRequest },
    Stop,
}

/// What is to be done to stop a workload, or why nothing is.
pub enum Stopping {
    Nothing,
    Recognise,
    Stop,
    Refused(Seq<char>),
}

/// What is to be done to stop a workload: nothing where there is no unit, a look at what
/// runs before it is stopped, and a plain stop of what is at rest and still the same.
pub open spec fn stopping(
    observation: SystemdWorkloadObservationView,
    shown: Option<UnitView>,
) -> Stopping {
    match shown {
        None => Stopping::Nothing,
        Some(unit) => {
            let active = required_property(unit.properties, "ActiveState"@);
            let sub = required_property(unit.properties, "SubState"@);
            match either(fault(active), fault(sub)) {
                Some(w) => Stopping::Refused(w),
                None => if active->Ok_0 == "active"@ && sub->Ok_0 == "running"@ {
                    Stopping::Recognise
                } else if value_of(unit.properties, "InvocationID"@) == Some(
                    observation.invocation_id,
                ) && value_of(unit.properties, "Description"@) == Some(
                    observation.unit_description,
                ) && (active->Ok_0 == "inactive"@ || active->Ok_0 == "failed"@) {
                    Stopping::Stop
                } else {
                    Stopping::Refused(
                        "refusing to stop a foreign or transitional systemd unit"@,
                    )
                },
            }
        },
    }
}

/// Decides how a workload is stopped.
pub fn stop(observation: &WorkloadObservation, shown: &Option<SystemdUnitObservation>) -> (outcome:
    Result<WorkloadStop, Refusal>)
    ensures
        match *observation {
            WorkloadObservation::Systemd(o) => match stopping(o@, shown_unit(*shown)) {
                Stopping::Nothing => outcome matches Ok(WorkloadStop::Nothing),
                Stopping::Recognise => outcome matches Ok(WorkloadStop::Recognise { request })
                    && asks_again(
                    request,
                    o@,
                    o@.runtime_instance_id,
                    o@.activation_signer_identity_id,
                    o@.activation_signer_public_key,
                ),
                Stopping::Stop => outcome matches Ok(WorkloadStop::Stop),
                Stopping::Refused(w) => outcome matches Err(refusal) && refusal@ == w,
            },
            WorkloadObservation::Host(_) => outcome matches Err(refusal) && refusal@
                == "workload observation is a host process, not a systemd unit"@,
        },
{
    let o = observation.systemd()?;
    let unit = match shown {
        None => return Ok(WorkloadStop::Nothing),
        Some(unit) => unit,
    };
    let active = required_systemd_property(&unit.properties, "ActiveState")?;
    let sub = required_systemd_property(&unit.properties, "SubState")?;
    if same_text(active.as_str(), "active") && same_text(sub.as_str(), "running") {
        let request = ask_again(
            o,
            o.runtime_instance_id.as_str(),
            o.activation_signer_identity_id.as_str(),
            o.activation_signer_public_key.as_slice(),
        );
        return Ok(WorkloadStop::Recognise { request });
    }
    let invocation = unit.properties.get("InvocationID");
    let description = unit.properties.get("Description");
    check(
        is_text(&invocation, o.invocation_id.as_str()) && is_text(
            &description,
            o.unit_description.as_str(),
        ) && (same_text(active.as_str(), "inactive") || same_text(active.as_str(), "failed")),
        "refusing to stop a foreign or transitional systemd unit",
    )?;
    Ok(WorkloadStop::Stop)
}

/// Admits the stop of a running workload: it is what was observed.
pub fn recognise(
    current: &SystemdWorkloadObservation,
    observation: &SystemdWorkloadObservation,
) -> (outcome: Result<(), Refusal>)
    ensures
        judged(
            outcome,
            unless(
                current@ == observation@,
                "refusing to stop a workload whose native identity changed"@,
            ),
        ),
{
    check(
        current.same(observation),
        "refusing to stop a workload whose native identity changed",
    )
}

/// Settles the stop of a workload: its unit is gone or at rest.
pub fn settle_stop(shown: &Option<SystemdUnitObservation>) -> (outcome: Result<(), Refusal>)
    ensures
        judged(
            outcome,
            unless(
                at_rest(shown_unit(*shown)),
                "systemd unit remained active after stop"@,
            ),
        ),
{
    let resting = match shown {
        None => true,
        Some(unit) => {
            let state = unit.properties.get("ActiveState");
            is_text(&state, "inactive") || is_text(&state, "failed")
        },
    };
    check(resting, "systemd unit remained active after stop")
}

/// A workload that runs is stopped only after it was looked at again: nothing else than
/// what was observed is stopped in its name.
pub proof fn a_running_workload_is_recognised_before_it_is_stopped(
    observation: SystemdWorkloadObservationView,
    unit: UnitView,
)
    requires
        value_of(unit.properties, "ActiveState"@) == Some("active"@),
    ensures
        !(stopping(observation, Some(unit)) is Stop),
{
    reveal_strlit("active");
    reveal_strlit("inactive");
    reveal_strlit("failed");
    assert("active"@.len() == 6);
    assert("inactive"@.len() == 8);
    assert("failed"@[0] == 'f' && "active"@[0] == 'a');
}

/// A unit whose invocation is not the observed one is not stopped as it rests: it is
/// refused, or recognised first.
pub proof fn a_foreign_invocation_is_never_stopped_at_rest(
    observation: SystemdWorkloadObservationView,
    unit: UnitView,
)
    requires
        value_of(unit.properties, "InvocationID"@) != Some(observation.invocation_id),
    ensures
        !(stopping(observation, Some(unit)) is Stop),
{
}

} // verus!
