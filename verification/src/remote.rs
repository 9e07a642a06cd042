//! Idunn's drivers of a managed host: what is asked of its actuator, and what of its answers
//! is believed.
use vstd::prelude::*;

use crate::building::{MaterializedRelease, SealedRelease};
use crate::observation::{
    HostWorkloadObservation, HostWorkloadObservationView, InstalledReleaseObservation,
    WorkloadObservation,
};
use crate::procfs::comes_to;
use crate::protocol::HostActuatorReport;
use crate::records::{
    IdunnExpectedIncarnationRecord, IdunnExpectedIncarnationRecordView,
    IdunnRuntimeActivationRecord, IdunnRuntimeActivationRecordView,
};
use crate::scan::{decimal, decimal_of};
use crate::text::{cat3, cat4, check, either, judged, same_bytes, same_text, unless, Refusal};
use crate::watch::missed;

verus! {

/// How long a build may take, in seconds.
pub const MATERIALIZE_TIMEOUT_SECONDS: u64 = 2_700;

/// How long an installation may take, in seconds.
pub const INSTALL_TIMEOUT_SECONDS: u64 = 300;

/// How long a start may take, in seconds.
pub const START_TIMEOUT_SECONDS: u64 = 120;

/// How long an observation may take, in seconds.
pub const OBSERVE_TIMEOUT_SECONDS: u64 = 10;

/// How long a stop may take, in seconds.
pub const STOP_TIMEOUT_SECONDS: u64 = 60;

/// Why a report is none that answers what was asked, in the words in which it is shown.
pub open spec fn wrong_answer(host: Seq<char>, asked: Seq<char>, shown: Seq<char>) -> Seq<char> {
    "host actuator "@ + host + " answered "@ + asked + " with "@ + shown
}

fn wrong(host: &str, asked: &str, shown: &str) -> (refusal: Refusal)
    ensures
        refusal@ == wrong_answer(host@, asked@, shown@),
{
    let head = cat4("host actuator ", host, " answered ", asked);
    Refusal { text: cat3(head.as_str(), " with ", shown) }
}

/// Why a made release is not believed, if so, given how it stands against its plan.
pub open spec fn release_refusal(
    report: HostActuatorReport,
    host: Seq<char>,
    shown: Seq<char>,
    stands: Result<(), Refusal>,
    sealed_at_unix_millis: u64,
) -> Option<Seq<char>> {
    match report {
        HostActuatorReport::Materialized { release, root } => either(
            missed(stands),
            either(
                unless(
                    release.sealed_at_unix_millis == sealed_at_unix_millis,
                    "host actuator sealed the release at another time than asked"@,
                ),
                unless(root@.len() > 0, "host actuator reported no staging root"@),
            ),
        ),
        _ => Some(wrong_answer(host, "Materialize"@, shown)),
    }
}

/// Takes a made release from a report, given how it stands against its plan.
pub fn settle_materialize(
    report: HostActuatorReport,
    host: &str,
    shown: &str,
    stands: &Result<(), Refusal>,
    sealed_at_unix_millis: u64,
) -> (outcome: Result<MaterializedRelease, Refusal>)
    ensures
        judged(outcome, release_refusal(report, host@, shown@, *stands, sealed_at_unix_millis)),
        outcome matches Ok(made) ==> report == (HostActuatorReport::Materialized {
            release: made.release,
            root: made.root,
        }),
{
    match report {
        HostActuatorReport::Materialized { release, root } => {
            match stands {
                Ok(()) => {},
                Err(refusal) => return Err(Refusal { text: refusal.text.clone() }),
            }
            check(
                release.sealed_at_unix_millis == sealed_at_unix_millis,
                "host actuator sealed the release at another time than asked",
            )?;
            proof {
                reveal_strlit("");
                assert(root@.len() == 0 ==> root@ =~= ""@);
            }
            check(!same_text(root.as_str(), ""), "host actuator reported no staging root")?;
            Ok(MaterializedRelease { release, root })
        },
        _ => Err(wrong(host, "Materialize", shown)),
    }
}

/// Takes an installation from a report: it is of the release that was asked for.
pub fn settle_install(
    report: HostActuatorReport,
    host: &str,
    shown: &str,
    release: &SealedRelease,
) -> (outcome: Result<InstalledReleaseObservation, Refusal>)
    ensures
        match report {
            HostActuatorReport::Installed { installed } => {
                &&& judged(
                    outcome,
                    unless(
                        installed@.sealed_release_id == release.sealed_release_id@,
                        "host actuator installed another release"@,
                    ),
                )
                &&& outcome matches Ok(found) ==> found == installed
            },
            _ => judged(outcome, Some(wrong_answer(host@, "Install"@, shown@))),
        },
{
    match report {
        HostActuatorReport::Installed { installed } => {
            check(
                same_text(
                    installed.sealed_release_id.as_str(),
                    release.sealed_release_id.as_str(),
                ),
                "host actuator installed another release",
            )?;
            Ok(installed)
        },
        _ => Err(wrong(host, "Install", shown)),
    }
}

/// Settles a preparation: it is of the activation that was issued.
pub fn settle_prepare(
    report: &HostActuatorReport,
    host: &str,
    shown: &str,
    activation: &IdunnRuntimeActivationRecord,
) -> (outcome: Result<(), Refusal>)
    ensures
        judged(
            outcome,
            match *report {
                HostActuatorReport::Prepared { activation: prepared } => unless(
                    prepared@ == activation@,
                    "host actuator prepared another activation than the one issued"@,
                ),
                _ => Some(wrong_answer(host@, "PrepareActivation"@, shown@)),
            },
        ),
{
    match report {
        HostActuatorReport::Prepared { activation: prepared } => check(
            prepared.same(activation),
            "host actuator prepared another activation than the one issued",
        ),
        _ => Err(wrong(host, "PrepareActivation", shown)),
    }
}

/// Why an observation is not believed, if so.
pub open spec fn observation_refusal(
    host: Seq<char>,
    observation: HostWorkloadObservationView,
    expected: IdunnExpectedIncarnationRecordView,
    activation: IdunnRuntimeActivationRecordView,
) -> Option<Seq<char>> {
    either(
        unless(observation.host == host, "observation names another host"@),
        either(
            unless(
                observation.runtime_instance_id == activation.runtime_instance_id
                    && observation.activation_signer_identity_id
                    == activation.activation_signer_identity_id
                    && observation.activation_signer_public_key
                    == activation.activation_signer_public_key,
                "observation belongs to another activation"@,
            ),
            either(
                unless(
                    observation.executable_sha256 == expected.artifact_sha256,
                    "host workload executable differs from Expected"@,
                ),
                either(
                    unless(observation.process_id > 0, "host workload has no process"@),
                    unless(
                        observation.process_creation_time > 0,
                        "host workload has no creation time"@,
                    ),
                ),
            ),
        ),
    )
}

/// Admits an observation: it is of this host, of the activation and of what is expected, and
/// it names a process.
pub fn check_observation(
    host: &str,
    observation: &HostWorkloadObservation,
    expected: &IdunnExpectedIncarnationRecord,
    activation: &IdunnRuntimeActivationRecord,
) -> (outcome: Result<(), Refusal>)
    ensures
        judged(outcome, observation_refusal(host@, observation@, expected@, activation@)),
{
    check(same_text(observation.host.as_str(), host), "observation names another host")?;
    check(
        same_text(
            observation.runtime_instance_id.as_str(),
            activation.runtime_instance_id.as_str(),
        ) && same_text(
            observation.activation_signer_identity_id.as_str(),
            activation.activation_signer_identity_id.as_str(),
        ) && same_bytes(
            observation.activation_signer_public_key.as_slice(),
            activation.activation_signer_public_key.as_slice(),
        ),
        "observation belongs to another activation",
    )?;
    check(
        same_text(
            observation.executable_sha256.as_str(),
            expected.artifact_sha256.as_str(),
        ),
        "host workload executable differs from Expected",
    )?;
    check(observation.process_id > 0, "host workload has no process")?;
    check(observation.process_creation_time > 0, "host workload has no creation time")
}

/// Why a start is not believed, if so.
pub open spec fn start_refusal(
    report: HostActuatorReport,
    host: Seq<char>,
    shown: Seq<char>,
    expected: IdunnExpectedIncarnationRecordView,
    activation: IdunnRuntimeActivationRecordView,
) -> Option<Seq<char>> {
    match report {
        HostActuatorReport::Started { observation } => either(
            observation_refusal(host, observation@, expected, activation),
            unless(observation@.exit_code is None, "host workload exited during start"@),
        ),
        _ => Some(wrong_answer(host, "Start"@, shown)),
    }
}

/// Takes a started workload from a report.
pub fn settle_start(
    report: HostActuatorReport,
    host: &str,
    shown: &str,
    expected: &IdunnExpectedIncarnationRecord,
    activation: &IdunnRuntimeActivationRecord,
) -> (outcome: Result<WorkloadObservation, Refusal>)
    ensures
        judged(outcome, start_refusal(report, host@, shown@, expected@, activation@)),
        outcome matches Ok(workload) ==> (workload matches WorkloadObservation::Host(found)
            && report == (HostActuatorReport::Started { observation: found })),
{
    match report {
        HostActuatorReport::Started { observation } => {
            check_observation(host, &observation, expected, activation)?;
            check(observation.exit_code.is_none(), "host workload exited during start")?;
            Ok(WorkloadObservation::Host(observation))
        },
        _ => Err(wrong(host, "Start", shown)),
    }
}

/// Settles a discarding.
pub fn settle_discard(report: &HostActuatorReport, host: &str, shown: &str) -> (outcome: Result<
    (),
    Refusal,
>)
    ensures
        judged(
            outcome,
            unless(*report is Discarded, wrong_answer(host@, "Discard"@, shown@)),
        ),
{
    match report {
        HostActuatorReport::Discarded => Ok(()),
        _ => Err(wrong(host, "Discard", shown)),
    }
}

/// Why a later observation is not believed, if so.
pub open spec fn later_refusal(
    report: HostActuatorReport,
    shown: Seq<char>,
    prior: HostWorkloadObservationView,
    expected: IdunnExpectedIncarnationRecordView,
    activation: IdunnRuntimeActivationRecordView,
) -> Option<Seq<char>> {
    match report {
        HostActuatorReport::Observed { observation } => {
            let o = observation@;
            either(
                observation_refusal(prior.host, o, expected, activation),
                either(
                    unless(
                        o.process_id == prior.process_id && o.process_creation_time
                            == prior.process_creation_time && o.executable == prior.executable,
                        "host workload identity changed after observation"@,
                    ),
                    match o.exit_code {
                        None => None,
                        Some(code) => Some(
                            "host workload "@ + prior.runtime_instance_id + " pid "@ + decimal(
                                prior.process_id as nat,
                            ) + " exited with code "@ + decimal(code as nat),
                        ),
                    },
                ),
            )
        },
        _ => Some(wrong_answer(prior.host, "Observe"@, shown)),
    }
}

/// Takes a later observation of a workload from a report: it is still the one process, and
/// it runs.
pub fn settle_observe(
    report: HostActuatorReport,
    shown: &str,
    prior: &HostWorkloadObservation,
    expected: &IdunnExpectedIncarnationRecord,
    activation: &IdunnRuntimeActivationRecord,
) -> (outcome: Result<WorkloadObservation, Refusal>)
    ensures
        judged(outcome, later_refusal(report, shown@, prior@, expected@, activation@)),
        outcome matches Ok(workload) ==> (workload matches WorkloadObservation::Host(found)
            && report == (HostActuatorReport::Observed { observation: found })),
{
    match report {
        HostActuatorReport::Observed { observation } => {
            check_observation(prior.host.as_str(), &observation, expected, activation)?;
            check(
                observation.process_id == prior.process_id && observation.process_creation_time
                    == prior.process_creation_time && same_text(
                    observation.executable.as_str(),
                    prior.executable.as_str(),
                ),
                "host workload identity changed after observation",
            )?;
            if let Some(code) = observation.exit_code {
                let pid = decimal_of(prior.process_id as u64);
                let ended = decimal_of(code as u64);
                let head = cat4(
                    "host workload ",
                    prior.runtime_instance_id.as_str(),
                    " pid ",
                    pid.as_str(),
                );
                return Err(
                    Refusal { text: cat3(head.as_str(), " exited with code ", ended.as_str()) },
                );
            }
            Ok(WorkloadObservation::Host(observation))
        },
        _ => Err(wrong(prior.host.as_str(), "Observe", shown)),
    }
}

/// Settles a stop.
pub fn settle_stop(report: &HostActuatorReport, host: &str, shown: &str) -> (outcome: Result<
    (),
    Refusal,
>)
    ensures
        judged(outcome, unless(*report is Stopped, wrong_answer(host@, "Stop"@, shown@))),
{
    match report {
        HostActuatorReport::Stopped => Ok(()),
        _ => Err(wrong(host, "Stop", shown)),
    }
}

/// Whether a workload is stopped for good: nothing on a managed host starts it again, so it
/// is once it no longer runs.
pub fn settle_probe(report: &HostActuatorReport, host: &str, shown: &str) -> (outcome: Result<
    bool,
    Refusal,
>)
    ensures
        comes_to(
            outcome,
            match *report {
                HostActuatorReport::Probed { running } => Ok(!running),
                _ => Err(wrong_answer(host@, "Probe"@, shown@)),
            },
        ),
{
    match report {
        HostActuatorReport::Probed { running } => Ok(!*running),
        _ => Err(wrong(host, "Probe", shown)),
    }
}

/// A workload that Idunn believes to run on a managed host is the expected executable, of
/// the activation, and a process that has not ended.
pub proof fn a_believed_workload_runs_what_is_expected(
    report: HostActuatorReport,
    shown: Seq<char>,
    prior: HostWorkloadObservationView,
    expected: IdunnExpectedIncarnationRecordView,
    activation: IdunnRuntimeActivationRecordView,
)
    requires
        later_refusal(report, shown, prior, expected, activation) is None,
    ensures
        report matches HostActuatorReport::Observed { observation } && {
            &&& observation@.executable_sha256 == expected.artifact_sha256
            &&& observation@.runtime_instance_id == activation.runtime_instance_id
            &&& observation@.process_id == prior.process_id
            &&& observation@.process_creation_time == prior.process_creation_time
            &&& observation@.process_id > 0
            &&& observation@.exit_code is None
        },
{
}

} // verus!
