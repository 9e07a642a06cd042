//! What holds of a workload on a managed host, from its build to its stop.
use vstd::prelude::*;

use crate::binding::{HostWorkloadBinding, TargetDeclaration};
use crate::host::{
    bundle_of, exit_of, preparation_refusal, started_observation, ChildState, HostLaunch,
    ObservedProcess, SpawnedChild, StartFindings, StartRequest, StartedProcess,
};
use crate::host_build::{fetched_refusal, host_materialization, lacking, FetchedSource, HostLabour};
use crate::host_config::inherited;
use crate::launch::LaunchNames;
use crate::maps::{is_named, lemma_value_at, lemma_with_lookup, names_of, sorted, value_of, Pair};
use crate::observation::HostWorkloadObservation;
use crate::paths::{components, joined, lemma_join_name};
use crate::platform::ProcessFacts;
use crate::records::{IdunnExpectedIncarnationRecordView, IdunnRuntimeActivationRecordView};
use crate::protocol::HostActuatorReport;
use crate::remote::start_refusal;
use crate::source::SourceSelectionFacts;
use crate::source_laws::every_artifact_on_a_host_is_sealed;
use crate::text::Refusal;
use crate::workload_laws::is_sealed;

verus! {

/// A workload is started on a host only as what is sealed and expected: plan, release,
/// expectation and activation are of one incarnation, the host is the bound one, every artifact
/// is the sealed one, the bundle is prepared whole, the executable is the expected one, and no
/// child of an earlier start still runs. What is launched is that executable, in the installed
/// release.
pub proof fn what_is_started_is_sealed_and_expected(
    request: StartRequest,
    found: StartFindings,
    names: LaunchNames,
    launch: HostLaunch,
    i: int,
)
    requires
        request.refusal(found, names) is None,
        request.launches(launch, found, names),
    ensures
        request.expected@.plan_id == request.plan_id@,
        request.expected@.sealed_release_id == request.release.sealed_release_id@,
        request.activation@.expected_projection_sha256 == request.expected@.canonical_sha256,
        request.workload.host@ == request.host@,
        0 <= i < request.release.artifacts@.len() ==> (found.artifacts@[i] matches Some(Ok(f))
            && is_sealed(request.release.artifacts@[i], f)),
        found.bundle.expected && found.bundle.activation && found.bundle.credential,
        found.executable matches Ok(f) && "sha256-"@ + f.sha256@ == launch.executable_sha256@,
        launch.executable_sha256@ == request.expected@.artifact_sha256,
        launch.directory@ == request.installed@.root,
        found.executable_is_file,
        found.previous matches Some(child) ==> child.state matches Ok(ChildState::Exited { .. }),
{
    every_artifact_on_a_host_is_sealed(request.release.artifacts@, found.artifacts@);
    let f = found.artifacts@[i];
}

/// What a host observes of a workload that it started tells that workload: the process that was
/// launched, from the executable and in the environment that it was launched with, for the
/// activation that it was asked for.
pub proof fn a_started_workload_is_observed_as_launched(
    request: StartRequest,
    launch: HostLaunch,
    process: StartedProcess,
    command: Seq<char>,
    environment: Seq<char>,
)
    requires
        process.seen(),
    ensures
        ({
            let o = started_observation(request, launch, process, command, environment);
            let facts = process.facts->Ok_0->0;
            &&& o.host == request.host@
            &&& o.actuator_identity_id == process.actuator_identity_id@
            &&& o.user_sid == process.user_sid@
            &&& o.process_id == process.process_id
            &&& o.process_creation_time == facts.creation_time
            &&& o.session_id == facts.session_id
            &&& o.executable == launch.executable@
            &&& o.executable_sha256 == launch.executable_sha256@
            &&& o.command_line_sha256 == command
            &&& o.environment_contract_sha256 == environment
            &&& o.environment_names == names_of(launch.environment@)
            &&& o.runtime_bundle == launch.bundle@
            &&& o.runtime_instance_id == request.activation@.runtime_instance_id
            &&& o.activation_signer_identity_id
                == request.activation@.activation_signer_identity_id
            &&& o.activation_signer_public_key == request.activation@.activation_signer_public_key
        }),
{
}

/// A workload that was started as sealed and expected, and whose process still runs, is believed
/// by the one who asked for it; and as long as its process and its executable stay what they
/// are, it is observed again as the same.
pub proof fn a_started_workload_is_believed_and_seen_again(
    request: StartRequest,
    found: StartFindings,
    names: LaunchNames,
    launch: HostLaunch,
    process: StartedProcess,
    command: Seq<char>,
    environment: Seq<char>,
    observation: HostWorkloadObservation,
    shown: Seq<char>,
    later: ObservedProcess,
)
    requires
        request.refusal(found, names) is None,
        request.launches(launch, found, names),
        process.seen(),
        process.process_id > 0,
        process.facts->Ok_0->0.creation_time > 0,
        process.exit() == Ok::<Option<u32>, Seq<char>>(None),
        observation@ == started_observation(request, launch, process, command, environment),
        later.child is None,
        later.facts matches Ok(Some(f)) && f.creation_time
            == process.facts->Ok_0->0.creation_time && f.exit_code is None,
        later.facts_again == later.facts,
        later.facts->Ok_0->0.image_path@ == launch.executable@,
        later.executable matches Ok(f) && "sha256-"@ + f.sha256@ == launch.executable_sha256@,
    ensures
        start_refusal(
            HostActuatorReport::Started { observation },
            request.host@,
            shown,
            request.expected@,
            request.activation@,
        ) is None,
        later.refusal(observation@, request.activation@, request.host@) is None,
        later.exit(observation@) == Ok::<Option<u32>, Seq<char>>(None),
{
}

/// Two instances never share a runtime bundle on a host: each has its own, directly within the
/// runtime root.
pub proof fn instances_have_bundles_of_their_own(
    workload: HostWorkloadBinding,
    one: IdunnRuntimeActivationRecordView,
    two: IdunnRuntimeActivationRecordView,
)
    requires
        workload.runtime_root@.len() > 0,
        one.runtime_instance_id.len() > 0,
        !one.runtime_instance_id.contains('/'),
        one.runtime_instance_id != seq!['.'],
        two.runtime_instance_id.len() > 0,
        !two.runtime_instance_id.contains('/'),
        two.runtime_instance_id != seq!['.'],
    ensures
        components(bundle_of(workload, one)) == components(workload.runtime_root@).push(
            one.runtime_instance_id,
        ),
        bundle_of(workload, one) == bundle_of(workload, two) ==> one.runtime_instance_id
            == two.runtime_instance_id,
{
    lemma_join_name(workload.runtime_root@, one.runtime_instance_id);
    lemma_join_name(workload.runtime_root@, two.runtime_instance_id);
    let parts = components(bundle_of(workload, one));
    assert(parts.last() == one.runtime_instance_id);
    let others = components(bundle_of(workload, two));
    assert(others.last() == two.runtime_instance_id);
}

/// An activation is prepared on a host exactly where it is of the expectation, its credential is
/// a seed of thirty-two bytes, and the host is the bound one.
pub proof fn an_activation_is_prepared_for_its_expectation(
    workload: HostWorkloadBinding,
    host: Seq<char>,
    expected: IdunnExpectedIncarnationRecordView,
    activation: IdunnRuntimeActivationRecordView,
    credential: Seq<u8>,
)
    ensures
        preparation_refusal(workload, host, expected, activation, credential) is None <==> {
            &&& activation.expected_projection_sha256 == expected.canonical_sha256
            &&& credential.len() == 32
            &&& workload.host@ == host
        },
{
}

/// A process has ended or not by its own child where the host started it, and else by whether it
/// is still the one that was created then.
pub proof fn a_process_ends_as_its_child_does(
    child: Option<SpawnedChild>,
    pid: u32,
    creation_time: u64,
    found: Result<Option<ProcessFacts>, Refusal>,
)
    ensures
        child matches Some(c) && c.process_id == pid ==> {
            &&& exit_of(child, pid, creation_time, found) == Ok::<Option<u32>, Seq<char>>(None)
                <==> (child->0.state matches Ok(ChildState::Running))
            &&& child->0.state matches Ok(ChildState::Exited { code: Some(code) }) ==> exit_of(
                child,
                pid,
                creation_time,
                found,
            ) == Ok::<Option<u32>, Seq<char>>(Some(code as u32))
        },
        !(child matches Some(c) && c.process_id == pid) ==> (exit_of(
            child,
            pid,
            creation_time,
            found,
        ) == Ok::<Option<u32>, Seq<char>>(None) <==> (found matches Ok(Some(f)) && f.creation_time
            == creation_time && f.exit_code is None)),
{
}

/// Whether a name of a host's environment is handed on to what is built and run there.
pub open spec fn is_handed_on(name: Seq<char>) -> bool {
    ||| name == "PATH"@
    ||| name == "PATHEXT"@
    ||| name == "SystemRoot"@
    ||| name == "SystemDrive"@
    ||| name == "windir"@
    ||| name == "ComSpec"@
    ||| name == "TEMP"@
    ||| name == "TMP"@
    ||| name == "USERPROFILE"@
    ||| name == "HOMEDRIVE"@
    ||| name == "HOMEPATH"@
    ||| name == "LOCALAPPDATA"@
    ||| name == "APPDATA"@
    ||| name == "ProgramData"@
    ||| name == "ProgramFiles"@
    ||| name == "ProgramFiles(x86)"@
    ||| name == "PUBLIC"@
    ||| name == "USERNAME"@
    ||| name == "COMPUTERNAME"@
    ||| name == "NUMBER_OF_PROCESSORS"@
    ||| name == "PROCESSOR_ARCHITECTURE"@
    ||| name == "CARGO_HOME"@
    ||| name == "RUSTUP_HOME"@
}

proof fn lemma_handed_on(name: Seq<char>)
    ensures
        crate::host_config::passthrough_list().contains(name) <==> is_handed_on(name),
{
    let list = crate::host_config::passthrough_list();
    assert(list[0] == "PATH"@ && list[1] == "PATHEXT"@ && list[2] == "SystemRoot"@);
    assert(list[3] == "SystemDrive"@ && list[4] == "windir"@ && list[5] == "ComSpec"@);
    assert(list[6] == "TEMP"@ && list[7] == "TMP"@ && list[8] == "USERPROFILE"@);
    assert(list[9] == "HOMEDRIVE"@ && list[10] == "HOMEPATH"@ && list[11] == "LOCALAPPDATA"@);
    assert(list[12] == "APPDATA"@ && list[13] == "ProgramData"@ && list[14] == "ProgramFiles"@);
    assert(list[15] == "ProgramFiles(x86)"@ && list[16] == "PUBLIC"@ && list[17] == "USERNAME"@);
    assert(list[18] == "COMPUTERNAME"@ && list[19] == "NUMBER_OF_PROCESSORS"@);
    assert(list[20] == "PROCESSOR_ARCHITECTURE"@ && list[21] == "CARGO_HOME"@);
    assert(list[22] == "RUSTUP_HOME"@);
}

proof fn lemma_inherited(pairs: Seq<Pair>, name: Seq<char>)
    ensures
        sorted(inherited(pairs)),
        is_named(inherited(pairs), name) <==> is_named(pairs, name) && is_handed_on(name),
        is_handed_on(name) && sorted(pairs) ==> value_of(inherited(pairs), name) == value_of(
            pairs,
            name,
        ),
    decreases pairs.len(),
{
    if pairs.len() > 0 {
        let fewer = pairs.drop_last();
        let last = pairs.last();
        lemma_inherited(fewer, name);
        lemma_handed_on(last.0);
        crate::maps::lemma_with(inherited(fewer), last.0, last.1);
        lemma_with_lookup(inherited(fewer), last.0, last.1, name);
        if is_named(fewer, name) {
            let k = choose|k: int| 0 <= k < fewer.len() && (#[trigger] fewer[k]).0 == name;
            assert(pairs[k].0 == name);
        }
        if is_named(pairs, name) && name != last.0 {
            let k = choose|k: int| 0 <= k < pairs.len() && (#[trigger] pairs[k]).0 == name;
            assert(fewer[k].0 == name);
        }
        assert(pairs[pairs.len() - 1].0 == last.0);
        if sorted(pairs) {
            assert forall|i: int, j: int| 0 <= i < j < fewer.len() implies crate::scan::before(
                (#[trigger] fewer[i]).0,
                (#[trigger] fewer[j]).0,
            ) by {
                assert(fewer[i] == pairs[i] && fewer[j] == pairs[j]);
            }
            lemma_value_at(pairs, pairs.len() - 1);
            if is_named(fewer, name) {
                let k = choose|k: int| 0 <= k < fewer.len() && (#[trigger] fewer[k]).0 == name;
                lemma_value_at(fewer, k);
                assert(pairs[k] == fewer[k]);
                lemma_value_at(pairs, k);
            }
        }
    }
}

/// Of a host's environment exactly the listed names are handed on, each with its own value.
pub proof fn a_host_hands_on_the_listed_names(pairs: Seq<Pair>, name: Seq<char>)
    requires
        sorted(pairs),
    ensures
        value_of(inherited(pairs), name) == (if is_handed_on(name) {
            value_of(pairs, name)
        } else {
            None
        }),
{
    lemma_inherited(pairs, name);
}

/// A build on a host fetches the frozen revision from its own origin into the work root, proves
/// it there, runs every step within it and collects every artifact from it, in this order.
pub proof fn a_build_runs_within_what_it_fetched(
    work_root: Seq<char>,
    source: SourceSelectionFacts,
    declaration: TargetDeclaration,
    transaction_id: Seq<char>,
    i: int,
)
    ensures
        ({
            let all = host_materialization(work_root, source, declaration, transaction_id);
            let place = joined(joined(work_root, "sources"@), transaction_id);
            let staging = joined(joined(work_root, "staging"@), transaction_id);
            let n = declaration.steps@.len() as int;
            &&& all.len() == n + 6 + declaration.artifacts@.len()
            &&& all[0] == HostLabour::Clear(joined(work_root, "sources"@), place)
            &&& all[1] == HostLabour::Git(
                joined(work_root, "sources"@),
                seq!["clone"@, "--quiet"@, "--no-checkout"@, source.origin@, place],
            )
            &&& all[2] == HostLabour::Git(
                place,
                seq!["checkout"@, "--quiet"@, "--detach"@, source.revision@],
            )
            &&& all[3] == HostLabour::AdmitSource(place)
            &&& 0 <= i < n ==> all[4 + i] == HostLabour::RunStep(
                i,
                joined(place, declaration.steps@[i].working_directory@),
                joined(
                    joined(work_root, "logs"@),
                    transaction_id + "-"@ + declaration.steps@[i].id@ + ".log"@,
                ),
            )
            &&& all[n + 4] == HostLabour::Clear(joined(work_root, "staging"@), staging)
            &&& all[n + 5] == HostLabour::MakeDirectory(staging)
            &&& 0 <= i < declaration.artifacts@.len() ==> all[n + 6 + i]
                == HostLabour::CollectArtifact(
                i,
                place,
                joined(place, declaration.artifacts@[i].source@),
            )
        }),
{
}

/// What a build fetched is proved exactly where its revision, its tree and its recipe are the
/// frozen ones.
pub proof fn a_fetched_source_is_proved_in_every_part(
    fetched: FetchedSource,
    source: SourceSelectionFacts,
    recipe_blob: Seq<u8>,
)
    ensures
        fetched_refusal(fetched, source, recipe_blob) is None <==> {
            &&& fetched.revision matches Ok(revision) && revision@ == source.revision@
            &&& fetched.tree matches Ok(tree) && tree@ == source.source_tree@
            &&& fetched.recipe matches Ok(recipe) && recipe@ == recipe_blob
        },
{
}

/// A step of a build may run exactly where every name that it requires is given to it.
pub proof fn a_step_has_all_that_it_requires(
    environment: Seq<Pair>,
    id: Seq<char>,
    required: Seq<Seq<char>>,
)
    ensures
        lacking(environment, id, required) is None <==> forall|i: int|
            0 <= i < required.len() ==> is_named(environment, #[trigger] required[i]),
    decreases required.len(),
{
    if required.len() > 0 {
        let fewer = required.drop_last();
        a_step_has_all_that_it_requires(environment, id, fewer);
        assert(required[required.len() - 1] == required.last());
        if lacking(environment, id, required) is None {
            assert forall|i: int| 0 <= i < required.len() implies is_named(
                environment,
                #[trigger] required[i],
            ) by {
                if i < fewer.len() {
                    assert(fewer[i] == required[i]);
                }
            }
        }
        if forall|i: int|
            0 <= i < required.len() ==> is_named(environment, #[trigger] required[i]) {
            assert forall|i: int| 0 <= i < fewer.len() implies is_named(
                environment,
                #[trigger] fewer[i],
            ) by {
                assert(fewer[i] == required[i]);
            }
        }
    }
}

} // verus!
