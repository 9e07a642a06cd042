//! What the actuator of a managed host does with a workload: install its release, prepare
//! and launch it, say how its process stands, stop it, and discard it.
use vstd::prelude::*;

use crate::binding::{
    artifact_destination, declares, ArtifactReceipt, HostWorkloadBinding, LaunchArgument,
    TargetDeclaration,
};
use crate::building::SealedRelease;
use crate::deeds::ending;
use crate::digest::digest_id;
use crate::encoding::{command_contract, environment_contract, packed_command, packed_map};
use crate::launch::{add_name, adding, map_is, service_executable, LaunchNames};
use crate::maps::{names_of, value_of, Pair, TextMap};
use crate::observation::{
    HostWorkloadObservation, HostWorkloadObservationView, InstalledReleaseObservation,
};
use crate::paths::{join, joined};
use crate::platform::ProcessFacts;
use crate::procfs::{comes_to, fault};
use crate::records::{
    reads, IdunnExpectedIncarnationRecord, IdunnExpectedIncarnationRecordView,
    IdunnRuntimeActivationRecord, IdunnRuntimeActivationRecordView,
};
use crate::scan::{decimal, decimal_of};
use crate::text::{
    cat2, cat3, cat4, cat5, chars_of, check, copy_bytes, either, judged, push_text, quote, quoted,
    refuse, same_text, text_of, text_option, texts, unless, Refusal,
};
use crate::watch::missed;
use crate::workload::ArtifactFinding;

verus! {

/// The exit code of a process that was gone before its own could be read.
pub const EXIT_CODE_VANISHED: u32 = 4_294_967_295;

/// The name of the file in a runtime bundle that holds the activation credential.
pub open spec fn credential_file() -> Seq<char> {
    "activation-credential"@
}

/// Why a workload is not this host's, if so.
pub open spec fn foreign_host(bound: Seq<char>, host: Seq<char>) -> Option<Seq<char>> {
    unless(
        bound == host,
        "plan is bound to host "@ + quoted(bound) + ", this actuator is "@ + quoted(host),
    )
}

/// Admits a workload as this host's.
pub fn workload_binding(
    workload: &HostWorkloadBinding,
    host: &str,
) -> (outcome: Result<(), Refusal>)
    ensures
        judged(outcome, foreign_host(workload.host@, host@)),
{
    let bound = quote(workload.host.as_str());
    let here = quote(host);
    let words = cat4(
        "plan is bound to host ",
        bound.as_str(),
        ", this actuator is ",
        here.as_str(),
    );
    check(same_text(workload.host.as_str(), host), words.as_str())
}

/// What was found where an artifact of a release is to be: nothing, or its digest and size,
/// or why they could not be had.
pub type Finding = Option<Result<ArtifactFinding, Refusal>>;

/// Why an artifact is not the sealed one, if so.
pub open spec fn sealed_refusal(receipt: ArtifactReceipt, found: Finding) -> Option<Seq<char>> {
    match found {
        None => Some("artifact "@ + receipt.artifact_id@ + " is absent"@),
        Some(Err(refusal)) => Some(refusal@),
        Some(Ok(finding)) => unless(
            "sha256-"@ + finding.sha256@ == receipt.sha256@ && finding.size_bytes
                == receipt.size_bytes,
            "artifact "@ + receipt.artifact_id@ + " differs from its sealed digest"@,
        ),
    }
}

/// Why the first bad artifact of a release is not the sealed one, if one is not.
pub open spec fn artifacts_refusal(
    receipts: Seq<ArtifactReceipt>,
    findings: Seq<Finding>,
) -> Option<Seq<char>>
    decreases receipts.len(),
{
    if receipts.len() == 0 {
        None
    } else {
        let last = receipts.len() - 1;
        either(
            artifacts_refusal(receipts.drop_last(), findings),
            sealed_refusal(receipts[last], findings[last]),
        )
    }
}

proof fn lemma_artifacts_end(receipts: Seq<ArtifactReceipt>, findings: Seq<Finding>, n: int)
    requires
        0 <= n <= receipts.len(),
        artifacts_refusal(receipts.take(n), findings) is Some,
    ensures
        artifacts_refusal(receipts, findings) == artifacts_refusal(receipts.take(n), findings),
    decreases receipts.len() - n,
{
    if n < receipts.len() {
        assert(receipts.take(n + 1).drop_last() =~= receipts.take(n));
        lemma_artifacts_end(receipts, findings, n + 1);
    } else {
        assert(receipts.take(n) =~= receipts);
    }
}

fn verify_artifact(receipt: &ArtifactReceipt, found: &Finding) -> (outcome: Result<(), Refusal>)
    ensures
        judged(outcome, sealed_refusal(*receipt, *found)),
{
    match found {
        None => Err(
            Refusal { text: cat3("artifact ", receipt.artifact_id.as_str(), " is absent") },
        ),
        Some(Err(refusal)) => Err(Refusal { text: refusal.text.clone() }),
        Some(Ok(finding)) => {
            let id = cat2("sha256-", finding.sha256.as_str());
            let words = cat3(
                "artifact ",
                receipt.artifact_id.as_str(),
                " differs from its sealed digest",
            );
            check(
                same_text(id.as_str(), receipt.sha256.as_str()) && finding.size_bytes
                    == receipt.size_bytes,
                words.as_str(),
            )
        },
    }
}

/// Admits the artifacts of a release: each is the sealed one. There is a finding for each.
pub fn verify_artifacts(
    receipts: &Vec<ArtifactReceipt>,
    findings: &Vec<Finding>,
) -> (outcome: Result<(), Refusal>)
    requires
        findings@.len() == receipts@.len(),
    ensures
        judged(outcome, artifacts_refusal(receipts@, findings@)),
{
    let mut i: usize = 0;
    assert(receipts@.take(0) =~= Seq::<ArtifactReceipt>::empty());
    while i < receipts.len()
        invariant
            i <= receipts@.len(),
            findings@.len() == receipts@.len(),
            artifacts_refusal(receipts@.take(i as int), findings@) is None,
        decreases receipts@.len() - i,
    {
        proof {
            assert(receipts@.take(i + 1).drop_last() =~= receipts@.take(i as int));
            assert(receipts@.take(i + 1)[i as int] == receipts@[i as int]);
        }
        match verify_artifact(&receipts[i], &findings[i]) {
            Ok(()) => {},
            Err(refusal) => {
                proof {
                    lemma_artifacts_end(receipts@, findings@, i + 1);
                }
                return Err(refusal);
            },
        }
        i += 1;
    }
    assert(receipts@.take(i as int) =~= receipts@);
    Ok(())
}

/// Where a release is installed on a host.
pub fn install_destination(
    workload: &HostWorkloadBinding,
    release: &SealedRelease,
) -> (path: String)
    ensures
        path@ == joined(workload.release_root@, release.sealed_release_id@),
{
    join(workload.release_root.as_str(), release.sealed_release_id.as_str())
}

/// What the installation of a release takes: whether what is there is removed, whether the
/// staged release is copied, and why it is not, if so.
#[derive(Debug, PartialEq, Eq)]
pub struct InstallPlan {
    pub remove: bool,
    pub copy: bool,
    pub refusal: Option<Refusal>,
}

/// Decides what the installation of a release takes. A release that is there stays if every
/// artifact of it is the sealed one; there is a finding for each where something is there.
pub fn install(
    release: &SealedRelease,
    destination_exists: bool,
    findings: &Vec<Finding>,
    staging_root: &str,
    staging_is_directory: bool,
) -> (plan: InstallPlan)
    requires
        destination_exists ==> findings@.len() == release.artifacts@.len(),
    ensures
        ({
            let stays = destination_exists && artifacts_refusal(
                release.artifacts@,
                findings@,
            ) is None;
            &&& plan.remove == (destination_exists && !stays)
            &&& plan.copy == (!stays && staging_is_directory)
            &&& ending(plan.refusal) == unless(
                stays || staging_is_directory,
                "staging root "@ + staging_root@ + " is absent; materialize again"@,
            )
        }),
{
    let stays = destination_exists && verify_artifacts(&release.artifacts, findings).is_ok();
    let words = cat3("staging root ", staging_root, " is absent; materialize again");
    let refusal = match check(stays || staging_is_directory, words.as_str()) {
        Ok(()) => None,
        Err(refusal) => Some(refusal),
    };
    InstallPlan {
        remove: destination_exists && !stays,
        copy: !stays && staging_is_directory,
        refusal,
    }
}

/// Settles an installation: every artifact of it is the sealed one.
pub fn settle_install(
    workload: &HostWorkloadBinding,
    release: &SealedRelease,
    findings: &Vec<Finding>,
) -> (outcome: Result<InstalledReleaseObservation, Refusal>)
    requires
        findings@.len() == release.artifacts@.len(),
    ensures
        judged(outcome, artifacts_refusal(release.artifacts@, findings@)),
        outcome matches Ok(installed) ==> {
            &&& installed@.sealed_release_id == release.sealed_release_id@
            &&& installed@.root == joined(workload.release_root@, release.sealed_release_id@)
        },
{
    verify_artifacts(&release.artifacts, findings)?;
    Ok(
        InstalledReleaseObservation {
            sealed_release_id: release.sealed_release_id.clone(),
            root: install_destination(workload, release),
        },
    )
}

/// Where the runtime bundle of an activation is kept on a host.
pub open spec fn bundle_of(
    workload: HostWorkloadBinding,
    activation: IdunnRuntimeActivationRecordView,
) -> Seq<char> {
    joined(workload.runtime_root@, activation.runtime_instance_id)
}

/// Where the runtime bundle of an activation is kept on a host.
pub fn bundle_path(
    workload: &HostWorkloadBinding,
    activation: &IdunnRuntimeActivationRecord,
) -> (path: String)
    ensures
        path@ == bundle_of(*workload, activation@),
{
    join(workload.runtime_root.as_str(), activation.runtime_instance_id.as_str())
}

/// Why an activation may not be prepared on a host, if so.
pub open spec fn preparation_refusal(
    workload: HostWorkloadBinding,
    host: Seq<char>,
    expected: IdunnExpectedIncarnationRecordView,
    activation: IdunnRuntimeActivationRecordView,
    credential: Seq<u8>,
) -> Option<Seq<char>> {
    either(
        unless(
            activation.expected_projection_sha256 == expected.canonical_sha256,
            "activation belongs to another Expected"@,
        ),
        either(
            unless(credential.len() == 32, "activation credential is not a 32-byte seed"@),
            foreign_host(workload.host@, host),
        ),
    )
}

/// Admits the preparation of an activation. The place of its runtime bundle, and of the
/// credential within it, is the outcome.
pub fn prepare_activation(
    workload: &HostWorkloadBinding,
    host: &str,
    expected: &IdunnExpectedIncarnationRecord,
    activation: &IdunnRuntimeActivationRecord,
    credential: &[u8],
) -> (outcome: Result<(String, String), Refusal>)
    ensures
        judged(
            outcome,
            preparation_refusal(*workload, host@, expected@, activation@, credential@),
        ),
        outcome matches Ok((bundle, file)) ==> {
            &&& bundle@ == bundle_of(*workload, activation@)
            &&& file@ == joined(bundle_of(*workload, activation@), credential_file())
        },
{
    check(
        same_text(
            activation.expected_projection_sha256.as_str(),
            expected.canonical_sha256.as_str(),
        ),
        "activation belongs to another Expected",
    )?;
    check(credential.len() == 32, "activation credential is not a 32-byte seed")?;
    workload_binding(workload, host)?;
    let bundle = bundle_path(workload, activation);
    let file = join(bundle.as_str(), "activation-credential");
    Ok((bundle, file))
}

/// The environment with the first secrets of a host named, or why one is refused.
pub open spec fn with_files(
    environment: Seq<Pair>,
    secrets: Seq<Pair>,
    are_files: Seq<bool>,
) -> Result<Seq<Pair>, Seq<char>>
    decreases secrets.len(),
{
    if secrets.len() == 0 {
        Ok(environment)
    } else {
        let (name, path) = secrets.last();
        match with_files(environment, secrets.drop_last(), are_files) {
            Err(w) => Err(w),
            Ok(earlier) => if !are_files[secrets.len() - 1] {
                Err("secret file "@ + path + " bound as "@ + name + " is absent on this host"@)
            } else {
                adding(
                    Ok::<Seq<Pair>, Seq<char>>(earlier),
                    name,
                    path,
                    "workload environment and secret bindings collide on "@ + name,
                )
            },
        }
    }
}

proof fn lemma_files_end(
    environment: Seq<Pair>,
    secrets: Seq<Pair>,
    are_files: Seq<bool>,
    n: int,
)
    requires
        0 <= n <= secrets.len(),
        with_files(environment, secrets.take(n), are_files) is Err,
    ensures
        with_files(environment, secrets, are_files) == with_files(
            environment,
            secrets.take(n),
            are_files,
        ),
    decreases secrets.len() - n,
{
    if n < secrets.len() {
        assert(secrets.take(n + 1).drop_last() =~= secrets.take(n));
        lemma_files_end(environment, secrets, are_files, n + 1);
    } else {
        assert(secrets.take(n) =~= secrets);
    }
}

fn add_file(environment: &TextMap, name: &str, path: &str, is_file: bool) -> (outcome: Result<
    TextMap,
    Refusal,
>)
    ensures
        map_is(
            outcome,
            if !is_file {
                Err("secret file "@ + path@ + " bound as "@ + name@ + " is absent on this host"@)
            } else {
                adding(
                    Ok::<Seq<Pair>, Seq<char>>(environment@),
                    name@,
                    path@,
                    "workload environment and secret bindings collide on "@ + name@,
                )
            },
        ),
{
    if !is_file {
        return Err(
            Refusal {
                text: cat5("secret file ", path, " bound as ", name, " is absent on this host"),
            },
        );
    }
    let words = cat2("workload environment and secret bindings collide on ", name);
    add_name(environment, name, path, words.as_str())
}

fn add_files(environment: &TextMap, secrets: &TextMap, are_files: &Vec<bool>) -> (outcome: Result<
    TextMap,
    Refusal,
>)
    requires
        are_files@.len() == secrets@.len(),
    ensures
        map_is(outcome, with_files(environment@, secrets@, are_files@)),
{
    let mut map = environment.copy();
    let n: usize = secrets.len();
    let mut i: usize = 0;
    assert(secrets@.take(0) =~= Seq::<Pair>::empty());
    while i < n
        invariant
            i <= n,
            n == secrets@.len(),
            are_files@.len() == n,
            with_files(environment@, secrets@.take(i as int), are_files@) == Ok::<
                Seq<Pair>,
                Seq<char>,
            >(map@),
        decreases n - i,
    {
        proof {
            assert(secrets@.take(i + 1).drop_last() =~= secrets@.take(i as int));
            assert(secrets@.take(i + 1).last() == secrets@[i as int]);
        }
        match add_file(&map, secrets.name_at(i), secrets.value_at(i), are_files[i]) {
            Ok(more) => {
                map = more;
            },
            Err(refusal) => {
                proof {
                    lemma_files_end(environment@, secrets@, are_files@, i + 1);
                }
                return Err(refusal);
            },
        }
        i += 1;
    }
    assert(secrets@.take(i as int) =~= secrets@);
    Ok(map)
}

/// The environment of a workload on a host, or why it is refused: the operator's bindings,
/// the paths of the secrets, the runtime bundle and the credential in it. None may be
/// replaced.
pub open spec fn host_environment(
    workload: HostWorkloadBinding,
    bundle: Seq<char>,
    are_files: Seq<bool>,
    names: LaunchNames,
) -> Result<Seq<Pair>, Seq<char>> {
    adding(
        adding(
            with_files(workload.environment@, workload.secret_files@, are_files),
            names.runtime_bundle@,
            bundle,
            "operator binding attempts to replace the Idunn runtime bundle"@,
        ),
        names.activation_credential@,
        joined(bundle, credential_file()),
        "operator binding attempts to replace the activation credential"@,
    )
}

/// The environment of a workload on a host, given which of its secrets are files there.
pub fn launch_environment(
    workload: &HostWorkloadBinding,
    bundle: &str,
    are_files: &Vec<bool>,
    names: &LaunchNames,
) -> (outcome: Result<TextMap, Refusal>)
    requires
        are_files@.len() == workload.secret_files@.len(),
    ensures
        map_is(outcome, host_environment(*workload, bundle@, are_files@, *names)),
{
    let base = add_files(&workload.environment, &workload.secret_files, are_files)?;
    let bundled = add_name(
        &base,
        names.runtime_bundle.as_str(),
        bundle,
        "operator binding attempts to replace the Idunn runtime bundle",
    )?;
    let credential = join(bundle, "activation-credential");
    add_name(
        &bundled,
        names.activation_credential.as_str(),
        credential.as_str(),
        "operator binding attempts to replace the activation credential",
    )
}

/// The texts of the first arguments, or why the first one without a binding is refused.
pub open spec fn bound_arguments(arguments: Seq<LaunchArgument>, bindings: Seq<Pair>) -> Result<
    Seq<Seq<char>>,
    Seq<char>,
>
    decreases arguments.len(),
{
    if arguments.len() == 0 {
        Ok(Seq::empty())
    } else {
        match bound_arguments(arguments.drop_last(), bindings) {
            Err(w) => Err(w),
            Ok(earlier) => match arguments.last() {
                LaunchArgument::Literal { value } => Ok(earlier.push(value@)),
                LaunchArgument::Binding { name } => match value_of(bindings, name@) {
                    None => Err("no argument binding "@ + name@),
                    Some(value) => Ok(earlier.push(value)),
                },
            },
        }
    }
}

proof fn lemma_arguments_end(arguments: Seq<LaunchArgument>, bindings: Seq<Pair>, n: int)
    requires
        0 <= n <= arguments.len(),
        bound_arguments(arguments.take(n), bindings) is Err,
    ensures
        bound_arguments(arguments, bindings) == bound_arguments(arguments.take(n), bindings),
    decreases arguments.len() - n,
{
    if n < arguments.len() {
        assert(arguments.take(n + 1).drop_last() =~= arguments.take(n));
        lemma_arguments_end(arguments, bindings, n + 1);
    } else {
        assert(arguments.take(n) =~= arguments);
    }
}

fn bind_arguments(arguments: &Vec<LaunchArgument>, bindings: &TextMap) -> (outcome: Result<
    Vec<String>,
    Refusal,
>)
    ensures
        match (outcome, bound_arguments(arguments@, bindings@)) {
            (Ok(list), Ok(owed)) => texts(list@) == owed,
            (Err(refusal), Err(w)) => refusal@ == w,
            _ => false,
        },
{
    let mut list: Vec<String> = Vec::new();
    let mut i: usize = 0;
    proof {
        assert(arguments@.take(0) =~= Seq::<LaunchArgument>::empty());
        assert(texts(list@) =~= Seq::<Seq<char>>::empty());
    }
    while i < arguments.len()
        invariant
            i <= arguments@.len(),
            bound_arguments(arguments@.take(i as int), bindings@) == Ok::<
                Seq<Seq<char>>,
                Seq<char>,
            >(texts(list@)),
        decreases arguments@.len() - i,
    {
        proof {
            assert(arguments@.take(i + 1).drop_last() =~= arguments@.take(i as int));
            assert(arguments@.take(i + 1).last() == arguments@[i as int]);
        }
        match &arguments[i] {
            LaunchArgument::Literal { value } => push_text(&mut list, value.clone()),
            LaunchArgument::Binding { name } => match bindings.get(name.as_str()) {
                Some(value) => push_text(&mut list, value),
                None => {
                    proof {
                        lemma_arguments_end(arguments@, bindings@, i + 1);
                    }
                    return Err(Refusal { text: cat2("no argument binding ", name.as_str()) });
                },
            },
        }
        i += 1;
    }
    assert(arguments@.take(i as int) =~= arguments@);
    Ok(list)
}

/// The executable and the arguments of a workload on a host, or why they are refused.
pub open spec fn host_command(
    declaration: TargetDeclaration,
    workload: HostWorkloadBinding,
    installed: Seq<char>,
    executable_is_file: bool,
) -> Result<(Seq<char>, Seq<Seq<char>>), Seq<char>> {
    let id = declaration.service.executable_artifact@;
    if !declares(declaration.artifacts@, id) {
        Err("target declares no artifact "@ + id)
    } else if !executable_is_file {
        Err("sealed service executable is absent"@)
    } else {
        match bound_arguments(declaration.service.arguments@, workload.argument_bindings@) {
            Err(w) => Err(w),
            Ok(arguments) => Ok(
                (joined(installed, artifact_destination(declaration.artifacts@, id)), arguments),
            ),
        }
    }
}

/// The executable and the arguments of a workload on a host.
pub fn launch_command(
    declaration: &TargetDeclaration,
    workload: &HostWorkloadBinding,
    installed: &str,
    executable_is_file: bool,
) -> (outcome: Result<(String, Vec<String>), Refusal>)
    ensures
        match (
            outcome,
            host_command(*declaration, *workload, installed@, executable_is_file),
        ) {
            (Ok(command), Ok(owed)) => command.0@ == owed.0 && texts(command.1@) == owed.1,
            (Err(refusal), Err(w)) => refusal@ == w,
            _ => false,
        },
{
    let executable = service_executable(declaration, installed)?;
    check(executable_is_file, "sealed service executable is absent")?;
    let arguments = bind_arguments(&declaration.service.arguments, &workload.argument_bindings)?;
    Ok((executable, arguments))
}

/// How a child that the actuator started stands.
#[derive(Clone, Copy, Debug, PartialEq, Eq, Structural)]
pub enum ChildState {
    Running,
    Exited { code: Option<i32> },
}

/// A child that the actuator started for an activation.
#[derive(Debug, PartialEq, Eq)]
pub struct SpawnedChild {
    pub process_id: u32,
    pub state: Result<ChildState, Refusal>,
}

/// The exit code of the process behind an id and a creation time, once it is gone: that of
/// a child of the actuator is its own. Any other process runs or has vanished, and nothing
/// finer is said of it.
pub open spec fn exit_of(
    child: Option<SpawnedChild>,
    pid: u32,
    creation_time: u64,
    found: Result<Option<ProcessFacts>, Refusal>,
) -> Result<Option<u32>, Seq<char>> {
    if child matches Some(c) && c.process_id == pid {
        match child->0.state {
            Err(refusal) => Err(refusal@),
            Ok(ChildState::Running) => Ok(None),
            Ok(ChildState::Exited { code: None }) => Ok(Some(EXIT_CODE_VANISHED)),
            Ok(ChildState::Exited { code: Some(code) }) => Ok(Some(code as u32)),
        }
    } else {
        match found {
            Err(refusal) => Err(refusal@),
            Ok(Some(facts)) => if facts.creation_time == creation_time && facts.exit_code is None {
                Ok(None)
            } else {
                Ok(Some(EXIT_CODE_VANISHED))
            },
            Ok(None) => Ok(Some(EXIT_CODE_VANISHED)),
        }
    }
}

/// The exit code of the process behind an id and a creation time, once it is gone.
pub fn exit_code(
    child: &Option<SpawnedChild>,
    pid: u32,
    creation_time: u64,
    found: &Result<Option<ProcessFacts>, Refusal>,
) -> (outcome: Result<Option<u32>, Refusal>)
    ensures
        comes_to(outcome, exit_of(*child, pid, creation_time, *found)),
{
    if let Some(c) = child {
        if c.process_id == pid {
            return match &c.state {
                Err(refusal) => Err(Refusal { text: refusal.text.clone() }),
                Ok(ChildState::Running) => Ok(None),
                Ok(ChildState::Exited { code }) => match code {
                    None => Ok(Some(EXIT_CODE_VANISHED)),
                    Some(code) => Ok(Some(*code as u32)),
                },
            };
        }
    }
    match found {
        Err(refusal) => Err(Refusal { text: refusal.text.clone() }),
        Ok(Some(facts)) => if facts.creation_time == creation_time && facts.exit_code.is_none() {
            Ok(None)
        } else {
            Ok(Some(EXIT_CODE_VANISHED))
        },
        Ok(None) => Ok(Some(EXIT_CODE_VANISHED)),
    }
}

/// The parts of a prepared runtime bundle, each as whether it is a file.
#[derive(Clone, Copy, Debug, PartialEq, Eq, Structural)]
pub struct BundleFiles {
    pub expected: bool,
    pub activation: bool,
    pub credential: bool,
}

/// What the start of a workload takes from the plan that it is of.
#[derive(Debug, PartialEq, Eq)]
pub struct StartRequest {
    pub host: String,
    pub plan_id: String,
    pub release: SealedRelease,
    pub installed: InstalledReleaseObservation,
    pub expected: IdunnExpectedIncarnationRecord,
    pub activation: IdunnRuntimeActivationRecord,
    pub declaration: TargetDeclaration,
    pub workload: HostWorkloadBinding,
}

/// What a host finds where a workload is to be started: the artifacts, the bundle, the
/// executable, the secrets, and the child of an earlier start.
#[derive(Debug, PartialEq, Eq)]
pub struct StartFindings {
    pub artifacts: Vec<Finding>,
    pub bundle: BundleFiles,
    pub executable_is_file: bool,
    pub executable: Result<ArtifactFinding, Refusal>,
    pub secrets_are_files: Vec<bool>,
    pub previous: Option<SpawnedChild>,
}

/// What a workload is launched with.
#[derive(Debug, PartialEq, Eq)]
pub struct HostLaunch {
    pub executable: String,
    pub arguments: Vec<String>,
    pub directory: String,
    pub environment: TextMap,
    pub bundle: String,
    pub executable_sha256: String,
}

impl StartRequest {
    /// Whether what is started is one sealed incarnation.
    pub open spec fn is_one_incarnation(&self) -> bool {
        &&& self.expected@.plan_id == self.plan_id@
        &&& self.expected@.sealed_release_id == self.release.sealed_release_id@
        &&& self.activation@.expected_projection_sha256 == self.expected@.canonical_sha256
    }

    /// The executable and arguments of what is started, or why there are none.
    pub open spec fn command(&self, executable_is_file: bool) -> Result<
        (Seq<char>, Seq<Seq<char>>),
        Seq<char>,
    > {
        host_command(self.declaration, self.workload, self.installed@.root, executable_is_file)
    }

    /// Where the runtime bundle of what is started is kept.
    pub open spec fn bundle(&self) -> Seq<char> {
        bundle_of(self.workload, self.activation@)
    }

    /// The environment of what is started, or why there is none.
    pub open spec fn environment(&self, are_files: Seq<bool>, names: LaunchNames) -> Result<
        Seq<Pair>,
        Seq<char>,
    > {
        host_environment(self.workload, self.bundle(), are_files, names)
    }

    /// Why a workload may not be started, if so.
    pub open spec fn refusal(&self, found: StartFindings, names: LaunchNames) -> Option<Seq<char>> {
        either(
            unless(
                self.is_one_incarnation(),
                "workload inputs do not describe one sealed incarnation"@,
            ),
            either(
                foreign_host(self.workload.host@, self.host@),
                either(
                    artifacts_refusal(self.release.artifacts@, found.artifacts@),
                    either(
                        unless(
                            found.bundle.expected && found.bundle.activation
                                && found.bundle.credential,
                            "runtime bundle "@ + self.bundle() + " is not prepared"@,
                        ),
                        either(
                            fault(self.command(found.executable_is_file)),
                            either(
                                missed(found.executable),
                                either(
                                    unless(
                                        "sha256-"@ + found.executable->Ok_0.sha256@
                                            == self.expected@.artifact_sha256,
                                        "installed executable differs from Expected"@,
                                    ),
                                    either(
                                        fault(
                                            self.environment(found.secrets_are_files@, names),
                                        ),
                                        previous_refusal(found.previous),
                                    ),
                                ),
                            ),
                        ),
                    ),
                ),
            ),
        )
    }

    /// Whether a launch is that of what is started.
    pub open spec fn launches(
        &self,
        launch: HostLaunch,
        found: StartFindings,
        names: LaunchNames,
    ) -> bool {
        let command = self.command(found.executable_is_file)->Ok_0;
        &&& launch.executable@ == command.0
        &&& texts(launch.arguments@) == command.1
        &&& launch.directory@ == self.installed@.root
        &&& launch.environment@ == self.environment(found.secrets_are_files@, names)->Ok_0
        &&& launch.bundle@ == self.bundle()
        &&& launch.executable_sha256@ == self.expected@.artifact_sha256
    }
}

/// Why a child of an earlier start stands in the way, if it does.
pub open spec fn previous_refusal(previous: Option<SpawnedChild>) -> Option<Seq<char>> {
    match previous {
        None => None,
        Some(child) => match child.state {
            Err(refusal) => Some(refusal@),
            Ok(ChildState::Running) => Some("a child for this activation is already running"@),
            Ok(ChildState::Exited { .. }) => None,
        },
    }
}

fn check_previous(previous: &Option<SpawnedChild>) -> (outcome: Result<(), Refusal>)
    ensures
        judged(outcome, previous_refusal(*previous)),
{
    match previous {
        None => Ok(()),
        Some(child) => match &child.state {
            Err(refusal) => Err(Refusal { text: refusal.text.clone() }),
            Ok(ChildState::Running) => Err(
                refuse("a child for this activation is already running"),
            ),
            Ok(ChildState::Exited { .. }) => Ok(()),
        },
    }
}

/// Admits the start of a workload. There is a finding for each artifact and each secret.
pub fn start(
    request: &StartRequest,
    found: &StartFindings,
    names: &LaunchNames,
) -> (outcome: Result<HostLaunch, Refusal>)
    requires
        found.artifacts@.len() == request.release.artifacts@.len(),
        found.secrets_are_files@.len() == request.workload.secret_files@.len(),
    ensures
        judged(outcome, request.refusal(*found, *names)),
        outcome matches Ok(launch) ==> request.launches(launch, *found, *names),
{
    check(
        same_text(request.expected.plan_id.as_str(), request.plan_id.as_str()) && same_text(
            request.expected.sealed_release_id.as_str(),
            request.release.sealed_release_id.as_str(),
        ) && same_text(
            request.activation.expected_projection_sha256.as_str(),
            request.expected.canonical_sha256.as_str(),
        ),
        "workload inputs do not describe one sealed incarnation",
    )?;
    workload_binding(&request.workload, request.host.as_str())?;
    verify_artifacts(&request.release.artifacts, &found.artifacts)?;
    let bundle = bundle_path(&request.workload, &request.activation);
    let unprepared = cat3("runtime bundle ", bundle.as_str(), " is not prepared");
    check(
        found.bundle.expected && found.bundle.activation && found.bundle.credential,
        unprepared.as_str(),
    )?;
    let (executable, arguments) = launch_command(
        &request.declaration,
        &request.workload,
        request.installed.root.as_str(),
        found.executable_is_file,
    )?;
    let finding = match &found.executable {
        Ok(finding) => finding,
        Err(refusal) => return Err(Refusal { text: refusal.text.clone() }),
    };
    let executable_sha256 = cat2("sha256-", finding.sha256.as_str());
    check(
        same_text(executable_sha256.as_str(), request.expected.artifact_sha256.as_str()),
        "installed executable differs from Expected",
    )?;
    let environment = launch_environment(
        &request.workload,
        bundle.as_str(),
        &found.secrets_are_files,
        names,
    )?;
    check_previous(&found.previous)?;
    Ok(
        HostLaunch {
            executable,
            arguments,
            directory: request.installed.root.clone(),
            environment,
            bundle,
            executable_sha256,
        },
    )
}

/// What is known of a launched process beyond its launch: its own facts, and whether it has
/// ended.
#[derive(Debug, PartialEq, Eq)]
pub struct StartedProcess {
    pub actuator_identity_id: String,
    pub user_sid: String,
    pub process_id: u32,
    pub facts: Result<Option<ProcessFacts>, Refusal>,
    pub child: Option<SpawnedChild>,
    pub facts_again: Result<Option<ProcessFacts>, Refusal>,
}

impl StartedProcess {
    /// The exit code of the process, if it has ended already, or why that is not known.
    pub open spec fn exit(&self) -> Result<Option<u32>, Seq<char>> {
        exit_of(
            self.child,
            self.process_id,
            self.facts->Ok_0->0.creation_time,
            self.facts_again,
        )
    }

    /// Why a started process cannot be observed, if so, given the digests of its command and
    /// of its environment.
    pub open spec fn refusal(
        &self,
        command_line_sha256: Result<String, Refusal>,
        environment_contract_sha256: Result<String, Refusal>,
    ) -> Option<Seq<char>> {
        either(
            missed(command_line_sha256),
            either(
                missed(self.facts),
                either(
                    unless(self.facts->Ok_0 is Some, "the started process is already gone"@),
                    either(missed(environment_contract_sha256), fault(self.exit())),
                ),
            ),
        )
    }

    /// Whether a started process is seen: it is still there, and whether it has ended is
    /// known.
    pub open spec fn seen(&self) -> bool {
        &&& self.facts is Ok
        &&& self.facts->Ok_0 is Some
        &&& self.exit() is Ok
    }
}

/// What is observed of a started process.
pub open spec fn started_observation(
    request: StartRequest,
    launch: HostLaunch,
    process: StartedProcess,
    command_line_sha256: Seq<char>,
    environment_contract_sha256: Seq<char>,
) -> HostWorkloadObservationView {
    let facts = process.facts->Ok_0->0;
    HostWorkloadObservationView {
        host: request.host@,
        actuator_identity_id: process.actuator_identity_id@,
        process_id: process.process_id,
        process_creation_time: facts.creation_time,
        session_id: facts.session_id,
        user_sid: process.user_sid@,
        executable: launch.executable@,
        executable_sha256: launch.executable_sha256@,
        command_line_sha256,
        environment_names: names_of(launch.environment@),
        environment_contract_sha256,
        runtime_bundle: launch.bundle@,
        runtime_instance_id: request.activation@.runtime_instance_id,
        activation_signer_identity_id: request.activation@.activation_signer_identity_id,
        activation_signer_public_key: request.activation@.activation_signer_public_key,
        exit_code: process.exit()->Ok_0,
    }
}

/// The digest of the command of a launch.
pub fn command_line_sha256(launch: &HostLaunch) -> (outcome: Result<String, Refusal>)
    ensures
        outcome matches Ok(id) ==> id@ == digest_id(
            packed_command(launch.executable@, texts(launch.arguments@)),
        ),
{
    command_contract(&launch.executable, &launch.arguments)
}

/// The digest of the environment of a launch.
pub fn environment_contract_sha256(launch: &HostLaunch) -> (outcome: Result<String, Refusal>)
    ensures
        outcome matches Ok(id) ==> id@ == digest_id(packed_map(launch.environment@)),
{
    environment_contract(&launch.environment)
}

fn had<'a>(reading: &'a Result<String, Refusal>) -> (outcome: Result<&'a String, Refusal>)
    ensures
        judged(outcome, missed(*reading)),
        outcome matches Ok(text) ==> text@ == reading->Ok_0@,
{
    match reading {
        Ok(text) => Ok(text),
        Err(refusal) => Err(Refusal { text: refusal.text.clone() }),
    }
}

/// Settles a start, given the digests of the command and of the environment: the process is
/// observed as what was launched.
pub fn settle_start(
    request: &StartRequest,
    launch: &HostLaunch,
    process: &StartedProcess,
    command_line_sha256: &Result<String, Refusal>,
    environment_contract_sha256: &Result<String, Refusal>,
) -> (outcome: Result<HostWorkloadObservation, Refusal>)
    ensures
        judged(outcome, process.refusal(*command_line_sha256, *environment_contract_sha256)),
        outcome matches Ok(observation) ==> observation@ == started_observation(
            *request,
            *launch,
            *process,
            command_line_sha256->Ok_0@,
            environment_contract_sha256->Ok_0@,
        ),
{
    let command_line = had(command_line_sha256)?;
    let facts = match &process.facts {
        Err(refusal) => return Err(Refusal { text: refusal.text.clone() }),
        Ok(None) => return Err(refuse("the started process is already gone")),
        Ok(Some(facts)) => facts,
    };
    let contract = had(environment_contract_sha256)?;
    let exit = exit_code(
        &process.child,
        process.process_id,
        facts.creation_time,
        &process.facts_again,
    )?;
    Ok(
        HostWorkloadObservation {
            host: request.host.clone(),
            actuator_identity_id: process.actuator_identity_id.clone(),
            process_id: process.process_id,
            process_creation_time: facts.creation_time,
            session_id: facts.session_id,
            user_sid: process.user_sid.clone(),
            executable: launch.executable.clone(),
            executable_sha256: launch.executable_sha256.clone(),
            command_line_sha256: command_line.clone(),
            environment_names: launch.environment.names(),
            environment_contract_sha256: contract.clone(),
            runtime_bundle: launch.bundle.clone(),
            runtime_instance_id: request.activation.runtime_instance_id.clone(),
            activation_signer_identity_id: request.activation.activation_signer_identity_id.clone(),
            activation_signer_public_key: copy_bytes(
                request.activation.activation_signer_public_key.as_slice(),
            ),
            exit_code: exit,
        },
    )
}

/// Observes a started process: its digests are those of its own launch. That the command and
/// the environment can be packed is not promised.
pub fn observe_start(
    request: &StartRequest,
    launch: &HostLaunch,
    process: &StartedProcess,
) -> (outcome: Result<HostWorkloadObservation, Refusal>)
    ensures
        outcome is Ok ==> process.seen(),
        outcome matches Ok(observation) ==> observation@ == started_observation(
            *request,
            *launch,
            *process,
            digest_id(packed_command(launch.executable@, texts(launch.arguments@))),
            digest_id(packed_map(launch.environment@)),
        ),
{
    settle_start(
        request,
        launch,
        process,
        &command_line_sha256(launch),
        &environment_contract_sha256(launch),
    )
}

/// A character of a path as a host compares paths: separators are one, and so are capital
/// and small letters.
pub open spec fn folded(c: char) -> char {
    if c == '/' {
        '\\'
    } else if 'A' <= c && c <= 'Z' {
        ((c as u32 + 32) as u8) as char
    } else {
        c
    }
}

/// A path as a host compares paths.
pub open spec fn folded_path(path: Seq<char>) -> Seq<char> {
    Seq::new(path.len(), |i: int| folded(path[i]))
}

fn fold(path: &str) -> (folding: String)
    ensures
        folding@ == folded_path(path@),
{
    let chars = chars_of(path);
    let mut all: Vec<char> = Vec::new();
    let mut i: usize = 0;
    while i < chars.len()
        invariant
            i <= chars@.len(),
            chars@ == path@,
            all@ == folded_path(path@).take(i as int),
        decreases chars@.len() - i,
    {
        let c = chars[i];
        let folding = if c == '/' {
            '\\'
        } else if 'A' <= c && c <= 'Z' {
            ((c as u32 + 32) as u8) as char
        } else {
            c
        };
        all.push(folding);
        i += 1;
        assert(all@ =~= folded_path(path@).take(i as int));
    }
    assert(folded_path(path@).take(i as int) =~= folded_path(path@));
    text_of(all.as_slice())
}

/// Whether two paths of a host are one: as the host compares them, or by where they lead.
pub open spec fn one_path(
    left: Seq<char>,
    right: Seq<char>,
    left_leads: Option<Seq<char>>,
    right_leads: Option<Seq<char>>,
) -> bool {
    ||| folded_path(left) == folded_path(right)
    ||| left_leads is Some && left_leads == right_leads
}

/// Whether two paths of a host are one, given the canonical path of each, where it has one.
pub fn same_path(
    left: &str,
    right: &str,
    left_leads: &Option<String>,
    right_leads: &Option<String>,
) -> (same: bool)
    ensures
        same == one_path(left@, right@, text_option(*left_leads), text_option(*right_leads)),
{
    let one = fold(left);
    let two = fold(right);
    same_text(one.as_str(), two.as_str()) || match (left_leads, right_leads) {
        (Some(a), Some(b)) => same_text(a.as_str(), b.as_str()),
        _ => false,
    }
}

/// What a host finds of a process that was observed before: how its child stands, its facts,
/// its facts once more where it still runs, and its executable.
#[derive(Debug, PartialEq, Eq)]
pub struct ObservedProcess {
    pub child: Option<SpawnedChild>,
    pub facts: Result<Option<ProcessFacts>, Refusal>,
    pub facts_again: Result<Option<ProcessFacts>, Refusal>,
    pub image_leads: Option<String>,
    pub executable_leads: Option<String>,
    pub executable: Result<ArtifactFinding, Refusal>,
}

impl ObservedProcess {
    /// The exit code of a process that was observed before, or why it is not known.
    pub open spec fn exit(&self, prior: HostWorkloadObservationView) -> Result<
        Option<u32>,
        Seq<char>,
    > {
        exit_of(self.child, prior.process_id, prior.process_creation_time, self.facts)
    }

    /// Why a running process is not the one that was observed before, if so.
    pub open spec fn changed(&self, prior: HostWorkloadObservationView) -> Option<Seq<char>> {
        let pid = "pid "@ + decimal(prior.process_id as nat);
        let facts = self.facts_again->Ok_0->0;
        either(
            missed(self.facts_again),
            either(
                unless(
                    self.facts_again->Ok_0 is Some,
                    "the process disappeared between two reads"@,
                ),
                either(
                    unless(
                        facts.creation_time == prior.process_creation_time,
                        pid + " now belongs to another process"@,
                    ),
                    either(
                        unless(
                            one_path(
                                facts.image_path@,
                                prior.executable,
                                text_option(self.image_leads),
                                text_option(self.executable_leads),
                            ),
                            pid + " now runs "@ + facts.image_path@ + " instead of "@
                                + prior.executable,
                        ),
                        either(
                            missed(self.executable),
                            unless(
                                "sha256-"@ + self.executable->Ok_0.sha256@
                                    == prior.executable_sha256,
                                "the installed executable changed under the running process"@,
                            ),
                        ),
                    ),
                ),
            ),
        )
    }

    /// Why an observation is refused, if it is.
    pub open spec fn refusal(
        &self,
        prior: HostWorkloadObservationView,
        activation: IdunnRuntimeActivationRecordView,
        host: Seq<char>,
    ) -> Option<Seq<char>> {
        either(
            unless(
                activation.runtime_instance_id == prior.runtime_instance_id,
                "observation belongs to another activation"@,
            ),
            either(
                unless(prior.host == host, "observation names another host"@),
                either(
                    fault(self.exit(prior)),
                    if self.exit(prior)->Ok_0 is None {
                        self.changed(prior)
                    } else {
                        None
                    },
                ),
            ),
        )
    }
}

fn check_unchanged(process: &ObservedProcess, prior: &HostWorkloadObservation) -> (outcome: Result<
    (),
    Refusal,
>)
    ensures
        judged(outcome, process.changed(prior@)),
{
    let facts = match &process.facts_again {
        Err(refusal) => return Err(Refusal { text: refusal.text.clone() }),
        Ok(None) => return Err(refuse("the process disappeared between two reads")),
        Ok(Some(facts)) => facts,
    };
    let number = decimal_of(prior.process_id as u64);
    let pid = cat2("pid ", number.as_str());
    let another = cat2(pid.as_str(), " now belongs to another process");
    check(facts.creation_time == prior.process_creation_time, another.as_str())?;
    let elsewhere = cat5(
        pid.as_str(),
        " now runs ",
        facts.image_path.as_str(),
        " instead of ",
        prior.executable.as_str(),
    );
    check(
        same_path(
            facts.image_path.as_str(),
            prior.executable.as_str(),
            &process.image_leads,
            &process.executable_leads,
        ),
        elsewhere.as_str(),
    )?;
    let finding = match &process.executable {
        Ok(finding) => finding,
        Err(refusal) => return Err(Refusal { text: refusal.text.clone() }),
    };
    let id = cat2("sha256-", finding.sha256.as_str());
    check(
        same_text(id.as_str(), prior.executable_sha256.as_str()),
        "the installed executable changed under the running process",
    )
}

/// Observes a workload again: it is what it was, save for how it ended.
pub fn observe(
    prior: &HostWorkloadObservation,
    activation: &IdunnRuntimeActivationRecord,
    host: &str,
    process: &ObservedProcess,
) -> (outcome: Result<HostWorkloadObservation, Refusal>)
    ensures
        judged(outcome, process.refusal(prior@, activation@, host@)),
        outcome matches Ok(observation) ==> observation@ == (HostWorkloadObservationView {
            exit_code: process.exit(prior@)->Ok_0,
            ..prior@
        }),
{
    check(
        same_text(
            activation.runtime_instance_id.as_str(),
            prior.runtime_instance_id.as_str(),
        ),
        "observation belongs to another activation",
    )?;
    check(same_text(prior.host.as_str(), host), "observation names another host")?;
    let exit = exit_code(
        &process.child,
        prior.process_id,
        prior.process_creation_time,
        &process.facts,
    )?;
    if exit.is_none() {
        check_unchanged(process, prior)?;
    }
    let mut observation = prior.copy();
    observation.exit_code = exit;
    Ok(observation)
}

/// Whether an observed process still runs.
pub fn is_running(
    prior: &HostWorkloadObservation,
    child: &Option<SpawnedChild>,
    found: &Result<Option<ProcessFacts>, Refusal>,
) -> (outcome: Result<bool, Refusal>)
    ensures
        comes_to(
            outcome,
            match exit_of(*child, prior@.process_id, prior@.process_creation_time, *found) {
                Err(w) => Err(w),
                Ok(exit) => Ok(exit is None),
            },
        ),
{
    let exit = exit_code(child, prior.process_id, prior.process_creation_time, found)?;
    Ok(exit.is_none())
}

/// Decides whether an observed process is to be ended: it is this host's, and it runs.
pub fn stop(
    prior: &HostWorkloadObservation,
    host: &str,
    running: &Result<bool, Refusal>,
) -> (outcome: Result<bool, Refusal>)
    ensures
        comes_to(
            outcome,
            if prior@.host != host@ {
                Err("observation names another host"@)
            } else {
                match *running {
                    Err(refusal) => Err(refusal@),
                    Ok(is) => Ok(is),
                }
            },
        ),
{
    check(same_text(prior.host.as_str(), host), "observation names another host")?;
    match running {
        Ok(is) => Ok(*is),
        Err(refusal) => Err(Refusal { text: refusal.text.clone() }),
    }
}

/// Settles the ending of a process: it is done once the process no longer runs, and refused
/// once the time for it is over.
pub fn settle_stop(
    prior: &HostWorkloadObservation,
    running: &Result<bool, Refusal>,
    time_is_over: bool,
) -> (outcome: Result<bool, Refusal>)
    ensures
        comes_to(
            outcome,
            match *running {
                Err(refusal) => Err(refusal@),
                Ok(false) => Ok(true),
                Ok(true) => if time_is_over {
                    Err(
                        "pid "@ + decimal(prior@.process_id as nat) + " did not exit within 10s"@,
                    )
                } else {
                    Ok(false)
                },
            },
        ),
{
    match running {
        Err(refusal) => Err(Refusal { text: refusal.text.clone() }),
        Ok(is) => if !*is {
            Ok(true)
        } else {
            let number = decimal_of(prior.process_id as u64);
            let words = cat3("pid ", number.as_str(), " did not exit within 10s");
            check(!time_is_over, words.as_str())?;
            Ok(false)
        },
    }
}

/// Admits the discarding of an activation. The place of its runtime bundle is the outcome.
pub fn discard(
    workload: &HostWorkloadBinding,
    host: &str,
    expected: &IdunnExpectedIncarnationRecord,
    activation: &IdunnRuntimeActivationRecord,
) -> (outcome: Result<String, Refusal>)
    ensures
        judged(
            outcome,
            either(
                unless(
                    activation@.expected_projection_sha256 == expected@.canonical_sha256,
                    "discarded activation does not belong to the prepared Expected"@,
                ),
                foreign_host(workload.host@, host@),
            ),
        ),
        outcome matches Ok(bundle) ==> bundle@ == bundle_of(*workload, activation@),
{
    check(
        same_text(
            activation.expected_projection_sha256.as_str(),
            expected.canonical_sha256.as_str(),
        ),
        "discarded activation does not belong to the prepared Expected",
    )?;
    workload_binding(workload, host)?;
    Ok(bundle_path(workload, activation))
}

} // verus!
