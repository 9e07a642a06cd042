//! What an operator binds and a target declares, as far as the drivers read it.
use vstd::prelude::*;

use crate::maps::TextMap;
use crate::text::{cat2, same_text, Refusal};

verus! {

/// How a revision of a repository is selected.
#[derive(Clone, Copy, Debug, PartialEq, Eq, Structural)]
pub enum SourceSelectionPolicy {
    PinnedObject,
    RefHead,
    SignedRelease,
}

/// An admitted submodule: where it stands in the tree and whence it is fetched.
#[derive(Clone, Debug, PartialEq, Eq)]
pub struct GitlinkBinding {
    pub path: String,
    pub origin: String,
}

/// The repository of a target.
#[derive(Clone, Debug, PartialEq, Eq)]
pub struct RepositoryBinding {
    pub origin: String,
    pub checkout: String,
    pub gitlinks: Vec<GitlinkBinding>,
    pub recipe_path: String,
    pub admitted_ref: String,
    pub selection: SourceSelectionPolicy,
    pub pinned_revision: Option<String>,
    pub minimum_revision: String,
}

/// A runner that builds in containers.
#[derive(Clone, Debug, PartialEq, Eq)]
pub struct DockerRunnerBinding {
    pub image: String,
    pub user: String,
    pub cache_root: Option<String>,
    pub allowed_programs: Vec<String>,
    pub environment: TextMap,
    pub secret_files: TextMap,
    pub network_profile: Option<String>,
    pub memory_mebibytes: u32,
    pub cpu_quota_percent: u32,
    pub pids_limit: u32,
    pub tmpfs_mebibytes: u32,
}

/// A runner that builds on a managed host itself.
#[derive(Clone, Debug, PartialEq, Eq)]
pub struct HostRunnerBinding {
    pub allowed_programs: Vec<String>,
    pub environment: TextMap,
}

/// Whether a workload has the network of its host.
#[derive(Clone, Copy, Debug, PartialEq, Eq, Structural)]
pub enum WorkloadNetwork {
    Isolated,
    Host,
}

/// A workload that systemd runs.
#[derive(Clone, Debug, PartialEq, Eq)]
pub struct SystemdWorkloadBinding {
    pub unit_prefix: String,
    pub release_root: String,
    pub runtime_root: String,
    pub state_group: Option<String>,
    pub state_root: Option<String>,
    pub read_only_paths: Vec<String>,
    pub read_write_paths: Vec<String>,
    pub devices: Vec<String>,
    pub environment: TextMap,
    pub secret_files: TextMap,
    pub argument_bindings: TextMap,
    pub memory_mebibytes: u32,
    pub cpu_quota_percent: u32,
    pub network: WorkloadNetwork,
}

/// A workload that a managed host runs.
#[derive(Clone, Debug, PartialEq, Eq)]
pub struct HostWorkloadBinding {
    pub host: String,
    pub release_root: String,
    pub runtime_root: String,
    pub environment: TextMap,
    pub secret_files: TextMap,
    pub argument_bindings: TextMap,
}

/// Where a target's write lease is kept.
#[derive(Clone, Debug, PartialEq, Eq)]
pub struct ProcessWriteLeaseBinding {
    pub record_path: String,
    pub lock_path: String,
}

/// One argument of a service: a text, or the name of one that the operator binds.
#[derive(Clone, Debug, PartialEq, Eq)]
pub enum LaunchArgument {
    Literal { value: String },
    Binding { name: String },
}

/// Where a declared artifact comes from.
#[derive(Clone, Copy, Debug, PartialEq, Eq, Structural)]
pub enum ArtifactSource {
    RunnerOutput,
    WorktreeTree,
}

/// One artifact that a target's release holds.
#[derive(Clone, Debug, PartialEq, Eq)]
pub struct ArtifactOutput {
    pub id: String,
    pub source_kind: ArtifactSource,
    pub runner: Option<String>,
    pub source: String,
    pub destination: String,
    pub expected_sha256: Option<String>,
    pub executable: bool,
}

/// One build step of a target.
#[derive(Clone, Debug, PartialEq, Eq)]
pub struct BuildStep {
    pub id: String,
    pub runner: String,
    pub argv: Vec<String>,
    pub working_directory: String,
    pub required_environment: Vec<String>,
}

/// One file that a target's build takes from outside, by its digest.
#[derive(Clone, Debug, PartialEq, Eq)]
pub struct ExternalInput {
    pub id: String,
    pub url: String,
    pub sha256: String,
    pub runner: String,
    pub destination: String,
}

/// The service that a target's release runs as.
#[derive(Clone, Debug, PartialEq, Eq)]
pub struct ServiceDeclaration {
    pub executable_artifact: String,
    pub arguments: Vec<LaunchArgument>,
    pub required_environment: Vec<String>,
}

/// What a target's recipe declares.
#[derive(Clone, Debug, PartialEq, Eq)]
pub struct TargetDeclaration {
    pub source_stamp_environment: String,
    pub external_inputs: Vec<ExternalInput>,
    pub steps: Vec<BuildStep>,
    pub artifacts: Vec<ArtifactOutput>,
    pub service: ServiceDeclaration,
}

/// One artifact of a sealed release, with its digest.
#[derive(Clone, Debug, PartialEq, Eq)]
pub struct ArtifactReceipt {
    pub artifact_id: String,
    pub destination: String,
    pub sha256: String,
    pub size_bytes: u64,
    pub executable: bool,
}

/// The place of the first artifact with an id.
pub open spec fn artifact_place(artifacts: Seq<ArtifactOutput>, id: Seq<char>, i: int) -> bool {
    &&& 0 <= i < artifacts.len()
    &&& artifacts[i].id@ == id
    &&& forall|j: int| 0 <= j < i ==> (#[trigger] artifacts[j]).id@ != id
}

/// Whether a target declares an artifact.
pub open spec fn declares(artifacts: Seq<ArtifactOutput>, id: Seq<char>) -> bool {
    exists|i: int| 0 <= i < artifacts.len() && (#[trigger] artifacts[i]).id@ == id
}

/// The first artifact that a target declares with an id.
pub fn release_artifact<'a>(declaration: &'a TargetDeclaration, artifact_id: &str) -> (outcome:
    Result<&'a ArtifactOutput, Refusal>)
    ensures
        match outcome {
            Ok(artifact) => exists|i: int|
                artifact_place(declaration.artifacts@, artifact_id@, i) && *artifact
                    == #[trigger] declaration.artifacts@[i],
            Err(refusal) => !declares(declaration.artifacts@, artifact_id@) && refusal@
                == "target declares no artifact "@ + artifact_id@,
        },
{
    let mut i: usize = 0;
    while i < declaration.artifacts.len()
        invariant
            i <= declaration.artifacts@.len(),
            forall|j: int| 0 <= j < i
                ==> (#[trigger] declaration.artifacts@[j]).id@ != artifact_id@,
        decreases declaration.artifacts@.len() - i,
    {
        if same_text(declaration.artifacts[i].id.as_str(), artifact_id) {
            assert(artifact_place(declaration.artifacts@, artifact_id@, i as int));
            return Ok(&declaration.artifacts[i]);
        }
        i += 1;
    }
    Err(Refusal { text: cat2("target declares no artifact ", artifact_id) })
}

/// The destination of the first artifact with an id.
pub open spec fn artifact_destination(artifacts: Seq<ArtifactOutput>, id: Seq<char>) -> Seq<char> {
    artifacts[choose|i: int| #[trigger] artifact_place(artifacts, id, i)].destination@
}

pub proof fn lemma_artifact_destination(artifacts: Seq<ArtifactOutput>, id: Seq<char>, i: int)
    requires
        artifact_place(artifacts, id, i),
    ensures
        artifact_destination(artifacts, id) == artifacts[i].destination@,
        declares(artifacts, id),
{
    let k = choose|k: int| #[trigger] artifact_place(artifacts, id, k);
    assert(artifact_place(artifacts, id, k));
    if k < i {
        assert(artifacts[k].id@ != id);
    } else if i < k {
        assert(artifacts[i].id@ != id);
    }
}

/// Whether every argument that names a binding is bound.
pub open spec fn arguments_bound(
    arguments: Seq<LaunchArgument>,
    bindings: Seq<crate::maps::Pair>,
) -> bool {
    forall|i: int|
        0 <= i < arguments.len() ==> (#[trigger] arguments[i] matches LaunchArgument::Binding {
            name,
        } ==> crate::maps::is_named(bindings, name@))
}

/// The text of an argument.
pub open spec fn argument_text(argument: LaunchArgument, bindings: Seq<crate::maps::Pair>) -> Seq<
    char,
> {
    match argument {
        LaunchArgument::Literal { value } => value@,
        LaunchArgument::Binding { name } => crate::maps::value_of(bindings, name@)->0,
    }
}

/// The texts of arguments, in order.
pub open spec fn argument_texts(
    arguments: Seq<LaunchArgument>,
    bindings: Seq<crate::maps::Pair>,
) -> Seq<Seq<char>> {
    Seq::new(arguments.len(), |i: int| argument_text(arguments[i], bindings))
}

} // verus!
