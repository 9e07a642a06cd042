//! The making of a release in containers: in what order the work is done, what each part of
//! it is given, and what it is held to when it is done.
use vstd::prelude::*;

use crate::binding::{
    ArtifactOutput, ArtifactReceipt, ArtifactSource, BuildStep, DockerRunnerBinding, ExternalInput,
    TargetDeclaration,
};
use crate::clock::written;
use crate::deeds::ending;
use crate::digest::{raw_digest_text, raw_sha256};
use crate::gittree::{normalized, normalized_relative};
use crate::maps::{is_named, value_of, TextMap};
use crate::observation::ProcessIdentity;
use crate::paths::{absolute, below, is_absolute, is_below, join, joined, parent, parent_of};
use crate::runner::{
    container_arguments, container_identity, docker_run_args, identity_of, is_container,
    step_binding, ContainerSpec, RunnerHost,
};
use crate::scan::{trim, trimmed};
use crate::source::{FrozenSource, SourceSelectionFacts};
use crate::text::{
    cat2, cat3, cat4, check, either, judged, list_contains, push_text, refuse, same_bytes,
    same_text, text_option, texts, unless, Refusal,
};
use crate::watch::missed;
use crate::workload::ArtifactFinding;

verus! {

/// The driver of container builds, by its Docker.
#[derive(Clone, Debug, PartialEq, Eq)]
pub struct DockerRunnerDriver {
    pub docker_program: String,
}

impl Default for DockerRunnerDriver {
    fn default() -> (driver: Self)
        ensures
            driver.docker_program@ == "/usr/bin/docker"@,
    {
        DockerRunnerDriver { docker_program: "/usr/bin/docker".to_owned() }
    }
}

/// A runner of a target: its id, and what it is bound to as a container runner, or why it
/// is none.
#[derive(Debug, PartialEq, Eq)]
pub struct NamedRunner {
    pub id: String,
    pub docker: Result<DockerRunnerBinding, Refusal>,
}

/// One part of the making of a release. Inputs, steps and artifacts are told by their place
/// in the declaration.
#[derive(Debug, PartialEq, Eq)]
pub enum RunnerStep {
    CopySource { workspace: String },
    MakeDirectory { path: String },
    AssignWorkspace { workspace: String, identity: ProcessIdentity },
    FetchInput { input: usize },
    RunStep { step: usize },
    CollectArtifact { artifact: usize },
    RemoveWorkspace { workspace: String },
}

/// What a `RunnerStep` holds.
pub enum Labour {
    CopySource(Seq<char>),
    MakeDirectory(Seq<char>),
    AssignWorkspace(Seq<char>, ProcessIdentity),
    FetchInput(int),
    RunStep(int),
    CollectArtifact(int),
    RemoveWorkspace(Seq<char>),
}

impl View for RunnerStep {
    type V = Labour;

    open spec fn view(&self) -> Labour {
        match self {
            RunnerStep::CopySource { workspace } => Labour::CopySource(workspace@),
            RunnerStep::MakeDirectory { path } => Labour::MakeDirectory(path@),
            RunnerStep::AssignWorkspace { workspace, identity } => Labour::AssignWorkspace(
                workspace@,
                *identity,
            ),
            RunnerStep::FetchInput { input } => Labour::FetchInput(*input as int),
            RunnerStep::RunStep { step } => Labour::RunStep(*step as int),
            RunnerStep::CollectArtifact { artifact } => Labour::CollectArtifact(*artifact as int),
            RunnerStep::RemoveWorkspace { workspace } => Labour::RemoveWorkspace(workspace@),
        }
    }
}

/// What each part of a list holds.
pub open spec fn labours(list: Seq<RunnerStep>) -> Seq<Labour> {
    Seq::new(list.len(), |i: int| list[i]@)
}

/// The making of a release, and why it ends before the release is whole, if so.
#[derive(Debug, PartialEq, Eq)]
pub struct RunnerPlan {
    pub steps: Vec<RunnerStep>,
    pub refusal: Option<Refusal>,
}

/// What a `RunnerPlan` holds.
#[verifier::ext_equal]
pub struct Work {
    pub steps: Seq<Labour>,
    pub refusal: Option<Seq<char>>,
}

impl View for RunnerPlan {
    type V = Work;

    open spec fn view(&self) -> Work {
        Work { steps: labours(self.steps@), refusal: ending(self.refusal) }
    }
}

/// Work that is done to its end.
pub open spec fn whole(steps: Seq<Labour>) -> Work {
    Work { steps, refusal: None }
}

/// One piece of work, and then another, unless the first ends early.
pub open spec fn and_then(first: Work, second: Work) -> Work {
    match first.refusal {
        Some(_) => first,
        None => Work { steps: first.steps + second.steps, refusal: second.refusal },
    }
}

/// Where a runner works while a release is made.
pub open spec fn workspace_of(staging_root: Seq<char>, runner_id: Seq<char>) -> Seq<char> {
    joined(staging_root, ".runner-"@ + runner_id)
}

/// Where a runner works while a release is made.
pub fn runner_workspace(staging_root: &str, runner_id: &str) -> (workspace: String)
    ensures
        workspace@ == workspace_of(staging_root@, runner_id@),
{
    let name = cat2(".runner-", runner_id);
    join(staging_root, name.as_str())
}

/// Where an external input is put, or why it may not be.
pub open spec fn input_place(workspace: Seq<char>, destination: Seq<char>) -> Result<
    Seq<char>,
    Seq<char>,
> {
    if below(joined(workspace, destination), workspace) {
        Ok(joined(workspace, destination))
    } else {
        Err("external input escaped its runner workspace"@)
    }
}

/// Where an external input is put.
pub fn input_destination(workspace: &str, destination: &str) -> (outcome: Result<String, Refusal>)
    ensures
        written(outcome, input_place(workspace@, destination@)),
{
    let place = join(workspace, destination);
    check(
        is_below(place.as_str(), workspace),
        "external input escaped its runner workspace",
    )?;
    Ok(place)
}

/// The copying of a source for each runner.
pub open spec fn copying(staging_root: Seq<char>, runners: Seq<NamedRunner>) -> Seq<Labour> {
    Seq::new(
        runners.len(),
        |i: int| Labour::CopySource(workspace_of(staging_root, runners[i].id@)),
    )
}

/// The making of the directories of external inputs.
pub open spec fn making(staging_root: Seq<char>, inputs: Seq<ExternalInput>) -> Work
    decreases inputs.len(),
{
    if inputs.len() == 0 {
        whole(Seq::empty())
    } else {
        let input = inputs.last();
        and_then(
            making(staging_root, inputs.drop_last()),
            match input_place(workspace_of(staging_root, input.runner@), input.destination@) {
                Err(w) => Work { steps: Seq::empty(), refusal: Some(w) },
                Ok(place) => match parent(place) {
                    None => whole(Seq::empty()),
                    Some(directory) => whole(seq![Labour::MakeDirectory(directory)]),
                },
            },
        )
    }
}

/// The handing of each workspace to the identity of its runner.
pub open spec fn assigning(staging_root: Seq<char>, runners: Seq<NamedRunner>) -> Work
    decreases runners.len(),
{
    if runners.len() == 0 {
        whole(Seq::empty())
    } else {
        let runner = runners.last();
        and_then(
            assigning(staging_root, runners.drop_last()),
            match runner.docker {
                Err(refusal) => Work { steps: Seq::empty(), refusal: Some(refusal@) },
                Ok(docker) => match identity_of(docker.user@) {
                    Err(w) => Work { steps: Seq::empty(), refusal: Some(w) },
                    Ok(identity) => whole(
                        seq![
                            Labour::AssignWorkspace(
                                workspace_of(staging_root, runner.id@),
                                identity,
                            ),
                        ],
                    ),
                },
            },
        )
    }
}

/// Whether a runner binds a name.
pub open spec fn binds(runner: DockerRunnerBinding, name: Seq<char>) -> bool {
    is_named(runner.environment@, name) || is_named(runner.secret_files@, name)
}

/// Why a step lacks a name that it requires, if it does.
pub open spec fn unbound(
    runner: DockerRunnerBinding,
    id: Seq<char>,
    required: Seq<Seq<char>>,
) -> Option<Seq<char>>
    decreases required.len(),
{
    if required.len() == 0 {
        None
    } else {
        either(
            unbound(runner, id, required.drop_last()),
            unless(
                binds(runner, required.last()),
                "step "@ + id + " lacks operator-bound environment "@ + required.last(),
            ),
        )
    }
}

/// Whether a runner is the first with an id.
pub open spec fn is_runner(runners: Seq<NamedRunner>, id: Seq<char>, i: int) -> bool {
    &&& 0 <= i < runners.len()
    &&& runners[i].id@ == id
    &&& forall|j: int| 0 <= j < i ==> (#[trigger] runners[j]).id@ != id
}

/// The first runner with an id.
pub open spec fn runner_of(runners: Seq<NamedRunner>, id: Seq<char>) -> NamedRunner {
    runners[choose|i: int| #[trigger] is_runner(runners, id, i)]
}

/// Whether there is a runner with an id.
pub open spec fn has_runner(runners: Seq<NamedRunner>, id: Seq<char>) -> bool {
    exists|i: int| #[trigger] is_runner(runners, id, i)
}

/// The running of the first steps, each where its runner works.
pub open spec fn running(steps: Seq<BuildStep>, runners: Seq<NamedRunner>) -> Work
    decreases steps.len(),
{
    if steps.len() == 0 {
        whole(Seq::empty())
    } else {
        let step = steps.last();
        and_then(
            running(steps.drop_last(), runners),
            match runner_of(runners, step.runner@).docker {
                Err(refusal) => Work { steps: Seq::empty(), refusal: Some(refusal@) },
                Ok(docker) => match unbound(docker, step.id@, texts(step.required_environment@)) {
                    Some(w) => Work { steps: Seq::empty(), refusal: Some(w) },
                    None => whole(seq![Labour::RunStep(steps.len() - 1)]),
                },
            },
        )
    }
}

/// The removal of each runner's workspace.
pub open spec fn removing(staging_root: Seq<char>, runners: Seq<NamedRunner>) -> Seq<Labour> {
    Seq::new(
        runners.len(),
        |i: int| Labour::RemoveWorkspace(workspace_of(staging_root, runners[i].id@)),
    )
}

/// The fetching of each input.
pub open spec fn fetching(n: nat) -> Seq<Labour> {
    Seq::new(n, |i: int| Labour::FetchInput(i))
}

/// The collecting of each artifact.
pub open spec fn collecting(n: nat) -> Seq<Labour> {
    Seq::new(n, |i: int| Labour::CollectArtifact(i))
}

/// The making of a release, from its source to its artifacts.
pub open spec fn materialization(
    staging_root: Seq<char>,
    declaration: TargetDeclaration,
    runners: Seq<NamedRunner>,
) -> Work {
    let prepared = and_then(
        whole(copying(staging_root, runners)),
        and_then(
            making(staging_root, declaration.external_inputs@),
            assigning(staging_root, runners),
        ),
    );
    let built = and_then(
        whole(fetching(declaration.external_inputs@.len())),
        running(declaration.steps@, runners),
    );
    let sealed = whole(
        collecting(declaration.artifacts@.len()) + removing(staging_root, runners),
    );
    and_then(prepared, and_then(built, sealed))
}

fn push_part(steps: &mut Vec<RunnerStep>, part: RunnerStep)
    ensures
        labours(final(steps)@) == labours(old(steps)@).push(part@),
{
    let ghost earlier = steps@;
    let ghost added = part@;
    steps.push(part);
    assert(labours(steps@) =~= labours(earlier).push(added));
}

fn plan_copying(steps: &mut Vec<RunnerStep>, staging_root: &str, runners: &Vec<NamedRunner>)
    ensures
        labours(final(steps)@) == labours(old(steps)@) + copying(staging_root@, runners@),
{
    let ghost start = labours(steps@);
    let ghost all = copying(staging_root@, runners@);
    let mut i: usize = 0;
    assert(labours(steps@) =~= start + all.take(0));
    while i < runners.len()
        invariant
            i <= runners@.len(),
            all == copying(staging_root@, runners@),
            labours(steps@) == start + all.take(i as int),
        decreases runners@.len() - i,
    {
        let workspace = runner_workspace(staging_root, runners[i].id.as_str());
        push_part(steps, RunnerStep::CopySource { workspace });
        i += 1;
        assert(labours(steps@) =~= start + all.take(i as int));
    }
    assert(all.take(i as int) =~= all);
}

fn plan_removing(steps: &mut Vec<RunnerStep>, staging_root: &str, runners: &Vec<NamedRunner>)
    ensures
        labours(final(steps)@) == labours(old(steps)@) + removing(staging_root@, runners@),
{
    let ghost start = labours(steps@);
    let ghost all = removing(staging_root@, runners@);
    let mut i: usize = 0;
    assert(labours(steps@) =~= start + all.take(0));
    while i < runners.len()
        invariant
            i <= runners@.len(),
            all == removing(staging_root@, runners@),
            labours(steps@) == start + all.take(i as int),
        decreases runners@.len() - i,
    {
        let workspace = runner_workspace(staging_root, runners[i].id.as_str());
        push_part(steps, RunnerStep::RemoveWorkspace { workspace });
        i += 1;
        assert(labours(steps@) =~= start + all.take(i as int));
    }
    assert(all.take(i as int) =~= all);
}

fn plan_fetching(steps: &mut Vec<RunnerStep>, n: usize)
    ensures
        labours(final(steps)@) == labours(old(steps)@) + fetching(n as nat),
{
    let ghost start = labours(steps@);
    let ghost all = fetching(n as nat);
    let mut i: usize = 0;
    assert(labours(steps@) =~= start + all.take(0));
    while i < n
        invariant
            i <= n,
            all == fetching(n as nat),
            labours(steps@) == start + all.take(i as int),
        decreases n - i,
    {
        push_part(steps, RunnerStep::FetchInput { input: i });
        i += 1;
        assert(labours(steps@) =~= start + all.take(i as int));
    }
    assert(all.take(i as int) =~= all);
}

fn plan_collecting(steps: &mut Vec<RunnerStep>, n: usize)
    ensures
        labours(final(steps)@) == labours(old(steps)@) + collecting(n as nat),
{
    let ghost start = labours(steps@);
    let ghost all = collecting(n as nat);
    let mut i: usize = 0;
    assert(labours(steps@) =~= start + all.take(0));
    while i < n
        invariant
            i <= n,
            all == collecting(n as nat),
            labours(steps@) == start + all.take(i as int),
        decreases n - i,
    {
        push_part(steps, RunnerStep::CollectArtifact { artifact: i });
        i += 1;
        assert(labours(steps@) =~= start + all.take(i as int));
    }
    assert(all.take(i as int) =~= all);
}

proof fn lemma_making_ends(staging_root: Seq<char>, inputs: Seq<ExternalInput>, n: int)
    requires
        0 <= n <= inputs.len(),
        making(staging_root, inputs.take(n)).refusal is Some,
    ensures
        making(staging_root, inputs) == making(staging_root, inputs.take(n)),
    decreases inputs.len() - n,
{
    if n < inputs.len() {
        assert(inputs.take(n + 1).drop_last() =~= inputs.take(n));
        lemma_making_ends(staging_root, inputs, n + 1);
    } else {
        assert(inputs.take(n) =~= inputs);
    }
}

fn plan_making(steps: &mut Vec<RunnerStep>, staging_root: &str, inputs: &Vec<ExternalInput>) -> (
    refusal: Option<Refusal>)
    ensures
        ({
            let work = making(staging_root@, inputs@);
            &&& labours(final(steps)@) == labours(old(steps)@) + work.steps
            &&& ending(refusal) == work.refusal
        }),
{
    let ghost start = labours(steps@);
    let mut i: usize = 0;
    proof {
        assert(inputs@.take(0) =~= Seq::<ExternalInput>::empty());
        assert(labours(steps@) =~= start + making(staging_root@, inputs@.take(0)).steps);
    }
    while i < inputs.len()
        invariant
            i <= inputs@.len(),
            start == labours(old(steps)@),
            labours(steps@) == start + making(staging_root@, inputs@.take(i as int)).steps,
            making(staging_root@, inputs@.take(i as int)).refusal is None,
        decreases inputs@.len() - i,
    {
        proof {
            assert(inputs@.take(i + 1).drop_last() =~= inputs@.take(i as int));
            assert(inputs@.take(i + 1).last() == inputs@[i as int]);
        }
        let workspace = runner_workspace(staging_root, inputs[i].runner.as_str());
        match input_destination(workspace.as_str(), inputs[i].destination.as_str()) {
            Err(refusal) => {
                proof {
                    lemma_making_ends(staging_root@, inputs@, i + 1);
                    assert(labours(steps@) =~= start + making(
                        staging_root@,
                        inputs@.take(i + 1),
                    ).steps);
                }
                return Some(refusal);
            },
            Ok(place) => match parent_of(place.as_str()) {
                None => {},
                Some(path) => push_part(steps, RunnerStep::MakeDirectory { path }),
            },
        }
        i += 1;
        assert(labours(steps@) =~= start + making(staging_root@, inputs@.take(i as int)).steps);
    }
    assert(inputs@.take(i as int) =~= inputs@);
    None
}

proof fn lemma_assigning_ends(staging_root: Seq<char>, runners: Seq<NamedRunner>, n: int)
    requires
        0 <= n <= runners.len(),
        assigning(staging_root, runners.take(n)).refusal is Some,
    ensures
        assigning(staging_root, runners) == assigning(staging_root, runners.take(n)),
    decreases runners.len() - n,
{
    if n < runners.len() {
        assert(runners.take(n + 1).drop_last() =~= runners.take(n));
        lemma_assigning_ends(staging_root, runners, n + 1);
    } else {
        assert(runners.take(n) =~= runners);
    }
}

fn runner_identity(runner: &NamedRunner) -> (outcome: Result<ProcessIdentity, Refusal>)
    ensures
        match runner.docker {
            Err(refusal) => outcome matches Err(r) && r@ == refusal@,
            Ok(docker) => match identity_of(docker.user@) {
                Err(w) => outcome matches Err(r) && r@ == w,
                Ok(identity) => outcome == Ok::<ProcessIdentity, Refusal>(identity),
            },
        },
{
    match &runner.docker {
        Err(refusal) => Err(Refusal { text: refusal.text.clone() }),
        Ok(docker) => container_identity(docker.user.as_str()),
    }
}

fn plan_assigning(steps: &mut Vec<RunnerStep>, staging_root: &str, runners: &Vec<NamedRunner>) -> (
    refusal: Option<Refusal>)
    ensures
        ({
            let work = assigning(staging_root@, runners@);
            &&& labours(final(steps)@) == labours(old(steps)@) + work.steps
            &&& ending(refusal) == work.refusal
        }),
{
    let ghost start = labours(steps@);
    let mut i: usize = 0;
    proof {
        assert(runners@.take(0) =~= Seq::<NamedRunner>::empty());
        assert(labours(steps@) =~= start + assigning(staging_root@, runners@.take(0)).steps);
    }
    while i < runners.len()
        invariant
            i <= runners@.len(),
            start == labours(old(steps)@),
            labours(steps@) == start + assigning(staging_root@, runners@.take(i as int)).steps,
            assigning(staging_root@, runners@.take(i as int)).refusal is None,
        decreases runners@.len() - i,
    {
        proof {
            assert(runners@.take(i + 1).drop_last() =~= runners@.take(i as int));
            assert(runners@.take(i + 1).last() == runners@[i as int]);
        }
        match runner_identity(&runners[i]) {
            Err(refusal) => {
                proof {
                    lemma_assigning_ends(staging_root@, runners@, i + 1);
                    assert(labours(steps@) =~= start + assigning(
                        staging_root@,
                        runners@.take(i + 1),
                    ).steps);
                }
                return Some(refusal);
            },
            Ok(identity) => {
                let workspace = runner_workspace(staging_root, runners[i].id.as_str());
                push_part(steps, RunnerStep::AssignWorkspace { workspace, identity });
            },
        }
        i += 1;
        assert(labours(steps@) =~= start + assigning(
            staging_root@,
            runners@.take(i as int),
        ).steps);
    }
    assert(runners@.take(i as int) =~= runners@);
    None
}

proof fn lemma_unbound_ends(
    runner: DockerRunnerBinding,
    id: Seq<char>,
    required: Seq<Seq<char>>,
    n: int,
)
    requires
        0 <= n <= required.len(),
        unbound(runner, id, required.take(n)) is Some,
    ensures
        unbound(runner, id, required) == unbound(runner, id, required.take(n)),
    decreases required.len() - n,
{
    if n < required.len() {
        assert(required.take(n + 1).drop_last() =~= required.take(n));
        lemma_unbound_ends(runner, id, required, n + 1);
    } else {
        assert(required.take(n) =~= required);
    }
}

/// Admits the environment that a step requires: its runner binds every name of it.
pub fn admit_environment(runner: &DockerRunnerBinding, step: &BuildStep) -> (outcome: Result<
    (),
    Refusal,
>)
    ensures
        judged(outcome, unbound(*runner, step.id@, texts(step.required_environment@))),
{
    let ghost all = texts(step.required_environment@);
    let mut i: usize = 0;
    assert(all.take(0) =~= Seq::<Seq<char>>::empty());
    while i < step.required_environment.len()
        invariant
            i <= step.required_environment@.len(),
            all == texts(step.required_environment@),
            unbound(*runner, step.id@, all.take(i as int)) is None,
        decreases step.required_environment@.len() - i,
    {
        proof {
            assert(all.take(i + 1).drop_last() =~= all.take(i as int));
            assert(all.take(i + 1).last() == all[i as int]);
        }
        let name = step.required_environment[i].as_str();
        if !runner.environment.contains(name) && !runner.secret_files.contains(name) {
            proof {
                lemma_unbound_ends(*runner, step.id@, all, i + 1);
            }
            return Err(
                Refusal {
                    text: cat4(
                        "step ",
                        step.id.as_str(),
                        " lacks operator-bound environment ",
                        name,
                    ),
                },
            );
        }
        i += 1;
    }
    assert(all.take(i as int) =~= all);
    Ok(())
}

proof fn lemma_one_runner(runners: Seq<NamedRunner>, id: Seq<char>, i: int, j: int)
    requires
        is_runner(runners, id, i),
        is_runner(runners, id, j),
    ensures
        i == j,
{
    if i < j {
        assert(runners[i].id@ != id);
    } else if j < i {
        assert(runners[j].id@ != id);
    }
}

/// The runner with an id. There is one.
pub fn find_runner<'a>(runners: &'a Vec<NamedRunner>, id: &str) -> (runner: &'a NamedRunner)
    requires
        has_runner(runners@, id@),
    ensures
        *runner == runner_of(runners@, id@),
        runner.id@ == id@,
{
    let mut i: usize = 0;
    let count = runners.len();
    let ghost k = choose|k: int| #[trigger] is_runner(runners@, id@, k);
    while !same_text(runners[i].id.as_str(), id)
        invariant
            i < count,
            count == runners@.len(),
            is_runner(runners@, id@, k),
            i <= k,
            forall|j: int| 0 <= j < i ==> (#[trigger] runners@[j]).id@ != id@,
        decreases runners@.len() - i,
    {
        assert(i < k);
        i += 1;
    }
    proof {
        assert(is_runner(runners@, id@, i as int));
        lemma_one_runner(runners@, id@, i as int, k);
    }
    &runners[i]
}

proof fn lemma_running_ends(steps: Seq<BuildStep>, runners: Seq<NamedRunner>, n: int)
    requires
        0 <= n <= steps.len(),
        running(steps.take(n), runners).refusal is Some,
    ensures
        running(steps, runners) == running(steps.take(n), runners),
    decreases steps.len() - n,
{
    if n < steps.len() {
        assert(steps.take(n + 1).drop_last() =~= steps.take(n));
        lemma_running_ends(steps, runners, n + 1);
    } else {
        assert(steps.take(n) =~= steps);
    }
}

/// Whether every step of a target names a runner that there is.
pub open spec fn steps_have_runners(steps: Seq<BuildStep>, runners: Seq<NamedRunner>) -> bool {
    forall|i: int| 0 <= i < steps.len() ==> has_runner(runners, (#[trigger] steps[i]).runner@)
}

fn admit_step(step: &BuildStep, runners: &Vec<NamedRunner>) -> (outcome: Result<(), Refusal>)
    requires
        has_runner(runners@, step.runner@),
    ensures
        match runner_of(runners@, step.runner@).docker {
            Err(refusal) => outcome matches Err(r) && r@ == refusal@,
            Ok(docker) => judged(
                outcome,
                unbound(docker, step.id@, texts(step.required_environment@)),
            ),
        },
{
    match &find_runner(runners, step.runner.as_str()).docker {
        Err(refusal) => Err(Refusal { text: refusal.text.clone() }),
        Ok(docker) => admit_environment(docker, step),
    }
}

fn plan_running(
    parts: &mut Vec<RunnerStep>,
    steps: &Vec<BuildStep>,
    runners: &Vec<NamedRunner>,
) -> (refusal: Option<Refusal>)
    requires
        steps_have_runners(steps@, runners@),
    ensures
        ({
            let work = running(steps@, runners@);
            &&& labours(final(parts)@) == labours(old(parts)@) + work.steps
            &&& ending(refusal) == work.refusal
        }),
{
    let ghost start = labours(parts@);
    let mut i: usize = 0;
    proof {
        assert(steps@.take(0) =~= Seq::<BuildStep>::empty());
        assert(labours(parts@) =~= start + running(steps@.take(0), runners@).steps);
    }
    while i < steps.len()
        invariant
            i <= steps@.len(),
            steps_have_runners(steps@, runners@),
            start == labours(old(parts)@),
            labours(parts@) == start + running(steps@.take(i as int), runners@).steps,
            running(steps@.take(i as int), runners@).refusal is None,
        decreases steps@.len() - i,
    {
        proof {
            assert(steps@.take(i + 1).drop_last() =~= steps@.take(i as int));
            assert(steps@.take(i + 1).last() == steps@[i as int]);
        }
        match admit_step(&steps[i], runners) {
            Err(refusal) => {
                proof {
                    lemma_running_ends(steps@, runners@, i + 1);
                    assert(labours(parts@) =~= start + running(
                        steps@.take(i + 1),
                        runners@,
                    ).steps);
                }
                return Some(refusal);
            },
            Ok(()) => push_part(parts, RunnerStep::RunStep { step: i }),
        }
        i += 1;
        assert(labours(parts@) =~= start + running(steps@.take(i as int), runners@).steps);
    }
    assert(steps@.take(i as int) =~= steps@);
    None
}

/// Why a source may not be built from, if so, given how the plan itself stands.
pub open spec fn source_refusal(
    source: FrozenSource,
    plan: Result<(), Refusal>,
    plan_id: Seq<char>,
    plan_source: SourceSelectionFacts,
    recipe_blob: Seq<u8>,
) -> Option<Seq<char>> {
    either(
        source.received().refusal(plan, plan_id),
        unless(
            source.selected().same_as(plan_source) && source.recipe() == recipe_blob,
            "runner source differs from the compiled plan"@,
        ),
    )
}

/// Admits a frozen source as that of a plan.
pub fn admit_source(
    source: &FrozenSource,
    plan: &Result<(), Refusal>,
    plan_id: &str,
    plan_source: &SourceSelectionFacts,
    recipe_blob: &[u8],
) -> (outcome: Result<(), Refusal>)
    ensures
        judged(outcome, source_refusal(*source, *plan, plan_id@, *plan_source, recipe_blob@)),
{
    source.receipt().validate_against(plan, plan_id)?;
    check(
        source.facts().same(plan_source) && same_bytes(
            source.recipe_bytes().as_slice(),
            recipe_blob,
        ),
        "runner source differs from the compiled plan",
    )
}

/// Where a release is made.
pub fn staging_root(staging_parent: &str, source: &FrozenSource) -> (root: String)
    ensures
        root@ == joined(staging_parent@, source.received().transaction_id@),
{
    join(staging_parent, source.receipt().transaction_id.as_str())
}

impl DockerRunnerDriver {
    /// The making of a release: a copy of the source for every runner, the inputs from
    /// outside, the steps in order, the artifacts, and no workspace left behind. Every step
    /// names a runner that there is.
    pub fn materialize(
        &self,
        staging_root: &str,
        declaration: &TargetDeclaration,
        runners: &Vec<NamedRunner>,
    ) -> (plan: RunnerPlan)
        requires
            steps_have_runners(declaration.steps@, runners@),
        ensures
            plan@ == materialization(staging_root@, *declaration, runners@),
    {
        let mut steps: Vec<RunnerStep> = Vec::new();
        let ghost copied = copying(staging_root@, runners@);
        let ghost made = making(staging_root@, declaration.external_inputs@);
        let ghost assigned = assigning(staging_root@, runners@);
        let ghost fetched = fetching(declaration.external_inputs@.len());
        let ghost ran = running(declaration.steps@, runners@);
        plan_copying(&mut steps, staging_root, runners);
        assert(labours(steps@) =~= copied);
        if let Some(refusal) = plan_making(&mut steps, staging_root, &declaration.external_inputs) {
            return RunnerPlan { steps, refusal: Some(refusal) };
        }
        if let Some(refusal) = plan_assigning(&mut steps, staging_root, runners) {
            assert(labours(steps@) =~= copied + (made.steps + assigned.steps));
            return RunnerPlan { steps, refusal: Some(refusal) };
        }
        let ghost before = labours(steps@);
        assert(before =~= copied + (made.steps + assigned.steps));
        plan_fetching(&mut steps, declaration.external_inputs.len());
        if let Some(refusal) = plan_running(&mut steps, &declaration.steps, runners) {
            assert(labours(steps@) =~= before + (fetched + ran.steps));
            return RunnerPlan { steps, refusal: Some(refusal) };
        }
        plan_collecting(&mut steps, declaration.artifacts.len());
        plan_removing(&mut steps, staging_root, runners);
        assert(labours(steps@) =~= before + ((fetched + ran.steps) + (collecting(
            declaration.artifacts@.len(),
        ) + removing(staging_root@, runners@))));
        RunnerPlan { steps, refusal: None }
    }
}

/// Why a command may not be run by a runner, if so.
pub open spec fn command_refusal(runner: DockerRunnerBinding, argv: Seq<Seq<char>>) -> Option<
    Seq<char>,
> {
    either(
        unless(argv.len() > 0, "runner command is empty"@),
        unless(
            texts(runner.allowed_programs@).contains(argv[0]),
            "runner program "@ + argv[0] + " is not operator-bound"@,
        ),
    )
}

/// What becomes of the binding of a container: the arguments that it is run with.
pub open spec fn bound_arguments(
    runner: DockerRunnerBinding,
    workspace: Seq<char>,
    working_directory: Seq<char>,
    argv: Seq<Seq<char>>,
    required: Seq<Seq<char>>,
    stamp: crate::maps::Pair,
    host: RunnerHost,
    outcome: Result<Vec<String>, Refusal>,
) -> bool {
    match step_binding(runner, required, stamp, host) {
        Err(w) => outcome matches Err(refusal) && refusal@ == w,
        Ok(bound) => exists|spec: ContainerSpec|
            is_container(spec, runner, bound) && match #[trigger] container_arguments(
                spec,
                workspace,
                working_directory,
                argv,
            ) {
                Err(w) => outcome matches Err(refusal) && refusal@ == w,
                Ok(arguments) => outcome matches Ok(args) && texts(args@) == arguments,
            },
    }
}

impl DockerRunnerDriver {
    /// Admits the driver's Docker.
    pub fn admit_docker(&self) -> (outcome: Result<(), Refusal>)
        ensures
            judged(
                outcome,
                unless(
                    absolute(self.docker_program@),
                    "Docker runner program is not absolute"@,
                ),
            ),
    {
        check(
            is_absolute(self.docker_program.as_str()),
            "Docker runner program is not absolute",
        )
    }

    /// Settles a run of Docker.
    pub fn docker(&self, success: bool, status: &str, complaint: &str) -> (outcome: Result<
        (),
        Refusal,
    >)
        ensures
            judged(
                outcome,
                unless(
                    success,
                    "Docker runner exited with "@ + status@ + ": "@ + trimmed(complaint@),
                ),
            ),
    {
        let words = trim(complaint);
        let all = cat4("Docker runner exited with ", status, ": ", words.as_str());
        check(success, all.as_str())
    }

    /// Admits a command: the operator binds its program.
    pub fn admit_command(&self, runner: &DockerRunnerBinding, argv: &[String]) -> (outcome: Result<
        (),
        Refusal,
    >)
        ensures
            judged(outcome, command_refusal(*runner, texts(argv@))),
    {
        assert(texts(argv@).len() == argv@.len());
        if argv.len() == 0 {
            return Err(refuse("runner command is empty"));
        }
        assert(texts(argv@)[0] == argv@[0]@);
        let program = argv[0].as_str();
        let words = cat3("runner program ", program, " is not operator-bound");
        check(list_contains(runner.allowed_programs.as_slice(), program), words.as_str())
    }

    /// The arguments of the container of a step, given what the host holds for the runner.
    /// There is a reading for each of the runner's secrets.
    pub fn run_in_workspace(
        &self,
        runner: &DockerRunnerBinding,
        workspace: &str,
        working_directory: &str,
        argv: &[String],
        required_environment: &Vec<String>,
        source_stamp: (&str, &str),
        host: &RunnerHost,
    ) -> (outcome: Result<Vec<String>, Refusal>)
        requires
            host.secrets@.len() == runner.secret_files@.len(),
        ensures
            match command_refusal(*runner, texts(argv@)) {
                Some(w) => outcome matches Err(refusal) && refusal@ == w,
                None => bound_arguments(
                    *runner,
                    workspace@,
                    working_directory@,
                    texts(argv@),
                    texts(required_environment@),
                    (source_stamp.0@, source_stamp.1@),
                    *host,
                    outcome,
                ),
            },
    {
        self.admit_command(runner, argv)?;
        let spec = ContainerSpec::for_step(runner, required_environment, source_stamp, host)?;
        docker_run_args(&spec, workspace, working_directory, argv)
    }
}

/// The command that fetches an input from outside, by where it is put within a workspace.
pub open spec fn fetch_command(destination: Seq<char>, url: Seq<char>) -> Seq<Seq<char>> {
    seq![
        "curl"@,
        "--fail"@,
        "--location"@,
        "--proto"@,
        "=https"@,
        "--output"@,
        "/workspace/"@ + destination,
        url,
    ]
}

fn fetch_words(destination: &str, url: &str) -> (argv: Vec<String>)
    ensures
        texts(argv@) == fetch_command(destination@, url@),
{
    let mut argv: Vec<String> = Vec::new();
    push_text(&mut argv, "curl".to_owned());
    push_text(&mut argv, "--fail".to_owned());
    push_text(&mut argv, "--location".to_owned());
    push_text(&mut argv, "--proto".to_owned());
    push_text(&mut argv, "=https".to_owned());
    push_text(&mut argv, "--output".to_owned());
    push_text(&mut argv, cat2("/workspace/", destination));
    push_text(&mut argv, url.to_owned());
    assert(texts(argv@) =~= fetch_command(destination@, url@));
    argv
}

/// Whether an external input is the first with an id.
pub open spec fn is_input(inputs: Seq<ExternalInput>, id: Seq<char>, i: int) -> bool {
    &&& 0 <= i < inputs.len()
    &&& inputs[i].id@ == id
    &&& forall|j: int| 0 <= j < i ==> (#[trigger] inputs[j]).id@ != id
}

/// The first external input of a target with an id.
pub fn external_input<'a>(declaration: &'a TargetDeclaration, input_id: &str) -> (outcome: Result<
    &'a ExternalInput,
    Refusal,
>)
    ensures
        match outcome {
            Ok(input) => exists|i: int|
                #[trigger] is_input(declaration.external_inputs@, input_id@, i) && *input
                    == declaration.external_inputs@[i],
            Err(refusal) => refusal@ == "external input declaration disappeared"@ && forall|j: int|
                0 <= j < declaration.external_inputs@.len() ==> (
                #[trigger] declaration.external_inputs@[j]).id@ != input_id@,
        },
{
    let mut i: usize = 0;
    while i < declaration.external_inputs.len()
        invariant
            i <= declaration.external_inputs@.len(),
            forall|j: int|
                0 <= j < i ==> (#[trigger] declaration.external_inputs@[j]).id@ != input_id@,
        decreases declaration.external_inputs@.len() - i,
    {
        if same_text(declaration.external_inputs[i].id.as_str(), input_id) {
            assert(is_input(declaration.external_inputs@, input_id@, i as int));
            return Ok(&declaration.external_inputs[i]);
        }
        i += 1;
    }
    Err(refuse("external input declaration disappeared"))
}

/// How an external input was materialized.
#[derive(Clone, Debug, PartialEq, Eq)]
pub struct ExternalInputMaterializationReceipt {
    pub input_id: String,
    pub url: String,
    pub sha256: String,
    pub runner: String,
    pub destination: String,
    pub size_bytes: u64,
}

/// Why a fetched input is refused, if it is.
pub open spec fn fetched_refusal(input: ExternalInput, read: Result<Vec<u8>, Refusal>) -> Option<
    Seq<char>,
> {
    either(
        missed(read),
        either(
            unless(read->Ok_0@.len() > 0, "materialized external input is empty"@),
            unless(
                raw_digest_text(read->Ok_0@) == input.sha256@,
                "materialized external input digest differs from its recipe pin"@,
            ),
        ),
    )
}

impl DockerRunnerDriver {
    /// The arguments of the container that fetches an input, given what the host holds for
    /// the runner. There is a reading for each of the runner's secrets.
    pub fn fetch_arguments(
        &self,
        runner: &DockerRunnerBinding,
        workspace: &str,
        input: &ExternalInput,
        host: &RunnerHost,
    ) -> (outcome: Result<Vec<String>, Refusal>)
        requires
            host.secrets@.len() == runner.secret_files@.len(),
        ensures
            ({
                let stamp = ("IDUNN_EXTERNAL_INPUT_ID"@, input.id@);
                match (
                    step_binding(*runner, Seq::empty(), stamp, *host),
                    normalized(input.destination@),
                ) {
                    (Err(w), _) => outcome matches Err(refusal) && refusal@ == w,
                    (Ok(_), Err(w)) => outcome matches Err(refusal) && refusal@ == w,
                    (Ok(_), Ok(destination)) => bound_arguments(
                        *runner,
                        workspace@,
                        "."@,
                        fetch_command(destination, input.url@),
                        Seq::empty(),
                        stamp,
                        *host,
                        outcome,
                    ),
                }
            }),
    {
        let none: Vec<String> = Vec::new();
        assert(texts(none@) =~= Seq::<Seq<char>>::empty());
        let spec = ContainerSpec::for_step(
            runner,
            &none,
            ("IDUNN_EXTERNAL_INPUT_ID", input.id.as_str()),
            host,
        )?;
        let destination = normalized_relative(input.destination.as_str())?;
        let argv = fetch_words(destination.as_str(), input.url.as_str());
        docker_run_args(&spec, workspace, ".", argv.as_slice())
    }

    /// Settles a fetched input: it is not empty, and it is what the recipe pins.
    pub fn materialize_external_input(
        &self,
        input: &ExternalInput,
        read: &Result<Vec<u8>, Refusal>,
    ) -> (outcome: Result<ExternalInputMaterializationReceipt, Refusal>)
        ensures
            judged(outcome, fetched_refusal(*input, *read)),
            outcome matches Ok(receipt) ==> {
                &&& receipt.input_id@ == input.id@
                &&& receipt.url@ == input.url@
                &&& receipt.sha256@ == "sha256-"@ + input.sha256@
                &&& receipt.runner@ == input.runner@
                &&& receipt.destination@ == input.destination@
                &&& receipt.size_bytes == read->Ok_0@.len()
            },
    {
        let bytes = match read {
            Ok(bytes) => bytes,
            Err(refusal) => return Err(Refusal { text: refusal.text.clone() }),
        };
        check(bytes.len() > 0, "materialized external input is empty")?;
        let digest = raw_sha256(bytes.as_slice());
        check(
            same_text(digest.as_str(), input.sha256.as_str()),
            "materialized external input digest differs from its recipe pin",
        )?;
        Ok(
            ExternalInputMaterializationReceipt {
                input_id: input.id.clone(),
                url: input.url.clone(),
                sha256: cat2("sha256-", digest.as_str()),
                runner: input.runner.clone(),
                destination: input.destination.clone(),
                size_bytes: bytes.len() as u64,
            },
        )
    }
}

/// Where an artifact comes from: the root that contains it, and its own place.
#[derive(Clone, Debug, PartialEq, Eq)]
pub struct ArtifactOrigin {
    pub root: String,
    pub source: String,
}

/// Where an artifact comes from, or why that is not known.
pub open spec fn origin_of(
    artifact: ArtifactOutput,
    source_root: Seq<char>,
    workspaces: Seq<crate::maps::Pair>,
) -> Result<(Seq<char>, Seq<char>), Seq<char>> {
    match artifact.source_kind {
        ArtifactSource::WorktreeTree => Ok((source_root, joined(source_root, artifact.source@))),
        ArtifactSource::RunnerOutput => match artifact.runner {
            None => Err("runner artifact lost its runner"@),
            Some(runner) => match value_of(workspaces, runner@) {
                None => Err("runner workspace is absent"@),
                Some(workspace) => Ok((workspace, joined(workspace, artifact.source@))),
            },
        },
    }
}

/// Where an artifact comes from, given the workspace of each runner.
pub fn artifact_origin(
    artifact: &ArtifactOutput,
    source_root: &str,
    workspaces: &TextMap,
) -> (outcome: Result<ArtifactOrigin, Refusal>)
    ensures
        match (outcome, origin_of(*artifact, source_root@, workspaces@)) {
            (Ok(origin), Ok(owed)) => origin.root@ == owed.0 && origin.source@ == owed.1,
            (Err(refusal), Err(w)) => refusal@ == w,
            _ => false,
        },
{
    match artifact.source_kind {
        ArtifactSource::WorktreeTree => {
            let source = join(source_root, artifact.source.as_str());
            Ok(ArtifactOrigin { root: source_root.to_owned(), source })
        },
        ArtifactSource::RunnerOutput => match &artifact.runner {
            None => Err(refuse("runner artifact lost its runner")),
            Some(runner) => match workspaces.get(runner.as_str()) {
                None => Err(refuse("runner workspace is absent")),
                Some(workspace) => {
                    let source = join(workspace.as_str(), artifact.source.as_str());
                    Ok(ArtifactOrigin { root: workspace, source })
                },
            },
        },
    }
}

/// Where an artifact goes, or why it may not.
pub open spec fn destination_of(
    artifact: ArtifactOutput,
    staging_root: Seq<char>,
    exists_at_origin: bool,
) -> Result<Seq<char>, Seq<char>> {
    let place = joined(staging_root, artifact.destination@);
    if !exists_at_origin {
        Err("declared artifact output is absent"@)
    } else if !below(place, staging_root) {
        Err("artifact destination escaped its release staging root"@)
    } else {
        Ok(place)
    }
}

/// Why a collected artifact is refused, if it is.
pub open spec fn collected_refusal(
    artifact: ArtifactOutput,
    found: Result<ArtifactFinding, Refusal>,
) -> Option<Seq<char>> {
    either(
        missed(found),
        unless(
            text_option(artifact.expected_sha256) matches Some(pinned) ==> pinned
                == found->Ok_0.sha256@,
            "artifact output differs from its recipe-pinned digest"@,
        ),
    )
}

/// Whether a receipt is that of an artifact as it was found.
pub open spec fn is_receipt(
    receipt: ArtifactReceipt,
    artifact: ArtifactOutput,
    found: ArtifactFinding,
) -> bool {
    &&& receipt.artifact_id@ == artifact.id@
    &&& receipt.destination@ == artifact.destination@
    &&& receipt.sha256@ == "sha256-"@ + found.sha256@
    &&& receipt.size_bytes == found.size_bytes
    &&& receipt.executable == artifact.executable
}

/// The receipt of an artifact as it was found.
pub fn receipt_of(artifact: &ArtifactOutput, found: &ArtifactFinding) -> (receipt: ArtifactReceipt)
    ensures
        is_receipt(receipt, *artifact, *found),
{
    ArtifactReceipt {
        artifact_id: artifact.id.clone(),
        destination: artifact.destination.clone(),
        sha256: cat2("sha256-", found.sha256.as_str()),
        size_bytes: found.size_bytes,
        executable: artifact.executable,
    }
}

/// Whether what was found of an artifact is what its recipe pins, if it pins it.
pub fn is_pinned(artifact: &ArtifactOutput, found: &ArtifactFinding) -> (is: bool)
    ensures
        is == (text_option(artifact.expected_sha256) matches Some(pinned) ==> pinned
            == found.sha256@),
{
    match &artifact.expected_sha256 {
        None => true,
        Some(pinned) => same_text(found.sha256.as_str(), pinned.as_str()),
    }
}

impl DockerRunnerDriver {
    /// Where an artifact goes, given whether it is there at all.
    pub fn artifact_destination(
        &self,
        artifact: &ArtifactOutput,
        staging_root: &str,
        exists_at_origin: bool,
    ) -> (outcome: Result<String, Refusal>)
        ensures
            written(outcome, destination_of(*artifact, staging_root@, exists_at_origin)),
    {
        check(exists_at_origin, "declared artifact output is absent")?;
        let place = join(staging_root, artifact.destination.as_str());
        check(
            is_below(place.as_str(), staging_root),
            "artifact destination escaped its release staging root",
        )?;
        Ok(place)
    }

    /// Settles a collected artifact: it is what its recipe pins, if it pins it.
    pub fn collect_artifact(
        &self,
        artifact: &ArtifactOutput,
        found: &Result<ArtifactFinding, Refusal>,
    ) -> (outcome: Result<ArtifactReceipt, Refusal>)
        ensures
            judged(outcome, collected_refusal(*artifact, *found)),
            outcome matches Ok(receipt) ==> is_receipt(receipt, *artifact, found->Ok_0),
    {
        let finding = match found {
            Ok(finding) => finding,
            Err(refusal) => return Err(Refusal { text: refusal.text.clone() }),
        };
        check(
            is_pinned(artifact, finding),
            "artifact output differs from its recipe-pinned digest",
        )?;
        Ok(receipt_of(artifact, finding))
    }
}

/// A made release: what was sealed, and where it is.
#[derive(Clone, Debug, PartialEq, Eq)]
pub struct MaterializedRelease {
    pub release: SealedRelease,
    pub root: String,
}

/// A sealed release, as far as it is installed, run and held to its plan.
#[derive(Clone, Debug, PartialEq, Eq)]
pub struct SealedRelease {
    pub sealed_release_id: String,
    pub plan_id: String,
    pub sealed_at_unix_millis: u64,
    pub artifacts: Vec<ArtifactReceipt>,
    pub external_inputs: Vec<ExternalInputMaterializationReceipt>,
}

} // verus!
