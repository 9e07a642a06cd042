//! The making of a release on a managed host itself: the exact source is fetched and proved
//! to be the frozen one, the steps run with what they are bound to, the artifacts are held
//! to their recipe.
use vstd::prelude::*;

use crate::binding::{
    ArtifactOutput,
    ArtifactReceipt,
    BuildStep,
    HostRunnerBinding,
    TargetDeclaration,
};
use crate::building::{is_pinned, is_receipt, receipt_of};
use crate::clock::written;
use crate::host::foreign_host;
use crate::host_config::HostActuatorConfig;
use crate::maps::{is_named, with, Pair, TextMap};
use crate::paths::{
    absolute, below, components, is_below, join, joined, joined_components, lemma_join_components,
    lemma_join_name,
};
use crate::scan::{all_of, alphanumeric, trim, trimmed};
use crate::source::SourceSelectionFacts;
use crate::text::{
    cat3, cat4, chars_of, check, either, judged, list_contains, push_text, quote, same_bytes,
    same_text, text_option, texts, unless, Refusal,
};
use crate::watch::missed;
use crate::workload::ArtifactFinding;

verus! {

/// Whether a character can stand in the name of a transaction.
pub open spec fn transaction_char(c: char) -> bool {
    alphanumeric(c) || c == '-' || c == '_'
}

/// Whether a transaction's id can be the name of a directory.
pub open spec fn transaction_name(id: Seq<char>) -> bool {
    all_of(id, |c: char| transaction_char(c))
}

fn is_transaction_name(id: &str) -> (is: bool)
    ensures
        is == transaction_name(id@),
{
    let chars = chars_of(id);
    let ghost kind = |c: char| transaction_char(c);
    let mut i: usize = 0;
    while i < chars.len()
        invariant
            i <= chars@.len(),
            chars@ == id@,
            kind == (|c: char| transaction_char(c)),
            forall|j: int| 0 <= j < i ==> kind(#[trigger] id@[j]),
        decreases chars@.len() - i,
    {
        let c = chars[i];
        let plain = ('0' <= c && c <= '9') || ('a' <= c && c <= 'z') || ('A' <= c && c <= 'Z') || c
            == '-' || c == '_';
        if !plain {
            assert(!kind(id@[i as int]));
            return false;
        }
        i += 1;
    }
    true
}

/// Why a release may not be made on a host, if so.
pub open spec fn build_refusal(
    bound_host: Seq<char>,
    host: Seq<char>,
    source: SourceSelectionFacts,
    declaration: TargetDeclaration,
    transaction_id: Seq<char>,
) -> Option<Seq<char>> {
    either(
        foreign_host(bound_host, host),
        either(
            unless(
                source.gitlinks@.len() == 0,
                "host-native materialization does not fetch gitlinks yet"@,
            ),
            either(
                unless(
                    declaration.external_inputs@.len() == 0,
                    "host-native materialization does not fetch external inputs"@,
                ),
                unless(
                    transaction_name(transaction_id),
                    "transaction id is not a path component"@,
                ),
            ),
        ),
    )
}

/// Admits the making of a release on a host.
pub fn admit_build(
    bound_host: &str,
    config: &HostActuatorConfig,
    source: &SourceSelectionFacts,
    declaration: &TargetDeclaration,
    transaction_id: &str,
) -> (outcome: Result<(), Refusal>)
    ensures
        judged(
            outcome,
            build_refusal(bound_host@, config.host@, *source, *declaration, transaction_id@),
        ),
{
    let bound = quote(bound_host);
    let here = quote(config.host.as_str());
    let words = cat4(
        "plan is bound to host ",
        bound.as_str(),
        ", this actuator is ",
        here.as_str(),
    );
    check(same_text(bound_host, config.host.as_str()), words.as_str())?;
    check(
        source.gitlinks.len() == 0,
        "host-native materialization does not fetch gitlinks yet",
    )?;
    check(
        declaration.external_inputs.len() == 0,
        "host-native materialization does not fetch external inputs",
    )?;
    check(is_transaction_name(transaction_id), "transaction id is not a path component")
}

/// The arguments with which Git clones a source without checking it out.
pub fn clone_arguments(origin: &str, checkout: &str) -> (arguments: Vec<String>)
    ensures
        texts(arguments@) == seq!["clone"@, "--quiet"@, "--no-checkout"@, origin@, checkout@],
{
    let mut arguments: Vec<String> = Vec::new();
    push_text(&mut arguments, "clone".to_owned());
    push_text(&mut arguments, "--quiet".to_owned());
    push_text(&mut arguments, "--no-checkout".to_owned());
    push_text(&mut arguments, origin.to_owned());
    push_text(&mut arguments, checkout.to_owned());
    assert(texts(arguments@) =~= seq![
        "clone"@,
        "--quiet"@,
        "--no-checkout"@,
        origin@,
        checkout@,
    ]);
    arguments
}

/// The arguments with which Git checks out exactly one revision.
pub fn checkout_arguments(revision: &str) -> (arguments: Vec<String>)
    ensures
        texts(arguments@) == seq!["checkout"@, "--quiet"@, "--detach"@, revision@],
{
    let mut arguments: Vec<String> = Vec::new();
    push_text(&mut arguments, "checkout".to_owned());
    push_text(&mut arguments, "--quiet".to_owned());
    push_text(&mut arguments, "--detach".to_owned());
    push_text(&mut arguments, revision.to_owned());
    assert(texts(arguments@) =~= seq!["checkout"@, "--quiet"@, "--detach"@, revision@]);
    arguments
}

/// The arguments with which Git names an object.
pub fn parse_arguments(object: &str) -> (arguments: Vec<String>)
    ensures
        texts(arguments@) == seq!["rev-parse"@, object@],
{
    let mut arguments: Vec<String> = Vec::new();
    push_text(&mut arguments, "rev-parse".to_owned());
    push_text(&mut arguments, object.to_owned());
    assert(texts(arguments@) =~= seq!["rev-parse"@, object@]);
    arguments
}

/// Words with one space between each two of them.
pub open spec fn spaced(words: Seq<Seq<char>>) -> Seq<char>
    decreases words.len(),
{
    if words.len() == 0 {
        Seq::empty()
    } else if words.len() == 1 {
        words[0]
    } else {
        spaced(words.drop_last()) + " "@ + words.last()
    }
}

fn space(words: &[String]) -> (line: String)
    ensures
        line@ == spaced(texts(words@)),
{
    let ghost all = texts(words@);
    if words.len() == 0 {
        let line = String::new();
        assert(line@ =~= Seq::<char>::empty());
        return line;
    }
    let mut line = words[0].clone();
    let mut i: usize = 1;
    assert(all.take(1)[0] == words@[0]@);
    while i < words.len()
        invariant
            1 <= i <= words@.len(),
            all == texts(words@),
            line@ == spaced(all.take(i as int)),
        decreases words@.len() - i,
    {
        proof {
            assert(all.take(i + 1).drop_last() =~= all.take(i as int));
            assert(all.take(i + 1).last() == words@[i as int]@);
        }
        line = cat3(line.as_str(), " ", words[i].as_str());
        i += 1;
    }
    assert(all.take(i as int) =~= all);
    line
}

/// Settles a run of Git: what it printed is the outcome, without the space around it.
pub fn git(arguments: &[String], success: bool, output: &str, complaint: &str) -> (outcome: Result<
    String,
    Refusal,
>)
    ensures
        written(
            outcome,
            if success {
                Ok(trimmed(output@))
            } else {
                Err("git "@ + spaced(texts(arguments@)) + " failed: "@ + trimmed(complaint@))
            },
        ),
{
    if success {
        return Ok(trim(output));
    }
    let line = space(arguments);
    let words = trim(complaint);
    Err(Refusal { text: cat4("git ", line.as_str(), " failed: ", words.as_str()) })
}

/// What of a source was fetched: its revision, its tree and its recipe.
#[derive(Debug, PartialEq, Eq)]
pub struct FetchedSource {
    pub revision: Result<String, Refusal>,
    pub tree: Result<String, Refusal>,
    pub recipe: Result<Vec<u8>, Refusal>,
}

/// Why a fetched source is not the frozen one, if so.
pub open spec fn fetched_refusal(
    fetched: FetchedSource,
    source: SourceSelectionFacts,
    recipe_blob: Seq<u8>,
) -> Option<Seq<char>> {
    either(
        missed(fetched.revision),
        either(
            unless(
                fetched.revision->Ok_0@ == source.revision@,
                "checked out revision differs from the frozen one"@,
            ),
            either(
                missed(fetched.tree),
                either(
                    unless(
                        fetched.tree->Ok_0@ == source.source_tree@,
                        "checked out tree differs from the frozen one"@,
                    ),
                    either(
                        missed(fetched.recipe),
                        unless(
                            fetched.recipe->Ok_0@ == recipe_blob,
                            "recipe in the fetched tree differs from the plan's recipe bytes"@,
                        ),
                    ),
                ),
            ),
        ),
    )
}

fn check_name(reading: &Result<String, Refusal>, name: &str, words: &str) -> (outcome: Result<
    (),
    Refusal,
>)
    ensures
        judged(outcome, either(missed(*reading), unless(reading->Ok_0@ == name@, words@))),
{
    match reading {
        Ok(found) => check(same_text(found.as_str(), name), words),
        Err(refusal) => Err(Refusal { text: refusal.text.clone() }),
    }
}

/// Admits a fetched source as the frozen one: by its revision, its tree and its recipe.
pub fn admit_fetched(
    fetched: &FetchedSource,
    source: &SourceSelectionFacts,
    recipe_blob: &[u8],
) -> (outcome: Result<(), Refusal>)
    ensures
        judged(outcome, fetched_refusal(*fetched, *source, recipe_blob@)),
{
    check_name(
        &fetched.revision,
        source.revision.as_str(),
        "checked out revision differs from the frozen one",
    )?;
    check_name(
        &fetched.tree,
        source.source_tree.as_str(),
        "checked out tree differs from the frozen one",
    )?;
    match &fetched.recipe {
        Err(refusal) => Err(Refusal { text: refusal.text.clone() }),
        Ok(recipe) => check(
            same_bytes(recipe.as_slice(), recipe_blob),
            "recipe in the fetched tree differs from the plan's recipe bytes",
        ),
    }
}

/// An environment with the pairs of another put in their places.
pub open spec fn extended(pairs: Seq<Pair>, more: Seq<Pair>) -> Seq<Pair>
    decreases more.len(),
{
    if more.len() == 0 {
        pairs
    } else {
        with(extended(pairs, more.drop_last()), more.last().0, more.last().1)
    }
}

/// The environment of a step on a host: what the host hands on, what its runner binds over
/// that, and the stamp of the source over both.
pub open spec fn step_environment_of(
    passthrough: Seq<Pair>,
    runner: Seq<Pair>,
    stamp: Pair,
) -> Seq<Pair> {
    with(extended(passthrough, runner), stamp.0, stamp.1)
}

/// The environment of a step on a host.
pub fn step_environment(passthrough: &TextMap, runner: &HostRunnerBinding, stamp: (&str, &str)) -> (
    environment: TextMap)
    ensures
        environment@ == step_environment_of(
            passthrough@,
            runner.environment@,
            (stamp.0@, stamp.1@),
        ),
{
    let mut map = passthrough.copy();
    let ghost more = runner.environment@;
    let n: usize = runner.environment.len();
    let mut i: usize = 0;
    assert(more.take(0) =~= Seq::<Pair>::empty());
    while i < n
        invariant
            i <= n,
            more == runner.environment@,
            n == more.len(),
            map@ == extended(passthrough@, more.take(i as int)),
        decreases n - i,
    {
        proof {
            assert(more.take(i + 1).drop_last() =~= more.take(i as int));
            assert(more.take(i + 1).last() == more[i as int]);
        }
        map = map.inserted(runner.environment.name_at(i), runner.environment.value_at(i));
        i += 1;
    }
    assert(more.take(i as int) =~= more);
    map.inserted(stamp.0, stamp.1)
}

/// Why a step lacks a name that it requires, if it does.
pub open spec fn lacking(environment: Seq<Pair>, id: Seq<char>, required: Seq<Seq<char>>) -> Option<
    Seq<char>,
>
    decreases required.len(),
{
    if required.len() == 0 {
        None
    } else {
        either(
            lacking(environment, id, required.drop_last()),
            unless(
                is_named(environment, required.last()),
                "step "@ + id + " lacks required environment "@ + required.last(),
            ),
        )
    }
}

proof fn lemma_lacking_ends(
    environment: Seq<Pair>,
    id: Seq<char>,
    required: Seq<Seq<char>>,
    n: int,
)
    requires
        0 <= n <= required.len(),
        lacking(environment, id, required.take(n)) is Some,
    ensures
        lacking(environment, id, required) == lacking(environment, id, required.take(n)),
    decreases required.len() - n,
{
    if n < required.len() {
        assert(required.take(n + 1).drop_last() =~= required.take(n));
        lemma_lacking_ends(environment, id, required, n + 1);
    } else {
        assert(required.take(n) =~= required);
    }
}

fn check_required(environment: &TextMap, step: &BuildStep) -> (outcome: Result<(), Refusal>)
    ensures
        judged(outcome, lacking(environment@, step.id@, texts(step.required_environment@))),
{
    let ghost all = texts(step.required_environment@);
    let mut i: usize = 0;
    assert(all.take(0) =~= Seq::<Seq<char>>::empty());
    while i < step.required_environment.len()
        invariant
            i <= step.required_environment@.len(),
            all == texts(step.required_environment@),
            lacking(environment@, step.id@, all.take(i as int)) is None,
        decreases step.required_environment@.len() - i,
    {
        proof {
            assert(all.take(i + 1).drop_last() =~= all.take(i as int));
            assert(all.take(i + 1).last() == all[i as int]);
        }
        let name = step.required_environment[i].as_str();
        if !environment.contains(name) {
            proof {
                lemma_lacking_ends(environment@, step.id@, all, i + 1);
            }
            return Err(
                Refusal {
                    text: cat4("step ", step.id.as_str(), " lacks required environment ", name),
                },
            );
        }
        i += 1;
    }
    assert(all.take(i as int) =~= all);
    Ok(())
}

/// Why a step may not run on a host, if so, with the environment that it would have.
pub open spec fn step_refusal(
    step: BuildStep,
    runner: HostRunnerBinding,
    environment: Seq<Pair>,
) -> Option<Seq<char>> {
    either(
        unless(step.argv@.len() > 0, "step "@ + step.id@ + " has no program"@),
        either(
            unless(
                texts(runner.allowed_programs@).contains(step.argv@[0]@),
                "runner "@ + step.runner@ + " does not admit program "@ + step.argv@[0]@,
            ),
            lacking(environment, step.id@, texts(step.required_environment@)),
        ),
    )
}

/// Admits a step on a host: its runner admits its program, and what it requires is there.
/// The environment that it runs with is the outcome.
pub fn admit_step(
    step: &BuildStep,
    runner: &HostRunnerBinding,
    passthrough: &TextMap,
    stamp: (&str, &str),
) -> (outcome: Result<TextMap, Refusal>)
    ensures
        ({
            let environment = step_environment_of(
                passthrough@,
                runner.environment@,
                (stamp.0@, stamp.1@),
            );
            &&& judged(outcome, step_refusal(*step, *runner, environment))
            &&& outcome matches Ok(map) ==> map@ == environment
        }),
{
    let empty = cat3("step ", step.id.as_str(), " has no program");
    check(step.argv.len() > 0, empty.as_str())?;
    let program = step.argv[0].as_str();
    let words = cat4("runner ", step.runner.as_str(), " does not admit program ", program);
    check(list_contains(runner.allowed_programs.as_slice(), program), words.as_str())?;
    let environment = step_environment(passthrough, runner, stamp);
    check_required(&environment, step)?;
    Ok(environment)
}

/// Where the log of a step is kept.
pub open spec fn log_of(
    logs: Seq<char>,
    transaction_id: Seq<char>,
    step_id: Seq<char>,
) -> Seq<char> {
    joined(logs, transaction_id + "-"@ + step_id + ".log"@)
}

/// Where the log of a step is kept.
pub fn step_log(logs: &str, transaction_id: &str, step_id: &str) -> (path: String)
    ensures
        path@ == log_of(logs@, transaction_id@, step_id@),
{
    let name = cat4(transaction_id, "-", step_id, ".log");
    join(logs, name.as_str())
}

/// Settles a step on a host.
pub fn settle_step(step: &BuildStep, success: bool, status: &str, log: &str) -> (outcome: Result<
    (),
    Refusal,
>)
    ensures
        judged(
            outcome,
            unless(
                success,
                "step "@ + step.id@ + " exited with "@ + status@ + "; log at "@ + log@,
            ),
        ),
{
    let head = cat4("step ", step.id.as_str(), " exited with ", status);
    let words = cat3(head.as_str(), "; log at ", log);
    check(success, words.as_str())
}

/// Where an artifact goes on a host, or why it may not.
pub open spec fn staged_place(
    artifact: ArtifactOutput,
    staging: Seq<char>,
    is_there: bool,
) -> Result<Seq<char>, Seq<char>> {
    let place = joined(staging, artifact.destination@);
    if !is_there {
        Err("declared artifact output "@ + artifact.id@ + " is absent"@)
    } else if !below(place, staging) {
        Err("artifact destination escaped its staging root"@)
    } else {
        Ok(place)
    }
}

/// Where an artifact goes on a host, given whether it is there at all.
pub fn stage_artifact(artifact: &ArtifactOutput, staging: &str, is_there: bool) -> (outcome: Result<
    String,
    Refusal,
>)
    ensures
        written(outcome, staged_place(*artifact, staging@, is_there)),
{
    let absent = cat3("declared artifact output ", artifact.id.as_str(), " is absent");
    check(is_there, absent.as_str())?;
    let place = join(staging, artifact.destination.as_str());
    check(is_below(place.as_str(), staging), "artifact destination escaped its staging root")?;
    Ok(place)
}

/// Why a staged artifact is refused, if it is.
pub open spec fn staged_refusal(
    artifact: ArtifactOutput,
    found: Result<ArtifactFinding, Refusal>,
) -> Option<Seq<char>> {
    either(
        missed(found),
        unless(
            text_option(artifact.expected_sha256) matches Some(pinned) ==> pinned
                == found->Ok_0.sha256@,
            "artifact "@ + artifact.id@ + " differs from its recipe-pinned digest"@,
        ),
    )
}

/// Settles a staged artifact: it is what its recipe pins, if it pins it.
pub fn settle_artifact(
    artifact: &ArtifactOutput,
    found: &Result<ArtifactFinding, Refusal>,
) -> (outcome: Result<ArtifactReceipt, Refusal>)
    ensures
        judged(outcome, staged_refusal(*artifact, *found)),
        outcome matches Ok(receipt) ==> is_receipt(receipt, *artifact, found->Ok_0),
{
    let finding = match found {
        Ok(finding) => finding,
        Err(refusal) => return Err(Refusal { text: refusal.text.clone() }),
    };
    let words = cat3("artifact ", artifact.id.as_str(), " differs from its recipe-pinned digest");
    check(is_pinned(artifact, finding), words.as_str())?;
    Ok(receipt_of(artifact, finding))
}

/// One part of the making of a release on a host.
#[derive(Clone, Debug, PartialEq, Eq)]
pub enum HostStep {
    /// What is at a path is removed, if anything is: it lies within a root.
    Clear { root: String, path: String },
    /// Git is run in a directory.
    Git { directory: String, arguments: Vec<String> },
    /// What was fetched is held to the frozen source.
    AdmitSource { source: String },
    /// A step of the recipe is run in a directory, and its log kept.
    RunStep { step: usize, directory: String, log: String },
    MakeDirectory { path: String },
    /// An artifact is taken from where it was made, within a root.
    CollectArtifact { artifact: usize, root: String, origin: String },
}

/// What a `HostStep` holds.
#[verifier::ext_equal]
pub enum HostLabour {
    Clear(Seq<char>, Seq<char>),
    Git(Seq<char>, Seq<Seq<char>>),
    AdmitSource(Seq<char>),
    RunStep(int, Seq<char>, Seq<char>),
    MakeDirectory(Seq<char>),
    CollectArtifact(int, Seq<char>, Seq<char>),
}

impl View for HostStep {
    type V = HostLabour;

    open spec fn view(&self) -> HostLabour {
        match self {
            HostStep::Clear { root, path } => HostLabour::Clear(root@, path@),
            HostStep::Git { directory, arguments } => HostLabour::Git(
                directory@,
                texts(arguments@),
            ),
            HostStep::AdmitSource { source } => HostLabour::AdmitSource(source@),
            HostStep::RunStep { step, directory, log } => HostLabour::RunStep(
                *step as int,
                directory@,
                log@,
            ),
            HostStep::MakeDirectory { path } => HostLabour::MakeDirectory(path@),
            HostStep::CollectArtifact { artifact, root, origin } => HostLabour::CollectArtifact(
                *artifact as int,
                root@,
                origin@,
            ),
        }
    }
}

/// What each part of a list holds.
pub open spec fn host_labours(list: Seq<HostStep>) -> Seq<HostLabour> {
    Seq::new(list.len(), |i: int| list[i]@)
}

/// The making of a release on a host, and where the release is put together.
#[derive(Clone, Debug, PartialEq, Eq)]
pub struct HostBuild {
    pub steps: Vec<HostStep>,
    pub staging: String,
}

/// Where the source of a transaction is fetched to.
pub open spec fn fetched_place(work_root: Seq<char>, transaction_id: Seq<char>) -> Seq<char> {
    joined(joined(work_root, "sources"@), transaction_id)
}

/// Where the release of a transaction is put together.
pub open spec fn staged_root(work_root: Seq<char>, transaction_id: Seq<char>) -> Seq<char> {
    joined(joined(work_root, "staging"@), transaction_id)
}

/// The fetching of a source: what was there is cleared, the exact revision is checked out of
/// a fresh clone, and the result is held to the frozen source.
pub open spec fn source_fetching(
    work_root: Seq<char>,
    source: SourceSelectionFacts,
    transaction_id: Seq<char>,
) -> Seq<HostLabour> {
    let sources = joined(work_root, "sources"@);
    let place = fetched_place(work_root, transaction_id);
    seq![
        HostLabour::Clear(sources, place),
        HostLabour::Git(
            sources,
            seq!["clone"@, "--quiet"@, "--no-checkout"@, source.origin@, place],
        ),
        HostLabour::Git(place, seq!["checkout"@, "--quiet"@, "--detach"@, source.revision@]),
        HostLabour::AdmitSource(place),
    ]
}

/// The running of each step of a recipe, in the order of the recipe.
pub open spec fn host_running(
    work_root: Seq<char>,
    steps: Seq<BuildStep>,
    transaction_id: Seq<char>,
) -> Seq<HostLabour> {
    Seq::new(
        steps.len(),
        |i: int|
            HostLabour::RunStep(
                i,
                joined(fetched_place(work_root, transaction_id), steps[i].working_directory@),
                log_of(joined(work_root, "logs"@), transaction_id, steps[i].id@),
            ),
    )
}

/// The collecting of each artifact, into a place that was cleared before.
pub open spec fn host_collecting(
    work_root: Seq<char>,
    artifacts: Seq<ArtifactOutput>,
    transaction_id: Seq<char>,
) -> Seq<HostLabour> {
    let staging = joined(work_root, "staging"@);
    let place = staged_root(work_root, transaction_id);
    seq![HostLabour::Clear(staging, place), HostLabour::MakeDirectory(place)] + Seq::new(
        artifacts.len(),
        |i: int|
            HostLabour::CollectArtifact(
                i,
                fetched_place(work_root, transaction_id),
                joined(fetched_place(work_root, transaction_id), artifacts[i].source@),
            ),
    )
}

/// The making of a release on a host, from its source to its artifacts.
pub open spec fn host_materialization(
    work_root: Seq<char>,
    source: SourceSelectionFacts,
    declaration: TargetDeclaration,
    transaction_id: Seq<char>,
) -> Seq<HostLabour> {
    source_fetching(work_root, source, transaction_id) + host_running(
        work_root,
        declaration.steps@,
        transaction_id,
    ) + host_collecting(work_root, declaration.artifacts@, transaction_id)
}

/// The making of a release on a host: the exact source is fetched and held to the frozen
/// one, the steps run in order, and the artifacts are collected into an empty place.
pub fn materialize(
    bound_host: &str,
    config: &HostActuatorConfig,
    source: &SourceSelectionFacts,
    declaration: &TargetDeclaration,
    transaction_id: &str,
) -> (outcome: Result<HostBuild, Refusal>)
    ensures
        judged(
            outcome,
            build_refusal(bound_host@, config.host@, *source, *declaration, transaction_id@),
        ),
        outcome matches Ok(build) ==> {
            &&& host_labours(build.steps@) == host_materialization(
                config.work_root@,
                *source,
                *declaration,
                transaction_id@,
            )
            &&& build.staging@ == staged_root(config.work_root@, transaction_id@)
        },
{
    admit_build(bound_host, config, source, declaration, transaction_id)?;
    let ghost root = config.work_root@;
    let ghost fetching = source_fetching(root, *source, transaction_id@);
    let ghost running = host_running(root, declaration.steps@, transaction_id@);
    let ghost collecting = host_collecting(root, declaration.artifacts@, transaction_id@);
    let sources = config.sources();
    let logs = config.logs();
    let place = join(sources.as_str(), transaction_id);
    let staging_root = config.staging();
    let staging = join(staging_root.as_str(), transaction_id);
    let mut steps: Vec<HostStep> = Vec::new();
    steps.push(HostStep::Clear { root: sources.clone(), path: place.clone() });
    let clone = clone_arguments(source.origin.as_str(), place.as_str());
    steps.push(HostStep::Git { directory: sources, arguments: clone });
    let checkout = checkout_arguments(source.revision.as_str());
    steps.push(HostStep::Git { directory: place.clone(), arguments: checkout });
    steps.push(HostStep::AdmitSource { source: place.clone() });
    assert(host_labours(steps@) =~= fetching + running.take(0));
    let mut i: usize = 0;
    while i < declaration.steps.len()
        invariant
            i <= declaration.steps@.len(),
            root == config.work_root@,
            place@ == fetched_place(root, transaction_id@),
            logs@ == joined(root, "logs"@),
            running == host_running(root, declaration.steps@, transaction_id@),
            host_labours(steps@) == fetching + running.take(i as int),
        decreases declaration.steps@.len() - i,
    {
        let step = &declaration.steps[i];
        let ghost before = steps@;
        steps.push(
            HostStep::RunStep {
                step: i,
                directory: join(place.as_str(), step.working_directory.as_str()),
                log: step_log(logs.as_str(), transaction_id, step.id.as_str()),
            },
        );
        proof {
            assert(running.take(i + 1) =~= running.take(i as int).push(running[i as int]));
            assert(host_labours(steps@) =~= host_labours(before).push(running[i as int]));
            assert(host_labours(steps@) =~= fetching + running.take(i + 1));
        }
        i += 1;
    }
    assert(running.take(i as int) =~= running);
    let ghost before = host_labours(steps@);
    steps.push(HostStep::Clear { root: staging_root, path: staging.clone() });
    steps.push(HostStep::MakeDirectory { path: staging.clone() });
    assert(host_labours(steps@) =~= before + collecting.take(2));
    let mut i: usize = 0;
    while i < declaration.artifacts.len()
        invariant
            i <= declaration.artifacts@.len(),
            root == config.work_root@,
            place@ == fetched_place(root, transaction_id@),
            collecting == host_collecting(root, declaration.artifacts@, transaction_id@),
            host_labours(steps@) == before + collecting.take(i + 2),
        decreases declaration.artifacts@.len() - i,
    {
        let artifact = &declaration.artifacts[i];
        let ghost earlier = steps@;
        steps.push(
            HostStep::CollectArtifact {
                artifact: i,
                root: place.clone(),
                origin: join(place.as_str(), artifact.source.as_str()),
            },
        );
        proof {
            let next = collecting[i + 2];
            assert(collecting.take(i + 3) =~= collecting.take(i + 2).push(next));
            assert(host_labours(steps@) =~= host_labours(earlier).push(next));
            assert(host_labours(steps@) =~= before + collecting.take(i + 3));
        }
        i += 1;
    }
    assert(collecting.take(i + 2) =~= collecting);
    Ok(HostBuild { steps, staging })
}

/// No step of a recipe runs before what was fetched is held to the frozen source, and no
/// artifact is collected before every step has run.
pub proof fn a_build_proves_its_source_before_it_runs(
    work_root: Seq<char>,
    source: SourceSelectionFacts,
    declaration: TargetDeclaration,
    transaction_id: Seq<char>,
    i: int,
    j: int,
)
    requires
        0 <= i < host_materialization(work_root, source, declaration, transaction_id).len(),
        0 <= j < host_materialization(work_root, source, declaration, transaction_id).len(),
    ensures
        ({
            let making = host_materialization(work_root, source, declaration, transaction_id);
            &&& making[i] is AdmitSource && making[j] is RunStep ==> i < j
            &&& making[i] is RunStep && making[j] is CollectArtifact ==> i < j
            &&& exists|k: int|
                0 <= k < making.len() && (#[trigger] making[k]) is AdmitSource
        }),
{
    let making = host_materialization(work_root, source, declaration, transaction_id);
    assert(making[3] is AdmitSource);
}

proof fn lemma_within(work_root: Seq<char>, name: Seq<char>, transaction_id: Seq<char>)
    requires
        absolute(work_root),
        transaction_name(transaction_id),
        name.len() > 0,
        !name.contains('/'),
        name != seq!['.'],
    ensures
        below(joined(joined(work_root, name), transaction_id), work_root),
{
    let kind = |c: char| transaction_char(c);
    let parts = if transaction_id.len() == 0 {
        Seq::<Seq<char>>::empty()
    } else {
        seq![transaction_id]
    };
    assert(joined_components(parts) =~= transaction_id);
    assert forall|c: char| transaction_id.contains(c) implies transaction_char(c) by {
        let k = choose|k: int| 0 <= k < transaction_id.len() && transaction_id[k] == c;
        assert(kind(transaction_id[k]));
    }
    if transaction_id == seq!['.'] {
        assert(kind(transaction_id[0]));
    }
    let above = joined(work_root, name);
    lemma_join_name(work_root, name);
    lemma_join_components(above, parts);
    let whole = components(work_root).push(name) + parts;
    assert(whole.take(components(work_root).len() as int) =~= components(work_root));
}

/// Whatever the making of a release on a host clears or makes lies within the actuator's
/// work root.
pub proof fn a_build_changes_only_its_work_root(
    work_root: Seq<char>,
    source: SourceSelectionFacts,
    declaration: TargetDeclaration,
    transaction_id: Seq<char>,
    i: int,
)
    requires
        absolute(work_root),
        transaction_name(transaction_id),
        0 <= i < host_materialization(work_root, source, declaration, transaction_id).len(),
    ensures
        match host_materialization(work_root, source, declaration, transaction_id)[i] {
            HostLabour::Clear(_, path) => below(path, work_root),
            HostLabour::MakeDirectory(path) => below(path, work_root),
            _ => true,
        },
{
    reveal_strlit("sources");
    reveal_strlit("staging");
    lemma_within(work_root, "sources"@, transaction_id);
    lemma_within(work_root, "staging"@, transaction_id);
}

proof fn lemma_extended_sorted(pairs: Seq<Pair>, more: Seq<Pair>)
    requires
        crate::maps::sorted(pairs),
    ensures
        crate::maps::sorted(extended(pairs, more)),
    decreases more.len(),
{
    if more.len() > 0 {
        lemma_extended_sorted(pairs, more.drop_last());
        crate::maps::lemma_with(
            extended(pairs, more.drop_last()),
            more.last().0,
            more.last().1,
        );
    }
}

/// Whatever a host hands on and whatever a runner binds, the stamp of a step is that of its
/// source.
pub proof fn the_stamp_of_a_step_is_its_source(
    passthrough: Seq<Pair>,
    runner: Seq<Pair>,
    stamp: Pair,
)
    requires
        crate::maps::sorted(passthrough),
    ensures
        crate::maps::value_of(step_environment_of(passthrough, runner, stamp), stamp.0) == Some(
            stamp.1,
        ),
{
    lemma_extended_sorted(passthrough, runner);
    crate::maps::lemma_with_lookup(extended(passthrough, runner), stamp.0, stamp.1, stamp.0);
}

} // verus!
