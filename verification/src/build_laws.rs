//! What a build is made from, and what of it may run.
use vstd::prelude::*;

use crate::authority::FileFacts;
use crate::binding::{
    ArtifactOutput, ArtifactReceipt, BuildStep, DockerRunnerBinding, ExternalInput,
    HostRunnerBinding, TargetDeclaration,
};
use crate::building::{
    binds, command_refusal, is_input, is_runner, runner_of, source_refusal, unbound, NamedRunner,
};
use crate::deeds::{artifact_refusal, copy_refusal, executable_places};
use crate::gittree::GitTreeEntryView;
use crate::host_build::{
    build_refusal, staged_place, staged_refusal, step_refusal, transaction_name,
};
use crate::maps::{is_named, Pair};
use crate::materialize::{content_deed, requests, ContentDeed};
use crate::paths::{below, joined, same_path};
use crate::selection::{
    exactly_bound, fact_views, facts_of, first_bound, is_linked, regular_blob, ExactSource,
    GitlinkTreeFactView,
};
use crate::source::{
    checkout_refusal, freeze_refusal, frozen_recipe_refusal, place_refusal, source_root_refusal,
    FrozenSource, GitSourceDriver, SourceSelectionFacts,
};
use crate::text::{text_option, texts, Refusal};
use crate::tree::Tree;
use crate::workload::ArtifactFinding;

verus! {

/// A checkout is used exactly where it is a native directory that stands where it was bound,
/// with objects of its own, and comes from the origin that it was bound to.
pub proof fn a_checkout_is_used_where_it_is_bound(
    source: ExactSource,
    checkout: Result<FileFacts, Refusal>,
    canonical: Result<String, Refusal>,
    objects: Result<FileFacts, Refusal>,
    origin: Result<String, Refusal>,
)
    ensures
        checkout_refusal(source, checkout, canonical, objects, origin) is None <==> {
            &&& checkout matches Ok(f) && f.is_dir && !f.is_symlink
            &&& canonical matches Ok(path) && same_path(path@, source.checkout@)
            &&& objects matches Ok(f) && f.is_dir && !f.is_symlink
            &&& origin matches Ok(name) && name@ == source.origin@
        },
{
}

/// A source is frozen only by root for someone else, at a whole revision, under a transaction
/// that can be a name; and root never works on a source itself, nor on one outside its cache.
pub proof fn a_source_is_frozen_by_root_for_another(
    driver: GitSourceDriver,
    is_root: bool,
    revision: Seq<char>,
    transaction_id: Seq<char>,
    checkout: Seq<char>,
)
    ensures
        freeze_refusal(driver, is_root, revision, transaction_id) is None <==> {
            &&& is_root
            &&& driver.identity is Some
            &&& revision.len() == 40
            &&& forall|i: int|
                0 <= i < revision.len() ==> '0' <= #[trigger] revision[i] <= '9' || 'a'
                    <= revision[i] <= 'f'
            &&& 0 < transaction_id.len() <= 128
            &&& forall|i: int|
                0 <= i < transaction_id.len() ==> {
                    let c = #[trigger] transaction_id[i];
                    'a' <= c <= 'z' || 'A' <= c <= 'Z' || '0' <= c <= '9' || c == '.' || c == '_'
                        || c == '-'
                }
        },
        source_root_refusal(driver, is_root, checkout) is None <==> (is_root ==> driver.identity
            is Some) && below(checkout, driver.source_cache_root@) && !same_path(
            checkout,
            driver.source_cache_root@,
        ),
{
}

/// The recipe of a frozen source is a regular file that holds what was selected; and a frozen
/// source stands in its store at its own place, however it is reached.
pub proof fn a_frozen_source_holds_its_recipe_in_its_place(
    found: Result<FileFacts, Refusal>,
    read: Result<Vec<u8>, Refusal>,
    recipe: Seq<u8>,
    irregular: Seq<char>,
    different: Seq<char>,
    store: Seq<char>,
    place: Seq<char>,
    canonical_store: Result<String, Refusal>,
    canonical_root: Result<String, Refusal>,
)
    ensures
        frozen_recipe_refusal(found, read, recipe, irregular, different) is None <==> {
            &&& found matches Ok(f) && f.is_file && !f.is_symlink
            &&& read matches Ok(bytes) && bytes@ == recipe
        },
        place_refusal(store, place, canonical_store, canonical_root) is None <==> {
            &&& canonical_store matches Ok(s) && same_path(s@, store)
            &&& canonical_root matches Ok(r) && same_path(r@, place)
            &&& below(canonical_root->Ok_0@, canonical_store->Ok_0@)
        },
{
}

/// Two selections are the same exactly where they say the same of everything.
pub proof fn a_selection_is_told_by_everything_it_says(
    one: SourceSelectionFacts,
    two: SourceSelectionFacts,
    k: int,
)
    ensures
        one.same_as(two) ==> {
            &&& two.same_as(one)
            &&& one.schema@ == two.schema@
            &&& one.origin@ == two.origin@
            &&& one.admitted_ref@ == two.admitted_ref@
            &&& one.admitted_ref_revision@ == two.admitted_ref_revision@
            &&& one.revision@ == two.revision@
            &&& one.source_tree@ == two.source_tree@
            &&& one.recipe_path@ == two.recipe_path@
            &&& one.recipe_blob_sha256@ == two.recipe_blob_sha256@
            &&& one.gitlinks@.len() == two.gitlinks@.len()
            &&& 0 <= k < one.gitlinks@.len() ==> one.gitlinks@[k]@ == two.gitlinks@[k]@
            &&& one.selection == two.selection
            &&& one.selected_at_unix_millis == two.selected_at_unix_millis
        },
        one.same_as(one),
{
    if one.same_as(two) {
        let a = fact_views(one.gitlinks@);
        let b = fact_views(two.gitlinks@);
        assert(a.len() == b.len());
        if 0 <= k < one.gitlinks@.len() {
            assert(a[k] == b[k]);
        }
    }
}

/// Every submodule of a tree comes from the origin that its own path is bound to, at the
/// revision that the tree records, and no binding is left over.
pub proof fn a_submodule_comes_from_its_own_origin(
    facts: Seq<GitlinkTreeFactView>,
    found: Seq<GitTreeEntryView>,
    bound: Seq<(Seq<char>, Seq<char>)>,
    k: int,
)
    requires
        exactly_bound(found, bound),
        facts_of(facts, found, bound),
        forall|i: int, j: int|
            0 <= i < j < bound.len() ==> !same_path((#[trigger] bound[i]).0, (
            #[trigger] bound[j]).0),
        0 <= k < bound.len(),
    ensures
        exists|i: int|
            {
                &&& 0 <= i < facts.len()
                &&& same_path((#[trigger] facts[i]).path, bound[k].0)
                &&& facts[i].origin == bound[k].1
            },
        facts.len() == found.len(),
        forall|i: int|
            0 <= i < facts.len() ==> (#[trigger] facts[i]).path == found[i].path
                && facts[i].revision == found[i].object,
{
    assert(is_linked(bound[k].0, found));
    let i = choose|i: int| 0 <= i < found.len()
        && same_path(bound[k].0, (#[trigger] found[i]).path);
    assert(facts[i].path == found[i].path);
    let m = choose|m: int|
        #[trigger] first_bound(bound, found[i].path, m) && facts[i].origin == bound[m].1;
    assert(first_bound(bound, found[i].path, m) && facts[i].origin == bound[m].1);
    if m < k {
        assert(same_path(bound[m].0, bound[k].0));
    } else if k < m {
        assert(same_path(bound[k].0, bound[m].0));
    }
}

/// What can be a recipe is what a freeze writes as a file, where it is a blob: executable
/// exactly where the tree says so, and at the place that the tree names.
pub proof fn a_recipe_is_what_is_written_as_a_file(
    destination: Seq<char>,
    entry: GitTreeEntryView,
)
    ensures
        regular_blob(entry) ==> (content_deed(destination, entry, entry, true) == Ok::<
            ContentDeed,
            Seq<char>,
        >(
            ContentDeed::Write(
                entry.path,
                joined(destination, entry.path),
                if entry.mode == "100755"@ {
                    0o755
                } else {
                    0o644
                },
            ),
        )),
        content_deed(destination, entry, entry, true) matches Ok(ContentDeed::Write(..)) ==> (
        regular_blob(entry) || entry.kind != "blob"@),
        content_deed(destination, entry, entry, true) matches Ok(ContentDeed::Remember(path)) ==> (
        path == entry.path && entry.mode == "120000"@),
{
}

/// What is asked of an object store is asked line by line, one object to each.
pub proof fn objects_are_asked_for_line_by_line(
    some: Seq<Seq<char>>,
    more: Seq<Seq<char>>,
    object: Seq<char>,
)
    ensures
        requests(some + more) == requests(some) + requests(more),
        requests(seq![object]) == vstd::utf8::encode_utf8(object).push(10u8),
    decreases more.len(),
{
    let none: Seq<Seq<char>> = Seq::empty();
    let nothing: Seq<u8> = Seq::empty();
    assert(seq![object].drop_last() =~= none);
    assert(requests(none) =~= nothing);
    assert(nothing + vstd::utf8::encode_utf8(object) + seq![10u8] =~= vstd::utf8::encode_utf8(
        object,
    ).push(10u8));
    if more.len() == 0 {
        assert(some + more =~= some);
        assert(requests(some) + nothing =~= requests(some));
    } else {
        objects_are_asked_for_line_by_line(some, more.drop_last(), object);
        assert((some + more).drop_last() =~= some + more.drop_last());
        assert((some + more).last() == more.last());
        assert(requests(some + more) =~= requests(some) + requests(more));
    }
}

/// A step gets the one runner of its own name, and an input is the one that was declared under
/// its name.
pub proof fn a_step_gets_the_runner_that_it_names(
    runners: Seq<NamedRunner>,
    id: Seq<char>,
    i: int,
    inputs: Seq<ExternalInput>,
    k: int,
)
    ensures
        is_runner(runners, id, i) ==> {
            &&& runner_of(runners, id) == runners[i]
            &&& runner_of(runners, id).id@ == id
        },
        is_input(inputs, id, k) ==> inputs[k].id@ == id,
{
    if is_runner(runners, id, i) {
        let j = choose|j: int| #[trigger] is_runner(runners, id, j);
        assert(is_runner(runners, id, j));
        if i < j {
            assert(runners[i].id@ != id);
        } else if j < i {
            assert(runners[j].id@ != id);
        }
    }
}

/// A step is run with everything that it requires bound, in its runner's environment or among
/// its secrets, and not otherwise.
pub proof fn a_runner_binds_all_that_a_step_requires(
    runner: DockerRunnerBinding,
    id: Seq<char>,
    required: Seq<Seq<char>>,
)
    ensures
        unbound(runner, id, required) is None <==> forall|i: int|
            0 <= i < required.len() ==> is_named(runner.environment@, #[trigger] required[i])
                || is_named(runner.secret_files@, required[i]),
    decreases required.len(),
{
    if required.len() > 0 {
        let fewer = required.drop_last();
        a_runner_binds_all_that_a_step_requires(runner, id, fewer);
        assert(binds(runner, required.last()) <==> is_named(
            runner.environment@,
            required[required.len() - 1],
        ) || is_named(runner.secret_files@, required[required.len() - 1]));
        assert forall|i: int| 0 <= i < fewer.len() implies #[trigger] fewer[i] == required[i] by {}
        if unbound(runner, id, required) is None {
            assert forall|i: int| 0 <= i < required.len() implies is_named(
                runner.environment@,
                #[trigger] required[i],
            ) || is_named(runner.secret_files@, required[i]) by {
                if i < fewer.len() {
                    assert(fewer[i] == required[i]);
                }
            }
        }
    }
}

/// A program is run only where the operator bound it, in a container and on a host alike.
pub proof fn only_a_bound_program_is_run(
    runner: DockerRunnerBinding,
    argv: Seq<Seq<char>>,
    step: BuildStep,
    host_runner: HostRunnerBinding,
    environment: Seq<Pair>,
)
    ensures
        command_refusal(runner, argv) is None <==> argv.len() > 0 && texts(
            runner.allowed_programs@,
        ).contains(argv[0]),
        step_refusal(step, host_runner, environment) is None ==> step.argv@.len() > 0 && texts(
            host_runner.allowed_programs@,
        ).contains(step.argv@[0]@),
{
}

/// A host builds only what was planned for it, of one repository and nothing besides, in a
/// directory that its transaction names.
pub proof fn a_host_builds_one_repository_of_its_own(
    bound_host: Seq<char>,
    host: Seq<char>,
    source: SourceSelectionFacts,
    declaration: TargetDeclaration,
    transaction_id: Seq<char>,
)
    ensures
        build_refusal(bound_host, host, source, declaration, transaction_id) is None <==> {
            &&& bound_host == host
            &&& source.gitlinks@.len() == 0
            &&& declaration.external_inputs@.len() == 0
            &&& transaction_name(transaction_id)
        },
{
}

/// An artifact is staged where it was declared to be, within its staging root, and held to the
/// digest that it was pinned to, where it was.
pub proof fn a_staged_artifact_is_the_declared_one(
    artifact: ArtifactOutput,
    staging: Seq<char>,
    is_there: bool,
    found: Result<ArtifactFinding, Refusal>,
)
    ensures
        staged_place(artifact, staging, is_there) is Ok <==> is_there && below(
            joined(staging, artifact.destination@),
            staging,
        ),
        staged_place(artifact, staging, is_there) matches Ok(place) ==> place == joined(
            staging,
            artifact.destination@,
        ),
        staged_refusal(artifact, found) is None <==> (found matches Ok(finding) && (text_option(
            artifact.expected_sha256,
        ) is None || text_option(artifact.expected_sha256) == Some(finding.sha256@))),
{
}

/// An artifact is collected from within its root and is a file or a directory; and a tree is
/// copied only from a directory to where nothing stands.
pub proof fn an_artifact_is_collected_from_within(
    root: Seq<char>,
    source: Seq<char>,
    f: FileFacts,
    tree: Tree,
    destination_exists: bool,
)
    ensures
        artifact_refusal(root, source, f) is None <==> below(source, root) && (f.is_dir
            || f.is_file),
        copy_refusal(tree, destination_exists) is None <==> tree.facts.is_dir
            && !destination_exists,
{
}

/// What may be executed in a release is exactly where an artifact that is executable goes.
pub proof fn an_executable_place_is_of_an_executable_artifact(
    root: Seq<char>,
    artifacts: Seq<ArtifactReceipt>,
    path: Seq<char>,
)
    ensures
        executable_places(root, artifacts).contains(path) <==> exists|i: int|
            0 <= i < artifacts.len() && (#[trigger] artifacts[i]).executable && path == joined(
                root,
                artifacts[i].destination@,
            ),
    decreases artifacts.len(),
{
    if artifacts.len() > 0 {
        let fewer = artifacts.drop_last();
        let last = artifacts.last();
        let earlier = executable_places(root, fewer);
        let all = executable_places(root, artifacts);
        an_executable_place_is_of_an_executable_artifact(root, fewer, path);
        if all.contains(path) {
            let k = choose|k: int| 0 <= k < all.len() && all[k] == path;
            if k < earlier.len() {
                assert(earlier[k] == path);
                let i = choose|i: int|
                    0 <= i < fewer.len() && (#[trigger] fewer[i]).executable && path == joined(
                        root,
                        fewer[i].destination@,
                    );
                assert(artifacts[i] == fewer[i]);
            } else {
                assert(artifacts[artifacts.len() - 1].executable);
            }
        }
        if exists|i: int|
            0 <= i < artifacts.len() && (#[trigger] artifacts[i]).executable && path == joined(
                root,
                artifacts[i].destination@,
            ) {
            let i = choose|i: int|
                0 <= i < artifacts.len() && (#[trigger] artifacts[i]).executable && path == joined(
                    root,
                    artifacts[i].destination@,
                );
            if i < fewer.len() {
                assert(fewer[i] == artifacts[i]);
                let k = choose|k: int| 0 <= k < earlier.len() && earlier[k] == path;
                assert(all[k] == path);
            } else {
                assert(all[earlier.len() as int] == path);
            }
        }
    }
}

/// A build is made of a source exactly where its receipt is of the plan, what was selected is
/// what the plan was compiled of, and its recipe is the plan's own.
pub proof fn a_build_is_made_of_the_planned_source(
    source: FrozenSource,
    plan: Result<(), Refusal>,
    plan_id: Seq<char>,
    plan_source: SourceSelectionFacts,
    recipe_blob: Seq<u8>,
)
    ensures
        source_refusal(source, plan, plan_id, plan_source, recipe_blob) is None <==> {
            &&& source.received().refusal(plan, plan_id) is None
            &&& source.selected().same_as(plan_source)
            &&& source.recipe() == recipe_blob
        },
{
}

} // verus!
