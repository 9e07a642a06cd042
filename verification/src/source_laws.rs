//! What holds of a source from its selection to its release: what Git is asked, what is frozen,
//! and what is collected.
use vstd::prelude::*;

use crate::binding::{ArtifactOutput, ArtifactReceipt, ExternalInput, SourceSelectionPolicy};
use crate::building::{
    collected_refusal, fetch_command, fetched_refusal, is_receipt, origin_of, workspace_of,
};
use crate::digest::{digest_id, driver_id_refusal, raw_digest_text};
use crate::freeze_order::{freeze_duties, gitlink_duties, FreezeDuty};
use crate::gittree::GitTreeEntryView;
use crate::host::{artifacts_refusal, sealed_refusal, Finding};
use crate::maps::{value_of, Pair};
use crate::paths::{joined, lemma_join_name};
use crate::selection::{
    exactness_refusal, gitlinks_in, resolution_ref, selected_revision, ExactSource, GitlinkTreeFact,
    GitlinkTreeFactView,
};
use crate::source::{
    asking_ancestor, asking_content, asking_contents, asking_origin, asking_tree, cleanup_refusal,
    cloning, fetching, fetching_objects, fetching_ref, frozen_place, judging_revision,
    recipe_refusal, resolving, FrozenSourceReceipt, GitSourceDriver,
};
use crate::text::{text_option, Refusal};
use crate::workload::{installed_artifacts_refusal, ArtifactFinding};
use crate::workload_laws::{every_installed_artifact_is_sealed, is_sealed};

verus! {

/// Whether Git is asked something in a repository.
pub open spec fn is_asked_in(
    arguments: Seq<Seq<char>>,
    repository: Seq<char>,
    command: Seq<char>,
) -> bool {
    &&& arguments.len() > 2
    &&& arguments[0] == "-C"@
    &&& arguments[1] == repository
    &&& arguments[2] == command
}

/// Whether Git is asked something so that it judges every object that comes.
pub open spec fn is_judged(arguments: Seq<Seq<char>>) -> bool {
    &&& arguments.len() > 2
    &&& arguments[0] == "-c"@
    &&& arguments[1] == "transfer.fsckObjects=true"@
}

/// What Git is asked without changing a repository is asked in that repository, and names what
/// it is asked about: the older and the newer of two revisions in this order, the revision whose
/// tree is listed or that is judged, the content that is printed, and the name and kind that is
/// resolved.
pub proof fn git_is_asked_about_what_is_named(
    repository: Seq<char>,
    one: Seq<char>,
    two: Seq<char>,
)
    ensures
        is_asked_in(asking_origin(repository), repository, "remote"@),
        asking_origin(repository).skip(3) == seq!["get-url"@, "origin"@],
        is_asked_in(asking_ancestor(repository, one, two), repository, "merge-base"@),
        asking_ancestor(repository, one, two).skip(3) == seq!["--is-ancestor"@, one, two],
        is_asked_in(asking_tree(repository, one), repository, "ls-tree"@),
        asking_tree(repository, one).skip(3) == seq!["-r"@, "-z"@, one],
        is_asked_in(asking_content(repository, one), repository, "cat-file"@),
        asking_content(repository, one).skip(3) == seq!["blob"@, one],
        is_asked_in(asking_contents(repository), repository, "cat-file"@),
        asking_contents(repository).skip(3) == seq!["--batch"@],
        is_asked_in(resolving(repository, one, two), repository, "rev-parse"@),
        resolving(repository, one, two).skip(3) == seq![one + "^{"@ + two + "}"@],
        is_asked_in(judging_revision(repository, one), repository, "fsck"@),
        judging_revision(repository, one).skip(3) == seq!["--strict"@, "--no-dangling"@, one],
{
    assert(asking_origin(repository).skip(3) =~= seq!["get-url"@, "origin"@]);
    assert(asking_ancestor(repository, one, two).skip(3) =~= seq!["--is-ancestor"@, one, two]);
    assert(asking_tree(repository, one).skip(3) =~= seq!["-r"@, "-z"@, one]);
    assert(asking_content(repository, one).skip(3) =~= seq!["blob"@, one]);
    assert(asking_contents(repository).skip(3) =~= seq!["--batch"@]);
    assert(resolving(repository, one, two).skip(3) =~= seq![one + "^{"@ + two + "}"@]);
    assert(judging_revision(repository, one).skip(3) =~= seq![
        "--strict"@,
        "--no-dangling"@,
        one,
    ]);
}

/// Everything that Git fetches it judges object by object, takes from the origin and without
/// tags: a clone without contents, one revision, the objects that are asked for, or an admitted
/// ref to a ref of the resolution's own.
pub proof fn all_that_is_fetched_is_judged(
    repository: Seq<char>,
    one: Seq<char>,
    two: Seq<char>,
)
    ensures
        is_judged(cloning(one, two)),
        cloning(one, two).skip(2) == seq![
            "clone"@,
            "--filter=blob:none"@,
            "--no-checkout"@,
            "--origin"@,
            "origin"@,
            one,
            two,
        ],
        is_judged(fetching(repository, one)),
        is_asked_in(fetching(repository, one).skip(2), repository, "fetch"@),
        fetching(repository, one).skip(5) == seq!["--no-tags"@, "origin"@, one],
        is_judged(fetching_objects(repository)),
        is_asked_in(fetching_objects(repository).skip(2), repository, "fetch"@),
        fetching_objects(repository).skip(5) == seq![
            "--no-tags"@,
            "--no-write-fetch-head"@,
            "--stdin"@,
            "origin"@,
        ],
        is_judged(fetching_ref(repository, one, two)),
        is_asked_in(fetching_ref(repository, one, two).skip(2), repository, "fetch"@),
        fetching_ref(repository, one, two).skip(5) == seq![
            "--force"@,
            "--no-tags"@,
            "origin"@,
            "+"@ + one + ":"@ + two,
        ],
{
    assert(cloning(one, two).skip(2) =~= seq![
        "clone"@,
        "--filter=blob:none"@,
        "--no-checkout"@,
        "--origin"@,
        "origin"@,
        one,
        two,
    ]);
    assert(fetching(repository, one).skip(5) =~= seq!["--no-tags"@, "origin"@, one]);
    assert(fetching_objects(repository).skip(5) =~= seq![
        "--no-tags"@,
        "--no-write-fetch-head"@,
        "--stdin"@,
        "origin"@,
    ]);
    assert(fetching_ref(repository, one, two).skip(5) =~= seq![
        "--force"@,
        "--no-tags"@,
        "origin"@,
        "+"@ + one + ":"@ + two,
    ]);
}

/// What is frozen is the revision that was fetched and judged: it is fetched into the source's
/// own checkout and judged there before it is written out, and what is written out is one place
/// within the transaction, which is held to its recipe, hardened, hashed and published in this
/// order, before the transaction is closed.
pub proof fn what_is_frozen_was_judged(
    source: ExactSource,
    revision: Seq<char>,
    root: Seq<char>,
    transaction_id: Seq<char>,
)
    ensures
        ({
            let all = freeze_duties(source, revision, root, transaction_id);
            let own = joined(root, transaction_id);
            let place = joined(own, ".partial"@);
            let checkout = source.checkout@;
            &&& all.len() == 14
            &&& all[0] == FreezeDuty::PrepareSource(checkout)
            &&& all[1] matches FreezeDuty::Git(arguments, _) && arguments == fetching(
                checkout,
                revision,
            )
            &&& all[2] matches FreezeDuty::Git(arguments, _) && arguments == judging_revision(
                checkout,
                revision,
            )
            &&& all[3] == FreezeDuty::ReadTree(checkout, revision, source.recipe_path@)
            &&& all[4] == FreezeDuty::MakeTransactionRoot(own)
            &&& all[5] == FreezeDuty::MakeDestination(place)
            &&& all[6] == FreezeDuty::WriteTree(checkout, revision, place, place)
            &&& all[7] == FreezeDuty::WriteGitlinks(place)
            &&& all[8] == FreezeDuty::AdmitRecipe(joined(place, source.recipe_path@))
            &&& all[9] == FreezeDuty::Harden(place)
            &&& all[10] == FreezeDuty::Digest(place)
            &&& all[11] == FreezeDuty::Publish(place)
            &&& all[12] == FreezeDuty::JudgeLinks
            &&& all[13] == FreezeDuty::Close(own, 0o500)
        }),
{
}

/// A submodule is written out under its own path, from a clone of its own origin and at its own
/// revision, which is fetched and held to before.
pub proof fn a_submodule_is_written_at_its_own_revision(
    driver: GitSourceDriver,
    source: ExactSource,
    fact: GitlinkTreeFact,
    checkout: Seq<char>,
    root: Seq<char>,
)
    ensures
        ({
            let all = gitlink_duties(driver, source, fact, checkout, root);
            &&& all.len() == 5
            &&& all[0] is MakeCacheDirectory
            &&& all[1] matches FreezeDuty::Git(arguments, _) && arguments == cloning(
                fact.origin@,
                checkout,
            )
            &&& all[2] matches FreezeDuty::Git(arguments, _) && arguments == fetching(
                checkout,
                fact.revision@,
            )
            &&& all[3] == FreezeDuty::AdmitGitlink(checkout, fact.revision@)
            &&& all[4] == FreezeDuty::WriteTree(
                checkout,
                fact.revision@,
                joined(root, fact.path@),
                root,
            )
        }),
{
}

/// A frozen source stands under its own transaction by the digest of what it is, so that two of
/// one transaction stand at one place only where they are the same.
pub proof fn a_frozen_source_stands_by_its_digest(
    store: Seq<char>,
    transaction_id: Seq<char>,
    one: Seq<char>,
)
    ensures
        frozen_place(store, transaction_id, "sha256-"@ + one) == joined(
            joined(store, transaction_id),
            one,
        ),
{
    assert(("sha256-"@ + one).skip("sha256-"@.len() as int) =~= one);
}

/// A pinned source is the pinned revision, whatever its ref leads to; a followed one is what its
/// admitted ref leads to, whatever was pinned; and no other is selected.
pub proof fn a_selection_follows_its_policy(
    policy: SourceSelectionPolicy,
    pinned: Option<String>,
    admitted: Seq<char>,
    other: Seq<char>,
)
    ensures
        selected_revision(policy, pinned, admitted) matches Ok((revision, selection)) ==> {
            &&& policy is PinnedObject ==> text_option(pinned) == Some(revision)
                && selection is PinnedObject
            &&& policy is RefHead ==> revision == admitted && selection is RefHead
            &&& !(policy is SignedRelease)
        },
        policy is PinnedObject ==> selected_revision(policy, pinned, admitted)
            == selected_revision(policy, pinned, other),
        policy is RefHead ==> selected_revision(policy, pinned, admitted) == selected_revision(
            policy,
            None,
            admitted,
        ),
{
}

/// A resolution fetches to a ref that is its own: two resolutions of a target share one only
/// where they are the same.
pub proof fn a_resolution_has_its_own_ref(target: Seq<char>, one: Seq<char>, two: Seq<char>)
    ensures
        resolution_ref(target, one) is Ok && resolution_ref(target, one) == resolution_ref(
            target,
            two,
        ) ==> one == two,
        resolution_ref(target, one) matches Ok(name) ==> name == "refs/idunn/resolutions/"@
            + target + "/"@ + one,
{
    if let Ok(name) = resolution_ref(target, one) {
        let n = ("refs/idunn/resolutions/"@ + target + "/"@).len() as int;
        assert(name.skip(n) =~= one);
        if resolution_ref(target, one) == resolution_ref(target, two) {
            assert(name.skip(n) =~= two);
        }
    }
}

/// The submodules of a tree are exactly its entries of that mode, in their order.
pub proof fn the_submodules_of_a_tree_are_its_gitlinks(entries: Seq<GitTreeEntryView>)
    ensures
        gitlinks_in(entries) matches Ok(found) ==> {
            &&& found == entries.filter(|e: GitTreeEntryView| e.mode == "160000"@)
            &&& forall|i: int| 0 <= i < found.len() ==> (#[trigger] found[i]).kind == "commit"@
        },
    decreases entries.len(),
{
    reveal(Seq::filter);
    if entries.len() > 0 {
        the_submodules_of_a_tree_are_its_gitlinks(entries.drop_last());
    }
}

/// A selected revision counts as the resolved source exactly where its tree, its recipe and its
/// submodules are those of the resolution.
pub proof fn a_source_is_exact_in_every_part(
    actual_tree: Seq<char>,
    source_tree: Seq<char>,
    recipe: Seq<u8>,
    resolved_recipe: Seq<u8>,
    gitlinks: Seq<GitlinkTreeFactView>,
    resolved_gitlinks: Seq<GitlinkTreeFactView>,
)
    ensures
        exactness_refusal(
            actual_tree,
            source_tree,
            recipe,
            resolved_recipe,
            gitlinks,
            resolved_gitlinks,
        ) is None <==> actual_tree == source_tree && recipe == resolved_recipe && gitlinks
            == resolved_gitlinks,
{
}

/// A recipe is admitted exactly where it is not empty and its digest is the selected one, and a
/// receipt exactly where its plan stands and is the one that is named.
pub proof fn a_recipe_and_a_receipt_are_held_to_what_was_selected(
    recipe: Seq<u8>,
    recipe_blob_sha256: Seq<char>,
    receipt: FrozenSourceReceipt,
    plan: Result<(), Refusal>,
    plan_id: Seq<char>,
)
    ensures
        recipe_refusal(recipe, recipe_blob_sha256) is None <==> recipe.len() > 0 && digest_id(
            recipe,
        ) == recipe_blob_sha256,
        receipt.refusal(plan, plan_id) is None ==> plan is Ok && receipt.plan_id@ == plan_id,
        cleanup_refusal(receipt.transaction_id@, Some(receipt)) is None ==> driver_id_refusal(
            receipt.transaction_id@,
            "source transaction"@,
        ) is None,
{
}

/// An external input is fetched from its own address, over a protected transport alone, to its
/// own place in the workspace, and a failure is not taken for its content.
pub proof fn an_input_is_fetched_to_its_place(destination: Seq<char>, url: Seq<char>)
    ensures
        ({
            let command = fetch_command(destination, url);
            &&& command.len() == 8
            &&& command[0] == "curl"@
            &&& command.contains("--fail"@)
            &&& command.contains("--location"@)
            &&& command[3] == "--proto"@ && command[4] == "=https"@
            &&& command[5] == "--output"@ && command[6] == "/workspace/"@ + destination
            &&& command[7] == url
        }),
{
    let command = fetch_command(destination, url);
    assert(command[1] == "--fail"@);
    assert(command[2] == "--location"@);
}

/// A fetched input is admitted exactly where it could be read, is not empty and has the digest
/// that its recipe pins.
pub proof fn an_input_is_held_to_its_pin(input: ExternalInput, read: Result<Vec<u8>, Refusal>)
    ensures
        fetched_refusal(input, read) is None <==> (read matches Ok(bytes) && bytes@.len() > 0
            && raw_digest_text(bytes@) == input.sha256@),
{
}

/// An artifact is collected from where it was made: the source itself, or the workspace of the
/// runner that makes it.
pub proof fn an_artifact_is_collected_where_it_was_made(
    artifact: ArtifactOutput,
    source_root: Seq<char>,
    workspaces: Seq<Pair>,
)
    ensures
        artifact.source_kind is WorktreeTree ==> origin_of(artifact, source_root, workspaces)
            == Ok::<(Seq<char>, Seq<char>), Seq<char>>(
            (source_root, joined(source_root, artifact.source@)),
        ),
        artifact.source_kind is RunnerOutput ==> {
            &&& origin_of(artifact, source_root, workspaces) is Ok <==> (
            artifact.runner matches Some(runner) && value_of(workspaces, runner@) is Some)
            &&& origin_of(artifact, source_root, workspaces) matches Ok((root, place)) ==> {
                &&& value_of(workspaces, artifact.runner->0@) == Some(root)
                &&& place == joined(root, artifact.source@)
            }
        },
{
}

/// A collected artifact is admitted exactly where it was found and has the digest that its
/// recipe pins, where it pins one.
pub proof fn an_artifact_is_held_to_its_pin(
    artifact: ArtifactOutput,
    found: Result<ArtifactFinding, Refusal>,
)
    ensures
        collected_refusal(artifact, found) is None <==> (found matches Ok(f) && (
        artifact.expected_sha256 matches Some(pinned) ==> pinned@ == f.sha256@)),
{
}

/// A release on a host is admitted exactly where every artifact of it was found, and found to be
/// what its receipt says.
pub proof fn every_artifact_on_a_host_is_sealed(
    receipts: Seq<ArtifactReceipt>,
    findings: Seq<Finding>,
)
    ensures
        artifacts_refusal(receipts, findings) is None <==> forall|i: int|
            0 <= i < receipts.len() ==> (#[trigger] findings[i] matches Some(Ok(found))
                && is_sealed(receipts[i], found)),
    decreases receipts.len(),
{
    if receipts.len() > 0 {
        let fewer = receipts.drop_last();
        let last = receipts.len() - 1;
        every_artifact_on_a_host_is_sealed(fewer, findings);
        assert(sealed_refusal(receipts[last], findings[last]) is None <==> (
        findings[last] matches Some(Ok(found)) && is_sealed(receipts[last], found)));
        if artifacts_refusal(receipts, findings) is None {
            assert forall|i: int| 0 <= i < receipts.len() implies (
            #[trigger] findings[i] matches Some(Ok(found)) && is_sealed(receipts[i], found)) by {
                if i < last {
                    assert(fewer[i] == receipts[i]);
                }
            }
        }
        if forall|i: int|
            0 <= i < receipts.len() ==> (#[trigger] findings[i] matches Some(Ok(found))
                && is_sealed(receipts[i], found)) {
            assert forall|i: int| 0 <= i < fewer.len() implies (
            #[trigger] findings[i] matches Some(Ok(found)) && is_sealed(fewer[i], found)) by {
                assert(fewer[i] == receipts[i]);
            }
        }
    }
}

/// What was collected can be installed: an artifact that is found again as it was collected is
/// the sealed one, under systemd and on a host, and one that is found otherwise is not.
pub proof fn what_was_collected_can_be_installed(
    receipt: ArtifactReceipt,
    artifact: ArtifactOutput,
    found: ArtifactFinding,
    again: ArtifactFinding,
)
    requires
        is_receipt(receipt, artifact, found),
    ensures
        receipt.artifact_id@ == artifact.id@,
        receipt.destination@ == artifact.destination@,
        receipt.executable == artifact.executable,
        installed_artifacts_refusal(seq![receipt], seq![Ok::<ArtifactFinding, Refusal>(again)])
            is None <==> again.sha256@ == found.sha256@ && again.size_bytes == found.size_bytes,
        artifacts_refusal(seq![receipt], seq![Some(Ok::<ArtifactFinding, Refusal>(again))])
            is None <==> again.sha256@ == found.sha256@ && again.size_bytes == found.size_bytes,
{
    let receipts = seq![receipt];
    let findings = seq![Ok::<ArtifactFinding, Refusal>(again)];
    let seen = seq![Some(Ok::<ArtifactFinding, Refusal>(again))];
    every_installed_artifact_is_sealed(receipts, findings);
    every_artifact_on_a_host_is_sealed(receipts, seen);
    assert(findings[0] == Ok::<ArtifactFinding, Refusal>(again));
    assert(seen[0] == Some(Ok::<ArtifactFinding, Refusal>(again)));
    let n = "sha256-"@.len() as int;
    assert(("sha256-"@ + again.sha256@).skip(n) =~= again.sha256@);
    assert(("sha256-"@ + found.sha256@).skip(n) =~= found.sha256@);
}

/// Each runner has a workspace of its own under the staging root.
pub proof fn runners_have_workspaces_of_their_own(
    staging_root: Seq<char>,
    one: Seq<char>,
    two: Seq<char>,
)
    requires
        staging_root.len() > 0,
        !one.contains('/'),
        !two.contains('/'),
    ensures
        workspace_of(staging_root, one) == workspace_of(staging_root, two) ==> one == two,
{
    reveal_strlit(".runner-");
    let a = ".runner-"@ + one;
    let b = ".runner-"@ + two;
    assert(!a.contains('/')) by {
        if a.contains('/') {
            let i = choose|i: int| 0 <= i < a.len() && a[i] == '/';
            if i >= 8 {
                assert(one.contains(one[i - 8]));
            } else {
                assert(a[i] == ".runner-"@[i]);
            }
        }
    }
    assert(!b.contains('/')) by {
        if b.contains('/') {
            let i = choose|i: int| 0 <= i < b.len() && b[i] == '/';
            if i >= 8 {
                assert(two.contains(two[i - 8]));
            } else {
                assert(b[i] == ".runner-"@[i]);
            }
        }
    }
    assert(a.len() >= 8 && b.len() >= 8);
    lemma_join_name(staging_root, a);
    lemma_join_name(staging_root, b);
    if workspace_of(staging_root, one) == workspace_of(staging_root, two) {
        let parts = crate::paths::components(joined(staging_root, a));
        assert(parts.last() == a);
        assert(parts.last() == b);
        assert(a.skip(8) =~= one);
        assert(b.skip(8) =~= two);
    }
}

} // verus!
