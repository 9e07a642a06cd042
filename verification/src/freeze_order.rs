//! The freezing of one exact revision as a whole: in which order it is fetched, judged,
//! written out, hardened and published, what is left of it when a part of it fails, and
//! what it comes to.
use vstd::prelude::*;

use crate::digest::{require_driver_id, require_git_sha};
use crate::paths::{join, joined};
use crate::scan::{starts, strip_prefix};
use crate::selection::{ExactSource, GitlinkTreeFact};
use crate::source::{
    clone_arguments, fetch_arguments, freeze_refusal, frozen_place, gitlink_place, judge_arguments,
    judging, within, GitSourceDriver,
};
use crate::text::{cat2, check, judged, texts, Refusal};

verus! {

/// One task of a freeze.
#[derive(Clone, Debug, PartialEq, Eq)]
pub enum FreezeTask {
    /// The checkout of a source is made ready.
    PrepareSource { checkout: String },
    /// Git is run. Where it fails, the words stand before its own.
    Git { arguments: Vec<String>, words: String },
    /// The tree of a revision is listed: its recipe and its submodules are read from it.
    ReadTree { repository: String, revision: String, recipe_path: String },
    /// The root of the transaction is made anew.
    MakeTransactionRoot { root: String },
    /// The place that is written into is made anew.
    MakeDestination { path: String },
    /// A directory of the source cache is made, with what lies above it.
    MakeCacheDirectory { path: String },
    /// What was fetched of a submodule is held to its revision.
    AdmitGitlink { repository: String, revision: String },
    /// The tree of a revision is written out at a place within a root.
    WriteTree { repository: String, revision: String, destination: String, root: String },
    /// Each submodule is written out within a root, by the order for it.
    WriteGitlinks { root: String },
    /// The recipe as it was written out is held to that of the tree.
    AdmitRecipe { path: String },
    /// Everything that was written out is given to root and made immutable.
    Harden { path: String },
    /// The digest of what was written out is taken.
    Digest { path: String },
    /// What was written out is moved to the place that its digest names.
    Publish { from: String },
    /// The links of what was published are judged where they now stand.
    JudgeLinks,
    /// The root of the transaction is closed.
    Close { path: String, mode: u32 },
}

/// What a `FreezeTask` holds.
#[verifier::ext_equal]
pub enum FreezeDuty {
    PrepareSource(Seq<char>),
    Git(Seq<Seq<char>>, Seq<char>),
    ReadTree(Seq<char>, Seq<char>, Seq<char>),
    MakeTransactionRoot(Seq<char>),
    MakeDestination(Seq<char>),
    MakeCacheDirectory(Seq<char>),
    AdmitGitlink(Seq<char>, Seq<char>),
    WriteTree(Seq<char>, Seq<char>, Seq<char>, Seq<char>),
    WriteGitlinks(Seq<char>),
    AdmitRecipe(Seq<char>),
    Harden(Seq<char>),
    Digest(Seq<char>),
    Publish(Seq<char>),
    JudgeLinks,
    Close(Seq<char>, u32),
}

impl View for FreezeTask {
    type V = FreezeDuty;

    open spec fn view(&self) -> FreezeDuty {
        match self {
            FreezeTask::PrepareSource { checkout } => FreezeDuty::PrepareSource(checkout@),
            FreezeTask::Git { arguments, words } => FreezeDuty::Git(texts(arguments@), words@),
            FreezeTask::ReadTree { repository, revision, recipe_path } => FreezeDuty::ReadTree(
                repository@,
                revision@,
                recipe_path@,
            ),
            FreezeTask::MakeTransactionRoot { root } => FreezeDuty::MakeTransactionRoot(root@),
            FreezeTask::MakeDestination { path } => FreezeDuty::MakeDestination(path@),
            FreezeTask::MakeCacheDirectory { path } => FreezeDuty::MakeCacheDirectory(path@),
            FreezeTask::AdmitGitlink { repository, revision } => FreezeDuty::AdmitGitlink(
                repository@,
                revision@,
            ),
            FreezeTask::WriteTree { repository, revision, destination, root } => {
                FreezeDuty::WriteTree(repository@, revision@, destination@, root@)
            },
            FreezeTask::WriteGitlinks { root } => FreezeDuty::WriteGitlinks(root@),
            FreezeTask::AdmitRecipe { path } => FreezeDuty::AdmitRecipe(path@),
            FreezeTask::Harden { path } => FreezeDuty::Harden(path@),
            FreezeTask::Digest { path } => FreezeDuty::Digest(path@),
            FreezeTask::Publish { from } => FreezeDuty::Publish(from@),
            FreezeTask::JudgeLinks => FreezeDuty::JudgeLinks,
            FreezeTask::Close { path, mode } => FreezeDuty::Close(path@, *mode),
        }
    }
}

/// What each task of a list holds.
pub open spec fn duties(list: Seq<FreezeTask>) -> Seq<FreezeDuty> {
    Seq::new(list.len(), |i: int| list[i]@)
}

fn push_task(tasks: &mut Vec<FreezeTask>, task: FreezeTask)
    ensures
        duties(final(tasks)@) == duties(old(tasks)@).push(task@),
{
    tasks.push(task);
    assert(duties(tasks@) =~= duties(old(tasks)@).push(task@));
}

/// Where the source of a transaction is written out before it is published.
pub open spec fn partial_place(root: Seq<char>, transaction_id: Seq<char>) -> Seq<char> {
    joined(joined(root, transaction_id), ".partial"@)
}

/// The fetching of a revision: it is brought into the checkout, and judged with everything
/// below it, whether it was brought just now or was there before. Its recipe and its
/// submodules are then read from its own tree.
pub open spec fn fetching_duties(source: ExactSource, revision: Seq<char>) -> Seq<FreezeDuty> {
    seq![
        FreezeDuty::PrepareSource(source.checkout@),
        FreezeDuty::Git(
            judging(within(source.checkout@, seq!["fetch"@, "--no-tags"@, "origin"@, revision])),
            "fetching the durable exact source revision"@,
        ),
        FreezeDuty::Git(
            within(source.checkout@, seq!["fsck"@, "--strict"@, "--no-dangling"@, revision]),
            "fsck refused the selected revision "@ + revision,
        ),
        FreezeDuty::ReadTree(source.checkout@, revision, source.recipe_path@),
    ]
}

/// The writing of a revision: the tree and every submodule of it go to a fresh place of the
/// transaction, the recipe there is held to that of the tree, and all of it is hardened
/// before its digest is taken.
pub open spec fn writing_duties(
    source: ExactSource,
    revision: Seq<char>,
    root: Seq<char>,
    transaction_id: Seq<char>,
) -> Seq<FreezeDuty> {
    let partial = partial_place(root, transaction_id);
    seq![
        FreezeDuty::MakeTransactionRoot(joined(root, transaction_id)),
        FreezeDuty::MakeDestination(partial),
        FreezeDuty::WriteTree(source.checkout@, revision, partial, partial),
        FreezeDuty::WriteGitlinks(partial),
        FreezeDuty::AdmitRecipe(joined(partial, source.recipe_path@)),
        FreezeDuty::Harden(partial),
        FreezeDuty::Digest(partial),
    ]
}

/// The publishing of a frozen source: it is moved as a whole, its links are judged where it
/// then stands, and its transaction is closed.
pub open spec fn publishing_duties(root: Seq<char>, transaction_id: Seq<char>) -> Seq<FreezeDuty> {
    seq![
        FreezeDuty::Publish(partial_place(root, transaction_id)),
        FreezeDuty::JudgeLinks,
        FreezeDuty::Close(joined(root, transaction_id), 0o500),
    ]
}

/// The freezing of a revision, from its fetching to its publishing.
pub open spec fn freeze_duties(
    source: ExactSource,
    revision: Seq<char>,
    root: Seq<char>,
    transaction_id: Seq<char>,
) -> Seq<FreezeDuty> {
    fetching_duties(source, revision) + writing_duties(source, revision, root, transaction_id)
        + publishing_duties(root, transaction_id)
}

/// The freezing of a revision, task by task.
#[derive(Clone, Debug, PartialEq, Eq)]
pub struct FreezeOrder {
    pub tasks: Vec<FreezeTask>,
}

/// The writing out of a submodule, task by task, and what is removed when it is done, however
/// it ends: its checkout, within the place of such checkouts.
#[derive(Clone, Debug, PartialEq, Eq)]
pub struct GitlinkOrder {
    pub tasks: Vec<FreezeTask>,
    pub place: String,
    pub checkout: String,
}

/// The writing out of a submodule: its origin is cloned to a checkout of its own, its exact
/// revision is fetched and admitted, and its tree goes under its own path.
pub open spec fn gitlink_duties(
    driver: GitSourceDriver,
    source: ExactSource,
    fact: GitlinkTreeFact,
    checkout: Seq<char>,
    root: Seq<char>,
) -> Seq<FreezeDuty> {
    seq![
        FreezeDuty::MakeCacheDirectory(gitlink_place(driver, source.checkout@)),
        FreezeDuty::Git(
            judging(
                seq![
                    "clone"@,
                    "--filter=blob:none"@,
                    "--no-checkout"@,
                    "--origin"@,
                    "origin"@,
                    fact.origin@,
                    checkout,
                ],
            ),
            ""@,
        ),
        FreezeDuty::Git(
            judging(within(checkout, seq!["fetch"@, "--no-tags"@, "origin"@, fact.revision@])),
            ""@,
        ),
        FreezeDuty::AdmitGitlink(checkout, fact.revision@),
        FreezeDuty::WriteTree(checkout, fact.revision@, joined(root, fact.path@), root),
    ]
}

/// Whether what a transaction has written is removed again where a task fails: once
/// something is written and until it is known to be whole.
pub open spec fn undoes(duty: FreezeDuty) -> bool {
    match duty {
        FreezeDuty::WriteTree(_, _, _, _) => true,
        FreezeDuty::WriteGitlinks(_) => true,
        FreezeDuty::AdmitRecipe(_) => true,
        FreezeDuty::Harden(_) => true,
        FreezeDuty::Digest(_) => true,
        FreezeDuty::JudgeLinks => true,
        _ => false,
    }
}

/// What a freeze comes to where a task of it fails: the root that is removed, if one is, and
/// the refusal.
#[derive(Clone, Debug, PartialEq, Eq)]
pub struct FailedFreeze {
    pub remove: Option<String>,
    pub refusal: Refusal,
}

/// What a freeze comes to: where the tree stands, its digest, its recipe, and whether a file
/// of it is a pointer to a content that is kept elsewhere.
#[derive(Clone, Debug, PartialEq, Eq)]
pub struct FrozenTree {
    pub tree: String,
    pub snapshot_sha256: String,
    pub recipe: Vec<u8>,
    pub contains_pointers: bool,
}

impl GitSourceDriver {
    /// The freezing of a revision of a source for a transaction below a root.
    pub fn freeze_exact(
        &self,
        is_root: bool,
        source: &ExactSource,
        revision: &str,
        transaction_id: &str,
        root: &str,
    ) -> (outcome: Result<FreezeOrder, Refusal>)
        ensures
            judged(outcome, freeze_refusal(*self, is_root, revision@, transaction_id@)),
            outcome matches Ok(order) ==> duties(order.tasks@) == freeze_duties(
                *source,
                revision@,
                root@,
                transaction_id@,
            ),
    {
        require_driver_id(transaction_id, "source transaction")?;
        require_git_sha(revision, "frozen source revision")?;
        check(
            is_root && self.identity.is_some(),
            "freezing source requires root Idunn with an unprivileged Git identity",
        )?;
        let checkout = &source.checkout;
        let transaction_root = join(root, transaction_id);
        let partial = join(transaction_root.as_str(), ".partial");
        let mut tasks: Vec<FreezeTask> = Vec::new();
        push_task(&mut tasks, FreezeTask::PrepareSource { checkout: checkout.clone() });
        let arguments = fetch_arguments(checkout.as_str(), revision);
        let words = "fetching the durable exact source revision".to_owned();
        push_task(&mut tasks, FreezeTask::Git { arguments, words });
        let arguments = judge_arguments(checkout.as_str(), revision);
        let words = cat2("fsck refused the selected revision ", revision);
        push_task(&mut tasks, FreezeTask::Git { arguments, words });
        push_task(
            &mut tasks,
            FreezeTask::ReadTree {
                repository: checkout.clone(),
                revision: revision.to_owned(),
                recipe_path: source.recipe_path.clone(),
            },
        );
        assert(duties(tasks@) =~= fetching_duties(*source, revision@));
        push_task(
            &mut tasks,
            FreezeTask::MakeTransactionRoot { root: transaction_root.clone() },
        );
        push_task(&mut tasks, FreezeTask::MakeDestination { path: partial.clone() });
        push_task(
            &mut tasks,
            FreezeTask::WriteTree {
                repository: checkout.clone(),
                revision: revision.to_owned(),
                destination: partial.clone(),
                root: partial.clone(),
            },
        );
        push_task(&mut tasks, FreezeTask::WriteGitlinks { root: partial.clone() });
        let path = join(partial.as_str(), source.recipe_path.as_str());
        push_task(&mut tasks, FreezeTask::AdmitRecipe { path });
        push_task(&mut tasks, FreezeTask::Harden { path: partial.clone() });
        push_task(&mut tasks, FreezeTask::Digest { path: partial.clone() });
        push_task(&mut tasks, FreezeTask::Publish { from: partial });
        push_task(&mut tasks, FreezeTask::JudgeLinks);
        push_task(&mut tasks, FreezeTask::Close { path: transaction_root, mode: 0o500 });
        assert(duties(tasks@) =~= freeze_duties(*source, revision@, root@, transaction_id@));
        Ok(FreezeOrder { tasks })
    }

    /// The writing out of a submodule of a source within a root, given where it is checked
    /// out.
    pub fn gitlink_order(
        &self,
        source: &ExactSource,
        fact: &GitlinkTreeFact,
        checkout: &str,
        root: &str,
    ) -> (order: GitlinkOrder)
        ensures
            duties(order.tasks@) == gitlink_duties(*self, *source, *fact, checkout@, root@),
            order.place@ == gitlink_place(*self, source.checkout@),
            order.checkout@ == checkout@,
    {
        let mut tasks: Vec<FreezeTask> = Vec::new();
        let place = self.gitlink_root(source.checkout.as_str());
        push_task(&mut tasks, FreezeTask::MakeCacheDirectory { path: place.clone() });
        let arguments = clone_arguments(fact.origin.as_str(), checkout);
        push_task(&mut tasks, FreezeTask::Git { arguments, words: "".to_owned() });
        let arguments = fetch_arguments(checkout, fact.revision.as_str());
        push_task(&mut tasks, FreezeTask::Git { arguments, words: "".to_owned() });
        push_task(
            &mut tasks,
            FreezeTask::AdmitGitlink {
                repository: checkout.to_owned(),
                revision: fact.revision.clone(),
            },
        );
        push_task(
            &mut tasks,
            FreezeTask::WriteTree {
                repository: checkout.to_owned(),
                revision: fact.revision.clone(),
                destination: join(root, fact.path.as_str()),
                root: root.to_owned(),
            },
        );
        assert(duties(tasks@) =~= gitlink_duties(*self, *source, *fact, checkout@, root@));
        GitlinkOrder { tasks, place, checkout: checkout.to_owned() }
    }

    /// What a freeze comes to where one of its tasks fails.
    pub fn fail_freeze(
        &self,
        task: &FreezeTask,
        transaction_id: &str,
        root: &str,
        refusal: Refusal,
    ) -> (failed: FailedFreeze)
        ensures
            failed.refusal == refusal,
            match failed.remove {
                Some(path) => undoes(task@) && path@ == joined(root@, transaction_id@),
                None => !undoes(task@),
            },
    {
        let undo = match task {
            FreezeTask::WriteTree { .. } => true,
            FreezeTask::WriteGitlinks { .. } => true,
            FreezeTask::AdmitRecipe { .. } => true,
            FreezeTask::Harden { .. } => true,
            FreezeTask::Digest { .. } => true,
            FreezeTask::JudgeLinks => true,
            _ => false,
        };
        if undo {
            FailedFreeze { remove: Some(join(root, transaction_id)), refusal }
        } else {
            FailedFreeze { remove: None, refusal }
        }
    }

    /// Settles a freeze, given the digest of what was written out, the recipe of its tree and
    /// the pointers among its files. The digest has its form.
    pub fn settle_freeze(
        &self,
        transaction_id: &str,
        root: &str,
        snapshot_sha256: String,
        recipe: Vec<u8>,
        pointers: &Vec<String>,
    ) -> (frozen: FrozenTree)
        requires
            starts(snapshot_sha256@, "sha256-"@),
        ensures
            frozen.tree@ == frozen_place(root@, transaction_id@, snapshot_sha256@),
            frozen.snapshot_sha256@ == snapshot_sha256@,
            frozen.recipe@ == recipe@,
            frozen.contains_pointers == (pointers@.len() > 0),
    {
        let transaction_root = join(root, transaction_id);
        let component = match strip_prefix(snapshot_sha256.as_str(), "sha256-") {
            Some(rest) => rest,
            None => String::new(),
        };
        FrozenTree {
            tree: join(transaction_root.as_str(), component.as_str()),
            snapshot_sha256,
            recipe,
            contains_pointers: pointers.len() > 0,
        }
    }
}

/// Whether a task of a freeze touches what was published, or the place that it is published
/// from.
pub open spec fn publishes(duty: FreezeDuty) -> bool {
    duty is Publish || duty is JudgeLinks || duty is Close
}

/// What a freeze publishes is whole: nothing is published before the tree and every submodule
/// were written out, the recipe there was held to that of the tree, and all of it was hardened;
/// its digest is taken last of all. Its links are judged once it was published, and before its
/// transaction is closed.
pub proof fn what_is_published_is_whole(
    source: ExactSource,
    revision: Seq<char>,
    root: Seq<char>,
    transaction_id: Seq<char>,
    i: int,
)
    requires
        0 <= i < freeze_duties(source, revision, root, transaction_id).len(),
        publishes(freeze_duties(source, revision, root, transaction_id)[i]),
    ensures
        ({
            let all = freeze_duties(source, revision, root, transaction_id);
            let partial = partial_place(root, transaction_id);
            &&& all.take(i).contains(
                FreezeDuty::WriteTree(source.checkout@, revision, partial, partial),
            )
            &&& all.take(i).contains(FreezeDuty::WriteGitlinks(partial))
            &&& all.take(i).contains(FreezeDuty::AdmitRecipe(joined(partial, source.recipe_path@)))
            &&& all.take(i).contains(FreezeDuty::Harden(partial))
            &&& all[i - 1] == FreezeDuty::Digest(partial) || publishes(all[i - 1])
            &&& all[i] is Publish ==> all[i] == FreezeDuty::Publish(partial)
            &&& all[i] is JudgeLinks ==> all[i - 1] is Publish
            &&& all[i] is Close ==> all[i - 1] is JudgeLinks && i == all.len() - 1
        }),
{
    let all = freeze_duties(source, revision, root, transaction_id);
    assert(all[6] == all.take(i)[6]);
    assert(all[7] == all.take(i)[7]);
    assert(all[8] == all.take(i)[8]);
    assert(all[9] == all.take(i)[9]);
}

} // verus!
