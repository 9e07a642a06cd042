//! The driver of sources: it fetches and freezes one exact revision of a repository, under
//! an identity that owns nothing else, and hands out nothing but what was frozen.
use vstd::prelude::*;

use crate::authority::{native_directory, native_file, FileFacts};
use crate::binding::RepositoryBinding;
use crate::digest::{
    digest_id, driver_id_refusal, git_sha_refusal, require_driver_id, require_git_sha,
    require_sha256_id, raw_digest_text, raw_sha256, sha256_id, sha256_id_refusal,
};
use crate::observation::ProcessIdentity;
use crate::paths::{
    absolute, below, is_absolute, is_below, is_same_path, join, joined, parent, parent_of,
    same_path,
};
use crate::scan::{starts, strip_prefix, trim, trimmed};
use crate::selection::{fact_views, ExactSource, GitlinkTreeFact, SourceSelection};
use crate::text::{
    behind, cat4, check, copy_bytes, either, judged, push_text, refuse, refuse_behind, same_bytes,
    same_text, texts, unless, Refusal,
};
use crate::watch::missed;

verus! {

/// The facts by which a source was selected.
#[derive(Clone, Debug, PartialEq, Eq)]
pub struct SourceSelectionFacts {
    pub schema: String,
    pub origin: String,
    pub admitted_ref: String,
    pub admitted_ref_revision: String,
    pub revision: String,
    pub source_tree: String,
    pub recipe_path: String,
    pub recipe_blob_sha256: String,
    pub gitlinks: Vec<GitlinkTreeFact>,
    pub selection: SourceSelection,
    pub selected_at_unix_millis: u64,
}

impl SourceSelectionFacts {
    /// Whether two selections are by the same facts.
    pub open spec fn same_as(&self, other: SourceSelectionFacts) -> bool {
        &&& self.schema@ == other.schema@
        &&& self.origin@ == other.origin@
        &&& self.admitted_ref@ == other.admitted_ref@
        &&& self.admitted_ref_revision@ == other.admitted_ref_revision@
        &&& self.revision@ == other.revision@
        &&& self.source_tree@ == other.source_tree@
        &&& self.recipe_path@ == other.recipe_path@
        &&& self.recipe_blob_sha256@ == other.recipe_blob_sha256@
        &&& fact_views(self.gitlinks@) == fact_views(other.gitlinks@)
        &&& self.selection == other.selection
        &&& self.selected_at_unix_millis == other.selected_at_unix_millis
    }

    /// Whether two selections are by the same facts.
    pub fn same(&self, other: &SourceSelectionFacts) -> (same: bool)
        ensures
            same == self.same_as(*other),
    {
        same_text(self.schema.as_str(), other.schema.as_str()) && same_text(
            self.origin.as_str(),
            other.origin.as_str(),
        ) && same_text(self.admitted_ref.as_str(), other.admitted_ref.as_str()) && same_text(
            self.admitted_ref_revision.as_str(),
            other.admitted_ref_revision.as_str(),
        ) && same_text(self.revision.as_str(), other.revision.as_str()) && same_text(
            self.source_tree.as_str(),
            other.source_tree.as_str(),
        ) && same_text(self.recipe_path.as_str(), other.recipe_path.as_str()) && same_text(
            self.recipe_blob_sha256.as_str(),
            other.recipe_blob_sha256.as_str(),
        ) && crate::selection::same_facts(&self.gitlinks, &other.gitlinks) && self.selection
            == other.selection && self.selected_at_unix_millis == other.selected_at_unix_millis
    }
}

/// A resolved source: the facts of its selection, and its recipe.
#[derive(Clone, Debug, PartialEq, Eq)]
pub struct ResolvedSource {
    pub facts: SourceSelectionFacts,
    pub recipe_bytes: Vec<u8>,
}

/// Why the recipe of a resolved source is refused, if it is.
pub open spec fn recipe_refusal(
    recipe: Seq<u8>,
    recipe_blob_sha256: Seq<char>,
) -> Option<Seq<char>> {
    either(
        unless(recipe.len() > 0, "resolved recipe is empty"@),
        unless(
            digest_id(recipe) == recipe_blob_sha256,
            "resolved recipe bytes differ from the selected Git object"@,
        ),
    )
}

impl ResolvedSource {
    /// Admits a resolved source, given how its facts stand against the operator's binding.
    pub fn validate_against(&self, facts: &Result<(), Refusal>) -> (outcome: Result<(), Refusal>)
        ensures
            judged(
                outcome,
                either(
                    missed(*facts),
                    recipe_refusal(self.recipe_bytes@, self.facts.recipe_blob_sha256@),
                ),
            ),
    {
        match facts {
            Ok(()) => {},
            Err(refusal) => return Err(Refusal { text: refusal.text.clone() }),
        }
        check(self.recipe_bytes.len() > 0, "resolved recipe is empty")?;
        let id = sha256_id(self.recipe_bytes.as_slice());
        check(
            same_text(id.as_str(), self.facts.recipe_blob_sha256.as_str()),
            "resolved recipe bytes differ from the selected Git object",
        )
    }
}

/// What a transaction froze, by its digest.
#[derive(Clone, Debug, PartialEq, Eq)]
pub struct FrozenSourceReceipt {
    pub transaction_id: String,
    pub plan_id: String,
    pub snapshot_sha256: String,
}

impl FrozenSourceReceipt {
    /// Why a receipt is refused, if it is.
    pub open spec fn refusal(&self, plan: Result<(), Refusal>, plan_id: Seq<char>) -> Option<
        Seq<char>,
    > {
        either(
            missed(plan),
            either(
                driver_id_refusal(self.transaction_id@, "source transaction"@),
                either(
                    unless(self.plan_id@ == plan_id, "frozen source plan differs"@),
                    sha256_id_refusal(self.snapshot_sha256@, "frozen source snapshot"@),
                ),
            ),
        )
    }

    /// Admits a receipt, given how the plan itself stands.
    pub fn validate_against(&self, plan: &Result<(), Refusal>, plan_id: &str) -> (outcome: Result<
        (),
        Refusal,
    >)
        ensures
            judged(outcome, self.refusal(*plan, plan_id@)),
    {
        match plan {
            Ok(()) => {},
            Err(refusal) => return Err(Refusal { text: refusal.text.clone() }),
        }
        require_driver_id(self.transaction_id.as_str(), "source transaction")?;
        check(same_text(self.plan_id.as_str(), plan_id), "frozen source plan differs")?;
        require_sha256_id(self.snapshot_sha256.as_str(), "frozen source snapshot")
    }

    /// The name of the directory that a frozen source is kept in. The digest of the
    /// receipt has its form.
    pub fn snapshot_component(&self) -> (name: String)
        requires
            starts(self.snapshot_sha256@, "sha256-"@),
        ensures
            name@ == self.snapshot_sha256@.skip("sha256-"@.len() as int),
    {
        match strip_prefix(self.snapshot_sha256.as_str(), "sha256-") {
            Some(rest) => rest,
            None => String::new(),
        }
    }

    /// A copy of the receipt.
    pub fn copy(&self) -> (copy: Self)
        ensures
            copy.same_as(*self),
    {
        FrozenSourceReceipt {
            transaction_id: self.transaction_id.clone(),
            plan_id: self.plan_id.clone(),
            snapshot_sha256: self.snapshot_sha256.clone(),
        }
    }

    /// Whether two receipts hold the same.
    pub open spec fn same_as(&self, other: FrozenSourceReceipt) -> bool {
        &&& self.transaction_id@ == other.transaction_id@
        &&& self.plan_id@ == other.plan_id@
        &&& self.snapshot_sha256@ == other.snapshot_sha256@
    }
}

/// A frozen source that was observed.
#[derive(Clone, Debug, PartialEq, Eq)]
pub struct FrozenSource {
    receipt: FrozenSourceReceipt,
    facts: SourceSelectionFacts,
    recipe_bytes: Vec<u8>,
    root: String,
}

impl FrozenSource {
    /// What a frozen source was received as.
    pub closed spec fn received(&self) -> FrozenSourceReceipt {
        self.receipt
    }

    /// The facts by which a frozen source was selected.
    pub closed spec fn selected(&self) -> SourceSelectionFacts {
        self.facts
    }

    /// The recipe of a frozen source.
    pub closed spec fn recipe(&self) -> Seq<u8> {
        self.recipe_bytes@
    }

    /// Where a frozen source is kept.
    pub closed spec fn place(&self) -> Seq<char> {
        self.root@
    }

    /// The receipt of a frozen source.
    pub fn receipt(&self) -> (receipt: &FrozenSourceReceipt)
        ensures
            *receipt == self.received(),
    {
        &self.receipt
    }

    /// The facts by which a frozen source was selected.
    pub fn facts(&self) -> (facts: &SourceSelectionFacts)
        ensures
            *facts == self.selected(),
    {
        &self.facts
    }

    /// The recipe of a frozen source.
    pub fn recipe_bytes(&self) -> (bytes: &Vec<u8>)
        ensures
            bytes@ == self.recipe(),
    {
        &self.recipe_bytes
    }

    /// Where a frozen source is kept.
    pub fn root(&self) -> (root: &str)
        ensures
            root@ == self.place(),
    {
        self.root.as_str()
    }
}

/// The driver's roots, its identity, and its Git.
#[derive(Clone, Debug, PartialEq, Eq)]
pub struct GitSourceDriver {
    pub source_cache_root: String,
    pub frozen_source_root: String,
    pub identity: Option<ProcessIdentity>,
    pub git_program: String,
}

/// Why a source may not be fetched into a driver's root, if so.
pub open spec fn source_root_refusal(
    driver: GitSourceDriver,
    is_root: bool,
    checkout: Seq<char>,
) -> Option<Seq<char>> {
    either(
        unless(
            !is_root || driver.identity is Some,
            "root Idunn must configure an unprivileged source identity"@,
        ),
        unless(
            below(checkout, driver.source_cache_root@) && !same_path(
                checkout,
                driver.source_cache_root@,
            ),
            "repository checkout is outside Idunn's source authority root"@,
        ),
    )
}

/// Why a checkout is refused, if it is.
pub open spec fn checkout_refusal(
    source: ExactSource,
    checkout: Result<FileFacts, Refusal>,
    canonical: Result<String, Refusal>,
    objects: Result<FileFacts, Refusal>,
    origin: Result<String, Refusal>,
) -> Option<Seq<char>> {
    either(
        missed(checkout),
        either(
            unless(
                native_directory(checkout->Ok_0),
                "source checkout is not a native directory"@,
            ),
            either(
                missed(canonical),
                either(
                    unless(
                        same_path(canonical->Ok_0@, source.checkout@),
                        "source checkout traverses a symlink or noncanonical path"@,
                    ),
                    either(
                        missed(objects),
                        either(
                            unless(
                                native_directory(objects->Ok_0),
                                "source checkout has no native Git object directory"@,
                            ),
                            either(
                                missed(origin),
                                unless(
                                    origin->Ok_0@ == source.origin@,
                                    "source checkout origin differs from the operator binding"@,
                                ),
                            ),
                        ),
                    ),
                ),
            ),
        ),
    )
}

/// Why a source may not be frozen, if so.
pub open spec fn freeze_refusal(
    driver: GitSourceDriver,
    is_root: bool,
    revision: Seq<char>,
    transaction_id: Seq<char>,
) -> Option<Seq<char>> {
    either(
        driver_id_refusal(transaction_id, "source transaction"@),
        either(
            git_sha_refusal(revision, "frozen source revision"@),
            unless(
                is_root && driver.identity is Some,
                "freezing source requires root Idunn with an unprivileged Git identity"@,
            ),
        ),
    )
}

/// Why the recipe in a frozen source is refused, if it is.
pub open spec fn frozen_recipe_refusal(
    found: Result<FileFacts, Refusal>,
    read: Result<Vec<u8>, Refusal>,
    recipe: Seq<u8>,
    irregular: Seq<char>,
    different: Seq<char>,
) -> Option<Seq<char>> {
    either(
        missed(found),
        either(
            unless(native_file(found->Ok_0), irregular),
            either(missed(read), unless(read->Ok_0@ == recipe, different)),
        ),
    )
}

fn check_recipe_file(
    found: &Result<FileFacts, Refusal>,
    read: &Result<Vec<u8>, Refusal>,
    recipe: &Vec<u8>,
    irregular: &str,
    different: &str,
) -> (outcome: Result<(), Refusal>)
    ensures
        judged(
            outcome,
            frozen_recipe_refusal(*found, *read, recipe@, irregular@, different@),
        ),
{
    match found {
        Err(refusal) => return Err(Refusal { text: refusal.text.clone() }),
        Ok(f) => check(f.is_file && !f.is_symlink, irregular)?,
    }
    match read {
        Err(refusal) => Err(Refusal { text: refusal.text.clone() }),
        Ok(bytes) => check(same_bytes(bytes.as_slice(), recipe.as_slice()), different),
    }
}

/// Where the submodules of a checkout are cloned to.
pub open spec fn gitlink_place(driver: GitSourceDriver, checkout: Seq<char>) -> Seq<char> {
    joined(
        joined(driver.source_cache_root@, ".gitlinks"@),
        raw_digest_text(vstd::utf8::encode_utf8(checkout)),
    )
}

/// Where a frozen source is kept.
pub open spec fn frozen_place(
    store: Seq<char>,
    transaction_id: Seq<char>,
    snapshot_sha256: Seq<char>,
) -> Seq<char> {
    joined(joined(store, transaction_id), snapshot_sha256.skip("sha256-"@.len() as int))
}

/// Why a frozen source does not stand where its receipt has it, if so.
pub open spec fn place_refusal(
    store: Seq<char>,
    place: Seq<char>,
    canonical_store: Result<String, Refusal>,
    canonical_root: Result<String, Refusal>,
) -> Option<Seq<char>> {
    either(
        missed(canonical_store),
        either(
            missed(canonical_root),
            unless(
                same_path(canonical_store->Ok_0@, store) && same_path(
                    canonical_root->Ok_0@,
                    place,
                ) && below(canonical_root->Ok_0@, canonical_store->Ok_0@),
                "frozen source receipt resolves outside its authority root"@,
            ),
        ),
    )
}

/// Why what a transaction froze may not be cleaned up, if so.
pub open spec fn cleanup_refusal(
    transaction_id: Seq<char>,
    receipt: Option<FrozenSourceReceipt>,
) -> Option<Seq<char>> {
    either(
        driver_id_refusal(transaction_id, "source transaction"@),
        match receipt {
            None => None,
            Some(r) => either(
                unless(
                    r.transaction_id@ == transaction_id,
                    "frozen source cleanup receipt belongs to another transaction"@,
                ),
                sha256_id_refusal(r.snapshot_sha256@, "frozen source snapshot"@),
            ),
        },
    )
}

/// The arguments that ask Git in a repository.
pub open spec fn within(repository: Seq<char>, rest: Seq<Seq<char>>) -> Seq<Seq<char>> {
    seq!["-C"@, repository] + rest
}

/// The arguments that ask Git to judge every object that it fetches.
pub open spec fn judging(rest: Seq<Seq<char>>) -> Seq<Seq<char>> {
    seq!["-c"@, "transfer.fsckObjects=true"@] + rest
}

fn list2(a: &str, b: &str) -> (list: Vec<String>)
    ensures
        texts(list@) == seq![a@, b@],
{
    let mut list: Vec<String> = Vec::new();
    push_text(&mut list, a.to_owned());
    push_text(&mut list, b.to_owned());
    assert(texts(list@) =~= seq![a@, b@]);
    list
}

/// What Git is asked to clone a repository without contents.
pub open spec fn cloning(origin: Seq<char>, checkout: Seq<char>) -> Seq<Seq<char>> {
    judging(
        seq![
            "clone"@,
            "--filter=blob:none"@,
            "--no-checkout"@,
            "--origin"@,
            "origin"@,
            origin,
            checkout,
        ],
    )
}

/// What Git is asked for the origin of a repository.
pub open spec fn asking_origin(repository: Seq<char>) -> Seq<Seq<char>> {
    within(repository, seq!["remote"@, "get-url"@, "origin"@])
}

/// What Git is asked of whether a revision leads to another.
pub open spec fn asking_ancestor(
    repository: Seq<char>,
    ancestor: Seq<char>,
    revision: Seq<char>,
) -> Seq<Seq<char>> {
    within(repository, seq!["merge-base"@, "--is-ancestor"@, ancestor, revision])
}

/// What Git is asked to list the tree of a revision.
pub open spec fn asking_tree(repository: Seq<char>, revision: Seq<char>) -> Seq<Seq<char>> {
    within(repository, seq!["ls-tree"@, "-r"@, "-z"@, revision])
}

/// What Git is asked to print one content.
pub open spec fn asking_content(repository: Seq<char>, object: Seq<char>) -> Seq<Seq<char>> {
    within(repository, seq!["cat-file"@, "blob"@, object])
}

/// What Git is asked to print contents as they are asked for.
pub open spec fn asking_contents(repository: Seq<char>) -> Seq<Seq<char>> {
    within(repository, seq!["cat-file"@, "--batch"@])
}

/// What Git is asked to resolve a name to an object of a kind.
pub open spec fn resolving(repository: Seq<char>, name: Seq<char>, kind: Seq<char>) -> Seq<
    Seq<char>,
> {
    within(repository, seq!["rev-parse"@, name + "^{"@ + kind + "}"@])
}

/// What Git is asked to fetch one revision.
pub open spec fn fetching(repository: Seq<char>, revision: Seq<char>) -> Seq<Seq<char>> {
    judging(within(repository, seq!["fetch"@, "--no-tags"@, "origin"@, revision]))
}

/// What Git is asked to fetch the objects that are asked for.
pub open spec fn fetching_objects(repository: Seq<char>) -> Seq<Seq<char>> {
    judging(
        within(
            repository,
            seq!["fetch"@, "--no-tags"@, "--no-write-fetch-head"@, "--stdin"@, "origin"@],
        ),
    )
}

/// What Git is asked to fetch an admitted ref to a ref of a resolution's own.
pub open spec fn fetching_ref(
    repository: Seq<char>,
    admitted_ref: Seq<char>,
    fetched_ref: Seq<char>,
) -> Seq<Seq<char>> {
    judging(
        within(
            repository,
            seq![
                "fetch"@,
                "--force"@,
                "--no-tags"@,
                "origin"@,
                "+"@ + admitted_ref + ":"@ + fetched_ref,
            ],
        ),
    )
}

/// What Git is asked to judge a revision and all below it.
pub open spec fn judging_revision(repository: Seq<char>, revision: Seq<char>) -> Seq<Seq<char>> {
    within(repository, seq!["fsck"@, "--strict"@, "--no-dangling"@, revision])
}

/// The arguments that clone a repository without contents.
pub fn clone_arguments(origin: &str, checkout: &str) -> (args: Vec<String>)
    ensures
        texts(args@) == cloning(origin@, checkout@),
{
    let mut args = list2("-c", "transfer.fsckObjects=true");
    push_text(&mut args, "clone".to_owned());
    push_text(&mut args, "--filter=blob:none".to_owned());
    push_text(&mut args, "--no-checkout".to_owned());
    push_text(&mut args, "--origin".to_owned());
    push_text(&mut args, "origin".to_owned());
    push_text(&mut args, origin.to_owned());
    push_text(&mut args, checkout.to_owned());
    assert(texts(args@) =~= cloning(origin@, checkout@));
    args
}

/// The arguments that ask for the origin of a repository.
pub fn origin_arguments(repository: &str) -> (args: Vec<String>)
    ensures
        texts(args@) == asking_origin(repository@),
{
    let mut args = list2("-C", repository);
    push_text(&mut args, "remote".to_owned());
    push_text(&mut args, "get-url".to_owned());
    push_text(&mut args, "origin".to_owned());
    assert(texts(args@) =~= asking_origin(repository@));
    args
}

/// The arguments that ask whether a revision leads to another.
pub fn ancestor_arguments(repository: &str, ancestor: &str, revision: &str) -> (args: Vec<String>)
    ensures
        texts(args@) == asking_ancestor(repository@, ancestor@, revision@),
{
    let mut args = list2("-C", repository);
    push_text(&mut args, "merge-base".to_owned());
    push_text(&mut args, "--is-ancestor".to_owned());
    push_text(&mut args, ancestor.to_owned());
    push_text(&mut args, revision.to_owned());
    assert(texts(args@) =~= asking_ancestor(repository@, ancestor@, revision@));
    args
}

/// The arguments that list the tree of a revision.
pub fn tree_arguments(repository: &str, revision: &str) -> (args: Vec<String>)
    ensures
        texts(args@) == asking_tree(repository@, revision@),
{
    let mut args = list2("-C", repository);
    push_text(&mut args, "ls-tree".to_owned());
    push_text(&mut args, "-r".to_owned());
    push_text(&mut args, "-z".to_owned());
    push_text(&mut args, revision.to_owned());
    assert(texts(args@) =~= asking_tree(repository@, revision@));
    args
}

/// The arguments that print one content.
pub fn content_arguments(repository: &str, object: &str) -> (args: Vec<String>)
    ensures
        texts(args@) == asking_content(repository@, object@),
{
    let mut args = list2("-C", repository);
    push_text(&mut args, "cat-file".to_owned());
    push_text(&mut args, "blob".to_owned());
    push_text(&mut args, object.to_owned());
    assert(texts(args@) =~= asking_content(repository@, object@));
    args
}

/// The arguments that print contents as they are asked for.
pub fn batch_arguments(repository: &str) -> (args: Vec<String>)
    ensures
        texts(args@) == asking_contents(repository@),
{
    let mut args = list2("-C", repository);
    push_text(&mut args, "cat-file".to_owned());
    push_text(&mut args, "--batch".to_owned());
    assert(texts(args@) =~= asking_contents(repository@));
    args
}

/// The arguments that resolve a name to an object of a kind.
pub fn resolve_arguments(repository: &str, name: &str, kind: &str) -> (args: Vec<String>)
    ensures
        texts(args@) == resolving(repository@, name@, kind@),
{
    let mut args = list2("-C", repository);
    push_text(&mut args, "rev-parse".to_owned());
    push_text(&mut args, cat4(name, "^{", kind, "}"));
    assert(texts(args@) =~= resolving(repository@, name@, kind@));
    args
}

/// The arguments that fetch one revision.
pub fn fetch_arguments(repository: &str, revision: &str) -> (args: Vec<String>)
    ensures
        texts(args@) == fetching(repository@, revision@),
{
    let mut args = list2("-c", "transfer.fsckObjects=true");
    push_text(&mut args, "-C".to_owned());
    push_text(&mut args, repository.to_owned());
    push_text(&mut args, "fetch".to_owned());
    push_text(&mut args, "--no-tags".to_owned());
    push_text(&mut args, "origin".to_owned());
    push_text(&mut args, revision.to_owned());
    assert(texts(args@) =~= fetching(repository@, revision@));
    args
}

/// The arguments that fetch the objects that are asked for.
pub fn bulk_fetch_arguments(repository: &str) -> (args: Vec<String>)
    ensures
        texts(args@) == fetching_objects(repository@),
{
    let mut args = list2("-c", "transfer.fsckObjects=true");
    push_text(&mut args, "-C".to_owned());
    push_text(&mut args, repository.to_owned());
    push_text(&mut args, "fetch".to_owned());
    push_text(&mut args, "--no-tags".to_owned());
    push_text(&mut args, "--no-write-fetch-head".to_owned());
    push_text(&mut args, "--stdin".to_owned());
    push_text(&mut args, "origin".to_owned());
    assert(texts(args@) =~= fetching_objects(repository@));
    args
}

/// The arguments that fetch an admitted ref to a ref of a resolution's own.
pub fn fetch_ref_arguments(repository: &str, admitted_ref: &str, fetched_ref: &str) -> (args: Vec<
    String,
>)
    ensures
        texts(args@) == fetching_ref(repository@, admitted_ref@, fetched_ref@),
{
    let mut args = list2("-c", "transfer.fsckObjects=true");
    push_text(&mut args, "-C".to_owned());
    push_text(&mut args, repository.to_owned());
    push_text(&mut args, "fetch".to_owned());
    push_text(&mut args, "--force".to_owned());
    push_text(&mut args, "--no-tags".to_owned());
    push_text(&mut args, "origin".to_owned());
    push_text(&mut args, cat4("+", admitted_ref, ":", fetched_ref));
    assert(texts(args@) =~= fetching_ref(repository@, admitted_ref@, fetched_ref@));
    args
}

/// The arguments that judge a revision and all below it, whether fetched just now or not.
pub fn judge_arguments(repository: &str, revision: &str) -> (args: Vec<String>)
    ensures
        texts(args@) == judging_revision(repository@, revision@),
{
    let mut args = list2("-C", repository);
    push_text(&mut args, "fsck".to_owned());
    push_text(&mut args, "--strict".to_owned());
    push_text(&mut args, "--no-dangling".to_owned());
    push_text(&mut args, revision.to_owned());
    assert(texts(args@) =~= judging_revision(repository@, revision@));
    args
}

/// Settles a run of Git: one that failed is refused with what it complained.
pub fn settle_git(success: bool, status: &str, complaint: &str) -> (outcome: Result<(), Refusal>)
    ensures
        judged(
            outcome,
            unless(
                success,
                "Git source driver exited with "@ + status@ + ": "@ + trimmed(complaint@),
            ),
        ),
{
    let words = trim(complaint);
    let all = cat4("Git source driver exited with ", status, ": ", words.as_str());
    check(success, all.as_str())
}

/// The line that Git printed.
pub fn git_text(output: &[u8]) -> (outcome: Result<String, Refusal>)
    ensures
        crate::clock::written(
            outcome,
            match crate::procfs::text_in(output@, "Git emitted non-UTF-8 text"@) {
                Err(w) => Err(w),
                Ok(text) => Ok(trimmed(text)),
            },
        ),
{
    let text = crate::procfs::text_of_bytes(output, "Git emitted non-UTF-8 text")?;
    Ok(trim(text.as_str()))
}

impl GitSourceDriver {
    /// A driver with its roots and its identity, and the Git of a common host.
    pub fn new(
        source_cache_root: String,
        frozen_source_root: String,
        identity: Option<ProcessIdentity>,
    ) -> (driver: Self)
        ensures
            driver.source_cache_root@ == source_cache_root@,
            driver.frozen_source_root@ == frozen_source_root@,
            driver.identity == identity,
            driver.git_program@ == "/usr/bin/git"@,
    {
        GitSourceDriver {
            source_cache_root,
            frozen_source_root,
            identity,
            git_program: "/usr/bin/git".to_owned(),
        }
    }

    /// Admits the program that the driver runs, and the identity that it runs it under.
    pub fn git_command(&self) -> (outcome: Result<(), Refusal>)
        ensures
            judged(
                outcome,
                either(
                    unless(
                        absolute(self.git_program@),
                        "Git source driver program is not absolute"@,
                    ),
                    match self.identity {
                        None => None,
                        Some(identity) => unless(
                            identity.uid > 0 && identity.gid > 0,
                            "configured source identity must be unprivileged"@,
                        ),
                    },
                ),
            ),
    {
        check(
            is_absolute(self.git_program.as_str()),
            "Git source driver program is not absolute",
        )?;
        match self.identity {
            None => Ok(()),
            Some(identity) => check(
                identity.uid > 0 && identity.gid > 0,
                "configured source identity must be unprivileged",
            ),
        }
    }

    /// Admits the checkout of a source into the driver's root. The directory that the
    /// checkout lies in is the outcome.
    pub fn prepare_source_root(&self, is_root: bool, source: &ExactSource) -> (outcome: Result<
        String,
        Refusal,
    >)
        ensures
            crate::clock::written(
                outcome,
                match source_root_refusal(*self, is_root, source.checkout@) {
                    Some(w) => Err(w),
                    None => match parent(source.checkout@) {
                        Some(above) => Ok(above),
                        None => Err("repository checkout has no parent directory"@),
                    },
                },
            ),
    {
        check(
            !is_root || self.identity.is_some(),
            "root Idunn must configure an unprivileged source identity",
        )?;
        check(
            is_below(source.checkout.as_str(), self.source_cache_root.as_str()) && !is_same_path(
                source.checkout.as_str(),
                self.source_cache_root.as_str(),
            ),
            "repository checkout is outside Idunn's source authority root",
        )?;
        match parent_of(source.checkout.as_str()) {
            Some(above) => Ok(above),
            None => Err(refuse("repository checkout has no parent directory")),
        }
    }

    /// Admits the driver's root: no link leads to it.
    pub fn admit_cache_root(&self, canonical: &Result<String, Refusal>) -> (outcome: Result<
        (),
        Refusal,
    >)
        ensures
            judged(
                outcome,
                either(
                    missed(*canonical),
                    unless(
                        same_path(canonical->Ok_0@, self.source_cache_root@),
                        "source cache root traverses a symlink or noncanonical path"@,
                    ),
                ),
            ),
    {
        match canonical {
            Err(refusal) => Err(Refusal { text: refusal.text.clone() }),
            Ok(path) => check(
                is_same_path(path.as_str(), self.source_cache_root.as_str()),
                "source cache root traverses a symlink or noncanonical path",
            ),
        }
    }

    /// Admits a checkout: a directory of its own, with objects of its own, of the bound
    /// origin.
    pub fn ensure_checkout(
        &self,
        source: &ExactSource,
        checkout: &Result<FileFacts, Refusal>,
        canonical: &Result<String, Refusal>,
        objects: &Result<FileFacts, Refusal>,
        origin: &Result<String, Refusal>,
    ) -> (outcome: Result<(), Refusal>)
        ensures
            judged(outcome, checkout_refusal(*source, *checkout, *canonical, *objects, *origin)),
    {
        match checkout {
            Err(refusal) => return Err(Refusal { text: refusal.text.clone() }),
            Ok(f) => check(
                f.is_dir && !f.is_symlink,
                "source checkout is not a native directory",
            )?,
        }
        match canonical {
            Err(refusal) => return Err(Refusal { text: refusal.text.clone() }),
            Ok(path) => check(
                is_same_path(path.as_str(), source.checkout.as_str()),
                "source checkout traverses a symlink or noncanonical path",
            )?,
        }
        match objects {
            Err(refusal) => return Err(Refusal { text: refusal.text.clone() }),
            Ok(f) => check(
                f.is_dir && !f.is_symlink,
                "source checkout has no native Git object directory",
            )?,
        }
        match origin {
            Err(refusal) => Err(Refusal { text: refusal.text.clone() }),
            Ok(url) => check(
                same_text(url.as_str(), source.origin.as_str()),
                "source checkout origin differs from the operator binding",
            ),
        }
    }

    /// Where the submodules of a checkout are cloned to.
    pub fn gitlink_root(&self, checkout: &str) -> (root: String)
        ensures
            root@ == gitlink_place(*self, checkout@),
    {
        let links = join(self.source_cache_root.as_str(), ".gitlinks");
        let key = raw_sha256(checkout.as_bytes());
        join(links.as_str(), key.as_str())
    }

    /// Admits the recipe as it was written out: it is that of the tree.
    pub fn admit_frozen_recipe(
        &self,
        found: &Result<FileFacts, Refusal>,
        read: &Result<Vec<u8>, Refusal>,
        recipe: &Vec<u8>,
    ) -> (outcome: Result<(), Refusal>)
        ensures
            judged(
                outcome,
                frozen_recipe_refusal(
                    *found,
                    *read,
                    recipe@,
                    "frozen deployment recipe is not a regular file"@,
                    "frozen recipe differs from the selected tree's recipe blob"@,
                ),
            ),
    {
        check_recipe_file(
            found,
            read,
            recipe,
            "frozen deployment recipe is not a regular file",
            "frozen recipe differs from the selected tree's recipe blob",
        )
    }

    /// Settles a freeze: the recipe is that of the resolution. What was frozen is received
    /// for the transaction and its plan.
    pub fn freeze(
        &self,
        transaction_id: &str,
        plan: &Result<(), Refusal>,
        plan_id: &str,
        snapshot_sha256: String,
        recipe: &Vec<u8>,
        resolved: &ResolvedSource,
    ) -> (outcome: Result<FrozenSourceReceipt, Refusal>)
        ensures
            match outcome {
                Ok(receipt) => recipe@ == resolved.recipe_bytes@ && receipt.transaction_id@
                    == transaction_id@ && receipt.plan_id@ == plan_id@ && receipt.snapshot_sha256@
                    == snapshot_sha256@ && receipt.refusal(*plan, plan_id@) is None,
                Err(refusal) => if recipe@ != resolved.recipe_bytes@ {
                    refusal@ == "frozen recipe differs from the durable source resolution"@
                } else {
                    Some(refusal@) == either(
                        missed(*plan),
                        either(
                            driver_id_refusal(transaction_id@, "source transaction"@),
                            sha256_id_refusal(snapshot_sha256@, "frozen source snapshot"@),
                        ),
                    )
                },
            },
    {
        check(
            same_bytes(recipe.as_slice(), resolved.recipe_bytes.as_slice()),
            "frozen recipe differs from the durable source resolution",
        )?;
        let receipt = FrozenSourceReceipt {
            transaction_id: transaction_id.to_owned(),
            plan_id: plan_id.to_owned(),
            snapshot_sha256,
        };
        receipt.validate_against(plan, plan_id)?;
        Ok(receipt)
    }

    /// Where a frozen source is kept by its receipt, which is admitted first.
    pub fn locate_frozen(
        &self,
        plan: &Result<(), Refusal>,
        plan_id: &str,
        receipt: &FrozenSourceReceipt,
    ) -> (outcome: Result<String, Refusal>)
        ensures
            crate::clock::written(
                outcome,
                match receipt.refusal(*plan, plan_id@) {
                    Some(w) => Err(w),
                    None => Ok(
                        frozen_place(
                            self.frozen_source_root@,
                            receipt.transaction_id@,
                            receipt.snapshot_sha256@,
                        ),
                    ),
                },
            ),
    {
        receipt.validate_against(plan, plan_id)?;
        let transaction = join(
            self.frozen_source_root.as_str(),
            receipt.transaction_id.as_str(),
        );
        let component = receipt.snapshot_component();
        Ok(join(transaction.as_str(), component.as_str()))
    }

    /// Admits the place of a frozen source: it is where its receipt has it.
    pub fn admit_place(
        &self,
        root: &str,
        canonical_store: &Result<String, Refusal>,
        canonical_root: &Result<String, Refusal>,
    ) -> (outcome: Result<(), Refusal>)
        ensures
            judged(
                outcome,
                place_refusal(
                    self.frozen_source_root@,
                    root@,
                    *canonical_store,
                    *canonical_root,
                ),
            ),
    {
        match (canonical_store, canonical_root) {
            (Err(refusal), _) => Err(Refusal { text: refusal.text.clone() }),
            (Ok(_), Err(refusal)) => Err(Refusal { text: refusal.text.clone() }),
            (Ok(store), Ok(place)) => check(
                is_same_path(store.as_str(), self.frozen_source_root.as_str()) && is_same_path(
                    place.as_str(),
                    root,
                ) && is_below(place.as_str(), store.as_str()),
                "frozen source receipt resolves outside its authority root",
            ),
        }
    }

    /// Observes a frozen source, given its digest and its recipe as they are found: it is
    /// still what was received, and its recipe is the plan's.
    pub fn observe_frozen(
        &self,
        receipt: &FrozenSourceReceipt,
        root: &str,
        snapshot_sha256: &str,
        found: &Result<FileFacts, Refusal>,
        read: &Result<Vec<u8>, Refusal>,
        recipe: &Vec<u8>,
        facts: SourceSelectionFacts,
    ) -> (outcome: Result<FrozenSource, Refusal>)
        ensures
            match either(
                unless(
                    snapshot_sha256@ == receipt.snapshot_sha256@,
                    "frozen source snapshot differs from its receipt"@,
                ),
                frozen_recipe_refusal(
                    *found,
                    *read,
                    recipe@,
                    "observed deployment recipe is not a regular file"@,
                    "observed deployment recipe differs from the persisted plan"@,
                ),
            ) {
                Some(w) => outcome matches Err(refusal) && refusal@ == w,
                None => outcome matches Ok(frozen) && frozen.received().same_as(*receipt)
                    && frozen.selected() == facts
                        && frozen.recipe() == recipe@
                        && frozen.place() == root@,
            },
    {
        check(
            same_text(snapshot_sha256, receipt.snapshot_sha256.as_str()),
            "frozen source snapshot differs from its receipt",
        )?;
        check_recipe_file(
            found,
            read,
            recipe,
            "observed deployment recipe is not a regular file",
            "observed deployment recipe differs from the persisted plan",
        )?;
        Ok(
            FrozenSource {
                receipt: receipt.copy(),
                facts,
                recipe_bytes: copy_bytes(recipe.as_slice()),
                root: root.to_owned(),
            },
        )
    }

    /// Where a transaction keeps what is to be cleaned up.
    pub fn cleanup(
        &self,
        transaction_id: &str,
        receipt: &Option<FrozenSourceReceipt>,
    ) -> (outcome: Result<String, Refusal>)
        ensures
            crate::clock::written(
                outcome,
                match cleanup_refusal(transaction_id@, *receipt) {
                    Some(w) => Err(w),
                    None => Ok(joined(self.frozen_source_root@, transaction_id@)),
                },
            ),
    {
        require_driver_id(transaction_id, "source transaction")?;
        match receipt {
            None => {},
            Some(r) => {
                check(
                    same_text(r.transaction_id.as_str(), transaction_id),
                    "frozen source cleanup receipt belongs to another transaction",
                )?;
                require_sha256_id(r.snapshot_sha256.as_str(), "frozen source snapshot")?;
            },
        }
        Ok(join(self.frozen_source_root.as_str(), transaction_id))
    }

    /// The facts and the recipe of a resolution, which starts only with a time.
    pub fn resolve(
        &self,
        repository: &RepositoryBinding,
        schema: &str,
        admitted_ref_revision: String,
        revision: String,
        source_tree: String,
        recipe_bytes: Vec<u8>,
        gitlinks: Vec<GitlinkTreeFact>,
        selection: SourceSelection,
        selected_at_unix_millis: u64,
    ) -> (outcome: Result<ResolvedSource, Refusal>)
        ensures
            match either(
                unless(selected_at_unix_millis > 0, "source selection has no timestamp"@),
                either(
                    git_sha_refusal(
                        admitted_ref_revision@,
                        "fetched admitted-ref revision"@,
                    ),
                    git_sha_refusal(source_tree@, "selected source tree"@),
                ),
            ) {
                Some(w) => outcome matches Err(refusal) && refusal@ == w,
                None => {
                    &&& outcome matches Ok(resolved)
                    &&& resolved.facts.schema@ == schema@
                    &&& resolved.facts.origin@ == repository.origin@
                    &&& resolved.facts.admitted_ref@ == repository.admitted_ref@
                    &&& resolved.facts.admitted_ref_revision@ == admitted_ref_revision@
                    &&& resolved.facts.revision@ == revision@
                    &&& resolved.facts.source_tree@ == source_tree@
                    &&& resolved.facts.recipe_path@ == repository.recipe_path@
                    &&& resolved.facts.recipe_blob_sha256@ == digest_id(recipe_bytes@)
                    &&& resolved.facts.gitlinks == gitlinks
                    &&& resolved.facts.selection == selection
                    &&& resolved.facts.selected_at_unix_millis == selected_at_unix_millis
                    &&& resolved.recipe_bytes == recipe_bytes
                },
            },
    {
        check(selected_at_unix_millis > 0, "source selection has no timestamp")?;
        require_git_sha(admitted_ref_revision.as_str(), "fetched admitted-ref revision")?;
        require_git_sha(source_tree.as_str(), "selected source tree")?;
        let recipe_blob_sha256 = sha256_id(recipe_bytes.as_slice());
        Ok(
            ResolvedSource {
                facts: SourceSelectionFacts {
                    schema: schema.to_owned(),
                    origin: repository.origin.clone(),
                    admitted_ref: repository.admitted_ref.clone(),
                    admitted_ref_revision,
                    revision,
                    source_tree,
                    recipe_path: repository.recipe_path.clone(),
                    recipe_blob_sha256,
                    gitlinks,
                    selection,
                    selected_at_unix_millis,
                },
                recipe_bytes,
            },
        )
    }
}

/// The paths of a submodule's pointers, seen from the tree that it lies in.
pub open spec fn paths_below(path: Seq<char>, relative: Seq<Seq<char>>) -> Seq<Seq<char>> {
    Seq::new(relative.len(), |i: int| joined(path, relative[i]))
}

/// Settles the writing of a submodule, once its checkout is removed again: its pointers are
/// told by their paths from the tree that it lies in.
pub fn materialize_gitlink_raw(
    path: &str,
    pointers: &Result<Vec<String>, Refusal>,
    cleanup: &Result<(), Refusal>,
) -> (outcome: Result<Vec<String>, Refusal>)
    ensures
        match (*pointers, *cleanup) {
            (Err(refusal), _) => outcome matches Err(same) && same@ == refusal@,
            (Ok(_), Err(cause)) => outcome matches Err(refusal) && refusal@ == behind(
                "cleaning exact Gitlink checkout"@,
                cause@,
            ),
            (Ok(relative), Ok(())) => outcome matches Ok(paths) && texts(paths@) == paths_below(
                path@,
                texts(relative@),
            ),
        },
{
    match (pointers, cleanup) {
        (Err(refusal), _) => Err(Refusal { text: refusal.text.clone() }),
        (Ok(_), Err(cause)) => Err(refuse_behind("cleaning exact Gitlink checkout", cause)),
        (Ok(relative), Ok(())) => {
            let ghost owed = paths_below(path@, texts(relative@));
            let mut paths: Vec<String> = Vec::new();
            let mut i: usize = 0;
            assert(texts(paths@) =~= owed.take(0));
            while i < relative.len()
                invariant
                    i <= relative@.len(),
                    owed == paths_below(path@, texts(relative@)),
                    texts(paths@) == owed.take(i as int),
                decreases relative@.len() - i,
            {
                crate::text::push_text(&mut paths, join(path, relative[i].as_str()));
                i += 1;
                assert(owed.take(i as int) =~= owed.take(i - 1).push(owed[i - 1]));
            }
            assert(owed.take(i as int) =~= owed);
            Ok(paths)
        },
    }
}

/// A source that was resolved holds the recipe that its facts name, so that it is admitted
/// again wherever its facts are and its recipe says something.
pub proof fn a_resolved_source_names_its_recipe(recipe: Seq<u8>)
    requires
        recipe.len() > 0,
    ensures
        recipe_refusal(recipe, digest_id(recipe)) is None,
{
}

/// What was frozen for a transaction can be cleaned up by its receipt, and by no receipt of
/// another transaction.
pub proof fn a_receipt_cleans_up_its_own_transaction(
    transaction_id: Seq<char>,
    receipt: FrozenSourceReceipt,
    plan: Result<(), Refusal>,
    plan_id: Seq<char>,
)
    requires
        receipt.refusal(plan, plan_id) is None,
    ensures
        cleanup_refusal(receipt.transaction_id@, Some(receipt)) is None,
        transaction_id != receipt.transaction_id@ ==> cleanup_refusal(
            transaction_id,
            Some(receipt),
        ) is Some,
{
}

} // verus!
