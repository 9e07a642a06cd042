//! Which source a target is built from: the revision that is selected, the recipe and the
//! submodules of its tree, and how Git is asked for them.
use vstd::prelude::*;

use crate::binding::{GitlinkBinding, RepositoryBinding, SourceSelectionPolicy};
use crate::digest::{driver_id_refusal, git_sha_refusal, require_driver_id, require_git_sha};
use crate::gittree::{entry_views, GitTreeEntry, GitTreeEntryView};
use crate::paths::{is_same_path, same_path};
use crate::text::{cat4, check, either, judged, refuse, same_bytes, same_text, unless, Refusal};

verus! {

/// How the revision of a source was selected.
#[derive(Clone, Copy, Debug, PartialEq, Eq, Structural)]
pub enum SourceSelection {
    PinnedObject,
    RefHead,
}

/// The revision of a submodule and whence it is fetched.
#[derive(Clone, Debug, PartialEq, Eq)]
pub struct GitlinkTreeFact {
    pub path: String,
    pub origin: String,
    pub revision: String,
}

/// What `GitlinkTreeFact` holds.
#[verifier::ext_equal]
pub struct GitlinkTreeFactView {
    pub path: Seq<char>,
    pub origin: Seq<char>,
    pub revision: Seq<char>,
}

impl View for GitlinkTreeFact {
    type V = GitlinkTreeFactView;

    open spec fn view(&self) -> GitlinkTreeFactView {
        GitlinkTreeFactView {
            path: self.path@,
            origin: self.origin@,
            revision: self.revision@,
        }
    }
}

/// What each fact of a list holds.
pub open spec fn fact_views(list: Seq<GitlinkTreeFact>) -> Seq<GitlinkTreeFactView> {
    Seq::new(list.len(), |i: int| list[i]@)
}

/// The repository, as far as a revision of it is fetched and frozen.
#[derive(Clone, Debug, PartialEq, Eq)]
pub struct ExactSource {
    pub origin: String,
    pub checkout: String,
    pub gitlinks: Vec<GitlinkBinding>,
    pub recipe_path: String,
}

/// Whether a source is that of a repository.
pub open spec fn source_of(source: ExactSource, repository: RepositoryBinding) -> bool {
    &&& source.origin@ == repository.origin@
    &&& source.checkout@ == repository.checkout@
    &&& links_of(source.gitlinks@) == links_of(repository.gitlinks@)
    &&& source.recipe_path@ == repository.recipe_path@
}

/// What bound submodules hold.
pub open spec fn links_of(list: Seq<GitlinkBinding>) -> Seq<(Seq<char>, Seq<char>)> {
    Seq::new(list.len(), |i: int| (list[i].path@, list[i].origin@))
}

/// The source of a repository, without what an operator decides about it.
pub fn exact_source_from(repository: &RepositoryBinding) -> (source: ExactSource)
    ensures
        source_of(source, *repository),
{
    let mut gitlinks: Vec<GitlinkBinding> = Vec::new();
    let ghost owed = links_of(repository.gitlinks@);
    let mut i: usize = 0;
    assert(links_of(gitlinks@) =~= owed.take(0));
    while i < repository.gitlinks.len()
        invariant
            i <= repository.gitlinks@.len(),
            owed == links_of(repository.gitlinks@),
            links_of(gitlinks@) == owed.take(i as int),
        decreases repository.gitlinks@.len() - i,
    {
        let ghost earlier = links_of(gitlinks@);
        let copy = GitlinkBinding {
            path: repository.gitlinks[i].path.clone(),
            origin: repository.gitlinks[i].origin.clone(),
        };
        let ghost view = (copy.path@, copy.origin@);
        gitlinks.push(copy);
        i += 1;
        assert(links_of(gitlinks@) =~= earlier.push(view));
        assert(links_of(gitlinks@) =~= owed.take(i as int));
    }
    assert(owed.take(i as int) =~= owed);
    ExactSource {
        origin: repository.origin.clone(),
        checkout: repository.checkout.clone(),
        gitlinks,
        recipe_path: repository.recipe_path.clone(),
    }
}

/// The ref that a resolution fetches to, or why there is none.
pub open spec fn resolution_ref(target: Seq<char>, resolution_id: Seq<char>) -> Result<
    Seq<char>,
    Seq<char>,
> {
    match driver_id_refusal(resolution_id, "source resolution"@) {
        Some(w) => Err(w),
        None => Ok("refs/idunn/resolutions/"@ + target + "/"@ + resolution_id),
    }
}

/// The ref that a resolution fetches to.
pub fn admitted_ref_name(target: &str, resolution_id: &str) -> (outcome: Result<String, Refusal>)
    ensures
        crate::clock::written(outcome, resolution_ref(target@, resolution_id@)),
{
    require_driver_id(resolution_id, "source resolution")?;
    Ok(cat4("refs/idunn/resolutions/", target, "/", resolution_id))
}

/// The revision that a policy selects, or why it selects none.
pub open spec fn selected_revision(
    policy: SourceSelectionPolicy,
    pinned: Option<String>,
    admitted: Seq<char>,
) -> Result<(Seq<char>, SourceSelection), Seq<char>> {
    let chosen = match policy {
        SourceSelectionPolicy::PinnedObject => match pinned {
            Some(revision) => Ok((revision@, SourceSelection::PinnedObject)),
            None => Err("pinned source binding lost its exact revision"@),
        },
        SourceSelectionPolicy::RefHead => Ok((admitted, SourceSelection::RefHead)),
        SourceSelectionPolicy::SignedRelease => Err(
            "signed-release selection requires a release-authority source port"@,
        ),
    };
    match chosen {
        Err(w) => Err(w),
        Ok((revision, selection)) => match git_sha_refusal(
            revision,
            "selected source revision"@,
        ) {
            Some(w) => Err(w),
            None => Ok((revision, selection)),
        },
    }
}

/// Selects the revision of a repository. That it lies between the minimum revision and the
/// admitted ref is then asked of Git.
pub fn resolve_selected_revision(
    repository: &RepositoryBinding,
    admitted_ref_revision: &str,
) -> (outcome: Result<(String, SourceSelection), Refusal>)
    ensures
        match (
            outcome,
            selected_revision(
                repository.selection,
                repository.pinned_revision,
                admitted_ref_revision@,
            ),
        ) {
            (Ok(found), Ok(owed)) => found.0@ == owed.0 && found.1 == owed.1,
            (Err(refusal), Err(w)) => refusal@ == w,
            _ => false,
        },
{
    let (revision, selection) = match repository.selection {
        SourceSelectionPolicy::PinnedObject => match &repository.pinned_revision {
            Some(revision) => (revision.clone(), SourceSelection::PinnedObject),
            None => return Err(refuse("pinned source binding lost its exact revision")),
        },
        SourceSelectionPolicy::RefHead => (
            admitted_ref_revision.to_owned(),
            SourceSelection::RefHead,
        ),
        SourceSelectionPolicy::SignedRelease => return Err(
            refuse("signed-release selection requires a release-authority source port"),
        ),
    };
    require_git_sha(revision.as_str(), "selected source revision")?;
    Ok((revision, selection))
}

/// Whether an entry is the first with a path.
pub open spec fn first_at(entries: Seq<GitTreeEntryView>, path: Seq<char>, i: int) -> bool {
    &&& 0 <= i < entries.len()
    &&& same_path(entries[i].path, path)
    &&& forall|j: int| 0 <= j < i ==> !same_path(#[trigger] entries[j].path, path)
}

/// Whether a tree has an entry at a path.
pub open spec fn has_entry(entries: Seq<GitTreeEntryView>, path: Seq<char>) -> bool {
    exists|i: int| 0 <= i < entries.len() && same_path(#[trigger] entries[i].path, path)
}

/// Whether an entry is a regular file.
pub open spec fn regular_blob(entry: GitTreeEntryView) -> bool {
    (entry.mode == "100644"@ || entry.mode == "100755"@) && entry.kind == "blob"@
}

/// The object that the recipe of a tree is.
pub fn recipe_object(entries: &Vec<GitTreeEntry>, recipe_path: &str) -> (outcome: Result<
    String,
    Refusal,
>)
    ensures
        match outcome {
            Ok(object) => exists|i: int|
                #[trigger] first_at(entry_views(entries@), recipe_path@, i) && regular_blob(
                    entries@[i]@,
                ) && object@ == entries@[i]@.object,
            Err(refusal) => if has_entry(entry_views(entries@), recipe_path@) {
                refusal@ == "deployment recipe is not a regular Git blob"@ && exists|i: int|
                    #[trigger] first_at(entry_views(entries@), recipe_path@, i) && !regular_blob(
                        entries@[i]@,
                    )
            } else {
                refusal@ == "selected tree has no deployment recipe"@
            },
        },
{
    let ghost all = entry_views(entries@);
    let mut i: usize = 0;
    while i < entries.len()
        invariant
            i <= entries@.len(),
            all == entry_views(entries@),
            forall|j: int| 0 <= j < i ==> !same_path(#[trigger] all[j].path, recipe_path@),
        decreases entries@.len() - i,
    {
        assert(all[i as int] == entries@[i as int]@);
        let entry = &entries[i];
        if is_same_path(entry.path.as_str(), recipe_path) {
            assert(first_at(all, recipe_path@, i as int));
            let regular = (same_text(entry.mode.as_str(), "100644") || same_text(
                entry.mode.as_str(),
                "100755",
            )) && same_text(entry.kind.as_str(), "blob");
            if regular {
                return Ok(entry.object.clone());
            }
            return Err(refuse("deployment recipe is not a regular Git blob"));
        }
        i += 1;
    }
    Err(refuse("selected tree has no deployment recipe"))
}

/// Admits the recipe of a tree: it says something.
pub fn admit_recipe(recipe: &Vec<u8>) -> (outcome: Result<(), Refusal>)
    ensures
        judged(outcome, unless(recipe@.len() > 0, "selected deployment recipe is empty"@)),
{
    check(recipe.len() > 0, "selected deployment recipe is empty")
}

/// The submodules of a tree's first entries, or why they are refused.
pub open spec fn gitlinks_in(entries: Seq<GitTreeEntryView>) -> Result<
    Seq<GitTreeEntryView>,
    Seq<char>,
>
    decreases entries.len(),
{
    if entries.len() == 0 {
        Ok(Seq::empty())
    } else {
        match gitlinks_in(entries.drop_last()) {
            Err(w) => Err(w),
            Ok(earlier) => if entries.last().mode != "160000"@ {
                Ok(earlier)
            } else if entries.last().kind != "commit"@ {
                Err("Gitlink has the wrong object kind"@)
            } else {
                Ok(earlier.push(entries.last()))
            },
        }
    }
}

proof fn lemma_gitlinks_fail(entries: Seq<GitTreeEntryView>, n: int)
    requires
        0 <= n <= entries.len(),
        gitlinks_in(entries.take(n)) is Err,
    ensures
        gitlinks_in(entries) == gitlinks_in(entries.take(n)),
    decreases entries.len() - n,
{
    if n < entries.len() {
        assert(entries.take(n + 1).drop_last() =~= entries.take(n));
        lemma_gitlinks_fail(entries, n + 1);
    } else {
        assert(entries.take(n) =~= entries);
    }
}

/// Whether a submodule is bound.
pub open spec fn is_bound(path: Seq<char>, bound: Seq<(Seq<char>, Seq<char>)>) -> bool {
    exists|i: int| 0 <= i < bound.len() && same_path(path, (#[trigger] bound[i]).0)
}

/// Whether a bound submodule is in a tree.
pub open spec fn is_linked(path: Seq<char>, found: Seq<GitTreeEntryView>) -> bool {
    exists|i: int| 0 <= i < found.len() && same_path(path, (#[trigger] found[i]).path)
}

/// Whether the submodules of a tree are exactly those that are bound.
pub open spec fn exactly_bound(
    found: Seq<GitTreeEntryView>,
    bound: Seq<(Seq<char>, Seq<char>)>,
) -> bool {
    &&& forall|i: int| 0 <= i < found.len() ==> is_bound((#[trigger] found[i]).path, bound)
    &&& forall|i: int| 0 <= i < bound.len() ==> is_linked((#[trigger] bound[i]).0, found)
}

/// Whether a binding is the first for a path.
pub open spec fn first_bound(bound: Seq<(Seq<char>, Seq<char>)>, path: Seq<char>, i: int) -> bool {
    &&& 0 <= i < bound.len()
    &&& same_path(path, bound[i].0)
    &&& forall|j: int| 0 <= j < i ==> !same_path(path, (#[trigger] bound[j]).0)
}

/// Whether facts say of each submodule its revision in the tree and its bound origin.
pub open spec fn facts_of(
    facts: Seq<GitlinkTreeFactView>,
    found: Seq<GitTreeEntryView>,
    bound: Seq<(Seq<char>, Seq<char>)>,
) -> bool {
    &&& facts.len() == found.len()
    &&& forall|i: int|
        0 <= i < found.len() ==> (#[trigger] facts[i]).path == found[i].path && facts[i].revision
            == found[i].object && exists|k: int|
            #[trigger] first_bound(bound, found[i].path, k) && facts[i].origin == bound[k].1
}

fn find_bound(path: &str, bound: &Vec<GitlinkBinding>) -> (place: Option<usize>)
    ensures
        match place {
            Some(i) => first_bound(links_of(bound@), path@, i as int),
            None => !is_bound(path@, links_of(bound@)),
        },
{
    let ghost all = links_of(bound@);
    let mut i: usize = 0;
    while i < bound.len()
        invariant
            i <= bound@.len(),
            all == links_of(bound@),
            forall|j: int| 0 <= j < i ==> !same_path(path@, (#[trigger] all[j]).0),
        decreases bound@.len() - i,
    {
        assert(all[i as int].0 == bound@[i as int].path@);
        if is_same_path(path, bound[i].path.as_str()) {
            return Some(i);
        }
        i += 1;
    }
    None
}

fn find_linked(path: &str, found: &Vec<GitTreeEntry>) -> (is: bool)
    ensures
        is == is_linked(path@, entry_views(found@)),
{
    let ghost all = entry_views(found@);
    let mut i: usize = 0;
    while i < found.len()
        invariant
            i <= found@.len(),
            all == entry_views(found@),
            forall|j: int| 0 <= j < i ==> !same_path(path@, (#[trigger] all[j]).path),
        decreases found@.len() - i,
    {
        assert(all[i as int] == found@[i as int]@);
        if is_same_path(path, found[i].path.as_str()) {
            return true;
        }
        i += 1;
    }
    false
}

fn read_gitlinks(entries: &Vec<GitTreeEntry>) -> (outcome: Result<Vec<GitTreeEntry>, Refusal>)
    ensures
        match (outcome, gitlinks_in(entry_views(entries@))) {
            (Ok(list), Ok(owed)) => entry_views(list@) == owed,
            (Err(refusal), Err(w)) => refusal@ == w,
            _ => false,
        },
{
    let ghost all = entry_views(entries@);
    let mut list: Vec<GitTreeEntry> = Vec::new();
    let mut i: usize = 0;
    proof {
        assert(all.take(0) =~= Seq::<GitTreeEntryView>::empty());
        assert(entry_views(list@) =~= Seq::<GitTreeEntryView>::empty());
    }
    while i < entries.len()
        invariant
            i <= entries@.len(),
            all == entry_views(entries@),
            gitlinks_in(all.take(i as int)) == Ok::<Seq<GitTreeEntryView>, Seq<char>>(
                entry_views(list@),
            ),
        decreases entries@.len() - i,
    {
        proof {
            assert(all.take(i + 1).drop_last() =~= all.take(i as int));
            assert(all.take(i + 1).last() == entries@[i as int]@);
        }
        let entry = &entries[i];
        if same_text(entry.mode.as_str(), "160000") {
            if !same_text(entry.kind.as_str(), "commit") {
                proof {
                    lemma_gitlinks_fail(all, i + 1);
                }
                return Err(refuse("Gitlink has the wrong object kind"));
            }
            let ghost earlier = list@;
            let copy = GitTreeEntry {
                mode: entry.mode.clone(),
                kind: entry.kind.clone(),
                object: entry.object.clone(),
                path: entry.path.clone(),
            };
            let ghost view = copy@;
            list.push(copy);
            assert(entry_views(list@) =~= entry_views(earlier).push(view));
        }
        i += 1;
    }
    assert(all.take(i as int) =~= all);
    Ok(list)
}

/// The submodules of a tree, which must be exactly those that the operator bound.
pub fn gitlink_facts(entries: &Vec<GitTreeEntry>, bound: &Vec<GitlinkBinding>) -> (outcome: Result<
    Vec<GitlinkTreeFact>,
    Refusal,
>)
    ensures
        match gitlinks_in(entry_views(entries@)) {
            Err(w) => outcome matches Err(refusal) && refusal@ == w,
            Ok(found) => if exactly_bound(found, links_of(bound@)) {
                outcome matches Ok(facts) && facts_of(
                    fact_views(facts@),
                    found,
                    links_of(bound@),
                )
            } else {
                outcome matches Err(refusal) && refusal@
                    == "selected tree Gitlinks do not exactly match operator bindings"@
            },
        },
{
    let found = read_gitlinks(entries)?;
    let ghost seen = entry_views(found@);
    let ghost links = links_of(bound@);
    let mut k: usize = 0;
    while k < bound.len()
        invariant
            k <= bound@.len(),
            seen == entry_views(found@),
            links == links_of(bound@),
            gitlinks_in(entry_views(entries@)) == Ok::<Seq<GitTreeEntryView>, Seq<char>>(seen),
            forall|j: int| 0 <= j < k ==> is_linked((#[trigger] links[j]).0, seen),
        decreases bound@.len() - k,
    {
        assert(links[k as int].0 == bound@[k as int].path@);
        if !find_linked(bound[k].path.as_str(), &found) {
            return Err(
                refuse("selected tree Gitlinks do not exactly match operator bindings"),
            );
        }
        k += 1;
    }
    let mut facts: Vec<GitlinkTreeFact> = Vec::new();
    let mut i: usize = 0;
    while i < found.len()
        invariant
            i <= found@.len(),
            seen == entry_views(found@),
            links == links_of(bound@),
            gitlinks_in(entry_views(entries@)) == Ok::<Seq<GitTreeEntryView>, Seq<char>>(seen),
            forall|j: int| 0 <= j < links.len() ==> is_linked((#[trigger] links[j]).0, seen),
            forall|j: int| 0 <= j < i ==> is_bound((#[trigger] seen[j]).path, links),
            facts@.len() == i,
            facts_of(fact_views(facts@), seen.take(i as int), links),
        decreases found@.len() - i,
    {
        assert(seen[i as int] == found@[i as int]@);
        match find_bound(found[i].path.as_str(), bound) {
            None => {
                return Err(
                    refuse("selected tree Gitlinks do not exactly match operator bindings"),
                );
            },
            Some(place) => {
                let ghost earlier = fact_views(facts@);
                let fact = GitlinkTreeFact {
                    path: found[i].path.clone(),
                    origin: bound[place].origin.clone(),
                    revision: found[i].object.clone(),
                };
                let ghost view = fact@;
                facts.push(fact);
                proof {
                    assert(fact_views(facts@) =~= earlier.push(view));
                    assert(first_bound(links, seen[i as int].path, place as int));
                    assert(view.origin == links[place as int].1);
                    assert forall|j: int| 0 <= j < i + 1 implies (#[trigger] fact_views(
                        facts@,
                    )[j]).path == seen.take(i + 1)[j].path && fact_views(facts@)[j].revision
                        == seen.take(i + 1)[j].object && exists|m: int|
                        #[trigger] first_bound(links, seen.take(i + 1)[j].path, m) && fact_views(
                            facts@,
                        )[j].origin == links[m].1 by {
                        if j < i {
                            assert(fact_views(facts@)[j] == earlier[j]);
                            assert(seen.take(i as int)[j] == seen[j]);
                        }
                    }
                }
            },
        }
        i += 1;
    }
    assert(seen.take(i as int) =~= seen);
    Ok(facts)
}

/// Whether a tree holds a submodule.
pub open spec fn holds_gitlink(entries: Seq<GitTreeEntryView>) -> bool {
    exists|i: int| 0 <= i < entries.len() && (#[trigger] entries[i]).mode == "160000"@
}

/// The submodules of a selected tree, once its recipe is found, read and not empty.
pub fn exact_recipe_and_gitlinks(
    entries: &Vec<GitTreeEntry>,
    recipe_path: &str,
    recipe: &Result<Vec<u8>, Refusal>,
    bound: &Vec<GitlinkBinding>,
) -> (outcome: Result<Vec<GitlinkTreeFact>, Refusal>)
    ensures
        match outcome {
            Ok(facts) => {
                &&& exists|i: int|
                    #[trigger] first_at(entry_views(entries@), recipe_path@, i) && regular_blob(
                        entries@[i]@,
                    )
                &&& *recipe matches Ok(bytes) && bytes@.len() > 0
                &&& gitlinks_in(entry_views(entries@)) matches Ok(found) && exactly_bound(
                    found,
                    links_of(bound@),
                ) && facts_of(fact_views(facts@), found, links_of(bound@))
            },
            Err(refusal) => if !has_entry(entry_views(entries@), recipe_path@) {
                refusal@ == "selected tree has no deployment recipe"@
            } else if exists|i: int|
                #[trigger] first_at(entry_views(entries@), recipe_path@, i) && !regular_blob(
                    entries@[i]@,
                ) {
                refusal@ == "deployment recipe is not a regular Git blob"@
            } else {
                match *recipe {
                    Err(unread) => refusal@ == unread@,
                    Ok(bytes) => if bytes@.len() == 0 {
                        refusal@ == "selected deployment recipe is empty"@
                    } else {
                        match gitlinks_in(entry_views(entries@)) {
                            Err(w) => refusal@ == w,
                            Ok(found) => refusal@
                                == "selected tree Gitlinks do not exactly match operator bindings"@
                                && !exactly_bound(found, links_of(bound@)),
                        }
                    },
                }
            },
        },
{
    let ghost all = entry_views(entries@);
    let _ = recipe_object(entries, recipe_path)?;
    proof {
        let k = choose|i: int|
            #[trigger] first_at(all, recipe_path@, i) && regular_blob(entries@[i]@);
        assert(has_entry(all, recipe_path@)) by {
            assert(same_path(all[k].path, recipe_path@));
        }
        assert forall|i: int| #[trigger] first_at(all, recipe_path@, i) implies regular_blob(
            entries@[i]@,
        ) by {
            if i < k {
                assert(!same_path(all[i].path, recipe_path@));
            } else if k < i {
                assert(!same_path(all[k].path, recipe_path@));
            }
        }
    }
    match recipe {
        Err(refusal) => return Err(Refusal { text: refusal.text.clone() }),
        Ok(bytes) => admit_recipe(bytes)?,
    }
    gitlink_facts(entries, bound)
}

/// Admits the tree of a submodule: the recorded revision, and no submodule of its own.
pub fn admit_gitlink_tree(actual: &str, revision: &str, entries: &Vec<GitTreeEntry>) -> (outcome:
    Result<(), Refusal>)
    ensures
        judged(
            outcome,
            either(
                unless(actual@ == revision@, "Gitlink exact revision is absent"@),
                unless(
                    !holds_gitlink(entry_views(entries@)),
                    "nested Gitlinks are not admitted in Idunn v1"@,
                ),
            ),
        ),
{
    check(same_text(actual, revision), "Gitlink exact revision is absent")?;
    let ghost all = entry_views(entries@);
    let mut i: usize = 0;
    while i < entries.len()
        invariant
            i <= entries@.len(),
            all == entry_views(entries@),
            actual@ == revision@,
            forall|j: int| 0 <= j < i ==> (#[trigger] all[j]).mode != "160000"@,
        decreases entries@.len() - i,
    {
        assert(all[i as int] == entries@[i as int]@);
        if same_text(entries[i].mode.as_str(), "160000") {
            return Err(refuse("nested Gitlinks are not admitted in Idunn v1"));
        }
        i += 1;
    }
    Ok(())
}

/// Whether two lists of submodule facts are the same.
pub fn same_facts(a: &Vec<GitlinkTreeFact>, b: &Vec<GitlinkTreeFact>) -> (same: bool)
    ensures
        same == (fact_views(a@) == fact_views(b@)),
{
    let ghost x = fact_views(a@);
    let ghost y = fact_views(b@);
    if a.len() != b.len() {
        assert(x.len() != y.len());
        return false;
    }
    let mut i: usize = 0;
    while i < a.len()
        invariant
            i <= a@.len(),
            a@.len() == b@.len(),
            x == fact_views(a@),
            y == fact_views(b@),
            forall|j: int| 0 <= j < i ==> #[trigger] x[j] == y[j],
        decreases a@.len() - i,
    {
        let paths = same_text(a[i].path.as_str(), b[i].path.as_str());
        let origins = same_text(a[i].origin.as_str(), b[i].origin.as_str());
        let revisions = same_text(a[i].revision.as_str(), b[i].revision.as_str());
        if !(paths && origins && revisions) {
            assert(x[i as int] != y[i as int]);
            return false;
        }
        i += 1;
    }
    assert(x =~= y);
    true
}

/// Why a revision is no longer the source that was resolved, if so.
pub open spec fn exactness_refusal(
    actual_tree: Seq<char>,
    source_tree: Seq<char>,
    recipe: Seq<u8>,
    resolved_recipe: Seq<u8>,
    gitlinks: Seq<GitlinkTreeFactView>,
    resolved_gitlinks: Seq<GitlinkTreeFactView>,
) -> Option<Seq<char>> {
    either(
        unless(
            actual_tree == source_tree,
            "selected revision no longer resolves to the frozen source tree"@,
        ),
        either(
            unless(
                recipe == resolved_recipe,
                "selected recipe object differs from the durable source resolution"@,
            ),
            unless(
                gitlinks == resolved_gitlinks,
                "Gitlinks differ from the durable source resolution"@,
            ),
        ),
    )
}

/// Holds a revision against the source that was resolved.
pub fn verify_exact_source(
    actual_tree: &str,
    source_tree: &str,
    recipe: &Vec<u8>,
    resolved_recipe: &Vec<u8>,
    gitlinks: &Vec<GitlinkTreeFact>,
    resolved_gitlinks: &Vec<GitlinkTreeFact>,
) -> (outcome: Result<(), Refusal>)
    ensures
        judged(
            outcome,
            exactness_refusal(
                actual_tree@,
                source_tree@,
                recipe@,
                resolved_recipe@,
                fact_views(gitlinks@),
                fact_views(resolved_gitlinks@),
            ),
        ),
{
    check(
        same_text(actual_tree, source_tree),
        "selected revision no longer resolves to the frozen source tree",
    )?;
    check(
        same_bytes(recipe.as_slice(), resolved_recipe.as_slice()),
        "selected recipe object differs from the durable source resolution",
    )?;
    check(
        same_facts(gitlinks, resolved_gitlinks),
        "Gitlinks differ from the durable source resolution",
    )
}

} // verus!
