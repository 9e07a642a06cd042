//! The directories that the drivers keep: source authority, frozen sources, runtime
//! bundles, and the published projection.
use vstd::prelude::*;

use crate::authority::{
    authority_lock_path, lock_of, native_directory, native_file, root_directory, DirectoryStep,
    FileFacts,
};
use crate::digest::{driver_id_refusal, require_driver_id};
use crate::observation::ProcessIdentity;
use crate::paths::{
    absolute, below, components, components_of, is_absolute, is_below, is_same_path, join,
    join_components, joined, parent, parent_of, path_text, same_path,
};
use crate::text::{
    cat2, cat3, check, either, judged, push_text, refuse, same_text, texts, unless, Refusal,
};
use crate::watch::missed;

verus! {

/// A path and the mode that it gets.
#[derive(Clone, Debug, PartialEq, Eq)]
pub struct ModeChange {
    pub path: String,
    pub mode: u32,
}

/// What each change of a list holds.
pub open spec fn changes_of(list: Seq<ModeChange>) -> Seq<(Seq<char>, u32)> {
    Seq::new(list.len(), |i: int| (list[i].path@, list[i].mode))
}

/// Changes of modes in order, and why they end early, if so.
#[derive(Debug, PartialEq, Eq)]
pub struct ModePlan {
    pub changes: Vec<ModeChange>,
    pub refusal: Option<Refusal>,
}

fn push_change(list: &mut Vec<ModeChange>, path: String, mode: u32)
    ensures
        changes_of(final(list)@) == changes_of(old(list)@).push((path@, mode)),
{
    list.push(ModeChange { path, mode });
    assert(changes_of(list@) =~= changes_of(old(list)@).push((path@, mode)));
}

fn is_root_directory(f: &FileFacts) -> (is: bool)
    ensures
        is == root_directory(*f),
{
    f.is_dir && !f.is_symlink && f.uid == 0 && f.mode & 0o022 == 0
}

fn read_facts(reading: &Result<FileFacts, Refusal>) -> (outcome: Result<FileFacts, Refusal>)
    ensures
        judged(outcome, missed(*reading)),
        outcome matches Ok(f) ==> f == reading->Ok_0,
{
    match reading {
        Ok(f) => Ok(*f),
        Err(refusal) => Err(Refusal { text: refusal.text.clone() }),
    }
}

/// Why the owner of a source directory is refused, if so.
pub open spec fn owner_refusal(path: Seq<char>, f: FileFacts, expected: ProcessIdentity) -> Option<
    Seq<char>,
> {
    either(
        unless(
            f.uid == expected.uid && f.gid == expected.gid,
            "source authority directory "@ + path + " has the wrong owner"@,
        ),
        unless(
            f.mode & 0o200 != 0,
            "source authority directory "@ + path + " is not owner-writable"@,
        ),
    )
}

/// Admits the owner of a source directory: the configured identity, or that of the
/// process itself.
pub fn validate_source_directory_owner(
    path: &str,
    f: &FileFacts,
    identity: Option<ProcessIdentity>,
    own: ProcessIdentity,
) -> (outcome: Result<(), Refusal>)
    ensures
        judged(
            outcome,
            owner_refusal(
                path@,
                *f,
                match identity {
                    Some(i) => i,
                    None => own,
                },
            ),
        ),
{
    let expected = match identity {
        Some(i) => i,
        None => own,
    };
    let wrong = cat3("source authority directory ", path, " has the wrong owner");
    check(f.uid == expected.uid && f.gid == expected.gid, wrong.as_str())?;
    let closed = cat3("source authority directory ", path, " is not owner-writable");
    check(f.mode & 0o200 != 0, closed.as_str())
}

/// Why a source directory is refused, if it is. One that is absent is created where its
/// parent is there, and its owner then judged.
pub open spec fn source_directory_refusal(
    path: Seq<char>,
    found: Result<Option<FileFacts>, Refusal>,
    parent_is_directory: bool,
    expected: ProcessIdentity,
) -> Option<Seq<char>> {
    match found {
        Err(refusal) => Some(refusal@),
        Ok(Some(f)) => either(
            unless(
                native_directory(f),
                "source authority path "@ + path + " is not a native directory"@,
            ),
            owner_refusal(path, f, expected),
        ),
        Ok(None) => match parent(path) {
            None => Some("source authority directory has no parent"@),
            Some(above) => unless(
                parent_is_directory,
                "source authority parent "@ + above + " is absent"@,
            ),
        },
    }
}

/// Admits a source directory, or has it created for its identity with mode 0750.
pub fn ensure_source_directory(
    path: &str,
    found: &Result<Option<FileFacts>, Refusal>,
    parent_is_directory: bool,
    identity: Option<ProcessIdentity>,
    own: ProcessIdentity,
) -> (outcome: Result<DirectoryStep, Refusal>)
    ensures
        judged(
            outcome,
            source_directory_refusal(
                path@,
                *found,
                parent_is_directory,
                match identity {
                    Some(i) => i,
                    None => own,
                },
            ),
        ),
        outcome matches Ok(step) ==> (step is Create <==> found->Ok_0 is None),
{
    match found {
        Err(refusal) => Err(Refusal { text: refusal.text.clone() }),
        Ok(Some(f)) => {
            let words = cat3("source authority path ", path, " is not a native directory");
            check(f.is_dir && !f.is_symlink, words.as_str())?;
            validate_source_directory_owner(path, f, identity, own)?;
            Ok(DirectoryStep::Keep)
        },
        Ok(None) => match parent_of(path) {
            None => Err(refuse("source authority directory has no parent")),
            Some(above) => {
                let words = cat3("source authority parent ", above.as_str(), " is absent");
                check(parent_is_directory, words.as_str())?;
                Ok(DirectoryStep::Create)
            },
        },
    }
}

/// How many components stand before the first that is no name.
pub open spec fn leading_names(parts: Seq<Seq<char>>) -> nat
    decreases parts.len(),
{
    if parts.len() == 0 {
        0
    } else {
        let earlier = leading_names(parts.drop_last());
        if earlier == parts.len() - 1 && parts.last() != "."@ && parts.last() != ".."@ {
            parts.len()
        } else {
            earlier
        }
    }
}

proof fn lemma_leading_names(parts: Seq<Seq<char>>, n: int)
    requires
        0 <= n < parts.len(),
        leading_names(parts.take(n)) == n,
        parts[n] == "."@ || parts[n] == ".."@,
    ensures
        leading_names(parts) == n,
    decreases parts.len(),
{
    if n == parts.len() - 1 {
        assert(parts.take(n) =~= parts.drop_last());
    } else {
        assert(parts.drop_last().take(n) =~= parts.take(n));
        lemma_leading_names(parts.drop_last(), n);
    }
}

/// A root continued by the first of some components.
pub open spec fn continued(root: Seq<char>, parts: Seq<Seq<char>>) -> Seq<char>
    decreases parts.len(),
{
    if parts.len() == 0 {
        root
    } else {
        joined(continued(root, parts.drop_last()), parts.last())
    }
}

/// Directories in order, and why they end early, if so.
#[derive(Debug, PartialEq, Eq)]
pub struct DirectoryPlan {
    pub directories: Vec<String>,
    pub refusal: Option<Refusal>,
}

/// The directories from a root down to one below it, in order, up to the first component
/// that is no name.
pub open spec fn directories_down(root: Seq<char>, directory: Seq<char>) -> (
    Seq<Seq<char>>,
    Option<Seq<char>>,
) {
    let rest = components(directory).skip(components(root).len() as int);
    if !below(directory, root) {
        (Seq::empty(), Some("source directory escaped Idunn's source authority root"@))
    } else {
        (
            Seq::new(leading_names(rest) + 1, |i: int| continued(root, rest.take(i))),
            unless(leading_names(rest) == rest.len(), "source directory is not normalized"@),
        )
    }
}

/// The directories that must be there, from a source root down, in order.
pub fn ensure_source_directory_tree(root: &str, directory: &str) -> (plan: DirectoryPlan)
    ensures
        (texts(plan.directories@), crate::deeds::ending(plan.refusal)) == directories_down(
            root@,
            directory@,
        ),
{
    let mut list: Vec<String> = Vec::new();
    assert(texts(list@) =~= Seq::<Seq<char>>::empty());
    if !is_below(directory, root) {
        return DirectoryPlan {
            directories: list,
            refusal: Some(refuse("source directory escaped Idunn's source authority root")),
        };
    }
    let parts = components_of(directory);
    let above = components_of(root);
    let ghost all = components(directory@);
    let ghost n = components(root@).len() as int;
    let ghost rest = all.skip(n);
    assert(texts(parts@) == all && texts(above@) == components(root@));
    assert(above@.len() == n);
    push_text(&mut list, root.to_owned());
    let mut current: String = root.to_owned();
    let mut i: usize = above.len();
    proof {
        assert(rest.take(0) =~= Seq::<Seq<char>>::empty());
        assert(texts(list@) =~= Seq::new(1, |i: int| continued(root@, rest.take(i))));
    }
    while i < parts.len()
        invariant
            above@.len() == n,
            n <= i <= parts@.len(),
            texts(parts@) == all,
            rest == all.skip(n),
            all == components(directory@),
            n == components(root@).len(),
            below(directory@, root@),
            leading_names(rest.take(i - n)) == i - n,
            current@ == continued(root@, rest.take(i - n)),
            texts(list@) == Seq::new(
                (i - n + 1) as nat,
                |i: int| continued(root@, rest.take(i)),
            ),
        decreases parts@.len() - i,
    {
        assert(rest[i - n] == parts@[i as int]@);
        let part = parts[i].as_str();
        if same_text(part, ".") || same_text(part, "..") {
            proof {
                lemma_leading_names(rest, i - n);
            }
            return DirectoryPlan {
                directories: list,
                refusal: Some(refuse("source directory is not normalized")),
            };
        }
        let next = join(current.as_str(), part);
        assert(rest.take(i - n + 1).drop_last() =~= rest.take(i - n));
        assert(rest.take(i - n + 1).last() == rest[i - n]);
        push_text(&mut list, next.clone());
        current = next;
        i += 1;
        assert(texts(list@) =~= Seq::new(
            (i - n + 1) as nat,
            |i: int| continued(root@, rest.take(i)),
        ));
    }
    assert(rest.take(i - n) =~= rest);
    DirectoryPlan { directories: list, refusal: None }
}

/// Why a store of frozen sources is refused, if it is.
pub open spec fn store_refusal(
    store: Seq<char>,
    canonical: Result<String, Refusal>,
    found: Result<FileFacts, Refusal>,
) -> Option<Seq<char>> {
    either(
        unless(absolute(store), "frozen source store is not absolute"@),
        either(
            missed(canonical),
            either(
                unless(
                    same_path(canonical->Ok_0@, store),
                    "frozen source store traverses a symlink or noncanonical path"@,
                ),
                either(
                    missed(found),
                    unless(
                        root_directory(found->Ok_0),
                        "frozen source store is not root-owned and nonwritable"@,
                    ),
                ),
            ),
        ),
    )
}

/// Admits a store of frozen sources.
pub fn validate_frozen_source_store(
    store: &str,
    canonical: &Result<String, Refusal>,
    found: &Result<FileFacts, Refusal>,
) -> (outcome: Result<(), Refusal>)
    ensures
        judged(outcome, store_refusal(store@, *canonical, *found)),
{
    check(is_absolute(store), "frozen source store is not absolute")?;
    match canonical {
        Err(refusal) => return Err(Refusal { text: refusal.text.clone() }),
        Ok(path) => check(
            is_same_path(path.as_str(), store),
            "frozen source store traverses a symlink or noncanonical path",
        )?,
    }
    let f = read_facts(found)?;
    check(is_root_directory(&f), "frozen source store is not root-owned and nonwritable")
}

/// Where a transaction keeps its frozen source, or why there is no such place.
pub open spec fn transaction_place(
    store: Seq<char>,
    transaction_id: Seq<char>,
    canonical: Result<String, Refusal>,
    found: Result<FileFacts, Refusal>,
) -> Result<Seq<char>, Seq<char>> {
    match either(
        driver_id_refusal(transaction_id, "source transaction"@),
        store_refusal(store, canonical, found),
    ) {
        Some(w) => Err(w),
        None => Ok(joined(store, transaction_id)),
    }
}

/// Where a transaction keeps its frozen source. What is there already is removed first,
/// and the place made anew with mode 0700.
pub fn prepare_frozen_transaction_root(
    store: &str,
    transaction_id: &str,
    canonical: &Result<String, Refusal>,
    found: &Result<FileFacts, Refusal>,
) -> (outcome: Result<String, Refusal>)
    ensures
        crate::clock::written(
            outcome,
            transaction_place(store@, transaction_id@, *canonical, *found),
        ),
{
    require_driver_id(transaction_id, "source transaction")?;
    validate_frozen_source_store(store, canonical, found)?;
    Ok(join(store, transaction_id))
}

/// Why what a transaction keeps may not be removed, if so.
pub open spec fn transaction_removal_refusal(found: Result<FileFacts, Refusal>) -> Option<
    Seq<char>,
> {
    either(
        missed(found),
        unless(
            root_directory(found->Ok_0),
            "frozen source transaction root is not Idunn-owned"@,
        ),
    )
}

/// Admits the removal of what a transaction keeps.
pub fn remove_frozen_transaction_root(found: &Result<FileFacts, Refusal>) -> (outcome: Result<
    (),
    Refusal,
>)
    ensures
        judged(outcome, transaction_removal_refusal(*found)),
{
    let f = read_facts(found)?;
    check(is_root_directory(&f), "frozen source transaction root is not Idunn-owned")
}

/// The directory that a frozen source is made in, or why it may not be.
pub open spec fn destination_parent(destination: Seq<char>) -> Result<Seq<char>, Seq<char>> {
    if !absolute(destination) {
        Err("frozen source destination is not absolute"@)
    } else {
        match parent(destination) {
            None => Err("frozen source destination has no parent"@),
            Some(above) => if same_path(destination, above) {
                Err("frozen source destination is broad"@)
            } else {
                Ok(above)
            },
        }
    }
}

fn read_destination_parent(destination: &str) -> (outcome: Result<String, Refusal>)
    ensures
        crate::clock::written(outcome, destination_parent(destination@)),
{
    check(is_absolute(destination), "frozen source destination is not absolute")?;
    match parent_of(destination) {
        None => Err(refuse("frozen source destination has no parent")),
        Some(above) => {
            check(
                !is_same_path(destination, above.as_str()),
                "frozen source destination is broad",
            )?;
            Ok(above)
        },
    }
}

/// Why a frozen source may not be made at a place, if so.
pub open spec fn destination_refusal(
    is_root: bool,
    destination: Seq<char>,
    canonical: Result<String, Refusal>,
    above: Result<FileFacts, Refusal>,
) -> Option<Seq<char>> {
    let owner = destination_parent(destination);
    either(
        unless(is_root, "frozen source materialization requires root Idunn"@),
        either(
            crate::procfs::fault(owner),
            either(
                missed(canonical),
                either(
                    unless(
                        same_path(canonical->Ok_0@, owner->Ok_0),
                        "frozen source parent traverses a symlink or noncanonical path"@,
                    ),
                    either(
                        missed(above),
                        unless(
                            root_directory(above->Ok_0),
                            "frozen source parent is not root-owned and nonwritable"@,
                        ),
                    ),
                ),
            ),
        ),
    )
}

/// Admits the place of a frozen source. What is there already is removed first, and the
/// place made anew with mode 0700.
pub fn prepare_frozen_source_destination(
    is_root: bool,
    destination: &str,
    canonical: &Result<String, Refusal>,
    above: &Result<FileFacts, Refusal>,
) -> (outcome: Result<(), Refusal>)
    ensures
        judged(outcome, destination_refusal(is_root, destination@, *canonical, *above)),
{
    check(is_root, "frozen source materialization requires root Idunn")?;
    let owner = read_destination_parent(destination)?;
    match canonical {
        Err(refusal) => return Err(Refusal { text: refusal.text.clone() }),
        Ok(path) => check(
            is_same_path(path.as_str(), owner.as_str()),
            "frozen source parent traverses a symlink or noncanonical path",
        )?,
    }
    let f = read_facts(above)?;
    check(is_root_directory(&f), "frozen source parent is not root-owned and nonwritable")
}

/// Why a frozen source may not be removed, if so.
pub open spec fn source_removal_refusal(
    destination: Seq<char>,
    above: Result<FileFacts, Refusal>,
    found: Result<FileFacts, Refusal>,
) -> Option<Seq<char>> {
    either(
        crate::procfs::fault(destination_parent(destination)),
        either(
            missed(above),
            either(
                missed(found),
                either(
                    unless(
                        root_directory(above->Ok_0),
                        "frozen source parent is not root-owned and nonwritable"@,
                    ),
                    unless(
                        root_directory(found->Ok_0),
                        "existing frozen source is not an Idunn-owned directory"@,
                    ),
                ),
            ),
        ),
    )
}

/// Admits the removal of a frozen source.
pub fn remove_frozen_source_destination(
    destination: &str,
    above: &Result<FileFacts, Refusal>,
    found: &Result<FileFacts, Refusal>,
) -> (outcome: Result<(), Refusal>)
    ensures
        judged(outcome, source_removal_refusal(destination@, *above, *found)),
{
    let _ = read_destination_parent(destination)?;
    let directory = read_facts(above)?;
    let f = read_facts(found)?;
    check(
        is_root_directory(&directory),
        "frozen source parent is not root-owned and nonwritable",
    )?;
    check(is_root_directory(&f), "existing frozen source is not an Idunn-owned directory")
}

/// The directories above a path, the nearest first, without the root of all.
pub open spec fn ancestors(path: Seq<char>) -> Seq<Seq<char>> {
    let parts = components(path);
    let n = if parts.len() == 0 {
        0
    } else {
        (parts.len() - 1) as nat
    };
    Seq::new(n, |i: int| path_text(absolute(path), parts.take(parts.len() - 1 - i)))
}

/// The directories above a path, the nearest first, without the root of all.
pub fn bundle_ancestors(path: &str) -> (list: Vec<String>)
    ensures
        texts(list@) == ancestors(path@),
{
    let rooted = is_absolute(path);
    let parts = components_of(path);
    let ghost all = components(path@);
    let ghost owed = ancestors(path@);
    let mut list: Vec<String> = Vec::new();
    assert(texts(parts@) == all);
    assert(texts(list@) =~= owed.take(0));
    let mut n: usize = parts.len();
    while n > 1
        invariant
            n <= parts@.len(),
            parts@.len() > 0 ==> n >= 1,
            texts(parts@) == all,
            all == components(path@),
            rooted == absolute(path@),
            owed == ancestors(path@),
            texts(list@) == owed.take(parts@.len() - n),
        decreases n,
    {
        n -= 1;
        let rest = join_components(parts.as_slice(), n);
        let text = if rooted {
            cat2("/", rest.as_str())
        } else {
            rest
        };
        proof {
            reveal_strlit("/");
            assert("/"@ =~= seq!['/']);
            assert(parts@.len() == all.len());
            assert(owed[parts@.len() - n - 1] == text@);
        }
        push_text(&mut list, text);
        assert(texts(list@) =~= owed.take(parts@.len() - n));
    }
    assert(owed.take(owed.len() as int) =~= owed);
    list
}

/// Whether a workload can pass through a directory: everyone can, or its state group can.
pub open spec fn passable(f: FileFacts, state_group_id: Option<u32>) -> bool {
    f.mode & 0o001 != 0 || (state_group_id == Some(f.gid) && f.mode & 0o010 != 0)
}

/// Why a directory on the way to a bundle is refused, if it is.
pub open spec fn passage_refusal(
    path: Seq<char>,
    found: Result<FileFacts, Refusal>,
    state_group_id: Option<u32>,
) -> Option<Seq<char>> {
    either(
        missed(found),
        unless(
            passable(found->Ok_0, state_group_id),
            path
                + " is not traversable by the workload, so the runtime bundle cannot be read;              give it o+x (0711 leaks no names) or group-own it by the state group with g+x"@,
        ),
    )
}

/// Why the first bad directory on the way to a bundle is refused, if one is.
pub open spec fn passages_refusal(
    paths: Seq<Seq<char>>,
    readings: Seq<Result<FileFacts, Refusal>>,
    state_group_id: Option<u32>,
) -> Option<Seq<char>>
    decreases paths.len(),
{
    if paths.len() == 0 {
        None
    } else {
        let last = paths.len() - 1;
        either(
            passages_refusal(paths.drop_last(), readings, state_group_id),
            passage_refusal(paths[last], readings[last], state_group_id),
        )
    }
}

proof fn lemma_passages(
    paths: Seq<Seq<char>>,
    readings: Seq<Result<FileFacts, Refusal>>,
    state_group_id: Option<u32>,
    n: int,
)
    requires
        0 <= n <= paths.len(),
        passages_refusal(paths.take(n), readings, state_group_id) is Some,
    ensures
        passages_refusal(paths, readings, state_group_id) == passages_refusal(
            paths.take(n),
            readings,
            state_group_id,
        ),
    decreases paths.len() - n,
{
    if n < paths.len() {
        assert(paths.take(n + 1).drop_last() =~= paths.take(n));
        lemma_passages(paths, readings, state_group_id, n + 1);
    } else {
        assert(paths.take(n) =~= paths);
    }
}

/// Admits the way to a bundle: a workload can pass through every directory above it.
/// There is a reading for each. A store on an impassable way would be found empty, not
/// closed, so this is judged before anything starts.
pub fn ensure_bundle_is_reachable_by_workload(
    bundle: &str,
    state_group_id: Option<u32>,
    readings: &Vec<Result<FileFacts, Refusal>>,
) -> (outcome: Result<(), Refusal>)
    requires
        readings@.len() == ancestors(bundle@).len(),
    ensures
        judged(outcome, passages_refusal(ancestors(bundle@), readings@, state_group_id)),
{
    let paths = bundle_ancestors(bundle);
    let ghost all = ancestors(bundle@);
    let mut i: usize = 0;
    assert(all.take(0) =~= Seq::<Seq<char>>::empty());
    assert(paths@.len() == all.len());
    while i < paths.len()
        invariant
            i <= paths@.len(),
            texts(paths@) == all,
            all == ancestors(bundle@),
            readings@.len() == paths@.len(),
            passages_refusal(all.take(i as int), readings@, state_group_id) is None,
        decreases paths@.len() - i,
    {
        proof {
            assert(all.take(i + 1).drop_last() =~= all.take(i as int));
            assert(all.take(i + 1)[i as int] == paths@[i as int]@);
        }
        match check_passage(paths[i].as_str(), &readings[i], state_group_id) {
            Ok(()) => {},
            Err(refusal) => {
                proof {
                    lemma_passages(all, readings@, state_group_id, i + 1);
                }
                return Err(refusal);
            },
        }
        i += 1;
    }
    assert(all.take(i as int) =~= all);
    Ok(())
}

fn check_passage(path: &str, found: &Result<FileFacts, Refusal>, state_group_id: Option<u32>) -> (
    outcome: Result<(), Refusal>)
    ensures
        judged(outcome, passage_refusal(path@, *found, state_group_id)),
{
    let f = read_facts(found)?;
    let by_group = match state_group_id {
        Some(id) => id == f.gid && f.mode & 0o010 != 0,
        None => false,
    };
    let words = cat2(
        path,
        " is not traversable by the workload, so the runtime bundle cannot be read;              give it o+x (0711 leaks no names) or group-own it by the state group with g+x",
    );
    check(f.mode & 0o001 != 0 || by_group, words.as_str())
}

/// The documents of a runtime bundle.
pub open spec fn bundle_documents() -> Seq<Seq<char>> {
    seq!["expected.cc"@, "expected.cc.lock"@, "activation.cc"@, "activation.cc.lock"@]
}

/// Why a runtime bundle may not be hardened, if so, before its first document.
pub open spec fn bundle_refusal(
    bundle: Seq<char>,
    found: Result<FileFacts, Refusal>,
    above: Result<FileFacts, Refusal>,
) -> Option<Seq<char>> {
    let f = found->Ok_0;
    either(
        missed(found),
        either(
            unless(parent(bundle) is Some, "runtime bundle has no parent"@),
            either(
                missed(above),
                either(
                    unless(
                        native_directory(f) && f.uid == 0,
                        "runtime bundle is not a root-owned directory"@,
                    ),
                    unless(
                        root_directory(above->Ok_0),
                        "runtime bundle root is not root-owned and service-nonwritable"@,
                    ),
                ),
            ),
        ),
    )
}

/// Why a document of a runtime bundle is refused, if it is.
pub open spec fn document_refusal(found: Result<FileFacts, Refusal>) -> Option<Seq<char>> {
    either(
        missed(found),
        unless(
            native_file(found->Ok_0) && found->Ok_0.uid == 0,
            "runtime bundle document is not root-owned"@,
        ),
    )
}

/// The modes that the first documents of a bundle get, up to the first that is refused.
pub open spec fn document_changes(
    bundle: Seq<char>,
    readings: Seq<Result<FileFacts, Refusal>>,
    n: nat,
) -> (Seq<(Seq<char>, u32)>, Option<Seq<char>>)
    decreases n,
{
    if n == 0 {
        (Seq::empty(), None)
    } else {
        let earlier = document_changes(bundle, readings, (n - 1) as nat);
        if earlier.1 is Some {
            earlier
        } else if document_refusal(readings[n - 1]) is Some {
            (earlier.0, document_refusal(readings[n - 1]))
        } else {
            (
                earlier.0.push((joined(bundle, bundle_documents()[n - 1]), 0o444)),
                None,
            )
        }
    }
}

/// The modes that a runtime bundle gets: its documents can be read by all, and nothing in
/// it can be written.
pub open spec fn bundle_changes(
    bundle: Seq<char>,
    found: Result<FileFacts, Refusal>,
    above: Result<FileFacts, Refusal>,
    readings: Seq<Result<FileFacts, Refusal>>,
) -> (Seq<(Seq<char>, u32)>, Option<Seq<char>>) {
    match bundle_refusal(bundle, found, above) {
        Some(w) => (Seq::empty(), Some(w)),
        None => {
            let documents = document_changes(bundle, readings, 4);
            if documents.1 is Some {
                documents
            } else {
                (documents.0.push((bundle, 0o555)), None)
            }
        },
    }
}

fn check_bundle(
    bundle: &str,
    found: &Result<FileFacts, Refusal>,
    above: &Result<FileFacts, Refusal>,
) -> (outcome: Result<(), Refusal>)
    ensures
        judged(outcome, bundle_refusal(bundle@, *found, *above)),
{
    let f = read_facts(found)?;
    check(parent_of(bundle).is_some(), "runtime bundle has no parent")?;
    let directory = read_facts(above)?;
    check(
        f.is_dir && !f.is_symlink && f.uid == 0,
        "runtime bundle is not a root-owned directory",
    )?;
    check(
        is_root_directory(&directory),
        "runtime bundle root is not root-owned and service-nonwritable",
    )
}

fn check_document(found: &Result<FileFacts, Refusal>) -> (outcome: Result<(), Refusal>)
    ensures
        judged(outcome, document_refusal(*found)),
{
    let f = read_facts(found)?;
    check(
        f.is_file && !f.is_symlink && f.uid == 0,
        "runtime bundle document is not root-owned",
    )
}

/// The hardening of a runtime bundle. There is a reading for each of its documents.
pub fn harden_runtime_bundle(
    bundle: &str,
    found: &Result<FileFacts, Refusal>,
    above: &Result<FileFacts, Refusal>,
    readings: &Vec<Result<FileFacts, Refusal>>,
) -> (plan: ModePlan)
    requires
        readings@.len() == 4,
    ensures
        (changes_of(plan.changes@), crate::deeds::ending(plan.refusal)) == bundle_changes(
            bundle@,
            *found,
            *above,
            readings@,
        ),
{
    let mut changes: Vec<ModeChange> = Vec::new();
    assert(changes_of(changes@) =~= Seq::<(Seq<char>, u32)>::empty());
    match check_bundle(bundle, found, above) {
        Ok(()) => {},
        Err(refusal) => return ModePlan { changes, refusal: Some(refusal) },
    }
    let names: [&str; 4] = [
        "expected.cc",
        "expected.cc.lock",
        "activation.cc",
        "activation.cc.lock",
    ];
    let mut i: usize = 0;
    assert(forall|k: int| 0 <= k < 4 ==> (#[trigger] names@[k])@ == bundle_documents()[k]);
    while i < 4
        invariant
            i <= 4,
            readings@.len() == 4,
            bundle_refusal(bundle@, *found, *above) is None,
            forall|k: int| 0 <= k < 4 ==> (#[trigger] names@[k])@ == bundle_documents()[k],
            document_changes(bundle@, readings@, i as nat) == (changes_of(changes@), None::<
                Seq<char>,
            >),
        decreases 4 - i,
    {
        match check_document(&readings[i]) {
            Ok(()) => {},
            Err(refusal) => {
                proof {
                    lemma_documents_end(bundle@, readings@, (i + 1) as nat);
                }
                return ModePlan { changes, refusal: Some(refusal) };
            },
        }
        assert(names@[i as int]@ == bundle_documents()[i as int]);
        push_change(&mut changes, join(bundle, names[i]), 0o444);
        i += 1;
    }
    push_change(&mut changes, bundle.to_owned(), 0o555);
    ModePlan { changes, refusal: None }
}

proof fn lemma_documents_end(bundle: Seq<char>, readings: Seq<Result<FileFacts, Refusal>>, n: nat)
    requires
        n <= 4,
        document_changes(bundle, readings, n).1 is Some,
    ensures
        document_changes(bundle, readings, 4) == document_changes(bundle, readings, n),
    decreases 4 - n,
{
    if n < 4 {
        lemma_documents_end(bundle, readings, n + 1);
    }
}

/// The files that a published projection is made readable in: the store and its lock.
pub fn publish_projection_mode(path: &str) -> (changes: Vec<ModeChange>)
    ensures
        changes_of(changes@) == seq![(path@, 0o644u32), (lock_of(path@), 0o644u32)],
{
    let mut changes: Vec<ModeChange> = Vec::new();
    push_change(&mut changes, path.to_owned(), 0o644);
    push_change(&mut changes, authority_lock_path(path), 0o644);
    assert(changes_of(changes@) =~= seq![(path@, 0o644u32), (lock_of(path@), 0o644u32)]);
    changes
}

} // verus!
