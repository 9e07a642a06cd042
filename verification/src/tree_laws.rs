//! What holds of the deeds on a tree together.
use vstd::prelude::*;

use crate::authority::FileFacts;
use crate::deeds::{
    frozen_mode, harden_source_step, hash_source_step, planned, source_entry_refusal, task_plan,
    validate_source_step, Deed, Task,
};
use crate::paths::joined;
use crate::tree::{below_root, step_at, walk, walk_entries, Tree, VisitView};

verus! {

/// An entry as hardening leaves it.
pub open spec fn hardened_facts(f: FileFacts) -> FileFacts {
    if f.is_dir {
        FileFacts { mode: 0o555, ..f }
    } else if f.is_file {
        FileFacts { mode: frozen_mode(f.mode), ..f }
    } else {
        f
    }
}

/// A tree as hardening leaves it.
pub open spec fn hardened(tree: Tree) -> Tree
    decreases tree,
{
    Tree {
        name: tree.name,
        facts: hardened_facts(tree.facts),
        target: tree.target,
        resolution: tree.resolution,
        children: hardened_entries(tree.children),
    }
}

/// The entries of a directory as hardening leaves them.
pub open spec fn hardened_entries(entries: Seq<Tree>) -> Seq<Tree>
    decreases entries,
{
    if entries.len() == 0 {
        Seq::empty()
    } else {
        hardened_entries(entries.drop_last()).push(hardened(entries.last()))
    }
}

/// A step of a walk after hardening.
pub open spec fn hardened_visit(v: VisitView) -> VisitView {
    VisitView { facts: hardened_facts(v.facts), ..v }
}

/// The steps of a walk after hardening.
pub open spec fn hardened_visits(visits: Seq<VisitView>) -> Seq<VisitView> {
    Seq::new(visits.len(), |i: int| hardened_visit(visits[i]))
}

proof fn lemma_hardened_walk(tree: Tree, path: Seq<char>, relative: Seq<char>, top: bool)
    ensures
        walk(hardened(tree), path, relative, top) == hardened_visits(
            walk(tree, path, relative, top),
        ),
    decreases tree,
{
    let whole = walk(tree, path, relative, top);
    if tree.facts.is_dir {
        lemma_hardened_entries(tree.children, path, relative);
        let inner = walk_entries(tree.children, path, relative);
        assert(hardened_visits(whole) =~= seq![hardened_visit(step_at(tree, path, relative, top, false))]
            + hardened_visits(inner) + seq![
            hardened_visit(step_at(tree, path, relative, top, true)),
        ]);
        assert(walk(hardened(tree), path, relative, top) =~= hardened_visits(whole));
    } else {
        assert(walk(hardened(tree), path, relative, top) =~= hardened_visits(whole));
    }
}

proof fn lemma_hardened_entries(entries: Seq<Tree>, path: Seq<char>, relative: Seq<char>)
    ensures
        walk_entries(hardened_entries(entries), path, relative) == hardened_visits(
            walk_entries(entries, path, relative),
        ),
    decreases entries,
{
    if entries.len() > 0 {
        let one = entries.last();
        let fewer = entries.drop_last();
        lemma_hardened_entries(fewer, path, relative);
        lemma_hardened_walk(
            one,
            joined(path, one.name),
            below_root(relative, one.name),
            false,
        );
        let grown = hardened_entries(entries);
        assert(grown.drop_last() =~= hardened_entries(fewer));
        assert(grown.last() == hardened(one));
        assert(walk_entries(grown, path, relative) =~= hardened_visits(
            walk_entries(entries, path, relative),
        ));
    } else {
        assert(walk_entries(hardened_entries(entries), path, relative) =~= hardened_visits(
            walk_entries(entries, path, relative),
        ));
    }
}

proof fn lemma_modes()
    ensures
        0o555u32 & 0o777u32 == 0o555,
        0o444u32 & 0o777u32 == 0o444,
        0o555u32 & 0o111u32 != 0,
        0o444u32 & 0o111u32 == 0,
{
    assert(0o555u32 & 0o777u32 == 0o555 && 0o444u32 & 0o777u32 == 0o444 && 0o555u32 & 0o111u32 != 0
        && 0o444u32 & 0o111u32 == 0) by (bit_vector);
}

proof fn lemma_hash_unmoved(visits: Seq<VisitView>)
    ensures
        planned(Task::HashSource, hardened_visits(visits)) == planned(Task::HashSource, visits),
    decreases visits.len(),
{
    if visits.len() > 0 {
        lemma_modes();
        let after = hardened_visits(visits);
        assert(after.drop_last() =~= hardened_visits(visits.drop_last()));
        lemma_hash_unmoved(visits.drop_last());
        assert(after.last() == hardened_visit(visits.last()));
        assert(hash_source_step(after.last()) == hash_source_step(visits.last()));
    }
}

/// Hardening a source does not change its digest: the digest is of names, contents,
/// link targets and of whether a file can be executed, and hardening keeps them all.
pub proof fn hardening_keeps_the_digest(tree: Tree, root: Seq<char>)
    ensures
        task_plan(Task::HashSource, hardened(tree), root) == task_plan(
            Task::HashSource,
            tree,
            root,
        ),
{
    lemma_hardened_walk(tree, root, Seq::empty(), true);
    lemma_hash_unmoved(walk(tree, root, Seq::empty(), true));
}

/// Whether every link on a walk resolves.
pub open spec fn links_resolve(visits: Seq<VisitView>) -> bool {
    forall|i: int| 0 <= i < visits.len() ==> (#[trigger] visits[i]).resolution is None
}

proof fn lemma_hardened_is_valid(visits: Seq<VisitView>)
    requires
        planned(Task::HardenSource, visits).refusal is None,
        links_resolve(visits),
    ensures
        planned(Task::ValidateSource, hardened_visits(visits)).refusal is None,
    decreases visits.len(),
{
    if visits.len() > 0 {
        lemma_modes();
        let after = hardened_visits(visits);
        assert(after.drop_last() =~= hardened_visits(visits.drop_last()));
        assert(links_resolve(visits.drop_last()));
        lemma_hardened_is_valid(visits.drop_last());
        assert(after.last() == hardened_visit(visits.last()));
        assert(visits[visits.len() - 1].resolution is None);
        assert(harden_source_step(visits.last()).refusal is None);
        assert(source_entry_refusal(after.last()) == source_entry_refusal(visits.last()));
        assert(validate_source_step(after.last()).refusal is None);
    }
}

/// A source that was hardened to the end, and whose links resolve within it, is a valid
/// frozen source.
pub proof fn a_hardened_source_is_valid(tree: Tree, root: Seq<char>)
    requires
        task_plan(Task::HardenSource, tree, root).refusal is None,
        links_resolve(walk(tree, root, Seq::empty(), true)),
    ensures
        task_plan(Task::ValidateSource, hardened(tree), root).refusal is None,
{
    lemma_hardened_walk(tree, root, Seq::empty(), true);
    lemma_hardened_is_valid(walk(tree, root, Seq::empty(), true));
}

/// The mode that hardening sets at a step of a walk, if it sets one.
pub open spec fn set_at(v: VisitView) -> Seq<Deed> {
    if v.leaving || (!v.facts.is_dir && v.facts.is_file) {
        seq![Deed::SetMode(v.path, hardened_facts(v.facts).mode)]
    } else {
        Seq::empty()
    }
}

/// The modes that hardening sets along a walk.
pub open spec fn set_along(visits: Seq<VisitView>) -> Seq<Deed>
    decreases visits.len(),
{
    if visits.len() == 0 {
        Seq::empty()
    } else {
        set_along(visits.drop_last()) + set_at(visits.last())
    }
}

/// Whether a walk leaves directories only.
pub open spec fn leaves_directories(visits: Seq<VisitView>) -> bool {
    forall|i: int| 0 <= i < visits.len()
        && (#[trigger] visits[i]).leaving ==> visits[i].facts.is_dir
}

proof fn lemma_walk_leaves(tree: Tree, path: Seq<char>, relative: Seq<char>, top: bool)
    ensures
        leaves_directories(walk(tree, path, relative, top)),
    decreases tree,
{
    if tree.facts.is_dir {
        lemma_entries_leave(tree.children, path, relative);
        let inner = walk_entries(tree.children, path, relative);
        let whole = walk(tree, path, relative, top);
        assert forall|i: int| 0 <= i < whole.len() && (#[trigger] whole[i]).leaving implies whole[i].facts.is_dir by {
            if 0 < i < whole.len() - 1 {
                assert(whole[i] == inner[i - 1]);
            }
        }
    }
}

proof fn lemma_entries_leave(entries: Seq<Tree>, path: Seq<char>, relative: Seq<char>)
    ensures
        leaves_directories(walk_entries(entries, path, relative)),
    decreases entries,
{
    if entries.len() > 0 {
        let one = entries.last();
        lemma_entries_leave(entries.drop_last(), path, relative);
        lemma_walk_leaves(one, joined(path, one.name), below_root(relative, one.name), false);
    }
}

proof fn lemma_set_along(visits: Seq<VisitView>)
    requires
        leaves_directories(visits),
        planned(Task::HardenSource, visits).refusal is None,
    ensures
        planned(Task::HardenSource, visits).steps == set_along(visits),
    decreases visits.len(),
{
    if visits.len() > 0 {
        assert(leaves_directories(visits.drop_last()));
        lemma_set_along(visits.drop_last());
        let v = visits[visits.len() - 1];
        assert(harden_source_step(v).steps == set_at(v));
    }
}

/// Hardening a source to the end sets the mode of every directory and every file in it,
/// to what it has in the hardened tree, and does nothing else.
pub proof fn hardening_sets_every_mode(tree: Tree, root: Seq<char>)
    requires
        task_plan(Task::HardenSource, tree, root).refusal is None,
    ensures
        task_plan(Task::HardenSource, tree, root).steps == set_along(
            walk(tree, root, Seq::empty(), true),
        ),
{
    lemma_walk_leaves(tree, root, Seq::empty(), true);
    lemma_set_along(walk(tree, root, Seq::empty(), true));
}

} // verus!
