//! What the deeds on a tree do to it, entry by entry.
use vstd::prelude::*;

use crate::deeds::{planned, release_link_refusal, task_plan, task_step, Deed, Task};
use crate::hash_laws::{all_named, can_name, can_stand, lemma_place_text};
use crate::observation::ProcessIdentity;
use crate::paths::{
    components, joined, joined_components, lemma_join_components, lemma_join_name, same_path,
};
use crate::tree::{below_root, step_at, walk, walk_entries, Tree, VisitView};

verus! {

proof fn lemma_visited(task: Task, visits: Seq<VisitView>, i: int, d: Deed)
    requires
        planned(task, visits).refusal is None,
        0 <= i < visits.len(),
    ensures
        task_step(task, visits[i]).refusal is None,
        task_step(task, visits[i]).steps.contains(d) ==> planned(task, visits).steps.contains(d),
    decreases visits.len(),
{
    let fewer = visits.drop_last();
    let earlier = planned(task, fewer).steps;
    let last = task_step(task, visits.last()).steps;
    let all = planned(task, visits).steps;
    if i < fewer.len() {
        lemma_visited(task, fewer, i, d);
        assert(fewer[i] == visits[i]);
        if earlier.contains(d) {
            let k = choose|k: int| 0 <= k < earlier.len() && earlier[k] == d;
            assert(all[k] == d);
        }
    } else if last.contains(d) {
        let k = choose|k: int| 0 <= k < last.len() && last[k] == d;
        assert(all[earlier.len() + k] == d);
    }
}

/// The step of a walk that a deed is done at.
spec fn done_at(task: Task, visits: Seq<VisitView>, d: Deed, i: int) -> bool {
    0 <= i < visits.len() && task_step(task, visits[i]).steps.contains(d)
}

proof fn lemma_done(task: Task, visits: Seq<VisitView>, d: Deed)
    requires
        planned(task, visits).refusal is None,
        planned(task, visits).steps.contains(d),
    ensures
        exists|i: int| done_at(task, visits, d, i),
    decreases visits.len(),
{
    let all = planned(task, visits).steps;
    let k = choose|k: int| 0 <= k < all.len() && all[k] == d;
    if visits.len() > 0 {
        let fewer = visits.drop_last();
        let earlier = planned(task, fewer).steps;
        let last = task_step(task, visits.last()).steps;
        if k < earlier.len() {
            assert(earlier[k] == d);
            lemma_done(task, fewer, d);
            let i = choose|i: int| done_at(task, fewer, d, i);
            assert(fewer[i] == visits[i]);
            assert(done_at(task, visits, d, i));
        } else {
            assert(last[k - earlier.len()] == d);
            assert(done_at(task, visits, d, visits.len() - 1));
        }
    }
}

/// Nothing in a hardened source or a sealed release may be written, and nothing else is done to
/// it: every deed sets a mode, and to one of two that no one may write by.
pub proof fn what_is_hardened_may_not_be_written(
    tree: Tree,
    root: Seq<char>,
    place: Seq<char>,
    executables: Seq<Seq<char>>,
    d: Deed,
)
    ensures
        task_plan(Task::HardenSource, tree, root).refusal is None && task_plan(
            Task::HardenSource,
            tree,
            root,
        ).steps.contains(d) ==> (d matches Deed::SetMode(_, mode) && (mode == 0o555 || mode
            == 0o444)),
        task_plan(Task::HardenRelease(place, executables), tree, root).refusal is None
            && task_plan(Task::HardenRelease(place, executables), tree, root).steps.contains(d)
            ==> (d matches Deed::SetMode(_, mode) && (mode == 0o555 || mode == 0o444)),
        0o555u32 & 0o222u32 == 0,
        0o444u32 & 0o222u32 == 0,
        0o444u32 & 0o111u32 == 0,
{
    assert(0o555u32 & 0o222u32 == 0 && 0o444u32 & 0o222u32 == 0 && 0o444u32 & 0o111u32 == 0)
        by (bit_vector);
    let visits = walk(tree, root, Seq::empty(), true);
    let source = Task::HardenSource;
    let release = Task::HardenRelease(place, executables);
    if planned(source, visits).refusal is None && planned(source, visits).steps.contains(d) {
        lemma_done(source, visits, d);
        let i = choose|i: int| done_at(source, visits, d, i);
        lemma_visited(source, visits, i, d);
    }
    if planned(release, visits).refusal is None && planned(release, visits).steps.contains(d) {
        lemma_done(release, visits, d);
        let i = choose|i: int| done_at(release, visits, d, i);
        lemma_visited(release, visits, i, d);
    }
}

/// A sealed release is closed entry by entry: every entry is root's; a directory is closed as it
/// is left; a file can be executed exactly where it is one of the executables; and a link stays
/// within the release.
pub proof fn a_release_is_closed_entry_by_entry(
    tree: Tree,
    root: Seq<char>,
    place: Seq<char>,
    executables: Seq<Seq<char>>,
    i: int,
)
    requires
        task_plan(Task::HardenRelease(place, executables), tree, root).refusal is None,
        0 <= i < walk(tree, root, Seq::empty(), true).len(),
    ensures
        ({
            let steps = task_plan(Task::HardenRelease(place, executables), tree, root).steps;
            let v = walk(tree, root, Seq::empty(), true)[i];
            &&& v.leaving ==> steps.contains(Deed::SetMode(v.path, 0o555))
            &&& !v.leaving ==> v.facts.uid == 0
            &&& !v.leaving && !v.facts.is_dir && v.facts.is_file ==> steps.contains(
                Deed::SetMode(
                    v.path,
                    if exists|k: int|
                        0 <= k < executables.len() && same_path(v.path, #[trigger] executables[k]) {
                        0o555
                    } else {
                        0o444
                    },
                ),
            )
            &&& !v.leaving && !v.facts.is_dir && !v.facts.is_file ==> v.facts.is_symlink
                && release_link_refusal(place, v.path, v.target) is None
        }),
{
    let task = Task::HardenRelease(place, executables);
    let visits = walk(tree, root, Seq::empty(), true);
    let v = visits[i];
    let mode: u32 = if exists|k: int|
        0 <= k < executables.len() && same_path(v.path, #[trigger] executables[k]) {
        0o555
    } else {
        0o444
    };
    lemma_visited(task, visits, i, Deed::SetMode(v.path, 0o555));
    lemma_visited(task, visits, i, Deed::SetMode(v.path, mode));
    let own = task_step(task, v).steps;
    if v.leaving {
        assert(own[0] == Deed::SetMode(v.path, 0o555));
    } else if !v.facts.is_dir && v.facts.is_file {
        assert(own[0] == Deed::SetMode(v.path, mode));
    }
}

/// A workspace is handed over whole: everything in it goes to its runner and to no one else, and
/// can be used by its runner and read by its group, a file being executable exactly where it was.
pub proof fn a_workspace_is_handed_over_whole(
    tree: Tree,
    root: Seq<char>,
    identity: ProcessIdentity,
    i: int,
    d: Deed,
)
    requires
        task_plan(Task::AssignRunner(identity), tree, root).refusal is None,
        0 <= i < walk(tree, root, Seq::empty(), true).len(),
    ensures
        ({
            let steps = task_plan(Task::AssignRunner(identity), tree, root).steps;
            let v = walk(tree, root, Seq::empty(), true)[i];
            let entered = !v.leaving && !v.facts.is_dir;
            &&& v.leaving || entered ==> steps.contains(Deed::SetOwner(v.path, identity))
            &&& v.leaving ==> steps.contains(Deed::SetMode(v.path, 0o750))
            &&& entered && v.facts.is_file ==> steps.contains(
                Deed::SetMode(
                    v.path,
                    if v.facts.mode & 0o111 != 0 {
                        0o750
                    } else {
                        0o640
                    },
                ),
            )
            &&& steps.contains(d) ==> match d {
                Deed::SetOwner(_, owner) => owner == identity,
                Deed::SetMode(_, mode) => mode == 0o750 || mode == 0o640,
                _ => false,
            }
        }),
{
    let task = Task::AssignRunner(identity);
    let visits = walk(tree, root, Seq::empty(), true);
    let v = visits[i];
    let mode: u32 = if v.facts.mode & 0o111 != 0 {
        0o750
    } else {
        0o640
    };
    lemma_visited(task, visits, i, Deed::SetOwner(v.path, identity));
    lemma_visited(task, visits, i, Deed::SetMode(v.path, 0o750));
    lemma_visited(task, visits, i, Deed::SetMode(v.path, mode));
    let own = task_step(task, v).steps;
    if v.leaving {
        assert(own[0] == Deed::SetMode(v.path, 0o750));
        assert(own[1] == Deed::SetOwner(v.path, identity));
    } else if !v.facts.is_dir && v.facts.is_file {
        assert(own[0] == Deed::SetMode(v.path, mode));
        assert(own[1] == Deed::SetOwner(v.path, identity));
    } else if !v.facts.is_dir && v.facts.is_symlink {
        assert(own[0] == Deed::SetOwner(v.path, identity));
    }
    if planned(task, visits).steps.contains(d) {
        lemma_done(task, visits, d);
        let k = choose|k: int| done_at(task, visits, d, k);
        lemma_visited(task, visits, k, d);
    }
}

/// Whether names lead from the root of a tree to a step of a walk through it.
pub open spec fn leads_to(root: Seq<char>, place: Seq<Seq<char>>, v: VisitView) -> bool {
    &&& all_named(place)
    &&& v.relative == joined_components(place)
    &&& components(v.path) == components(root) + place
    &&& v.top ==> place.len() == 0 && v.path == root
    &&& !v.top ==> place.len() > 0
}

spec fn has_place(root: Seq<char>, v: VisitView) -> bool {
    exists|place: Seq<Seq<char>>| leads_to(root, place, v)
}

proof fn lemma_leads(
    tree: Tree,
    root: Seq<char>,
    path: Seq<char>,
    place: Seq<Seq<char>>,
    top: bool,
    held: spec_fn(Seq<char>) -> Seq<u8>,
)
    requires
        path.len() > 0,
        tree.facts.is_dir ==> can_stand(tree.children, path, held),
        all_named(place),
        components(path) == components(root) + place,
        top ==> place.len() == 0 && path == root,
        !top ==> place.len() > 0,
    ensures
        forall|i: int|
            0 <= i < walk(tree, path, joined_components(place), top).len() ==> has_place(
                root,
                #[trigger] walk(tree, path, joined_components(place), top)[i],
            ),
    decreases tree,
{
    let relative = joined_components(place);
    let all = walk(tree, path, relative, top);
    let entered = step_at(tree, path, relative, top, false);
    let left = step_at(tree, path, relative, top, true);
    assert(leads_to(root, place, entered));
    assert(leads_to(root, place, left));
    if tree.facts.is_dir {
        let within = walk_entries(tree.children, path, relative);
        lemma_entries_lead(tree.children, root, path, place, held);
        assert forall|i: int| 0 <= i < all.len() implies has_place(root, #[trigger] all[i]) by {
            if i == 0 {
                assert(all[i] == entered);
            } else if i == all.len() - 1 {
                assert(all[i] == left);
            } else {
                assert(all[i] == within[i - 1]);
            }
        }
    }
}

proof fn lemma_entries_lead(
    list: Seq<Tree>,
    root: Seq<char>,
    path: Seq<char>,
    place: Seq<Seq<char>>,
    held: spec_fn(Seq<char>) -> Seq<u8>,
)
    requires
        path.len() > 0,
        can_stand(list, path, held),
        all_named(place),
        components(path) == components(root) + place,
    ensures
        forall|i: int|
            0 <= i < walk_entries(list, path, joined_components(place)).len() ==> has_place(
                root,
                #[trigger] walk_entries(list, path, joined_components(place))[i],
            ),
    decreases list,
{
    if list.len() > 0 {
        let one = list.last();
        let relative = joined_components(place);
        let here = place.push(one.name);
        let there = joined(path, one.name);
        let fewer = walk_entries(list.drop_last(), path, relative);
        let own = walk(one, there, below_root(relative, one.name), false);
        let all = walk_entries(list, path, relative);
        lemma_entries_lead(list.drop_last(), root, path, place, held);
        lemma_place_text(place, one.name);
        lemma_join_name(path, one.name);
        assert(components(there) =~= components(root) + here);
        lemma_leads(one, root, there, here, false, held);
        assert forall|i: int| 0 <= i < all.len() implies has_place(root, #[trigger] all[i]) by {
            if i < fewer.len() {
                assert(all[i] == fewer[i]);
            } else {
                assert(all[i] == own[i - fewer.len()]);
            }
        }
    }
}

/// Whether a deed puts an entry that the given names lead to below one root at the same place
/// below another.
pub open spec fn copies_at(
    root: Seq<char>,
    destination: Seq<char>,
    place: Seq<Seq<char>>,
    d: Deed,
) -> bool {
    match d {
        Deed::MakeDirectory(to) => components(to) == components(destination) + place,
        Deed::CopyFile(from, to) => components(from) == components(root) + place && components(to)
            == components(destination) + place,
        Deed::CopyLink(from, to) => components(from) == components(root) + place && components(to)
            == components(destination) + place,
        _ => false,
    }
}

/// A tree is copied place by place: whatever a copy makes or copies stands at the same names
/// below the destination as it does below the tree's own root, and every entry of the tree is
/// copied as what it is.
pub proof fn a_copy_keeps_every_place(
    tree: Tree,
    root: Seq<char>,
    destination: Seq<char>,
    held: spec_fn(Seq<char>) -> Seq<u8>,
    i: int,
    d: Deed,
)
    requires
        root.len() > 0,
        destination.len() > 0,
        tree.facts.is_dir ==> can_stand(tree.children, root, held),
        task_plan(Task::CopyInto(destination), tree, root).refusal is None,
        0 <= i < walk(tree, root, Seq::empty(), true).len(),
    ensures
        ({
            let steps = task_plan(Task::CopyInto(destination), tree, root).steps;
            let v = walk(tree, root, Seq::empty(), true)[i];
            let to = if v.top {
                destination
            } else {
                joined(destination, v.relative)
            };
            &&& steps.contains(d) ==> exists|place: Seq<Seq<char>>|
                copies_at(root, destination, place, d)
            &&& !v.leaving && v.facts.is_dir ==> steps.contains(Deed::MakeDirectory(to))
            &&& !v.leaving && !v.facts.is_dir && v.facts.is_file ==> steps.contains(
                Deed::CopyFile(v.path, to),
            )
            &&& !v.leaving && !v.facts.is_dir && !v.facts.is_file ==> steps.contains(
                Deed::CopyLink(v.path, to),
            )
        }),
{
    let task = Task::CopyInto(destination);
    let none: Seq<Seq<char>> = Seq::empty();
    let relative: Seq<char> = Seq::empty();
    assert(joined_components(none) =~= relative);
    assert(components(root) + none =~= components(root));
    assert(components(destination) + none =~= components(destination));
    lemma_leads(tree, root, root, none, true, held);
    let visits = walk(tree, root, Seq::empty(), true);
    let v = visits[i];
    let to = if v.top {
        destination
    } else {
        joined(destination, v.relative)
    };
    lemma_visited(task, visits, i, Deed::MakeDirectory(to));
    lemma_visited(task, visits, i, Deed::CopyFile(v.path, to));
    lemma_visited(task, visits, i, Deed::CopyLink(v.path, to));
    let own = task_step(task, v).steps;
    if !v.leaving {
        if v.facts.is_dir {
            assert(own[0] == Deed::MakeDirectory(to));
        } else if v.facts.is_file {
            assert(own[0] == Deed::CopyFile(v.path, to));
        } else {
            assert(own[0] == Deed::CopyLink(v.path, to));
        }
    }
    if planned(task, visits).steps.contains(d) {
        lemma_done(task, visits, d);
        let k = choose|k: int| done_at(task, visits, d, k);
        lemma_visited(task, visits, k, d);
        let w = visits[k];
        assert(has_place(root, visits[k]));
        let place = choose|place: Seq<Seq<char>>| leads_to(root, place, w);
        if !w.top {
            assert forall|j: int| 0 <= j < place.len() implies (#[trigger] place[j]).len() > 0
                && !place[j].contains('/') && place[j] != seq!['.'] by {
                assert(can_name(place[j]));
            }
            lemma_join_components(destination, place);
        } else {
            assert(place =~= none);
        }
        assert(copies_at(root, destination, place, d));
    }
}

} // verus!
