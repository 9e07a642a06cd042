//! A tree of files, walked in one order: every directory's entries by name, a directory
//! before its entries and again after them.
use vstd::prelude::*;
use vstd::seq_lib::to_multiset_insert;

use crate::authority::FileFacts;
use crate::paths::{join, joined};
use crate::scan::{
    before, lemma_before_irreflexive, lemma_before_total, lemma_before_transitive, text_before,
};
use crate::text::{cat3, copy_bytes, Refusal};

verus! {

/// One entry of a tree and all below it. Of a link, its target as written, and why it does
/// not resolve within its root, if so.
pub struct TreeNode {
    name: String,
    facts: FileFacts,
    target: Vec<u8>,
    resolution: Result<(), Refusal>,
    children: Vec<TreeNode>,
}

/// What a `TreeNode` holds.
pub struct Tree {
    pub name: Seq<char>,
    pub facts: FileFacts,
    pub target: Seq<u8>,
    pub resolution: Option<Seq<char>>,
    pub children: Seq<Tree>,
}

/// Why a link does not resolve, if so.
pub open spec fn unresolved(resolution: Result<(), Refusal>) -> Option<Seq<char>> {
    match resolution {
        Ok(()) => None,
        Err(refusal) => Some(refusal@),
    }
}

/// What a node holds.
pub closed spec fn tree_of(node: TreeNode) -> Tree
    decreases node,
{
    Tree {
        name: node.name@,
        facts: node.facts,
        target: node.target@,
        resolution: unresolved(node.resolution),
        children: trees_of(node.children@),
    }
}

/// What each node of a list holds.
pub closed spec fn trees_of(list: Seq<TreeNode>) -> Seq<Tree>
    decreases list,
{
    if list.len() == 0 {
        Seq::empty()
    } else {
        trees_of(list.drop_last()).push(tree_of(list.last()))
    }
}

impl View for TreeNode {
    type V = Tree;

    open spec fn view(&self) -> Tree {
        tree_of(*self)
    }
}

/// Whether entries stand in the order of their names.
pub open spec fn by_name(list: Seq<Tree>) -> bool {
    forall|i: int, j: int| 0 <= i < j < list.len()
        ==> !before(#[trigger] list[j].name, #[trigger] list[i].name)
}

proof fn lemma_trees(list: Seq<TreeNode>)
    ensures
        trees_of(list).len() == list.len(),
        forall|i: int| 0 <= i < list.len() ==> #[trigger] trees_of(list)[i] == tree_of(list[i]),
    decreases list.len(),
{
    if list.len() > 0 {
        lemma_trees(list.drop_last());
        assert forall|i: int| 0 <= i < list.len() implies #[trigger] trees_of(list)[i] == tree_of(
            list[i],
        ) by {
            if i < list.len() - 1 {
                assert(trees_of(list.drop_last())[i] == tree_of(list.drop_last()[i]));
            }
        }
    }
}

/// The entries of a list with one more, before the first whose name comes after its own.
pub open spec fn place_for(list: Seq<Tree>, one: Tree, p: int) -> bool {
    &&& 0 <= p <= list.len()
    &&& forall|i: int| 0 <= i < p ==> !before(one.name, #[trigger] list[i].name)
    &&& p < list.len() ==> before(one.name, list[p].name)
}

proof fn lemma_place(list: Seq<Tree>, one: Tree, p: int)
    requires
        by_name(list),
        place_for(list, one, p),
    ensures
        by_name(list.insert(p, one)),
{
    let grown = list.insert(p, one);
    assert forall|i: int, j: int| 0 <= i < j < grown.len() implies !before(
        #[trigger] grown[j].name,
        #[trigger] grown[i].name,
    ) by {
        if j == p {
            assert(grown[i] == list[i]);
        } else if i == p {
            let later = list[j - 1].name;
            assert(grown[j] == list[j - 1]);
            if p < j - 1 {
                assert(!before(list[j - 1].name, list[p].name));
                lemma_before_total(later, list[p].name);
                if later != list[p].name {
                    lemma_before_transitive(one.name, list[p].name, later);
                }
            }
            assert(before(one.name, later));
            if before(later, one.name) {
                lemma_before_transitive(one.name, later, one.name);
                lemma_before_irreflexive(one.name);
            }
        } else {
            let a = if i < p { i } else { i - 1 };
            let b = if j < p { j } else { j - 1 };
            assert(grown[i] == list[a]);
            assert(grown[j] == list[b]);
        }
    }
}

/// Puts the entries of a directory in the order of their names.
fn ordered(children: Vec<TreeNode>) -> (out: Vec<TreeNode>)
    ensures
        by_name(trees_of(out@)),
        trees_of(out@).to_multiset() == trees_of(children@).to_multiset(),
{
    let mut rest = children;
    let mut out: Vec<TreeNode> = Vec::new();
    let ghost all = trees_of(children@);
    proof {
        lemma_trees(children@);
        assert(trees_of(out@) =~= Seq::<Tree>::empty());
        assert(all.skip(all.len() as int) =~= Seq::<Tree>::empty());
    }
    while rest.len() > 0
        invariant
            rest@.len() <= all.len(),
            trees_of(rest@) == all.take(rest@.len() as int),
            by_name(trees_of(out@)),
            trees_of(out@).to_multiset() == all.skip(rest@.len() as int).to_multiset(),
        decreases rest@.len(),
    {
        let ghost n = rest@.len() as int;
        let ghost held = rest@;
        proof {
            lemma_trees(held);
        }
        let one = match rest.pop() {
            Some(one) => one,
            None => return out,
        };
        let ghost tree = tree_of(one);
        let ghost earlier = out@;
        proof {
            lemma_trees(out@);
            assert(trees_of(held)[n - 1] == tree_of(held[n - 1]));
            assert(tree == all[n - 1]);
            assert(rest@ =~= held.drop_last());
            assert(trees_of(rest@) =~= all.take(n - 1));
        }
        let mut p: usize = 0;
        while p < out.len() && !text_before(one.name.as_str(), out[p].name.as_str())
            invariant
                p <= out@.len(),
                out@ == earlier,
                trees_of(earlier).len() == earlier.len(),
                forall|i: int|
                    0 <= i < earlier.len() ==> #[trigger] trees_of(earlier)[i] == tree_of(
                        earlier[i],
                    ),
                tree == tree_of(one),
                forall|i: int| 0 <= i < p
                    ==> !before(tree.name, #[trigger] trees_of(earlier)[i].name),
            decreases out@.len() - p,
        {
            assert(trees_of(earlier)[p as int] == tree_of(earlier[p as int]));
            p += 1;
        }
        proof {
            if p < out@.len() {
                assert(trees_of(earlier)[p as int] == tree_of(earlier[p as int]));
            }
            lemma_place(trees_of(earlier), tree, p as int);
        }
        out.insert(p, one);
        proof {
            lemma_trees(out@);
            assert(trees_of(out@) =~= trees_of(earlier).insert(p as int, tree));
            to_multiset_insert(trees_of(earlier), p as int, tree);
            let after = all.skip(n);
            assert(all.skip(n - 1) =~= after.insert(0, tree));
            to_multiset_insert(after, 0, tree);
        }
    }
    assert(all.skip(0) =~= all);
    out
}

impl TreeNode {
    #[verifier::type_invariant]
    spec fn orderly(self) -> bool {
        by_name(trees_of(self.children@))
    }

    /// An entry that is neither a directory nor a link.
    pub fn leaf(name: String, facts: FileFacts) -> (node: Self)
        ensures
            node@.name == name@,
            node@.facts == facts,
            node@.target.len() == 0,
            node@.resolution is None,
            node@.children.len() == 0,
    {
        let children: Vec<TreeNode> = Vec::new();
        proof {
            lemma_trees(children@);
        }
        TreeNode { name, facts, target: Vec::new(), resolution: Ok(()), children }
    }

    /// A link with its target, and whether it resolves within its root.
    pub fn link(
        name: String,
        facts: FileFacts,
        target: Vec<u8>,
        resolution: Result<(), Refusal>,
    ) -> (node: Self)
        ensures
            node@.name == name@,
            node@.facts == facts,
            node@.target == target@,
            node@.resolution == unresolved(resolution),
            node@.children.len() == 0,
    {
        let children: Vec<TreeNode> = Vec::new();
        proof {
            lemma_trees(children@);
        }
        TreeNode { name, facts, target, resolution, children }
    }

    /// What is known of the entry itself.
    pub fn facts(&self) -> (facts: &FileFacts)
        ensures
            *facts == self@.facts,
    {
        &self.facts
    }

    /// Whether an entry is a directory.
    pub fn is_directory(&self) -> (is: bool)
        ensures
            is == self@.facts.is_dir,
    {
        self.facts.is_dir
    }

    /// A directory with its entries, which may come in any order.
    pub fn directory(name: String, facts: FileFacts, entries: Vec<TreeNode>) -> (node: Self)
        ensures
            node@.name == name@,
            node@.facts == facts,
            node@.target.len() == 0,
            node@.resolution is None,
            by_name(node@.children),
            node@.children.to_multiset() == trees_of(entries@).to_multiset(),
    {
        let children = ordered(entries);
        TreeNode { name, facts, target: Vec::new(), resolution: Ok(()), children }
    }
}

/// One step of a walk: an entry as it is come to, or a directory as it is left.
#[derive(Debug, PartialEq, Eq)]
pub struct Visit {
    pub leaving: bool,
    pub top: bool,
    pub name: String,
    pub path: String,
    pub relative: String,
    pub facts: FileFacts,
    pub target: Vec<u8>,
    pub resolution: Result<(), Refusal>,
}

/// What a `Visit` holds.
#[verifier::ext_equal]
pub struct VisitView {
    pub leaving: bool,
    pub top: bool,
    pub name: Seq<char>,
    pub path: Seq<char>,
    pub relative: Seq<char>,
    pub facts: FileFacts,
    pub target: Seq<u8>,
    pub resolution: Option<Seq<char>>,
}

impl View for Visit {
    type V = VisitView;

    open spec fn view(&self) -> VisitView {
        VisitView {
            leaving: self.leaving,
            top: self.top,
            name: self.name@,
            path: self.path@,
            relative: self.relative@,
            facts: self.facts,
            target: self.target@,
            resolution: unresolved(self.resolution),
        }
    }
}

/// What each step of a walk holds.
pub open spec fn visit_views(list: Seq<Visit>) -> Seq<VisitView> {
    Seq::new(list.len(), |i: int| list[i]@)
}

/// The place of an entry below the root of its tree.
pub open spec fn below_root(above: Seq<char>, name: Seq<char>) -> Seq<char> {
    if above.len() == 0 {
        name
    } else {
        above + "/"@ + name
    }
}

/// A step at an entry.
pub open spec fn step_at(
    tree: Tree,
    path: Seq<char>,
    relative: Seq<char>,
    top: bool,
    leaving: bool,
) -> VisitView {
    VisitView {
        leaving,
        top,
        name: tree.name,
        path,
        relative,
        facts: tree.facts,
        target: tree.target,
        resolution: tree.resolution,
    }
}

/// The walk of a tree whose root stands at a path.
pub open spec fn walk(tree: Tree, path: Seq<char>, relative: Seq<char>, top: bool) -> Seq<VisitView>
    decreases tree,
{
    if tree.facts.is_dir {
        seq![step_at(tree, path, relative, top, false)] + walk_entries(
            tree.children,
            path,
            relative,
        ) + seq![step_at(tree, path, relative, top, true)]
    } else {
        seq![step_at(tree, path, relative, top, false)]
    }
}

/// The walk of the entries of a directory.
pub open spec fn walk_entries(entries: Seq<Tree>, path: Seq<char>, relative: Seq<char>) -> Seq<
    VisitView,
>
    decreases entries,
{
    if entries.len() == 0 {
        Seq::empty()
    } else {
        let one = entries.last();
        walk_entries(entries.drop_last(), path, relative) + walk(
            one,
            joined(path, one.name),
            below_root(relative, one.name),
            false,
        )
    }
}

fn push_visit(
    out: &mut Vec<Visit>,
    node: &TreeNode,
    path: &str,
    relative: &str,
    top: bool,
    leaving: bool,
)
    ensures
        visit_views(final(out)@) == visit_views(old(out)@).push(
            step_at(node@, path@, relative@, top, leaving),
        ),
{
    let resolution = match &node.resolution {
        Ok(()) => Ok(()),
        Err(refusal) => Err(Refusal { text: refusal.text.clone() }),
    };
    let visit = Visit {
        leaving,
        top,
        name: node.name.clone(),
        path: path.to_owned(),
        relative: relative.to_owned(),
        facts: node.facts,
        target: copy_bytes(node.target.as_slice()),
        resolution,
    };
    let ghost view = visit@;
    out.push(visit);
    assert(visit_views(out@) =~= visit_views(old(out)@).push(view));
}

fn walk_into(out: &mut Vec<Visit>, node: &TreeNode, path: &str, relative: &str, top: bool)
    ensures
        visit_views(final(out)@) == visit_views(old(out)@) + walk(node@, path@, relative@, top),
    decreases node,
{
    let ghost start = visit_views(out@);
    push_visit(out, node, path, relative, top, false);
    if node.facts.is_dir {
        let ghost entered = visit_views(out@);
        let ghost all = trees_of(node.children@);
        let mut i: usize = 0;
        proof {
            lemma_trees(node.children@);
            assert(all.take(0) =~= Seq::<Tree>::empty());
            assert(entered + walk_entries(all.take(0), path@, relative@) =~= entered);
        }
        while i < node.children.len()
            invariant
                i <= node.children@.len(),
                all == trees_of(node.children@),
                all.len() == node.children@.len(),
                forall|k: int|
                    0 <= k < all.len() ==> #[trigger] all[k] == tree_of(node.children@[k]),
                visit_views(out@) == entered + walk_entries(all.take(i as int), path@, relative@),
            decreases node.children@.len() - i,
        {
            let child = &node.children[i];
            proof {
                assert(all[i as int] == tree_of(node.children@[i as int]));
                assert(decreases_to!(node => node.children));
                assert(decreases_to!(node.children => node.children@));
                assert(decreases_to!(node.children@ => node.children@[i as int]));
            }
            let child_path = join(path, child.name.as_str());
            let child_relative = if relative.is_empty() {
                child.name.clone()
            } else {
                cat3(relative, "/", child.name.as_str())
            };
            assert(child_relative@ == below_root(relative@, child@.name));
            let ghost reached = visit_views(out@);
            walk_into(out, child, child_path.as_str(), child_relative.as_str(), false);
            proof {
                let taken = all.take(i + 1);
                assert(taken.drop_last() =~= all.take(i as int));
                assert(taken.last() == child@);
                assert(visit_views(out@) =~= entered + walk_entries(taken, path@, relative@));
            }
            i += 1;
        }
        assert(all.take(i as int) =~= all);
        push_visit(out, node, path, relative, top, true);
        assert(visit_views(out@) =~= start + walk(node@, path@, relative@, top));
    } else {
        assert(visit_views(out@) =~= start + walk(node@, path@, relative@, top));
    }
}

/// The walk of a tree whose root stands at a path.
pub fn walk_tree(node: &TreeNode, path: &str) -> (visits: Vec<Visit>)
    ensures
        visit_views(visits@) == walk(node@, path@, Seq::empty(), true),
{
    let mut visits: Vec<Visit> = Vec::new();
    proof {
        reveal_strlit("");
        assert(""@ =~= Seq::<char>::empty());
        assert(visit_views(visits@) =~= Seq::<VisitView>::empty());
    }
    walk_into(&mut visits, node, path, "", true);
    assert(visit_views(visits@) =~= walk(node@, path@, Seq::empty(), true));
    visits
}

} // verus!
