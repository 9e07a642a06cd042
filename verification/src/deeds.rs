//! What is done to a tree of files: hardening, validating, hashing, copying, handing over.
//! Each is a plan of single deeds, in order, which ends where an entry is refused.
use vstd::bytes::{spec_u64_to_le_bytes, u64_to_le_bytes};
use vstd::prelude::*;
use vstd::utf8::encode_utf8;

use crate::authority::FileFacts;
use crate::binding::ArtifactReceipt;
use crate::digest::{
    absorb, absorbed, begin_digest, digest_id, finish_id, finish_raw, raw_digest_text, raw_sha256,
    Hasher,
};
use crate::observation::ProcessIdentity;
use crate::paths::{
    absolute, below, byte_path, components, components_of, is_absolute, is_below, is_same_path,
    join, joined, parent, parent_of, path_of_bytes, same_path,
};
use crate::procfs::push_bytes;
use crate::text::{copy_bytes, either, refuse, same_text, texts, unless, Refusal};
use crate::tree::{visit_views, walk, walk_tree, Tree, TreeNode, Visit, VisitView};
use crate::workload::ArtifactFinding;

verus! {

/// One deed on the way through a tree.
#[derive(Debug, PartialEq, Eq)]
pub enum TreeStep {
    SetMode { path: String, mode: u32 },
    SetOwner { path: String, identity: ProcessIdentity },
    MakeDirectory { path: String },
    CopyFile { from: String, to: String },
    CopyLink { from: String, to: String },
    Hash { bytes: Vec<u8> },
    HashContents { path: String },
    /// The length of what a file holds is hashed, and then what it holds.
    HashSized { path: String },
    /// The target of a link is hashed.
    HashTarget { target: Vec<u8> },
}

/// What a `TreeStep` holds.
pub enum Deed {
    SetMode(Seq<char>, u32),
    SetOwner(Seq<char>, ProcessIdentity),
    MakeDirectory(Seq<char>),
    CopyFile(Seq<char>, Seq<char>),
    CopyLink(Seq<char>, Seq<char>),
    Hash(Seq<u8>),
    HashContents(Seq<char>),
    HashSized(Seq<char>),
    HashTarget(Seq<u8>),
}

impl View for TreeStep {
    type V = Deed;

    open spec fn view(&self) -> Deed {
        match self {
            TreeStep::SetMode { path, mode } => Deed::SetMode(path@, *mode),
            TreeStep::SetOwner { path, identity } => Deed::SetOwner(path@, *identity),
            TreeStep::MakeDirectory { path } => Deed::MakeDirectory(path@),
            TreeStep::CopyFile { from, to } => Deed::CopyFile(from@, to@),
            TreeStep::CopyLink { from, to } => Deed::CopyLink(from@, to@),
            TreeStep::Hash { bytes } => Deed::Hash(bytes@),
            TreeStep::HashContents { path } => Deed::HashContents(path@),
            TreeStep::HashSized { path } => Deed::HashSized(path@),
            TreeStep::HashTarget { target } => Deed::HashTarget(target@),
        }
    }
}

/// What each deed of a list holds.
pub open spec fn deeds_of(list: Seq<TreeStep>) -> Seq<Deed> {
    Seq::new(list.len(), |i: int| list[i]@)
}

/// What is to be done, and why it ends before the tree does, if so.
#[derive(Debug, PartialEq, Eq)]
pub struct TreePlan {
    pub steps: Vec<TreeStep>,
    pub refusal: Option<Refusal>,
}

/// What a `TreePlan` holds.
#[verifier::ext_equal]
pub struct Plan {
    pub steps: Seq<Deed>,
    pub refusal: Option<Seq<char>>,
}

/// Why a plan ends early, if so.
pub open spec fn ending(refusal: Option<Refusal>) -> Option<Seq<char>> {
    match refusal {
        Some(r) => Some(r@),
        None => None,
    }
}

impl View for TreePlan {
    type V = Plan;

    open spec fn view(&self) -> Plan {
        Plan { steps: deeds_of(self.steps@), refusal: ending(self.refusal) }
    }
}

/// What may be done to a tree.
#[derive(Debug, PartialEq, Eq)]
pub enum TreeTask {
    HardenSource,
    ValidateSource,
    ResolveLinks,
    HashSource,
    HardenRelease { root: String, executables: Vec<String> },
    HashArtifact,
    AssignRunner { identity: ProcessIdentity },
    CopyInto { destination: String },
}

/// What a `TreeTask` holds.
pub enum Task {
    HardenSource,
    ValidateSource,
    ResolveLinks,
    HashSource,
    HardenRelease(Seq<char>, Seq<Seq<char>>),
    HashArtifact,
    AssignRunner(ProcessIdentity),
    CopyInto(Seq<char>),
}

impl View for TreeTask {
    type V = Task;

    open spec fn view(&self) -> Task {
        match self {
            TreeTask::HardenSource => Task::HardenSource,
            TreeTask::ValidateSource => Task::ValidateSource,
            TreeTask::ResolveLinks => Task::ResolveLinks,
            TreeTask::HashSource => Task::HashSource,
            TreeTask::HardenRelease { root, executables } => Task::HardenRelease(
                root@,
                texts(executables@),
            ),
            TreeTask::HashArtifact => Task::HashArtifact,
            TreeTask::AssignRunner { identity } => Task::AssignRunner(*identity),
            TreeTask::CopyInto { destination } => Task::CopyInto(destination@),
        }
    }
}

/// Deeds at one step of a walk that is not refused.
pub open spec fn done(steps: Seq<Deed>) -> Plan {
    Plan { steps, refusal: None }
}

/// A refusal at one step of a walk.
pub open spec fn refused(words: Seq<char>) -> Plan {
    Plan { steps: Seq::empty(), refusal: Some(words) }
}

/// Whether any of the three execute bits is set.
pub open spec fn executable(mode: u32) -> bool {
    mode & 0o111 != 0
}

/// Why an entry may not stand in a frozen source, if so.
pub open spec fn source_entry_refusal(v: VisitView) -> Option<Seq<char>> {
    either(
        unless(v.facts.uid == 0, "frozen source entry is not root-owned"@),
        unless(
            v.top || v.name != ".git"@,
            "frozen source contains forbidden .git metadata"@,
        ),
    )
}

/// Whether a link's target is absolute.
pub open spec fn absolute_target(target: Seq<u8>) -> bool {
    target.len() > 0 && target[0] == 0x2f
}

/// The mode of a file in a frozen source.
pub open spec fn frozen_mode(mode: u32) -> u32 {
    if executable(mode) {
        0o555
    } else {
        0o444
    }
}

/// The hardening of a frozen source at one step: nothing in it may be written again, and
/// of its files' permissions only whether they can be executed is kept.
pub open spec fn harden_source_step(v: VisitView) -> Plan {
    if v.leaving {
        done(seq![Deed::SetMode(v.path, 0o555)])
    } else if source_entry_refusal(v) is Some {
        refused(source_entry_refusal(v)->0)
    } else if v.facts.is_dir {
        done(Seq::empty())
    } else if v.facts.is_file {
        done(seq![Deed::SetMode(v.path, frozen_mode(v.facts.mode))])
    } else if !v.facts.is_symlink {
        refused("frozen source contains a special filesystem entry"@)
    } else if absolute_target(v.target) {
        refused("frozen source symlink is absolute"@)
    } else {
        done(Seq::empty())
    }
}

/// The validation of a frozen source at one step: it is as hardening leaves it, and its
/// links resolve within it.
pub open spec fn validate_source_step(v: VisitView) -> Plan {
    if v.leaving {
        done(Seq::empty())
    } else if source_entry_refusal(v) is Some {
        refused(source_entry_refusal(v)->0)
    } else if v.facts.is_dir {
        if v.facts.mode & 0o777 == 0o555 {
            done(Seq::empty())
        } else {
            refused("frozen source directory is not 0555"@)
        }
    } else if v.facts.is_file {
        if v.facts.mode & 0o777 == 0o444 || v.facts.mode & 0o777 == 0o555 {
            done(Seq::empty())
        } else {
            refused("frozen source file has a noncanonical mode"@)
        }
    } else if !v.facts.is_symlink {
        refused("frozen source contains a special filesystem entry"@)
    } else if v.resolution is Some {
        refused(v.resolution->0)
    } else {
        done(Seq::empty())
    }
}

/// The resolution of the links of a tree at one step.
pub open spec fn resolve_links_step(v: VisitView) -> Plan {
    if !v.leaving && !v.facts.is_dir && v.facts.is_symlink && v.resolution is Some {
        refused(v.resolution->0)
    } else {
        done(Seq::empty())
    }
}

/// A byte that ends a field of a hashed frame.
pub open spec fn nul() -> Seq<u8> {
    seq![0u8]
}

/// The start of a hashed frame: its kind and the place of its entry.
pub open spec fn frame(kind: Seq<char>, relative: Seq<char>) -> Seq<u8> {
    encode_utf8(kind) + nul() + encode_utf8(relative) + nul()
}

/// How a truth is written.
pub open spec fn truth(b: bool) -> Seq<char> {
    if b {
        "true"@
    } else {
        "false"@
    }
}

/// The hashing of a frozen source at one step. The root itself adds nothing.
pub open spec fn hash_source_step(v: VisitView) -> Plan {
    if v.top || v.leaving {
        done(Seq::empty())
    } else if v.facts.is_dir {
        done(seq![Deed::Hash(frame("dir"@, v.relative))])
    } else if v.facts.is_file {
        done(
            seq![
                Deed::Hash(
                    frame("file"@, v.relative) + encode_utf8(truth(executable(v.facts.mode)))
                        + nul() + spec_u64_to_le_bytes(v.facts.len),
                ),
                Deed::HashContents(v.path),
            ],
        )
    } else if v.facts.is_symlink {
        done(seq![Deed::Hash(frame("link"@, v.relative) + v.target + nul())])
    } else {
        refused("frozen source contains a special filesystem entry"@)
    }
}

/// The hashing of an artifact at one step. The root itself adds nothing.
pub open spec fn hash_artifact_step(v: VisitView) -> Plan {
    if v.top || v.leaving {
        done(Seq::empty())
    } else if v.facts.is_dir {
        done(seq![Deed::Hash(frame("dir"@, v.relative))])
    } else if v.facts.is_file {
        done(seq![Deed::Hash(frame("file"@, v.relative)), Deed::HashSized(v.path)])
    } else if v.facts.is_symlink {
        done(seq![Deed::Hash(frame("link"@, v.relative)), Deed::HashTarget(v.target)])
    } else {
        refused("artifact tree contains a special filesystem entry"@)
    }
}

/// Why a link may not stand in a sealed release, if so. Its target is judged byte by byte: it
/// need not be text.
pub open spec fn release_link_refusal(root: Seq<char>, path: Seq<char>, target: Seq<u8>) -> Option<
    Seq<char>,
> {
    let lead = byte_path(target);
    either(
        unless(!absolute(lead), "sealed release symlink is absolute"@),
        either(
            unless(
                !components(lead).contains(".."@),
                "sealed release symlink has a parent traversal"@,
            ),
            match parent(path) {
                None => Some("sealed release symlink has no parent"@),
                Some(directory) => unless(
                    below(
                        joined(byte_path(encode_utf8(directory)), lead),
                        byte_path(encode_utf8(root)),
                    ),
                    "sealed release symlink escaped its release"@,
                ),
            },
        ),
    )
}

/// Whether a path is one of several.
pub open spec fn among(path: Seq<char>, list: Seq<Seq<char>>) -> bool {
    exists|i: int| 0 <= i < list.len() && same_path(path, #[trigger] list[i])
}

/// The hardening of a sealed release at one step: nothing in it may be written, and only
/// its executable artifacts can be executed.
pub open spec fn harden_release_step(
    v: VisitView,
    root: Seq<char>,
    executables: Seq<Seq<char>>,
) -> Plan {
    if v.leaving {
        done(seq![Deed::SetMode(v.path, 0o555)])
    } else if v.facts.uid != 0 {
        refused("sealed release entry is not root-owned"@)
    } else if v.facts.is_dir {
        done(Seq::empty())
    } else if v.facts.is_file {
        done(
            seq![
                Deed::SetMode(
                    v.path,
                    if among(v.path, executables) {
                        0o555
                    } else {
                        0o444
                    },
                ),
            ],
        )
    } else if !v.facts.is_symlink {
        refused("sealed release contains a special filesystem entry"@)
    } else if release_link_refusal(root, v.path, v.target) is Some {
        refused(release_link_refusal(root, v.path, v.target)->0)
    } else {
        done(Seq::empty())
    }
}

/// The handing over of a workspace to its runner at one step.
pub open spec fn assign_runner_step(v: VisitView, identity: ProcessIdentity) -> Plan {
    if v.leaving {
        done(seq![Deed::SetMode(v.path, 0o750), Deed::SetOwner(v.path, identity)])
    } else if v.facts.is_dir {
        done(Seq::empty())
    } else if v.facts.is_file {
        done(
            seq![
                Deed::SetMode(
                    v.path,
                    if executable(v.facts.mode) {
                        0o750
                    } else {
                        0o640
                    },
                ),
                Deed::SetOwner(v.path, identity),
            ],
        )
    } else if v.facts.is_symlink {
        done(seq![Deed::SetOwner(v.path, identity)])
    } else {
        refused("runner workspace contains a special filesystem entry"@)
    }
}

/// The copying of a tree at one step.
pub open spec fn copy_step(v: VisitView, destination: Seq<char>) -> Plan {
    let to = if v.top {
        destination
    } else {
        joined(destination, v.relative)
    };
    if v.leaving {
        done(Seq::empty())
    } else if v.facts.is_dir {
        done(seq![Deed::MakeDirectory(to)])
    } else if v.facts.is_file {
        done(seq![Deed::CopyFile(v.path, to)])
    } else if v.facts.is_symlink {
        done(seq![Deed::CopyLink(v.path, to)])
    } else {
        refused("source tree contains a special filesystem entry"@)
    }
}

/// A task at one step of a walk.
pub open spec fn task_step(task: Task, v: VisitView) -> Plan {
    match task {
        Task::HardenSource => harden_source_step(v),
        Task::ValidateSource => validate_source_step(v),
        Task::ResolveLinks => resolve_links_step(v),
        Task::HashSource => hash_source_step(v),
        Task::HardenRelease(root, executables) => harden_release_step(v, root, executables),
        Task::HashArtifact => hash_artifact_step(v),
        Task::AssignRunner(identity) => assign_runner_step(v, identity),
        Task::CopyInto(destination) => copy_step(v, destination),
    }
}

/// A task along a walk: the deeds of its steps in order, up to the first refusal.
pub open spec fn planned(task: Task, visits: Seq<VisitView>) -> Plan
    decreases visits.len(),
{
    if visits.len() == 0 {
        done(Seq::empty())
    } else {
        let earlier = planned(task, visits.drop_last());
        if earlier.refusal is Some {
            earlier
        } else {
            let last = task_step(task, visits.last());
            Plan { steps: earlier.steps + last.steps, refusal: last.refusal }
        }
    }
}

fn one_step(step: TreeStep) -> (plan: TreePlan)
    ensures
        plan@ == done(seq![step@]),
{
    let mut steps: Vec<TreeStep> = Vec::new();
    let ghost view = step@;
    steps.push(step);
    assert(deeds_of(steps@) =~= seq![view]);
    TreePlan { steps, refusal: None }
}

fn two_steps(first: TreeStep, then: TreeStep) -> (plan: TreePlan)
    ensures
        plan@ == done(seq![first@, then@]),
{
    let mut steps: Vec<TreeStep> = Vec::new();
    let ghost views = seq![first@, then@];
    steps.push(first);
    steps.push(then);
    assert(deeds_of(steps@) =~= views);
    TreePlan { steps, refusal: None }
}

fn no_steps() -> (plan: TreePlan)
    ensures
        plan@ == done(Seq::empty()),
{
    let steps: Vec<TreeStep> = Vec::new();
    assert(deeds_of(steps@) =~= Seq::<Deed>::empty());
    TreePlan { steps, refusal: None }
}

fn end_with(refusal: Refusal) -> (plan: TreePlan)
    ensures
        plan@ == refused(refusal@),
{
    let steps: Vec<TreeStep> = Vec::new();
    assert(deeds_of(steps@) =~= Seq::<Deed>::empty());
    TreePlan { steps, refusal: Some(refusal) }
}

fn end_in(words: &str) -> (plan: TreePlan)
    ensures
        plan@ == refused(words@),
{
    end_with(refuse(words))
}

fn check_source_entry(v: &Visit) -> (refusal: Option<Refusal>)
    ensures
        ending(refusal) == source_entry_refusal(v@),
{
    if v.facts.uid != 0 {
        Some(refuse("frozen source entry is not root-owned"))
    } else if !v.top && same_text(v.name.as_str(), ".git") {
        Some(refuse("frozen source contains forbidden .git metadata"))
    } else {
        None
    }
}

fn has_absolute_target(target: &Vec<u8>) -> (is: bool)
    ensures
        is == absolute_target(target@),
{
    target.len() > 0 && target[0] == 0x2f
}

fn harden_source_at(v: &Visit) -> (plan: TreePlan)
    ensures
        plan@ == harden_source_step(v@),
{
    if v.leaving {
        return one_step(TreeStep::SetMode { path: v.path.clone(), mode: 0o555 });
    }
    if let Some(refusal) = check_source_entry(v) {
        return end_with(refusal);
    }
    if v.facts.is_dir {
        no_steps()
    } else if v.facts.is_file {
        let mode: u32 = if v.facts.mode & 0o111 != 0 {
            0o555
        } else {
            0o444
        };
        one_step(TreeStep::SetMode { path: v.path.clone(), mode })
    } else if !v.facts.is_symlink {
        end_in("frozen source contains a special filesystem entry")
    } else if has_absolute_target(&v.target) {
        end_in("frozen source symlink is absolute")
    } else {
        no_steps()
    }
}

fn end_with_resolution(v: &Visit) -> (plan: TreePlan)
    ensures
        plan@ == (if v@.resolution is Some {
            refused(v@.resolution->0)
        } else {
            done(Seq::empty())
        }),
{
    match &v.resolution {
        Ok(()) => no_steps(),
        Err(refusal) => end_with(Refusal { text: refusal.text.clone() }),
    }
}

fn validate_source_at(v: &Visit) -> (plan: TreePlan)
    ensures
        plan@ == validate_source_step(v@),
{
    if v.leaving {
        return no_steps();
    }
    if let Some(refusal) = check_source_entry(v) {
        return end_with(refusal);
    }
    let mode: u32 = v.facts.mode & 0o777;
    if v.facts.is_dir {
        if mode == 0o555 {
            no_steps()
        } else {
            end_in("frozen source directory is not 0555")
        }
    } else if v.facts.is_file {
        if mode == 0o444 || mode == 0o555 {
            no_steps()
        } else {
            end_in("frozen source file has a noncanonical mode")
        }
    } else if !v.facts.is_symlink {
        end_in("frozen source contains a special filesystem entry")
    } else {
        end_with_resolution(v)
    }
}

fn resolve_links_at(v: &Visit) -> (plan: TreePlan)
    ensures
        plan@ == resolve_links_step(v@),
{
    if !v.leaving && !v.facts.is_dir && v.facts.is_symlink {
        end_with_resolution(v)
    } else {
        no_steps()
    }
}

fn push_nul(out: &mut Vec<u8>)
    ensures
        final(out)@ == old(out)@ + nul(),
{
    out.push(0u8);
    assert(out@ =~= old(out)@ + nul());
}

fn frame_of(kind: &str, relative: &str) -> (bytes: Vec<u8>)
    ensures
        bytes@ == frame(kind@, relative@),
{
    let mut bytes: Vec<u8> = Vec::new();
    push_bytes(&mut bytes, kind.as_bytes());
    push_nul(&mut bytes);
    push_bytes(&mut bytes, relative.as_bytes());
    push_nul(&mut bytes);
    assert(bytes@ =~= frame(kind@, relative@));
    bytes
}

fn hash_source_at(v: &Visit) -> (plan: TreePlan)
    ensures
        plan@ == hash_source_step(v@),
{
    if v.top || v.leaving {
        return no_steps();
    }
    if v.facts.is_dir {
        one_step(TreeStep::Hash { bytes: frame_of("dir", v.relative.as_str()) })
    } else if v.facts.is_file {
        let mut bytes = frame_of("file", v.relative.as_str());
        let mark = if v.facts.mode & 0o111 != 0 {
            "true"
        } else {
            "false"
        };
        push_bytes(&mut bytes, mark.as_bytes());
        push_nul(&mut bytes);
        let len = u64_to_le_bytes(v.facts.len);
        push_bytes(&mut bytes, len.as_slice());
        two_steps(TreeStep::Hash { bytes }, TreeStep::HashContents { path: v.path.clone() })
    } else if v.facts.is_symlink {
        let mut bytes = frame_of("link", v.relative.as_str());
        push_bytes(&mut bytes, v.target.as_slice());
        push_nul(&mut bytes);
        one_step(TreeStep::Hash { bytes })
    } else {
        end_in("frozen source contains a special filesystem entry")
    }
}

fn hash_artifact_at(v: &Visit) -> (plan: TreePlan)
    ensures
        plan@ == hash_artifact_step(v@),
{
    if v.top || v.leaving {
        return no_steps();
    }
    if v.facts.is_dir {
        one_step(TreeStep::Hash { bytes: frame_of("dir", v.relative.as_str()) })
    } else if v.facts.is_file {
        let bytes = frame_of("file", v.relative.as_str());
        two_steps(TreeStep::Hash { bytes }, TreeStep::HashSized { path: v.path.clone() })
    } else if v.facts.is_symlink {
        let bytes = frame_of("link", v.relative.as_str());
        let target = copy_bytes(v.target.as_slice());
        two_steps(TreeStep::Hash { bytes }, TreeStep::HashTarget { target })
    } else {
        end_in("artifact tree contains a special filesystem entry")
    }
}

/// Admits a link of a sealed release: relative, without a step up, and within its root. Its
/// target need not be text.
pub fn validate_release_symlink(root: &str, path: &str, target: &[u8]) -> (outcome: Result<
    (),
    Refusal,
>)
    ensures
        crate::text::judged(outcome, release_link_refusal(root@, path@, target@)),
{
    let lead = path_of_bytes(target);
    if is_absolute(lead.as_str()) {
        return Err(refuse("sealed release symlink is absolute"));
    }
    let parts = components_of(lead.as_str());
    if crate::text::list_contains(parts.as_slice(), "..") {
        return Err(refuse("sealed release symlink has a parent traversal"));
    }
    match parent_of(path) {
        None => Err(refuse("sealed release symlink has no parent")),
        Some(directory) => {
            let place = path_of_bytes(directory.as_str().as_bytes());
            let destination = join(place.as_str(), lead.as_str());
            let whole = path_of_bytes(root.as_bytes());
            crate::text::check(
                is_below(destination.as_str(), whole.as_str()),
                "sealed release symlink escaped its release",
            )
        },
    }
}

fn is_among(path: &str, list: &Vec<String>) -> (is: bool)
    ensures
        is == among(path@, texts(list@)),
{
    let ghost all = texts(list@);
    let mut i: usize = 0;
    while i < list.len()
        invariant
            i <= list@.len(),
            all == texts(list@),
            forall|j: int| 0 <= j < i ==> !same_path(path@, #[trigger] all[j]),
        decreases list@.len() - i,
    {
        assert(all[i as int] == list@[i as int]@);
        if is_same_path(path, list[i].as_str()) {
            return true;
        }
        i += 1;
    }
    false
}

fn harden_release_at(v: &Visit, root: &str, executables: &Vec<String>) -> (plan: TreePlan)
    ensures
        plan@ == harden_release_step(v@, root@, texts(executables@)),
{
    if v.leaving {
        return one_step(TreeStep::SetMode { path: v.path.clone(), mode: 0o555 });
    }
    if v.facts.uid != 0 {
        return end_in("sealed release entry is not root-owned");
    }
    if v.facts.is_dir {
        no_steps()
    } else if v.facts.is_file {
        let mode: u32 = if is_among(v.path.as_str(), executables) {
            0o555
        } else {
            0o444
        };
        one_step(TreeStep::SetMode { path: v.path.clone(), mode })
    } else if !v.facts.is_symlink {
        end_in("sealed release contains a special filesystem entry")
    } else {
        match validate_release_symlink(root, v.path.as_str(), v.target.as_slice()) {
            Ok(()) => no_steps(),
            Err(refusal) => end_with(refusal),
        }
    }
}

fn assign_runner_at(v: &Visit, identity: ProcessIdentity) -> (plan: TreePlan)
    ensures
        plan@ == assign_runner_step(v@, identity),
{
    if v.leaving {
        return two_steps(
            TreeStep::SetMode { path: v.path.clone(), mode: 0o750 },
            TreeStep::SetOwner { path: v.path.clone(), identity },
        );
    }
    if v.facts.is_dir {
        no_steps()
    } else if v.facts.is_file {
        let mode: u32 = if v.facts.mode & 0o111 != 0 {
            0o750
        } else {
            0o640
        };
        two_steps(
            TreeStep::SetMode { path: v.path.clone(), mode },
            TreeStep::SetOwner { path: v.path.clone(), identity },
        )
    } else if v.facts.is_symlink {
        one_step(TreeStep::SetOwner { path: v.path.clone(), identity })
    } else {
        end_in("runner workspace contains a special filesystem entry")
    }
}

fn copy_at(v: &Visit, destination: &str) -> (plan: TreePlan)
    ensures
        plan@ == copy_step(v@, destination@),
{
    let to = if v.top {
        destination.to_owned()
    } else {
        join(destination, v.relative.as_str())
    };
    if v.leaving {
        no_steps()
    } else if v.facts.is_dir {
        one_step(TreeStep::MakeDirectory { path: to })
    } else if v.facts.is_file {
        one_step(TreeStep::CopyFile { from: v.path.clone(), to })
    } else if v.facts.is_symlink {
        one_step(TreeStep::CopyLink { from: v.path.clone(), to })
    } else {
        end_in("source tree contains a special filesystem entry")
    }
}

fn step_of(task: &TreeTask, v: &Visit) -> (plan: TreePlan)
    ensures
        plan@ == task_step(task@, v@),
{
    match task {
        TreeTask::HardenSource => harden_source_at(v),
        TreeTask::ValidateSource => validate_source_at(v),
        TreeTask::ResolveLinks => resolve_links_at(v),
        TreeTask::HashSource => hash_source_at(v),
        TreeTask::HardenRelease { root, executables } => harden_release_at(
            v,
            root.as_str(),
            executables,
        ),
        TreeTask::HashArtifact => hash_artifact_at(v),
        TreeTask::AssignRunner { identity } => assign_runner_at(v, *identity),
        TreeTask::CopyInto { destination } => copy_at(v, destination.as_str()),
    }
}

proof fn lemma_plan_ends(task: Task, visits: Seq<VisitView>, n: int)
    requires
        0 <= n <= visits.len(),
        planned(task, visits.take(n)).refusal is Some,
    ensures
        planned(task, visits) == planned(task, visits.take(n)),
    decreases visits.len() - n,
{
    if n < visits.len() {
        assert(visits.take(n + 1).drop_last() =~= visits.take(n));
        lemma_plan_ends(task, visits, n + 1);
    } else {
        assert(visits.take(n) =~= visits);
    }
}

fn append_steps(out: &mut Vec<TreeStep>, more: Vec<TreeStep>)
    ensures
        deeds_of(final(out)@) == deeds_of(old(out)@) + deeds_of(more@),
{
    let mut more = more;
    let ghost added = more@;
    out.append(&mut more);
    assert(deeds_of(out@) =~= deeds_of(old(out)@) + deeds_of(added));
}

/// The plan of a task along a walk.
pub fn plan_task(task: &TreeTask, visits: &Vec<Visit>) -> (plan: TreePlan)
    ensures
        plan@ == planned(task@, visit_views(visits@)),
{
    let ghost all = visit_views(visits@);
    let mut steps: Vec<TreeStep> = Vec::new();
    let mut i: usize = 0;
    proof {
        assert(all.take(0) =~= Seq::<VisitView>::empty());
        assert(deeds_of(steps@) =~= Seq::<Deed>::empty());
    }
    while i < visits.len()
        invariant
            i <= visits@.len(),
            all == visit_views(visits@),
            planned(task@, all.take(i as int)) == done(deeds_of(steps@)),
        decreases visits@.len() - i,
    {
        proof {
            assert(all.take(i + 1).drop_last() =~= all.take(i as int));
            assert(all.take(i + 1).last() == visits@[i as int]@);
        }
        let one = step_of(task, &visits[i]);
        append_steps(&mut steps, one.steps);
        if let Some(refusal) = one.refusal {
            proof {
                lemma_plan_ends(task@, all, i + 1);
            }
            return TreePlan { steps, refusal: Some(refusal) };
        }
        i += 1;
    }
    assert(all.take(i as int) =~= all);
    TreePlan { steps, refusal: None }
}

/// The plan of a task on a tree whose root stands at a path.
pub open spec fn task_plan(task: Task, tree: Tree, root: Seq<char>) -> Plan {
    planned(task, walk(tree, root, Seq::empty(), true))
}

/// The hardening of a frozen source.
pub fn harden_frozen_source(tree: &TreeNode, root: &str) -> (plan: TreePlan)
    ensures
        plan@ == task_plan(Task::HardenSource, tree@, root@),
{
    let visits = walk_tree(tree, root);
    plan_task(&TreeTask::HardenSource, &visits)
}

/// Why a plan ends early, as an outcome.
fn outcome_of(plan: TreePlan) -> (outcome: Result<(), Refusal>)
    ensures
        crate::text::judged(outcome, plan@.refusal),
{
    match plan.refusal {
        Some(refusal) => Err(refusal),
        None => Ok(()),
    }
}

/// Admits a frozen source as hardening leaves one.
pub fn validate_frozen_source(tree: &TreeNode, root: &str) -> (outcome: Result<(), Refusal>)
    ensures
        crate::text::judged(
            outcome,
            task_plan(Task::ValidateSource, tree@, root@).refusal,
        ),
{
    let visits = walk_tree(tree, root);
    outcome_of(plan_task(&TreeTask::ValidateSource, &visits))
}

/// Admits the links of a frozen source: each resolves within it.
pub fn validate_frozen_source_symlinks(tree: &TreeNode, root: &str) -> (outcome: Result<
    (),
    Refusal,
>)
    ensures
        crate::text::judged(outcome, task_plan(Task::ResolveLinks, tree@, root@).refusal),
{
    let visits = walk_tree(tree, root);
    outcome_of(plan_task(&TreeTask::ResolveLinks, &visits))
}

/// What is hashed of a frozen source, in order.
pub fn frozen_source_sha256(tree: &TreeNode, root: &str) -> (plan: TreePlan)
    ensures
        plan@ == task_plan(Task::HashSource, tree@, root@),
{
    let visits = walk_tree(tree, root);
    plan_task(&TreeTask::HashSource, &visits)
}

/// What is hashed of an artifact that is a directory, in order.
pub fn digest_tree(tree: &TreeNode, root: &str) -> (plan: TreePlan)
    ensures
        plan@ == task_plan(Task::HashArtifact, tree@, root@),
{
    let visits = walk_tree(tree, root);
    plan_task(&TreeTask::HashArtifact, &visits)
}

/// The handing over of a workspace to its runner, which only root can do.
pub fn assign_runner_tree(
    is_root: bool,
    tree: &TreeNode,
    root: &str,
    identity: ProcessIdentity,
) -> (plan: TreePlan)
    ensures
        plan@ == (if is_root {
            task_plan(Task::AssignRunner(identity), tree@, root@)
        } else {
            refused("runner workspace ownership requires root Idunn"@)
        }),
{
    if !is_root {
        return end_in("runner workspace ownership requires root Idunn");
    }
    let visits = walk_tree(tree, root);
    plan_task(&TreeTask::AssignRunner { identity }, &visits)
}

/// Why a tree may not be copied, if so, before its first entry.
pub open spec fn copy_refusal(tree: Tree, destination_exists: bool) -> Option<Seq<char>> {
    either(
        unless(tree.facts.is_dir, "source tree is not a directory"@),
        unless(!destination_exists, "destination tree already exists"@),
    )
}

/// The copying of a tree to a place where nothing is yet. The top of the tree is what its
/// path leads to, with every link followed; of the entries below it none is.
pub fn copy_tree(
    tree: &TreeNode,
    source: &str,
    destination: &str,
    destination_exists: bool,
) -> (plan: TreePlan)
    ensures
        plan@ == match copy_refusal(tree@, destination_exists) {
            Some(w) => refused(w),
            None => task_plan(Task::CopyInto(destination@), tree@, source@),
        },
{
    if !tree.is_directory() {
        return end_in("source tree is not a directory");
    }
    if destination_exists {
        return end_in("destination tree already exists");
    }
    let visits = walk_tree(tree, source);
    let task = TreeTask::CopyInto { destination: destination.to_owned() };
    plan_task(&task, &visits)
}

/// The places of the executable artifacts of a release.
pub open spec fn executable_places(
    root: Seq<char>,
    artifacts: Seq<ArtifactReceipt>,
) -> Seq<Seq<char>>
    decreases artifacts.len(),
{
    if artifacts.len() == 0 {
        Seq::empty()
    } else {
        let earlier = executable_places(root, artifacts.drop_last());
        if artifacts.last().executable {
            earlier.push(joined(root, artifacts.last().destination@))
        } else {
            earlier
        }
    }
}

fn executables_of(root: &str, artifacts: &Vec<ArtifactReceipt>) -> (list: Vec<String>)
    ensures
        texts(list@) == executable_places(root@, artifacts@),
{
    let mut list: Vec<String> = Vec::new();
    let mut i: usize = 0;
    proof {
        assert(artifacts@.take(0) =~= Seq::<ArtifactReceipt>::empty());
        assert(texts(list@) =~= Seq::<Seq<char>>::empty());
    }
    while i < artifacts.len()
        invariant
            i <= artifacts@.len(),
            texts(list@) == executable_places(root@, artifacts@.take(i as int)),
        decreases artifacts@.len() - i,
    {
        proof {
            assert(artifacts@.take(i + 1).drop_last() =~= artifacts@.take(i as int));
            assert(artifacts@.take(i + 1).last() == artifacts@[i as int]);
        }
        if artifacts[i].executable {
            crate::text::push_text(&mut list, join(root, artifacts[i].destination.as_str()));
        }
        i += 1;
    }
    assert(artifacts@.take(i as int) =~= artifacts@);
    list
}

/// The hardening of an installed release.
pub fn harden_installed_release(tree: &TreeNode, root: &str, artifacts: &Vec<ArtifactReceipt>) -> (
    plan: TreePlan)
    ensures
        plan@ == task_plan(
            Task::HardenRelease(root@, executable_places(root@, artifacts@)),
            tree@,
            root@,
        ),
{
    let visits = walk_tree(tree, root);
    let executables = executables_of(root, artifacts);
    plan_task(&TreeTask::HardenRelease { root: root.to_owned(), executables }, &visits)
}

/// A sum that stays at the largest number once it gets there.
pub open spec fn saturated(n: int) -> u64 {
    if n <= u64::MAX {
        n as u64
    } else {
        u64::MAX
    }
}

/// Why an artifact may not be copied out of a root, if so.
pub open spec fn artifact_refusal(root: Seq<char>, source: Seq<char>, f: FileFacts) -> Option<
    Seq<char>,
> {
    either(
        unless(below(source, root), "artifact source escapes its root"@),
        unless(
            f.is_dir || f.is_file,
            "artifact output is not a regular file or directory"@,
        ),
    )
}

/// Decides how an artifact is copied, given the canonical paths of its root and itself:
/// as a whole tree, or as one file.
pub fn copy_artifact(root: &str, source: &str, f: &FileFacts) -> (outcome: Result<bool, Refusal>)
    ensures
        crate::text::judged(outcome, artifact_refusal(root@, source@, *f)),
        outcome matches Ok(whole_tree) ==> whole_tree == f.is_dir,
{
    crate::text::check(is_below(source, root), "artifact source escapes its root")?;
    if f.is_dir {
        Ok(true)
    } else if f.is_file {
        Ok(false)
    } else {
        Err(refuse("artifact output is not a regular file or directory"))
    }
}

/// What a deed adds to a digest, given what the file it reads holds.
pub open spec fn hashed(deed: Deed, contents: Seq<u8>) -> Seq<u8> {
    match deed {
        Deed::Hash(bytes) => bytes,
        Deed::HashContents(_) => contents,
        Deed::HashSized(_) => spec_u64_to_le_bytes(contents.len() as u64) + contents,
        Deed::HashTarget(target) => target,
        _ => Seq::empty(),
    }
}

/// What the first deeds add to a digest, given what the file of each holds.
pub open spec fn all_hashed(deeds: Seq<Deed>, contents: Seq<Seq<u8>>) -> Seq<u8>
    decreases deeds.len(),
{
    if deeds.len() == 0 {
        Seq::empty()
    } else {
        all_hashed(deeds.drop_last(), contents) + hashed(
            deeds.last(),
            contents[deeds.len() - 1],
        )
    }
}

/// How much a deed adds to the size of an artifact, given what the file it reads holds.
pub open spec fn weight(deed: Deed, contents: Seq<u8>) -> int {
    match deed {
        Deed::HashSized(_) => contents.len() as int,
        Deed::HashTarget(target) => target.len() as int,
        _ => 0,
    }
}

/// The size of an artifact: that of what its files hold and of its links' targets.
pub open spec fn size_of(deeds: Seq<Deed>, contents: Seq<Seq<u8>>) -> int
    decreases deeds.len(),
{
    if deeds.len() == 0 {
        0
    } else {
        size_of(deeds.drop_last(), contents) + weight(deeds.last(), contents[deeds.len() - 1])
    }
}

/// The hashing of a tree under way: what was carried into its digest so far, and how much that
/// adds to its size.
pub struct TreeDigest {
    pub hasher: Hasher,
    pub size: u64,
}

impl TreeDigest {
    /// The bytes that were carried into the digest.
    pub open spec fn fed(&self) -> Seq<u8> {
        absorbed(self.hasher)
    }

    /// A digest that nothing was carried into yet.
    pub fn begin() -> (digest: Self)
        ensures
            digest.fed() == Seq::<u8>::empty(),
            digest.size == 0,
    {
        TreeDigest { hasher: begin_digest(), size: 0 }
    }

    /// Carries a deed into the digest, given what the file it reads holds.
    pub fn carry(&mut self, step: &TreeStep, contents: &[u8])
        ensures
            final(self).fed() == old(self).fed() + hashed(step@, contents@),
            final(self).size == saturated(old(self).size + weight(step@, contents@)),
    {
        let ghost before = self.fed();
        match step {
            TreeStep::Hash { bytes } => absorb(&mut self.hasher, bytes.as_slice()),
            TreeStep::HashContents { .. } => absorb(&mut self.hasher, contents),
            TreeStep::HashSized { .. } => {
                let len = u64_to_le_bytes(contents.len() as u64);
                absorb(&mut self.hasher, len.as_slice());
                absorb(&mut self.hasher, contents);
                assert(self.fed() =~= before + (len@ + contents@));
                self.size = self.size.saturating_add(contents.len() as u64);
            },
            TreeStep::HashTarget { target } => {
                absorb(&mut self.hasher, target.as_slice());
                self.size = self.size.saturating_add(target.len() as u64);
            },
            _ => {
                assert(before =~= before + Seq::<u8>::empty());
            },
        }
    }

    /// The identifier of what was carried into the digest.
    pub fn snapshot(self) -> (s: String)
        ensures
            s@ == digest_id(self.fed()),
    {
        finish_id(self.hasher)
    }

    /// The digest and the size of an artifact that is a directory, which must hold something.
    pub fn finding(self) -> (outcome: Result<ArtifactFinding, Refusal>)
        ensures
            match outcome {
                Ok(found) => self.size > 0 && found.sha256@ == raw_digest_text(self.fed())
                    && found.size_bytes == self.size,
                Err(refusal) => self.size == 0 && refusal@
                    == "artifact directory has no file content"@,
            },
    {
        if self.size == 0 {
            return Err(refuse("artifact directory has no file content"));
        }
        Ok(ArtifactFinding { size_bytes: self.size, sha256: finish_raw(self.hasher) })
    }
}

/// A file whose contents alone are hashed may be carried in pieces, one after the other: that
/// comes to the same bytes, and to the same size.
pub proof fn contents_may_be_carried_in_pieces(path: Seq<char>, one: Seq<u8>, two: Seq<u8>)
    ensures
        hashed(Deed::HashContents(path), one + two) == hashed(Deed::HashContents(path), one)
            + hashed(Deed::HashContents(path), two),
        weight(Deed::HashContents(path), one + two) == weight(Deed::HashContents(path), one)
            + weight(Deed::HashContents(path), two),
        hashed(Deed::HashContents(path), Seq::empty()) == Seq::<u8>::empty(),
{
}

/// A digest that every deed of a plan was carried into, given what the file of each holds.
fn carried(steps: &Vec<TreeStep>, contents: &Vec<Vec<u8>>) -> (digest: TreeDigest)
    requires
        contents@.len() == steps@.len(),
    ensures
        digest.fed() == all_hashed(deeds_of(steps@), crate::text::byte_strings(contents@)),
        digest.size == saturated(
            size_of(deeds_of(steps@), crate::text::byte_strings(contents@)),
        ),
        size_of(deeds_of(steps@), crate::text::byte_strings(contents@)) >= 0,
{
    let ghost all = deeds_of(steps@);
    let ghost held = crate::text::byte_strings(contents@);
    let mut digest = TreeDigest::begin();
    let mut i: usize = 0;
    assert(all.take(0) =~= Seq::<Deed>::empty());
    while i < steps.len()
        invariant
            i <= steps@.len(),
            contents@.len() == steps@.len(),
            all == deeds_of(steps@),
            held == crate::text::byte_strings(contents@),
            digest.fed() == all_hashed(all.take(i as int), held),
            size_of(all.take(i as int), held) >= 0,
            digest.size == saturated(size_of(all.take(i as int), held)),
        decreases steps@.len() - i,
    {
        proof {
            assert(all.take(i + 1).drop_last() =~= all.take(i as int));
            assert(all.take(i + 1).last() == steps@[i as int]@);
            assert(held[i as int] == contents@[i as int]@);
        }
        digest.carry(&steps[i], contents[i].as_slice());
        i += 1;
    }
    assert(all.take(i as int) =~= all);
    digest
}

/// The identifier of a frozen source whose hashing was planned, given what the file of each
/// deed holds.
pub fn snapshot_of_steps(steps: &Vec<TreeStep>, contents: &Vec<Vec<u8>>) -> (s: String)
    requires
        contents@.len() == steps@.len(),
    ensures
        s@ == digest_id(all_hashed(deeds_of(steps@), crate::text::byte_strings(contents@))),
{
    let digest = carried(steps, contents);
    digest.snapshot()
}

/// The digest and the size of an artifact, or why it has none: those of a file's content,
/// or those of a directory's hashing with the content of each deed.
pub open spec fn artifact_found(tree: Tree, root: Seq<char>, contents: Seq<Seq<u8>>) -> Result<
    (Seq<char>, u64),
    Seq<char>,
> {
    let visits = walk(tree, root, Seq::empty(), true);
    if tree.facts.is_file {
        Ok((raw_digest_text(contents[0]), contents[0].len() as u64))
    } else if !tree.facts.is_dir {
        Err("artifact is not a file or directory"@)
    } else {
        match planned(Task::HashArtifact, visits) {
            Plan { refusal: Some(words), .. } => Err(words),
            Plan { steps, refusal: None } => if size_of(steps, contents) > 0 {
                Ok(
                    (
                        raw_digest_text(all_hashed(steps, contents)),
                        saturated(size_of(steps, contents)),
                    ),
                )
            } else {
                Err("artifact directory has no file content"@)
            },
        }
    }
}

/// The digest and the size of an artifact, given what each file that its hashing reads
/// holds. A file is read whole; a directory is read as its plan has it.
pub fn digest_artifact(tree: &TreeNode, root: &str, contents: &Vec<Vec<u8>>) -> (outcome: Result<
    ArtifactFinding,
    Refusal,
>)
    requires
        tree@.facts.is_file ==> contents@.len() == 1,
        !tree@.facts.is_file && tree@.facts.is_dir ==> contents@.len() == task_plan(
            Task::HashArtifact,
            tree@,
            root@,
        ).steps.len(),
    ensures
        match artifact_found(tree@, root@, crate::text::byte_strings(contents@)) {
            Ok((sha256, size)) => outcome matches Ok(found) && found.sha256@ == sha256
                && found.size_bytes == size,
            Err(words) => outcome matches Err(refusal) && refusal@ == words,
        },
{
    let facts = tree.facts();
    if facts.is_file {
        let content = contents[0].as_slice();
        return Ok(
            ArtifactFinding { sha256: raw_sha256(content), size_bytes: content.len() as u64 },
        );
    }
    crate::text::check(facts.is_dir, "artifact is not a file or directory")?;
    let plan = digest_tree(tree, root);
    if let Some(refusal) = plan.refusal {
        return Err(refusal);
    }
    let digest = carried(&plan.steps, contents);
    digest.finding()
}

/// Admits the removal of a tree, given the canonical paths of its root and itself: it must
/// lie within the root and not be the root.
pub fn remove_tree_inside(root: &str, target: &str) -> (outcome: Result<(), Refusal>)
    ensures
        crate::text::judged(
            outcome,
            unless(
                below(target@, root@) && !same_path(target@, root@),
                "refusing broad tree removal"@,
            ),
        ),
{
    crate::text::check(
        is_below(target, root) && !is_same_path(target, root),
        "refusing broad tree removal",
    )
}

} // verus!
