//! A frozen tree as a whole: the plan by which it is written out, pass by pass, and the
//! contents of its objects as they are streamed.
use vstd::prelude::*;

use crate::deeds::ending;
use crate::gittree::{entry_views, GitTreeEntry, GitTreeEntryView};
use crate::materialize::{
    content_deeds, content_plan, directories_for, ensure_frozen_directory, is_lfs_pointer,
    link_paths, links_in, object_order, objects_of, pointer_paths, pointer_paths_of, shared_deeds,
    sharing, to_make, tree_directories, ContentDeed, ContentStep,
};
use crate::paths::{components, join, joined};
use crate::scan::starts;
use crate::stores::DirectoryPlan;
use crate::text::{byte_strings, copy_texts, push_text, push_texts, texts, Refusal};

verus! {

/// The directories that are made, in order, so that each of several is there, up to the
/// first that cannot be.
pub open spec fn makings(root: Seq<char>, made: Seq<Seq<char>>, wanted: Seq<Seq<char>>) -> (
    Seq<Seq<char>>,
    Option<Seq<char>>,
)
    decreases wanted.len(),
{
    if wanted.len() == 0 {
        (Seq::empty(), None)
    } else {
        let earlier = makings(root, made, wanted.drop_last());
        if earlier.1 is Some {
            earlier
        } else {
            match to_make(
                root,
                made + earlier.0,
                wanted.last(),
                components(wanted.last()).len(),
            ) {
                Err(w) => (earlier.0, Some(w)),
                Ok(more) => (earlier.0 + more, None),
            }
        }
    }
}

proof fn lemma_makings_end(
    root: Seq<char>,
    made: Seq<Seq<char>>,
    wanted: Seq<Seq<char>>,
    n: int,
)
    requires
        0 <= n <= wanted.len(),
        makings(root, made, wanted.take(n)).1 is Some,
    ensures
        makings(root, made, wanted) == makings(root, made, wanted.take(n)),
    decreases wanted.len() - n,
{
    if n < wanted.len() {
        assert(wanted.take(n + 1).drop_last() =~= wanted.take(n));
        lemma_makings_end(root, made, wanted, n + 1);
    } else {
        assert(wanted.take(n) =~= wanted);
    }
}

/// The directories that are made so that each of several is there.
pub fn make_directories(
    root: &str,
    made: &Vec<String>,
    wanted: &Vec<String>,
) -> (plan: DirectoryPlan)
    ensures
        (texts(plan.directories@), ending(plan.refusal)) == makings(
            root@,
            texts(made@),
            texts(wanted@),
        ),
{
    let ghost all = texts(wanted@);
    let ghost start = texts(made@);
    let mut there = copy_texts(made.as_slice());
    let mut directories: Vec<String> = Vec::new();
    let mut i: usize = 0;
    proof {
        assert(all.take(0) =~= Seq::<Seq<char>>::empty());
        assert(texts(directories@) =~= Seq::<Seq<char>>::empty());
        assert(texts(there@) =~= start + texts(directories@));
    }
    while i < wanted.len()
        invariant
            i <= wanted@.len(),
            all == texts(wanted@),
            start == texts(made@),
            texts(there@) == start + texts(directories@),
            makings(root@, start, all.take(i as int)) == (texts(directories@), None::<Seq<char>>),
        decreases wanted@.len() - i,
    {
        proof {
            assert(all.take(i + 1).drop_last() =~= all.take(i as int));
            assert(all.take(i + 1).last() == wanted@[i as int]@);
        }
        match ensure_frozen_directory(root, &there, wanted[i].as_str()) {
            Ok(more) => {
                let ghost earlier = texts(directories@);
                push_texts(&mut there, more.as_slice());
                push_texts(&mut directories, more.as_slice());
                assert(texts(there@) =~= start + texts(directories@));
            },
            Err(refusal) => {
                proof {
                    lemma_makings_end(root@, start, all, i + 1);
                }
                return DirectoryPlan { directories, refusal: Some(refusal) };
            },
        }
        i += 1;
    }
    assert(all.take(i as int) =~= all);
    DirectoryPlan { directories, refusal: None }
}

/// One step by which a tree is written out. A content step says what is done with the
/// content of an object; a link is written from the content that was remembered for it.
#[derive(Clone, Debug, PartialEq, Eq)]
pub enum FreezeStep {
    MakeDirectory { path: String },
    Content { object: String, step: ContentStep },
    Link { path: String, place: String },
}

/// What a `FreezeStep` holds.
pub enum FreezeDeed {
    MakeDirectory(Seq<char>),
    Content(Seq<char>, ContentDeed),
    Link(Seq<char>, Seq<char>),
}

impl View for FreezeStep {
    type V = FreezeDeed;

    open spec fn view(&self) -> FreezeDeed {
        match self {
            FreezeStep::MakeDirectory { path } => FreezeDeed::MakeDirectory(path@),
            FreezeStep::Content { object, step } => FreezeDeed::Content(object@, step@),
            FreezeStep::Link { path, place } => FreezeDeed::Link(path@, place@),
        }
    }
}

/// What each step of a list holds.
pub open spec fn freeze_deeds(list: Seq<FreezeStep>) -> Seq<FreezeDeed> {
    Seq::new(list.len(), |i: int| list[i]@)
}

fn push_step(steps: &mut Vec<FreezeStep>, step: FreezeStep)
    ensures
        freeze_deeds(final(steps)@) == freeze_deeds(old(steps)@).push(step@),
{
    steps.push(step);
    assert(freeze_deeds(steps@) =~= freeze_deeds(old(steps)@).push(step@));
}

/// The making of directories, one by one.
pub open spec fn making_deeds(directories: Seq<Seq<char>>) -> Seq<FreezeDeed> {
    Seq::new(directories.len(), |i: int| FreezeDeed::MakeDirectory(directories[i]))
}

/// What is done with the content of one object, step by step.
pub open spec fn deeds_with(object: Seq<char>, deeds: Seq<ContentDeed>) -> Seq<FreezeDeed> {
    Seq::new(deeds.len(), |i: int| FreezeDeed::Content(object, deeds[i]))
}

/// The writing of links, one by one.
pub open spec fn link_deeds(destination: Seq<char>, paths: Seq<Seq<char>>) -> Seq<FreezeDeed> {
    Seq::new(paths.len(), |i: int| FreezeDeed::Link(paths[i], joined(destination, paths[i])))
}

/// What is done with the content of an object in a tree.
pub open spec fn object_deeds(
    destination: Seq<char>,
    entries: Seq<GitTreeEntryView>,
    object: Seq<char>,
) -> (Seq<ContentDeed>, Option<Seq<char>>) {
    shared_deeds(destination, sharing(entries, object), sharing(entries, object).len())
}

/// What is done with the contents of several objects in order, up to the first that an
/// entry refuses.
pub open spec fn content_pass(
    destination: Seq<char>,
    entries: Seq<GitTreeEntryView>,
    objects: Seq<Seq<char>>,
) -> (Seq<FreezeDeed>, Option<Seq<char>>)
    decreases objects.len(),
{
    if objects.len() == 0 {
        (Seq::empty(), None)
    } else {
        let earlier = content_pass(destination, entries, objects.drop_last());
        if earlier.1 is Some {
            earlier
        } else {
            let last = object_deeds(destination, entries, objects.last());
            (earlier.0 + deeds_with(objects.last(), last.0), last.1)
        }
    }
}

/// The files whose content is a pointer, object by object.
pub open spec fn pointers_of(
    destination: Seq<char>,
    entries: Seq<GitTreeEntryView>,
    objects: Seq<Seq<char>>,
    contents: Seq<Seq<u8>>,
) -> Seq<Seq<char>>
    decreases objects.len(),
{
    if objects.len() == 0 {
        Seq::empty()
    } else {
        pointers_of(destination, entries, objects.drop_last(), contents) + pointer_paths_of(
            object_deeds(destination, entries, objects.last()).0,
            starts(
                contents[objects.len() - 1],
                vstd::utf8::encode_utf8("version https://git-lfs.github.com/spec/v1\n"@),
            ),
        )
    }
}

/// The directories that a tree is written out with: its own place, and what its entries
/// need.
pub open spec fn wanted_directories(destination: Seq<char>, entries: Seq<GitTreeEntryView>) -> Seq<
    Seq<char>,
> {
    seq![destination] + directories_for(destination, entries).0
}

/// How a tree is written out: every directory, then every content, then every link. It
/// ends where a directory cannot be made or an entry is refused.
pub open spec fn freezing(
    destination: Seq<char>,
    root: Seq<char>,
    made: Seq<Seq<char>>,
    entries: Seq<GitTreeEntryView>,
) -> (Seq<FreezeDeed>, Option<Seq<char>>) {
    let directories = makings(root, made, wanted_directories(destination, entries));
    let contents = content_pass(destination, entries, objects_of(entries));
    let first = making_deeds(directories.0);
    if directories.1 is Some {
        (first, directories.1)
    } else if directories_for(destination, entries).1 is Some {
        (first, directories_for(destination, entries).1)
    } else if contents.1 is Some {
        (first + contents.0, contents.1)
    } else {
        (first + contents.0 + link_deeds(destination, links_in(entries)), None)
    }
}

/// How a tree is written out, what directories are there afterwards, and which of its files
/// are pointers.
#[derive(Debug, PartialEq, Eq)]
pub struct FreezePlan {
    pub steps: Vec<FreezeStep>,
    pub made: Vec<String>,
    pub pointers: Vec<String>,
    pub refusal: Option<Refusal>,
}

fn push_makings(steps: &mut Vec<FreezeStep>, directories: &Vec<String>)
    ensures
        freeze_deeds(final(steps)@) == freeze_deeds(old(steps)@) + making_deeds(
            texts(directories@),
        ),
{
    let ghost all = making_deeds(texts(directories@));
    let ghost start = freeze_deeds(steps@);
    let mut i: usize = 0;
    assert(start =~= start + all.take(0));
    while i < directories.len()
        invariant
            i <= directories@.len(),
            all == making_deeds(texts(directories@)),
            start == freeze_deeds(old(steps)@),
            freeze_deeds(steps@) == start + all.take(i as int),
        decreases directories@.len() - i,
    {
        push_step(steps, FreezeStep::MakeDirectory { path: directories[i].clone() });
        i += 1;
        assert(all.take(i as int) =~= all.take(i - 1).push(all[i - 1]));
        assert(start + all.take(i as int) =~= (start + all.take(i - 1)).push(all[i - 1]));
    }
    assert(all.take(i as int) =~= all);
}

fn copy_content_step(step: &ContentStep) -> (copy: ContentStep)
    ensures
        copy@ == step@,
{
    match step {
        ContentStep::Write { path, place, mode } => ContentStep::Write {
            path: path.clone(),
            place: place.clone(),
            mode: *mode,
        },
        ContentStep::CopyFirst { path, place, mode } => ContentStep::CopyFirst {
            path: path.clone(),
            place: place.clone(),
            mode: *mode,
        },
        ContentStep::Remember { path } => ContentStep::Remember { path: path.clone() },
    }
}

fn push_contents(steps: &mut Vec<FreezeStep>, object: &str, list: &Vec<ContentStep>)
    ensures
        freeze_deeds(final(steps)@) == freeze_deeds(old(steps)@) + deeds_with(
            object@,
            content_deeds(list@),
        ),
{
    let ghost all = deeds_with(object@, content_deeds(list@));
    let ghost start = freeze_deeds(steps@);
    let mut i: usize = 0;
    assert(start =~= start + all.take(0));
    while i < list.len()
        invariant
            i <= list@.len(),
            all == deeds_with(object@, content_deeds(list@)),
            start == freeze_deeds(old(steps)@),
            freeze_deeds(steps@) == start + all.take(i as int),
        decreases list@.len() - i,
    {
        let step = copy_content_step(&list[i]);
        push_step(steps, FreezeStep::Content { object: object.to_owned(), step });
        i += 1;
        assert(all.take(i as int) =~= all.take(i - 1).push(all[i - 1]));
        assert(start + all.take(i as int) =~= (start + all.take(i - 1)).push(all[i - 1]));
    }
    assert(all.take(i as int) =~= all);
}

fn push_links(steps: &mut Vec<FreezeStep>, destination: &str, paths: &Vec<String>)
    ensures
        freeze_deeds(final(steps)@) == freeze_deeds(old(steps)@) + link_deeds(
            destination@,
            texts(paths@),
        ),
{
    let ghost all = link_deeds(destination@, texts(paths@));
    let ghost start = freeze_deeds(steps@);
    let mut i: usize = 0;
    assert(start =~= start + all.take(0));
    while i < paths.len()
        invariant
            i <= paths@.len(),
            all == link_deeds(destination@, texts(paths@)),
            start == freeze_deeds(old(steps)@),
            freeze_deeds(steps@) == start + all.take(i as int),
        decreases paths@.len() - i,
    {
        let place = join(destination, paths[i].as_str());
        push_step(steps, FreezeStep::Link { path: paths[i].clone(), place });
        i += 1;
        assert(all.take(i as int) =~= all.take(i - 1).push(all[i - 1]));
        assert(start + all.take(i as int) =~= (start + all.take(i - 1)).push(all[i - 1]));
    }
    assert(all.take(i as int) =~= all);
}

proof fn lemma_content_end(
    destination: Seq<char>,
    entries: Seq<GitTreeEntryView>,
    objects: Seq<Seq<char>>,
    n: int,
)
    requires
        0 <= n <= objects.len(),
        content_pass(destination, entries, objects.take(n)).1 is Some,
    ensures
        content_pass(destination, entries, objects) == content_pass(
            destination,
            entries,
            objects.take(n),
        ),
    decreases objects.len() - n,
{
    if n < objects.len() {
        assert(objects.take(n + 1).drop_last() =~= objects.take(n));
        lemma_content_end(destination, entries, objects, n + 1);
    } else {
        assert(objects.take(n) =~= objects);
    }
}

/// Plans the writing of the contents behind the steps that are there. Where it ends early,
/// no pointer is reported.
fn plan_contents(
    steps: &mut Vec<FreezeStep>,
    destination: &str,
    entries: &Vec<GitTreeEntry>,
    objects: &Vec<String>,
    contents: &Vec<Vec<u8>>,
) -> (outcome: Result<Vec<String>, Refusal>)
    requires
        contents@.len() == objects@.len(),
    ensures
        ({
            let pass = content_pass(destination@, entry_views(entries@), texts(objects@));
            &&& freeze_deeds(final(steps)@) == freeze_deeds(old(steps)@) + pass.0
            &&& match outcome {
                Ok(pointers) => pass.1 is None && texts(pointers@) == pointers_of(
                    destination@,
                    entry_views(entries@),
                    texts(objects@),
                    byte_strings(contents@),
                ),
                Err(refusal) => pass.1 == Some(refusal@),
            }
        }),
{
    let ghost views = entry_views(entries@);
    let ghost all = texts(objects@);
    let ghost held = byte_strings(contents@);
    let ghost start = freeze_deeds(steps@);
    let mut pointers: Vec<String> = Vec::new();
    let mut i: usize = 0;
    proof {
        assert(all.take(0) =~= Seq::<Seq<char>>::empty());
        assert(texts(pointers@) =~= Seq::<Seq<char>>::empty());
        assert(start =~= start + Seq::<FreezeDeed>::empty());
    }
    while i < objects.len()
        invariant
            i <= objects@.len(),
            contents@.len() == objects@.len(),
            views == entry_views(entries@),
            all == texts(objects@),
            held == byte_strings(contents@),
            start == freeze_deeds(old(steps)@),
            content_pass(destination@, views, all.take(i as int)).1 is None,
            freeze_deeds(steps@) == start + content_pass(
                destination@,
                views,
                all.take(i as int),
            ).0,
            texts(pointers@) == pointers_of(destination@, views, all.take(i as int), held),
        decreases objects@.len() - i,
    {
        proof {
            assert(all.take(i + 1).drop_last() =~= all.take(i as int));
            assert(all.take(i + 1).last() == objects@[i as int]@);
            assert(held[i as int] == contents@[i as int]@);
        }
        let plan = content_plan(destination, entries, objects[i].as_str());
        let ghost before = content_pass(destination@, views, all.take(i as int)).0;
        push_contents(steps, objects[i].as_str(), &plan.steps);
        assert(freeze_deeds(steps@) =~= start + content_pass(
            destination@,
            views,
            all.take(i + 1),
        ).0);
        if let Some(refusal) = plan.refusal {
            proof {
                lemma_content_end(destination@, views, all, i + 1);
            }
            return Err(refusal);
        }
        let is_pointer = is_lfs_pointer(contents[i].as_slice());
        let more = pointer_paths(&plan.steps, is_pointer);
        push_texts(&mut pointers, more.as_slice());
        i += 1;
    }
    assert(all.take(i as int) =~= all);
    Ok(pointers)
}

/// How the tree of a revision is written out below a root, given the directories that were
/// made there and what each of its objects holds, in their order.
pub fn materialize_tree_raw(
    destination: &str,
    frozen_root: &str,
    made: &Vec<String>,
    entries: &Vec<GitTreeEntry>,
    contents: &Vec<Vec<u8>>,
) -> (plan: FreezePlan)
    requires
        contents@.len() == objects_of(entry_views(entries@)).len(),
    ensures
        (freeze_deeds(plan.steps@), ending(plan.refusal)) == freezing(
            destination@,
            frozen_root@,
            texts(made@),
            entry_views(entries@),
        ),
        texts(plan.made@) == texts(made@) + makings(
            frozen_root@,
            texts(made@),
            wanted_directories(destination@, entry_views(entries@)),
        ).0,
        plan.refusal is None ==> texts(plan.pointers@) == pointers_of(
            destination@,
            entry_views(entries@),
            objects_of(entry_views(entries@)),
            byte_strings(contents@),
        ),
        plan.refusal is Some ==> plan.pointers@.len() == 0,
{
    let ghost views = entry_views(entries@);
    let needed = tree_directories(destination, entries);
    let mut wanted: Vec<String> = Vec::new();
    push_text(&mut wanted, destination.to_owned());
    push_texts(&mut wanted, needed.directories.as_slice());
    assert(texts(wanted@) =~= wanted_directories(destination@, views));
    let directories = make_directories(frozen_root, made, &wanted);
    let mut steps: Vec<FreezeStep> = Vec::new();
    push_makings(&mut steps, &directories.directories);
    let ghost first = making_deeds(texts(directories.directories@));
    assert(freeze_deeds(steps@) =~= first);
    let mut there = copy_texts(made.as_slice());
    push_texts(&mut there, directories.directories.as_slice());
    let mut pointers: Vec<String> = Vec::new();
    if let Some(refusal) = directories.refusal {
        return FreezePlan { steps, made: there, pointers, refusal: Some(refusal) };
    }
    if let Some(refusal) = needed.refusal {
        return FreezePlan { steps, made: there, pointers, refusal: Some(refusal) };
    }
    let objects = object_order(entries);
    assert(objects@.len() == texts(objects@).len());
    match plan_contents(&mut steps, destination, entries, &objects, contents) {
        Err(refusal) => FreezePlan { steps, made: there, pointers, refusal: Some(refusal) },
        Ok(found) => {
            pointers = found;
            let links = link_paths(entries);
            push_links(&mut steps, destination, &links);
            FreezePlan { steps, made: there, pointers, refusal: None }
        },
    }
}

} // verus!
