//! What holds of every tree that is written out.
use vstd::prelude::*;

use crate::freeze::{
    content_pass, deeds_with, freezing, link_deeds, making_deeds, makings, object_deeds,
    pointers_of, wanted_directories, FreezeDeed,
};
use crate::gittree::GitTreeEntryView;
use crate::materialize::{
    content_deed, directories_are_made_within_the_root, directories_for, entry_directory, is_made,
    is_regular, links_in, objects_of, pointer_paths_of, shared_deeds, sharing, to_make,
    written_mode, written_paths, ContentDeed,
};
use crate::paths::{below, components, joined, lemma_path_text, parent, same_path};
use crate::scan::starts;

verus! {

/// Where a step writes a file or a link, if it does.
pub open spec fn written_place(deed: FreezeDeed) -> Option<Seq<char>> {
    match deed {
        FreezeDeed::MakeDirectory(_) => None,
        FreezeDeed::Content(_, ContentDeed::Write(_, place, _)) => Some(place),
        FreezeDeed::Content(_, ContentDeed::CopyFirst(_, place, _)) => Some(place),
        FreezeDeed::Content(_, ContentDeed::Remember(_)) => None,
        FreezeDeed::Link(_, place) => Some(place),
    }
}

/// The order in which the passes of a freeze come.
pub open spec fn pass_of(deed: FreezeDeed) -> int {
    match deed {
        FreezeDeed::MakeDirectory(_) => 0,
        FreezeDeed::Content(_, _) => 1,
        FreezeDeed::Link(_, _) => 2,
    }
}

proof fn lemma_content_passes(
    destination: Seq<char>,
    entries: Seq<GitTreeEntryView>,
    objects: Seq<Seq<char>>,
)
    ensures
        forall|i: int|
            0 <= i < content_pass(destination, entries, objects).0.len() ==> pass_of(
                #[trigger] content_pass(destination, entries, objects).0[i],
            ) == 1,
    decreases objects.len(),
{
    if objects.len() > 0 {
        let earlier = content_pass(destination, entries, objects.drop_last()).0;
        let all = content_pass(destination, entries, objects).0;
        lemma_content_passes(destination, entries, objects.drop_last());
        assert forall|i: int| 0 <= i < all.len() implies pass_of(#[trigger] all[i]) == 1 by {
            if i < earlier.len() {
                assert(all[i] == earlier[i]);
            }
        }
    }
}

/// A tree is written out pass by pass: every directory is made before any content is
/// written, and every content is written before any link is there that could be written
/// through.
pub proof fn links_come_last(
    destination: Seq<char>,
    root: Seq<char>,
    made: Seq<Seq<char>>,
    entries: Seq<GitTreeEntryView>,
    i: int,
    j: int,
)
    requires
        0 <= i < j < freezing(destination, root, made, entries).0.len(),
    ensures
        pass_of(freezing(destination, root, made, entries).0[i]) <= pass_of(
            freezing(destination, root, made, entries).0[j],
        ),
{
    lemma_content_passes(destination, entries, objects_of(entries));
}

proof fn lemma_made_there(root: Seq<char>, made: Seq<Seq<char>>, path: Seq<char>)
    ensures
        to_make(root, made, path, components(path).len()) matches Ok(list) ==> is_made(
            made + list,
            path,
        ),
{
    let n = components(path).len();
    if let Ok(list) = to_make(root, made, path, n) {
        if is_made(made, path) {
            lemma_still_made(made, list, path);
        } else {
            assert(list.last() == path);
            assert((made + list)[made.len() + list.len() - 1] == path);
            assert(same_path((made + list)[made.len() + list.len() - 1], path));
        }
    }
}

proof fn lemma_still_made(made: Seq<Seq<char>>, more: Seq<Seq<char>>, path: Seq<char>)
    requires
        is_made(made, path),
    ensures
        is_made(made + more, path),
{
    let i = choose|i: int| 0 <= i < made.len() && same_path(#[trigger] made[i], path);
    assert((made + more)[i] == made[i]);
}

proof fn lemma_all_made(root: Seq<char>, made: Seq<Seq<char>>, wanted: Seq<Seq<char>>)
    ensures
        makings(root, made, wanted).1 is None ==> forall|i: int|
            0 <= i < wanted.len() ==> is_made(
                made + makings(root, made, wanted).0,
                #[trigger] wanted[i],
            ),
        forall|i: int|
            0 <= i < makings(root, made, wanted).0.len() ==> below(
                #[trigger] makings(root, made, wanted).0[i],
                root,
            ),
    decreases wanted.len(),
{
    if wanted.len() > 0 {
        let fewer = wanted.drop_last();
        let earlier = makings(root, made, fewer);
        lemma_all_made(root, made, fewer);
        if earlier.1 is None {
            let last = wanted.last();
            let there = made + earlier.0;
            lemma_made_there(root, there, last);
            directories_are_made_within_the_root(root, there, last);
            if let Ok(more) = to_make(root, there, last, components(last).len()) {
                let all = makings(root, made, wanted).0;
                assert(all == earlier.0 + more);
                assert(there + more =~= made + all);
                assert forall|i: int| 0 <= i < wanted.len() implies is_made(
                    made + all,
                    #[trigger] wanted[i],
                ) by {
                    if i < fewer.len() {
                        assert(fewer[i] == wanted[i]);
                        lemma_still_made(there, more, wanted[i]);
                    }
                }
            }
        }
    }
}

proof fn lemma_directory_wanted(destination: Seq<char>, entries: Seq<GitTreeEntryView>, k: int)
    requires
        0 <= k < entries.len(),
        directories_for(destination, entries).1 is None,
    ensures
        entry_directory(destination, entries[k]) matches Ok(directory) && directories_for(
            destination,
            entries,
        ).0.contains(directory),
    decreases entries.len(),
{
    let fewer = entries.drop_last();
    let earlier = directories_for(destination, fewer);
    let all = directories_for(destination, entries).0;
    if k < fewer.len() {
        lemma_directory_wanted(destination, fewer, k);
        assert(fewer[k] == entries[k]);
        let directory = entry_directory(destination, entries[k])->Ok_0;
        let i = choose|i: int| 0 <= i < earlier.0.len() && earlier.0[i] == directory;
        assert(all[i] == directory);
    } else {
        assert(all[earlier.0.len() as int] == entry_directory(destination, entries[k])->Ok_0);
    }
}

/// Whether an entry of a tree is what is written at a place.
pub open spec fn is_placed(
    destination: Seq<char>,
    entries: Seq<GitTreeEntryView>,
    place: Seq<char>,
    k: int,
) -> bool {
    &&& 0 <= k < entries.len()
    &&& place == joined(destination, entries[k].path)
    &&& is_regular(entries[k]) || entries[k].mode == "120000"@
}

proof fn lemma_shared_entry(entries: Seq<GitTreeEntryView>, object: Seq<char>, i: int)
    requires
        0 <= i < sharing(entries, object).len(),
    ensures
        exists|k: int| 0 <= k < entries.len()
            && #[trigger] entries[k] == sharing(entries, object)[i],
    decreases entries.len(),
{
    let fewer = entries.drop_last();
    let earlier = sharing(fewer, object);
    if i < earlier.len() {
        lemma_shared_entry(fewer, object, i);
        let k = choose|k: int| 0 <= k < fewer.len() && #[trigger] fewer[k] == earlier[i];
        assert(entries[k] == sharing(entries, object)[i]);
    } else {
        assert(entries[entries.len() - 1] == sharing(entries, object)[i]);
    }
}

proof fn lemma_shared_deed(
    destination: Seq<char>,
    group: Seq<GitTreeEntryView>,
    n: nat,
    i: int,
)
    requires
        0 <= i < shared_deeds(destination, group, n).0.len(),
    ensures
        i < n,
        content_deed(destination, group[0], group[i], i == 0) == Ok::<ContentDeed, Seq<char>>(
            shared_deeds(destination, group, n).0[i],
        ),
    decreases n,
{
    if n > 0 {
        let earlier = shared_deeds(destination, group, (n - 1) as nat);
        lemma_shared_size(destination, group, (n - 1) as nat);
        if i < earlier.0.len() {
            lemma_shared_deed(destination, group, (n - 1) as nat, i);
            assert(shared_deeds(destination, group, n).0[i] == earlier.0[i]);
        }
    }
}

proof fn lemma_shared_size(destination: Seq<char>, group: Seq<GitTreeEntryView>, n: nat)
    ensures
        shared_deeds(destination, group, n).0.len() <= n,
        shared_deeds(destination, group, n).1 is None ==> shared_deeds(
            destination,
            group,
            n,
        ).0.len() == n,
    decreases n,
{
    if n > 0 {
        lemma_shared_size(destination, group, (n - 1) as nat);
    }
}

proof fn lemma_content_places(
    destination: Seq<char>,
    entries: Seq<GitTreeEntryView>,
    objects: Seq<Seq<char>>,
    i: int,
)
    requires
        0 <= i < content_pass(destination, entries, objects).0.len(),
    ensures
        written_place(content_pass(destination, entries, objects).0[i]) matches Some(place)
            ==> exists|k: int| is_placed(destination, entries, place, k),
    decreases objects.len(),
{
    if objects.len() > 0 {
        let fewer = objects.drop_last();
        let earlier = content_pass(destination, entries, fewer).0;
        let all = content_pass(destination, entries, objects).0;
        if i < earlier.len() {
            lemma_content_places(destination, entries, fewer, i);
            assert(all[i] == earlier[i]);
        } else {
            let object = objects.last();
            let group = sharing(entries, object);
            let deeds = object_deeds(destination, entries, object).0;
            let j = i - earlier.len();
            assert(all[i] == deeds_with(object, deeds)[j]);
            lemma_shared_deed(destination, group, group.len(), j);
            lemma_shared_entry(entries, object, j);
            let k = choose|k: int| 0 <= k < entries.len() && #[trigger] entries[k] == group[j];
            if let Some(place) = written_place(all[i]) {
                assert(is_placed(destination, entries, place, k));
            }
        }
    }
}

proof fn lemma_link_entry(entries: Seq<GitTreeEntryView>, i: int)
    requires
        0 <= i < links_in(entries).len(),
    ensures
        exists|k: int|
            0 <= k < entries.len() && (#[trigger] entries[k]).path == links_in(entries)[i]
                && entries[k].mode == "120000"@,
    decreases entries.len(),
{
    let fewer = entries.drop_last();
    let earlier = links_in(fewer);
    if i < earlier.len() {
        lemma_link_entry(fewer, i);
        let k = choose|k: int|
            0 <= k < fewer.len() && (#[trigger] fewer[k]).path == earlier[i] && fewer[k].mode
                == "120000"@;
        assert(entries[k] == fewer[k]);
    } else {
        assert(entries[entries.len() - 1].path == links_in(entries)[i]);
    }
}

proof fn lemma_placed_within(
    destination: Seq<char>,
    root: Seq<char>,
    made: Seq<Seq<char>>,
    entries: Seq<GitTreeEntryView>,
    place: Seq<char>,
    k: int,
)
    requires
        is_placed(destination, entries, place, k),
        makings(root, made, wanted_directories(destination, entries)).1 is None,
        directories_for(destination, entries).1 is None,
        forall|i: int| 0 <= i < made.len() ==> below(#[trigger] made[i], root),
    ensures
        below(place, root),
        parent(place) matches Some(above) && is_made(
            made + makings(root, made, wanted_directories(destination, entries)).0,
            above,
        ),
{
    let wanted = wanted_directories(destination, entries);
    let needed = directories_for(destination, entries).0;
    let new = makings(root, made, wanted).0;
    lemma_directory_wanted(destination, entries, k);
    let above = parent(place)->Some_0;
    assert(needed.contains(above));
    let i = choose|i: int| 0 <= i < needed.len() && needed[i] == above;
    assert(wanted[i + 1] == above);
    lemma_all_made(root, made, wanted);
    let there = made + new;
    let m = choose|m: int| 0 <= m < there.len() && same_path(#[trigger] there[m], above);
    assert(below(there[m], root)) by {
        if m < made.len() {
            assert(there[m] == made[m]);
        } else {
            assert(there[m] == new[m - made.len()]);
        }
    }
    let parts = components(place);
    assert(parts.take(parts.len() - 1) =~= parts.drop_last());
    lemma_path_text(place, parts.len() - 1);
    let depth = components(root).len() as int;
    assert(components(above) == parts.drop_last());
    assert(components(there[m]).take(depth) =~= parts.take(depth));
}

/// Whatever a freeze writes lies within its root: every directory that it makes, and every
/// file and link, in a directory that was made for it. Nothing is written into a directory
/// that was there before.
pub proof fn nothing_is_written_outside(
    destination: Seq<char>,
    root: Seq<char>,
    made: Seq<Seq<char>>,
    entries: Seq<GitTreeEntryView>,
    i: int,
)
    requires
        0 <= i < freezing(destination, root, made, entries).0.len(),
        forall|k: int| 0 <= k < made.len() ==> below(#[trigger] made[k], root),
    ensures
        freezing(destination, root, made, entries).0[i] matches FreezeDeed::MakeDirectory(path)
            ==> below(path, root),
        written_place(freezing(destination, root, made, entries).0[i]) matches Some(place)
            ==> below(place, root) && (parent(place) matches Some(above) && is_made(
            made + makings(root, made, wanted_directories(destination, entries)).0,
            above,
        )),
{
    let wanted = wanted_directories(destination, entries);
    let directories = makings(root, made, wanted);
    let first = making_deeds(directories.0);
    let contents = content_pass(destination, entries, objects_of(entries));
    let links = link_deeds(destination, links_in(entries));
    let deed = freezing(destination, root, made, entries).0[i];
    lemma_all_made(root, made, wanted);
    if i < first.len() {
        assert(deed == first[i]);
    } else {
        if i < first.len() + contents.0.len() {
            let j = i - first.len();
            assert(deed == contents.0[j]);
            lemma_content_passes(destination, entries, objects_of(entries));
            lemma_content_places(destination, entries, objects_of(entries), j);
        } else {
            let j = i - first.len() - contents.0.len();
            assert(deed == links[j]);
            lemma_link_entry(entries, j);
            let k = choose|k: int|
                0 <= k < entries.len() && (#[trigger] entries[k]).path == links_in(entries)[j]
                    && entries[k].mode == "120000"@;
            assert(is_placed(destination, entries, written_place(deed)->Some_0, k));
        }
        if let Some(place) = written_place(deed) {
            let k = choose|k: int| is_placed(destination, entries, place, k);
            lemma_placed_within(destination, root, made, entries, place, k);
        }
    }
}

proof fn lemma_known_object(entries: Seq<GitTreeEntryView>, k: int)
    requires
        0 <= k < entries.len(),
        entries[k].kind == "blob"@,
    ensures
        objects_of(entries).contains(entries[k].object),
    decreases entries.len(),
{
    let fewer = entries.drop_last();
    let earlier = objects_of(fewer);
    let all = objects_of(entries);
    if k < fewer.len() {
        assert(fewer[k] == entries[k]);
        lemma_known_object(fewer, k);
        let i = choose|i: int| 0 <= i < earlier.len() && earlier[i] == entries[k].object;
        assert(all[i] == entries[k].object);
    } else if !earlier.contains(entries[k].object) {
        assert(all[earlier.len() as int] == entries[k].object);
    }
}

proof fn lemma_objects_once(entries: Seq<GitTreeEntryView>)
    ensures
        objects_of(entries).no_duplicates(),
    decreases entries.len(),
{
    if entries.len() > 0 {
        lemma_objects_once(entries.drop_last());
    }
}

proof fn lemma_shares(entries: Seq<GitTreeEntryView>, object: Seq<char>, k: int)
    requires
        0 <= k < entries.len(),
        entries[k].kind == "blob"@,
        entries[k].object == object,
    ensures
        exists|i: int| 0 <= i < sharing(entries, object).len()
            && #[trigger] sharing(entries, object)[i] == entries[k],
    decreases entries.len(),
{
    let fewer = entries.drop_last();
    let earlier = sharing(fewer, object);
    let all = sharing(entries, object);
    if k < fewer.len() {
        assert(fewer[k] == entries[k]);
        lemma_shares(fewer, object, k);
        let i = choose|i: int| 0 <= i < earlier.len() && #[trigger] earlier[i] == entries[k];
        assert(all[i] == entries[k]);
    } else {
        assert(all[earlier.len() as int] == entries[k]);
    }
}

proof fn lemma_shared_kind(entries: Seq<GitTreeEntryView>, object: Seq<char>, i: int)
    requires
        0 <= i < sharing(entries, object).len(),
    ensures
        sharing(entries, object)[i].kind == "blob"@,
        sharing(entries, object)[i].object == object,
    decreases entries.len(),
{
    let fewer = entries.drop_last();
    let earlier = sharing(fewer, object);
    if i < earlier.len() {
        lemma_shared_kind(fewer, object, i);
        assert(sharing(entries, object)[i] == earlier[i]);
    }
}

proof fn lemma_pass_of_object(
    destination: Seq<char>,
    entries: Seq<GitTreeEntryView>,
    objects: Seq<Seq<char>>,
    o: int,
    j: int,
)
    requires
        0 <= o < objects.len(),
        content_pass(destination, entries, objects).1 is None,
    ensures
        object_deeds(destination, entries, objects[o]).1 is None,
        0 <= j < object_deeds(destination, entries, objects[o]).0.len() ==> content_pass(
            destination,
            entries,
            objects,
        ).0.contains(
            FreezeDeed::Content(
                objects[o],
                object_deeds(destination, entries, objects[o]).0[j],
            ),
        ),
    decreases objects.len(),
{
    let fewer = objects.drop_last();
    let earlier = content_pass(destination, entries, fewer).0;
    let all = content_pass(destination, entries, objects).0;
    let deeds = object_deeds(destination, entries, objects[o]).0;
    let wanted = FreezeDeed::Content(objects[o], deeds[j]);
    if o < fewer.len() {
        assert(fewer[o] == objects[o]);
        lemma_pass_of_object(destination, entries, fewer, o, j);
        if 0 <= j < deeds.len() {
            let i = choose|i: int| 0 <= i < earlier.len() && earlier[i] == wanted;
            assert(all[i] == wanted);
        }
    } else if 0 <= j < deeds.len() {
        assert(all[earlier.len() + j] == deeds_with(objects[o], deeds)[j]);
    }
}

proof fn lemma_link_written(entries: Seq<GitTreeEntryView>, k: int)
    requires
        0 <= k < entries.len(),
        entries[k].kind == "blob"@,
        entries[k].mode == "120000"@,
    ensures
        exists|i: int| 0 <= i < links_in(entries).len()
            && #[trigger] links_in(entries)[i] == entries[k].path,
    decreases entries.len(),
{
    let fewer = entries.drop_last();
    let earlier = links_in(fewer);
    let all = links_in(entries);
    if k < fewer.len() {
        assert(fewer[k] == entries[k]);
        lemma_link_written(fewer, k);
        let i = choose|i: int| 0 <= i < earlier.len() && #[trigger] earlier[i] == entries[k].path;
        assert(all[i] == entries[k].path);
    } else {
        assert(all[earlier.len() as int] == entries[k].path);
    }
}

/// Whether a step writes an entry of a tree as a file, with the content of its own object,
/// unchanged, at its own path and with its own permissions. A file that is copied is copied
/// from the first that was written with that content.
pub open spec fn writes_file(
    deed: FreezeDeed,
    destination: Seq<char>,
    entry: GitTreeEntryView,
) -> bool {
    let place = joined(destination, entry.path);
    ||| deed == FreezeDeed::Content(
        entry.object,
        ContentDeed::Write(entry.path, place, written_mode(entry)),
    )
    ||| deed == FreezeDeed::Content(
        entry.object,
        ContentDeed::CopyFirst(entry.path, place, written_mode(entry)),
    )
}

/// A tree that is written out holds each of its contents where the tree has it: every
/// regular file at its path, from its own object, and every link at its path, from the
/// target that its own object holds.
pub proof fn every_entry_is_written_from_its_own_object(
    destination: Seq<char>,
    root: Seq<char>,
    made: Seq<Seq<char>>,
    entries: Seq<GitTreeEntryView>,
    k: int,
)
    requires
        0 <= k < entries.len(),
        entries[k].kind == "blob"@,
        freezing(destination, root, made, entries).1 is None,
    ensures
        is_regular(entries[k]) ==> exists|i: int|
            0 <= i < freezing(destination, root, made, entries).0.len() && writes_file(
                #[trigger] freezing(destination, root, made, entries).0[i],
                destination,
                entries[k],
            ),
        entries[k].mode == "120000"@ ==> {
            &&& freezing(destination, root, made, entries).0.contains(
                FreezeDeed::Content(entries[k].object, ContentDeed::Remember(entries[k].path)),
            )
            &&& freezing(destination, root, made, entries).0.contains(
                FreezeDeed::Link(entries[k].path, joined(destination, entries[k].path)),
            )
        },
        is_regular(entries[k]) || entries[k].mode == "120000"@,
{
    let all = freezing(destination, root, made, entries).0;
    let objects = objects_of(entries);
    let first = making_deeds(makings(root, made, wanted_directories(destination, entries)).0);
    let contents = content_pass(destination, entries, objects).0;
    let links = links_in(entries);
    let object = entries[k].object;
    lemma_known_object(entries, k);
    let o = choose|o: int| 0 <= o < objects.len() && objects[o] == object;
    let group = sharing(entries, object);
    lemma_shares(entries, object, k);
    let j = choose|j: int| 0 <= j < group.len() && #[trigger] group[j] == entries[k];
    lemma_pass_of_object(destination, entries, objects, o, j);
    lemma_shared_size(destination, group, group.len());
    lemma_shared_deed(destination, group, group.len(), j);
    let deed = object_deeds(destination, entries, object).0[j];
    let wanted = FreezeDeed::Content(object, deed);
    let i = choose|i: int| 0 <= i < contents.len() && contents[i] == wanted;
    assert(all[first.len() + i] == wanted);
    if entries[k].mode == "120000"@ {
        lemma_modes();
        lemma_link_written(entries, k);
        let l = choose|l: int| 0 <= l < links.len() && #[trigger] links[l] == entries[k].path;
        assert(all[first.len() + contents.len() + l] == link_deeds(destination, links)[l]);
    }
}

proof fn lemma_modes()
    ensures
        "120000"@ != "100644"@,
        "120000"@ != "100755"@,
{
    reveal_strlit("120000");
    reveal_strlit("100644");
    reveal_strlit("100755");
    assert("120000"@[1] != "100644"@[1]);
    assert("120000"@[1] != "100755"@[1]);
}

proof fn lemma_written(deeds: Seq<ContentDeed>, path: Seq<char>)
    ensures
        written_paths(deeds).contains(path) <==> exists|j: int|
            0 <= j < deeds.len() && names(#[trigger] deeds[j], path),
    decreases deeds.len(),
{
    if deeds.len() > 0 {
        let fewer = deeds.drop_last();
        let earlier = written_paths(fewer);
        let all = written_paths(deeds);
        lemma_written(fewer, path);
        if all.contains(path) {
            let i = choose|i: int| 0 <= i < all.len() && all[i] == path;
            if i < earlier.len() {
                assert(earlier[i] == path);
                let j = choose|j: int| 0 <= j < fewer.len() && names(#[trigger] fewer[j], path);
                assert(names(deeds[j], path));
            } else {
                assert(names(deeds[deeds.len() - 1], path));
            }
        }
        if exists|j: int| 0 <= j < deeds.len() && names(#[trigger] deeds[j], path) {
            let j = choose|j: int| 0 <= j < deeds.len() && names(#[trigger] deeds[j], path);
            if j < fewer.len() {
                assert(names(fewer[j], path));
                let i = choose|i: int| 0 <= i < earlier.len() && earlier[i] == path;
                assert(all[i] == path);
            } else {
                assert(all[earlier.len() as int] == path);
            }
        }
    }
}

/// Whether a deed with a content writes a file at a path.
pub open spec fn names(deed: ContentDeed, path: Seq<char>) -> bool {
    match deed {
        ContentDeed::Write(written, _, _) => written == path,
        ContentDeed::CopyFirst(written, _, _) => written == path,
        ContentDeed::Remember(_) => false,
    }
}

/// Whether an entry of a tree is a regular file of an object.
pub open spec fn is_file_of(entry: GitTreeEntryView, object: Seq<char>, path: Seq<char>) -> bool {
    entry.kind == "blob"@ && is_regular(entry) && entry.object == object && entry.path == path
}

proof fn lemma_written_of(
    destination: Seq<char>,
    entries: Seq<GitTreeEntryView>,
    object: Seq<char>,
    path: Seq<char>,
)
    requires
        object_deeds(destination, entries, object).1 is None,
    ensures
        written_paths(object_deeds(destination, entries, object).0).contains(path) <==> exists|
            k: int,
        |
            0 <= k < entries.len() && is_file_of(#[trigger] entries[k], object, path),
{
    let group = sharing(entries, object);
    let deeds = object_deeds(destination, entries, object).0;
    lemma_written(deeds, path);
    lemma_shared_size(destination, group, group.len());
    lemma_modes();
    if written_paths(deeds).contains(path) {
        let j = choose|j: int| 0 <= j < deeds.len() && names(#[trigger] deeds[j], path);
        lemma_shared_deed(destination, group, group.len(), j);
        lemma_shared_kind(entries, object, j);
        lemma_shared_entry(entries, object, j);
        let k = choose|k: int| 0 <= k < entries.len() && #[trigger] entries[k] == group[j];
        assert(is_file_of(entries[k], object, path));
    }
    if exists|k: int| 0 <= k < entries.len() && is_file_of(#[trigger] entries[k], object, path) {
        let k = choose|k: int|
            0 <= k < entries.len() && is_file_of(#[trigger] entries[k], object, path);
        lemma_shares(entries, object, k);
        let j = choose|j: int| 0 <= j < group.len() && #[trigger] group[j] == entries[k];
        lemma_shared_deed(destination, group, group.len(), j);
        assert(names(deeds[j], path));
    }
}

/// Whether a content is a pointer to one that is kept elsewhere.
pub open spec fn is_pointer(content: Seq<u8>) -> bool {
    starts(
        content,
        vstd::utf8::encode_utf8("version https://git-lfs.github.com/spec/v1\n"@),
    )
}

/// Whether an entry of a tree is a regular file at a path whose content is a pointer.
pub open spec fn points(
    entries: Seq<GitTreeEntryView>,
    objects: Seq<Seq<char>>,
    contents: Seq<Seq<u8>>,
    path: Seq<char>,
    k: int,
    o: int,
) -> bool {
    &&& 0 <= k < entries.len()
    &&& 0 <= o < objects.len()
    &&& is_file_of(entries[k], objects[o], path)
    &&& is_pointer(contents[o])
}

proof fn lemma_pointers(
    destination: Seq<char>,
    entries: Seq<GitTreeEntryView>,
    objects: Seq<Seq<char>>,
    contents: Seq<Seq<u8>>,
    path: Seq<char>,
)
    requires
        content_pass(destination, entries, objects).1 is None,
    ensures
        pointers_of(destination, entries, objects, contents).contains(path) <==> exists|
            k: int,
            o: int,
        | points(entries, objects, contents, path, k, o),
    decreases objects.len(),
{
    if objects.len() > 0 {
        let fewer = objects.drop_last();
        let last = objects.len() - 1;
        let earlier = pointers_of(destination, entries, fewer, contents);
        let deeds = object_deeds(destination, entries, objects.last()).0;
        let more = pointer_paths_of(deeds, is_pointer(contents[last]));
        let all = pointers_of(destination, entries, objects, contents);
        assert(all == earlier + more);
        lemma_pass_of_object(destination, entries, objects, last, 0);
        lemma_pointers(destination, entries, fewer, contents, path);
        lemma_written_of(destination, entries, objects.last(), path);
        if all.contains(path) {
            let i = choose|i: int| 0 <= i < all.len() && all[i] == path;
            if i < earlier.len() {
                assert(earlier[i] == path);
                let (k, o) = choose|k: int, o: int| points(entries, fewer, contents, path, k, o);
                assert(points(entries, objects, contents, path, k, o));
            } else {
                assert(more[i - earlier.len()] == path);
                let k = choose|k: int|
                    0 <= k < entries.len() && is_file_of(
                        #[trigger] entries[k],
                        objects.last(),
                        path,
                    );
                assert(points(entries, objects, contents, path, k, last));
            }
        }
        if exists|k: int, o: int| points(entries, objects, contents, path, k, o) {
            let (k, o) = choose|k: int, o: int| points(entries, objects, contents, path, k, o);
            if o < last {
                assert(points(entries, fewer, contents, path, k, o));
                let i = choose|i: int| 0 <= i < earlier.len() && earlier[i] == path;
                assert(all[i] == path);
            } else {
                assert(is_file_of(entries[k], objects.last(), path));
                let i = choose|i: int| 0 <= i < more.len() && more[i] == path;
                assert(all[earlier.len() + i] == path);
            }
        }
    }
}

proof fn lemma_written_once(deeds: Seq<ContentDeed>)
    requires
        forall|i: int, j: int, path: Seq<char>|
            0 <= i < j < deeds.len() ==> !(#[trigger] names(deeds[i], path) && #[trigger] names(
                deeds[j],
                path,
            )),
    ensures
        written_paths(deeds).no_duplicates(),
    decreases deeds.len(),
{
    if deeds.len() > 0 {
        let fewer = deeds.drop_last();
        assert forall|i: int, j: int, path: Seq<char>| 0 <= i < j < fewer.len() implies !(
        #[trigger] names(fewer[i], path) && #[trigger] names(fewer[j], path)) by {
            assert(fewer[i] == deeds[i] && fewer[j] == deeds[j]);
            assert(!(names(deeds[i], path) && names(deeds[j], path)));
        }
        lemma_written_once(fewer);
        let last = deeds.len() - 1;
        let earlier = written_paths(fewer);
        if written_paths(deeds).len() > earlier.len() {
            let path = written_paths(deeds).last();
            assert(names(deeds[last], path));
            lemma_written(fewer, path);
            if earlier.contains(path) {
                let j = choose|j: int| 0 <= j < fewer.len() && names(#[trigger] fewer[j], path);
                assert(names(deeds[j], path));
                assert(false);
            }
        }
    }
}

proof fn lemma_shared_apart(entries: Seq<GitTreeEntryView>, object: Seq<char>, i: int, j: int)
    requires
        forall|a: int, b: int|
            0 <= a < b < entries.len() ==> (#[trigger] entries[a]).path != (
            #[trigger] entries[b]).path,
        0 <= i < j < sharing(entries, object).len(),
    ensures
        sharing(entries, object)[i].path != sharing(entries, object)[j].path,
    decreases entries.len(),
{
    let fewer = entries.drop_last();
    let earlier = sharing(fewer, object);
    let all = sharing(entries, object);
    assert forall|a: int, b: int| 0 <= a < b < fewer.len() implies (#[trigger] fewer[a]).path != (
    #[trigger] fewer[b]).path by {
        assert(fewer[a] == entries[a] && fewer[b] == entries[b]);
    }
    if j < earlier.len() {
        lemma_shared_apart(fewer, object, i, j);
        assert(all[i] == earlier[i] && all[j] == earlier[j]);
    } else {
        lemma_shared_entry(fewer, object, i);
        let k = choose|k: int| 0 <= k < fewer.len() && #[trigger] fewer[k] == earlier[i];
        assert(all[i] == entries[k]);
        assert(all[j] == entries[entries.len() - 1]);
    }
}

proof fn lemma_pointers_once(
    destination: Seq<char>,
    entries: Seq<GitTreeEntryView>,
    objects: Seq<Seq<char>>,
    contents: Seq<Seq<u8>>,
)
    requires
        content_pass(destination, entries, objects).1 is None,
        objects.no_duplicates(),
        forall|a: int, b: int|
            0 <= a < b < entries.len() ==> (#[trigger] entries[a]).path != (
            #[trigger] entries[b]).path,
    ensures
        pointers_of(destination, entries, objects, contents).no_duplicates(),
    decreases objects.len(),
{
    if objects.len() > 0 {
        let fewer = objects.drop_last();
        let last = objects.len() - 1;
        let object = objects.last();
        let group = sharing(entries, object);
        let earlier = pointers_of(destination, entries, fewer, contents);
        let deeds = object_deeds(destination, entries, object).0;
        let more = pointer_paths_of(deeds, is_pointer(contents[last]));
        lemma_pass_of_object(destination, entries, objects, last, 0);
        lemma_pointers_once(destination, entries, fewer, contents);
        lemma_shared_size(destination, group, group.len());
        assert forall|i: int, j: int, path: Seq<char>| 0 <= i < j < deeds.len() implies !(
        #[trigger] names(deeds[i], path) && #[trigger] names(deeds[j], path)) by {
            lemma_shared_deed(destination, group, group.len(), i);
            lemma_shared_deed(destination, group, group.len(), j);
            lemma_shared_apart(entries, object, i, j);
        }
        lemma_written_once(deeds);
        assert forall|i: int, j: int| 0 <= i < earlier.len() && 0 <= j < more.len() implies earlier[i]
            != more[j] by {
            if earlier[i] == more[j] {
                let path = earlier[i];
                lemma_pointers(destination, entries, fewer, contents, path);
                lemma_written_of(destination, entries, object, path);
                assert(earlier.contains(path) && more.contains(path));
                let (a, o) = choose|a: int, o: int| points(entries, fewer, contents, path, a, o);
                let b = choose|b: int|
                    0 <= b < entries.len() && is_file_of(#[trigger] entries[b], object, path);
                assert(entries[a].path == entries[b].path);
                assert(a == b);
                assert(objects[o] == objects[last]);
            }
        }
        let all = pointers_of(destination, entries, objects, contents);
        assert(all == earlier + more);
    }
}

/// The pointers of a tree that is written out are told exactly: each regular file whose
/// content is a pointer, once, and no other path.
pub proof fn every_pointer_is_told_once(
    destination: Seq<char>,
    root: Seq<char>,
    made: Seq<Seq<char>>,
    entries: Seq<GitTreeEntryView>,
    contents: Seq<Seq<u8>>,
    path: Seq<char>,
)
    requires
        freezing(destination, root, made, entries).1 is None,
        forall|a: int, b: int|
            0 <= a < b < entries.len() ==> (#[trigger] entries[a]).path != (
            #[trigger] entries[b]).path,
    ensures
        pointers_of(destination, entries, objects_of(entries), contents).contains(path)
            <==> exists|k: int, o: int|
            points(entries, objects_of(entries), contents, path, k, o),
        pointers_of(destination, entries, objects_of(entries), contents).no_duplicates(),
{
    lemma_objects_once(entries);
    lemma_pointers(destination, entries, objects_of(entries), contents, path);
    lemma_pointers_once(destination, entries, objects_of(entries), contents);
}

/// Whether texts are the first bytes of others: each of them whole where it is short.
pub open spec fn heads_of(heads: Seq<Seq<u8>>, contents: Seq<Seq<u8>>, length: nat) -> bool {
    &&& heads.len() == contents.len()
    &&& forall|i: int|
        0 <= i < contents.len() ==> #[trigger] heads[i] == if contents[i].len() <= length {
            contents[i]
        } else {
            contents[i].take(length as int)
        }
}

/// The pointers of a tree are told by the first bytes of what its objects hold, as long as
/// these reach over the line that marks a pointer: no content has to be held whole for them.
pub proof fn pointers_are_told_by_heads(
    destination: Seq<char>,
    entries: Seq<GitTreeEntryView>,
    objects: Seq<Seq<char>>,
    contents: Seq<Seq<u8>>,
    heads: Seq<Seq<u8>>,
    length: nat,
)
    requires
        objects.len() <= contents.len(),
        heads_of(heads, contents, length),
        vstd::utf8::encode_utf8("version https://git-lfs.github.com/spec/v1\n"@).len() <= length,
    ensures
        pointers_of(destination, entries, objects, heads) == pointers_of(
            destination,
            entries,
            objects,
            contents,
        ),
    decreases objects.len(),
{
    if objects.len() > 0 {
        pointers_are_told_by_heads(
            destination,
            entries,
            objects.drop_last(),
            contents,
            heads,
            length,
        );
        let mark = vstd::utf8::encode_utf8("version https://git-lfs.github.com/spec/v1\n"@);
        let k = objects.len() - 1;
        let content = contents[k];
        let head = heads[k];
        if content.len() > length {
            assert(head.take(mark.len() as int) =~= content.take(mark.len() as int));
        }
        assert(starts(head, mark) == starts(content, mark));
    }
}

} // verus!
