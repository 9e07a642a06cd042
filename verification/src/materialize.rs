//! How the tree of a revision is written out, byte for byte: directories first, then the
//! contents, object by object, and links last, so that nothing is ever written through a
//! link.
use vstd::prelude::*;

use crate::authority::FileFacts;
use crate::gittree::{entry_views, GitTreeEntry, GitTreeEntryView};
use crate::paths::{
    absolute, below, components, components_of, is_absolute, is_below, is_same_path, join,
    join_components, joined, parent, parent_of, path_text, same_path,
};
use crate::procfs::{push_bytes, text_in, text_of_bytes};
use crate::scan::{bytes_start_with, decimal_number, parse_decimal, split, split_text, starts};
use crate::text::{
    cat2, cat3, cat4, check, judged, push_text, refuse, same_text, texts, unless, Refusal,
};

verus! {

/// Whether a directory is one of those that were made.
pub open spec fn is_made(made: Seq<Seq<char>>, path: Seq<char>) -> bool {
    exists|i: int| 0 <= i < made.len() && same_path(#[trigger] made[i], path)
}

/// A path, or one of the directories above it: the first of its components.
pub open spec fn upward(path: Seq<char>, k: nat) -> Seq<char> {
    if k >= components(path).len() {
        path
    } else {
        path_text(absolute(path), components(path).take(k as int))
    }
}

/// The directories that must be made for a path to be there, the highest first, or why
/// there is no way: it leaves the root, or ends without one that was made.
pub open spec fn to_make(root: Seq<char>, made: Seq<Seq<char>>, path: Seq<char>, k: nat) -> Result<
    Seq<Seq<char>>,
    Seq<char>,
>
    decreases k,
{
    let here = upward(path, k);
    if is_made(made, here) {
        Ok(Seq::empty())
    } else if !below(here, root) {
        Err("frozen source path "@ + here + " escapes its root"@)
    } else if k == 0 {
        Err("frozen source path has no parent"@)
    } else {
        match to_make(root, made, path, (k - 1) as nat) {
            Err(w) => Err(w),
            Ok(above) => Ok(above.push(here)),
        }
    }
}

fn find_made(made: &Vec<String>, path: &str) -> (is: bool)
    ensures
        is == is_made(texts(made@), path@),
{
    let ghost all = texts(made@);
    let mut i: usize = 0;
    while i < made.len()
        invariant
            i <= made@.len(),
            all == texts(made@),
            forall|j: int| 0 <= j < i ==> !same_path(#[trigger] all[j], path@),
        decreases made@.len() - i,
    {
        assert(all[i as int] == made@[i as int]@);
        if is_same_path(made[i].as_str(), path) {
            return true;
        }
        i += 1;
    }
    false
}

fn upward_text(path: &str, parts: &Vec<String>, rooted: bool, k: usize) -> (text: String)
    requires
        texts(parts@) == components(path@),
        rooted == absolute(path@),
        k <= parts@.len(),
    ensures
        text@ == upward(path@, k as nat),
{
    if k == parts.len() {
        return path.to_owned();
    }
    let rest = join_components(parts.as_slice(), k);
    if rooted {
        proof {
            reveal_strlit("/");
            assert("/"@ =~= seq!['/']);
        }
        cat2("/", rest.as_str())
    } else {
        rest
    }
}

fn make_upward(
    root: &str,
    made: &Vec<String>,
    path: &str,
    parts: &Vec<String>,
    rooted: bool,
    k: usize,
) -> (outcome: Result<Vec<String>, Refusal>)
    requires
        texts(parts@) == components(path@),
        rooted == absolute(path@),
        k <= parts@.len(),
    ensures
        match (outcome, to_make(root@, texts(made@), path@, k as nat)) {
            (Ok(list), Ok(owed)) => texts(list@) == owed,
            (Err(refusal), Err(w)) => refusal@ == w,
            _ => false,
        },
    decreases k,
{
    let here = upward_text(path, parts, rooted, k);
    if find_made(made, here.as_str()) {
        let list: Vec<String> = Vec::new();
        assert(texts(list@) =~= Seq::<Seq<char>>::empty());
        return Ok(list);
    }
    if !is_below(here.as_str(), root) {
        return Err(
            Refusal { text: cat3("frozen source path ", here.as_str(), " escapes its root") },
        );
    }
    if k == 0 {
        return Err(refuse("frozen source path has no parent"));
    }
    let mut list = make_upward(root, made, path, parts, rooted, k - 1)?;
    push_text(&mut list, here);
    Ok(list)
}

/// The directories that must be made for a path to be there, the highest first. None of
/// them may be there already: a directory that was not made by this writer is never
/// written through.
pub fn ensure_frozen_directory(root: &str, made: &Vec<String>, path: &str) -> (outcome: Result<
    Vec<String>,
    Refusal,
>)
    ensures
        match (
            outcome,
            to_make(root@, texts(made@), path@, components(path@).len()),
        ) {
            (Ok(list), Ok(owed)) => texts(list@) == owed,
            (Err(refusal), Err(w)) => refusal@ == w,
            _ => false,
        },
{
    let parts = components_of(path);
    assert(parts@.len() == texts(parts@).len());
    make_upward(root, made, path, &parts, is_absolute(path), parts.len())
}

/// What stands in the way of a new directory.
pub open spec fn obstacle(f: FileFacts) -> Seq<char> {
    if f.is_symlink {
        "symlink"@
    } else if f.is_dir {
        "directory this freeze did not create"@
    } else {
        "file"@
    }
}

/// Admits the making of a directory: nothing may stand there.
pub fn admit_new_directory(
    path: &str,
    found: &Result<Option<FileFacts>, Refusal>,
) -> (outcome: Result<(), Refusal>)
    ensures
        judged(
            outcome,
            match *found {
                Err(refusal) => Some(refusal@),
                Ok(None) => None,
                Ok(Some(f)) => Some(
                    "frozen source writer refuses to write through an existing "@ + obstacle(f)
                        + " at "@ + path@,
                ),
            },
        ),
{
    match found {
        Err(refusal) => Err(Refusal { text: refusal.text.clone() }),
        Ok(None) => Ok(()),
        Ok(Some(f)) => {
            let what = if f.is_symlink {
                "symlink"
            } else if f.is_dir {
                "directory this freeze did not create"
            } else {
                "file"
            };
            Err(
                Refusal {
                    text: cat4(
                        "frozen source writer refuses to write through an existing ",
                        what,
                        " at ",
                        path,
                    ),
                },
            )
        },
    }
}

proof fn lemma_made_within(root: Seq<char>, made: Seq<Seq<char>>, path: Seq<char>, k: nat)
    ensures
        to_make(root, made, path, k) matches Ok(list) ==> forall|i: int|
            0 <= i < list.len() ==> below(#[trigger] list[i], root),
    decreases k,
{
    if k > 0 {
        lemma_made_within(root, made, path, (k - 1) as nat);
    }
}

/// Every directory that is made for a frozen source lies within its root.
pub proof fn directories_are_made_within_the_root(
    root: Seq<char>,
    made: Seq<Seq<char>>,
    path: Seq<char>,
)
    ensures
        to_make(root, made, path, components(path).len()) matches Ok(list) ==> forall|i: int|
            0 <= i < list.len() ==> below(#[trigger] list[i], root),
{
    lemma_made_within(root, made, path, components(path).len());
}

/// The directory that an entry needs, or why the entry is refused: a file or a link needs
/// the one that it lies in, and a submodule the one that it is.
pub open spec fn entry_directory(destination: Seq<char>, entry: GitTreeEntryView) -> Result<
    Seq<char>,
    Seq<char>,
> {
    let place = joined(destination, entry.path);
    if entry.mode == "100644"@ || entry.mode == "100755"@ || entry.mode == "120000"@ {
        match parent(place) {
            Some(above) => Ok(above),
            None => Err("frozen source tree entry has no parent"@),
        }
    } else if entry.mode == "160000"@ {
        Ok(place)
    } else {
        Err(unsupported(entry))
    }
}

/// The refusal of an entry whose mode a frozen source cannot hold.
pub open spec fn unsupported(entry: GitTreeEntryView) -> Seq<char> {
    "frozen source tree entry "@ + entry.path + " has an unsupported mode "@ + entry.mode
}

fn refuse_mode(entry: &GitTreeEntry) -> (refusal: Refusal)
    ensures
        refusal@ == unsupported(entry@),
{
    Refusal {
        text: cat4(
            "frozen source tree entry ",
            entry.path.as_str(),
            " has an unsupported mode ",
            entry.mode.as_str(),
        ),
    }
}

/// The directories that the first entries need, in order, up to the first that is refused.
pub open spec fn directories_for(destination: Seq<char>, entries: Seq<GitTreeEntryView>) -> (
    Seq<Seq<char>>,
    Option<Seq<char>>,
)
    decreases entries.len(),
{
    if entries.len() == 0 {
        (Seq::empty(), None)
    } else {
        let earlier = directories_for(destination, entries.drop_last());
        if earlier.1 is Some {
            earlier
        } else {
            match entry_directory(destination, entries.last()) {
                Err(w) => (earlier.0, Some(w)),
                Ok(directory) => (earlier.0.push(directory), None),
            }
        }
    }
}

proof fn lemma_directories_end(destination: Seq<char>, entries: Seq<GitTreeEntryView>, n: int)
    requires
        0 <= n <= entries.len(),
        directories_for(destination, entries.take(n)).1 is Some,
    ensures
        directories_for(destination, entries) == directories_for(destination, entries.take(n)),
    decreases entries.len() - n,
{
    if n < entries.len() {
        assert(entries.take(n + 1).drop_last() =~= entries.take(n));
        lemma_directories_end(destination, entries, n + 1);
    } else {
        assert(entries.take(n) =~= entries);
    }
}

fn read_entry_directory(destination: &str, entry: &GitTreeEntry) -> (outcome: Result<
    String,
    Refusal,
>)
    ensures
        crate::clock::written(outcome, entry_directory(destination@, entry@)),
{
    let place = join(destination, entry.path.as_str());
    let mode = entry.mode.as_str();
    if same_text(mode, "100644") || same_text(mode, "100755") || same_text(mode, "120000") {
        match parent_of(place.as_str()) {
            Some(above) => Ok(above),
            None => Err(refuse("frozen source tree entry has no parent")),
        }
    } else if same_text(mode, "160000") {
        Ok(place)
    } else {
        Err(refuse_mode(entry))
    }
}

/// The directories that a tree needs, in order. They all are made before any file or link
/// is written.
pub fn tree_directories(
    destination: &str,
    entries: &Vec<GitTreeEntry>,
) -> (plan: crate::stores::DirectoryPlan)
    ensures
        (texts(plan.directories@), crate::deeds::ending(plan.refusal)) == directories_for(
            destination@,
            entry_views(entries@),
        ),
{
    let ghost all = entry_views(entries@);
    let mut directories: Vec<String> = Vec::new();
    let mut i: usize = 0;
    proof {
        assert(all.take(0) =~= Seq::<GitTreeEntryView>::empty());
        assert(texts(directories@) =~= Seq::<Seq<char>>::empty());
    }
    while i < entries.len()
        invariant
            i <= entries@.len(),
            all == entry_views(entries@),
            directories_for(destination@, all.take(i as int)) == (texts(directories@), None::<
                Seq<char>,
            >),
        decreases entries@.len() - i,
    {
        proof {
            assert(all.take(i + 1).drop_last() =~= all.take(i as int));
            assert(all.take(i + 1).last() == entries@[i as int]@);
        }
        match read_entry_directory(destination, &entries[i]) {
            Ok(directory) => {
                push_text(&mut directories, directory);
            },
            Err(refusal) => {
                proof {
                    lemma_directories_end(destination@, all, i + 1);
                }
                return crate::stores::DirectoryPlan { directories, refusal: Some(refusal) };
            },
        }
        i += 1;
    }
    assert(all.take(i as int) =~= all);
    crate::stores::DirectoryPlan { directories, refusal: None }
}

/// The objects of the first entries that are contents, each once, in the order in which
/// they come first.
pub open spec fn objects_of(entries: Seq<GitTreeEntryView>) -> Seq<Seq<char>>
    decreases entries.len(),
{
    if entries.len() == 0 {
        Seq::empty()
    } else {
        let earlier = objects_of(entries.drop_last());
        let entry = entries.last();
        if entry.kind == "blob"@ && !earlier.contains(entry.object) {
            earlier.push(entry.object)
        } else {
            earlier
        }
    }
}

/// The objects of a tree that are contents, each once, in the order in which they come
/// first.
pub fn object_order(entries: &Vec<GitTreeEntry>) -> (objects: Vec<String>)
    ensures
        texts(objects@) == objects_of(entry_views(entries@)),
{
    let ghost all = entry_views(entries@);
    let mut objects: Vec<String> = Vec::new();
    let mut i: usize = 0;
    proof {
        assert(all.take(0) =~= Seq::<GitTreeEntryView>::empty());
        assert(texts(objects@) =~= Seq::<Seq<char>>::empty());
    }
    while i < entries.len()
        invariant
            i <= entries@.len(),
            all == entry_views(entries@),
            texts(objects@) == objects_of(all.take(i as int)),
        decreases entries@.len() - i,
    {
        proof {
            assert(all.take(i + 1).drop_last() =~= all.take(i as int));
            assert(all.take(i + 1).last() == entries@[i as int]@);
        }
        if same_text(entries[i].kind.as_str(), "blob") && !crate::text::list_contains(
            objects.as_slice(),
            entries[i].object.as_str(),
        ) {
            push_text(&mut objects, entries[i].object.clone());
        }
        i += 1;
    }
    assert(all.take(i as int) =~= all);
    objects
}

/// The lines with which objects are asked for.
pub open spec fn requests(objects: Seq<Seq<char>>) -> Seq<u8>
    decreases objects.len(),
{
    if objects.len() == 0 {
        Seq::empty()
    } else {
        requests(objects.drop_last()) + vstd::utf8::encode_utf8(objects.last()) + seq![10u8]
    }
}

/// The lines with which objects are asked for.
pub fn object_requests(objects: &Vec<String>) -> (bytes: Vec<u8>)
    ensures
        bytes@ == requests(texts(objects@)),
{
    let ghost all = texts(objects@);
    let mut bytes: Vec<u8> = Vec::new();
    let mut i: usize = 0;
    assert(all.take(0) =~= Seq::<Seq<char>>::empty());
    while i < objects.len()
        invariant
            i <= objects@.len(),
            all == texts(objects@),
            bytes@ == requests(all.take(i as int)),
        decreases objects@.len() - i,
    {
        proof {
            assert(all.take(i + 1).drop_last() =~= all.take(i as int));
            assert(all.take(i + 1).last() == objects@[i as int]@);
        }
        push_bytes(&mut bytes, objects[i].as_str().as_bytes());
        bytes.push(10u8);
        assert(bytes@ =~= requests(all.take(i + 1)));
        i += 1;
    }
    assert(all.take(i as int) =~= all);
    bytes
}

/// The size that a header announces for an object, or why it is refused.
pub open spec fn announced_size(header: Seq<u8>, object: Seq<char>) -> Result<usize, Seq<char>> {
    if header.len() == 0 || header.last() != 10u8 {
        Err("Git cat-file --batch closed before answering every object"@)
    } else {
        match text_in(header.drop_last(), "Git cat-file --batch header is not UTF-8"@) {
            Err(w) => Err(w),
            Ok(text) => size_in(split(text, ' '), object),
        }
    }
}

/// The size that the fields of a header announce, or why they are refused.
pub open spec fn size_in(fields: Seq<Seq<char>>, object: Seq<char>) -> Result<usize, Seq<char>> {
    if fields[0] != object {
        Err("Git cat-file --batch answered objects out of the requested order"@)
    } else if fields.len() < 2 {
        Err("Git cat-file --batch header is malformed"@)
    } else if fields[1] == "missing"@ {
        Err("Git object "@ + object + " is missing from the repository"@)
    } else if fields.len() < 3 {
        Err("Git cat-file --batch header has no size"@)
    } else {
        match decimal_number(fields[2], usize::MAX as int) {
            None => Err("Git cat-file --batch size is not a number"@),
            Some(n) => if fields.len() > 3 {
                Err("Git cat-file --batch header has extra fields"@)
            } else {
                Ok(n as usize)
            },
        }
    }
}

/// Reads the header of an object, as it was asked for.
pub fn batch_header(header: &[u8], object: &str) -> (outcome: Result<usize, Refusal>)
    ensures
        crate::procfs::comes_to(outcome, announced_size(header@, object@)),
{
    let n: usize = header.len();
    if n == 0 || header[n - 1] != 10u8 {
        return Err(refuse("Git cat-file --batch closed before answering every object"));
    }
    let line = crate::scan::bytes_before(header, n - 1);
    assert(line@ =~= header@.drop_last());
    let text = text_of_bytes(line.as_slice(), "Git cat-file --batch header is not UTF-8")?;
    let fields = split_text(text.as_str(), ' ');
    let ghost all = split(text@, ' ');
    proof {
        assert(texts(fields@) == all);
        crate::scan::lemma_split_nonempty(text@, ' ');
        assert(all.len() == fields@.len());
        assert(all[0] == fields@[0]@);
    }
    if !same_text(fields[0].as_str(), object) {
        return Err(
            refuse("Git cat-file --batch answered objects out of the requested order"),
        );
    }
    if fields.len() < 2 {
        return Err(refuse("Git cat-file --batch header is malformed"));
    }
    assert(all[1] == fields@[1]@);
    if same_text(fields[1].as_str(), "missing") {
        return Err(
            Refusal { text: cat3("Git object ", object, " is missing from the repository") },
        );
    }
    if fields.len() < 3 {
        return Err(refuse("Git cat-file --batch header has no size"));
    }
    assert(all[2] == fields@[2]@);
    match parse_decimal(fields[2].as_str(), usize::MAX as u64) {
        None => Err(refuse("Git cat-file --batch size is not a number")),
        Some(size) => {
            if fields.len() > 3 {
                return Err(refuse("Git cat-file --batch header has extra fields"));
            }
            Ok(size as usize)
        },
    }
}

/// Admits the byte behind an object: it ends its line.
pub fn batch_trailer(trailer: u8) -> (outcome: Result<(), Refusal>)
    ensures
        judged(
            outcome,
            unless(
                trailer == 10u8,
                "Git cat-file --batch object content ran past its declared size"@,
            ),
        ),
{
    check(
        trailer == 10u8,
        "Git cat-file --batch object content ran past its declared size",
    )
}

/// Whether a content is a pointer that stands for another, kept elsewhere.
pub fn is_lfs_pointer(content: &[u8]) -> (is: bool)
    ensures
        is == starts(
            content@,
            vstd::utf8::encode_utf8("version https://git-lfs.github.com/spec/v1\n"@),
        ),
{
    bytes_start_with(
        content,
        "version https://git-lfs.github.com/spec/v1\n".as_bytes(),
    )
}

/// What is done with the content of an object for one of the entries that have it.
#[derive(Clone, Debug, PartialEq, Eq)]
pub enum ContentStep {
    Write { path: String, place: String, mode: u32 },
    CopyFirst { path: String, place: String, mode: u32 },
    Remember { path: String },
}

/// What a `ContentStep` holds.
pub enum ContentDeed {
    Write(Seq<char>, Seq<char>, u32),
    CopyFirst(Seq<char>, Seq<char>, u32),
    Remember(Seq<char>),
}

impl View for ContentStep {
    type V = ContentDeed;

    open spec fn view(&self) -> ContentDeed {
        match self {
            ContentStep::Write { path, place, mode } => ContentDeed::Write(path@, place@, *mode),
            ContentStep::CopyFirst { path, place, mode } => ContentDeed::CopyFirst(
                path@,
                place@,
                *mode,
            ),
            ContentStep::Remember { path } => ContentDeed::Remember(path@),
        }
    }
}

/// What each step of a list holds.
pub open spec fn content_deeds(list: Seq<ContentStep>) -> Seq<ContentDeed> {
    Seq::new(list.len(), |i: int| list[i]@)
}

/// Whether an entry is a regular file by its mode.
pub open spec fn is_regular(entry: GitTreeEntryView) -> bool {
    entry.mode == "100644"@ || entry.mode == "100755"@
}

/// The permissions of a written file.
pub open spec fn written_mode(entry: GitTreeEntryView) -> u32 {
    if entry.mode == "100755"@ {
        0o755
    } else {
        0o644
    }
}

/// What is done with a content for an entry, or why the entry is refused. The first entry
/// of an object is written from what is read; where that is a file, further files are
/// copied from it. The target of a link is remembered.
pub open spec fn content_deed(
    destination: Seq<char>,
    first: GitTreeEntryView,
    entry: GitTreeEntryView,
    is_first: bool,
) -> Result<ContentDeed, Seq<char>> {
    let place = joined(destination, entry.path);
    if is_regular(entry) {
        if !is_first && is_regular(first) {
            Ok(ContentDeed::CopyFirst(entry.path, place, written_mode(entry)))
        } else {
            Ok(ContentDeed::Write(entry.path, place, written_mode(entry)))
        }
    } else if entry.mode == "120000"@ {
        Ok(ContentDeed::Remember(entry.path))
    } else {
        Err(unsupported(entry))
    }
}

/// The entries of a tree that have an object as their content, in order.
pub open spec fn sharing(entries: Seq<GitTreeEntryView>, object: Seq<char>) -> Seq<GitTreeEntryView>
    decreases entries.len(),
{
    if entries.len() == 0 {
        Seq::empty()
    } else {
        let earlier = sharing(entries.drop_last(), object);
        if entries.last().kind == "blob"@ && entries.last().object == object {
            earlier.push(entries.last())
        } else {
            earlier
        }
    }
}

/// What is done with a content for the first of the entries that share it, up to the first
/// that is refused.
pub open spec fn shared_deeds(destination: Seq<char>, group: Seq<GitTreeEntryView>, n: nat) -> (
    Seq<ContentDeed>,
    Option<Seq<char>>,
)
    decreases n,
{
    if n == 0 {
        (Seq::empty(), None)
    } else {
        let earlier = shared_deeds(destination, group, (n - 1) as nat);
        if earlier.1 is Some {
            earlier
        } else {
            match content_deed(destination, group[0], group[n - 1], n == 1) {
                Err(w) => (earlier.0, Some(w)),
                Ok(deed) => (earlier.0.push(deed), None),
            }
        }
    }
}

proof fn lemma_shared_end(destination: Seq<char>, group: Seq<GitTreeEntryView>, n: nat, m: nat)
    requires
        n <= m,
        shared_deeds(destination, group, n).1 is Some,
    ensures
        shared_deeds(destination, group, m) == shared_deeds(destination, group, n),
    decreases m,
{
    if n < m {
        lemma_shared_end(destination, group, n, (m - 1) as nat);
    }
}

/// What is done with a content, in order, and why that ends early, if so.
#[derive(Debug, PartialEq, Eq)]
pub struct ContentPlan {
    pub steps: Vec<ContentStep>,
    pub refusal: Option<Refusal>,
}

fn read_sharing(entries: &Vec<GitTreeEntry>, object: &str) -> (group: Vec<GitTreeEntry>)
    ensures
        entry_views(group@) == sharing(entry_views(entries@), object@),
{
    let ghost all = entry_views(entries@);
    let mut group: Vec<GitTreeEntry> = Vec::new();
    let mut i: usize = 0;
    proof {
        assert(all.take(0) =~= Seq::<GitTreeEntryView>::empty());
        assert(entry_views(group@) =~= Seq::<GitTreeEntryView>::empty());
    }
    while i < entries.len()
        invariant
            i <= entries@.len(),
            all == entry_views(entries@),
            entry_views(group@) == sharing(all.take(i as int), object@),
        decreases entries@.len() - i,
    {
        proof {
            assert(all.take(i + 1).drop_last() =~= all.take(i as int));
            assert(all.take(i + 1).last() == entries@[i as int]@);
        }
        let entry = &entries[i];
        if same_text(entry.kind.as_str(), "blob") && same_text(entry.object.as_str(), object) {
            let ghost earlier = group@;
            let copy = GitTreeEntry {
                mode: entry.mode.clone(),
                kind: entry.kind.clone(),
                object: entry.object.clone(),
                path: entry.path.clone(),
            };
            let ghost view = copy@;
            group.push(copy);
            assert(entry_views(group@) =~= entry_views(earlier).push(view));
        }
        i += 1;
    }
    assert(all.take(i as int) =~= all);
    group
}

fn read_content_deed(
    destination: &str,
    first: &GitTreeEntry,
    entry: &GitTreeEntry,
    is_first: bool,
) -> (outcome: Result<ContentStep, Refusal>)
    ensures
        crate::records::reads(outcome, content_deed(destination@, first@, entry@, is_first)),
{
    let place = join(destination, entry.path.as_str());
    let executable = same_text(entry.mode.as_str(), "100755");
    let regular = executable || same_text(entry.mode.as_str(), "100644");
    let first_regular = same_text(first.mode.as_str(), "100755") || same_text(
        first.mode.as_str(),
        "100644",
    );
    let mode: u32 = if executable {
        0o755
    } else {
        0o644
    };
    if regular {
        if !is_first && first_regular {
            Ok(ContentStep::CopyFirst { path: entry.path.clone(), place, mode })
        } else {
            Ok(ContentStep::Write { path: entry.path.clone(), place, mode })
        }
    } else if same_text(entry.mode.as_str(), "120000") {
        Ok(ContentStep::Remember { path: entry.path.clone() })
    } else {
        Err(refuse_mode(entry))
    }
}

/// What is done with the content of an object, for all entries of a tree that share it.
pub fn content_plan(
    destination: &str,
    entries: &Vec<GitTreeEntry>,
    object: &str,
) -> (plan: ContentPlan)
    ensures
        (content_deeds(plan.steps@), crate::deeds::ending(plan.refusal)) == shared_deeds(
            destination@,
            sharing(entry_views(entries@), object@),
            sharing(entry_views(entries@), object@).len(),
        ),
{
    let group = read_sharing(entries, object);
    let ghost all = sharing(entry_views(entries@), object@);
    let mut steps: Vec<ContentStep> = Vec::new();
    let mut i: usize = 0;
    assert(content_deeds(steps@) =~= Seq::<ContentDeed>::empty());
    assert(group@.len() == all.len());
    while i < group.len()
        invariant
            i <= group@.len(),
            entry_views(group@) == all,
            all.len() == group@.len(),
            all == sharing(entry_views(entries@), object@),
            shared_deeds(destination@, all, i as nat) == (content_deeds(steps@), None::<Seq<char>>),
        decreases group@.len() - i,
    {
        proof {
            assert(all[0] == group@[0]@);
            assert(all[i as int] == group@[i as int]@);
        }
        match read_content_deed(destination, &group[0], &group[i], i == 0) {
            Ok(step) => {
                let ghost earlier = steps@;
                let ghost view = step@;
                steps.push(step);
                assert(content_deeds(steps@) =~= content_deeds(earlier).push(view));
            },
            Err(refusal) => {
                proof {
                    lemma_shared_end(destination@, all, (i + 1) as nat, all.len());
                }
                return ContentPlan { steps, refusal: Some(refusal) };
            },
        }
        i += 1;
    }
    ContentPlan { steps, refusal: None }
}

/// The paths that the deeds with a content write as files.
pub open spec fn written_paths(deeds: Seq<ContentDeed>) -> Seq<Seq<char>>
    decreases deeds.len(),
{
    if deeds.len() == 0 {
        Seq::empty()
    } else {
        let earlier = written_paths(deeds.drop_last());
        match deeds.last() {
            ContentDeed::Write(path, _, _) => earlier.push(path),
            ContentDeed::CopyFirst(path, _, _) => earlier.push(path),
            ContentDeed::Remember(_) => earlier,
        }
    }
}

/// The paths that a content makes pointers, if it is one: every file that has it.
pub open spec fn pointer_paths_of(deeds: Seq<ContentDeed>, is_pointer: bool) -> Seq<Seq<char>> {
    if is_pointer {
        written_paths(deeds)
    } else {
        Seq::empty()
    }
}

/// The paths that a content makes pointers.
pub fn pointer_paths(steps: &Vec<ContentStep>, is_pointer: bool) -> (paths: Vec<String>)
    ensures
        texts(paths@) == pointer_paths_of(content_deeds(steps@), is_pointer),
{
    let mut paths: Vec<String> = Vec::new();
    let ghost all = content_deeds(steps@);
    assert(texts(paths@) =~= Seq::<Seq<char>>::empty());
    if !is_pointer {
        return paths;
    }
    let mut i: usize = 0;
    assert(all.take(0) =~= Seq::<ContentDeed>::empty());
    while i < steps.len()
        invariant
            i <= steps@.len(),
            all == content_deeds(steps@),
            texts(paths@) == written_paths(all.take(i as int)),
        decreases steps@.len() - i,
    {
        proof {
            assert(all.take(i + 1).drop_last() =~= all.take(i as int));
            assert(all.take(i + 1).last() == steps@[i as int]@);
        }
        match &steps[i] {
            ContentStep::Write { path, .. } => {
                push_text(&mut paths, path.clone());
            },
            ContentStep::CopyFirst { path, .. } => {
                push_text(&mut paths, path.clone());
            },
            ContentStep::Remember { .. } => {},
        }
        i += 1;
    }
    assert(all.take(i as int) =~= all);
    paths
}

/// The paths of the links of a tree, in order.
pub open spec fn links_in(entries: Seq<GitTreeEntryView>) -> Seq<Seq<char>>
    decreases entries.len(),
{
    if entries.len() == 0 {
        Seq::empty()
    } else {
        let earlier = links_in(entries.drop_last());
        if entries.last().kind == "blob"@ && entries.last().mode == "120000"@ {
            earlier.push(entries.last().path)
        } else {
            earlier
        }
    }
}

/// The paths of the links of a tree, in the order in which they are written, after
/// everything else.
pub fn link_paths(entries: &Vec<GitTreeEntry>) -> (paths: Vec<String>)
    ensures
        texts(paths@) == links_in(entry_views(entries@)),
{
    let ghost all = entry_views(entries@);
    let mut paths: Vec<String> = Vec::new();
    let mut i: usize = 0;
    proof {
        assert(all.take(0) =~= Seq::<GitTreeEntryView>::empty());
        assert(texts(paths@) =~= Seq::<Seq<char>>::empty());
    }
    while i < entries.len()
        invariant
            i <= entries@.len(),
            all == entry_views(entries@),
            texts(paths@) == links_in(all.take(i as int)),
        decreases entries@.len() - i,
    {
        proof {
            assert(all.take(i + 1).drop_last() =~= all.take(i as int));
            assert(all.take(i + 1).last() == entries@[i as int]@);
        }
        if same_text(entries[i].kind.as_str(), "blob") && same_text(
            entries[i].mode.as_str(),
            "120000",
        ) {
            push_text(&mut paths, entries[i].path.clone());
        }
        i += 1;
    }
    assert(all.take(i as int) =~= all);
    paths
}

/// A link that is to be written, or why it is refused: its target must be a text, and
/// nothing may stand in its place.
pub fn link_target(content: &Vec<u8>, place: &str, occupied: bool) -> (outcome: Result<
    String,
    Refusal,
>)
    ensures
        crate::clock::written(
            outcome,
            match text_in(content@, "frozen source symlink target is not UTF-8"@) {
                Err(w) => Err(w),
                Ok(target) => if occupied {
                    Err(
                        "frozen source writer refuses to overwrite an existing entry at "@
                            + place@,
                    )
                } else {
                    Ok(target)
                },
            },
        ),
{
    let target = text_of_bytes(content.as_slice(), "frozen source symlink target is not UTF-8")?;
    if occupied {
        return Err(
            Refusal {
                text: cat2(
                    "frozen source writer refuses to overwrite an existing entry at ",
                    place,
                ),
            },
        );
    }
    Ok(target)
}

proof fn lemma_objects(entries: Seq<GitTreeEntryView>)
    ensures
        objects_of(entries).no_duplicates(),
        forall|i: int|
            0 <= i < entries.len() && (#[trigger] entries[i]).kind == "blob"@ ==> objects_of(
                entries,
            ).contains(entries[i].object),
    decreases entries.len(),
{
    if entries.len() > 0 {
        let fewer = entries.drop_last();
        let earlier = objects_of(fewer);
        lemma_objects(fewer);
        let entry = entries.last();
        let all = objects_of(entries);
        if entry.kind == "blob"@ && !earlier.contains(entry.object) {
            assert(all == earlier.push(entry.object));
            assert(all[earlier.len() as int] == entry.object);
            assert forall|i: int, j: int| 0 <= i < j < all.len() implies all[i] != all[j] by {
                if j == earlier.len() {
                    assert(earlier.contains(earlier[i]));
                }
            }
        }
        assert forall|i: int|
            0 <= i < entries.len() && (#[trigger] entries[i]).kind == "blob"@ implies all.contains(
            entries[i].object,
        ) by {
            if i < fewer.len() {
                assert(fewer[i] == entries[i]);
                let k = choose|k: int| 0 <= k < earlier.len() && earlier[k] == entries[i].object;
                assert(all[k] == entries[i].object);
            }
        }
    }
}

/// Every content that a tree holds is asked for, and none is asked for twice.
pub proof fn every_content_is_asked_for_once(entries: Seq<GitTreeEntryView>)
    ensures
        objects_of(entries).no_duplicates(),
        forall|i: int|
            0 <= i < entries.len() && (#[trigger] entries[i]).kind == "blob"@ ==> objects_of(
                entries,
            ).contains(entries[i].object),
{
    lemma_objects(entries);
}

} // verus!
