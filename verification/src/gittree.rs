//! A Git tree as `git ls-tree` lists it: read, held to what a frozen source may contain,
//! and put in the order of its paths.
use vstd::prelude::*;
use vstd::seq_lib::{to_multiset_contains, to_multiset_insert};

use crate::digest::{git_sha_refusal, require_git_sha};
use crate::paths::{
    absolute, components, components_of, is_absolute, join_components, joined_components,
    lemma_component_shape, lemma_plain_components,
};
use crate::procfs::{text_in, text_of_bytes};
use crate::scan::{
    before, bytes_after, bytes_before, cut_first, lemma_before_irreflexive, lemma_before_total,
    lemma_before_transitive, split, split_bytes, split_text, text_before,
};
use crate::text::{
    byte_strings, check, either, judged, list_contains, push_text, refuse, same_text, texts, unless,
    Refusal,
};

verus! {

/// One entry of a Git tree.
#[derive(Clone, Debug, PartialEq, Eq)]
pub struct GitTreeEntry {
    pub mode: String,
    pub kind: String,
    pub object: String,
    pub path: String,
}

/// What `GitTreeEntry` holds.
#[verifier::ext_equal]
pub struct GitTreeEntryView {
    pub mode: Seq<char>,
    pub kind: Seq<char>,
    pub object: Seq<char>,
    pub path: Seq<char>,
}

impl View for GitTreeEntry {
    type V = GitTreeEntryView;

    open spec fn view(&self) -> GitTreeEntryView {
        GitTreeEntryView {
            mode: self.mode@,
            kind: self.kind@,
            object: self.object@,
            path: self.path@,
        }
    }
}

/// What each entry of a list holds.
pub open spec fn entry_views(list: Seq<GitTreeEntry>) -> Seq<GitTreeEntryView> {
    Seq::new(list.len(), |i: int| list[i]@)
}

/// The components of a path without marks of the current directory.
pub open spec fn without_marks(parts: Seq<Seq<char>>) -> Seq<Seq<char>>
    decreases parts.len(),
{
    if parts.len() == 0 {
        Seq::empty()
    } else if parts.last() == "."@ {
        without_marks(parts.drop_last())
    } else {
        without_marks(parts.drop_last()).push(parts.last())
    }
}

/// A relative path in its plainest form, or why it has none.
pub open spec fn normalized(path: Seq<char>) -> Result<Seq<char>, Seq<char>> {
    if absolute(path) {
        Err("runner path is not relative"@)
    } else if components(path).contains(".."@) {
        Err("runner path escapes its workspace"@)
    } else {
        Ok(joined_components(without_marks(components(path))))
    }
}

/// A relative path in its plainest form: without repeated separators and marks of the
/// current directory. One with a step up is refused.
pub fn normalized_relative(path: &str) -> (outcome: Result<String, Refusal>)
    ensures
        crate::clock::written(outcome, normalized(path@)),
{
    check(!is_absolute(path), "runner path is not relative")?;
    let parts = components_of(path);
    check(!list_contains(parts.as_slice(), ".."), "runner path escapes its workspace")?;
    let ghost all = components(path@);
    let mut kept: Vec<String> = Vec::new();
    let mut i: usize = 0;
    proof {
        assert(texts(parts@) == all);
        assert(all.take(0) =~= Seq::<Seq<char>>::empty());
        assert(texts(kept@) =~= Seq::<Seq<char>>::empty());
    }
    while i < parts.len()
        invariant
            i <= parts@.len(),
            texts(parts@) == all,
            texts(kept@) == without_marks(all.take(i as int)),
        decreases parts@.len() - i,
    {
        proof {
            assert(all.take(i + 1).drop_last() =~= all.take(i as int));
            assert(all.take(i + 1).last() == parts@[i as int]@);
        }
        if !same_text(parts[i].as_str(), ".") {
            push_text(&mut kept, parts[i].clone());
        }
        i += 1;
    }
    assert(all.take(i as int) =~= all);
    let n: usize = kept.len();
    let text = join_components(kept.as_slice(), n);
    assert(texts(kept@).take(n as int) =~= texts(kept@));
    Ok(text)
}

/// Why a path may not stand in a Git tree, if so.
pub open spec fn tree_path_refusal(path: Seq<char>) -> Option<Seq<char>> {
    match normalized(path) {
        Err(w) => Some(w),
        Ok(plain) => either(
            unless(plain == path, "Git tree path is not normalized"@),
            unless(
                !components(path).contains(".git"@),
                "Git tree contains forbidden .git metadata"@,
            ),
        ),
    }
}

/// Admits a path of a Git tree.
pub fn admit_tree_path(path: &str) -> (outcome: Result<(), Refusal>)
    ensures
        judged(outcome, tree_path_refusal(path@)),
{
    let plain = normalized_relative(path)?;
    check(same_text(plain.as_str(), path), "Git tree path is not normalized")?;
    let parts = components_of(path);
    check(
        !list_contains(parts.as_slice(), ".git"),
        "Git tree contains forbidden .git metadata",
    )
}

/// The entry that the fields of a record and its path make, or why they make none.
pub open spec fn entry_of_fields(fields: Seq<Seq<char>>, path: Seq<char>) -> Result<
    GitTreeEntryView,
    Seq<char>,
> {
    if fields.len() < 2 {
        Err("Git tree record has no kind"@)
    } else if fields.len() < 3 {
        Err("Git tree record has no object"@)
    } else if fields.len() > 3 {
        Err("Git tree record has extra fields"@)
    } else {
        match either(git_sha_refusal(fields[2], "Git tree object"@), tree_path_refusal(path)) {
            Some(w) => Err(w),
            None => Ok(
                GitTreeEntryView { mode: fields[0], kind: fields[1], object: fields[2], path },
            ),
        }
    }
}

/// The entry that a record is, or why it is none.
pub open spec fn entry_of_record(record: Seq<u8>) -> Result<GitTreeEntryView, Seq<char>> {
    match cut_first(record, 9u8) {
        None => Err("Git tree record has no path delimiter"@),
        Some((header, rest)) => match text_in(header, "Git tree record header is not UTF-8"@) {
            Err(w) => Err(w),
            Ok(text) => match text_in(rest, "Git tree path is not UTF-8"@) {
                Err(w) => Err(w),
                Ok(path) => entry_of_fields(split(text, ' '), path),
            },
        },
    }
}

fn cut_record(record: &[u8]) -> (halves: Option<(Vec<u8>, Vec<u8>)>)
    ensures
        match (halves, cut_first(record@, 9u8)) {
            (Some(found), Some(owed)) => found.0@ == owed.0 && found.1@ == owed.1,
            (None, None) => true,
            _ => false,
        },
{
    let mut i: usize = 0;
    while i < record.len()
        invariant
            i <= record@.len(),
            forall|j: int| 0 <= j < i ==> #[trigger] record@[j] != 9u8,
        decreases record@.len() - i,
    {
        if record[i] == 9u8 {
            proof {
                crate::scan::lemma_cut_first(record@, 9u8, i as int);
            }
            return Some((bytes_before(record, i), bytes_after(record, i + 1)));
        }
        i += 1;
    }
    None
}

fn read_record(record: &[u8]) -> (outcome: Result<GitTreeEntry, Refusal>)
    ensures
        crate::records::reads(outcome, entry_of_record(record@)),
{
    let (header, rest) = match cut_record(record) {
        Some(halves) => halves,
        None => return Err(refuse("Git tree record has no path delimiter")),
    };
    let text = text_of_bytes(header.as_slice(), "Git tree record header is not UTF-8")?;
    let path = text_of_bytes(rest.as_slice(), "Git tree path is not UTF-8")?;
    let fields = split_text(text.as_str(), ' ');
    let ghost all = split(text@, ' ');
    assert(texts(fields@) == all);
    if fields.len() < 2 {
        return Err(refuse("Git tree record has no kind"));
    }
    if fields.len() < 3 {
        return Err(refuse("Git tree record has no object"));
    }
    if fields.len() > 3 {
        return Err(refuse("Git tree record has extra fields"));
    }
    proof {
        assert(all[0] == fields@[0]@ && all[1] == fields@[1]@ && all[2] == fields@[2]@);
    }
    require_git_sha(fields[2].as_str(), "Git tree object")?;
    admit_tree_path(path.as_str())?;
    Ok(
        GitTreeEntry {
            mode: fields[0].clone(),
            kind: fields[1].clone(),
            object: fields[2].clone(),
            path,
        },
    )
}

/// The entries of the first pieces of a listing, or why the first bad one is refused.
pub open spec fn listed(pieces: Seq<Seq<u8>>) -> Result<Seq<GitTreeEntryView>, Seq<char>>
    decreases pieces.len(),
{
    if pieces.len() == 0 {
        Ok(Seq::empty())
    } else {
        match listed(pieces.drop_last()) {
            Err(w) => Err(w),
            Ok(earlier) => if pieces.last().len() == 0 {
                Ok(earlier)
            } else {
                match entry_of_record(pieces.last()) {
                    Err(w) => Err(w),
                    Ok(entry) => Ok(earlier.push(entry)),
                }
            },
        }
    }
}

proof fn lemma_listed_fails(pieces: Seq<Seq<u8>>, n: int)
    requires
        0 <= n <= pieces.len(),
        listed(pieces.take(n)) is Err,
    ensures
        listed(pieces) == listed(pieces.take(n)),
    decreases pieces.len() - n,
{
    if n < pieces.len() {
        assert(pieces.take(n + 1).drop_last() =~= pieces.take(n));
        lemma_listed_fails(pieces, n + 1);
    } else {
        assert(pieces.take(n) =~= pieces);
    }
}

fn read_listing(output: &[u8]) -> (outcome: Result<Vec<GitTreeEntry>, Refusal>)
    ensures
        match (outcome, listed(split(output@, 0u8))) {
            (Ok(list), Ok(owed)) => entry_views(list@) == owed,
            (Err(refusal), Err(w)) => refusal@ == w,
            _ => false,
        },
{
    let pieces = split_bytes(output, 0u8);
    let ghost all = split(output@, 0u8);
    let mut list: Vec<GitTreeEntry> = Vec::new();
    let mut i: usize = 0;
    proof {
        assert(byte_strings(pieces@) == all);
        assert(all.take(0) =~= Seq::<Seq<u8>>::empty());
        assert(entry_views(list@) =~= Seq::<GitTreeEntryView>::empty());
    }
    while i < pieces.len()
        invariant
            i <= pieces@.len(),
            byte_strings(pieces@) == all,
            all == split(output@, 0u8),
            listed(all.take(i as int)) == Ok::<Seq<GitTreeEntryView>, Seq<char>>(
                entry_views(list@),
            ),
        decreases pieces@.len() - i,
    {
        proof {
            assert(all.take(i + 1).drop_last() =~= all.take(i as int));
            assert(all.take(i + 1).last() == pieces@[i as int]@);
        }
        if pieces[i].len() > 0 {
            match read_record(pieces[i].as_slice()) {
                Ok(entry) => {
                    let ghost earlier = list@;
                    let ghost view = entry@;
                    list.push(entry);
                    assert(entry_views(list@) =~= entry_views(earlier).push(view));
                },
                Err(refusal) => {
                    proof {
                        lemma_listed_fails(all, i + 1);
                    }
                    return Err(refusal);
                },
            }
        }
        i += 1;
    }
    assert(all.take(i as int) =~= all);
    Ok(list)
}

/// Whether components come before others: by the first in which they differ, and what
/// ends first comes first.
pub open spec fn parts_before(a: Seq<Seq<char>>, b: Seq<Seq<char>>) -> bool
    decreases a.len(),
{
    if b.len() == 0 {
        false
    } else if a.len() == 0 {
        true
    } else if a[0] == b[0] {
        parts_before(a.skip(1), b.skip(1))
    } else {
        before(a[0], b[0])
    }
}

/// Whether a path comes before another.
pub open spec fn path_before(a: Seq<char>, b: Seq<char>) -> bool {
    parts_before(components(a), components(b))
}

proof fn lemma_parts_irreflexive(a: Seq<Seq<char>>)
    ensures
        !parts_before(a, a),
    decreases a.len(),
{
    if a.len() > 0 {
        lemma_parts_irreflexive(a.skip(1));
    }
}

proof fn lemma_parts_transitive(a: Seq<Seq<char>>, b: Seq<Seq<char>>, c: Seq<Seq<char>>)
    requires
        parts_before(a, b),
        parts_before(b, c),
    ensures
        parts_before(a, c),
    decreases a.len(),
{
    if a.len() > 0 {
        if a[0] == b[0] && b[0] == c[0] {
            lemma_parts_transitive(a.skip(1), b.skip(1), c.skip(1));
        } else if a[0] != b[0] && b[0] != c[0] {
            lemma_before_transitive(a[0], b[0], c[0]);
            if a[0] == c[0] {
                lemma_before_irreflexive(a[0]);
            }
        }
    }
}

proof fn lemma_parts_total(a: Seq<Seq<char>>, b: Seq<Seq<char>>)
    ensures
        a == b || parts_before(a, b) || parts_before(b, a),
    decreases a.len(),
{
    if a.len() == 0 {
        if b.len() == 0 {
            assert(a =~= b);
        }
    } else if b.len() > 0 {
        if a[0] == b[0] {
            lemma_parts_total(a.skip(1), b.skip(1));
            if a.skip(1) == b.skip(1) {
                assert(a =~= seq![a[0]] + a.skip(1));
                assert(b =~= seq![b[0]] + b.skip(1));
            }
        } else {
            lemma_before_total(a[0], b[0]);
        }
    }
}

fn are_parts_before(a: &[String], b: &[String]) -> (is: bool)
    ensures
        is == parts_before(texts(a@), texts(b@)),
{
    let mut i: usize = 0;
    let ghost all_a = texts(a@);
    let ghost all_b = texts(b@);
    proof {
        assert(all_a.skip(0) =~= all_a);
        assert(all_b.skip(0) =~= all_b);
    }
    while i < a.len() && i < b.len()
        invariant
            i <= a@.len(),
            i <= b@.len(),
            all_a == texts(a@),
            all_b == texts(b@),
            parts_before(all_a, all_b) == parts_before(
                all_a.skip(i as int),
                all_b.skip(i as int),
            ),
        decreases a@.len() - i,
    {
        proof {
            assert(all_a.skip(i as int)[0] == a@[i as int]@);
            assert(all_b.skip(i as int)[0] == b@[i as int]@);
            assert(all_a.skip(i as int).skip(1) =~= all_a.skip(i + 1));
            assert(all_b.skip(i as int).skip(1) =~= all_b.skip(i + 1));
        }
        if !same_text(a[i].as_str(), b[i].as_str()) {
            return text_before(a[i].as_str(), b[i].as_str());
        }
        i += 1;
    }
    i < b.len()
}

/// Whether a path comes before another.
pub fn is_path_before(a: &str, b: &str) -> (is: bool)
    ensures
        is == path_before(a@, b@),
{
    let x = components_of(a);
    let y = components_of(b);
    are_parts_before(x.as_slice(), y.as_slice())
}

/// Whether entries stand in the order of their paths, each path once.
pub open spec fn in_path_order(list: Seq<GitTreeEntryView>) -> bool {
    forall|i: int, j: int|
        0 <= i < j < list.len() ==> path_before(#[trigger] list[i].path, #[trigger] list[j].path)
}

/// Whether two entries of a list have one path.
pub open spec fn path_twice(list: Seq<GitTreeEntryView>) -> bool {
    exists|i: int, j: int|
        0 <= i < j < list.len() && components(#[trigger] list[i].path) == components(
            #[trigger] list[j].path,
        )
}

proof fn lemma_placed(list: Seq<GitTreeEntryView>, one: GitTreeEntryView, p: int)
    requires
        in_path_order(list),
        0 <= p <= list.len(),
        forall|i: int| 0 <= i < p ==> path_before(#[trigger] list[i].path, one.path),
        p < list.len() ==> path_before(one.path, list[p].path),
    ensures
        in_path_order(list.insert(p, one)),
{
    let grown = list.insert(p, one);
    assert forall|i: int, j: int| 0 <= i < j < grown.len() implies path_before(
        #[trigger] grown[i].path,
        #[trigger] grown[j].path,
    ) by {
        if j == p {
            assert(grown[i] == list[i]);
        } else if i == p {
            assert(grown[j] == list[j - 1]);
            if p < j - 1 {
                assert(path_before(list[p].path, list[j - 1].path));
                lemma_parts_transitive(
                    components(one.path),
                    components(list[p].path),
                    components(list[j - 1].path),
                );
            }
        } else {
            let a = if i < p { i } else { i - 1 };
            let b = if j < p { j } else { j - 1 };
            assert(grown[i] == list[a]);
            assert(grown[j] == list[b]);
        }
    }
}

proof fn lemma_no_second(
    held: Seq<GitTreeEntryView>,
    so_far: Seq<GitTreeEntryView>,
    one: GitTreeEntryView,
    p: int,
)
    requires
        in_path_order(held),
        held.to_multiset() == so_far.to_multiset(),
        !path_twice(so_far),
        0 <= p <= held.len(),
        forall|i: int| 0 <= i < p ==> path_before(#[trigger] held[i].path, one.path),
        p < held.len() ==> path_before(one.path, held[p].path),
    ensures
        !path_twice(so_far.push(one)),
{
    let grown = so_far.push(one);
    assert forall|i: int, j: int| 0 <= i < j < grown.len() implies components(
        #[trigger] grown[i].path,
    ) != components(#[trigger] grown[j].path) by {
        if j < so_far.len() {
            assert(grown[i] == so_far[i] && grown[j] == so_far[j]);
        } else {
            let other = so_far[i];
            assert(so_far.contains(other));
            to_multiset_contains(so_far, other);
            to_multiset_contains(held, other);
            let q = choose|q: int| 0 <= q < held.len() && held[q] == other;
            lemma_parts_irreflexive(components(one.path));
            if q < p {
                assert(path_before(held[q].path, one.path));
            } else {
                if p < q {
                    assert(path_before(held[p].path, held[q].path));
                    lemma_parts_transitive(
                        components(one.path),
                        components(held[p].path),
                        components(held[q].path),
                    );
                }
                assert(path_before(one.path, held[q].path));
            }
        }
    }
}

/// Puts entries in the order of their paths. A path that is there twice is refused.
fn order_entries(entries: Vec<GitTreeEntry>) -> (outcome: Result<Vec<GitTreeEntry>, Refusal>)
    ensures
        match outcome {
            Ok(list) => !path_twice(entry_views(entries@)) && in_path_order(entry_views(list@))
                && entry_views(list@).to_multiset() == entry_views(entries@).to_multiset(),
            Err(refusal) => path_twice(entry_views(entries@)) && refusal@
                == "Git tree emits a path twice"@,
        },
{
    let ghost all = entry_views(entries@);
    let mut out: Vec<GitTreeEntry> = Vec::new();
    let mut k: usize = 0;
    proof {
        assert(all.take(0) =~= Seq::<GitTreeEntryView>::empty());
        assert(entry_views(out@) =~= Seq::<GitTreeEntryView>::empty());
    }
    while k < entries.len()
        invariant
            k <= entries@.len(),
            all == entry_views(entries@),
            in_path_order(entry_views(out@)),
            entry_views(out@).to_multiset() == all.take(k as int).to_multiset(),
            !path_twice(all.take(k as int)),
        decreases entries@.len() - k,
    {
        let one = GitTreeEntry {
            mode: entries[k].mode.clone(),
            kind: entries[k].kind.clone(),
            object: entries[k].object.clone(),
            path: entries[k].path.clone(),
        };
        let ghost view = one@;
        let ghost held = entry_views(out@);
        let ghost so_far = all.take(k as int);
        assert(view == all[k as int]);
        let mut p: usize = 0;
        while p < out.len() && is_path_before(out[p].path.as_str(), one.path.as_str())
            invariant
                p <= out@.len(),
                held == entry_views(out@),
                view == one@,
                forall|i: int| 0 <= i < p ==> path_before(#[trigger] held[i].path, view.path),
            decreases out@.len() - p,
        {
            assert(held[p as int] == out@[p as int]@);
            p += 1;
        }
        if p < out.len() && !is_path_before(one.path.as_str(), out[p].path.as_str()) {
            proof {
                assert(held[p as int] == out@[p as int]@);
                lemma_parts_total(components(held[p as int].path), components(view.path));
                to_multiset_contains(held, held[p as int]);
                assert(held.contains(held[p as int]));
                to_multiset_contains(so_far, held[p as int]);
                let i = choose|i: int| 0 <= i < so_far.len() && so_far[i] == held[p as int];
                assert(all[i].path == held[p as int].path);
                assert(components(all[i].path) == components(all[k as int].path));
            }
            return Err(refuse("Git tree emits a path twice"));
        }
        proof {
            if p < out@.len() {
                assert(held[p as int] == out@[p as int]@);
            }
            lemma_placed(held, view, p as int);
            lemma_no_second(held, so_far, view, p as int);
        }
        out.insert(p, one);
        k += 1;
        proof {
            assert(entry_views(out@) =~= held.insert(p as int, view));
            to_multiset_insert(held, p as int, view);
            assert(all.take(k as int) =~= so_far.push(view));
            vstd::seq_lib::to_multiset_build(so_far, view);
        }
    }
    assert(all.take(k as int) =~= all);
    Ok(out)
}

/// Reads a Git tree as `git ls-tree -r -z` lists it.
pub fn git_tree_entries(output: &[u8]) -> (outcome: Result<Vec<GitTreeEntry>, Refusal>)
    ensures
        match listed(split(output@, 0u8)) {
            Err(w) => outcome matches Err(refusal) && refusal@ == w,
            Ok(entries) => if path_twice(entries) {
                outcome matches Err(refusal) && refusal@ == "Git tree emits a path twice"@
            } else {
                outcome matches Ok(list) && in_path_order(entry_views(list@)) && entry_views(
                    list@,
                ).to_multiset() == entries.to_multiset()
            },
        },
{
    let entries = read_listing(output)?;
    order_entries(entries)
}

proof fn lemma_without_marks(parts: Seq<Seq<char>>)
    ensures
        forall|i: int|
            0 <= i < without_marks(parts).len() ==> {
                &&& (#[trigger] without_marks(parts)[i]) != "."@
                &&& parts.contains(without_marks(parts)[i])
            },
        without_marks(without_marks(parts)) == without_marks(parts),
    decreases parts.len(),
{
    if parts.len() > 0 {
        let fewer = parts.drop_last();
        let earlier = without_marks(fewer);
        let all = without_marks(parts);
        lemma_without_marks(fewer);
        assert forall|i: int| 0 <= i < all.len() implies (#[trigger] all[i]) != "."@
            && parts.contains(all[i]) by {
            if i < earlier.len() {
                assert(all[i] == earlier[i]);
                let k = choose|k: int| 0 <= k < fewer.len() && fewer[k] == earlier[i];
                assert(parts[k] == all[i]);
            } else {
                assert(parts[parts.len() - 1] == all[i]);
            }
        }
        if all.len() > earlier.len() {
            assert(all.drop_last() =~= earlier);
        }
    }
}

/// The plainest form of a path has that same form: normalizing it again changes nothing.
pub proof fn a_normalized_path_is_normal(path: Seq<char>)
    ensures
        normalized(path) matches Ok(plain) ==> normalized(plain) == Ok::<Seq<char>, Seq<char>>(
            plain,
        ),
{
    if let Ok(plain) = normalized(path) {
        let parts = components(path);
        let kept = without_marks(parts);
        lemma_without_marks(parts);
        reveal_strlit(".");
        assert("."@ =~= seq!['.']);
        assert forall|i: int| 0 <= i < kept.len() implies (#[trigger] kept[i]).len() > 0
            && !kept[i].contains('/') && kept[i] != seq!['.'] by {
            let k = choose|k: int| 0 <= k < parts.len() && parts[k] == kept[i];
            lemma_component_shape(path, k);
        }
        lemma_plain_components(kept);
        if kept.contains(".."@) {
            let i = choose|i: int| 0 <= i < kept.len() && kept[i] == ".."@;
            assert(parts.contains(kept[i]));
        }
    }
}

/// No entry of a tree that is listed holds metadata of Git, steps out of the tree, or has
/// another path than the plainest.
pub proof fn a_listed_path_is_plain(pieces: Seq<Seq<u8>>, k: int)
    requires
        listed(pieces) is Ok,
        0 <= k < listed(pieces)->Ok_0.len(),
    ensures
        tree_path_refusal(listed(pieces)->Ok_0[k].path) is None,
        !components(listed(pieces)->Ok_0[k].path).contains(".git"@),
        !components(listed(pieces)->Ok_0[k].path).contains(".."@),
        !absolute(listed(pieces)->Ok_0[k].path),
    decreases pieces.len(),
{
    if pieces.len() > 0 {
        let earlier = listed(pieces.drop_last())->Ok_0;
        if k < earlier.len() {
            a_listed_path_is_plain(pieces.drop_last(), k);
        }
    }
}

} // verus!
