//! What a hashed tree is told by: the bytes that are fed to a digest give back every entry of
//! the tree that they were taken from.
use vstd::bytes::spec_u64_to_le_bytes;
use vstd::prelude::*;
use vstd::utf8::encode_utf8;

use crate::deeds::{all_hashed, frame, hashed, planned, task_plan, task_step, truth, Deed, Task};
use crate::paths::{joined, joined_components, lemma_plain_components};
use crate::tree::{below_root, step_at, walk, walk_entries, Tree, VisitView};

verus! {

/// What an entry of a tree is, with all that makes it so.
#[verifier::ext_equal]
pub enum EntryKind {
    Directory,
    File { executable: bool, contents: Seq<u8> },
    Link { target: Seq<u8> },
}

/// An entry of a tree: the names that lead to it from the root, and what it is.
#[verifier::ext_equal]
pub struct Entry {
    pub place: Seq<Seq<char>>,
    pub kind: EntryKind,
}

/// What an entry is, given what the file at each path holds.
pub open spec fn kind_of(
    tree: Tree,
    path: Seq<char>,
    held: spec_fn(Seq<char>) -> Seq<u8>,
) -> EntryKind {
    if tree.facts.is_dir {
        EntryKind::Directory
    } else if tree.facts.is_file {
        EntryKind::File { executable: tree.facts.mode & 0o111 != 0, contents: held(path) }
    } else {
        EntryKind::Link { target: tree.target }
    }
}

/// Every entry at and below the entries of a directory, each directory before what is in it.
pub open spec fn entries_below(
    list: Seq<Tree>,
    place: Seq<Seq<char>>,
    path: Seq<char>,
    held: spec_fn(Seq<char>) -> Seq<u8>,
) -> Seq<Entry>
    decreases list,
{
    if list.len() == 0 {
        Seq::empty()
    } else {
        let one = list.last();
        let here = place.push(one.name);
        let there = joined(path, one.name);
        entries_below(list.drop_last(), place, path, held) + seq![
            Entry { place: here, kind: kind_of(one, there, held) },
        ] + (if one.facts.is_dir {
            entries_below(one.children, here, there, held)
        } else {
            Seq::empty()
        })
    }
}

/// Every entry of a tree below its root.
pub open spec fn entries_of(
    tree: Tree,
    root: Seq<char>,
    held: spec_fn(Seq<char>) -> Seq<u8>,
) -> Seq<Entry> {
    if tree.facts.is_dir {
        entries_below(tree.children, Seq::empty(), root, held)
    } else {
        Seq::empty()
    }
}

/// Whether a name can stand in a directory.
pub open spec fn can_name(name: Seq<char>) -> bool {
    &&& name.len() > 0
    &&& !name.contains('/')
    &&& !name.contains('\0')
    &&& name != seq!['.']
}

/// Whether the entries of a directory can stand in a file system as they are told: names and
/// link targets are such as a file system takes, and every file holds as much as is told of it.
pub open spec fn can_stand(
    list: Seq<Tree>,
    path: Seq<char>,
    held: spec_fn(Seq<char>) -> Seq<u8>,
) -> bool
    decreases list,
{
    list.len() > 0 ==> {
        let one = list.last();
        let there = joined(path, one.name);
        &&& can_stand(list.drop_last(), path, held)
        &&& can_name(one.name)
        &&& !one.target.contains(0u8)
        &&& one.facts.is_dir ==> can_stand(one.children, there, held)
        &&& !one.facts.is_dir && one.facts.is_file ==> held(there).len() == one.facts.len
    }
}

/// Whether contents are what the file of each deed holds.
pub open spec fn are_read(
    deeds: Seq<Deed>,
    contents: Seq<Seq<u8>>,
    held: spec_fn(Seq<char>) -> Seq<u8>,
) -> bool {
    &&& contents.len() == deeds.len()
    &&& forall|i: int|
        0 <= i < deeds.len() ==> match #[trigger] deeds[i] {
            Deed::HashContents(path) => contents[i] == held(path),
            Deed::HashSized(path) => contents[i] == held(path),
            _ => true,
        }
}

spec fn fed(deeds: Seq<Deed>, held: spec_fn(Seq<char>) -> Seq<u8>) -> Seq<u8>
    decreases deeds.len(),
{
    if deeds.len() == 0 {
        Seq::empty()
    } else {
        fed(deeds.drop_last(), held) + fed_by(deeds.last(), held)
    }
}

spec fn fed_by(deed: Deed, held: spec_fn(Seq<char>) -> Seq<u8>) -> Seq<u8> {
    match deed {
        Deed::HashContents(path) => hashed(deed, held(path)),
        Deed::HashSized(path) => hashed(deed, held(path)),
        _ => hashed(deed, Seq::empty()),
    }
}

proof fn lemma_fed(
    deeds: Seq<Deed>,
    contents: Seq<Seq<u8>>,
    held: spec_fn(Seq<char>) -> Seq<u8>,
    n: int,
)
    requires
        are_read(deeds, contents, held),
        0 <= n <= deeds.len(),
    ensures
        all_hashed(deeds.take(n), contents) == fed(deeds.take(n), held),
    decreases n,
{
    if n > 0 {
        lemma_fed(deeds, contents, held, n - 1);
        assert(deeds.take(n).drop_last() =~= deeds.take(n - 1));
        assert(deeds.take(n).last() == deeds[n - 1]);
    }
}

proof fn lemma_fed_more(a: Seq<Deed>, b: Seq<Deed>, held: spec_fn(Seq<char>) -> Seq<u8>)
    ensures
        fed(a + b, held) == fed(a, held) + fed(b, held),
    decreases b.len(),
{
    if b.len() == 0 {
        assert(a + b =~= a);
        assert(fed(a, held) + Seq::<u8>::empty() =~= fed(a, held));
    } else {
        lemma_fed_more(a, b.drop_last(), held);
        assert((a + b).drop_last() =~= a + b.drop_last());
        assert(fed(a, held) + (fed(b.drop_last(), held) + fed_by(b.last(), held)) =~= (fed(a, held)
            + fed(b.drop_last(), held)) + fed_by(b.last(), held));
    }
}

proof fn lemma_planned_more(task: Task, a: Seq<VisitView>, b: Seq<VisitView>)
    requires
        planned(task, a + b).refusal is None,
    ensures
        planned(task, a).refusal is None,
        planned(task, b).refusal is None,
        planned(task, a + b).steps == planned(task, a).steps + planned(task, b).steps,
    decreases b.len(),
{
    if b.len() == 0 {
        assert(a + b =~= a);
        assert(planned(task, a).steps + Seq::<Deed>::empty() =~= planned(task, a).steps);
    } else {
        assert((a + b).drop_last() =~= a + b.drop_last());
        assert((a + b).last() == b.last());
        lemma_planned_more(task, a, b.drop_last());
        let last = task_step(task, b.last());
        assert(planned(task, a).steps + (planned(task, b.drop_last()).steps + last.steps)
            =~= (planned(task, a).steps + planned(task, b.drop_last()).steps) + last.steps);
    }
}

proof fn lemma_planned_one(task: Task, v: VisitView)
    ensures
        planned(task, seq![v]) == task_step(task, v),
{
    let one = seq![v];
    assert(one.drop_last() =~= Seq::<VisitView>::empty());
    assert(planned(task, one.drop_last()).steps + task_step(task, v).steps =~= task_step(
        task,
        v,
    ).steps);
}

/// Whether it is a source that is hashed; an artifact is hashed otherwise.
spec fn hashing(source: bool) -> Task {
    if source {
        Task::HashSource
    } else {
        Task::HashArtifact
    }
}

spec fn code(e: Entry, source: bool) -> Seq<u8> {
    let relative = joined_components(e.place);
    match e.kind {
        EntryKind::Directory => frame("dir"@, relative),
        EntryKind::File { executable, contents } => frame("file"@, relative) + (if source {
            encode_utf8(truth(executable)) + seq![0u8]
        } else {
            Seq::empty()
        }) + spec_u64_to_le_bytes(contents.len() as u64) + contents,
        EntryKind::Link { target } => frame("link"@, relative) + target + (if source {
            seq![0u8]
        } else {
            Seq::empty()
        }),
    }
}

spec fn codes(list: Seq<Entry>, source: bool) -> Seq<u8>
    decreases list.len(),
{
    if list.len() == 0 {
        Seq::empty()
    } else {
        code(list[0], source) + codes(list.skip(1), source)
    }
}

proof fn lemma_codes_more(a: Seq<Entry>, b: Seq<Entry>, source: bool)
    ensures
        codes(a + b, source) == codes(a, source) + codes(b, source),
    decreases a.len(),
{
    if a.len() == 0 {
        assert(a + b =~= b);
        assert(Seq::<u8>::empty() + codes(b, source) =~= codes(b, source));
    } else {
        lemma_codes_more(a.skip(1), b, source);
        assert((a + b).skip(1) =~= a.skip(1) + b);
        assert((a + b)[0] == a[0]);
        assert(code(a[0], source) + (codes(a.skip(1), source) + codes(b, source)) =~= (code(
            a[0],
            source,
        ) + codes(a.skip(1), source)) + codes(b, source));
    }
}

proof fn lemma_codes_one(e: Entry, source: bool)
    ensures
        codes(seq![e], source) == code(e, source),
{
    reveal_with_fuel(codes, 2);
    assert(seq![e].skip(1) =~= Seq::<Entry>::empty());
    assert(code(e, source) + Seq::<u8>::empty() =~= code(e, source));
}

/// Whether every part of a place can be the name of an entry.
pub open spec fn all_named(place: Seq<Seq<char>>) -> bool {
    forall|i: int| 0 <= i < place.len() ==> can_name(#[trigger] place[i])
}

/// A name below a place is the text of the longer place.
pub proof fn lemma_place_text(place: Seq<Seq<char>>, name: Seq<char>)
    requires
        all_named(place),
        can_name(name),
    ensures
        below_root(joined_components(place), name) == joined_components(place.push(name)),
        all_named(place.push(name)),
{
    let more = place.push(name);
    assert(more.drop_last() =~= place);
    assert(more.last() == name);
    reveal_strlit("/");
    assert("/"@ =~= seq!['/']);
    if place.len() == 0 {
        assert(joined_components(place) =~= Seq::<char>::empty());
        assert(more.len() == 1);
    } else {
        assert(can_name(place[0]));
        assert(can_name(place.last()));
        assert(joined_components(place).len() > 0);
    }
}

spec fn told(
    list: Seq<Tree>,
    place: Seq<Seq<char>>,
    path: Seq<char>,
    held: spec_fn(Seq<char>) -> Seq<u8>,
    source: bool,
) -> bool {
    fed(
        planned(hashing(source), walk_entries(list, path, joined_components(place))).steps,
        held,
    ) == codes(entries_below(list, place, path, held), source)
}

proof fn lemma_told(
    list: Seq<Tree>,
    place: Seq<Seq<char>>,
    path: Seq<char>,
    held: spec_fn(Seq<char>) -> Seq<u8>,
    source: bool,
)
    requires
        can_stand(list, path, held),
        all_named(place),
        planned(hashing(source), walk_entries(list, path, joined_components(place))).refusal
            is None,
    ensures
        told(list, place, path, held, source),
    decreases list,
{
    let task = hashing(source);
    let relative = joined_components(place);
    if list.len() > 0 {
        let one = list.last();
        let here = place.push(one.name);
        let there = joined(path, one.name);
        let earlier = walk_entries(list.drop_last(), path, relative);
        let visits = walk(one, there, below_root(relative, one.name), false);
        lemma_place_text(place, one.name);
        lemma_planned_more(task, earlier, visits);
        lemma_told(list.drop_last(), place, path, held, source);
        lemma_fed_more(planned(task, earlier).steps, planned(task, visits).steps, held);
        let e = Entry { place: here, kind: kind_of(one, there, held) };
        let entered = step_at(one, there, joined_components(here), false, false);
        let left = step_at(one, there, joined_components(here), false, true);
        let inner = if one.facts.is_dir {
            entries_below(one.children, here, there, held)
        } else {
            Seq::empty()
        };
        assert(
            fed(planned(task, visits).steps, held) == code(e, source) + codes(inner, source)
        ) by {
            if one.facts.is_dir {
                let within = walk_entries(one.children, there, joined_components(here));
                assert(visits =~= (seq![entered] + within) + seq![left]);
                lemma_planned_more(task, seq![entered] + within, seq![left]);
                lemma_planned_more(task, seq![entered], within);
                lemma_planned_one(task, entered);
                lemma_planned_one(task, left);
                lemma_entered(one, there, here, held, source);
                lemma_told(one.children, here, there, held, source);
                lemma_fed_more(
                    planned(task, seq![entered]).steps,
                    planned(task, within).steps,
                    held,
                );
                assert(planned(task, seq![left]).steps =~= Seq::<Deed>::empty());
                assert(planned(task, visits).steps =~= planned(task, seq![entered] + within).steps);
            } else {
                assert(visits =~= seq![entered]);
                lemma_planned_one(task, entered);
                lemma_entered(one, there, here, held, source);
                assert(code(e, source) + Seq::<u8>::empty() =~= code(e, source));
            }
        }
        let first = entries_below(list.drop_last(), place, path, held);
        lemma_codes_one(e, source);
        lemma_codes_more(seq![e], inner, source);
        lemma_codes_more(first, seq![e] + inner, source);
        assert(entries_below(list, place, path, held) =~= first + (seq![e] + inner));
    }
}

proof fn lemma_entered(
    one: Tree,
    there: Seq<char>,
    here: Seq<Seq<char>>,
    held: spec_fn(Seq<char>) -> Seq<u8>,
    source: bool,
)
    requires
        task_step(
            hashing(source),
            step_at(one, there, joined_components(here), false, false),
        ).refusal is None || one.facts.is_dir,
        !one.facts.is_dir && one.facts.is_file ==> held(there).len() == one.facts.len,
    ensures
        fed(
            task_step(
                hashing(source),
                step_at(one, there, joined_components(here), false, false),
            ).steps,
            held,
        ) == code(Entry { place: here, kind: kind_of(one, there, held) }, source),
{
    let v = step_at(one, there, joined_components(here), false, false);
    let steps = task_step(hashing(source), v).steps;
    let e = Entry { place: here, kind: kind_of(one, there, held) };
    if steps.len() == 1 {
        lemma_fed_one(steps[0], held);
        assert(steps =~= seq![steps[0]]);
        if !one.facts.is_dir {
            assert(fed(steps, held) =~= code(e, source));
        }
    } else {
        lemma_fed_one(steps[0], held);
        lemma_fed_one(steps[1], held);
        lemma_fed_more(seq![steps[0]], seq![steps[1]], held);
        assert(steps =~= seq![steps[0]] + seq![steps[1]]);
        assert(fed(steps, held) =~= code(e, source));
    }
}

proof fn lemma_fed_one(deed: Deed, held: spec_fn(Seq<char>) -> Seq<u8>)
    ensures
        fed(seq![deed], held) == fed_by(deed, held),
{
    reveal_with_fuel(fed, 2);
    assert(seq![deed].drop_last() =~= Seq::<Deed>::empty());
    assert(Seq::<u8>::empty() + fed_by(deed, held) =~= fed_by(deed, held));
}

proof fn lemma_scalar_no_nul(c: char)
    requires
        c != '\0',
    ensures
        !vstd::utf8::encode_scalar(c as u32).contains(0u8),
{
    let s = c as u32;
    assert(s != 0);
    assert({
        &&& (0 < s <= 0x7f ==> (s & 0x7f) as u8 != 0)
        &&& 0xc0u8 | ((s >> 6) & 0x1f) as u8 != 0
        &&& 0xe0u8 | ((s >> 12) & 0x0f) as u8 != 0
        &&& 0xf0u8 | ((s >> 18) & 0x7) as u8 != 0
        &&& 0x80u8 | (s & 0x3f) as u8 != 0
        &&& 0x80u8 | ((s >> 6) & 0x3f) as u8 != 0
        &&& 0x80u8 | ((s >> 12) & 0x3f) as u8 != 0
    }) by (bit_vector);
}

/// A text without the null character is written without null bytes.
pub proof fn lemma_no_nul(text: Seq<char>)
    requires
        !text.contains('\0'),
    ensures
        !encode_utf8(text).contains(0u8),
    decreases text.len(),
{
    if text.len() > 0 {
        let rest = text.drop_first();
        assert(text.contains(text[0]));
        assert forall|i: int| 0 <= i < rest.len() implies rest[i] != '\0' by {
            assert(text.contains(text[i + 1]));
        }
        lemma_no_nul(rest);
        lemma_scalar_no_nul(text[0]);
        let one = vstd::utf8::encode_scalar(text[0] as u32);
        let whole = encode_utf8(text);
        assert forall|i: int| 0 <= i < whole.len() implies whole[i] != 0u8 by {
            if i < one.len() {
                assert(one.contains(one[i]));
            } else {
                assert(encode_utf8(rest).contains(encode_utf8(rest)[i - one.len()]));
            }
        }
    }
}

proof fn lemma_place_no_nul(place: Seq<Seq<char>>)
    requires
        all_named(place),
    ensures
        !joined_components(place).contains('\0'),
    decreases place.len(),
{
    let text = joined_components(place);
    if place.len() == 1 {
        assert(can_name(place[0]));
    } else if place.len() > 1 {
        let fewer = place.drop_last();
        assert(all_named(fewer)) by {
            assert forall|i: int| 0 <= i < fewer.len() implies can_name(#[trigger] fewer[i]) by {
                assert(can_name(place[i]));
            }
        }
        lemma_place_no_nul(fewer);
        let head = joined_components(fewer);
        assert(can_name(place.last()));
        assert forall|i: int| 0 <= i < text.len() implies text[i] != '\0' by {
            if i < head.len() {
                assert(head.contains(head[i]));
            } else if i > head.len() {
                assert(place.last().contains(place.last()[i - head.len() - 1]));
            }
        }
    }
}

proof fn lemma_one_place(a: Seq<Seq<char>>, b: Seq<Seq<char>>)
    requires
        all_named(a),
        all_named(b),
        encode_utf8(joined_components(a)) == encode_utf8(joined_components(b)),
    ensures
        a == b,
{
    vstd::utf8::encode_utf8_decode_utf8(joined_components(a));
    vstd::utf8::encode_utf8_decode_utf8(joined_components(b));
    assert forall|i: int| 0 <= i < a.len() implies (#[trigger] a[i]).len() > 0
        && !a[i].contains('/')
        && a[i] != seq!['.'] by {
        assert(can_name(a[i]));
    }
    assert forall|i: int| 0 <= i < b.len() implies (#[trigger] b[i]).len() > 0
        && !b[i].contains('/')
        && b[i] != seq!['.'] by {
        assert(can_name(b[i]));
    }
    lemma_plain_components(a);
    lemma_plain_components(b);
}

/// A field that ends with the first zero byte is told from what follows it.
proof fn lemma_field(a: Seq<u8>, x: Seq<u8>, b: Seq<u8>, y: Seq<u8>)
    requires
        !a.contains(0u8),
        !b.contains(0u8),
        a + seq![0u8] + x == b + seq![0u8] + y,
    ensures
        a == b,
        x == y,
{
    let one = a + seq![0u8] + x;
    let two = b + seq![0u8] + y;
    if a.len() < b.len() {
        assert(one[a.len() as int] == 0u8);
        assert(two[a.len() as int] == b[a.len() as int]);
        assert(b.contains(b[a.len() as int]));
    } else if b.len() < a.len() {
        assert(two[b.len() as int] == 0u8);
        assert(one[b.len() as int] == a[b.len() as int]);
        assert(a.contains(a[b.len() as int]));
    }
    assert forall|i: int| 0 <= i < a.len() implies a[i] == b[i] by {
        assert(one[i] == two[i]);
    }
    assert(a =~= b);
    let n = a.len() as int + 1;
    assert(one.skip(n) =~= x);
    assert(two.skip(n) =~= y);
}

/// What has a length is told from what follows it.
proof fn lemma_part(a: Seq<u8>, x: Seq<u8>, b: Seq<u8>, y: Seq<u8>)
    requires
        a.len() == b.len(),
        a + x == b + y,
    ensures
        a == b,
        x == y,
{
    let n = a.len() as int;
    assert((a + x).take(n) =~= a);
    assert((b + y).take(n) =~= b);
    assert((a + x).skip(n) =~= x);
    assert((b + y).skip(n) =~= y);
}

proof fn lemma_marks()
    ensures
        !encode_utf8("dir"@).contains(0u8),
        !encode_utf8("file"@).contains(0u8),
        !encode_utf8("link"@).contains(0u8),
        !encode_utf8("true"@).contains(0u8),
        !encode_utf8("false"@).contains(0u8),
        encode_utf8("dir"@).len() == 3,
        encode_utf8("file"@).len() == 4,
        encode_utf8("link"@).len() == 4,
        encode_utf8("file"@)[0] == 0x66,
        encode_utf8("link"@)[0] == 0x6c,
        encode_utf8("dir"@).last() == 0x72,
        encode_utf8("file"@).last() == 0x65,
        encode_utf8("link"@).last() == 0x6b,
        encode_utf8("true"@).len() == 4,
        encode_utf8("false"@).len() == 5,
{
    reveal_strlit("dir");
    reveal_strlit("file");
    reveal_strlit("link");
    reveal_strlit("true");
    reveal_strlit("false");
    lemma_no_nul("dir"@);
    lemma_no_nul("file"@);
    lemma_no_nul("link"@);
    lemma_no_nul("true"@);
    lemma_no_nul("false"@);
    vstd::utf8::is_ascii_chars_encode_utf8("dir"@);
    vstd::utf8::is_ascii_chars_encode_utf8("file"@);
    vstd::utf8::is_ascii_chars_encode_utf8("link"@);
    vstd::utf8::is_ascii_chars_encode_utf8("true"@);
    vstd::utf8::is_ascii_chars_encode_utf8("false"@);
    assert("file"@[0] as u8 == 0x66);
    assert("link"@[0] as u8 == 0x6c);
    assert("dir"@[2] as u8 == 0x72);
    assert("file"@[3] as u8 == 0x65);
    assert("link"@[3] as u8 == 0x6b);
}

spec fn sound(e: Entry) -> bool {
    &&& all_named(e.place)
    &&& e.kind matches EntryKind::Link { target } ==> !target.contains(0u8)
    &&& e.kind matches EntryKind::File { contents, .. } ==> contents.len() <= u64::MAX
}

spec fn all_sound(list: Seq<Entry>) -> bool {
    forall|i: int| 0 <= i < list.len() ==> sound(#[trigger] list[i])
}

spec fn mark(kind: EntryKind) -> Seq<u8> {
    match kind {
        EntryKind::Directory => encode_utf8("dir"@),
        EntryKind::File { .. } => encode_utf8("file"@),
        EntryKind::Link { .. } => encode_utf8("link"@),
    }
}

spec fn tail(e: Entry, source: bool) -> Seq<u8> {
    match e.kind {
        EntryKind::Directory => Seq::empty(),
        EntryKind::File { executable, contents } => (if source {
            encode_utf8(truth(executable)) + seq![0u8]
        } else {
            Seq::empty()
        }) + spec_u64_to_le_bytes(contents.len() as u64) + contents,
        EntryKind::Link { target } => target + (if source {
            seq![0u8]
        } else {
            Seq::empty()
        }),
    }
}

proof fn lemma_code(e: Entry, x: Seq<u8>, source: bool)
    ensures
        code(e, source) + x == mark(e.kind) + seq![0u8] + (encode_utf8(joined_components(e.place))
            + seq![0u8] + (tail(e, source) + x)),
{
    assert(code(e, source) + x =~= mark(e.kind) + seq![0u8] + (encode_utf8(
        joined_components(e.place),
    ) + seq![0u8] + (tail(e, source) + x)));
}

/// An entry with its mark of being executable set aside.
pub open spec fn unmarked(e: Entry) -> Entry {
    match e.kind {
        EntryKind::File { contents, .. } => Entry {
            place: e.place,
            kind: EntryKind::File { executable: false, contents },
        },
        _ => e,
    }
}

proof fn lemma_first_zero(t: Seq<u8>, k: Seq<u8>, rest: Seq<u8>, i: int)
    requires
        !t.contains(0u8),
        !k.contains(0u8),
        0 <= i < t.len() + k.len(),
    ensures
        (t + (k + seq![0u8] + rest))[i] != 0u8,
        (t + (k + seq![0u8] + rest))[(t.len() + k.len()) as int] == 0u8,
{
    if i < t.len() {
        assert(t.contains(t[i]));
    } else {
        assert(k.contains(k[i - t.len()]));
    }
}

proof fn lemma_targets(
    t1: Seq<u8>,
    l1: Seq<Entry>,
    t2: Seq<u8>,
    l2: Seq<Entry>,
)
    requires
        !t1.contains(0u8),
        !t2.contains(0u8),
        t1 + codes(l1, false) == t2 + codes(l2, false),
    ensures
        t1.len() >= t2.len(),
{
    if t1.len() < t2.len() {
        lemma_marks();
        let w = t1 + codes(l1, false);
        assert(l1.len() > 0) by {
            if l1.len() == 0 {
                assert(w =~= t1);
            }
        }
        let k1 = mark(l1[0].kind);
        let r1 = encode_utf8(joined_components(l1[0].place)) + seq![0u8] + (tail(l1[0], false)
            + codes(l1.skip(1), false));
        lemma_code(l1[0], codes(l1.skip(1), false), false);
        assert(w == t1 + (k1 + seq![0u8] + r1));
        let z = (t1.len() + k1.len()) as int;
        lemma_first_zero(t1, k1, r1, 0);
        assert(w[z] == 0u8);
        if z < t2.len() {
            assert((t2 + codes(l2, false))[z] == t2[z]);
            assert(t2.contains(t2[z]));
        }
        assert(l2.len() > 0) by {
            if l2.len() == 0 {
                assert(t2 + codes(l2, false) =~= t2);
            }
        }
        let k2 = mark(l2[0].kind);
        let r2 = encode_utf8(joined_components(l2[0].place)) + seq![0u8] + (tail(l2[0], false)
            + codes(l2.skip(1), false));
        lemma_code(l2[0], codes(l2.skip(1), false), false);
        assert(w == t2 + (k2 + seq![0u8] + r2));
        let y = (t2.len() + k2.len()) as int;
        lemma_first_zero(t2, k2, r2, 0);
        assert(w[y] == 0u8);
        if z < y {
            lemma_first_zero(t2, k2, r2, z);
        }
        if y < z {
            lemma_first_zero(t1, k1, r1, y);
        }
        assert(w[z - 1] == k1.last());
        assert(w[y - 1] == k2.last());
    }
}

proof fn lemma_first(a: Seq<Entry>, b: Seq<Entry>, source: bool)
    requires
        a.len() > 0,
        b.len() > 0,
        all_sound(a),
        all_sound(b),
        codes(a, source) == codes(b, source),
    ensures
        source ==> a[0] == b[0],
        unmarked(a[0]) == unmarked(b[0]),
        codes(a.skip(1), source) == codes(b.skip(1), source),
{
    let e = a[0];
    let f = b[0];
    let x = codes(a.skip(1), source);
    let y = codes(b.skip(1), source);
    assert(sound(e) && sound(f));
    lemma_marks();
    lemma_code(e, x, source);
    lemma_code(f, y, source);
    let p = encode_utf8(joined_components(e.place));
    let q = encode_utf8(joined_components(f.place));
    lemma_place_no_nul(e.place);
    lemma_place_no_nul(f.place);
    lemma_no_nul(joined_components(e.place));
    lemma_no_nul(joined_components(f.place));
    lemma_field(
        mark(e.kind),
        p + seq![0u8] + (tail(e, source) + x),
        mark(f.kind),
        q + seq![0u8] + (tail(f, source) + y),
    );
    lemma_field(p, tail(e, source) + x, q, tail(f, source) + y);
    lemma_one_place(e.place, f.place);
    match (e.kind, f.kind) {
        (EntryKind::Directory, EntryKind::Directory) => {
            assert(tail(e, source) + x =~= x);
            assert(tail(f, source) + y =~= y);
        },
        (
            EntryKind::File { executable: s, contents: c },
            EntryKind::File { executable: r, contents: d },
        ) => {
            let m = spec_u64_to_le_bytes(c.len() as u64);
            let n = spec_u64_to_le_bytes(d.len() as u64);
            vstd::bytes::lemma_auto_spec_u64_to_from_le_bytes();
            if source {
                let u = encode_utf8(truth(s));
                let w = encode_utf8(truth(r));
                assert(tail(e, source) + x =~= u + seq![0u8] + (m + (c + x)));
                assert(tail(f, source) + y =~= w + seq![0u8] + (n + (d + y)));
                lemma_field(u, m + (c + x), w, n + (d + y));
                assert(s == r);
            } else {
                assert(tail(e, source) + x =~= m + (c + x));
                assert(tail(f, source) + y =~= n + (d + y));
            }
            lemma_part(m, c + x, n, d + y);
            lemma_part(c, x, d, y);
        },
        (EntryKind::Link { target: c }, EntryKind::Link { target: d }) => {
            if source {
                assert(tail(e, source) + x =~= c + seq![0u8] + x);
                assert(tail(f, source) + y =~= d + seq![0u8] + y);
                lemma_field(c, x, d, y);
            } else {
                assert(tail(e, source) =~= c);
                assert(tail(f, source) =~= d);
                lemma_targets(c, a.skip(1), d, b.skip(1));
                lemma_targets(d, b.skip(1), c, a.skip(1));
                lemma_part(c, x, d, y);
            }
        },
        _ => {
            assert(false);
        },
    }
}

spec fn all_unmarked(list: Seq<Entry>) -> Seq<Entry> {
    Seq::new(list.len(), |i: int| unmarked(list[i]))
}

proof fn lemma_read_back(a: Seq<Entry>, b: Seq<Entry>, source: bool)
    requires
        all_sound(a),
        all_sound(b),
        codes(a, source) == codes(b, source),
    ensures
        source ==> a == b,
        all_unmarked(a) == all_unmarked(b),
    decreases a.len(),
{
    if a.len() == 0 {
        if b.len() > 0 {
            lemma_code(b[0], codes(b.skip(1), source), source);
            assert(codes(b, source).len() > 0);
        }
        assert(a =~= b);
    } else if b.len() == 0 {
        lemma_code(a[0], codes(a.skip(1), source), source);
        assert(codes(a, source).len() > 0);
    } else {
        lemma_first(a, b, source);
        assert(all_sound(a.skip(1)));
        assert(all_sound(b.skip(1)));
        lemma_read_back(a.skip(1), b.skip(1), source);
        assert(a.skip(1).len() == b.skip(1).len()) by {
            assert(all_unmarked(a.skip(1)).len() == all_unmarked(b.skip(1)).len());
        }
        assert forall|i: int| 0 <= i < a.len() implies unmarked(a[i]) == unmarked(b[i]) by {
            if i > 0 {
                assert(all_unmarked(a.skip(1))[i - 1] == all_unmarked(b.skip(1))[i - 1]);
            }
        }
        assert(all_unmarked(a) =~= all_unmarked(b));
        if source {
            assert forall|i: int| 0 <= i < a.len() implies a[i] == b[i] by {
                if i > 0 {
                    assert(a.skip(1)[i - 1] == b.skip(1)[i - 1]);
                }
            }
            assert(a =~= b);
        }
    }
}

proof fn lemma_sound(
    list: Seq<Tree>,
    place: Seq<Seq<char>>,
    path: Seq<char>,
    held: spec_fn(Seq<char>) -> Seq<u8>,
)
    requires
        can_stand(list, path, held),
        all_named(place),
    ensures
        all_sound(entries_below(list, place, path, held)),
    decreases list,
{
    if list.len() > 0 {
        let one = list.last();
        let here = place.push(one.name);
        let there = joined(path, one.name);
        lemma_place_text(place, one.name);
        lemma_sound(list.drop_last(), place, path, held);
        if one.facts.is_dir {
            lemma_sound(one.children, here, there, held);
        }
    }
}

proof fn lemma_tree_told(
    tree: Tree,
    root: Seq<char>,
    contents: Seq<Seq<u8>>,
    held: spec_fn(Seq<char>) -> Seq<u8>,
    source: bool,
)
    requires
        tree.facts.is_dir,
        task_plan(hashing(source), tree, root).refusal is None,
        are_read(task_plan(hashing(source), tree, root).steps, contents, held),
        can_stand(tree.children, root, held),
    ensures
        all_hashed(task_plan(hashing(source), tree, root).steps, contents) == codes(
            entries_of(tree, root, held),
            source,
        ),
        all_sound(entries_of(tree, root, held)),
{
    let task = hashing(source);
    let top: Seq<Seq<char>> = Seq::empty();
    let relative: Seq<char> = Seq::empty();
    assert(joined_components(top) =~= relative);
    let entered = step_at(tree, root, relative, true, false);
    let left = step_at(tree, root, relative, true, true);
    let within = walk_entries(tree.children, root, relative);
    let visits = walk(tree, root, relative, true);
    assert(visits =~= (seq![entered] + within) + seq![left]);
    lemma_planned_more(task, seq![entered] + within, seq![left]);
    lemma_planned_more(task, seq![entered], within);
    lemma_planned_one(task, entered);
    lemma_planned_one(task, left);
    let steps = planned(task, visits).steps;
    assert(steps =~= planned(task, within).steps);
    lemma_told(tree.children, top, root, held, source);
    lemma_fed(steps, contents, held, steps.len() as int);
    assert(steps.take(steps.len() as int) =~= steps);
    lemma_sound(tree.children, top, root, held);
}

/// The bytes that the hashing of a frozen source feeds to its digest determine the source: two
/// of them that are fed the same bytes have the same entries, each at the same place under the
/// same name, of the same kind, with the same mark of being executable, the same content or the
/// same target. A file that is renamed, moved, changed or made executable changes the bytes.
pub proof fn a_source_is_told_by_what_is_hashed(
    one: Tree,
    one_root: Seq<char>,
    one_contents: Seq<Seq<u8>>,
    one_held: spec_fn(Seq<char>) -> Seq<u8>,
    two: Tree,
    two_root: Seq<char>,
    two_contents: Seq<Seq<u8>>,
    two_held: spec_fn(Seq<char>) -> Seq<u8>,
)
    requires
        one.facts.is_dir,
        two.facts.is_dir,
        can_stand(one.children, one_root, one_held),
        can_stand(two.children, two_root, two_held),
        task_plan(Task::HashSource, one, one_root).refusal is None,
        task_plan(Task::HashSource, two, two_root).refusal is None,
        are_read(task_plan(Task::HashSource, one, one_root).steps, one_contents, one_held),
        are_read(task_plan(Task::HashSource, two, two_root).steps, two_contents, two_held),
        all_hashed(task_plan(Task::HashSource, one, one_root).steps, one_contents) == all_hashed(
            task_plan(Task::HashSource, two, two_root).steps,
            two_contents,
        ),
    ensures
        entries_of(one, one_root, one_held) == entries_of(two, two_root, two_held),
{
    lemma_tree_told(one, one_root, one_contents, one_held, true);
    lemma_tree_told(two, two_root, two_contents, two_held, true);
    lemma_read_back(
        entries_of(one, one_root, one_held),
        entries_of(two, two_root, two_held),
        true,
    );
}

/// The bytes that the hashing of an artifact feeds to its digest determine the artifact: two of
/// them that are fed the same bytes have as many entries, and these are the same one by one but
/// for whether a file can be executed, which is told elsewhere.
pub proof fn an_artifact_is_told_by_what_is_hashed(
    one: Tree,
    one_root: Seq<char>,
    one_contents: Seq<Seq<u8>>,
    one_held: spec_fn(Seq<char>) -> Seq<u8>,
    two: Tree,
    two_root: Seq<char>,
    two_contents: Seq<Seq<u8>>,
    two_held: spec_fn(Seq<char>) -> Seq<u8>,
)
    requires
        one.facts.is_dir,
        two.facts.is_dir,
        can_stand(one.children, one_root, one_held),
        can_stand(two.children, two_root, two_held),
        task_plan(Task::HashArtifact, one, one_root).refusal is None,
        task_plan(Task::HashArtifact, two, two_root).refusal is None,
        are_read(task_plan(Task::HashArtifact, one, one_root).steps, one_contents, one_held),
        are_read(task_plan(Task::HashArtifact, two, two_root).steps, two_contents, two_held),
        all_hashed(task_plan(Task::HashArtifact, one, one_root).steps, one_contents) == all_hashed(
            task_plan(Task::HashArtifact, two, two_root).steps,
            two_contents,
        ),
    ensures
        entries_of(one, one_root, one_held).len() == entries_of(two, two_root, two_held).len(),
        forall|i: int|
            0 <= i < entries_of(one, one_root, one_held).len() ==> unmarked(
                #[trigger] entries_of(one, one_root, one_held)[i],
            ) == unmarked(entries_of(two, two_root, two_held)[i]),
{
    let a = entries_of(one, one_root, one_held);
    let b = entries_of(two, two_root, two_held);
    lemma_tree_told(one, one_root, one_contents, one_held, false);
    lemma_tree_told(two, two_root, two_contents, two_held, false);
    lemma_read_back(a, b, false);
    assert(all_unmarked(a).len() == all_unmarked(b).len());
    assert forall|i: int| 0 <= i < a.len() implies unmarked(#[trigger] a[i]) == unmarked(b[i]) by {
        assert(all_unmarked(a)[i] == all_unmarked(b)[i]);
    }
}

} // verus!
