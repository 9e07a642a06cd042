//! Paths: slash-separated texts, taken apart as a Unix host takes them apart.
//! Two paths are the same when they have the same root and the same components.
use vstd::prelude::*;

use crate::scan::{
    lemma_split_join,
    lemma_split_nonempty,
    lemma_split_pieces,
    lemma_split_single,
    split,
    split_text,
};
use crate::text::{cat2, cat3, chars_of, same_text, text_of, texts};

verus! {

/// Whether a path names a place from the root.
pub open spec fn absolute(p: Seq<char>) -> bool {
    p.len() > 0 && p[0] == '/'
}

/// The components among the first pieces of a path: repeated separators and
/// current-directory marks fall away, save a mark that starts a relative path.
pub open spec fn named_pieces(pieces: Seq<Seq<char>>) -> Seq<Seq<char>>
    decreases pieces.len(),
{
    if pieces.len() == 0 {
        Seq::empty()
    } else {
        let earlier = named_pieces(pieces.drop_last());
        let piece = pieces.last();
        if piece.len() == 0 || (piece == seq!['.'] && pieces.len() > 1) {
            earlier
        } else {
            earlier.push(piece)
        }
    }
}

/// The components of a path, in order.
pub open spec fn components(p: Seq<char>) -> Seq<Seq<char>> {
    named_pieces(split(p, '/'))
}

/// Whether two texts name the same path.
pub open spec fn same_path(a: Seq<char>, b: Seq<char>) -> bool {
    absolute(a) == absolute(b) && components(a) == components(b)
}

/// Whether a path lies at or below another.
pub open spec fn below(p: Seq<char>, root: Seq<char>) -> bool {
    &&& absolute(p) == absolute(root)
    &&& components(root).len() <= components(p).len()
    &&& components(p).take(components(root).len() as int) == components(root)
}

/// A path continued by another: an absolute continuation stands for itself.
pub open spec fn joined(p: Seq<char>, more: Seq<char>) -> Seq<char> {
    if absolute(more) || p.len() == 0 {
        more
    } else if p.last() == '/' {
        p + more
    } else {
        p + seq!['/'] + more
    }
}

/// The bytes of a path as a text, each byte one character of it: separators and names are told
/// byte by byte, whether or not the bytes are text.
pub open spec fn byte_path(bytes: Seq<u8>) -> Seq<char> {
    Seq::new(bytes.len(), |i: int| bytes[i] as char)
}

/// The text of components joined by separators.
pub open spec fn joined_components(parts: Seq<Seq<char>>) -> Seq<char>
    decreases parts.len(),
{
    if parts.len() == 0 {
        Seq::empty()
    } else if parts.len() == 1 {
        parts[0]
    } else {
        joined_components(parts.drop_last()) + seq!['/'] + parts.last()
    }
}

/// The plainest text of a path with a root and components.
pub open spec fn path_text(rooted: bool, parts: Seq<Seq<char>>) -> Seq<char> {
    if rooted {
        seq!['/'] + joined_components(parts)
    } else {
        joined_components(parts)
    }
}

/// The path that holds another, none for a root and for an empty path.
pub open spec fn parent(p: Seq<char>) -> Option<Seq<char>> {
    let parts = components(p);
    if parts.len() == 0 {
        None
    } else {
        Some(path_text(absolute(p), parts.drop_last()))
    }
}

/// The last component of a path, none where it is no name.
pub open spec fn file_name(p: Seq<char>) -> Option<Seq<char>> {
    let parts = components(p);
    if parts.len() == 0 || parts.last() == seq!['.', '.'] || parts.last() == seq!['.'] {
        None
    } else {
        Some(parts.last())
    }
}

/// The bytes of a path as a text, each byte one character of it.
pub fn path_of_bytes(bytes: &[u8]) -> (path: String)
    ensures
        path@ == byte_path(bytes@),
{
    let mut chars: Vec<char> = Vec::new();
    let mut i: usize = 0;
    while i < bytes.len()
        invariant
            i <= bytes@.len(),
            chars@ == byte_path(bytes@.take(i as int)),
        decreases bytes@.len() - i,
    {
        let c: char = bytes[i] as char;
        chars.push(c);
        i += 1;
        assert(chars@ =~= byte_path(bytes@.take(i as int)));
    }
    assert(bytes@.take(i as int) =~= bytes@);
    text_of(chars.as_slice())
}

/// Whether a path names a place from the root.
pub fn is_absolute(p: &str) -> (is: bool)
    ensures
        is == absolute(p@),
{
    let chars = chars_of(p);
    chars.len() > 0 && chars[0] == '/'
}

/// The components of a path, in order.
pub fn components_of(p: &str) -> (parts: Vec<String>)
    ensures
        texts(parts@) == components(p@),
{
    let pieces = split_text(p, '/');
    let ghost all = split(p@, '/');
    let mut parts: Vec<String> = Vec::new();
    let mut i: usize = 0;
    assert(texts(parts@) =~= named_pieces(all.take(0)));
    proof {
        reveal_strlit(".");
        assert("."@ =~= seq!['.']);
    }
    while i < pieces.len()
        invariant
            i <= pieces@.len(),
            texts(pieces@) == all,
            "."@ == seq!['.'],
            texts(parts@) == named_pieces(all.take(i as int)),
        decreases pieces@.len() - i,
    {
        assert(all.take(i + 1).drop_last() =~= all.take(i as int));
        assert(all.take(i + 1).last() == pieces@[i as int]@);
        let skipped = pieces[i].as_str().is_empty()
            || (same_text(pieces[i].as_str(), ".") && i > 0);
        if !skipped {
            crate::text::push_text(&mut parts, pieces[i].clone());
        }
        i += 1;
    }
    assert(all.take(i as int) =~= all);
    parts
}

/// Whether two texts name the same path.
pub fn is_same_path(a: &str, b: &str) -> (same: bool)
    ensures
        same == same_path(a@, b@),
{
    if is_absolute(a) != is_absolute(b) {
        return false;
    }
    let x = components_of(a);
    let y = components_of(b);
    crate::text::same_texts(x.as_slice(), y.as_slice())
}

/// Whether a path lies at or below another.
pub fn is_below(p: &str, root: &str) -> (is: bool)
    ensures
        is == below(p@, root@),
{
    if is_absolute(p) != is_absolute(root) {
        return false;
    }
    let x = components_of(p);
    let y = components_of(root);
    let ghost xs = components(p@);
    let ghost ys = components(root@);
    assert(xs.len() == x@.len() && ys.len() == y@.len()) by {
        assert(texts(x@).len() == x@.len());
        assert(texts(y@).len() == y@.len());
    }
    if x.len() < y.len() {
        return false;
    }
    let mut i: usize = 0;
    while i < y.len()
        invariant
            i <= y@.len() <= x@.len(),
            texts(x@) == xs,
            texts(y@) == ys,
            xs == components(p@),
            ys == components(root@),
            forall|j: int| 0 <= j < i ==> xs[j] == ys[j],
        decreases y@.len() - i,
    {
        if !same_text(x[i].as_str(), y[i].as_str()) {
            assert(xs.take(ys.len() as int)[i as int] == texts(x@)[i as int]);
            assert(ys[i as int] == texts(y@)[i as int]);
            return false;
        }
        assert(xs[i as int] == texts(x@)[i as int]);
        assert(ys[i as int] == texts(y@)[i as int]);
        i += 1;
    }
    assert(xs.take(ys.len() as int) =~= ys);
    true
}

/// A path continued by another.
pub fn join(p: &str, more: &str) -> (whole: String)
    ensures
        whole@ == joined(p@, more@),
{
    let chars = chars_of(p);
    let n: usize = chars.len();
    if is_absolute(more) || n == 0 {
        return more.to_owned();
    }
    proof {
        reveal_strlit("/");
        assert("/"@ =~= seq!['/']);
    }
    if chars[n - 1] == '/' {
        cat2(p, more)
    } else {
        cat3(p, "/", more)
    }
}

/// The text of components joined by separators.
pub fn join_components(parts: &[String], count: usize) -> (s: String)
    requires
        count <= parts@.len(),
    ensures
        s@ == joined_components(texts(parts@).take(count as int)),
{
    let mut s = String::new();
    let ghost all = texts(parts@);
    proof {
        reveal_strlit("/");
        assert("/"@ =~= seq!['/']);
        assert(all.take(0) =~= Seq::<Seq<char>>::empty());
    }
    let mut i: usize = 0;
    while i < count
        invariant
            i <= count <= parts@.len(),
            all == texts(parts@),
            "/"@ == seq!['/'],
            s@ == joined_components(all.take(i as int)),
        decreases count - i,
    {
        assert(all.take(i + 1).drop_last() =~= all.take(i as int));
        assert(all.take(i + 1).last() == parts@[i as int]@);
        if i > 0 {
            s.append("/");
        }
        s.append(parts[i].as_str());
        i += 1;
        assert(i == 1 ==> s@ =~= parts@[0]@);
    }
    s
}

/// The path that holds another.
pub fn parent_of(p: &str) -> (found: Option<String>)
    ensures
        crate::text::text_option(found) == parent(p@),
{
    let parts = components_of(p);
    assert(texts(parts@).len() == parts@.len());
    if parts.len() == 0 {
        return None;
    }
    let rest = join_components(parts.as_slice(), parts.len() - 1);
    assert(texts(parts@).take(parts@.len() - 1) =~= texts(parts@).drop_last());
    if is_absolute(p) {
        proof {
            reveal_strlit("/");
            assert("/"@ =~= seq!['/']);
        }
        Some(cat2("/", rest.as_str()))
    } else {
        Some(rest)
    }
}

/// The last component of a path.
pub fn file_name_of(p: &str) -> (found: Option<String>)
    ensures
        crate::text::text_option(found) == file_name(p@),
{
    let parts = components_of(p);
    assert(texts(parts@).len() == parts@.len());
    if parts.len() == 0 {
        return None;
    }
    let last = parts[parts.len() - 1].clone();
    assert(last@ == components(p@).last());
    proof {
        reveal_strlit(".");
        reveal_strlit("..");
        assert("."@ =~= seq!['.']);
        assert(".."@ =~= seq!['.', '.']);
    }
    if same_text(last.as_str(), ".") || same_text(last.as_str(), "..") {
        None
    } else {
        Some(last)
    }
}

proof fn lemma_named_pieces_append(a: Seq<Seq<char>>, b: Seq<Seq<char>>)
    requires
        a.len() > 0,
    ensures
        named_pieces(a + b) == named_pieces(a) + named_pieces(seq![Seq::<char>::empty()] + b),
    decreases b.len(),
{
    let marked = seq![Seq::<char>::empty()] + b;
    if b.len() == 0 {
        assert(a + b =~= a);
        assert(marked.drop_last() =~= Seq::<Seq<char>>::empty());
        reveal_with_fuel(named_pieces, 2);
        assert(named_pieces(marked) =~= Seq::<Seq<char>>::empty());
        assert(named_pieces(a) + named_pieces(marked) =~= named_pieces(a));
    } else {
        lemma_named_pieces_append(a, b.drop_last());
        assert((a + b).drop_last() =~= a + b.drop_last());
        assert(marked.drop_last() =~= seq![Seq::<char>::empty()] + b.drop_last());
        assert((a + b).last() == b.last());
        assert(marked.last() == b.last());
        assert(named_pieces(a + b) =~= named_pieces(a) + named_pieces(marked));
    }
}

proof fn lemma_components_after_slash(p: Seq<char>, more: Seq<char>)
    ensures
        components(p.push('/') + more) == components(p) + named_pieces(
            seq![Seq::<char>::empty()] + split(more, '/'),
        ),
{
    lemma_split_join(p, '/', more);
    lemma_split_nonempty(p, '/');
    lemma_named_pieces_append(split(p, '/'), split(more, '/'));
}

/// Joining a name adds exactly that one component.
pub proof fn lemma_join_name(p: Seq<char>, part: Seq<char>)
    requires
        part.len() > 0,
        !part.contains('/'),
        part != seq!['.'],
    ensures
        p.len() > 0 ==> components(joined(p, part)) == components(p).push(part),
        p.len() > 0 ==> absolute(joined(p, part)) == absolute(p),
{
    if p.len() > 0 {
        assert(part.contains(part[0]));
        lemma_split_single(part, '/');
        let marked = seq![Seq::<char>::empty()] + split(part, '/');
        assert(marked =~= seq![Seq::<char>::empty(), part]);
        assert(marked.drop_last() =~= seq![Seq::<char>::empty()]);
        assert(marked.drop_last().drop_last() =~= Seq::<Seq<char>>::empty());
        reveal_with_fuel(named_pieces, 3);
        assert(named_pieces(marked.drop_last()) =~= Seq::<Seq<char>>::empty());
        assert(named_pieces(marked) =~= seq![part]);
        if p.last() == '/' {
            let q = p.drop_last();
            assert(q.push('/') =~= p);
            lemma_components_after_slash(q, part);
            lemma_components_after_slash(q, Seq::empty());
            assert(p + Seq::<char>::empty() =~= p);
            assert(split(Seq::<char>::empty(), '/') =~= seq![Seq::<char>::empty()]);
            let blank = seq![Seq::<char>::empty()] + split(Seq::<char>::empty(), '/');
            assert(blank.drop_last() =~= seq![Seq::<char>::empty()]);
            assert(blank.drop_last().drop_last() =~= Seq::<Seq<char>>::empty());
            assert(named_pieces(blank) =~= Seq::<Seq<char>>::empty());
            assert(components(p) =~= components(q));
            assert(components(joined(p, part)) =~= components(p).push(part));
        } else {
            assert(p.push('/') + part =~= p + seq!['/'] + part);
            lemma_components_after_slash(p, part);
            assert(components(joined(p, part)) =~= components(p).push(part));
        }
    }
}

/// No component of a path holds a separator or is empty.
pub proof fn lemma_component_shape(p: Seq<char>, i: int)
    requires
        0 <= i < components(p).len(),
    ensures
        components(p)[i].len() > 0,
        !components(p)[i].contains('/'),
{
    assert forall|k: int| 0 <= k < split(p, '/').len() implies !(#[trigger] split(
        p,
        '/',
    )[k]).contains('/') by {
        lemma_split_pieces(p, '/', k);
    }
    lemma_named_shape(split(p, '/'), i);
}

proof fn lemma_named_shape(pieces: Seq<Seq<char>>, i: int)
    requires
        0 <= i < named_pieces(pieces).len(),
        forall|k: int| 0 <= k < pieces.len() ==> !(#[trigger] pieces[k]).contains('/'),
    ensures
        named_pieces(pieces)[i].len() > 0,
        !named_pieces(pieces)[i].contains('/'),
        i > 0 ==> named_pieces(pieces)[i] != seq!['.'],
    decreases pieces.len(),
{
    if pieces.len() > 0 {
        let earlier = named_pieces(pieces.drop_last());
        assert forall|k: int| 0 <= k < pieces.drop_last().len() implies !(
        #[trigger] pieces.drop_last()[k]).contains('/') by {
            assert(pieces[k] == pieces.drop_last()[k]);
        }
        if i < earlier.len() {
            lemma_named_shape(pieces.drop_last(), i);
            assert(named_pieces(pieces)[i] == earlier[i]);
        } else {
            assert(pieces[pieces.len() - 1] == pieces.last());
            if pieces.len() == 1 {
                assert(earlier =~= Seq::<Seq<char>>::empty());
            }
        }
    }
}

proof fn lemma_named_first(pieces: Seq<Seq<char>>)
    requires
        pieces.len() > 0,
        pieces[0].len() == 0,
        named_pieces(pieces).len() > 0,
    ensures
        named_pieces(pieces)[0] != seq!['.'],
    decreases pieces.len(),
{
    let earlier = named_pieces(pieces.drop_last());
    if pieces.len() > 1 && earlier.len() > 0 {
        assert(pieces.drop_last()[0] == pieces[0]);
        lemma_named_first(pieces.drop_last());
        assert(named_pieces(pieces)[0] == earlier[0]);
    } else if pieces.len() == 1 {
        assert(pieces.drop_last() =~= Seq::<Seq<char>>::empty());
        assert(pieces.last() == pieces[0]);
    }
}

/// The first components of a path, written as a path, are those components.
pub proof fn lemma_path_text(p: Seq<char>, n: int)
    requires
        0 <= n <= components(p).len(),
    ensures
        components(path_text(absolute(p), components(p).take(n))) == components(p).take(n),
        absolute(path_text(absolute(p), components(p).take(n))) == absolute(p),
    decreases n,
{
    let parts = components(p).take(n);
    let text = path_text(absolute(p), parts);
    if n == 0 {
        assert(parts =~= Seq::<Seq<char>>::empty());
        if absolute(p) {
            assert(text =~= seq!['/']);
            assert(Seq::<char>::empty().push('/') + Seq::<char>::empty() =~= text);
            lemma_split_join(Seq::<char>::empty(), '/', Seq::<char>::empty());
            lemma_split_single(Seq::<char>::empty(), '/');
            assert(split(text, '/') =~= seq![Seq::<char>::empty(), Seq::<char>::empty()]);
            reveal_with_fuel(named_pieces, 3);
            assert(split(text, '/').drop_last() =~= seq![Seq::<char>::empty()]);
            assert(split(text, '/').drop_last().drop_last() =~= Seq::<Seq<char>>::empty());
        } else {
            assert(text =~= Seq::<char>::empty());
            lemma_split_single(text, '/');
            reveal_with_fuel(named_pieces, 2);
            assert(split(text, '/').drop_last() =~= Seq::<Seq<char>>::empty());
        }
        assert(components(text) =~= parts);
    } else {
        let part = components(p)[n - 1];
        let shorter = components(p).take(n - 1);
        assert(parts.drop_last() =~= shorter);
        assert(parts.last() == part);
        lemma_component_shape(p, n - 1);
        assert(part.contains(part[0]));
        lemma_path_text(p, n - 1);
        lemma_component_dot(p, n - 1);
        let above = path_text(absolute(p), shorter);
        if n == 1 {
            assert(shorter =~= Seq::<Seq<char>>::empty());
            if absolute(p) {
                assert(above =~= seq!['/']);
                lemma_join_name(above, part);
                assert(text =~= joined(above, part));
            } else {
                assert(text =~= part);
                lemma_split_single(part, '/');
                reveal_with_fuel(named_pieces, 2);
                assert(split(part, '/').drop_last() =~= Seq::<Seq<char>>::empty());
                assert(components(part) =~= seq![part]);
            }
        } else {
            lemma_component_shape(p, n - 2);
            assert(shorter.last() == components(p)[n - 2]);
            lemma_joined_end(shorter);
            lemma_join_name(above, part);
            assert(above.last() != '/') by {
                assert(shorter.last() == components(p)[n - 2]);
                assert(above.last() == shorter.last().last());
                assert(shorter.last().contains(shorter.last().last()));
            }
            assert(text =~= joined(above, part));
        }
        assert(components(text) =~= parts);
    }
}

/// No component of a path is a dot, but for the first of one that starts with it.
pub proof fn lemma_component_dot(p: Seq<char>, i: int)
    requires
        0 <= i < components(p).len(),
    ensures
        i > 0 || absolute(p) ==> components(p)[i] != seq!['.'],
{
    assert forall|k: int| 0 <= k < split(p, '/').len() implies !(#[trigger] split(
        p,
        '/',
    )[k]).contains('/') by {
        lemma_split_pieces(p, '/', k);
    }
    lemma_named_shape(split(p, '/'), i);
    if i == 0 && absolute(p) {
        let rest = p.skip(1);
        assert(Seq::<char>::empty().push('/') + rest =~= p);
        lemma_split_join(Seq::<char>::empty(), '/', rest);
        lemma_split_single(Seq::<char>::empty(), '/');
        assert(split(p, '/')[0] =~= Seq::<char>::empty());
        lemma_named_first(split(p, '/'));
    }
}

proof fn lemma_joined_end(parts: Seq<Seq<char>>)
    requires
        parts.len() > 0,
        parts.last().len() > 0,
    ensures
        joined_components(parts).len() > 0,
        joined_components(parts).last() == parts.last().last(),
{
}

proof fn lemma_joined_start(parts: Seq<Seq<char>>)
    requires
        parts.len() > 0,
        parts[0].len() > 0,
    ensures
        joined_components(parts).len() > 0,
        joined_components(parts)[0] == parts[0][0],
    decreases parts.len(),
{
    if parts.len() > 1 {
        assert(parts.drop_last()[0] == parts[0]);
        lemma_joined_start(parts.drop_last());
    }
}

/// Joining several names adds exactly those components.
pub proof fn lemma_join_components(p: Seq<char>, parts: Seq<Seq<char>>)
    requires
        p.len() > 0,
        forall|i: int|
            0 <= i < parts.len() ==> (#[trigger] parts[i]).len() > 0 && !parts[i].contains('/')
                && parts[i] != seq!['.'],
    ensures
        components(joined(p, joined_components(parts))) == components(p) + parts,
        absolute(joined(p, joined_components(parts))) == absolute(p),
    decreases parts.len(),
{
    let rest = joined_components(parts);
    let whole = joined(p, rest);
    if parts.len() == 0 {
        assert(rest =~= Seq::<char>::empty());
        if p.last() == '/' {
            assert(whole =~= p);
        } else {
            assert(whole =~= p.push('/') + Seq::<char>::empty());
            lemma_components_after_slash(p, Seq::empty());
            lemma_split_single(Seq::<char>::empty(), '/');
            let blank = seq![Seq::<char>::empty()] + split(Seq::<char>::empty(), '/');
            assert(blank =~= seq![Seq::<char>::empty(), Seq::<char>::empty()]);
            assert(blank.drop_last() =~= seq![Seq::<char>::empty()]);
            assert(blank.drop_last().drop_last() =~= Seq::<Seq<char>>::empty());
            reveal_with_fuel(named_pieces, 3);
            assert(named_pieces(blank) =~= Seq::<Seq<char>>::empty());
        }
        assert(components(whole) =~= components(p) + parts);
    } else {
        let fewer = parts.drop_last();
        let last = parts.last();
        assert(last == parts[parts.len() - 1]);
        assert(last.contains(last[0]));
        assert(parts[0].contains(parts[0][0]));
        lemma_joined_start(parts);
        assert forall|i: int| 0 <= i < fewer.len() implies (#[trigger] fewer[i]).len() > 0
            && !fewer[i].contains('/') && fewer[i] != seq!['.'] by {
            assert(fewer[i] == parts[i]);
        }
        if fewer.len() == 0 {
            assert(rest =~= last);
            lemma_join_name(p, last);
            assert(components(p) + parts =~= components(p).push(last));
        } else {
            let before = joined(p, joined_components(fewer));
            lemma_join_components(p, fewer);
            lemma_joined_start(fewer);
            assert(fewer[0] == parts[0]);
            assert(fewer.last() == parts[parts.len() - 2]);
            lemma_joined_end(fewer);
            assert(before.last() == fewer.last().last());
            assert(fewer.last().contains(fewer.last().last()));
            lemma_join_name(before, last);
            assert(whole =~= joined(before, last));
            assert(components(p) + parts =~= (components(p) + fewer).push(last));
        }
    }
}

proof fn lemma_single_piece(piece: Seq<char>)
    ensures
        named_pieces(seq![piece]) == (if piece.len() == 0 {
            Seq::<Seq<char>>::empty()
        } else {
            seq![piece]
        }),
{
    reveal_with_fuel(named_pieces, 2);
    assert(seq![piece].drop_last() =~= Seq::<Seq<char>>::empty());
    assert(named_pieces(Seq::<Seq<char>>::empty()) =~= Seq::<Seq<char>>::empty());
    assert(named_pieces(seq![piece]) =~= (if piece.len() == 0 {
        Seq::<Seq<char>>::empty()
    } else {
        seq![piece]
    }));
}

/// Names that are written as a relative path are its components.
pub proof fn lemma_plain_components(parts: Seq<Seq<char>>)
    requires
        forall|i: int|
            0 <= i < parts.len() ==> (#[trigger] parts[i]).len() > 0 && !parts[i].contains('/')
                && parts[i] != seq!['.'],
    ensures
        components(joined_components(parts)) == parts,
        !absolute(joined_components(parts)),
    decreases parts.len(),
{
    let text = joined_components(parts);
    if parts.len() == 0 {
        assert(text =~= Seq::<char>::empty());
        lemma_split_single(text, '/');
        lemma_single_piece(text);
        assert(components(text) =~= parts);
    } else {
        let fewer = parts.drop_last();
        let last = parts.last();
        assert(last == parts[parts.len() - 1]);
        assert(last.contains(last[0]));
        assert(parts[0].contains(parts[0][0]));
        lemma_joined_start(parts);
        if fewer.len() == 0 {
            assert(text =~= last);
            lemma_split_single(last, '/');
            lemma_single_piece(last);
            assert(components(text) =~= parts);
        } else {
            assert forall|i: int| 0 <= i < fewer.len() implies (#[trigger] fewer[i]).len() > 0
                && !fewer[i].contains('/') && fewer[i] != seq!['.'] by {
                assert(fewer[i] == parts[i]);
            }
            lemma_plain_components(fewer);
            assert(fewer.last() == parts[parts.len() - 2]);
            lemma_joined_end(fewer);
            let before = joined_components(fewer);
            assert(fewer.last().contains(fewer.last().last()));
            lemma_join_name(before, last);
            assert(text =~= joined(before, last));
            assert(components(text) =~= parts);
        }
    }
}

} // verus!
