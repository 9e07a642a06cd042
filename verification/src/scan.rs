//! Scanning: splitting, trimming, prefixes, numbers and the order of texts.
use vstd::prelude::*;

use crate::text::{chars_of, part_of, same_text, texts};

verus! {

/// The pieces of a sequence between the places where a separator stands.
pub open spec fn split<T>(s: Seq<T>, separator: T) -> Seq<Seq<T>>
    decreases s.len(),
{
    if s.len() == 0 {
        seq![Seq::<T>::empty()]
    } else {
        let before = split(s.drop_last(), separator);
        if s.last() == separator {
            before.push(Seq::<T>::empty())
        } else {
            before.drop_last().push(before.last().push(s.last()))
        }
    }
}

pub proof fn lemma_split_nonempty<T>(s: Seq<T>, separator: T)
    ensures
        split(s, separator).len() > 0,
    decreases s.len(),
{
    if s.len() > 0 {
        lemma_split_nonempty(s.drop_last(), separator);
    }
}

/// No piece of a split holds the separator.
pub proof fn lemma_split_pieces<T>(s: Seq<T>, separator: T, i: int)
    requires
        0 <= i < split(s, separator).len(),
    ensures
        !split(s, separator)[i].contains(separator),
    decreases s.len(),
{
    if s.len() > 0 {
        let before = split(s.drop_last(), separator);
        lemma_split_nonempty(s.drop_last(), separator);
        if s.last() == separator {
            if i < before.len() {
                lemma_split_pieces(s.drop_last(), separator, i);
            }
        } else {
            lemma_split_pieces(s.drop_last(), separator, i);
            if i == before.len() - 1 {
                let piece = before.last().push(s.last());
                assert(split(s, separator)[i] == piece);
                assert forall|k: int| 0 <= k < piece.len() implies piece[k] != separator by {
                    if k < before.last().len() {
                        assert(before.last()[k] == piece[k]);
                        assert(before.last().contains(before.last()[k]));
                    }
                }
            } else {
                assert(split(s, separator)[i] == before[i]);
            }
        }
    }
}

/// A sequence without the separator is its own single piece.
pub proof fn lemma_split_single<T>(s: Seq<T>, separator: T)
    requires
        !s.contains(separator),
    ensures
        split(s, separator) == seq![s],
    decreases s.len(),
{
    if s.len() > 0 {
        assert(s.contains(s.last()));
        assert forall|k: int| 0 <= k < s.drop_last().len() implies s.drop_last()[k]
            != separator by {
            assert(s.contains(s[k]));
        }
        lemma_split_single(s.drop_last(), separator);
        assert(s.drop_last().push(s.last()) =~= s);
        assert(split(s, separator) =~= seq![s]);
    } else {
        assert(s =~= Seq::<T>::empty());
        assert(split(s, separator) =~= seq![s]);
    }
}

/// What a separator joins is split into the pieces of both sides.
pub proof fn lemma_split_join<T>(a: Seq<T>, separator: T, b: Seq<T>)
    ensures
        split(a.push(separator) + b, separator) == split(a, separator) + split(b, separator),
    decreases b.len(),
{
    let whole = a.push(separator) + b;
    if b.len() == 0 {
        assert(whole =~= a.push(separator));
        assert(whole.drop_last() =~= a);
        assert(split(b, separator) =~= seq![Seq::<T>::empty()]);
        assert(split(whole, separator) =~= split(a, separator) + split(b, separator));
    } else {
        lemma_split_join(a, separator, b.drop_last());
        assert(whole.drop_last() =~= a.push(separator) + b.drop_last());
        assert(whole.last() == b.last());
        lemma_split_nonempty(b.drop_last(), separator);
        let left = split(a, separator);
        let right = split(b.drop_last(), separator);
        assert((left + right).last() == right.last());
        assert((left + right).drop_last() =~= left + right.drop_last());
        assert(split(whole, separator) =~= left + split(b, separator));
    }
}

/// The pieces of a text between the places where a separator stands.
pub fn split_text(s: &str, separator: char) -> (pieces: Vec<String>)
    ensures
        texts(pieces@) == split(s@, separator),
{
    let chars = chars_of(s);
    let mut pieces: Vec<String> = Vec::new();
    let mut current = String::new();
    let mut i: usize = 0;
    assert(split(s@.take(0), separator) =~= seq![Seq::<char>::empty()]);
    assert(texts(pieces@).push(current@) =~= split(s@.take(0), separator));
    while i < chars.len()
        invariant
            i <= chars@.len(),
            chars@ == s@,
            texts(pieces@).push(current@) == split(s@.take(i as int), separator),
        decreases chars@.len() - i,
    {
        let c = chars[i];
        assert(s@.take(i + 1).drop_last() =~= s@.take(i as int));
        assert(s@.take(i + 1).last() == c);
        let ghost before = texts(pieces@).push(current@);
        assert(before.drop_last() =~= texts(pieces@));
        assert(before.last() == current@);
        if c == separator {
            let ghost grown = pieces@.push(current);
            assert(texts(grown) =~= texts(pieces@).push(current@));
            pieces.push(current);
            current = String::new();
        } else {
            current.push(c);
        }
        i += 1;
        assert(texts(pieces@).push(current@) =~= split(s@.take(i as int), separator));
    }
    assert(s@.take(i as int) =~= s@);
    assert(texts(pieces@.push(current)) =~= texts(pieces@).push(current@));
    pieces.push(current);
    pieces
}

/// The pieces of a byte string between the places where a separator stands.
pub fn split_bytes(s: &[u8], separator: u8) -> (pieces: Vec<Vec<u8>>)
    ensures
        crate::text::byte_strings(pieces@) == split(s@, separator),
{
    let mut pieces: Vec<Vec<u8>> = Vec::new();
    let mut current: Vec<u8> = Vec::new();
    let mut i: usize = 0;
    assert(split(s@.take(0), separator) =~= seq![Seq::<u8>::empty()]);
    assert(crate::text::byte_strings(pieces@).push(current@) =~= split(s@.take(0), separator));
    while i < s.len()
        invariant
            i <= s@.len(),
            crate::text::byte_strings(pieces@).push(current@) == split(
                s@.take(i as int),
                separator,
            ),
        decreases s@.len() - i,
    {
        let c: u8 = s[i];
        assert(s@.take(i + 1).drop_last() =~= s@.take(i as int));
        assert(s@.take(i + 1).last() == c);
        let ghost before = crate::text::byte_strings(pieces@).push(current@);
        assert(before.drop_last() =~= crate::text::byte_strings(pieces@));
        assert(before.last() == current@);
        if c == separator {
            let ghost grown = pieces@.push(current);
            assert(crate::text::byte_strings(grown) =~= crate::text::byte_strings(pieces@).push(
                current@,
            ));
            pieces.push(current);
            current = Vec::new();
        } else {
            current.push(c);
        }
        i += 1;
        assert(crate::text::byte_strings(pieces@).push(current@) =~= split(
            s@.take(i as int),
            separator,
        ));
    }
    assert(s@.take(i as int) =~= s@);
    assert(crate::text::byte_strings(pieces@.push(current)) =~= crate::text::byte_strings(
        pieces@,
    ).push(current@));
    pieces.push(current);
    pieces
}

/// Whether an element stands at an index and nowhere before it.
pub open spec fn stands_first<T>(s: Seq<T>, c: T, i: int) -> bool {
    &&& 0 <= i < s.len()
    &&& s[i] == c
    &&& forall|j: int| 0 <= j < i ==> s[j] != c
}

/// Whether an element stands at an index and nowhere after it.
pub open spec fn stands_last<T>(s: Seq<T>, c: T, i: int) -> bool {
    &&& 0 <= i < s.len()
    &&& s[i] == c
    &&& forall|j: int| i < j < s.len() ==> s[j] != c
}

/// What stands before and after the first place of a separator.
pub open spec fn cut_first<T>(s: Seq<T>, c: T) -> Option<(Seq<T>, Seq<T>)> {
    if s.contains(c) {
        let i = choose|i: int| stands_first(s, c, i);
        Some((s.take(i), s.skip(i + 1)))
    } else {
        None
    }
}

/// What stands before and after the last place of a separator.
pub open spec fn cut_last<T>(s: Seq<T>, c: T) -> Option<(Seq<T>, Seq<T>)> {
    if s.contains(c) {
        let i = choose|i: int| stands_last(s, c, i);
        Some((s.take(i), s.skip(i + 1)))
    } else {
        None
    }
}

pub proof fn lemma_cut_first<T>(s: Seq<T>, c: T, i: int)
    requires
        stands_first(s, c, i),
    ensures
        cut_first(s, c) == Some((s.take(i), s.skip(i + 1))),
{
    assert(s.contains(c));
    let k = choose|k: int| stands_first(s, c, k);
    assert(stands_first(s, c, k));
    assert(k == i) by {
        if k < i {
            assert(s[k] != c);
        } else if i < k {
            assert(s[i] != c);
        }
    }
}

pub proof fn lemma_cut_last<T>(s: Seq<T>, c: T, i: int)
    requires
        stands_last(s, c, i),
    ensures
        cut_last(s, c) == Some((s.take(i), s.skip(i + 1))),
{
    assert(s.contains(c));
    let k = choose|k: int| stands_last(s, c, k);
    assert(stands_last(s, c, k));
    assert(k == i) by {
        if k > i {
            assert(s[k] != c);
        } else if i > k {
            assert(s[i] != c);
        }
    }
}

/// What stands before and after the first place of a separator in a text.
pub fn split_once(s: &str, c: char) -> (halves: Option<(String, String)>)
    ensures
        match halves {
            Some((a, b)) => cut_first(s@, c) == Some((a@, b@)),
            None => cut_first(s@, c) is None,
        },
{
    let chars = chars_of(s);
    let mut i: usize = 0;
    while i < chars.len()
        invariant
            i <= chars@.len(),
            chars@ == s@,
            forall|j: int| 0 <= j < i ==> chars@[j] != c,
        decreases chars@.len() - i,
    {
        if chars[i] == c {
            proof {
                lemma_cut_first(s@, c, i as int);
                assert(s@.subrange(0, i as int) =~= s@.take(i as int));
                assert(s@.subrange(i + 1, s@.len() as int) =~= s@.skip(i + 1));
            }
            return Some(
                (
                    part_of(chars.as_slice(), 0, i),
                    part_of(chars.as_slice(), i + 1, chars.len()),
                ),
            );
        }
        i += 1;
    }
    None
}

/// What stands before and after the last place of a separator in a text.
pub fn rsplit_once(s: &str, c: char) -> (halves: Option<(String, String)>)
    ensures
        match halves {
            Some((a, b)) => cut_last(s@, c) == Some((a@, b@)),
            None => cut_last(s@, c) is None,
        },
{
    let chars = chars_of(s);
    let mut i: usize = chars.len();
    while i > 0
        invariant
            i <= chars@.len(),
            chars@ == s@,
            forall|j: int| i <= j < chars@.len() ==> chars@[j] != c,
        decreases i,
    {
        i -= 1;
        if chars[i] == c {
            proof {
                lemma_cut_last(s@, c, i as int);
                assert(s@.subrange(0, i as int) =~= s@.take(i as int));
                assert(s@.subrange(i + 1, s@.len() as int) =~= s@.skip(i + 1));
            }
            return Some(
                (
                    part_of(chars.as_slice(), 0, i),
                    part_of(chars.as_slice(), i + 1, chars.len()),
                ),
            );
        }
    }
    None
}

/// Whether a sequence starts with another.
pub open spec fn starts<T>(s: Seq<T>, prefix: Seq<T>) -> bool {
    prefix.len() <= s.len() && s.take(prefix.len() as int) == prefix
}

/// Whether a sequence ends with another.
pub open spec fn ends<T>(s: Seq<T>, suffix: Seq<T>) -> bool {
    suffix.len() <= s.len() && s.skip(s.len() - suffix.len()) == suffix
}

/// Whether a text starts with a prefix.
pub fn starts_with(s: &str, prefix: &str) -> (found: bool)
    ensures
        found == starts(s@, prefix@),
{
    strip_prefix(s, prefix).is_some()
}

/// The rest of a text behind a prefix.
pub fn strip_prefix(s: &str, prefix: &str) -> (rest: Option<String>)
    ensures
        match rest {
            Some(r) => starts(s@, prefix@) && r@ == s@.skip(prefix@.len() as int),
            None => !starts(s@, prefix@),
        },
{
    let chars = chars_of(s);
    let head = chars_of(prefix);
    if chars.len() < head.len() {
        return None;
    }
    let mut i: usize = 0;
    while i < head.len()
        invariant
            i <= head@.len() <= chars@.len(),
            chars@ == s@,
            head@ == prefix@,
            forall|j: int| 0 <= j < i ==> chars@[j] == head@[j],
        decreases head@.len() - i,
    {
        if chars[i] != head[i] {
            assert(s@.take(prefix@.len() as int)[i as int] != prefix@[i as int]);
            return None;
        }
        i += 1;
    }
    assert(s@.take(prefix@.len() as int) =~= prefix@);
    assert(s@.subrange(i as int, s@.len() as int) =~= s@.skip(prefix@.len() as int));
    Some(part_of(chars.as_slice(), i, chars.len()))
}

/// Whether a text ends with a suffix.
pub fn ends_with(s: &str, suffix: &str) -> (found: bool)
    ensures
        found == ends(s@, suffix@),
{
    strip_suffix(s, suffix).is_some()
}

/// The rest of a text in front of a suffix.
pub fn strip_suffix(s: &str, suffix: &str) -> (rest: Option<String>)
    ensures
        match rest {
            Some(r) => ends(s@, suffix@) && r@ == s@.take(s@.len() - suffix@.len()),
            None => !ends(s@, suffix@),
        },
{
    let chars = chars_of(s);
    let tail = chars_of(suffix);
    if chars.len() < tail.len() {
        return None;
    }
    let start: usize = chars.len() - tail.len();
    let back = part_of(chars.as_slice(), start, chars.len());
    assert(back@ =~= s@.skip(s@.len() - suffix@.len()));
    if !same_text(back.as_str(), suffix) {
        return None;
    }
    assert(s@.subrange(0, start as int) =~= s@.take(s@.len() - suffix@.len()));
    Some(part_of(chars.as_slice(), 0, start))
}

/// Whether a byte string starts with another.
pub fn bytes_start_with(s: &[u8], prefix: &[u8]) -> (found: bool)
    ensures
        found == starts(s@, prefix@),
{
    if s.len() < prefix.len() {
        return false;
    }
    let mut i: usize = 0;
    while i < prefix.len()
        invariant
            i <= prefix@.len() <= s@.len(),
            forall|j: int| 0 <= j < i ==> s@[j] == prefix@[j],
        decreases prefix@.len() - i,
    {
        if s[i] != prefix[i] {
            assert(s@.take(prefix@.len() as int)[i as int] != prefix@[i as int]);
            return false;
        }
        i += 1;
    }
    assert(s@.take(prefix@.len() as int) =~= prefix@);
    true
}

/// The bytes behind an index.
pub fn bytes_after(s: &[u8], from: usize) -> (rest: Vec<u8>)
    requires
        from <= s@.len(),
    ensures
        rest@ == s@.skip(from as int),
{
    let mut rest: Vec<u8> = Vec::new();
    let mut i: usize = from;
    while i < s.len()
        invariant
            from <= i <= s@.len(),
            rest@ == s@.subrange(from as int, i as int),
        decreases s@.len() - i,
    {
        rest.push(s[i]);
        i += 1;
        assert(s@.subrange(from as int, i as int) =~= s@.subrange(from as int, i - 1).push(
            s@[i - 1],
        ));
    }
    assert(s@.subrange(from as int, s@.len() as int) =~= s@.skip(from as int));
    rest
}

/// The bytes in front of an index.
pub fn bytes_before(s: &[u8], to: usize) -> (head: Vec<u8>)
    requires
        to <= s@.len(),
    ensures
        head@ == s@.take(to as int),
{
    let mut head: Vec<u8> = Vec::new();
    let mut i: usize = 0;
    while i < to
        invariant
            i <= to <= s@.len(),
            head@ == s@.take(i as int),
        decreases to - i,
    {
        head.push(s[i]);
        i += 1;
        assert(s@.take(i as int) =~= s@.take(i - 1).push(s@[i - 1]));
    }
    head
}

/// Whether a text holds a character.
pub fn contains_char(s: &str, c: char) -> (found: bool)
    ensures
        found == s@.contains(c),
{
    let chars = chars_of(s);
    let mut i: usize = 0;
    while i < chars.len()
        invariant
            i <= chars@.len(),
            chars@ == s@,
            forall|j: int| 0 <= j < i ==> chars@[j] != c,
        decreases chars@.len() - i,
    {
        if chars[i] == c {
            assert(s@[i as int] == c);
            return true;
        }
        i += 1;
    }
    false
}

/// The lines of a text: what line feeds end, a carriage return just before one
/// being part of the line's end, and a last line without an end when it is not
/// empty.
pub open spec fn lines(s: Seq<char>) -> Seq<Seq<char>> {
    let pieces = split(s, '\n');
    let ended = Seq::new(
        (pieces.len() - 1) as nat,
        |i: int|
            if pieces[i].len() > 0 && pieces[i].last() == '\r' {
                pieces[i].drop_last()
            } else {
                pieces[i]
            },
    );
    if pieces.last().len() == 0 {
        ended
    } else {
        ended.push(pieces.last())
    }
}

/// The lines of a text.
pub fn lines_of(s: &str) -> (found: Vec<String>)
    ensures
        texts(found@) == lines(s@),
{
    let pieces = split_text(s, '\n');
    let ghost all = split(s@, '\n');
    proof {
        lemma_split_nonempty(s@, '\n');
        assert(texts(pieces@).len() == pieces@.len());
    }
    let mut found: Vec<String> = Vec::new();
    let mut i: usize = 0;
    while i < pieces.len() - 1
        invariant
            i < pieces@.len(),
            texts(pieces@) == all,
            found@.len() == i,
            forall|j: int|
                0 <= j < i ==> found@[j]@ == if all[j].len() > 0 && all[j].last() == '\r' {
                    all[j].drop_last()
                } else {
                    all[j]
                },
        decreases pieces@.len() - i,
    {
        let chars = chars_of(pieces[i].as_str());
        assert(chars@ == all[i as int]);
        let n: usize = chars.len();
        if n > 0 && chars[n - 1] == '\r' {
            let line = part_of(chars.as_slice(), 0, n - 1);
            assert(line@ =~= all[i as int].drop_last());
            found.push(line);
        } else {
            found.push(pieces[i].clone());
        }
        i += 1;
    }
    let last = pieces[i].clone();
    assert(last@ == all.last());
    if last.as_str().is_empty() {
        assert(texts(found@) =~= lines(s@));
    } else {
        found.push(last);
        assert(texts(found@) =~= lines(s@));
    }
    found
}

/// The characters that Unicode gives the White_Space property.
pub open spec fn whitespace(c: char) -> bool {
    ||| '\u{9}' <= c <= '\u{d}'
    ||| c == ' '
    ||| c == '\u{85}'
    ||| c == '\u{a0}'
    ||| c == '\u{1680}'
    ||| '\u{2000}' <= c <= '\u{200a}'
    ||| c == '\u{2028}'
    ||| c == '\u{2029}'
    ||| c == '\u{202f}'
    ||| c == '\u{205f}'
    ||| c == '\u{3000}'
}

/// Whether Unicode gives a character the White_Space property.
pub fn is_whitespace(c: char) -> (white: bool)
    ensures
        white == whitespace(c),
{
    ('\u{9}' <= c && c <= '\u{d}') || c == ' ' || c == '\u{85}' || c == '\u{a0}' || c == '\u{1680}'
        || ('\u{2000}' <= c && c <= '\u{200a}') || c == '\u{2028}' || c == '\u{2029}' || c
        == '\u{202f}' || c == '\u{205f}' || c == '\u{3000}'
}

/// The control characters: those below the space, and from the delete character
/// up to the end of the second control block.
pub open spec fn control(c: char) -> bool {
    c <= '\u{1f}' || '\u{7f}' <= c <= '\u{9f}'
}

/// Whether a character is a control character.
pub fn is_control(c: char) -> (is: bool)
    ensures
        is == control(c),
{
    c <= '\u{1f}' || ('\u{7f}' <= c && c <= '\u{9f}')
}

/// A text without the white space at both of its ends.
pub open spec fn trimmed(s: Seq<char>) -> Seq<char>
    decreases s.len(),
{
    if s.len() > 0 && whitespace(s.last()) {
        trimmed(s.drop_last())
    } else if s.len() > 0 && whitespace(s[0]) {
        trimmed(s.skip(1))
    } else {
        s
    }
}

/// A text without the white space at both of its ends.
pub fn trim(s: &str) -> (rest: String)
    ensures
        rest@ == trimmed(s@),
{
    let chars = chars_of(s);
    let mut to: usize = chars.len();
    assert(s@.subrange(0, to as int) =~= s@);
    while to > 0 && is_whitespace(chars[to - 1])
        invariant
            to <= chars@.len(),
            chars@ == s@,
            trimmed(s@) == trimmed(s@.subrange(0, to as int)),
        decreases to,
    {
        assert(s@.subrange(0, to as int).drop_last() =~= s@.subrange(0, to - 1));
        to -= 1;
    }
    let mut from: usize = 0;
    while from < to && is_whitespace(chars[from])
        invariant
            from <= to <= chars@.len(),
            chars@ == s@,
            to > 0 ==> !whitespace(chars@[to - 1]),
            trimmed(s@) == trimmed(s@.subrange(from as int, to as int)),
        decreases to - from,
    {
        assert(s@.subrange(from as int, to as int).skip(1) =~= s@.subrange(from + 1, to as int));
        from += 1;
    }
    part_of(chars.as_slice(), from, to)
}

/// The words of a text: its longest runs without white space, in order. The second
/// argument is the word being read.
pub open spec fn words_after(s: Seq<char>, word: Seq<char>) -> Seq<Seq<char>>
    decreases s.len(),
{
    if s.len() == 0 {
        if word.len() == 0 {
            Seq::empty()
        } else {
            seq![word]
        }
    } else if whitespace(s[0]) {
        if word.len() == 0 {
            words_after(s.skip(1), Seq::empty())
        } else {
            seq![word] + words_after(s.skip(1), Seq::empty())
        }
    } else {
        words_after(s.skip(1), word.push(s[0]))
    }
}

/// The words of a text.
pub open spec fn words(s: Seq<char>) -> Seq<Seq<char>> {
    words_after(s, Seq::empty())
}

/// The words of a text.
pub fn words_of(s: &str) -> (found: Vec<String>)
    ensures
        texts(found@) == words(s@),
{
    let chars = chars_of(s);
    let mut found: Vec<String> = Vec::new();
    let mut word = String::new();
    let mut i: usize = 0;
    assert(s@.skip(0) =~= s@);
    assert(texts(found@) + words_after(s@.skip(0), word@) =~= words(s@));
    while i < chars.len()
        invariant
            i <= chars@.len(),
            chars@ == s@,
            texts(found@) + words_after(s@.skip(i as int), word@) == words(s@),
        decreases chars@.len() - i,
    {
        let c = chars[i];
        assert(s@.skip(i as int)[0] == c);
        assert(s@.skip(i as int).skip(1) =~= s@.skip(i + 1));
        if is_whitespace(c) {
            if !word.as_str().is_empty() {
                let ghost w = word@;
                proof {
                    crate::text::lemma_texts_push(found@, word);
                    assert(texts(found@).push(w) + words_after(s@.skip(i + 1), Seq::empty())
                        =~= texts(found@) + (seq![w] + words_after(s@.skip(i + 1), Seq::empty())));
                }
                found.push(word);
                word = String::new();
            } else {
                assert(word@ =~= Seq::<char>::empty());
            }
        } else {
            word.push(c);
        }
        i += 1;
    }
    assert(s@.skip(i as int).len() == 0);
    if !word.as_str().is_empty() {
        proof {
            crate::text::lemma_texts_push(found@, word);
            assert(texts(found@).push(word@) =~= texts(found@) + seq![word@]);
        }
        found.push(word);
    } else {
        assert(texts(found@) + Seq::<Seq<char>>::empty() =~= texts(found@));
    }
    found
}

/// Whether every element of a sequence is of a kind.
pub open spec fn all_of(s: Seq<char>, kind: spec_fn(char) -> bool) -> bool {
    forall|i: int| 0 <= i < s.len() ==> kind(#[trigger] s[i])
}

/// The decimal digits.
pub open spec fn digit(c: char) -> bool {
    '0' <= c <= '9'
}

/// The digits and the lower-case letters of hexadecimal notation.
pub open spec fn lower_hex(c: char) -> bool {
    '0' <= c <= '9' || 'a' <= c <= 'f'
}

/// The digits and the letters of hexadecimal notation.
pub open spec fn hex(c: char) -> bool {
    '0' <= c <= '9' || 'a' <= c <= 'f' || 'A' <= c <= 'F'
}

/// The letters and digits of ASCII.
pub open spec fn alphanumeric(c: char) -> bool {
    '0' <= c <= '9' || 'a' <= c <= 'z' || 'A' <= c <= 'Z'
}

/// The value of a hexadecimal digit.
pub open spec fn hex_value(c: char) -> int {
    if '0' <= c <= '9' {
        c as int - '0' as int
    } else if 'a' <= c <= 'f' {
        c as int - 'a' as int + 10
    } else {
        c as int - 'A' as int + 10
    }
}

/// The number that digits write in a base.
pub open spec fn number(s: Seq<char>, base: int) -> int
    decreases s.len(),
{
    if s.len() == 0 {
        0
    } else {
        number(s.drop_last(), base) * base + hex_value(s.last())
    }
}

/// The digits of a written number: a plus sign may stand before them.
pub open spec fn unsigned_digits(s: Seq<char>) -> Seq<char> {
    if s.len() > 0 && s[0] == '+' {
        s.skip(1)
    } else {
        s
    }
}

/// The number a text writes in decimal notation, none when it writes no number or
/// one above the bound.
pub open spec fn decimal_number(s: Seq<char>, bound: int) -> Option<int> {
    let digits = unsigned_digits(s);
    if digits.len() > 0 && all_of(digits, |c: char| digit(c)) && number(digits, 10) <= bound {
        Some(number(digits, 10))
    } else {
        None
    }
}

/// The number a text writes in hexadecimal notation, none when it writes no number
/// or one above the bound.
pub open spec fn hexadecimal_number(s: Seq<char>, bound: int) -> Option<int> {
    let digits = unsigned_digits(s);
    if digits.len() > 0 && all_of(digits, |c: char| hex(c)) && number(digits, 16) <= bound {
        Some(number(digits, 16))
    } else {
        None
    }
}

proof fn lemma_number_grows(s: Seq<char>, base: int, i: int)
    requires
        0 <= i <= s.len(),
        base == 10 || base == 16,
        forall|j: int| 0 <= j < s.len() ==> hex(#[trigger] s[j]),
    ensures
        0 <= number(s.take(i), base) <= number(s, base),
    decreases s.len(),
{
    if s.len() == 0 {
        assert(s.take(i) =~= s);
    } else if i == s.len() {
        assert(s.take(i) =~= s);
        lemma_number_grows(s.drop_last(), base, s.len() - 1);
        assert(s.drop_last().take(s.len() - 1) =~= s.drop_last());
        assert(hex(s.last()));
    } else {
        lemma_number_grows(s.drop_last(), base, i);
        assert(s.drop_last().take(i) =~= s.take(i));
        assert(hex(s.last()));
    }
}

/// Reads a number in decimal notation, up to a bound.
pub fn parse_decimal(s: &str, bound: u64) -> (value: Option<u64>)
    ensures
        match value {
            Some(v) => decimal_number(s@, bound as int) == Some(v as int),
            None => decimal_number(s@, bound as int) is None,
        },
{
    parse_number(s, bound, false)
}

/// Reads a number in hexadecimal notation, up to a bound.
pub fn parse_hexadecimal(s: &str, bound: u64) -> (value: Option<u64>)
    ensures
        match value {
            Some(v) => hexadecimal_number(s@, bound as int) == Some(v as int),
            None => hexadecimal_number(s@, bound as int) is None,
        },
{
    parse_number(s, bound, true)
}

fn parse_number(s: &str, bound: u64, sixteen: bool) -> (value: Option<u64>)
    ensures
        match value {
            Some(v) => (if sixteen {
                hexadecimal_number(s@, bound as int)
            } else {
                decimal_number(s@, bound as int)
            }) == Some(v as int),
            None => (if sixteen {
                hexadecimal_number(s@, bound as int)
            } else {
                decimal_number(s@, bound as int)
            }) is None,
        },
{
    let chars = chars_of(s);
    let start: usize = if chars.len() > 0 && chars[0] == '+' {
        1
    } else {
        0
    };
    let ghost digits = unsigned_digits(s@);
    assert(digits =~= chars@.subrange(start as int, chars@.len() as int));
    if start == chars.len() {
        return None;
    }
    let base: u128 = if sixteen {
        16
    } else {
        10
    };
    let mut value: u128 = 0;
    let mut i: usize = start;
    assert(digits.take(0) =~= Seq::<char>::empty());
    let mut over: bool = false;
    while i < chars.len()
        invariant
            start <= i <= chars@.len(),
            start <= 1,
            chars@ == s@,
            digits == unsigned_digits(s@),
            digits == chars@.subrange(start as int, chars@.len() as int),
            base == if sixteen {
                16u128
            } else {
                10u128
            },
            forall|j: int|
                0 <= j < i - start ==> if sixteen {
                    hex(#[trigger] digits[j])
                } else {
                    digit(digits[j])
                },
            !over ==> value <= bound && value as int == number(digits.take(i - start), base as int),
            over ==> number(digits.take(i - start), base as int) > bound,
        decreases chars@.len() - i,
    {
        let c = chars[i];
        assert(digits[i - start] == c);
        let d: u128 = if '0' <= c && c <= '9' {
            (c as u32 - '0' as u32) as u128
        } else if sixteen && 'a' <= c && c <= 'f' {
            (c as u32 - 'a' as u32 + 10) as u128
        } else if sixteen && 'A' <= c && c <= 'F' {
            (c as u32 - 'A' as u32 + 10) as u128
        } else {
            return None;
        };
        let ghost k = i - start;
        assert(digits.take(k + 1).drop_last() =~= digits.take(k));
        assert(digits.take(k + 1).last() == c);
        assert(number(digits.take(k + 1), base as int) == number(digits.take(k), base as int) * base
            + d);
        if !over {
            let next: u128 = value * base + d;
            if next > bound as u128 {
                over = true;
            }
            value = next;
        } else {
            assert(number(digits.take(k), base as int) * base >= number(
                digits.take(k),
                base as int,
            )) by (nonlinear_arith)
                requires
                    number(digits.take(k), base as int) >= 0,
                    base >= 1,
            ;
        }
        i += 1;
    }
    assert(digits.take(i - start) =~= digits);
    if over {
        None
    } else {
        Some(value as u64)
    }
}

/// The decimal notation of a number.
pub open spec fn decimal(n: nat) -> Seq<char>
    decreases n,
{
    if n < 10 {
        seq![('0' as int + n) as char]
    } else {
        decimal(n / 10).push(('0' as int + n % 10) as char)
    }
}

/// Writes a number in decimal notation.
pub fn decimal_of(n: u64) -> (s: String)
    ensures
        s@ == decimal(n as nat),
    decreases n,
{
    let last: u8 = (n % 10) as u8;
    let c: char = (48u8 + last) as char;
    if n < 10 {
        let mut s = String::new();
        s.push(c);
        assert(s@ =~= seq![('0' as int + n) as char]);
        s
    } else {
        let mut s = decimal_of(n / 10);
        s.push(c);
        s
    }
}

/// Whether a text stands before another in the order of their characters.
pub open spec fn before(a: Seq<char>, b: Seq<char>) -> bool
    decreases a.len(),
{
    if b.len() == 0 {
        false
    } else if a.len() == 0 {
        true
    } else if a[0] != b[0] {
        a[0] < b[0]
    } else {
        before(a.skip(1), b.skip(1))
    }
}

pub proof fn lemma_before_irreflexive(a: Seq<char>)
    ensures
        !before(a, a),
    decreases a.len(),
{
    if a.len() > 0 {
        lemma_before_irreflexive(a.skip(1));
    }
}

pub proof fn lemma_before_transitive(a: Seq<char>, b: Seq<char>, c: Seq<char>)
    requires
        before(a, b),
        before(b, c),
    ensures
        before(a, c),
    decreases a.len(),
{
    if a.len() > 0 && a[0] == b[0] && b[0] == c[0] {
        lemma_before_transitive(a.skip(1), b.skip(1), c.skip(1));
    }
}

pub proof fn lemma_before_total(a: Seq<char>, b: Seq<char>)
    ensures
        before(a, b) || before(b, a) || a == b,
    decreases a.len(),
{
    if a.len() > 0 && b.len() > 0 && a[0] == b[0] {
        lemma_before_total(a.skip(1), b.skip(1));
        if a.skip(1) == b.skip(1) {
            assert(a =~= seq![a[0]] + a.skip(1));
            assert(b =~= seq![b[0]] + b.skip(1));
        }
    } else if a.len() == 0 && b.len() == 0 {
        assert(a =~= b);
    }
}

/// Whether a text stands before another in the order of their characters.
pub fn text_before(a: &str, b: &str) -> (is: bool)
    ensures
        is == before(a@, b@),
{
    let x = chars_of(a);
    let y = chars_of(b);
    let mut i: usize = 0;
    assert(a@.skip(0) =~= a@);
    assert(b@.skip(0) =~= b@);
    loop
        invariant
            x@ == a@,
            y@ == b@,
            i <= x@.len(),
            i <= y@.len(),
            before(a@, b@) == before(a@.skip(i as int), b@.skip(i as int)),
        decreases x@.len() - i,
    {
        if i == y.len() {
            return false;
        }
        if i == x.len() {
            return true;
        }
        assert(a@.skip(i as int)[0] == x@[i as int]);
        assert(b@.skip(i as int)[0] == y@[i as int]);
        if x[i] != y[i] {
            return x[i] < y[i];
        }
        assert(a@.skip(i as int).skip(1) =~= a@.skip(i + 1));
        assert(b@.skip(i as int).skip(1) =~= b@.skip(i + 1));
        i += 1;
    }
}

/// Whether a text stands at a place in another.
pub open spec fn stands_at(s: Seq<char>, part: Seq<char>, i: int) -> bool {
    0 <= i && i + part.len() <= s.len() && s.subrange(i, i + part.len()) == part
}

/// Whether a text holds another.
pub open spec fn holds_text(s: Seq<char>, part: Seq<char>) -> bool {
    exists|i: int| stands_at(s, part, i)
}

/// Whether a text holds another.
pub fn contains_text(s: &str, part: &str) -> (found: bool)
    ensures
        found == holds_text(s@, part@),
{
    let chars = chars_of(s);
    let wanted = chars_of(part);
    if wanted.len() > chars.len() {
        return false;
    }
    let n: usize = chars.len();
    let last: usize = n - wanted.len();
    let mut i: usize = 0;
    while i <= last
        invariant
            chars@ == s@,
            wanted@ == part@,
            n == chars@.len(),
            last == n - wanted@.len(),
            i <= last,
            forall|k: int| 0 <= k < i ==> !#[trigger] stands_at(s@, part@, k),
        decreases last - i,
    {
        let mut j: usize = 0;
        while j < wanted.len() && chars[i + j] == wanted[j]
            invariant
                chars@ == s@,
                wanted@ == part@,
                n == chars@.len(),
                i + wanted@.len() <= n,
                j <= wanted@.len(),
                forall|k: int| 0 <= k < j ==> #[trigger] part@[k] == s@[i + k],
            decreases wanted@.len() - j,
        {
            j += 1;
        }
        if j == wanted.len() {
            assert(s@.subrange(i as int, i + part@.len()) =~= part@);
            assert(stands_at(s@, part@, i as int));
            return true;
        }
        proof {
            if stands_at(s@, part@, i as int) {
                assert(s@.subrange(i as int, i + part@.len())[j as int] == s@[i + j]);
            }
        }
        if i == last {
            return false;
        }
        i += 1;
    }
    false
}

} // verus!
