//! Text: the refusals an operator reads, and the exact string operations the
//! drivers are stated in. Every contract speaks of a text's characters.
use vstd::prelude::*;

verus! {

/// Why an operation was refused, in the words an operator reads.
#[derive(Clone, Debug, PartialEq, Eq)]
pub struct Refusal {
    pub text: String,
}

impl View for Refusal {
    type V = Seq<char>;

    open spec fn view(&self) -> Seq<char> {
        self.text@
    }
}

/// Refuses with a fixed sentence.
pub fn refuse(text: &str) -> (refusal: Refusal)
    ensures
        refusal@ == text@,
{
    Refusal { text: text.to_owned() }
}

/// Whether a check passed, or with which words it was refused.
pub open spec fn judged<T>(outcome: Result<T, Refusal>, refusal: Option<Seq<char>>) -> bool {
    match refusal {
        Some(words) => outcome matches Err(e) && e@ == words,
        None => outcome is Ok,
    }
}

/// The first of two checks that refuses.
pub open spec fn either(first: Option<Seq<char>>, then: Option<Seq<char>>) -> Option<Seq<char>> {
    match first {
        Some(words) => Some(words),
        None => then,
    }
}

/// A refusal with these words unless the condition holds.
pub open spec fn unless(holds: bool, words: Seq<char>) -> Option<Seq<char>> {
    if holds {
        None
    } else {
        Some(words)
    }
}

/// Passes when the condition holds and refuses with the given words otherwise.
pub fn check(holds: bool, words: &str) -> (outcome: Result<(), Refusal>)
    ensures
        judged(outcome, unless(holds, words@)),
{
    if holds {
        Ok(())
    } else {
        Err(refuse(words))
    }
}

/// Words, and the cause that lies behind them.
pub open spec fn behind(words: Seq<char>, cause: Seq<char>) -> Seq<char> {
    words + ": "@ + cause
}

/// Refuses with words that a cause lies behind.
pub fn refuse_behind(words: &str, cause: &Refusal) -> (refusal: Refusal)
    ensures
        refusal@ == behind(words@, cause@),
{
    Refusal { text: cat3(words, ": ", cause.text.as_str()) }
}

/// What a failure says once what it left behind was cleared away, or was not.
pub open spec fn failed(
    words: Seq<char>,
    also: Seq<char>,
    failure: Seq<char>,
    clearing: Result<(), Refusal>,
) -> Seq<char> {
    match clearing {
        Ok(_) => behind(words, failure),
        Err(refusal) => behind(words + also + refusal@, failure),
    }
}

/// Refuses after a failure, once what it left behind was cleared away, or was not.
pub fn refuse_failed(
    words: &str,
    also: &str,
    failure: &Refusal,
    clearing: &Result<(), Refusal>,
) -> (refusal: Refusal)
    ensures
        refusal@ == failed(words@, also@, failure@, *clearing),
{
    match clearing {
        Ok(_) => refuse_behind(words, failure),
        Err(refusal) => {
            let all = cat3(words, also, refusal.text.as_str());
            refuse_behind(all.as_str(), failure)
        },
    }
}

/// `String::push`: one character is added at the end.
pub assume_specification[ String::push ](s: &mut String, c: char)
    ensures
        final(s)@ == old(s)@.push(c),
;

/// The equality of `str`: two texts are equal when they hold the same characters.
#[verifier::external_body]
pub(crate) fn same_text(a: &str, b: &str) -> (same: bool)
    ensures
        same == (a@ == b@),
{
    a == b
}

/// `str::from_utf8`: the text whose UTF-8 encoding these bytes are, and none when
/// they are no UTF-8.
#[verifier::external_body]
pub(crate) fn text_of_utf8(bytes: &[u8]) -> (text: Option<String>)
    ensures
        text is Some <==> vstd::utf8::valid_utf8(bytes@),
        text matches Some(t) ==> vstd::utf8::encode_utf8(t@) == bytes@,
{
    match std::str::from_utf8(bytes) {
        Ok(text) => Some(text.to_owned()),
        Err(_) => None,
    }
}

/// How a text is shown in quotes.
pub uninterp spec fn quoted(text: Seq<char>) -> Seq<char>;

/// `str` by its `Debug` format: in quotes, with what could not be read escaped. A function of
/// the text alone.
#[verifier::external_body]
pub(crate) fn quote(text: &str) -> (shown: String)
    ensures
        shown@ == quoted(text@),
{
    format!("{:?}", text)
}

/// The characters of each of several texts.
pub open spec fn texts(v: Seq<String>) -> Seq<Seq<char>> {
    Seq::new(v.len(), |i: int| v[i]@)
}

/// The bytes of each of several byte strings.
pub open spec fn byte_strings(v: Seq<Vec<u8>>) -> Seq<Seq<u8>> {
    Seq::new(v.len(), |i: int| v[i]@)
}

/// The characters of a text that may be absent.
pub open spec fn text_option(v: Option<String>) -> Option<Seq<char>> {
    match v {
        Some(s) => Some(s@),
        None => None,
    }
}

/// The bytes of a byte string that may be absent.
pub open spec fn bytes_option(v: Option<Vec<u8>>) -> Option<Seq<u8>> {
    match v {
        Some(s) => Some(s@),
        None => None,
    }
}

pub proof fn lemma_texts_push(v: Seq<String>, s: String)
    ensures
        texts(v.push(s)) == texts(v).push(s@),
{
    assert(texts(v.push(s)) =~= texts(v).push(s@));
}

/// The characters of a text, one by one.
pub fn chars_of(s: &str) -> (chars: Vec<char>)
    ensures
        chars@ == s@,
{
    let mut chars: Vec<char> = Vec::new();
    for c in iter: s.chars()
        invariant
            chars@ == iter.seq().take(iter.index() as int),
            iter.seq() == s@,
    {
        chars.push(c);
    }
    chars
}

/// The text of these characters.
pub fn text_of(chars: &[char]) -> (s: String)
    ensures
        s@ == chars@,
{
    let mut s = String::new();
    let mut i: usize = 0;
    while i < chars.len()
        invariant
            i <= chars@.len(),
            s@ == chars@.take(i as int),
        decreases chars@.len() - i,
    {
        s.push(chars[i]);
        i += 1;
        assert(chars@.take(i as int) =~= chars@.take(i - 1).push(chars@[i - 1]));
    }
    assert(chars@.take(i as int) =~= chars@);
    s
}

/// The characters from one index up to another.
pub fn part_of(chars: &[char], from: usize, to: usize) -> (s: String)
    requires
        from <= to <= chars@.len(),
    ensures
        s@ == chars@.subrange(from as int, to as int),
{
    let mut s = String::new();
    let mut i: usize = from;
    while i < to
        invariant
            from <= i <= to <= chars@.len(),
            s@ == chars@.subrange(from as int, i as int),
        decreases to - i,
    {
        s.push(chars[i]);
        i += 1;
        assert(chars@.subrange(from as int, i as int) =~= chars@.subrange(
            from as int,
            i - 1,
        ).push(chars@[i - 1]));
    }
    s
}

/// Two texts, one after the other.
pub fn cat2(a: &str, b: &str) -> (s: String)
    ensures
        s@ == a@ + b@,
{
    let mut s = a.to_owned();
    s.append(b);
    s
}

/// Three texts, one after the other.
pub fn cat3(a: &str, b: &str, c: &str) -> (s: String)
    ensures
        s@ == a@ + b@ + c@,
{
    let mut s = a.to_owned();
    s.append(b);
    s.append(c);
    s
}

/// Four texts, one after the other.
pub fn cat4(a: &str, b: &str, c: &str, d: &str) -> (s: String)
    ensures
        s@ == a@ + b@ + c@ + d@,
{
    let mut s = a.to_owned();
    s.append(b);
    s.append(c);
    s.append(d);
    s
}

/// Five texts, one after the other.
pub fn cat5(a: &str, b: &str, c: &str, d: &str, e: &str) -> (s: String)
    ensures
        s@ == a@ + b@ + c@ + d@ + e@,
{
    let mut s = a.to_owned();
    s.append(b);
    s.append(c);
    s.append(d);
    s.append(e);
    s
}

/// Whether a text that may be absent is present and holds these characters.
pub fn is_text(value: &Option<String>, text: &str) -> (same: bool)
    ensures
        same == (text_option(*value) == Some(text@)),
{
    match value {
        Some(s) => same_text(s.as_str(), text),
        None => false,
    }
}

/// A copy of a text that may be absent.
pub fn copy_option(value: &Option<String>) -> (copy: Option<String>)
    ensures
        text_option(copy) == text_option(*value),
{
    match value {
        Some(s) => Some(s.clone()),
        None => None,
    }
}

/// Whether two texts that may be absent are the same.
pub fn same_option(a: &Option<String>, b: &Option<String>) -> (same: bool)
    ensures
        same == (text_option(*a) == text_option(*b)),
{
    match (a, b) {
        (Some(x), Some(y)) => same_text(x.as_str(), y.as_str()),
        (None, None) => true,
        _ => false,
    }
}

/// Whether two byte strings are the same.
pub fn same_bytes(a: &[u8], b: &[u8]) -> (same: bool)
    ensures
        same == (a@ == b@),
{
    if a.len() != b.len() {
        return false;
    }
    let mut i: usize = 0;
    while i < a.len()
        invariant
            i <= a@.len(),
            a@.len() == b@.len(),
            forall|j: int| 0 <= j < i ==> a@[j] == b@[j],
        decreases a@.len() - i,
    {
        if a[i] != b[i] {
            return false;
        }
        i += 1;
    }
    assert(a@ =~= b@);
    true
}

/// A copy of a byte string.
pub fn copy_bytes(bytes: &[u8]) -> (copy: Vec<u8>)
    ensures
        copy@ == bytes@,
{
    let mut copy: Vec<u8> = Vec::new();
    let mut i: usize = 0;
    while i < bytes.len()
        invariant
            i <= bytes@.len(),
            copy@ == bytes@.take(i as int),
        decreases bytes@.len() - i,
    {
        copy.push(bytes[i]);
        i += 1;
        assert(bytes@.take(i as int) =~= bytes@.take(i - 1).push(bytes@[i - 1]));
    }
    assert(bytes@.take(i as int) =~= bytes@);
    copy
}

/// Whether two byte strings that may be absent are the same.
pub fn same_bytes_option(a: &Option<Vec<u8>>, b: &Option<Vec<u8>>) -> (same: bool)
    ensures
        same == (bytes_option(*a) == bytes_option(*b)),
{
    match (a, b) {
        (Some(x), Some(y)) => same_bytes(x.as_slice(), y.as_slice()),
        (None, None) => true,
        _ => false,
    }
}

/// A copy of a byte string that may be absent.
pub fn copy_bytes_option(value: &Option<Vec<u8>>) -> (copy: Option<Vec<u8>>)
    ensures
        bytes_option(copy) == bytes_option(*value),
{
    match value {
        Some(b) => Some(copy_bytes(b.as_slice())),
        None => None,
    }
}

/// A copy of a list of texts.
pub fn copy_texts(list: &[String]) -> (copy: Vec<String>)
    ensures
        texts(copy@) == texts(list@),
{
    let mut copy: Vec<String> = Vec::new();
    let mut i: usize = 0;
    while i < list.len()
        invariant
            i <= list@.len(),
            copy@.len() == i,
            forall|j: int| 0 <= j < i ==> copy@[j]@ == list@[j]@,
        decreases list@.len() - i,
    {
        copy.push(list[i].clone());
        i += 1;
    }
    assert(texts(copy@) =~= texts(list@));
    copy
}

/// Whether two lists hold the same texts in the same order.
pub fn same_texts(a: &[String], b: &[String]) -> (same: bool)
    ensures
        same == (texts(a@) == texts(b@)),
{
    if a.len() != b.len() {
        assert(texts(a@).len() != texts(b@).len());
        return false;
    }
    let mut i: usize = 0;
    while i < a.len()
        invariant
            i <= a@.len(),
            a@.len() == b@.len(),
            forall|j: int| 0 <= j < i ==> a@[j]@ == b@[j]@,
        decreases a@.len() - i,
    {
        if !same_text(a[i].as_str(), b[i].as_str()) {
            assert(texts(a@)[i as int] != texts(b@)[i as int]);
            return false;
        }
        i += 1;
    }
    assert(texts(a@) =~= texts(b@));
    true
}

/// Whether a text is among a list of texts.
pub fn list_contains(list: &[String], text: &str) -> (found: bool)
    ensures
        found == texts(list@).contains(text@),
{
    let mut i: usize = 0;
    while i < list.len()
        invariant
            i <= list@.len(),
            forall|j: int| 0 <= j < i ==> list@[j]@ != text@,
        decreases list@.len() - i,
    {
        if same_text(list[i].as_str(), text) {
            assert(texts(list@)[i as int] == text@);
            return true;
        }
        i += 1;
    }
    assert forall|j: int| 0 <= j < texts(list@).len() implies texts(list@)[j] != text@ by {}
    false
}

/// Adds one text after another to a list.
pub fn push_text(list: &mut Vec<String>, text: String)
    ensures
        texts(final(list)@) == texts(old(list)@).push(text@),
{
    proof {
        lemma_texts_push(list@, text);
    }
    list.push(text);
}

/// Adds every text of a second list to a first, in order.
pub fn push_texts(list: &mut Vec<String>, more: &[String])
    ensures
        texts(final(list)@) == texts(old(list)@) + texts(more@),
{
    let mut i: usize = 0;
    while i < more.len()
        invariant
            i <= more@.len(),
            texts(list@) == texts(old(list)@) + texts(more@).take(i as int),
        decreases more@.len() - i,
    {
        push_text(list, more[i].clone());
        i += 1;
        assert(texts(more@).take(i as int) =~= texts(more@).take(i - 1).push(more@[i - 1]@));
        assert(texts(list@) =~= texts(old(list)@) + texts(more@).take(i as int));
    }
    assert(texts(more@).take(i as int) =~= texts(more@));
}

} // verus!
