//! The contents of objects as Git streams them: a header, the content, a line end, object by
//! object, in the order in which they were asked for.
use vstd::prelude::*;
use vstd::utf8::{encode_utf8, is_ascii_chars};

use crate::materialize::{announced_size, batch_header, batch_trailer};
use crate::scan::{
    decimal, decimal_number, digit, hex_value, lemma_split_join, lemma_split_single, number, split,
    trim, trimmed, unsigned_digits,
};
use crate::text::{
    byte_strings, cat4, check, either, judged, refuse, texts, unless, Refusal,
};
use crate::watch::missed;

verus! {

/// How long the first line is, with its end. Where no line ends, everything is of it.
pub open spec fn line_length(bytes: Seq<u8>) -> nat
    decreases bytes.len(),
{
    if bytes.len() == 0 {
        0
    } else if bytes[0] == 10u8 {
        1
    } else {
        1 + line_length(bytes.skip(1))
    }
}

proof fn lemma_line_length(bytes: Seq<u8>)
    ensures
        line_length(bytes) <= bytes.len(),
    decreases bytes.len(),
{
    if bytes.len() > 0 && bytes[0] != 10u8 {
        lemma_line_length(bytes.skip(1));
    }
}

fn find_line_end(bytes: &[u8], from: usize) -> (end: usize)
    requires
        from <= bytes@.len(),
    ensures
        end == from + line_length(bytes@.skip(from as int)),
        end <= bytes@.len(),
{
    let mut at: usize = from;
    let ghost all = bytes@.skip(from as int);
    assert(bytes@.skip(at as int) =~= all);
    while at < bytes.len()
        invariant
            from <= at <= bytes@.len(),
            all == bytes@.skip(from as int),
            line_length(all) == at - from + line_length(bytes@.skip(at as int)),
        decreases bytes@.len() - at,
    {
        let ghost rest = bytes@.skip(at as int);
        assert(rest[0] == bytes@[at as int]);
        if bytes[at] == 10u8 {
            return at + 1;
        }
        assert(rest.skip(1) =~= bytes@.skip(at + 1));
        at += 1;
    }
    assert(bytes@.skip(at as int) =~= Seq::<u8>::empty());
    at
}

/// The contents that a stream holds for objects, or why it is refused.
pub open spec fn streamed(bytes: Seq<u8>, objects: Seq<Seq<char>>) -> Result<
    Seq<Seq<u8>>,
    Seq<char>,
>
    decreases objects.len(),
{
    if objects.len() == 0 {
        Ok(Seq::empty())
    } else {
        let n = line_length(bytes) as int;
        let rest = bytes.skip(n);
        match announced_size(bytes.take(n), objects[0]) {
            Err(w) => Err(w),
            Ok(size) => if rest.len() < size {
                Err("reading Git cat-file --batch object content"@)
            } else if rest.len() == size {
                Err("reading the newline after a Git cat-file --batch object"@)
            } else if rest[size as int] != 10u8 {
                Err("Git cat-file --batch object content ran past its declared size"@)
            } else {
                before_more(
                    seq![rest.take(size as int)],
                    streamed(rest.skip(size + 1), objects.skip(1)),
                )
            },
        }
    }
}

/// Contents that were read, and more, if there are more.
pub open spec fn before_more(read: Seq<Seq<u8>>, more: Result<Seq<Seq<u8>>, Seq<char>>) -> Result<
    Seq<Seq<u8>>,
    Seq<char>,
> {
    match more {
        Err(w) => Err(w),
        Ok(contents) => Ok(read + contents),
    }
}

/// Whether contents came out as they should.
pub open spec fn holds(
    outcome: Result<Vec<Vec<u8>>, Refusal>,
    owed: Result<Seq<Seq<u8>>, Seq<char>>,
) -> bool {
    match (outcome, owed) {
        (Ok(contents), Ok(wanted)) => byte_strings(contents@) == wanted,
        (Err(refusal), Err(words)) => refusal@ == words,
        _ => false,
    }
}

/// Reads the contents of objects out of a stream.
pub fn stream_blobs(
    output: &[u8],
    objects: &Vec<String>,
) -> (outcome: Result<Vec<Vec<u8>>, Refusal>)
    ensures
        holds(outcome, streamed(output@, texts(objects@))),
{
    let ghost all = texts(objects@);
    let ghost owed = streamed(output@, all);
    let mut contents: Vec<Vec<u8>> = Vec::new();
    let mut at: usize = 0;
    let mut i: usize = 0;
    proof {
        assert(output@.skip(0) =~= output@);
        assert(all.skip(0) =~= all);
        assert(byte_strings(contents@) =~= Seq::<Seq<u8>>::empty());
        if let Ok(whole) = owed {
            assert(Seq::<Seq<u8>>::empty() + whole =~= whole);
        }
    }
    while i < objects.len()
        invariant
            i <= objects@.len(),
            at <= output@.len(),
            all == texts(objects@),
            owed == streamed(output@, all),
            owed == before_more(
                byte_strings(contents@),
                streamed(output@.skip(at as int), all.skip(i as int)),
            ),
        decreases objects@.len() - i,
    {
        let ghost here = output@.skip(at as int);
        let ghost left = all.skip(i as int);
        let end = find_line_end(output, at);
        let ghost n = line_length(here) as int;
        let ghost rest = here.skip(n);
        proof {
            assert(left[0] == objects@[i as int]@);
            assert(rest =~= output@.skip(end as int));
            assert(left.skip(1) =~= all.skip(i + 1));
        }
        let line = vstd::slice::slice_subrange(output, at, end);
        assert(line@ =~= here.take(n));
        let size = batch_header(line, objects[i].as_str())?;
        let available: usize = output.len() - end;
        if available < size {
            return Err(refuse("reading Git cat-file --batch object content"));
        }
        if available == size {
            return Err(refuse("reading the newline after a Git cat-file --batch object"));
        }
        let over: usize = end + size;
        assert(rest[size as int] == output@[over as int]);
        batch_trailer(output[over])?;
        let piece = vstd::slice::slice_subrange(output, end, over);
        let content = crate::text::copy_bytes(piece);
        proof {
            assert(content@ =~= rest.take(size as int));
            assert(rest.skip(size + 1) =~= output@.skip(over + 1));
        }
        let ghost earlier = byte_strings(contents@);
        let ghost piece_view = content@;
        contents.push(content);
        at = over + 1;
        i += 1;
        proof {
            assert(byte_strings(contents@) =~= earlier.push(piece_view));
            let more = streamed(output@.skip(at as int), all.skip(i as int));
            if let Ok(later) = more {
                assert(earlier + (seq![piece_view] + later) =~= byte_strings(contents@) + later);
            }
        }
    }
    proof {
        assert(byte_strings(contents@) + Seq::<Seq<u8>>::empty() =~= byte_strings(contents@));
    }
    Ok(contents)
}

/// Settles a stream, in the order in which its ends are looked at: what was read, what was
/// asked, and how Git ended.
pub fn settle_stream(
    body: Result<Vec<Vec<u8>>, Refusal>,
    written: &Result<(), Refusal>,
    success: bool,
    status: &str,
    complaint: &str,
) -> (outcome: Result<Vec<Vec<u8>>, Refusal>)
    ensures
        match body {
            Err(refusal) => outcome matches Err(same) && same@ == refusal@,
            Ok(contents) => match either(
                missed(*written),
                unless(
                    success,
                    "Git cat-file --batch exited with "@ + status@ + ": "@ + trimmed(complaint@),
                ),
            ) {
                Some(w) => outcome matches Err(refusal) && refusal@ == w,
                None => outcome == Ok::<Vec<Vec<u8>>, Refusal>(contents),
            },
        },
{
    let contents = body?;
    match written {
        Err(refusal) => return Err(Refusal { text: refusal.text.clone() }),
        Ok(()) => {},
    }
    let words = trim(complaint);
    let all = cat4("Git cat-file --batch exited with ", status, ": ", words.as_str());
    check(success, all.as_str())?;
    Ok(contents)
}

/// Settles the one fetch that brings every object of a tree.
pub fn settle_bulk_fetch(
    written: &Result<(), Refusal>,
    success: bool,
    status: &str,
    complaint: &str,
) -> (outcome: Result<(), Refusal>)
    ensures
        judged(
            outcome,
            either(
                missed(*written),
                unless(
                    success,
                    "bulk Git fetch exited with "@ + status@ + ": "@ + trimmed(complaint@),
                ),
            ),
        ),
{
    match written {
        Err(refusal) => return Err(Refusal { text: refusal.text.clone() }),
        Ok(()) => {},
    }
    let words = trim(complaint);
    let all = cat4("bulk Git fetch exited with ", status, ": ", words.as_str());
    check(success, all.as_str())
}

/// Where the reading of a stream stands, as to its next object.
#[derive(Clone, Copy, Debug, PartialEq, Eq, Structural)]
pub enum StreamPlace {
    /// Its header comes next.
    Header,
    /// So much of its content comes next.
    Content { left: usize },
    /// The line end behind its content comes next.
    LineEnd,
}

/// A stream that is read piece by piece, so that no content is held whole.
#[derive(Clone, Debug, PartialEq, Eq)]
pub struct BlobReader {
    pub objects: Vec<String>,
    pub read: usize,
    pub place: StreamPlace,
}

/// What a `BlobReader` holds: the objects that were not read to their end, and where the
/// reading of the first of them stands.
#[verifier::ext_equal]
pub struct BlobReaderView {
    pub objects: Seq<Seq<char>>,
    pub place: StreamPlace,
}

/// What is read next of a stream.
#[derive(Clone, Copy, Debug, PartialEq, Eq, Structural)]
pub enum StreamWant {
    /// Nothing: every object was read.
    Nothing,
    /// A line with its end, or what is left where none ends.
    Line,
    /// So many bytes at the most, and one at least where one is left.
    Bytes { most: usize },
}

/// What is read next of a stream that stands somewhere.
pub open spec fn wanted(v: BlobReaderView) -> StreamWant {
    if v.objects.len() == 0 {
        StreamWant::Nothing
    } else {
        match v.place {
            StreamPlace::Header => StreamWant::Line,
            StreamPlace::Content { left } => StreamWant::Bytes { most: left },
            StreamPlace::LineEnd => StreamWant::Bytes { most: 1 },
        }
    }
}

/// Where a stream stands once a content of some length is to be read.
pub open spec fn before_content(left: usize) -> StreamPlace {
    if left == 0 {
        StreamPlace::LineEnd
    } else {
        StreamPlace::Content { left }
    }
}

/// Where a stream stands once a piece of it was read, or why it is refused. A piece without
/// bytes is the end of the stream.
pub open spec fn taken(v: BlobReaderView, piece: Seq<u8>) -> Result<BlobReaderView, Seq<char>> {
    match v.place {
        StreamPlace::Header => match announced_size(piece, v.objects[0]) {
            Err(w) => Err(w),
            Ok(size) => Ok(BlobReaderView { place: before_content(size), ..v }),
        },
        StreamPlace::Content { left } => if piece.len() == 0 {
            Err("reading Git cat-file --batch object content"@)
        } else {
            Ok(BlobReaderView { place: before_content((left - piece.len()) as usize), ..v })
        },
        StreamPlace::LineEnd => if piece.len() == 0 {
            Err("reading the newline after a Git cat-file --batch object"@)
        } else if piece[0] != 10u8 {
            Err("Git cat-file --batch object content ran past its declared size"@)
        } else {
            Ok(BlobReaderView { objects: v.objects.skip(1), place: StreamPlace::Header })
        },
    }
}

impl BlobReader {
    /// Whether the reader stands somewhere in its stream.
    pub open spec fn stands(&self) -> bool {
        &&& self.read <= self.objects@.len()
        &&& self.read == self.objects@.len() ==> self.place == StreamPlace::Header
        &&& self.place matches StreamPlace::Content { left } ==> left > 0
    }
}

impl View for BlobReader {
    type V = BlobReaderView;

    open spec fn view(&self) -> BlobReaderView {
        BlobReaderView {
            objects: texts(self.objects@).skip(self.read as int),
            place: self.place,
        }
    }
}

impl BlobReader {
    /// A reader of the contents of objects, in their order.
    pub fn new(objects: Vec<String>) -> (reader: Self)
        ensures
            reader.stands(),
            reader@ == (BlobReaderView { objects: texts(objects@), place: StreamPlace::Header }),
    {
        assert(texts(objects@).skip(0) =~= texts(objects@));
        BlobReader { objects, read: 0, place: StreamPlace::Header }
    }

    /// What is read next.
    pub fn wants(&self) -> (want: StreamWant)
        requires
            self.stands(),
        ensures
            want == wanted(self@),
    {
        if self.read >= self.objects.len() {
            return StreamWant::Nothing;
        }
        match self.place {
            StreamPlace::Header => StreamWant::Line,
            StreamPlace::Content { left } => StreamWant::Bytes { most: left },
            StreamPlace::LineEnd => StreamWant::Bytes { most: 1 },
        }
    }

    /// Takes a piece that was read as it was wanted. A reader that refuses one stays where it
    /// is.
    pub fn take(&mut self, piece: &[u8]) -> (outcome: Result<(), Refusal>)
        requires
            old(self).stands(),
            !(wanted(old(self)@) is Nothing),
            wanted(old(self)@) matches StreamWant::Bytes { most } ==> piece@.len() <= most,
        ensures
            final(self).stands(),
            match taken(old(self)@, piece@) {
                Ok(after) => outcome is Ok && final(self)@ == after,
                Err(w) => outcome matches Err(refusal) && refusal@ == w && *final(self) == *old(
                    self,
                ),
            },
    {
        let ghost before = texts(self.objects@);
        let count: usize = self.objects.len();
        assert(self.read < count);
        match self.place {
            StreamPlace::Header => {
                let object = &self.objects[self.read];
                assert(object@ == self@.objects[0]);
                let size = batch_header(piece, object.as_str())?;
                self.place = if size == 0 {
                    StreamPlace::LineEnd
                } else {
                    StreamPlace::Content { left: size }
                };
            },
            StreamPlace::Content { left } => {
                check(piece.len() > 0, "reading Git cat-file --batch object content")?;
                self.place = if left == piece.len() {
                    StreamPlace::LineEnd
                } else {
                    StreamPlace::Content { left: left - piece.len() }
                };
            },
            StreamPlace::LineEnd => {
                check(
                    piece.len() > 0,
                    "reading the newline after a Git cat-file --batch object",
                )?;
                batch_trailer(piece[0])?;
                assert(before.skip(self.read + 1) =~= before.skip(self.read as int).skip(1));
                self.read += 1;
                self.place = StreamPlace::Header;
            },
        }
        Ok(())
    }
}

/// What a stream that stands somewhere still comes to: the rest of the content that is being
/// read, and the contents after it, or why it is refused.
pub open spec fn still_streamed(v: BlobReaderView, bytes: Seq<u8>) -> Result<
    Seq<Seq<u8>>,
    Seq<char>,
> {
    match v.place {
        StreamPlace::Header => streamed(bytes, v.objects),
        StreamPlace::Content { left } => if bytes.len() < left {
            Err("reading Git cat-file --batch object content"@)
        } else {
            with_piece(bytes.take(left as int), line_ended(bytes.skip(left as int), v.objects))
        },
        StreamPlace::LineEnd => line_ended(bytes, v.objects),
    }
}

/// What a stream comes to from the line end of its first object on.
pub open spec fn line_ended(bytes: Seq<u8>, objects: Seq<Seq<char>>) -> Result<
    Seq<Seq<u8>>,
    Seq<char>,
> {
    if bytes.len() == 0 {
        Err("reading the newline after a Git cat-file --batch object"@)
    } else if bytes[0] != 10u8 {
        Err("Git cat-file --batch object content ran past its declared size"@)
    } else {
        before_more(seq![Seq::<u8>::empty()], streamed(bytes.skip(1), objects.skip(1)))
    }
}

/// Contents of which the first has a piece before it.
pub open spec fn with_piece(piece: Seq<u8>, more: Result<Seq<Seq<u8>>, Seq<char>>) -> Result<
    Seq<Seq<u8>>,
    Seq<char>,
> {
    match more {
        Err(w) => Err(w),
        Ok(contents) => Ok(contents.update(0, piece + contents[0])),
    }
}

proof fn lemma_header_taken(v: BlobReaderView, piece: Seq<u8>, rest: Seq<u8>)
    requires
        v.objects.len() > 0,
        v.place == StreamPlace::Header,
        piece == (piece + rest).take(line_length(piece + rest) as int),
    ensures
        still_streamed(v, piece + rest) == match taken(v, piece) {
            Err(w) => Err(w),
            Ok(after) => still_streamed(after, rest),
        },
{
    let bytes = piece + rest;
    lemma_line_length(bytes);
    let n = line_length(bytes) as int;
    assert(bytes.skip(n) =~= rest);
    if let Ok(size) = announced_size(piece, v.objects[0]) {
        let over = rest.skip(size as int);
        if rest.len() > size {
            assert(over[0] == rest[size as int]);
            assert(over.skip(1) =~= rest.skip(size + 1));
            let more = streamed(rest.skip(size + 1), v.objects.skip(1));
            if let Ok(later) = more {
                let here = rest.take(size as int);
                assert(here + Seq::<u8>::empty() =~= here);
                assert((seq![Seq::<u8>::empty()] + later).update(0, here) =~= seq![here] + later);
            }
            if size == 0 {
                assert(rest.take(0) =~= Seq::<u8>::empty());
                assert(over =~= rest);
            }
        } else if rest.len() == size {
            assert(over.len() == 0);
        }
    }
}

proof fn lemma_content_taken(v: BlobReaderView, left: usize, piece: Seq<u8>, rest: Seq<u8>)
    requires
        v.place == (StreamPlace::Content { left }),
        0 < left,
        piece.len() <= left,
        piece.len() == 0 ==> rest.len() == 0,
    ensures
        still_streamed(v, piece + rest) == match taken(v, piece) {
            Err(w) => Err(w),
            Ok(after) => with_piece(piece, still_streamed(after, rest)),
        },
{
    let bytes = piece + rest;
    let more = left - piece.len();
    if piece.len() > 0 && rest.len() >= more {
        assert(bytes.skip(left as int) =~= rest.skip(more));
        assert(bytes.take(left as int) =~= piece + rest.take(more));
        if more == 0 {
            assert(rest.skip(0) =~= rest);
            assert(bytes.take(left as int) =~= piece);
        } else if let Ok(contents) = line_ended(rest.skip(more), v.objects) {
            let first = contents[0];
            let held = rest.take(more) + first;
            assert(piece + held =~= bytes.take(left as int) + first);
            assert(contents.update(0, held).update(0, piece + held) =~= contents.update(
                0,
                piece + held,
            ));
        }
    }
}

/// Reading a stream piece by piece comes to what reading it whole does: the content of each
/// object is the pieces that were taken of it, one after the other, and a piece is refused
/// exactly where, and as, the whole stream is.
pub proof fn a_stream_is_read_in_pieces_as_it_is_whole(
    v: BlobReaderView,
    piece: Seq<u8>,
    rest: Seq<u8>,
)
    requires
        v.objects.len() > 0,
        v.place matches StreamPlace::Content { left } ==> left > 0,
        match wanted(v) {
            StreamWant::Nothing => false,
            StreamWant::Line => piece == (piece + rest).take(line_length(piece + rest) as int),
            StreamWant::Bytes { most } => piece.len() <= most && (piece.len() == 0 ==> rest.len()
                == 0),
        },
    ensures
        still_streamed(v, piece + rest) == match taken(v, piece) {
            Err(w) => Err(w),
            Ok(after) => match v.place {
                StreamPlace::Header => still_streamed(after, rest),
                StreamPlace::Content { .. } => with_piece(piece, still_streamed(after, rest)),
                StreamPlace::LineEnd => before_more(
                    seq![Seq::<u8>::empty()],
                    still_streamed(after, rest),
                ),
            },
        },
{
    match v.place {
        StreamPlace::Header => lemma_header_taken(v, piece, rest),
        StreamPlace::Content { left } => lemma_content_taken(v, left, piece, rest),
        StreamPlace::LineEnd => {
            let bytes = piece + rest;
            if piece.len() > 0 {
                assert(bytes.skip(1) =~= rest);
                assert(bytes[0] == piece[0]);
            }
        },
    }
}

/// Whether a text can name an object in a header: plain characters, and neither a space nor
/// a line end among them.
pub open spec fn names_object(object: Seq<char>) -> bool {
    is_ascii_chars(object) && !object.contains(' ') && !object.contains('\n')
}

/// The header of an object.
pub open spec fn header_text(object: Seq<char>, size: nat) -> Seq<char> {
    object + " blob "@ + decimal(size)
}

/// How Git answers for objects, given what each holds.
pub open spec fn answered(objects: Seq<Seq<char>>, contents: Seq<Seq<u8>>) -> Seq<u8>
    decreases objects.len(),
{
    if objects.len() == 0 {
        Seq::empty()
    } else {
        encode_utf8(header_text(objects[0], contents[0].len())) + seq![10u8] + contents[0]
            + seq![10u8] + answered(objects.skip(1), contents.skip(1))
    }
}

/// A decimal numeral is read as the number that it writes.
pub proof fn lemma_decimal(n: nat)
    ensures
        number(decimal(n), 10) == n,
        decimal(n).len() > 0,
        forall|i: int| 0 <= i < decimal(n).len() ==> digit(#[trigger] decimal(n)[i]),
    decreases n,
{
    let s = decimal(n);
    if n < 10 {
        assert(s.drop_last() =~= Seq::<char>::empty());
        reveal_with_fuel(number, 2);
    } else {
        lemma_decimal(n / 10);
        assert(s.drop_last() =~= decimal(n / 10));
        assert(hex_value(s.last()) == n % 10);
        assert forall|i: int| 0 <= i < s.len() implies digit(#[trigger] s[i]) by {
            if i < s.len() - 1 {
                assert(s[i] == decimal(n / 10)[i]);
            }
        }
    }
}

proof fn lemma_line(text: Seq<u8>, rest: Seq<u8>)
    requires
        !text.contains(10u8),
    ensures
        line_length(text + seq![10u8] + rest) == text.len() + 1,
    decreases text.len(),
{
    let whole = text + seq![10u8] + rest;
    if text.len() > 0 {
        assert(whole[0] == text[0]);
        assert(text.contains(text[0]));
        assert(whole.skip(1) =~= text.skip(1) + seq![10u8] + rest);
        assert forall|i: int| 0 <= i < text.skip(1).len() implies text.skip(1)[i] != 10u8 by {
            assert(text.contains(text[i + 1]));
        }
        lemma_line(text.skip(1), rest);
    } else {
        assert(whole[0] == 10u8);
    }
}

proof fn lemma_header(object: Seq<char>, size: nat)
    requires
        names_object(object),
        size <= usize::MAX,
    ensures
        !encode_utf8(header_text(object, size)).contains(10u8),
        announced_size(encode_utf8(header_text(object, size)).push(10u8), object) == Ok::<
            usize,
            Seq<char>,
        >(size as usize),
{
    let text = header_text(object, size);
    let bytes = encode_utf8(text);
    let digits = decimal(size);
    lemma_decimal(size);
    reveal_strlit(" blob ");
    reveal_strlit("blob");
    reveal_strlit("missing");
    let tail = seq!['b', 'l', 'o', 'b', ' '] + digits;
    assert(text =~= object.push(' ') + tail);
    assert("blob"@ =~= seq!['b', 'l', 'o', 'b']);
    assert(tail =~= "blob"@.push(' ') + digits);
    assert(!digits.contains(' ')) by {
        if digits.contains(' ') {
            let i = choose|i: int| 0 <= i < digits.len() && digits[i] == ' ';
            assert(digit(digits[i]));
        }
    }
    assert(!"blob"@.contains(' '));
    lemma_split_join(object, ' ', tail);
    lemma_split_join("blob"@, ' ', digits);
    lemma_split_single(object, ' ');
    lemma_split_single("blob"@, ' ');
    lemma_split_single(digits, ' ');
    assert(split(text, ' ') =~= seq![object, "blob"@, digits]);
    assert("blob"@.len() != "missing"@.len());
    assert(is_ascii_chars(text)) by {
        assert forall|i: int| 0 <= i < text.len() implies 0 <= (#[trigger] text[i]) as nat
            && (text[i] as nat) < 128 by {
            if i < object.len() {
                assert(text[i] == object[i]);
            } else if i >= object.len() + 6 {
                assert(text[i] == digits[i - object.len() - 6]);
                assert(digit(digits[i - object.len() - 6]));
            } else {
                assert(text[i] == " blob "@[i - object.len()]);
            }
        }
    }
    vstd::utf8::is_ascii_chars_encode_utf8(text);
    vstd::utf8::encode_utf8_valid_utf8(text);
    vstd::utf8::encode_utf8_decode_utf8(text);
    assert(!bytes.contains(10u8)) by {
        if bytes.contains(10u8) {
            let i = choose|i: int| 0 <= i < bytes.len() && bytes[i] == 10u8;
            assert(text[i] as u8 == 10u8);
            if i < object.len() {
                assert(text[i] == object[i]);
                assert(object.contains(object[i]));
            } else if i >= object.len() + 6 {
                assert(digit(digits[i - object.len() - 6]));
            } else {
                assert(text[i] == " blob "@[i - object.len()]);
            }
        }
    }
    assert(bytes.push(10u8).drop_last() =~= bytes);
    assert(unsigned_digits(digits) == digits) by {
        assert(digit(digits[0]));
    }
    assert(crate::scan::all_of(digits, |c: char| digit(c)));
    assert(decimal_number(digits, usize::MAX as int) == Some(size as int));
}

/// What Git answers for objects is read back as what they hold.
pub proof fn an_answer_is_read_back(objects: Seq<Seq<char>>, contents: Seq<Seq<u8>>)
    requires
        objects.len() == contents.len(),
        forall|i: int| 0 <= i < objects.len() ==> names_object(#[trigger] objects[i]),
        forall|i: int| 0 <= i < contents.len() ==> (#[trigger] contents[i]).len() <= usize::MAX,
    ensures
        streamed(answered(objects, contents), objects) == Ok::<Seq<Seq<u8>>, Seq<char>>(contents),
    decreases objects.len(),
{
    if objects.len() == 0 {
        assert(contents =~= Seq::<Seq<u8>>::empty());
    } else {
        let object = objects[0];
        let content = contents[0];
        let later = answered(objects.skip(1), contents.skip(1));
        let header = encode_utf8(header_text(object, content.len()));
        let whole = answered(objects, contents);
        let behind = content + seq![10u8] + later;
        assert(whole =~= header + seq![10u8] + behind);
        assert(names_object(objects[0]));
        assert(contents[0].len() <= usize::MAX);
        lemma_header(object, content.len());
        lemma_line(header, behind);
        let n = line_length(whole) as int;
        assert(whole.take(n) =~= header.push(10u8));
        let rest = whole.skip(n);
        assert(rest =~= behind);
        assert(rest[content.len() as int] == 10u8);
        assert(rest.take(content.len() as int) =~= content);
        assert(rest.skip(content.len() as int + 1) =~= later);
        assert forall|i: int| 0 <= i < objects.skip(1).len() implies names_object(
            #[trigger] objects.skip(1)[i],
        ) by {
            assert(names_object(objects[i + 1]));
        }
        assert forall|i: int| 0 <= i < contents.skip(1).len() implies (#[trigger] contents.skip(
            1,
        )[i]).len() <= usize::MAX by {
            assert(contents[i + 1].len() <= usize::MAX);
        }
        an_answer_is_read_back(objects.skip(1), contents.skip(1));
        assert(seq![content] + contents.skip(1) =~= contents);
    }
}

} // verus!
