//! Where a link of a frozen source leads. Every component on the way that exists is
//! followed for what it is; from the first that does not exist on, the rest is taken as
//! written. Nothing on the way may leave the root.
use vstd::prelude::*;

use crate::paths::{
    absolute,
    below,
    components,
    components_of,
    is_absolute,
    is_below,
    join,
    joined,
    parent,
    parent_of,
};
use crate::text::{refuse, same_text, texts, Refusal};

verus! {

/// What a path is, with its last component not followed.
#[derive(Clone, Copy, Debug, PartialEq, Eq, Structural)]
pub enum EntryKind {
    Link,
    Present,
    Missing,
}

/// A link and the target that it has.
#[derive(Debug, PartialEq, Eq)]
pub struct LinkTarget {
    pub path: String,
    pub target: Result<String, Refusal>,
}

/// A path and what it resolves to.
#[derive(Debug, PartialEq, Eq)]
pub struct CanonicalPath {
    pub path: String,
    pub canonical: Result<String, Refusal>,
}

/// A path and what it is.
#[derive(Debug, PartialEq, Eq)]
pub struct EntryReading {
    pub path: String,
    pub kind: Result<EntryKind, Refusal>,
}

/// What is known so far of the files on the way.
#[derive(Debug, PartialEq, Eq)]
pub struct KnownFiles {
    pub targets: Vec<LinkTarget>,
    pub canonicals: Vec<CanonicalPath>,
    pub entries: Vec<EntryReading>,
}

/// What has to be known to go on.
#[derive(Clone, Debug, PartialEq, Eq)]
pub enum LinkQuestion {
    Target { path: String },
    Canonical { path: String },
    Kind { path: String },
}

/// Where a link leads, why it is refused, or what has to be known to say so.
#[derive(Debug, PartialEq, Eq)]
pub enum Resolution {
    At { path: String },
    Refused { refusal: Refusal },
    Needs { question: LinkQuestion },
}

/// What a `LinkQuestion` asks.
pub enum Question {
    Target(Seq<char>),
    Canonical(Seq<char>),
    Kind(Seq<char>),
}

/// What a `Resolution` says.
pub enum Led {
    At(Seq<char>),
    Refused(Seq<char>),
    Needs(Question),
}

impl View for LinkQuestion {
    type V = Question;

    open spec fn view(&self) -> Question {
        match self {
            LinkQuestion::Target { path } => Question::Target(path@),
            LinkQuestion::Canonical { path } => Question::Canonical(path@),
            LinkQuestion::Kind { path } => Question::Kind(path@),
        }
    }
}

impl View for Resolution {
    type V = Led;

    open spec fn view(&self) -> Led {
        match self {
            Resolution::At { path } => Led::At(path@),
            Resolution::Refused { refusal } => Led::Refused(refusal@),
            Resolution::Needs { question } => Led::Needs(question@),
        }
    }
}

/// What is known of a link's target.
pub open spec fn target_of(list: Seq<LinkTarget>, path: Seq<char>) -> Option<
    Result<Seq<char>, Seq<char>>,
>
    decreases list.len(),
{
    if list.len() == 0 {
        None
    } else if list.last().path@ == path {
        Some(
            match list.last().target {
                Ok(text) => Ok(text@),
                Err(refusal) => Err(refusal@),
            },
        )
    } else {
        target_of(list.drop_last(), path)
    }
}

/// What is known of what a path resolves to.
pub open spec fn canonical_of(list: Seq<CanonicalPath>, path: Seq<char>) -> Option<
    Result<Seq<char>, Seq<char>>,
>
    decreases list.len(),
{
    if list.len() == 0 {
        None
    } else if list.last().path@ == path {
        Some(
            match list.last().canonical {
                Ok(text) => Ok(text@),
                Err(refusal) => Err(refusal@),
            },
        )
    } else {
        canonical_of(list.drop_last(), path)
    }
}

/// What is known of what a path is.
pub open spec fn kind_of(list: Seq<EntryReading>, path: Seq<char>) -> Option<
    Result<EntryKind, Seq<char>>,
>
    decreases list.len(),
{
    if list.len() == 0 {
        None
    } else if list.last().path@ == path {
        Some(
            match list.last().kind {
                Ok(kind) => Ok(kind),
                Err(refusal) => Err(refusal@),
            },
        )
    } else {
        kind_of(list.drop_last(), path)
    }
}

/// How many links a chain may hold.
pub const MAX_HOPS: u32 = 40;

/// The end of a way that leaves its root.
pub open spec fn escaped() -> Led {
    Led::Refused("frozen source symlink escapes its root"@)
}

/// Where a link leads that is the `hops`-th of its chain.
pub open spec fn led(known: KnownFiles, root: Seq<char>, path: Seq<char>, hops: nat) -> Led
    decreases MAX_HOPS - hops, 1int, 0nat,
{
    if hops >= MAX_HOPS {
        Led::Refused("frozen source symlink chain exceeds the hop limit"@)
    } else {
        match target_of(known.targets@, path) {
            None => Led::Needs(Question::Target(path)),
            Some(Err(w)) => Led::Refused(w),
            Some(Ok(target)) => if absolute(target) {
                Led::Refused("frozen source symlink is absolute"@)
            } else {
                match parent(path) {
                    None => Led::Refused("frozen source symlink has no parent"@),
                    Some(above) => match canonical_of(known.canonicals@, above) {
                        None => Led::Needs(Question::Canonical(above)),
                        Some(Err(w)) => Led::Refused(w),
                        Some(Ok(start)) => if below(start, root) {
                            led_on(known, root, start, components(target), hops)
                        } else {
                            escaped()
                        },
                    },
                }
            },
        }
    }
}

/// Where a way leads from a place on, by the components that are left of a target.
pub open spec fn led_on(
    known: KnownFiles,
    root: Seq<char>,
    at: Seq<char>,
    parts: Seq<Seq<char>>,
    hops: nat,
) -> Led
    decreases MAX_HOPS - hops, 0int, parts.len(),
    when hops < MAX_HOPS
{
    if parts.len() == 0 {
        Led::At(at)
    } else {
        match led_by(known, root, at, parts[0], hops) {
            Led::At(next) => if below(next, root) {
                led_on(known, root, next, parts.skip(1), hops)
            } else {
                escaped()
            },
            other => other,
        }
    }
}

/// Where one component leads from a place.
pub open spec fn led_by(
    known: KnownFiles,
    root: Seq<char>,
    at: Seq<char>,
    part: Seq<char>,
    hops: nat,
) -> Led
    decreases MAX_HOPS - hops, 0int, 0nat,
    when hops < MAX_HOPS
{
    if part == "."@ {
        Led::At(at)
    } else if part == ".."@ {
        match parent(at) {
            Some(up) => if below(up, root) {
                Led::At(up)
            } else {
                escaped()
            },
            None => escaped(),
        }
    } else {
        let next = joined(at, part);
        if !below(next, root) {
            escaped()
        } else {
            match kind_of(known.entries@, next) {
                None => Led::Needs(Question::Kind(next)),
                Some(Err(w)) => Led::Refused(w),
                Some(Ok(EntryKind::Link)) => led(known, root, next, hops + 1),
                Some(Ok(EntryKind::Missing)) => Led::At(next),
                Some(Ok(EntryKind::Present)) => match canonical_of(known.canonicals@, next) {
                    None => Led::Needs(Question::Canonical(next)),
                    Some(Err(w)) => Led::Refused(w),
                    Some(Ok(canonical)) => Led::At(canonical),
                },
            }
        }
    }
}

fn find_target<'a>(
    list: &'a Vec<LinkTarget>,
    path: &str,
) -> (found: Option<&'a Result<String, Refusal>>)
    ensures
        match (found, target_of(list@, path@)) {
            (Some(Ok(text)), Some(Ok(owed))) => text@ == owed,
            (Some(Err(refusal)), Some(Err(w))) => refusal@ == w,
            (None, None) => true,
            _ => false,
        },
{
    let mut n: usize = list.len();
    assert(list@.take(n as int) =~= list@);
    while n > 0
        invariant
            n <= list@.len(),
            target_of(list@, path@) == target_of(list@.take(n as int), path@),
        decreases n,
    {
        assert(list@.take(n as int).drop_last() =~= list@.take(n - 1));
        assert(list@.take(n as int).last() == list@[n - 1]);
        if same_text(list[n - 1].path.as_str(), path) {
            return Some(&list[n - 1].target);
        }
        n -= 1;
    }
    None
}

fn find_canonical<'a>(list: &'a Vec<CanonicalPath>, path: &str) -> (found: Option<
    &'a Result<String, Refusal>,
>)
    ensures
        match (found, canonical_of(list@, path@)) {
            (Some(Ok(text)), Some(Ok(owed))) => text@ == owed,
            (Some(Err(refusal)), Some(Err(w))) => refusal@ == w,
            (None, None) => true,
            _ => false,
        },
{
    let mut n: usize = list.len();
    assert(list@.take(n as int) =~= list@);
    while n > 0
        invariant
            n <= list@.len(),
            canonical_of(list@, path@) == canonical_of(list@.take(n as int), path@),
        decreases n,
    {
        assert(list@.take(n as int).drop_last() =~= list@.take(n - 1));
        assert(list@.take(n as int).last() == list@[n - 1]);
        if same_text(list[n - 1].path.as_str(), path) {
            return Some(&list[n - 1].canonical);
        }
        n -= 1;
    }
    None
}

fn find_kind<'a>(list: &'a Vec<EntryReading>, path: &str) -> (found: Option<
    &'a Result<EntryKind, Refusal>,
>)
    ensures
        match (found, kind_of(list@, path@)) {
            (Some(Ok(kind)), Some(Ok(owed))) => *kind == owed,
            (Some(Err(refusal)), Some(Err(w))) => refusal@ == w,
            (None, None) => true,
            _ => false,
        },
{
    let mut n: usize = list.len();
    assert(list@.take(n as int) =~= list@);
    while n > 0
        invariant
            n <= list@.len(),
            kind_of(list@, path@) == kind_of(list@.take(n as int), path@),
        decreases n,
    {
        assert(list@.take(n as int).drop_last() =~= list@.take(n - 1));
        assert(list@.take(n as int).last() == list@[n - 1]);
        if same_text(list[n - 1].path.as_str(), path) {
            return Some(&list[n - 1].kind);
        }
        n -= 1;
    }
    None
}

fn refused_with(refusal: &Refusal) -> (resolution: Resolution)
    ensures
        resolution@ == Led::Refused(refusal@),
{
    Resolution::Refused { refusal: Refusal { text: refusal.text.clone() } }
}

fn refused_in(words: &str) -> (resolution: Resolution)
    ensures
        resolution@ == Led::Refused(words@),
{
    Resolution::Refused { refusal: refuse(words) }
}

/// Where a link leads that is the `hops`-th of its chain, as far as is known.
pub fn resolve_frozen_source_symlink(
    canonical_root: &str,
    path: &str,
    hops: u32,
    known: &KnownFiles,
) -> (resolution: Resolution)
    ensures
        resolution@ == led(*known, canonical_root@, path@, hops as nat),
    decreases (if hops < MAX_HOPS { MAX_HOPS - hops } else { 0 }), 1int, 0nat,
{
    if hops >= MAX_HOPS {
        return refused_in("frozen source symlink chain exceeds the hop limit");
    }
    let target = match find_target(&known.targets, path) {
        None => return Resolution::Needs {
            question: LinkQuestion::Target { path: path.to_owned() },
        },
        Some(Err(refusal)) => return refused_with(refusal),
        Some(Ok(target)) => target,
    };
    if is_absolute(target.as_str()) {
        return refused_in("frozen source symlink is absolute");
    }
    let above = match parent_of(path) {
        None => return refused_in("frozen source symlink has no parent"),
        Some(above) => above,
    };
    let start = match find_canonical(&known.canonicals, above.as_str()) {
        None => return Resolution::Needs { question: LinkQuestion::Canonical { path: above } },
        Some(Err(refusal)) => return refused_with(refusal),
        Some(Ok(start)) => start,
    };
    if !is_below(start.as_str(), canonical_root) {
        return refused_in("frozen source symlink escapes its root");
    }
    let parts = components_of(target.as_str());
    let mut at: String = start.clone();
    let mut i: usize = 0;
    let ghost all = texts(parts@);
    assert(all.skip(0) =~= all);
    while i < parts.len()
        invariant
            i <= parts@.len(),
            hops < MAX_HOPS,
            all == texts(parts@),
            led(*known, canonical_root@, path@, hops as nat) == led_on(
                *known,
                canonical_root@,
                at@,
                all.skip(i as int),
                hops as nat,
            ),
        decreases (if hops < MAX_HOPS { MAX_HOPS - hops } else { 0 }), 0int, parts@.len() - i,
    {
        proof {
            assert(all.skip(i as int)[0] == parts@[i as int]@);
            assert(all.skip(i as int).skip(1) =~= all.skip(i + 1));
        }
        let next = match resolve_component(
            canonical_root,
            at.as_str(),
            parts[i].as_str(),
            hops,
            known,
        ) {
            Resolution::At { path } => path,
            Resolution::Refused { refusal } => return Resolution::Refused { refusal },
            Resolution::Needs { question } => return Resolution::Needs { question },
        };
        if !is_below(next.as_str(), canonical_root) {
            return refused_in("frozen source symlink escapes its root");
        }
        at = next;
        i += 1;
    }
    assert(all.skip(i as int).len() == 0);
    Resolution::At { path: at }
}

fn resolve_component(
    canonical_root: &str,
    at: &str,
    part: &str,
    hops: u32,
    known: &KnownFiles,
) -> (resolution: Resolution)
    requires
        hops < MAX_HOPS,
    ensures
        resolution@ == led_by(*known, canonical_root@, at@, part@, hops as nat),
    decreases (if hops < MAX_HOPS { MAX_HOPS - hops } else { 0 }), 0int, 0nat,
{
    if same_text(part, ".") {
        return Resolution::At { path: at.to_owned() };
    }
    if same_text(part, "..") {
        return match parent_of(at) {
            Some(up) => if is_below(up.as_str(), canonical_root) {
                Resolution::At { path: up }
            } else {
                refused_in("frozen source symlink escapes its root")
            },
            None => refused_in("frozen source symlink escapes its root"),
        };
    }
    let next = join(at, part);
    if !is_below(next.as_str(), canonical_root) {
        return refused_in("frozen source symlink escapes its root");
    }
    match find_kind(&known.entries, next.as_str()) {
        None => Resolution::Needs { question: LinkQuestion::Kind { path: next } },
        Some(Err(refusal)) => refused_with(refusal),
        Some(Ok(EntryKind::Link)) => resolve_frozen_source_symlink(
            canonical_root,
            next.as_str(),
            hops + 1,
            known,
        ),
        Some(Ok(EntryKind::Missing)) => Resolution::At { path: next },
        Some(Ok(EntryKind::Present)) => match find_canonical(&known.canonicals, next.as_str()) {
            None => Resolution::Needs { question: LinkQuestion::Canonical { path: next } },
            Some(Err(refusal)) => refused_with(refusal),
            Some(Ok(canonical)) => Resolution::At { path: canonical.clone() },
        },
    }
}

proof fn lemma_led_on_within(
    known: KnownFiles,
    root: Seq<char>,
    at: Seq<char>,
    parts: Seq<Seq<char>>,
    hops: nat,
)
    requires
        below(at, root),
        hops < MAX_HOPS,
    ensures
        led_on(known, root, at, parts, hops) matches Led::At(end) ==> below(end, root),
    decreases parts.len(),
{
    if parts.len() > 0 {
        match led_by(known, root, at, parts[0], hops) {
            Led::At(next) => {
                if below(next, root) {
                    lemma_led_on_within(known, root, next, parts.skip(1), hops);
                }
            },
            _ => {},
        }
    }
}

/// A link of a frozen source that resolves, resolves within its root, whatever the files
/// on the way are.
pub proof fn a_resolved_link_stays_within_its_root(
    known: KnownFiles,
    root: Seq<char>,
    path: Seq<char>,
)
    ensures
        led(known, root, path, 0) matches Led::At(end) ==> below(end, root),
{
    match target_of(known.targets@, path) {
        Some(Ok(target)) => match parent(path) {
            Some(above) => match canonical_of(known.canonicals@, above) {
                Some(Ok(start)) => {
                    if below(start, root) {
                        lemma_led_on_within(known, root, start, components(target), 0);
                    }
                },
                _ => {},
            },
            None => {},
        },
        _ => {},
    }
}

/// Whether a question is answered by what is known.
pub open spec fn answered(known: KnownFiles, question: Question) -> bool {
    match question {
        Question::Target(path) => target_of(known.targets@, path) is Some,
        Question::Canonical(path) => canonical_of(known.canonicals@, path) is Some,
        Question::Kind(path) => kind_of(known.entries@, path) is Some,
    }
}

proof fn lemma_led_asks(known: KnownFiles, root: Seq<char>, path: Seq<char>, hops: nat)
    ensures
        led(known, root, path, hops) matches Led::Needs(q) ==> !answered(known, q),
    decreases (if hops < MAX_HOPS { MAX_HOPS - hops } else { 0 }), 1int, 0nat,
{
    if hops < MAX_HOPS {
        match target_of(known.targets@, path) {
            Some(Ok(target)) => match parent(path) {
                Some(above) => match canonical_of(known.canonicals@, above) {
                    Some(Ok(start)) => {
                        lemma_led_on_asks(known, root, start, components(target), hops);
                    },
                    _ => {},
                },
                None => {},
            },
            _ => {},
        }
    }
}

proof fn lemma_led_on_asks(
    known: KnownFiles,
    root: Seq<char>,
    at: Seq<char>,
    parts: Seq<Seq<char>>,
    hops: nat,
)
    requires
        hops < MAX_HOPS,
    ensures
        led_on(known, root, at, parts, hops) matches Led::Needs(q) ==> !answered(known, q),
    decreases (if hops < MAX_HOPS { MAX_HOPS - hops } else { 0 }), 0int, parts.len(),
{
    if parts.len() > 0 {
        let part = parts[0];
        let next = joined(at, part);
        if part != "."@ && part != ".."@ && below(next, root) && kind_of(known.entries@, next)
            == Some(Ok::<EntryKind, Seq<char>>(EntryKind::Link)) {
            lemma_led_asks(known, root, next, hops + 1);
        }
        match led_by(known, root, at, part, hops) {
            Led::At(on) => {
                lemma_led_on_asks(known, root, on, parts.skip(1), hops);
            },
            _ => {},
        }
    }
}

/// What is asked on the way was not known before, so that every answer brings the way on.
pub proof fn a_question_is_never_asked_twice(known: KnownFiles, root: Seq<char>, path: Seq<char>)
    ensures
        led(known, root, path, 0) matches Led::Needs(q) ==> !answered(known, q),
{
    lemma_led_asks(known, root, path, 0);
}

} // verus!
