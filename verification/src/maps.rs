//! Named texts in the order of their names.
use vstd::prelude::*;

use crate::scan::{
    before,
    lemma_before_irreflexive,
    lemma_before_total,
    lemma_before_transitive,
    text_before,
};
use crate::text::{same_text, texts};

verus! {

/// A name and its text, as characters.
pub type Pair = (Seq<char>, Seq<char>);

/// The characters of several names and their texts.
pub open spec fn pairs_of(list: Seq<(String, String)>) -> Seq<Pair> {
    Seq::new(list.len(), |i: int| (list[i].0@, list[i].1@))
}

/// Whether the names stand in order, none of them twice.
pub open spec fn sorted(pairs: Seq<Pair>) -> bool {
    forall|i: int, j: int|
        0 <= i < j < pairs.len() ==> before((#[trigger] pairs[i]).0, (#[trigger] pairs[j]).0)
}

/// Whether a name is there.
pub open spec fn is_named(pairs: Seq<Pair>, name: Seq<char>) -> bool {
    exists|i: int| 0 <= i < pairs.len() && (#[trigger] pairs[i]).0 == name
}

/// Where a name stands.
pub open spec fn place_of(pairs: Seq<Pair>, name: Seq<char>) -> int {
    choose|i: int| 0 <= i < pairs.len() && (#[trigger] pairs[i]).0 == name
}

/// The text of a name, if the name is there.
pub open spec fn value_of(pairs: Seq<Pair>, name: Seq<char>) -> Option<Seq<char>> {
    if is_named(pairs, name) {
        Some(pairs[place_of(pairs, name)].1)
    } else {
        None
    }
}

/// The names, in order.
pub open spec fn names_of(pairs: Seq<Pair>) -> Seq<Seq<char>> {
    Seq::new(pairs.len(), |i: int| pairs[i].0)
}

/// The pairs with a name put in its place; the text of a name that is there already is
/// replaced.
pub open spec fn with(pairs: Seq<Pair>, name: Seq<char>, value: Seq<char>) -> Seq<Pair>
    decreases pairs.len(),
{
    if pairs.len() == 0 || before(pairs.last().0, name) {
        pairs.push((name, value))
    } else if pairs.last().0 == name {
        pairs.drop_last().push((name, value))
    } else {
        with(pairs.drop_last(), name, value).push(pairs.last())
    }
}

/// Putting a name in its place keeps the order, adds no other name and loses none.
pub proof fn lemma_with(pairs: Seq<Pair>, name: Seq<char>, value: Seq<char>)
    requires
        sorted(pairs),
    ensures
        sorted(with(pairs, name, value)),
        forall|k: int|
            0 <= k < with(pairs, name, value).len() ==> {
                let p = #[trigger] with(pairs, name, value)[k];
                p == (name, value) || (p.0 != name && pairs.contains(p))
            },
        with(pairs, name, value).contains((name, value)),
        forall|k: int|
            0 <= k < pairs.len() && (#[trigger] pairs[k]).0 != name ==> with(
                pairs,
                name,
                value,
            ).contains(pairs[k]),
    decreases pairs.len(),
{
    let out = with(pairs, name, value);
    if pairs.len() == 0 || before(pairs.last().0, name) {
        assert(out[out.len() - 1] == (name, value));
        assert forall|i: int, j: int| 0 <= i < j < out.len() implies before(
            (#[trigger] out[i]).0,
            (#[trigger] out[j]).0,
        ) by {
            if j == out.len() - 1 {
                if i < pairs.len() - 1 {
                    lemma_before_transitive(pairs[i].0, pairs.last().0, name);
                }
            }
        }
        assert forall|k: int| 0 <= k < out.len() implies {
            let p = #[trigger] out[k];
            p == (name, value) || (p.0 != name && pairs.contains(p))
        } by {
            if k < pairs.len() {
                assert(out[k] == pairs[k]);
                assert(pairs.contains(pairs[k]));
                if k < pairs.len() - 1 {
                    lemma_before_transitive(pairs[k].0, pairs.last().0, name);
                }
                lemma_before_irreflexive(name);
            }
        }
        assert forall|k: int| 0 <= k < pairs.len() && (#[trigger] pairs[k]).0
            != name implies out.contains(pairs[k]) by {
            assert(out[k] == pairs[k]);
        }
    } else if pairs.last().0 == name {
        assert(out[out.len() - 1] == (name, value));
        assert forall|k: int| 0 <= k < out.len() implies {
            let p = #[trigger] out[k];
            p == (name, value) || (p.0 != name && pairs.contains(p))
        } by {
            if k < pairs.len() - 1 {
                assert(out[k] == pairs[k]);
                assert(pairs.contains(pairs[k]));
                assert(before(pairs[k].0, pairs[pairs.len() - 1].0));
                lemma_before_irreflexive(name);
            }
        }
        assert forall|k: int| 0 <= k < pairs.len() && (#[trigger] pairs[k]).0
            != name implies out.contains(pairs[k]) by {
            assert(out[k] == pairs[k]);
        }
    } else {
        let last = pairs.last();
        let rest = pairs.drop_last();
        lemma_with(rest, name, value);
        lemma_before_total(last.0, name);
        let inner = with(rest, name, value);
        assert forall|k: int| 0 <= k < inner.len() implies before(
            (#[trigger] inner[k]).0,
            last.0,
        ) by {
            if inner[k] != (name, value) {
                let m = choose|m: int| 0 <= m < rest.len() && rest[m] == inner[k];
                assert(before(pairs[m].0, pairs[pairs.len() - 1].0));
            }
        }
        assert forall|k: int| 0 <= k < out.len() implies {
            let p = #[trigger] out[k];
            p == (name, value) || (p.0 != name && pairs.contains(p))
        } by {
            if k < inner.len() {
                assert(out[k] == inner[k]);
                if inner[k] != (name, value) {
                    let m = choose|m: int| 0 <= m < rest.len() && rest[m] == inner[k];
                    assert(pairs[m] == inner[k]);
                }
            } else {
                assert(pairs[pairs.len() - 1] == last);
            }
        }
        let at = choose|k: int| 0 <= k < inner.len() && inner[k] == (name, value);
        assert(out[at] == (name, value));
        assert forall|k: int| 0 <= k < pairs.len() && (#[trigger] pairs[k]).0
            != name implies out.contains(pairs[k]) by {
            if k < rest.len() {
                assert(rest[k] == pairs[k]);
                let m = choose|m: int| 0 <= m < inner.len() && inner[m] == rest[k];
                assert(out[m] == pairs[k]);
            } else {
                assert(out[out.len() - 1] == last);
            }
        }
    }
}

/// In order, a name has one place.
pub proof fn lemma_one_place(pairs: Seq<Pair>, i: int, j: int)
    requires
        sorted(pairs),
        0 <= i < pairs.len(),
        0 <= j < pairs.len(),
        pairs[i].0 == pairs[j].0,
    ensures
        i == j,
{
    lemma_before_irreflexive(pairs[i].0);
    if i < j {
        assert(before(pairs[i].0, pairs[j].0));
    } else if j < i {
        assert(before(pairs[j].0, pairs[i].0));
    }
}

/// In order, the text of a name is the one that stands beside it.
pub proof fn lemma_value_at(pairs: Seq<Pair>, i: int)
    requires
        sorted(pairs),
        0 <= i < pairs.len(),
    ensures
        value_of(pairs, pairs[i].0) == Some(pairs[i].1),
{
    let name = pairs[i].0;
    assert(is_named(pairs, name));
    let c = place_of(pairs, name);
    assert(0 <= c < pairs.len() && pairs[c].0 == name);
    lemma_one_place(pairs, i, c);
}

/// After a name is put in its place it is there with its text, and every other name is
/// there exactly as before.
pub proof fn lemma_with_lookup(
    pairs: Seq<Pair>,
    name: Seq<char>,
    value: Seq<char>,
    other: Seq<char>,
)
    requires
        sorted(pairs),
    ensures
        value_of(with(pairs, name, value), name) == Some(value),
        other != name ==> value_of(with(pairs, name, value), other) == value_of(pairs, other),
        is_named(with(pairs, name, value), other) <==> other == name || is_named(pairs, other),
{
    let out = with(pairs, name, value);
    lemma_with(pairs, name, value);
    let at = choose|k: int| 0 <= k < out.len() && out[k] == (name, value);
    assert(out[at].0 == name);
    lemma_value_at(out, at);
    if other != name {
        if is_named(pairs, other) {
            let k = choose|k: int| 0 <= k < pairs.len() && (#[trigger] pairs[k]).0 == other;
            assert(out.contains(pairs[k]));
            let m = choose|m: int| 0 <= m < out.len() && out[m] == pairs[k];
            assert(out[m].0 == other);
            lemma_value_at(pairs, k);
            lemma_value_at(out, m);
        }
        if is_named(out, other) {
            let c = choose|i: int| 0 <= i < out.len() && (#[trigger] out[i]).0 == other;
            let p = out[c];
            assert(pairs.contains(p));
            let m = choose|m: int| 0 <= m < pairs.len() && pairs[m] == p;
            assert(pairs[m].0 == other);
        }
    }
}

/// Named texts, each name once, in the order of their names.
#[derive(Debug, PartialEq, Eq)]
pub struct TextMap {
    pairs: Vec<(String, String)>,
}

impl View for TextMap {
    type V = Seq<Pair>;

    closed spec fn view(&self) -> Seq<Pair> {
        pairs_of(self.pairs@)
    }
}

impl Clone for TextMap {
    fn clone(&self) -> (copy: Self)
        ensures
            copy@ == self@,
    {
        self.copy()
    }
}

impl TextMap {
    #[verifier::type_invariant]
    spec fn in_order(self) -> bool {
        sorted(pairs_of(self.pairs@))
    }

    /// No names.
    pub fn empty() -> (map: Self)
        ensures
            map@ == Seq::<Pair>::empty(),
    {
        let map = TextMap { pairs: Vec::new() };
        assert(map@ =~= Seq::<Pair>::empty());
        map
    }

    /// The map with a name put in its place.
    pub fn inserted(&self, name: &str, value: &str) -> (map: Self)
        ensures
            map@ == with(self@, name@, value@),
            sorted(self@),
            sorted(map@),
    {
        proof {
            use_type_invariant(self);
            lemma_with(self@, name@, value@);
        }
        TextMap { pairs: placed(&self.pairs, name, value) }
    }

    /// Whether a name is there.
    pub fn contains(&self, name: &str) -> (found: bool)
        ensures
            found == is_named(self@, name@),
    {
        self.place(name).is_some()
    }

    fn place(&self, name: &str) -> (at: Option<usize>)
        ensures
            match at {
                Some(i) => i < self.pairs@.len() && self.pairs@[i as int].0@ == name@,
                None => !is_named(self@, name@),
            },
            at is Some ==> is_named(self@, name@),
    {
        let mut i: usize = 0;
        while i < self.pairs.len()
            invariant
                i <= self.pairs@.len(),
                forall|j: int| 0 <= j < i ==> self.pairs@[j].0@ != name@,
            decreases self.pairs@.len() - i,
        {
            if same_text(self.pairs[i].0.as_str(), name) {
                assert(self@[i as int].0 == name@);
                return Some(i);
            }
            i += 1;
        }
        None
    }

    /// The one place of a name.
    pub fn find(&self, name: &str) -> (at: Option<usize>)
        ensures
            match at {
                Some(i) => i < self@.len() && self@[i as int].0 == name@ && is_named(self@, name@)
                    && forall|j: int|
                    0 <= j < self@.len() && (#[trigger] self@[j]).0 == name@ ==> j == i,
                None => !is_named(self@, name@),
            },
    {
        match self.place(name) {
            None => None,
            Some(i) => {
                proof {
                    use_type_invariant(self);
                    assert(self@[i as int].0 == name@);
                    assert forall|j: int|
                        0 <= j < self@.len() && (#[trigger] self@[j]).0 == name@ implies j == i by {
                        lemma_one_place(self@, i as int, j);
                    }
                }
                Some(i)
            },
        }
    }

    /// The text of a name.
    pub fn get(&self, name: &str) -> (value: Option<String>)
        ensures
            crate::text::text_option(value) == value_of(self@, name@),
    {
        match self.place(name) {
            None => None,
            Some(i) => {
                proof {
                    use_type_invariant(self);
                    assert(self@[i as int].0 == name@);
                    lemma_value_at(self@, i as int);
                }
                Some(self.pairs[i].1.clone())
            },
        }
    }

    /// How many names there are.
    pub fn len(&self) -> (n: usize)
        ensures
            n == self@.len(),
    {
        self.pairs.len()
    }

    /// The name at a place.
    pub fn name_at(&self, i: usize) -> (name: &str)
        requires
            i < self@.len(),
        ensures
            name@ == self@[i as int].0,
    {
        self.pairs[i].0.as_str()
    }

    /// The text at a place.
    pub fn value_at(&self, i: usize) -> (value: &str)
        requires
            i < self@.len(),
        ensures
            value@ == self@[i as int].1,
    {
        self.pairs[i].1.as_str()
    }

    /// The names, in order.
    pub fn names(&self) -> (names: Vec<String>)
        ensures
            texts(names@) == names_of(self@),
            sorted(self@),
    {
        proof {
            use_type_invariant(self);
        }
        let mut names: Vec<String> = Vec::new();
        let mut i: usize = 0;
        while i < self.pairs.len()
            invariant
                i <= self.pairs@.len(),
                names@.len() == i,
                forall|j: int| 0 <= j < i ==> (#[trigger] names@[j])@ == self.pairs@[j].0@,
            decreases self.pairs@.len() - i,
        {
            names.push(self.pairs[i].0.clone());
            i += 1;
        }
        assert(texts(names@) =~= names_of(self@));
        names
    }

    /// The names and their texts, in order.
    pub fn to_pairs(&self) -> (pairs: Vec<(String, String)>)
        ensures
            pairs_of(pairs@) == self@,
            sorted(self@),
    {
        proof {
            use_type_invariant(self);
        }
        let mut pairs: Vec<(String, String)> = Vec::new();
        push_pairs(&mut pairs, &self.pairs, 0, self.pairs.len());
        assert(pairs_of(pairs@) =~= self@);
        pairs
    }

    /// A copy of the map.
    pub fn copy(&self) -> (copy: Self)
        ensures
            copy@ == self@,
    {
        proof {
            use_type_invariant(self);
        }
        let pairs = self.to_pairs();
        TextMap { pairs }
    }

    /// Whether two maps hold the same names and texts.
    pub fn same(&self, other: &Self) -> (same: bool)
        ensures
            same == (self@ == other@),
    {
        if self.pairs.len() != other.pairs.len() {
            assert(self@.len() != other@.len());
            return false;
        }
        let mut i: usize = 0;
        while i < self.pairs.len()
            invariant
                i <= self.pairs@.len(),
                self.pairs@.len() == other.pairs@.len(),
                forall|j: int|
                    0 <= j < i ==> self.pairs@[j].0@ == other.pairs@[j].0@ && self.pairs@[j].1@
                        == other.pairs@[j].1@,
            decreases self.pairs@.len() - i,
        {
            if !same_text(self.pairs[i].0.as_str(), other.pairs[i].0.as_str()) || !same_text(
                self.pairs[i].1.as_str(),
                other.pairs[i].1.as_str(),
            ) {
                assert(self@[i as int] != other@[i as int]);
                return false;
            }
            i += 1;
        }
        assert(self@ =~= other@);
        true
    }
}

proof fn lemma_with_walks(pairs: Seq<Pair>, name: Seq<char>, value: Seq<char>)
    requires
        pairs.len() > 0,
        before(name, pairs.last().0),
    ensures
        with(pairs, name, value) == with(pairs.drop_last(), name, value).push(pairs.last()),
{
    lemma_before_irreflexive(name);
    if before(pairs.last().0, name) {
        lemma_before_transitive(name, pairs.last().0, name);
    }
}

proof fn lemma_with_stops(pairs: Seq<Pair>, name: Seq<char>, value: Seq<char>)
    requires
        pairs.len() > 0 ==> !before(name, pairs.last().0),
    ensures
        pairs.len() > 0 && pairs.last().0 == name ==> with(pairs, name, value)
            == pairs.drop_last().push((name, value)),
        !(pairs.len() > 0 && pairs.last().0 == name) ==> with(pairs, name, value) == pairs.push(
            (name, value),
        ),
{
    if pairs.len() > 0 {
        lemma_before_total(pairs.last().0, name);
        lemma_before_irreflexive(name);
    }
}

/// How far from the end a name belongs: behind every name that does not stand after it.
fn place_for(
    pairs: &Vec<(String, String)>,
    name: &str,
    Ghost(value): Ghost<Seq<char>>,
) -> (at: usize)
    ensures
        at <= pairs@.len(),
        at > 0 ==> !before(name@, pairs@[at - 1].0@),
        with(pairs_of(pairs@), name@, value) == with(
            pairs_of(pairs@).take(at as int),
            name@,
            value,
        ) + pairs_of(pairs@).skip(at as int),
{
    let ghost all = pairs_of(pairs@);
    let mut at: usize = pairs.len();
    proof {
        assert(all.take(at as int) =~= all);
        assert(with(all, name@, value) + all.skip(at as int) =~= with(all, name@, value));
    }
    while at > 0 && text_before(name, pairs[at - 1].0.as_str())
        invariant
            at <= pairs@.len(),
            all == pairs_of(pairs@),
            with(all, name@, value) == with(
                all.take(at as int),
                name@,
                value,
            ) + all.skip(at as int),
        decreases at,
    {
        proof {
            let head = all.take(at as int);
            assert(head.last() == all[at - 1]);
            assert(head.drop_last() =~= all.take(at - 1));
            lemma_with_walks(head, name@, value);
            assert(with(all.take(at - 1), name@, value).push(all[at - 1]) + all.skip(at as int)
                =~= with(all.take(at - 1), name@, value) + all.skip(at - 1));
        }
        at -= 1;
    }
    at
}

/// A copy of the pairs from one place up to another, behind others.
fn push_pairs(
    out: &mut Vec<(String, String)>,
    pairs: &Vec<(String, String)>,
    from: usize,
    to: usize,
)
    requires
        from <= to <= pairs@.len(),
    ensures
        pairs_of(final(out)@) == pairs_of(old(out)@) + pairs_of(pairs@).subrange(
            from as int,
            to as int,
        ),
{
    let ghost all = pairs_of(pairs@);
    let ghost start = pairs_of(out@);
    let mut i: usize = from;
    assert(start + all.subrange(from as int, from as int) =~= start);
    while i < to
        invariant
            from <= i <= to <= pairs@.len(),
            all == pairs_of(pairs@),
            pairs_of(out@) == start + all.subrange(from as int, i as int),
        decreases to - i,
    {
        let ghost earlier = pairs_of(out@);
        out.push((pairs[i].0.clone(), pairs[i].1.clone()));
        i += 1;
        assert(pairs_of(out@) =~= earlier.push(all[i - 1]));
        assert(earlier.push(all[i - 1]) =~= start + all.subrange(from as int, i as int));
    }
}

/// The pairs with a name put in its place.
fn placed(pairs: &Vec<(String, String)>, name: &str, value: &str) -> (out: Vec<(String, String)>)
    ensures
        pairs_of(out@) == with(pairs_of(pairs@), name@, value@),
{
    let ghost all = pairs_of(pairs@);
    let at: usize = place_for(pairs, name, Ghost(value@));
    let replaced = at > 0 && same_text(pairs[at - 1].0.as_str(), name);
    let head: usize = if replaced {
        at - 1
    } else {
        at
    };
    proof {
        lemma_with_stops(all.take(at as int), name@, value@);
        if at > 0 {
            assert(all.take(at as int).last() == all[at - 1]);
            assert(all.take(at as int).drop_last() =~= all.take(at - 1));
        }
    }
    let mut out: Vec<(String, String)> = Vec::new();
    push_pairs(&mut out, pairs, 0, head);
    assert(pairs_of(out@) =~= all.take(head as int));
    out.push((name.to_owned(), value.to_owned()));
    assert(pairs_of(out@) =~= all.take(head as int).push((name@, value@)));
    push_pairs(&mut out, pairs, at, pairs.len());
    assert(all.subrange(at as int, all.len() as int) =~= all.skip(at as int));
    out
}

/// Several pairs put in their places one after another.
pub open spec fn collected(pairs: Seq<Pair>) -> Seq<Pair>
    decreases pairs.len(),
{
    if pairs.len() == 0 {
        Seq::empty()
    } else {
        with(collected(pairs.drop_last()), pairs.last().0, pairs.last().1)
    }
}

/// The map of several pairs; of a name that is given twice the later text counts.
pub fn collect(pairs: &[(String, String)]) -> (map: TextMap)
    ensures
        map@ == collected(pairs_of(pairs@)),
{
    let mut map = TextMap::empty();
    let ghost all = pairs_of(pairs@);
    let mut i: usize = 0;
    assert(all.take(0) =~= Seq::<Pair>::empty());
    while i < pairs.len()
        invariant
            i <= pairs@.len(),
            all == pairs_of(pairs@),
            map@ == collected(all.take(i as int)),
        decreases pairs@.len() - i,
    {
        map = map.inserted(pairs[i].0.as_str(), pairs[i].1.as_str());
        i += 1;
        assert(all.take(i as int).drop_last() =~= all.take(i - 1));
        assert(all.take(i as int).last() == all[i - 1]);
    }
    assert(all.take(i as int) =~= all);
    map
}

} // verus!
