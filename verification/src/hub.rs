//! Idunn's side of the sessions with host actuators: which hosts are attached, which request
//! waits for which report, and what no session may bring in.
use vstd::prelude::*;

use crate::maps::{is_named, lemma_with_lookup, names_of, sorted, with, Pair, TextMap};
use crate::protocol::{
    frame_refusal, session_after, HostActuatorEnvelope, HostActuatorReport, HostSessionView,
    HOST_ACTUATOR_CHANNEL,
};
use crate::scan::{before, decimal, decimal_of, trim, trimmed};
use crate::text::{
    cat2, cat3, cat4, check, copy_bytes, either, judged, push_text, quote, quoted, refuse,
    same_bytes, same_text, texts, unless, Refusal,
};
use crate::watch::missed;

verus! {

/// The nonce of a new session: as long as a welcome must carry, and random but for the bits
/// that mark a random identifier.
pub fn mint_nonce() -> (nonce: Vec<u8>)
    ensures
        nonce@.len() == 16,
        nonce@[6] & 0xf0 == 0x40,
        nonce@[8] & 0xc0 == 0x80,
{
    crate::fresh::random_identifier()
}

/// One session of a socket: whence it comes, and which one from there it is.
#[derive(Clone, Debug, PartialEq, Eq)]
pub struct HubSession {
    pub remote_addr: String,
    pub generation: u64,
}

/// What a `HubSession` holds.
#[verifier::ext_equal]
pub struct HubSessionView {
    pub remote_addr: Seq<char>,
    pub generation: u64,
}

impl View for HubSession {
    type V = HubSessionView;

    open spec fn view(&self) -> HubSessionView {
        HubSessionView { remote_addr: self.remote_addr@, generation: self.generation }
    }
}

impl HubSession {
    /// Whether two sessions are one.
    pub fn same(&self, other: &HubSession) -> (same: bool)
        ensures
            same == (self@ == other@),
    {
        same_text(self.remote_addr.as_str(), other.remote_addr.as_str()) && self.generation
            == other.generation
    }

    /// A copy of the session.
    pub fn copy(&self) -> (copy: Self)
        ensures
            copy@ == self@,
    {
        HubSession { remote_addr: self.remote_addr.clone(), generation: self.generation }
    }
}

/// An attached host: the session that it authenticated on, the nonce of it, the number of
/// the next request, and the reports that were not asked for yet.
#[derive(Debug, PartialEq, Eq)]
struct AttachedHost {
    host: String,
    session: HubSession,
    nonce: Vec<u8>,
    next_sequence: u64,
    reports: Vec<(u64, HostActuatorReport)>,
}

/// What is known of an attached host.
#[verifier::ext_equal]
pub struct Attachment {
    pub session: HubSessionView,
    pub nonce: Seq<u8>,
    pub next_sequence: u64,
    pub reports: Seq<(u64, HostActuatorReport)>,
}

impl AttachedHost {
    spec fn attachment(&self) -> Attachment {
        Attachment {
            session: self.session@,
            nonce: self.nonce@,
            next_sequence: self.next_sequence,
            reports: self.reports@,
        }
    }
}

spec fn has_place(list: Seq<AttachedHost>, host: Seq<char>, i: int) -> bool {
    0 <= i < list.len() && list[i].host@ == host
}

spec fn is_listed(list: Seq<AttachedHost>, host: Seq<char>) -> bool {
    exists|i: int| #[trigger] has_place(list, host, i)
}

spec fn place(list: Seq<AttachedHost>, host: Seq<char>) -> int {
    choose|i: int| #[trigger] has_place(list, host, i)
}

spec fn distinct(list: Seq<AttachedHost>) -> bool {
    forall|i: int, j: int|
        0 <= i < list.len() && 0 <= j < list.len() && (#[trigger] list[i]).host@ == (
        #[trigger] list[j]).host@ ==> i == j
}

spec fn attachments(list: Seq<AttachedHost>) -> Map<Seq<char>, Attachment> {
    Map::new(
        |host: Seq<char>| is_listed(list, host),
        |host: Seq<char>| list[place(list, host)].attachment(),
    )
}

proof fn lemma_at(list: Seq<AttachedHost>, i: int)
    requires
        distinct(list),
        0 <= i < list.len(),
    ensures
        attachments(list).contains_key(list[i].host@),
        attachments(list)[list[i].host@] == list[i].attachment(),
        place(list, list[i].host@) == i,
{
    assert(has_place(list, list[i].host@, i));
    let k = place(list, list[i].host@);
    assert(has_place(list, list[i].host@, k));
    assert(list[k].host@ == list[i].host@);
}

proof fn lemma_set(list: Seq<AttachedHost>, i: int, attached: AttachedHost)
    requires
        distinct(list),
        0 <= i < list.len(),
        attached.host@ == list[i].host@,
    ensures
        distinct(list.update(i, attached)),
        attachments(list.update(i, attached)) == attachments(list).insert(
            attached.host@,
            attached.attachment(),
        ),
{
    let new = list.update(i, attached);
    assert forall|a: int, b: int|
        0 <= a < new.len() && 0 <= b < new.len() && (#[trigger] new[a]).host@ == (
        #[trigger] new[b]).host@ implies a == b by {
        assert(list[a].host@ == new[a].host@);
        assert(list[b].host@ == new[b].host@);
    }
    let owed = attachments(list).insert(attached.host@, attached.attachment());
    lemma_at(new, i);
    assert forall|host: Seq<char>| attachments(new).contains_key(host) == owed.contains_key(
        host,
    ) by {
        if is_listed(new, host) {
            let k = place(new, host);
            assert(has_place(new, host, k));
            assert(has_place(list, host, k));
        }
        if is_listed(list, host) {
            let k = place(list, host);
            assert(has_place(list, host, k));
            assert(has_place(new, host, k));
        }
    }
    assert forall|host: Seq<char>| attachments(new).contains_key(host) implies attachments(
        new,
    )[host] == owed[host] by {
        let k = place(new, host);
        assert(has_place(new, host, k));
        lemma_at(new, k);
        lemma_at(list, k);
        if k != i {
            assert(new[k] == list[k]);
            assert(host != attached.host@);
        }
    }
    assert(attachments(new) =~= owed);
}

proof fn lemma_added(list: Seq<AttachedHost>, attached: AttachedHost)
    requires
        distinct(list),
        !is_listed(list, attached.host@),
    ensures
        distinct(list.push(attached)),
        attachments(list.push(attached)) == attachments(list).insert(
            attached.host@,
            attached.attachment(),
        ),
{
    let new = list.push(attached);
    assert forall|a: int, b: int|
        0 <= a < new.len() && 0 <= b < new.len() && (#[trigger] new[a]).host@ == (
        #[trigger] new[b]).host@ implies a == b by {
        if a < list.len() && b == list.len() {
            assert(has_place(list, attached.host@, a));
        } else if b < list.len() && a == list.len() {
            assert(has_place(list, attached.host@, b));
        } else if a < list.len() && b < list.len() {
            assert(list[a].host@ == new[a].host@);
            assert(list[b].host@ == new[b].host@);
        }
    }
    let owed = attachments(list).insert(attached.host@, attached.attachment());
    lemma_at(new, list.len() as int);
    assert forall|host: Seq<char>| attachments(new).contains_key(host) == owed.contains_key(
        host,
    ) by {
        if is_listed(new, host) {
            let k = place(new, host);
            assert(has_place(new, host, k));
            if k < list.len() {
                assert(has_place(list, host, k));
            }
        }
        if is_listed(list, host) {
            let k = place(list, host);
            assert(has_place(list, host, k));
            assert(has_place(new, host, k));
        }
    }
    assert forall|host: Seq<char>| attachments(new).contains_key(host) implies attachments(
        new,
    )[host] == owed[host] by {
        let k = place(new, host);
        assert(has_place(new, host, k));
        lemma_at(new, k);
        if k < list.len() {
            lemma_at(list, k);
            assert(new[k] == list[k]);
            assert(has_place(list, host, k));
        }
    }
    assert(attachments(new) =~= owed);
}

proof fn lemma_removed(list: Seq<AttachedHost>, i: int)
    requires
        distinct(list),
        0 <= i < list.len(),
    ensures
        distinct(list.remove(i)),
        attachments(list.remove(i)) == attachments(list).remove(list[i].host@),
{
    let new = list.remove(i);
    let gone = list[i].host@;
    assert forall|a: int, b: int|
        0 <= a < new.len() && 0 <= b < new.len() && (#[trigger] new[a]).host@ == (
        #[trigger] new[b]).host@ implies a == b by {
        let c = if a < i { a } else { a + 1 };
        let d = if b < i { b } else { b + 1 };
        assert(new[a] == list[c]);
        assert(new[b] == list[d]);
    }
    let owed = attachments(list).remove(gone);
    assert forall|host: Seq<char>| attachments(new).contains_key(host) == owed.contains_key(
        host,
    ) by {
        if is_listed(new, host) {
            let k = place(new, host);
            assert(has_place(new, host, k));
            let c = if k < i { k } else { k + 1 };
            assert(new[k] == list[c]);
            assert(has_place(list, host, c));
            assert(c != i);
            assert(list[c].host@ != gone);
        }
        if is_listed(list, host) && host != gone {
            let k = place(list, host);
            assert(has_place(list, host, k));
            let c = if k < i { k } else { k - 1 };
            assert(new[c] == list[k]);
            assert(has_place(new, host, c));
        }
    }
    assert forall|host: Seq<char>| attachments(new).contains_key(host) implies attachments(
        new,
    )[host] == owed[host] by {
        let k = place(new, host);
        assert(has_place(new, host, k));
        let c = if k < i { k } else { k + 1 };
        assert(new[k] == list[c]);
        lemma_at(new, k);
        lemma_at(list, c);
    }
    assert(attachments(new) =~= owed);
}

/// The hub of host actuators: every host that is attached, at most once.
#[derive(Debug, PartialEq, Eq)]
pub struct HostActuatorHub {
    attached: Vec<AttachedHost>,
}

impl View for HostActuatorHub {
    type V = Map<Seq<char>, Attachment>;

    closed spec fn view(&self) -> Map<Seq<char>, Attachment> {
        attachments(self.attached@)
    }
}

/// What a socket reports of its sessions. A frame has come in on a channel.
#[derive(Clone, Debug, PartialEq, Eq)]
pub enum HubEvent {
    Connected,
    Frame { channel: String },
    Pong,
    Disconnected,
    TimedOut,
}

/// What the hub does on an event: attach the session's host, take its report, detach what
/// it held, or nothing.
#[derive(Clone, Copy, Debug, PartialEq, Eq, Structural)]
pub enum HubAction {
    Attach,
    AcceptReport,
    Detach,
    Ignore,
}

/// What the hub does on an event. Only frames on the channel of requests and reports count.
pub fn service(event: &HubEvent) -> (action: HubAction)
    ensures
        action == match *event {
            HubEvent::Connected => HubAction::Attach,
            HubEvent::Frame { channel } => if channel@ == HOST_ACTUATOR_CHANNEL@ {
                HubAction::AcceptReport
            } else {
                HubAction::Ignore
            },
            HubEvent::Pong => HubAction::Ignore,
            HubEvent::Disconnected => HubAction::Detach,
            HubEvent::TimedOut => HubAction::Detach,
        },
{
    match event {
        HubEvent::Connected => HubAction::Attach,
        HubEvent::Frame { channel } => if same_text(channel.as_str(), HOST_ACTUATOR_CHANNEL) {
            HubAction::AcceptReport
        } else {
            HubAction::Ignore
        },
        HubEvent::Pong => HubAction::Ignore,
        HubEvent::Disconnected => HubAction::Detach,
        HubEvent::TimedOut => HubAction::Detach,
    }
}

fn find_host(list: &Vec<AttachedHost>, host: &str) -> (at: Option<usize>)
    requires
        distinct(list@),
    ensures
        match at {
            Some(i) => i < list@.len() && list@[i as int].host@ == host@ && attachments(
                list@,
            ).contains_key(host@) && attachments(list@)[host@] == list@[i as int].attachment(),
            None => !attachments(list@).contains_key(host@) && !is_listed(list@, host@),
        },
{
    let mut i: usize = 0;
    while i < list.len()
        invariant
            i <= list@.len(),
            distinct(list@),
            forall|j: int| 0 <= j < i ==> (#[trigger] list@[j]).host@ != host@,
        decreases list@.len() - i,
    {
        if same_text(list[i].host.as_str(), host) {
            proof {
                lemma_at(list@, i as int);
            }
            return Some(i);
        }
        i += 1;
    }
    proof {
        if is_listed(list@, host@) {
            let k = place(list@, host@);
            assert(has_place(list@, host@, k));
            assert(list@[k].host@ == host@);
        }
    }
    None
}

/// Whether texts are given in order, none of them twice.
pub open spec fn in_order(list: Seq<Seq<char>>) -> bool {
    forall|i: int, j: int| 0 <= i < j < list.len()
        ==> before(#[trigger] list[i], #[trigger] list[j])
}

proof fn lemma_names_in_order(pairs: Seq<Pair>)
    requires
        sorted(pairs),
    ensures
        in_order(names_of(pairs)),
        forall|name: Seq<char>| names_of(pairs).contains(name) <==> is_named(pairs, name),
{
    assert forall|i: int, j: int| 0 <= i < j < names_of(pairs).len() implies before(
        #[trigger] names_of(pairs)[i],
        #[trigger] names_of(pairs)[j],
    ) by {
        assert(before(pairs[i].0, pairs[j].0));
    }
    assert forall|name: Seq<char>| names_of(pairs).contains(name) <==> is_named(pairs, name) by {
        if names_of(pairs).contains(name) {
            let i = choose|i: int| 0 <= i < names_of(pairs).len() && names_of(pairs)[i] == name;
            assert(pairs[i].0 == name);
        }
        if is_named(pairs, name) {
            let i = choose|i: int| 0 <= i < pairs.len() && (#[trigger] pairs[i]).0 == name;
            assert(names_of(pairs)[i] == name);
        }
    }
}

impl HostActuatorHub {
    #[verifier::type_invariant]
    spec fn each_once(self) -> bool {
        distinct(self.attached@)
    }

    /// A hub that no host is attached to.
    pub fn new() -> (hub: Self)
        ensures
            hub@ == Map::<Seq<char>, Attachment>::empty(),
    {
        let hub = HostActuatorHub { attached: Vec::new() };
        proof {
            assert forall|host: Seq<char>| !attachments(hub.attached@).contains_key(host) by {
                if is_listed(hub.attached@, host) {
                    assert(has_place(hub.attached@, host, place(hub.attached@, host)));
                }
            }
            assert(hub@ =~= Map::<Seq<char>, Attachment>::empty());
        }
        hub
    }

    /// Whether a host is attached.
    pub fn is_attached(&self, host: &str) -> (is: bool)
        ensures
            is == self@.contains_key(host@),
    {
        proof {
            use_type_invariant(self);
        }
        find_host(&self.attached, host).is_some()
    }

    fn named(&self, session: Option<&HubSession>) -> (names: Vec<String>)
        ensures
            in_order(texts(names@)),
            forall|host: Seq<char>|
                #![trigger texts(names@).contains(host)]
                texts(names@).contains(host) <==> self@.contains_key(host) && (session matches Some(
                    s,
                ) ==> self@[host].session == s@),
    {
        proof {
            use_type_invariant(self);
        }
        let ghost list = self.attached@;
        let mut map = TextMap::empty();
        let mut i: usize = 0;
        while i < self.attached.len()
            invariant
                i <= list.len(),
                list == self.attached@,
                distinct(list),
                sorted(map@),
                forall|host: Seq<char>|
                    #![trigger is_named(map@, host)]
                    is_named(map@, host) <==> exists|j: int|
                        0 <= j < i && (#[trigger] list[j]).host@ == host && (session matches Some(
                            s,
                        ) ==> list[j].session@ == s@),
            decreases list.len() - i,
        {
            let entry = &self.attached[i];
            let chosen = match session {
                None => true,
                Some(s) => entry.session.same(s),
            };
            if chosen {
                let ghost earlier = map@;
                map = map.inserted(entry.host.as_str(), "");
                proof {
                    assert forall|host: Seq<char>|
                        #![trigger is_named(map@, host)]
                        is_named(map@, host) <==> exists|j: int|
                            0 <= j < i + 1 && (#[trigger] list[j]).host@ == host && (
                            session matches Some(s) ==> list[j].session@ == s@) by {
                        lemma_with_lookup(earlier, list[i as int].host@, ""@, host);
                        if list[i as int].host@ == host {
                            assert(list[i as int].host@ == host);
                        }
                        if is_named(earlier, host) {
                            let j = choose|j: int|
                                0 <= j < i && (#[trigger] list[j]).host@ == host && (
                                session matches Some(s) ==> list[j].session@ == s@);
                            assert(list[j].host@ == host);
                        }
                    }
                }
            } else {
                assert forall|host: Seq<char>|
                    #![trigger is_named(map@, host)]
                    is_named(map@, host) <==> exists|j: int|
                        0 <= j < i + 1 && (#[trigger] list[j]).host@ == host && (
                        session matches Some(s) ==> list[j].session@ == s@) by {
                    if is_named(map@, host) {
                        let j = choose|j: int|
                            0 <= j < i && (#[trigger] list[j]).host@ == host && (
                            session matches Some(s) ==> list[j].session@ == s@);
                        assert(list[j].host@ == host);
                    }
                }
            }
            i += 1;
        }
        let names = map.names();
        proof {
            lemma_names_in_order(map@);
            assert forall|host: Seq<char>|
                #![trigger texts(names@).contains(host)]
                texts(names@).contains(host) <==> self@.contains_key(host) && (session matches Some(
                    s,
                ) ==> self@[host].session == s@) by {
                assert(texts(names@).contains(host) <==> is_named(map@, host));
                if is_named(map@, host) {
                    let j = choose|j: int|
                        0 <= j < i && (#[trigger] list[j]).host@ == host && (
                        session matches Some(s) ==> list[j].session@ == s@);
                    lemma_at(list, j);
                }
                if self@.contains_key(host) {
                    let k = place(list, host);
                    assert(has_place(list, host, k));
                    lemma_at(list, k);
                }
            }
        }
        names
    }

    /// The hosts that are attached, in order.
    pub fn attached_hosts(&self) -> (names: Vec<String>)
        ensures
            in_order(texts(names@)),
            forall|host: Seq<char>|
                #![trigger texts(names@).contains(host)]
                texts(names@).contains(host) <==> self@.contains_key(host),
    {
        self.named(None)
    }
}

/// Why a session may not be opened with what it was opened with, if so.
pub open spec fn hello_refusal(
    hello: HostActuatorEnvelope,
    has_anchor: bool,
    opened: Result<HostActuatorReport, Refusal>,
) -> Option<Seq<char>> {
    either(
        unless(has_anchor, "no workload binding names host "@ + quoted(hello.host@)),
        either(
            unless(
                hello.session_nonce@.len() == 0 && hello.sequence == 0,
                "host actuator Hello carries a session it does not have yet"@,
            ),
            either(
                missed(opened),
                unless(
                    opened->Ok_0 is Hello,
                    "host actuator opened its session with something other than Hello"@,
                ),
            ),
        ),
    )
}

/// Admits the opening of a session, given whether an anchor is bound for its host, and how
/// the report that it was opened with opens under that anchor.
pub fn admit_hello(
    hello: &HostActuatorEnvelope,
    has_anchor: bool,
    opened: &Result<HostActuatorReport, Refusal>,
) -> (outcome: Result<(), Refusal>)
    ensures
        judged(outcome, hello_refusal(*hello, has_anchor, *opened)),
{
    let shown = quote(hello.host.as_str());
    let words = cat2("no workload binding names host ", shown.as_str());
    check(has_anchor, words.as_str())?;
    check(
        hello.session_nonce.len() == 0 && hello.sequence == 0,
        "host actuator Hello carries a session it does not have yet",
    )?;
    match opened {
        Err(refusal) => Err(Refusal { text: refusal.text.clone() }),
        Ok(HostActuatorReport::Hello { .. }) => Ok(()),
        Ok(_) => Err(refuse("host actuator opened its session with something other than Hello")),
    }
}

/// A host as it is attached on a new session: welcomed with the first number, and asked
/// nothing yet.
pub open spec fn newly_attached(session: HubSessionView, nonce: Seq<u8>) -> Attachment {
    Attachment { session, nonce, next_sequence: 2, reports: Seq::empty() }
}

impl HostActuatorHub {
    /// Attaches a host on a session that it was welcomed on. Where it was attached before,
    /// that session is the outcome.
    pub fn attach(&mut self, host: &str, session: HubSession, nonce: Vec<u8>) -> (previous: Option<
        HubSession,
    >)
        ensures
            final(self)@ == old(self)@.insert(host@, newly_attached(session@, nonce@)),
            match previous {
                None => !old(self)@.contains_key(host@),
                Some(before) => old(self)@.contains_key(host@) && before@
                    == old(self)@[host@].session,
            },
    {
        proof {
            use_type_invariant(&*self);
        }
        let mut list: Vec<AttachedHost> = Vec::new();
        std::mem::swap(&mut list, &mut self.attached);
        let ghost before = list@;
        let found = find_host(&list, host);
        let attached = AttachedHost {
            host: host.to_owned(),
            session,
            nonce,
            next_sequence: 2,
            reports: Vec::new(),
        };
        assert(attached.attachment() =~= newly_attached(attached.session@, attached.nonce@));
        match found {
            Some(i) => {
                proof {
                    lemma_set(before, i as int, attached);
                }
                let earlier = list[i].session.copy();
                list.set(i, attached);
                assert(list@ =~= before.update(i as int, attached));
                self.attached = list;
                Some(earlier)
            },
            None => {
                proof {
                    lemma_added(before, attached);
                }
                list.push(attached);
                self.attached = list;
                None
            },
        }
    }

    /// Detaches every host that is attached on a session. Those hosts are the outcome, in
    /// order.
    pub fn detach_session(&mut self, session: &HubSession) -> (hosts: Vec<String>)
        ensures
            in_order(texts(hosts@)),
            forall|host: Seq<char>|
                #![trigger texts(hosts@).contains(host)]
                texts(hosts@).contains(host) <==> old(self)@.contains_key(host) && old(
                    self,
                )@[host].session == session@,
            final(self)@ == Map::new(
                |host: Seq<char>|
                    old(self)@.contains_key(host) && old(self)@[host].session != session@,
                |host: Seq<char>| old(self)@[host],
            ),
    {
        let hosts = self.named(Some(session));
        proof {
            use_type_invariant(&*self);
        }
        let mut list: Vec<AttachedHost> = Vec::new();
        std::mem::swap(&mut list, &mut self.attached);
        let ghost before = attachments(list@);
        let mut i: usize = 0;
        while i < list.len()
            invariant
                i <= list@.len(),
                distinct(list@),
                forall|j: int| 0 <= j < i ==> (#[trigger] list@[j]).session@ != session@,
                forall|host: Seq<char>|
                    #![trigger attachments(list@).contains_key(host)]
                    attachments(list@).contains_key(host) ==> before.contains_key(host)
                        && attachments(list@)[host] == before[host],
                forall|host: Seq<char>|
                    #![trigger before.contains_key(host)]
                    before.contains_key(host) && before[host].session != session@ ==> attachments(
                        list@,
                    ).contains_key(host),
            decreases list@.len() - i,
        {
            if list[i].session.same(session) {
                let ghost earlier = list@;
                proof {
                    lemma_at(earlier, i as int);
                    lemma_removed(earlier, i as int);
                }
                let _ = list.remove(i);
                assert(list@ =~= earlier.remove(i as int));
                proof {
                    assert forall|host: Seq<char>|
                        #![trigger attachments(list@).contains_key(host)]
                        attachments(list@).contains_key(host) implies before.contains_key(host)
                        && attachments(list@)[host] == before[host] by {
                        assert(attachments(earlier).contains_key(host));
                    }
                    assert forall|host: Seq<char>|
                        #![trigger before.contains_key(host)]
                        before.contains_key(host) && before[host].session
                            != session@ implies attachments(list@).contains_key(host) by {
                        assert(attachments(earlier).contains_key(host));
                        assert(attachments(earlier)[host] == before[host]);
                    }
                }
            } else {
                i += 1;
            }
        }
        proof {
            let owed = Map::new(
                |host: Seq<char>| before.contains_key(host) && before[host].session != session@,
                |host: Seq<char>| before[host],
            );
            assert forall|host: Seq<char>| attachments(list@).contains_key(host)
                == owed.contains_key(host) by {
                if attachments(list@).contains_key(host) {
                    let k = place(list@, host);
                    assert(has_place(list@, host, k));
                    lemma_at(list@, k);
                    assert(list@[k].session@ != session@);
                }
            }
            assert(attachments(list@) =~= owed);
        }
        self.attached = list;
        hosts
    }
}

/// Why a report is not taken in, if so.
pub open spec fn report_refusal(
    hub: Map<Seq<char>, Attachment>,
    session: HubSessionView,
    envelope: HostActuatorEnvelope,
    has_anchor: bool,
    opened: Result<HostActuatorReport, Refusal>,
) -> Option<Seq<char>> {
    let host = envelope.host@;
    either(
        unless(hub.contains_key(host), "host "@ + quoted(host) + " is not attached"@),
        either(
            unless(
                hub[host].session == session,
                "report arrived on a session that is not the attached one for "@ + quoted(host),
            ),
            either(
                unless(
                    envelope.session_nonce@ == hub[host].nonce,
                    "report carries another session's nonce"@,
                ),
                either(
                    unless(has_anchor, "no workload binding names host "@ + quoted(host)),
                    either(
                        missed(opened),
                        unless(
                            envelope.sequence == 1 ==> opened->Ok_0 is Welcomed,
                            "sequence 1 must be the Welcome acknowledgement"@,
                        ),
                    ),
                ),
            ),
        ),
    )
}

/// A hub once it took a report in: it waits behind the reports of its host, save the
/// acknowledgement of the welcome, which nothing waits for.
pub open spec fn with_report(
    hub: Map<Seq<char>, Attachment>,
    envelope: HostActuatorEnvelope,
    report: HostActuatorReport,
) -> Map<Seq<char>, Attachment> {
    let attached = hub[envelope.host@];
    if envelope.sequence == 1 {
        hub
    } else {
        hub.insert(
            envelope.host@,
            Attachment { reports: attached.reports.push((envelope.sequence, report)), ..attached },
        )
    }
}

impl HostActuatorHub {
    /// Takes a report in, or refuses it and stays as it is, given whether an anchor is bound
    /// for its host, and how it opens under that anchor.
    pub fn accept_report(
        &mut self,
        session: &HubSession,
        envelope: &HostActuatorEnvelope,
        has_anchor: bool,
        opened: Result<HostActuatorReport, Refusal>,
    ) -> (outcome: Result<(), Refusal>)
        ensures
            judged(
                outcome,
                report_refusal(old(self)@, session@, *envelope, has_anchor, opened),
            ),
            outcome is Ok ==> final(self)@ == with_report(old(self)@, *envelope, opened->Ok_0),
            outcome is Err ==> final(self)@ == old(self)@,
    {
        proof {
            use_type_invariant(&*self);
        }
        let shown = quote(envelope.host.as_str());
        let i = match find_host(&self.attached, envelope.host.as_str()) {
            Some(i) => i,
            None => {
                return Err(Refusal { text: cat3("host ", shown.as_str(), " is not attached") });
            },
        };
        let elsewhere = cat2(
            "report arrived on a session that is not the attached one for ",
            shown.as_str(),
        );
        check(self.attached[i].session.same(session), elsewhere.as_str())?;
        check(
            same_bytes(envelope.session_nonce.as_slice(), self.attached[i].nonce.as_slice()),
            "report carries another session's nonce",
        )?;
        let unbound = cat2("no workload binding names host ", shown.as_str());
        check(has_anchor, unbound.as_str())?;
        let report = opened?;
        if envelope.sequence == 1 {
            return match report {
                HostActuatorReport::Welcomed => Ok(()),
                _ => Err(refuse("sequence 1 must be the Welcome acknowledgement")),
            };
        }
        let mut list: Vec<AttachedHost> = Vec::new();
        std::mem::swap(&mut list, &mut self.attached);
        let ghost before = list@;
        let mut attached = list.remove(i);
        let ghost attachment = attached.attachment();
        attached.reports.push((envelope.sequence, report));
        proof {
            assert(attached.attachment() =~= (Attachment {
                reports: attachment.reports.push((envelope.sequence, report)),
                ..attachment
            }));
            lemma_set(before, i as int, attached);
        }
        list.insert(i, attached);
        assert(list@ =~= before.update(i as int, attached));
        self.attached = list;
        Ok(())
    }
}

/// What a request was sent as: on which session, with which nonce, under which number.
#[derive(Clone, Debug, PartialEq, Eq)]
pub struct RequestTicket {
    pub session: HubSession,
    pub nonce: Vec<u8>,
    pub sequence: u64,
}

impl HostActuatorHub {
    /// Whether a host that is attached has a number left for another request.
    pub fn may_request(&self, host: &str) -> (may: bool)
        ensures
            may == (self@.contains_key(host@) ==> self@[host@].next_sequence < u64::MAX),
    {
        proof {
            use_type_invariant(self);
        }
        match find_host(&self.attached, host) {
            Some(i) => self.attached[i].next_sequence < u64::MAX,
            None => true,
        }
    }

    /// Numbers a request for a host. The numbers of an attached host are not used up.
    pub fn begin_request(&mut self, host: &str) -> (outcome: Result<RequestTicket, Refusal>)
        requires
            old(self)@.contains_key(host@) ==> old(self)@[host@].next_sequence < u64::MAX,
        ensures
            judged(
                outcome,
                unless(
                    old(self)@.contains_key(host@),
                    "host actuator "@ + host@ + " is not attached"@,
                ),
            ),
            outcome matches Ok(ticket) ==> {
                let attached = old(self)@[host@];
                &&& ticket.session@ == attached.session
                &&& ticket.nonce@ == attached.nonce
                &&& ticket.sequence == attached.next_sequence
                &&& final(self)@ == old(self)@.insert(
                    host@,
                    Attachment { next_sequence: (attached.next_sequence + 1) as u64, ..attached },
                )
            },
            outcome is Err ==> final(self)@ == old(self)@,
    {
        proof {
            use_type_invariant(&*self);
        }
        let i = match find_host(&self.attached, host) {
            Some(i) => i,
            None => {
                return Err(
                    Refusal { text: cat3("host actuator ", host, " is not attached") },
                );
            },
        };
        let mut list: Vec<AttachedHost> = Vec::new();
        std::mem::swap(&mut list, &mut self.attached);
        let ghost before = list@;
        let mut attached = list.remove(i);
        let ghost attachment = attached.attachment();
        let ticket = RequestTicket {
            session: attached.session.copy(),
            nonce: copy_bytes(attached.nonce.as_slice()),
            sequence: attached.next_sequence,
        };
        attached.next_sequence = attached.next_sequence + 1;
        proof {
            assert(attached.attachment() =~= (Attachment {
                next_sequence: (attachment.next_sequence + 1) as u64,
                ..attachment
            }));
            lemma_set(before, i as int, attached);
        }
        list.insert(i, attached);
        assert(list@ =~= before.update(i as int, attached));
        self.attached = list;
        Ok(ticket)
    }
}

/// Whether a report is the first that answers a request.
pub open spec fn answers(reports: Seq<(u64, HostActuatorReport)>, sequence: u64, k: int) -> bool {
    &&& 0 <= k < reports.len()
    &&& reports[k].0 == sequence
    &&& forall|j: int| 0 <= j < k ==> (#[trigger] reports[j]).0 != sequence
}

/// The reports that answer a request after one that is still waited for.
pub open spec fn kept(reports: Seq<(u64, HostActuatorReport)>, sequence: u64) -> Seq<
    (u64, HostActuatorReport),
>
    decreases reports.len(),
{
    if reports.len() == 0 {
        Seq::empty()
    } else if reports.last().0 > sequence {
        kept(reports.drop_last(), sequence).push(reports.last())
    } else {
        kept(reports.drop_last(), sequence)
    }
}

/// The reports of a host once a request was polled for.
pub open spec fn reports_after(reports: Seq<(u64, HostActuatorReport)>, sequence: u64) -> Seq<
    (u64, HostActuatorReport),
> {
    if exists|k: int| #[trigger] answers(reports, sequence, k) {
        reports.remove(choose|k: int| #[trigger] answers(reports, sequence, k))
    } else {
        kept(reports, sequence)
    }
}

/// The report that answers a request, if one does.
pub open spec fn answer_to(reports: Seq<(u64, HostActuatorReport)>, sequence: u64) -> Option<
    HostActuatorReport,
> {
    if exists|k: int| #[trigger] answers(reports, sequence, k) {
        Some(reports[choose|k: int| #[trigger] answers(reports, sequence, k)].1)
    } else {
        None
    }
}

/// Why a request is no longer waited for, if so.
pub open spec fn lost(
    hub: Map<Seq<char>, Attachment>,
    host: Seq<char>,
    generation: u64,
) -> Option<Seq<char>> {
    either(
        unless(
            hub.contains_key(host),
            "host actuator "@ + host + " detached while a request was outstanding"@,
        ),
        unless(
            hub[host].session.generation == generation,
            "host actuator "@ + host + " reconnected while a request was outstanding"@,
        ),
    )
}

/// What comes of polling for a request: its report, nothing yet, or why it failed.
pub open spec fn polled(
    hub: Map<Seq<char>, Attachment>,
    host: Seq<char>,
    generation: u64,
    sequence: u64,
    time_is_over: bool,
    timeout: Seq<char>,
) -> Result<Option<HostActuatorReport>, Seq<char>> {
    match lost(hub, host, generation) {
        Some(w) => Err(w),
        None => match answer_to(hub[host].reports, sequence) {
            Some(HostActuatorReport::Failed { error }) => Err(
                "host actuator "@ + host + " failed: "@ + error@,
            ),
            Some(report) => Ok(Some(report)),
            None => if time_is_over {
                Err("host actuator "@ + host + " did not answer within "@ + timeout)
            } else {
                Ok(None)
            },
        },
    }
}

/// A hub once a request was polled for.
pub open spec fn hub_after_poll(
    hub: Map<Seq<char>, Attachment>,
    host: Seq<char>,
    generation: u64,
    sequence: u64,
) -> Map<Seq<char>, Attachment> {
    if lost(hub, host, generation) is Some {
        hub
    } else {
        hub.insert(
            host,
            Attachment { reports: reports_after(hub[host].reports, sequence), ..hub[host] },
        )
    }
}

fn find_answer(reports: &Vec<(u64, HostActuatorReport)>, sequence: u64) -> (at: Option<usize>)
    ensures
        match at {
            Some(k) => k < reports@.len() && answer_to(reports@, sequence) == Some(
                reports@[k as int].1,
            ) && reports_after(reports@, sequence) == reports@.remove(k as int),
            None => answer_to(reports@, sequence) is None && reports_after(reports@, sequence)
                == kept(reports@, sequence),
        },
{
    let mut k: usize = 0;
    while k < reports.len()
        invariant
            k <= reports@.len(),
            forall|j: int| 0 <= j < k ==> (#[trigger] reports@[j]).0 != sequence,
        decreases reports@.len() - k,
    {
        if reports[k].0 == sequence {
            proof {
                assert(answers(reports@, sequence, k as int));
                let m = choose|m: int| #[trigger] answers(reports@, sequence, m);
                if m < k {
                    assert(reports@[m].0 != sequence);
                } else if k < m {
                    assert(reports@[k as int].0 != sequence);
                }
            }
            return Some(k);
        }
        k += 1;
    }
    proof {
        assert forall|m: int| !(#[trigger] answers(reports@, sequence, m)) by {
            if answers(reports@, sequence, m) {
                assert(reports@[m].0 != sequence);
            }
        }
    }
    None
}

fn keep_later(reports: &mut Vec<(u64, HostActuatorReport)>, sequence: u64)
    ensures
        final(reports)@ == kept(old(reports)@, sequence),
{
    let ghost all = reports@;
    let mut i: usize = 0;
    let ghost mut seen: int = 0;
    assert(all.take(0) =~= Seq::<(u64, HostActuatorReport)>::empty());
    assert(reports@ =~= kept(all.take(0), sequence) + all.skip(0));
    while i < reports.len()
        invariant
            0 <= seen <= all.len(),
            i <= reports@.len(),
            i == kept(all.take(seen), sequence).len(),
            reports@ == kept(all.take(seen), sequence) + all.skip(seen),
            reports@.len() - i == all.len() - seen,
        decreases reports@.len() - i,
    {
        proof {
            assert(all.take(seen + 1).drop_last() =~= all.take(seen));
            assert(all.take(seen + 1).last() == all[seen]);
            assert(reports@[i as int] == all[seen]);
        }
        if reports[i].0 > sequence {
            i += 1;
            proof {
                seen = seen + 1;
                assert(reports@ =~= kept(all.take(seen), sequence) + all.skip(seen));
            }
        } else {
            let _ = reports.remove(i);
            proof {
                seen = seen + 1;
                assert(reports@ =~= kept(all.take(seen), sequence) + all.skip(seen));
            }
        }
    }
    proof {
        assert(all.take(seen) =~= all);
        assert(reports@ =~= kept(all, sequence));
    }
}

impl HostActuatorHub {
    /// Polls for the report of a request. Reports of earlier requests, which nothing waits
    /// for, are dropped on the way.
    pub fn poll_request(
        &mut self,
        host: &str,
        ticket: &RequestTicket,
        time_is_over: bool,
        timeout: &str,
    ) -> (outcome: Result<Option<HostActuatorReport>, Refusal>)
        ensures
            crate::procfs::comes_to(
                outcome,
                polled(
                    old(self)@,
                    host@,
                    ticket.session@.generation,
                    ticket.sequence,
                    time_is_over,
                    timeout@,
                ),
            ),
            final(self)@ == hub_after_poll(
                old(self)@,
                host@,
                ticket.session@.generation,
                ticket.sequence,
            ),
    {
        proof {
            use_type_invariant(&*self);
        }
        let i = match find_host(&self.attached, host) {
            Some(i) => i,
            None => {
                return Err(
                    Refusal {
                        text: cat3(
                            "host actuator ",
                            host,
                            " detached while a request was outstanding",
                        ),
                    },
                );
            },
        };
        if self.attached[i].session.generation != ticket.session.generation {
            return Err(
                Refusal {
                    text: cat3(
                        "host actuator ",
                        host,
                        " reconnected while a request was outstanding",
                    ),
                },
            );
        }
        let mut list: Vec<AttachedHost> = Vec::new();
        std::mem::swap(&mut list, &mut self.attached);
        let ghost before = list@;
        let mut attached = list.remove(i);
        let ghost attachment = attached.attachment();
        let found = find_answer(&attached.reports, ticket.sequence);
        let answer = match found {
            Some(k) => Some(attached.reports.remove(k).1),
            None => {
                keep_later(&mut attached.reports, ticket.sequence);
                None
            },
        };
        proof {
            assert(attached.attachment() =~= (Attachment {
                reports: reports_after(attachment.reports, ticket.sequence),
                ..attachment
            }));
            lemma_set(before, i as int, attached);
        }
        list.insert(i, attached);
        assert(list@ =~= before.update(i as int, attached));
        self.attached = list;
        match answer {
            Some(HostActuatorReport::Failed { error }) => Err(
                Refusal { text: cat4("host actuator ", host, " failed: ", error.as_str()) },
            ),
            Some(report) => Ok(Some(report)),
            None => {
                let words = cat4("host actuator ", host, " did not answer within ", timeout);
                check(!time_is_over, words.as_str())?;
                Ok(None)
            },
        }
    }
}

/// Why the hub may not be admitted on the firewall, if so: it must name one address.
pub open spec fn endpoint_refusal(bind: Seq<char>, is_unspecified: bool) -> Option<Seq<char>> {
    unless(
        !is_unspecified,
        "the host actuator hub must bind one address so its firewall allow names it; "@ + bind
            + " is unspecified"@,
    )
}

/// The arguments that admit the hub's endpoint on the firewall of its host.
pub open spec fn endpoint_arguments(ip: Seq<char>, port: u16) -> Seq<Seq<char>> {
    seq![
        "allow"@,
        "in"@,
        "to"@,
        ip,
        "port"@,
        decimal(port as nat),
        "proto"@,
        "udp"@,
        "comment"@,
        "Idunn host actuator hub"@,
    ]
}

/// The arguments that admit the hub's endpoint on the firewall of its host, given its
/// address as it is shown, and whether that is no address in particular.
pub fn admit_hub_endpoint(
    bind: &str,
    ip: &str,
    port: u16,
    is_unspecified: bool,
) -> (outcome: Result<Vec<String>, Refusal>)
    ensures
        judged(outcome, endpoint_refusal(bind@, is_unspecified)),
        outcome matches Ok(arguments) ==> texts(arguments@) == endpoint_arguments(ip@, port),
{
    let words = cat3(
        "the host actuator hub must bind one address so its firewall allow names it; ",
        bind,
        " is unspecified",
    );
    check(!is_unspecified, words.as_str())?;
    let mut arguments: Vec<String> = Vec::new();
    push_text(&mut arguments, "allow".to_owned());
    push_text(&mut arguments, "in".to_owned());
    push_text(&mut arguments, "to".to_owned());
    push_text(&mut arguments, ip.to_owned());
    push_text(&mut arguments, "port".to_owned());
    push_text(&mut arguments, decimal_of(port as u64));
    push_text(&mut arguments, "proto".to_owned());
    push_text(&mut arguments, "udp".to_owned());
    push_text(&mut arguments, "comment".to_owned());
    push_text(&mut arguments, "Idunn host actuator hub".to_owned());
    assert(texts(arguments@) =~= endpoint_arguments(ip@, port));
    Ok(arguments)
}

/// Settles the admission of the hub's endpoint.
pub fn settle_hub_endpoint(success: bool, complaint: &str) -> (outcome: Result<(), Refusal>)
    ensures
        judged(
            outcome,
            unless(
                success,
                "ufw refused the host actuator hub allow: "@ + trimmed(complaint@),
            ),
        ),
{
    let words = trim(complaint);
    let all = cat2("ufw refused the host actuator hub allow: ", words.as_str());
    check(success, all.as_str())
}

/// Only the request that was asked is answered: what polling gives was brought in under its
/// number.
pub proof fn an_answer_is_to_what_was_asked(
    hub: Map<Seq<char>, Attachment>,
    host: Seq<char>,
    generation: u64,
    sequence: u64,
    time_is_over: bool,
    timeout: Seq<char>,
)
    requires
        polled(hub, host, generation, sequence, time_is_over, timeout) matches Ok(Some(_)),
    ensures
        hub.contains_key(host),
        hub[host].session.generation == generation,
        hub[host].reports.contains(
            (sequence, polled(hub, host, generation, sequence, time_is_over, timeout)->Ok_0->0),
        ),
{
    let k = choose|k: int| #[trigger] answers(hub[host].reports, sequence, k);
    assert(hub[host].reports[k] == (sequence, answer_to(hub[host].reports, sequence)->0));
}

/// A report that arrived while its request was waited for is there when the request is
/// polled for next: nothing that was taken in under its number is lost.
pub proof fn a_report_that_was_taken_in_answers(
    hub: Map<Seq<char>, Attachment>,
    envelope: HostActuatorEnvelope,
    report: HostActuatorReport,
)
    requires
        hub.contains_key(envelope.host@),
        envelope.sequence != 1,
        answer_to(hub[envelope.host@].reports, envelope.sequence) is None,
    ensures
        answer_to(
            with_report(hub, envelope, report)[envelope.host@].reports,
            envelope.sequence,
        ) == Some(report),
{
    let before = hub[envelope.host@].reports;
    let after = with_report(hub, envelope, report)[envelope.host@].reports;
    let last = before.len() as int;
    assert(after =~= before.push((envelope.sequence, report)));
    assert forall|j: int| 0 <= j < last implies (#[trigger] after[j]).0 != envelope.sequence by {
        if before[j].0 == envelope.sequence {
            lemma_some_answer(before, envelope.sequence, j);
        }
    }
    assert(answers(after, envelope.sequence, last));
    let k = choose|k: int| #[trigger] answers(after, envelope.sequence, k);
    if k < last {
        assert(after[k].0 != envelope.sequence);
    }
}

proof fn lemma_some_answer(reports: Seq<(u64, HostActuatorReport)>, sequence: u64, j: int)
    requires
        0 <= j < reports.len(),
        reports[j].0 == sequence,
    ensures
        answer_to(reports, sequence) is Some,
    decreases j,
{
    if forall|i: int| 0 <= i < j ==> (#[trigger] reports[i]).0 != sequence {
        assert(answers(reports, sequence, j));
    } else {
        let i = choose|i: int| 0 <= i < j && (#[trigger] reports[i]).0 == sequence;
        lemma_some_answer(reports, sequence, i);
    }
}

/// A host that connects again is attached anew: nothing that its earlier session brought in,
/// and nothing that was asked on it, is left.
pub proof fn a_new_session_replaces_the_old(
    hub: Map<Seq<char>, Attachment>,
    host: Seq<char>,
    session: HubSessionView,
    nonce: Seq<u8>,
    sequence: u64,
)
    ensures
        hub.insert(host, newly_attached(session, nonce))[host].reports.len() == 0,
        answer_to(hub.insert(host, newly_attached(session, nonce))[host].reports, sequence)
            is None,
{
}

/// The requests of a session are taken in order: the welcome of a new session is taken, and
/// after it each request that the hub numbers, until the session ends.
pub proof fn the_requests_of_a_session_are_taken(
    unwelcomed: HostSessionView,
    session: HostSessionView,
    attached: Attachment,
    nonce: Seq<u8>,
)
    requires
        unwelcomed.nonce is None,
        nonce.len() >= 16,
        session.nonce == Some(attached.nonce),
        session.last_sequence < attached.next_sequence,
    ensures
        frame_refusal(unwelcomed, nonce, 1, true) is None,
        session_after(unwelcomed, nonce, 1, true).last_sequence < newly_attached(
            attached.session,
            nonce,
        ).next_sequence,
        frame_refusal(session, attached.nonce, attached.next_sequence, false) is None,
        session_after(session, attached.nonce, attached.next_sequence, false).last_sequence
            < attached.next_sequence + 1,
{
}

} // verus!
