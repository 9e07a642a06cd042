//! What a session takes in and what it gives back, on either side of it.
use vstd::prelude::*;

use crate::host_config::{
    config_refusal, entry_text, is_config, toml_entries, ConfigFindings, HostActuatorConfig,
};
use crate::hub::{
    answer_to, answers, endpoint_arguments, hello_refusal, hub_after_poll, kept, lost, polled,
    report_refusal, reports_after, with_report, Attachment, HubSessionView,
};
use crate::observation::HostWorkloadObservationView;
use crate::protocol::{
    deed_report, frame_action, frame_refusal, is_deed_of, session_after,
    HostActuatorEnvelope, HostActuatorReport, HostActuatorRequest, HostDeed, HostSessionView,
};
use crate::records::{IdunnExpectedIncarnationRecordView, IdunnRuntimeActivationRecordView};
use crate::remote::{observation_refusal, release_refusal};
use crate::scan::decimal;
use crate::stream::lemma_decimal;
use crate::text::Refusal;

verus! {

/// An envelope has the shape of one for a host exactly where it speaks the one protocol, is
/// addressed to that host, and carries something.
pub proof fn an_envelope_is_shaped_for_its_host(envelope: HostActuatorEnvelope, host: Seq<char>)
    ensures
        envelope.shape_refusal(host) is None <==> envelope.protocol@
            == "gamecult.idunn.host_actuator.v1"@ && envelope.host@ == host
            && envelope.body@.len() > 0,
{
}

/// A request is taken exactly where it opens the session with a nonce of its own, or is of the
/// session that was opened and later than all that it took; and the session keeps its nonce.
pub proof fn a_request_is_taken_in_its_session(
    session: HostSessionView,
    nonce: Seq<u8>,
    sequence: u64,
    is_welcome: bool,
)
    ensures
        frame_refusal(session, nonce, sequence, is_welcome) is None <==> if is_welcome {
            session.nonce is None && nonce.len() >= 16
        } else {
            session.nonce == Some(nonce) && session.last_sequence < sequence
        },
        frame_refusal(session, nonce, sequence, is_welcome) is None ==> {
            &&& session_after(session, nonce, sequence, is_welcome).nonce == Some(nonce)
            &&& session_after(session, nonce, sequence, is_welcome).last_sequence == sequence
        },
{
}

/// A build begins only where none is under way, and where one is, the host says that it is
/// busy; a welcome is answered at once; and everything else is done in turn.
pub proof fn one_build_at_a_time(request: HostActuatorRequest, building: bool)
    ensures
        frame_action(request, building) is BeginBuild <==> request is Materialize && !building,
        frame_action(request, building) is ReportBusy <==> request is Materialize && building,
        frame_action(request, building) is ReportWelcomed <==> request is Welcome,
        frame_action(request, building) is Execute <==> !(request is Materialize) && !(
        request is Welcome),
{
}

/// Every request is answered in kind: what is reported of a deed is the report of the request
/// that asked for it, and says what was done.
pub proof fn a_request_is_answered_in_kind(request: HostActuatorRequest, deed: HostDeed)
    requires
        is_deed_of(request, deed),
    ensures
        match request {
            HostActuatorRequest::Welcome => true,
            HostActuatorRequest::Materialize { .. } => true,
            HostActuatorRequest::Install { .. } => deed_report(request, deed) matches
                HostActuatorReport::Installed { installed } && deed == (HostDeed::Installed {
                installed,
            }),
            HostActuatorRequest::PrepareActivation { activation, .. } => deed_report(request, deed)
                == (HostActuatorReport::Prepared { activation }),
            HostActuatorRequest::Start { .. } => deed_report(request, deed) matches
                HostActuatorReport::Started { observation } && deed == (HostDeed::Started {
                observation,
            }),
            HostActuatorRequest::Observe { .. } => deed_report(request, deed) matches
                HostActuatorReport::Observed { observation } && deed == (HostDeed::Observed {
                observation,
            }),
            HostActuatorRequest::Stop { .. } => deed_report(request, deed)
                == HostActuatorReport::Stopped,
            HostActuatorRequest::Probe { .. } => deed_report(request, deed) matches
                HostActuatorReport::Probed { running } && deed == (HostDeed::Probed { running }),
            HostActuatorRequest::Discard { .. } => deed_report(request, deed)
                == HostActuatorReport::Discarded,
        },
{
}

/// A session is opened exactly by a greeting, of a host that is known, that claims no session
/// that it does not have yet.
pub proof fn only_a_greeting_opens_a_session(
    hello: HostActuatorEnvelope,
    has_anchor: bool,
    opened: Result<HostActuatorReport, Refusal>,
)
    ensures
        hello_refusal(hello, has_anchor, opened) is None <==> has_anchor
            && hello.session_nonce@.len() == 0 && hello.sequence == 0 && (opened matches Ok(report)
            && report is Hello),
{
}

/// Polling for a request takes out its answer and nothing else; where it has none yet, what
/// answers later requests is left, and nothing older.
pub proof fn polling_takes_out_the_answer_alone(
    reports: Seq<(u64, HostActuatorReport)>,
    sequence: u64,
)
    ensures
        match answer_to(reports, sequence) {
            Some(report) => exists|k: int|
                {
                    &&& 0 <= k < reports.len()
                    &&& #[trigger] reports[k] == (sequence, report)
                    &&& reports_after(reports, sequence) == reports.take(k) + reports.skip(k + 1)
                },
            None => reports_after(reports, sequence) == reports.filter(
                |r: (u64, HostActuatorReport)| sequence < r.0,
            ),
        },
    decreases reports.len(),
{
    if exists|k: int| #[trigger] answers(reports, sequence, k) {
        let k = choose|k: int| #[trigger] answers(reports, sequence, k);
        assert(reports[k] == (sequence, answer_to(reports, sequence)->0));
        assert(reports.remove(k) =~= reports.take(k) + reports.skip(k + 1));
    } else {
        lemma_kept(reports, sequence);
    }
}

proof fn lemma_kept(reports: Seq<(u64, HostActuatorReport)>, sequence: u64)
    ensures
        kept(reports, sequence) == reports.filter(
            |r: (u64, HostActuatorReport)| sequence < r.0,
        ),
    decreases reports.len(),
{
    reveal(Seq::filter);
    if reports.len() > 0 {
        lemma_kept(reports.drop_last(), sequence);
    } else {
        assert(kept(reports, sequence) =~= reports.filter(
            |r: (u64, HostActuatorReport)| sequence < r.0,
        ));
    }
}

/// Polling on behalf of one host changes nothing of another, and of its own nothing but the
/// reports that wait; and where the session that was asked is gone, nothing at all.
pub proof fn polling_changes_only_what_waits(
    hub: Map<Seq<char>, Attachment>,
    host: Seq<char>,
    generation: u64,
    sequence: u64,
    other: Seq<char>,
)
    ensures
        ({
            let after = hub_after_poll(hub, host, generation, sequence);
            &&& after.dom() == hub.dom()
            &&& other != host && hub.contains_key(other) ==> after[other] == hub[other]
            &&& hub.contains_key(host) ==> after[host].session == hub[host].session
                && after[host].nonce == hub[host].nonce && after[host].next_sequence
                == hub[host].next_sequence
            &&& !hub.contains_key(host) || hub[host].session.generation != generation ==> after
                == hub
            &&& lost(hub, host, generation) is None <==> hub.contains_key(host)
                && hub[host].session.generation == generation
        }),
{
    let after = hub_after_poll(hub, host, generation, sequence);
    assert(after.dom() =~= hub.dom());
}

/// The hub's own endpoint is let in, over datagrams, at its own address and port, and two
/// endpoints are never let in by the same rule.
pub proof fn an_endpoint_is_let_in_by_its_own_rule(
    ip: Seq<char>,
    port: u16,
    other_ip: Seq<char>,
    other_port: u16,
)
    ensures
        ({
            let rule = endpoint_arguments(ip, port);
            &&& rule.take(4) == seq!["allow"@, "in"@, "to"@, ip]
            &&& rule.subrange(4, 8) == seq!["port"@, decimal(port as nat), "proto"@, "udp"@]
            &&& rule == endpoint_arguments(other_ip, other_port) ==> ip == other_ip && port
                == other_port
        }),
{
    let rule = endpoint_arguments(ip, port);
    assert(rule.take(4) =~= seq!["allow"@, "in"@, "to"@, ip]);
    assert(rule.subrange(4, 8) =~= seq!["port"@, decimal(port as nat), "proto"@, "udp"@]);
    if rule == endpoint_arguments(other_ip, other_port) {
        let other = endpoint_arguments(other_ip, other_port);
        lemma_decimal(port as nat);
        lemma_decimal(other_port as nat);
        assert(rule[3] == other[3]);
        assert(rule[5] == other[5]);
    }
}

/// A configuration is taken exactly where it is a table of the one schema that names all of a
/// host's settings and nothing else, its endpoint an address and its places absolute; and what
/// is taken is what the table says under each name.
pub proof fn a_configuration_is_taken_as_written(
    text: Seq<char>,
    findings: ConfigFindings,
    config: HostActuatorConfig,
)
    ensures
        config_refusal(text, findings) is None <==> (toml_entries(text) matches Some(entries) && {
            &&& forall|i: int|
                0 <= i < entries.len() ==> {
                    let name = (#[trigger] entries[i]).0;
                    name == "schema"@ || name == "host"@ || name == "idunn_endpoint"@ || name
                        == "identity_store"@ || name == "idunn_trust_anchor"@ || name
                        == "work_root"@
                }
            &&& entry_text(entries, "schema"@) == Some(
                "gamecult.idunn.host_actuator_config.v1"@,
            )
            &&& entry_text(entries, "host"@) matches Some(host) && host.len() > 0
            &&& entry_text(entries, "idunn_endpoint"@) is Some
            &&& entry_text(entries, "identity_store"@) is Some
            &&& entry_text(entries, "idunn_trust_anchor"@) is Some
            &&& entry_text(entries, "work_root"@) is Some
            &&& findings.endpoint_is_socket_address
            &&& findings.identity_store_is_absolute
            &&& findings.idunn_trust_anchor_is_absolute
            &&& findings.work_root_is_absolute
        }),
        toml_entries(text) matches Some(entries) ==> (is_config(config, entries) <==> {
            &&& entry_text(entries, "schema"@) == Some(config.schema@)
            &&& entry_text(entries, "host"@) == Some(config.host@)
            &&& entry_text(entries, "idunn_endpoint"@) == Some(config.idunn_endpoint@)
            &&& entry_text(entries, "identity_store"@) == Some(config.identity_store@)
            &&& entry_text(entries, "idunn_trust_anchor"@) == Some(config.idunn_trust_anchor@)
            &&& entry_text(entries, "work_root"@) == Some(config.work_root@)
        }),
{
    let names = crate::host_config::field_names();
    if let Some(entries) = toml_entries(text) {
        assert(names[0] == "schema"@ && names[1] == "host"@ && names[2] == "idunn_endpoint"@
            && names[3] == "identity_store"@ && names[4] == "idunn_trust_anchor"@ && names[5]
            == "work_root"@);
        if forall|i: int|
            0 <= i < entries.len() ==> {
                let name = (#[trigger] entries[i]).0;
                name == "schema"@ || name == "host"@ || name == "idunn_endpoint"@ || name
                    == "identity_store"@ || name == "idunn_trust_anchor"@ || name == "work_root"@
            } {
            assert forall|i: int| 0 <= i < entries.len() implies names.contains(
                (#[trigger] entries[i]).0,
            ) by {
                let name = entries[i].0;
                assert(name == names[0] || name == names[1] || name == names[2] || name == names[3]
                    || name == names[4] || name == names[5]);
            }
        }
    }
}

/// A release is taken from a host exactly where the host says that it made one, it stands, it
/// was sealed at the time that was asked for, and it has a root.
pub proof fn a_release_is_taken_as_asked(
    report: HostActuatorReport,
    host: Seq<char>,
    shown: Seq<char>,
    stands: Result<(), Refusal>,
    sealed_at_unix_millis: u64,
)
    ensures
        release_refusal(report, host, shown, stands, sealed_at_unix_millis) is None <==> (
        report matches HostActuatorReport::Materialized { release, root } && stands is Ok
            && release.sealed_at_unix_millis == sealed_at_unix_millis && root@.len() > 0),
{
}

/// A report is taken in exactly where it comes on the session that is attached for its host,
/// under its nonce, from a host that is known, opens, and is the acknowledgement of the welcome
/// where it answers the first request.
pub proof fn a_report_is_taken_in_on_its_own_session(
    hub: Map<Seq<char>, Attachment>,
    session: HubSessionView,
    envelope: HostActuatorEnvelope,
    has_anchor: bool,
    opened: Result<HostActuatorReport, Refusal>,
)
    ensures
        report_refusal(hub, session, envelope, has_anchor, opened) is None <==> {
            &&& hub.contains_key(envelope.host@)
            &&& hub[envelope.host@].session == session
            &&& hub[envelope.host@].nonce == envelope.session_nonce@
            &&& has_anchor
            &&& opened matches Ok(report) && (envelope.sequence == 1 ==> report is Welcomed)
        },
{
}

/// What is taken in waits under its own number, behind all that waited before, and for its own
/// host alone; the acknowledgement of the welcome waits for no one.
pub proof fn a_report_waits_for_its_own_request(
    hub: Map<Seq<char>, Attachment>,
    envelope: HostActuatorEnvelope,
    report: HostActuatorReport,
    other: Seq<char>,
)
    requires
        hub.contains_key(envelope.host@),
    ensures
        ({
            let after = with_report(hub, envelope, report);
            let host = envelope.host@;
            &&& after.dom() == hub.dom()
            &&& other != host && hub.contains_key(other) ==> after[other] == hub[other]
            &&& after[host].session == hub[host].session
            &&& after[host].nonce == hub[host].nonce
            &&& after[host].next_sequence == hub[host].next_sequence
            &&& envelope.sequence == 1 ==> after == hub
            &&& envelope.sequence != 1 ==> after[host].reports == hub[host].reports.push(
                (envelope.sequence, report),
            )
        }),
{
    let after = with_report(hub, envelope, report);
    assert(after.dom() =~= hub.dom());
}

/// A request is answered with what its host reported, is refused where that is a failure, where
/// its session is gone or where its time is over, and is waited for otherwise.
pub proof fn a_request_is_waited_for_until_its_time_is_over(
    hub: Map<Seq<char>, Attachment>,
    host: Seq<char>,
    generation: u64,
    sequence: u64,
    time_is_over: bool,
    timeout: Seq<char>,
)
    ensures
        ({
            let outcome = polled(hub, host, generation, sequence, time_is_over, timeout);
            let here = hub.contains_key(host) && hub[host].session.generation == generation;
            let answer = answer_to(hub[host].reports, sequence);
            &&& !here ==> outcome is Err
            &&& here && answer is None ==> (outcome is Err <==> time_is_over)
            &&& here && answer is None && !time_is_over ==> outcome == Ok::<
                Option<HostActuatorReport>,
                Seq<char>,
            >(None)
            &&& here && answer is Some && answer->0 is Failed ==> outcome is Err
            &&& here && answer is Some && !(answer->0 is Failed) ==> outcome == Ok::<
                Option<HostActuatorReport>,
                Seq<char>,
            >(answer)
        }),
{
}

/// An observation is believed exactly where it is of the host that was asked, of the activation
/// that was issued, of the executable that was expected, and of a process that was created.
pub proof fn an_observation_is_believed_of_what_was_asked(
    host: Seq<char>,
    observation: HostWorkloadObservationView,
    expected: IdunnExpectedIncarnationRecordView,
    activation: IdunnRuntimeActivationRecordView,
)
    ensures
        observation_refusal(host, observation, expected, activation) is None <==> {
            &&& observation.host == host
            &&& observation.runtime_instance_id == activation.runtime_instance_id
            &&& observation.activation_signer_identity_id
                == activation.activation_signer_identity_id
            &&& observation.activation_signer_public_key == activation.activation_signer_public_key
            &&& observation.executable_sha256 == expected.artifact_sha256
            &&& observation.process_id > 0
            &&& observation.process_creation_time > 0
        },
{
}

} // verus!
