//! What passes between Idunn and the actuator of a managed host: requests and reports, the
//! signed envelope that both travel in, and the session that an actuator keeps.
use vstd::prelude::*;

use crate::building::SealedRelease;
use crate::encoding::{envelope_bytes, frame_bytes, packed_envelope, packed_frame};
use crate::observation::{HostWorkloadObservation, InstalledReleaseObservation};
use crate::records::{IdunnExpectedIncarnationRecord, IdunnRuntimeActivationRecord};
use crate::scan::{decimal, decimal_of};
use crate::text::{
    bytes_option, cat2, cat4, check, copy_bytes, either, judged, quote, quoted, refuse, same_bytes,
    same_text, unless, Refusal,
};

verus! {

/// The protocol that both ends speak.
pub const HOST_ACTUATOR_PROTOCOL: &'static str = "gamecult.idunn.host_actuator.v1";

/// The channel of requests and reports: reliable, and in order.
pub const HOST_ACTUATOR_CHANNEL: &'static str = "schema";

/// How long a peer may be silent before its session is gone, in milliseconds.
pub const HOST_ACTUATOR_SESSION_TIMEOUT_MS: u64 = 15_000;

/// How often an actuator is heard from, in milliseconds.
pub const HOST_ACTUATOR_PING_MS: u64 = 5_000;

/// The connection that every request is made on.
pub const HOST_ACTUATOR_CONNECTION_ID: u32 = 0x4944_4e48;

/// The identity that a host's actuator signs its reports with.
#[derive(Clone, Copy, Debug, PartialEq, Eq, Structural)]
pub enum IdunnHostActuatorIdentity {
    Actuator,
}

/// What a request is signed for.
#[derive(Clone, Copy, Debug, PartialEq, Eq, Structural)]
pub struct HostActuatorRequestPurpose;

/// What a report is signed for.
#[derive(Clone, Copy, Debug, PartialEq, Eq, Structural)]
pub struct HostActuatorReportPurpose;

/// What Idunn asks a host to do. Each request carries all that it takes; a plan is carried
/// as it is encoded.
#[derive(Clone, Debug, PartialEq, Eq)]
pub enum HostActuatorRequest {
    Welcome,
    Materialize { transaction_id: String, plan: Vec<u8>, sealed_at_unix_millis: u64 },
    Install { plan: Vec<u8>, release: SealedRelease, root: String },
    PrepareActivation {
        plan: Vec<u8>,
        expected: IdunnExpectedIncarnationRecord,
        activation: IdunnRuntimeActivationRecord,
        credential: Vec<u8>,
    },
    Start {
        plan: Vec<u8>,
        release: SealedRelease,
        installed: InstalledReleaseObservation,
        expected: IdunnExpectedIncarnationRecord,
        activation: IdunnRuntimeActivationRecord,
    },
    Observe {
        expected: IdunnExpectedIncarnationRecord,
        activation: IdunnRuntimeActivationRecord,
        prior: HostWorkloadObservation,
    },
    Stop { observation: HostWorkloadObservation },
    Probe { prior: HostWorkloadObservation },
    Discard {
        plan: Vec<u8>,
        expected: IdunnExpectedIncarnationRecord,
        activation: IdunnRuntimeActivationRecord,
    },
}

/// What a host reports. `Failed` may answer any request; every other report answers the
/// request of its kind.
#[derive(Clone, Debug, PartialEq, Eq)]
pub enum HostActuatorReport {
    Hello { platform: String, actuator_version: String },
    Welcomed,
    Materialized { release: SealedRelease, root: String },
    Installed { installed: InstalledReleaseObservation },
    Prepared { activation: IdunnRuntimeActivationRecord },
    Started { observation: HostWorkloadObservation },
    Observed { observation: HostWorkloadObservation },
    Stopped,
    Probed { running: bool },
    Discarded,
    Failed { error: String },
}

/// A signed request or report. The nonce is empty only in the report that opens a session;
/// a report has the sequence number of the request that it answers.
#[derive(Clone, Debug, PartialEq, Eq)]
pub struct HostActuatorEnvelope {
    pub protocol: String,
    pub host: String,
    pub session_nonce: Vec<u8>,
    pub sequence: u64,
    pub body: Vec<u8>,
    pub signer_identity_id: String,
    pub signature: Vec<u8>,
}

impl HostActuatorEnvelope {
    /// Why an envelope has not the shape of one for a host, if so.
    pub open spec fn shape_refusal(&self, host: Seq<char>) -> Option<Seq<char>> {
        either(
            unless(
                self.protocol@ == HOST_ACTUATOR_PROTOCOL@,
                "host actuator envelope speaks "@ + quoted(self.protocol@) + ", not "@
                    + HOST_ACTUATOR_PROTOCOL@,
            ),
            either(
                unless(
                    self.host@ == host,
                    "host actuator envelope is for host "@ + quoted(self.host@) + ", not "@
                        + quoted(host),
                ),
                unless(self.body@.len() > 0, "host actuator envelope has no body"@),
            ),
        )
    }

    /// Admits the shape of an envelope for a host.
    pub fn validate_shape(&self, host: &str) -> (outcome: Result<(), Refusal>)
        ensures
            judged(outcome, self.shape_refusal(host@)),
    {
        let spoken = quote(self.protocol.as_str());
        let other = cat4(
            "host actuator envelope speaks ",
            spoken.as_str(),
            ", not ",
            HOST_ACTUATOR_PROTOCOL,
        );
        check(same_text(self.protocol.as_str(), HOST_ACTUATOR_PROTOCOL), other.as_str())?;
        let named = quote(self.host.as_str());
        let meant = quote(host);
        let foreign = cat4(
            "host actuator envelope is for host ",
            named.as_str(),
            ", not ",
            meant.as_str(),
        );
        check(same_text(self.host.as_str(), host), foreign.as_str())?;
        check(self.body.len() > 0, "host actuator envelope has no body")
    }

    /// What the signature of an envelope covers: everything in it but who signed it, and
    /// how.
    pub open spec fn covered(&self) -> Seq<u8> {
        packed_frame(
            self.protocol@,
            self.host@,
            self.session_nonce@,
            self.sequence as int,
            self.body@,
        )
    }

    /// What the signature of an envelope covers.
    pub fn signed_payload(&self) -> (outcome: Result<Vec<u8>, Refusal>)
        ensures
            outcome matches Ok(bytes) ==> bytes@ == self.covered(),
    {
        frame_bytes(&self.protocol, &self.host, &self.session_nonce, self.sequence, &self.body)
    }

    /// The bytes of an envelope, as it is sent.
    pub fn encode(&self) -> (outcome: Result<Vec<u8>, Refusal>)
        ensures
            outcome matches Ok(bytes) ==> bytes@ == packed_envelope(
                self.protocol@,
                self.host@,
                self.session_nonce@,
                self.sequence as int,
                self.body@,
                self.signer_identity_id@,
                self.signature@,
            ),
    {
        let nonce = &self.session_nonce;
        envelope_bytes(
            (&self.protocol, &self.host, nonce, self.sequence, &self.body),
            &self.signer_identity_id,
            &self.signature,
        )
    }

    /// Whether an envelope is one that is yet to be signed.
    pub open spec fn is_unsigned(
        &self,
        host: Seq<char>,
        nonce: Seq<u8>,
        sequence: u64,
        body: Seq<u8>,
        signer: Seq<char>,
    ) -> bool {
        &&& self.protocol@ == HOST_ACTUATOR_PROTOCOL@
        &&& self.host@ == host
        &&& self.session_nonce@ == nonce
        &&& self.sequence == sequence
        &&& self.body@ == body
        &&& self.signer_identity_id@ == signer
        &&& self.signature@.len() == 0
    }

    fn unsigned(
        host: &str,
        nonce: &[u8],
        sequence: u64,
        body: &[u8],
        signer: &str,
    ) -> (envelope: Self)
        ensures
            envelope.is_unsigned(host@, nonce@, sequence, body@, signer@),
    {
        HostActuatorEnvelope {
            protocol: HOST_ACTUATOR_PROTOCOL.to_owned(),
            host: host.to_owned(),
            session_nonce: copy_bytes(nonce),
            sequence,
            body: copy_bytes(body),
            signer_identity_id: signer.to_owned(),
            signature: Vec::new(),
        }
    }

    /// The envelope of a request, by its encoding, to be signed by Idunn.
    pub fn request(
        host: &str,
        session_nonce: &[u8],
        sequence: u64,
        request: &[u8],
        signer: &str,
    ) -> (envelope: Self)
        ensures
            envelope.is_unsigned(host@, session_nonce@, sequence, request@, signer@),
    {
        Self::unsigned(host, session_nonce, sequence, request, signer)
    }

    /// The envelope of a report, by its encoding, to be signed by the host.
    pub fn report(host: &str, session_nonce: &[u8], sequence: u64, report: &[u8], signer: &str) -> (
        envelope: Self)
        ensures
            envelope.is_unsigned(host@, session_nonce@, sequence, report@, signer@),
    {
        Self::unsigned(host, session_nonce, sequence, report, signer)
    }

    /// The envelope with its signature, and nothing else changed.
    pub fn with_signature(self, signature: Vec<u8>) -> (signed: Self)
        ensures
            signed == (HostActuatorEnvelope { signature, ..self }),
            signed.covered() == self.covered(),
    {
        HostActuatorEnvelope {
            protocol: self.protocol,
            host: self.host,
            session_nonce: self.session_nonce,
            sequence: self.sequence,
            body: self.body,
            signer_identity_id: self.signer_identity_id,
            signature,
        }
    }

    /// Why a request does not open for a host, if so.
    pub open spec fn request_refusal(
        &self,
        host: Seq<char>,
        is_signed: bool,
        decodes: bool,
    ) -> Option<Seq<char>> {
        either(
            self.shape_refusal(host),
            either(
                unless(is_signed, "host actuator request is not signed by the admitted Idunn"@),
                unless(decodes, "decoding host actuator request"@),
            ),
        )
    }

    /// Why a report does not open as one of a host, if so.
    pub open spec fn report_refusal(
        &self,
        host: Seq<char>,
        is_signed: bool,
        decodes: bool,
    ) -> Option<Seq<char>> {
        either(
            self.shape_refusal(host),
            either(
                unless(is_signed, "host actuator report is not signed by the admitted "@ + host),
                unless(decodes, "decoding host actuator report"@),
            ),
        )
    }

    /// Opens a request as the host that it is for, given whether the signature is that of
    /// the admitted Idunn, and what the body decodes to, if it does.
    pub fn open_request(
        &self,
        host: &str,
        is_signed: bool,
        decoded: Option<HostActuatorRequest>,
    ) -> (outcome: Result<HostActuatorRequest, Refusal>)
        ensures
            judged(outcome, self.request_refusal(host@, is_signed, decoded is Some)),
            outcome matches Ok(request) ==> decoded == Some(request),
    {
        self.validate_shape(host)?;
        check(is_signed, "host actuator request is not signed by the admitted Idunn")?;
        match decoded {
            Some(request) => Ok(request),
            None => Err(refuse("decoding host actuator request")),
        }
    }

    /// Opens a report as Idunn, given whether the signature is that of the admitted host,
    /// and what the body decodes to, if it does.
    pub fn open_report(&self, host: &str, is_signed: bool, decoded: Option<HostActuatorReport>) -> (
        outcome: Result<HostActuatorReport, Refusal>)
        ensures
            judged(outcome, self.report_refusal(host@, is_signed, decoded is Some)),
            outcome matches Ok(report) ==> decoded == Some(report),
    {
        self.validate_shape(host)?;
        let words = cat2("host actuator report is not signed by the admitted ", host);
        check(is_signed, words.as_str())?;
        match decoded {
            Some(report) => Ok(report),
            None => Err(refuse("decoding host actuator report")),
        }
    }
}

/// The session that an actuator keeps with Idunn: the nonce that it was welcomed with, once
/// it was, and the number of the last request that it took.
#[derive(Clone, Debug, PartialEq, Eq)]
pub struct HostSession {
    pub nonce: Option<Vec<u8>>,
    pub last_sequence: u64,
}

/// What a `HostSession` holds.
#[verifier::ext_equal]
pub struct HostSessionView {
    pub nonce: Option<Seq<u8>>,
    pub last_sequence: u64,
}

impl View for HostSession {
    type V = HostSessionView;

    open spec fn view(&self) -> HostSessionView {
        HostSessionView { nonce: bytes_option(self.nonce), last_sequence: self.last_sequence }
    }
}

/// What an actuator does with a request that it took.
#[derive(Clone, Copy, Debug, PartialEq, Eq, Structural)]
pub enum FrameAction {
    ReportWelcomed,
    ReportBusy,
    BeginBuild,
    Execute,
}

/// Why a request is not taken, if so.
pub open spec fn frame_refusal(
    session: HostSessionView,
    nonce: Seq<u8>,
    sequence: u64,
    is_welcome: bool,
) -> Option<Seq<char>> {
    if is_welcome {
        either(
            unless(
                session.nonce is None,
                "Idunn welcomed a session that was already open"@,
            ),
            unless(nonce.len() >= 16, "Welcome carries too short a nonce"@),
        )
    } else {
        either(
            unless(session.nonce is Some, "a request arrived before Welcome"@),
            either(
                unless(
                    session.nonce == Some(nonce),
                    "request carries another session's nonce"@,
                ),
                unless(
                    sequence > session.last_sequence,
                    "request sequence "@ + decimal(sequence as nat) + " does not advance past "@
                        + decimal(session.last_sequence as nat),
                ),
            ),
        )
    }
}

/// A session once it took a request.
pub open spec fn session_after(
    session: HostSessionView,
    nonce: Seq<u8>,
    sequence: u64,
    is_welcome: bool,
) -> HostSessionView {
    if is_welcome {
        HostSessionView { nonce: Some(nonce), last_sequence: sequence }
    } else {
        HostSessionView { nonce: session.nonce, last_sequence: sequence }
    }
}

/// What is done with a request that was taken.
pub open spec fn frame_action(request: HostActuatorRequest, building: bool) -> FrameAction {
    match request {
        HostActuatorRequest::Welcome => FrameAction::ReportWelcomed,
        HostActuatorRequest::Materialize { .. } => if building {
            FrameAction::ReportBusy
        } else {
            FrameAction::BeginBuild
        },
        _ => FrameAction::Execute,
    }
}

impl HostSession {
    /// A session that was not welcomed yet.
    pub fn new() -> (session: Self)
        ensures
            session@.nonce is None,
            session@.last_sequence == 0,
    {
        HostSession { nonce: None, last_sequence: 0 }
    }

    /// Takes a request that was opened, or refuses it and stays as it is.
    pub fn handle_frame(
        &mut self,
        envelope: &HostActuatorEnvelope,
        request: &HostActuatorRequest,
        building: bool,
    ) -> (outcome: Result<FrameAction, Refusal>)
        ensures
            ({
                let nonce = envelope.session_nonce@;
                let sequence = envelope.sequence;
                let is_welcome = *request is Welcome;
                &&& judged(outcome, frame_refusal(old(self)@, nonce, sequence, is_welcome))
                &&& outcome matches Ok(action) ==> {
                    &&& action == frame_action(*request, building)
                    &&& final(self)@ == session_after(old(self)@, nonce, sequence, is_welcome)
                }
                &&& outcome is Err ==> final(self)@ == old(self)@
            }),
    {
        let nonce = envelope.session_nonce.as_slice();
        if let HostActuatorRequest::Welcome = request {
            check(
                self.nonce.is_none(),
                "Idunn welcomed a session that was already open",
            )?;
            check(nonce.len() >= 16, "Welcome carries too short a nonce")?;
            self.nonce = Some(copy_bytes(nonce));
            self.last_sequence = envelope.sequence;
            return Ok(FrameAction::ReportWelcomed);
        }
        match &self.nonce {
            None => return Err(refuse("a request arrived before Welcome")),
            Some(kept) => check(
                same_bytes(nonce, kept.as_slice()),
                "request carries another session's nonce",
            )?,
        }
        let arrived = decimal_of(envelope.sequence);
        let last = decimal_of(self.last_sequence);
        let words = cat4(
            "request sequence ",
            arrived.as_str(),
            " does not advance past ",
            last.as_str(),
        );
        check(envelope.sequence > self.last_sequence, words.as_str())?;
        self.last_sequence = envelope.sequence;
        if let HostActuatorRequest::Materialize { .. } = request {
            if building {
                Ok(FrameAction::ReportBusy)
            } else {
                Ok(FrameAction::BeginBuild)
            }
        } else {
            Ok(FrameAction::Execute)
        }
    }
}

/// The report of a host that is asked for a second build.
pub fn busy_report() -> (report: HostActuatorReport)
    ensures
        report matches HostActuatorReport::Failed { error } && error@
            == "a build is already in flight on this host"@,
{
    HostActuatorReport::Failed { error: "a build is already in flight on this host".to_owned() }
}

/// What came of the work that a request asked for.
#[derive(Debug, PartialEq, Eq)]
pub enum HostDeed {
    Installed { installed: InstalledReleaseObservation },
    Prepared,
    Started { observation: HostWorkloadObservation },
    Observed { observation: HostWorkloadObservation },
    Stopped,
    Probed { running: bool },
    Discarded,
}

/// Whether a deed is of the kind that a request asks for. A welcome and a build ask for
/// none.
pub open spec fn is_deed_of(request: HostActuatorRequest, deed: HostDeed) -> bool {
    match request {
        HostActuatorRequest::Welcome => true,
        HostActuatorRequest::Materialize { .. } => true,
        HostActuatorRequest::Install { .. } => deed is Installed,
        HostActuatorRequest::PrepareActivation { .. } => deed is Prepared,
        HostActuatorRequest::Start { .. } => deed is Started,
        HostActuatorRequest::Observe { .. } => deed is Observed,
        HostActuatorRequest::Stop { .. } => deed is Stopped,
        HostActuatorRequest::Probe { .. } => deed is Probed,
        HostActuatorRequest::Discard { .. } => deed is Discarded,
    }
}

/// The report of a deed that a request asked for.
pub open spec fn deed_report(request: HostActuatorRequest, deed: HostDeed) -> HostActuatorReport {
    match deed {
        HostDeed::Installed { installed } => HostActuatorReport::Installed { installed },
        HostDeed::Prepared => HostActuatorReport::Prepared {
            activation: request->PrepareActivation_activation,
        },
        HostDeed::Started { observation } => HostActuatorReport::Started { observation },
        HostDeed::Observed { observation } => HostActuatorReport::Observed { observation },
        HostDeed::Stopped => HostActuatorReport::Stopped,
        HostDeed::Probed { running } => HostActuatorReport::Probed { running },
        HostDeed::Discarded => HostActuatorReport::Discarded,
    }
}

/// The report of a request whose work was done, or why there is none. A welcome and a build
/// have been dealt with before.
pub fn execute(request: HostActuatorRequest, done: Result<HostDeed, Refusal>) -> (outcome: Result<
    HostActuatorReport,
    Refusal,
>)
    requires
        done matches Ok(deed) ==> is_deed_of(request, deed),
    ensures
        if request is Welcome || request is Materialize {
            outcome matches Err(refusal) && refusal@ == "handled before execute"@
        } else {
            match done {
                Err(refusal) => outcome == Err::<HostActuatorReport, Refusal>(refusal),
                Ok(deed) => outcome == Ok::<HostActuatorReport, Refusal>(
                    deed_report(request, deed),
                ),
            }
        },
{
    match request {
        HostActuatorRequest::Welcome => return Err(refuse("handled before execute")),
        HostActuatorRequest::Materialize { .. } => return Err(refuse("handled before execute")),
        HostActuatorRequest::PrepareActivation { activation, .. } => {
            let _ = done?;
            return Ok(HostActuatorReport::Prepared { activation });
        },
        _ => {},
    }
    match done? {
        HostDeed::Installed { installed } => Ok(HostActuatorReport::Installed { installed }),
        HostDeed::Started { observation } => Ok(HostActuatorReport::Started { observation }),
        HostDeed::Observed { observation } => Ok(HostActuatorReport::Observed { observation }),
        HostDeed::Stopped => Ok(HostActuatorReport::Stopped),
        HostDeed::Probed { running } => Ok(HostActuatorReport::Probed { running }),
        HostDeed::Discarded => Ok(HostActuatorReport::Discarded),
        HostDeed::Prepared => Err(refuse("handled before execute")),
    }
}

/// What a request is answered: its report, or that it failed and why.
pub fn answer(outcome: Result<HostActuatorReport, Refusal>) -> (report: HostActuatorReport)
    ensures
        match outcome {
            Ok(done) => report == done,
            Err(refusal) => report == (HostActuatorReport::Failed { error: refusal.text }),
        },
{
    match outcome {
        Ok(report) => report,
        Err(refusal) => HostActuatorReport::Failed { error: refusal.text },
    }
}

/// What an actuator does at the end of one turn of its session.
#[derive(Clone, Copy, Debug, PartialEq, Eq)]
pub struct SessionTurn {
    pub ping: bool,
    pub poll_build: bool,
}

/// Ends one turn of a session, unless the session itself has ended: because Idunn said so,
/// or because it has not been heard from.
pub fn session_turn(
    farewell: &Option<String>,
    silent: bool,
    since_ping_millis: u64,
    welcomed: bool,
) -> (outcome: Result<SessionTurn, Refusal>)
    ensures
        judged(
            outcome,
            either(
                match *farewell {
                    None => None,
                    Some(reason) => Some("Idunn disconnected: "@ + reason@),
                },
                unless(!silent, "Idunn went silent"@),
            ),
        ),
        outcome matches Ok(turn) ==> turn.ping == (since_ping_millis >= HOST_ACTUATOR_PING_MS)
            && turn.poll_build == welcomed,
{
    if let Some(reason) = farewell {
        return Err(Refusal { text: cat2("Idunn disconnected: ", reason.as_str()) });
    }
    check(!silent, "Idunn went silent")?;
    Ok(SessionTurn { ping: since_ping_millis >= HOST_ACTUATOR_PING_MS, poll_build: welcomed })
}

/// How a build ended: with a release, with a refusal, or not at all.
#[derive(Debug, PartialEq, Eq)]
pub enum BuildEnd {
    Sealed { release: SealedRelease, root: String },
    Refused { error: String },
    Panicked,
}

/// The report of a build that ended.
pub fn build_report(end: BuildEnd) -> (report: HostActuatorReport)
    ensures
        match end {
            BuildEnd::Sealed { release, root } => report == (HostActuatorReport::Materialized {
                release,
                root,
            }),
            BuildEnd::Refused { error } => report == (HostActuatorReport::Failed { error }),
            BuildEnd::Panicked => report matches HostActuatorReport::Failed { error } && error@
                == "the build thread panicked"@,
        },
{
    match end {
        BuildEnd::Sealed { release, root } => HostActuatorReport::Materialized { release, root },
        BuildEnd::Refused { error } => HostActuatorReport::Failed { error },
        BuildEnd::Panicked => HostActuatorReport::Failed {
            error: "the build thread panicked".to_owned(),
        },
    }
}

/// An envelope that was made for a host, whatever signature it carries, opens for that host
/// exactly where its signature stands and its body is there and decodes. For another host it
/// opens in no case. So it is with requests and with reports.
pub proof fn an_envelope_opens_for_its_own_host_alone(
    envelope: HostActuatorEnvelope,
    host: Seq<char>,
    nonce: Seq<u8>,
    sequence: u64,
    body: Seq<u8>,
    signer: Seq<char>,
    signature: Vec<u8>,
    other: Seq<char>,
    is_signed: bool,
    decodes: bool,
)
    requires
        envelope.is_unsigned(host, nonce, sequence, body, signer),
    ensures
        ({
            let signed = HostActuatorEnvelope { signature, ..envelope };
            &&& signed.covered() == envelope.covered()
            &&& signed.request_refusal(host, is_signed, decodes) is None <==> (body.len() > 0
                && is_signed && decodes)
            &&& signed.report_refusal(host, is_signed, decodes) is None <==> (body.len() > 0
                && is_signed && decodes)
            &&& other != host ==> signed.request_refusal(other, is_signed, decodes) is Some
            &&& other != host ==> signed.report_refusal(other, is_signed, decodes) is Some
        }),
{
}

/// A session is welcomed once: whatever it has taken since, no later welcome is taken.
pub proof fn a_session_is_welcomed_once(session: HostSessionView, nonce: Seq<u8>, sequence: u64)
    requires
        session.nonce is Some,
    ensures
        frame_refusal(session, nonce, sequence, true) is Some,
{
}

/// No request is taken twice, and none out of order: what a session took, and everything
/// numbered before it, is refused from then on.
pub proof fn no_request_is_taken_twice(
    session: HostSessionView,
    nonce: Seq<u8>,
    sequence: u64,
    is_welcome: bool,
    later_nonce: Seq<u8>,
    later_sequence: u64,
    later_is_welcome: bool,
)
    requires
        frame_refusal(session, nonce, sequence, is_welcome) is None,
        later_sequence <= sequence,
    ensures
        frame_refusal(
            session_after(session, nonce, sequence, is_welcome),
            later_nonce,
            later_sequence,
            later_is_welcome,
        ) is Some,
{
}

/// Nothing is done for Idunn before it has welcomed the session, and nothing on the word of
/// another session.
pub proof fn only_the_welcoming_session_is_served(
    session: HostSessionView,
    nonce: Seq<u8>,
    sequence: u64,
)
    requires
        frame_refusal(session, nonce, sequence, false) is None,
    ensures
        session.nonce == Some(nonce),
{
}

} // verus!
