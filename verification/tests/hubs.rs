use idunn_drivers::building::SealedRelease;
use idunn_drivers::hub::{
    admit_hello, admit_hub_endpoint, mint_nonce, service, settle_hub_endpoint, HostActuatorHub,
    HubAction, HubEvent, HubSession,
};
use idunn_drivers::observation::{
    HostWorkloadObservation, InstalledReleaseObservation, WorkloadObservation,
};
use idunn_drivers::protocol::{
    answer, build_report, busy_report, execute, session_turn, BuildEnd, FrameAction,
    HostActuatorEnvelope, HostActuatorReport, HostActuatorRequest, HostDeed, HostSession,
    SessionTurn, HOST_ACTUATOR_CHANNEL, HOST_ACTUATOR_CONNECTION_ID,
    HOST_ACTUATOR_PING_MS, HOST_ACTUATOR_PROTOCOL, HOST_ACTUATOR_SESSION_TIMEOUT_MS,
};
use idunn_drivers::records::{IdunnExpectedIncarnationRecord, IdunnRuntimeActivationRecord};
use idunn_drivers::remote::{
    check_observation, settle_discard, settle_install, settle_materialize, settle_observe,
    settle_prepare, settle_probe, settle_start, settle_stop,
};
use idunn_drivers::text::Refusal;

fn digest(byte: char) -> String {
    format!("sha256-{}", byte.to_string().repeat(64))
}

fn refusal(text: &str) -> Refusal {
    Refusal { text: text.to_owned() }
}

fn request(sequence: u64, nonce: &[u8]) -> HostActuatorEnvelope {
    HostActuatorEnvelope::request("raven", nonce, sequence, b"body", "idunn")
        .with_signature(vec![9; 64])
}

fn report(sequence: u64, nonce: &[u8]) -> HostActuatorEnvelope {
    HostActuatorEnvelope::report("raven", nonce, sequence, b"body", "actuator")
        .with_signature(vec![9; 64])
}

type Parts = (String, String, Vec<u8>, u64, Vec<u8>, String, Vec<u8>);

fn read_back(bytes: &[u8]) -> HostActuatorEnvelope {
    let (protocol, host, session_nonce, sequence, body, signer_identity_id, signature): Parts =
        rmp_serde::from_slice(bytes).unwrap();
    HostActuatorEnvelope {
        protocol,
        host,
        session_nonce,
        sequence,
        body,
        signer_identity_id,
        signature,
    }
}

fn hello() -> HostActuatorReport {
    HostActuatorReport::Hello { platform: "windows".into(), actuator_version: "0.1.0".into() }
}

#[test]
fn a_request_opens_only_under_idunns_anchor_and_only_for_its_host() -> Result<(), Refusal> {
    let nonce = vec![7; 16];
    let envelope = HostActuatorEnvelope::request("raven", &nonce, 3, b"welcome", "idunn");
    let covered = envelope.signed_payload()?;
    let signed = envelope.with_signature(vec![1; 64]);
    let decoded = read_back(&signed.encode()?);
    assert_eq!(decoded, signed);
    assert_eq!(decoded.protocol, HOST_ACTUATOR_PROTOCOL);
    assert_eq!(decoded.sequence, 3);
    assert_eq!(decoded.signed_payload()?, covered);
    let welcome = || Some(HostActuatorRequest::Welcome);
    assert_eq!(
        decoded.open_request("raven", true, welcome())?,
        HostActuatorRequest::Welcome
    );
    assert_eq!(
        decoded.open_request("nightwing", true, welcome()).unwrap_err().text,
        "host actuator envelope is for host \"raven\", not \"nightwing\""
    );
    // A signature under another anchor is no signature of the admitted Idunn.
    assert_eq!(
        decoded.open_request("raven", false, welcome()).unwrap_err().text,
        "host actuator request is not signed by the admitted Idunn"
    );
    // A tampered number changes what the signature has to cover.
    let mut tampered = decoded.clone();
    tampered.sequence = 4;
    assert_ne!(tampered.signed_payload()?, covered);
    assert_eq!(
        decoded.open_request("raven", true, None).unwrap_err().text,
        "decoding host actuator request"
    );
    Ok(())
}

#[test]
fn a_report_opens_only_under_the_hosts_anchor() -> Result<(), Refusal> {
    let envelope = HostActuatorEnvelope::report("raven", &[], 0, b"hello", "actuator");
    assert_eq!(envelope.open_report("raven", true, Some(hello()))?, hello());
    assert_eq!(
        envelope.open_report("raven", false, Some(hello())).unwrap_err().text,
        "host actuator report is not signed by the admitted raven"
    );
    assert_eq!(
        envelope.open_report("raven", true, None).unwrap_err().text,
        "decoding host actuator report"
    );
    Ok(())
}

#[test]
fn what_a_signature_covers_is_packed_in_order() -> Result<(), Refusal> {
    let envelope = request(3, &[7; 16]);
    let packed = rmp_serde::to_vec(&(
        &envelope.protocol,
        &envelope.host,
        &envelope.session_nonce,
        envelope.sequence,
        &envelope.body,
    ))
    .unwrap();
    assert_eq!(envelope.signed_payload()?, packed);
    Ok(())
}

#[test]
fn an_envelope_is_refused_by_its_shape_first() {
    let mut spoken = request(1, &[7; 16]);
    spoken.protocol = "other".into();
    assert_eq!(
        spoken.validate_shape("raven").unwrap_err().text,
        "host actuator envelope speaks \"other\", not gamecult.idunn.host_actuator.v1"
    );
    let mut empty = request(1, &[7; 16]);
    empty.body = Vec::new();
    assert_eq!(
        empty.validate_shape("raven").unwrap_err().text,
        "host actuator envelope has no body"
    );
    assert_eq!(HOST_ACTUATOR_CHANNEL, "schema");
    assert_eq!(HOST_ACTUATOR_CONNECTION_ID, u32::from_be_bytes(*b"IDNH"));
    assert_eq!(HOST_ACTUATOR_SESSION_TIMEOUT_MS, 3 * HOST_ACTUATOR_PING_MS);
}

fn materialize() -> HostActuatorRequest {
    HostActuatorRequest::Materialize {
        transaction_id: "tx".into(),
        plan: Vec::new(),
        sealed_at_unix_millis: 1,
    }
}

#[test]
fn a_session_takes_requests_once_and_in_order() -> Result<(), Refusal> {
    let nonce = vec![7; 16];
    let mut session = HostSession::new();
    let probe = HostActuatorRequest::Probe { prior: observation() };
    assert_eq!(
        session.handle_frame(&request(2, &nonce), &probe, false).unwrap_err().text,
        "a request arrived before Welcome"
    );
    assert_eq!(
        session
            .handle_frame(&request(1, &[7; 15]), &HostActuatorRequest::Welcome, false)
            .unwrap_err()
            .text,
        "Welcome carries too short a nonce"
    );
    assert_eq!(
        session.handle_frame(&request(1, &nonce), &HostActuatorRequest::Welcome, false)?,
        FrameAction::ReportWelcomed
    );
    assert_eq!(
        session
            .handle_frame(&request(9, &nonce), &HostActuatorRequest::Welcome, false)
            .unwrap_err()
            .text,
        "Idunn welcomed a session that was already open"
    );
    assert_eq!(session.handle_frame(&request(2, &nonce), &probe, false)?, FrameAction::Execute);
    assert_eq!(
        session.handle_frame(&request(2, &nonce), &probe, false).unwrap_err().text,
        "request sequence 2 does not advance past 2"
    );
    assert_eq!(
        session.handle_frame(&request(3, &[8; 16]), &probe, false).unwrap_err().text,
        "request carries another session's nonce"
    );
    assert_eq!(session.last_sequence, 2);
    assert_eq!(
        session.handle_frame(&request(3, &nonce), &materialize(), false)?,
        FrameAction::BeginBuild
    );
    assert_eq!(
        session.handle_frame(&request(4, &nonce), &materialize(), true)?,
        FrameAction::ReportBusy
    );
    assert_eq!(
        busy_report(),
        HostActuatorReport::Failed { error: "a build is already in flight on this host".into() }
    );
    Ok(())
}

#[test]
fn a_build_that_ended_is_reported_as_it_ended() {
    assert_eq!(
        build_report(BuildEnd::Refused { error: "no".into() }),
        HostActuatorReport::Failed { error: "no".into() }
    );
    assert_eq!(
        build_report(BuildEnd::Panicked),
        HostActuatorReport::Failed { error: "the build thread panicked".into() }
    );
    assert_eq!(
        build_report(BuildEnd::Sealed { release: release(), root: "/s".into() }),
        HostActuatorReport::Materialized { release: release(), root: "/s".into() }
    );
}

fn session(generation: u64) -> HubSession {
    HubSession { remote_addr: "10.77.0.9:5000".into(), generation }
}

/// Hello attaches under the bound anchor, an unknown host is refused, a request is answered.
#[test]
fn a_hub_attaches_a_hello_it_can_verify_and_answers_a_request() -> Result<(), Refusal> {
    let mut hub = HostActuatorHub::new();
    let opening = report(0, &[]);
    admit_hello(&opening, true, &Ok(hello()))?;
    assert_eq!(
        admit_hello(&opening, false, &Ok(hello())).unwrap_err().text,
        "no workload binding names host \"raven\""
    );
    let nonce = mint_nonce();
    assert!(hub.attach("raven", session(1), nonce.clone()).is_none());
    assert!(hub.is_attached("raven"));
    hub.accept_report(&session(1), &report(1, &nonce), true, Ok(HostActuatorReport::Welcomed))?;

    assert!(hub.may_request("raven") && hub.may_request("nightwing"));
    let ticket = hub.begin_request("raven")?;
    assert_eq!(ticket.sequence, 2);
    assert_eq!(ticket.nonce, nonce);
    assert_eq!(hub.poll_request("raven", &ticket, false, "5s")?, None);
    hub.accept_report(
        &session(1),
        &report(ticket.sequence, &nonce),
        true,
        Ok(HostActuatorReport::Probed { running: false }),
    )?;
    assert_eq!(
        hub.poll_request("raven", &ticket, false, "5s")?,
        Some(HostActuatorReport::Probed { running: false })
    );
    assert_eq!(
        hub.begin_request("nightwing").unwrap_err().text,
        "host actuator nightwing is not attached"
    );
    Ok(())
}

#[test]
fn a_session_is_opened_by_nothing_but_a_first_hello() {
    assert_eq!(
        admit_hello(&report(1, &[]), true, &Ok(hello())).unwrap_err().text,
        "host actuator Hello carries a session it does not have yet"
    );
    assert_eq!(
        admit_hello(&report(0, &[1]), true, &Ok(hello())).unwrap_err().text,
        "host actuator Hello carries a session it does not have yet"
    );
    assert_eq!(
        admit_hello(&report(0, &[]), true, &Ok(HostActuatorReport::Stopped)).unwrap_err().text,
        "host actuator opened its session with something other than Hello"
    );
    assert_eq!(
        admit_hello(&report(0, &[]), true, &Err(refusal("unsigned"))).unwrap_err().text,
        "unsigned"
    );
}

#[test]
fn nothing_is_taken_in_from_another_session() -> Result<(), Refusal> {
    let mut hub = HostActuatorHub::new();
    let nonce = mint_nonce();
    let stopped = || Ok(HostActuatorReport::Stopped);
    assert_eq!(
        hub.accept_report(&session(1), &report(2, &nonce), true, stopped()).unwrap_err().text,
        "host \"raven\" is not attached"
    );
    hub.attach("raven", session(1), nonce.clone());
    assert_eq!(
        hub.accept_report(&session(2), &report(2, &nonce), true, stopped()).unwrap_err().text,
        "report arrived on a session that is not the attached one for \"raven\""
    );
    assert_eq!(
        hub.accept_report(&session(1), &report(2, &[0; 16]), true, stopped()).unwrap_err().text,
        "report carries another session's nonce"
    );
    assert_eq!(
        hub.accept_report(&session(1), &report(2, &nonce), false, stopped()).unwrap_err().text,
        "no workload binding names host \"raven\""
    );
    assert_eq!(
        hub.accept_report(&session(1), &report(2, &nonce), true, Err(refusal("unsigned")))
            .unwrap_err()
            .text,
        "unsigned"
    );
    assert_eq!(
        hub.accept_report(&session(1), &report(1, &nonce), true, stopped()).unwrap_err().text,
        "sequence 1 must be the Welcome acknowledgement"
    );
    let ticket = hub.begin_request("raven")?;
    assert_eq!(hub.poll_request("raven", &ticket, false, "5s")?, None);
    Ok(())
}

#[test]
fn a_request_ends_with_its_session_its_time_or_its_failure() -> Result<(), Refusal> {
    let mut hub = HostActuatorHub::new();
    let nonce = mint_nonce();
    hub.attach("raven", session(1), nonce.clone());
    let first = hub.begin_request("raven")?;
    let second = hub.begin_request("raven")?;
    assert_eq!((first.sequence, second.sequence), (2, 3));
    hub.accept_report(&session(1), &report(2, &nonce), true, Ok(HostActuatorReport::Stopped))?;
    // Polling for the later request drops the answer to the earlier one.
    assert_eq!(
        hub.poll_request("raven", &second, true, "5s").unwrap_err().text,
        "host actuator raven did not answer within 5s"
    );
    assert_eq!(hub.poll_request("raven", &first, false, "5s")?, None);
    hub.accept_report(
        &session(1),
        &report(3, &nonce),
        true,
        Ok(HostActuatorReport::Failed { error: "disk full".into() }),
    )?;
    assert_eq!(
        hub.poll_request("raven", &second, false, "5s").unwrap_err().text,
        "host actuator raven failed: disk full"
    );
    assert_eq!(hub.attach("raven", session(2), mint_nonce()), Some(session(1)));
    assert_eq!(
        hub.poll_request("raven", &second, false, "5s").unwrap_err().text,
        "host actuator raven reconnected while a request was outstanding"
    );
    assert!(hub.detach_session(&session(1)).is_empty());
    assert_eq!(hub.detach_session(&session(2)), vec!["raven"]);
    assert_eq!(
        hub.poll_request("raven", &second, false, "5s").unwrap_err().text,
        "host actuator raven detached while a request was outstanding"
    );
    Ok(())
}

#[test]
fn attached_hosts_are_told_in_order() {
    let mut hub = HostActuatorHub::new();
    for host in ["raven", "nightwing", "oracle"] {
        hub.attach(host, session(1), mint_nonce());
    }
    hub.attach("batgirl", session(2), mint_nonce());
    assert_eq!(hub.attached_hosts(), vec!["batgirl", "nightwing", "oracle", "raven"]);
    assert_eq!(hub.detach_session(&session(1)), vec!["nightwing", "oracle", "raven"]);
    assert_eq!(hub.attached_hosts(), vec!["batgirl"]);
}

#[test]
fn a_nonce_is_minted_anew_each_time() {
    let one = mint_nonce();
    let two = mint_nonce();
    assert_eq!(one.len(), 16);
    assert_ne!(one, two);
    assert_eq!(one[6] & 0xf0, 0x40);
    assert_eq!(one[8] & 0xc0, 0x80);
}

#[test]
fn the_hub_is_admitted_on_one_address_only() {
    assert_eq!(
        admit_hub_endpoint("10.77.0.1:17890", "10.77.0.1", 17890, false).unwrap().join(" "),
        "allow in to 10.77.0.1 port 17890 proto udp comment Idunn host actuator hub"
    );
    assert!(admit_hub_endpoint("0.0.0.0:17890", "0.0.0.0", 17890, true)
        .unwrap_err()
        .text
        .ends_with("; 0.0.0.0:17890 is unspecified"));
    assert!(settle_hub_endpoint(true, "").is_ok());
    assert_eq!(
        settle_hub_endpoint(false, " denied\n").unwrap_err().text,
        "ufw refused the host actuator hub allow: denied"
    );
}

fn release() -> SealedRelease {
    SealedRelease {
        sealed_release_id: digest('2'),
        plan_id: digest('1'),
        sealed_at_unix_millis: 5,
        artifacts: Vec::new(),
        external_inputs: Vec::new(),
    }
}

fn observation() -> HostWorkloadObservation {
    HostWorkloadObservation {
        host: "raven".into(),
        actuator_identity_id: "actuator".into(),
        process_id: 4242,
        process_creation_time: 77,
        session_id: 2,
        user_sid: "S-1-5".into(),
        executable: "C:/service.exe".into(),
        executable_sha256: digest('5'),
        command_line_sha256: digest('c'),
        environment_names: Vec::new(),
        environment_contract_sha256: digest('e'),
        runtime_bundle: "/runtime/b".into(),
        runtime_instance_id: digest('a'),
        activation_signer_identity_id: "activation".into(),
        activation_signer_public_key: vec![1; 32],
        exit_code: None,
    }
}

fn expected() -> IdunnExpectedIncarnationRecord {
    IdunnExpectedIncarnationRecord {
        target: "service".into(),
        runtime_id: "service-runtime".into(),
        plan_id: digest('1'),
        incarnation_id: "incarnation-1".into(),
        sealed_release_id: digest('2'),
        artifact_sha256: digest('5'),
        expected_signer_identity_id: "service-signer".into(),
        state_schema_generation: None,
        state_contract_sha256: None,
        write_lease_required: false,
        route: None,
        canonical_sha256: digest('8'),
        canonical_bytes: b"expected".to_vec(),
    }
}

fn activation() -> IdunnRuntimeActivationRecord {
    IdunnRuntimeActivationRecord {
        expected_projection_sha256: digest('8'),
        runtime_id: "service-runtime".into(),
        runtime_instance_id: digest('a'),
        activation_signer_identity_id: "activation".into(),
        activation_signer_public_key: vec![1; 32],
        issued_at_unix_millis: 100,
        canonical_sha256: digest('9'),
        canonical_bytes: b"activation".to_vec(),
    }
}

#[test]
fn a_made_release_is_believed_as_it_was_asked_for() {
    let made = |release: SealedRelease, root: &str| HostActuatorReport::Materialized {
        release,
        root: root.into(),
    };
    let kept = settle_materialize(made(release(), "/s"), "raven", "", &Ok(()), 5).unwrap();
    assert_eq!(kept.root, "/s");
    let words = |report, stands: &Result<(), Refusal>, at| {
        settle_materialize(report, "raven", "Stopped", stands, at).unwrap_err().text
    };
    assert_eq!(
        words(HostActuatorReport::Stopped, &Ok(()), 5),
        "host actuator raven answered Materialize with Stopped"
    );
    assert_eq!(words(made(release(), "/s"), &Err(refusal("foreign")), 5), "foreign");
    assert_eq!(
        words(made(release(), "/s"), &Ok(()), 6),
        "host actuator sealed the release at another time than asked"
    );
    assert_eq!(words(made(release(), ""), &Ok(()), 5), "host actuator reported no staging root");
}

#[test]
fn an_installation_and_a_preparation_are_of_what_was_asked() {
    let installed = InstalledReleaseObservation {
        sealed_release_id: digest('2'),
        root: "/releases/r".into(),
    };
    let report = HostActuatorReport::Installed { installed: installed.clone() };
    assert_eq!(settle_install(report.clone(), "raven", "", &release()).unwrap(), installed);
    let mut other = release();
    other.sealed_release_id = digest('3');
    assert_eq!(
        settle_install(report, "raven", "", &other).unwrap_err().text,
        "host actuator installed another release"
    );
    let prepared = HostActuatorReport::Prepared { activation: activation() };
    assert!(settle_prepare(&prepared, "raven", "", &activation()).is_ok());
    let mut issued = activation();
    issued.issued_at_unix_millis = 101;
    assert_eq!(
        settle_prepare(&prepared, "raven", "", &issued).unwrap_err().text,
        "host actuator prepared another activation than the one issued"
    );
    assert!(settle_discard(&HostActuatorReport::Discarded, "raven", "").is_ok());
    assert_eq!(
        settle_discard(&HostActuatorReport::Stopped, "raven", "Stopped").unwrap_err().text,
        "host actuator raven answered Discard with Stopped"
    );
    assert!(settle_stop(&HostActuatorReport::Stopped, "raven", "").is_ok());
    assert!(settle_stop(&HostActuatorReport::Discarded, "raven", "Discarded").is_err());
    assert!(!settle_probe(&HostActuatorReport::Probed { running: true }, "raven", "").unwrap());
    assert!(settle_probe(&HostActuatorReport::Probed { running: false }, "raven", "").unwrap());
    assert!(settle_probe(&HostActuatorReport::Stopped, "raven", "Stopped").is_err());
}

#[test]
fn a_reported_workload_is_believed_only_as_what_is_expected() {
    let words = |change: &dyn Fn(&mut HostWorkloadObservation)| {
        let mut found = observation();
        change(&mut found);
        check_observation("raven", &found, &expected(), &activation()).unwrap_err().text
    };
    assert!(check_observation("raven", &observation(), &expected(), &activation()).is_ok());
    assert_eq!(words(&|o| o.host = "nightwing".into()), "observation names another host");
    assert_eq!(
        words(&|o| o.activation_signer_public_key = vec![2; 32]),
        "observation belongs to another activation"
    );
    assert_eq!(
        words(&|o| o.executable_sha256 = digest('6')),
        "host workload executable differs from Expected"
    );
    assert_eq!(words(&|o| o.process_id = 0), "host workload has no process");
    assert_eq!(words(&|o| o.process_creation_time = 0), "host workload has no creation time");

    let started = HostActuatorReport::Started { observation: observation() };
    assert_eq!(
        settle_start(started, "raven", "", &expected(), &activation()).unwrap(),
        WorkloadObservation::Host(observation())
    );
    let mut ended = observation();
    ended.exit_code = Some(3);
    let report = HostActuatorReport::Started { observation: ended.clone() };
    assert_eq!(
        settle_start(report, "raven", "", &expected(), &activation()).unwrap_err().text,
        "host workload exited during start"
    );
    let later = |found: HostWorkloadObservation| {
        settle_observe(
            HostActuatorReport::Observed { observation: found },
            "",
            &observation(),
            &expected(),
            &activation(),
        )
    };
    assert!(later(observation()).is_ok());
    assert_eq!(
        later(ended).unwrap_err().text,
        format!("host workload {} pid 4242 exited with code 3", digest('a'))
    );
    let mut moved = observation();
    moved.process_creation_time = 78;
    assert_eq!(
        later(moved).unwrap_err().text,
        "host workload identity changed after observation"
    );
}

#[test]
fn a_deed_is_reported_as_the_request_asked() -> Result<(), Refusal> {
    let prepare = HostActuatorRequest::PrepareActivation {
        plan: vec![1],
        expected: expected(),
        activation: activation(),
        credential: vec![2],
    };
    assert_eq!(
        execute(prepare, Ok(HostDeed::Prepared))?,
        HostActuatorReport::Prepared { activation: activation() }
    );
    let stop = || HostActuatorRequest::Stop { observation: observation() };
    assert_eq!(execute(stop(), Ok(HostDeed::Stopped))?, HostActuatorReport::Stopped);
    let failed = execute(stop(), Err(refusal("still running")));
    assert_eq!(answer(failed), HostActuatorReport::Failed { error: "still running".into() });
    let probe = HostActuatorRequest::Probe { prior: observation() };
    assert_eq!(
        answer(execute(probe, Ok(HostDeed::Probed { running: true }))),
        HostActuatorReport::Probed { running: true }
    );
    assert_eq!(
        execute(HostActuatorRequest::Welcome, Ok(HostDeed::Stopped)).unwrap_err().text,
        "handled before execute"
    );
    assert_eq!(
        execute(materialize(), Ok(HostDeed::Stopped)).unwrap_err().text,
        "handled before execute"
    );
    Ok(())
}

#[test]
fn a_session_turns_until_idunn_is_gone() {
    assert_eq!(
        session_turn(&None, false, 4_999, false).unwrap(),
        SessionTurn { ping: false, poll_build: false }
    );
    assert_eq!(
        session_turn(&None, false, 5_000, true).unwrap(),
        SessionTurn { ping: true, poll_build: true }
    );
    assert_eq!(
        session_turn(&Some("refused".into()), true, 0, true).unwrap_err().text,
        "Idunn disconnected: refused"
    );
    assert_eq!(session_turn(&None, true, 0, true).unwrap_err().text, "Idunn went silent");
}

#[test]
fn the_hub_serves_only_the_channel_of_reports() {
    assert_eq!(service(&HubEvent::Connected), HubAction::Attach);
    assert_eq!(
        service(&HubEvent::Frame { channel: "schema".into() }),
        HubAction::AcceptReport
    );
    assert_eq!(service(&HubEvent::Frame { channel: "other".into() }), HubAction::Ignore);
    assert_eq!(service(&HubEvent::Pong), HubAction::Ignore);
    assert_eq!(service(&HubEvent::Disconnected), HubAction::Detach);
    assert_eq!(service(&HubEvent::TimedOut), HubAction::Detach);
}
