use idunn_drivers::digest::sha256_id;
use idunn_drivers::fresh::fresh_rehearsal;
use idunn_drivers::records::{ExpectedRoute, IdunnExpectedIncarnationRecord};
use idunn_drivers::route::{
    admit_route_actuator, current_configuration, nginx_identifier, settle_endpoint_withdrawal,
    settle_route_actuator, settle_validation, systemd_read_only_bind_property, FailedInstallation,
    NginxRouteDriver, RouteBinding, RouteDriver, RouteObservation, RoutePreflightReceipt,
};
use idunn_drivers::text::Refusal;

fn digest(byte: char) -> String {
    format!("sha256-{}", byte.to_string().repeat(64))
}

fn refusal(text: &str) -> Refusal {
    Refusal { text: text.to_owned() }
}

fn expected(route: Option<ExpectedRoute>) -> IdunnExpectedIncarnationRecord {
    IdunnExpectedIncarnationRecord {
        target: "service".into(),
        runtime_id: "service-runtime".into(),
        plan_id: digest('1'),
        incarnation_id: "incarnation-1".into(),
        sealed_release_id: digest('2'),
        artifact_sha256: digest('5'),
        expected_signer_identity_id: "service-signer".into(),
        state_schema_generation: Some("state-v1".into()),
        state_contract_sha256: Some(digest('6')),
        write_lease_required: true,
        route,
        canonical_sha256: digest('8'),
        canonical_bytes: b"expected".to_vec(),
    }
}

fn udp_binding(route_id: &str, stable: &str) -> RouteBinding {
    RouteBinding {
        driver: RouteDriver::NginxStreamUdp,
        route_id: route_id.into(),
        stable_endpoint: stable.into(),
        private_host: "127.0.0.1".into(),
        private_port_start: 27872,
        private_port_end: 27879,
        config_path: "/etc/nginx/idunn-stream-routes/odin-rudp.conf".into(),
        reload_unit: "nginx.service".into(),
    }
}

fn tcp_driver() -> NginxRouteDriver {
    NginxRouteDriver::new(RouteBinding {
        driver: RouteDriver::NginxStreamTcp,
        route_id: "service-route".into(),
        stable_endpoint: "http://127.0.0.1:4103".into(),
        private_host: "127.0.0.1".into(),
        private_port_start: 4104,
        private_port_end: 4109,
        config_path: "/etc/nginx/route.conf".into(),
        reload_unit: "nginx.service".into(),
    })
}

fn tcp_candidate() -> IdunnExpectedIncarnationRecord {
    expected(Some(ExpectedRoute {
        route_id: "service-route".into(),
        transport: "http".into(),
        stable_endpoint: "http://127.0.0.1:4103".into(),
        candidate_endpoint: "http://127.0.0.1:4104".into(),
    }))
}

#[test]
fn withdrawing_the_last_route_membership_withdraws_its_firewall_allow() {
    let driver = NginxRouteDriver::new(udp_binding("odin-rendezvous", "rudp://10.77.0.1:17971"));
    assert_eq!(
        driver.endpoint_rule("10.77.0.1", 17971).join(" "),
        "allow in to 10.77.0.1 port 17971 proto udp"
    );
    let restoration = driver.restore(&None);
    assert_eq!(restoration.content, None);
    assert!(restoration.close_endpoint);
    assert_eq!(
        driver.withdraw_endpoint("10.77.0.1", 17971).join(" "),
        "delete allow in to 10.77.0.1 port 17971 proto udp"
    );
    assert!(settle_endpoint_withdrawal(Ok(())).is_ok());
    let gone = settle_route_actuator(
        "/usr/sbin/ufw",
        false,
        "exit status: 1",
        "Could not delete non-existent rule\n",
    );
    assert!(gone.is_err());
    assert!(settle_endpoint_withdrawal(gone).is_ok());
    assert_eq!(
        settle_endpoint_withdrawal(Err(refusal("ufw is broken"))).unwrap_err().text,
        "withdrawing the stable endpoint from the host firewall: ufw is broken"
    );
    let kept = driver.restore(&Some(b"server {}".to_vec()));
    assert!(!kept.close_endpoint);
    assert_eq!(kept.content, Some(b"server {}".to_vec()));
}

#[test]
fn an_empty_route_fragment_is_absence_not_a_membership() -> Result<(), Refusal> {
    assert_eq!(current_configuration(Ok(None))?, None);
    assert_eq!(
        current_configuration(Ok(Some(Vec::new())))?,
        None,
        "an empty fragment must not read as an unadmitted incumbent"
    );
    assert_eq!(
        current_configuration(Ok(Some(b"server {}".to_vec())))?,
        Some(b"server {}".to_vec())
    );
    assert!(current_configuration(Err(refusal("unreadable"))).is_err());
    Ok(())
}

#[test]
fn nginx_rudp_route_is_rendered_as_a_udp_stream_proxy() -> Result<(), Refusal> {
    let driver = NginxRouteDriver::new(udp_binding("odin-rudp", "rudp://127.0.0.1:17872"));
    let candidate = expected(Some(ExpectedRoute {
        route_id: "odin-rudp".into(),
        transport: "rudp".into(),
        stable_endpoint: "rudp://127.0.0.1:17872".into(),
        candidate_endpoint: "rudp://127.0.0.1:27872".into(),
    }));
    let rendered = String::from_utf8(driver.render(&candidate)?).unwrap();
    assert!(rendered.contains("listen 127.0.0.1:17872 udp reuseport;"));
    assert!(rendered.contains("server 127.0.0.1:27872;"));
    assert!(rendered.contains(&digest('8')));
    Ok(())
}

#[test]
fn nginx_preflight_binds_exact_incumbent_configuration_without_claiming_live_route() -> Result<(), Refusal> {
    let driver = tcp_driver();
    let candidate = tcp_candidate();
    let rendered = driver.render(&candidate)?;
    assert!(std::str::from_utf8(&rendered).unwrap().contains("listen 127.0.0.1:4103;"));
    assert!(std::str::from_utf8(&rendered).unwrap().contains("server 127.0.0.1:4104"));

    let baseline = driver.preflight(&candidate, Ok(None), &None)?;
    assert_eq!(baseline.rendered, rendered);
    assert_eq!(baseline.current, None);
    let preflight = driver.settle_preflight(baseline, &digest('a'), &None, Ok(None))?;
    preflight.validate()?;
    assert_eq!(preflight.candidate_membership_sha256, sha256_id(&rendered));
    assert_eq!(preflight.incumbent_configuration, None);

    let installation =
        driver.install(&candidate, &digest('a'), &preflight, Ok(Some(rendered.clone())))?;
    assert!(installation.already_written);
    assert_eq!(
        driver.admit_endpoint("127.0.0.1", 4103).join(" "),
        "allow in to 127.0.0.1 port 4103 proto tcp comment Idunn route service-route"
    );
    let membership = driver.settle_install(&installation, Ok(Some(rendered.clone())))?;
    assert_eq!(membership, sha256_id(&rendered));
    assert!(driver.observe_membership(&candidate, &membership, Ok(Some(rendered.clone())))?);
    let admitted = RouteObservation {
        route_id: "service-route".into(),
        runtime_instance_id: digest('a'),
        membership_sha256: membership.clone(),
        signed_presence_sha256: digest('c'),
        observed_at_unix_millis: 1,
    };
    admitted.validate()?;

    let incumbent = Some(admitted.clone());
    let baseline = driver.preflight(&candidate, Ok(Some(rendered.clone())), &incumbent)?;
    let next =
        driver.settle_preflight(baseline, &digest('b'), &incumbent, Ok(Some(rendered.clone())))?;
    assert_eq!(next.incumbent_configuration, Some(rendered.clone()));
    assert_eq!(next.incumbent_runtime_instance_id, Some(digest('a')));
    match driver.fail_installation(&next, true) {
        FailedInstallation::RollBack { restoration, .. } => {
            assert_eq!(restoration.content, Some(rendered.clone()))
        }
        FailedInstallation::Retain { .. } => panic!("a failed reload rolls back"),
    }
    assert!(matches!(driver.fail_installation(&next, false), FailedInstallation::Retain { .. }));
    assert!(driver.install(&candidate, &digest('b'), &next, Ok(Some(rendered.clone()))).is_ok());
    assert!(driver
        .install(&candidate, &digest('b'), &next, Ok(Some(b"foreign route\n".to_vec())))
        .is_err());

    assert_eq!(driver.restore_admitted_membership(&candidate, &membership)?, rendered);
    assert!(driver.must_write(&rendered, Ok(Some(b"foreign route\n".to_vec())))?);
    assert!(!driver.must_write(&rendered, Ok(Some(rendered.clone())))?);
    driver.settle_restoration(&rendered, Ok(Some(rendered.clone())))?;
    assert!(driver.settle_restoration(&rendered, Ok(None)).is_err());
    assert!(driver.restore_admitted_membership(&candidate, &digest('d')).is_err());
    Ok(())
}

#[test]
fn a_failed_restoration_removes_its_fragment_and_restores_no_other() {
    let driver = tcp_driver();
    assert_eq!(driver.fail_restoration().fragment, driver.binding.config_path);
    let failure = refusal("nginx refused");
    assert_eq!(
        driver.settle_removal(&failure, &Ok(())).text,
        "reloading the exact admitted route membership: nginx refused"
    );
    assert_eq!(
        driver.settle_removal(&failure, &Err(refusal("read-only"))).text,
        "reloading the exact admitted route membership; removing its unproved fragment also failed: read-only: nginx refused"
    );
    assert_eq!(
        driver.settle_rollback("reload failed", &failure, &Ok(())).text,
        "reload failed: nginx refused"
    );
    assert_eq!(
        driver.settle_rollback("reload failed", &failure, &Err(refusal("read-only"))).text,
        "reload failed; route rollback also failed: read-only: nginx refused"
    );
}

#[test]
fn a_rehearsal_is_settled_with_the_deletion_of_its_material() {
    let bad = || Err(refusal("bad"));
    let busy = || Err(refusal("busy"));
    assert!(settle_validation(&Ok(()), &Ok(())).is_ok());
    assert_eq!(
        settle_validation(&bad(), &Ok(())).unwrap_err().text,
        "candidate route is invalid in a private mount namespace: bad"
    );
    assert_eq!(
        settle_validation(&Ok(()), &busy()).unwrap_err().text,
        "deleting route preflight material: busy"
    );
    assert_eq!(
        settle_validation(&bad(), &busy()).unwrap_err().text,
        "candidate route is invalid; deleting its private preflight material also failed: busy: bad"
    );
}

#[test]
fn a_preflight_refuses_a_route_that_is_not_the_admitted_one() {
    let driver = tcp_driver();
    let candidate = tcp_candidate();
    assert_eq!(
        driver.preflight(&candidate, Ok(Some(b"stranger".to_vec())), &None).unwrap_err().text,
        "route preflight found an unadmitted incumbent"
    );
    let admitted = Some(RouteObservation {
        route_id: "service-route".into(),
        runtime_instance_id: digest('a'),
        membership_sha256: digest('b'),
        signed_presence_sha256: digest('c'),
        observed_at_unix_millis: 1,
    });
    assert_eq!(
        driver.preflight(&candidate, Ok(Some(b"stranger".to_vec())), &admitted).unwrap_err().text,
        "route preflight baseline differs from the admitted incumbent"
    );
    assert!(driver.preflight(&expected(None), Ok(None), &None).is_err());
}

#[test]
fn a_rollback_never_overwrites_another_writer() -> Result<(), Refusal> {
    let driver = tcp_driver();
    let candidate = tcp_candidate();
    let rendered = driver.render(&candidate)?;
    let baseline = driver.preflight(&candidate, Ok(None), &None)?;
    let preflight = driver.settle_preflight(baseline, &digest('a'), &None, Ok(None))?;
    let back = driver.rollback(&candidate, &digest('a'), &preflight, Ok(Some(rendered.clone())))?;
    assert_eq!(back.content, None);
    assert!(driver
        .rollback(&candidate, &digest('a'), &preflight, Ok(Some(b"another".to_vec())))
        .is_err());
    assert!(driver
        .rollback(&candidate, &digest('f'), &preflight, Ok(Some(rendered)))
        .is_err());
    let withdrawn = driver.withdraw_candidate_membership(&preflight)?;
    assert_eq!(withdrawn.content, None);
    assert!(withdrawn.close_endpoint);
    Ok(())
}

#[test]
fn a_receipt_is_refused_where_its_incumbent_is_half_told() {
    let whole = RoutePreflightReceipt {
        route_id: "r".into(),
        candidate_runtime_instance_id: digest('a'),
        candidate_membership_sha256: digest('b'),
        incumbent_runtime_instance_id: None,
        incumbent_membership_sha256: None,
        incumbent_configuration: None,
    };
    assert!(whole.validate().is_ok());
    let half = RoutePreflightReceipt {
        incumbent_membership_sha256: Some(digest('c')),
        ..whole.clone()
    };
    assert!(half.validate().is_err());
    let unnamed = RoutePreflightReceipt { candidate_membership_sha256: "b".into(), ..whole };
    assert!(unnamed.validate().is_err());
}

#[test]
fn route_identifiers_lower_to_nginx() {
    assert_eq!(nginx_identifier("odin-rudp.v1").unwrap(), "idunn_odin_rudp_v1");
    assert_eq!(nginx_identifier("").unwrap_err().text, "nginx route id is empty");
    assert_eq!(
        nginx_identifier("a b").unwrap_err().text,
        "route id cannot lower to an nginx identifier"
    );
}

#[test]
fn a_private_mount_is_bound_without_delimiters() {
    assert_eq!(
        systemd_read_only_bind_property("/a/b", "/c").unwrap(),
        "--property=BindReadOnlyPaths=/a/b:/c"
    );
    assert!(systemd_read_only_bind_property("a/b", "/c").is_err());
    assert!(systemd_read_only_bind_property("/a:b", "/c").is_err());
}

#[test]
fn a_presence_is_asked_for_on_the_transport_of_its_route() {
    let driver = tcp_driver();
    let challenge = driver.request_runtime_presence(&tcp_candidate(), "message-1").unwrap();
    assert_eq!((challenge.host.as_str(), challenge.port), ("127.0.0.1", 4103));
    assert_eq!(challenge.transport, "http");
    assert_eq!(challenge.record_key, "service");
    let candidate =
        driver.request_candidate_runtime_presence(&tcp_candidate(), "message-1").unwrap();
    assert_eq!(candidate.port, 4104);
    assert!(driver.request_runtime_presence(&tcp_candidate(), "").is_err());
    assert!(driver.request_runtime_presence(&expected(None), "message-1").is_err());
}

#[test]
fn route_actuators_are_named_in_their_failures() {
    assert!(admit_route_actuator("/usr/sbin/nginx").is_ok());
    assert!(admit_route_actuator("nginx").is_err());
    let failed = settle_route_actuator("/usr/sbin/nginx", false, "exit status: 1", " bad \n");
    assert!(failed.unwrap_err().text.ends_with(": bad"));
    assert!(settle_route_actuator("/usr/sbin/nginx", true, "exit status: 0", "").is_ok());
}

#[test]
fn every_rehearsal_has_a_candidate_and_a_unit_of_its_own() {
    let driver = NginxRouteDriver::new(udp_binding("odin-rudp", "rudp://127.0.0.1:17872"));
    let (one, two) = (fresh_rehearsal(&driver).unwrap(), fresh_rehearsal(&driver).unwrap());
    assert_ne!(one.candidate, two.candidate);
    let nonce = one.unit.strip_prefix("idunn-nginx-preflight-").unwrap();
    assert_eq!(
        one.candidate,
        format!("/run/idunn/route-preflight/idunn_odin_rudp-{nonce}.candidate")
    );
    assert_eq!(nonce.len(), 36);
}

#[test]
fn closing_an_endpoint_names_the_rule_that_opened_it() {
    let driver = NginxRouteDriver::new(udp_binding("odin-rudp", "rudp://127.0.0.1:17872"));
    let opened = driver.admit_endpoint("127.0.0.1", 17872);
    let closed = driver.withdraw_endpoint("127.0.0.1", 17872);
    assert_eq!(closed[0], "delete");
    assert_eq!(closed[1..], opened[..opened.len() - 2]);
    assert_eq!(opened[opened.len() - 1], "Idunn route odin-rudp");
}
