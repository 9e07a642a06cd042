use idunn_drivers::authority::FileFacts;
use idunn_drivers::binding::{
    ArtifactOutput, ArtifactSource, LaunchArgument, ServiceDeclaration, SystemdWorkloadBinding,
    TargetDeclaration, WorkloadNetwork,
};
use idunn_drivers::launch::{
    activation_credential_source, describe_unit, endpoint_host_port, launch_command,
    launch_environment, parent_only_open_file_properties, service_credential_names, unit_name,
    validate_open_file_component, LaunchNames,
};
use idunn_drivers::lifecycle::{
    credential_step, discard_prepared, is_permanently_stopped, prepare_activation, recognise,
    settle_prepared, settle_recovery, settle_retirement, settle_start, settle_stop, start_action,
    start_prepared, stop, CredentialStep, PlannedTarget, StartAction, StartStep, WorkloadStop,
};
use idunn_drivers::maps::collect;
use idunn_drivers::observation::{
    HostIsolationEvidence, HostWorkloadObservation, IsolationEvidence, LinuxIsolationEvidence,
    ParentOnlyFileDescriptorObservation, SystemdWorkloadObservation, WorkloadObservation,
};
use idunn_drivers::procfs::{
    linux_namespace_id, linux_process_security, linux_process_start_time, linux_status_u32_values,
    path_inside_process_root, proc_command_line, read_process_environment,
    select_process_environment,
};
use idunn_drivers::records::{
    ExpectedRoute, IdunnExpectedIncarnationRecord, IdunnRuntimeActivationRecord,
};
use idunn_drivers::text::Refusal;
use idunn_drivers::units::{show_unit, show_unit_arguments, SystemdUnitObservation};
use idunn_drivers::watch::{
    observe_unit, CanonicalReading, CredentialReading, ExecutableReading, ObservationRequest,
    ProcessEvidence,
};
use idunn_drivers::workload::{
    install_step, settle_actuator, settle_move, write_activation_credential, FailedMove,
    InstallStep, SystemdTransientWorkloadDriver,
};

fn digest(byte: char) -> String {
    format!("sha256-{}", byte.to_string().repeat(64))
}

fn pair(name: &str, value: &str) -> (String, String) {
    (name.to_owned(), value.to_owned())
}

fn refusal(text: &str) -> Refusal {
    Refusal { text: text.to_owned() }
}

fn names() -> LaunchNames {
    LaunchNames {
        runtime_bundle: "GAMECULT_IDUNN_RUNTIME_BUNDLE".into(),
        candidate_bind: "GAMECULT_IDUNN_CANDIDATE_BIND".into(),
        process_write_lease: "GAMECULT_IDUNN_PROCESS_WRITE_LEASE".into(),
        activation_credential: "GAMECULT_IDUNN_ACTIVATION_CREDENTIAL".into(),
        presence_identity_binding: "GAMECULT_RUNTIME_PRESENCE_IDENTITY".into(),
        activation_descriptor: "gamecult-idunn-runtime-activation-key".into(),
        presence_descriptor: "gamecult-runtime-presence-identity".into(),
    }
}

fn systemd_audit_observation(restart_policy: &str, uid: u32) -> SystemdWorkloadObservation {
    SystemdWorkloadObservation {
        unit: format!("idunn-{}.service", "a".repeat(64)),
        unit_description: "Idunn test".into(),
        invocation_id: "inv".into(),
        exec_main_start_timestamp_monotonic: 1,
        service_type: "exec".into(),
        restart_policy: restart_policy.into(),
        kill_mode: "mixed".into(),
        dynamic_user: true,
        systemd_user: format!("u{uid}"),
        systemd_group: format!("u{uid}"),
        supplementary_groups: String::new(),
        capability_bounding_set: String::new(),
        ambient_capabilities: String::new(),
        private_mounts: true,
        private_pids: true,
        protect_proc: "invisible".into(),
        proc_subset: "all".into(),
        no_new_privileges: true,
        umask: "0007".into(),
        inaccessible_paths: String::new(),
        load_credential: String::new(),
        main_pid: 4242,
        process_start_time: 1,
        process_uids: [uid; 4],
        process_gids: [uid; 4],
        process_groups: vec![uid],
        process_cap_inheritable: 0,
        process_cap_permitted: 0,
        process_cap_effective: 0,
        process_cap_bounding: 0,
        process_cap_ambient: 0,
        process_no_new_privileges: true,
        process_namespace_pids: vec![1],
        mount_namespace_id: 7,
        pid_namespace_id: 8,
        executable: "/opt/test/bin/service".into(),
        executable_device: 1,
        executable_inode: 1,
        executable_sha256: digest('1'),
        runtime_instance_id: digest('a'),
        working_directory: "/opt/test".into(),
        runtime_bundle: "/run/test".into(),
        command_line_sha256: digest('2'),
        environment_names: Vec::new(),
        environment_contract_sha256: digest('3'),
        control_group: "/system.slice/idunn-test.service".into(),
        credentials_directory: None,
        parent_only_file_descriptors: Vec::new(),
        activation_signer_identity_id: "activation".into(),
        activation_signer_public_key: vec![1; 32],
        service_credentials: Vec::new(),
    }
}

fn audit_workload_observation(restart_policy: &str) -> WorkloadObservation {
    WorkloadObservation::Systemd(systemd_audit_observation(restart_policy, 61_000))
}

fn host_audit_observation(pid: u32, created: u64) -> HostWorkloadObservation {
    HostWorkloadObservation {
        host: "raven".into(),
        actuator_identity_id: "actuator".into(),
        process_id: pid,
        process_creation_time: created,
        session_id: 1,
        user_sid: "S-1-5-21-1-2-3-1001".into(),
        executable: "C:/GameCult/idunn/releases/muninn/x/muninn.exe".into(),
        executable_sha256: digest('1'),
        command_line_sha256: digest('2'),
        environment_names: vec!["GAMECULT_IDUNN_RUNTIME_BUNDLE".into()],
        environment_contract_sha256: digest('3'),
        runtime_bundle: "C:/GameCult/idunn/runtime/muninn/x".into(),
        runtime_instance_id: digest('a'),
        activation_signer_identity_id: "activation".into(),
        activation_signer_public_key: vec![1; 32],
        exit_code: None,
    }
}

fn show(load: &str, active: &str, sub: &str) -> Vec<u8> {
    format!(
        "LoadState={load}\nActiveState={active}\nSubState={sub}\nInvocationID=inv\nDescription=Idunn test\n"
    )
    .into_bytes()
}

fn shown(output: &[u8], success: bool) -> Result<Option<SystemdUnitObservation>, Refusal> {
    show_unit("unit.service", output, success, "")
}

#[test]
fn is_permanently_stopped_only_for_failed_or_forgotten_units() -> Result<(), Refusal> {
    let observation = audit_workload_observation("no");
    for (active, sub) in [
        ("active", "running"),
        ("activating", "start"),
        ("activating", "auto-restart"),
        ("deactivating", "stop-sigterm"),
        ("deactivating", "final-sigterm"),
        ("inactive", "dead"),
        ("reloading", "reload"),
    ] {
        let unit = shown(&show("loaded", active, sub), true)?;
        assert!(
            !is_permanently_stopped(&observation, &unit)?,
            "ActiveState={active} SubState={sub} must not read as permanently stopped"
        );
    }
    let failed = shown(&show("loaded", "failed", "failed"), true)?;
    assert!(is_permanently_stopped(&observation, &failed)?, "failed is permanent under Restart=no");
    let forgotten = shown(&show("not-found", "inactive", "dead"), true)?;
    assert!(is_permanently_stopped(&observation, &forgotten)?, "a forgotten unit cannot restart");
    assert!(
        shown(b"", false).is_err(),
        "a systemctl failure must not be read as a stopped incumbent"
    );
    assert!(shown(&show("loaded", "failed", "failed"), false).is_err());
    let restarting = audit_workload_observation("always");
    let error = is_permanently_stopped(&restarting, &failed)
        .expect_err("Restart=always incumbent must not be judged stopped");
    assert!(error.text.contains("Restart=no"), "{}", error.text);
    Ok(())
}

#[test]
fn host_isolation_is_two_live_distinct_processes_on_one_host() {
    let live = |pid: u32, created: u64| {
        WorkloadObservation::Host(host_audit_observation(pid, created))
    };
    let incumbent = live(100, 5);
    assert!(WorkloadObservation::prove_isolation(&live(101, 6), Some(&incumbent)).is_ok());
    assert!(WorkloadObservation::prove_isolation(&live(100, 5), Some(&incumbent)).is_err());
    let mut exited = host_audit_observation(101, 6);
    exited.exit_code = Some(1);
    let exited = WorkloadObservation::Host(exited);
    assert!(WorkloadObservation::prove_isolation(&exited, Some(&incumbent)).is_err());
    let systemd = audit_workload_observation("no");
    assert!(WorkloadObservation::prove_isolation(&live(101, 6), Some(&systemd)).is_err());
}

#[test]
fn isolation_is_told_by_its_evidence() {
    let host = WorkloadObservation::Host(host_audit_observation(100, 5));
    assert_eq!(
        WorkloadObservation::prove_isolation(&host, None).unwrap(),
        IsolationEvidence::Host(HostIsolationEvidence {
            candidate_process_id: 100,
            candidate_process_creation_time: 5,
            incumbent_process_id: None,
            incumbent_process_creation_time: None,
        })
    );
    let mut one = systemd_audit_observation("no", 61_200);
    one.process_namespace_pids = vec![4242, 1];
    let mut two = systemd_audit_observation("no", 61_300);
    two.process_namespace_pids = vec![4243, 1];
    two.main_pid = 4243;
    two.mount_namespace_id = 17;
    two.pid_namespace_id = 18;
    two.invocation_id = "other".into();
    two.unit = format!("idunn-{}.service", "b".repeat(64));
    two.runtime_instance_id = digest('b');
    let proved = WorkloadObservation::prove_isolation(
        &WorkloadObservation::Systemd(two.clone()),
        Some(&WorkloadObservation::Systemd(one.clone())),
    );
    assert_eq!(
        proved.unwrap(),
        IsolationEvidence::Linux(LinuxIsolationEvidence {
            candidate_uid: 61_300,
            candidate_pid_namespace_id: 18,
            candidate_mount_namespace_id: 17,
            incumbent_uid: Some(61_200),
            incumbent_pid_namespace_id: Some(8),
            incumbent_mount_namespace_id: Some(7),
        })
    );
    two.process_uids = [61_200; 4];
    assert!(WorkloadObservation::prove_isolation(
        &WorkloadObservation::Systemd(two),
        Some(&WorkloadObservation::Systemd(one)),
    )
    .is_err());
}

#[test]
fn an_observation_is_told_apart_by_its_kind() {
    let systemd = audit_workload_observation("no");
    let host = WorkloadObservation::Host(host_audit_observation(100, 5));
    assert!(systemd.systemd().is_ok() && systemd.host().is_err());
    assert!(host.host().is_ok() && host.systemd().is_err());
    assert_eq!(systemd.runtime_instance_id(), digest('a'));
    assert_eq!(host.executable_sha256(), digest('1'));
    assert!(host.describe().contains("raven"));
}

fn parent_only_descriptor(fd_number: u32, fd_name: &str, source: &str) -> ParentOnlyFileDescriptorObservation {
    ParentOnlyFileDescriptorObservation {
        fd_number,
        fd_name: fd_name.into(),
        source_path: source.into(),
        access: "read-only".into(),
        device: 1,
        inode: u64::from(fd_number),
        uid: 0,
        gid: 0,
        mode: 0o400,
        links: 1,
        size: 32,
        sha256: digest('a'),
    }
}

fn signers() -> Vec<ParentOnlyFileDescriptorObservation> {
    vec![
        parent_only_descriptor(
            3,
            "gamecult-idunn-runtime-activation-key",
            "/run/idunn/activation-credentials/activation.credential",
        ),
        parent_only_descriptor(
            4,
            "gamecult-runtime-presence-identity",
            "/etc/gamecult/service/runtime-presence-identity.cc",
        ),
    ]
}

#[test]
fn signer_sources_lower_to_exactly_two_ordered_parent_only_open_files() -> Result<(), Refusal> {
    let both = signers();
    assert_eq!(
        parent_only_open_file_properties(&both, &names())?,
        vec![
            "/run/idunn/activation-credentials/activation.credential:gamecult-idunn-runtime-activation-key:read-only",
            "/etc/gamecult/service/runtime-presence-identity.cc:gamecult-runtime-presence-identity:read-only",
        ]
    );
    let swapped = vec![both[1].clone(), both[0].clone()];
    assert!(parent_only_open_file_properties(&swapped, &names()).is_err());
    assert!(parent_only_open_file_properties(&both[..1], &names()).is_err());
    Ok(())
}

#[test]
fn process_environment_witness_is_sorted_exact_and_secret_free() -> Result<(), Refusal> {
    let entries = vec![b"B=two".to_vec(), b"A=one".to_vec(), b"UNRELATED=ignored".to_vec()];
    let selected = select_process_environment(&entries, &["A".into(), "B".into()])?;
    assert_eq!(selected.get("A").as_deref(), Some("one"));
    assert!(!selected.contains("UNRELATED"));
    assert!(select_process_environment(&entries, &["B".into(), "A".into()]).is_err());
    assert!(select_process_environment(&entries, &["C".into()]).is_err());
    Ok(())
}

const INVOCATION: &str = "0123456789abcdef0123456789abcdef";

fn instance() -> String {
    digest('a')
}

fn unit() -> String {
    unit_name("idunn", &instance()).unwrap()
}

fn running_unit() -> Vec<u8> {
    let mut lines = vec![
        "LoadState=loaded".to_owned(),
        "ActiveState=active".to_owned(),
        "SubState=running".to_owned(),
        "Description=Idunn service".to_owned(),
        format!("InvocationID={INVOCATION}"),
        "MainPID=4242".to_owned(),
        "ExecMainStartTimestampMonotonic=77".to_owned(),
        "Type=exec".to_owned(),
        "Restart=no".to_owned(),
        "KillMode=mixed".to_owned(),
        "DynamicUser=yes".to_owned(),
        "User=_du1".to_owned(),
        "Group=_du1".to_owned(),
        "SupplementaryGroups=".to_owned(),
        "CapabilityBoundingSet=".to_owned(),
        "AmbientCapabilities=".to_owned(),
        "PrivateMounts=yes".to_owned(),
        "PrivatePIDs=yes".to_owned(),
        "ProtectProc=invisible".to_owned(),
        "ProcSubset=all".to_owned(),
        "NoNewPrivileges=yes".to_owned(),
        "UMask=0007".to_owned(),
        "InaccessiblePaths=/run/idunn/activation-credentials".to_owned(),
        "LoadCredential=[unprintable]".to_owned(),
        "WorkingDirectory=/opt/service".to_owned(),
        "ControlGroup=/system.slice/service".to_owned(),
    ];
    for line in parent_only_open_file_properties(&signers(), &names()).unwrap() {
        lines.push(format!("OpenFile={line}"));
    }
    let mut text = lines.join("\n");
    text.push('\n');
    text.into_bytes()
}

fn status() -> String {
    "Name:\tservice\nUid:\t61200\t61200\t61200\t61200\nGid:\t61200\t61200\t61200\t61200\nGroups:\t61200 \nNSpid:\t4242\t1\nCapInh:\t0000000000000000\nCapPrm:\t0000000000000000\nCapEff:\t0000000000000000\nCapBnd:\t0000000000000000\nCapAmb:\t0000000000000000\nNoNewPrivs:\t1\n".to_owned()
}

fn stat(start: u64) -> String {
    format!("4242 (a (b) c) S 1 4242 4242 0 -1 4194560 1 0 0 0 1 1 0 0 20 0 4 0 {start} 1 1 1")
}

fn credential() -> CredentialReading {
    CredentialReading {
        is_file: true,
        len: 6,
        device: 9,
        inode: 10,
        uid: 0,
        gid: 0,
        mode: 0o440,
        links: 1,
        sha256: digest('d'),
    }
}

fn evidence(shown: &SystemdUnitObservation) -> ProcessEvidence {
    let environment = format!(
        "GAMECULT_IDUNN_RUNTIME_BUNDLE=/run/service\0SERVICE_TOKEN=/run/credentials/{}/SERVICE_TOKEN\0CREDENTIALS_DIRECTORY=/run/credentials/{}\0LANG=C\0",
        unit(),
        unit()
    );
    ProcessEvidence {
        executable: Ok(ExecutableReading {
            path: "/opt/service/bin/service".into(),
            is_file: true,
            device: 1,
            inode: 2,
            sealed_device: 1,
            sealed_inode: 2,
        }),
        canonical: Ok(CanonicalReading {
            path: "/opt/service/bin/service".into(),
            sealed: "/opt/service/bin/service".into(),
        }),
        executable_sha256: Ok(digest('5')),
        stat: Ok(stat(900)),
        status: Ok(status()),
        mount_namespace: Ok("mnt:[4026532001]".into()),
        pid_namespace: Ok("pid:[4026532002]".into()),
        observer_mount_namespace: Ok("mnt:[4026531841]".into()),
        observer_pid_namespace: Ok("pid:[4026531836]".into()),
        control_groups: Ok("0::/system.slice/service\n".into()),
        command_line: Ok(b"/opt/service/bin/service\0--serve\0".to_vec()),
        environment: Ok(environment.into_bytes()),
        credentials: vec![Ok(credential())],
        final_unit: Ok(Some(shown.clone())),
        final_stat: Ok(stat(900)),
    }
}

fn request() -> ObservationRequest {
    ObservationRequest {
        unit: unit(),
        runtime_instance_id: instance(),
        activation_signer_identity_id: "activation".into(),
        activation_signer_public_key: vec![1; 32],
        environment_names: vec!["GAMECULT_IDUNN_RUNTIME_BUNDLE".into(), "SERVICE_TOKEN".into()],
        service_credential_names: vec!["SERVICE_TOKEN".into()],
        parent_only_file_descriptors: signers(),
    }
}

const CREDENTIAL_ROOT: &str = "/run/idunn/activation-credentials";

fn observed(evidence: &ProcessEvidence, unit: &SystemdUnitObservation) -> Result<SystemdWorkloadObservation, Refusal> {
    observe_unit(&request(), &Some(unit.clone()), evidence, "/proc/4242", CREDENTIAL_ROOT, &names())
}

#[test]
fn a_running_unit_is_observed_by_what_the_kernel_says() -> Result<(), Refusal> {
    let unit = show_unit(&unit(), &running_unit(), true, "")?.unwrap();
    let found = observed(&evidence(&unit), &unit)?;
    assert_eq!(found.main_pid, 4242);
    assert_eq!(found.invocation_id, INVOCATION);
    assert_eq!(found.exec_main_start_timestamp_monotonic, 77);
    assert_eq!(found.process_start_time, 900);
    assert_eq!(found.process_uids, [61200; 4]);
    assert_eq!(found.process_namespace_pids, vec![4242, 1]);
    assert_eq!(found.mount_namespace_id, 4026532001);
    assert_eq!(found.pid_namespace_id, 4026532002);
    assert_eq!(found.executable_sha256, digest('5'));
    assert_eq!(found.runtime_bundle, "/run/service");
    assert_eq!(found.environment_names.len(), 2);
    assert_eq!(found.service_credentials.len(), 1);
    assert_eq!(found.service_credentials[0].sha256, digest('d'));
    assert_eq!(
        found.command_line_sha256,
        idunn_drivers::digest::sha256_id(b"/opt/service/bin/service\0--serve\0")
    );
    let packed = idunn_drivers::encoding::environment_contract(&collect(&[
        pair("GAMECULT_IDUNN_RUNTIME_BUNDLE", "/run/service"),
        pair("SERVICE_TOKEN", &format!("/run/credentials/{}/SERVICE_TOKEN", request().unit)),
    ]))?;
    assert_eq!(found.environment_contract_sha256, packed);
    Ok(())
}

#[test]
fn an_observation_is_refused_by_the_first_thing_that_is_wrong() -> Result<(), Refusal> {
    let unit = show_unit(&unit(), &running_unit(), true, "")?.unwrap();
    let refused = |change: &dyn Fn(&mut ProcessEvidence)| {
        let mut found = evidence(&unit);
        change(&mut found);
        observed(&found, &unit).unwrap_err().text
    };
    assert_eq!(
        refused(&|e| e.executable.as_mut().unwrap().inode = 3),
        "systemd started an executable inode outside the sealed release"
    );
    assert_eq!(
        refused(&|e| e.canonical.as_mut().unwrap().path = "/opt/other".into()),
        "systemd started an executable outside the sealed release"
    );
    assert_eq!(refused(&|e| e.executable_sha256 = Err(refusal("unreadable"))), "unreadable");
    assert_eq!(
        refused(&|e| e.status = Ok(status().replace("61200\t61200\t61200\t61200\nGid", "61200\t0\t61200\t61200\nGid"))),
        "systemd workload does not have one unprivileged process uid"
    );
    assert_eq!(
        refused(&|e| e.status = Ok(status().replace("Groups:\t61200", "Groups:\t61200 27"))),
        "systemd workload has foreign supplementary groups"
    );
    assert_eq!(
        refused(&|e| e.status = Ok(status().replace("CapEff:\t0000000000000000", "CapEff:\t0000000000000001"))),
        "systemd workload retained Linux capabilities"
    );
    assert_eq!(
        refused(&|e| e.status = Ok(status().replace("NoNewPrivs:\t1", "NoNewPrivs:\t0"))),
        "systemd workload lacks kernel no-new-privileges enforcement"
    );
    assert_eq!(
        refused(&|e| e.status = Ok(status().replace("NSpid:\t4242\t1", "NSpid:\t4242"))),
        "systemd workload is not observed in a private pid namespace"
    );
    assert_eq!(
        refused(&|e| e.pid_namespace = Ok("pid:[4026531836]".into())),
        "systemd workload did not receive private mount and pid namespaces"
    );
    assert_eq!(
        refused(&|e| e.control_groups = Ok("0::/user.slice\n".into())),
        "systemd MainPID is outside the unit control group"
    );
    assert_eq!(
        refused(&|e| e.command_line = Ok(Vec::new())),
        "systemd MainPID has no command line"
    );
    assert_eq!(
        refused(&|e| e.credentials[0].as_mut().unwrap().mode = 0o444),
        "delivered service credential is not root-owned and closed to group and world"
    );
    assert_eq!(
        refused(&|e| e.final_stat = Ok(stat(901))),
        "systemd workload identity changed during native observation"
    );
    let vanished = refused(&|e| e.final_unit = Ok(None));
    assert!(vanished.ends_with(" vanished during observation"));
    Ok(())
}

#[test]
fn a_unit_that_is_not_confined_is_refused() -> Result<(), Refusal> {
    let whole = String::from_utf8(running_unit()).unwrap();
    let judged = |from: &str, to: &str| -> String {
        let unit = show_unit(&unit(), whole.replace(from, to).as_bytes(), true, "").unwrap().unwrap();
        observed(&evidence(&unit), &unit).unwrap_err().text
    };
    let isolation = "systemd workload isolation properties differ from the Idunn contract";
    assert_eq!(judged("Restart=no", "Restart=always"), isolation);
    assert_eq!(judged("DynamicUser=yes", "DynamicUser=no"), isolation);
    assert_eq!(judged("SupplementaryGroups=", "SupplementaryGroups=wheel"), isolation);
    assert_eq!(judged("UMask=0007", "UMask=0022"), isolation);
    assert_eq!(judged("PrivatePIDs=yes", "PrivatePIDs=maybe"), "systemd unit exposed a non-boolean PrivatePIDs");
    assert!(judged("SubState=running", "SubState=dead").ends_with(" is not running"));
    assert_eq!(judged(INVOCATION, "short"), "systemd unit has no canonical invocation id");
    assert_eq!(judged("MainPID=4242", "MainPID=0"), "systemd unit has no live main process");
    assert_eq!(
        judged(":read-only\nOpenFile", ":read-write\nOpenFile"),
        "systemd parent-only descriptor contract differs from the Idunn launch"
    );
    let absent = observe_unit(
        &request(),
        &None,
        &evidence(&show_unit(&unit(), &running_unit(), true, "")?.unwrap()),
        "/proc/4242",
        CREDENTIAL_ROOT,
        &names(),
    );
    assert!(absent.unwrap_err().text.ends_with(" is absent"));
    Ok(())
}

#[test]
fn a_shown_unit_is_read_line_by_line() {
    assert_eq!(show_unit_arguments("u.service").len(), 30);
    assert_eq!(show_unit_arguments("u.service")[..4].join(" "), "show u.service --no-pager --property=LoadState");
    let twice = b"LoadState=loaded\nActiveState=active\nActiveState=failed\n";
    assert!(shown(twice, true).is_err());
    assert!(shown(b"LoadState=loaded\nnonsense\n", true).is_err());
    assert!(shown(&[0xff, 0xfe], true).is_err());
    let unit = shown(b"LoadState=loaded\nOpenFile=/a:b:read-only\nOpenFile=/c:d:read-only\n", true)
        .unwrap()
        .unwrap();
    assert_eq!(unit.open_files, vec!["/a:b:read-only", "/c:d:read-only"]);
}

#[test]
fn the_kernel_status_of_a_process_is_read_exactly() {
    assert_eq!(linux_status_u32_values(&status(), "Uid").unwrap(), vec![61200; 4]);
    assert!(linux_status_u32_values(&status(), "Absent").is_err());
    assert!(linux_process_security(&status(), 1).is_err());
    assert_eq!(linux_process_start_time(&stat(4711)).unwrap(), 4711);
    assert!(linux_process_start_time("4242 (service) S 1").is_err());
    assert_eq!(linux_namespace_id("mnt:[12]", "mnt").unwrap(), 12);
    assert!(linux_namespace_id("pid:[12]", "mnt").is_err());
    assert_eq!(
        path_inside_process_root("/proc/7/root", "/run/x").unwrap(),
        "/proc/7/root/run/x"
    );
    assert!(path_inside_process_root("/proc/7/root", "run/x").is_err());
    assert_eq!(proc_command_line(&["a".into(), "b".into()]), b"a\0b\0".to_vec());
    assert_eq!(
        read_process_environment(b"A=1\0B=2\0"),
        vec![b"A=1".to_vec(), b"B=2".to_vec()]
    );
}

fn binding() -> SystemdWorkloadBinding {
    SystemdWorkloadBinding {
        unit_prefix: "idunn".into(),
        release_root: "/opt/releases".into(),
        runtime_root: "/run/idunn/runtime".into(),
        state_group: None,
        state_root: None,
        read_only_paths: Vec::new(),
        read_write_paths: Vec::new(),
        devices: Vec::new(),
        environment: collect(&[pair("LOG", "info")]),
        secret_files: collect(&[
            pair("SERVICE_TOKEN", "/etc/service/token"),
            pair("GAMECULT_RUNTIME_PRESENCE_IDENTITY", "/etc/service/presence.cc"),
        ]),
        argument_bindings: collect(&[pair("port", "4103")]),
        memory_mebibytes: 512,
        cpu_quota_percent: 50,
        network: WorkloadNetwork::Isolated,
    }
}

fn declaration() -> TargetDeclaration {
    TargetDeclaration {
        source_stamp_environment: "IDUNN_SOURCE_REVISION".into(),
        external_inputs: Vec::new(),
        steps: Vec::new(),
        artifacts: vec![ArtifactOutput {
            id: "service".into(),
            source_kind: ArtifactSource::RunnerOutput,
            runner: Some("rust".into()),
            source: "target/release/service".into(),
            destination: "bin/service".into(),
            expected_sha256: None,
            executable: true,
        }],
        service: ServiceDeclaration {
            executable_artifact: "service".into(),
            arguments: vec![
                LaunchArgument::Literal { value: "--port".into() },
                LaunchArgument::Binding { name: "port".into() },
            ],
            required_environment: vec!["GAMECULT_IDUNN_RUNTIME_BUNDLE".into()],
        },
    }
}

fn expected() -> IdunnExpectedIncarnationRecord {
    IdunnExpectedIncarnationRecord {
        target: "service".into(),
        runtime_id: "service-runtime".into(),
        plan_id: digest('1'),
        incarnation_id: "incarnation-1".into(),
        sealed_release_id: digest('2'),
        artifact_sha256: digest('5'),
        expected_signer_identity_id: "service-signer".into(),
        state_schema_generation: None,
        state_contract_sha256: None,
        write_lease_required: false,
        route: Some(ExpectedRoute {
            route_id: "r".into(),
            transport: "http".into(),
            stable_endpoint: "http://127.0.0.1:4103".into(),
            candidate_endpoint: "http://127.0.0.1:4104".into(),
        }),
        canonical_sha256: digest('8'),
        canonical_bytes: b"expected".to_vec(),
    }
}

fn activation() -> IdunnRuntimeActivationRecord {
    IdunnRuntimeActivationRecord {
        expected_projection_sha256: digest('8'),
        runtime_id: "service-runtime".into(),
        runtime_instance_id: instance(),
        activation_signer_identity_id: "activation".into(),
        activation_signer_public_key: vec![1; 32],
        issued_at_unix_millis: 100,
        canonical_sha256: digest('9'),
        canonical_bytes: b"activation".to_vec(),
    }
}

#[test]
fn a_launched_environment_holds_what_is_bound_and_no_secret() -> Result<(), Refusal> {
    let environment = launch_environment(&binding(), &None, "/run/b", &expected(), &unit(), &names())?;
    assert_eq!(environment.get("LOG").unwrap(), "info");
    assert_eq!(
        environment.get("SERVICE_TOKEN").unwrap(),
        format!("/run/credentials/{}/SERVICE_TOKEN", unit())
    );
    assert_eq!(environment.get("GAMECULT_IDUNN_RUNTIME_BUNDLE").unwrap(), "/run/b");
    assert_eq!(environment.get("GAMECULT_IDUNN_CANDIDATE_BIND").unwrap(), "127.0.0.1:4104");
    assert!(!environment.contains("GAMECULT_RUNTIME_PRESENCE_IDENTITY"));
    assert!(!environment.contains("GAMECULT_IDUNN_PROCESS_WRITE_LEASE"));
    let mut replacing = binding();
    replacing.environment = collect(&[pair("GAMECULT_IDUNN_RUNTIME_BUNDLE", "/elsewhere")]);
    assert_eq!(
        launch_environment(&replacing, &None, "/run/b", &expected(), &unit(), &names())
            .unwrap_err()
            .text,
        "operator binding attempts to replace the Idunn runtime bundle"
    );
    let mut colliding = binding();
    colliding.environment = collect(&[pair("SERVICE_TOKEN", "x")]);
    assert_eq!(
        launch_environment(&colliding, &None, "/run/b", &expected(), &unit(), &names())
            .unwrap_err()
            .text,
        "workload environment and secret bindings collide"
    );
    assert_eq!(
        service_credential_names(&binding().secret_files, "GAMECULT_RUNTIME_PRESENCE_IDENTITY"),
        vec!["SERVICE_TOKEN"]
    );
    Ok(())
}

#[test]
fn a_launched_command_is_the_sealed_executable_with_its_arguments() {
    let command = launch_command(&declaration(), &binding(), "/opt/releases/r", true).unwrap();
    assert_eq!(command, vec!["/opt/releases/r/bin/service", "--port", "4103"]);
    assert_eq!(
        launch_command(&declaration(), &binding(), "/opt/releases/r", false).unwrap_err().text,
        "sealed service executable is absent"
    );
    let mut other = declaration();
    other.service.executable_artifact = "ghost".into();
    assert_eq!(
        launch_command(&other, &binding(), "/opt/releases/r", true).unwrap_err().text,
        "target declares no artifact ghost"
    );
}

#[test]
fn units_and_credentials_are_named_by_the_instance() {
    assert_eq!(unit(), format!("idunn-{}.service", "a".repeat(64)));
    assert!(unit_name("idunn", "a").is_err());
    assert!(unit_name("idunn", "sha256-xyz").is_err());
    assert_eq!(
        activation_credential_source("/run/c", &activation()).unwrap(),
        format!("/run/c/{}.credential", instance())
    );
    assert!(activation_credential_source("/run/a b", &activation()).is_err());
    assert_eq!(
        describe_unit("service", &format!("/run/idunn/{}", instance())).unwrap(),
        format!("Idunn service {}", instance())
    );
    assert!(validate_open_file_component("a:b", "path").is_err());
    assert!(validate_open_file_component("", "path").is_err());
    assert!(validate_open_file_component("ok", "path").is_ok());
    assert_eq!(
        endpoint_host_port("http://127.0.0.1:80", "http://").unwrap(),
        ("127.0.0.1".to_owned(), 80)
    );
    assert!(endpoint_host_port("http://127.0.0.1:70000", "http://").is_err());
    assert!(endpoint_host_port("tcp://127.0.0.1:80", "http://").is_err());
}

fn plan() -> PlannedTarget {
    PlannedTarget { plan_id: digest('1'), target: "service".into(), unit_prefix: "idunn".into() }
}

#[test]
fn only_what_was_prepared_of_one_incarnation_is_started() {
    let ready: Result<String, Refusal> = Ok("/release/bin/service".into());
    let started = |release: &str, writable: Result<(), Refusal>, executable: &Result<String, Refusal>| {
        start_prepared(&plan(), release, &expected(), &activation(), &writable, executable)
    };
    let release = expected().sealed_release_id;
    assert_eq!(started(&release, Ok(()), &ready).unwrap(), unit());
    assert_eq!(
        started("another-release", Err(refusal("shared")), &ready).unwrap_err().text,
        "workload inputs do not describe one sealed incarnation"
    );
    let undeclared = Err(refusal("target declares no artifact service"));
    assert_eq!(
        started(&release, Err(refusal("shared")), &undeclared).unwrap_err().text,
        "shared"
    );
    assert_eq!(
        started(&release, Ok(()), &undeclared).unwrap_err().text,
        "target declares no artifact service"
    );
    let nameless = PlannedTarget { unit_prefix: "a/b".into(), ..plan() };
    assert_eq!(
        start_prepared(
            &nameless,
            &release,
            &expected(),
            &activation(),
            &Err(refusal("shared")),
            &ready
        )
        .unwrap_err()
        .text,
        "shared"
    );
}

#[test]
fn a_unit_that_is_shown_is_not_started_again() {
    assert_eq!(start_action(&None), StartAction::Start);
    let unit = SystemdUnitObservation { properties: collect(&[]), open_files: Vec::new() };
    assert_eq!(start_action(&Some(unit)), StartAction::Watch);
}

#[test]
fn an_orphaned_credential_is_retired_before_another_is_written() {
    let file = FileFacts {
        is_dir: false,
        is_file: true,
        is_symlink: false,
        uid: 0,
        gid: 0,
        mode: 0o100400,
        links: 1,
        len: 32,
    };
    assert_eq!(credential_step("/run/c/one", &Ok(None)).unwrap(), CredentialStep::Write);
    assert_eq!(
        credential_step("/run/c/one", &Ok(Some(file))).unwrap(),
        CredentialStep::RetireThenWrite
    );
    assert_eq!(
        credential_step("/run/c/one", &Err(refusal("unread"))).unwrap_err().text,
        "inspecting pre-persistence activation credential /run/c/one: unread"
    );
    assert!(settle_retirement(&Ok(())).is_ok());
    assert_eq!(
        settle_retirement(&Err(refusal("busy"))).unwrap_err().text,
        "retiring an orphaned pre-persistence activation credential: busy"
    );
}

#[test]
fn a_release_is_copied_once_and_a_lost_race_counts() {
    assert_eq!(install_step(true), InstallStep::Keep);
    assert_eq!(install_step(false), InstallStep::CopyThenMove);
    let failed = |occupied: bool| Err(FailedMove { occupied, refusal: refusal("File exists") });
    let settled = |moved: &Result<(), FailedMove>, removal: Result<(), Refusal>, stands: bool| {
        settle_move("/releases/r", moved, &removal, stands)
    };
    assert!(settled(&Ok(()), Ok(()), true).is_ok());
    assert!(settled(&failed(true), Ok(()), true).is_ok());
    assert_eq!(settled(&failed(true), Err(refusal("busy")), true).unwrap_err().text, "busy");
    for (occupied, stands) in [(true, false), (false, true), (false, false)] {
        assert_eq!(
            settled(&failed(occupied), Ok(()), stands).unwrap_err().text,
            "installing sealed release /releases/r: File exists"
        );
    }
}

#[test]
fn only_the_planned_activation_is_prepared_and_discarded() {
    assert_eq!(prepare_activation(&plan(), &expected(), &activation()).unwrap(), unit());
    let foreign = PlannedTarget { plan_id: digest('7'), ..plan() };
    assert_eq!(
        prepare_activation(&foreign, &expected(), &activation()).unwrap_err().text,
        "prepared activation does not belong to the deployment plan"
    );
    let other = PlannedTarget { target: "other".into(), ..plan() };
    assert_eq!(
        prepare_activation(&other, &expected(), &activation()).unwrap_err().text,
        "prepared activation target differs from the operator binding"
    );
    assert_eq!(discard_prepared(&plan(), &expected(), &activation()).unwrap().unit, unit());
    assert_eq!(
        discard_prepared(&foreign, &expected(), &activation()).unwrap_err().text,
        "discarded activation does not belong to the prepared deployment"
    );
}

#[test]
fn a_start_is_looked_at_again_until_its_attempts_are_over() -> Result<(), Refusal> {
    let unit = show_unit(&unit(), &running_unit(), true, "")?.unwrap();
    let found = observed(&evidence(&unit), &unit)?;
    assert!(matches!(
        settle_start(0, Ok(found.clone()), Ok(()), &expected()),
        StartStep::Started { .. }
    ));
    assert_eq!(
        settle_start(0, Err(refusal("not yet")), Ok(()), &expected()),
        StartStep::Again { after_millis: 50 }
    );
    assert_eq!(
        settle_start(99, Err(refusal("not yet")), Ok(()), &expected()),
        StartStep::Failed { refusal: refusal("not yet") }
    );
    let mut other = found;
    other.executable_sha256 = digest('6');
    assert_eq!(
        settle_start(99, Ok(other), Ok(()), &expected()),
        StartStep::Failed { refusal: refusal("started workload executable differs from Expected") }
    );
    Ok(())
}

#[test]
fn a_running_workload_is_recognised_before_it_is_stopped() -> Result<(), Refusal> {
    let unit = show_unit(&unit(), &running_unit(), true, "")?.unwrap();
    let found = observed(&evidence(&unit), &unit)?;
    let workload = WorkloadObservation::Systemd(found.clone());
    assert_eq!(stop(&workload, &None)?, WorkloadStop::Nothing);
    assert!(matches!(stop(&workload, &Some(unit.clone()))?, WorkloadStop::Recognise { .. }));
    assert!(recognise(&found, &found).is_ok());
    let mut other = found.clone();
    other.invocation_id = "f".repeat(32);
    assert!(recognise(&other, &found).is_err());
    assert!(settle_recovery(&found, &found).is_ok());
    assert!(settle_recovery(&other, &found).is_err());
    assert!(settle_stop(&None).is_ok());
    assert!(settle_stop(&Some(unit)).is_err());
    Ok(())
}

#[test]
fn a_workload_actuator_is_named_in_its_failure() {
    let driver = SystemdTransientWorkloadDriver::default();
    assert_eq!(driver.systemctl_program, "/usr/bin/systemctl");
    assert_eq!(driver.credential_root, CREDENTIAL_ROOT);
    assert!(settle_actuator(&driver.systemctl_program, true, "exit status: 0", "").is_ok());
    assert_eq!(
        settle_actuator(&driver.systemctl_program, false, "exit status: 1", "no\n").unwrap_err().text,
        "workload actuator /usr/bin/systemctl exited with exit status: 1: no"
    );
}

#[test]
fn a_credential_that_was_written_elsewhere_is_gone() {
    let settled = |written: &str, removal: Result<(), Refusal>| {
        settle_prepared(written, "/run/credentials/one", &removal)
    };
    assert!(settled("/run/credentials/one", Err(refusal("busy"))).is_ok());
    assert_eq!(
        settled("/run/credentials/two", Ok(())).unwrap_err().text,
        "prepared activation used a nondeterministic credential path"
    );
    assert_eq!(
        settled("/run/credentials/two", Err(refusal("busy"))).unwrap_err().text,
        "deleting nondeterministic activation credential also failed: busy: prepared activation used a nondeterministic credential path"
    );
}

#[test]
fn a_written_credential_is_whole_or_gone() {
    let exact = FileFacts {
        is_dir: false,
        is_file: true,
        is_symlink: false,
        uid: 0,
        gid: 0,
        mode: 0o100400,
        links: 1,
        len: 32,
    };
    let wrong = FileFacts { mode: 0o100644, ..exact.clone() };
    let gone: Result<(), Refusal> = Ok(());
    let stuck: Result<(), Refusal> = Err(refusal("busy"));
    let written = Ok(activation());
    assert!(
        write_activation_credential(&written, &activation(), &Ok(exact.clone()), &Ok(()), &stuck)
            .is_ok()
    );
    assert_eq!(
        write_activation_credential(&written, &activation(), &Ok(wrong.clone()), &Ok(()), &gone)
            .unwrap_err()
            .text,
        "activation credential source is not one exact root-owned 0400 32-byte file"
    );
    assert_eq!(
        write_activation_credential(&written, &activation(), &Ok(wrong), &Ok(()), &stuck)
            .unwrap_err()
            .text,
        "deleting invalid activation credential also failed: busy: activation credential source is not one exact root-owned 0400 32-byte file"
    );
    let mut other = activation();
    other.runtime_id = "other".into();
    assert_eq!(
        write_activation_credential(&written, &other, &Ok(exact.clone()), &Ok(()), &gone)
            .unwrap_err()
            .text,
        "activation launch changed while writing its credential"
    );
    let unwritten = Err(refusal("disk full"));
    assert_eq!(
        write_activation_credential(&unwritten, &activation(), &Ok(exact.clone()), &Ok(()), &gone)
            .unwrap_err()
            .text,
        "disk full"
    );
    assert_eq!(
        write_activation_credential(&unwritten, &activation(), &Ok(exact), &Ok(()), &stuck)
            .unwrap_err()
            .text,
        "deleting incomplete activation credential also failed: busy: disk full"
    );
}
