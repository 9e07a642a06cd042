use idunn_drivers::binding::{
    ArtifactOutput, ArtifactReceipt, ArtifactSource, BuildStep, HostRunnerBinding,
    HostWorkloadBinding, LaunchArgument, ServiceDeclaration, TargetDeclaration,
};
use idunn_drivers::building::{ExternalInputMaterializationReceipt, SealedRelease};
use idunn_drivers::digest::sha256_id;
use idunn_drivers::host::{
    bundle_path, command_line_sha256, discard, environment_contract_sha256, exit_code, install,
    is_running, observe, observe_start, prepare_activation, same_path, settle_install, settle_start, settle_stop,
    start, stop, verify_artifacts, workload_binding, BundleFiles, ChildState, Finding,
    ObservedProcess, SpawnedChild, StartFindings, StartRequest, StartedProcess, EXIT_CODE_VANISHED,
};
use idunn_drivers::host_build::{
    admit_build, admit_fetched, admit_step, checkout_arguments, clone_arguments, git, materialize,
    parse_arguments, settle_artifact, settle_step, stage_artifact, step_environment, step_log,
    FetchedSource, HostStep,
};
use idunn_drivers::host_config::{
    parse_command, passthrough_environment, passthrough_names, usage, ConfigFindings,
    HostActuatorConfig, HostCommand,
};
use idunn_drivers::launch::LaunchNames;
use idunn_drivers::maps::collect;
use idunn_drivers::observation::{HostWorkloadObservation, InstalledReleaseObservation};
use idunn_drivers::platform::{current_user_sid, must_terminate, process_facts, terminate, ProcessFacts};
use idunn_drivers::records::{IdunnExpectedIncarnationRecord, IdunnRuntimeActivationRecord};
use idunn_drivers::selection::{GitlinkTreeFact, SourceSelection};
use idunn_drivers::source::SourceSelectionFacts;
use idunn_drivers::text::Refusal;
use idunn_drivers::workload::ArtifactFinding;

fn digest(byte: char) -> String {
    format!("sha256-{}", byte.to_string().repeat(64))
}

fn pair(name: &str, value: &str) -> (String, String) {
    (name.to_owned(), value.to_owned())
}

fn refusal(text: &str) -> Refusal {
    Refusal { text: text.to_owned() }
}

const SOUND: ConfigFindings = ConfigFindings {
    endpoint_is_socket_address: true,
    identity_store_is_absolute: true,
    idunn_trust_anchor_is_absolute: true,
    work_root_is_absolute: true,
};

fn good_config() -> String {
    let root = "/gamecult/idunn";
    format!(
        r#"
schema = "gamecult.idunn.host_actuator_config.v1"
host = "raven"
idunn_endpoint = "10.77.0.1:17890"
identity_store = "{root}/host-actuator-identity.cc"
idunn_trust_anchor = "{root}/idunn-public-anchor.cc"
work_root = "{root}/work"
"#
    )
}

fn findings(text: &str) -> ConfigFindings {
    match HostActuatorConfig::draft(text) {
        None => SOUND,
        Some(config) => ConfigFindings {
            endpoint_is_socket_address: config.idunn_endpoint == "10.77.0.1:17890",
            identity_store_is_absolute: config.identity_store.starts_with('/'),
            idunn_trust_anchor_is_absolute: config.idunn_trust_anchor.starts_with('/'),
            work_root_is_absolute: config.work_root.starts_with('/'),
        },
    }
}

fn parse(text: &str) -> Result<HostActuatorConfig, Refusal> {
    HostActuatorConfig::parse(text, findings(text))
}

#[test]
fn config_is_strict_and_absolute() {
    let root = "/gamecult/idunn";
    let good = good_config();
    let config = parse(&good).expect("valid config");
    assert_eq!(config.host, "raven");
    assert!(parse(&good.replace("10.77.0.1:17890", "yggdrasil")).is_err());
    assert!(parse(&good.replace("host_actuator_config.v1", "v0")).is_err());
    assert!(parse(&format!("{good}\nextra = 1\n")).is_err());
    assert!(parse(&good.replace(&format!("{root}/work"), "work")).is_err());
}

#[test]
fn a_config_is_refused_by_the_first_thing_that_is_wrong() {
    let good = good_config();
    let words = |text: &str| parse(text).unwrap_err().text;
    assert_eq!(words("not toml ["), "decoding host actuator config");
    assert_eq!(words(&good.replace("host = \"raven\"", "host = 7")), "decoding host actuator config");
    assert_eq!(words(&good.replace("host = \"raven\"\n", "")), "decoding host actuator config");
    assert_eq!(
        words(&good.replace("host_actuator_config.v1", "v0")),
        "unsupported host actuator config schema \"gamecult.idunn.v0\""
    );
    assert_eq!(words(&good.replace("\"raven\"", "\"\"")), "host actuator config names no host");
    assert_eq!(
        words(&good.replace("10.77.0.1:17890", "yggdrasil")),
        "idunn_endpoint is not a socket address"
    );
    assert_eq!(
        words(&good.replace("/gamecult/idunn/host-actuator", "gamecult")),
        "identity_store must be an absolute path"
    );
    assert_eq!(
        words(&good.replace("/gamecult/idunn/idunn-public", "gamecult")),
        "idunn_trust_anchor must be an absolute path"
    );
    assert_eq!(
        words(&good.replace("/gamecult/idunn/work", "work")),
        "work_root must be an absolute path"
    );
    let config = parse(&good).unwrap();
    assert_eq!(config.sources(), "/gamecult/idunn/work/sources");
    assert_eq!(config.staging(), "/gamecult/idunn/work/staging");
    assert_eq!(config.logs(), "/gamecult/idunn/work/logs");
}

#[test]
fn a_config_table_is_read_name_by_name() {
    let table = vec![
        ("schema".to_owned(), Some("gamecult.idunn.host_actuator_config.v1".to_owned())),
        ("host".to_owned(), Some("raven".to_owned())),
        ("idunn_endpoint".to_owned(), Some("e".to_owned())),
        ("identity_store".to_owned(), Some("/i".to_owned())),
        ("idunn_trust_anchor".to_owned(), Some("/a".to_owned())),
        ("work_root".to_owned(), Some("/w".to_owned())),
    ];
    let config = HostActuatorConfig::from_table(&table, SOUND).unwrap();
    assert_eq!(config.work_root, "/w");
    let mut wrong = table.clone();
    wrong[5].1 = None;
    assert!(HostActuatorConfig::from_table(&wrong, SOUND).is_err());
    let mut more = table;
    more.push(("extra".to_owned(), Some(String::new())));
    assert!(HostActuatorConfig::from_table(&more, SOUND).is_err());
}

fn arguments(list: &[&str]) -> Vec<String> {
    list.iter().map(|text| text.to_string()).collect()
}

#[test]
fn the_actuator_is_called_with_one_command_and_its_config() {
    assert_eq!(
        parse_command(&arguments(&["serve", "--config", "/c"])).unwrap(),
        HostCommand::Serve { config: "/c".into() }
    );
    assert_eq!(
        parse_command(&arguments(&["validate", "--config", "/a", "--config", "/b"])).unwrap(),
        HostCommand::Validate { config: "/b".into() }
    );
    let words = |list: &[&str]| parse_command(&arguments(list)).unwrap_err().text;
    assert_eq!(words(&[]), usage());
    assert_eq!(words(&["help"]), usage());
    assert_eq!(words(&["serve"]), "idunn-host serve requires --config");
    assert_eq!(words(&["validate"]), "idunn-host validate requires --config");
    assert_eq!(words(&["serve", "--config"]), "--config requires a path");
    assert_eq!(words(&["serve", "-x"]), format!("unknown idunn-host option \"-x\"\n\n{}", usage()));
    assert_eq!(words(&["dance"]), format!("unknown idunn-host command \"dance\"\n\n{}", usage()));
    assert!(usage().starts_with("Idunn host actuator\n\nidunn-host serve --config PATH\n"));
}

#[test]
fn passthrough_is_an_allowlist_not_the_whole_environment() {
    let environment = passthrough_environment(&vec![
        pair("PATH", "/bin"),
        pair("AWS_SECRET_ACCESS_KEY", "no"),
        pair("TEMP", "/tmp"),
        pair("PATHS", "no"),
    ]);
    let names = passthrough_names();
    for name in environment.names() {
        assert!(names.contains(&name), "{name}");
    }
    assert_eq!(environment.names(), vec!["PATH", "TEMP"]);
    assert_eq!(environment.get("PATH").as_deref(), Some("/bin"));
    assert_eq!(names.len(), 23);
}

fn host_runner() -> HostRunnerBinding {
    HostRunnerBinding {
        allowed_programs: vec!["cargo".into()],
        environment: collect(&[pair("PROFILE", "release"), pair("PATH", "/toolchain")]),
    }
}

fn step(program: &str, required: &[&str]) -> BuildStep {
    BuildStep {
        id: "build".into(),
        runner: "raven".into(),
        argv: vec![program.into(), "build".into()],
        working_directory: ".".into(),
        required_environment: arguments(required),
    }
}

#[test]
fn a_step_program_outside_the_allowlist_is_refused() {
    let allowed = host_runner();
    assert!(allowed.allowed_programs.contains(&"cargo".to_owned()));
    assert!(!allowed.allowed_programs.contains(&"powershell".to_owned()));
    let inherited = passthrough_environment(&vec![pair("PATH", "/bin")]);
    assert!(admit_step(&step("cargo", &[]), &allowed, &inherited, ("STAMP", "r")).is_ok());
    assert_eq!(
        admit_step(&step("powershell", &[]), &allowed, &inherited, ("STAMP", "r")).unwrap_err().text,
        "runner raven does not admit program powershell"
    );
}

#[test]
fn a_step_runs_with_its_runner_over_the_host_and_the_stamp_over_both() {
    let inherited = passthrough_environment(&vec![pair("PATH", "/bin"), pair("TEMP", "/tmp")]);
    let mut runner = host_runner();
    runner.environment = collect(&[pair("PATH", "/toolchain"), pair("STAMP", "forged")]);
    let environment = step_environment(&inherited, &runner, ("STAMP", "abc"));
    assert_eq!(environment.get("PATH").as_deref(), Some("/toolchain"));
    assert_eq!(environment.get("TEMP").as_deref(), Some("/tmp"));
    assert_eq!(environment.get("STAMP").as_deref(), Some("abc"));
    assert_eq!(
        admit_step(&step("cargo", &["ABSENT"]), &host_runner(), &inherited, ("STAMP", "r"))
            .unwrap_err()
            .text,
        "step build lacks required environment ABSENT"
    );
    let mut empty = step("cargo", &[]);
    empty.argv = Vec::new();
    assert_eq!(
        admit_step(&empty, &host_runner(), &inherited, ("STAMP", "r")).unwrap_err().text,
        "step build has no program"
    );
    assert_eq!(step_log("/logs", "tx-1", "build"), "/logs/tx-1-build.log");
    assert_eq!(
        settle_step(&step("cargo", &[]), false, "exit code: 1", "/logs/x.log").unwrap_err().text,
        "step build exited with exit code: 1; log at /logs/x.log"
    );
}

fn facts() -> SourceSelectionFacts {
    SourceSelectionFacts {
        schema: "s".into(),
        origin: "https://example.invalid/r".into(),
        admitted_ref: "refs/heads/main".into(),
        admitted_ref_revision: "3".repeat(40),
        revision: "3".repeat(40),
        source_tree: "4".repeat(40),
        recipe_path: "deployment.toml".into(),
        recipe_blob_sha256: digest('4'),
        gitlinks: Vec::new(),
        selection: SourceSelection::RefHead,
        selected_at_unix_millis: 1,
    }
}

fn artifact() -> ArtifactOutput {
    ArtifactOutput {
        id: "service".into(),
        source_kind: ArtifactSource::RunnerOutput,
        runner: Some("raven".into()),
        source: "target/release/service.exe".into(),
        destination: "bin/service.exe".into(),
        expected_sha256: None,
        executable: true,
    }
}

fn declaration() -> TargetDeclaration {
    TargetDeclaration {
        source_stamp_environment: "STAMP".into(),
        external_inputs: Vec::new(),
        steps: vec![step("cargo", &[])],
        artifacts: vec![artifact()],
        service: ServiceDeclaration {
            executable_artifact: "service".into(),
            arguments: vec![
                LaunchArgument::Literal { value: "--port".into() },
                LaunchArgument::Binding { name: "port".into() },
            ],
            required_environment: Vec::new(),
        },
    }
}

fn config() -> HostActuatorConfig {
    parse(&good_config()).unwrap()
}

#[test]
fn a_build_is_admitted_on_its_own_host_and_by_its_whole_source() {
    assert!(admit_build("raven", &config(), &facts(), &declaration(), "tx-1_A").is_ok());
    let words = |host: &str, facts: &SourceSelectionFacts, id: &str| {
        admit_build(host, &config(), facts, &declaration(), id).unwrap_err().text
    };
    assert_eq!(
        words("nightwing", &facts(), "tx"),
        "plan is bound to host \"nightwing\", this actuator is \"raven\""
    );
    let mut linked = facts();
    linked.gitlinks = vec![GitlinkTreeFact {
        path: "sub".into(),
        origin: "o".into(),
        revision: "5".repeat(40),
    }];
    assert_eq!(words("raven", &linked, "tx"), "host-native materialization does not fetch gitlinks yet");
    assert_eq!(words("raven", &facts(), "../tx"), "transaction id is not a path component");
}

#[test]
fn a_build_fetches_proves_runs_and_collects_within_its_work_root() {
    let build = materialize("raven", &config(), &facts(), &declaration(), "tx").unwrap();
    let work = "/gamecult/idunn/work";
    let source = format!("{work}/sources/tx");
    let staging = format!("{work}/staging/tx");
    assert_eq!(build.staging, staging);
    assert_eq!(
        build.steps,
        vec![
            HostStep::Clear { root: format!("{work}/sources"), path: source.clone() },
            HostStep::Git {
                directory: format!("{work}/sources"),
                arguments: arguments(&[
                    "clone",
                    "--quiet",
                    "--no-checkout",
                    "https://example.invalid/r",
                    &source,
                ]),
            },
            HostStep::Git {
                directory: source.clone(),
                arguments: arguments(&["checkout", "--quiet", "--detach", &"3".repeat(40)]),
            },
            HostStep::AdmitSource { source: source.clone() },
            HostStep::RunStep {
                step: 0,
                directory: format!("{source}/."),
                log: format!("{work}/logs/tx-build.log"),
            },
            HostStep::Clear { root: format!("{work}/staging"), path: staging.clone() },
            HostStep::MakeDirectory { path: staging },
            HostStep::CollectArtifact {
                artifact: 0,
                root: source.clone(),
                origin: format!("{source}/target/release/service.exe"),
            },
        ]
    );
    assert_eq!(
        materialize("raven", &config(), &facts(), &declaration(), "../tx").unwrap_err().text,
        "transaction id is not a path component"
    );
}

#[test]
fn a_fetched_source_must_be_the_frozen_one() {
    let whole = || FetchedSource {
        revision: Ok("3".repeat(40)),
        tree: Ok("4".repeat(40)),
        recipe: Ok(b"recipe".to_vec()),
    };
    assert!(admit_fetched(&whole(), &facts(), b"recipe").is_ok());
    let words = |fetched: FetchedSource| admit_fetched(&fetched, &facts(), b"recipe").unwrap_err().text;
    assert_eq!(
        words(FetchedSource { revision: Ok("5".repeat(40)), ..whole() }),
        "checked out revision differs from the frozen one"
    );
    assert_eq!(
        words(FetchedSource { tree: Ok("5".repeat(40)), ..whole() }),
        "checked out tree differs from the frozen one"
    );
    assert_eq!(
        words(FetchedSource { recipe: Ok(b"other".to_vec()), ..whole() }),
        "recipe in the fetched tree differs from the plan's recipe bytes"
    );
    assert_eq!(words(FetchedSource { recipe: Err(refusal("gone")), ..whole() }), "gone");
}

#[test]
fn git_is_called_exactly_and_told_by_its_complaint() {
    assert_eq!(
        clone_arguments("o", "/c"),
        arguments(&["clone", "--quiet", "--no-checkout", "o", "/c"])
    );
    assert_eq!(checkout_arguments("r"), arguments(&["checkout", "--quiet", "--detach", "r"]));
    assert_eq!(git(&parse_arguments("HEAD"), true, " abc\n", "").unwrap(), "abc");
    assert_eq!(
        git(&parse_arguments("HEAD^{tree}"), false, "", "bad object\n").unwrap_err().text,
        "git rev-parse HEAD^{tree} failed: bad object"
    );
}

fn finding(byte: char, size: u64) -> ArtifactFinding {
    ArtifactFinding { sha256: byte.to_string().repeat(64), size_bytes: size }
}

#[test]
fn an_artifact_is_staged_within_its_release_and_held_to_its_pin() {
    assert_eq!(stage_artifact(&artifact(), "/s", true).unwrap(), "/s/bin/service.exe");
    assert_eq!(
        stage_artifact(&artifact(), "/s", false).unwrap_err().text,
        "declared artifact output service is absent"
    );
    let mut escaping = artifact();
    escaping.destination = "/etc/passwd".into();
    assert_eq!(
        stage_artifact(&escaping, "/s", true).unwrap_err().text,
        "artifact destination escaped its staging root"
    );
    let receipt = settle_artifact(&artifact(), &Ok(finding('5', 9))).unwrap();
    assert_eq!(receipt.sha256, digest('5'));
    assert_eq!(receipt.size_bytes, 9);
    assert!(receipt.executable);
    let mut pinned = artifact();
    pinned.expected_sha256 = Some("6".repeat(64));
    assert_eq!(
        settle_artifact(&pinned, &Ok(finding('5', 9))).unwrap_err().text,
        "artifact service differs from its recipe-pinned digest"
    );
    assert!(settle_artifact(&pinned, &Ok(finding('6', 9))).is_ok());
}

fn release() -> SealedRelease {
    SealedRelease {
        sealed_release_id: digest('2'),
        plan_id: digest('1'),
        sealed_at_unix_millis: 5,
        artifacts: vec![ArtifactReceipt {
            artifact_id: "service".into(),
            destination: "bin/service.exe".into(),
            sha256: digest('5'),
            size_bytes: 9,
            executable: true,
        }],
        external_inputs: Vec::<ExternalInputMaterializationReceipt>::new(),
    }
}

fn workload() -> HostWorkloadBinding {
    HostWorkloadBinding {
        host: "raven".into(),
        release_root: "/releases".into(),
        runtime_root: "/runtime".into(),
        environment: collect(&[pair("LOG", "info")]),
        secret_files: collect(&[pair("TOKEN", "/secrets/token")]),
        argument_bindings: collect(&[pair("port", "4103")]),
    }
}

fn sealed() -> Vec<Finding> {
    vec![Some(Ok(finding('5', 9)))]
}

#[test]
fn an_installed_release_is_every_sealed_artifact_and_nothing_less() {
    assert!(verify_artifacts(&release().artifacts, &sealed()).is_ok());
    let words = |found: Finding| verify_artifacts(&release().artifacts, &vec![found]).unwrap_err().text;
    assert_eq!(words(None), "artifact service is absent");
    assert_eq!(words(Some(Err(refusal("unreadable")))), "unreadable");
    assert_eq!(words(Some(Ok(finding('5', 8)))), "artifact service differs from its sealed digest");
    assert_eq!(words(Some(Ok(finding('6', 9)))), "artifact service differs from its sealed digest");

    let kept = install(&release(), true, &sealed(), "/staging", false);
    assert!(!kept.remove && !kept.copy && kept.refusal.is_none());
    let fresh = install(&release(), false, &Vec::new(), "/staging", true);
    assert!(!fresh.remove && fresh.copy && fresh.refusal.is_none());
    let broken = install(&release(), true, &vec![None], "/staging", true);
    assert!(broken.remove && broken.copy && broken.refusal.is_none());
    let lost = install(&release(), true, &vec![None], "/staging", false);
    assert!(lost.remove && !lost.copy);
    assert_eq!(
        lost.refusal.unwrap().text,
        "staging root /staging is absent; materialize again"
    );
    let installed = settle_install(&workload(), &release(), &sealed()).unwrap();
    assert_eq!(installed.root, format!("/releases/{}", digest('2')));
}

fn expected() -> IdunnExpectedIncarnationRecord {
    IdunnExpectedIncarnationRecord {
        target: "service".into(),
        runtime_id: "service-runtime".into(),
        plan_id: digest('1'),
        incarnation_id: "incarnation-1".into(),
        sealed_release_id: digest('2'),
        artifact_sha256: digest('5'),
        expected_signer_identity_id: "service-signer".into(),
        state_schema_generation: None,
        state_contract_sha256: None,
        write_lease_required: false,
        route: None,
        canonical_sha256: digest('8'),
        canonical_bytes: b"expected".to_vec(),
    }
}

fn activation() -> IdunnRuntimeActivationRecord {
    IdunnRuntimeActivationRecord {
        expected_projection_sha256: digest('8'),
        runtime_id: "service-runtime".into(),
        runtime_instance_id: digest('a'),
        activation_signer_identity_id: "activation".into(),
        activation_signer_public_key: vec![1; 32],
        issued_at_unix_millis: 100,
        canonical_sha256: digest('9'),
        canonical_bytes: b"activation".to_vec(),
    }
}

#[test]
fn an_activation_is_prepared_and_discarded_only_for_its_expectation() {
    let (bundle, file) =
        prepare_activation(&workload(), "raven", &expected(), &activation(), &[7; 32]).unwrap();
    assert_eq!(bundle, format!("/runtime/{}", digest('a')));
    assert_eq!(file, format!("/runtime/{}/activation-credential", digest('a')));
    assert_eq!(bundle_path(&workload(), &activation()), bundle);
    assert_eq!(
        prepare_activation(&workload(), "raven", &expected(), &activation(), &[7; 31]).unwrap_err().text,
        "activation credential is not a 32-byte seed"
    );
    let mut foreign = activation();
    foreign.expected_projection_sha256 = digest('0');
    assert_eq!(
        prepare_activation(&workload(), "raven", &expected(), &foreign, &[7; 32]).unwrap_err().text,
        "activation belongs to another Expected"
    );
    assert!(workload_binding(&workload(), "nightwing").is_err());
    assert_eq!(discard(&workload(), "raven", &expected(), &activation()).unwrap(), bundle);
    assert_eq!(
        discard(&workload(), "raven", &expected(), &foreign).unwrap_err().text,
        "discarded activation does not belong to the prepared Expected"
    );
}

fn names() -> LaunchNames {
    LaunchNames {
        runtime_bundle: "GAMECULT_IDUNN_RUNTIME_BUNDLE".into(),
        candidate_bind: "GAMECULT_IDUNN_CANDIDATE_BIND".into(),
        process_write_lease: "GAMECULT_IDUNN_PROCESS_WRITE_LEASE".into(),
        activation_credential: "GAMECULT_IDUNN_ACTIVATION_CREDENTIAL".into(),
        presence_identity_binding: "GAMECULT_RUNTIME_PRESENCE_IDENTITY".into(),
        activation_descriptor: "gamecult-idunn-runtime-activation-key".into(),
        presence_descriptor: "gamecult-runtime-presence-identity".into(),
    }
}

fn start_request() -> StartRequest {
    StartRequest {
        host: "raven".into(),
        plan_id: digest('1'),
        release: release(),
        installed: InstalledReleaseObservation {
            sealed_release_id: digest('2'),
            root: "/releases/r".into(),
        },
        expected: expected(),
        activation: activation(),
        declaration: declaration(),
        workload: workload(),
    }
}

fn start_findings() -> StartFindings {
    StartFindings {
        artifacts: sealed(),
        bundle: BundleFiles { expected: true, activation: true, credential: true },
        executable_is_file: true,
        executable: Ok(finding('5', 9)),
        secrets_are_files: vec![true],
        previous: None,
    }
}

fn started() -> StartedProcess {
    let found = ProcessFacts {
        creation_time: 77,
        image_path: "/releases/r/bin/service.exe".into(),
        session_id: 2,
        exit_code: None,
    };
    StartedProcess {
        actuator_identity_id: "actuator".into(),
        user_sid: "S-1-5".into(),
        process_id: 4242,
        facts: Ok(Some(found.clone())),
        child: Some(SpawnedChild { process_id: 4242, state: Ok(ChildState::Running) }),
        facts_again: Ok(Some(found)),
    }
}

#[test]
fn a_workload_is_launched_as_what_is_sealed_and_expected() -> Result<(), Refusal> {
    let launch = start(&start_request(), &start_findings(), &names())?;
    assert_eq!(launch.executable, "/releases/r/bin/service.exe");
    assert_eq!(launch.arguments, arguments(&["--port", "4103"]));
    assert_eq!(launch.directory, "/releases/r");
    assert_eq!(launch.environment.get("TOKEN").as_deref(), Some("/secrets/token"));
    assert_eq!(
        launch.environment.get("GAMECULT_IDUNN_ACTIVATION_CREDENTIAL").unwrap(),
        format!("/runtime/{}/activation-credential", digest('a'))
    );
    let command_id = Ok(digest('c'));
    let environment_id = Ok(digest('e'));
    let settled = |process: &StartedProcess| {
        settle_start(&start_request(), &launch, process, &command_id, &environment_id)
    };
    let observation = settled(&started())?;
    assert_eq!(observation.command_line_sha256, digest('c'));
    assert_eq!(observation.environment_contract_sha256, digest('e'));
    assert_eq!(observation.process_id, 4242);
    assert_eq!(observation.process_creation_time, 77);
    assert_eq!(observation.executable_sha256, digest('5'));
    assert_eq!(observation.environment_names, launch.environment.names());
    assert_eq!(observation.exit_code, None);

    let mut gone = started();
    gone.facts = Ok(None);
    assert_eq!(
        settled(&gone).unwrap_err().text,
        "the started process is already gone"
    );
    let mut ended = started();
    ended.child = Some(SpawnedChild {
        process_id: 4242,
        state: Ok(ChildState::Exited { code: Some(-1) }),
    });
    assert_eq!(settled(&ended)?.exit_code, Some(u32::MAX));
    let unpacked: Result<String, Refusal> = Err(Refusal { text: "unpacked".into() });
    assert_eq!(
        settle_start(&start_request(), &launch, &gone, &unpacked, &environment_id)
            .unwrap_err()
            .text,
        "unpacked"
    );
    assert_eq!(
        settle_start(&start_request(), &launch, &started(), &command_id, &unpacked)
            .unwrap_err()
            .text,
        "unpacked"
    );
    Ok(())
}

#[test]
fn a_launch_is_told_by_the_digests_of_its_command_and_environment() -> Result<(), Refusal> {
    let launch = start(&start_request(), &start_findings(), &names())?;
    let command = rmp_serde::to_vec(&(&launch.executable, &launch.arguments)).unwrap();
    assert_eq!(command_line_sha256(&launch)?, sha256_id(&command));
    let map: std::collections::BTreeMap<String, String> =
        launch.environment.to_pairs().into_iter().collect();
    let packed = rmp_serde::to_vec(&map).unwrap();
    assert_eq!(environment_contract_sha256(&launch)?, sha256_id(&packed));
    let observation = observe_start(&start_request(), &launch, &started())?;
    assert_eq!(observation.command_line_sha256, sha256_id(&command));
    assert_eq!(observation.environment_contract_sha256, sha256_id(&packed));
    Ok(())
}

#[test]
fn a_start_is_refused_by_the_first_thing_that_is_wrong() {
    let words = |request: StartRequest, found: StartFindings| {
        start(&request, &found, &names()).unwrap_err().text
    };
    let mut other_plan = start_request();
    other_plan.plan_id = digest('3');
    assert_eq!(
        words(other_plan, start_findings()),
        "workload inputs do not describe one sealed incarnation"
    );
    let mut elsewhere = start_request();
    elsewhere.host = "nightwing".into();
    assert_eq!(
        words(elsewhere, start_findings()),
        "plan is bound to host \"raven\", this actuator is \"nightwing\""
    );
    let absent = StartFindings { artifacts: vec![None], ..start_findings() };
    assert_eq!(words(start_request(), absent), "artifact service is absent");
    let mut unprepared = start_findings();
    unprepared.bundle.credential = false;
    assert_eq!(
        words(start_request(), unprepared),
        format!("runtime bundle /runtime/{} is not prepared", digest('a'))
    );
    let mut unbound = start_request();
    unbound.workload.argument_bindings = collect(&[]);
    assert_eq!(words(unbound, start_findings()), "no argument binding port");
    let changed = StartFindings { executable: Ok(finding('6', 9)), ..start_findings() };
    assert_eq!(words(start_request(), changed), "installed executable differs from Expected");
    let secretless = StartFindings { secrets_are_files: vec![false], ..start_findings() };
    assert_eq!(
        words(start_request(), secretless),
        "secret file /secrets/token bound as TOKEN is absent on this host"
    );
    let mut colliding = start_request();
    colliding.workload.environment = collect(&[pair("TOKEN", "x")]);
    assert_eq!(
        words(colliding, start_findings()),
        "workload environment and secret bindings collide on TOKEN"
    );
    let mut replacing = start_request();
    replacing.workload.environment =
        collect(&[pair("GAMECULT_IDUNN_ACTIVATION_CREDENTIAL", "/forged")]);
    assert_eq!(
        words(replacing, start_findings()),
        "operator binding attempts to replace the activation credential"
    );
    let running = StartFindings {
        previous: Some(SpawnedChild { process_id: 1, state: Ok(ChildState::Running) }),
        ..start_findings()
    };
    assert_eq!(words(start_request(), running), "a child for this activation is already running");
}

fn prior() -> HostWorkloadObservation {
    HostWorkloadObservation {
        host: "raven".into(),
        actuator_identity_id: "actuator".into(),
        process_id: 4242,
        process_creation_time: 77,
        session_id: 2,
        user_sid: "S-1-5".into(),
        executable: "C:/Releases/Service.exe".into(),
        executable_sha256: digest('5'),
        command_line_sha256: digest('c'),
        environment_names: Vec::new(),
        environment_contract_sha256: digest('e'),
        runtime_bundle: "/runtime/b".into(),
        runtime_instance_id: digest('a'),
        activation_signer_identity_id: "activation".into(),
        activation_signer_public_key: vec![1; 32],
        exit_code: None,
    }
}

fn live(creation_time: u64) -> Result<Option<ProcessFacts>, Refusal> {
    Ok(Some(ProcessFacts {
        creation_time,
        image_path: "c:\\releases\\service.EXE".into(),
        session_id: 2,
        exit_code: None,
    }))
}

fn observed() -> ObservedProcess {
    ObservedProcess {
        child: None,
        facts: live(77),
        facts_again: live(77),
        image_leads: None,
        executable_leads: None,
        executable: Ok(finding('5', 9)),
    }
}

#[test]
fn an_exit_code_is_the_childs_own_and_any_other_process_runs_or_vanished() {
    assert_eq!(EXIT_CODE_VANISHED, u32::MAX);
    let child = |state| Some(SpawnedChild { process_id: 4242, state });
    assert_eq!(exit_code(&child(Ok(ChildState::Running)), 4242, 77, &Ok(None)).unwrap(), None);
    assert_eq!(
        exit_code(&child(Ok(ChildState::Exited { code: Some(7) })), 4242, 77, &live(77)).unwrap(),
        Some(7)
    );
    assert_eq!(
        exit_code(&child(Ok(ChildState::Exited { code: None })), 4242, 77, &live(77)).unwrap(),
        Some(EXIT_CODE_VANISHED)
    );
    assert_eq!(
        exit_code(&child(Err(refusal("lost"))), 4242, 77, &live(77)).unwrap_err().text,
        "lost"
    );
    assert_eq!(exit_code(&child(Ok(ChildState::Running)), 1, 77, &live(77)).unwrap(), None);
    assert_eq!(exit_code(&None, 4242, 78, &live(77)).unwrap(), Some(EXIT_CODE_VANISHED));
    assert_eq!(exit_code(&None, 4242, 77, &Ok(None)).unwrap(), Some(EXIT_CODE_VANISHED));
    let mut gone = live(77);
    if let Ok(Some(found)) = &mut gone {
        found.exit_code = Some(7);
    }
    assert_eq!(exit_code(&None, 4242, 77, &gone).unwrap(), Some(EXIT_CODE_VANISHED));
    assert_eq!(exit_code(&None, 4242, 77, &live(77)).unwrap(), None);
    assert!(exit_code(&None, 4242, 77, &Err(refusal("denied"))).is_err());
}

#[test]
fn a_workload_is_observed_again_only_as_itself() -> Result<(), Refusal> {
    assert_eq!(observe(&prior(), &activation(), "raven", &observed())?, prior());
    let ended = ObservedProcess { facts: Ok(None), ..observed() };
    let last = observe(&prior(), &activation(), "raven", &ended)?;
    assert_eq!(last.exit_code, Some(EXIT_CODE_VANISHED));
    let words = |process: ObservedProcess| {
        observe(&prior(), &activation(), "raven", &process).unwrap_err().text
    };
    assert_eq!(
        words(ObservedProcess { facts_again: Ok(None), ..observed() }),
        "the process disappeared between two reads"
    );
    assert_eq!(
        words(ObservedProcess { facts_again: live(78), ..observed() }),
        "pid 4242 now belongs to another process"
    );
    let mut moved = observed();
    if let Ok(Some(found)) = &mut moved.facts_again {
        found.image_path = "C:/other.exe".into();
    }
    assert_eq!(
        words(moved),
        "pid 4242 now runs C:/other.exe instead of C:/Releases/Service.exe"
    );
    assert_eq!(
        words(ObservedProcess { executable: Ok(finding('6', 9)), ..observed() }),
        "the installed executable changed under the running process"
    );
    assert_eq!(
        observe(&prior(), &activation(), "nightwing", &observed()).unwrap_err().text,
        "observation names another host"
    );
    let mut other = activation();
    other.runtime_instance_id = digest('b');
    assert_eq!(
        observe(&prior(), &other, "raven", &observed()).unwrap_err().text,
        "observation belongs to another activation"
    );
    Ok(())
}

#[test]
fn paths_of_a_host_are_one_in_either_writing_or_where_they_lead() {
    assert!(same_path("C:/A/b.exe", "c:\\a\\B.EXE", &None, &None));
    assert!(!same_path("C:/A/b.exe", "C:/A/c.exe", &None, &None));
    let lead = Some("X".to_owned());
    assert!(same_path("C:/link.exe", "C:/A/c.exe", &lead, &lead));
    assert!(!same_path("C:/link.exe", "C:/A/c.exe", &lead, &None));
}

#[test]
fn a_process_is_stopped_until_it_is_gone_or_its_time_is_over() {
    assert!(is_running(&prior(), &None, &live(77)).unwrap());
    assert!(!is_running(&prior(), &None, &live(1)).unwrap());
    assert!(stop(&prior(), "raven", &Ok(true)).unwrap());
    assert!(!stop(&prior(), "raven", &Ok(false)).unwrap());
    assert!(stop(&prior(), "nightwing", &Ok(true)).is_err());
    assert!(!settle_stop(&prior(), &Ok(true), false).unwrap());
    assert!(settle_stop(&prior(), &Ok(false), true).unwrap());
    assert_eq!(
        settle_stop(&prior(), &Ok(true), true).unwrap_err().text,
        "pid 4242 did not exit within 10s"
    );
}

#[test]
fn a_process_is_ended_only_as_the_one_that_was_meant() {
    let found = live(77).unwrap();
    assert!(must_terminate(4242, 77, &found).unwrap());
    assert!(!must_terminate(4242, 77, &None).unwrap());
    assert_eq!(
        must_terminate(4242, 78, &found).unwrap_err().text,
        "refusing to terminate pid 4242: it is now another process"
    );
    let ended = found.map(|facts| ProcessFacts { exit_code: Some(0), ..facts });
    assert!(!must_terminate(4242, 77, &ended).unwrap());
}

#[test]
fn no_process_is_observed_where_none_can_be() {
    assert_eq!(
        process_facts(1).unwrap_err().text,
        "idunn-host observes processes on Windows only"
    );
    assert_eq!(
        terminate(1, 2).unwrap_err().text,
        "idunn-host stops processes on Windows only"
    );
    assert_eq!(current_user_sid().unwrap_err().text, "idunn-host runs on Windows only");
}
