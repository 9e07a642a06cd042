use idunn_drivers::binding::{
    ArtifactOutput, ArtifactSource, BuildStep, DockerRunnerBinding, ExternalInput,
    ServiceDeclaration, TargetDeclaration,
};
use idunn_drivers::building::{
    admit_environment, artifact_origin, external_input, input_destination, is_pinned, receipt_of,
    runner_workspace, DockerRunnerDriver, NamedRunner, RunnerStep,
};
use idunn_drivers::digest::raw_sha256;
use idunn_drivers::maps::{collect, TextMap};
use idunn_drivers::observation::ProcessIdentity;
use idunn_drivers::runner::RunnerHost;
use idunn_drivers::text::Refusal;
use idunn_drivers::workload::ArtifactFinding;

fn refusal(text: &str) -> Refusal {
    Refusal { text: text.to_owned() }
}

fn texts(list: &[&str]) -> Vec<String> {
    list.iter().map(|text| text.to_string()).collect()
}

fn binding() -> DockerRunnerBinding {
    DockerRunnerBinding {
        image: "builder".to_owned(),
        user: "65532:65532".to_owned(),
        cache_root: None,
        allowed_programs: texts(&["cargo", "curl"]),
        environment: collect(&[("MODE".to_owned(), "release".to_owned())]),
        secret_files: collect(&[]),
        network_profile: None,
        memory_mebibytes: 8192,
        cpu_quota_percent: 250,
        pids_limit: 512,
        tmpfs_mebibytes: 256,
    }
}

fn bare_host() -> RunnerHost {
    RunnerHost {
        is_root: true,
        cache_above: Err(refusal("unread")),
        cache: Ok(None),
        secrets: Vec::new(),
    }
}

fn input() -> ExternalInput {
    ExternalInput {
        id: "model".into(),
        url: "https://example.invalid/model".into(),
        sha256: raw_sha256(b"model"),
        runner: "rust".into(),
        destination: "inputs/model.bin".into(),
    }
}

fn step(required: &[&str]) -> BuildStep {
    BuildStep {
        id: "build".into(),
        runner: "rust".into(),
        argv: texts(&["cargo", "build"]),
        working_directory: ".".into(),
        required_environment: texts(required),
    }
}

fn artifact() -> ArtifactOutput {
    ArtifactOutput {
        id: "service".into(),
        source_kind: ArtifactSource::RunnerOutput,
        runner: Some("rust".into()),
        source: "target/service".into(),
        destination: "bin/service".into(),
        expected_sha256: None,
        executable: true,
    }
}

fn declaration(required: &[&str]) -> TargetDeclaration {
    TargetDeclaration {
        source_stamp_environment: "IDUNN_SOURCE_REVISION".into(),
        external_inputs: vec![input()],
        steps: vec![step(required)],
        artifacts: vec![artifact()],
        service: ServiceDeclaration {
            executable_artifact: "service".into(),
            arguments: Vec::new(),
            required_environment: Vec::new(),
        },
    }
}

fn runners() -> Vec<NamedRunner> {
    vec![NamedRunner { id: "rust".into(), docker: Ok(binding()) }]
}

#[test]
fn a_release_is_made_step_by_step_and_no_workspace_is_left() {
    let driver = DockerRunnerDriver::default();
    assert_eq!(driver.docker_program, "/usr/bin/docker");
    let workspace = runner_workspace("/staging/txn-1", "rust");
    assert_eq!(workspace, "/staging/txn-1/.runner-rust");
    let plan = driver.materialize("/staging/txn-1", &declaration(&["MODE"]), &runners());
    assert!(plan.refusal.is_none());
    let identity = ProcessIdentity { uid: 65532, gid: 65532 };
    assert_eq!(plan.steps[0], RunnerStep::CopySource { workspace: workspace.clone() });
    let place = |wanted: &RunnerStep| plan.steps.iter().position(|step| step == wanted).unwrap();
    let assigned =
        place(&RunnerStep::AssignWorkspace { workspace: workspace.clone(), identity });
    let fetched = place(&RunnerStep::FetchInput { input: 0 });
    let ran = place(&RunnerStep::RunStep { step: 0 });
    let collected = place(&RunnerStep::CollectArtifact { artifact: 0 });
    assert!(assigned < fetched && fetched < ran && ran < collected);
    assert_eq!(plan.steps.last(), Some(&RunnerStep::RemoveWorkspace { workspace }));
}

#[test]
fn a_step_without_its_environment_ends_the_making() {
    let driver = DockerRunnerDriver::default();
    let plan = driver.materialize("/staging/txn-1", &declaration(&["ABSENT"]), &runners());
    assert_eq!(
        plan.refusal.unwrap().text,
        "step build lacks operator-bound environment ABSENT"
    );
    assert!(!plan.steps.contains(&RunnerStep::RunStep { step: 0 }));
    assert!(admit_environment(&binding(), &step(&["MODE"])).is_ok());
}

#[test]
fn an_input_is_fetched_by_one_command_and_held_to_its_pin() -> Result<(), Refusal> {
    let driver = DockerRunnerDriver::default();
    let args = driver.fetch_arguments(&binding(), "/w", &input(), &bare_host())?;
    let from = args.iter().position(|arg| arg == "curl").unwrap();
    assert_eq!(args[from + 1..].last().unwrap(), "https://example.invalid/model");
    assert!(args[from..].contains(&"--fail".to_owned()));
    assert!(args[from..].contains(&"=https".to_owned()));
    let receipt = driver.materialize_external_input(&input(), &Ok(b"model".to_vec()))?;
    assert_eq!(receipt.sha256, format!("sha256-{}", raw_sha256(b"model")));
    assert_eq!(receipt.size_bytes, 5);
    let words = |read: Result<Vec<u8>, Refusal>| {
        driver.materialize_external_input(&input(), &read).unwrap_err().text
    };
    assert_eq!(words(Ok(Vec::new())), "materialized external input is empty");
    assert_eq!(
        words(Ok(b"other".to_vec())),
        "materialized external input digest differs from its recipe pin"
    );
    assert_eq!(words(Err(refusal("unread"))), "unread");
    assert_eq!(input_destination("/w", "inputs/model.bin")?, "/w/inputs/model.bin");
    assert_eq!(
        input_destination("/w", "/etc/model.bin").unwrap_err().text,
        "external input escaped its runner workspace"
    );
    assert_eq!(external_input(&declaration(&[]), "model")?.id, "model");
    assert_eq!(
        external_input(&declaration(&[]), "other").unwrap_err().text,
        "external input declaration disappeared"
    );
    Ok(())
}

#[test]
fn an_artifact_is_collected_from_where_it_was_made() -> Result<(), Refusal> {
    let driver = DockerRunnerDriver::default();
    let workspaces = TextMap::empty().inserted("rust", "/w");
    let origin = artifact_origin(&artifact(), "/source", &workspaces)?;
    assert_eq!((origin.root.as_str(), origin.source.as_str()), ("/w", "/w/target/service"));
    let tree = ArtifactOutput { source_kind: ArtifactSource::WorktreeTree, ..artifact() };
    let origin = artifact_origin(&tree, "/source", &workspaces)?;
    assert_eq!(origin.source, "/source/target/service");
    let lost = ArtifactOutput { runner: None, ..artifact() };
    assert_eq!(
        artifact_origin(&lost, "/source", &workspaces).unwrap_err().text,
        "runner artifact lost its runner"
    );
    assert_eq!(
        artifact_origin(&artifact(), "/source", &TextMap::empty()).unwrap_err().text,
        "runner workspace is absent"
    );
    assert_eq!(driver.artifact_destination(&artifact(), "/s", true)?, "/s/bin/service");
    assert_eq!(
        driver.artifact_destination(&artifact(), "/s", false).unwrap_err().text,
        "declared artifact output is absent"
    );
    let outside = ArtifactOutput { destination: "/etc/service".into(), ..artifact() };
    assert_eq!(
        driver.artifact_destination(&outside, "/s", true).unwrap_err().text,
        "artifact destination escaped its release staging root"
    );
    let found = ArtifactFinding { sha256: raw_sha256(b"bin"), size_bytes: 3 };
    let receipt = driver.collect_artifact(&artifact(), &Ok(found.clone()))?;
    assert_eq!(receipt.sha256, format!("sha256-{}", raw_sha256(b"bin")));
    assert_eq!(receipt, receipt_of(&artifact(), &found));
    let pinned = ArtifactOutput { expected_sha256: Some(raw_sha256(b"bin")), ..artifact() };
    assert!(is_pinned(&pinned, &found));
    let other = ArtifactOutput { expected_sha256: Some(raw_sha256(b"other")), ..artifact() };
    assert_eq!(
        driver.collect_artifact(&other, &Ok(found)).unwrap_err().text,
        "artifact output differs from its recipe-pinned digest"
    );
    Ok(())
}

#[test]
fn only_an_absolute_docker_is_run() {
    assert!(DockerRunnerDriver::default().admit_docker().is_ok());
    let relative = DockerRunnerDriver { docker_program: "docker".into() };
    assert_eq!(
        relative.admit_docker().unwrap_err().text,
        "Docker runner program is not absolute"
    );
}
