use idunn_drivers::authority::FileFacts;
use idunn_drivers::binding::DockerRunnerBinding;
use idunn_drivers::building::DockerRunnerDriver;
use idunn_drivers::maps::collect;
use idunn_drivers::runner::{
    bind_mount, build_machine_id, build_machine_id_file, container_identity, docker_run_args,
    ContainerNetwork, ContainerSpec, RunnerHost, SecretReading,
};
use idunn_drivers::text::Refusal;

fn pair(name: &str, value: &str) -> (String, String) {
    (name.to_owned(), value.to_owned())
}

fn texts(list: &[&str]) -> Vec<String> {
    list.iter().map(|text| text.to_string()).collect()
}

fn fixture_docker_runner_binding() -> DockerRunnerBinding {
    DockerRunnerBinding {
        image: "eureka-verify-rust".to_owned(),
        user: "65532:65532".to_owned(),
        cache_root: None,
        allowed_programs: texts(&["cargo"]),
        environment: collect(&[]),
        secret_files: collect(&[]),
        network_profile: None,
        memory_mebibytes: 8192,
        cpu_quota_percent: 250,
        pids_limit: 512,
        tmpfs_mebibytes: 256,
    }
}

fn directory(mode: u32) -> FileFacts {
    FileFacts {
        is_dir: true,
        is_file: false,
        is_symlink: false,
        uid: 0,
        gid: 0,
        mode: 0o040000 | mode,
        links: 2,
        len: 4096,
    }
}

fn secret_file(mode: u32) -> FileFacts {
    FileFacts {
        is_dir: false,
        is_file: true,
        is_symlink: false,
        uid: 0,
        gid: 65532,
        mode: 0o100000 | mode,
        links: 1,
        len: 1,
    }
}

fn bare_host() -> RunnerHost {
    RunnerHost {
        is_root: true,
        cache_above: Ok(directory(0o755)),
        cache: Ok(None),
        secrets: Vec::new(),
    }
}

fn host_with_secret(mode: u32) -> RunnerHost {
    RunnerHost {
        secrets: vec![SecretReading {
            above: Ok(directory(0o755)),
            found: Ok(secret_file(mode)),
        }],
        ..bare_host()
    }
}

const STAMP: (&str, &str) = ("IDUNN_SOURCE_REVISION", "abc123");

fn argv_with(workspace: &str, network: &str, cpus: &str, cache: Option<&str>, workdir: &str, command: &[&str]) -> Vec<String> {
    let machine_id = build_machine_id(workspace);
    let mut expected = texts(&["run", "--rm", "--network", network, "--memory", "8192m", "--cpus", cpus, "--mount"]);
    expected.push(format!("type=bind,src={workspace},dst=/workspace"));
    expected.extend(texts(&[
        "--user",
        "65532:65532",
        "--cap-drop",
        "ALL",
        "--security-opt",
        "no-new-privileges",
        "--read-only",
        "--pids-limit",
        "512",
        "--tmpfs",
        "/tmp:rw,nosuid,nodev,noexec,size=256m",
        "--mount",
    ]));
    expected.push(format!(
        "type=bind,src=/run/idunn/build-machine-ids/{machine_id},dst=/etc/machine-id,readonly"
    ));
    if let Some(cache) = cache {
        expected.push("--mount".to_owned());
        expected.push(format!("type=bind,src={cache},dst=/cache"));
    }
    expected.extend(texts(&["--workdir", workdir, "--env", "IDUNN_SOURCE_REVISION=abc123", "eureka-verify-rust"]));
    expected.extend(texts(command));
    expected
}

#[test]
fn container_spec_lowers_to_exact_docker_argv() -> Result<(), Refusal> {
    let workspace = "/var/lib/gamecult/idunn/staging/txn-1/.runner-rust";
    let runner = fixture_docker_runner_binding();
    let spec = ContainerSpec::for_step(&runner, &Vec::new(), STAMP, &bare_host())?;
    let argv = texts(&["cargo", "test", "--lib"]);
    let args = docker_run_args(&spec, workspace, "build", &argv)?;
    assert_eq!(
        args,
        argv_with(workspace, "none", "2.50", None, "/workspace/build", &["cargo", "test", "--lib"])
    );
    Ok(())
}

#[test]
fn required_environment_is_the_only_environment() -> Result<(), Refusal> {
    let mut runner = fixture_docker_runner_binding();
    runner.environment = collect(&[pair("USED", "1"), pair("UNUSED", "2")]);
    let required = texts(&["USED"]);
    let spec = ContainerSpec::for_step(&runner, &required, STAMP, &bare_host())?;
    assert_eq!(
        spec.environment,
        vec![pair("IDUNN_SOURCE_REVISION", "abc123"), pair("USED", "1")]
    );
    assert!(spec.secret_mounts.is_empty());
    Ok(())
}

#[test]
fn required_environment_rejects_prefix_and_ambient_passthrough() -> Result<(), Refusal> {
    let mut runner = fixture_docker_runner_binding();
    runner.environment = collect(&[
        pair("USED", "1"),
        pair("USEDLONGER", "prefix-collision"),
        pair("GAMECULT_AMBIENT", "ambient"),
        pair("IDUNN_AMBIENT", "ambient"),
    ]);
    let required = texts(&["USED"]);
    let spec = ContainerSpec::for_step(&runner, &required, STAMP, &bare_host())?;
    assert_eq!(
        spec.environment,
        vec![pair("IDUNN_SOURCE_REVISION", "abc123"), pair("USED", "1")]
    );
    Ok(())
}

#[test]
fn container_spec_for_step_refuses_stamp_override() {
    let mut runner = fixture_docker_runner_binding();
    runner.environment = collect(&[pair("STAMP", "override")]);
    let required = texts(&["STAMP"]);
    let result = ContainerSpec::for_step(&runner, &required, ("STAMP", "abc123"), &bare_host());
    assert!(
        result.is_err(),
        "expected a runner binding to be refused when it can override the source stamp"
    );
}

#[test]
fn docker_run_args_pins_every_network_branch() -> Result<(), Refusal> {
    let workspace = "/var/lib/gamecult/idunn/staging/txn-net/.runner-rust";
    let argv = texts(&["cargo", "test"]);
    for (profile, expected_network) in
        [(None, "none"), (Some("bridge"), "bridge"), (Some("odin-verse"), "odin-verse")]
    {
        let mut runner = fixture_docker_runner_binding();
        runner.network_profile = profile.map(str::to_owned);
        let spec = ContainerSpec::for_step(&runner, &Vec::new(), STAMP, &bare_host())?;
        let args = docker_run_args(&spec, workspace, "build", &argv)?;
        assert_eq!(
            args,
            argv_with(workspace, expected_network, "2.50", None, "/workspace/build", &["cargo", "test"]),
            "network branch {profile:?}"
        );
    }
    Ok(())
}

#[test]
fn explicit_none_network_profile_is_none_not_bridge() -> Result<(), Refusal> {
    let mut runner = fixture_docker_runner_binding();
    runner.network_profile = Some("none".to_owned());
    let spec = ContainerSpec::for_step(&runner, &Vec::new(), STAMP, &bare_host())?;
    assert_eq!(spec.network, ContainerNetwork::Isolated);
    assert_eq!(spec.network.docker_value(), "none");
    Ok(())
}

#[test]
fn docker_run_args_pins_cpu_quota_across_the_range() -> Result<(), Refusal> {
    let workspace = "/var/lib/gamecult/idunn/staging/txn-cpu/.runner-rust";
    let argv = texts(&["cargo", "test"]);
    for (quota, expected) in [
        (100u32, "1.00"),
        (150, "1.50"),
        (250, "2.50"),
        (333, "3.33"),
        (800, "8.00"),
    ] {
        let mut runner = fixture_docker_runner_binding();
        runner.cpu_quota_percent = quota;
        let spec = ContainerSpec::for_step(&runner, &Vec::new(), STAMP, &bare_host())?;
        let args = docker_run_args(&spec, workspace, ".", &argv)?;
        let cpus_index = args.iter().position(|a| a == "--cpus").expect("--cpus flag present");
        assert_eq!(args[cpus_index + 1], expected, "quota {quota}");
    }
    Ok(())
}

#[test]
fn docker_run_args_writes_every_quota_with_two_digits() -> Result<(), Refusal> {
    for quota in [0u32, 5, 9, 10, 99, 101, 1009, 12345, 4294967295] {
        let mut runner = fixture_docker_runner_binding();
        runner.cpu_quota_percent = quota;
        let spec = ContainerSpec::for_step(&runner, &Vec::new(), STAMP, &bare_host())?;
        let args = docker_run_args(&spec, "/w", ".", &texts(&["cargo"]))?;
        assert_eq!(args[7], format!("{:.2}", f64::from(quota) / 100.0));
    }
    Ok(())
}

#[test]
fn docker_run_args_mounts_cache_root_exactly_once() -> Result<(), Refusal> {
    let cache = "/srv/idunn/cache";
    let workspace = "/var/lib/gamecult/idunn/staging/txn-cache/.runner-rust";
    let argv = texts(&["cargo", "test"]);

    let mut runner = fixture_docker_runner_binding();
    let spec = ContainerSpec::for_step(&runner, &Vec::new(), STAMP, &bare_host())?;
    let args = docker_run_args(&spec, workspace, ".", &argv)?;
    assert!(
        !args.iter().any(|a| a == "/cache" || a.contains("dst=/cache")),
        "no cache mount expected when cache_root is absent"
    );

    runner.cache_root = Some(cache.to_owned());
    let spec = ContainerSpec::for_step(&runner, &Vec::new(), STAMP, &bare_host())?;
    let args = docker_run_args(&spec, workspace, ".", &argv)?;
    assert_eq!(
        args,
        argv_with(workspace, "none", "2.50", Some(cache), "/workspace/", &["cargo", "test"])
    );
    Ok(())
}

#[test]
fn docker_run_args_mounts_secrets_read_only() -> Result<(), Refusal> {
    let secret = "/etc/idunn/secret.cc";
    let mut runner = fixture_docker_runner_binding();
    runner.secret_files = collect(&[pair("A_SECRET", secret)]);
    let required = texts(&["A_SECRET"]);
    let spec = ContainerSpec::for_step(&runner, &required, STAMP, &host_with_secret(0o440))?;
    let workspace = "/var/lib/gamecult/idunn/staging/txn-secret/.runner-rust";
    let args = docker_run_args(&spec, workspace, ".", &texts(&["cargo", "test"]))?;
    let mount = args
        .iter()
        .find(|a| a.starts_with("type=bind") && a.contains(secret))
        .expect("secret mount present");
    assert!(mount.ends_with(",readonly"), "secret mount must be read-only: {mount}");
    assert!(args.contains(&"A_SECRET=/run/idunn/secrets/A_SECRET".to_owned()));
    Ok(())
}

#[test]
fn docker_run_args_keeps_read_only_with_a_named_network_and_a_cache_root() -> Result<(), Refusal> {
    let mut runner = fixture_docker_runner_binding();
    runner.network_profile = Some("build-net".to_owned());
    runner.cache_root = Some("/srv/idunn/cache".to_owned());
    let spec = ContainerSpec::for_step(&runner, &Vec::new(), STAMP, &bare_host())?;
    let workspace = "/var/lib/gamecult/idunn/staging/txn-n1/.runner-rust";
    let args = docker_run_args(&spec, workspace, ".", &texts(&["cargo", "test"]))?;
    assert!(
        args.iter().any(|a| a == "--read-only"),
        "a Named network plus a cache root must not drop --read-only: {args:?}"
    );
    Ok(())
}

#[test]
fn docker_run_args_keeps_secret_mounts_read_only_alongside_plain_environment() -> Result<(), Refusal> {
    let secret = "/etc/idunn/secret.cc";
    let mut runner = fixture_docker_runner_binding();
    runner.secret_files = collect(&[pair("A_SECRET", secret)]);
    runner.environment = collect(&[pair("PLAIN_ONE", "x")]);
    let required = texts(&["A_SECRET", "PLAIN_ONE"]);
    let spec = ContainerSpec::for_step(&runner, &required, STAMP, &host_with_secret(0o440))?;
    let workspace = "/var/lib/gamecult/idunn/staging/txn-n2/.runner-rust";
    let args = docker_run_args(&spec, workspace, ".", &texts(&["cargo", "test"]))?;
    let mount = args
        .iter()
        .find(|a| a.starts_with("type=bind") && a.contains(secret))
        .expect("secret mount present");
    assert!(
        mount.ends_with(",readonly"),
        "a plain environment entry must not make a secret mount writable: {mount}"
    );
    Ok(())
}

#[test]
fn container_spec_for_step_keeps_the_source_stamp_with_a_secret_and_plain_environment() -> Result<(), Refusal> {
    let mut runner = fixture_docker_runner_binding();
    runner.secret_files = collect(&[pair("A_SECRET", "/etc/idunn/secret.cc")]);
    runner.environment = collect(&[pair("PLAIN_ONE", "x")]);
    let required = texts(&["A_SECRET", "PLAIN_ONE"]);
    let spec = ContainerSpec::for_step(&runner, &required, STAMP, &host_with_secret(0o440))?;
    assert_eq!(
        spec.environment.first(),
        Some(&pair("IDUNN_SOURCE_REVISION", "abc123")),
        "the source stamp must survive alongside a secret and a plain environment entry"
    );
    assert_eq!(spec.environment.len() + spec.secret_mounts.len(), required.len() + 1);
    Ok(())
}

#[test]
fn container_spec_for_step_validates_secret_files() {
    let mut runner = fixture_docker_runner_binding();
    runner.secret_files = collect(&[pair("A_SECRET", "/etc/idunn/secret.cc")]);
    let required = texts(&["A_SECRET"]);
    let result = ContainerSpec::for_step(&runner, &required, STAMP, &host_with_secret(0o644));
    assert_eq!(
        result.unwrap_err().text,
        "runner secret is not root-owned, exact-group-bound, and 0440"
    );
}

#[test]
fn container_spec_for_step_validates_cache_root() {
    let mut runner = fixture_docker_runner_binding();
    runner.cache_root = Some("/srv/bad-parent/cache".to_owned());
    let host = RunnerHost { cache_above: Ok(directory(0o777)), ..bare_host() };
    let result = ContainerSpec::for_step(&runner, &Vec::new(), STAMP, &host);
    assert_eq!(
        result.unwrap_err().text,
        "runner cache parent is not root-owned and nonwritable"
    );
}

#[test]
fn container_spec_for_step_names_what_a_runner_lacks() {
    let runner = fixture_docker_runner_binding();
    let required = texts(&["ABSENT"]);
    let result = ContainerSpec::for_step(&runner, &required, STAMP, &bare_host());
    assert_eq!(result.unwrap_err().text, "runner lacks declared step environment ABSENT");
}

#[test]
fn build_machine_id_is_well_formed_per_workspace_and_never_the_host() {
    let first = build_machine_id("/var/lib/gamecult/idunn/staging/tx-a");
    let second = build_machine_id("/var/lib/gamecult/idunn/staging/tx-b");
    assert_eq!(first.len(), 32);
    assert!(first.chars().all(|c| c.is_ascii_hexdigit() && !c.is_uppercase()));
    assert_ne!(first, second);
    assert_eq!(
        first,
        build_machine_id("/var/lib/gamecult/idunn/staging/tx-a"),
        "a workspace's build identity must be stable for the life of the build"
    );
    assert_eq!(
        build_machine_id_file("/var/lib/gamecult/idunn/staging/tx-a"),
        format!("/run/idunn/build-machine-ids/{first}")
    );
}

#[test]
fn build_machine_id_is_the_start_of_the_digest() {
    assert_eq!(build_machine_id("abc"), "ba7816bf8f01cfea414140de5dae2223");
}

#[test]
fn container_identities_are_numeric_and_unprivileged() {
    let identity = container_identity("65532:1000").unwrap();
    assert_eq!((identity.uid, identity.gid), (65532, 1000));
    for (user, words) in [
        ("65532", "runner user is not numeric UID:GID"),
        ("nobody:1000", "runner UID is not a u32"),
        ("1000:nogroup", "runner GID is not a u32"),
        ("0:1000", "runner identity must be unprivileged"),
        ("1000:0", "runner identity must be unprivileged"),
        ("4294967296:1", "runner UID is not a u32"),
    ] {
        assert_eq!(container_identity(user).unwrap_err().text, words, "{user}");
    }
}

#[test]
fn bind_mounts_refuse_what_docker_would_split() {
    assert_eq!(bind_mount("/a/b", "/c", false).unwrap(), "type=bind,src=/a/b,dst=/c");
    assert_eq!(bind_mount("/a/b", "/c", true).unwrap(), "type=bind,src=/a/b,dst=/c,readonly");
    assert_eq!(bind_mount("a/b", "/c", true).unwrap_err().text, "Docker bind source is not absolute");
    for source in ["/a,b", "/a\nb", "/a\rb"] {
        assert_eq!(
            bind_mount(source, "/c", true).unwrap_err().text,
            "Docker bind source contains a forbidden mount character"
        );
    }
}

#[test]
fn docker_run_args_refuses_an_empty_command_and_an_escaping_directory() -> Result<(), Refusal> {
    let runner = fixture_docker_runner_binding();
    let spec = ContainerSpec::for_step(&runner, &Vec::new(), STAMP, &bare_host())?;
    assert_eq!(
        docker_run_args(&spec, "/w", ".", &[]).unwrap_err().text,
        "runner command is empty"
    );
    assert!(docker_run_args(&spec, "/w", "../out", &texts(&["cargo"])).is_err());
    assert!(docker_run_args(&spec, "w", ".", &texts(&["cargo"])).is_err());
    Ok(())
}

#[test]
fn a_runner_program_that_is_not_bound_is_refused() {
    let driver = DockerRunnerDriver::default();
    let runner = fixture_docker_runner_binding();
    assert!(driver.admit_command(&runner, &texts(&["cargo", "test"])).is_ok());
    assert_eq!(
        driver.admit_command(&runner, &texts(&["sh"])).unwrap_err().text,
        "runner program sh is not operator-bound"
    );
    assert_eq!(
        driver.admit_command(&runner, &[]).unwrap_err().text,
        "runner command is empty"
    );
    let required: Vec<String> = Vec::new();
    let refused =
        driver.run_in_workspace(&runner, "/w", ".", &texts(&["sh"]), &required, STAMP, &bare_host());
    assert_eq!(refused.unwrap_err().text, "runner program sh is not operator-bound");
    let args = driver
        .run_in_workspace(&runner, "/w", "build", &texts(&["cargo"]), &required, STAMP, &bare_host())
        .unwrap();
    assert_eq!(args, argv_with("/w", "none", "2.50", None, "/workspace/build", &["cargo"]));
}

#[test]
fn a_failed_container_is_told_by_its_complaint() {
    let driver = DockerRunnerDriver::default();
    assert_eq!(driver.docker_program, "/usr/bin/docker");
    assert!(driver.admit_docker().is_ok());
    assert!(driver.docker(true, "exit status: 0", "").is_ok());
    assert_eq!(
        driver.docker(false, "exit status: 125", "  no such image \n").unwrap_err().text,
        "Docker runner exited with exit status: 125: no such image"
    );
    let relative = DockerRunnerDriver { docker_program: "docker".to_owned() };
    assert_eq!(
        relative.admit_docker().unwrap_err().text,
        "Docker runner program is not absolute"
    );
}
