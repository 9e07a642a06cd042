//! The driver of builds in containers: one step is one container with exactly the
//! environment that the step requires, and what comes out is held to what was declared.
use vstd::prelude::*;

use crate::authority::{
    cache_refusal, ensure_runner_cache_root, runner_secret_refusal, validate_runner_secret,
    FileFacts,
};
use crate::binding::DockerRunnerBinding;
use crate::digest::{digest_id, sha256_id, sha256_name};
use crate::gittree::{normalized, normalized_relative};
use crate::maps::{is_named, value_of, Pair};
use crate::observation::ProcessIdentity;
use crate::paths::{absolute, is_absolute, join, joined};
use crate::procfs::fault;
use crate::scan::{
    contains_char, cut_first, decimal, decimal_number, decimal_of, parse_decimal, split_once,
    strip_prefix,
};
use crate::text::{
    cat2, cat3, cat4, cat5, chars_of, check, copy_option, either, part_of, push_text, push_texts,
    refuse, same_text, text_option, texts, unless, Refusal,
};

verus! {

/// The network that a container step is admitted to.
#[derive(Clone, Debug, PartialEq, Eq)]
pub enum ContainerNetwork {
    Isolated,
    Bridge,
    Named(String),
}

/// The system calls that a container may make: those that every container may.
#[derive(Clone, Copy, Debug, PartialEq, Eq, Structural)]
pub enum ContainerSeccomp {
    Standard,
}

/// The name by which Docker knows a network.
pub open spec fn network_name(network: ContainerNetwork) -> Seq<char> {
    match network {
        ContainerNetwork::Isolated => "none"@,
        ContainerNetwork::Bridge => "bridge"@,
        ContainerNetwork::Named(name) => name@,
    }
}

impl ContainerNetwork {
    /// The name by which Docker knows a network.
    pub fn docker_value(&self) -> (name: &str)
        ensures
            name@ == network_name(*self),
    {
        match self {
            ContainerNetwork::Isolated => "none",
            ContainerNetwork::Bridge => "bridge",
            ContainerNetwork::Named(name) => name.as_str(),
        }
    }
}

/// A secret that a container reads from a file, by the name of its variable.
#[derive(Clone, Debug, PartialEq, Eq)]
pub struct SecretMount {
    pub env_name: String,
    pub host_path: String,
    pub container_path: String,
}

/// What `SecretMount` holds.
#[verifier::ext_equal]
pub struct SecretMountView {
    pub env_name: Seq<char>,
    pub host_path: Seq<char>,
    pub container_path: Seq<char>,
}

impl View for SecretMount {
    type V = SecretMountView;

    open spec fn view(&self) -> SecretMountView {
        SecretMountView {
            env_name: self.env_name@,
            host_path: self.host_path@,
            container_path: self.container_path@,
        }
    }
}

/// What each mount of a list holds.
pub open spec fn mount_views(list: Seq<SecretMount>) -> Seq<SecretMountView> {
    Seq::new(list.len(), |i: int| list[i]@)
}

/// All that a container is admitted with.
#[derive(Clone, Debug, PartialEq, Eq)]
pub struct ContainerSpec {
    pub image: String,
    pub user: String,
    pub network: ContainerNetwork,
    pub seccomp: ContainerSeccomp,
    pub memory_mebibytes: u32,
    pub cpu_quota_percent: u32,
    pub pids_limit: u32,
    pub tmpfs_mebibytes: u32,
    pub cache_root: Option<String>,
    pub secret_mounts: Vec<SecretMount>,
    pub environment: Vec<(String, String)>,
}

/// A runner's secret and the directory that it lies in, as they are found.
#[derive(Debug, PartialEq, Eq)]
pub struct SecretReading {
    pub above: Result<FileFacts, Refusal>,
    pub found: Result<FileFacts, Refusal>,
}

/// What a host holds for a runner: its cache, and its secrets in the order of their names.
#[derive(Debug, PartialEq, Eq)]
pub struct RunnerHost {
    pub is_root: bool,
    pub cache_above: Result<FileFacts, Refusal>,
    pub cache: Result<Option<FileFacts>, Refusal>,
    pub secrets: Vec<SecretReading>,
}

/// The identity that a runner's user is, or why it is none.
pub open spec fn identity_of(user: Seq<char>) -> Result<ProcessIdentity, Seq<char>> {
    match cut_first(user, ':') {
        None => Err("runner user is not numeric UID:GID"@),
        Some((uid, gid)) => match decimal_number(uid, u32::MAX as int) {
            None => Err("runner UID is not a u32"@),
            Some(u) => match decimal_number(gid, u32::MAX as int) {
                None => Err("runner GID is not a u32"@),
                Some(g) => if u > 0 && g > 0 {
                    Ok(ProcessIdentity { uid: u as u32, gid: g as u32 })
                } else {
                    Err("runner identity must be unprivileged"@)
                },
            },
        },
    }
}

/// The identity that a runner's user is.
pub fn container_identity(user: &str) -> (outcome: Result<ProcessIdentity, Refusal>)
    ensures
        crate::procfs::comes_to(outcome, identity_of(user@)),
{
    let (uid, gid) = match split_once(user, ':') {
        Some(halves) => halves,
        None => return Err(refuse("runner user is not numeric UID:GID")),
    };
    let u: u64 = match parse_decimal(uid.as_str(), 0xffff_ffffu64) {
        Some(u) => u,
        None => return Err(refuse("runner UID is not a u32")),
    };
    let g: u64 = match parse_decimal(gid.as_str(), 0xffff_ffffu64) {
        Some(g) => g,
        None => return Err(refuse("runner GID is not a u32")),
    };
    check(u > 0 && g > 0, "runner identity must be unprivileged")?;
    Ok(ProcessIdentity { uid: u as u32, gid: g as u32 })
}

/// What a required name is bound to: a text, or a secret.
pub struct Bound {
    pub environment: Seq<Pair>,
    pub mounts: Seq<SecretMountView>,
}

/// The place of a name among a runner's secrets.
pub open spec fn secret_place(secrets: Seq<Pair>, name: Seq<char>) -> int {
    choose|i: int| 0 <= i < secrets.len() && (#[trigger] secrets[i]).0 == name
}

/// One required name bound, or why it is refused. Nothing that is not required is bound,
/// and nothing may take the name of the source stamp.
pub open spec fn bind_name(
    bound: Bound,
    runner: DockerRunnerBinding,
    name: Seq<char>,
    stamp: Seq<char>,
    host: RunnerHost,
    identity: ProcessIdentity,
) -> Result<Bound, Seq<char>> {
    if name == stamp {
        Err(
            "runner cannot bind step environment "@ + name
                + ", which collides with the Idunn source stamp"@,
        )
    } else if is_named(runner.environment@, name) {
        Ok(
            Bound {
                environment: bound.environment.push((name, value_of(runner.environment@, name)->0)),
                mounts: bound.mounts,
            },
        )
    } else if is_named(runner.secret_files@, name) {
        let i = secret_place(runner.secret_files@, name);
        match runner_secret_refusal(
            host.is_root,
            runner.secret_files@[i].1,
            host.secrets@[i].above,
            host.secrets@[i].found,
            identity,
        ) {
            Some(w) => Err(w),
            None => Ok(
                Bound {
                    environment: bound.environment,
                    mounts: bound.mounts.push(
                        SecretMountView {
                            env_name: name,
                            host_path: runner.secret_files@[i].1,
                            container_path: "/run/idunn/secrets/"@ + name,
                        },
                    ),
                },
            ),
        }
    } else {
        Err("runner lacks declared step environment "@ + name)
    }
}

/// The first required names bound, or why the first bad one is refused.
pub open spec fn bind_names(
    runner: DockerRunnerBinding,
    names: Seq<Seq<char>>,
    stamp: Pair,
    host: RunnerHost,
    identity: ProcessIdentity,
) -> Result<Bound, Seq<char>>
    decreases names.len(),
{
    if names.len() == 0 {
        Ok(Bound { environment: seq![stamp], mounts: Seq::empty() })
    } else {
        match bind_names(runner, names.drop_last(), stamp, host, identity) {
            Err(w) => Err(w),
            Ok(bound) => bind_name(bound, runner, names.last(), stamp.0, host, identity),
        }
    }
}

proof fn lemma_bind_fails(
    runner: DockerRunnerBinding,
    names: Seq<Seq<char>>,
    stamp: Pair,
    host: RunnerHost,
    identity: ProcessIdentity,
    n: int,
)
    requires
        0 <= n <= names.len(),
        bind_names(runner, names.take(n), stamp, host, identity) is Err,
    ensures
        bind_names(runner, names, stamp, host, identity) == bind_names(
            runner,
            names.take(n),
            stamp,
            host,
            identity,
        ),
    decreases names.len() - n,
{
    if n < names.len() {
        assert(names.take(n + 1).drop_last() =~= names.take(n));
        lemma_bind_fails(runner, names, stamp, host, identity, n + 1);
    } else {
        assert(names.take(n) =~= names);
    }
}

/// The network that a runner's profile is.
pub open spec fn is_network(network: ContainerNetwork, profile: Option<String>) -> bool {
    match profile {
        None => network is Isolated,
        Some(name) => if name@ == "none"@ {
            network is Isolated
        } else if name@ == "bridge"@ {
            network is Bridge
        } else {
            network matches ContainerNetwork::Named(given) && given@ == name@
        },
    }
}

/// What a step is bound to, or why it is refused.
pub open spec fn step_binding(
    runner: DockerRunnerBinding,
    required: Seq<Seq<char>>,
    stamp: Pair,
    host: RunnerHost,
) -> Result<Bound, Seq<char>> {
    match identity_of(runner.user@) {
        Err(w) => Err(w),
        Ok(identity) => match (match runner.cache_root {
            Some(path) => cache_refusal(
                host.is_root,
                path@,
                host.cache_above,
                host.cache,
                identity,
            ),
            None => None,
        }) {
            Some(w) => Err(w),
            None => bind_names(runner, required, stamp, host, identity),
        },
    }
}

/// Whether a container is that of a runner, with what a step is bound to.
pub open spec fn is_container(
    spec: ContainerSpec,
    runner: DockerRunnerBinding,
    bound: Bound,
) -> bool {
    &&& spec.image@ == runner.image@
    &&& spec.user@ == runner.user@
    &&& is_network(spec.network, runner.network_profile)
    &&& spec.memory_mebibytes == runner.memory_mebibytes
    &&& spec.cpu_quota_percent == runner.cpu_quota_percent
    &&& spec.pids_limit == runner.pids_limit
    &&& spec.tmpfs_mebibytes == runner.tmpfs_mebibytes
    &&& text_option(spec.cache_root) == text_option(runner.cache_root)
    &&& mount_views(spec.secret_mounts@) == bound.mounts
    &&& crate::maps::pairs_of(spec.environment@) == bound.environment
}

fn network_of(profile: &Option<String>) -> (network: ContainerNetwork)
    ensures
        is_network(network, *profile),
{
    match profile {
        None => ContainerNetwork::Isolated,
        Some(name) => if same_text(name.as_str(), "none") {
            ContainerNetwork::Isolated
        } else if same_text(name.as_str(), "bridge") {
            ContainerNetwork::Bridge
        } else {
            ContainerNetwork::Named(name.clone())
        },
    }
}

fn push_pair(list: &mut Vec<(String, String)>, name: String, value: String)
    ensures
        crate::maps::pairs_of(final(list)@) == crate::maps::pairs_of(old(list)@).push(
            (name@, value@),
        ),
{
    list.push((name, value));
    assert(crate::maps::pairs_of(list@) =~= crate::maps::pairs_of(old(list)@).push(
        (name@, value@),
    ));
}

fn push_mount(list: &mut Vec<SecretMount>, mount: SecretMount)
    ensures
        mount_views(final(list)@) == mount_views(old(list)@).push(mount@),
{
    list.push(mount);
    assert(mount_views(list@) =~= mount_views(old(list)@).push(mount@));
}

impl ContainerSpec {
    /// The container of a step: a runner, the names that the step requires, the stamp of
    /// its source, and what the host holds for the runner. There is a reading for each of
    /// the runner's secrets.
    pub fn for_step(
        runner: &DockerRunnerBinding,
        required_environment: &Vec<String>,
        source_stamp: (&str, &str),
        host: &RunnerHost,
    ) -> (outcome: Result<ContainerSpec, Refusal>)
        requires
            host.secrets@.len() == runner.secret_files@.len(),
        ensures
            match step_binding(
                *runner,
                texts(required_environment@),
                (source_stamp.0@, source_stamp.1@),
                *host,
            ) {
                Err(w) => outcome matches Err(refusal) && refusal@ == w,
                Ok(bound) => outcome matches Ok(spec) && is_container(spec, *runner, bound),
            },
    {
        let identity = container_identity(runner.user.as_str())?;
        match &runner.cache_root {
            Some(path) => {
                let _ = ensure_runner_cache_root(
                    host.is_root,
                    path.as_str(),
                    &host.cache_above,
                    &host.cache,
                    identity,
                )?;
            },
            None => {},
        }
        let ghost stamp = (source_stamp.0@, source_stamp.1@);
        let ghost all = texts(required_environment@);
        let mut environment: Vec<(String, String)> = Vec::new();
        let mut secret_mounts: Vec<SecretMount> = Vec::new();
        push_pair(&mut environment, source_stamp.0.to_owned(), source_stamp.1.to_owned());
        proof {
            assert(all.take(0) =~= Seq::<Seq<char>>::empty());
            assert(crate::maps::pairs_of(environment@) =~= seq![stamp]);
            assert(mount_views(secret_mounts@) =~= Seq::<SecretMountView>::empty());
        }
        let mut i: usize = 0;
        while i < required_environment.len()
            invariant
                i <= required_environment@.len(),
                host.secrets@.len() == runner.secret_files@.len(),
                all == texts(required_environment@),
                stamp == (source_stamp.0@, source_stamp.1@),
                identity_of(runner.user@) == Ok::<ProcessIdentity, Seq<char>>(identity),
                (match runner.cache_root {
                    Some(path) => cache_refusal(
                        host.is_root,
                        path@,
                        host.cache_above,
                        host.cache,
                        identity,
                    ),
                    None => None,
                }) is None,
                bind_names(*runner, all.take(i as int), stamp, *host, identity) == Ok::<
                    Bound,
                    Seq<char>,
                >(
                    Bound {
                        environment: crate::maps::pairs_of(environment@),
                        mounts: mount_views(secret_mounts@),
                    },
                ),
            decreases required_environment@.len() - i,
        {
            proof {
                assert(all.take(i + 1).drop_last() =~= all.take(i as int));
                assert(all.take(i + 1).last() == required_environment@[i as int]@);
            }
            let name = required_environment[i].as_str();
            if same_text(name, source_stamp.0) {
                proof {
                    lemma_bind_fails(*runner, all, stamp, *host, identity, i + 1);
                }
                return Err(
                    Refusal {
                        text: cat3(
                            "runner cannot bind step environment ",
                            name,
                            ", which collides with the Idunn source stamp",
                        ),
                    },
                );
            }
            match runner.environment.get(name) {
                Some(value) => {
                    push_pair(&mut environment, name.to_owned(), value);
                },
                None => match runner.secret_files.find(name) {
                    Some(k) => {
                        assert(secret_place(runner.secret_files@, name@) == k);
                        let path = runner.secret_files.value_at(k);
                        match validate_runner_secret(
                            host.is_root,
                            path,
                            &host.secrets[k].above,
                            &host.secrets[k].found,
                            identity,
                        ) {
                            Ok(()) => {},
                            Err(refusal) => {
                                proof {
                                    lemma_bind_fails(
                                        *runner,
                                        all,
                                        stamp,
                                        *host,
                                        identity,
                                        i + 1,
                                    );
                                }
                                return Err(refusal);
                            },
                        }
                        push_mount(
                            &mut secret_mounts,
                            SecretMount {
                                env_name: name.to_owned(),
                                host_path: path.to_owned(),
                                container_path: cat2("/run/idunn/secrets/", name),
                            },
                        );
                    },
                    None => {
                        proof {
                            lemma_bind_fails(*runner, all, stamp, *host, identity, i + 1);
                        }
                        return Err(
                            Refusal {
                                text: cat2("runner lacks declared step environment ", name),
                            },
                        );
                    },
                },
            }
            i += 1;
        }
        assert(all.take(i as int) =~= all);
        Ok(
            ContainerSpec {
                image: runner.image.clone(),
                user: runner.user.clone(),
                network: network_of(&runner.network_profile),
                seccomp: ContainerSeccomp::Standard,
                memory_mebibytes: runner.memory_mebibytes,
                cpu_quota_percent: runner.cpu_quota_percent,
                pids_limit: runner.pids_limit,
                tmpfs_mebibytes: runner.tmpfs_mebibytes,
                cache_root: copy_option(&runner.cache_root),
                secret_mounts,
                environment,
            },
        )
    }
}

/// The machine identity of a build: the start of the digest of where it works.
pub open spec fn machine_id(workspace: Seq<char>) -> Seq<char> {
    digest_id(vstd::utf8::encode_utf8(workspace)).skip("sha256-"@.len() as int).take(32)
}

/// The machine identity of a build: its own, and that of no machine. It has the form that
/// systemd gives one.
pub fn build_machine_id(workspace: &str) -> (id: String)
    ensures
        id@ == machine_id(workspace@),
        id@.len() == 32,
        crate::scan::all_of(id@, |c: char| crate::scan::lower_hex(c)),
{
    let digest = sha256_id(workspace.as_bytes());
    assert(sha256_name(digest@));
    match strip_prefix(digest.as_str(), "sha256-") {
        Some(rest) => {
            let chars = chars_of(rest.as_str());
            let id = part_of(chars.as_slice(), 0, 32);
            proof {
                let whole = digest@.skip("sha256-"@.len() as int);
                assert(id@ =~= whole.take(32));
                assert forall|i: int| 0 <= i < id@.len() implies crate::scan::lower_hex(
                    #[trigger] id@[i],
                ) by {
                    assert(id@[i] == whole[i]);
                }
            }
            id
        },
        None => String::new(),
    }
}

/// Where the machine identity of a build is kept.
pub open spec fn machine_id_place(workspace: Seq<char>) -> Seq<char> {
    joined("/run/idunn/build-machine-ids"@, machine_id(workspace))
}

/// Where the machine identity of a build is kept.
pub fn build_machine_id_file(workspace: &str) -> (place: String)
    ensures
        place@ == machine_id_place(workspace@),
{
    let id = build_machine_id(workspace);
    join("/run/idunn/build-machine-ids", id.as_str())
}

/// The mount of a path of the host in a container, or why there is none.
pub open spec fn mount_of(source: Seq<char>, destination: Seq<char>, read_only: bool) -> Result<
    Seq<char>,
    Seq<char>,
> {
    if !absolute(source) {
        Err("Docker bind source is not absolute"@)
    } else if source.contains(',') || source.contains('\n') || source.contains('\r') {
        Err("Docker bind source contains a forbidden mount character"@)
    } else {
        Ok(
            "type=bind,src="@ + source + ",dst="@ + destination + (if read_only {
                ",readonly"@
            } else {
                ""@
            }),
        )
    }
}

/// The mount of a path of the host in a container.
pub fn bind_mount(source: &str, destination: &str, read_only: bool) -> (outcome: Result<
    String,
    Refusal,
>)
    ensures
        crate::clock::written(outcome, mount_of(source@, destination@, read_only)),
{
    check(is_absolute(source), "Docker bind source is not absolute")?;
    check(
        !contains_char(source, ',') && !contains_char(source, '\n') && !contains_char(
            source,
            '\r',
        ),
        "Docker bind source contains a forbidden mount character",
    )?;
    let suffix = if read_only {
        ",readonly"
    } else {
        ""
    };
    Ok(cat5("type=bind,src=", source, ",dst=", destination, suffix))
}

/// A share of processors, in hundredths, with two digits behind the point.
pub open spec fn hundredths(percent: u32) -> Seq<char> {
    decimal((percent / 100) as nat) + "."@ + decimal(((percent / 10) % 10) as nat) + decimal(
        (percent % 10) as nat,
    )
}

fn hundredths_of(percent: u32) -> (text: String)
    ensures
        text@ == hundredths(percent),
{
    let whole = decimal_of((percent / 100) as u64);
    let tenth = decimal_of(((percent / 10) % 10) as u64);
    let hundredth = decimal_of((percent % 10) as u64);
    cat4(whole.as_str(), ".", tenth.as_str(), hundredth.as_str())
}

/// The arguments that give a container its environment.
pub open spec fn environment_arguments(pairs: Seq<Pair>) -> Seq<Seq<char>>
    decreases pairs.len(),
{
    if pairs.len() == 0 {
        Seq::empty()
    } else {
        environment_arguments(pairs.drop_last()) + seq![
            "--env"@,
            pairs.last().0 + "="@ + pairs.last().1,
        ]
    }
}

/// The arguments that give a container its first secrets, or why the first bad one is
/// refused.
pub open spec fn secret_arguments(mounts: Seq<SecretMountView>) -> Result<Seq<Seq<char>>, Seq<char>>
    decreases mounts.len(),
{
    if mounts.len() == 0 {
        Ok(Seq::empty())
    } else {
        let mount = mounts.last();
        match secret_arguments(mounts.drop_last()) {
            Err(w) => Err(w),
            Ok(earlier) => match mount_of(mount.host_path, mount.container_path, true) {
                Err(w) => Err(w),
                Ok(bind) => Ok(
                    earlier + seq![
                        "--env"@,
                        mount.env_name + "="@ + mount.container_path,
                        "--mount"@,
                        bind,
                    ],
                ),
            },
        }
    }
}

proof fn lemma_secret_arguments_fail(mounts: Seq<SecretMountView>, n: int)
    requires
        0 <= n <= mounts.len(),
        secret_arguments(mounts.take(n)) is Err,
    ensures
        secret_arguments(mounts) == secret_arguments(mounts.take(n)),
    decreases mounts.len() - n,
{
    if n < mounts.len() {
        assert(mounts.take(n + 1).drop_last() =~= mounts.take(n));
        lemma_secret_arguments_fail(mounts, n + 1);
    } else {
        assert(mounts.take(n) =~= mounts);
    }
}

/// The mount of a cache, if there is one, as arguments.
pub open spec fn cache_arguments(cache_root: Option<String>) -> Result<Seq<Seq<char>>, Seq<char>> {
    match cache_root {
        None => Ok(Seq::empty()),
        Some(path) => match mount_of(path@, "/cache"@, false) {
            Err(w) => Err(w),
            Ok(bind) => Ok(seq!["--mount"@, bind]),
        },
    }
}

/// The arguments that confine a container, before its caches and secrets.
pub open spec fn confining_arguments(
    spec: ContainerSpec,
    workspace: Seq<char>,
    machine: Seq<char>,
) -> Seq<Seq<char>> {
    seq![
        "run"@,
        "--rm"@,
        "--network"@,
        network_name(spec.network),
        "--memory"@,
        decimal(spec.memory_mebibytes as nat) + "m"@,
        "--cpus"@,
        hundredths(spec.cpu_quota_percent),
        "--mount"@,
        workspace,
        "--user"@,
        spec.user@,
        "--cap-drop"@,
        "ALL"@,
        "--security-opt"@,
        "no-new-privileges"@,
        "--read-only"@,
        "--pids-limit"@,
        decimal(spec.pids_limit as nat),
        "--tmpfs"@,
        "/tmp:rw,nosuid,nodev,noexec,size="@ + decimal(spec.tmpfs_mebibytes as nat) + "m"@,
        "--mount"@,
        machine,
    ]
}

/// The arguments of a container, or why there are none.
pub open spec fn container_arguments(
    spec: ContainerSpec,
    workspace: Seq<char>,
    working_directory: Seq<char>,
    argv: Seq<Seq<char>>,
) -> Result<Seq<Seq<char>>, Seq<char>> {
    let bind = mount_of(workspace, "/workspace"@, false);
    let machine = mount_of(machine_id_place(workspace), "/etc/machine-id"@, true);
    let caches = cache_arguments(spec.cache_root);
    let directory = normalized(working_directory);
    let secrets = secret_arguments(mount_views(spec.secret_mounts@));
    match either(
        unless(argv.len() > 0, "runner command is empty"@),
        either(
            fault(bind),
            either(
                fault(machine),
                either(fault(caches), either(fault(directory), fault(secrets))),
            ),
        ),
    ) {
        Some(w) => Err(w),
        None => Ok(
            confining_arguments(spec, bind->Ok_0, machine->Ok_0) + caches->Ok_0 + seq![
                "--workdir"@,
                "/workspace/"@ + directory->Ok_0,
            ] + environment_arguments(crate::maps::pairs_of(spec.environment@)) + secrets->Ok_0
                + seq![spec.image@] + argv,
        ),
    }
}

fn push_environment(args: &mut Vec<String>, environment: &Vec<(String, String)>)
    ensures
        texts(final(args)@) == texts(old(args)@) + environment_arguments(
            crate::maps::pairs_of(environment@),
        ),
{
    let ghost start = texts(args@);
    let ghost all = crate::maps::pairs_of(environment@);
    let mut i: usize = 0;
    proof {
        assert(all.take(0) =~= Seq::<Pair>::empty());
        assert(texts(args@) =~= start + environment_arguments(all.take(0)));
    }
    while i < environment.len()
        invariant
            i <= environment@.len(),
            all == crate::maps::pairs_of(environment@),
            texts(args@) == start + environment_arguments(all.take(i as int)),
        decreases environment@.len() - i,
    {
        proof {
            assert(all.take(i + 1).drop_last() =~= all.take(i as int));
            assert(all.take(i + 1).last() == all[i as int]);
        }
        push_text(args, "--env".to_owned());
        push_text(args, cat3(environment[i].0.as_str(), "=", environment[i].1.as_str()));
        i += 1;
        assert(texts(args@) =~= start + environment_arguments(all.take(i as int)));
    }
    assert(all.take(i as int) =~= all);
}

fn read_secret_arguments(mounts: &Vec<SecretMount>) -> (outcome: Result<Vec<String>, Refusal>)
    ensures
        match (outcome, secret_arguments(mount_views(mounts@))) {
            (Ok(list), Ok(owed)) => texts(list@) == owed,
            (Err(refusal), Err(w)) => refusal@ == w,
            _ => false,
        },
{
    let ghost all = mount_views(mounts@);
    let mut list: Vec<String> = Vec::new();
    let mut i: usize = 0;
    proof {
        assert(all.take(0) =~= Seq::<SecretMountView>::empty());
        assert(texts(list@) =~= Seq::<Seq<char>>::empty());
    }
    while i < mounts.len()
        invariant
            i <= mounts@.len(),
            all == mount_views(mounts@),
            secret_arguments(all.take(i as int)) == Ok::<Seq<Seq<char>>, Seq<char>>(texts(list@)),
        decreases mounts@.len() - i,
    {
        proof {
            assert(all.take(i + 1).drop_last() =~= all.take(i as int));
            assert(all.take(i + 1).last() == mounts@[i as int]@);
        }
        let mount = &mounts[i];
        let ghost earlier = texts(list@);
        match bind_mount(mount.host_path.as_str(), mount.container_path.as_str(), true) {
            Ok(bind) => {
                let ghost bound = bind@;
                push_text(&mut list, "--env".to_owned());
                push_text(
                    &mut list,
                    cat3(mount.env_name.as_str(), "=", mount.container_path.as_str()),
                );
                push_text(&mut list, "--mount".to_owned());
                push_text(&mut list, bind);
                assert(texts(list@) =~= earlier + seq![
                    "--env"@,
                    mount@.env_name + "="@ + mount@.container_path,
                    "--mount"@,
                    bound,
                ]);
            },
            Err(refusal) => {
                proof {
                    lemma_secret_arguments_fail(all, i + 1);
                }
                return Err(refusal);
            },
        }
        i += 1;
    }
    assert(all.take(i as int) =~= all);
    Ok(list)
}

fn confine(spec: &ContainerSpec, workspace: String, machine: String) -> (args: Vec<String>)
    ensures
        texts(args@) == confining_arguments(*spec, workspace@, machine@),
{
    let ghost bind = workspace@;
    let ghost identity = machine@;
    let memory = decimal_of(spec.memory_mebibytes as u64);
    let tmpfs = decimal_of(spec.tmpfs_mebibytes as u64);
    let mut args: Vec<String> = Vec::new();
    push_text(&mut args, "run".to_owned());
    push_text(&mut args, "--rm".to_owned());
    push_text(&mut args, "--network".to_owned());
    push_text(&mut args, spec.network.docker_value().to_owned());
    push_text(&mut args, "--memory".to_owned());
    push_text(&mut args, cat2(memory.as_str(), "m"));
    push_text(&mut args, "--cpus".to_owned());
    push_text(&mut args, hundredths_of(spec.cpu_quota_percent));
    push_text(&mut args, "--mount".to_owned());
    push_text(&mut args, workspace);
    push_text(&mut args, "--user".to_owned());
    push_text(&mut args, spec.user.clone());
    push_text(&mut args, "--cap-drop".to_owned());
    push_text(&mut args, "ALL".to_owned());
    push_text(&mut args, "--security-opt".to_owned());
    push_text(&mut args, "no-new-privileges".to_owned());
    push_text(&mut args, "--read-only".to_owned());
    push_text(&mut args, "--pids-limit".to_owned());
    push_text(&mut args, decimal_of(spec.pids_limit as u64));
    push_text(&mut args, "--tmpfs".to_owned());
    push_text(
        &mut args,
        cat3("/tmp:rw,nosuid,nodev,noexec,size=", tmpfs.as_str(), "m"),
    );
    push_text(&mut args, "--mount".to_owned());
    push_text(&mut args, machine);
    assert(texts(args@) =~= confining_arguments(*spec, bind, identity));
    args
}

fn read_cache_arguments(cache_root: &Option<String>) -> (outcome: Result<Vec<String>, Refusal>)
    ensures
        match (outcome, cache_arguments(*cache_root)) {
            (Ok(list), Ok(owed)) => texts(list@) == owed,
            (Err(refusal), Err(w)) => refusal@ == w,
            _ => false,
        },
{
    let mut list: Vec<String> = Vec::new();
    match cache_root {
        None => {
            assert(texts(list@) =~= Seq::<Seq<char>>::empty());
        },
        Some(path) => {
            let bind = bind_mount(path.as_str(), "/cache", false)?;
            let ghost bound = bind@;
            push_text(&mut list, "--mount".to_owned());
            push_text(&mut list, bind);
            assert(texts(list@) =~= seq!["--mount"@, bound]);
        },
    }
    Ok(list)
}

/// The arguments with which Docker runs a command in a container.
pub fn docker_run_args(
    spec: &ContainerSpec,
    workspace: &str,
    working_directory: &str,
    argv: &[String],
) -> (outcome: Result<Vec<String>, Refusal>)
    ensures
        match (
            outcome,
            container_arguments(*spec, workspace@, working_directory@, texts(argv@)),
        ) {
            (Ok(args), Ok(owed)) => texts(args@) == owed,
            (Err(refusal), Err(w)) => refusal@ == w,
            _ => false,
        },
{
    assert(texts(argv@).len() == argv@.len());
    check(argv.len() > 0, "runner command is empty")?;
    let bind = bind_mount(workspace, "/workspace", false)?;
    let place = build_machine_id_file(workspace);
    let machine = bind_mount(place.as_str(), "/etc/machine-id", true)?;
    let caches = read_cache_arguments(&spec.cache_root)?;
    let directory = normalized_relative(working_directory)?;
    let secrets = read_secret_arguments(&spec.secret_mounts)?;
    let mut args = confine(spec, bind, machine);
    push_texts(&mut args, caches.as_slice());
    let ghost cached = texts(args@);
    push_text(&mut args, "--workdir".to_owned());
    push_text(&mut args, cat2("/workspace/", directory.as_str()));
    assert(texts(args@) =~= cached + seq!["--workdir"@, "/workspace/"@ + directory@]);
    push_environment(&mut args, &spec.environment);
    push_texts(&mut args, secrets.as_slice());
    let ghost bound = texts(args@);
    push_text(&mut args, spec.image.clone());
    assert(texts(args@) =~= bound + seq![spec.image@]);
    push_texts(&mut args, argv);
    Ok(args)
}

} // verus!
