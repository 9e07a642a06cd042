//! The transient unit that systemd is asked to run: every argument of the request, and
//! why it is not made.
use vstd::prelude::*;

use crate::authority::{
    credential_sources_refusal,
    validate_service_credential_sources,
    SourceReading,
};
use crate::binding::{
    arguments_bound, ProcessWriteLeaseBinding, SystemdWorkloadBinding, TargetDeclaration,
    WorkloadNetwork,
};
use crate::launch::{
    command_of, describe_unit, environment_of, launch_command, launch_environment, open_files,
    parent_only_open_file_properties, unit_description, LaunchNames,
};
use crate::maps::{is_named, Pair, TextMap};
use crate::observation::{
    parent_only_file_descriptor_observation_views, ParentOnlyFileDescriptorObservation,
};
use crate::procfs::fault;
use crate::records::IdunnExpectedIncarnationRecord;
use crate::scan::{decimal, decimal_of};
use crate::text::{
    cat2, cat3, cat4, check, either, list_contains, push_text, push_texts, same_text, texts, unless,
    Refusal,
};

verus! {

/// What a target's workload is launched from.
#[derive(Debug, PartialEq, Eq)]
pub struct Launch {
    pub target: String,
    pub declaration: TargetDeclaration,
    pub binding: SystemdWorkloadBinding,
    pub write_lease: Option<ProcessWriteLeaseBinding>,
    pub installed: String,
    pub bundle: String,
    pub expected: IdunnExpectedIncarnationRecord,
}

impl Launch {
    /// Whether every argument that the declaration leaves to the operator is bound.
    pub open spec fn bound(&self) -> bool {
        arguments_bound(
            self.declaration.service.arguments@,
            self.binding.argument_bindings@,
        )
    }

    /// The environment that the workload is launched with.
    pub open spec fn environment(&self, unit: Seq<char>, names: LaunchNames) -> Result<
        Seq<Pair>,
        Seq<char>,
    > {
        environment_of(
            self.binding,
            self.write_lease,
            self.bundle@,
            self.expected@.route,
            unit,
            names,
        )
    }

    /// The command that the workload is launched as.
    pub open spec fn command(&self, executable_is_file: bool) -> Result<Seq<Seq<char>>, Seq<char>> {
        command_of(
            self.declaration,
            self.binding.argument_bindings@,
            self.installed@,
            executable_is_file,
        )
    }

    /// The description of the unit that the workload runs in.
    pub open spec fn description(&self) -> Result<Seq<char>, Seq<char>> {
        unit_description(self.target@, self.bundle@)
    }
}

/// A request's arguments that no binding changes.
pub open spec fn standing_arguments() -> Seq<Seq<char>> {
    seq![
        "--property=Type=exec"@,
        "--property=Restart=no"@,
        "--property=KillMode=mixed"@,
        "--property=DynamicUser=yes"@,
        "--property=SupplementaryGroups="@,
        "--property=CapabilityBoundingSet="@,
        "--property=AmbientCapabilities="@,
        "--property=NoNewPrivileges=yes"@,
        "--property=PrivateMounts=yes"@,
        "--property=PrivatePIDs=yes"@,
        "--property=ProtectProc=invisible"@,
        "--property=ProcSubset=all"@,
        "--property=PrivateTmp=yes"@,
        "--property=ProtectSystem=strict"@,
        "--property=ProtectHome=yes"@,
        "--property=ProtectControlGroups=yes"@,
        "--property=ProtectKernelModules=yes"@,
        "--property=ProtectKernelTunables=yes"@,
        "--property=RestrictSUIDSGID=yes"@,
        "--property=LockPersonality=yes"@,
        "--property=UMask=0007"@,
    ]
}

/// Texts, each between the same two.
pub open spec fn each_between(before: Seq<char>, list: Seq<Seq<char>>, after: Seq<char>) -> Seq<
    Seq<char>,
> {
    Seq::new(list.len(), |i: int| before + list[i] + after)
}

/// Names and values, each as one argument.
pub open spec fn each_pair(before: Seq<char>, pairs: Seq<Pair>, between: Seq<char>) -> Seq<
    Seq<char>,
> {
    Seq::new(pairs.len(), |i: int| before + pairs[i].0 + between + pairs[i].1)
}

/// The pairs of a list that do not have a name.
pub open spec fn pairs_without(pairs: Seq<Pair>, name: Seq<char>) -> Seq<Pair>
    decreases pairs.len(),
{
    if pairs.len() == 0 {
        Seq::empty()
    } else if pairs.last().0 == name {
        pairs_without(pairs.drop_last(), name)
    } else {
        pairs_without(pairs.drop_last(), name).push(pairs.last())
    }
}

/// A text that may be absent, as one argument.
pub open spec fn maybe(before: Seq<char>, text: Option<String>) -> Seq<Seq<char>> {
    match text {
        Some(t) => seq![before + t@],
        None => Seq::empty(),
    }
}

/// The arguments that say where a workload may read and write.
pub open spec fn path_arguments(launch: Launch) -> Seq<Seq<char>> {
    let b = launch.binding;
    maybe("--property=ReadWritePaths="@, b.state_root) + (match launch.write_lease {
        Some(lease) => seq![
            "--property=ReadOnlyPaths=-"@ + lease.record_path@,
            "--property=ReadOnlyPaths=-"@ + lease.lock_path@,
        ],
        None => Seq::empty(),
    }) + each_between("--property=ReadOnlyPaths="@, texts(b.read_only_paths@), ""@) + each_between(
        "--property=ReadWritePaths="@,
        texts(b.read_write_paths@),
        ""@,
    )
}

/// The arguments that say which devices a workload may use.
pub open spec fn device_arguments(devices: Seq<Seq<char>>) -> Seq<Seq<char>> {
    if devices.len() == 0 {
        seq!["--property=PrivateDevices=yes"@]
    } else {
        seq!["--property=DevicePolicy=closed"@] + each_between(
            "--property=DeviceAllow="@,
            devices,
            " rw"@,
        )
    }
}

/// The arguments that say how a unit is described and bounded.
pub open spec fn bounding_arguments(
    launch: Launch,
    description: Seq<char>,
    credential_root: Seq<char>,
) -> Seq<Seq<char>> {
    seq![
        "--property=Description="@ + description,
        "--property=InaccessiblePaths="@ + credential_root,
        "--property=MemoryMax="@ + decimal(launch.binding.memory_mebibytes as nat) + "M"@,
        "--property=CPUQuota="@ + decimal(launch.binding.cpu_quota_percent as nat) + "%"@,
        "--working-directory="@ + launch.installed@,
        "--property=ReadOnlyPaths="@ + launch.installed@,
        "--property=ReadOnlyPaths="@ + launch.bundle@,
    ]
}

/// All arguments of a request, where nothing is refused.
pub open spec fn request_arguments(
    launch: Launch,
    unit: Seq<char>,
    description: Seq<char>,
    credential_root: Seq<char>,
    open_file_list: Seq<Seq<char>>,
    environment: Seq<Pair>,
    command: Seq<Seq<char>>,
    presence: Seq<char>,
) -> Seq<Seq<char>> {
    seq![
        "--no-block"@,
        "--no-ask-password"@,
        "--expand-environment=no"@,
        "--unit="@ + unit,
    ] + standing_arguments() + bounding_arguments(launch, description, credential_root)
        + each_between("--property=OpenFile="@, open_file_list, ""@) + maybe(
        "--property=Group="@,
        launch.binding.state_group,
    ) + (if launch.binding.network is Isolated {
        seq!["--property=PrivateNetwork=yes"@]
    } else {
        Seq::empty()
    }) + path_arguments(launch) + device_arguments(texts(launch.binding.devices@)) + each_pair(
        "--setenv="@,
        environment,
        "="@,
    ) + each_pair(
        "--property=LoadCredential="@,
        pairs_without(launch.binding.secret_files@, presence),
        ":"@,
    ) + command
}

/// Why a request is not made, if so.
pub open spec fn request_refusal(
    launch: Launch,
    unit: Seq<char>,
    descriptors: Seq<ParentOnlyFileDescriptorObservation>,
    readings: Seq<SourceReading>,
    executable_is_file: bool,
    names: LaunchNames,
) -> Option<Seq<char>> {
    let replaced = "operator binding attempts to replace the Idunn runtime bundle"@;
    either(
        unless(
            texts(launch.declaration.service.required_environment@).contains(
                names.runtime_bundle@,
            ),
            "target does not declare the standard Idunn runtime bundle"@,
        ),
        either(
            unless(
                !is_named(launch.binding.environment@, names.runtime_bundle@) && !is_named(
                    launch.binding.secret_files@,
                    names.runtime_bundle@,
                ),
                replaced,
            ),
            either(
                credential_sources_refusal(launch.binding.secret_files@, readings),
                either(
                    fault(
                        open_files(
                            parent_only_file_descriptor_observation_views(descriptors),
                            names,
                        ),
                    ),
                    either(
                        fault(launch.environment(unit, names)),
                        either(
                            fault(launch.command(executable_is_file)),
                            fault(launch.description()),
                        ),
                    ),
                ),
            ),
        ),
    )
}

fn push_each_between(args: &mut Vec<String>, before: &str, list: &[String], after: &str)
    ensures
        texts(final(args)@) == texts(old(args)@) + each_between(before@, texts(list@), after@),
{
    let ghost start = texts(args@);
    let ghost more = each_between(before@, texts(list@), after@);
    let mut i: usize = 0;
    assert(start + more.take(0) =~= start);
    while i < list.len()
        invariant
            i <= list@.len(),
            more == each_between(before@, texts(list@), after@),
            texts(args@) == start + more.take(i as int),
        decreases list@.len() - i,
    {
        assert(texts(list@)[i as int] == list@[i as int]@);
        push_text(args, cat3(before, list[i].as_str(), after));
        i += 1;
        assert(texts(args@) =~= start + more.take(i as int));
    }
    assert(more.take(i as int) =~= more);
}

fn push_each_pair(args: &mut Vec<String>, before: &str, pairs: &TextMap, between: &str)
    ensures
        texts(final(args)@) == texts(old(args)@) + each_pair(before@, pairs@, between@),
{
    let ghost start = texts(args@);
    let ghost more = each_pair(before@, pairs@, between@);
    let n: usize = pairs.len();
    let mut i: usize = 0;
    assert(start + more.take(0) =~= start);
    while i < n
        invariant
            i <= n,
            n == pairs@.len(),
            more == each_pair(before@, pairs@, between@),
            texts(args@) == start + more.take(i as int),
        decreases n - i,
    {
        push_text(args, cat4(before, pairs.name_at(i), between, pairs.value_at(i)));
        i += 1;
        assert(texts(args@) =~= start + more.take(i as int));
    }
    assert(more.take(i as int) =~= more);
}

fn push_pairs_without(
    args: &mut Vec<String>,
    before: &str,
    pairs: &TextMap,
    between: &str,
    name: &str,
)
    ensures
        texts(final(args)@) == texts(old(args)@) + each_pair(
            before@,
            pairs_without(pairs@, name@),
            between@,
        ),
{
    let ghost start = texts(args@);
    let n: usize = pairs.len();
    let mut i: usize = 0;
    proof {
        assert(pairs@.take(0) =~= Seq::<Pair>::empty());
        assert(texts(args@) =~= start + each_pair(
            before@,
            pairs_without(pairs@.take(0), name@),
            between@,
        ));
    }
    while i < n
        invariant
            i <= n,
            n == pairs@.len(),
            texts(args@) == start + each_pair(
                before@,
                pairs_without(pairs@.take(i as int), name@),
                between@,
            ),
        decreases n - i,
    {
        let ghost kept = pairs_without(pairs@.take(i as int), name@);
        proof {
            assert(pairs@.take(i + 1).drop_last() =~= pairs@.take(i as int));
            assert(pairs@.take(i + 1).last() == pairs@[i as int]);
        }
        if !same_text(pairs.name_at(i), name) {
            push_text(args, cat4(before, pairs.name_at(i), between, pairs.value_at(i)));
            assert(each_pair(before@, kept.push(pairs@[i as int]), between@) =~= each_pair(
                before@,
                kept,
                between@,
            ).push(before@ + pairs@[i as int].0 + between@ + pairs@[i as int].1));
        }
        i += 1;
        assert(texts(args@) =~= start + each_pair(
            before@,
            pairs_without(pairs@.take(i as int), name@),
            between@,
        ));
    }
    assert(pairs@.take(i as int) =~= pairs@);
}

fn push_maybe(args: &mut Vec<String>, before: &str, text: &Option<String>)
    ensures
        texts(final(args)@) == texts(old(args)@) + maybe(before@, *text),
{
    match text {
        Some(t) => {
            push_text(args, cat2(before, t.as_str()));
            assert(texts(args@) =~= texts(old(args)@) + maybe(before@, *text));
        },
        None => {
            assert(texts(args@) =~= texts(old(args)@) + maybe(before@, *text));
        },
    }
}

fn push_standing(args: &mut Vec<String>)
    ensures
        texts(final(args)@) == texts(old(args)@) + standing_arguments(),
{
    let list: [&str; 21] = [
        "--property=Type=exec",
        "--property=Restart=no",
        "--property=KillMode=mixed",
        "--property=DynamicUser=yes",
        "--property=SupplementaryGroups=",
        "--property=CapabilityBoundingSet=",
        "--property=AmbientCapabilities=",
        "--property=NoNewPrivileges=yes",
        "--property=PrivateMounts=yes",
        "--property=PrivatePIDs=yes",
        "--property=ProtectProc=invisible",
        "--property=ProcSubset=all",
        "--property=PrivateTmp=yes",
        "--property=ProtectSystem=strict",
        "--property=ProtectHome=yes",
        "--property=ProtectControlGroups=yes",
        "--property=ProtectKernelModules=yes",
        "--property=ProtectKernelTunables=yes",
        "--property=RestrictSUIDSGID=yes",
        "--property=LockPersonality=yes",
        "--property=UMask=0007",
    ];
    let ghost start = texts(args@);
    let ghost all = standing_arguments();
    let mut i: usize = 0;
    assert(forall|k: int| 0 <= k < 21 ==> (#[trigger] list@[k])@ == all[k]);
    assert(start + all.take(0) =~= start);
    while i < 21
        invariant
            i <= 21,
            all == standing_arguments(),
            forall|k: int| 0 <= k < 21 ==> (#[trigger] list@[k])@ == all[k],
            texts(args@) == start + all.take(i as int),
        decreases 21 - i,
    {
        assert(list@[i as int]@ == all[i as int]);
        push_text(args, list[i].to_owned());
        i += 1;
        assert(texts(args@) =~= start + all.take(i as int));
    }
    assert(all.take(21) =~= all);
}

fn push_bounding(args: &mut Vec<String>, launch: &Launch, description: &str, credential_root: &str)
    ensures
        texts(final(args)@) == texts(old(args)@) + bounding_arguments(
            *launch,
            description@,
            credential_root@,
        ),
{
    let memory = decimal_of(launch.binding.memory_mebibytes as u64);
    let quota = decimal_of(launch.binding.cpu_quota_percent as u64);
    push_text(args, cat2("--property=Description=", description));
    push_text(args, cat2("--property=InaccessiblePaths=", credential_root));
    push_text(args, cat3("--property=MemoryMax=", memory.as_str(), "M"));
    push_text(args, cat3("--property=CPUQuota=", quota.as_str(), "%"));
    push_text(args, cat2("--working-directory=", launch.installed.as_str()));
    push_text(args, cat2("--property=ReadOnlyPaths=", launch.installed.as_str()));
    push_text(args, cat2("--property=ReadOnlyPaths=", launch.bundle.as_str()));
    assert(texts(args@) =~= texts(old(args)@) + bounding_arguments(
        *launch,
        description@,
        credential_root@,
    ));
}

fn push_paths(args: &mut Vec<String>, launch: &Launch)
    ensures
        texts(final(args)@) == texts(old(args)@) + path_arguments(*launch),
{
    let ghost start = texts(args@);
    push_maybe(args, "--property=ReadWritePaths=", &launch.binding.state_root);
    let ghost rooted = texts(args@);
    match &launch.write_lease {
        Some(lease) => {
            push_text(args, cat2("--property=ReadOnlyPaths=-", lease.record_path.as_str()));
            push_text(args, cat2("--property=ReadOnlyPaths=-", lease.lock_path.as_str()));
            assert(texts(args@) =~= rooted + seq![
                "--property=ReadOnlyPaths=-"@ + lease.record_path@,
                "--property=ReadOnlyPaths=-"@ + lease.lock_path@,
            ]);
        },
        None => {
            assert(texts(args@) =~= rooted + Seq::<Seq<char>>::empty());
        },
    }
    push_each_between(
        args,
        "--property=ReadOnlyPaths=",
        launch.binding.read_only_paths.as_slice(),
        "",
    );
    push_each_between(
        args,
        "--property=ReadWritePaths=",
        launch.binding.read_write_paths.as_slice(),
        "",
    );
    assert(texts(args@) =~= start + path_arguments(*launch));
}

fn push_devices(args: &mut Vec<String>, devices: &Vec<String>)
    ensures
        texts(final(args)@) == texts(old(args)@) + device_arguments(texts(devices@)),
{
    let ghost start = texts(args@);
    if devices.len() == 0 {
        push_text(args, "--property=PrivateDevices=yes".to_owned());
    } else {
        push_text(args, "--property=DevicePolicy=closed".to_owned());
        push_each_between(args, "--property=DeviceAllow=", devices.as_slice(), " rw");
    }
    assert(texts(args@) =~= start + device_arguments(texts(devices@)));
}

fn all_arguments(
    launch: &Launch,
    unit: &str,
    description: &str,
    credential_root: &str,
    open_file_list: &Vec<String>,
    environment: &TextMap,
    command: &Vec<String>,
    presence: &str,
) -> (args: Vec<String>)
    ensures
        texts(args@) == request_arguments(
            *launch,
            unit@,
            description@,
            credential_root@,
            texts(open_file_list@),
            environment@,
            texts(command@),
            presence@,
        ),
{
    let mut args: Vec<String> = Vec::new();
    push_text(&mut args, "--no-block".to_owned());
    push_text(&mut args, "--no-ask-password".to_owned());
    push_text(&mut args, "--expand-environment=no".to_owned());
    push_text(&mut args, cat2("--unit=", unit));
    assert(texts(args@) =~= seq![
        "--no-block"@,
        "--no-ask-password"@,
        "--expand-environment=no"@,
        "--unit="@ + unit@,
    ]);
    push_standing(&mut args);
    push_bounding(&mut args, launch, description, credential_root);
    push_each_between(&mut args, "--property=OpenFile=", open_file_list.as_slice(), "");
    push_maybe(&mut args, "--property=Group=", &launch.binding.state_group);
    let ghost grouped = texts(args@);
    let isolated = matches!(launch.binding.network, WorkloadNetwork::Isolated);
    if isolated {
        push_text(&mut args, "--property=PrivateNetwork=yes".to_owned());
    }
    assert(texts(args@) =~= grouped + (if launch.binding.network is Isolated {
        seq!["--property=PrivateNetwork=yes"@]
    } else {
        Seq::empty()
    }));
    push_paths(&mut args, launch);
    push_devices(&mut args, &launch.binding.devices);
    push_each_pair(&mut args, "--setenv=", environment, "=");
    push_pairs_without(
        &mut args,
        "--property=LoadCredential=",
        &launch.binding.secret_files,
        ":",
        presence,
    );
    push_texts(&mut args, command.as_slice());
    args
}

/// What systemd is asked to run for a workload. Every argument that the declaration leaves
/// to the operator is bound, and there is a reading for each secret.
pub fn start_transient(
    launch: &Launch,
    unit: &str,
    descriptors: &Vec<ParentOnlyFileDescriptorObservation>,
    readings: &Vec<SourceReading>,
    executable_is_file: bool,
    credential_root: &str,
    names: &LaunchNames,
) -> (outcome: Result<Vec<String>, Refusal>)
    requires
        launch.bound(),
        readings@.len() == launch.binding.secret_files@.len(),
    ensures
        match request_refusal(
            *launch,
            unit@,
            descriptors@,
            readings@,
            executable_is_file,
            *names,
        ) {
            Some(w) => outcome matches Err(refusal) && refusal@ == w,
            None => outcome matches Ok(args) && texts(args@) == request_arguments(
                *launch,
                unit@,
                launch.description()->Ok_0,
                credential_root@,
                open_files(
                    parent_only_file_descriptor_observation_views(descriptors@),
                    *names,
                )->Ok_0,
                launch.environment(unit@, *names)->Ok_0,
                launch.command(executable_is_file)->Ok_0,
                names.presence_identity_binding@,
            ),
        },
{
    check(
        list_contains(
            launch.declaration.service.required_environment.as_slice(),
            names.runtime_bundle.as_str(),
        ),
        "target does not declare the standard Idunn runtime bundle",
    )?;
    check(
        !launch.binding.environment.contains(names.runtime_bundle.as_str())
            && !launch.binding.secret_files.contains(names.runtime_bundle.as_str()),
        "operator binding attempts to replace the Idunn runtime bundle",
    )?;
    validate_service_credential_sources(&launch.binding.secret_files, readings)?;
    let open_file_list = parent_only_open_file_properties(descriptors.as_slice(), names)?;
    let environment = launch_environment(
        &launch.binding,
        &launch.write_lease,
        launch.bundle.as_str(),
        &launch.expected,
        unit,
        names,
    )?;
    let command = launch_command(
        &launch.declaration,
        &launch.binding,
        launch.installed.as_str(),
        executable_is_file,
    )?;
    let description = describe_unit(launch.target.as_str(), launch.bundle.as_str())?;
    Ok(
        all_arguments(
            launch,
            unit,
            description.as_str(),
            credential_root,
            &open_file_list,
            &environment,
            &command,
            names.presence_identity_binding.as_str(),
        ),
    )
}

} // verus!
