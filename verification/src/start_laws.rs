//! What holds of every unit that is asked for.
use vstd::prelude::*;

use crate::maps::Pair;
use crate::scan::decimal;
use crate::start::{
    bounding_arguments, device_arguments, each_between, each_pair, maybe, pairs_without,
    path_arguments, request_arguments, standing_arguments, Launch,
};
use crate::text::texts;

verus! {

/// Whatever a launch binds, the unit that is asked for is confined: every argument that no
/// binding changes is among its arguments, and the root of the activation credentials is out
/// of its reach.
pub proof fn every_launch_is_confined(
    launch: Launch,
    unit: Seq<char>,
    description: Seq<char>,
    credential_root: Seq<char>,
    open_files: Seq<Seq<char>>,
    environment: Seq<Pair>,
    command: Seq<Seq<char>>,
    presence: Seq<char>,
)
    ensures
        ({
            let arguments = request_arguments(
                launch,
                unit,
                description,
                credential_root,
                open_files,
                environment,
                command,
                presence,
            );
            &&& forall|i: int|
                0 <= i < standing_arguments().len() ==> arguments.contains(
                    #[trigger] standing_arguments()[i],
                )
            &&& arguments.contains("--property=InaccessiblePaths="@ + credential_root)
        }),
{
    let arguments = request_arguments(
        launch,
        unit,
        description,
        credential_root,
        open_files,
        environment,
        command,
        presence,
    );
    let standing = standing_arguments();
    assert forall|i: int| 0 <= i < standing.len() implies arguments.contains(
        #[trigger] standing[i],
    ) by {
        assert(arguments[4 + i] == standing[i]);
    }
    assert(arguments[standing.len() as int + 5] == "--property=InaccessiblePaths="@
        + credential_root);
}

/// The identity by which a workload shows its presence is never among the credentials that
/// are loaded for it, and every other secret is, in its order.
pub proof fn the_presence_identity_is_no_credential(pairs: Seq<Pair>, presence: Seq<char>)
    ensures
        forall|i: int|
            0 <= i < pairs_without(pairs, presence).len() ==> (#[trigger] pairs_without(
                pairs,
                presence,
            )[i]).0 != presence,
        forall|i: int|
            0 <= i < pairs.len() && (#[trigger] pairs[i]).0 != presence ==> pairs_without(
                pairs,
                presence,
            ).contains(pairs[i]),
        pairs_without(pairs, presence) == pairs.filter(|pair: Pair| pair.0 != presence),
    decreases pairs.len(),
{
    reveal(Seq::filter);
    if pairs.len() > 0 {
        let fewer = pairs.drop_last();
        let last = pairs.last();
        the_presence_identity_is_no_credential(fewer, presence);
        let kept = pairs_without(fewer, presence);
        let all = pairs_without(pairs, presence);
        assert forall|i: int| 0 <= i < pairs.len() && (#[trigger] pairs[i]).0
            != presence implies all.contains(pairs[i]) by {
            if i < fewer.len() {
                assert(fewer[i] == pairs[i]);
                let k = choose|k: int| 0 <= k < kept.len() && kept[k] == pairs[i];
                assert(all[k] == pairs[i]);
            } else {
                assert(all[kept.len() as int] == last);
            }
        }
    }
}

/// What comes before the command among the arguments of a request.
pub open spec fn options(arguments: Seq<Seq<char>>, command: Seq<Seq<char>>) -> Seq<Seq<char>> {
    arguments.take(arguments.len() - command.len())
}

/// Whether a property of a unit is set to a value by an option.
pub open spec fn sets(options: Seq<Seq<char>>, name: Seq<char>, value: Seq<char>) -> bool {
    options.contains("--property="@ + name + "="@ + value)
}

spec fn property(name: Seq<char>, value: Seq<char>) -> Seq<char> {
    "--property="@ + name + "="@ + value
}

proof fn lemma_property(
    text: Seq<char>,
    n: Seq<char>,
    v: Seq<char>,
    name: Seq<char>,
    value: Seq<char>,
)
    requires
        text =~= property(n, v),
        !n.contains('='),
        !name.contains('='),
    ensures
        text == property(name, value) ==> name == n && value == v,
{
    if text == property(name, value) {
        reveal_strlit("--property=");
        reveal_strlit("=");
        let one = property(n, v);
        let two = property(name, value);
        assert(one[11int + n.len()] == '=');
        assert(two[11int + name.len()] == '=');
        if n.len() < name.len() {
            assert(two[11int + n.len()] == name[n.len() as int]);
            assert(name.contains(name[n.len() as int]));
        }
        if name.len() < n.len() {
            assert(one[11int + name.len()] == n[name.len() as int]);
            assert(n.contains(n[name.len() as int]));
        }
        assert(one.subrange(11, 11int + n.len()) =~= n);
        assert(two.subrange(11, 11int + n.len()) =~= name);
        assert(one.skip(12int + n.len()) =~= v);
        assert(two.skip(12int + n.len()) =~= value);
    }
}

/// What every unit is held to, whatever is bound for it.
pub open spec fn is_held_to(name: Seq<char>, value: Seq<char>) -> bool {
    ||| name == "Type"@ && value == "exec"@
    ||| name == "Restart"@ && value == "no"@
    ||| name == "KillMode"@ && value == "mixed"@
    ||| name == "DynamicUser"@ && value == "yes"@
    ||| name == "SupplementaryGroups"@ && value == ""@
    ||| name == "CapabilityBoundingSet"@ && value == ""@
    ||| name == "AmbientCapabilities"@ && value == ""@
    ||| name == "NoNewPrivileges"@ && value == "yes"@
    ||| name == "PrivateMounts"@ && value == "yes"@
    ||| name == "PrivatePIDs"@ && value == "yes"@
    ||| name == "ProtectProc"@ && value == "invisible"@
    ||| name == "ProcSubset"@ && value == "all"@
    ||| name == "PrivateTmp"@ && value == "yes"@
    ||| name == "ProtectSystem"@ && value == "strict"@
    ||| name == "ProtectHome"@ && value == "yes"@
    ||| name == "ProtectControlGroups"@ && value == "yes"@
    ||| name == "ProtectKernelModules"@ && value == "yes"@
    ||| name == "ProtectKernelTunables"@ && value == "yes"@
    ||| name == "RestrictSUIDSGID"@ && value == "yes"@
    ||| name == "LockPersonality"@ && value == "yes"@
    ||| name == "UMask"@ && value == "0007"@
}

proof fn lemma_standing(name: Seq<char>, value: Seq<char>)
    requires
        !name.contains('='),
        standing_arguments().contains(property(name, value)),
    ensures
        is_held_to(name, value),
{
    reveal_strlit("--property=");
    reveal_strlit("=");
    reveal_strlit("--property=Type=exec");
    reveal_strlit("Type");
    reveal_strlit("exec");
    lemma_property("--property=Type=exec"@, "Type"@, "exec"@, name, value);
    reveal_strlit("--property=Restart=no");
    reveal_strlit("Restart");
    reveal_strlit("no");
    lemma_property("--property=Restart=no"@, "Restart"@, "no"@, name, value);
    reveal_strlit("--property=KillMode=mixed");
    reveal_strlit("KillMode");
    reveal_strlit("mixed");
    lemma_property("--property=KillMode=mixed"@, "KillMode"@, "mixed"@, name, value);
    reveal_strlit("--property=DynamicUser=yes");
    reveal_strlit("DynamicUser");
    reveal_strlit("yes");
    lemma_property("--property=DynamicUser=yes"@, "DynamicUser"@, "yes"@, name, value);
    reveal_strlit("--property=SupplementaryGroups=");
    reveal_strlit("SupplementaryGroups");
    reveal_strlit("");
    lemma_property("--property=SupplementaryGroups="@, "SupplementaryGroups"@, ""@, name, value);
    reveal_strlit("--property=CapabilityBoundingSet=");
    reveal_strlit("CapabilityBoundingSet");
    reveal_strlit("");
    lemma_property(
        "--property=CapabilityBoundingSet="@,
        "CapabilityBoundingSet"@,
        ""@,
        name,
        value,
    );
    reveal_strlit("--property=AmbientCapabilities=");
    reveal_strlit("AmbientCapabilities");
    reveal_strlit("");
    lemma_property("--property=AmbientCapabilities="@, "AmbientCapabilities"@, ""@, name, value);
    reveal_strlit("--property=NoNewPrivileges=yes");
    reveal_strlit("NoNewPrivileges");
    reveal_strlit("yes");
    lemma_property("--property=NoNewPrivileges=yes"@, "NoNewPrivileges"@, "yes"@, name, value);
    reveal_strlit("--property=PrivateMounts=yes");
    reveal_strlit("PrivateMounts");
    reveal_strlit("yes");
    lemma_property("--property=PrivateMounts=yes"@, "PrivateMounts"@, "yes"@, name, value);
    reveal_strlit("--property=PrivatePIDs=yes");
    reveal_strlit("PrivatePIDs");
    reveal_strlit("yes");
    lemma_property("--property=PrivatePIDs=yes"@, "PrivatePIDs"@, "yes"@, name, value);
    reveal_strlit("--property=ProtectProc=invisible");
    reveal_strlit("ProtectProc");
    reveal_strlit("invisible");
    lemma_property("--property=ProtectProc=invisible"@, "ProtectProc"@, "invisible"@, name, value);
    reveal_strlit("--property=ProcSubset=all");
    reveal_strlit("ProcSubset");
    reveal_strlit("all");
    lemma_property("--property=ProcSubset=all"@, "ProcSubset"@, "all"@, name, value);
    reveal_strlit("--property=PrivateTmp=yes");
    reveal_strlit("PrivateTmp");
    reveal_strlit("yes");
    lemma_property("--property=PrivateTmp=yes"@, "PrivateTmp"@, "yes"@, name, value);
    reveal_strlit("--property=ProtectSystem=strict");
    reveal_strlit("ProtectSystem");
    reveal_strlit("strict");
    lemma_property("--property=ProtectSystem=strict"@, "ProtectSystem"@, "strict"@, name, value);
    reveal_strlit("--property=ProtectHome=yes");
    reveal_strlit("ProtectHome");
    reveal_strlit("yes");
    lemma_property("--property=ProtectHome=yes"@, "ProtectHome"@, "yes"@, name, value);
    reveal_strlit("--property=ProtectControlGroups=yes");
    reveal_strlit("ProtectControlGroups");
    reveal_strlit("yes");
    lemma_property(
        "--property=ProtectControlGroups=yes"@,
        "ProtectControlGroups"@,
        "yes"@,
        name,
        value,
    );
    reveal_strlit("--property=ProtectKernelModules=yes");
    reveal_strlit("ProtectKernelModules");
    reveal_strlit("yes");
    lemma_property(
        "--property=ProtectKernelModules=yes"@,
        "ProtectKernelModules"@,
        "yes"@,
        name,
        value,
    );
    reveal_strlit("--property=ProtectKernelTunables=yes");
    reveal_strlit("ProtectKernelTunables");
    reveal_strlit("yes");
    lemma_property(
        "--property=ProtectKernelTunables=yes"@,
        "ProtectKernelTunables"@,
        "yes"@,
        name,
        value,
    );
    reveal_strlit("--property=RestrictSUIDSGID=yes");
    reveal_strlit("RestrictSUIDSGID");
    reveal_strlit("yes");
    lemma_property("--property=RestrictSUIDSGID=yes"@, "RestrictSUIDSGID"@, "yes"@, name, value);
    reveal_strlit("--property=LockPersonality=yes");
    reveal_strlit("LockPersonality");
    reveal_strlit("yes");
    lemma_property("--property=LockPersonality=yes"@, "LockPersonality"@, "yes"@, name, value);
    reveal_strlit("--property=UMask=0007");
    reveal_strlit("UMask");
    reveal_strlit("0007");
    lemma_property("--property=UMask=0007"@, "UMask"@, "0007"@, name, value);
}

proof fn lemma_holds(name: Seq<char>, value: Seq<char>)
    requires
        is_held_to(name, value),
    ensures
        standing_arguments().contains(property(name, value)),
{
    reveal_strlit("--property=");
    reveal_strlit("=");
    let all = standing_arguments();
    if name == "Type"@ && value == "exec"@ {
        reveal_strlit("--property=Type=exec");
        reveal_strlit("Type");
        reveal_strlit("exec");
        assert(all[0] =~= property(name, value));
    }
    if name == "Restart"@ && value == "no"@ {
        reveal_strlit("--property=Restart=no");
        reveal_strlit("Restart");
        reveal_strlit("no");
        assert(all[1] =~= property(name, value));
    }
    if name == "KillMode"@ && value == "mixed"@ {
        reveal_strlit("--property=KillMode=mixed");
        reveal_strlit("KillMode");
        reveal_strlit("mixed");
        assert(all[2] =~= property(name, value));
    }
    if name == "DynamicUser"@ && value == "yes"@ {
        reveal_strlit("--property=DynamicUser=yes");
        reveal_strlit("DynamicUser");
        reveal_strlit("yes");
        assert(all[3] =~= property(name, value));
    }
    if name == "SupplementaryGroups"@ && value == ""@ {
        reveal_strlit("--property=SupplementaryGroups=");
        reveal_strlit("SupplementaryGroups");
        reveal_strlit("");
        assert(all[4] =~= property(name, value));
    }
    if name == "CapabilityBoundingSet"@ && value == ""@ {
        reveal_strlit("--property=CapabilityBoundingSet=");
        reveal_strlit("CapabilityBoundingSet");
        reveal_strlit("");
        assert(all[5] =~= property(name, value));
    }
    if name == "AmbientCapabilities"@ && value == ""@ {
        reveal_strlit("--property=AmbientCapabilities=");
        reveal_strlit("AmbientCapabilities");
        reveal_strlit("");
        assert(all[6] =~= property(name, value));
    }
    if name == "NoNewPrivileges"@ && value == "yes"@ {
        reveal_strlit("--property=NoNewPrivileges=yes");
        reveal_strlit("NoNewPrivileges");
        reveal_strlit("yes");
        assert(all[7] =~= property(name, value));
    }
    if name == "PrivateMounts"@ && value == "yes"@ {
        reveal_strlit("--property=PrivateMounts=yes");
        reveal_strlit("PrivateMounts");
        reveal_strlit("yes");
        assert(all[8] =~= property(name, value));
    }
    if name == "PrivatePIDs"@ && value == "yes"@ {
        reveal_strlit("--property=PrivatePIDs=yes");
        reveal_strlit("PrivatePIDs");
        reveal_strlit("yes");
        assert(all[9] =~= property(name, value));
    }
    if name == "ProtectProc"@ && value == "invisible"@ {
        reveal_strlit("--property=ProtectProc=invisible");
        reveal_strlit("ProtectProc");
        reveal_strlit("invisible");
        assert(all[10] =~= property(name, value));
    }
    if name == "ProcSubset"@ && value == "all"@ {
        reveal_strlit("--property=ProcSubset=all");
        reveal_strlit("ProcSubset");
        reveal_strlit("all");
        assert(all[11] =~= property(name, value));
    }
    if name == "PrivateTmp"@ && value == "yes"@ {
        reveal_strlit("--property=PrivateTmp=yes");
        reveal_strlit("PrivateTmp");
        reveal_strlit("yes");
        assert(all[12] =~= property(name, value));
    }
    if name == "ProtectSystem"@ && value == "strict"@ {
        reveal_strlit("--property=ProtectSystem=strict");
        reveal_strlit("ProtectSystem");
        reveal_strlit("strict");
        assert(all[13] =~= property(name, value));
    }
    if name == "ProtectHome"@ && value == "yes"@ {
        reveal_strlit("--property=ProtectHome=yes");
        reveal_strlit("ProtectHome");
        reveal_strlit("yes");
        assert(all[14] =~= property(name, value));
    }
    if name == "ProtectControlGroups"@ && value == "yes"@ {
        reveal_strlit("--property=ProtectControlGroups=yes");
        reveal_strlit("ProtectControlGroups");
        reveal_strlit("yes");
        assert(all[15] =~= property(name, value));
    }
    if name == "ProtectKernelModules"@ && value == "yes"@ {
        reveal_strlit("--property=ProtectKernelModules=yes");
        reveal_strlit("ProtectKernelModules");
        reveal_strlit("yes");
        assert(all[16] =~= property(name, value));
    }
    if name == "ProtectKernelTunables"@ && value == "yes"@ {
        reveal_strlit("--property=ProtectKernelTunables=yes");
        reveal_strlit("ProtectKernelTunables");
        reveal_strlit("yes");
        assert(all[17] =~= property(name, value));
    }
    if name == "RestrictSUIDSGID"@ && value == "yes"@ {
        reveal_strlit("--property=RestrictSUIDSGID=yes");
        reveal_strlit("RestrictSUIDSGID");
        reveal_strlit("yes");
        assert(all[18] =~= property(name, value));
    }
    if name == "LockPersonality"@ && value == "yes"@ {
        reveal_strlit("--property=LockPersonality=yes");
        reveal_strlit("LockPersonality");
        reveal_strlit("yes");
        assert(all[19] =~= property(name, value));
    }
    if name == "UMask"@ && value == "0007"@ {
        reveal_strlit("--property=UMask=0007");
        reveal_strlit("UMask");
        reveal_strlit("0007");
        assert(all[20] =~= property(name, value));
    }
}

spec fn either_has(a: Seq<Seq<char>>, b: Seq<Seq<char>>, text: Seq<char>) -> bool {
    (a + b).contains(text) <==> a.contains(text) || b.contains(text)
}

proof fn lemma_either_has(a: Seq<Seq<char>>, b: Seq<Seq<char>>, text: Seq<char>)
    ensures
        either_has(a, b, text),
{
    if a.contains(text) {
        let i = choose|i: int| 0 <= i < a.len() && a[i] == text;
        assert((a + b)[i] == text);
    }
    if b.contains(text) {
        let i = choose|i: int| 0 <= i < b.len() && b[i] == text;
        assert((a + b)[a.len() + i] == text);
    }
    if (a + b).contains(text) {
        let i = choose|i: int| 0 <= i < (a + b).len() && (a + b)[i] == text;
        if i < a.len() {
            assert(a[i] == text);
        } else {
            assert(b[i - a.len()] == text);
        }
    }
}

/// The arguments of a request before the command, in their groups.
spec fn groups(
    launch: Launch,
    unit: Seq<char>,
    description: Seq<char>,
    credential_root: Seq<char>,
    open_files: Seq<Seq<char>>,
    environment: Seq<Pair>,
    presence: Seq<char>,
) -> Seq<Seq<Seq<char>>> {
    seq![
        seq!["--no-block"@, "--no-ask-password"@, "--expand-environment=no"@, "--unit="@ + unit],
        standing_arguments(),
        bounding_arguments(launch, description, credential_root),
        each_between("--property=OpenFile="@, open_files, ""@),
        maybe("--property=Group="@, launch.binding.state_group),
        (if launch.binding.network is Isolated {
            seq!["--property=PrivateNetwork=yes"@]
        } else {
            Seq::empty()
        }),
        path_arguments(launch),
        device_arguments(texts(launch.binding.devices@)),
        each_pair("--setenv="@, environment, "="@),
        each_pair(
            "--property=LoadCredential="@,
            pairs_without(launch.binding.secret_files@, presence),
            ":"@,
        ),
    ]
}

proof fn lemma_groups(
    launch: Launch,
    unit: Seq<char>,
    description: Seq<char>,
    credential_root: Seq<char>,
    open_files: Seq<Seq<char>>,
    environment: Seq<Pair>,
    command: Seq<Seq<char>>,
    presence: Seq<char>,
    text: Seq<char>,
)
    ensures
        ({
            let g = groups(
                launch,
                unit,
                description,
                credential_root,
                open_files,
                environment,
                presence,
            );
            let all = request_arguments(
                launch,
                unit,
                description,
                credential_root,
                open_files,
                environment,
                command,
                presence,
            );
            &&& all.skip(options(all, command).len() as int) == command
            &&& options(all, command).contains(text) <==> {
                ||| g[0].contains(text)
                ||| g[1].contains(text)
                ||| g[2].contains(text)
                ||| g[3].contains(text)
                ||| g[4].contains(text)
                ||| g[5].contains(text)
                ||| g[6].contains(text)
                ||| g[7].contains(text)
                ||| g[8].contains(text)
                ||| g[9].contains(text)
            }
        }),
{
    let g = groups(
        launch,
        unit,
        description,
        credential_root,
        open_files,
        environment,
        presence,
    );
    let all = request_arguments(
        launch,
        unit,
        description,
        credential_root,
        open_files,
        environment,
        command,
        presence,
    );
    let a1 = g[0] + g[1];
    let a2 = a1 + g[2];
    let a3 = a2 + g[3];
    let a4 = a3 + g[4];
    let a5 = a4 + g[5];
    let a6 = a5 + g[6];
    let a7 = a6 + g[7];
    let a8 = a7 + g[8];
    let a9 = a8 + g[9];
    assert(all == a9 + command);
    assert(options(all, command) =~= a9);
    assert(all.skip(a9.len() as int) =~= command);
    lemma_either_has(g[0], g[1], text);
    lemma_either_has(a1, g[2], text);
    lemma_either_has(a2, g[3], text);
    lemma_either_has(a3, g[4], text);
    lemma_either_has(a4, g[5], text);
    lemma_either_has(a5, g[6], text);
    lemma_either_has(a6, g[7], text);
    lemma_either_has(a7, g[8], text);
    lemma_either_has(a8, g[9], text);
}

/// Where a unit may only read: what it is installed as, its runtime bundle, what is bound so,
/// and its write lease, where it has one and where that is there.
pub open spec fn is_read_only(launch: Launch, path: Seq<char>) -> bool {
    ||| path == launch.installed@
    ||| path == launch.bundle@
    ||| texts(launch.binding.read_only_paths@).contains(path)
    ||| launch.write_lease matches Some(lease) && (path == "-"@ + lease.record_path@ || path == "-"@
        + lease.lock_path@)
}

/// Where a unit may write: where its state is, and what is bound so.
pub open spec fn is_written(launch: Launch, path: Seq<char>) -> bool {
    ||| launch.binding.state_root matches Some(root) && path == root@
    ||| texts(launch.binding.read_write_paths@).contains(path)
}

/// What a unit is set to on behalf of one launch.
pub open spec fn is_granted(
    launch: Launch,
    description: Seq<char>,
    credential_root: Seq<char>,
    open_files: Seq<Seq<char>>,
    presence: Seq<char>,
    name: Seq<char>,
    value: Seq<char>,
) -> bool {
    let b = launch.binding;
    ||| name == "Description"@ && value == description
    ||| name == "InaccessiblePaths"@ && value == credential_root
    ||| name == "MemoryMax"@ && value == decimal(b.memory_mebibytes as nat) + "M"@
    ||| name == "CPUQuota"@ && value == decimal(b.cpu_quota_percent as nat) + "%"@
    ||| name == "ReadOnlyPaths"@ && is_read_only(launch, value)
    ||| name == "ReadWritePaths"@ && is_written(launch, value)
    ||| name == "OpenFile"@ && open_files.contains(value)
    ||| name == "Group"@ && (b.state_group matches Some(group) && value == group@)
    ||| name == "PrivateNetwork"@ && b.network is Isolated && value == "yes"@
    ||| name == "PrivateDevices"@ && b.devices@.len() == 0 && value == "yes"@
    ||| name == "DevicePolicy"@ && b.devices@.len() > 0 && value == "closed"@
    ||| name == "DeviceAllow"@ && exists|i: int|
        0 <= i < b.devices@.len() && value == #[trigger] b.devices@[i]@ + " rw"@
    ||| name == "LoadCredential"@ && exists|i: int|
        0 <= i < b.secret_files@.len() && (#[trigger] b.secret_files@[i]).0 != presence && value
            == b.secret_files@[i].0 + ":"@ + b.secret_files@[i].1
}

proof fn lemma_behind(
    before: Seq<char>,
    v: Seq<char>,
    n: Seq<char>,
    name: Seq<char>,
    value: Seq<char>,
)
    requires
        before =~= "--property="@ + n + "="@,
        !n.contains('='),
        !name.contains('='),
    ensures
        before + v == property(name, value) <==> name == n && value == v,
{
    assert(before + v =~= property(n, v));
    lemma_property(before + v, n, v, name, value);
}

proof fn lemma_each(
    before: Seq<char>,
    list: Seq<Seq<char>>,
    n: Seq<char>,
    name: Seq<char>,
    value: Seq<char>,
)
    requires
        before =~= "--property="@ + n + "="@,
        !n.contains('='),
        !name.contains('='),
    ensures
        each_between(before, list, ""@).contains(property(name, value)) <==> name == n
            && list.contains(value),
{
    let all = each_between(before, list, ""@);
    let text = property(name, value);
    reveal_strlit("");
    assert forall|i: int| 0 <= i < list.len() implies #[trigger] all[i] == before + list[i] by {
        assert(all[i] =~= before + list[i]);
    }
    if all.contains(text) {
        let i = choose|i: int| 0 <= i < all.len() && all[i] == text;
        lemma_behind(before, list[i], n, name, value);
        assert(list[i] == value);
    }
    if name == n && list.contains(value) {
        let i = choose|i: int| 0 <= i < list.len() && list[i] == value;
        lemma_behind(before, list[i], n, name, value);
        assert(all[i] == text);
    }
}

proof fn lemma_maybe(
    before: Seq<char>,
    text: Option<String>,
    n: Seq<char>,
    name: Seq<char>,
    value: Seq<char>,
)
    requires
        before =~= "--property="@ + n + "="@,
        !n.contains('='),
        !name.contains('='),
    ensures
        maybe(before, text).contains(property(name, value)) <==> name == n && (text matches Some(t)
            && value == t@),
{
    let all = maybe(before, text);
    if let Some(t) = text {
        lemma_behind(before, t@, n, name, value);
        assert(all[0] == before + t@);
    }
}

proof fn lemma_bounding(
    launch: Launch,
    description: Seq<char>,
    credential_root: Seq<char>,
    name: Seq<char>,
    value: Seq<char>,
)
    requires
        !name.contains('='),
    ensures
        bounding_arguments(launch, description, credential_root).contains(property(name, value))
            <==> {
            ||| name == "Description"@ && value == description
            ||| name == "InaccessiblePaths"@ && value == credential_root
            ||| name == "MemoryMax"@ && value == decimal(launch.binding.memory_mebibytes as nat)
                + "M"@
            ||| name == "CPUQuota"@ && value == decimal(launch.binding.cpu_quota_percent as nat)
                + "%"@
            ||| name == "ReadOnlyPaths"@ && (value == launch.installed@ || value
                == launch.bundle@)
        },
{
    let all = bounding_arguments(launch, description, credential_root);
    let text = property(name, value);
    let memory = decimal(launch.binding.memory_mebibytes as nat);
    let quota = decimal(launch.binding.cpu_quota_percent as nat);
    reveal_strlit("--property=");
    reveal_strlit("=");
    reveal_strlit("--property=Description=");
    reveal_strlit("--property=InaccessiblePaths=");
    reveal_strlit("--property=MemoryMax=");
    reveal_strlit("--property=CPUQuota=");
    reveal_strlit("--property=ReadOnlyPaths=");
    reveal_strlit("--working-directory=");
    reveal_strlit("Description");
    reveal_strlit("InaccessiblePaths");
    reveal_strlit("MemoryMax");
    reveal_strlit("CPUQuota");
    reveal_strlit("ReadOnlyPaths");
    lemma_behind("--property=Description="@, description, "Description"@, name, value);
    lemma_behind(
        "--property=InaccessiblePaths="@,
        credential_root,
        "InaccessiblePaths"@,
        name,
        value,
    );
    lemma_behind("--property=MemoryMax="@, memory + "M"@, "MemoryMax"@, name, value);
    lemma_behind("--property=CPUQuota="@, quota + "%"@, "CPUQuota"@, name, value);
    lemma_behind("--property=ReadOnlyPaths="@, launch.installed@, "ReadOnlyPaths"@, name, value);
    lemma_behind("--property=ReadOnlyPaths="@, launch.bundle@, "ReadOnlyPaths"@, name, value);
    assert(text[2] == 'p');
    assert(all[0] == "--property=Description="@ + description);
    assert(all[1] == "--property=InaccessiblePaths="@ + credential_root);
    assert(all[2] =~= "--property=MemoryMax="@ + (memory + "M"@));
    assert(all[3] =~= "--property=CPUQuota="@ + (quota + "%"@));
    assert(all[4][2] == 'w');
    assert(all[5] == "--property=ReadOnlyPaths="@ + launch.installed@);
    assert(all[6] == "--property=ReadOnlyPaths="@ + launch.bundle@);
    if all.contains(text) {
        let i = choose|i: int| 0 <= i < all.len() && all[i] == text;
        assert(i == 0 || i == 1 || i == 2 || i == 3 || i == 5 || i == 6);
    }
}

proof fn lemma_paths(launch: Launch, name: Seq<char>, value: Seq<char>)
    requires
        !name.contains('='),
    ensures
        path_arguments(launch).contains(property(name, value)) <==> {
            ||| name == "ReadWritePaths"@ && is_written(launch, value)
            ||| name == "ReadOnlyPaths"@ && texts(launch.binding.read_only_paths@).contains(value)
            ||| name == "ReadOnlyPaths"@ && (launch.write_lease matches Some(lease) && (value
                == "-"@ + lease.record_path@ || value == "-"@ + lease.lock_path@))
        },
{
    let b = launch.binding;
    let text = property(name, value);
    let read = "--property=ReadOnlyPaths="@;
    let write = "--property=ReadWritePaths="@;
    reveal_strlit("--property=");
    reveal_strlit("=");
    reveal_strlit("-");
    reveal_strlit("--property=ReadOnlyPaths=");
    reveal_strlit("--property=ReadOnlyPaths=-");
    reveal_strlit("--property=ReadWritePaths=");
    reveal_strlit("ReadOnlyPaths");
    reveal_strlit("ReadWritePaths");
    let first = maybe(write, b.state_root);
    let second: Seq<Seq<char>> = match launch.write_lease {
        Some(lease) => seq![
            "--property=ReadOnlyPaths=-"@ + lease.record_path@,
            "--property=ReadOnlyPaths=-"@ + lease.lock_path@,
        ],
        None => Seq::empty(),
    };
    let third = each_between(read, texts(b.read_only_paths@), ""@);
    let fourth = each_between(write, texts(b.read_write_paths@), ""@);
    lemma_maybe(write, b.state_root, "ReadWritePaths"@, name, value);
    lemma_each(read, texts(b.read_only_paths@), "ReadOnlyPaths"@, name, value);
    lemma_each(write, texts(b.read_write_paths@), "ReadWritePaths"@, name, value);
    if let Some(lease) = launch.write_lease {
        lemma_behind(read, "-"@ + lease.record_path@, "ReadOnlyPaths"@, name, value);
        lemma_behind(read, "-"@ + lease.lock_path@, "ReadOnlyPaths"@, name, value);
        assert(second[0] =~= read + ("-"@ + lease.record_path@));
        assert(second[1] =~= read + ("-"@ + lease.lock_path@));
    }
    lemma_either_has(first, second, text);
    lemma_either_has(first + second, third, text);
    lemma_either_has(first + second + third, fourth, text);
}

proof fn lemma_devices(devices: Seq<String>, name: Seq<char>, value: Seq<char>)
    requires
        !name.contains('='),
    ensures
        device_arguments(texts(devices)).contains(property(name, value)) <==> {
            ||| name == "PrivateDevices"@ && devices.len() == 0 && value == "yes"@
            ||| name == "DevicePolicy"@ && devices.len() > 0 && value == "closed"@
            ||| name == "DeviceAllow"@ && exists|i: int|
                0 <= i < devices.len() && value == #[trigger] devices[i]@ + " rw"@
        },
{
    let all = device_arguments(texts(devices));
    let text = property(name, value);
    let before = "--property=DeviceAllow="@;
    reveal_strlit("--property=");
    reveal_strlit("=");
    reveal_strlit("--property=PrivateDevices=yes");
    reveal_strlit("--property=DevicePolicy=closed");
    reveal_strlit("--property=DeviceAllow=");
    reveal_strlit("PrivateDevices");
    reveal_strlit("DevicePolicy");
    reveal_strlit("DeviceAllow");
    reveal_strlit("yes");
    reveal_strlit("closed");
    lemma_property("--property=PrivateDevices=yes"@, "PrivateDevices"@, "yes"@, name, value);
    lemma_property("--property=DevicePolicy=closed"@, "DevicePolicy"@, "closed"@, name, value);
    if devices.len() == 0 {
        assert(all[0] == "--property=PrivateDevices=yes"@);
        assert(all[0] =~= property("PrivateDevices"@, "yes"@));
    } else {
        assert(all[0] == "--property=DevicePolicy=closed"@);
        assert(all[0] =~= property("DevicePolicy"@, "closed"@));
        assert forall|i: int| 0 <= i < devices.len() implies (#[trigger] all[i + 1] == text <==> name
            == "DeviceAllow"@ && value == devices[i]@ + " rw"@) by {
            assert(all[i + 1] =~= before + (devices[i]@ + " rw"@));
            lemma_behind(before, devices[i]@ + " rw"@, "DeviceAllow"@, name, value);
        }
        if all.contains(text) {
            let i = choose|i: int| 0 <= i < all.len() && all[i] == text;
            if i > 0 {
                assert(all[(i - 1) + 1] == text);
                assert(value == devices[i - 1]@ + " rw"@);
            }
        }
        if name == "DeviceAllow"@ && exists|i: int|
            0 <= i < devices.len() && value == #[trigger] devices[i]@ + " rw"@ {
            let i = choose|i: int|
                0 <= i < devices.len() && value == #[trigger] devices[i]@ + " rw"@;
            assert(all[i + 1] == text);
        }
    }
}

proof fn lemma_credentials(
    pairs: Seq<Pair>,
    presence: Seq<char>,
    name: Seq<char>,
    value: Seq<char>,
)
    requires
        !name.contains('='),
    ensures
        each_pair(
            "--property=LoadCredential="@,
            pairs_without(pairs, presence),
            ":"@,
        ).contains(property(name, value)) <==> name == "LoadCredential"@ && exists|i: int|
            0 <= i < pairs.len() && (#[trigger] pairs[i]).0 != presence && value == pairs[i].0
                + ":"@ + pairs[i].1,
{
    let kept = pairs_without(pairs, presence);
    let before = "--property=LoadCredential="@;
    let all = each_pair(before, kept, ":"@);
    let text = property(name, value);
    reveal_strlit("--property=");
    reveal_strlit("=");
    reveal_strlit("--property=LoadCredential=");
    reveal_strlit("LoadCredential");
    the_presence_identity_is_no_credential(pairs, presence);
    lemma_kept(pairs, presence);
    assert forall|i: int| 0 <= i < kept.len() implies (#[trigger] all[i] == text <==> name
        == "LoadCredential"@ && value == kept[i].0 + ":"@ + kept[i].1) by {
        let v = kept[i].0 + ":"@ + kept[i].1;
        assert(all[i] =~= before + v);
        lemma_behind(before, v, "LoadCredential"@, name, value);
    }
    if all.contains(text) {
        let i = choose|i: int| 0 <= i < all.len() && all[i] == text;
        assert(pairs.contains(kept[i]));
        let k = choose|k: int| 0 <= k < pairs.len() && pairs[k] == kept[i];
        assert(pairs[k].0 != presence);
    }
    if name == "LoadCredential"@ && exists|i: int|
        0 <= i < pairs.len() && (#[trigger] pairs[i]).0 != presence && value == pairs[i].0 + ":"@
            + pairs[i].1 {
        let i = choose|i: int|
            0 <= i < pairs.len() && (#[trigger] pairs[i]).0 != presence && value == pairs[i].0
                + ":"@ + pairs[i].1;
        assert(kept.contains(pairs[i]));
        let k = choose|k: int| 0 <= k < kept.len() && kept[k] == pairs[i];
        assert(all[k] == text);
    }
}

proof fn lemma_kept(pairs: Seq<Pair>, presence: Seq<char>)
    ensures
        forall|i: int|
            0 <= i < pairs_without(pairs, presence).len() ==> pairs.contains(
                #[trigger] pairs_without(pairs, presence)[i],
            ),
    decreases pairs.len(),
{
    if pairs.len() > 0 {
        lemma_kept(pairs.drop_last(), presence);
        let kept = pairs_without(pairs, presence);
        assert forall|i: int| 0 <= i < kept.len() implies pairs.contains(#[trigger] kept[i]) by {
            if i < pairs_without(pairs.drop_last(), presence).len() {
                assert(kept[i] == pairs_without(pairs.drop_last(), presence)[i]);
                let k = choose|k: int|
                    0 <= k < pairs.drop_last().len() && pairs.drop_last()[k] == kept[i];
                assert(pairs[k] == kept[i]);
            } else {
                assert(pairs[pairs.len() - 1] == kept[i]);
            }
        }
    }
}

/// What a unit is set to is what every unit is held to and what its own launch grants, and
/// nothing else: an option before the command sets a property to a value exactly where one of
/// the two says so.
pub proof fn a_unit_is_set_as_it_is_bound(
    launch: Launch,
    unit: Seq<char>,
    description: Seq<char>,
    credential_root: Seq<char>,
    open_files: Seq<Seq<char>>,
    environment: Seq<Pair>,
    command: Seq<Seq<char>>,
    presence: Seq<char>,
    name: Seq<char>,
    value: Seq<char>,
)
    requires
        !name.contains('='),
    ensures
        sets(
            options(
                request_arguments(
                    launch,
                    unit,
                    description,
                    credential_root,
                    open_files,
                    environment,
                    command,
                    presence,
                ),
                command,
            ),
            name,
            value,
        ) <==> is_held_to(name, value) || is_granted(
            launch,
            description,
            credential_root,
            open_files,
            presence,
            name,
            value,
        ),
{
    let text = property(name, value);
    let b = launch.binding;
    lemma_groups(
        launch,
        unit,
        description,
        credential_root,
        open_files,
        environment,
        command,
        presence,
        text,
    );
    let g = groups(
        launch,
        unit,
        description,
        credential_root,
        open_files,
        environment,
        presence,
    );
    reveal_strlit("--property=");
    reveal_strlit("=");
    assert(text[2] == 'p');
    assert(!g[0].contains(text)) by {
        reveal_strlit("--no-block");
        reveal_strlit("--no-ask-password");
        reveal_strlit("--expand-environment=no");
        reveal_strlit("--unit=");
        assert(g[0][0][2] == 'n');
        assert(g[0][1][2] == 'n');
        assert(g[0][2][2] == 'e');
        assert(g[0][3][2] == 'u');
    }
    assert(g[1].contains(text) <==> is_held_to(name, value)) by {
        if g[1].contains(text) {
            lemma_standing(name, value);
        }
        if is_held_to(name, value) {
            lemma_holds(name, value);
        }
    }
    lemma_bounding(launch, description, credential_root, name, value);
    assert(g[3].contains(text) <==> name == "OpenFile"@ && open_files.contains(value)) by {
        reveal_strlit("--property=OpenFile=");
        reveal_strlit("OpenFile");
        lemma_each("--property=OpenFile="@, open_files, "OpenFile"@, name, value);
    }
    assert(g[4].contains(text) <==> name == "Group"@ && (b.state_group matches Some(group) && value
        == group@)) by {
        reveal_strlit("--property=Group=");
        reveal_strlit("Group");
        lemma_maybe("--property=Group="@, b.state_group, "Group"@, name, value);
    }
    assert(g[5].contains(text) <==> name == "PrivateNetwork"@ && b.network is Isolated && value
        == "yes"@) by {
        reveal_strlit("--property=PrivateNetwork=yes");
        reveal_strlit("PrivateNetwork");
        reveal_strlit("yes");
        lemma_property("--property=PrivateNetwork=yes"@, "PrivateNetwork"@, "yes"@, name, value);
        if b.network is Isolated {
            assert(g[5][0] =~= property("PrivateNetwork"@, "yes"@));
        }
    }
    lemma_paths(launch, name, value);
    lemma_devices(b.devices@, name, value);
    assert(!g[8].contains(text)) by {
        reveal_strlit("--setenv=");
        if g[8].contains(text) {
            let i = choose|i: int| 0 <= i < g[8].len() && g[8][i] == text;
            assert(g[8][i][2] == 's');
        }
    }
    lemma_credentials(b.secret_files@, presence, name, value);
}

/// The arguments of a request before its command.
spec fn asked(
    launch: Launch,
    unit: Seq<char>,
    description: Seq<char>,
    credential_root: Seq<char>,
    open_files: Seq<Seq<char>>,
    environment: Seq<Pair>,
    command: Seq<Seq<char>>,
    presence: Seq<char>,
) -> Seq<Seq<char>> {
    options(
        request_arguments(
            launch,
            unit,
            description,
            credential_root,
            open_files,
            environment,
            command,
            presence,
        ),
        command,
    )
}

/// A unit may write exactly where its state is and at the paths that are bound for writing, and
/// is kept to reading exactly at the paths that are bound so, at what it is installed as, at its
/// runtime bundle and at its write lease.
pub proof fn a_unit_writes_exactly_where_it_is_bound(
    launch: Launch,
    unit: Seq<char>,
    description: Seq<char>,
    credential_root: Seq<char>,
    open_files: Seq<Seq<char>>,
    environment: Seq<Pair>,
    command: Seq<Seq<char>>,
    presence: Seq<char>,
    path: Seq<char>,
)
    ensures
        ({
            let before = options(
                request_arguments(
                    launch,
                    unit,
                    description,
                    credential_root,
                    open_files,
                    environment,
                    command,
                    presence,
                ),
                command,
            );
            &&& sets(before, "ReadWritePaths"@, path) <==> {
                ||| launch.binding.state_root matches Some(root) && path == root@
                ||| texts(launch.binding.read_write_paths@).contains(path)
            }
            &&& sets(before, "ReadOnlyPaths"@, path) <==> {
                ||| path == launch.installed@
                ||| path == launch.bundle@
                ||| texts(launch.binding.read_only_paths@).contains(path)
                ||| launch.write_lease matches Some(lease) && (path == "-"@ + lease.record_path@
                    || path == "-"@ + lease.lock_path@)
            }
            &&& sets(before, "InaccessiblePaths"@, path) <==> path == credential_root
        }),
{
    reveal_strlit("Type");
    reveal_strlit("Restart");
    reveal_strlit("KillMode");
    reveal_strlit("DynamicUser");
    reveal_strlit("SupplementaryGroups");
    reveal_strlit("CapabilityBoundingSet");
    reveal_strlit("AmbientCapabilities");
    reveal_strlit("NoNewPrivileges");
    reveal_strlit("PrivateMounts");
    reveal_strlit("PrivatePIDs");
    reveal_strlit("ProtectProc");
    reveal_strlit("ProcSubset");
    reveal_strlit("PrivateTmp");
    reveal_strlit("ProtectSystem");
    reveal_strlit("ProtectHome");
    reveal_strlit("ProtectControlGroups");
    reveal_strlit("ProtectKernelModules");
    reveal_strlit("ProtectKernelTunables");
    reveal_strlit("RestrictSUIDSGID");
    reveal_strlit("LockPersonality");
    reveal_strlit("UMask");
    reveal_strlit("Description");
    reveal_strlit("InaccessiblePaths");
    reveal_strlit("MemoryMax");
    reveal_strlit("CPUQuota");
    reveal_strlit("ReadOnlyPaths");
    reveal_strlit("ReadWritePaths");
    reveal_strlit("OpenFile");
    reveal_strlit("Group");
    reveal_strlit("PrivateNetwork");
    reveal_strlit("PrivateDevices");
    reveal_strlit("DevicePolicy");
    reveal_strlit("DeviceAllow");
    reveal_strlit("LoadCredential");
    assert("UMask"@[0] == 'U');
    assert("Group"@[0] == 'G');
    assert("KillMode"@[0] == 'K');
    assert("CPUQuota"@[0] == 'C');
    assert("OpenFile"@[0] == 'O');
    assert("ProcSubset"@[2] == 'o');
    assert("PrivateTmp"@[2] == 'i');
    assert("DynamicUser"@[8] == 's');
    assert("PrivatePIDs"@[8] == 'I');
    assert("ProtectProc"@[8] == 'r');
    assert("ProtectHome"@[8] == 'o');
    assert("Description"@[8] == 'i');
    assert("DeviceAllow"@[8] == 'l');
    assert("PrivateMounts"@[2] == 'i');
    assert("ProtectSystem"@[2] == 'o');
    assert("ReadOnlyPaths"@[2] == 'a');
    assert("ReadWritePaths"@[7] == 't');
    assert("PrivateNetwork"@[7] == 'N');
    assert("PrivateDevices"@[7] == 'D');
    assert("LoadCredential"@[7] == 'd');
    assert("NoNewPrivileges"@[0] == 'N');
    assert("LockPersonality"@[0] == 'L');
    assert("SupplementaryGroups"@[0] == 'S');
    assert("AmbientCapabilities"@[0] == 'A');
    assert("ProtectControlGroups"@[7] == 'C');
    assert("ProtectKernelModules"@[7] == 'K');
    assert("CapabilityBoundingSet"@[0] == 'C');
    assert("ProtectKernelTunables"@[0] == 'P');
    a_unit_is_set_as_it_is_bound(
        launch,
        unit,
        description,
        credential_root,
        open_files,
        environment,
        command,
        presence,
        "ReadWritePaths"@,
        path,
    );
    a_unit_is_set_as_it_is_bound(
        launch,
        unit,
        description,
        credential_root,
        open_files,
        environment,
        command,
        presence,
        "ReadOnlyPaths"@,
        path,
    );
    a_unit_is_set_as_it_is_bound(
        launch,
        unit,
        description,
        credential_root,
        open_files,
        environment,
        command,
        presence,
        "InaccessiblePaths"@,
        path,
    );
}

/// A unit has exactly what is bound for it beside its paths: its devices, which it has to
/// itself where none is bound, its secrets but for the identity of its presence, its group, its
/// network, its memory, its share of the processors and the files that only it is handed.
pub proof fn a_unit_has_exactly_what_is_bound(
    launch: Launch,
    unit: Seq<char>,
    description: Seq<char>,
    credential_root: Seq<char>,
    open_files: Seq<Seq<char>>,
    environment: Seq<Pair>,
    command: Seq<Seq<char>>,
    presence: Seq<char>,
    value: Seq<char>,
)
    ensures
        ({
            let before = options(
                request_arguments(
                    launch,
                    unit,
                    description,
                    credential_root,
                    open_files,
                    environment,
                    command,
                    presence,
                ),
                command,
            );
            let b = launch.binding;
            &&& sets(before, "DeviceAllow"@, value) <==> exists|i: int|
                0 <= i < b.devices@.len() && value == #[trigger] b.devices@[i]@ + " rw"@
            &&& sets(before, "DevicePolicy"@, value) <==> b.devices@.len() > 0 && value
                == "closed"@
            &&& sets(before, "PrivateDevices"@, value) <==> b.devices@.len() == 0 && value
                == "yes"@
            &&& sets(before, "LoadCredential"@, value) <==> exists|i: int|
                0 <= i < b.secret_files@.len() && (#[trigger] b.secret_files@[i]).0 != presence
                    && value == b.secret_files@[i].0 + ":"@ + b.secret_files@[i].1
            &&& sets(before, "Group"@, value) <==> (b.state_group matches Some(group) && value
                == group@)
            &&& sets(before, "PrivateNetwork"@, value) <==> b.network is Isolated && value
                == "yes"@
            &&& sets(before, "MemoryMax"@, value) <==> value == decimal(b.memory_mebibytes as nat)
                + "M"@
            &&& sets(before, "CPUQuota"@, value) <==> value == decimal(b.cpu_quota_percent as nat)
                + "%"@
            &&& sets(before, "OpenFile"@, value) <==> open_files.contains(value)
            &&& sets(before, "Description"@, value) <==> value == description
        }),
{
    reveal_strlit("Type");
    reveal_strlit("Restart");
    reveal_strlit("KillMode");
    reveal_strlit("DynamicUser");
    reveal_strlit("SupplementaryGroups");
    reveal_strlit("CapabilityBoundingSet");
    reveal_strlit("AmbientCapabilities");
    reveal_strlit("NoNewPrivileges");
    reveal_strlit("PrivateMounts");
    reveal_strlit("PrivatePIDs");
    reveal_strlit("ProtectProc");
    reveal_strlit("ProcSubset");
    reveal_strlit("PrivateTmp");
    reveal_strlit("ProtectSystem");
    reveal_strlit("ProtectHome");
    reveal_strlit("ProtectControlGroups");
    reveal_strlit("ProtectKernelModules");
    reveal_strlit("ProtectKernelTunables");
    reveal_strlit("RestrictSUIDSGID");
    reveal_strlit("LockPersonality");
    reveal_strlit("UMask");
    reveal_strlit("Description");
    reveal_strlit("InaccessiblePaths");
    reveal_strlit("MemoryMax");
    reveal_strlit("CPUQuota");
    reveal_strlit("ReadOnlyPaths");
    reveal_strlit("ReadWritePaths");
    reveal_strlit("OpenFile");
    reveal_strlit("Group");
    reveal_strlit("PrivateNetwork");
    reveal_strlit("PrivateDevices");
    reveal_strlit("DevicePolicy");
    reveal_strlit("DeviceAllow");
    reveal_strlit("LoadCredential");
    assert("UMask"@[0] == 'U');
    assert("Group"@[0] == 'G');
    assert("KillMode"@[0] == 'K');
    assert("CPUQuota"@[0] == 'C');
    assert("OpenFile"@[0] == 'O');
    assert("ProcSubset"@[2] == 'o');
    assert("PrivateTmp"@[2] == 'i');
    assert("DynamicUser"@[8] == 's');
    assert("PrivatePIDs"@[8] == 'I');
    assert("ProtectProc"@[8] == 'r');
    assert("ProtectHome"@[8] == 'o');
    assert("Description"@[8] == 'i');
    assert("DeviceAllow"@[8] == 'l');
    assert("PrivateMounts"@[2] == 'i');
    assert("ProtectSystem"@[2] == 'o');
    assert("ReadOnlyPaths"@[2] == 'a');
    assert("ReadWritePaths"@[7] == 't');
    assert("PrivateNetwork"@[7] == 'N');
    assert("PrivateDevices"@[7] == 'D');
    assert("LoadCredential"@[7] == 'd');
    assert("NoNewPrivileges"@[0] == 'N');
    assert("LockPersonality"@[0] == 'L');
    assert("SupplementaryGroups"@[0] == 'S');
    assert("AmbientCapabilities"@[0] == 'A');
    assert("ProtectControlGroups"@[7] == 'C');
    assert("ProtectKernelModules"@[7] == 'K');
    assert("CapabilityBoundingSet"@[0] == 'C');
    assert("ProtectKernelTunables"@[0] == 'P');
    a_unit_is_set_as_it_is_bound(
        launch,
        unit,
        description,
        credential_root,
        open_files,
        environment,
        command,
        presence,
        "DeviceAllow"@,
        value,
    );
    a_unit_is_set_as_it_is_bound(
        launch,
        unit,
        description,
        credential_root,
        open_files,
        environment,
        command,
        presence,
        "DevicePolicy"@,
        value,
    );
    a_unit_is_set_as_it_is_bound(
        launch,
        unit,
        description,
        credential_root,
        open_files,
        environment,
        command,
        presence,
        "PrivateDevices"@,
        value,
    );
    a_unit_is_set_as_it_is_bound(
        launch,
        unit,
        description,
        credential_root,
        open_files,
        environment,
        command,
        presence,
        "LoadCredential"@,
        value,
    );
    a_unit_is_set_as_it_is_bound(
        launch,
        unit,
        description,
        credential_root,
        open_files,
        environment,
        command,
        presence,
        "Group"@,
        value,
    );
    a_unit_is_set_as_it_is_bound(
        launch,
        unit,
        description,
        credential_root,
        open_files,
        environment,
        command,
        presence,
        "PrivateNetwork"@,
        value,
    );
    a_unit_is_set_as_it_is_bound(
        launch,
        unit,
        description,
        credential_root,
        open_files,
        environment,
        command,
        presence,
        "MemoryMax"@,
        value,
    );
    a_unit_is_set_as_it_is_bound(
        launch,
        unit,
        description,
        credential_root,
        open_files,
        environment,
        command,
        presence,
        "CPUQuota"@,
        value,
    );
    a_unit_is_set_as_it_is_bound(
        launch,
        unit,
        description,
        credential_root,
        open_files,
        environment,
        command,
        presence,
        "OpenFile"@,
        value,
    );
    a_unit_is_set_as_it_is_bound(
        launch,
        unit,
        description,
        credential_root,
        open_files,
        environment,
        command,
        presence,
        "Description"@,
        value,
    );
}

/// What every unit is held to, it is held to whatever is bound for it: the property is set so,
/// and no other value of it is set beside.
pub proof fn no_binding_loosens_a_unit(
    launch: Launch,
    unit: Seq<char>,
    description: Seq<char>,
    credential_root: Seq<char>,
    open_files: Seq<Seq<char>>,
    environment: Seq<Pair>,
    command: Seq<Seq<char>>,
    presence: Seq<char>,
    name: Seq<char>,
    value: Seq<char>,
    other: Seq<char>,
)
    requires
        is_held_to(name, value),
    ensures
        ({
            let before = options(
                request_arguments(
                    launch,
                    unit,
                    description,
                    credential_root,
                    open_files,
                    environment,
                    command,
                    presence,
                ),
                command,
            );
            &&& sets(before, name, value)
            &&& sets(before, name, other) ==> other == value
        }),
{
    reveal_strlit("Type");
    reveal_strlit("Restart");
    reveal_strlit("KillMode");
    reveal_strlit("DynamicUser");
    reveal_strlit("SupplementaryGroups");
    reveal_strlit("CapabilityBoundingSet");
    reveal_strlit("AmbientCapabilities");
    reveal_strlit("NoNewPrivileges");
    reveal_strlit("PrivateMounts");
    reveal_strlit("PrivatePIDs");
    reveal_strlit("ProtectProc");
    reveal_strlit("ProcSubset");
    reveal_strlit("PrivateTmp");
    reveal_strlit("ProtectSystem");
    reveal_strlit("ProtectHome");
    reveal_strlit("ProtectControlGroups");
    reveal_strlit("ProtectKernelModules");
    reveal_strlit("ProtectKernelTunables");
    reveal_strlit("RestrictSUIDSGID");
    reveal_strlit("LockPersonality");
    reveal_strlit("UMask");
    reveal_strlit("Description");
    reveal_strlit("InaccessiblePaths");
    reveal_strlit("MemoryMax");
    reveal_strlit("CPUQuota");
    reveal_strlit("ReadOnlyPaths");
    reveal_strlit("ReadWritePaths");
    reveal_strlit("OpenFile");
    reveal_strlit("Group");
    reveal_strlit("PrivateNetwork");
    reveal_strlit("PrivateDevices");
    reveal_strlit("DevicePolicy");
    reveal_strlit("DeviceAllow");
    reveal_strlit("LoadCredential");
    assert("UMask"@[0] == 'U');
    assert("Group"@[0] == 'G');
    assert("KillMode"@[0] == 'K');
    assert("CPUQuota"@[0] == 'C');
    assert("OpenFile"@[0] == 'O');
    assert("ProcSubset"@[2] == 'o');
    assert("PrivateTmp"@[2] == 'i');
    assert("DynamicUser"@[8] == 's');
    assert("PrivatePIDs"@[8] == 'I');
    assert("ProtectProc"@[8] == 'r');
    assert("ProtectHome"@[8] == 'o');
    assert("Description"@[8] == 'i');
    assert("DeviceAllow"@[8] == 'l');
    assert("PrivateMounts"@[2] == 'i');
    assert("ProtectSystem"@[2] == 'o');
    assert("ReadOnlyPaths"@[2] == 'a');
    assert("ReadWritePaths"@[7] == 't');
    assert("PrivateNetwork"@[7] == 'N');
    assert("PrivateDevices"@[7] == 'D');
    assert("LoadCredential"@[7] == 'd');
    assert("NoNewPrivileges"@[0] == 'N');
    assert("LockPersonality"@[0] == 'L');
    assert("SupplementaryGroups"@[0] == 'S');
    assert("AmbientCapabilities"@[0] == 'A');
    assert("ProtectControlGroups"@[7] == 'C');
    assert("ProtectKernelModules"@[7] == 'K');
    assert("CapabilityBoundingSet"@[0] == 'C');
    assert("ProtectKernelTunables"@[0] == 'P');
    assert(!name.contains('='));
    a_unit_is_set_as_it_is_bound(
        launch,
        unit,
        description,
        credential_root,
        open_files,
        environment,
        command,
        presence,
        name,
        value,
    );
    a_unit_is_set_as_it_is_bound(
        launch,
        unit,
        description,
        credential_root,
        open_files,
        environment,
        command,
        presence,
        name,
        other,
    );
}

proof fn lemma_standing_are_properties(text: Seq<char>)
    requires
        standing_arguments().contains(text),
    ensures
        text.len() > 2 && text[2] == 'p',
{
    reveal_strlit("--property=Type=exec");
    reveal_strlit("--property=Restart=no");
    reveal_strlit("--property=KillMode=mixed");
    reveal_strlit("--property=DynamicUser=yes");
    reveal_strlit("--property=SupplementaryGroups=");
    reveal_strlit("--property=CapabilityBoundingSet=");
    reveal_strlit("--property=AmbientCapabilities=");
    reveal_strlit("--property=NoNewPrivileges=yes");
    reveal_strlit("--property=PrivateMounts=yes");
    reveal_strlit("--property=PrivatePIDs=yes");
    reveal_strlit("--property=ProtectProc=invisible");
    reveal_strlit("--property=ProcSubset=all");
    reveal_strlit("--property=PrivateTmp=yes");
    reveal_strlit("--property=ProtectSystem=strict");
    reveal_strlit("--property=ProtectHome=yes");
    reveal_strlit("--property=ProtectControlGroups=yes");
    reveal_strlit("--property=ProtectKernelModules=yes");
    reveal_strlit("--property=ProtectKernelTunables=yes");
    reveal_strlit("--property=RestrictSUIDSGID=yes");
    reveal_strlit("--property=LockPersonality=yes");
    reveal_strlit("--property=UMask=0007");
}

/// Beside its properties a unit has its name, where it is launched, its environment and the
/// command that it runs, which is what is asked for to the letter.
pub proof fn a_unit_is_launched_as_asked(
    launch: Launch,
    unit: Seq<char>,
    description: Seq<char>,
    credential_root: Seq<char>,
    open_files: Seq<Seq<char>>,
    environment: Seq<Pair>,
    command: Seq<Seq<char>>,
    presence: Seq<char>,
    text: Seq<char>,
)
    ensures
        ({
            let arguments = request_arguments(
                launch,
                unit,
                description,
                credential_root,
                open_files,
                environment,
                command,
                presence,
            );
            let before = options(arguments, command);
            &&& arguments == before + command
            &&& before.contains("--unit="@ + text) <==> text == unit
            &&& before.contains("--working-directory="@ + text) <==> text == launch.installed@
            &&& before.contains("--setenv="@ + text) <==> exists|i: int|
                0 <= i < environment.len() && text == (#[trigger] environment[i]).0 + "="@
                    + environment[i].1
            &&& before.contains("--no-block"@)
            &&& before.contains("--no-ask-password"@)
            &&& before.contains("--expand-environment=no"@)
        }),
{
    let before = asked(
        launch,
        unit,
        description,
        credential_root,
        open_files,
        environment,
        command,
        presence,
    );
    let one = "--unit="@ + text;
    let two = "--working-directory="@ + text;
    let three = "--setenv="@ + text;
    lemma_groups(
        launch,
        unit,
        description,
        credential_root,
        open_files,
        environment,
        command,
        presence,
        "--no-block"@,
    );
    lemma_groups(
        launch,
        unit,
        description,
        credential_root,
        open_files,
        environment,
        command,
        presence,
        "--no-ask-password"@,
    );
    lemma_groups(
        launch,
        unit,
        description,
        credential_root,
        open_files,
        environment,
        command,
        presence,
        "--expand-environment=no"@,
    );
    lemma_groups(
        launch,
        unit,
        description,
        credential_root,
        open_files,
        environment,
        command,
        presence,
        one,
    );
    lemma_groups(
        launch,
        unit,
        description,
        credential_root,
        open_files,
        environment,
        command,
        presence,
        two,
    );
    lemma_groups(
        launch,
        unit,
        description,
        credential_root,
        open_files,
        environment,
        command,
        presence,
        three,
    );
    let g = groups(launch, unit, description, credential_root, open_files, environment, presence);
    reveal_strlit("--unit=");
    reveal_strlit("--working-directory=");
    reveal_strlit("--setenv=");
    assert(one[2] == 'u' && two[2] == 'w' && three[2] == 's');
    reveal_strlit("--no-block");
    reveal_strlit("--no-ask-password");
    reveal_strlit("--expand-environment=no");
    if before.contains(one) {
        lemma_asked(
            launch,
            unit,
            description,
            credential_root,
            open_files,
            environment,
            command,
            presence,
            one,
        );
    }
    if before.contains(two) {
        lemma_asked(
            launch,
            unit,
            description,
            credential_root,
            open_files,
            environment,
            command,
            presence,
            two,
        );
    }
    if before.contains(three) {
        lemma_asked(
            launch,
            unit,
            description,
            credential_root,
            open_files,
            environment,
            command,
            presence,
            three,
        );
    }
    assert(one.skip(7) =~= text);
    assert(("--unit="@ + unit).skip(7) =~= unit);
    assert(two.skip(20) =~= text);
    assert(("--working-directory="@ + launch.installed@).skip(20) =~= launch.installed@);
    assert(g[0][0] == "--no-block"@);
    assert(g[0][1] == "--no-ask-password"@);
    assert(g[0][2] == "--expand-environment=no"@);
    assert(g[0][3] == "--unit="@ + unit);
    assert(g[2][4] == "--working-directory="@ + launch.installed@);
    assert forall|i: int| 0 <= i < environment.len() implies (#[trigger] g[8][i] == three <==> text
        == environment[i].0 + "="@ + environment[i].1) by {
        let pair = environment[i].0 + "="@ + environment[i].1;
        assert(g[8][i] =~= "--setenv="@ + pair);
        assert(three.skip(9) =~= text);
        assert(("--setenv="@ + pair).skip(9) =~= pair);
    }
    if exists|i: int|
        0 <= i < environment.len() && text == (#[trigger] environment[i]).0 + "="@
            + environment[i].1 {
        let i = choose|i: int|
            0 <= i < environment.len() && text == (#[trigger] environment[i]).0 + "="@
                + environment[i].1;
        assert(g[8][i] == three);
    }
}

/// An option that sets no property is one of those that name the unit, where it is launched
/// and its environment, or one that no launch changes.
proof fn lemma_asked(
    launch: Launch,
    unit: Seq<char>,
    description: Seq<char>,
    credential_root: Seq<char>,
    open_files: Seq<Seq<char>>,
    environment: Seq<Pair>,
    command: Seq<Seq<char>>,
    presence: Seq<char>,
    text: Seq<char>,
)
    requires
        text.len() > 2,
        text[2] != 'p',
        asked(
            launch,
            unit,
            description,
            credential_root,
            open_files,
            environment,
            command,
            presence,
        ).contains(text),
    ensures
        ({
            ||| text == "--no-block"@
            ||| text == "--no-ask-password"@
            ||| text == "--expand-environment=no"@
            ||| text == "--unit="@ + unit
            ||| text == "--working-directory="@ + launch.installed@
            ||| each_pair("--setenv="@, environment, "="@).contains(text)
        }),
{
    lemma_groups(
        launch,
        unit,
        description,
        credential_root,
        open_files,
        environment,
        command,
        presence,
        text,
    );
    let g = groups(launch, unit, description, credential_root, open_files, environment, presence);
    reveal_strlit("--property=OpenFile=");
    reveal_strlit("--property=Group=");
    reveal_strlit("--property=PrivateNetwork=yes");
    reveal_strlit("--property=LoadCredential=");
    reveal_strlit("--property=PrivateDevices=yes");
    reveal_strlit("--property=DevicePolicy=closed");
    reveal_strlit("--property=DeviceAllow=");
    reveal_strlit("--property=ReadOnlyPaths=");
    reveal_strlit("--property=ReadOnlyPaths=-");
    reveal_strlit("--property=ReadWritePaths=");
    reveal_strlit("--property=Description=");
    reveal_strlit("--property=InaccessiblePaths=");
    reveal_strlit("--property=MemoryMax=");
    reveal_strlit("--property=CPUQuota=");
    if g[1].contains(text) {
        lemma_standing_are_properties(text);
    }
    assert forall|i: int| 0 <= i < g[2].len() && i != 4 implies (#[trigger] g[2][i])[2] == 'p' by {
        assert(i == 0 || i == 1 || i == 2 || i == 3 || i == 5 || i == 6);
    }
    assert forall|i: int| 0 <= i < g[3].len() implies (#[trigger] g[3][i])[2] == 'p' by {}
    assert forall|i: int| 0 <= i < g[4].len() implies (#[trigger] g[4][i])[2] == 'p' by {}
    assert forall|i: int| 0 <= i < g[5].len() implies (#[trigger] g[5][i])[2] == 'p' by {}
    assert forall|i: int| 0 <= i < g[6].len() implies (#[trigger] g[6][i])[2] == 'p' by {}
    assert forall|i: int| 0 <= i < g[7].len() implies (#[trigger] g[7][i])[2] == 'p' by {}
    assert forall|i: int| 0 <= i < g[9].len() implies (#[trigger] g[9][i])[2] == 'p' by {}
}

} // verus!
