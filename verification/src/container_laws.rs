//! How the container of a step is confined, and what it is given.
use vstd::prelude::*;

use crate::binding::DockerRunnerBinding;
use crate::gittree::normalized;
use crate::host_config::{entry_text, is_entry, Entry};
use crate::maps::{pairs_of, Pair};
use crate::observation::ProcessIdentity;
use crate::paths::absolute;
use crate::runner::{
    bind_names, cache_arguments, confining_arguments, container_arguments, environment_arguments,
    hundredths, identity_of, is_container, machine_id_place, mount_of, mount_views, network_name,
    secret_arguments, secret_place, Bound, ContainerSpec, RunnerHost,
};
use crate::scan::{
    all_of, decimal, digit, lemma_cut_first, number, stands_first, unsigned_digits,
};
use crate::stream::lemma_decimal;
use crate::text::text_option;

verus! {

/// Whether an option stands among arguments with a value.
pub open spec fn has_option(arguments: Seq<Seq<char>>, name: Seq<char>, value: Seq<char>) -> bool {
    exists|i: int|
        0 <= i < arguments.len() - 1 && #[trigger] arguments[i] == name && arguments[i + 1] == value
}

proof fn lemma_option_within(
    before: Seq<Seq<char>>,
    part: Seq<Seq<char>>,
    behind: Seq<Seq<char>>,
    name: Seq<char>,
    value: Seq<char>,
)
    requires
        has_option(part, name, value),
    ensures
        has_option(before + part + behind, name, value),
{
    let i = choose|i: int|
        0 <= i < part.len() - 1 && #[trigger] part[i] == name && part[i + 1] == value;
    let all = before + part + behind;
    assert(all[before.len() + i] == name);
    assert(all[before.len() + i + 1] == value);
}

/// The share of the processor that a container has, in hundredths, is read back as it was
/// bound.
pub proof fn a_share_is_read_back(percent: u32)
    ensures
        ({
            let text = hundredths(percent);
            &&& text.len() >= 4
            &&& text[text.len() - 3] == '.'
            &&& number(text.take(text.len() - 3) + text.skip(text.len() - 2), 10) == percent
        }),
{
    reveal_strlit(".");
    let whole = decimal((percent / 100) as nat);
    let tens = decimal(((percent / 10) % 10) as nat);
    let ones = decimal((percent % 10) as nat);
    let text = hundredths(percent);
    lemma_decimal((percent / 100) as nat);
    lemma_decimal(((percent / 10) % 10) as nat);
    lemma_decimal((percent % 10) as nat);
    reveal_with_fuel(decimal, 2);
    reveal_with_fuel(number, 2);
    assert(tens.len() == 1 && ones.len() == 1);
    assert(text.take(text.len() - 3) =~= whole);
    assert(text.skip(text.len() - 2) =~= tens + ones);
    let digits = whole + (tens + ones);
    assert(digits.drop_last().drop_last() =~= whole);
    assert(digits.drop_last().last() == tens[0]);
    assert(digits.last() == ones[0]);
    assert(tens.drop_last() =~= Seq::<char>::empty());
    assert(ones.drop_last() =~= Seq::<char>::empty());
    assert(number(digits, 10) == number(digits.drop_last(), 10) * 10 + crate::scan::hex_value(
        ones[0],
    ));
    assert(number(digits.drop_last(), 10) == number(whole, 10) * 10 + crate::scan::hex_value(
        tens[0],
    ));
}

/// A bind mount binds its source at its destination, for reading only exactly where that is
/// asked, and only from a place that the line can name.
pub proof fn a_mount_binds_what_it_names(
    source: Seq<char>,
    destination: Seq<char>,
    read_only: bool,
)
    ensures
        mount_of(source, destination, read_only) is Ok <==> absolute(source) && !source.contains(
            ',',
        ) && !source.contains('\n') && !source.contains('\r'),
        mount_of(source, destination, read_only) matches Ok(mount) ==> mount == if read_only {
            "type=bind,src="@ + source + ",dst="@ + destination + ",readonly"@
        } else {
            "type=bind,src="@ + source + ",dst="@ + destination
        },
{
    if !read_only {
        reveal_strlit("");
        let plain = "type=bind,src="@ + source + ",dst="@ + destination;
        assert(plain + ""@ =~= plain);
    }
}

/// A container runs what its step says on its image, and before that is confined: to its
/// network, its memory, its share and its processes, to its own user without capabilities or new
/// privileges, over files that it may not write but for its workspace, its cache and a limited
/// place for what does not last.
pub proof fn a_container_is_confined(
    spec: ContainerSpec,
    workspace: Seq<char>,
    working_directory: Seq<char>,
    argv: Seq<Seq<char>>,
)
    requires
        container_arguments(spec, workspace, working_directory, argv) is Ok,
    ensures
        ({
            let all = container_arguments(spec, workspace, working_directory, argv)->Ok_0;
            let options = all.take(all.len() - argv.len() - 1);
            &&& argv.len() > 0
            &&& all.skip(all.len() - argv.len()) == argv
            &&& all[all.len() - argv.len() - 1] == spec.image@
            &&& options[0] == "run"@
            &&& options.contains("--rm"@)
            &&& options.contains("--read-only"@)
            &&& has_option(options, "--network"@, network_name(spec.network))
            &&& has_option(options, "--memory"@, decimal(spec.memory_mebibytes as nat) + "m"@)
            &&& has_option(options, "--cpus"@, hundredths(spec.cpu_quota_percent))
            &&& has_option(options, "--user"@, spec.user@)
            &&& has_option(options, "--cap-drop"@, "ALL"@)
            &&& has_option(options, "--security-opt"@, "no-new-privileges"@)
            &&& has_option(options, "--pids-limit"@, decimal(spec.pids_limit as nat))
            &&& has_option(
                options,
                "--tmpfs"@,
                "/tmp:rw,nosuid,nodev,noexec,size="@ + decimal(spec.tmpfs_mebibytes as nat) + "m"@,
            )
            &&& has_option(
                options,
                "--mount"@,
                mount_of(workspace, "/workspace"@, false)->Ok_0,
            )
            &&& has_option(
                options,
                "--mount"@,
                mount_of(machine_id_place(workspace), "/etc/machine-id"@, true)->Ok_0,
            )
            &&& spec.cache_root matches Some(path) ==> has_option(
                options,
                "--mount"@,
                mount_of(path@, "/cache"@, false)->Ok_0,
            )
            &&& normalized(working_directory) matches Ok(directory) && has_option(
                options,
                "--workdir"@,
                "/workspace/"@ + directory,
            )
        }),
{
    let all = container_arguments(spec, workspace, working_directory, argv)->Ok_0;
    let options = all.take(all.len() - argv.len() - 1);
    let bind = mount_of(workspace, "/workspace"@, false)->Ok_0;
    let machine = mount_of(machine_id_place(workspace), "/etc/machine-id"@, true)->Ok_0;
    let first = confining_arguments(spec, bind, machine);
    let caches = cache_arguments(spec.cache_root)->Ok_0;
    let placed = seq!["--workdir"@, "/workspace/"@ + normalized(working_directory)->Ok_0];
    let given = environment_arguments(pairs_of(spec.environment@));
    let secrets = secret_arguments(mount_views(spec.secret_mounts@))->Ok_0;
    let none: Seq<Seq<char>> = Seq::empty();
    assert(all.skip(all.len() - argv.len()) =~= argv);
    assert(options =~= none + first + (caches + placed + given + secrets));
    assert(options =~= first + caches + (placed + given + secrets));
    assert(options =~= (first + caches) + placed + (given + secrets));
    assert(options[1] == "--rm"@ && options[16] == "--read-only"@);
    assert(first[2] == "--network"@ && first[3] == network_name(spec.network));
    assert(first[4] == "--memory"@);
    assert(first[6] == "--cpus"@);
    assert(first[8] == "--mount"@ && first[9] == bind);
    assert(first[10] == "--user"@);
    assert(first[12] == "--cap-drop"@);
    assert(first[14] == "--security-opt"@);
    assert(first[17] == "--pids-limit"@);
    assert(first[19] == "--tmpfs"@);
    assert(first[21] == "--mount"@ && first[22] == machine);
    let rest = caches + placed + given + secrets;
    lemma_option_within(none, first, rest, "--network"@, network_name(spec.network));
    lemma_option_within(
        none,
        first,
        rest,
        "--memory"@,
        decimal(spec.memory_mebibytes as nat) + "m"@,
    );
    lemma_option_within(none, first, rest, "--cpus"@, hundredths(spec.cpu_quota_percent));
    lemma_option_within(none, first, rest, "--user"@, spec.user@);
    lemma_option_within(none, first, rest, "--cap-drop"@, "ALL"@);
    lemma_option_within(none, first, rest, "--security-opt"@, "no-new-privileges"@);
    lemma_option_within(none, first, rest, "--pids-limit"@, decimal(spec.pids_limit as nat));
    lemma_option_within(
        none,
        first,
        rest,
        "--tmpfs"@,
        "/tmp:rw,nosuid,nodev,noexec,size="@ + decimal(spec.tmpfs_mebibytes as nat) + "m"@,
    );
    lemma_option_within(none, first, rest, "--mount"@, bind);
    lemma_option_within(none, first, rest, "--mount"@, machine);
    if let Some(path) = spec.cache_root {
        let cache = mount_of(path@, "/cache"@, false)->Ok_0;
        assert(caches[0] == "--mount"@ && caches[1] == cache);
        lemma_option_within(first, caches, placed + given + secrets, "--mount"@, cache);
    }
    assert(placed[0] == "--workdir"@);
    lemma_option_within(
        first + caches,
        placed,
        given + secrets,
        "--workdir"@,
        "/workspace/"@ + normalized(working_directory)->Ok_0,
    );
}

/// Each text of a container's environment is handed over under its own name, in order.
pub proof fn a_container_is_told_its_environment(pairs: Seq<Pair>, i: int)
    requires
        0 <= i < pairs.len(),
    ensures
        environment_arguments(pairs).len() == 2 * pairs.len(),
        environment_arguments(pairs)[2 * i] == "--env"@,
        environment_arguments(pairs)[2 * i + 1] == pairs[i].0 + "="@ + pairs[i].1,
    decreases pairs.len(),
{
    let fewer = pairs.drop_last();
    if fewer.len() > 0 {
        a_container_is_told_its_environment(fewer, if i < fewer.len() { i } else { 0 });
    } else {
        assert(environment_arguments(fewer).len() == 0);
    }
}

/// A container is the one that its runner binds: its image, its user, its bounds and its cache
/// are the runner's, and its network is the one that the runner names, none where it names none.
pub proof fn a_container_is_the_bound_one(
    spec: ContainerSpec,
    runner: DockerRunnerBinding,
    bound: Bound,
)
    requires
        is_container(spec, runner, bound),
    ensures
        spec.image@ == runner.image@,
        spec.user@ == runner.user@,
        spec.memory_mebibytes == runner.memory_mebibytes,
        spec.cpu_quota_percent == runner.cpu_quota_percent,
        spec.pids_limit == runner.pids_limit,
        spec.tmpfs_mebibytes == runner.tmpfs_mebibytes,
        text_option(spec.cache_root) == text_option(runner.cache_root),
        mount_views(spec.secret_mounts@) == bound.mounts,
        pairs_of(spec.environment@) == bound.environment,
        network_name(spec.network) == match runner.network_profile {
            Some(name) => name@,
            None => "none"@,
        },
{
}

/// Each secret that a container is given is mounted from where the runner keeps it, at the place
/// that its own name has among the secrets.
pub proof fn a_secret_is_mounted_from_its_own_place(
    runner: DockerRunnerBinding,
    names: Seq<Seq<char>>,
    stamp: Pair,
    host: RunnerHost,
    identity: ProcessIdentity,
    i: int,
)
    requires
        bind_names(runner, names, stamp, host, identity) is Ok,
        0 <= i < bind_names(runner, names, stamp, host, identity)->Ok_0.mounts.len(),
    ensures
        ({
            let mount = bind_names(runner, names, stamp, host, identity)->Ok_0.mounts[i];
            &&& runner.secret_files@.contains((mount.env_name, mount.host_path))
            &&& mount.container_path == "/run/idunn/secrets/"@ + mount.env_name
        }),
    decreases names.len(),
{
    if names.len() > 0 {
        let fewer = names.drop_last();
        let before = bind_names(runner, fewer, stamp, host, identity)->Ok_0;
        let bound = bind_names(runner, names, stamp, host, identity)->Ok_0;
        if i < before.mounts.len() {
            a_secret_is_mounted_from_its_own_place(runner, fewer, stamp, host, identity, i);
            assert(bound.mounts[i] == before.mounts[i]);
        } else {
            let k = secret_place(runner.secret_files@, names.last());
            let mount = bound.mounts[i];
            assert(runner.secret_files@[k] == (mount.env_name, mount.host_path));
        }
    }
}

/// The user of a runner is read back as the two numbers that it is written of.
pub proof fn a_user_is_read_back(uid: u32, gid: u32)
    requires
        uid > 0,
        gid > 0,
    ensures
        identity_of(decimal(uid as nat) + ":"@ + decimal(gid as nat)) == Ok::<
            ProcessIdentity,
            Seq<char>,
        >(ProcessIdentity { uid, gid }),
{
    reveal_strlit(":");
    let u = decimal(uid as nat);
    let g = decimal(gid as nat);
    let user = u + ":"@ + g;
    lemma_decimal(uid as nat);
    lemma_decimal(gid as nat);
    assert forall|j: int| 0 <= j < u.len() implies user[j] != ':' by {
        assert(digit(u[j]));
    }
    assert(stands_first(user, ':', u.len() as int));
    lemma_cut_first(user, ':', u.len() as int);
    assert(user.take(u.len() as int) =~= u);
    assert(user.skip(u.len() + 1int) =~= g);
    assert(digit(u[0]) && digit(g[0]));
    assert(unsigned_digits(u) == u && unsigned_digits(g) == g);
    assert(all_of(u, |c: char| digit(c)));
    assert(all_of(g, |c: char| digit(c)));
}

/// What a table says under a name is what its first entry of that name says.
pub proof fn a_setting_is_read_under_its_own_name(entries: Seq<Entry>, name: Seq<char>, i: int)
    ensures
        is_entry(entries, name, i) ==> entries[i].0 == name && entry_text(entries, name)
            == entries[i].1,
        entry_text(entries, name) is Some ==> exists|k: int|
            0 <= k < entries.len() && (#[trigger] entries[k]).0 == name && entries[k].1
                == entry_text(entries, name),
{
    if exists|k: int| #[trigger] is_entry(entries, name, k) {
        let k = choose|k: int| #[trigger] is_entry(entries, name, k);
        assert(is_entry(entries, name, k));
        assert(entries[k].0 == name);
        if is_entry(entries, name, i) {
            if i < k {
                assert(entries[i].0 != name);
            } else if k < i {
                assert(entries[k].0 != name);
            }
        }
    }
}

} // verus!
