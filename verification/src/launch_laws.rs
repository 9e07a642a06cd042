//! What a launched workload finds in its environment and its command: what is bound for it,
//! its own runtime bundle, and nothing else.
use vstd::prelude::*;

use crate::binding::{
    arguments_bound, artifact_place, lemma_artifact_destination, ProcessWriteLeaseBinding,
    SystemdWorkloadBinding, TargetDeclaration,
};
use crate::host::{
    bound_arguments, host_command, host_environment, with_files, HostLaunch, StartFindings,
    StartRequest,
};
use crate::binding::{HostWorkloadBinding, LaunchArgument};
use crate::launch::{command_of, environment_of, host_port, with_secrets, LaunchNames};
use crate::maps::{is_named, lemma_value_at, lemma_with_lookup, sorted, value_of, with, Pair};
use crate::paths::{components, joined, lemma_join_name};
use crate::records::ExpectedRouteView;
use crate::route_laws::socket;

verus! {

proof fn lemma_with_sorted(pairs: Seq<Pair>, name: Seq<char>, value: Seq<char>)
    requires
        sorted(pairs),
    ensures
        sorted(with(pairs, name, value)),
{
    crate::maps::lemma_with(pairs, name, value);
}

proof fn lemma_files(
    environment: Seq<Pair>,
    secrets: Seq<Pair>,
    are_files: Seq<bool>,
    name: Seq<char>,
)
    requires
        sorted(environment),
        sorted(secrets),
        with_files(environment, secrets, are_files) is Ok,
    ensures
        ({
            let out = with_files(environment, secrets, are_files)->Ok_0;
            &&& sorted(out)
            &&& is_named(out, name) <==> is_named(environment, name) || is_named(secrets, name)
            &&& !(is_named(environment, name) && is_named(secrets, name))
            &&& is_named(secrets, name) ==> value_of(out, name) == value_of(secrets, name)
            &&& !is_named(secrets, name) ==> value_of(out, name) == value_of(environment, name)
            &&& forall|i: int| 0 <= i < secrets.len() ==> #[trigger] are_files[i]
        }),
    decreases secrets.len(),
{
    if secrets.len() > 0 {
        let fewer = secrets.drop_last();
        let last = secrets.last();
        assert(sorted(fewer)) by {
            assert forall|i: int, j: int| 0 <= i < j < fewer.len() implies crate::scan::before(
                (#[trigger] fewer[i]).0,
                (#[trigger] fewer[j]).0,
            ) by {
                assert(fewer[i] == secrets[i] && fewer[j] == secrets[j]);
            }
        }
        lemma_files(environment, fewer, are_files, name);
        let earlier = with_files(environment, fewer, are_files)->Ok_0;
        lemma_with_lookup(earlier, last.0, last.1, name);
        lemma_with_sorted(earlier, last.0, last.1);
        lemma_value_at(secrets, secrets.len() - 1);
        if is_named(fewer, name) {
            let k = choose|k: int| 0 <= k < fewer.len() && (#[trigger] fewer[k]).0 == name;
            assert(secrets[k].0 == name);
            lemma_value_at(fewer, k);
            lemma_value_at(secrets, k);
        }
        if is_named(secrets, name) && name != last.0 {
            let k = choose|k: int| 0 <= k < secrets.len() && (#[trigger] secrets[k]).0 == name;
            assert(fewer[k].0 == name);
        }
        assert(secrets[secrets.len() - 1].0 == last.0);
        assert forall|i: int| 0 <= i < secrets.len() implies #[trigger] are_files[i] by {
            if i < fewer.len() {
                assert(are_files[i]);
            }
        }
    }
}

/// Where a start on a host is admitted, the workload is told its own runtime bundle: under the
/// bundle's name its environment has the path at which the launch's files were found prepared,
/// which is named by the instance and stands under the runtime root; and under the credential's
/// name a file directly within that bundle.
pub proof fn a_started_workload_is_told_its_own_bundle(
    request: StartRequest,
    found: StartFindings,
    names: LaunchNames,
    launch: HostLaunch,
)
    requires
        request.refusal(found, names) is None,
        request.launches(launch, found, names),
        sorted(request.workload.environment@),
        sorted(request.workload.secret_files@),
    ensures
        ({
            let environment = launch.environment@;
            let told = value_of(environment, names.runtime_bundle@);
            let credential = value_of(environment, names.activation_credential@);
            &&& found.bundle.expected && found.bundle.activation && found.bundle.credential
            &&& told == Some(launch.bundle@)
            &&& launch.bundle@ == joined(
                request.workload.runtime_root@,
                request.activation@.runtime_instance_id,
            )
            &&& credential == Some(joined(launch.bundle@, "activation-credential"@))
            &&& launch.bundle@.len() > 0 ==> components(credential->0) == components(
                told->0,
            ).push("activation-credential"@)
        }),
{
    let workload = request.workload;
    let bundle = launch.bundle@;
    let are_files = found.secrets_are_files@;
    lemma_files(workload.environment@, workload.secret_files@, are_files, names.runtime_bundle@);
    let base = with_files(workload.environment@, workload.secret_files@, are_files)->Ok_0;
    let more = with(base, names.runtime_bundle@, bundle);
    let file = joined(bundle, "activation-credential"@);
    lemma_with_lookup(base, names.runtime_bundle@, bundle, names.activation_credential@);
    lemma_with_sorted(base, names.runtime_bundle@, bundle);
    lemma_with_lookup(more, names.activation_credential@, file, names.runtime_bundle@);
    reveal_strlit("activation-credential");
    lemma_join_name(bundle, "activation-credential"@);
}

/// The environment of a workload on a host holds what is bound for it and the two names of its
/// bundle, and nothing else: each secret by its own path, which was found to be a file, and each
/// binding of the operator as it was bound. None of them takes the place of another.
pub proof fn a_host_environment_holds_what_is_bound(
    workload: HostWorkloadBinding,
    bundle: Seq<char>,
    are_files: Seq<bool>,
    names: LaunchNames,
    name: Seq<char>,
)
    requires
        host_environment(workload, bundle, are_files, names) is Ok,
        sorted(workload.environment@),
        sorted(workload.secret_files@),
    ensures
        ({
            let environment = host_environment(workload, bundle, are_files, names)->Ok_0;
            &&& is_named(environment, name) <==> {
                ||| name == names.runtime_bundle@
                ||| name == names.activation_credential@
                ||| is_named(workload.secret_files@, name)
                ||| is_named(workload.environment@, name)
            }
            &&& is_named(workload.secret_files@, name) ==> value_of(environment, name) == value_of(
                workload.secret_files@,
                name,
            )
            &&& is_named(workload.environment@, name) ==> value_of(environment, name) == value_of(
                workload.environment@,
                name,
            )
            &&& value_of(environment, names.runtime_bundle@) == Some(bundle)
            &&& forall|i: int|
                0 <= i < workload.secret_files@.len() ==> #[trigger] are_files[i]
        }),
{
    lemma_files(workload.environment@, workload.secret_files@, are_files, name);
    lemma_files(workload.environment@, workload.secret_files@, are_files, names.runtime_bundle@);
    lemma_files(
        workload.environment@,
        workload.secret_files@,
        are_files,
        names.activation_credential@,
    );
    let base = with_files(workload.environment@, workload.secret_files@, are_files)->Ok_0;
    let more = with(base, names.runtime_bundle@, bundle);
    let file = joined(bundle, "activation-credential"@);
    lemma_with_lookup(base, names.runtime_bundle@, bundle, name);
    lemma_with_lookup(base, names.runtime_bundle@, bundle, names.activation_credential@);
    lemma_with_sorted(base, names.runtime_bundle@, bundle);
    lemma_with_lookup(more, names.activation_credential@, file, name);
    lemma_with_lookup(more, names.activation_credential@, file, names.runtime_bundle@);
}

proof fn lemma_secrets(
    environment: Seq<Pair>,
    secrets: Seq<Pair>,
    directory: Seq<char>,
    presence: Seq<char>,
    name: Seq<char>,
)
    requires
        sorted(environment),
        with_secrets(environment, secrets, directory, presence) is Ok,
    ensures
        ({
            let out = with_secrets(environment, secrets, directory, presence)->Ok_0;
            let delivered = is_named(secrets, name) && name != presence;
            &&& sorted(out)
            &&& is_named(out, name) <==> is_named(environment, name) || delivered
            &&& !(is_named(environment, name) && delivered)
            &&& delivered ==> value_of(out, name) == Some(joined(directory, name))
            &&& !delivered ==> value_of(out, name) == value_of(environment, name)
        }),
    decreases secrets.len(),
{
    if secrets.len() > 0 {
        let fewer = secrets.drop_last();
        let last = secrets.last().0;
        lemma_secrets(environment, fewer, directory, presence, name);
        let earlier = with_secrets(environment, fewer, directory, presence)->Ok_0;
        if last != presence {
            lemma_with_lookup(earlier, last, joined(directory, last), name);
            lemma_with_sorted(earlier, last, joined(directory, last));
        }
        if is_named(fewer, name) {
            let k = choose|k: int| 0 <= k < fewer.len() && (#[trigger] fewer[k]).0 == name;
            assert(secrets[k].0 == name);
        }
        if is_named(secrets, name) && name != last {
            let k = choose|k: int| 0 <= k < secrets.len() && (#[trigger] secrets[k]).0 == name;
            assert(fewer[k].0 == name);
        }
        assert(secrets[secrets.len() - 1].0 == last);
    }
}

/// The environment of a launched unit: under the bundle's name its own runtime bundle; under
/// the name of each secret, but for the identity of its presence, the file that systemd delivers
/// to the unit; the bind of its candidate exactly where it is routed; the record of its write
/// lease exactly where it has one; each binding of the operator as it was bound; and no other
/// name.
pub proof fn a_unit_environment_holds_what_is_bound(
    binding: SystemdWorkloadBinding,
    write_lease: Option<ProcessWriteLeaseBinding>,
    bundle: Seq<char>,
    route: Option<ExpectedRouteView>,
    unit: Seq<char>,
    names: LaunchNames,
    name: Seq<char>,
)
    requires
        environment_of(binding, write_lease, bundle, route, unit, names) is Ok,
        sorted(binding.environment@),
        names.candidate_bind@ != names.process_write_lease@,
    ensures
        ({
            let environment = environment_of(
                binding,
                write_lease,
                bundle,
                route,
                unit,
                names,
            )->Ok_0;
            let delivered = is_named(binding.secret_files@, name) && name
                != names.presence_identity_binding@;
            &&& value_of(environment, names.runtime_bundle@) == Some(bundle)
            &&& value_of(environment, names.candidate_bind@) == (match route {
                Some(r) => Some(
                    socket(host_port(r.candidate_endpoint, r.transport + "://"@)->Ok_0),
                ),
                None => None,
            })
            &&& value_of(environment, names.process_write_lease@) == (match write_lease {
                Some(lease) => Some(lease.record_path@),
                None => None,
            })
            &&& delivered ==> value_of(environment, name) == Some(
                joined(joined("/run/credentials"@, unit), name),
            )
            &&& is_named(binding.environment@, name) ==> value_of(environment, name) == value_of(
                binding.environment@,
                name,
            )
            &&& is_named(environment, name) <==> {
                ||| name == names.runtime_bundle@
                ||| route is Some && name == names.candidate_bind@
                ||| write_lease is Some && name == names.process_write_lease@
                ||| delivered
                ||| is_named(binding.environment@, name)
            }
        }),
{
    let directory = joined("/run/credentials"@, unit);
    let presence = names.presence_identity_binding@;
    let b = names.runtime_bundle@;
    let c = names.candidate_bind@;
    let l = names.process_write_lease@;
    lemma_secrets(binding.environment@, binding.secret_files@, directory, presence, name);
    lemma_secrets(binding.environment@, binding.secret_files@, directory, presence, b);
    lemma_secrets(binding.environment@, binding.secret_files@, directory, presence, c);
    lemma_secrets(binding.environment@, binding.secret_files@, directory, presence, l);
    let first = with_secrets(
        binding.environment@,
        binding.secret_files@,
        directory,
        presence,
    )->Ok_0;
    let base = with(first, b, bundle);
    lemma_with_sorted(first, b, bundle);
    lemma_with_lookup(first, b, bundle, name);
    lemma_with_lookup(first, b, bundle, c);
    lemma_with_lookup(first, b, bundle, l);
    let routed = match route {
        Some(r) => {
            let bind = socket(host_port(r.candidate_endpoint, r.transport + "://"@)->Ok_0);
            with(base, c, bind)
        },
        None => base,
    };
    if let Some(r) = route {
        let bind = socket(host_port(r.candidate_endpoint, r.transport + "://"@)->Ok_0);
        lemma_with_sorted(base, c, bind);
        lemma_with_lookup(base, c, bind, name);
        lemma_with_lookup(base, c, bind, b);
        lemma_with_lookup(base, c, bind, l);
    }
    if let Some(lease) = write_lease {
        lemma_with_lookup(routed, l, lease.record_path@, name);
        lemma_with_lookup(routed, l, lease.record_path@, b);
        lemma_with_lookup(routed, l, lease.record_path@, c);
    }
}

/// Whether a text is the one of an argument: what it says itself, or what its name is bound to.
pub open spec fn says(argument: LaunchArgument, bindings: Seq<Pair>, text: Seq<char>) -> bool {
    match argument {
        LaunchArgument::Literal { value } => text == value@,
        LaunchArgument::Binding { name } => value_of(bindings, name@) == Some(text),
    }
}

/// The command of a launched unit is the declared executable, within what is installed, and as
/// many arguments as are declared, each in its place.
pub proof fn a_unit_command_is_the_declared_one(
    declaration: TargetDeclaration,
    bindings: Seq<Pair>,
    installed: Seq<char>,
    k: int,
    i: int,
)
    requires
        arguments_bound(declaration.service.arguments@, bindings),
        artifact_place(declaration.artifacts@, declaration.service.executable_artifact@, k),
    ensures
        command_of(declaration, bindings, installed, false) is Err,
        command_of(declaration, bindings, installed, true) matches Ok(command) && {
            &&& command.len() == declaration.service.arguments@.len() + 1
            &&& command[0] == joined(installed, declaration.artifacts@[k].destination@)
            &&& 0 <= i < declaration.service.arguments@.len() ==> says(
                declaration.service.arguments@[i],
                bindings,
                command[i + 1],
            )
        },
{
    lemma_artifact_destination(
        declaration.artifacts@,
        declaration.service.executable_artifact@,
        k,
    );
    let arguments = declaration.service.arguments@;
    if 0 <= i < arguments.len() {
        let argument = arguments[i];
        assert(argument matches LaunchArgument::Binding { name } ==> is_named(bindings, name@));
    }
}

proof fn lemma_bound(arguments: Seq<LaunchArgument>, bindings: Seq<Pair>)
    ensures
        bound_arguments(arguments, bindings) is Ok <==> arguments_bound(arguments, bindings),
        bound_arguments(arguments, bindings) matches Ok(list) ==> {
            &&& list.len() == arguments.len()
            &&& forall|i: int|
                0 <= i < arguments.len() ==> says(arguments[i], bindings, #[trigger] list[i])
        },
    decreases arguments.len(),
{
    if arguments.len() > 0 {
        let fewer = arguments.drop_last();
        lemma_bound(fewer, bindings);
        if arguments_bound(arguments, bindings) {
            assert forall|i: int| 0 <= i < fewer.len() implies (
            #[trigger] fewer[i] matches LaunchArgument::Binding { name } ==> is_named(
                bindings,
                name@,
            )) by {
                assert(fewer[i] == arguments[i]);
            }
            assert(arguments[arguments.len() - 1] == arguments.last());
        }
        if bound_arguments(arguments, bindings) is Ok {
            assert forall|i: int| 0 <= i < arguments.len() implies (
            #[trigger] arguments[i] matches LaunchArgument::Binding { name } ==> is_named(
                bindings,
                name@,
            )) by {
                if i < fewer.len() {
                    assert(fewer[i] == arguments[i]);
                }
            }
            let list = bound_arguments(arguments, bindings)->Ok_0;
            let earlier = bound_arguments(fewer, bindings)->Ok_0;
            assert forall|i: int| 0 <= i < arguments.len() implies says(
                arguments[i],
                bindings,
                #[trigger] list[i],
            ) by {
                if i < fewer.len() {
                    assert(fewer[i] == arguments[i]);
                    assert(list[i] == earlier[i]);
                }
            }
        }
    }
}

/// The command of a workload on a host is the declared executable, within what is installed, and
/// as many arguments as are declared, each in its place; it is had wherever the executable is a
/// file and every argument is bound.
pub proof fn a_host_command_is_the_declared_one(
    declaration: TargetDeclaration,
    workload: HostWorkloadBinding,
    installed: Seq<char>,
    k: int,
    i: int,
)
    requires
        artifact_place(declaration.artifacts@, declaration.service.executable_artifact@, k),
    ensures
        host_command(declaration, workload, installed, false) is Err,
        host_command(declaration, workload, installed, true) is Ok <==> arguments_bound(
            declaration.service.arguments@,
            workload.argument_bindings@,
        ),
        host_command(declaration, workload, installed, true) matches Ok(command) ==> {
            &&& command.0 == joined(installed, declaration.artifacts@[k].destination@)
            &&& command.1.len() == declaration.service.arguments@.len()
            &&& 0 <= i < declaration.service.arguments@.len() ==> says(
                declaration.service.arguments@[i],
                workload.argument_bindings@,
                command.1[i],
            )
        },
{
    lemma_artifact_destination(
        declaration.artifacts@,
        declaration.service.executable_artifact@,
        k,
    );
    lemma_bound(declaration.service.arguments@, workload.argument_bindings@);
}

} // verus!
