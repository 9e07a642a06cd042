//! What holds of every container that a step runs in, and of every release that is made.
use vstd::prelude::*;

use crate::binding::{DockerRunnerBinding, TargetDeclaration};
use crate::building::{
    copying, destination_of, input_place, materialization, removing, workspace_of, Labour,
    NamedRunner,
};
use crate::maps::{is_named, value_of, Pair};
use crate::observation::ProcessIdentity;
use crate::paths::below;
use crate::runner::{
    bind_names, identity_of, mount_of, secret_arguments, step_binding, Bound,
    RunnerHost, SecretMountView,
};

verus! {

/// Whether a name is given to a container, as a text or as a secret.
pub open spec fn given(bound: Bound, name: Seq<char>) -> bool {
    is_named(bound.environment, name) || exists|i: int|
        0 <= i < bound.mounts.len() && (#[trigger] bound.mounts[i]).env_name == name
}

proof fn lemma_bound_names(
    runner: DockerRunnerBinding,
    names: Seq<Seq<char>>,
    stamp: Pair,
    host: RunnerHost,
    identity: ProcessIdentity,
)
    requires
        bind_names(runner, names, stamp, host, identity) is Ok,
    ensures
        ({
            let bound = bind_names(runner, names, stamp, host, identity)->Ok_0;
            &&& bound.environment.len() > 0
            &&& bound.environment[0] == stamp
            &&& bound.environment.len() + bound.mounts.len() == names.len() + 1
            &&& forall|i: int|
                0 < i < bound.environment.len() ==> {
                    &&& names.contains((#[trigger] bound.environment[i]).0)
                    &&& bound.environment[i].0 != stamp.0
                    &&& value_of(runner.environment@, bound.environment[i].0) == Some(
                        bound.environment[i].1,
                    )
                }
            &&& forall|i: int|
                0 <= i < bound.mounts.len() ==> {
                    &&& names.contains((#[trigger] bound.mounts[i]).env_name)
                    &&& bound.mounts[i].env_name != stamp.0
                    &&& is_named(runner.secret_files@, bound.mounts[i].env_name)
                }
            &&& forall|j: int| 0 <= j < names.len() ==> given(bound, #[trigger] names[j])
        }),
    decreases names.len(),
{
    if names.len() > 0 {
        let fewer = names.drop_last();
        lemma_bound_names(runner, fewer, stamp, host, identity);
        let before = bind_names(runner, fewer, stamp, host, identity)->Ok_0;
        let bound = bind_names(runner, names, stamp, host, identity)->Ok_0;
        assert(names.contains(names.last())) by {
            assert(names[names.len() - 1] == names.last());
        }
        assert forall|name: Seq<char>| fewer.contains(name) implies names.contains(name) by {
            let j = choose|j: int| 0 <= j < fewer.len() && fewer[j] == name;
            assert(names[j] == name);
        }
        assert forall|i: int| 0 < i < bound.environment.len() implies {
            &&& names.contains((#[trigger] bound.environment[i]).0)
            &&& bound.environment[i].0 != stamp.0
            &&& value_of(runner.environment@, bound.environment[i].0) == Some(
                bound.environment[i].1,
            )
        } by {
            if i < before.environment.len() {
                assert(bound.environment[i] == before.environment[i]);
            }
        }
        assert forall|i: int| 0 <= i < bound.mounts.len() implies {
            &&& names.contains((#[trigger] bound.mounts[i]).env_name)
            &&& bound.mounts[i].env_name != stamp.0
            &&& is_named(runner.secret_files@, bound.mounts[i].env_name)
        } by {
            if i < before.mounts.len() {
                assert(bound.mounts[i] == before.mounts[i]);
            }
        }
        assert forall|j: int| 0 <= j < names.len() implies given(bound, #[trigger] names[j]) by {
            if j < fewer.len() {
                assert(given(before, fewer[j]));
                if is_named(before.environment, fewer[j]) {
                    let i = choose|i: int|
                        0 <= i < before.environment.len() && (#[trigger] before.environment[i]).0
                            == fewer[j];
                    assert(bound.environment[i].0 == names[j]);
                } else {
                    let i = choose|i: int|
                        0 <= i < before.mounts.len() && (#[trigger] before.mounts[i]).env_name
                            == fewer[j];
                    assert(bound.mounts[i].env_name == names[j]);
                }
            } else if is_named(runner.environment@, names[j]) {
                assert(bound.environment.last().0 == names[j]);
                assert(bound.environment[bound.environment.len() - 1].0 == names[j]);
            } else {
                assert(bound.mounts[bound.mounts.len() - 1].env_name == names[j]);
            }
        }
    }
}

/// A container is given the stamp of its source and what its step requires, and nothing
/// else: the stamp comes first and nothing replaces it, each text is the runner's own, each
/// secret is one of the runner's, and every required name is given.
pub proof fn a_container_holds_exactly_what_its_step_requires(
    runner: DockerRunnerBinding,
    required: Seq<Seq<char>>,
    stamp: Pair,
    host: RunnerHost,
)
    requires
        step_binding(runner, required, stamp, host) is Ok,
    ensures
        ({
            let bound = step_binding(runner, required, stamp, host)->Ok_0;
            &&& bound.environment.len() > 0
            &&& bound.environment[0] == stamp
            &&& bound.environment.len() + bound.mounts.len() == required.len() + 1
            &&& forall|i: int|
                0 < i < bound.environment.len() ==> {
                    &&& required.contains((#[trigger] bound.environment[i]).0)
                    &&& bound.environment[i].0 != stamp.0
                    &&& value_of(runner.environment@, bound.environment[i].0) == Some(
                        bound.environment[i].1,
                    )
                }
            &&& forall|i: int|
                0 <= i < bound.mounts.len() ==> {
                    &&& required.contains((#[trigger] bound.mounts[i]).env_name)
                    &&& bound.mounts[i].env_name != stamp.0
                    &&& is_named(runner.secret_files@, bound.mounts[i].env_name)
                }
            &&& forall|j: int| 0 <= j < required.len() ==> given(bound, #[trigger] required[j])
        }),
{
    lemma_bound_names(runner, required, stamp, host, identity_of(runner.user@)->Ok_0);
}

/// No secret is mounted for writing: where a container has its secrets, each of them is
/// followed by a mount that is for reading.
pub proof fn secrets_are_mounted_for_reading(mounts: Seq<SecretMountView>, i: int)
    requires
        secret_arguments(mounts) is Ok,
        0 <= i < mounts.len(),
    ensures
        ({
            let arguments = secret_arguments(mounts)->Ok_0;
            &&& arguments.len() == 4 * mounts.len()
            &&& mount_of(mounts[i].host_path, mounts[i].container_path, true) is Ok
            &&& arguments[4 * i + 3] == mount_of(
                mounts[i].host_path,
                mounts[i].container_path,
                true,
            )->Ok_0
        }),
    decreases mounts.len(),
{
    let fewer = mounts.drop_last();
    if fewer.len() > 0 {
        secrets_are_mounted_for_reading(fewer, 0);
    } else {
        assert(secret_arguments(fewer)->Ok_0.len() == 0);
    }
    if i < fewer.len() {
        secrets_are_mounted_for_reading(fewer, i);
        assert(fewer[i] == mounts[i]);
    }
}

/// A release that is made to its end leaves no workspace behind: the workspace of every
/// runner is removed after all else is done.
pub proof fn no_workspace_is_left_behind(
    staging_root: Seq<char>,
    declaration: TargetDeclaration,
    runners: Seq<NamedRunner>,
    k: int,
)
    requires
        materialization(staging_root, declaration, runners).refusal is None,
        0 <= k < runners.len(),
    ensures
        ({
            let steps = materialization(staging_root, declaration, runners).steps;
            &&& steps.len() >= 2 * runners.len()
            &&& steps[k] == Labour::CopySource(workspace_of(staging_root, runners[k].id@))
            &&& steps[steps.len() - runners.len() + k] == Labour::RemoveWorkspace(
                workspace_of(staging_root, runners[k].id@),
            )
        }),
{
    let steps = materialization(staging_root, declaration, runners).steps;
    assert(copying(staging_root, runners)[k] == steps[k]);
    assert(removing(staging_root, runners)[k] == steps[steps.len() - runners.len() + k]);
}

/// An artifact never leaves the release that it is collected into, and an input never leaves
/// the workspace that it is fetched into.
pub proof fn what_is_placed_stays_within(
    artifact: crate::binding::ArtifactOutput,
    staging_root: Seq<char>,
    workspace: Seq<char>,
    destination: Seq<char>,
)
    ensures
        destination_of(artifact, staging_root, true) matches Ok(place) ==> below(
            place,
            staging_root,
        ),
        input_place(workspace, destination) matches Ok(place) ==> below(place, workspace),
{
}

} // verus!
