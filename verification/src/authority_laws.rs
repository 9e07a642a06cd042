//! What every path that Idunn relies on is: whose it is, who may write it, and that it is the one
//! it seems to be.
use vstd::prelude::*;

use crate::authority::{
    activation_root_refusal, authority_refusal, cache_refusal, group_of, hardening_refusal, lock_of,
    preflight_root_refusal, root_file_refusal, route_parent_refusal, route_parent_step,
    runner_secret_refusal, FileFacts, PathReading,
};
use crate::observation::{
    isolation, IsolationEvidence, ProcessIdentity, SystemdWorkloadObservationView,
    WorkloadObservationView,
};
use crate::paths::{absolute, joined, parent, same_path};
use crate::scan::decimal_number;
use crate::stores::{
    bundle_documents, destination_refusal, owner_refusal, passages_refusal,
    source_directory_refusal, source_removal_refusal, store_refusal, transaction_place,
    transaction_removal_refusal,
};
use crate::text::Refusal;

verus! {

/// Whether a directory is itself one, of root's, and no one else may write it.
pub open spec fn is_roots_to_write(f: FileFacts) -> bool {
    &&& f.is_dir
    &&& !f.is_symlink
    &&& f.uid == 0
    &&& f.mode & 0o022 == 0
}

/// Whether a directory is itself one, of root's, with exactly the given permissions.
pub open spec fn is_roots_own(f: FileFacts, mode: u32) -> bool {
    &&& f.is_dir
    &&& !f.is_symlink
    &&& f.uid == 0
    &&& f.gid == 0
    &&& f.mode & 0o777 == mode
}

/// Whether a path leads where it says, without a link on the way.
pub open spec fn is_canonical(canonical: Result<String, Refusal>, path: Seq<char>) -> bool {
    canonical matches Ok(leads) && same_path(leads@, path)
}

/// The directory above a route is admitted exactly where it is canonical, root's, and for root
/// alone to write; it is created only below such a directory.
pub proof fn the_directory_of_a_route_is_roots(
    is_root: bool,
    path: Seq<char>,
    found: PathReading,
)
    ensures
        route_parent_refusal(path, found) is None <==> {
            &&& found.facts matches Ok(f) && is_roots_to_write(f) && f.gid == 0
            &&& is_canonical(found.canonical, path)
        },
        route_parent_step(is_root, path, true, found) is None <==> is_root && absolute(path),
        route_parent_step(is_root, path, false, found) is None <==> {
            &&& is_root
            &&& absolute(path)
            &&& parent(path) matches Some(above) && is_canonical(found.canonical, above)
            &&& found.facts matches Ok(f) && is_roots_to_write(f)
        },
{
}

/// The directory of rehearsals is admitted exactly where it is canonical and root's alone, and
/// what is put there exactly where it is one canonical file of root's with its own permissions.
pub proof fn what_is_rehearsed_is_roots(
    is_root: bool,
    path: Seq<char>,
    found: PathReading,
    mode: u32,
)
    ensures
        preflight_root_refusal(is_root, path, found) is None <==> {
            &&& is_root
            &&& found.facts matches Ok(f) && is_roots_own(f, 0o700)
            &&& is_canonical(found.canonical, path)
        },
        root_file_refusal(path, found, mode) is None <==> {
            &&& found.facts matches Ok(f) && f.is_file && !f.is_symlink && f.uid == 0 && f.gid == 0
                && f.mode & 0o777 == mode && f.links == 1
            &&& is_canonical(found.canonical, path)
        },
{
}

/// The root of the activation credentials is admitted exactly where its parent is canonical and
/// for root alone to write, and it is itself absent, or canonical and root's alone.
pub proof fn the_root_of_credentials_is_roots_alone(
    is_root: bool,
    path: Seq<char>,
    above: PathReading,
    found: Result<Option<FileFacts>, Refusal>,
    canonical: Result<String, Refusal>,
)
    ensures
        activation_root_refusal(is_root, path, above, found, canonical) is None <==> {
            &&& is_root
            &&& absolute(path)
            &&& parent(path) matches Some(owner) && is_canonical(above.canonical, owner)
            &&& above.facts matches Ok(a) && is_roots_to_write(a)
            &&& found is Ok
            &&& found->Ok_0 matches Some(f) ==> is_roots_own(f, 0o700) && is_canonical(
                canonical,
                path,
            )
        },
{
}

/// Whether a file of a write lease's authority, where it stands, is root's and its directory's
/// group's, and no one else may write it.
pub open spec fn is_lease_file(
    found: Result<Option<FileFacts>, Refusal>,
    above: FileFacts,
) -> bool {
    &&& found is Ok
    &&& found->Ok_0 matches Some(f) ==> {
        &&& f.is_file
        &&& !f.is_symlink
        &&& f.uid == 0
        &&& f.gid == above.gid
        &&& f.mode & 0o022 == 0
    }
}

/// The store of a write lease is admitted exactly where its directory is for root alone to write
/// and both the record and its lock are no one else's to write; a new file of it is hardened
/// only as root's and of the directory's group.
pub proof fn a_write_lease_is_roots_to_write(
    is_root: bool,
    path: Seq<char>,
    above: Result<FileFacts, Refusal>,
    record: Result<Option<FileFacts>, Refusal>,
    lock: Result<Option<FileFacts>, Refusal>,
    made: Result<FileFacts, Refusal>,
)
    ensures
        authority_refusal(is_root, path, above, record, lock) is None <==> {
            &&& is_root
            &&& parent(path) is Some
            &&& above matches Ok(a) && is_roots_to_write(a) && is_lease_file(record, a)
                && is_lease_file(lock, a)
        },
        hardening_refusal(path, above, made) is None <==> {
            &&& parent(path) is Some
            &&& above matches Ok(a) && (made matches Ok(f) && f.is_file && !f.is_symlink && f.uid
                == 0 && f.gid == a.gid)
        },
{
}

/// A runner's cache is admitted exactly where it is absent or its own directory, and a secret of
/// a runner exactly where root has it and the runner's group may read it; both below a directory
/// that root alone may write.
pub proof fn a_runner_has_only_its_own(
    is_root: bool,
    path: Seq<char>,
    above: Result<FileFacts, Refusal>,
    cache: Result<Option<FileFacts>, Refusal>,
    secret: Result<FileFacts, Refusal>,
    identity: ProcessIdentity,
)
    ensures
        cache_refusal(is_root, path, above, cache, identity) is None <==> {
            &&& is_root
            &&& parent(path) is Some
            &&& above matches Ok(a) && is_roots_to_write(a)
            &&& cache is Ok
            &&& cache->Ok_0 matches Some(f) ==> f.is_dir && !f.is_symlink && f.uid == identity.uid
                && f.gid == identity.gid && f.mode & 0o777 == 0o700
        },
        runner_secret_refusal(is_root, path, above, secret, identity) is None <==> {
            &&& is_root
            &&& parent(path) is Some
            &&& above matches Ok(a) && is_roots_to_write(a)
            &&& secret matches Ok(f) && f.is_file && !f.is_symlink && f.uid == 0 && f.gid
                == identity.gid && f.mode & 0o777 == 0o440
        },
{
}

/// A state group is known by its number or by its name, and is never root's.
pub proof fn a_state_group_is_unprivileged(
    group: Seq<char>,
    known: Result<Option<u32>, Refusal>,
)
    ensures
        group_of(group, known) matches Ok(id) ==> id > 0 && (match decimal_number(
            group,
            u32::MAX as int,
        ) {
            Some(n) => id as int == n,
            None => known == Ok::<Option<u32>, Refusal>(Some(id)) && !group.contains('\0'),
        }),
        decimal_number(group, u32::MAX as int) matches Some(n) ==> (group_of(group, known) is Ok
            <==> n > 0),
        decimal_number(group, u32::MAX as int) is None && !group.contains('\0') && (
        known matches Ok(Some(id)) && id > 0) ==> group_of(group, known) is Ok,
{
}

/// A directory of the source cache is admitted exactly where it stands as the source identity's
/// own to write, or can be made in a directory that stands.
pub proof fn a_source_directory_is_its_identitys(
    path: Seq<char>,
    f: FileFacts,
    found: Result<Option<FileFacts>, Refusal>,
    parent_is_directory: bool,
    expected: ProcessIdentity,
)
    ensures
        owner_refusal(path, f, expected) is None <==> f.uid == expected.uid && f.gid
            == expected.gid && f.mode & 0o200 != 0,
        source_directory_refusal(path, found, parent_is_directory, expected) is None <==> (
        match found {
            Err(_) => false,
            Ok(Some(d)) => d.is_dir && !d.is_symlink && d.uid == expected.uid && d.gid
                == expected.gid && d.mode & 0o200 != 0,
            Ok(None) => parent(path) is Some && parent_is_directory,
        }),
{
}

/// The store of frozen sources is admitted exactly where it is absolute, canonical and for root
/// alone to write; a transaction's place is the one in it by the transaction's own name; and what
/// stands there is removed only where it is such a directory too.
pub proof fn a_frozen_store_is_roots_to_write(
    store: Seq<char>,
    transaction_id: Seq<char>,
    canonical: Result<String, Refusal>,
    found: Result<FileFacts, Refusal>,
)
    ensures
        store_refusal(store, canonical, found) is None <==> {
            &&& absolute(store)
            &&& is_canonical(canonical, store)
            &&& found matches Ok(f) && is_roots_to_write(f)
        },
        transaction_place(store, transaction_id, canonical, found) matches Ok(place) ==> {
            &&& place == crate::paths::joined(store, transaction_id)
            &&& store_refusal(store, canonical, found) is None
        },
        transaction_removal_refusal(found) is None <==> (found matches Ok(f) && is_roots_to_write(
            f,
        )),
{
}

/// A frozen source is written only by root, to an absolute place that is not the directory above
/// it, whose directory is canonical and for root alone to write; and what stands there is
/// removed only where both are.
pub proof fn a_frozen_source_is_written_below_roots_own(
    is_root: bool,
    destination: Seq<char>,
    canonical: Result<String, Refusal>,
    above: Result<FileFacts, Refusal>,
    found: Result<FileFacts, Refusal>,
)
    ensures
        destination_refusal(is_root, destination, canonical, above) is None <==> {
            &&& is_root
            &&& absolute(destination)
            &&& parent(destination) matches Some(owner) && !same_path(destination, owner)
                && is_canonical(canonical, owner)
            &&& above matches Ok(a) && is_roots_to_write(a)
        },
        source_removal_refusal(destination, above, found) is None <==> {
            &&& absolute(destination)
            &&& parent(destination) matches Some(owner) && !same_path(destination, owner)
            &&& above matches Ok(a) && is_roots_to_write(a)
            &&& found matches Ok(f) && is_roots_to_write(f)
        },
{
}

/// A runtime bundle can be read by its workload exactly where every directory above it can be
/// passed: by everyone, or by the state group that has it.
pub proof fn a_bundle_can_be_reached(
    paths: Seq<Seq<char>>,
    readings: Seq<Result<FileFacts, Refusal>>,
    state_group_id: Option<u32>,
)
    ensures
        passages_refusal(paths, readings, state_group_id) is None <==> forall|i: int|
            0 <= i < paths.len() ==> (#[trigger] readings[i] matches Ok(f) && (f.mode & 0o001 != 0
                || (state_group_id == Some(f.gid) && f.mode & 0o010 != 0))),
    decreases paths.len(),
{
    if paths.len() > 0 {
        a_bundle_can_be_reached(paths.drop_last(), readings, state_group_id);
        let newest = readings[paths.len() - 1];
    }
}

/// A candidate that is isolated from an incumbent shares neither its user nor a namespace with
/// it, and the evidence tells both as they were observed.
pub proof fn isolated_workloads_share_nothing(
    candidate: SystemdWorkloadObservationView,
    incumbent: SystemdWorkloadObservationView,
)
    ensures
        isolation(
            WorkloadObservationView::Systemd(candidate),
            Some(WorkloadObservationView::Systemd(incumbent)),
        ) matches Ok(evidence) ==> {
            &&& evidence matches IsolationEvidence::Linux(e) && {
                &&& e.candidate_uid == candidate.process_uids[0]
                &&& e.candidate_pid_namespace_id == candidate.pid_namespace_id
                &&& e.candidate_mount_namespace_id == candidate.mount_namespace_id
                &&& e.incumbent_uid == Some(incumbent.process_uids[0])
                &&& e.incumbent_pid_namespace_id == Some(incumbent.pid_namespace_id)
                &&& e.incumbent_mount_namespace_id == Some(incumbent.mount_namespace_id)
                &&& e.incumbent_uid != Some(e.candidate_uid)
                &&& e.incumbent_pid_namespace_id != Some(e.candidate_pid_namespace_id)
                &&& e.incumbent_mount_namespace_id != Some(e.candidate_mount_namespace_id)
                &&& e.candidate_uid > 0
                &&& candidate.dynamic_user && candidate.private_pids && candidate.private_mounts
                &&& incumbent.dynamic_user && incumbent.private_pids && incumbent.private_mounts
            }
        },
{
}

/// A record is locked by a file beside it, and no two records share a lock; and the documents of
/// a bundle are its two records, each with its lock.
pub proof fn a_record_is_locked_by_its_own_file(
    record: Seq<char>,
    other: Seq<char>,
    bundle: Seq<char>,
)
    ensures
        lock_of(record) == record + ".lock"@,
        lock_of(record) == lock_of(other) ==> record == other,
        bundle_documents().len() == 4,
        joined(bundle, bundle_documents()[1]) == lock_of(joined(bundle, bundle_documents()[0])),
        joined(bundle, bundle_documents()[3]) == lock_of(joined(bundle, bundle_documents()[2])),
        joined(bundle, bundle_documents()[0]) == joined(bundle, "expected.cc"@),
        joined(bundle, bundle_documents()[2]) == joined(bundle, "activation.cc"@),
{
    reveal_strlit(".lock");
    reveal_strlit("expected.cc");
    reveal_strlit("expected.cc.lock");
    reveal_strlit("activation.cc");
    reveal_strlit("activation.cc.lock");
    if lock_of(record) == lock_of(other) {
        assert(lock_of(record).take(lock_of(record).len() - 5) =~= record);
        assert(lock_of(other).take(lock_of(other).len() - 5) =~= other);
    }
    assert("expected.cc.lock"@ =~= "expected.cc"@ + ".lock"@);
    assert("activation.cc.lock"@ =~= "activation.cc"@ + ".lock"@);
    assert(joined(bundle, "expected.cc.lock"@) =~= joined(bundle, "expected.cc"@) + ".lock"@);
    assert(joined(bundle, "activation.cc.lock"@) =~= joined(bundle, "activation.cc"@) + ".lock"@);
}

} // verus!
