use idunn_drivers::authority::{
    authority_lock_path, ensure_activation_credential_root, ensure_route_authority_parent,
    ensure_route_preflight_root, ensure_runner_cache_root, harden_root_authority_file,
    remove_activation_credential_source, resolve_group_id, settle_removal,
    validate_activation_credential_source, validate_new_activation_root,
    validate_root_authority_path, validate_root_owned_file, validate_route_preflight_root,
    validate_runner_secret, validate_service_credential_sources, validate_workload_writable_path,
    DirectoryStep, FileFacts, PathReading, SourceReading,
};
use idunn_drivers::maps::TextMap;
use idunn_drivers::observation::ProcessIdentity;
use idunn_drivers::stores::{
    bundle_ancestors, ensure_bundle_is_reachable_by_workload, ensure_source_directory,
    ensure_source_directory_tree, harden_runtime_bundle, prepare_frozen_source_destination,
    prepare_frozen_transaction_root, publish_projection_mode, remove_frozen_source_destination,
    remove_frozen_transaction_root, ModeChange,
};
use idunn_drivers::text::Refusal;

fn directory(mode: u32) -> FileFacts {
    FileFacts {
        is_dir: true,
        is_file: false,
        is_symlink: false,
        uid: 0,
        gid: 0,
        mode: 0o040000 | mode,
        links: 2,
        len: 0,
    }
}

fn file(mode: u32) -> FileFacts {
    FileFacts {
        is_dir: false,
        is_file: true,
        mode: 0o100000 | mode,
        links: 1,
        len: 6,
        ..directory(0)
    }
}

fn symlink() -> FileFacts {
    FileFacts { is_dir: false, is_file: false, is_symlink: true, links: 1, ..directory(0o777) }
}

fn owned(facts: FileFacts, uid: u32, gid: u32) -> FileFacts {
    FileFacts { uid, gid, ..facts }
}

fn reading(facts: FileFacts, path: &str) -> PathReading {
    PathReading { facts: Ok(facts), canonical: Ok(path.to_owned()) }
}

fn refusal(text: &str) -> Refusal {
    Refusal { text: text.to_owned() }
}

#[test]
fn the_published_projection_is_readable_by_a_workload() {
    assert_eq!(
        publish_projection_mode("/t/topology.cc"),
        vec![
            ModeChange { path: "/t/topology.cc".into(), mode: 0o644 },
            ModeChange { path: "/t/topology.cc.lock".into(), mode: 0o644 },
        ]
    );
}

#[test]
fn an_untraversable_runtime_root_is_refused_rather_than_silently_empty() {
    let bundle = "/t/runtime/sha256-abc";
    assert_eq!(bundle_ancestors(bundle), vec!["/t/runtime", "/t"]);
    let reach = |mode: u32, group: Option<u32>| {
        ensure_bundle_is_reachable_by_workload(
            bundle,
            group,
            &vec![Ok(owned(directory(mode), 0, 7)), Ok(directory(0o755))],
        )
    };
    let error = reach(0o700, None).unwrap_err();
    assert!(error.text.contains("not traversable by the workload"));
    assert!(error.text.starts_with("/t/runtime "));
    assert!(reach(0o711, None).is_ok());
    assert!(reach(0o750, Some(7)).is_ok());
    assert!(reach(0o750, Some(8)).is_err());
}

#[test]
fn service_credential_sources_require_one_root_owned_0400_inode() {
    let judge = |path: &str, found: FileFacts| {
        let sources = TextMap::empty().inserted("SERVICE_TOKEN", path);
        validate_service_credential_sources(
            &sources,
            &vec![SourceReading {
                above: reading(directory(0o700), "/t/credentials"),
                found: reading(found, path),
            }],
        )
    };
    assert!(judge("/t/credentials/token", file(0o400)).is_ok());
    assert!(judge("/t/credentials/token", file(0o600)).is_err());
    assert!(judge("/t/credentials/token", FileFacts { links: 2, ..file(0o400) }).is_err());
    assert!(judge("/t/credentials/token-symlink", symlink()).is_err());
    assert!(judge("/t/credentials/token", owned(file(0o400), 1000, 0)).is_err());
}

#[test]
fn runner_cache_is_created_once_for_one_exact_identity() -> Result<(), Refusal> {
    let identity = ProcessIdentity { uid: 1000, gid: 1000 };
    let above = Ok(directory(0o700));
    assert_eq!(
        ensure_runner_cache_root(true, "/t/cache", &above, &Ok(None), identity)?,
        DirectoryStep::Create
    );
    let made = Ok(Some(owned(directory(0o700), 1000, 1000)));
    assert_eq!(
        ensure_runner_cache_root(true, "/t/cache", &above, &made, identity)?,
        DirectoryStep::Keep
    );
    let other = ProcessIdentity { uid: 1001, gid: 1001 };
    assert_eq!(
        ensure_runner_cache_root(true, "/t/cache", &above, &made, other).unwrap_err().text,
        "runner cache is not a dedicated exact-identity 0700 directory"
    );
    assert_eq!(
        ensure_runner_cache_root(false, "/t/cache", &above, &made, identity).unwrap_err().text,
        "runner cache admission requires root Idunn"
    );
    assert_eq!(
        ensure_runner_cache_root(true, "/t/cache", &Ok(directory(0o777)), &made, identity)
            .unwrap_err()
            .text,
        "runner cache parent is not root-owned and nonwritable"
    );
    Ok(())
}

#[test]
fn runner_secret_is_root_owned_and_bound_to_the_runner_group() {
    let identity = ProcessIdentity { uid: 1000, gid: 1000 };
    let judge = |facts: FileFacts| {
        validate_runner_secret(true, "/t/token", &Ok(directory(0o700)), &Ok(facts), identity)
    };
    assert!(judge(owned(file(0o440), 0, 1000)).is_ok());
    assert!(judge(owned(file(0o444), 0, 1000)).is_err());
    assert!(judge(owned(file(0o440), 0, 1001)).is_err());
}

#[test]
fn an_activation_credential_is_kept_under_one_root_only_directory() -> Result<(), Refusal> {
    let path = "/run/idunn/activation-credentials";
    let above = reading(directory(0o755), "/run/idunn");
    let canonical = Ok(path.to_owned());
    assert_eq!(
        ensure_activation_credential_root(true, path, &above, &Ok(None), &canonical)?,
        DirectoryStep::Create
    );
    assert_eq!(
        ensure_activation_credential_root(true, path, &above, &Ok(Some(directory(0o700))), &canonical)?,
        DirectoryStep::Keep
    );
    let words = |is_root: bool, path: &str, found: FileFacts| {
        ensure_activation_credential_root(is_root, path, &above, &Ok(Some(found)), &canonical)
            .unwrap_err()
            .text
    };
    assert_eq!(
        words(true, path, directory(0o750)),
        "activation credential root is not an exact root-only native directory"
    );
    assert_eq!(
        words(false, path, directory(0o700)),
        "activation credential actuation requires root Idunn"
    );
    assert_eq!(
        words(true, "run", directory(0o700)),
        "activation credential root is not absolute"
    );
    assert!(validate_new_activation_root(&directory(0o700)).is_ok());
    assert!(validate_new_activation_root(&owned(directory(0o700), 1, 0)).is_err());

    let credential = FileFacts { len: 32, ..file(0o400) };
    assert!(validate_activation_credential_source(&credential).is_ok());
    assert!(validate_activation_credential_source(&FileFacts { len: 31, ..credential.clone() }).is_err());
    let source = "/run/idunn/activation-credentials/a";
    let above = Ok(directory(0o700));
    assert!(remove_activation_credential_source(source, &above, &Ok(Some(credential)))?);
    assert!(!remove_activation_credential_source(source, &above, &Ok(None))?);
    assert_eq!(
        remove_activation_credential_source(source, &above, &Ok(Some(symlink()))).unwrap_err().text,
        "refusing to delete a surprising activation credential source"
    );
    assert!(settle_removal(true).is_ok());
    assert_eq!(
        settle_removal(false).unwrap_err().text,
        "activation credential source remained after deletion"
    );
    Ok(())
}

#[test]
fn lease_authority_lies_with_root() -> Result<(), Refusal> {
    assert_eq!(authority_lock_path("/l/lease.cc"), "/l/lease.cc.lock");
    let above = Ok(directory(0o755));
    assert!(validate_root_authority_path(true, "/l/lease.cc", &above, &Ok(None), &Ok(None)).is_ok());
    assert_eq!(
        validate_root_authority_path(false, "/l/lease.cc", &above, &Ok(None), &Ok(None))
            .unwrap_err()
            .text,
        "process write-lease actuation requires root Idunn"
    );
    assert_eq!(
        validate_root_authority_path(true, "/l/lease.cc", &Ok(directory(0o777)), &Ok(None), &Ok(None))
            .unwrap_err()
            .text,
        "write-lease parent is not root-owned and service-nonwritable"
    );
    assert!(validate_root_authority_path(
        true,
        "/l/lease.cc",
        &above,
        &Ok(Some(owned(file(0o640), 1000, 0))),
        &Ok(None)
    )
    .is_err());
    // The record is read by the group of the directory that it lies in.
    assert_eq!(
        harden_root_authority_file(
            "/l/lease.cc",
            &Ok(owned(directory(0o750), 0, 7)),
            &Ok(owned(file(0o600), 0, 7))
        )?,
        0o640
    );
    assert_eq!(
        harden_root_authority_file("/l/lease.cc", &Ok(owned(directory(0o750), 0, 7)), &Ok(file(0o600)))
            .unwrap_err()
            .text,
        "new write-lease authority file has the wrong owner"
    );
    assert!(harden_root_authority_file(
        "/l/lease.cc",
        &Ok(directory(0o750)),
        &Ok(owned(file(0o600), 1, 0))
    )
    .is_err());
    Ok(())
}

#[test]
fn route_authority_is_canonical_and_roots_own() -> Result<(), Refusal> {
    let above = reading(directory(0o755), "/etc/nginx");
    assert_eq!(
        ensure_route_authority_parent(true, "/etc/nginx/routes", false, &above)?,
        DirectoryStep::Create
    );
    assert_eq!(
        ensure_route_authority_parent(true, "/etc/nginx/routes", true, &above)?,
        DirectoryStep::Keep
    );
    assert_eq!(
        ensure_route_authority_parent(false, "/etc/nginx/routes", false, &above).unwrap_err().text,
        "route actuation requires root Idunn"
    );
    assert_eq!(
        ensure_route_authority_parent(true, "routes", false, &above).unwrap_err().text,
        "route authority parent is not absolute"
    );
    let linked = PathReading { facts: Ok(directory(0o755)), canonical: Ok("/real/nginx".into()) };
    assert!(ensure_route_authority_parent(true, "/etc/nginx/routes", false, &linked).is_err());

    assert_eq!(ensure_route_preflight_root("/p/q", false)?, DirectoryStep::Create);
    assert_eq!(
        ensure_route_preflight_root("p", false).unwrap_err().text,
        "route preflight root is not absolute"
    );
    assert!(validate_route_preflight_root(true, "/p/q", &reading(directory(0o700), "/p/q")).is_ok());
    assert_eq!(
        validate_route_preflight_root(true, "/p/q", &reading(directory(0o755), "/p/q"))
            .unwrap_err()
            .text,
        "route preflight root is not one canonical root-only directory"
    );
    assert!(validate_root_owned_file("/r", &reading(file(0o644), "/r"), 0o644).is_ok());
    assert_eq!(
        validate_root_owned_file("/r", &reading(file(0o600), "/r"), 0o644).unwrap_err().text,
        "route authority material is not one canonical root-owned file"
    );
    Ok(())
}

#[test]
fn a_workload_writes_only_what_its_group_may() {
    let judge = |facts: FileFacts, setgid: bool| {
        validate_workload_writable_path("/w", &Ok(facts), 7, setgid)
    };
    assert!(judge(owned(directory(0o2770), 0, 7), true).is_ok());
    assert!(judge(owned(directory(0o770), 0, 7), true).is_err());
    assert!(judge(owned(directory(0o770), 0, 7), false).is_ok());
    assert!(judge(owned(directory(0o772), 0, 7), false).is_err());
    assert!(judge(owned(directory(0o770), 0, 8), false).is_err());
    assert!(judge(owned(file(0o660), 0, 7), false).is_ok());
    assert_eq!(
        judge(owned(file(0o600), 0, 7), false).unwrap_err().text,
        "workload writable file is special or lacks group access"
    );
    assert_eq!(resolve_group_id("state", &Ok(Some(7))).unwrap(), 7);
    assert_eq!(
        resolve_group_id("state", &Ok(None)).unwrap_err().text,
        "configured state group does not exist"
    );
    assert_eq!(
        resolve_group_id("root", &Ok(Some(0))).unwrap_err().text,
        "state group must be unprivileged"
    );
    assert_eq!(
        resolve_group_id("a\0b", &Ok(Some(7))).unwrap_err().text,
        "state group contains a NUL byte"
    );
    assert_eq!(resolve_group_id("state", &Err(refusal("no table"))).unwrap_err().text, "no table");
}

#[test]
fn source_directories_stay_within_their_authority() -> Result<(), Refusal> {
    let own = ProcessIdentity { uid: 0, gid: 0 };
    let identity = Some(ProcessIdentity { uid: 1000, gid: 1000 });
    assert_eq!(
        ensure_source_directory("/c/a", &Ok(None), true, identity, own)?,
        DirectoryStep::Create
    );
    assert_eq!(
        ensure_source_directory("/c/a", &Ok(Some(owned(directory(0o755), 1000, 1000))), true, identity, own)?,
        DirectoryStep::Keep
    );
    assert_eq!(
        ensure_source_directory("/c/a", &Ok(Some(directory(0o755))), true, identity, own)
            .unwrap_err()
            .text,
        "source authority directory /c/a has the wrong owner"
    );
    assert_eq!(ensure_source_directory_tree("/c", "/c/a/b").directories, vec!["/c", "/c/a", "/c/a/b"]);
    assert_eq!(
        ensure_source_directory_tree("/c", "/d").refusal.unwrap().text,
        "source directory escaped Idunn's source authority root"
    );
    Ok(())
}

#[test]
fn frozen_places_are_made_and_removed_by_root_alone() -> Result<(), Refusal> {
    let store = "/frozen";
    let canonical = Ok(store.to_owned());
    assert_eq!(
        prepare_frozen_transaction_root(store, "txn-1", &canonical, &Ok(directory(0o700)))?,
        "/frozen/txn-1"
    );
    assert!(prepare_frozen_transaction_root(store, "../x", &canonical, &Ok(directory(0o700))).is_err());
    assert_eq!(
        prepare_frozen_transaction_root(store, "txn-1", &canonical, &Ok(directory(0o777)))
            .unwrap_err()
            .text,
        "frozen source store is not root-owned and nonwritable"
    );
    assert!(remove_frozen_transaction_root(&Ok(directory(0o700))).is_ok());
    assert_eq!(
        remove_frozen_transaction_root(&Ok(symlink())).unwrap_err().text,
        "frozen source transaction root is not Idunn-owned"
    );
    let above = Ok(directory(0o700));
    assert!(prepare_frozen_source_destination(true, "/t/x/source", &Ok("/t/x".into()), &above).is_ok());
    assert_eq!(
        prepare_frozen_source_destination(false, "/t/x/source", &Ok("/t/x".into()), &above)
            .unwrap_err()
            .text,
        "frozen source materialization requires root Idunn"
    );
    assert_eq!(
        prepare_frozen_source_destination(true, "/t/x/source", &Ok("/real/x".into()), &above)
            .unwrap_err()
            .text,
        "frozen source parent traverses a symlink or noncanonical path"
    );
    assert!(remove_frozen_source_destination("/t/x/source", &above, &Ok(directory(0o555))).is_ok());
    assert_eq!(
        remove_frozen_source_destination("/t/x/source", &above, &Ok(owned(directory(0o555), 5, 0)))
            .unwrap_err()
            .text,
        "existing frozen source is not an Idunn-owned directory"
    );
    Ok(())
}

#[test]
fn a_runtime_bundle_is_opened_for_reading_only() {
    let readings = vec![
        Ok(file(0o600)),
        Ok(file(0o600)),
        Ok(file(0o600)),
        Ok(file(0o600)),
    ];
    let plan = harden_runtime_bundle("/r/b", &Ok(directory(0o700)), &Ok(directory(0o755)), &readings);
    assert!(plan.refusal.is_none());
    let touched: Vec<&str> = plan.changes.iter().map(|change| change.path.as_str()).collect();
    assert!(touched.contains(&"/r/b"));
    assert!(touched.contains(&"/r/b/expected.cc"));
    assert!(touched.contains(&"/r/b/activation.cc.lock"));
    assert!(plan.changes.iter().all(|change| change.mode & 0o022 == 0));
    let foreign = harden_runtime_bundle(
        "/r/b",
        &Ok(owned(directory(0o700), 1000, 0)),
        &Ok(directory(0o755)),
        &readings,
    );
    assert_eq!(foreign.refusal.unwrap().text, "runtime bundle is not a root-owned directory");
}
