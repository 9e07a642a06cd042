use idunn_drivers::authority::FileFacts;
use idunn_drivers::binding::{GitlinkBinding, RepositoryBinding, SourceSelectionPolicy};
use idunn_drivers::digest::sha256_id;
use idunn_drivers::freeze::{make_directories, materialize_tree_raw, FreezeStep};
use idunn_drivers::freeze_order::FreezeTask;
use idunn_drivers::gittree::{admit_tree_path, git_tree_entries, normalized_relative, GitTreeEntry};
use idunn_drivers::links::{
    resolve_frozen_source_symlink, CanonicalPath, EntryKind, EntryReading, KnownFiles,
    LinkQuestion, LinkTarget, Resolution,
};
use idunn_drivers::materialize::{
    admit_new_directory, batch_header, batch_trailer, content_plan, ensure_frozen_directory,
    is_lfs_pointer, link_paths, link_target, object_order, object_requests, pointer_paths,
    tree_directories, ContentStep,
};
use idunn_drivers::observation::ProcessIdentity;
use idunn_drivers::selection::{
    admit_gitlink_tree, admit_recipe, admitted_ref_name, exact_recipe_and_gitlinks,
    exact_source_from, gitlink_facts,
    recipe_object, resolve_selected_revision, verify_exact_source, GitlinkTreeFact,
    SourceSelection,
};
use idunn_drivers::source::{
    ancestor_arguments, fetch_arguments, git_text, judge_arguments, materialize_gitlink_raw,
    settle_git, FrozenSourceReceipt,
    GitSourceDriver, ResolvedSource, SourceSelectionFacts,
};
use idunn_drivers::stream::{
    settle_bulk_fetch, settle_stream, stream_blobs, BlobReader, StreamPlace, StreamWant,
};
use idunn_drivers::text::Refusal;

fn digest(byte: char) -> String {
    format!("sha256-{}", byte.to_string().repeat(64))
}

fn sha(byte: char) -> String {
    byte.to_string().repeat(40)
}

fn refusal(text: &str) -> Refusal {
    Refusal { text: text.to_owned() }
}

fn listing(records: &[(&str, &str, &str, &str)]) -> Vec<u8> {
    let mut bytes = Vec::new();
    for (mode, kind, object, path) in records {
        bytes.extend_from_slice(format!("{mode} {kind} {object}\t{path}\0").as_bytes());
    }
    bytes
}

fn entry(mode: &str, kind: &str, object: &str, path: &str) -> GitTreeEntry {
    GitTreeEntry {
        mode: mode.into(),
        kind: kind.into(),
        object: object.into(),
        path: path.into(),
    }
}

#[test]
fn a_tree_is_read_record_by_record_and_in_order() -> Result<(), Refusal> {
    let (a, b) = (sha('a'), sha('b'));
    let entries = git_tree_entries(&listing(&[
        ("100644", "blob", &a, "src/main.rs"),
        ("100755", "blob", &b, "build.sh"),
    ]))?;
    assert_eq!(entries[0], entry("100755", "blob", &b, "build.sh"));
    assert_eq!(entries[1], entry("100644", "blob", &a, "src/main.rs"));
    let words = |records: &[(&str, &str, &str, &str)]| {
        git_tree_entries(&listing(records)).unwrap_err().text
    };
    assert_eq!(
        words(&[("100644", "blob", &a, "../out")]),
        "runner path escapes its workspace"
    );
    assert_eq!(
        words(&[("100644", "blob", &a, "a/./b")]),
        "Git tree path is not normalized"
    );
    assert_eq!(
        words(&[("100644", "blob", &a, "a/.git/config")]),
        "Git tree contains forbidden .git metadata"
    );
    assert!(words(&[("100644", "blob", "short", "a")]).contains("Git tree object"));
    assert!(git_tree_entries(b"100644 blob\0").is_err());
    assert!(git_tree_entries(&[0xff, b'\t', b'a', 0]).is_err());
    Ok(())
}

#[test]
fn a_tree_that_emits_a_path_twice_is_refused() {
    let twice = listing(&[
        ("100644", "blob", &sha('a'), "f"),
        ("100644", "blob", &sha('b'), "f"),
    ]);
    assert_eq!(git_tree_entries(&twice).unwrap_err().text, "Git tree emits a path twice");
}

#[test]
fn nothing_is_written_through_a_link_that_shares_a_directorys_name() -> Result<(), Refusal> {
    let entries = git_tree_entries(&listing(&[
        ("120000", "blob", &sha('a'), "a"),
        ("100644", "blob", &sha('b'), "a/pwn"),
        ("100644", "blob", &sha('c'), "deployment.toml"),
    ]))?;
    let plan = tree_directories("/frozen", &entries);
    assert!(plan.directories.contains(&"/frozen/a".to_owned()));
    assert_eq!(
        link_target(&b"../outside".to_vec(), "/frozen/a", true).unwrap_err().text,
        "frozen source writer refuses to overwrite an existing entry at /frozen/a"
    );
    Ok(())
}

#[test]
fn paths_that_differ_only_by_case_are_two() -> Result<(), Refusal> {
    let entries = git_tree_entries(&listing(&[
        ("100644", "blob", &sha('a'), "README"),
        ("100644", "blob", &sha('b'), "readme"),
    ]))?;
    assert_eq!(entries.len(), 2);
    Ok(())
}

#[test]
fn tree_paths_are_plain_and_relative() {
    assert_eq!(normalized_relative("./a//b/").unwrap(), "a/b");
    assert_eq!(normalized_relative(".").unwrap(), "");
    assert_eq!(normalized_relative("/a").unwrap_err().text, "runner path is not relative");
    assert_eq!(normalized_relative("a/../b").unwrap_err().text, "runner path escapes its workspace");
    assert!(admit_tree_path("a/b").is_ok());
    assert!(admit_tree_path("a/.git").is_err());
}

fn directory() -> FileFacts {
    FileFacts {
        is_dir: true,
        is_file: false,
        is_symlink: false,
        uid: 0,
        gid: 0,
        mode: 0o040755,
        links: 2,
        len: 0,
    }
}

#[test]
fn ensure_frozen_directory_refuses_an_existing_entry_it_did_not_create() -> Result<(), Refusal> {
    let made = vec!["/root".to_owned()];
    assert_eq!(
        ensure_frozen_directory("/root", &made, "/root/foreign")?,
        vec!["/root/foreign"]
    );
    assert_eq!(
        admit_new_directory("/root/foreign", &Ok(Some(directory()))).unwrap_err().text,
        "frozen source writer refuses to write through an existing directory this freeze did not create at /root/foreign"
    );
    let link = FileFacts { is_dir: false, is_symlink: true, ..directory() };
    assert_eq!(
        admit_new_directory("/root/link", &Ok(Some(link))).unwrap_err().text,
        "frozen source writer refuses to write through an existing symlink at /root/link"
    );
    assert!(admit_new_directory("/root/fresh", &Ok(None)).is_ok());
    let remembered = vec!["/root".to_owned(), "/root/fresh".to_owned()];
    assert!(ensure_frozen_directory("/root", &remembered, "/root/fresh")?.is_empty());
    Ok(())
}

#[test]
fn ensure_frozen_directory_refuses_a_path_outside_its_root() {
    let made = vec!["/t/root".to_owned()];
    let result = ensure_frozen_directory("/t/root", &made, "/t/outside-dir");
    assert_eq!(
        result.unwrap_err().text,
        "frozen source path /t/outside-dir escapes its root"
    );
}

#[test]
fn ensure_frozen_directory_does_not_silently_reuse_a_directory_it_did_not_track() -> Result<(), Refusal> {
    let made = vec!["/root".to_owned()];
    assert_eq!(ensure_frozen_directory("/root", &made, "/root/fresh")?, vec!["/root/fresh"]);
    // Another pass, which did not make it, is told to make it again and finds it there.
    assert_eq!(ensure_frozen_directory("/root", &made, "/root/fresh")?, vec!["/root/fresh"]);
    assert!(admit_new_directory("/root/fresh", &Ok(Some(directory()))).is_err());
    Ok(())
}

#[test]
fn every_directory_of_a_tree_is_made_once() -> Result<(), Refusal> {
    let entries = vec![
        entry("100644", "blob", &sha('a'), "a/b/one"),
        entry("100644", "blob", &sha('b'), "a/b/two"),
        entry("160000", "commit", &sha('c'), "sub"),
    ];
    let plan = tree_directories("/f", &entries);
    assert!(plan.refusal.is_none());
    assert_eq!(plan.directories, vec!["/f/a/b", "/f/a/b", "/f/sub"]);
    let mut made = vec!["/f".to_owned()];
    for directory in &plan.directories {
        let missing = ensure_frozen_directory("/f", &made, directory)?;
        made.extend(missing);
    }
    assert_eq!(made, vec!["/f", "/f/a", "/f/a/b", "/f/sub"]);
    let odd = vec![entry("040000", "tree", &sha('a'), "x")];
    assert_eq!(
        tree_directories("/f", &odd).refusal.unwrap().text,
        "frozen source tree entry x has an unsupported mode 040000"
    );
    Ok(())
}

#[test]
fn every_object_is_asked_for_once() {
    let entries = vec![
        entry("100644", "blob", &sha('b'), "one"),
        entry("100644", "blob", &sha('a'), "two"),
        entry("100755", "blob", &sha('b'), "three"),
        entry("160000", "commit", &sha('c'), "sub"),
    ];
    let objects = object_order(&entries);
    assert_eq!(objects, vec![sha('b'), sha('a')]);
    assert_eq!(object_requests(&objects), format!("{}\n{}\n", sha('b'), sha('a')).into_bytes());
}

#[test]
fn batched_objects_answer_in_the_order_they_are_asked() {
    let a = sha('a');
    assert_eq!(batch_header(format!("{a} blob 12\n").as_bytes(), &a).unwrap(), 12);
    let words = |header: &str| batch_header(header.as_bytes(), &a).unwrap_err().text;
    assert_eq!(
        words(&format!("{} blob 12\n", sha('b'))),
        "Git cat-file --batch answered objects out of the requested order"
    );
    assert_eq!(words(&format!("{a} missing\n")), format!("Git object {a} is missing from the repository"));
    assert_eq!(words(&format!("{a} blob x\n")), "Git cat-file --batch size is not a number");
    assert_eq!(words(&format!("{a} blob 1 2\n")), "Git cat-file --batch header has extra fields");
    assert_eq!(words(""), "Git cat-file --batch closed before answering every object");
    assert!(batch_trailer(b'\n').is_ok());
    assert_eq!(
        batch_trailer(b'x').unwrap_err().text,
        "Git cat-file --batch object content ran past its declared size"
    );
}

#[test]
fn a_pointer_file_is_told_by_its_first_line() {
    let pointer = b"version https://git-lfs.github.com/spec/v1\noid sha256:0000000000000000000000000000000000000000000000000000000000000000\nsize 3\n";
    assert!(is_lfs_pointer(pointer));
    assert!(!is_lfs_pointer(b"target = 'test'\n"));
    let entries = vec![
        entry("100644", "blob", &sha('a'), "lfs.bin"),
        entry("100644", "blob", &sha('b'), "deployment.toml"),
    ];
    let plan = content_plan("/f", &entries, &sha('a'));
    assert_eq!(pointer_paths(&plan.steps, true), vec!["lfs.bin"]);
    assert!(pointer_paths(&plan.steps, false).is_empty());
}

#[test]
fn content_goes_where_the_tree_has_it() {
    let object = sha('a');
    let entries = vec![
        entry("100644", "blob", &object, "plain"),
        entry("100755", "blob", &object, "run"),
        entry("120000", "blob", &object, "link"),
        entry("100644", "blob", &sha('b'), "other"),
    ];
    let plan = content_plan("/f", &entries, &object);
    assert!(plan.refusal.is_none());
    assert_eq!(
        plan.steps,
        vec![
            ContentStep::Write { path: "plain".into(), place: "/f/plain".into(), mode: 0o644 },
            ContentStep::CopyFirst { path: "run".into(), place: "/f/run".into(), mode: 0o755 },
            ContentStep::Remember { path: "link".into() },
        ]
    );
    assert_eq!(link_paths(&entries), vec!["link"]);
    assert_eq!(link_target(&b"plain".to_vec(), "/f/link", false).unwrap(), "plain");
    assert!(link_target(&vec![0xff], "/f/link", false).is_err());
}

/// A tree of files in memory: links by their target, and everything that is there.
struct Files {
    links: Vec<(&'static str, &'static str)>,
    present: Vec<&'static str>,
}

impl Files {
    fn canonical(&self, path: &str) -> Result<String, Refusal> {
        if self.present.contains(&path) {
            Ok(path.to_owned())
        } else {
            Err(refusal("not found"))
        }
    }

    fn lead(&self, root: &str, path: &str) -> Resolution {
        let mut known = KnownFiles { targets: Vec::new(), canonicals: Vec::new(), entries: Vec::new() };
        for _ in 0..500 {
            match resolve_frozen_source_symlink(root, path, 0, &known) {
                Resolution::Needs { question: LinkQuestion::Target { path } } => {
                    let target = self
                        .links
                        .iter()
                        .find(|(link, _)| *link == path)
                        .map(|(_, target)| target.to_string())
                        .ok_or(refusal("no link"));
                    known.targets.push(LinkTarget { path, target });
                }
                Resolution::Needs { question: LinkQuestion::Canonical { path } } => {
                    let canonical = self.canonical(&path);
                    known.canonicals.push(CanonicalPath { path, canonical });
                }
                Resolution::Needs { question: LinkQuestion::Kind { path } } => {
                    let kind = if self.links.iter().any(|(link, _)| *link == path) {
                        EntryKind::Link
                    } else if self.present.contains(&path.as_str()) {
                        EntryKind::Present
                    } else {
                        EntryKind::Missing
                    };
                    known.entries.push(EntryReading { path, kind: Ok(kind) });
                }
                settled => return settled,
            }
        }
        panic!("a way through files ends");
    }
}

#[test]
fn an_absolute_or_escaping_link_is_refused() {
    let files = Files {
        links: vec![("/r/l", "/etc/passwd"), ("/r/d/l", "../../../outside-the-root")],
        present: vec!["/r", "/r/d"],
    };
    assert_eq!(
        files.lead("/r", "/r/l"),
        Resolution::Refused { refusal: refusal("frozen source symlink is absolute") }
    );
    assert_eq!(
        files.lead("/r", "/r/d/l"),
        Resolution::Refused { refusal: refusal("frozen source symlink escapes its root") }
    );
}

#[test]
fn a_chain_through_a_self_referential_directory_escapes() {
    let files = Files {
        links: vec![
            ("/r/D", "."),
            ("/r/L", "D/D/D/D/D/D/D/D/D/D/D/D/../../../../../../../../../../../../etc/passwd"),
        ],
        present: vec!["/r"],
    };
    assert_eq!(
        files.lead("/r", "/r/L"),
        Resolution::Refused { refusal: refusal("frozen source symlink escapes its root") }
    );
}

#[test]
fn a_dangling_link_that_stays_inside_is_accepted() {
    let files = Files {
        links: vec![("/r/d/l", "../nowhere/at/all"), ("/r/m", "d")],
        present: vec!["/r", "/r/d"],
    };
    assert_eq!(
        files.lead("/r", "/r/d/l"),
        Resolution::At { path: "/r/nowhere/at/all".into() }
    );
    assert_eq!(files.lead("/r", "/r/m"), Resolution::At { path: "/r/d".into() });
}

#[test]
fn a_link_into_the_partial_name_is_refused() {
    let files = Files {
        links: vec![("/store/tx/snapshot/pl", "../.partial/deployment.toml")],
        present: vec!["/store", "/store/tx", "/store/tx/snapshot"],
    };
    assert_eq!(
        files.lead("/store/tx/snapshot", "/store/tx/snapshot/pl"),
        Resolution::Refused { refusal: refusal("frozen source symlink escapes its root") }
    );
}

#[test]
fn a_link_that_leads_to_itself_ends() {
    let files = Files { links: vec![("/r/l", "l")], present: vec!["/r"] };
    assert_eq!(
        files.lead("/r", "/r/l"),
        Resolution::Refused { refusal: refusal("frozen source symlink chain exceeds the hop limit") }
    );
}

fn repository() -> RepositoryBinding {
    RepositoryBinding {
        origin: "https://example.invalid/service".into(),
        checkout: "/cache/checkout".into(),
        gitlinks: vec![GitlinkBinding { path: "sub".into(), origin: "https://example.invalid/sub".into() }],
        recipe_path: "deployment.toml".into(),
        admitted_ref: "refs/heads/main".into(),
        selection: SourceSelectionPolicy::RefHead,
        pinned_revision: None,
        minimum_revision: sha('1'),
    }
}

fn entries() -> Vec<GitTreeEntry> {
    vec![
        entry("100644", "blob", &sha('4'), "deployment.toml"),
        entry("160000", "commit", &sha('5'), "sub"),
    ]
}

#[test]
fn a_selection_is_the_ref_or_the_pin() {
    assert_eq!(
        resolve_selected_revision(&repository(), &sha('3')).unwrap(),
        (sha('3'), SourceSelection::RefHead)
    );
    let pinned = RepositoryBinding {
        selection: SourceSelectionPolicy::PinnedObject,
        pinned_revision: Some(sha('2')),
        ..repository()
    };
    assert_eq!(
        resolve_selected_revision(&pinned, &sha('3')).unwrap(),
        (sha('2'), SourceSelection::PinnedObject)
    );
    let lost = RepositoryBinding { pinned_revision: None, ..pinned };
    assert_eq!(
        resolve_selected_revision(&lost, &sha('3')).unwrap_err().text,
        "pinned source binding lost its exact revision"
    );
    assert!(resolve_selected_revision(&repository(), "main").is_err());
    assert_eq!(
        admitted_ref_name("service", "r-1").unwrap(),
        "refs/idunn/resolutions/service/r-1"
    );
    assert!(admitted_ref_name("service", "a/b").is_err());
}

#[test]
fn a_recipe_and_gitlinks_are_those_of_the_tree() {
    assert_eq!(recipe_object(&entries(), "deployment.toml").unwrap(), sha('4'));
    assert_eq!(
        recipe_object(&entries(), "other.toml").unwrap_err().text,
        "selected tree has no deployment recipe"
    );
    assert_eq!(
        recipe_object(&entries(), "sub").unwrap_err().text,
        "deployment recipe is not a regular Git blob"
    );
    assert!(admit_recipe(&Vec::new()).is_err());
    let facts = gitlink_facts(&entries(), &repository().gitlinks).unwrap();
    assert_eq!(
        facts,
        vec![GitlinkTreeFact {
            path: "sub".into(),
            origin: "https://example.invalid/sub".into(),
            revision: sha('5'),
        }]
    );
    assert_eq!(
        gitlink_facts(&entries(), &Vec::new()).unwrap_err().text,
        "selected tree Gitlinks do not exactly match operator bindings"
    );
    assert!(admit_gitlink_tree(&sha('5'), &sha('5'), &Vec::new()).is_ok());
    assert_eq!(
        admit_gitlink_tree(&sha('5'), &sha('5'), &entries()).unwrap_err().text,
        "nested Gitlinks are not admitted in Idunn v1"
    );
    let exact = exact_source_from(&repository());
    assert_eq!(exact.checkout, "/cache/checkout");
    let none: Vec<GitlinkTreeFact> = Vec::new();
    let recipe = b"recipe".to_vec();
    assert!(verify_exact_source("t", "t", &recipe, &recipe, &facts, &facts).is_ok());
    assert!(verify_exact_source("u", "t", &recipe, &recipe, &facts, &facts).is_err());
    assert!(verify_exact_source("t", "t", &b"x".to_vec(), &recipe, &facts, &facts).is_err());
    assert!(verify_exact_source("t", "t", &recipe, &recipe, &none, &facts).is_err());
}

fn driver() -> GitSourceDriver {
    GitSourceDriver::new(
        "/cache".into(),
        "/frozen".into(),
        Some(ProcessIdentity { uid: 1000, gid: 1000 }),
    )
}

fn resolved() -> ResolvedSource {
    driver()
        .resolve(
            &repository(),
            "schema.v1",
            sha('3'),
            sha('3'),
            sha('6'),
            b"recipe".to_vec(),
            Vec::new(),
            SourceSelection::RefHead,
            7,
        )
        .unwrap()
}

#[test]
fn a_resolved_source_names_its_recipe() {
    let source = resolved();
    assert_eq!(source.facts.recipe_blob_sha256, sha256_id(b"recipe"));
    assert!(source.validate_against(&Ok(())).is_ok());
    assert_eq!(source.validate_against(&Err(refusal("foreign"))).unwrap_err().text, "foreign");
    let changed = ResolvedSource { recipe_bytes: b"other".to_vec(), ..source.clone() };
    assert_eq!(
        changed.validate_against(&Ok(())).unwrap_err().text,
        "resolved recipe bytes differ from the selected Git object"
    );
    let empty = ResolvedSource { recipe_bytes: Vec::new(), ..source };
    assert_eq!(empty.validate_against(&Ok(())).unwrap_err().text, "resolved recipe is empty");
}

#[test]
fn a_frozen_source_is_received_located_and_observed() -> Result<(), Refusal> {
    let driver = driver();
    let source = exact_source_from(&repository());
    let freeze = |is_root: bool, revision: &str, transaction_id: &str| {
        driver.freeze_exact(is_root, &source, revision, transaction_id, "/frozen").map(drop)
    };
    assert!(freeze(true, &sha('3'), "txn-1").is_ok());
    assert_eq!(
        freeze(false, &sha('3'), "txn-1").unwrap_err().text,
        "freezing source requires root Idunn with an unprivileged Git identity"
    );
    assert!(freeze(true, "main", "txn-1").is_err());
    assert!(freeze(true, &sha('3'), "../x").is_err());
    let file = FileFacts { is_dir: false, is_file: true, links: 1, mode: 0o100444, ..directory() };
    assert!(driver
        .admit_frozen_recipe(&Ok(file.clone()), &Ok(b"recipe".to_vec()), &b"recipe".to_vec())
        .is_ok());
    assert!(driver
        .admit_frozen_recipe(&Ok(file.clone()), &Ok(b"other".to_vec()), &b"recipe".to_vec())
        .is_err());
    assert!(driver
        .admit_frozen_recipe(&Ok(directory()), &Ok(b"recipe".to_vec()), &b"recipe".to_vec())
        .is_err());

    let receipt = driver.freeze(
        "txn-1",
        &Ok(()),
        &digest('1'),
        digest('a'),
        &b"recipe".to_vec(),
        &resolved(),
    )?;
    assert_eq!(receipt.snapshot_sha256, digest('a'));
    let root = driver.locate_frozen(&Ok(()), &digest('1'), &receipt)?;
    assert_eq!(root, format!("/frozen/txn-1/{}", "a".repeat(64)));
    let found = driver.observe_frozen(
        &receipt,
        &root,
        &digest('a'),
        &Ok(file.clone()),
        &Ok(b"recipe".to_vec()),
        &b"recipe".to_vec(),
        resolved().facts,
    )?;
    assert_eq!(found.receipt(), &receipt);
    assert_eq!(found.root(), root);
    assert_eq!(found.recipe_bytes(), b"recipe");
    assert!(driver
        .observe_frozen(
            &receipt,
            &root,
            &digest('b'),
            &Ok(file),
            &Ok(b"recipe".to_vec()),
            &b"recipe".to_vec(),
            resolved().facts,
        )
        .is_err());
    assert_eq!(driver.cleanup("txn-1", &Some(receipt.clone()))?, "/frozen/txn-1");
    assert!(driver.cleanup("txn-2", &Some(receipt)).is_err());
    Ok(())
}

#[test]
fn a_receipt_is_of_its_plan_and_its_transaction() {
    let receipt = FrozenSourceReceipt {
        transaction_id: "txn-1".into(),
        plan_id: digest('1'),
        snapshot_sha256: digest('a'),
    };
    assert!(receipt.validate_against(&Ok(()), &digest('1')).is_ok());
    assert_eq!(
        receipt.validate_against(&Ok(()), &digest('2')).unwrap_err().text,
        "frozen source plan differs"
    );
    assert_eq!(receipt.snapshot_component(), "a".repeat(64));
    let odd = FrozenSourceReceipt { snapshot_sha256: "a".into(), ..receipt.clone() };
    assert!(odd.validate_against(&Ok(()), &digest('1')).is_err());
    let outside = FrozenSourceReceipt { transaction_id: "a/b".into(), ..receipt };
    assert!(outside.validate_against(&Ok(()), &digest('1')).is_err());
}

#[test]
fn the_driver_fetches_only_under_its_own_root() {
    let driver = driver();
    let exact = exact_source_from(&repository());
    assert_eq!(driver.prepare_source_root(true, &exact).unwrap(), "/cache");
    let unnamed = GitSourceDriver::new("/cache".into(), "/frozen".into(), None);
    assert_eq!(
        unnamed.prepare_source_root(true, &exact).unwrap_err().text,
        "root Idunn must configure an unprivileged source identity"
    );
    let mut outside = exact.clone();
    outside.checkout = "/elsewhere".into();
    assert_eq!(
        driver.prepare_source_root(true, &outside).unwrap_err().text,
        "repository checkout is outside Idunn's source authority root"
    );
    assert!(driver.admit_cache_root(&Ok("/cache".into())).is_ok());
    assert!(driver.admit_cache_root(&Ok("/real/cache".into())).is_err());
    assert!(driver
        .ensure_checkout(
            &exact,
            &Ok(directory()),
            &Ok("/cache/checkout".into()),
            &Ok(directory()),
            &Ok("https://example.invalid/service".into())
        )
        .is_ok());
    assert_eq!(
        driver
            .ensure_checkout(
                &exact,
                &Ok(directory()),
                &Ok("/cache/checkout".into()),
                &Ok(directory()),
                &Ok("https://example.invalid/other".into())
            )
            .unwrap_err()
            .text,
        "source checkout origin differs from the operator binding"
    );
    assert!(driver.git_command().is_ok());
}

#[test]
fn git_is_asked_exactly_and_told_by_its_complaint() {
    assert!(fetch_arguments("/c", &sha('3')).contains(&sha('3')));
    assert!(ancestor_arguments("/c", &sha('1'), &sha('3')).contains(&"--is-ancestor".to_owned()));
    assert!(judge_arguments("/c", &sha('3')).contains(&"fsck".to_owned()));
    assert!(settle_git(true, "exit status: 0", "").is_ok());
    assert_eq!(
        settle_git(false, "exit status: 128", " fatal \n").unwrap_err().text,
        "Git source driver exited with exit status: 128: fatal"
    );
    assert_eq!(git_text(b" abc\n").unwrap(), "abc");
    assert_eq!(git_text(&[0xff]).unwrap_err().text, "Git emitted non-UTF-8 text");
}

fn facts() -> SourceSelectionFacts {
    resolved().facts
}

#[test]
fn selections_are_one_only_by_every_fact() {
    assert!(facts().same(&facts()));
    let mut other = facts();
    other.selected_at_unix_millis = 8;
    assert!(!facts().same(&other));
    let mut linked = facts();
    linked.gitlinks = vec![GitlinkTreeFact { path: "s".into(), origin: "o".into(), revision: sha('5') }];
    assert!(!facts().same(&linked));
}

#[test]
fn a_tree_is_frozen_pass_by_pass() {
    let entries = vec![
        entry("100644", "blob", &sha('a'), "a/one"),
        entry("120000", "blob", &sha('b'), "a/link"),
        entry("100755", "blob", &sha('a'), "two"),
        entry("160000", "commit", &sha('c'), "sub"),
    ];
    let pointer = b"version https://git-lfs.github.com/spec/v1\noid x\n".to_vec();
    let made = vec!["/f".to_owned()];
    let plan =
        materialize_tree_raw("/f", "/f", &made, &entries, &vec![pointer, b"one".to_vec()]);
    assert!(plan.refusal.is_none());
    let content = |object: char, step: ContentStep| FreezeStep::Content { object: sha(object), step };
    assert_eq!(
        plan.steps,
        vec![
            FreezeStep::MakeDirectory { path: "/f/a".into() },
            FreezeStep::MakeDirectory { path: "/f/sub".into() },
            content(
                'a',
                ContentStep::Write { path: "a/one".into(), place: "/f/a/one".into(), mode: 0o644 }
            ),
            content(
                'a',
                ContentStep::CopyFirst { path: "two".into(), place: "/f/two".into(), mode: 0o755 }
            ),
            content('b', ContentStep::Remember { path: "a/link".into() }),
            FreezeStep::Link { path: "a/link".into(), place: "/f/a/link".into() },
        ]
    );
    assert_eq!(plan.made, vec!["/f", "/f/a", "/f/sub"]);
    assert_eq!(plan.pointers, vec!["a/one", "two"]);
}

#[test]
fn a_file_that_shares_a_pointer_with_a_link_is_told() {
    let pointer = b"version https://git-lfs.github.com/spec/v1\noid x\n".to_vec();
    let entries = vec![
        entry("120000", "blob", &sha('1'), "a-link"),
        entry("100644", "blob", &sha('1'), "b-file"),
        entry("100755", "blob", &sha('1'), "c-file"),
    ];
    let made = vec!["/f".to_owned()];
    let plan = materialize_tree_raw("/f", "/f", &made, &entries, &vec![pointer]);
    assert_eq!(plan.refusal, None);
    assert_eq!(plan.pointers, vec!["b-file", "c-file"]);
    let plan = materialize_tree_raw("/f", "/f", &made, &entries, &vec![b"b-file".to_vec()]);
    assert!(plan.pointers.is_empty());
    let mut long = b"version https://git-lfs.github.com/spec/v1\n".to_vec();
    long.resize(5000, b'x');
    let head = long[..128].to_vec();
    assert_eq!(
        materialize_tree_raw("/f", "/f", &made, &entries, &vec![long]).pointers,
        materialize_tree_raw("/f", "/f", &made, &entries, &vec![head]).pointers
    );
}

#[test]
fn a_revision_is_frozen_task_by_task() -> Result<(), Refusal> {
    let source = exact_source_from(&repository());
    let revision = sha('3');
    let order = driver().freeze_exact(true, &source, &revision, "txn-1", "/frozen")?;
    let partial = "/frozen/txn-1/.partial".to_owned();
    let checkout = source.checkout.clone();
    assert_eq!(
        order.tasks,
        vec![
            FreezeTask::PrepareSource { checkout: checkout.clone() },
            FreezeTask::Git {
                arguments: fetch_arguments(&checkout, &revision),
                words: "fetching the durable exact source revision".into(),
            },
            FreezeTask::Git {
                arguments: judge_arguments(&checkout, &revision),
                words: format!("fsck refused the selected revision {revision}"),
            },
            FreezeTask::ReadTree {
                repository: checkout.clone(),
                revision: revision.clone(),
                recipe_path: source.recipe_path.clone(),
            },
            FreezeTask::MakeTransactionRoot { root: "/frozen/txn-1".into() },
            FreezeTask::MakeDestination { path: partial.clone() },
            FreezeTask::WriteTree {
                repository: checkout,
                revision,
                destination: partial.clone(),
                root: partial.clone(),
            },
            FreezeTask::WriteGitlinks { root: partial.clone() },
            FreezeTask::AdmitRecipe { path: format!("{partial}/{}", source.recipe_path) },
            FreezeTask::Harden { path: partial.clone() },
            FreezeTask::Digest { path: partial.clone() },
            FreezeTask::Publish { from: partial },
            FreezeTask::JudgeLinks,
            FreezeTask::Close { path: "/frozen/txn-1".into(), mode: 0o500 },
        ]
    );
    Ok(())
}

#[test]
fn a_submodule_is_frozen_under_its_own_path() {
    let source = exact_source_from(&repository());
    let fact = GitlinkTreeFact {
        path: "vendor/sub".into(),
        origin: "https://example.invalid/sub.git".into(),
        revision: sha('4'),
    };
    let checkout = "/cache/.gitlinks/x";
    let order = driver().gitlink_order(&source, &fact, checkout, "/frozen/t/.partial");
    assert_eq!(order.tasks.len(), 5);
    assert_eq!(order.checkout, checkout);
    assert_eq!(order.place, driver().gitlink_root(&source.checkout));
    assert_eq!(
        order.tasks[0],
        FreezeTask::MakeCacheDirectory { path: driver().gitlink_root(&source.checkout) }
    );
    assert_eq!(
        order.tasks[2],
        FreezeTask::Git {
            arguments: fetch_arguments(checkout, &fact.revision),
            words: String::new(),
        }
    );
    assert_eq!(
        order.tasks[3],
        FreezeTask::AdmitGitlink { repository: checkout.into(), revision: sha('4') }
    );
    assert_eq!(
        order.tasks[4],
        FreezeTask::WriteTree {
            repository: checkout.into(),
            revision: sha('4'),
            destination: "/frozen/t/.partial/vendor/sub".into(),
            root: "/frozen/t/.partial".into(),
        }
    );
}

#[test]
fn a_failed_freeze_leaves_nothing_that_it_wrote() {
    let failed = |task: &FreezeTask| {
        driver().fail_freeze(task, "txn-1", "/frozen", refusal("full")).remove
    };
    let kept = FreezeTask::MakeDestination { path: "/frozen/txn-1/.partial".into() };
    assert_eq!(failed(&kept), None);
    let whole = FreezeTask::Publish { from: "/frozen/txn-1/.partial".into() };
    assert_eq!(failed(&whole), None);
    for task in [
        FreezeTask::WriteGitlinks { root: "/frozen/txn-1/.partial".into() },
        FreezeTask::Digest { path: "/frozen/txn-1/.partial".into() },
        FreezeTask::JudgeLinks,
    ] {
        assert_eq!(failed(&task), Some("/frozen/txn-1".to_owned()));
    }
    let task = FreezeTask::JudgeLinks;
    assert_eq!(driver().fail_freeze(&task, "t", "/frozen", refusal("out")).refusal.text, "out");
}

#[test]
fn a_frozen_tree_stands_where_its_digest_says() {
    let recipe = b"recipe".to_vec();
    let frozen =
        driver().settle_freeze("txn-1", "/frozen", digest('5'), recipe.clone(), &Vec::new());
    assert_eq!(frozen.tree, format!("/frozen/txn-1/{}", "5".repeat(64)));
    assert_eq!(frozen.snapshot_sha256, digest('5'));
    assert_eq!(frozen.recipe, recipe);
    assert!(!frozen.contains_pointers);
    let pointers = vec!["big.bin".to_owned()];
    let frozen = driver().settle_freeze("txn-1", "/frozen", digest('5'), recipe, &pointers);
    assert!(frozen.contains_pointers);
}

#[test]
fn a_path_is_normal_once_it_was_normalized() {
    for path in ["a/./b", "./deployment.toml", "a//b/"] {
        let normal = normalized_relative(path).unwrap();
        assert_eq!(normalized_relative(&normal).unwrap(), normal);
    }
}

#[test]
fn a_tree_that_leaves_its_root_is_not_begun() {
    let made = vec!["/f".to_owned()];
    let plan = materialize_tree_raw("/g", "/f", &made, &Vec::new(), &Vec::new());
    assert_eq!(plan.refusal.unwrap().text, "frozen source path /g escapes its root");
    assert!(plan.steps.is_empty());
    let odd = vec![entry("040000", "tree", &sha('a'), "x")];
    let plan = materialize_tree_raw("/f/sub", "/f", &made, &odd, &Vec::new());
    assert_eq!(plan.steps, vec![FreezeStep::MakeDirectory { path: "/f/sub".into() }]);
    assert!(plan.refusal.is_some());
    let wanted = vec!["/f/a".to_owned(), "/f/a/b".to_owned()];
    assert_eq!(make_directories("/f", &made, &wanted).directories, vec!["/f/a", "/f/a/b"]);
}

#[test]
fn a_stream_is_read_back_object_by_object() -> Result<(), Refusal> {
    let objects = vec![sha('a'), sha('b'), sha('c')];
    let contents: Vec<&[u8]> = vec![b"one\ntwo", b"", b"\xff"];
    let mut stream = Vec::new();
    for (object, content) in objects.iter().zip(&contents) {
        stream.extend_from_slice(format!("{object} blob {}\n", content.len()).as_bytes());
        stream.extend_from_slice(content);
        stream.push(b'\n');
    }
    let read = stream_blobs(&stream, &objects)?;
    assert_eq!(read, contents.iter().map(|content| content.to_vec()).collect::<Vec<_>>());
    let words = |stream: &[u8]| stream_blobs(stream, &objects).unwrap_err().text;
    assert_eq!(words(b""), "Git cat-file --batch closed before answering every object");
    assert_eq!(
        words(format!("{} blob 9\nshort", sha('a')).as_bytes()),
        "reading Git cat-file --batch object content"
    );
    assert_eq!(
        words(format!("{} blob 3\none", sha('a')).as_bytes()),
        "reading the newline after a Git cat-file --batch object"
    );
    assert_eq!(
        words(format!("{} blob 2\none\n", sha('a')).as_bytes()),
        "Git cat-file --batch object content ran past its declared size"
    );
    assert_eq!(settle_stream(Ok(read.clone()), &Ok(()), true, "exit status: 0", "")?, read);
    assert_eq!(
        settle_stream(Ok(read.clone()), &Ok(()), false, "exit status: 1", "bad\n").unwrap_err().text,
        "Git cat-file --batch exited with exit status: 1: bad"
    );
    assert_eq!(
        settle_stream(Ok(read), &Err(refusal("pipe")), false, "", "").unwrap_err().text,
        "pipe"
    );
    assert_eq!(
        settle_bulk_fetch(&Ok(()), false, "exit status: 1", " gone ").unwrap_err().text,
        "bulk Git fetch exited with exit status: 1: gone"
    );
    Ok(())
}

/// Reads a stream in pieces of a length at the most.
fn read_in_pieces(
    stream: &[u8],
    objects: &[String],
    length: usize,
) -> Result<Vec<Vec<u8>>, Refusal> {
    let mut reader = BlobReader::new(objects.to_vec());
    let mut at = 0;
    let mut contents = Vec::new();
    let mut content = Vec::new();
    loop {
        let rest = &stream[at..];
        let piece = match reader.wants() {
            StreamWant::Nothing => return Ok(contents),
            StreamWant::Line => match rest.iter().position(|byte| *byte == b'\n') {
                Some(end) => &rest[..end + 1],
                None => rest,
            },
            StreamWant::Bytes { most } => &rest[..most.min(length).min(rest.len())],
        };
        let place = reader.place;
        reader.take(piece)?;
        at += piece.len();
        match place {
            StreamPlace::Header => {}
            StreamPlace::Content { .. } => content.extend_from_slice(piece),
            StreamPlace::LineEnd => contents.push(std::mem::take(&mut content)),
        }
    }
}

#[test]
fn a_stream_is_read_in_pieces_as_it_is_whole() {
    let objects = vec![sha('a'), sha('b'), sha('c')];
    let whole = format!("{} blob 7\none\ntwo\n{} blob 0\n\n{} blob 1\nx\n", objects[0], objects[1], objects[2]);
    let streams = [
        whole.clone(),
        whole[..whole.len() - 1].to_owned(),
        whole[..whole.len() - 2].to_owned(),
        whole.replace("blob 7", "blob 6"),
        whole.replace("blob 0", "blob 1"),
        String::new(),
        whole[..43].to_owned(),
    ];
    for stream in &streams {
        for length in [1, 3, 100] {
            assert_eq!(
                read_in_pieces(stream.as_bytes(), &objects, length),
                stream_blobs(stream.as_bytes(), &objects)
            );
        }
    }
    assert!(stream_blobs(whole.as_bytes(), &objects).is_ok());
    let mut reader = BlobReader::new(objects);
    assert_eq!(reader.wants(), StreamWant::Line);
    reader.take(format!("{} blob 7\n", sha('a')).as_bytes()).unwrap();
    assert_eq!(reader.wants(), StreamWant::Bytes { most: 7 });
    assert_eq!(
        reader.take(b"").unwrap_err().text,
        "reading Git cat-file --batch object content"
    );
    assert_eq!(reader.wants(), StreamWant::Bytes { most: 7 });
}

#[test]
fn a_selected_tree_is_looked_at_recipe_first() {
    let look = |path: &str, recipe: Result<Vec<u8>, Refusal>, bound: &Vec<GitlinkBinding>| {
        exact_recipe_and_gitlinks(&entries(), path, &recipe, bound)
    };
    let bound = repository().gitlinks;
    let recipe = || Ok(b"recipe".to_vec());
    assert_eq!(look("deployment.toml", recipe(), &bound).unwrap().len(), 1);
    let words = |outcome: Result<Vec<GitlinkTreeFact>, Refusal>| outcome.unwrap_err().text;
    assert_eq!(words(look("x", recipe(), &bound)), "selected tree has no deployment recipe");
    assert_eq!(
        words(look("sub", recipe(), &bound)),
        "deployment recipe is not a regular Git blob"
    );
    assert_eq!(words(look("deployment.toml", Err(refusal("unread")), &bound)), "unread");
    assert_eq!(
        words(look("deployment.toml", Ok(Vec::new()), &bound)),
        "selected deployment recipe is empty"
    );
    assert_eq!(
        words(look("deployment.toml", recipe(), &Vec::new())),
        "selected tree Gitlinks do not exactly match operator bindings"
    );
}

#[test]
fn a_submodules_pointers_are_told_from_its_tree() {
    let pointers = Ok(vec!["big.bin".to_owned()]);
    assert_eq!(
        materialize_gitlink_raw("vendor/sub", &pointers, &Ok(())).unwrap(),
        vec!["vendor/sub/big.bin"]
    );
    assert_eq!(
        materialize_gitlink_raw("vendor/sub", &pointers, &Err(refusal("busy"))).unwrap_err().text,
        "cleaning exact Gitlink checkout: busy"
    );
    assert_eq!(
        materialize_gitlink_raw("vendor/sub", &Err(refusal("first")), &Err(refusal("busy")))
            .unwrap_err()
            .text,
        "first"
    );
}
