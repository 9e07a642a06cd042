use idunn_drivers::authority::FileFacts;
use idunn_drivers::binding::ArtifactReceipt;
use idunn_drivers::deeds::{
    assign_runner_tree, copy_artifact, copy_tree, digest_artifact,
    digest_tree, frozen_source_sha256, harden_frozen_source, harden_installed_release,
    remove_tree_inside, snapshot_of_steps, validate_frozen_source, validate_frozen_source_symlinks,
    validate_release_symlink, TreeDigest, TreePlan, TreeStep,
};
use idunn_drivers::digest::{raw_sha256, sha256_id};
use idunn_drivers::observation::ProcessIdentity;
use idunn_drivers::text::Refusal;
use idunn_drivers::tree::{walk_tree, TreeNode};

fn directory(mode: u32) -> FileFacts {
    FileFacts {
        is_dir: true,
        is_file: false,
        is_symlink: false,
        uid: 0,
        gid: 0,
        mode: 0o040000 | mode,
        links: 2,
        len: 0,
    }
}

fn file(mode: u32, len: u64) -> FileFacts {
    FileFacts {
        is_dir: false,
        is_file: true,
        mode: 0o100000 | mode,
        links: 1,
        len,
        ..directory(0)
    }
}

fn link_facts() -> FileFacts {
    FileFacts { is_dir: false, is_symlink: true, links: 1, ..directory(0o777) }
}

fn special() -> FileFacts {
    FileFacts { is_dir: false, links: 1, ..directory(0o644) }
}

fn leaf(name: &str, facts: FileFacts) -> TreeNode {
    TreeNode::leaf(name.into(), facts)
}

fn link(name: &str, target: &str, resolution: Result<(), Refusal>) -> TreeNode {
    TreeNode::link(name.into(), link_facts(), target.as_bytes().to_vec(), resolution)
}

fn source(recipe_mode: u32) -> TreeNode {
    TreeNode::directory(
        String::new(),
        directory(0o555),
        vec![
            leaf("build.sh", file(0o555, 17)),
            leaf("deployment.toml", file(recipe_mode, 16)),
            TreeNode::directory(
                "links".into(),
                directory(0o555),
                vec![link("deployment", "../deployment.toml", Ok(()))],
            ),
        ],
    )
}

fn mode_of(plan: &TreePlan, place: &str) -> Option<u32> {
    plan.steps.iter().rev().find_map(|step| match step {
        TreeStep::SetMode { path, mode } if path == place => Some(*mode),
        _ => None,
    })
}

fn words(plan: TreePlan) -> String {
    plan.refusal.unwrap().text
}

#[test]
fn a_tree_is_walked_in_the_order_of_its_names() {
    let tree = TreeNode::directory(
        String::new(),
        directory(0o755),
        vec![
            leaf("b", file(0o644, 1)),
            TreeNode::directory("a".into(), directory(0o755), vec![leaf("c", file(0o644, 1))]),
        ],
    );
    let visits = walk_tree(&tree, "/t");
    let places: Vec<(&str, bool)> =
        visits.iter().map(|visit| (visit.path.as_str(), visit.leaving)).collect();
    let first_b = places.iter().position(|place| place.0 == "/t/b").unwrap();
    let first_a = places.iter().position(|place| place.0 == "/t/a").unwrap();
    let c = places.iter().position(|place| place.0 == "/t/a/c").unwrap();
    assert!(first_a < c && c < first_b);
    assert!(visits[0].top);
    assert_eq!(visits[c].relative, "a/c");
}

#[test]
fn a_hardened_source_is_exact_and_immutable() {
    let tree = TreeNode::directory(
        String::new(),
        directory(0o755),
        vec![
            leaf("build.sh", file(0o755, 17)),
            leaf("deployment.toml", file(0o644, 16)),
            TreeNode::directory(
                "links".into(),
                directory(0o755),
                vec![link("deployment", "../deployment.toml", Ok(()))],
            ),
        ],
    );
    let plan = harden_frozen_source(&tree, "/t/source");
    assert!(plan.refusal.is_none());
    assert_eq!(mode_of(&plan, "/t/source/deployment.toml"), Some(0o444));
    assert_eq!(mode_of(&plan, "/t/source/build.sh"), Some(0o555));
    assert_eq!(mode_of(&plan, "/t/source/links"), Some(0o555));
    assert_eq!(mode_of(&plan, "/t/source"), Some(0o555));
    assert_eq!(mode_of(&plan, "/t/source/links/deployment"), None);
    assert!(validate_frozen_source(&source(0o444), "/t/source").is_ok());
    assert_eq!(
        validate_frozen_source(&source(0o644), "/t/source").unwrap_err().text,
        "frozen source file has a noncanonical mode"
    );
}

#[test]
fn the_digest_of_a_source_is_that_of_its_frames() {
    let plan = frozen_source_sha256(&source(0o444), "/t/source");
    assert!(plan.refusal.is_none());
    let contents = |recipe: &str| -> Vec<Vec<u8>> {
        plan.steps
            .iter()
            .map(|step| match step {
                TreeStep::HashContents { path } if path.ends_with("build.sh") => {
                    b"#!/bin/sh\nexit 0\n".to_vec()
                }
                TreeStep::HashContents { .. } => recipe.as_bytes().to_vec(),
                _ => Vec::new(),
            })
            .collect()
    };
    let digest = snapshot_of_steps(&plan.steps, &contents("target = 'test'\n"));
    assert_ne!(snapshot_of_steps(&plan.steps, &contents("target = 'changed'\n")), digest);
    let mut whole = Vec::new();
    for (step, content) in plan.steps.iter().zip(contents("target = 'test'\n")) {
        match step {
            TreeStep::Hash { bytes } => whole.extend_from_slice(bytes),
            TreeStep::HashContents { .. } => whole.extend_from_slice(&content),
            _ => panic!("only hashing"),
        }
    }
    assert_eq!(digest, sha256_id(&whole));
}

#[test]
fn frozen_source_rejects_a_symlink_that_escapes_the_transaction_tree() {
    let escape = "frozen source symlink escapes its root";
    let tree = TreeNode::directory(
        String::new(),
        directory(0o755),
        vec![link("escape", "../../outside", Err(Refusal { text: escape.into() }))],
    );
    assert!(harden_frozen_source(&tree, "/t/transaction/source").refusal.is_none());
    assert_eq!(
        validate_frozen_source_symlinks(&tree, "/t/transaction/source").unwrap_err().text,
        escape
    );
}

#[test]
fn harden_frozen_source_refuses_a_non_root_owned_entry() {
    let tree = TreeNode::directory(
        String::new(),
        directory(0o755),
        vec![leaf("f", FileFacts { uid: 1000, gid: 1000, ..file(0o644, 1) })],
    );
    assert_eq!(
        words(harden_frozen_source(&tree, "/t/root")),
        "frozen source entry is not root-owned"
    );
}

#[test]
fn a_frozen_source_holds_nothing_but_files_links_and_directories() {
    let with = |node: TreeNode| TreeNode::directory(String::new(), directory(0o755), vec![node]);
    assert_eq!(
        words(harden_frozen_source(&with(leaf("pipe", special())), "/t")),
        "frozen source contains a special filesystem entry"
    );
    assert_eq!(
        words(harden_frozen_source(&with(leaf(".git", file(0o644, 1))), "/t")),
        "frozen source contains forbidden .git metadata"
    );
    assert_eq!(
        words(harden_frozen_source(&with(link("l", "/etc", Ok(()))), "/t")),
        "frozen source symlink is absolute"
    );
}

fn receipt(executable: bool) -> ArtifactReceipt {
    ArtifactReceipt {
        artifact_id: "service".into(),
        destination: "service".into(),
        sha256: sha256_id(b"sealed"),
        size_bytes: 6,
        executable,
    }
}

#[test]
fn installed_release_is_root_owned_and_nonwritable() {
    let tree = |service: FileFacts| {
        TreeNode::directory(String::new(), directory(0o755), vec![leaf("service", service)])
    };
    let plan = harden_installed_release(&tree(file(0o777, 6)), "/t/release", &vec![receipt(true)]);
    assert!(plan.refusal.is_none());
    assert_eq!(mode_of(&plan, "/t/release"), Some(0o555));
    assert_eq!(mode_of(&plan, "/t/release/service"), Some(0o555));
    let plain = harden_installed_release(&tree(file(0o777, 6)), "/t/release", &vec![receipt(false)]);
    assert_eq!(mode_of(&plain, "/t/release/service"), Some(0o444));
    let foreign = tree(FileFacts { uid: 1000, ..file(0o777, 6) });
    assert_eq!(
        words(harden_installed_release(&foreign, "/t/release", &vec![receipt(true)])),
        "sealed release entry is not root-owned"
    );
}

#[test]
fn a_release_link_stays_in_its_release() {
    let judge = |path: &str, target: &str| {
        validate_release_symlink("/r", path, target.as_bytes())
    };
    assert!(judge("/r/lib/a", "b").is_ok());
    assert_eq!(judge("/r/a", "/etc").unwrap_err().text, "sealed release symlink is absolute");
    assert_eq!(
        judge("/r/lib/a", "../b").unwrap_err().text,
        "sealed release symlink has a parent traversal"
    );
    assert!(validate_release_symlink("/r", "/r/a", &[0xff]).is_ok());
    assert!(validate_release_symlink("/r", "/r/a", b"lib/\xff\xfe.so").is_ok());
    assert_eq!(
        validate_release_symlink("/r", "/r/a", b"/\xff").unwrap_err().text,
        "sealed release symlink is absolute"
    );
    assert_eq!(
        validate_release_symlink("/r", "/r/a", b"\xff/../b").unwrap_err().text,
        "sealed release symlink has a parent traversal"
    );
    assert_eq!(
        validate_release_symlink("/r/x", "/r/a", b"\xff").unwrap_err().text,
        "sealed release symlink escaped its release"
    );
    assert!(judge("/r/\u{e9}t\u{e9}/a", "b").is_ok());
    assert!(validate_release_symlink("/r/\u{e9}", "/r/a", "\u{e9}/b".as_bytes()).is_ok());
}

#[test]
fn copy_artifact_refuses_a_source_that_escapes_its_root() {
    let result = copy_artifact("/t/root", "/t/outside.txt", &file(0o644, 6));
    assert_eq!(result.unwrap_err().text, "artifact source escapes its root");
    assert!(!copy_artifact("/t/root", "/t/root/a", &file(0o644, 6)).unwrap());
    assert!(copy_artifact("/t/root", "/t/root/a", &directory(0o755)).unwrap());
    assert_eq!(
        copy_artifact("/t/root", "/t/root/a", &special()).unwrap_err().text,
        "artifact output is not a regular file or directory"
    );
}

#[test]
fn a_tree_is_copied_entry_by_entry() {
    let plan = copy_tree(&source(0o444), "/from", "/to", false);
    assert!(plan.refusal.is_none());
    assert_eq!(plan.steps[0], TreeStep::MakeDirectory { path: "/to".into() });
    assert!(plan.steps.contains(&TreeStep::CopyFile {
        from: "/from/build.sh".into(),
        to: "/to/build.sh".into()
    }));
    assert!(plan.steps.contains(&TreeStep::CopyLink {
        from: "/from/links/deployment".into(),
        to: "/to/links/deployment".into()
    }));
    assert_eq!(
        words(copy_tree(&source(0o444), "/from", "/to", true)),
        "destination tree already exists"
    );
    assert_eq!(
        words(copy_tree(&leaf("f", file(0o644, 1)), "/from", "/to", false)),
        "source tree is not a directory"
    );
}

#[test]
fn a_runner_owns_its_workspace_whole() {
    let identity = ProcessIdentity { uid: 65532, gid: 65532 };
    let plan = assign_runner_tree(true, &source(0o444), "/w", identity);
    assert!(plan.refusal.is_none());
    for place in ["/w", "/w/build.sh", "/w/links", "/w/links/deployment"] {
        assert!(plan.steps.contains(&TreeStep::SetOwner { path: place.into(), identity }));
    }
    assert_eq!(
        words(assign_runner_tree(false, &source(0o444), "/w", identity)),
        "runner workspace ownership requires root Idunn"
    );
}

#[test]
fn a_file_is_carried_in_pieces_as_it_is_whole() {
    let read = TreeStep::HashContents { path: "/s/deployment.toml".into() };
    let framed = TreeStep::Hash { bytes: b"file".to_vec() };
    let steps = vec![framed, read];
    let whole = snapshot_of_steps(&steps, &vec![Vec::new(), b"target = 'test'".to_vec()]);
    let mut digest = TreeDigest::begin();
    digest.carry(&steps[0], b"");
    for piece in [&b"target"[..], &b" = "[..], &b"'test'"[..], &b""[..]] {
        digest.carry(&steps[1], piece);
    }
    assert_eq!(digest.snapshot(), whole);
}

#[test]
fn an_artifact_weighs_what_its_files_do() {
    let plan = digest_tree(&source(0o444), "/a");
    assert!(plan.refusal.is_none());
    let contents: Vec<Vec<u8>> = plan
        .steps
        .iter()
        .map(|step| match step {
            TreeStep::HashSized { path } if path.ends_with("build.sh") => b"echo".to_vec(),
            TreeStep::HashSized { .. } => b"x".to_vec(),
            _ => Vec::new(),
        })
        .collect();
    // What was read of two files, and the target of one link.
    let found = digest_artifact(&source(0o444), "/a", &contents).unwrap();
    assert_eq!(found.size_bytes, 4 + 1 + 18);
    let mut whole = Vec::new();
    for (step, content) in plan.steps.iter().zip(&contents) {
        match step {
            TreeStep::Hash { bytes } => whole.extend_from_slice(bytes),
            TreeStep::HashSized { .. } => {
                whole.extend_from_slice(&(content.len() as u64).to_le_bytes());
                whole.extend_from_slice(content);
            }
            TreeStep::HashTarget { target } => whole.extend_from_slice(target),
            _ => panic!("only hashing"),
        }
    }
    assert_eq!(found.sha256, raw_sha256(&whole));
    let mut digest = TreeDigest::begin();
    for (step, content) in plan.steps.iter().zip(&contents) {
        digest.carry(step, content);
    }
    assert_eq!(digest.finding().unwrap(), found);
    assert_eq!(
        TreeDigest::begin().finding().unwrap_err().text,
        "artifact directory has no file content"
    );
    let empty = TreeNode::directory(String::new(), directory(0o755), vec![]);
    assert_eq!(
        digest_artifact(&empty, "/a", &Vec::new()).unwrap_err().text,
        "artifact directory has no file content"
    );
    let alone = leaf("f", file(0o644, 6));
    let found = digest_artifact(&alone, "/a/f", &vec![b"sealed".to_vec()]).unwrap();
    assert_eq!((found.sha256, found.size_bytes), (raw_sha256(b"sealed"), 6));
    assert_eq!(
        digest_artifact(&leaf("p", special()), "/a/p", &Vec::new()).unwrap_err().text,
        "artifact is not a file or directory"
    );
    let odd = TreeNode::directory(String::new(), directory(0o755), vec![leaf("p", special())]);
    assert_eq!(
        words(digest_tree(&odd, "/a")),
        "artifact tree contains a special filesystem entry"
    );
}

#[test]
fn a_tree_is_removed_only_inside_its_root() {
    assert!(remove_tree_inside("/r", "/r/a").is_ok());
    assert_eq!(remove_tree_inside("/r", "/r").unwrap_err().text, "refusing broad tree removal");
    assert!(remove_tree_inside("/r", "/q").is_err());
}
