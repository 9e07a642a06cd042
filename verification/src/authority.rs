//! Who owns a file and who may write it: the judgements that stand before everything the
//! drivers read as root or hand to a service.
use vstd::prelude::*;

use crate::maps::{Pair, TextMap};
use crate::observation::ProcessIdentity;
use crate::paths::{absolute, is_absolute, is_same_path, parent, parent_of, same_path};
use crate::scan::{contains_char, decimal_number, parse_decimal};
use crate::text::{cat2, cat3, check, either, judged, refuse, unless, Refusal};
use crate::watch::missed;

verus! {

/// What a path is, with its last component not followed.
#[derive(Clone, Copy, Debug, PartialEq, Eq, Structural)]
pub struct FileFacts {
    pub is_dir: bool,
    pub is_file: bool,
    pub is_symlink: bool,
    pub uid: u32,
    pub gid: u32,
    pub mode: u32,
    pub links: u64,
    pub len: u64,
}

/// What was read of a path: what it is, and what it resolves to.
#[derive(Debug, PartialEq, Eq)]
pub struct PathReading {
    pub facts: Result<FileFacts, Refusal>,
    pub canonical: Result<String, Refusal>,
}

/// Whether a path is a directory and no link to one.
pub open spec fn native_directory(f: FileFacts) -> bool {
    f.is_dir && !f.is_symlink
}

/// Whether a path is a regular file and no link to one.
pub open spec fn native_file(f: FileFacts) -> bool {
    f.is_file && !f.is_symlink
}

/// The permission bits of a path.
pub open spec fn permissions(f: FileFacts) -> u32 {
    f.mode & 0o777
}

/// Whether neither group nor world may write a path.
pub open spec fn guarded(f: FileFacts) -> bool {
    f.mode & 0o022 == 0
}

/// Whether a path is a directory that root alone may write.
pub open spec fn root_directory(f: FileFacts) -> bool {
    native_directory(f) && f.uid == 0 && guarded(f)
}

/// Whether a path is a file of root's own with given permissions and one name.
pub open spec fn root_file(f: FileFacts, mode: u32) -> bool {
    native_file(f) && f.uid == 0 && f.gid == 0 && permissions(f) == mode && f.links == 1
}

/// Whether a path is a directory of root's own with given permissions.
pub open spec fn root_owned_directory(f: FileFacts, mode: u32) -> bool {
    native_directory(f) && f.uid == 0 && f.gid == 0 && permissions(f) == mode
}

fn is_root_directory(f: &FileFacts) -> (is: bool)
    ensures
        is == root_directory(*f),
{
    f.is_dir && !f.is_symlink && f.uid == 0 && f.mode & 0o022 == 0
}

fn is_root_file(f: &FileFacts, mode: u32) -> (is: bool)
    ensures
        is == root_file(*f, mode),
{
    f.is_file && !f.is_symlink && f.uid == 0 && f.gid == 0 && f.mode & 0o777 == mode && f.links
        == 1
}

fn is_root_owned_directory(f: &FileFacts, mode: u32) -> (is: bool)
    ensures
        is == root_owned_directory(*f, mode),
{
    f.is_dir && !f.is_symlink && f.uid == 0 && f.gid == 0 && f.mode & 0o777 == mode
}

fn read_facts(reading: &Result<FileFacts, Refusal>) -> (outcome: Result<FileFacts, Refusal>)
    ensures
        judged(outcome, missed(*reading)),
        outcome matches Ok(f) ==> f == reading->Ok_0,
{
    match reading {
        Ok(f) => Ok(*f),
        Err(refusal) => Err(Refusal { text: refusal.text.clone() }),
    }
}

/// Why a path does not resolve to itself, if so.
pub open spec fn canonical_refusal(
    canonical: Result<String, Refusal>,
    path: Seq<char>,
    words: Seq<char>,
) -> Option<Seq<char>> {
    either(missed(canonical), unless(same_path(canonical->Ok_0@, path), words))
}

fn check_canonical(
    canonical: &Result<String, Refusal>,
    path: &str,
    words: &str,
) -> (outcome: Result<(), Refusal>)
    ensures
        judged(outcome, canonical_refusal(*canonical, path@, words@)),
{
    match canonical {
        Ok(found) => check(is_same_path(found.as_str(), path), words),
        Err(refusal) => Err(Refusal { text: refusal.text.clone() }),
    }
}

/// What is to be done about a directory that must be there.
#[derive(Clone, Copy, Debug, PartialEq, Eq, Structural)]
pub enum DirectoryStep {
    Keep,
    Create,
}

/// The parent of a path, which must have one.
pub open spec fn parent_in(path: Seq<char>, words: Seq<char>) -> Result<Seq<char>, Seq<char>> {
    match parent(path) {
        Some(p) => Ok(p),
        None => Err(words),
    }
}

fn read_parent(path: &str, words: &str) -> (outcome: Result<String, Refusal>)
    ensures
        crate::clock::written(outcome, parent_in(path@, words@)),
{
    match parent_of(path) {
        Some(p) => Ok(p),
        None => Err(refuse(words)),
    }
}

/// Why the root of the activation credentials is refused, if it is. A root that is absent
/// is not refused: it is created.
pub open spec fn activation_root_refusal(
    is_root: bool,
    path: Seq<char>,
    above: PathReading,
    found: Result<Option<FileFacts>, Refusal>,
    canonical: Result<String, Refusal>,
) -> Option<Seq<char>> {
    let owner = parent_in(path, "activation credential root has no parent"@);
    let broad = "activation credential parent is not a canonical root-owned directory"@;
    let exact = "activation credential root is not an exact root-only native directory"@;
    either(
        unless(is_root, "activation credential actuation requires root Idunn"@),
        either(
            unless(absolute(path), "activation credential root is not absolute"@),
            either(
                crate::procfs::fault(owner),
                either(
                    missed(above.facts),
                    either(
                        unless(root_directory(above.facts->Ok_0), broad),
                        either(
                            canonical_refusal(above.canonical, owner->Ok_0, broad),
                            match found {
                                Err(refusal) => Some(refusal@),
                                Ok(None) => None,
                                Ok(Some(f)) => either(
                                    unless(root_owned_directory(f, 0o700), exact),
                                    canonical_refusal(canonical, path, exact),
                                ),
                            },
                        ),
                    ),
                ),
            ),
        ),
    )
}

/// Admits the root of the activation credentials, or has it created with mode 0700.
pub fn ensure_activation_credential_root(
    is_root: bool,
    path: &str,
    above: &PathReading,
    found: &Result<Option<FileFacts>, Refusal>,
    canonical: &Result<String, Refusal>,
) -> (outcome: Result<DirectoryStep, Refusal>)
    ensures
        judged(outcome, activation_root_refusal(is_root, path@, *above, *found, *canonical)),
        outcome matches Ok(step) ==> (step is Create <==> found->Ok_0 is None),
{
    check(is_root, "activation credential actuation requires root Idunn")?;
    check(is_absolute(path), "activation credential root is not absolute")?;
    let owner = read_parent(path, "activation credential root has no parent")?;
    let f = read_facts(&above.facts)?;
    let broad = "activation credential parent is not a canonical root-owned directory";
    let exact = "activation credential root is not an exact root-only native directory";
    check(is_root_directory(&f), broad)?;
    check_canonical(&above.canonical, owner.as_str(), broad)?;
    match found {
        Err(refusal) => Err(Refusal { text: refusal.text.clone() }),
        Ok(None) => Ok(DirectoryStep::Create),
        Ok(Some(f)) => {
            check(is_root_owned_directory(f, 0o700), exact)?;
            check_canonical(canonical, path, exact)?;
            Ok(DirectoryStep::Keep)
        },
    }
}

/// Admits the root of the activation credentials that was just created.
pub fn validate_new_activation_root(f: &FileFacts) -> (outcome: Result<(), Refusal>)
    ensures
        judged(
            outcome,
            unless(
                root_owned_directory(*f, 0o700),
                "new activation credential root has the wrong authority"@,
            ),
        ),
{
    check(
        is_root_owned_directory(f, 0o700),
        "new activation credential root has the wrong authority",
    )
}

/// Admits an activation credential: one file of root's own, for root's eyes, of one key.
pub fn validate_activation_credential_source(f: &FileFacts) -> (outcome: Result<(), Refusal>)
    ensures
        judged(
            outcome,
            unless(
                root_file(*f, 0o400) && f.len == 32,
                "activation credential source is not one exact root-owned 0400 32-byte file"@,
            ),
        ),
{
    check(
        is_root_file(f, 0o400) && f.len == 32,
        "activation credential source is not one exact root-owned 0400 32-byte file",
    )
}

/// Why one service credential is refused, if it is.
pub open spec fn credential_source_refusal(
    name: Seq<char>,
    path: Seq<char>,
    above: PathReading,
    found: PathReading,
) -> Option<Seq<char>> {
    let owner = parent_in(path, "service credential source has no parent"@);
    let words = "service credential "@ + name + " is not one canonical root-owned 0400 file"@;
    either(
        unless(absolute(path), "service credential "@ + name + " is not absolute"@),
        either(
            crate::procfs::fault(owner),
            either(
                missed(above.facts),
                either(
                    missed(found.facts),
                    either(
                        canonical_refusal(above.canonical, owner->Ok_0, words),
                        either(
                            unless(root_directory(above.facts->Ok_0), words),
                            either(
                                canonical_refusal(found.canonical, path, words),
                                unless(
                                    root_file(found.facts->Ok_0, 0o400) && found.facts->Ok_0.len
                                        > 0,
                                    words,
                                ),
                            ),
                        ),
                    ),
                ),
            ),
        ),
    )
}

fn check_credential_source(name: &str, path: &str, above: &PathReading, found: &PathReading) -> (
    outcome: Result<(), Refusal>)
    ensures
        judged(outcome, credential_source_refusal(name@, path@, *above, *found)),
{
    if !is_absolute(path) {
        return Err(Refusal { text: cat3("service credential ", name, " is not absolute") });
    }
    let owner = read_parent(path, "service credential source has no parent")?;
    let directory = read_facts(&above.facts)?;
    let f = read_facts(&found.facts)?;
    let words = cat3("service credential ", name, " is not one canonical root-owned 0400 file");
    check_canonical(&above.canonical, owner.as_str(), words.as_str())?;
    check(is_root_directory(&directory), words.as_str())?;
    check_canonical(&found.canonical, path, words.as_str())?;
    check(is_root_file(&f, 0o400) && f.len > 0, words.as_str())
}

/// A service credential and the directory that it lies in.
#[derive(Debug, PartialEq, Eq)]
pub struct SourceReading {
    pub above: PathReading,
    pub found: PathReading,
}

/// Why the first bad service credential is refused, if one is.
pub open spec fn credential_sources_refusal(
    sources: Seq<Pair>,
    readings: Seq<SourceReading>,
) -> Option<Seq<char>>
    decreases sources.len(),
{
    if sources.len() == 0 {
        None
    } else {
        let last = sources.len() - 1;
        either(
            credential_sources_refusal(sources.drop_last(), readings),
            credential_source_refusal(
                sources[last].0,
                sources[last].1,
                readings[last].above,
                readings[last].found,
            ),
        )
    }
}

proof fn lemma_sources_refused(sources: Seq<Pair>, readings: Seq<SourceReading>, n: int)
    requires
        0 <= n <= sources.len(),
        credential_sources_refusal(sources.take(n), readings) is Some,
    ensures
        credential_sources_refusal(sources, readings) == credential_sources_refusal(
            sources.take(n),
            readings,
        ),
    decreases sources.len() - n,
{
    if n < sources.len() {
        assert(sources.take(n + 1).drop_last() =~= sources.take(n));
        lemma_sources_refused(sources, readings, n + 1);
    } else {
        assert(sources.take(n) =~= sources);
    }
}

/// Admits the service credentials of a workload. There is a reading for each.
pub fn validate_service_credential_sources(
    sources: &TextMap,
    readings: &Vec<SourceReading>,
) -> (outcome: Result<(), Refusal>)
    requires
        readings@.len() == sources@.len(),
    ensures
        judged(outcome, credential_sources_refusal(sources@, readings@)),
{
    let n: usize = sources.len();
    let mut i: usize = 0;
    assert(sources@.take(0) =~= Seq::<Pair>::empty());
    while i < n
        invariant
            i <= n,
            n == sources@.len(),
            readings@.len() == sources@.len(),
            credential_sources_refusal(sources@.take(i as int), readings@) is None,
        decreases n - i,
    {
        proof {
            assert(sources@.take(i + 1).drop_last() =~= sources@.take(i as int));
            assert(sources@.take(i + 1)[i as int] == sources@[i as int]);
        }
        match check_credential_source(
            sources.name_at(i),
            sources.value_at(i),
            &readings[i].above,
            &readings[i].found,
        ) {
            Ok(()) => {},
            Err(refusal) => {
                proof {
                    lemma_sources_refused(sources@, readings@, i + 1);
                }
                return Err(refusal);
            },
        }
        i += 1;
    }
    assert(sources@.take(i as int) =~= sources@);
    Ok(())
}

/// Why an activation credential may not be deleted, if so.
pub open spec fn removal_refusal(
    path: Seq<char>,
    above: Result<FileFacts, Refusal>,
    f: FileFacts,
) -> Option<Seq<char>> {
    either(
        crate::procfs::fault(parent_in(path, "activation credential source has no parent"@)),
        either(
            missed(above),
            unless(
                root_owned_directory(above->Ok_0, 0o700) && native_file(f) && f.uid == 0 && f.gid
                    == 0 && f.links == 1 && f.len <= 32,
                "refusing to delete a surprising activation credential source"@,
            ),
        ),
    )
}

/// Admits the deletion of an activation credential, whole or half-written.
pub fn validate_activation_credential_source_for_removal(
    path: &str,
    above: &Result<FileFacts, Refusal>,
    f: &FileFacts,
) -> (outcome: Result<(), Refusal>)
    ensures
        judged(outcome, removal_refusal(path@, *above, *f)),
{
    let _ = read_parent(path, "activation credential source has no parent")?;
    let directory = read_facts(above)?;
    check(
        is_root_owned_directory(&directory, 0o700) && f.is_file && !f.is_symlink && f.uid == 0
            && f.gid == 0 && f.links == 1 && f.len <= 32,
        "refusing to delete a surprising activation credential source",
    )
}

/// Whether an activation credential is to be deleted: one that is absent is not.
pub open spec fn removal_of(
    path: Seq<char>,
    above: Result<FileFacts, Refusal>,
    found: Result<Option<FileFacts>, Refusal>,
) -> Result<bool, Seq<char>> {
    match found {
        Err(refusal) => Err(refusal@),
        Ok(None) => Ok(false),
        Ok(Some(f)) => match removal_refusal(path, above, f) {
            Some(w) => Err(w),
            None => Ok(true),
        },
    }
}

/// Decides whether an activation credential is to be deleted.
pub fn remove_activation_credential_source(
    path: &str,
    above: &Result<FileFacts, Refusal>,
    found: &Result<Option<FileFacts>, Refusal>,
) -> (outcome: Result<bool, Refusal>)
    ensures
        crate::procfs::comes_to(outcome, removal_of(path@, *above, *found)),
{
    match found {
        Err(refusal) => Err(Refusal { text: refusal.text.clone() }),
        Ok(None) => Ok(false),
        Ok(Some(f)) => {
            validate_activation_credential_source_for_removal(path, above, f)?;
            Ok(true)
        },
    }
}

/// Settles the deletion of an activation credential: it must be gone.
pub fn settle_removal(gone: bool) -> (outcome: Result<(), Refusal>)
    ensures
        judged(outcome, unless(gone, "activation credential source remained after deletion"@)),
{
    check(gone, "activation credential source remained after deletion")
}

/// Why a runner's cache is refused, if it is. A cache that is absent is created.
pub open spec fn cache_refusal(
    is_root: bool,
    path: Seq<char>,
    above: Result<FileFacts, Refusal>,
    found: Result<Option<FileFacts>, Refusal>,
    identity: ProcessIdentity,
) -> Option<Seq<char>> {
    either(
        unless(is_root, "runner cache admission requires root Idunn"@),
        either(
            crate::procfs::fault(parent_in(path, "runner cache root has no parent"@)),
            either(
                missed(above),
                either(
                    unless(
                        root_directory(above->Ok_0),
                        "runner cache parent is not root-owned and nonwritable"@,
                    ),
                    match found {
                        Err(refusal) => Some(refusal@),
                        Ok(None) => None,
                        Ok(Some(f)) => unless(
                            native_directory(f) && f.uid == identity.uid && f.gid == identity.gid
                                && permissions(f) == 0o700,
                            "runner cache is not a dedicated exact-identity 0700 directory"@,
                        ),
                    },
                ),
            ),
        ),
    )
}

/// Admits a runner's cache, or has it created for the runner with mode 0700.
pub fn ensure_runner_cache_root(
    is_root: bool,
    path: &str,
    above: &Result<FileFacts, Refusal>,
    found: &Result<Option<FileFacts>, Refusal>,
    identity: ProcessIdentity,
) -> (outcome: Result<DirectoryStep, Refusal>)
    ensures
        judged(outcome, cache_refusal(is_root, path@, *above, *found, identity)),
        outcome matches Ok(step) ==> (step is Create <==> found->Ok_0 is None),
{
    check(is_root, "runner cache admission requires root Idunn")?;
    let _ = read_parent(path, "runner cache root has no parent")?;
    let directory = read_facts(above)?;
    check(
        is_root_directory(&directory),
        "runner cache parent is not root-owned and nonwritable",
    )?;
    match found {
        Err(refusal) => Err(Refusal { text: refusal.text.clone() }),
        Ok(None) => Ok(DirectoryStep::Create),
        Ok(Some(f)) => {
            check(
                f.is_dir && !f.is_symlink && f.uid == identity.uid && f.gid == identity.gid
                    && f.mode & 0o777 == 0o700,
                "runner cache is not a dedicated exact-identity 0700 directory",
            )?;
            Ok(DirectoryStep::Keep)
        },
    }
}

/// Why a runner's secret is refused, if it is.
pub open spec fn runner_secret_refusal(
    is_root: bool,
    path: Seq<char>,
    above: Result<FileFacts, Refusal>,
    found: Result<FileFacts, Refusal>,
    identity: ProcessIdentity,
) -> Option<Seq<char>> {
    let f = found->Ok_0;
    either(
        unless(is_root, "runner secret admission requires root Idunn"@),
        either(
            crate::procfs::fault(parent_in(path, "runner secret has no parent"@)),
            either(
                missed(above),
                either(
                    missed(found),
                    either(
                        unless(
                            root_directory(above->Ok_0),
                            "runner secret parent is not root-owned and nonwritable"@,
                        ),
                        unless(
                            native_file(f) && f.uid == 0 && f.gid == identity.gid && permissions(f)
                                == 0o440,
                            "runner secret is not root-owned, exact-group-bound, and 0440"@,
                        ),
                    ),
                ),
            ),
        ),
    )
}

/// Admits a runner's secret: root's, and readable by the runner's group alone.
pub fn validate_runner_secret(
    is_root: bool,
    path: &str,
    above: &Result<FileFacts, Refusal>,
    found: &Result<FileFacts, Refusal>,
    identity: ProcessIdentity,
) -> (outcome: Result<(), Refusal>)
    ensures
        judged(outcome, runner_secret_refusal(is_root, path@, *above, *found, identity)),
{
    check(is_root, "runner secret admission requires root Idunn")?;
    let _ = read_parent(path, "runner secret has no parent")?;
    let directory = read_facts(above)?;
    let f = read_facts(found)?;
    check(
        is_root_directory(&directory),
        "runner secret parent is not root-owned and nonwritable",
    )?;
    check(
        f.is_file && !f.is_symlink && f.uid == 0 && f.gid == identity.gid && f.mode & 0o777
            == 0o440,
        "runner secret is not root-owned, exact-group-bound, and 0440",
    )
}

/// The lock beside an authority file.
pub open spec fn lock_of(path: Seq<char>) -> Seq<char> {
    path + ".lock"@
}

/// The lock beside an authority file.
pub fn authority_lock_path(path: &str) -> (lock: String)
    ensures
        lock@ == lock_of(path@),
{
    cat2(path, ".lock")
}

/// Why an authority file is refused, if it is: one that is absent is not.
pub open spec fn authority_file_refusal(
    path: Seq<char>,
    above: FileFacts,
    found: Result<Option<FileFacts>, Refusal>,
) -> Option<Seq<char>> {
    match found {
        Err(refusal) => Some(refusal@),
        Ok(None) => None,
        Ok(Some(f)) => unless(
            native_file(f) && f.uid == 0 && f.gid == above.gid && guarded(f),
            "write-lease authority file "@ + path
                + " is not root-owned and service-nonwritable"@,
        ),
    }
}

fn check_authority_file(
    path: &str,
    above: &FileFacts,
    found: &Result<Option<FileFacts>, Refusal>,
) -> (outcome: Result<(), Refusal>)
    ensures
        judged(outcome, authority_file_refusal(path@, *above, *found)),
{
    match found {
        Err(refusal) => Err(Refusal { text: refusal.text.clone() }),
        Ok(None) => Ok(()),
        Ok(Some(f)) => {
            let words = cat3(
                "write-lease authority file ",
                path,
                " is not root-owned and service-nonwritable",
            );
            check(
                f.is_file && !f.is_symlink && f.uid == 0 && f.gid == above.gid && f.mode & 0o022
                    == 0,
                words.as_str(),
            )
        },
    }
}

/// Why the authority of a write lease is refused, if it is.
pub open spec fn authority_refusal(
    is_root: bool,
    path: Seq<char>,
    above: Result<FileFacts, Refusal>,
    record: Result<Option<FileFacts>, Refusal>,
    lock: Result<Option<FileFacts>, Refusal>,
) -> Option<Seq<char>> {
    either(
        unless(is_root, "process write-lease actuation requires root Idunn"@),
        either(
            crate::procfs::fault(parent_in(path, "process write-lease path has no parent"@)),
            either(
                missed(above),
                either(
                    unless(
                        root_directory(above->Ok_0),
                        "write-lease parent is not root-owned and service-nonwritable"@,
                    ),
                    either(
                        authority_file_refusal(path, above->Ok_0, record),
                        authority_file_refusal(lock_of(path), above->Ok_0, lock),
                    ),
                ),
            ),
        ),
    )
}

/// Admits the authority of a write lease: the record and its lock, where they are there,
/// and the directory that they lie in.
pub fn validate_root_authority_path(
    is_root: bool,
    path: &str,
    above: &Result<FileFacts, Refusal>,
    record: &Result<Option<FileFacts>, Refusal>,
    lock: &Result<Option<FileFacts>, Refusal>,
) -> (outcome: Result<(), Refusal>)
    ensures
        judged(outcome, authority_refusal(is_root, path@, *above, *record, *lock)),
{
    check(is_root, "process write-lease actuation requires root Idunn")?;
    let _ = read_parent(path, "process write-lease path has no parent")?;
    let directory = read_facts(above)?;
    check(
        is_root_directory(&directory),
        "write-lease parent is not root-owned and service-nonwritable",
    )?;
    check_authority_file(path, &directory, record)?;
    let lock_path = authority_lock_path(path);
    check_authority_file(lock_path.as_str(), &directory, lock)
}

/// Why a new authority file may not be hardened, if so.
pub open spec fn hardening_refusal(
    path: Seq<char>,
    above: Result<FileFacts, Refusal>,
    found: Result<FileFacts, Refusal>,
) -> Option<Seq<char>> {
    let f = found->Ok_0;
    either(
        crate::procfs::fault(
            parent_in(path, "process write-lease authority file has no parent"@),
        ),
        either(
            missed(above),
            either(
                missed(found),
                unless(
                    native_file(f) && f.uid == 0 && f.gid == above->Ok_0.gid,
                    "new write-lease authority file has the wrong owner"@,
                ),
            ),
        ),
    )
}

/// The mode that a new authority file gets.
pub fn harden_root_authority_file(
    path: &str,
    above: &Result<FileFacts, Refusal>,
    found: &Result<FileFacts, Refusal>,
) -> (outcome: Result<u32, Refusal>)
    ensures
        judged(outcome, hardening_refusal(path@, *above, *found)),
        outcome matches Ok(mode) ==> mode == 0o640,
{
    let _ = read_parent(path, "process write-lease authority file has no parent")?;
    let directory = read_facts(above)?;
    let f = read_facts(found)?;
    check(
        f.is_file && !f.is_symlink && f.uid == 0 && f.gid == directory.gid,
        "new write-lease authority file has the wrong owner",
    )?;
    Ok(0o640)
}

/// Why the directory above a route is refused, if it is, given that it is there.
pub open spec fn route_parent_refusal(path: Seq<char>, found: PathReading) -> Option<Seq<char>> {
    let words = "route authority parent is not canonical root-owned and nonwritable"@;
    let f = found.facts->Ok_0;
    either(
        missed(found.facts),
        either(
            canonical_refusal(found.canonical, path, words),
            unless(
                native_directory(f) && f.uid == 0 && f.gid == 0 && guarded(f),
                words,
            ),
        ),
    )
}

/// Admits the directory above a route.
pub fn validate_route_authority_parent(path: &str, found: &PathReading) -> (outcome: Result<
    (),
    Refusal,
>)
    ensures
        judged(outcome, route_parent_refusal(path@, *found)),
{
    let f = read_facts(&found.facts)?;
    let words = "route authority parent is not canonical root-owned and nonwritable";
    check_canonical(&found.canonical, path, words)?;
    check(f.is_dir && !f.is_symlink && f.uid == 0 && f.gid == 0 && f.mode & 0o022 == 0, words)
}

/// Why the directory above a route may not be created, if so.
pub open spec fn route_ancestor_refusal(path: Seq<char>, above: PathReading) -> Option<Seq<char>> {
    let owner = parent_in(path, "route authority parent has no ancestor"@);
    let words = "route authority ancestor is not canonical root-owned and nonwritable"@;
    either(
        crate::procfs::fault(owner),
        either(
            missed(above.facts),
            either(
                canonical_refusal(above.canonical, owner->Ok_0, words),
                unless(root_directory(above.facts->Ok_0), words),
            ),
        ),
    )
}

/// What is to be done about the directory above a route, or why it is refused: one that
/// is absent is created with mode 0755 below a directory that root alone may write, and is
/// then admitted like any other.
pub open spec fn route_parent_step(
    is_root: bool,
    path: Seq<char>,
    exists: bool,
    above: PathReading,
) -> Option<Seq<char>> {
    either(
        unless(is_root, "route actuation requires root Idunn"@),
        either(
            unless(absolute(path), "route authority parent is not absolute"@),
            if exists {
                None
            } else {
                route_ancestor_refusal(path, above)
            },
        ),
    )
}

/// Decides whether the directory above a route is to be created.
pub fn ensure_route_authority_parent(
    is_root: bool,
    path: &str,
    exists: bool,
    above: &PathReading,
) -> (outcome: Result<DirectoryStep, Refusal>)
    ensures
        judged(outcome, route_parent_step(is_root, path@, exists, *above)),
        outcome matches Ok(step) ==> (step is Create <==> !exists),
{
    check(is_root, "route actuation requires root Idunn")?;
    check(is_absolute(path), "route authority parent is not absolute")?;
    if exists {
        return Ok(DirectoryStep::Keep);
    }
    let owner = read_parent(path, "route authority parent has no ancestor")?;
    let f = read_facts(&above.facts)?;
    let words = "route authority ancestor is not canonical root-owned and nonwritable";
    check_canonical(&above.canonical, owner.as_str(), words)?;
    check(is_root_directory(&f), words)?;
    Ok(DirectoryStep::Create)
}

/// Why the directory of route rehearsals is refused, if it is, given that it is there.
pub open spec fn preflight_root_refusal(
    is_root: bool,
    path: Seq<char>,
    found: PathReading,
) -> Option<Seq<char>> {
    let words = "route preflight root is not one canonical root-only directory"@;
    either(
        missed(found.facts),
        either(
            unless(is_root, words),
            either(
                canonical_refusal(found.canonical, path, words),
                unless(root_owned_directory(found.facts->Ok_0, 0o700), words),
            ),
        ),
    )
}

/// Admits the directory of route rehearsals.
pub fn validate_route_preflight_root(is_root: bool, path: &str, found: &PathReading) -> (outcome:
    Result<(), Refusal>)
    ensures
        judged(outcome, preflight_root_refusal(is_root, path@, *found)),
{
    let f = read_facts(&found.facts)?;
    let words = "route preflight root is not one canonical root-only directory";
    check(is_root, words)?;
    check_canonical(&found.canonical, path, words)?;
    check(is_root_owned_directory(&f, 0o700), words)
}

/// Decides whether the directory of route rehearsals is to be created, with mode 0700
/// below an admitted parent.
pub fn ensure_route_preflight_root(path: &str, exists: bool) -> (outcome: Result<
    DirectoryStep,
    Refusal,
>)
    ensures
        judged(
            outcome,
            either(
                unless(absolute(path@), "route preflight root is not absolute"@),
                if exists {
                    None
                } else {
                    crate::procfs::fault(
                        parent_in(path@, "route preflight root has no parent"@),
                    )
                },
            ),
        ),
        outcome matches Ok(step) ==> (step is Create <==> !exists),
{
    check(is_absolute(path), "route preflight root is not absolute")?;
    if exists {
        return Ok(DirectoryStep::Keep);
    }
    let _ = read_parent(path, "route preflight root has no parent")?;
    Ok(DirectoryStep::Create)
}

/// Why a file of route material is refused, if it is.
pub open spec fn root_file_refusal(path: Seq<char>, found: PathReading, mode: u32) -> Option<
    Seq<char>,
> {
    let words = "route authority material is not one canonical root-owned file"@;
    either(
        missed(found.facts),
        either(
            canonical_refusal(found.canonical, path, words),
            unless(root_file(found.facts->Ok_0, mode), words),
        ),
    )
}

/// Admits a file of route material.
pub fn validate_root_owned_file(path: &str, found: &PathReading, mode: u32) -> (outcome: Result<
    (),
    Refusal,
>)
    ensures
        judged(outcome, root_file_refusal(path@, *found, mode)),
{
    let f = read_facts(&found.facts)?;
    let words = "route authority material is not one canonical root-owned file";
    check_canonical(&found.canonical, path, words)?;
    check(is_root_file(&f, mode), words)
}

/// Why a path is not fit for a workload to write, if so.
pub open spec fn writable_refusal(
    path: Seq<char>,
    found: Result<FileFacts, Refusal>,
    state_group_id: u32,
    require_setgid: bool,
) -> Option<Seq<char>> {
    let f = found->Ok_0;
    either(
        missed(found),
        either(
            unless(
                !f.is_symlink && f.uid == 0 && f.gid == state_group_id && f.mode & 0o002 == 0,
                "workload writable path "@ + path
                    + " is not preprovisioned root:state-group without world write"@,
            ),
            if f.is_dir {
                unless(
                    f.mode & 0o070 == 0o070 && (!require_setgid || f.mode & 0o2000 != 0),
                    "workload writable directory "@ + path
                        + " lacks group access or setgid inheritance"@,
                )
            } else {
                unless(
                    f.is_file && f.mode & 0o060 == 0o060,
                    "workload writable file is special or lacks group access"@,
                )
            },
        ),
    )
}

/// Admits a path that a workload may write.
pub fn validate_workload_writable_path(
    path: &str,
    found: &Result<FileFacts, Refusal>,
    state_group_id: u32,
    require_setgid: bool,
) -> (outcome: Result<(), Refusal>)
    ensures
        judged(outcome, writable_refusal(path@, *found, state_group_id, require_setgid)),
{
    let f = read_facts(found)?;
    let words = cat3(
        "workload writable path ",
        path,
        " is not preprovisioned root:state-group without world write",
    );
    check(
        !f.is_symlink && f.uid == 0 && f.gid == state_group_id && f.mode & 0o002 == 0,
        words.as_str(),
    )?;
    if f.is_dir {
        let words = cat3(
            "workload writable directory ",
            path,
            " lacks group access or setgid inheritance",
        );
        check(
            f.mode & 0o070 == 0o070 && (!require_setgid || f.mode & 0o2000 != 0),
            words.as_str(),
        )
    } else {
        check(
            f.is_file && f.mode & 0o060 == 0o060,
            "workload writable file is special or lacks group access",
        )
    }
}

/// The group that a text names: a number as it stands, and any other name as the system
/// knows it. Root's group is refused.
pub open spec fn group_of(group: Seq<char>, known: Result<Option<u32>, Refusal>) -> Result<
    u32,
    Seq<char>,
> {
    match decimal_number(group, u32::MAX as int) {
        Some(n) => if n > 0 {
            Ok(n as u32)
        } else {
            Err("state group must be unprivileged"@)
        },
        None => if group.contains('\0') {
            Err("state group contains a NUL byte"@)
        } else {
            match known {
                Err(refusal) => Err(refusal@),
                Ok(None) => Err("configured state group does not exist"@),
                Ok(Some(id)) => if id > 0 {
                    Ok(id)
                } else {
                    Err("state group must be unprivileged"@)
                },
            }
        },
    }
}

/// Resolves a group, given what the system knows of its name.
pub fn resolve_group_id(group: &str, known: &Result<Option<u32>, Refusal>) -> (outcome: Result<
    u32,
    Refusal,
>)
    ensures
        crate::procfs::comes_to(outcome, group_of(group@, *known)),
{
    match parse_decimal(group, 0xffff_ffffu64) {
        Some(n) => if n > 0 {
            Ok(n as u32)
        } else {
            Err(refuse("state group must be unprivileged"))
        },
        None => {
            if contains_char(group, '\0') {
                return Err(refuse("state group contains a NUL byte"));
            }
            match known {
                Err(refusal) => Err(Refusal { text: refusal.text.clone() }),
                Ok(None) => Err(refuse("configured state group does not exist")),
                Ok(Some(id)) => if *id > 0 {
                    Ok(*id)
                } else {
                    Err(refuse("state group must be unprivileged"))
                },
            }
        },
    }
}

} // verus!
