//! Names that nothing else has, and the places that are named by them. Each place is given
//! by its name; beside that stands the function that takes a name of its own.
use vstd::prelude::*;

use crate::digest::{hex_of, hex_text};
use crate::paths::{
    absolute, file_name, file_name_of, is_absolute, join, joined, parent, parent_of,
};
use crate::records::{CultCacheEnvelope, IdunnExpectedIncarnationRecord};
use crate::route::{identifier_of, NginxRouteDriver, Rehearsal};
use crate::text::{cat3, cat4, cat5, check, refuse, Refusal};
use crate::topology::{expected_envelope, expected_envelope_view};

verus! {

/// `uuid::Uuid::new_v4` and its sixteen bytes: random, but for the bits that mark its version
/// and variant. It does not return where the system has no randomness to give.
#[verifier::external_body]
pub(crate) fn random_identifier() -> (bytes: Vec<u8>)
    ensures
        bytes@.len() == 16,
        bytes@[6] & 0xf0 == 0x40,
        bytes@[8] & 0xc0 == 0x80,
{
    uuid::Uuid::new_v4().as_bytes().to_vec()
}

/// `chrono::Utc::now`, written by `to_rfc3339`. Nothing is stated of the text: it is that of
/// whatever time the machine's clock shows. It does not return where that clock stands before
/// the Unix epoch.
#[verifier::external_body]
fn current_instant() -> (text: String)
{
    chrono::Utc::now().to_rfc3339()
}

/// How an identifier is written: in hexadecimal digits, in five groups.
pub open spec fn identifier_text(bytes: Seq<u8>) -> Seq<char> {
    hex_text(bytes.subrange(0, 4)) + "-"@ + hex_text(bytes.subrange(4, 6)) + "-"@ + hex_text(
        bytes.subrange(6, 8),
    ) + "-"@ + hex_text(bytes.subrange(8, 10)) + "-"@ + hex_text(bytes.subrange(10, 16))
}

/// Whether a text is that of an identifier.
pub open spec fn is_identifier(text: Seq<char>) -> bool {
    exists|bytes: Seq<u8>| bytes.len() == 16 && text == #[trigger] identifier_text(bytes)
}

fn hex_between(bytes: &[u8], from: usize, to: usize) -> (text: String)
    requires
        from <= to <= bytes@.len(),
    ensures
        text@ == hex_text(bytes@.subrange(from as int, to as int)),
{
    let part = vstd::slice::slice_subrange(bytes, from, to);
    hex_of(part)
}

/// Writes an identifier.
pub fn text_of_identifier(bytes: &[u8]) -> (text: String)
    requires
        bytes@.len() == 16,
    ensures
        text@ == identifier_text(bytes@),
{
    let a = hex_between(bytes, 0, 4);
    let b = hex_between(bytes, 4, 6);
    let c = hex_between(bytes, 6, 8);
    let d = hex_between(bytes, 8, 10);
    let e = hex_between(bytes, 10, 16);
    let first = cat5(a.as_str(), "-", b.as_str(), "-", c.as_str());
    cat5(first.as_str(), "-", d.as_str(), "-", e.as_str())
}

/// A name that nothing else has.
pub fn fresh_name() -> (name: String)
    ensures
        is_identifier(name@),
{
    let bytes = random_identifier();
    text_of_identifier(bytes.as_slice())
}

/// Where the checkout of a submodule is cloned to, for one freeze alone.
pub fn gitlink_checkout(gitlink_root: &str, revision: &str, name: &str) -> (place: String)
    ensures
        place@ == joined(gitlink_root@, revision@ + "-"@ + name@),
{
    let last = cat3(revision, "-", name);
    join(gitlink_root, last.as_str())
}

/// Where the checkout of a submodule is cloned to, under a name of its own.
pub fn fresh_gitlink_checkout(gitlink_root: &str, revision: &str) -> (place: String)
    ensures
        exists|name: Seq<char>| #[trigger] is_identifier(name) && place@ == joined(
            gitlink_root@,
            revision@ + "-"@ + name,
        ),
{
    let name = fresh_name();
    gitlink_checkout(gitlink_root, revision, name.as_str())
}

/// Where a release is copied to before it stands in its place.
pub fn install_stage(release_root: &str, sealed_release_id: &str, name: &str) -> (place: String)
    ensures
        place@ == joined(release_root@, ".install-"@ + sealed_release_id@ + "-"@ + name@),
{
    let last = cat4(".install-", sealed_release_id, "-", name);
    join(release_root, last.as_str())
}

/// Where a release is copied to before it stands in its place, under a name of its own.
pub fn fresh_install_stage(release_root: &str, sealed_release_id: &str) -> (place: String)
    ensures
        exists|name: Seq<char>| #[trigger] is_identifier(name) && place@ == joined(
            release_root@,
            ".install-"@ + sealed_release_id@ + "-"@ + name,
        ),
{
    let name = fresh_name();
    install_stage(release_root, sealed_release_id, name.as_str())
}

/// The place beside a route fragment from which it is replaced at once, or why there is
/// none.
pub open spec fn stage_beside(path: Seq<char>, name: Seq<char>) -> Result<Seq<char>, Seq<char>> {
    if !absolute(path) {
        Err("route path is not absolute"@)
    } else {
        match (parent(path), file_name(path)) {
            (None, _) => Err("route path has no parent"@),
            (Some(_), None) => Err("route path has no file name"@),
            (Some(above), Some(own)) => Ok(joined(above, "."@ + own + ".idunn-"@ + name)),
        }
    }
}

/// The place beside a route fragment from which it is replaced at once.
pub fn route_stage(path: &str, name: &str) -> (outcome: Result<String, Refusal>)
    ensures
        crate::clock::written(outcome, stage_beside(path@, name@)),
{
    check(is_absolute(path), "route path is not absolute")?;
    let above = match parent_of(path) {
        None => return Err(refuse("route path has no parent")),
        Some(above) => above,
    };
    match file_name_of(path) {
        None => Err(refuse("route path has no file name")),
        Some(own) => {
            let last = cat4(".", own.as_str(), ".idunn-", name);
            Ok(join(above.as_str(), last.as_str()))
        },
    }
}

/// The place beside a route fragment from which it is replaced, under a name of its own.
pub fn fresh_route_stage(path: &str) -> (outcome: Result<String, Refusal>)
    ensures
        exists|name: Seq<char>| #[trigger] is_identifier(name) && crate::clock::written(
            outcome,
            stage_beside(path@, name),
        ),
{
    let name = fresh_name();
    let outcome = route_stage(path, name.as_str());
    assert(is_identifier(name@));
    outcome
}

/// A rehearsal of a route under a name of its own.
pub fn fresh_rehearsal(driver: &NginxRouteDriver) -> (outcome: Result<Rehearsal, Refusal>)
    ensures
        match (outcome, identifier_of(driver.binding.route_id@)) {
            (Ok(rehearsal), Ok(route)) => exists|name: Seq<char>| #[trigger] is_identifier(name)
                && rehearsal.candidate@ == joined(
                driver.preflight_root@,
                route + "-"@ + name + ".candidate"@,
            ) && rehearsal.unit@ == "idunn-nginx-preflight-"@ + name,
            (Err(refusal), Err(words)) => refusal@ == words,
            _ => false,
        },
{
    let name = fresh_name();
    driver.rehearse(name.as_str())
}

/// The envelope that an expectation is published in now.
pub fn stamped_expectation(
    expected: &IdunnExpectedIncarnationRecord,
) -> (envelope: CultCacheEnvelope)
    ensures
        exists|now: Seq<char>| envelope@ == #[trigger] expected_envelope_view(expected@, now),
{
    let now = current_instant();
    expected_envelope(expected, now.as_str())
}

} // verus!
