//! How a workload is launched: its environment, its command, the descriptors passed to
//! its initial process alone, and the transient unit that systemd is asked to run.
use vstd::prelude::*;

use crate::binding::{
    argument_texts, arguments_bound, artifact_destination, declares, lemma_artifact_destination,
    release_artifact, LaunchArgument, ProcessWriteLeaseBinding, SystemdWorkloadBinding,
    TargetDeclaration, artifact_place,
};
use crate::digest::is_hex;
use crate::maps::{is_named, with, Pair, TextMap};
use crate::observation::{
    parent_only_file_descriptor_observation_views, ParentOnlyFileDescriptorObservation,
    ParentOnlyFileDescriptorObservationView,
};
use crate::paths::{absolute, file_name, file_name_of, is_absolute, join, joined};
use crate::records::{
    ExpectedRouteView, IdunnExpectedIncarnationRecord, IdunnRuntimeActivationRecord,
};
use crate::scan::{
    all_of, alphanumeric, contains_char, control, cut_last, decimal, decimal_number, decimal_of, hex, is_control,
    is_whitespace, parse_decimal, rsplit_once, starts, strip_prefix, whitespace,
};
use crate::text::{
    cat2, cat3, cat4, cat5, chars_of, either, judged, push_text, push_texts, refuse, same_text,
    texts, unless, Refusal,
};

verus! {

/// The names that a launch contract fixes: environment variables, descriptors and the
/// binding of the presence identity.
#[derive(Clone, Debug, PartialEq, Eq)]
pub struct LaunchNames {
    pub runtime_bundle: String,
    pub candidate_bind: String,
    pub process_write_lease: String,
    pub activation_credential: String,
    pub presence_identity_binding: String,
    pub activation_descriptor: String,
    pub presence_descriptor: String,
}

/// What a file that a descriptor is opened on is.
#[derive(Clone, Debug, PartialEq, Eq)]
pub struct DescriptorSource {
    pub is_file: bool,
    pub len: u64,
    pub device: u64,
    pub inode: u64,
    pub uid: u32,
    pub gid: u32,
    pub mode: u32,
    pub links: u64,
    pub sha256: String,
}

/// Whether a text can stand in an `OpenFile` property.
pub open spec fn open_file_component(value: Seq<char>) -> bool {
    &&& value.len() > 0
    &&& !value.contains(':')
    &&& all_of(value, |c: char| !control(c))
}

/// Why a text cannot stand in an `OpenFile` property, if so.
pub open spec fn component_refusal(value: Seq<char>, label: Seq<char>) -> Option<Seq<char>> {
    unless(open_file_component(value), label + " cannot be represented by systemd OpenFile"@)
}

/// Admits a text into an `OpenFile` property.
pub fn validate_open_file_component(value: &str, label: &str) -> (outcome: Result<(), Refusal>)
    ensures
        judged(outcome, component_refusal(value@, label@)),
{
    let chars = chars_of(value);
    let ghost kind = |c: char| !control(c);
    let mut plain = chars.len() > 0 && !contains_char(value, ':');
    let mut i: usize = 0;
    while i < chars.len()
        invariant
            i <= chars@.len(),
            chars@ == value@,
            kind == (|c: char| !control(c)),
            plain == (chars@.len() > 0 && !value@.contains(':') && forall|j: int|
                0 <= j < i ==> kind(#[trigger] value@[j])),
        decreases chars@.len() - i,
    {
        if is_control(chars[i]) {
            assert(!kind(value@[i as int]));
            plain = false;
        }
        i += 1;
    }
    if plain {
        Ok(())
    } else {
        Err(Refusal { text: cat2(label, " cannot be represented by systemd OpenFile") })
    }
}

/// The observation of a descriptor's source, or why it is refused.
pub open spec fn descriptor_of(
    fd_number: u32,
    fd_name: Seq<char>,
    source_path: Seq<char>,
    source: DescriptorSource,
) -> Result<ParentOnlyFileDescriptorObservationView, Seq<char>> {
    match either(
        component_refusal(fd_name, "parent-only descriptor name"@),
        either(
            unless(absolute(source_path), "parent-only descriptor source is not absolute"@),
            either(
                component_refusal(source_path, "parent-only descriptor source"@),
                either(
                    unless(
                        source.is_file && source.len > 0,
                        "parent-only descriptor source is not one nonempty native file"@,
                    ),
                    unless(
                        source.uid == 0 && source.gid == 0 && (source.mode & 0o777) == 0o400
                            && source.links == 1,
                        "parent-only descriptor source is not root-owned, 0400, and singly linked"@,
                    ),
                ),
            ),
        ),
    ) {
        Some(words) => Err(words),
        None => Ok(
            ParentOnlyFileDescriptorObservationView {
                fd_number,
                fd_name,
                source_path,
                access: "read-only"@,
                device: source.device,
                inode: source.inode,
                uid: source.uid,
                gid: source.gid,
                mode: source.mode & 0o777,
                links: source.links,
                size: source.len,
                sha256: source.sha256@,
            },
        ),
    }
}

/// Observes the source of a descriptor.
pub fn observe_parent_only_file_descriptor(
    fd_number: u32,
    fd_name: &str,
    source_path: &str,
    source: &DescriptorSource,
) -> (outcome: Result<ParentOnlyFileDescriptorObservation, Refusal>)
    ensures
        crate::records::reads(outcome, descriptor_of(fd_number, fd_name@, source_path@, *source)),
{
    validate_open_file_component(fd_name, "parent-only descriptor name")?;
    if !is_absolute(source_path) {
        return Err(refuse("parent-only descriptor source is not absolute"));
    }
    validate_open_file_component(source_path, "parent-only descriptor source")?;
    if !source.is_file || source.len == 0 {
        return Err(refuse("parent-only descriptor source is not one nonempty native file"));
    }
    let mode: u32 = source.mode & 0o777;
    if source.uid != 0 || source.gid != 0 || mode != 0o400 || source.links != 1 {
        return Err(
            refuse("parent-only descriptor source is not root-owned, 0400, and singly linked"),
        );
    }
    Ok(
        ParentOnlyFileDescriptorObservation {
            fd_number,
            fd_name: fd_name.to_owned(),
            source_path: source_path.to_owned(),
            access: "read-only".to_owned(),
            device: source.device,
            inode: source.inode,
            uid: source.uid,
            gid: source.gid,
            mode,
            links: source.links,
            size: source.len,
            sha256: source.sha256.clone(),
        },
    )
}

/// Whether descriptors are the ordered pair of activation and presence.
pub open spec fn descriptor_pair(
    descriptors: Seq<ParentOnlyFileDescriptorObservationView>,
    names: LaunchNames,
) -> bool {
    &&& descriptors.len() == 2
    &&& descriptors[0].fd_number == 3
    &&& descriptors[0].fd_name == names.activation_descriptor@
    &&& descriptors[1].fd_number == 4
    &&& descriptors[1].fd_name == names.presence_descriptor@
}

/// Why one descriptor is refused, if it is.
pub open spec fn descriptor_refusal(
    d: ParentOnlyFileDescriptorObservationView,
) -> Option<Seq<char>> {
    either(
        component_refusal(d.fd_name, "parent-only descriptor name"@),
        either(
            component_refusal(d.source_path, "parent-only descriptor source"@),
            unless(
                absolute(d.source_path) && d.access == "read-only"@ && d.uid == 0 && d.gid == 0
                    && d.mode == 0o400 && d.links == 1 && d.size > 0,
                "parent-only descriptor metadata is outside the Idunn contract"@,
            ),
        ),
    )
}

/// The `OpenFile` property of a descriptor.
pub open spec fn open_file_text(d: ParentOnlyFileDescriptorObservationView) -> Seq<char> {
    d.source_path + ":"@ + d.fd_name + ":"@ + d.access
}

/// The `OpenFile` properties of the descriptors, or why they are refused.
pub open spec fn open_files(
    descriptors: Seq<ParentOnlyFileDescriptorObservationView>,
    names: LaunchNames,
) -> Result<Seq<Seq<char>>, Seq<char>> {
    match either(
        unless(
            descriptor_pair(descriptors, names),
            "parent-only descriptor set is not the exact ordered activation/presence pair"@,
        ),
        either(descriptor_refusal(descriptors[0]), descriptor_refusal(descriptors[1])),
    ) {
        Some(words) => Err(words),
        None => Ok(seq![open_file_text(descriptors[0]), open_file_text(descriptors[1])]),
    }
}

fn check_descriptor(d: &ParentOnlyFileDescriptorObservation) -> (outcome: Result<(), Refusal>)
    ensures
        judged(outcome, descriptor_refusal(d@)),
{
    validate_open_file_component(d.fd_name.as_str(), "parent-only descriptor name")?;
    validate_open_file_component(d.source_path.as_str(), "parent-only descriptor source")?;
    if is_absolute(d.source_path.as_str()) && same_text(d.access.as_str(), "read-only") && d.uid
        == 0 && d.gid == 0 && d.mode == 0o400 && d.links == 1 && d.size > 0 {
        Ok(())
    } else {
        Err(refuse("parent-only descriptor metadata is outside the Idunn contract"))
    }
}

fn open_file_of(d: &ParentOnlyFileDescriptorObservation) -> (text: String)
    ensures
        text@ == open_file_text(d@),
{
    cat5(d.source_path.as_str(), ":", d.fd_name.as_str(), ":", d.access.as_str())
}

/// The `OpenFile` properties of the descriptors, which must be exactly the ordered pair
/// of activation and presence.
pub fn parent_only_open_file_properties(
    descriptors: &[ParentOnlyFileDescriptorObservation],
    names: &LaunchNames,
) -> (outcome: Result<Vec<String>, Refusal>)
    ensures
        match (
            outcome,
            open_files(parent_only_file_descriptor_observation_views(descriptors@), *names),
        ) {
            (Ok(list), Ok(properties)) => texts(list@) == properties,
            (Err(refusal), Err(words)) => refusal@ == words,
            _ => false,
        },
{
    let ghost views = parent_only_file_descriptor_observation_views(descriptors@);
    assert(views.len() == descriptors@.len());
    if descriptors.len() != 2 {
        return Err(
            refuse("parent-only descriptor set is not the exact ordered activation/presence pair"),
        );
    }
    assert(views[0] == descriptors@[0]@);
    assert(views[1] == descriptors@[1]@);
    let exact = descriptors[0].fd_number == 3 && same_text(
        descriptors[0].fd_name.as_str(),
        names.activation_descriptor.as_str(),
    ) && descriptors[1].fd_number == 4 && same_text(
        descriptors[1].fd_name.as_str(),
        names.presence_descriptor.as_str(),
    );
    if !exact {
        return Err(
            refuse("parent-only descriptor set is not the exact ordered activation/presence pair"),
        );
    }
    check_descriptor(&descriptors[0])?;
    check_descriptor(&descriptors[1])?;
    let mut list: Vec<String> = Vec::new();
    push_text(&mut list, open_file_of(&descriptors[0]));
    push_text(&mut list, open_file_of(&descriptors[1]));
    assert(texts(list@) =~= seq![open_file_text(views[0]), open_file_text(views[1])]);
    Ok(list)
}

/// The unit of a runtime instance, or why the instance is refused.
pub open spec fn unit_of(prefix: Seq<char>, instance: Seq<char>) -> Result<Seq<char>, Seq<char>> {
    let suffix = instance.skip("sha256-"@.len() as int);
    if !starts(instance, "sha256-"@) {
        Err("runtime instance id has no sha256 prefix"@)
    } else if suffix.len() != 64 || !all_of(suffix, |c: char| hex(c)) {
        Err("runtime instance id is not a SHA-256 digest"@)
    } else {
        Ok(prefix + "-"@ + suffix + ".service"@)
    }
}

/// The unit of a runtime instance.
pub fn unit_name(prefix: &str, runtime_instance_id: &str) -> (outcome: Result<String, Refusal>)
    ensures
        crate::clock::written(outcome, unit_of(prefix@, runtime_instance_id@)),
{
    match strip_prefix(runtime_instance_id, "sha256-") {
        None => Err(refuse("runtime instance id has no sha256 prefix")),
        Some(suffix) => {
            let chars = chars_of(suffix.as_str());
            if chars.len() != 64 || !is_hex(suffix.as_str()) {
                return Err(refuse("runtime instance id is not a SHA-256 digest"));
            }
            Ok(cat4(prefix, "-", suffix.as_str(), ".service"))
        },
    }
}

/// Where an activation's credential is written, or why its root is refused.
pub open spec fn credential_source(credential_root: Seq<char>, instance: Seq<char>) -> Result<
    Seq<char>,
    Seq<char>,
> {
    if absolute(credential_root) && all_of(credential_root, |c: char| !whitespace(c)) {
        Ok(joined(credential_root, instance + ".credential"@))
    } else {
        Err("activation credential root must be an absolute path without whitespace"@)
    }
}

/// Where an activation's credential is written.
pub fn activation_credential_source(
    credential_root: &str,
    activation: &IdunnRuntimeActivationRecord,
) -> (outcome: Result<String, Refusal>)
    ensures
        crate::clock::written(
            outcome,
            credential_source(credential_root@, activation@.runtime_instance_id),
        ),
{
    let chars = chars_of(credential_root);
    let ghost kind = |c: char| !whitespace(c);
    let mut plain = true;
    let mut i: usize = 0;
    while i < chars.len()
        invariant
            i <= chars@.len(),
            chars@ == credential_root@,
            kind == (|c: char| !whitespace(c)),
            plain == (forall|j: int| 0 <= j < i ==> kind(#[trigger] credential_root@[j])),
        decreases chars@.len() - i,
    {
        if is_whitespace(chars[i]) {
            assert(!kind(credential_root@[i as int]));
            plain = false;
        }
        i += 1;
    }
    if !is_absolute(credential_root) || !plain {
        return Err(
            refuse("activation credential root must be an absolute path without whitespace"),
        );
    }
    let name = cat2(activation.runtime_instance_id.as_str(), ".credential");
    Ok(join(credential_root, name.as_str()))
}

/// The characters of a plain host name or address.
pub open spec fn host_char(c: char) -> bool {
    alphanumeric(c) || c == '.' || c == '-'
}

/// The host and port of an endpoint with a scheme, or why it is refused.
pub open spec fn host_port(endpoint: Seq<char>, scheme: Seq<char>) -> Result<
    (Seq<char>, u16),
    Seq<char>,
> {
    let authority = endpoint.skip(scheme.len() as int);
    if !starts(endpoint, scheme) {
        Err("endpoint does not use "@ + scheme)
    } else if authority.contains('/') || authority.contains('?') || authority.contains('#')
        || authority.contains('@') || (authority.len() > 0 && authority[0] == '[') {
        Err("route endpoint is not a plain host and port"@)
    } else {
        match cut_last(authority, ':') {
            None => Err("route endpoint has no port"@),
            Some((host, port)) => if host.len() == 0 || !all_of(host, |c: char| host_char(c)) {
                Err("route endpoint host is invalid"@)
            } else {
                match decimal_number(port, u16::MAX as int) {
                    None => Err("route endpoint port is not a u16"@),
                    Some(n) => if n > 0 {
                        Ok((host, n as u16))
                    } else {
                        Err("route endpoint port is zero"@)
                    },
                }
            },
        }
    }
}

/// The host and port of an endpoint with a scheme.
pub fn endpoint_host_port(endpoint: &str, scheme: &str) -> (outcome: Result<(String, u16), Refusal>)
    ensures
        match (outcome, host_port(endpoint@, scheme@)) {
            (Ok(found), Ok(owed)) => found.0@ == owed.0 && found.1 == owed.1,
            (Err(refusal), Err(words)) => refusal@ == words,
            _ => false,
        },
{
    let authority = match strip_prefix(endpoint, scheme) {
        Some(rest) => rest,
        None => return Err(Refusal { text: cat2("endpoint does not use ", scheme) }),
    };
    let first = chars_of(authority.as_str());
    if contains_char(authority.as_str(), '/') || contains_char(authority.as_str(), '?')
        || contains_char(authority.as_str(), '#') || contains_char(authority.as_str(), '@') || (
    first.len() > 0 && first[0] == '[') {
        return Err(refuse("route endpoint is not a plain host and port"));
    }
    let (host, port) = match rsplit_once(authority.as_str(), ':') {
        Some(halves) => halves,
        None => return Err(refuse("route endpoint has no port")),
    };
    if host.as_str().is_empty() || !is_host_name(host.as_str()) {
        return Err(refuse("route endpoint host is invalid"));
    }
    match parse_decimal(port.as_str(), 0xffffu64) {
        None => Err(refuse("route endpoint port is not a u16")),
        Some(n) => if n > 0 {
            Ok((host, n as u16))
        } else {
            Err(refuse("route endpoint port is zero"))
        },
    }
}

fn is_host_name(host: &str) -> (is: bool)
    ensures
        is == all_of(host@, |c: char| host_char(c)),
{
    let chars = chars_of(host);
    let ghost kind = |c: char| host_char(c);
    let mut i: usize = 0;
    while i < chars.len()
        invariant
            i <= chars@.len(),
            chars@ == host@,
            kind == (|c: char| host_char(c)),
            forall|j: int| 0 <= j < i ==> kind(#[trigger] host@[j]),
        decreases chars@.len() - i,
    {
        let c = chars[i];
        let plain = ('0' <= c && c <= '9') || ('a' <= c && c <= 'z') || ('A' <= c && c <= 'Z');
        if !(plain || c == '.' || c == '-') {
            assert(!kind(host@[i as int]));
            return false;
        }
        i += 1;
    }
    true
}

/// An environment with a name added that may not be there yet.
pub open spec fn adding(
    environment: Result<Seq<Pair>, Seq<char>>,
    name: Seq<char>,
    value: Seq<char>,
    words: Seq<char>,
) -> Result<Seq<Pair>, Seq<char>> {
    match environment {
        Err(w) => Err(w),
        Ok(pairs) => if is_named(pairs, name) {
            Err(words)
        } else {
            Ok(with(pairs, name, value))
        },
    }
}

pub(crate) fn add_name(
    environment: &TextMap,
    name: &str,
    value: &str,
    words: &str,
) -> (outcome: Result<TextMap, Refusal>)
    ensures
        map_is(
            outcome,
            adding(Ok::<Seq<Pair>, Seq<char>>(environment@), name@, value@, words@),
        ),
{
    if environment.contains(name) {
        return Err(refuse(words));
    }
    Ok(environment.inserted(name, value))
}

/// Whether an environment came out as it should.
pub open spec fn map_is(
    outcome: Result<TextMap, Refusal>,
    owed: Result<Seq<Pair>, Seq<char>>,
) -> bool {
    match (outcome, owed) {
        (Ok(map), Ok(pairs)) => map@ == pairs,
        (Err(refusal), Err(words)) => refusal@ == words,
        _ => false,
    }
}

/// The environment with the delivered credentials of the first secrets named, save the
/// presence identity's, which is delivered to the initial process alone.
pub open spec fn with_secrets(
    environment: Seq<Pair>,
    secrets: Seq<Pair>,
    directory: Seq<char>,
    presence: Seq<char>,
) -> Result<Seq<Pair>, Seq<char>>
    decreases secrets.len(),
{
    if secrets.len() == 0 {
        Ok(environment)
    } else {
        let earlier = with_secrets(environment, secrets.drop_last(), directory, presence);
        let name = secrets.last().0;
        if name == presence {
            earlier
        } else {
            adding(
                earlier,
                name,
                joined(directory, name),
                "workload environment and secret bindings collide"@,
            )
        }
    }
}

/// Where a candidate is to bind, as `host:port`, or why its route is refused.
pub open spec fn candidate_bind(route: ExpectedRouteView) -> Result<Seq<char>, Seq<char>> {
    match host_port(route.candidate_endpoint, route.transport + "://"@) {
        Err(w) => Err(w),
        Ok((host, port)) => Ok(host + ":"@ + decimal(port as nat)),
    }
}

/// The environment of a launched workload, or why it is refused: the operator's
/// bindings, the delivered credentials, the runtime bundle, and where there is a route or
/// a write lease the candidate's bind and the lease's record. None may be replaced.
pub open spec fn environment_of(
    binding: SystemdWorkloadBinding,
    write_lease: Option<ProcessWriteLeaseBinding>,
    bundle: Seq<char>,
    route: Option<ExpectedRouteView>,
    unit: Seq<char>,
    names: LaunchNames,
) -> Result<Seq<Pair>, Seq<char>> {
    let base = adding(
        with_secrets(
            binding.environment@,
            binding.secret_files@,
            joined("/run/credentials"@, unit),
            names.presence_identity_binding@,
        ),
        names.runtime_bundle@,
        bundle,
        "operator binding attempts to replace the Idunn runtime bundle"@,
    );
    let routed = match base {
        Err(w) => Err(w),
        Ok(pairs) => match route {
            Some(r) => match candidate_bind(r) {
                Err(w) => Err(w),
                Ok(bind) => adding(
                    base,
                    names.candidate_bind@,
                    bind,
                    "operator binding attempts to replace the Idunn candidate bind"@,
                ),
            },
            None => if is_named(pairs, names.candidate_bind@) {
                Err("unrouted workload carries an Idunn candidate bind"@)
            } else {
                base
            },
        },
    };
    match routed {
        Err(w) => Err(w),
        Ok(pairs) => match write_lease {
            Some(lease) => adding(
                routed,
                names.process_write_lease@,
                lease.record_path@,
                "operator binding attempts to replace the Idunn process write lease"@,
            ),
            None => if is_named(pairs, names.process_write_lease@) {
                Err("stateless workload carries an Idunn process write lease"@)
            } else {
                routed
            },
        },
    }
}

proof fn lemma_secrets_fail(
    environment: Seq<Pair>,
    secrets: Seq<Pair>,
    directory: Seq<char>,
    presence: Seq<char>,
    n: int,
)
    requires
        0 <= n <= secrets.len(),
        with_secrets(environment, secrets.take(n), directory, presence) is Err,
    ensures
        with_secrets(environment, secrets, directory, presence) == with_secrets(
            environment,
            secrets.take(n),
            directory,
            presence,
        ),
    decreases secrets.len() - n,
{
    if n < secrets.len() {
        assert(secrets.take(n + 1).drop_last() =~= secrets.take(n));
        lemma_secrets_fail(environment, secrets, directory, presence, n + 1);
    } else {
        assert(secrets.take(n) =~= secrets);
    }
}

fn add_secrets(environment: &TextMap, secrets: &TextMap, directory: &str, presence: &str) -> (
    outcome: Result<TextMap, Refusal>)
    ensures
        map_is(outcome, with_secrets(environment@, secrets@, directory@, presence@)),
{
    let mut map = environment.copy();
    let n: usize = secrets.len();
    let mut i: usize = 0;
    assert(secrets@.take(0) =~= Seq::<Pair>::empty());
    while i < n
        invariant
            i <= n,
            n == secrets@.len(),
            with_secrets(environment@, secrets@.take(i as int), directory@, presence@) == Ok::<
                Seq<Pair>,
                Seq<char>,
            >(map@),
        decreases n - i,
    {
        proof {
            assert(secrets@.take(i + 1).drop_last() =~= secrets@.take(i as int));
            assert(secrets@.take(i + 1).last() == secrets@[i as int]);
        }
        let name = secrets.name_at(i);
        if !same_text(name, presence) {
            let delivered = join(directory, name);
            match add_name(
                &map,
                name,
                delivered.as_str(),
                "workload environment and secret bindings collide",
            ) {
                Ok(grown) => {
                    map = grown;
                },
                Err(refusal) => {
                    proof {
                        lemma_secrets_fail(environment@, secrets@, directory@, presence@, i + 1);
                    }
                    return Err(refusal);
                },
            }
        }
        i += 1;
    }
    assert(secrets@.take(i as int) =~= secrets@);
    Ok(map)
}

/// The environment of a launched workload.
pub fn launch_environment(
    binding: &SystemdWorkloadBinding,
    write_lease: &Option<ProcessWriteLeaseBinding>,
    bundle: &str,
    expected: &IdunnExpectedIncarnationRecord,
    unit: &str,
    names: &LaunchNames,
) -> (outcome: Result<TextMap, Refusal>)
    ensures
        map_is(
            outcome,
            environment_of(*binding, *write_lease, bundle@, expected@.route, unit@, *names),
        ),
{
    let directory = join("/run/credentials", unit);
    let with_credentials = add_secrets(
        &binding.environment,
        &binding.secret_files,
        directory.as_str(),
        names.presence_identity_binding.as_str(),
    )?;
    let base = add_name(
        &with_credentials,
        names.runtime_bundle.as_str(),
        bundle,
        "operator binding attempts to replace the Idunn runtime bundle",
    )?;
    let routed = match &expected.route {
        Some(route) => {
            let scheme = cat2(route.transport.as_str(), "://");
            let (host, port) = endpoint_host_port(
                route.candidate_endpoint.as_str(),
                scheme.as_str(),
            )?;
            let digits = decimal_of(port as u64);
            let bind = cat3(host.as_str(), ":", digits.as_str());
            add_name(
                &base,
                names.candidate_bind.as_str(),
                bind.as_str(),
                "operator binding attempts to replace the Idunn candidate bind",
            )?
        },
        None => {
            if base.contains(names.candidate_bind.as_str()) {
                return Err(refuse("unrouted workload carries an Idunn candidate bind"));
            }
            base
        },
    };
    match write_lease {
        Some(lease) => add_name(
            &routed,
            names.process_write_lease.as_str(),
            lease.record_path.as_str(),
            "operator binding attempts to replace the Idunn process write lease",
        ),
        None => {
            if routed.contains(names.process_write_lease.as_str()) {
                return Err(refuse("stateless workload carries an Idunn process write lease"));
            }
            Ok(routed)
        },
    }
}

/// The command of a launched workload, or why it is refused.
pub open spec fn command_of(
    declaration: TargetDeclaration,
    bindings: Seq<Pair>,
    installed: Seq<char>,
    executable_is_file: bool,
) -> Result<Seq<Seq<char>>, Seq<char>> {
    let id = declaration.service.executable_artifact@;
    if !declares(declaration.artifacts@, id) {
        Err("target declares no artifact "@ + id)
    } else if !executable_is_file {
        Err("sealed service executable is absent"@)
    } else {
        Ok(
            seq![joined(installed, artifact_destination(declaration.artifacts@, id))]
                + argument_texts(declaration.service.arguments@, bindings),
        )
    }
}

/// The executable of a target's service in an installed release.
pub fn service_executable(declaration: &TargetDeclaration, installed: &str) -> (outcome: Result<
    String,
    Refusal,
>)
    ensures
        match outcome {
            Ok(path) => declares(
                declaration.artifacts@,
                declaration.service.executable_artifact@,
            ) && path@ == joined(
                installed@,
                artifact_destination(
                    declaration.artifacts@,
                    declaration.service.executable_artifact@,
                ),
            ),
            Err(refusal) => !declares(
                declaration.artifacts@,
                declaration.service.executable_artifact@,
            ) && refusal@ == "target declares no artifact "@
                + declaration.service.executable_artifact@,
        },
{
    let artifact = release_artifact(declaration, declaration.service.executable_artifact.as_str())?;
    proof {
        let i = choose|i: int|
            artifact_place(
                declaration.artifacts@,
                declaration.service.executable_artifact@,
                i,
            ) && *artifact == #[trigger] declaration.artifacts@[i];
        lemma_artifact_destination(
            declaration.artifacts@,
            declaration.service.executable_artifact@,
            i,
        );
    }
    Ok(join(installed, artifact.destination.as_str()))
}

/// The texts of a service's arguments.
pub fn resolve_arguments(arguments: &Vec<LaunchArgument>, bindings: &TextMap) -> (list: Vec<String>)
    requires
        arguments_bound(arguments@, bindings@),
    ensures
        texts(list@) == argument_texts(arguments@, bindings@),
{
    let mut list: Vec<String> = Vec::new();
    let mut i: usize = 0;
    while i < arguments.len()
        invariant
            i <= arguments@.len(),
            arguments_bound(arguments@, bindings@),
            texts(list@) == argument_texts(arguments@, bindings@).take(i as int),
        decreases arguments@.len() - i,
    {
        let ghost all = argument_texts(arguments@, bindings@);
        assert(arguments@[i as int] == arguments[i as int]);
        let text = match &arguments[i] {
            LaunchArgument::Literal { value } => value.clone(),
            LaunchArgument::Binding { name } => {
                assert(is_named(bindings@, name@));
                match bindings.get(name.as_str()) {
                    Some(value) => value,
                    None => String::new(),
                }
            },
        };
        assert(text@ == all[i as int]);
        push_text(&mut list, text);
        i += 1;
        assert(all.take(i as int) =~= all.take(i - 1).push(all[i - 1]));
    }
    assert(argument_texts(arguments@, bindings@).take(i as int) =~= argument_texts(
        arguments@,
        bindings@,
    ));
    list
}

/// The command of a launched workload. Every argument that names a binding is bound.
pub fn launch_command(
    declaration: &TargetDeclaration,
    binding: &SystemdWorkloadBinding,
    installed: &str,
    executable_is_file: bool,
) -> (outcome: Result<Vec<String>, Refusal>)
    requires
        arguments_bound(declaration.service.arguments@, binding.argument_bindings@),
    ensures
        match (
            outcome,
            command_of(*declaration, binding.argument_bindings@, installed@, executable_is_file),
        ) {
            (Ok(list), Ok(command)) => texts(list@) == command,
            (Err(refusal), Err(words)) => refusal@ == words,
            _ => false,
        },
{
    let executable = service_executable(declaration, installed)?;
    if !executable_is_file {
        return Err(refuse("sealed service executable is absent"));
    }
    let arguments = resolve_arguments(&declaration.service.arguments, &binding.argument_bindings);
    let mut command: Vec<String> = Vec::new();
    let ghost program = executable@;
    push_text(&mut command, executable);
    assert(texts(command@) =~= seq![program]);
    push_texts(&mut command, arguments.as_slice());
    Ok(command)
}

/// The names of the secrets that systemd delivers as credentials.
pub open spec fn delivered_names(secrets: Seq<Pair>, presence: Seq<char>) -> Seq<Seq<char>>
    decreases secrets.len(),
{
    if secrets.len() == 0 {
        Seq::empty()
    } else {
        let earlier = delivered_names(secrets.drop_last(), presence);
        if secrets.last().0 == presence {
            earlier
        } else {
            earlier.push(secrets.last().0)
        }
    }
}

/// The names of the secrets that systemd delivers as credentials.
pub fn service_credential_names(secrets: &TextMap, presence: &str) -> (names: Vec<String>)
    ensures
        texts(names@) == delivered_names(secrets@, presence@),
{
    let mut names: Vec<String> = Vec::new();
    let n: usize = secrets.len();
    let mut i: usize = 0;
    proof {
        assert(secrets@.take(0) =~= Seq::<Pair>::empty());
        assert(texts(names@) =~= Seq::<Seq<char>>::empty());
    }
    while i < n
        invariant
            i <= n,
            n == secrets@.len(),
            texts(names@) == delivered_names(secrets@.take(i as int), presence@),
        decreases n - i,
    {
        proof {
            assert(secrets@.take(i + 1).drop_last() =~= secrets@.take(i as int));
            assert(secrets@.take(i + 1).last() == secrets@[i as int]);
        }
        let name = secrets.name_at(i);
        if !same_text(name, presence) {
            push_text(&mut names, name.to_owned());
        }
        i += 1;
    }
    assert(secrets@.take(i as int) =~= secrets@);
    names
}

/// The description of a unit: the target and the instance its bundle is named by.
pub open spec fn unit_description(target: Seq<char>, bundle: Seq<char>) -> Result<
    Seq<char>,
    Seq<char>,
> {
    match file_name(bundle) {
        None => Err("runtime bundle has no instance id"@),
        Some(instance) => Ok("Idunn "@ + target + " "@ + instance),
    }
}

/// The description of a unit.
pub fn describe_unit(target: &str, bundle: &str) -> (outcome: Result<String, Refusal>)
    ensures
        crate::clock::written(outcome, unit_description(target@, bundle@)),
{
    match file_name_of(bundle) {
        None => Err(refuse("runtime bundle has no instance id")),
        Some(instance) => Ok(cat4("Idunn ", target, " ", instance.as_str())),
    }
}

} // verus!
