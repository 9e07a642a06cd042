//! The driver of a target's route: an nginx fragment that forwards its stable endpoint to
//! one private candidate, the firewall rule that opens the endpoint, and the receipts by
//! which a candidate's membership is rehearsed, installed and taken back.
use vstd::prelude::*;
use vstd::utf8::encode_utf8;

use crate::digest::{
    digest_id, driver_id_refusal, require_driver_id, require_sha256_id, sha256_id,
    sha256_id_refusal,
};
use crate::launch::{endpoint_host_port, host_port};
use crate::paths::{absolute, is_absolute, join, joined};
use crate::procfs::fault;
use crate::records::{
    ExpectedRoute, ExpectedRouteView, IdunnExpectedIncarnationRecord,
    IdunnExpectedIncarnationRecordView,
};
use crate::scan::{contains_char, contains_text, decimal, holds_text, decimal_of, trim, trimmed};
use crate::text::{
    behind, bytes_option, cat2, cat3, cat4, cat5, chars_of, check, copy_bytes, copy_bytes_option, either,
    failed, judged, push_text, push_texts, refuse, refuse_behind, refuse_failed, same_bytes,
    same_bytes_option, same_option, same_text, text_of, text_option, texts, unless, Refusal,
};

verus! {

/// How nginx carries a route.
#[derive(Clone, Copy, Debug, PartialEq, Eq, Structural)]
pub enum RouteDriver {
    NginxStreamTcp,
    NginxStreamUdp,
}

/// What an operator binds of a target's route.
#[derive(Clone, Debug, PartialEq, Eq)]
pub struct RouteBinding {
    pub route_id: String,
    pub driver: RouteDriver,
    pub stable_endpoint: String,
    pub private_host: String,
    pub private_port_start: u16,
    pub private_port_end: u16,
    pub config_path: String,
    pub reload_unit: String,
}

/// That a route's listener showed the presence of a runtime instance.
#[derive(Clone, Debug, PartialEq, Eq)]
pub struct RouteObservation {
    pub route_id: String,
    pub runtime_instance_id: String,
    pub membership_sha256: String,
    pub signed_presence_sha256: String,
    pub observed_at_unix_millis: u64,
}

/// What a rehearsal found before a candidate's membership was installed.
#[derive(Clone, Debug, PartialEq, Eq)]
pub struct RoutePreflightReceipt {
    pub route_id: String,
    pub candidate_runtime_instance_id: String,
    pub candidate_membership_sha256: String,
    pub incumbent_runtime_instance_id: Option<String>,
    pub incumbent_membership_sha256: Option<String>,
    pub incumbent_configuration: Option<Vec<u8>>,
}

impl RouteObservation {
    /// Why an observation is refused, if it is.
    pub open spec fn refusal(&self) -> Option<Seq<char>> {
        either(
            driver_id_refusal(self.route_id@, "route observation"@),
            either(
                sha256_id_refusal(self.runtime_instance_id@, "route runtime instance"@),
                either(
                    sha256_id_refusal(self.membership_sha256@, "route membership"@),
                    either(
                        sha256_id_refusal(self.signed_presence_sha256@, "route signed presence"@),
                        unless(
                            self.observed_at_unix_millis > 0,
                            "route observation has no trusted receipt time"@,
                        ),
                    ),
                ),
            ),
        )
    }

    /// Admits an observation.
    pub fn validate(&self) -> (outcome: Result<(), Refusal>)
        ensures
            judged(outcome, self.refusal()),
    {
        require_driver_id(self.route_id.as_str(), "route observation")?;
        require_sha256_id(self.runtime_instance_id.as_str(), "route runtime instance")?;
        require_sha256_id(self.membership_sha256.as_str(), "route membership")?;
        require_sha256_id(self.signed_presence_sha256.as_str(), "route signed presence")?;
        check(
            self.observed_at_unix_millis > 0,
            "route observation has no trusted receipt time",
        )
    }
}

/// Why an incumbent's evidence is refused, if it is.
pub open spec fn incumbent_refusal(
    runtime: Seq<char>,
    membership: Seq<char>,
    configuration: Seq<u8>,
) -> Option<Seq<char>> {
    either(
        sha256_id_refusal(runtime, "incumbent route runtime instance"@),
        either(
            sha256_id_refusal(membership, "incumbent route membership"@),
            either(
                unless(configuration.len() > 0, "incumbent route configuration is empty"@),
                unless(
                    digest_id(configuration) == membership,
                    "incumbent route configuration differs from its membership digest"@,
                ),
            ),
        ),
    )
}

impl RoutePreflightReceipt {
    /// Why a receipt is refused, if it is: the evidence of an incumbent is whole or absent.
    pub open spec fn refusal(&self) -> Option<Seq<char>> {
        either(
            driver_id_refusal(self.route_id@, "route preflight"@),
            either(
                sha256_id_refusal(
                    self.candidate_runtime_instance_id@,
                    "candidate route runtime instance"@,
                ),
                either(
                    sha256_id_refusal(
                        self.candidate_membership_sha256@,
                        "candidate route membership"@,
                    ),
                    match (
                        self.incumbent_runtime_instance_id,
                        self.incumbent_membership_sha256,
                        self.incumbent_configuration,
                    ) {
                        (None, None, None) => None,
                        (Some(runtime), Some(membership), Some(configuration)) =>
                            incumbent_refusal(runtime@, membership@, configuration@),
                        _ => Some("incumbent route preflight evidence is partial"@),
                    },
                ),
            ),
        )
    }

    /// Admits a receipt.
    pub fn validate(&self) -> (outcome: Result<(), Refusal>)
        ensures
            judged(outcome, self.refusal()),
    {
        require_driver_id(self.route_id.as_str(), "route preflight")?;
        require_sha256_id(
            self.candidate_runtime_instance_id.as_str(),
            "candidate route runtime instance",
        )?;
        require_sha256_id(
            self.candidate_membership_sha256.as_str(),
            "candidate route membership",
        )?;
        match (
            &self.incumbent_runtime_instance_id,
            &self.incumbent_membership_sha256,
            &self.incumbent_configuration,
        ) {
            (None, None, None) => Ok(()),
            (Some(runtime), Some(membership), Some(configuration)) => {
                require_sha256_id(runtime.as_str(), "incumbent route runtime instance")?;
                require_sha256_id(membership.as_str(), "incumbent route membership")?;
                check(configuration.len() > 0, "incumbent route configuration is empty")?;
                let id = sha256_id(configuration.as_slice());
                check(
                    same_text(id.as_str(), membership.as_str()),
                    "incumbent route configuration differs from its membership digest",
                )
            },
            _ => Err(refuse("incumbent route preflight evidence is partial")),
        }
    }
}

/// The driver of one route, with its programs and places.
#[derive(Clone, Debug, PartialEq, Eq)]
pub struct NginxRouteDriver {
    pub binding: RouteBinding,
    pub nginx_program: String,
    pub systemd_run_program: String,
    pub systemctl_program: String,
    pub ufw_program: String,
    pub preflight_root: String,
}

/// Whether a character can stand in an nginx identifier as it is.
pub open spec fn identifier_char(c: char) -> bool {
    crate::scan::alphanumeric(c) || c == '_'
}

/// The nginx identifier of a route, or why it has none.
pub open spec fn identifier_of(route_id: Seq<char>) -> Result<Seq<char>, Seq<char>> {
    if route_id.len() == 0 {
        Err("nginx route id is empty"@)
    } else if !(forall|i: int|
        0 <= i < route_id.len() ==> identifier_char(#[trigger] route_id[i]) || route_id[i] == '-'
            || route_id[i] == '.') {
        Err("route id cannot lower to an nginx identifier"@)
    } else {
        Ok(
            "idunn_"@ + Seq::new(
                route_id.len(),
                |i: int|
                    if identifier_char(route_id[i]) {
                        route_id[i]
                    } else {
                        '_'
                    },
            ),
        )
    }
}

/// The nginx identifier of a route.
pub fn nginx_identifier(route_id: &str) -> (outcome: Result<String, Refusal>)
    ensures
        crate::clock::written(outcome, identifier_of(route_id@)),
{
    check(!route_id.is_empty(), "nginx route id is empty")?;
    let chars = chars_of(route_id);
    let mut out: Vec<char> = Vec::new();
    let mut i: usize = 0;
    while i < chars.len()
        invariant
            i <= chars@.len(),
            chars@ == route_id@,
            out@.len() == i,
            route_id@.len() > 0,
            forall|j: int|
                0 <= j < i ==> identifier_char(#[trigger] route_id@[j]) || route_id@[j] == '-'
                    || route_id@[j] == '.',
            forall|j: int|
                0 <= j < i ==> #[trigger] out@[j] == (if identifier_char(route_id@[j]) {
                    route_id@[j]
                } else {
                    '_'
                }),
        decreases chars@.len() - i,
    {
        let c = chars[i];
        assert(c == route_id@[i as int]);
        if ('a' <= c && c <= 'z') || ('A' <= c && c <= 'Z') || ('0' <= c && c <= '9') || c == '_' {
            out.push(c);
        } else if c == '-' || c == '.' {
            out.push('_');
        } else {
            return Err(refuse("route id cannot lower to an nginx identifier"));
        }
        i += 1;
    }
    let tail = text_of(out.as_slice());
    let ghost owed = Seq::new(
        route_id@.len(),
        |i: int|
            if identifier_char(route_id@[i]) {
                route_id@[i]
            } else {
                '_'
            },
    );
    assert(tail@ =~= owed);
    Ok(cat2("idunn_", tail.as_str()))
}

/// The protocol that a route is carried in.
pub open spec fn protocol_of(driver: RouteDriver) -> Seq<char> {
    match driver {
        RouteDriver::NginxStreamTcp => "tcp"@,
        RouteDriver::NginxStreamUdp => "udp"@,
    }
}

/// The one firewall rule that a route owns: inbound to its stable address and port, in its
/// protocol.
pub open spec fn rule_of(driver: RouteDriver, host: Seq<char>, port: u16) -> Seq<Seq<char>> {
    seq![
        "allow"@,
        "in"@,
        "to"@,
        host,
        "port"@,
        decimal(port as nat),
        "proto"@,
        protocol_of(driver),
    ]
}

/// The arguments that open the endpoint of a route: its rule, tagged with the route.
pub open spec fn opening(binding: RouteBinding, host: Seq<char>, port: u16) -> Seq<Seq<char>> {
    rule_of(binding.driver, host, port) + seq!["comment"@, "Idunn route "@ + binding.route_id@]
}

/// The arguments that close the endpoint of a route.
pub open spec fn closing(binding: RouteBinding, host: Seq<char>, port: u16) -> Seq<Seq<char>> {
    seq!["delete"@] + rule_of(binding.driver, host, port)
}

/// What a fragment forwards: an upstream, its server, and the listener in front.
pub struct Fragment {
    pub expected_sha256: Seq<char>,
    pub upstream: Seq<char>,
    pub candidate: (Seq<char>, u16),
    pub stable: (Seq<char>, u16),
    pub udp: bool,
}

/// The text of a fragment.
pub open spec fn fragment_text(f: Fragment) -> Seq<char> {
    "# Idunn Expected "@ + f.expected_sha256 + "\nupstream "@ + f.upstream + " {\n    server "@
        + f.candidate.0 + ":"@ + decimal(f.candidate.1 as nat) + ";\n}\nserver {\n    listen "@
        + f.stable.0 + ":"@ + decimal(f.stable.1 as nat) + (if f.udp {
        " udp reuseport"@
    } else {
        ""@
    }) + ";\n    proxy_pass "@ + f.upstream + ";\n}\n"@
}

/// The scheme that a driver and a transport have in common, if they have one.
pub open spec fn scheme_of(driver: RouteDriver, transport: Seq<char>) -> Option<Seq<char>> {
    match driver {
        RouteDriver::NginxStreamTcp => if transport == "http"@ {
            Some("http://"@)
        } else if transport == "tcp"@ {
            Some("tcp://"@)
        } else {
            None
        },
        RouteDriver::NginxStreamUdp => if transport == "rudp"@ {
            Some("rudp://"@)
        } else {
            None
        },
    }
}

/// The fragment of an expected route, or why there is none.
pub open spec fn fragment_of(
    binding: RouteBinding,
    expected: IdunnExpectedIncarnationRecordView,
) -> Result<Fragment, Seq<char>> {
    match expected.route {
        None => Err("expected incarnation has no route"@),
        Some(route) => if route.route_id != binding.route_id@ || route.stable_endpoint
            != binding.stable_endpoint@ {
            Err("route driver binding differs from Expected"@)
        } else {
            match scheme_of(binding.driver, route.transport) {
                None => Err("route driver cannot carry the Expected transport"@),
                Some(scheme) => match host_port(route.candidate_endpoint, scheme) {
                    Err(w) => Err(w),
                    Ok(candidate) => if candidate.0 != binding.private_host@ || !(
                    binding.private_port_start <= candidate.1 <= binding.private_port_end) {
                        Err("Expected candidate endpoint is outside the route binding"@)
                    } else {
                        match identifier_of(binding.route_id@) {
                            Err(w) => Err(w),
                            Ok(upstream) => match host_port(route.stable_endpoint, scheme) {
                                Err(w) => Err(w),
                                Ok(stable) => Ok(
                                    Fragment {
                                        expected_sha256: expected.canonical_sha256,
                                        upstream,
                                        candidate,
                                        stable,
                                        udp: binding.driver is NginxStreamUdp,
                                    },
                                ),
                            },
                        }
                    },
                },
            }
        },
    }
}

/// The bytes of the fragment of an expected route, or why there are none.
pub open spec fn membership_of(
    binding: RouteBinding,
    expected: IdunnExpectedIncarnationRecordView,
) -> Result<Seq<u8>, Seq<char>> {
    match fragment_of(binding, expected) {
        Err(w) => Err(w),
        Ok(fragment) => Ok(encode_utf8(fragment_text(fragment))),
    }
}

/// The configuration that a reading of the fragment amounts to: a fragment without bytes
/// routes nothing, so it is no configuration.
pub open spec fn configured(reading: Result<Option<Vec<u8>>, Refusal>) -> Result<
    Option<Seq<u8>>,
    Seq<char>,
> {
    match reading {
        Err(refusal) => Err(refusal@),
        Ok(None) => Ok(None),
        Ok(Some(bytes)) => if bytes@.len() == 0 {
            Ok(None)
        } else {
            Ok(Some(bytes@))
        },
    }
}

/// The configuration that a reading of the fragment amounts to.
pub fn current_configuration(reading: Result<Option<Vec<u8>>, Refusal>) -> (outcome: Result<
    Option<Vec<u8>>,
    Refusal,
>)
    ensures
        match (outcome, configured(reading)) {
            (Ok(found), Ok(owed)) => bytes_option(found) == owed,
            (Err(refusal), Err(w)) => refusal@ == w,
            _ => false,
        },
{
    match reading {
        Err(refusal) => Err(refusal),
        Ok(None) => Ok(None),
        Ok(Some(bytes)) => if bytes.len() == 0 {
            Ok(None)
        } else {
            Ok(Some(bytes))
        },
    }
}

/// The membership that a configuration is, if there is one.
pub open spec fn membership_id(configuration: Option<Seq<u8>>) -> Option<Seq<char>> {
    match configuration {
        Some(bytes) => Some(digest_id(bytes)),
        None => None,
    }
}

fn membership_sha256(configuration: &Option<Vec<u8>>) -> (id: Option<String>)
    ensures
        text_option(id) == membership_id(bytes_option(*configuration)),
{
    match configuration {
        Some(bytes) => Some(sha256_id(bytes.as_slice())),
        None => None,
    }
}

/// What a rehearsal starts from: the candidate's fragment and what is configured.
#[derive(Debug, PartialEq, Eq)]
pub struct RouteBaseline {
    pub rendered: Vec<u8>,
    pub current: Option<Vec<u8>>,
}

/// Why a rehearsal may not start, if so.
pub open spec fn baseline_refusal(
    binding: RouteBinding,
    expected: IdunnExpectedIncarnationRecordView,
    reading: Result<Option<Vec<u8>>, Refusal>,
    incumbent: Option<RouteObservation>,
) -> Option<Seq<char>> {
    let rendered = membership_of(binding, expected);
    let id = membership_id(configured(reading)->Ok_0);
    either(
        fault(rendered),
        either(
            unless(rendered->Ok_0.len() > 0, "candidate route rendered empty"@),
            either(
                fault(configured(reading)),
                match incumbent {
                    Some(admitted) => unless(
                        admitted.route_id@ == binding.route_id@ && Some(
                            admitted.membership_sha256@,
                        ) == id,
                        "route preflight baseline differs from the admitted incumbent"@,
                    ),
                    None => unless(
                        id is None,
                        "route preflight found an unadmitted incumbent"@,
                    ),
                },
            ),
        ),
    )
}

/// What the route is put back to: its fragment, and whether the endpoint closes with it.
#[derive(Clone, Debug, PartialEq, Eq)]
pub struct RouteRestoration {
    pub content: Option<Vec<u8>>,
    pub close_endpoint: bool,
}

/// Whether a route is put back to a configuration: without one, the endpoint is closed.
pub open spec fn restores(restoration: RouteRestoration, prior: Option<Seq<u8>>) -> bool {
    &&& bytes_option(restoration.content) == prior
    &&& restoration.close_endpoint == (prior is None)
}

/// What a candidate's membership is installed with.
#[derive(Debug, PartialEq, Eq)]
pub struct RouteInstallation {
    pub rendered: Vec<u8>,
    pub already_written: bool,
}

/// Whether a receipt authorizes a candidate's membership.
pub open spec fn authorizes(
    receipt: RoutePreflightReceipt,
    binding: RouteBinding,
    runtime_instance_id: Seq<char>,
    rendered: Seq<u8>,
) -> bool {
    &&& receipt.route_id@ == binding.route_id@
    &&& receipt.candidate_runtime_instance_id@ == runtime_instance_id
    &&& receipt.candidate_membership_sha256@ == digest_id(rendered)
}

/// Why a candidate's membership may not be installed, if so.
pub open spec fn installation_refusal(
    binding: RouteBinding,
    expected: IdunnExpectedIncarnationRecordView,
    runtime_instance_id: Seq<char>,
    receipt: RoutePreflightReceipt,
    reading: Result<Option<Vec<u8>>, Refusal>,
) -> Option<Seq<char>> {
    let rendered = membership_of(binding, expected);
    let prior = configured(reading)->Ok_0;
    either(
        receipt.refusal(),
        either(
            fault(rendered),
            either(
                unless(
                    authorizes(receipt, binding, runtime_instance_id, rendered->Ok_0),
                    "route preflight does not authorize this candidate membership"@,
                ),
                either(
                    fault(configured(reading)),
                    unless(
                        prior == Some(rendered->Ok_0) || (prior == bytes_option(
                            receipt.incumbent_configuration,
                        ) && membership_id(prior) == text_option(
                            receipt.incumbent_membership_sha256,
                        )),
                        "route baseline changed after preflight"@,
                    ),
                ),
            ),
        ),
    )
}

/// What follows a reload that failed after a candidate's membership was written.
#[derive(Debug, PartialEq, Eq)]
pub enum FailedInstallation {
    RollBack { restoration: RouteRestoration, context: String },
    Retain { context: String },
}

/// What follows a reload that failed after an admitted membership was written: the fragment
/// that is removed.
#[derive(Debug, PartialEq, Eq)]
pub struct RestorationCleanup {
    pub fragment: String,
}

/// How a rehearsal's validation and the deletion of its material come out together.
pub open spec fn validated(
    validation: Result<(), Refusal>,
    deletion: Result<(), Refusal>,
) -> Option<Seq<char>> {
    match (validation, deletion) {
        (Ok(_), Ok(_)) => None,
        (Err(refusal), Ok(_)) => Some(
            behind("candidate route is invalid in a private mount namespace"@, refusal@),
        ),
        (Ok(_), Err(refusal)) => Some(behind("deleting route preflight material"@, refusal@)),
        (Err(_), Err(_)) => Some(
            failed(
                "candidate route is invalid"@,
                "; deleting its private preflight material also failed: "@,
                validation->Err_0@,
                deletion,
            ),
        ),
    }
}

/// Settles a rehearsal once its material was deleted, or was not.
pub fn settle_validation(
    validation: &Result<(), Refusal>,
    deletion: &Result<(), Refusal>,
) -> (outcome: Result<(), Refusal>)
    ensures
        judged(outcome, validated(*validation, *deletion)),
{
    match (validation, deletion) {
        (Ok(_), Ok(_)) => Ok(()),
        (Err(refusal), Ok(_)) => Err(
            refuse_behind("candidate route is invalid in a private mount namespace", refusal),
        ),
        (Ok(_), Err(refusal)) => Err(refuse_behind("deleting route preflight material", refusal)),
        (Err(refusal), Err(_)) => Err(
            refuse_failed(
                "candidate route is invalid",
                "; deleting its private preflight material also failed: ",
                refusal,
                deletion,
            ),
        ),
    }
}

fn is_configured(configuration: &Option<Vec<u8>>, rendered: &Vec<u8>) -> (is: bool)
    ensures
        is == (bytes_option(*configuration) == Some(rendered@)),
{
    match configuration {
        Some(bytes) => same_bytes(bytes.as_slice(), rendered.as_slice()),
        None => false,
    }
}

/// The arguments of a rehearsal in a private mount.
pub open spec fn rehearsal_arguments(unit: Seq<char>, bind: Seq<char>, nginx: Seq<char>) -> Seq<
    Seq<char>,
> {
    seq![
        "--wait"@,
        "--collect"@,
        "--quiet"@,
        "--unit="@ + unit,
        "--property=Type=exec"@,
        "--property=PrivateMounts=yes"@,
        bind,
        "--"@,
        nginx,
        "-t"@,
    ]
}

/// Whether a path can stand in a bind property.
pub open spec fn bindable(path: Seq<char>) -> bool {
    !path.contains(':') && !path.contains('\n') && !path.contains('\r') && !path.contains('\0')
}

/// The property that binds one path over another for reading, or why there is none.
pub open spec fn bind_property(source: Seq<char>, destination: Seq<char>) -> Result<
    Seq<char>,
    Seq<char>,
> {
    if !absolute(source) || !absolute(destination) {
        Err("systemd bind paths are not absolute"@)
    } else if !bindable(source) || !bindable(destination) {
        Err("systemd bind path contains an unescaped property delimiter"@)
    } else {
        Ok("--property=BindReadOnlyPaths="@ + source + ":"@ + destination)
    }
}

fn is_bindable(path: &str) -> (is: bool)
    ensures
        is == bindable(path@),
{
    !contains_char(path, ':') && !contains_char(path, '\n') && !contains_char(path, '\r')
        && !contains_char(path, '\0')
}

/// The property that binds one path over another for reading.
pub fn systemd_read_only_bind_property(source: &str, destination: &str) -> (outcome: Result<
    String,
    Refusal,
>)
    ensures
        crate::clock::written(outcome, bind_property(source@, destination@)),
{
    check(
        is_absolute(source) && is_absolute(destination),
        "systemd bind paths are not absolute",
    )?;
    check(
        is_bindable(source) && is_bindable(destination),
        "systemd bind path contains an unescaped property delimiter",
    )?;
    Ok(cat4("--property=BindReadOnlyPaths=", source, ":", destination))
}

/// A rehearsal: where the candidate's fragment lies meanwhile, and what is run.
#[derive(Clone, Debug, PartialEq, Eq)]
pub struct Rehearsal {
    pub candidate: String,
    pub unit: String,
}

/// What a route is asked, to show the presence of a runtime.
#[derive(Clone, Debug, PartialEq, Eq)]
pub struct RouteChallenge {
    pub transport: String,
    pub host: String,
    pub port: u16,
    pub record_key: String,
}

/// The scheme of a transport that a route can be asked over, if it can.
pub open spec fn challenge_scheme(transport: Seq<char>) -> Option<Seq<char>> {
    if transport == "http"@ {
        Some("http://"@)
    } else if transport == "tcp"@ {
        Some("tcp://"@)
    } else if transport == "rudp"@ {
        Some("rudp://"@)
    } else {
        None
    }
}

/// Where a route is asked, or why it is not.
pub open spec fn challenge_at(
    route: ExpectedRouteView,
    message_id: Seq<char>,
    endpoint: Seq<char>,
) -> Result<(Seq<char>, u16), Seq<char>> {
    match driver_id_refusal(message_id, "route challenge message"@) {
        Some(w) => Err(w),
        None => match challenge_scheme(route.transport) {
            None => Err("route challenge transport is unsupported"@),
            Some(scheme) => host_port(endpoint, scheme),
        },
    }
}

/// Whether a challenge is the one that is owed, or refused as it should be.
pub open spec fn challenged(
    outcome: Result<RouteChallenge, Refusal>,
    route: ExpectedRouteView,
    target: Seq<char>,
    owed: Result<(Seq<char>, u16), Seq<char>>,
) -> bool {
    match (outcome, owed) {
        (Ok(challenge), Ok(at)) => challenge.transport@ == route.transport && challenge.host@
            == at.0 && challenge.port == at.1 && challenge.record_key@ == target,
        (Err(refusal), Err(w)) => refusal@ == w,
        _ => false,
    }
}

fn challenge_route(
    route: &ExpectedRoute,
    target: &str,
    message_id: &str,
    endpoint: &str,
) -> (outcome: Result<RouteChallenge, Refusal>)
    ensures
        challenged(outcome, route@, target@, challenge_at(route@, message_id@, endpoint@)),
{
    require_driver_id(message_id, "route challenge message")?;
    let transport = route.transport.as_str();
    let scheme = if same_text(transport, "http") {
        "http://"
    } else if same_text(transport, "tcp") {
        "tcp://"
    } else if same_text(transport, "rudp") {
        "rudp://"
    } else {
        return Err(refuse("route challenge transport is unsupported"));
    };
    let (host, port) = endpoint_host_port(endpoint, scheme)?;
    Ok(
        RouteChallenge {
            transport: route.transport.clone(),
            host,
            port,
            record_key: target.to_owned(),
        },
    )
}

impl NginxRouteDriver {
    /// A driver of a route, with the programs and places of a common host.
    pub fn new(binding: RouteBinding) -> (driver: Self)
        ensures
            driver.binding == binding,
            driver.nginx_program@ == "/usr/sbin/nginx"@,
            driver.systemd_run_program@ == "/usr/bin/systemd-run"@,
            driver.systemctl_program@ == "/usr/bin/systemctl"@,
            driver.ufw_program@ == "/usr/sbin/ufw"@,
            driver.preflight_root@ == "/run/idunn/route-preflight"@,
    {
        NginxRouteDriver {
            binding,
            nginx_program: "/usr/sbin/nginx".to_owned(),
            systemd_run_program: "/usr/bin/systemd-run".to_owned(),
            systemctl_program: "/usr/bin/systemctl".to_owned(),
            ufw_program: "/usr/sbin/ufw".to_owned(),
            preflight_root: "/run/idunn/route-preflight".to_owned(),
        }
    }

    /// The one firewall rule that the route owns, given the socket of its stable endpoint.
    pub fn endpoint_rule(&self, host: &str, port: u16) -> (args: Vec<String>)
        ensures
            texts(args@) == rule_of(self.binding.driver, host@, port),
    {
        let udp = matches!(self.binding.driver, RouteDriver::NginxStreamUdp);
        let protocol = if udp {
            "udp"
        } else {
            "tcp"
        };
        let mut args: Vec<String> = Vec::new();
        push_text(&mut args, "allow".to_owned());
        push_text(&mut args, "in".to_owned());
        push_text(&mut args, "to".to_owned());
        push_text(&mut args, host.to_owned());
        push_text(&mut args, "port".to_owned());
        push_text(&mut args, decimal_of(port as u64));
        push_text(&mut args, "proto".to_owned());
        push_text(&mut args, protocol.to_owned());
        assert(texts(args@) =~= rule_of(self.binding.driver, host@, port));
        args
    }

    /// The arguments that open the endpoint, tagged with the route.
    pub fn admit_endpoint(&self, host: &str, port: u16) -> (args: Vec<String>)
        ensures
            texts(args@) == opening(self.binding, host@, port),
    {
        let mut args = self.endpoint_rule(host, port);
        push_text(&mut args, "comment".to_owned());
        push_text(&mut args, cat2("Idunn route ", self.binding.route_id.as_str()));
        assert(texts(args@) =~= opening(self.binding, host@, port));
        args
    }

    /// The arguments that close the endpoint.
    pub fn withdraw_endpoint(&self, host: &str, port: u16) -> (args: Vec<String>)
        ensures
            texts(args@) == closing(self.binding, host@, port),
    {
        let mut args: Vec<String> = Vec::new();
        push_text(&mut args, "delete".to_owned());
        assert(texts(args@) =~= seq!["delete"@]);
        let rule = self.endpoint_rule(host, port);
        push_texts(&mut args, rule.as_slice());
        args
    }

    /// The fragment of an expected route.
    pub fn render(&self, expected: &IdunnExpectedIncarnationRecord) -> (outcome: Result<
        Vec<u8>,
        Refusal,
    >)
        ensures
            match (outcome, membership_of(self.binding, expected@)) {
                (Ok(bytes), Ok(owed)) => bytes@ == owed,
                (Err(refusal), Err(w)) => refusal@ == w,
                _ => false,
            },
    {
        let route = match &expected.route {
            Some(route) => route,
            None => return Err(refuse("expected incarnation has no route")),
        };
        check(
            same_text(route.route_id.as_str(), self.binding.route_id.as_str()) && same_text(
                route.stable_endpoint.as_str(),
                self.binding.stable_endpoint.as_str(),
            ),
            "route driver binding differs from Expected",
        )?;
        let udp = matches!(self.binding.driver, RouteDriver::NginxStreamUdp);
        let transport = route.transport.as_str();
        let scheme = if !udp && same_text(transport, "http") {
            "http://"
        } else if !udp && same_text(transport, "tcp") {
            "tcp://"
        } else if udp && same_text(transport, "rudp") {
            "rudp://"
        } else {
            return Err(refuse("route driver cannot carry the Expected transport"));
        };
        let candidate = endpoint_host_port(route.candidate_endpoint.as_str(), scheme)?;
        check(
            same_text(candidate.0.as_str(), self.binding.private_host.as_str())
                && self.binding.private_port_start <= candidate.1 && candidate.1
                <= self.binding.private_port_end,
            "Expected candidate endpoint is outside the route binding",
        )?;
        let upstream = nginx_identifier(self.binding.route_id.as_str())?;
        let stable = endpoint_host_port(route.stable_endpoint.as_str(), scheme)?;
        let ghost fragment = Fragment {
            expected_sha256: expected@.canonical_sha256,
            upstream: upstream@,
            candidate: (candidate.0@, candidate.1),
            stable: (stable.0@, stable.1),
            udp,
        };
        let candidate_port = decimal_of(candidate.1 as u64);
        let stable_port = decimal_of(stable.1 as u64);
        let carried = if udp {
            " udp reuseport"
        } else {
            ""
        };
        let head = cat4(
            "# Idunn Expected ",
            expected.canonical_sha256.as_str(),
            "\nupstream ",
            upstream.as_str(),
        );
        let server = cat5(
            head.as_str(),
            " {\n    server ",
            candidate.0.as_str(),
            ":",
            candidate_port.as_str(),
        );
        let listener = cat5(
            server.as_str(),
            ";\n}\nserver {\n    listen ",
            stable.0.as_str(),
            ":",
            stable_port.as_str(),
        );
        let text = cat5(
            listener.as_str(),
            carried,
            ";\n    proxy_pass ",
            upstream.as_str(),
            ";\n}\n",
        );
        assert(text@ =~= fragment_text(fragment));
        Ok(copy_bytes(text.as_str().as_bytes()))
    }

    /// What a rehearsal starts from, given what is configured and which incumbent was
    /// admitted.
    pub fn preflight(
        &self,
        expected: &IdunnExpectedIncarnationRecord,
        reading: Result<Option<Vec<u8>>, Refusal>,
        incumbent: &Option<RouteObservation>,
    ) -> (outcome: Result<RouteBaseline, Refusal>)
        ensures
            match baseline_refusal(self.binding, expected@, reading, *incumbent) {
                Some(w) => outcome matches Err(refusal) && refusal@ == w,
                None => outcome matches Ok(baseline) && membership_of(self.binding, expected@)
                    == Ok::<Seq<u8>, Seq<char>>(baseline.rendered@) && configured(reading)
                    == Ok::<Option<Seq<u8>>, Seq<char>>(bytes_option(baseline.current)),
            },
    {
        let rendered = self.render(expected)?;
        check(rendered.len() > 0, "candidate route rendered empty")?;
        let current = current_configuration(reading)?;
        let id = membership_sha256(&current);
        match incumbent {
            Some(admitted) => check(
                same_text(admitted.route_id.as_str(), self.binding.route_id.as_str())
                    && crate::text::is_text(&id, admitted.membership_sha256.as_str()),
                "route preflight baseline differs from the admitted incumbent",
            )?,
            None => check(id.is_none(), "route preflight found an unadmitted incumbent")?,
        }
        Ok(RouteBaseline { rendered, current })
    }

    /// Settles a rehearsal: nothing was reconfigured meanwhile. The receipt says what was
    /// found.
    pub fn settle_preflight(
        &self,
        baseline: RouteBaseline,
        runtime_instance_id: &str,
        incumbent: &Option<RouteObservation>,
        reading: Result<Option<Vec<u8>>, Refusal>,
    ) -> (outcome: Result<RoutePreflightReceipt, Refusal>)
        ensures
            match outcome {
                Ok(receipt) => {
                    &&& configured(reading) == Ok::<Option<Seq<u8>>, Seq<char>>(
                        bytes_option(baseline.current),
                    )
                    &&& receipt.refusal() is None
                    &&& self.receipt_is(receipt, baseline, runtime_instance_id@, *incumbent)
                },
                Err(refusal) => match configured(reading) {
                    Err(w) => refusal@ == w,
                    Ok(after) => if after != bytes_option(baseline.current) {
                        refusal@ == "nginx route baseline changed during candidate validation"@
                    } else {
                        exists|receipt: RoutePreflightReceipt|
                            self.receipt_is(
                                receipt,
                                baseline,
                                runtime_instance_id@,
                                *incumbent,
                            ) && #[trigger] receipt.refusal() == Some(refusal@)
                    },
                },
            },
    {
        let after = current_configuration(reading)?;
        check(
            same_bytes_option(&after, &baseline.current),
            "nginx route baseline changed during candidate validation",
        )?;
        let incumbent_runtime_instance_id = match incumbent {
            Some(admitted) => Some(admitted.runtime_instance_id.clone()),
            None => None,
        };
        let receipt = RoutePreflightReceipt {
            route_id: self.binding.route_id.clone(),
            candidate_runtime_instance_id: runtime_instance_id.to_owned(),
            candidate_membership_sha256: sha256_id(baseline.rendered.as_slice()),
            incumbent_runtime_instance_id,
            incumbent_membership_sha256: membership_sha256(&baseline.current),
            incumbent_configuration: copy_bytes_option(&baseline.current),
        };
        assert(self.receipt_is(receipt, baseline, runtime_instance_id@, *incumbent));
        receipt.validate()?;
        Ok(receipt)
    }

    /// Whether a receipt says what a rehearsal found.
    pub open spec fn receipt_is(
        &self,
        receipt: RoutePreflightReceipt,
        baseline: RouteBaseline,
        runtime_instance_id: Seq<char>,
        incumbent: Option<RouteObservation>,
    ) -> bool {
        &&& receipt.route_id@ == self.binding.route_id@
        &&& receipt.candidate_runtime_instance_id@ == runtime_instance_id
        &&& receipt.candidate_membership_sha256@ == digest_id(baseline.rendered@)
        &&& text_option(receipt.incumbent_runtime_instance_id) == (match incumbent {
            Some(admitted) => Some(admitted.runtime_instance_id@),
            None => None,
        })
        &&& text_option(receipt.incumbent_membership_sha256) == membership_id(
            bytes_option(baseline.current),
        )
        &&& bytes_option(receipt.incumbent_configuration) == bytes_option(baseline.current)
    }

    /// What a candidate's membership is installed with, where the receipt authorizes it and
    /// the configuration is the incumbent's or already the candidate's.
    pub fn install(
        &self,
        expected: &IdunnExpectedIncarnationRecord,
        runtime_instance_id: &str,
        preflight: &RoutePreflightReceipt,
        reading: Result<Option<Vec<u8>>, Refusal>,
    ) -> (outcome: Result<RouteInstallation, Refusal>)
        ensures
            match installation_refusal(
                self.binding,
                expected@,
                runtime_instance_id@,
                *preflight,
                reading,
            ) {
                Some(w) => outcome matches Err(refusal) && refusal@ == w,
                None => outcome matches Ok(installation) && membership_of(
                    self.binding,
                    expected@,
                ) == Ok::<Seq<u8>, Seq<char>>(installation.rendered@)
                    && installation.already_written == (configured(reading)->Ok_0 == Some(
                    installation.rendered@,
                )),
            },
    {
        preflight.validate()?;
        let rendered = self.render(expected)?;
        let id = sha256_id(rendered.as_slice());
        check(
            same_text(preflight.route_id.as_str(), self.binding.route_id.as_str()) && same_text(
                preflight.candidate_runtime_instance_id.as_str(),
                runtime_instance_id,
            ) && same_text(preflight.candidate_membership_sha256.as_str(), id.as_str()),
            "route preflight does not authorize this candidate membership",
        )?;
        let prior = current_configuration(reading)?;
        let prior_id = membership_sha256(&prior);
        let already_written = is_configured(&prior, &rendered);
        check(
            already_written || (same_bytes_option(&prior, &preflight.incumbent_configuration)
                && same_option(&prior_id, &preflight.incumbent_membership_sha256)),
            "route baseline changed after preflight",
        )?;
        Ok(RouteInstallation { rendered, already_written })
    }

    /// What follows a failed reload: the incumbent's configuration is restored where that
    /// is allowed, and the candidate's fragment retained for a retry where it is not.
    pub fn fail_installation(
        &self,
        preflight: &RoutePreflightReceipt,
        rollback_allowed: bool,
    ) -> (step: FailedInstallation)
        ensures
            if rollback_allowed {
                step matches FailedInstallation::RollBack { restoration, context } && restores(
                    restoration,
                    bytes_option(preflight.incumbent_configuration),
                ) && context@ == "candidate route validation or reload failed"@
            } else {
                step matches FailedInstallation::Retain { context } && context@
                    == "candidate route reload failed after incumbent route authority was fenced; candidate fragment retained for retry"@
            },
    {
        if rollback_allowed {
            FailedInstallation::RollBack {
                restoration: self.restore(&preflight.incumbent_configuration),
                context: "candidate route validation or reload failed".to_owned(),
            }
        } else {
            FailedInstallation::Retain {
                context:
                    "candidate route reload failed after incumbent route authority was fenced; candidate fragment retained for retry".to_owned(),
            }
        }
    }

    /// What a failed installation says once its rollback ended.
    pub fn settle_rollback(
        &self,
        context: &str,
        failure: &Refusal,
        rollback: &Result<(), Refusal>,
    ) -> (refusal: Refusal)
        ensures
            refusal@ == failed(
                context@,
                "; route rollback also failed: "@,
                failure@,
                *rollback,
            ),
    {
        refuse_failed(context, "; route rollback also failed: ", failure, rollback)
    }

    /// What the route is put back to.
    pub fn restore(&self, prior: &Option<Vec<u8>>) -> (restoration: RouteRestoration)
        ensures
            restores(restoration, bytes_option(*prior)),
    {
        RouteRestoration { content: copy_bytes_option(prior), close_endpoint: prior.is_none() }
    }

    /// Settles an installation: the candidate's fragment is still what is configured. Its
    /// membership is the outcome.
    pub fn settle_install(
        &self,
        installation: &RouteInstallation,
        reading: Result<Option<Vec<u8>>, Refusal>,
    ) -> (outcome: Result<String, Refusal>)
        ensures
            crate::clock::written(
                outcome,
                match configured(reading) {
                    Err(w) => Err(w),
                    Ok(found) => if found == Some(installation.rendered@) {
                        Ok(digest_id(installation.rendered@))
                    } else {
                        Err("candidate route fragment changed during reload"@)
                    },
                },
            ),
    {
        let found = current_configuration(reading)?;
        check(
            is_configured(&found, &installation.rendered),
            "candidate route fragment changed during reload",
        )?;
        Ok(sha256_id(installation.rendered.as_slice()))
    }

    /// Whether an expected membership is what is configured.
    pub fn observe_membership(
        &self,
        expected: &IdunnExpectedIncarnationRecord,
        membership: &str,
        reading: Result<Option<Vec<u8>>, Refusal>,
    ) -> (outcome: Result<bool, Refusal>)
        ensures
            crate::procfs::comes_to(
                outcome,
                match membership_of(self.binding, expected@) {
                    Err(w) => Err(w),
                    Ok(rendered) => if membership@ != digest_id(rendered) {
                        Err("route observation does not describe the expected membership"@)
                    } else {
                        match configured(reading) {
                            Err(w) => Err(w),
                            Ok(found) => Ok(found == Some(rendered)),
                        }
                    },
                },
            ),
    {
        let rendered = self.render(expected)?;
        let id = sha256_id(rendered.as_slice());
        check(
            same_text(membership, id.as_str()),
            "route observation does not describe the expected membership",
        )?;
        let found = current_configuration(reading)?;
        Ok(is_configured(&found, &rendered))
    }

    /// What the route is put back to when a candidate is abandoned: exactly what its
    /// rehearsal found.
    pub fn withdraw_candidate_membership(&self, preflight: &RoutePreflightReceipt) -> (outcome:
        Result<RouteRestoration, Refusal>)
        ensures
            match either(
                preflight.refusal(),
                unless(
                    preflight.route_id@ == self.binding.route_id@,
                    "route preflight receipt describes another route"@,
                ),
            ) {
                Some(w) => outcome matches Err(refusal) && refusal@ == w,
                None => outcome matches Ok(restoration) && restores(
                    restoration,
                    bytes_option(preflight.incumbent_configuration),
                ),
            },
    {
        preflight.validate()?;
        check(
            same_text(preflight.route_id.as_str(), self.binding.route_id.as_str()),
            "route preflight receipt describes another route",
        )?;
        Ok(self.restore(&preflight.incumbent_configuration))
    }

    /// The fragment of an admitted membership that is to be restored.
    pub fn restore_admitted_membership(
        &self,
        expected: &IdunnExpectedIncarnationRecord,
        membership: &str,
    ) -> (outcome: Result<Vec<u8>, Refusal>)
        ensures
            match (
                outcome,
                match membership_of(self.binding, expected@) {
                    Err(w) => Err(w),
                    Ok(rendered) => if membership@ == digest_id(rendered) {
                        Ok(rendered)
                    } else {
                        Err("admitted route receipt does not describe the expected membership"@)
                    },
                },
            ) {
                (Ok(bytes), Ok(owed)) => bytes@ == owed,
                (Err(refusal), Err(w)) => refusal@ == w,
                _ => false,
            },
    {
        let rendered = self.render(expected)?;
        let id = sha256_id(rendered.as_slice());
        check(
            same_text(membership, id.as_str()),
            "admitted route receipt does not describe the expected membership",
        )?;
        Ok(rendered)
    }

    /// Whether the fragment of an admitted membership has to be written.
    pub fn must_write(&self, rendered: &Vec<u8>, reading: Result<Option<Vec<u8>>, Refusal>) -> (
        outcome: Result<bool, Refusal>)
        ensures
            crate::procfs::comes_to(
                outcome,
                match configured(reading) {
                    Err(w) => Err(w),
                    Ok(found) => Ok(found != Some(rendered@)),
                },
            ),
    {
        let found = current_configuration(reading)?;
        Ok(!is_configured(&found, rendered))
    }

    /// Settles the restoration of an admitted membership.
    pub fn settle_restoration(
        &self,
        rendered: &Vec<u8>,
        reading: Result<Option<Vec<u8>>, Refusal>,
    ) -> (outcome: Result<(), Refusal>)
        ensures
            judged(
                outcome,
                either(
                    fault(configured(reading)),
                    unless(
                        configured(reading)->Ok_0 == Some(rendered@),
                        "admitted route fragment changed during restoration"@,
                    ),
                ),
            ),
    {
        let found = current_configuration(reading)?;
        check(
            is_configured(&found, rendered),
            "admitted route fragment changed during restoration",
        )
    }

    /// What follows a failed reload of an admitted membership: its unproved fragment is
    /// removed, and no other is put in its place.
    pub fn fail_restoration(&self) -> (cleanup: RestorationCleanup)
        ensures
            cleanup.fragment@ == self.binding.config_path@,
    {
        RestorationCleanup { fragment: self.binding.config_path.clone() }
    }

    /// What a failed restoration says once its unproved fragment was removed, or was not.
    pub fn settle_removal(&self, failure: &Refusal, removal: &Result<(), Refusal>) -> (refusal:
        Refusal)
        ensures
            refusal@ == failed(
                "reloading the exact admitted route membership"@,
                "; removing its unproved fragment also failed: "@,
                failure@,
                *removal,
            ),
    {
        refuse_failed(
            "reloading the exact admitted route membership",
            "; removing its unproved fragment also failed: ",
            failure,
            removal,
        )
    }

    /// What the route is put back to when a candidate is rolled back: exactly what its
    /// rehearsal found, and only over the candidate's own fragment.
    pub fn rollback(
        &self,
        expected: &IdunnExpectedIncarnationRecord,
        runtime_instance_id: &str,
        preflight: &RoutePreflightReceipt,
        reading: Result<Option<Vec<u8>>, Refusal>,
    ) -> (outcome: Result<RouteRestoration, Refusal>)
        ensures
            match rollback_refusal(
                self.binding,
                expected@,
                runtime_instance_id@,
                *preflight,
                reading,
            ) {
                Some(w) => outcome matches Err(refusal) && refusal@ == w,
                None => outcome matches Ok(restoration) && restores(
                    restoration,
                    bytes_option(preflight.incumbent_configuration),
                ),
            },
    {
        preflight.validate()?;
        let rendered = self.render(expected)?;
        let id = sha256_id(rendered.as_slice());
        check(
            same_text(preflight.route_id.as_str(), self.binding.route_id.as_str()) && same_text(
                preflight.candidate_runtime_instance_id.as_str(),
                runtime_instance_id,
            ) && same_text(preflight.candidate_membership_sha256.as_str(), id.as_str()),
            "route preflight does not authorize rollback of this candidate membership",
        )?;
        let found = current_configuration(reading)?;
        check(is_configured(&found, &rendered), "candidate route changed before rollback")?;
        Ok(self.restore(&preflight.incumbent_configuration))
    }

    /// Where the stable endpoint of an expected route is asked for a presence.
    pub fn request_runtime_presence(
        &self,
        expected: &IdunnExpectedIncarnationRecord,
        message_id: &str,
    ) -> (outcome: Result<RouteChallenge, Refusal>)
        ensures
            match expected@.route {
                None => outcome matches Err(refusal) && refusal@
                    == "route challenge has no Expected route"@,
                Some(route) => if route.route_id == self.binding.route_id@
                    && route.stable_endpoint == self.binding.stable_endpoint@ {
                    challenged(
                        outcome,
                        route,
                        expected@.target,
                        challenge_at(route, message_id@, route.stable_endpoint),
                    )
                } else {
                    outcome matches Err(refusal) && refusal@
                        == "route challenge binding differs from Expected"@
                },
            },
    {
        let route = match &expected.route {
            Some(route) => route,
            None => return Err(refuse("route challenge has no Expected route")),
        };
        check(
            same_text(route.route_id.as_str(), self.binding.route_id.as_str()) && same_text(
                route.stable_endpoint.as_str(),
                self.binding.stable_endpoint.as_str(),
            ),
            "route challenge binding differs from Expected",
        )?;
        challenge_route(
            route,
            expected.target.as_str(),
            message_id,
            route.stable_endpoint.as_str(),
        )
    }

    /// Where the candidate endpoint of an expected route is asked for a presence. Nothing
    /// is installed or admitted by it.
    pub fn request_candidate_runtime_presence(
        &self,
        expected: &IdunnExpectedIncarnationRecord,
        message_id: &str,
    ) -> (outcome: Result<RouteChallenge, Refusal>)
        ensures
            match expected@.route {
                None => outcome matches Err(refusal) && refusal@
                    == "candidate challenge has no Expected route"@,
                Some(route) => if route.route_id != self.binding.route_id@ {
                    outcome matches Err(refusal) && refusal@
                        == "candidate challenge binding differs from Expected"@
                } else {
                    match membership_of(self.binding, expected@) {
                        Err(w) => outcome matches Err(refusal) && refusal@ == w,
                        Ok(_) => challenged(
                            outcome,
                            route,
                            expected@.target,
                            challenge_at(route, message_id@, route.candidate_endpoint),
                        ),
                    }
                },
            },
    {
        let route = match &expected.route {
            Some(route) => route,
            None => return Err(refuse("candidate challenge has no Expected route")),
        };
        check(
            same_text(route.route_id.as_str(), self.binding.route_id.as_str()),
            "candidate challenge binding differs from Expected",
        )?;
        let _ = self.render(expected)?;
        challenge_route(
            route,
            expected.target.as_str(),
            message_id,
            route.candidate_endpoint.as_str(),
        )
    }

    /// A rehearsal with a name that nothing else has.
    pub fn rehearse(&self, nonce: &str) -> (outcome: Result<Rehearsal, Refusal>)
        ensures
            match (outcome, identifier_of(self.binding.route_id@)) {
                (Ok(rehearsal), Ok(route)) => rehearsal.candidate@ == joined(
                    self.preflight_root@,
                    route + "-"@ + nonce@ + ".candidate"@,
                ) && rehearsal.unit@ == "idunn-nginx-preflight-"@ + nonce@,
                (Err(refusal), Err(w)) => refusal@ == w,
                _ => false,
            },
    {
        let route = nginx_identifier(self.binding.route_id.as_str())?;
        let name = cat4(route.as_str(), "-", nonce, ".candidate");
        Ok(
            Rehearsal {
                candidate: join(self.preflight_root.as_str(), name.as_str()),
                unit: cat2("idunn-nginx-preflight-", nonce),
            },
        )
    }

    /// The arguments of a rehearsal: nginx judges the whole configuration with the
    /// candidate's fragment bound over the route's own, in a mount of its own.
    pub fn validate_candidate_in_private_mount(&self, rehearsal: &Rehearsal) -> (outcome: Result<
        Vec<String>,
        Refusal,
    >)
        ensures
            match (
                outcome,
                bind_property(rehearsal.candidate@, self.binding.config_path@),
            ) {
                (Ok(args), Ok(bind)) => texts(args@) == rehearsal_arguments(
                    rehearsal.unit@,
                    bind,
                    self.nginx_program@,
                ),
                (Err(refusal), Err(w)) => refusal@ == w,
                _ => false,
            },
    {
        let bind = systemd_read_only_bind_property(
            rehearsal.candidate.as_str(),
            self.binding.config_path.as_str(),
        )?;
        let ghost property = bind@;
        let mut args: Vec<String> = Vec::new();
        push_text(&mut args, "--wait".to_owned());
        push_text(&mut args, "--collect".to_owned());
        push_text(&mut args, "--quiet".to_owned());
        push_text(&mut args, cat2("--unit=", rehearsal.unit.as_str()));
        push_text(&mut args, "--property=Type=exec".to_owned());
        push_text(&mut args, "--property=PrivateMounts=yes".to_owned());
        push_text(&mut args, bind);
        push_text(&mut args, "--".to_owned());
        push_text(&mut args, self.nginx_program.clone());
        push_text(&mut args, "-t".to_owned());
        assert(texts(args@) =~= rehearsal_arguments(
            rehearsal.unit@,
            property,
            self.nginx_program@,
        ));
        Ok(args)
    }
}

/// Why a candidate may not be rolled back, if so.
pub open spec fn rollback_refusal(
    binding: RouteBinding,
    expected: IdunnExpectedIncarnationRecordView,
    runtime_instance_id: Seq<char>,
    receipt: RoutePreflightReceipt,
    reading: Result<Option<Vec<u8>>, Refusal>,
) -> Option<Seq<char>> {
    let rendered = membership_of(binding, expected);
    either(
        receipt.refusal(),
        either(
            fault(rendered),
            either(
                unless(
                    authorizes(receipt, binding, runtime_instance_id, rendered->Ok_0),
                    "route preflight does not authorize rollback of this candidate membership"@,
                ),
                either(
                    fault(configured(reading)),
                    unless(
                        configured(reading)->Ok_0 == Some(rendered->Ok_0),
                        "candidate route changed before rollback"@,
                    ),
                ),
            ),
        ),
    )
}

/// Admits a program of the route driver to be run by its path.
pub fn admit_route_actuator(program: &str) -> (outcome: Result<(), Refusal>)
    ensures
        judged(
            outcome,
            unless(absolute(program@), "route actuator program is not absolute"@),
        ),
{
    check(is_absolute(program), "route actuator program is not absolute")
}

/// Settles a run of a route actuator: one that failed is refused with what it complained.
pub fn settle_route_actuator(program: &str, success: bool, status: &str, complaint: &str) -> (
    outcome: Result<(), Refusal>)
    ensures
        judged(
            outcome,
            unless(
                success,
                "route actuator "@ + program@ + " exited with "@ + status@ + ": "@ + trimmed(
                    complaint@,
                ),
            ),
        ),
{
    let words = trim(complaint);
    let head = cat4("route actuator ", program, " exited with ", status);
    let all = cat3(head.as_str(), ": ", words.as_str());
    check(success, all.as_str())
}

/// Settles the closing of an endpoint: a rule that is not there any more is no failure.
pub fn settle_endpoint_withdrawal(run: Result<(), Refusal>) -> (outcome: Result<(), Refusal>)
    ensures
        match run {
            Ok(()) => outcome is Ok,
            Err(refusal) => judged(
                outcome,
                unless(
                    holds_text(refusal@, "non-existent"@),
                    behind("withdrawing the stable endpoint from the host firewall"@, refusal@),
                ),
            ),
        },
{
    match run {
        Ok(()) => Ok(()),
        Err(refusal) => if contains_text(refusal.text.as_str(), "non-existent") {
            Ok(())
        } else {
            Err(refuse_behind("withdrawing the stable endpoint from the host firewall", &refusal))
        },
    }
}

} // verus!
