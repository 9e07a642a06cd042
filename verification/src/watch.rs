//! A running unit, witnessed: what systemd shows of it is held against the contract that it
//! was launched under, and what the kernel shows of its process against what systemd said.
use vstd::prelude::*;

use crate::digest::{digest_id, is_hex, sha256_id};
use crate::encoding::{environment_contract, packed_map};
use crate::launch::{open_files, parent_only_open_file_properties, LaunchNames};
use crate::maps::{value_of, Pair, TextMap};
use crate::observation::{
    copy_parent_only_file_descriptor_observation_list,
    parent_only_file_descriptor_observation_views, service_credential_observation_views,
    ParentOnlyFileDescriptorObservation, ParentOnlyFileDescriptorObservationView,
    ServiceCredentialObservation, ServiceCredentialObservationView, SystemdWorkloadObservation,
    SystemdWorkloadObservationView,
};
use crate::paths::{absolute, is_absolute, is_same_path, join, joined, same_path};
use crate::procfs::{
    ascending, beginning, environment_entries, environment_value, fault, inside_process_root,
    is_ascending, linux_namespace_id, linux_process_security, linux_process_start_time,
    namespace_id, path_inside_process_root, read_process_environment,
    required_process_environment_value, security_of, security_refusal, select_process_environment,
    selection, start_time, LinuxProcessSecurityObservation, SecurityView,
};
use crate::scan::{
    all_of, bytes_start_with, contains_char, decimal_number, hex, lines, lines_of, parse_decimal,
};
use crate::text::{
    byte_strings, cat2, cat3, chars_of, copy_bytes, copy_texts, either, judged, refuse, same_text,
    same_texts, text_option, texts, unless, Refusal,
};
use crate::units::{
    boolean_property, parse_systemd_boolean, property, required_property,
    required_systemd_property, systemd_property, SystemdUnitObservation, UnitView,
};

verus! {

/// How systemd says that a unit is isolated.
#[derive(Clone, Debug, PartialEq, Eq)]
pub struct UnitProperties {
    pub unit_description: String,
    pub service_type: String,
    pub restart_policy: String,
    pub kill_mode: String,
    pub dynamic_user: bool,
    pub systemd_user: String,
    pub systemd_group: String,
    pub supplementary_groups: String,
    pub capability_bounding_set: String,
    pub ambient_capabilities: String,
    pub private_mounts: bool,
    pub private_pids: bool,
    pub protect_proc: String,
    pub proc_subset: String,
    pub no_new_privileges: bool,
    pub umask: String,
    pub inaccessible_paths: String,
    pub load_credential: String,
}

/// What `UnitProperties` holds.
#[verifier::ext_equal]
pub struct UnitPropertiesView {
    pub unit_description: Seq<char>,
    pub service_type: Seq<char>,
    pub restart_policy: Seq<char>,
    pub kill_mode: Seq<char>,
    pub dynamic_user: bool,
    pub systemd_user: Seq<char>,
    pub systemd_group: Seq<char>,
    pub supplementary_groups: Seq<char>,
    pub capability_bounding_set: Seq<char>,
    pub ambient_capabilities: Seq<char>,
    pub private_mounts: bool,
    pub private_pids: bool,
    pub protect_proc: Seq<char>,
    pub proc_subset: Seq<char>,
    pub no_new_privileges: bool,
    pub umask: Seq<char>,
    pub inaccessible_paths: Seq<char>,
    pub load_credential: Seq<char>,
}

impl View for UnitProperties {
    type V = UnitPropertiesView;

    open spec fn view(&self) -> UnitPropertiesView {
        UnitPropertiesView {
            unit_description: self.unit_description@,
            service_type: self.service_type@,
            restart_policy: self.restart_policy@,
            kill_mode: self.kill_mode@,
            dynamic_user: self.dynamic_user,
            systemd_user: self.systemd_user@,
            systemd_group: self.systemd_group@,
            supplementary_groups: self.supplementary_groups@,
            capability_bounding_set: self.capability_bounding_set@,
            ambient_capabilities: self.ambient_capabilities@,
            private_mounts: self.private_mounts,
            private_pids: self.private_pids,
            protect_proc: self.protect_proc@,
            proc_subset: self.proc_subset@,
            no_new_privileges: self.no_new_privileges,
            umask: self.umask@,
            inaccessible_paths: self.inaccessible_paths@,
            load_credential: self.load_credential@,
        }
    }
}


/// Which property of a unit's identity is missing or malformed, if one is.
pub open spec fn identity_fault(values: Seq<Pair>) -> Option<Seq<char>> {
    either(
        fault(required_property(values, "Description"@)),
        either(
            fault(required_property(values, "Type"@)),
            either(
                fault(required_property(values, "Restart"@)),
                either(
                    fault(required_property(values, "KillMode"@)),
                    either(
                        fault(boolean_property(values, "DynamicUser"@)),
                        fault(property(values, "User"@)),
                    ),
                ),
            ),
        ),
    )
}

/// Which property of a unit's confinement is missing or malformed, if one is.
pub open spec fn confinement_fault(values: Seq<Pair>) -> Option<Seq<char>> {
    either(
        fault(property(values, "Group"@)),
        either(
            fault(property(values, "SupplementaryGroups"@)),
            either(
                fault(property(values, "CapabilityBoundingSet"@)),
                either(
                    fault(property(values, "AmbientCapabilities"@)),
                    either(
                        fault(boolean_property(values, "PrivateMounts"@)),
                        fault(boolean_property(values, "PrivatePIDs"@)),
                    ),
                ),
            ),
        ),
    )
}

/// Which property of a unit's exposure is missing or malformed, if one is.
pub open spec fn exposure_fault(values: Seq<Pair>) -> Option<Seq<char>> {
    either(
        fault(required_property(values, "ProtectProc"@)),
        either(
            fault(required_property(values, "ProcSubset"@)),
            either(
                fault(boolean_property(values, "NoNewPrivileges"@)),
                either(
                    fault(required_property(values, "UMask"@)),
                    either(
                        fault(required_property(values, "InaccessiblePaths"@)),
                        fault(required_property(values, "LoadCredential"@)),
                    ),
                ),
            ),
        ),
    )
}

/// Which property of a unit's isolation is missing or malformed, if one is.
pub open spec fn properties_fault(values: Seq<Pair>) -> Option<Seq<char>> {
    either(identity_fault(values), either(confinement_fault(values), exposure_fault(values)))
}

/// How a unit is isolated, where nothing is missing.
pub open spec fn properties_of(values: Seq<Pair>) -> UnitPropertiesView {
    UnitPropertiesView {
        unit_description: required_property(values, "Description"@)->Ok_0,
        service_type: required_property(values, "Type"@)->Ok_0,
        restart_policy: required_property(values, "Restart"@)->Ok_0,
        kill_mode: required_property(values, "KillMode"@)->Ok_0,
        dynamic_user: boolean_property(values, "DynamicUser"@)->Ok_0,
        systemd_user: property(values, "User"@)->Ok_0,
        systemd_group: property(values, "Group"@)->Ok_0,
        supplementary_groups: property(values, "SupplementaryGroups"@)->Ok_0,
        capability_bounding_set: property(values, "CapabilityBoundingSet"@)->Ok_0,
        ambient_capabilities: property(values, "AmbientCapabilities"@)->Ok_0,
        private_mounts: boolean_property(values, "PrivateMounts"@)->Ok_0,
        private_pids: boolean_property(values, "PrivatePIDs"@)->Ok_0,
        protect_proc: required_property(values, "ProtectProc"@)->Ok_0,
        proc_subset: required_property(values, "ProcSubset"@)->Ok_0,
        no_new_privileges: boolean_property(values, "NoNewPrivileges"@)->Ok_0,
        umask: required_property(values, "UMask"@)->Ok_0,
        inaccessible_paths: required_property(values, "InaccessiblePaths"@)->Ok_0,
        load_credential: required_property(values, "LoadCredential"@)->Ok_0,
    }
}

/// Reads how systemd says that a unit is isolated.
pub fn unit_properties(values: &TextMap) -> (outcome: Result<UnitProperties, Refusal>)
    ensures
        match properties_fault(values@) {
            Some(w) => outcome matches Err(refusal) && refusal@ == w,
            None => outcome matches Ok(found) && found@ == properties_of(values@),
        },
{
    let unit_description = required_systemd_property(values, "Description")?;
    let service_type = required_systemd_property(values, "Type")?;
    let restart_policy = required_systemd_property(values, "Restart")?;
    let kill_mode = required_systemd_property(values, "KillMode")?;
    let dynamic_user = parse_systemd_boolean(values, "DynamicUser")?;
    let systemd_user = systemd_property(values, "User")?;
    let systemd_group = systemd_property(values, "Group")?;
    let supplementary_groups = systemd_property(values, "SupplementaryGroups")?;
    let capability_bounding_set = systemd_property(values, "CapabilityBoundingSet")?;
    let ambient_capabilities = systemd_property(values, "AmbientCapabilities")?;
    let private_mounts = parse_systemd_boolean(values, "PrivateMounts")?;
    let private_pids = parse_systemd_boolean(values, "PrivatePIDs")?;
    let protect_proc = required_systemd_property(values, "ProtectProc")?;
    let proc_subset = required_systemd_property(values, "ProcSubset")?;
    let no_new_privileges = parse_systemd_boolean(values, "NoNewPrivileges")?;
    let umask = required_systemd_property(values, "UMask")?;
    let inaccessible_paths = required_systemd_property(values, "InaccessiblePaths")?;
    let load_credential = required_systemd_property(values, "LoadCredential")?;
    Ok(UnitProperties {
        unit_description,
        service_type,
        restart_policy,
        kill_mode,
        dynamic_user,
        systemd_user,
        systemd_group,
        supplementary_groups,
        capability_bounding_set,
        ambient_capabilities,
        private_mounts,
        private_pids,
        protect_proc,
        proc_subset,
        no_new_privileges,
        umask,
        inaccessible_paths,
        load_credential,
    })
}

/// What systemd prints for the credentials of a unit.
pub open spec fn credential_mark(delivers: bool) -> Seq<char> {
    if delivers {
        "[unprintable]"@
    } else {
        ""@
    }
}

/// Whether a unit is isolated as the launch contract demands. The user is whichever
/// systemd allocated, so it is recorded and not judged.
pub open spec fn isolated(
    p: UnitPropertiesView,
    credential_root: Seq<char>,
    delivers: bool,
) -> bool {
    &&& p.service_type == "exec"@
    &&& p.restart_policy == "no"@
    &&& p.kill_mode == "mixed"@
    &&& p.dynamic_user
    &&& p.supplementary_groups.len() == 0
    &&& p.capability_bounding_set.len() == 0
    &&& p.ambient_capabilities.len() == 0
    &&& p.private_mounts
    &&& p.private_pids
    &&& p.protect_proc == "invisible"@
    &&& p.proc_subset == "all"@
    &&& p.no_new_privileges
    &&& p.umask == "0007"@
    &&& p.inaccessible_paths == credential_root
    &&& p.load_credential == credential_mark(delivers)
}

fn is_isolated(p: &UnitProperties, credential_root: &str, delivers: bool) -> (is: bool)
    ensures
        is == isolated(p@, credential_root@, delivers),
{
    let mark = if delivers {
        "[unprintable]"
    } else {
        ""
    };
    let process = same_text(p.service_type.as_str(), "exec") && same_text(
        p.restart_policy.as_str(),
        "no",
    ) && same_text(p.kill_mode.as_str(), "mixed") && p.dynamic_user;
    let rights = p.supplementary_groups.as_str().is_empty()
        && p.capability_bounding_set.as_str().is_empty()
        && p.ambient_capabilities.as_str().is_empty();
    let spaces = p.private_mounts && p.private_pids && same_text(
        p.protect_proc.as_str(),
        "invisible",
    ) && same_text(p.proc_subset.as_str(), "all") && p.no_new_privileges;
    let files = same_text(p.umask.as_str(), "0007") && same_text(
        p.inaccessible_paths.as_str(),
        credential_root,
    ) && same_text(p.load_credential.as_str(), mark);
    process && rights && spaces && files
}

/// What systemd said of a running unit.
#[derive(Clone, Debug, PartialEq, Eq)]
pub struct UnitContract {
    pub invocation_id: String,
    pub started: u64,
    pub properties: UnitProperties,
    pub working_directory: String,
    pub control_group: String,
    pub main_pid: u32,
}

/// What `UnitContract` holds.
#[verifier::ext_equal]
pub struct UnitContractView {
    pub invocation_id: Seq<char>,
    pub started: u64,
    pub properties: UnitPropertiesView,
    pub working_directory: Seq<char>,
    pub control_group: Seq<char>,
    pub main_pid: u32,
}

impl View for UnitContract {
    type V = UnitContractView;

    open spec fn view(&self) -> UnitContractView {
        UnitContractView {
            invocation_id: self.invocation_id@,
            started: self.started,
            properties: self.properties@,
            working_directory: self.working_directory@,
            control_group: self.control_group@,
            main_pid: self.main_pid,
        }
    }
}

/// The invocation that a unit runs in.
pub open spec fn invocation(values: Seq<Pair>) -> Result<Seq<char>, Seq<char>> {
    match value_of(values, "InvocationID"@) {
        Some(id) => if id.len() == 32 && all_of(id, |c: char| hex(c)) {
            Ok(id)
        } else {
            Err("systemd unit has no canonical invocation id"@)
        },
        None => Err("systemd unit has no canonical invocation id"@),
    }
}

/// When the main process of a unit started.
pub open spec fn main_start(values: Seq<Pair>) -> Result<u64, Seq<char>> {
    match required_property(values, "ExecMainStartTimestampMonotonic"@) {
        Err(w) => Err(w),
        Ok(text) => match decimal_number(text, u64::MAX as int) {
            None => Err("systemd unit has no numeric main-process start timestamp"@),
            Some(n) => if n > 0 {
                Ok(n as u64)
            } else {
                Err("systemd unit has no main-process start timestamp"@)
            },
        },
    }
}

/// Where a unit works.
pub open spec fn unit_directory(values: Seq<Pair>) -> Result<Seq<char>, Seq<char>> {
    match required_property(values, "WorkingDirectory"@) {
        Err(w) => Err(w),
        Ok(path) => if absolute(path) {
            Ok(path)
        } else {
            Err("systemd unit working directory is not absolute"@)
        },
    }
}

/// The control group of a unit.
pub open spec fn unit_group(values: Seq<Pair>) -> Result<Seq<char>, Seq<char>> {
    match required_property(values, "ControlGroup"@) {
        Err(w) => Err(w),
        Ok(path) => if absolute(path) && !path.contains('\n') && !path.contains('\r')
            && !path.contains('\0') {
            Ok(path)
        } else {
            Err("systemd unit control group is invalid"@)
        },
    }
}

/// The main process of a unit.
pub open spec fn main_process(values: Seq<Pair>) -> Result<u32, Seq<char>> {
    match value_of(values, "MainPID"@) {
        None => Err("systemd unit has no MainPID"@),
        Some(text) => match decimal_number(text, u32::MAX as int) {
            None => Err("systemd MainPID is not a u32"@),
            Some(n) => if n > 0 {
                Ok(n as u32)
            } else {
                Err("systemd unit has no live main process"@)
            },
        },
    }
}

fn read_invocation(values: &TextMap) -> (outcome: Result<String, Refusal>)
    ensures
        crate::clock::written(outcome, invocation(values@)),
{
    match values.get("InvocationID") {
        Some(id) => {
            let chars = chars_of(id.as_str());
            if chars.len() == 32 && is_hex(id.as_str()) {
                Ok(id)
            } else {
                Err(refuse("systemd unit has no canonical invocation id"))
            }
        },
        None => Err(refuse("systemd unit has no canonical invocation id")),
    }
}

fn read_main_start(values: &TextMap) -> (outcome: Result<u64, Refusal>)
    ensures
        crate::procfs::comes_to(outcome, main_start(values@)),
{
    let text = required_systemd_property(values, "ExecMainStartTimestampMonotonic")?;
    match parse_decimal(text.as_str(), u64::MAX) {
        None => Err(refuse("systemd unit has no numeric main-process start timestamp")),
        Some(n) => if n > 0 {
            Ok(n)
        } else {
            Err(refuse("systemd unit has no main-process start timestamp"))
        },
    }
}

fn read_unit_directory(values: &TextMap) -> (outcome: Result<String, Refusal>)
    ensures
        crate::clock::written(outcome, unit_directory(values@)),
{
    let path = required_systemd_property(values, "WorkingDirectory")?;
    if is_absolute(path.as_str()) {
        Ok(path)
    } else {
        Err(refuse("systemd unit working directory is not absolute"))
    }
}

fn read_unit_group(values: &TextMap) -> (outcome: Result<String, Refusal>)
    ensures
        crate::clock::written(outcome, unit_group(values@)),
{
    let path = required_systemd_property(values, "ControlGroup")?;
    if is_absolute(path.as_str()) && !contains_char(path.as_str(), '\n') && !contains_char(
        path.as_str(),
        '\r',
    ) && !contains_char(path.as_str(), '\0') {
        Ok(path)
    } else {
        Err(refuse("systemd unit control group is invalid"))
    }
}

fn read_main_process(values: &TextMap) -> (outcome: Result<u32, Refusal>)
    ensures
        crate::procfs::comes_to(outcome, main_process(values@)),
{
    match values.get("MainPID") {
        None => Err(refuse("systemd unit has no MainPID")),
        Some(text) => match parse_decimal(text.as_str(), 0xffff_ffffu64) {
            None => Err(refuse("systemd MainPID is not a u32")),
            Some(n) => if n > 0 {
                Ok(n as u32)
            } else {
                Err(refuse("systemd unit has no live main process"))
            },
        },
    }
}

/// What is asked of an observation: the unit, what was activated in it, and what was
/// handed to its process.
#[derive(Clone, Debug, PartialEq, Eq)]
pub struct ObservationRequest {
    pub unit: String,
    pub runtime_instance_id: String,
    pub activation_signer_identity_id: String,
    pub activation_signer_public_key: Vec<u8>,
    pub environment_names: Vec<String>,
    pub service_credential_names: Vec<String>,
    pub parent_only_file_descriptors: Vec<ParentOnlyFileDescriptorObservation>,
}

impl ObservationRequest {
    /// The descriptors that were opened for the process.
    pub open spec fn descriptors(&self) -> Seq<ParentOnlyFileDescriptorObservationView> {
        parent_only_file_descriptor_observation_views(self.parent_only_file_descriptors@)
    }

    /// The names of the credentials that were delivered.
    pub open spec fn credential_names(&self) -> Seq<Seq<char>> {
        texts(self.service_credential_names@)
    }
}

/// Whether a unit runs.
pub open spec fn running(values: Seq<Pair>) -> bool {
    value_of(values, "ActiveState"@) == Some("active"@) && value_of(values, "SubState"@) == Some(
        "running"@,
    )
}

/// Why a unit that systemd shows is not the launched one, if so.
pub open spec fn unit_refusal(
    request: ObservationRequest,
    shown: Option<UnitView>,
    credential_root: Seq<char>,
    names: LaunchNames,
) -> Option<Seq<char>> {
    let owed = open_files(request.descriptors(), names);
    if !ascending(request.credential_names()) {
        Some("service credential names are not unique and sorted"@)
    } else {
        match shown {
            None => Some("systemd unit "@ + request.unit@ + " is absent"@),
            Some(unit) => either(
                fault(owed),
                either(
                    unless(
                        unit.open_files == owed->Ok_0,
                        "systemd parent-only descriptor contract differs from the Idunn launch"@,
                    ),
                    either(
                        unless(
                            running(unit.properties),
                            "systemd unit "@ + request.unit@ + " is not running"@,
                        ),
                        either(
                            fault(invocation(unit.properties)),
                            either(
                                fault(main_start(unit.properties)),
                                either(
                                    properties_fault(unit.properties),
                                    either(
                                        unless(
                                            isolated(
                                                properties_of(unit.properties),
                                                credential_root,
                                                request.credential_names().len() > 0,
                                            ),
                                            "systemd workload isolation properties differ from the Idunn contract"@,
                                        ),
                                        either(
                                            fault(unit_directory(unit.properties)),
                                            either(
                                                fault(unit_group(unit.properties)),
                                                fault(main_process(unit.properties)),
                                            ),
                                        ),
                                    ),
                                ),
                            ),
                        ),
                    ),
                ),
            ),
        }
    }
}

/// What systemd said of a running unit, where nothing is refused.
pub open spec fn contract_of(unit: UnitView) -> UnitContractView {
    UnitContractView {
        invocation_id: invocation(unit.properties)->Ok_0,
        started: main_start(unit.properties)->Ok_0,
        properties: properties_of(unit.properties),
        working_directory: unit_directory(unit.properties)->Ok_0,
        control_group: unit_group(unit.properties)->Ok_0,
        main_pid: main_process(unit.properties)->Ok_0,
    }
}

/// What a unit that may be absent shows.
pub open spec fn shown_unit(shown: Option<SystemdUnitObservation>) -> Option<UnitView> {
    match shown {
        Some(unit) => Some(unit@),
        None => None,
    }
}

fn is_running(values: &TextMap) -> (is: bool)
    ensures
        is == running(values@),
{
    let active = values.get("ActiveState");
    let sub = values.get("SubState");
    crate::text::is_text(&active, "active") && crate::text::is_text(&sub, "running")
}

/// Holds a unit that systemd shows against the contract that it was launched under. The unit
/// is told with its contract.
pub fn judge_unit<'a>(
    request: &ObservationRequest,
    shown: &'a Option<SystemdUnitObservation>,
    credential_root: &str,
    names: &LaunchNames,
) -> (outcome: Result<(&'a SystemdUnitObservation, UnitContract), Refusal>)
    ensures
        match unit_refusal(*request, shown_unit(*shown), credential_root@, *names) {
            Some(w) => outcome matches Err(refusal) && refusal@ == w,
            None => outcome matches Ok((unit, found)) && *shown == Some(*unit) && found@
                == contract_of(unit@),
        },
{
    if !is_ascending(request.service_credential_names.as_slice()) {
        return Err(refuse("service credential names are not unique and sorted"));
    }
    let unit = match shown {
        Some(unit) => unit,
        None => return Err(
            Refusal { text: cat3("systemd unit ", request.unit.as_str(), " is absent") },
        ),
    };
    let owed = parent_only_open_file_properties(
        request.parent_only_file_descriptors.as_slice(),
        names,
    )?;
    if !same_texts(unit.open_files.as_slice(), owed.as_slice()) {
        return Err(
            refuse("systemd parent-only descriptor contract differs from the Idunn launch"),
        );
    }
    if !is_running(&unit.properties) {
        return Err(
            Refusal { text: cat3("systemd unit ", request.unit.as_str(), " is not running") },
        );
    }
    let invocation_id = read_invocation(&unit.properties)?;
    let started: u64 = read_main_start(&unit.properties)?;
    let properties = unit_properties(&unit.properties)?;
    let delivers = request.service_credential_names.len() > 0;
    assert(request.credential_names().len() == request.service_credential_names@.len());
    if !is_isolated(&properties, credential_root, delivers) {
        return Err(
            refuse("systemd workload isolation properties differ from the Idunn contract"),
        );
    }
    let working_directory = read_unit_directory(&unit.properties)?;
    let control_group = read_unit_group(&unit.properties)?;
    let main_pid: u32 = read_main_process(&unit.properties)?;
    let contract = UnitContract {
        invocation_id,
        started,
        properties,
        working_directory,
        control_group,
        main_pid,
    };
    Ok((unit, contract))
}

/// What a reading told, or why it failed.
pub open spec fn told_by<T: View>(reading: Result<T, Refusal>) -> Result<T::V, Seq<char>> {
    match reading {
        Ok(value) => Ok(value@),
        Err(refusal) => Err(refusal@),
    }
}

/// Why a reading failed, if it did.
pub open spec fn missed<T>(reading: Result<T, Refusal>) -> Option<Seq<char>> {
    match reading {
        Ok(_) => None,
        Err(refusal) => Some(refusal@),
    }
}

fn taken<T>(reading: &Result<T, Refusal>) -> (outcome: Result<&T, Refusal>)
    ensures
        match (*reading, outcome) {
            (Ok(value), Ok(found)) => *found == value,
            (Err(refusal), Err(told)) => told@ == refusal@,
            _ => false,
        },
{
    match reading {
        Ok(value) => Ok(value),
        Err(refusal) => Err(Refusal { text: refusal.text.clone() }),
    }
}

/// The executable of a process as the kernel links it, beside the sealed one.
#[derive(Clone, Debug, PartialEq, Eq)]
pub struct ExecutableReading {
    pub path: String,
    pub is_file: bool,
    pub device: u64,
    pub inode: u64,
    pub sealed_device: u64,
    pub sealed_inode: u64,
}

/// The same two executables by their canonical paths.
#[derive(Clone, Debug, PartialEq, Eq)]
pub struct CanonicalReading {
    pub path: String,
    pub sealed: String,
}

/// A delivered credential as it is found in the root of the process.
#[derive(Clone, Debug, PartialEq, Eq)]
pub struct CredentialReading {
    pub is_file: bool,
    pub len: u64,
    pub device: u64,
    pub inode: u64,
    pub uid: u32,
    pub gid: u32,
    pub mode: u32,
    pub links: u64,
    pub sha256: String,
}

/// What was read of the main process of a unit, in the order in which it is judged. The
/// credentials stand in the order of their names.
#[derive(Debug, PartialEq, Eq)]
pub struct ProcessEvidence {
    pub executable: Result<ExecutableReading, Refusal>,
    pub canonical: Result<CanonicalReading, Refusal>,
    pub executable_sha256: Result<String, Refusal>,
    pub stat: Result<String, Refusal>,
    pub status: Result<String, Refusal>,
    pub mount_namespace: Result<String, Refusal>,
    pub pid_namespace: Result<String, Refusal>,
    pub observer_mount_namespace: Result<String, Refusal>,
    pub observer_pid_namespace: Result<String, Refusal>,
    pub control_groups: Result<String, Refusal>,
    pub command_line: Result<Vec<u8>, Refusal>,
    pub environment: Result<Vec<u8>, Refusal>,
    pub credentials: Vec<Result<CredentialReading, Refusal>>,
    pub final_unit: Result<Option<SystemdUnitObservation>, Refusal>,
    pub final_stat: Result<String, Refusal>,
}

/// Why the executable is not the sealed one, if so.
pub open spec fn executable_refusal(evidence: ProcessEvidence) -> Option<Seq<char>> {
    either(
        missed(evidence.executable),
        either(
            unless(
                evidence.executable matches Ok(e) && e.is_file && e.device == e.sealed_device
                    && e.inode == e.sealed_inode,
                "systemd started an executable inode outside the sealed release"@,
            ),
            either(
                missed(evidence.canonical),
                either(
                    unless(
                        evidence.canonical matches Ok(c) && same_path(c.path@, c.sealed@),
                        "systemd started an executable outside the sealed release"@,
                    ),
                    missed(evidence.executable_sha256),
                ),
            ),
        ),
    )
}

fn check_executable(evidence: &ProcessEvidence) -> (outcome: Result<(), Refusal>)
    ensures
        judged(outcome, executable_refusal(*evidence)),
{
    let e = taken(&evidence.executable)?;
    if !(e.is_file && e.device == e.sealed_device && e.inode == e.sealed_inode) {
        return Err(refuse("systemd started an executable inode outside the sealed release"));
    }
    let c = taken(&evidence.canonical)?;
    if !is_same_path(c.path.as_str(), c.sealed.as_str()) {
        return Err(refuse("systemd started an executable outside the sealed release"));
    }
    let _ = taken(&evidence.executable_sha256)?;
    Ok(())
}

/// When a process started, by what the kernel told.
pub open spec fn start_in(stat: Result<String, Refusal>) -> Result<u64, Seq<char>> {
    match told_by(stat) {
        Err(w) => Err(w),
        Ok(text) => start_time(text),
    }
}

fn read_start(stat: &Result<String, Refusal>) -> (outcome: Result<u64, Refusal>)
    ensures
        crate::procfs::comes_to(outcome, start_in(*stat)),
{
    let text = taken(stat)?;
    linux_process_start_time(text.as_str())
}

/// The namespace that a link names, by what the kernel told.
pub open spec fn namespace_in(target: Result<String, Refusal>, kind: Seq<char>) -> Result<
    u64,
    Seq<char>,
> {
    match told_by(target) {
        Err(w) => Err(w),
        Ok(text) => namespace_id(text, kind),
    }
}

fn read_namespace(target: &Result<String, Refusal>, kind: &str) -> (outcome: Result<u64, Refusal>)
    ensures
        crate::procfs::comes_to(outcome, namespace_in(*target, kind@)),
{
    let text = taken(target)?;
    linux_namespace_id(text.as_str(), kind)
}

/// Whether all numbers are one number.
pub open spec fn all_are(list: Seq<u32>, n: u32) -> bool {
    forall|i: int| 0 <= i < list.len() ==> #[trigger] list[i] == n
}

fn are_all(list: &[u32], n: u32) -> (are: bool)
    ensures
        are == all_are(list@, n),
{
    let mut i: usize = 0;
    while i < list.len()
        invariant
            i <= list@.len(),
            forall|j: int| 0 <= j < i ==> #[trigger] list@[j] == n,
        decreases list@.len() - i,
    {
        if list[i] != n {
            return false;
        }
        i += 1;
    }
    true
}

/// Whether all numbers are above zero.
pub open spec fn all_positive(list: Seq<u32>) -> bool {
    forall|i: int| 0 <= i < list.len() ==> #[trigger] list[i] > 0
}

fn are_positive(list: &[u32]) -> (are: bool)
    ensures
        are == all_positive(list@),
{
    let mut i: usize = 0;
    while i < list.len()
        invariant
            i <= list@.len(),
            forall|j: int| 0 <= j < i ==> #[trigger] list@[j] > 0,
        decreases list@.len() - i,
    {
        if list[i] == 0 {
            return false;
        }
        i += 1;
    }
    true
}

/// Why the kernel's word on a process is not that of a confined one, if so: one dynamic
/// user and one group, no capability, no new privileges, and a private namespace in which
/// it is the first process.
pub open spec fn confinement_refusal(s: SecurityView, main_pid: u32) -> Option<Seq<char>> {
    either(
        unless(
            all_are(s.uids, s.uids[0]) && 61_184 <= s.uids[0] <= 65_519,
            "systemd workload does not have one unprivileged process uid"@,
        ),
        either(
            unless(
                all_are(s.gids, s.gids[0]) && s.gids[0] > 0 && all_are(s.groups, s.gids[0]),
                "systemd workload has foreign supplementary groups"@,
            ),
            either(
                unless(
                    s.cap_inheritable == 0 && s.cap_permitted == 0 && s.cap_effective == 0
                        && s.cap_bounding == 0 && s.cap_ambient == 0,
                    "systemd workload retained Linux capabilities"@,
                ),
                either(
                    unless(
                        s.no_new_privileges,
                        "systemd workload lacks kernel no-new-privileges enforcement"@,
                    ),
                    unless(
                        s.namespace_pids.len() >= 2 && s.namespace_pids[0] == main_pid
                            && s.namespace_pids.last() == 1 && all_positive(s.namespace_pids),
                        "systemd workload is not observed in a private pid namespace"@,
                    ),
                ),
            ),
        ),
    )
}

/// Refuses a process that the kernel does not confine.
pub fn check_confinement(s: &LinuxProcessSecurityObservation, main_pid: u32) -> (outcome: Result<
    (),
    Refusal,
>)
    ensures
        judged(outcome, confinement_refusal(s@, main_pid)),
{
    let uid: u32 = s.uids[0];
    if !(are_all(s.uids.as_slice(), uid) && 61_184 <= uid && uid <= 65_519) {
        return Err(refuse("systemd workload does not have one unprivileged process uid"));
    }
    let gid: u32 = s.gids[0];
    if !(are_all(s.gids.as_slice(), gid) && gid > 0 && are_all(s.groups.as_slice(), gid)) {
        return Err(refuse("systemd workload has foreign supplementary groups"));
    }
    if !(s.cap_inheritable == 0 && s.cap_permitted == 0 && s.cap_effective == 0 && s.cap_bounding
        == 0 && s.cap_ambient == 0) {
        return Err(refuse("systemd workload retained Linux capabilities"));
    }
    if !s.no_new_privileges {
        return Err(refuse("systemd workload lacks kernel no-new-privileges enforcement"));
    }
    let n: usize = s.namespace_pids.len();
    if !(n >= 2 && s.namespace_pids[0] == main_pid && s.namespace_pids[n - 1] == 1 && are_positive(
        s.namespace_pids.as_slice(),
    )) {
        return Err(refuse("systemd workload is not observed in a private pid namespace"));
    }
    Ok(())
}

/// Why the kernel's word on a process is refused, if it is.
pub open spec fn kernel_refusal(evidence: ProcessEvidence, main_pid: u32) -> Option<Seq<char>> {
    either(
        fault(start_in(evidence.stat)),
        either(
            missed(evidence.status),
            either(
                security_refusal(evidence.status->Ok_0@, main_pid),
                either(
                    confinement_refusal(security_of(evidence.status->Ok_0@), main_pid),
                    either(
                        fault(namespace_in(evidence.mount_namespace, "mnt"@)),
                        either(
                            fault(namespace_in(evidence.pid_namespace, "pid"@)),
                            either(
                                fault(namespace_in(evidence.observer_mount_namespace, "mnt"@)),
                                either(
                                    fault(namespace_in(evidence.observer_pid_namespace, "pid"@)),
                                    unless(
                                        namespace_in(evidence.mount_namespace, "mnt"@)
                                            != namespace_in(
                                            evidence.observer_mount_namespace,
                                            "mnt"@,
                                        ) && namespace_in(evidence.pid_namespace, "pid"@)
                                            != namespace_in(
                                            evidence.observer_pid_namespace,
                                            "pid"@,
                                        ),
                                        "systemd workload did not receive private mount and pid namespaces"@,
                                    ),
                                ),
                            ),
                        ),
                    ),
                ),
            ),
        ),
    )
}

/// The kernel's word on a process.
#[derive(Debug, PartialEq, Eq)]
pub struct KernelFindings {
    pub start_time: u64,
    pub security: LinuxProcessSecurityObservation,
    pub mount_namespace_id: u64,
    pub pid_namespace_id: u64,
}

/// Whether the kernel's word was taken as it stands in the evidence.
pub open spec fn kernel_found(findings: KernelFindings, evidence: ProcessEvidence) -> bool {
    &&& start_in(evidence.stat) == Ok::<u64, Seq<char>>(findings.start_time)
    &&& findings.security@ == security_of(evidence.status->Ok_0@)
    &&& namespace_in(evidence.mount_namespace, "mnt"@) == Ok::<u64, Seq<char>>(
        findings.mount_namespace_id,
    )
    &&& namespace_in(evidence.pid_namespace, "pid"@) == Ok::<u64, Seq<char>>(
        findings.pid_namespace_id,
    )
}

/// Takes the kernel's word on a process.
pub fn kernel_findings(evidence: &ProcessEvidence, main_pid: u32) -> (outcome: Result<
    KernelFindings,
    Refusal,
>)
    ensures
        match kernel_refusal(*evidence, main_pid) {
            Some(w) => outcome matches Err(refusal) && refusal@ == w,
            None => outcome matches Ok(found) && kernel_found(found, *evidence),
        },
{
    let start_time: u64 = read_start(&evidence.stat)?;
    let status = taken(&evidence.status)?;
    let security = linux_process_security(status.as_str(), main_pid)?;
    check_confinement(&security, main_pid)?;
    let mount_namespace_id: u64 = read_namespace(&evidence.mount_namespace, "mnt")?;
    let pid_namespace_id: u64 = read_namespace(&evidence.pid_namespace, "pid")?;
    let observer_mount: u64 = read_namespace(&evidence.observer_mount_namespace, "mnt")?;
    let observer_pid: u64 = read_namespace(&evidence.observer_pid_namespace, "pid")?;
    if mount_namespace_id == observer_mount || pid_namespace_id == observer_pid {
        return Err(refuse("systemd workload did not receive private mount and pid namespaces"));
    }
    Ok(KernelFindings { start_time, security, mount_namespace_id, pid_namespace_id })
}

/// The environment of the process that the contract names.
pub open spec fn selected_in(evidence: ProcessEvidence, names: Seq<Seq<char>>) -> Result<
    Seq<Pair>,
    Seq<char>,
> {
    selection(environment_entries(evidence.environment->Ok_0@), names)
}

/// The bundle that a process was started with.
pub open spec fn bundle_in(pairs: Seq<Pair>, name: Seq<char>) -> Result<Seq<char>, Seq<char>> {
    match value_of(pairs, name) {
        None => Err("systemd MainPID lacks the Idunn runtime bundle environment"@),
        Some(path) => if absolute(path) {
            Ok(path)
        } else {
            Err("runtime bundle path is not absolute"@)
        },
    }
}

/// Whether any entry of an environment sets a name.
pub open spec fn sets(entries: Seq<Seq<u8>>, name: Seq<char>) -> bool {
    entries.filter(beginning(vstd::utf8::encode_utf8(name + "="@))).len() > 0
}

/// Where the credentials of a process were delivered, which is nowhere where none are.
pub open spec fn delivery_in(entries: Seq<Seq<u8>>, unit: Seq<char>, delivers: bool) -> Result<
    Option<Seq<char>>,
    Seq<char>,
> {
    if !delivers {
        if sets(entries, "CREDENTIALS_DIRECTORY"@) {
            Err("systemd MainPID exposed an unowned credential directory"@)
        } else {
            Ok(None)
        }
    } else {
        match environment_value(entries, "CREDENTIALS_DIRECTORY"@) {
            Err(w) => Err(w),
            Ok(path) => if same_path(path, joined("/run/credentials"@, unit)) {
                Ok(Some(path))
            } else {
                Err("systemd MainPID exposed an unexpected credential directory"@)
            },
        }
    }
}

fn is_set(entries: &Vec<Vec<u8>>, name: &str) -> (is: bool)
    ensures
        is == sets(byte_strings(entries@), name@),
{
    let prefix = cat2(name, "=");
    let ghost all = byte_strings(entries@);
    let ghost begins = beginning(vstd::utf8::encode_utf8(name@ + "="@));
    let mut i: usize = 0;
    while i < entries.len()
        invariant
            i <= entries@.len(),
            all == byte_strings(entries@),
            prefix@ == name@ + "="@,
            begins == beginning(vstd::utf8::encode_utf8(name@ + "="@)),
            forall|j: int| 0 <= j < i ==> !begins(#[trigger] all[j]),
        decreases entries@.len() - i,
    {
        assert(all[i as int] == entries@[i as int]@);
        if bytes_start_with(entries[i].as_slice(), prefix.as_str().as_bytes()) {
            proof {
                assert(begins(all[i as int]));
                assert(all.contains(all[i as int]));
                all.lemma_filter_contains_rev(begins, all[i as int]);
            }
            return true;
        }
        i += 1;
    }
    proof {
        crate::listing::lemma_filter_none(all, begins);
    }
    false
}

fn read_delivery(entries: &Vec<Vec<u8>>, unit: &str, delivers: bool) -> (outcome: Result<
    Option<String>,
    Refusal,
>)
    ensures
        match (outcome, delivery_in(byte_strings(entries@), unit@, delivers)) {
            (Ok(found), Ok(owed)) => text_option(found) == owed,
            (Err(refusal), Err(w)) => refusal@ == w,
            _ => false,
        },
{
    if !delivers {
        if is_set(entries, "CREDENTIALS_DIRECTORY") {
            return Err(refuse("systemd MainPID exposed an unowned credential directory"));
        }
        return Ok(None);
    }
    let path = required_process_environment_value(entries.as_slice(), "CREDENTIALS_DIRECTORY")?;
    let owed = join("/run/credentials", unit);
    if !is_same_path(path.as_str(), owed.as_str()) {
        return Err(refuse("systemd MainPID exposed an unexpected credential directory"));
    }
    Ok(Some(path))
}

/// Whether a delivered credential is root's, unaliased, and closed to the world.
pub open spec fn closed_credential(reading: CredentialReading) -> bool {
    reading.is_file && reading.len > 0 && reading.links == 1 && reading.uid == 0
        && reading.mode & 0o007 == 0
}

/// One delivered credential, or why it is refused.
pub open spec fn credential_in(
    reading: Result<CredentialReading, Refusal>,
    name: Seq<char>,
    directory: Option<Seq<char>>,
    pairs: Seq<Pair>,
    process_root: Seq<char>,
) -> Result<ServiceCredentialObservationView, Seq<char>> {
    match directory {
        None => Err("service credential has no systemd credential directory"@),
        Some(d) => match either(
            unless(
                value_of(pairs, name) == Some(joined(d, name)),
                "workload secret environment does not name its delivered systemd credential"@,
            ),
            either(
                fault(inside_process_root(joined(process_root, "root"@), joined(d, name))),
                either(
                    missed(reading),
                    unless(
                        closed_credential(reading->Ok_0),
                        "delivered service credential is not root-owned and closed to group and world"@,
                    ),
                ),
            ),
        ) {
            Some(w) => Err(w),
            None => Ok(
                ServiceCredentialObservationView {
                    environment_name: name,
                    delivered_path: joined(d, name),
                    device: reading->Ok_0.device,
                    inode: reading->Ok_0.inode,
                    uid: reading->Ok_0.uid,
                    gid: reading->Ok_0.gid,
                    mode: reading->Ok_0.mode,
                    size: reading->Ok_0.len,
                    sha256: reading->Ok_0.sha256@,
                },
            ),
        },
    }
}

fn read_credential(
    reading: &Result<CredentialReading, Refusal>,
    name: &str,
    directory: &Option<String>,
    selected: &TextMap,
    process_root: &str,
) -> (outcome: Result<ServiceCredentialObservation, Refusal>)
    ensures
        crate::records::reads(
            outcome,
            credential_in(*reading, name@, text_option(*directory), selected@, process_root@),
        ),
{
    let d = match directory {
        Some(d) => d,
        None => return Err(refuse("service credential has no systemd credential directory")),
    };
    let delivered_path = join(d.as_str(), name);
    let told = selected.get(name);
    if !crate::text::is_text(&told, delivered_path.as_str()) {
        return Err(
            refuse("workload secret environment does not name its delivered systemd credential"),
        );
    }
    let root = join(process_root, "root");
    let _ = path_inside_process_root(root.as_str(), delivered_path.as_str())?;
    let found = taken(reading)?;
    if !(found.is_file && found.len > 0 && found.links == 1 && found.uid == 0 && found.mode & 0o007
        == 0) {
        return Err(
            refuse("delivered service credential is not root-owned and closed to group and world"),
        );
    }
    Ok(
        ServiceCredentialObservation {
            environment_name: name.to_owned(),
            delivered_path,
            device: found.device,
            inode: found.inode,
            uid: found.uid,
            gid: found.gid,
            mode: found.mode,
            size: found.len,
            sha256: found.sha256.clone(),
        },
    )
}

/// The delivered credentials of the first names, or why the first bad one is refused.
pub open spec fn credentials_in(
    readings: Seq<Result<CredentialReading, Refusal>>,
    names: Seq<Seq<char>>,
    directory: Option<Seq<char>>,
    pairs: Seq<Pair>,
    process_root: Seq<char>,
) -> Result<Seq<ServiceCredentialObservationView>, Seq<char>>
    decreases names.len(),
{
    if names.len() == 0 {
        Ok(Seq::empty())
    } else {
        let last = names.len() - 1;
        match credentials_in(readings, names.drop_last(), directory, pairs, process_root) {
            Err(w) => Err(w),
            Ok(earlier) => match credential_in(
                readings[last],
                names[last],
                directory,
                pairs,
                process_root,
            ) {
                Err(w) => Err(w),
                Ok(found) => Ok(earlier.push(found)),
            },
        }
    }
}

proof fn lemma_credentials_fail(
    readings: Seq<Result<CredentialReading, Refusal>>,
    names: Seq<Seq<char>>,
    directory: Option<Seq<char>>,
    pairs: Seq<Pair>,
    process_root: Seq<char>,
    n: int,
)
    requires
        0 <= n <= names.len(),
        credentials_in(readings, names.take(n), directory, pairs, process_root) is Err,
    ensures
        credentials_in(readings, names, directory, pairs, process_root) == credentials_in(
            readings,
            names.take(n),
            directory,
            pairs,
            process_root,
        ),
    decreases names.len() - n,
{
    if n < names.len() {
        assert(names.take(n + 1).drop_last() =~= names.take(n));
        lemma_credentials_fail(readings, names, directory, pairs, process_root, n + 1);
    } else {
        assert(names.take(n) =~= names);
    }
}

fn read_credentials(
    readings: &Vec<Result<CredentialReading, Refusal>>,
    names: &Vec<String>,
    directory: &Option<String>,
    selected: &TextMap,
    process_root: &str,
) -> (outcome: Result<Vec<ServiceCredentialObservation>, Refusal>)
    requires
        readings@.len() == names@.len(),
    ensures
        match (
            outcome,
            credentials_in(
                readings@,
                texts(names@),
                text_option(*directory),
                selected@,
                process_root@,
            ),
        ) {
            (Ok(list), Ok(owed)) => service_credential_observation_views(list@) == owed,
            (Err(refusal), Err(w)) => refusal@ == w,
            _ => false,
        },
{
    let ghost all = texts(names@);
    let mut list: Vec<ServiceCredentialObservation> = Vec::new();
    let mut i: usize = 0;
    proof {
        assert(all.take(0) =~= Seq::<Seq<char>>::empty());
        assert(service_credential_observation_views(list@) =~= Seq::<
            ServiceCredentialObservationView,
        >::empty());
    }
    while i < names.len()
        invariant
            i <= names@.len(),
            readings@.len() == names@.len(),
            all == texts(names@),
            credentials_in(
                readings@,
                all.take(i as int),
                text_option(*directory),
                selected@,
                process_root@,
            ) == Ok::<Seq<ServiceCredentialObservationView>, Seq<char>>(
                service_credential_observation_views(list@),
            ),
        decreases names@.len() - i,
    {
        proof {
            assert(all.take(i + 1).drop_last() =~= all.take(i as int));
            assert(all.take(i + 1)[i as int] == names@[i as int]@);
        }
        match read_credential(&readings[i], names[i].as_str(), directory, selected, process_root) {
            Ok(found) => {
                let ghost earlier = list@;
                let ghost view = found@;
                list.push(found);
                assert(service_credential_observation_views(list@)
                    =~= service_credential_observation_views(earlier).push(view));
            },
            Err(refusal) => {
                proof {
                    lemma_credentials_fail(
                        readings@,
                        all,
                        text_option(*directory),
                        selected@,
                        process_root@,
                        i + 1,
                    );
                }
                return Err(refusal);
            },
        }
        i += 1;
    }
    assert(all.take(i as int) =~= all);
    Ok(list)
}

/// Why a process does not stand in the control group of its unit, if so.
pub open spec fn group_refusal(evidence: ProcessEvidence, control_group: Seq<char>) -> Option<
    Seq<char>,
> {
    either(
        missed(evidence.control_groups),
        unless(
            lines(evidence.control_groups->Ok_0@) == seq!["0::"@ + control_group],
            "systemd MainPID is outside the unit control group"@,
        ),
    )
}

fn check_group(evidence: &ProcessEvidence, control_group: &str) -> (outcome: Result<(), Refusal>)
    ensures
        judged(outcome, group_refusal(*evidence, control_group@)),
{
    let text = taken(&evidence.control_groups)?;
    let found = lines_of(text.as_str());
    let owed = cat2("0::", control_group);
    let ghost all = lines(text@);
    assert(texts(found@) == all);
    if found.len() == 1 && same_text(found[0].as_str(), owed.as_str()) {
        assert(all[0] == found@[0]@);
        assert(all =~= seq!["0::"@ + control_group@]);
        return Ok(());
    }
    proof {
        if all == seq!["0::"@ + control_group@] {
            assert(all[0] == found@[0]@);
        }
    }
    Err(refuse("systemd MainPID is outside the unit control group"))
}

/// Why the activation key was not handed over as root's alone, if so.
pub open spec fn activation_refusal(
    d: ParentOnlyFileDescriptorObservationView,
    names: LaunchNames,
) -> Option<Seq<char>> {
    unless(
        d.fd_name == names.activation_descriptor@ && d.size == 32 && d.uid == 0 && d.gid == 0
            && d.mode == 0o400 && d.links == 1,
        "activation signing descriptor is not exact root-only source material"@,
    )
}

/// Why a unit is not at the end of an observation what it was at the start, if so.
pub open spec fn drift_refusal(
    unit: Seq<char>,
    first: UnitView,
    evidence: ProcessEvidence,
) -> Option<Seq<char>> {
    match evidence.final_unit {
        Err(refusal) => Some(refusal@),
        Ok(None) => Some("systemd unit "@ + unit + " vanished during observation"@),
        Ok(Some(last)) => if last@ != first {
            Some("systemd workload identity changed during native observation"@)
        } else {
            either(
                fault(start_in(evidence.final_stat)),
                unless(
                    start_in(evidence.final_stat) == start_in(evidence.stat),
                    "systemd workload identity changed during native observation"@,
                ),
            )
        },
    }
}

fn check_drift(
    unit: &str,
    first: &SystemdUnitObservation,
    evidence: &ProcessEvidence,
    started: u64,
) -> (outcome: Result<(), Refusal>)
    requires
        start_in(evidence.stat) == Ok::<u64, Seq<char>>(started),
    ensures
        judged(outcome, drift_refusal(unit@, first@, *evidence)),
{
    match &evidence.final_unit {
        Err(refusal) => Err(Refusal { text: refusal.text.clone() }),
        Ok(None) => Err(
            Refusal { text: cat3("systemd unit ", unit, " vanished during observation") },
        ),
        Ok(Some(last)) => {
            if !last.same(first) {
                return Err(
                    refuse("systemd workload identity changed during native observation"),
                );
            }
            let ended: u64 = read_start(&evidence.final_stat)?;
            if ended != started {
                return Err(
                    refuse("systemd workload identity changed during native observation"),
                );
            }
            Ok(())
        },
    }
}

/// The credentials of a process, or why they are refused.
pub open spec fn process_credentials(
    request: ObservationRequest,
    evidence: ProcessEvidence,
    process_root: Seq<char>,
) -> Result<Seq<ServiceCredentialObservationView>, Seq<char>> {
    let names = request.credential_names();
    credentials_in(
        evidence.credentials@,
        names,
        delivery_in(
            environment_entries(evidence.environment->Ok_0@),
            request.unit@,
            names.len() > 0,
        )->Ok_0,
        selected_in(evidence, texts(request.environment_names@))->Ok_0,
        process_root,
    )
}

/// Why the process of a unit is not the launched one, if so.
pub open spec fn process_refusal(
    request: ObservationRequest,
    first: UnitView,
    contract: UnitContractView,
    evidence: ProcessEvidence,
    process_root: Seq<char>,
    names: LaunchNames,
) -> Option<Seq<char>> {
    let selected = selected_in(evidence, texts(request.environment_names@));
    either(
        executable_refusal(evidence),
        either(
            kernel_refusal(evidence, contract.main_pid),
            either(
                group_refusal(evidence, contract.control_group),
                either(
                    missed(evidence.command_line),
                    either(
                        unless(
                            evidence.command_line->Ok_0@.len() > 0,
                            "systemd MainPID has no command line"@,
                        ),
                        either(
                            missed(evidence.environment),
                            either(
                                fault(selected),
                                either(
                                    fault(bundle_in(selected->Ok_0, names.runtime_bundle@)),
                                    either(
                                        fault(
                                            delivery_in(
                                                environment_entries(evidence.environment->Ok_0@),
                                                request.unit@,
                                                request.credential_names().len() > 0,
                                            ),
                                        ),
                                        either(
                                            activation_refusal(request.descriptors()[0], names),
                                            either(
                                                fault(
                                                    process_credentials(
                                                        request,
                                                        evidence,
                                                        process_root,
                                                    ),
                                                ),
                                                drift_refusal(request.unit@, first, evidence),
                                            ),
                                        ),
                                    ),
                                ),
                            ),
                        ),
                    ),
                ),
            ),
        ),
    )
}

/// What was found of the process of a unit.
#[derive(Debug, PartialEq, Eq)]
pub struct ProcessFindings {
    pub kernel: KernelFindings,
    pub environment: TextMap,
    pub runtime_bundle: String,
    pub credentials_directory: Option<String>,
    pub service_credentials: Vec<ServiceCredentialObservation>,
}

/// Whether findings are what the evidence of a process holds.
pub open spec fn process_found(
    findings: ProcessFindings,
    request: ObservationRequest,
    evidence: ProcessEvidence,
    process_root: Seq<char>,
    names: LaunchNames,
) -> bool {
    let selected = selected_in(evidence, texts(request.environment_names@));
    &&& kernel_found(findings.kernel, evidence)
    &&& selected == Ok::<Seq<Pair>, Seq<char>>(findings.environment@)
    &&& bundle_in(findings.environment@, names.runtime_bundle@) == Ok::<Seq<char>, Seq<char>>(
        findings.runtime_bundle@,
    )
    &&& delivery_in(
        environment_entries(evidence.environment->Ok_0@),
        request.unit@,
        request.credential_names().len() > 0,
    ) == Ok::<Option<Seq<char>>, Seq<char>>(text_option(findings.credentials_directory))
    &&& process_credentials(request, evidence, process_root) == Ok::<
        Seq<ServiceCredentialObservationView>,
        Seq<char>,
    >(service_credential_observation_views(findings.service_credentials@))
}

fn read_bundle(selected: &TextMap, name: &str) -> (outcome: Result<String, Refusal>)
    ensures
        crate::clock::written(outcome, bundle_in(selected@, name@)),
{
    match selected.get(name) {
        None => Err(refuse("systemd MainPID lacks the Idunn runtime bundle environment")),
        Some(path) => if is_absolute(path.as_str()) {
            Ok(path)
        } else {
            Err(refuse("runtime bundle path is not absolute"))
        },
    }
}

fn check_activation(
    d: &ParentOnlyFileDescriptorObservation,
    names: &LaunchNames,
) -> (outcome: Result<(), Refusal>)
    ensures
        judged(outcome, activation_refusal(d@, *names)),
{
    if same_text(d.fd_name.as_str(), names.activation_descriptor.as_str()) && d.size == 32 && d.uid
        == 0 && d.gid == 0 && d.mode == 0o400 && d.links == 1 {
        Ok(())
    } else {
        Err(refuse("activation signing descriptor is not exact root-only source material"))
    }
}

/// Holds the process of a unit against what systemd said of it. There is a reading for
/// each credential, and at least one descriptor.
pub fn judge_process(
    request: &ObservationRequest,
    first: &SystemdUnitObservation,
    contract: &UnitContract,
    evidence: &ProcessEvidence,
    process_root: &str,
    names: &LaunchNames,
) -> (outcome: Result<ProcessFindings, Refusal>)
    requires
        request.parent_only_file_descriptors@.len() > 0,
        evidence.credentials@.len() == request.service_credential_names@.len(),
    ensures
        match process_refusal(*request, first@, contract@, *evidence, process_root@, *names) {
            Some(w) => outcome matches Err(refusal) && refusal@ == w,
            None => outcome matches Ok(found) && process_found(
                found,
                *request,
                *evidence,
                process_root@,
                *names,
            ),
        },
{
    check_executable(evidence)?;
    let kernel = kernel_findings(evidence, contract.main_pid)?;
    check_group(evidence, contract.control_group.as_str())?;
    let command_line = taken(&evidence.command_line)?;
    if command_line.len() == 0 {
        return Err(refuse("systemd MainPID has no command line"));
    }
    let block = taken(&evidence.environment)?;
    let entries = read_process_environment(block.as_slice());
    let environment = select_process_environment(
        entries.as_slice(),
        request.environment_names.as_slice(),
    )?;
    let runtime_bundle = read_bundle(&environment, names.runtime_bundle.as_str())?;
    let delivers = request.service_credential_names.len() > 0;
    assert(request.credential_names().len() == request.service_credential_names@.len());
    let credentials_directory = read_delivery(&entries, request.unit.as_str(), delivers)?;
    assert(request.descriptors()[0] == request.parent_only_file_descriptors@[0]@);
    check_activation(&request.parent_only_file_descriptors[0], names)?;
    let service_credentials = read_credentials(
        &evidence.credentials,
        &request.service_credential_names,
        &credentials_directory,
        &environment,
        process_root,
    )?;
    check_drift(request.unit.as_str(), first, evidence, kernel.start_time)?;
    Ok(
        ProcessFindings {
            kernel,
            environment,
            runtime_bundle,
            credentials_directory,
            service_credentials,
        },
    )
}

/// The observation that a request, a contract, evidence and findings amount to.
pub open spec fn observation_of(
    request: ObservationRequest,
    contract: UnitContractView,
    evidence: ProcessEvidence,
    findings: ProcessFindings,
    environment_contract_sha256: Seq<char>,
) -> SystemdWorkloadObservationView {
    let p = contract.properties;
    let s = findings.kernel.security@;
    SystemdWorkloadObservationView {
        unit: request.unit@,
        unit_description: p.unit_description,
        invocation_id: contract.invocation_id,
        exec_main_start_timestamp_monotonic: contract.started,
        service_type: p.service_type,
        restart_policy: p.restart_policy,
        kill_mode: p.kill_mode,
        dynamic_user: p.dynamic_user,
        systemd_user: p.systemd_user,
        systemd_group: p.systemd_group,
        supplementary_groups: p.supplementary_groups,
        capability_bounding_set: p.capability_bounding_set,
        ambient_capabilities: p.ambient_capabilities,
        private_mounts: p.private_mounts,
        private_pids: p.private_pids,
        protect_proc: p.protect_proc,
        proc_subset: p.proc_subset,
        no_new_privileges: p.no_new_privileges,
        umask: p.umask,
        inaccessible_paths: p.inaccessible_paths,
        load_credential: p.load_credential,
        main_pid: contract.main_pid,
        process_start_time: findings.kernel.start_time,
        process_uids: s.uids,
        process_gids: s.gids,
        process_groups: s.groups,
        process_cap_inheritable: s.cap_inheritable,
        process_cap_permitted: s.cap_permitted,
        process_cap_effective: s.cap_effective,
        process_cap_bounding: s.cap_bounding,
        process_cap_ambient: s.cap_ambient,
        process_no_new_privileges: s.no_new_privileges,
        process_namespace_pids: s.namespace_pids,
        mount_namespace_id: findings.kernel.mount_namespace_id,
        pid_namespace_id: findings.kernel.pid_namespace_id,
        executable: evidence.executable->Ok_0.path@,
        executable_device: evidence.executable->Ok_0.device,
        executable_inode: evidence.executable->Ok_0.inode,
        executable_sha256: evidence.executable_sha256->Ok_0@,
        runtime_instance_id: request.runtime_instance_id@,
        working_directory: contract.working_directory,
        runtime_bundle: findings.runtime_bundle@,
        command_line_sha256: digest_id(evidence.command_line->Ok_0@),
        environment_names: texts(request.environment_names@),
        environment_contract_sha256,
        control_group: contract.control_group,
        credentials_directory: text_option(findings.credentials_directory),
        parent_only_file_descriptors: request.descriptors(),
        activation_signer_identity_id: request.activation_signer_identity_id@,
        activation_signer_public_key: request.activation_signer_public_key@,
        service_credentials: service_credential_observation_views(findings.service_credentials@),
    }
}

/// Writes an observation down. What it takes from the evidence was read.
pub fn conclude(
    request: &ObservationRequest,
    contract: UnitContract,
    evidence: &ProcessEvidence,
    findings: ProcessFindings,
    environment_contract_sha256: String,
) -> (observation: SystemdWorkloadObservation)
    requires
        evidence.executable is Ok,
        evidence.executable_sha256 is Ok,
        evidence.command_line is Ok,
    ensures
        observation@ == observation_of(
            *request,
            contract@,
            *evidence,
            findings,
            environment_contract_sha256@,
        ),
{
    let (path, device, inode) = match &evidence.executable {
        Ok(e) => (e.path.clone(), e.device, e.inode),
        Err(_) => (String::new(), 0, 0),
    };
    let executable_sha256 = match &evidence.executable_sha256 {
        Ok(id) => id.clone(),
        Err(_) => String::new(),
    };
    let command_line_sha256 = match &evidence.command_line {
        Ok(bytes) => sha256_id(bytes.as_slice()),
        Err(_) => String::new(),
    };
    let p = contract.properties;
    let s = findings.kernel.security;
    SystemdWorkloadObservation {
        unit: request.unit.clone(),
        unit_description: p.unit_description,
        invocation_id: contract.invocation_id,
        exec_main_start_timestamp_monotonic: contract.started,
        service_type: p.service_type,
        restart_policy: p.restart_policy,
        kill_mode: p.kill_mode,
        dynamic_user: p.dynamic_user,
        systemd_user: p.systemd_user,
        systemd_group: p.systemd_group,
        supplementary_groups: p.supplementary_groups,
        capability_bounding_set: p.capability_bounding_set,
        ambient_capabilities: p.ambient_capabilities,
        private_mounts: p.private_mounts,
        private_pids: p.private_pids,
        protect_proc: p.protect_proc,
        proc_subset: p.proc_subset,
        no_new_privileges: p.no_new_privileges,
        umask: p.umask,
        inaccessible_paths: p.inaccessible_paths,
        load_credential: p.load_credential,
        main_pid: contract.main_pid,
        process_start_time: findings.kernel.start_time,
        process_uids: s.uids,
        process_gids: s.gids,
        process_groups: s.groups,
        process_cap_inheritable: s.cap_inheritable,
        process_cap_permitted: s.cap_permitted,
        process_cap_effective: s.cap_effective,
        process_cap_bounding: s.cap_bounding,
        process_cap_ambient: s.cap_ambient,
        process_no_new_privileges: s.no_new_privileges,
        process_namespace_pids: s.namespace_pids,
        mount_namespace_id: findings.kernel.mount_namespace_id,
        pid_namespace_id: findings.kernel.pid_namespace_id,
        executable: path,
        executable_device: device,
        executable_inode: inode,
        executable_sha256,
        runtime_instance_id: request.runtime_instance_id.clone(),
        working_directory: contract.working_directory,
        runtime_bundle: findings.runtime_bundle,
        command_line_sha256,
        environment_names: copy_texts(request.environment_names.as_slice()),
        environment_contract_sha256,
        control_group: contract.control_group,
        credentials_directory: findings.credentials_directory,
        parent_only_file_descriptors: copy_parent_only_file_descriptor_observation_list(
            request.parent_only_file_descriptors.as_slice(),
        ),
        activation_signer_identity_id: request.activation_signer_identity_id.clone(),
        activation_signer_public_key: copy_bytes(request.activation_signer_public_key.as_slice()),
        service_credentials: findings.service_credentials,
    }
}

/// Why a unit and its process are not what was launched, if so.
pub open spec fn observation_refusal(
    request: ObservationRequest,
    shown: Option<UnitView>,
    evidence: ProcessEvidence,
    process_root: Seq<char>,
    credential_root: Seq<char>,
    names: LaunchNames,
) -> Option<Seq<char>> {
    match unit_refusal(request, shown, credential_root, names) {
        Some(w) => Some(w),
        None => process_refusal(
            request,
            shown->0,
            contract_of(shown->0),
            evidence,
            process_root,
            names,
        ),
    }
}

/// Observes a launched unit: what systemd shows of it and what the kernel shows of its
/// process, each held against the launch contract. Where nothing is refused, all that may
/// still fail is the packing of the environment.
pub fn observe_unit(
    request: &ObservationRequest,
    shown: &Option<SystemdUnitObservation>,
    evidence: &ProcessEvidence,
    process_root: &str,
    credential_root: &str,
    names: &LaunchNames,
) -> (outcome: Result<SystemdWorkloadObservation, Refusal>)
    requires
        evidence.credentials@.len() == request.service_credential_names@.len(),
    ensures
        match observation_refusal(
            *request,
            shown_unit(*shown),
            *evidence,
            process_root@,
            credential_root@,
            *names,
        ) {
            Some(w) => outcome matches Err(refusal) && refusal@ == w,
            None => *shown matches Some(unit) && (outcome matches Ok(found) ==> exists|
                findings: ProcessFindings,
            |
                process_found(findings, *request, *evidence, process_root@, *names) && found@
                    == #[trigger] observation_of(
                    *request,
                    contract_of(unit@),
                    *evidence,
                    findings,
                    digest_id(packed_map(findings.environment@)),
                )),
        },
{
    let (unit, contract) = judge_unit(request, shown, credential_root, names)?;
    assert(request.descriptors().len() == request.parent_only_file_descriptors@.len());
    let findings = judge_process(request, unit, &contract, evidence, process_root, names)?;
    let environment_contract_sha256 = environment_contract(&findings.environment)?;
    Ok(conclude(request, contract, evidence, findings, environment_contract_sha256))
}

} // verus!
