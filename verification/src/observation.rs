//! What a workload driver proved about the native process it started, and what that
//! proves about two processes that run at once.
use vstd::prelude::*;

use crate::scan::{decimal, decimal_of};
use crate::text::{
    cat2, cat3, cat4, copy_bytes, copy_option, copy_texts, judged, refuse, same_bytes, same_option,
    same_text, same_texts, text_option, texts,
    unless, either, Refusal,
};

verus! {

/// A process identity that is not root's.
#[derive(Clone, Copy, Debug, PartialEq, Eq, Structural)]
pub struct ProcessIdentity {
    pub uid: u32,
    pub gid: u32,
}

/// Whether two lists of numbers are the same.
pub fn same_u32_list(a: &[u32], b: &[u32]) -> (same: bool)
    ensures
        same == (a@ == b@),
{
    if a.len() != b.len() {
        return false;
    }
    let mut i: usize = 0;
    while i < a.len()
        invariant
            i <= a@.len(),
            a@.len() == b@.len(),
            forall|j: int| 0 <= j < i ==> a@[j] == b@[j],
        decreases a@.len() - i,
    {
        if a[i] != b[i] {
            return false;
        }
        i += 1;
    }
    assert(a@ =~= b@);
    true
}

/// A copy of a list of numbers.
pub fn copy_u32_list(list: &[u32]) -> (copy: Vec<u32>)
    ensures
        copy@ == list@,
{
    let mut copy: Vec<u32> = Vec::new();
    let mut i: usize = 0;
    while i < list.len()
        invariant
            i <= list@.len(),
            copy@ == list@.take(i as int),
        decreases list@.len() - i,
    {
        copy.push(list[i]);
        i += 1;
        assert(list@.take(i as int) =~= list@.take(i - 1).push(list@[i - 1]));
    }
    assert(list@.take(i as int) =~= list@);
    copy
}

/// Whether two groups of four numbers are the same.
pub fn same_four(a: &[u32; 4], b: &[u32; 4]) -> (same: bool)
    ensures
        same == (a@ == b@),
{
    let same = a[0] == b[0] && a[1] == b[1] && a[2] == b[2] && a[3] == b[3];
    assert(same ==> a@ =~= b@);
    same
}

/// Where a sealed release is installed.
#[derive(Clone, Debug, PartialEq, Eq)]
pub struct InstalledReleaseObservation {
    pub sealed_release_id: String,
    pub root: String,
}

/// What `InstalledReleaseObservation` holds.
#[verifier::ext_equal]
pub struct InstalledReleaseObservationView {
    pub sealed_release_id: Seq<char>,
    pub root: Seq<char>,
}

impl View for InstalledReleaseObservation {
    type V = InstalledReleaseObservationView;

    open spec fn view(&self) -> InstalledReleaseObservationView {
        InstalledReleaseObservationView {
            sealed_release_id: self.sealed_release_id@,
            root: self.root@,
        }
    }
}

impl InstalledReleaseObservation {
    /// Whether two records hold the same.
    pub fn same(&self, other: &Self) -> (same: bool)
        ensures
            same == (self@ == other@),
    {
        let same_sealed_release_id: bool = same_text(
            self.sealed_release_id.as_str(),
            other.sealed_release_id.as_str(),
        );
        let same_root: bool = same_text(self.root.as_str(), other.root.as_str());
        same_sealed_release_id && same_root
    }

    /// A copy of the record.
    pub fn copy(&self) -> (copy: Self)
        ensures
            copy@ == self@,
    {
        InstalledReleaseObservation {
            sealed_release_id: self.sealed_release_id.clone(),
            root: self.root.clone(),
        }
    }
}

/// One credential that systemd delivered to a service.
#[derive(Clone, Debug, PartialEq, Eq)]
pub struct ServiceCredentialObservation {
    pub environment_name: String,
    pub delivered_path: String,
    pub device: u64,
    pub inode: u64,
    pub uid: u32,
    pub gid: u32,
    pub mode: u32,
    pub size: u64,
    pub sha256: String,
}

/// What `ServiceCredentialObservation` holds.
#[verifier::ext_equal]
pub struct ServiceCredentialObservationView {
    pub environment_name: Seq<char>,
    pub delivered_path: Seq<char>,
    pub device: u64,
    pub inode: u64,
    pub uid: u32,
    pub gid: u32,
    pub mode: u32,
    pub size: u64,
    pub sha256: Seq<char>,
}

impl View for ServiceCredentialObservation {
    type V = ServiceCredentialObservationView;

    open spec fn view(&self) -> ServiceCredentialObservationView {
        ServiceCredentialObservationView {
            environment_name: self.environment_name@,
            delivered_path: self.delivered_path@,
            device: self.device,
            inode: self.inode,
            uid: self.uid,
            gid: self.gid,
            mode: self.mode,
            size: self.size,
            sha256: self.sha256@,
        }
    }
}

impl ServiceCredentialObservation {
    /// Whether two records hold the same.
    pub fn same(&self, other: &Self) -> (same: bool)
        ensures
            same == (self@ == other@),
    {
        let same_environment_name: bool = same_text(
            self.environment_name.as_str(),
            other.environment_name.as_str(),
        );
        let same_delivered_path: bool = same_text(
            self.delivered_path.as_str(),
            other.delivered_path.as_str(),
        );
        let same_device: bool = self.device == other.device;
        let same_inode: bool = self.inode == other.inode;
        let same_uid: bool = self.uid == other.uid;
        let same_gid: bool = self.gid == other.gid;
        let same_mode: bool = self.mode == other.mode;
        let same_size: bool = self.size == other.size;
        let same_sha256: bool = same_text(self.sha256.as_str(), other.sha256.as_str());
        same_environment_name
            && same_delivered_path
            && same_device
            && same_inode
            && same_uid
            && same_gid
            && same_mode
            && same_size
            && same_sha256
    }

    /// A copy of the record.
    pub fn copy(&self) -> (copy: Self)
        ensures
            copy@ == self@,
    {
        ServiceCredentialObservation {
            environment_name: self.environment_name.clone(),
            delivered_path: self.delivered_path.clone(),
            device: self.device,
            inode: self.inode,
            uid: self.uid,
            gid: self.gid,
            mode: self.mode,
            size: self.size,
            sha256: self.sha256.clone(),
        }
    }
}

/// What each record of a list holds.
pub open spec fn service_credential_observation_views(
    list: Seq<ServiceCredentialObservation>,
) -> Seq<ServiceCredentialObservationView> {
    Seq::new(list.len(), |i: int| list[i]@)
}

/// A copy of a list of records.
pub fn copy_service_credential_observation_list(
    list: &[ServiceCredentialObservation],
) -> (copy: Vec<ServiceCredentialObservation>)
    ensures
        service_credential_observation_views(copy@) == service_credential_observation_views(list@),
{
    let mut copy: Vec<ServiceCredentialObservation> = Vec::new();
    let mut i: usize = 0;
    while i < list.len()
        invariant
            i <= list@.len(),
            copy@.len() == i,
            forall|j: int| 0 <= j < i ==> (#[trigger] copy@[j])@ == list@[j]@,
        decreases list@.len() - i,
    {
        copy.push(list[i].copy());
        i += 1;
    }
    assert(
        service_credential_observation_views(copy@) =~= service_credential_observation_views(list@)
    );
    copy
}

/// Whether two lists hold the same records in the same order.
pub fn same_service_credential_observation_list(
    a: &[ServiceCredentialObservation],
    b: &[ServiceCredentialObservation],
) -> (same: bool)
    ensures
        same == (
            service_credential_observation_views(a@) == service_credential_observation_views(b@)
        ),
{
    if a.len() != b.len() {
        assert(
            service_credential_observation_views(a@).len()
                != service_credential_observation_views(b@).len()
        );
        return false;
    }
    let mut i: usize = 0;
    while i < a.len()
        invariant
            i <= a@.len(),
            a@.len() == b@.len(),
            forall|j: int| 0 <= j < i ==> (#[trigger] a@[j])@ == b@[j]@,
        decreases a@.len() - i,
    {
        if !a[i].same(&b[i]) {
            assert(
                service_credential_observation_views(a@)[i as int]
                    != service_credential_observation_views(b@)[i as int]
            );
            return false;
        }
        i += 1;
    }
    assert(service_credential_observation_views(a@) =~= service_credential_observation_views(b@));
    true
}

/// The source of one descriptor that is passed to a service's initial process alone.
/// The process consumes and closes it before it spawns any child.
#[derive(Clone, Debug, PartialEq, Eq)]
pub struct ParentOnlyFileDescriptorObservation {
    pub fd_number: u32,
    pub fd_name: String,
    pub source_path: String,
    pub access: String,
    pub device: u64,
    pub inode: u64,
    pub uid: u32,
    pub gid: u32,
    pub mode: u32,
    pub links: u64,
    pub size: u64,
    pub sha256: String,
}

/// What `ParentOnlyFileDescriptorObservation` holds.
#[verifier::ext_equal]
pub struct ParentOnlyFileDescriptorObservationView {
    pub fd_number: u32,
    pub fd_name: Seq<char>,
    pub source_path: Seq<char>,
    pub access: Seq<char>,
    pub device: u64,
    pub inode: u64,
    pub uid: u32,
    pub gid: u32,
    pub mode: u32,
    pub links: u64,
    pub size: u64,
    pub sha256: Seq<char>,
}

impl View for ParentOnlyFileDescriptorObservation {
    type V = ParentOnlyFileDescriptorObservationView;

    open spec fn view(&self) -> ParentOnlyFileDescriptorObservationView {
        ParentOnlyFileDescriptorObservationView {
            fd_number: self.fd_number,
            fd_name: self.fd_name@,
            source_path: self.source_path@,
            access: self.access@,
            device: self.device,
            inode: self.inode,
            uid: self.uid,
            gid: self.gid,
            mode: self.mode,
            links: self.links,
            size: self.size,
            sha256: self.sha256@,
        }
    }
}

impl ParentOnlyFileDescriptorObservation {
    /// Whether two records hold the same.
    pub fn same(&self, other: &Self) -> (same: bool)
        ensures
            same == (self@ == other@),
    {
        let same_fd_number: bool = self.fd_number == other.fd_number;
        let same_fd_name: bool = same_text(self.fd_name.as_str(), other.fd_name.as_str());
        let same_source_path: bool = same_text(
            self.source_path.as_str(),
            other.source_path.as_str(),
        );
        let same_access: bool = same_text(self.access.as_str(), other.access.as_str());
        let same_device: bool = self.device == other.device;
        let same_inode: bool = self.inode == other.inode;
        let same_uid: bool = self.uid == other.uid;
        let same_gid: bool = self.gid == other.gid;
        let same_mode: bool = self.mode == other.mode;
        let same_links: bool = self.links == other.links;
        let same_size: bool = self.size == other.size;
        let same_sha256: bool = same_text(self.sha256.as_str(), other.sha256.as_str());
        same_fd_number
            && same_fd_name
            && same_source_path
            && same_access
            && same_device
            && same_inode
            && same_uid
            && same_gid
            && same_mode
            && same_links
            && same_size
            && same_sha256
    }

    /// A copy of the record.
    pub fn copy(&self) -> (copy: Self)
        ensures
            copy@ == self@,
    {
        ParentOnlyFileDescriptorObservation {
            fd_number: self.fd_number,
            fd_name: self.fd_name.clone(),
            source_path: self.source_path.clone(),
            access: self.access.clone(),
            device: self.device,
            inode: self.inode,
            uid: self.uid,
            gid: self.gid,
            mode: self.mode,
            links: self.links,
            size: self.size,
            sha256: self.sha256.clone(),
        }
    }
}

/// What each record of a list holds.
pub open spec fn parent_only_file_descriptor_observation_views(
    list: Seq<ParentOnlyFileDescriptorObservation>,
) -> Seq<ParentOnlyFileDescriptorObservationView> {
    Seq::new(list.len(), |i: int| list[i]@)
}

/// A copy of a list of records.
pub fn copy_parent_only_file_descriptor_observation_list(
    list: &[ParentOnlyFileDescriptorObservation],
) -> (copy: Vec<ParentOnlyFileDescriptorObservation>)
    ensures
        parent_only_file_descriptor_observation_views(copy@)
            == parent_only_file_descriptor_observation_views(list@),
{
    let mut copy: Vec<ParentOnlyFileDescriptorObservation> = Vec::new();
    let mut i: usize = 0;
    while i < list.len()
        invariant
            i <= list@.len(),
            copy@.len() == i,
            forall|j: int| 0 <= j < i ==> (#[trigger] copy@[j])@ == list@[j]@,
        decreases list@.len() - i,
    {
        copy.push(list[i].copy());
        i += 1;
    }
    assert(
        parent_only_file_descriptor_observation_views(copy@)
            =~= parent_only_file_descriptor_observation_views(list@)
    );
    copy
}

/// Whether two lists hold the same records in the same order.
pub fn same_parent_only_file_descriptor_observation_list(
    a: &[ParentOnlyFileDescriptorObservation],
    b: &[ParentOnlyFileDescriptorObservation],
) -> (same: bool)
    ensures
        same == (
            parent_only_file_descriptor_observation_views(a@)
                == parent_only_file_descriptor_observation_views(b@)
        ),
{
    if a.len() != b.len() {
        assert(
            parent_only_file_descriptor_observation_views(a@).len()
                != parent_only_file_descriptor_observation_views(b@).len()
        );
        return false;
    }
    let mut i: usize = 0;
    while i < a.len()
        invariant
            i <= a@.len(),
            a@.len() == b@.len(),
            forall|j: int| 0 <= j < i ==> (#[trigger] a@[j])@ == b@[j]@,
        decreases a@.len() - i,
    {
        if !a[i].same(&b[i]) {
            assert(
                parent_only_file_descriptor_observation_views(a@)[i as int]
                    != parent_only_file_descriptor_observation_views(b@)[i as int]
            );
            return false;
        }
        i += 1;
    }
    assert(
        parent_only_file_descriptor_observation_views(a@)
            =~= parent_only_file_descriptor_observation_views(b@)
    );
    true
}

/// A process on a managed host as its actuator proved it. The process id and the
/// creation time together name exactly one process for the lifetime of the host. The exit
/// code is there once the process is gone; nothing restarts it.
#[derive(Clone, Debug, PartialEq, Eq)]
pub struct HostWorkloadObservation {
    pub host: String,
    pub actuator_identity_id: String,
    pub process_id: u32,
    pub process_creation_time: u64,
    pub session_id: u32,
    pub user_sid: String,
    pub executable: String,
    pub executable_sha256: String,
    pub command_line_sha256: String,
    pub environment_names: Vec<String>,
    pub environment_contract_sha256: String,
    pub runtime_bundle: String,
    pub runtime_instance_id: String,
    pub activation_signer_identity_id: String,
    pub activation_signer_public_key: Vec<u8>,
    pub exit_code: Option<u32>,
}

/// What `HostWorkloadObservation` holds.
#[verifier::ext_equal]
pub struct HostWorkloadObservationView {
    pub host: Seq<char>,
    pub actuator_identity_id: Seq<char>,
    pub process_id: u32,
    pub process_creation_time: u64,
    pub session_id: u32,
    pub user_sid: Seq<char>,
    pub executable: Seq<char>,
    pub executable_sha256: Seq<char>,
    pub command_line_sha256: Seq<char>,
    pub environment_names: Seq<Seq<char>>,
    pub environment_contract_sha256: Seq<char>,
    pub runtime_bundle: Seq<char>,
    pub runtime_instance_id: Seq<char>,
    pub activation_signer_identity_id: Seq<char>,
    pub activation_signer_public_key: Seq<u8>,
    pub exit_code: Option<u32>,
}

impl View for HostWorkloadObservation {
    type V = HostWorkloadObservationView;

    open spec fn view(&self) -> HostWorkloadObservationView {
        HostWorkloadObservationView {
            host: self.host@,
            actuator_identity_id: self.actuator_identity_id@,
            process_id: self.process_id,
            process_creation_time: self.process_creation_time,
            session_id: self.session_id,
            user_sid: self.user_sid@,
            executable: self.executable@,
            executable_sha256: self.executable_sha256@,
            command_line_sha256: self.command_line_sha256@,
            environment_names: texts(self.environment_names@),
            environment_contract_sha256: self.environment_contract_sha256@,
            runtime_bundle: self.runtime_bundle@,
            runtime_instance_id: self.runtime_instance_id@,
            activation_signer_identity_id: self.activation_signer_identity_id@,
            activation_signer_public_key: self.activation_signer_public_key@,
            exit_code: self.exit_code,
        }
    }
}

impl HostWorkloadObservation {
    /// Whether two records hold the same.
    pub fn same(&self, other: &Self) -> (same: bool)
        ensures
            same == (self@ == other@),
    {
        let same_host: bool = same_text(self.host.as_str(), other.host.as_str());
        let same_actuator_identity_id: bool = same_text(
            self.actuator_identity_id.as_str(),
            other.actuator_identity_id.as_str(),
        );
        let same_process_id: bool = self.process_id == other.process_id;
        let same_process_creation_time: bool = self.process_creation_time
            == other.process_creation_time;
        let same_session_id: bool = self.session_id == other.session_id;
        let same_user_sid: bool = same_text(self.user_sid.as_str(), other.user_sid.as_str());
        let same_executable: bool = same_text(self.executable.as_str(), other.executable.as_str());
        let same_executable_sha256: bool = same_text(
            self.executable_sha256.as_str(),
            other.executable_sha256.as_str(),
        );
        let same_command_line_sha256: bool = same_text(
            self.command_line_sha256.as_str(),
            other.command_line_sha256.as_str(),
        );
        let same_environment_names: bool = same_texts(
            self.environment_names.as_slice(),
            other.environment_names.as_slice(),
        );
        let same_environment_contract_sha256: bool = same_text(
            self.environment_contract_sha256.as_str(),
            other.environment_contract_sha256.as_str(),
        );
        let same_runtime_bundle: bool = same_text(
            self.runtime_bundle.as_str(),
            other.runtime_bundle.as_str(),
        );
        let same_runtime_instance_id: bool = same_text(
            self.runtime_instance_id.as_str(),
            other.runtime_instance_id.as_str(),
        );
        let same_activation_signer_identity_id: bool = same_text(
            self.activation_signer_identity_id.as_str(),
            other.activation_signer_identity_id.as_str(),
        );
        let same_activation_signer_public_key: bool = same_bytes(
            self.activation_signer_public_key.as_slice(),
            other.activation_signer_public_key.as_slice(),
        );
        let same_exit_code: bool = self.exit_code == other.exit_code;
        same_host
            && same_actuator_identity_id
            && same_process_id
            && same_process_creation_time
            && same_session_id
            && same_user_sid
            && same_executable
            && same_executable_sha256
            && same_command_line_sha256
            && same_environment_names
            && same_environment_contract_sha256
            && same_runtime_bundle
            && same_runtime_instance_id
            && same_activation_signer_identity_id
            && same_activation_signer_public_key
            && same_exit_code
    }

    /// A copy of the record.
    pub fn copy(&self) -> (copy: Self)
        ensures
            copy@ == self@,
    {
        HostWorkloadObservation {
            host: self.host.clone(),
            actuator_identity_id: self.actuator_identity_id.clone(),
            process_id: self.process_id,
            process_creation_time: self.process_creation_time,
            session_id: self.session_id,
            user_sid: self.user_sid.clone(),
            executable: self.executable.clone(),
            executable_sha256: self.executable_sha256.clone(),
            command_line_sha256: self.command_line_sha256.clone(),
            environment_names: copy_texts(self.environment_names.as_slice()),
            environment_contract_sha256: self.environment_contract_sha256.clone(),
            runtime_bundle: self.runtime_bundle.clone(),
            runtime_instance_id: self.runtime_instance_id.clone(),
            activation_signer_identity_id: self.activation_signer_identity_id.clone(),
            activation_signer_public_key: copy_bytes(self.activation_signer_public_key.as_slice()),
            exit_code: self.exit_code,
        }
    }
}

/// A systemd unit and its main process as they were observed together.
#[derive(Clone, Debug, PartialEq, Eq)]
pub struct SystemdWorkloadObservation {
    pub unit: String,
    pub unit_description: String,
    pub invocation_id: String,
    pub exec_main_start_timestamp_monotonic: u64,
    pub service_type: String,
    pub restart_policy: String,
    pub kill_mode: String,
    pub dynamic_user: bool,
    pub systemd_user: String,
    pub systemd_group: String,
    pub supplementary_groups: String,
    pub capability_bounding_set: String,
    pub ambient_capabilities: String,
    pub private_mounts: bool,
    pub private_pids: bool,
    pub protect_proc: String,
    pub proc_subset: String,
    pub no_new_privileges: bool,
    pub umask: String,
    pub inaccessible_paths: String,
    pub load_credential: String,
    pub main_pid: u32,
    pub process_start_time: u64,
    pub process_uids: [u32; 4],
    pub process_gids: [u32; 4],
    pub process_groups: Vec<u32>,
    pub process_cap_inheritable: u64,
    pub process_cap_permitted: u64,
    pub process_cap_effective: u64,
    pub process_cap_bounding: u64,
    pub process_cap_ambient: u64,
    pub process_no_new_privileges: bool,
    pub process_namespace_pids: Vec<u32>,
    pub mount_namespace_id: u64,
    pub pid_namespace_id: u64,
    pub executable: String,
    pub executable_device: u64,
    pub executable_inode: u64,
    pub executable_sha256: String,
    pub runtime_instance_id: String,
    pub working_directory: String,
    pub runtime_bundle: String,
    pub command_line_sha256: String,
    pub environment_names: Vec<String>,
    pub environment_contract_sha256: String,
    pub control_group: String,
    pub credentials_directory: Option<String>,
    pub parent_only_file_descriptors: Vec<ParentOnlyFileDescriptorObservation>,
    pub activation_signer_identity_id: String,
    pub activation_signer_public_key: Vec<u8>,
    pub service_credentials: Vec<ServiceCredentialObservation>,
}

/// What `SystemdWorkloadObservation` holds.
#[verifier::ext_equal]
pub struct SystemdWorkloadObservationView {
    pub unit: Seq<char>,
    pub unit_description: Seq<char>,
    pub invocation_id: Seq<char>,
    pub exec_main_start_timestamp_monotonic: u64,
    pub service_type: Seq<char>,
    pub restart_policy: Seq<char>,
    pub kill_mode: Seq<char>,
    pub dynamic_user: bool,
    pub systemd_user: Seq<char>,
    pub systemd_group: Seq<char>,
    pub supplementary_groups: Seq<char>,
    pub capability_bounding_set: Seq<char>,
    pub ambient_capabilities: Seq<char>,
    pub private_mounts: bool,
    pub private_pids: bool,
    pub protect_proc: Seq<char>,
    pub proc_subset: Seq<char>,
    pub no_new_privileges: bool,
    pub umask: Seq<char>,
    pub inaccessible_paths: Seq<char>,
    pub load_credential: Seq<char>,
    pub main_pid: u32,
    pub process_start_time: u64,
    pub process_uids: Seq<u32>,
    pub process_gids: Seq<u32>,
    pub process_groups: Seq<u32>,
    pub process_cap_inheritable: u64,
    pub process_cap_permitted: u64,
    pub process_cap_effective: u64,
    pub process_cap_bounding: u64,
    pub process_cap_ambient: u64,
    pub process_no_new_privileges: bool,
    pub process_namespace_pids: Seq<u32>,
    pub mount_namespace_id: u64,
    pub pid_namespace_id: u64,
    pub executable: Seq<char>,
    pub executable_device: u64,
    pub executable_inode: u64,
    pub executable_sha256: Seq<char>,
    pub runtime_instance_id: Seq<char>,
    pub working_directory: Seq<char>,
    pub runtime_bundle: Seq<char>,
    pub command_line_sha256: Seq<char>,
    pub environment_names: Seq<Seq<char>>,
    pub environment_contract_sha256: Seq<char>,
    pub control_group: Seq<char>,
    pub credentials_directory: Option<Seq<char>>,
    pub parent_only_file_descriptors: Seq<ParentOnlyFileDescriptorObservationView>,
    pub activation_signer_identity_id: Seq<char>,
    pub activation_signer_public_key: Seq<u8>,
    pub service_credentials: Seq<ServiceCredentialObservationView>,
}

impl View for SystemdWorkloadObservation {
    type V = SystemdWorkloadObservationView;

    open spec fn view(&self) -> SystemdWorkloadObservationView {
        SystemdWorkloadObservationView {
            unit: self.unit@,
            unit_description: self.unit_description@,
            invocation_id: self.invocation_id@,
            exec_main_start_timestamp_monotonic: self.exec_main_start_timestamp_monotonic,
            service_type: self.service_type@,
            restart_policy: self.restart_policy@,
            kill_mode: self.kill_mode@,
            dynamic_user: self.dynamic_user,
            systemd_user: self.systemd_user@,
            systemd_group: self.systemd_group@,
            supplementary_groups: self.supplementary_groups@,
            capability_bounding_set: self.capability_bounding_set@,
            ambient_capabilities: self.ambient_capabilities@,
            private_mounts: self.private_mounts,
            private_pids: self.private_pids,
            protect_proc: self.protect_proc@,
            proc_subset: self.proc_subset@,
            no_new_privileges: self.no_new_privileges,
            umask: self.umask@,
            inaccessible_paths: self.inaccessible_paths@,
            load_credential: self.load_credential@,
            main_pid: self.main_pid,
            process_start_time: self.process_start_time,
            process_uids: self.process_uids@,
            process_gids: self.process_gids@,
            process_groups: self.process_groups@,
            process_cap_inheritable: self.process_cap_inheritable,
            process_cap_permitted: self.process_cap_permitted,
            process_cap_effective: self.process_cap_effective,
            process_cap_bounding: self.process_cap_bounding,
            process_cap_ambient: self.process_cap_ambient,
            process_no_new_privileges: self.process_no_new_privileges,
            process_namespace_pids: self.process_namespace_pids@,
            mount_namespace_id: self.mount_namespace_id,
            pid_namespace_id: self.pid_namespace_id,
            executable: self.executable@,
            executable_device: self.executable_device,
            executable_inode: self.executable_inode,
            executable_sha256: self.executable_sha256@,
            runtime_instance_id: self.runtime_instance_id@,
            working_directory: self.working_directory@,
            runtime_bundle: self.runtime_bundle@,
            command_line_sha256: self.command_line_sha256@,
            environment_names: texts(self.environment_names@),
            environment_contract_sha256: self.environment_contract_sha256@,
            control_group: self.control_group@,
            credentials_directory: text_option(self.credentials_directory),
            parent_only_file_descriptors: parent_only_file_descriptor_observation_views(
                self.parent_only_file_descriptors@,
            ),
            activation_signer_identity_id: self.activation_signer_identity_id@,
            activation_signer_public_key: self.activation_signer_public_key@,
            service_credentials: service_credential_observation_views(self.service_credentials@),
        }
    }
}

impl SystemdWorkloadObservation {
    /// Whether two records hold the same.
    pub fn same(&self, other: &Self) -> (same: bool)
        ensures
            same == (self@ == other@),
    {
        let same_unit: bool = same_text(self.unit.as_str(), other.unit.as_str());
        let same_unit_description: bool = same_text(
            self.unit_description.as_str(),
            other.unit_description.as_str(),
        );
        let same_invocation_id: bool = same_text(
            self.invocation_id.as_str(),
            other.invocation_id.as_str(),
        );
        let same_exec_main_start_timestamp_monotonic: bool = self.exec_main_start_timestamp_monotonic
            == other.exec_main_start_timestamp_monotonic;
        let same_service_type: bool = same_text(
            self.service_type.as_str(),
            other.service_type.as_str(),
        );
        let same_restart_policy: bool = same_text(
            self.restart_policy.as_str(),
            other.restart_policy.as_str(),
        );
        let same_kill_mode: bool = same_text(self.kill_mode.as_str(), other.kill_mode.as_str());
        let same_dynamic_user: bool = self.dynamic_user == other.dynamic_user;
        let same_systemd_user: bool = same_text(
            self.systemd_user.as_str(),
            other.systemd_user.as_str(),
        );
        let same_systemd_group: bool = same_text(
            self.systemd_group.as_str(),
            other.systemd_group.as_str(),
        );
        let same_supplementary_groups: bool = same_text(
            self.supplementary_groups.as_str(),
            other.supplementary_groups.as_str(),
        );
        let same_capability_bounding_set: bool = same_text(
            self.capability_bounding_set.as_str(),
            other.capability_bounding_set.as_str(),
        );
        let same_ambient_capabilities: bool = same_text(
            self.ambient_capabilities.as_str(),
            other.ambient_capabilities.as_str(),
        );
        let same_private_mounts: bool = self.private_mounts == other.private_mounts;
        let same_private_pids: bool = self.private_pids == other.private_pids;
        let same_protect_proc: bool = same_text(
            self.protect_proc.as_str(),
            other.protect_proc.as_str(),
        );
        let same_proc_subset: bool = same_text(
            self.proc_subset.as_str(),
            other.proc_subset.as_str(),
        );
        let same_no_new_privileges: bool = self.no_new_privileges == other.no_new_privileges;
        let same_umask: bool = same_text(self.umask.as_str(), other.umask.as_str());
        let same_inaccessible_paths: bool = same_text(
            self.inaccessible_paths.as_str(),
            other.inaccessible_paths.as_str(),
        );
        let same_load_credential: bool = same_text(
            self.load_credential.as_str(),
            other.load_credential.as_str(),
        );
        let same_main_pid: bool = self.main_pid == other.main_pid;
        let same_process_start_time: bool = self.process_start_time == other.process_start_time;
        let same_process_uids: bool = same_four(&self.process_uids, &other.process_uids);
        let same_process_gids: bool = same_four(&self.process_gids, &other.process_gids);
        let same_process_groups: bool = same_u32_list(
            self.process_groups.as_slice(),
            other.process_groups.as_slice(),
        );
        let same_process_cap_inheritable: bool = self.process_cap_inheritable
            == other.process_cap_inheritable;
        let same_process_cap_permitted: bool = self.process_cap_permitted
            == other.process_cap_permitted;
        let same_process_cap_effective: bool = self.process_cap_effective
            == other.process_cap_effective;
        let same_process_cap_bounding: bool = self.process_cap_bounding
            == other.process_cap_bounding;
        let same_process_cap_ambient: bool = self.process_cap_ambient == other.process_cap_ambient;
        let same_process_no_new_privileges: bool = self.process_no_new_privileges
            == other.process_no_new_privileges;
        let same_process_namespace_pids: bool = same_u32_list(
            self.process_namespace_pids.as_slice(),
            other.process_namespace_pids.as_slice(),
        );
        let same_mount_namespace_id: bool = self.mount_namespace_id == other.mount_namespace_id;
        let same_pid_namespace_id: bool = self.pid_namespace_id == other.pid_namespace_id;
        let same_executable: bool = same_text(self.executable.as_str(), other.executable.as_str());
        let same_executable_device: bool = self.executable_device == other.executable_device;
        let same_executable_inode: bool = self.executable_inode == other.executable_inode;
        let same_executable_sha256: bool = same_text(
            self.executable_sha256.as_str(),
            other.executable_sha256.as_str(),
        );
        let same_runtime_instance_id: bool = same_text(
            self.runtime_instance_id.as_str(),
            other.runtime_instance_id.as_str(),
        );
        let same_working_directory: bool = same_text(
            self.working_directory.as_str(),
            other.working_directory.as_str(),
        );
        let same_runtime_bundle: bool = same_text(
            self.runtime_bundle.as_str(),
            other.runtime_bundle.as_str(),
        );
        let same_command_line_sha256: bool = same_text(
            self.command_line_sha256.as_str(),
            other.command_line_sha256.as_str(),
        );
        let same_environment_names: bool = same_texts(
            self.environment_names.as_slice(),
            other.environment_names.as_slice(),
        );
        let same_environment_contract_sha256: bool = same_text(
            self.environment_contract_sha256.as_str(),
            other.environment_contract_sha256.as_str(),
        );
        let same_control_group: bool = same_text(
            self.control_group.as_str(),
            other.control_group.as_str(),
        );
        let same_credentials_directory: bool = same_option(
            &self.credentials_directory,
            &other.credentials_directory,
        );
        let same_parent_only_file_descriptors: bool = same_parent_only_file_descriptor_observation_list(
            self.parent_only_file_descriptors.as_slice(),
            other.parent_only_file_descriptors.as_slice(),
        );
        let same_activation_signer_identity_id: bool = same_text(
            self.activation_signer_identity_id.as_str(),
            other.activation_signer_identity_id.as_str(),
        );
        let same_activation_signer_public_key: bool = same_bytes(
            self.activation_signer_public_key.as_slice(),
            other.activation_signer_public_key.as_slice(),
        );
        let same_service_credentials: bool = same_service_credential_observation_list(
            self.service_credentials.as_slice(),
            other.service_credentials.as_slice(),
        );
        same_unit
            && same_unit_description
            && same_invocation_id
            && same_exec_main_start_timestamp_monotonic
            && same_service_type
            && same_restart_policy
            && same_kill_mode
            && same_dynamic_user
            && same_systemd_user
            && same_systemd_group
            && same_supplementary_groups
            && same_capability_bounding_set
            && same_ambient_capabilities
            && same_private_mounts
            && same_private_pids
            && same_protect_proc
            && same_proc_subset
            && same_no_new_privileges
            && same_umask
            && same_inaccessible_paths
            && same_load_credential
            && same_main_pid
            && same_process_start_time
            && same_process_uids
            && same_process_gids
            && same_process_groups
            && same_process_cap_inheritable
            && same_process_cap_permitted
            && same_process_cap_effective
            && same_process_cap_bounding
            && same_process_cap_ambient
            && same_process_no_new_privileges
            && same_process_namespace_pids
            && same_mount_namespace_id
            && same_pid_namespace_id
            && same_executable
            && same_executable_device
            && same_executable_inode
            && same_executable_sha256
            && same_runtime_instance_id
            && same_working_directory
            && same_runtime_bundle
            && same_command_line_sha256
            && same_environment_names
            && same_environment_contract_sha256
            && same_control_group
            && same_credentials_directory
            && same_parent_only_file_descriptors
            && same_activation_signer_identity_id
            && same_activation_signer_public_key
            && same_service_credentials
    }

    /// A copy of the record.
    pub fn copy(&self) -> (copy: Self)
        ensures
            copy@ == self@,
    {
        SystemdWorkloadObservation {
            unit: self.unit.clone(),
            unit_description: self.unit_description.clone(),
            invocation_id: self.invocation_id.clone(),
            exec_main_start_timestamp_monotonic: self.exec_main_start_timestamp_monotonic,
            service_type: self.service_type.clone(),
            restart_policy: self.restart_policy.clone(),
            kill_mode: self.kill_mode.clone(),
            dynamic_user: self.dynamic_user,
            systemd_user: self.systemd_user.clone(),
            systemd_group: self.systemd_group.clone(),
            supplementary_groups: self.supplementary_groups.clone(),
            capability_bounding_set: self.capability_bounding_set.clone(),
            ambient_capabilities: self.ambient_capabilities.clone(),
            private_mounts: self.private_mounts,
            private_pids: self.private_pids,
            protect_proc: self.protect_proc.clone(),
            proc_subset: self.proc_subset.clone(),
            no_new_privileges: self.no_new_privileges,
            umask: self.umask.clone(),
            inaccessible_paths: self.inaccessible_paths.clone(),
            load_credential: self.load_credential.clone(),
            main_pid: self.main_pid,
            process_start_time: self.process_start_time,
            process_uids: self.process_uids,
            process_gids: self.process_gids,
            process_groups: copy_u32_list(self.process_groups.as_slice()),
            process_cap_inheritable: self.process_cap_inheritable,
            process_cap_permitted: self.process_cap_permitted,
            process_cap_effective: self.process_cap_effective,
            process_cap_bounding: self.process_cap_bounding,
            process_cap_ambient: self.process_cap_ambient,
            process_no_new_privileges: self.process_no_new_privileges,
            process_namespace_pids: copy_u32_list(self.process_namespace_pids.as_slice()),
            mount_namespace_id: self.mount_namespace_id,
            pid_namespace_id: self.pid_namespace_id,
            executable: self.executable.clone(),
            executable_device: self.executable_device,
            executable_inode: self.executable_inode,
            executable_sha256: self.executable_sha256.clone(),
            runtime_instance_id: self.runtime_instance_id.clone(),
            working_directory: self.working_directory.clone(),
            runtime_bundle: self.runtime_bundle.clone(),
            command_line_sha256: self.command_line_sha256.clone(),
            environment_names: copy_texts(self.environment_names.as_slice()),
            environment_contract_sha256: self.environment_contract_sha256.clone(),
            control_group: self.control_group.clone(),
            credentials_directory: copy_option(&self.credentials_directory),
            parent_only_file_descriptors: copy_parent_only_file_descriptor_observation_list(
                self.parent_only_file_descriptors.as_slice(),
            ),
            activation_signer_identity_id: self.activation_signer_identity_id.clone(),
            activation_signer_public_key: copy_bytes(self.activation_signer_public_key.as_slice()),
            service_credentials: copy_service_credential_observation_list(
                self.service_credentials.as_slice(),
            ),
        }
    }
}

/// What a workload driver proved about the process it started: a systemd unit on the
/// Idunn host, or a process on a managed host.
#[derive(Clone, Debug, PartialEq, Eq)]
pub enum WorkloadObservation {
    Systemd(SystemdWorkloadObservation),
    Host(HostWorkloadObservation),
}

/// Proof that processes are isolated, one shape for each kind of host.
#[derive(Clone, Copy, Debug, PartialEq, Eq, Structural)]
pub enum IsolationEvidence {
    Linux(LinuxIsolationEvidence),
    Host(HostIsolationEvidence),
}

/// Isolation on the Idunn host: distinct user, process and mount namespaces.
#[derive(Clone, Copy, Debug, PartialEq, Eq, Structural)]
pub struct LinuxIsolationEvidence {
    pub candidate_uid: u32,
    pub candidate_pid_namespace_id: u64,
    pub candidate_mount_namespace_id: u64,
    pub incumbent_uid: Option<u32>,
    pub incumbent_pid_namespace_id: Option<u64>,
    pub incumbent_mount_namespace_id: Option<u64>,
}

/// Isolation on a managed host: distinct live processes.
#[derive(Clone, Copy, Debug, PartialEq, Eq, Structural)]
pub struct HostIsolationEvidence {
    pub candidate_process_id: u32,
    pub candidate_process_creation_time: u64,
    pub incumbent_process_id: Option<u32>,
    pub incumbent_process_creation_time: Option<u64>,
}

/// Why a host process is not live, if so.
pub open spec fn live_refusal(
    o: HostWorkloadObservationView,
    role: Seq<char>,
) -> Option<Seq<char>> {
    either(
        unless(o.process_id > 0, role + " has no host process id"@),
        either(
            unless(o.process_creation_time > 0, role + " has no host process creation time"@),
            unless(o.exit_code is None, role + " host process has exited"@),
        ),
    )
}

/// Whether a unit runs under an identity and namespaces of its own.
pub open spec fn has_private_identity(o: SystemdWorkloadObservationView) -> bool {
    &&& o.dynamic_user
    &&& o.private_pids
    &&& o.private_mounts
    &&& o.process_uids[0] > 0
    &&& o.pid_namespace_id > 0
    &&& o.mount_namespace_id > 0
}

/// Why a unit has no private identity, if so.
pub open spec fn private_identity_refusal(
    o: SystemdWorkloadObservationView,
    role: Seq<char>,
) -> Option<Seq<char>> {
    unless(has_private_identity(o), role + " lacks dynamic identity or private namespaces"@)
}

impl HostWorkloadObservation {
    /// Admits a process only while it is live.
    pub fn require_live(&self, role: &str) -> (outcome: Result<(), Refusal>)
        ensures
            judged(outcome, live_refusal(self@, role@)),
    {
        if self.process_id == 0 {
            return Err(Refusal { text: cat2(role, " has no host process id") });
        }
        if self.process_creation_time == 0 {
            return Err(Refusal { text: cat2(role, " has no host process creation time") });
        }
        if self.exit_code.is_some() {
            return Err(Refusal { text: cat2(role, " host process has exited") });
        }
        Ok(())
    }
}

impl SystemdWorkloadObservation {
    /// Admits a unit only under an identity and namespaces of its own.
    pub fn require_private_identity(&self, role: &str) -> (outcome: Result<(), Refusal>)
        ensures
            judged(outcome, private_identity_refusal(self@, role@)),
    {
        let private = self.dynamic_user && self.private_pids && self.private_mounts
            && self.process_uids[0] > 0 && self.pid_namespace_id > 0 && self.mount_namespace_id > 0;
        if private {
            Ok(())
        } else {
            Err(Refusal { text: cat2(role, " lacks dynamic identity or private namespaces") })
        }
    }
}

/// What an observation says, whichever driver made it.
pub enum WorkloadObservationView {
    Systemd(SystemdWorkloadObservationView),
    Host(HostWorkloadObservationView),
}

impl View for WorkloadObservation {
    type V = WorkloadObservationView;

    open spec fn view(&self) -> WorkloadObservationView {
        match self {
            WorkloadObservation::Systemd(o) => WorkloadObservationView::Systemd(o@),
            WorkloadObservation::Host(o) => WorkloadObservationView::Host(o@),
        }
    }
}

/// The isolation a candidate has from its incumbent, or why it has none. An incumbent
/// observed by the other kind of driver cannot be compared and is refused.
pub open spec fn isolation(
    candidate: WorkloadObservationView,
    incumbent: Option<WorkloadObservationView>,
) -> Result<IsolationEvidence, Seq<char>> {
    match (candidate, incumbent) {
        (WorkloadObservationView::Systemd(c), None) => {
            match private_identity_refusal(c, "candidate"@) {
                Some(words) => Err(words),
                None => Ok(
                    IsolationEvidence::Linux(
                        LinuxIsolationEvidence {
                            candidate_uid: c.process_uids[0],
                            candidate_pid_namespace_id: c.pid_namespace_id,
                            candidate_mount_namespace_id: c.mount_namespace_id,
                            incumbent_uid: None,
                            incumbent_pid_namespace_id: None,
                            incumbent_mount_namespace_id: None,
                        },
                    ),
                ),
            }
        },
        (
            WorkloadObservationView::Systemd(c),
            Some(WorkloadObservationView::Systemd(i)),
        ) => {
            match either(
                private_identity_refusal(c, "candidate"@),
                either(
                    private_identity_refusal(i, "incumbent"@),
                    unless(
                        c.process_uids[0] != i.process_uids[0] && c.pid_namespace_id
                            != i.pid_namespace_id && c.mount_namespace_id != i.mount_namespace_id,
                        "candidate and incumbent are not distinct by UID, PID namespace, and mount namespace"@,
                    ),
                ),
            ) {
                Some(words) => Err(words),
                None => Ok(
                    IsolationEvidence::Linux(
                        LinuxIsolationEvidence {
                            candidate_uid: c.process_uids[0],
                            candidate_pid_namespace_id: c.pid_namespace_id,
                            candidate_mount_namespace_id: c.mount_namespace_id,
                            incumbent_uid: Some(i.process_uids[0]),
                            incumbent_pid_namespace_id: Some(i.pid_namespace_id),
                            incumbent_mount_namespace_id: Some(i.mount_namespace_id),
                        },
                    ),
                ),
            }
        },
        (WorkloadObservationView::Host(c), None) => {
            match live_refusal(c, "candidate"@) {
                Some(words) => Err(words),
                None => Ok(
                    IsolationEvidence::Host(
                        HostIsolationEvidence {
                            candidate_process_id: c.process_id,
                            candidate_process_creation_time: c.process_creation_time,
                            incumbent_process_id: None,
                            incumbent_process_creation_time: None,
                        },
                    ),
                ),
            }
        },
        (WorkloadObservationView::Host(c), Some(WorkloadObservationView::Host(i))) => {
            match either(
                live_refusal(c, "candidate"@),
                either(
                    live_refusal(i, "incumbent"@),
                    either(
                        unless(
                            c.host == i.host,
                            "candidate and incumbent are on different hosts"@,
                        ),
                        unless(
                            c.process_id != i.process_id || c.process_creation_time
                                != i.process_creation_time,
                            "candidate and incumbent are the same host process"@,
                        ),
                    ),
                ),
            ) {
                Some(words) => Err(words),
                None => Ok(
                    IsolationEvidence::Host(
                        HostIsolationEvidence {
                            candidate_process_id: c.process_id,
                            candidate_process_creation_time: c.process_creation_time,
                            incumbent_process_id: Some(i.process_id),
                            incumbent_process_creation_time: Some(i.process_creation_time),
                        },
                    ),
                ),
            }
        },
        _ => Err(
            "candidate and incumbent were observed by different kinds of workload driver"@,
        ),
    }
}

impl WorkloadObservation {
    /// The systemd unit that was observed.
    pub fn systemd(&self) -> (outcome: Result<&SystemdWorkloadObservation, Refusal>)
        ensures
            match self {
                WorkloadObservation::Systemd(o) => outcome matches Ok(found) && *found == *o,
                WorkloadObservation::Host(_) => outcome matches Err(refusal) && refusal@
                    == "workload observation is a host process, not a systemd unit"@,
            },
    {
        match self {
            WorkloadObservation::Systemd(observation) => Ok(observation),
            WorkloadObservation::Host(_) => Err(
                refuse("workload observation is a host process, not a systemd unit"),
            ),
        }
    }

    /// The host process that was observed.
    pub fn host(&self) -> (outcome: Result<&HostWorkloadObservation, Refusal>)
        ensures
            match self {
                WorkloadObservation::Host(o) => outcome matches Ok(found) && *found == *o,
                WorkloadObservation::Systemd(_) => outcome matches Err(refusal) && refusal@
                    == "workload observation is a systemd unit, not a host process"@,
            },
    {
        match self {
            WorkloadObservation::Host(observation) => Ok(observation),
            WorkloadObservation::Systemd(_) => Err(
                refuse("workload observation is a systemd unit, not a host process"),
            ),
        }
    }

    /// The runtime instance that the process runs as.
    pub fn runtime_instance_id(&self) -> (id: &str)
        ensures
            id@ == match self@ {
                WorkloadObservationView::Systemd(o) => o.runtime_instance_id,
                WorkloadObservationView::Host(o) => o.runtime_instance_id,
            },
    {
        match self {
            WorkloadObservation::Systemd(observation) => observation.runtime_instance_id.as_str(),
            WorkloadObservation::Host(observation) => observation.runtime_instance_id.as_str(),
        }
    }

    /// The digest of the executable that the process runs.
    pub fn executable_sha256(&self) -> (id: &str)
        ensures
            id@ == match self@ {
                WorkloadObservationView::Systemd(o) => o.executable_sha256,
                WorkloadObservationView::Host(o) => o.executable_sha256,
            },
    {
        match self {
            WorkloadObservation::Systemd(observation) => observation.executable_sha256.as_str(),
            WorkloadObservation::Host(observation) => observation.executable_sha256.as_str(),
        }
    }

    /// One line for a status listing: where the process is and how it is kept.
    pub fn describe(&self) -> (line: String)
        ensures
            line@ == match self@ {
                WorkloadObservationView::Systemd(o) => "unit="@ + o.unit + " restart="@
                    + o.restart_policy,
                WorkloadObservationView::Host(o) => "host="@ + o.host + " pid="@ + decimal(
                    o.process_id as nat,
                ) + " created="@ + decimal(o.process_creation_time as nat),
            },
    {
        match self {
            WorkloadObservation::Systemd(observation) => cat4(
                "unit=",
                observation.unit.as_str(),
                " restart=",
                observation.restart_policy.as_str(),
            ),
            WorkloadObservation::Host(observation) => {
                let pid = decimal_of(observation.process_id as u64);
                let created = decimal_of(observation.process_creation_time);
                let head = cat4("host=", observation.host.as_str(), " pid=", pid.as_str());
                cat3(head.as_str(), " created=", created.as_str())
            },
        }
    }

    /// Proves that two processes that run at once are distinct at the boundary their
    /// host enforces.
    pub fn prove_isolation(candidate: &Self, incumbent: Option<&Self>) -> (outcome: Result<
        IsolationEvidence,
        Refusal,
    >)
        ensures
            match (
                outcome,
                isolation(
                    candidate@,
                    match incumbent {
                        Some(i) => Some(i@),
                        None => None,
                    },
                ),
            ) {
                (Ok(evidence), Ok(proved)) => evidence == proved,
                (Err(refusal), Err(words)) => refusal@ == words,
                _ => false,
            },
    {
        match (candidate, incumbent) {
            (WorkloadObservation::Systemd(candidate), None) => {
                candidate.require_private_identity("candidate")?;
                Ok(
                    IsolationEvidence::Linux(
                        LinuxIsolationEvidence {
                            candidate_uid: candidate.process_uids[0],
                            candidate_pid_namespace_id: candidate.pid_namespace_id,
                            candidate_mount_namespace_id: candidate.mount_namespace_id,
                            incumbent_uid: None,
                            incumbent_pid_namespace_id: None,
                            incumbent_mount_namespace_id: None,
                        },
                    ),
                )
            },
            (
                WorkloadObservation::Systemd(candidate),
                Some(WorkloadObservation::Systemd(incumbent)),
            ) => {
                candidate.require_private_identity("candidate")?;
                incumbent.require_private_identity("incumbent")?;
                if candidate.process_uids[0] == incumbent.process_uids[0]
                    || candidate.pid_namespace_id == incumbent.pid_namespace_id
                    || candidate.mount_namespace_id == incumbent.mount_namespace_id {
                    return Err(
                        refuse(
                            "candidate and incumbent are not distinct by UID, PID namespace, and mount namespace",
                        ),
                    );
                }
                Ok(
                    IsolationEvidence::Linux(
                        LinuxIsolationEvidence {
                            candidate_uid: candidate.process_uids[0],
                            candidate_pid_namespace_id: candidate.pid_namespace_id,
                            candidate_mount_namespace_id: candidate.mount_namespace_id,
                            incumbent_uid: Some(incumbent.process_uids[0]),
                            incumbent_pid_namespace_id: Some(incumbent.pid_namespace_id),
                            incumbent_mount_namespace_id: Some(incumbent.mount_namespace_id),
                        },
                    ),
                )
            },
            (WorkloadObservation::Host(candidate), None) => {
                candidate.require_live("candidate")?;
                Ok(
                    IsolationEvidence::Host(
                        HostIsolationEvidence {
                            candidate_process_id: candidate.process_id,
                            candidate_process_creation_time: candidate.process_creation_time,
                            incumbent_process_id: None,
                            incumbent_process_creation_time: None,
                        },
                    ),
                )
            },
            (WorkloadObservation::Host(candidate), Some(WorkloadObservation::Host(incumbent))) => {
                candidate.require_live("candidate")?;
                incumbent.require_live("incumbent")?;
                if !same_text(candidate.host.as_str(), incumbent.host.as_str()) {
                    return Err(refuse("candidate and incumbent are on different hosts"));
                }
                if candidate.process_id == incumbent.process_id && candidate.process_creation_time
                    == incumbent.process_creation_time {
                    return Err(refuse("candidate and incumbent are the same host process"));
                }
                Ok(
                    IsolationEvidence::Host(
                        HostIsolationEvidence {
                            candidate_process_id: candidate.process_id,
                            candidate_process_creation_time: candidate.process_creation_time,
                            incumbent_process_id: Some(incumbent.process_id),
                            incumbent_process_creation_time: Some(incumbent.process_creation_time),
                        },
                    ),
                )
            },
            _ => Err(
                refuse(
                    "candidate and incumbent were observed by different kinds of workload driver",
                ),
            ),
        }
    }
}

/// Isolation holds both ways: a candidate is isolated from its incumbent exactly when
/// the incumbent is isolated from the candidate, and no process is isolated from
/// itself.
pub proof fn isolation_is_symmetric_and_irreflexive(
    a: WorkloadObservationView,
    b: WorkloadObservationView,
)
    ensures
        isolation(a, Some(b)) is Ok <==> isolation(b, Some(a)) is Ok,
        isolation(a, Some(a)) is Err,
{
}

/// Isolation from an incumbent needs everything that standing alone needs.
pub proof fn isolation_from_an_incumbent_is_isolation(
    candidate: WorkloadObservationView,
    incumbent: WorkloadObservationView,
)
    requires
        isolation(candidate, Some(incumbent)) is Ok,
    ensures
        isolation(candidate, None) is Ok,
        isolation(incumbent, None) is Ok,
{
}

} // verus!
