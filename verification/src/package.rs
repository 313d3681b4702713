//! A package as the daemon runs it.

use crate::bundle::{
    network_mode_name, path_view, ContainerCommand, ContainerRuntime, ContainerSettings,
    DataMountPaths, NetworkMode, OciSpec,
};
use crate::network::DEFAULT_CONTAINER_INTERFACE;
use crate::package_status::{
    status_of_unit, status_text, ExecutionStatus, PackageStatus, StatusView,
};
use crate::path::joined;
use crate::state_machine::{
    after_outcome, after_request, is_reply_after, is_reply_to, Outcome, PendingView, Reply,
    TransitionManagerActor,
};
use crate::systemd::{
    cgroups_path, cgroups_path_spec, is_service_type_name, service_type_name,
    ContainerServiceType, ServiceInfo,
};
use vstd::prelude::*;

verus! {

/// What a package file says of the package.
#[derive(Debug)]
pub struct PackageMetadata {
    pub name: String,
    pub description: String,
    pub version: String,
    pub autostart: Option<bool>,
    pub service_type: String,
    pub remain_after_exit: Option<bool>,
    pub bus_name: Option<String>,
    pub network_mode: Option<String>,
    pub bridge_interface_name: Option<String>,
    pub security_seccomp: bool,
    pub security_mac: bool,
}

fn copy_text(s: &Option<String>) -> (r: Option<String>)
    ensures
        r == *s,
{
    match s {
        Some(t) => Some(t.clone()),
        None => None,
    }
}

impl Clone for PackageMetadata {
    fn clone(&self) -> (r: Self)
        ensures
            r == *self,
    {
        PackageMetadata {
            name: self.name.clone(),
            description: self.description.clone(),
            version: self.version.clone(),
            autostart: self.autostart,
            service_type: self.service_type.clone(),
            remain_after_exit: self.remain_after_exit,
            bus_name: copy_text(&self.bus_name),
            network_mode: copy_text(&self.network_mode),
            bridge_interface_name: copy_text(&self.bridge_interface_name),
            security_seccomp: self.security_seccomp,
            security_mac: self.security_mac,
        }
    }
}

/// A package file that has been read and verified.
#[derive(Debug)]
pub struct PackageFile {
    pub metadata: PackageMetadata,
    pub seccomp_policy: Vec<u8>,
}

/// Why a package could not be made from its file.
#[derive(Debug, Clone, Copy, PartialEq, Eq, Structural)]
pub enum PackageError {
    InvalidNetworkMode,
    InvalidServiceType,
}

impl ServiceInfo {
    /// What the metadata says of the service, where it names a known kind.
    pub fn new_from_metadata(metadata: &PackageMetadata) -> (r: Result<ServiceInfo, PackageError>)
        ensures
            r is Ok <==> is_service_type_name(metadata.service_type@),
            r matches Err(e) ==> e == PackageError::InvalidServiceType,
            r matches Ok(s) ==> {
                &&& s.description == metadata.description
                &&& service_type_name(s.service_type) == metadata.service_type@
                &&& s.remain_after_exit == metadata.remain_after_exit
                &&& s.bus_name == metadata.bus_name
            },
    {
        match ContainerServiceType::parse(metadata.service_type.as_str()) {
            Some(service_type) => Ok(
                ServiceInfo {
                    description: metadata.description.clone(),
                    service_type,
                    remain_after_exit: metadata.remain_after_exit,
                    bus_name: copy_text(&metadata.bus_name),
                },
            ),
            None => Err(PackageError::InvalidServiceType),
        }
    }
}

/// A package file and where it lies.
#[derive(Debug)]
pub struct PackageContext {
    path: String,
    package_file: PackageFile,
}

impl PackageContext {
    pub closed spec fn path_spec(&self) -> Seq<char> {
        self.path@
    }

    pub closed spec fn file_spec(&self) -> PackageFile {
        self.package_file
    }

    pub fn new(package_path: String, package_file: PackageFile) -> (r: Self)
        ensures
            r.path_spec() == package_path@,
            r.file_spec() == package_file,
    {
        PackageContext { path: package_path, package_file }
    }

    pub fn package_file(&self) -> (r: &PackageFile)
        ensures
            *r == self.file_spec(),
    {
        &self.package_file
    }

    pub fn package_file_path(&self) -> (r: &str)
        ensures
            r@ == self.path_spec(),
    {
        self.path.as_str()
    }

    pub fn get_name(&self) -> (r: &str)
        ensures
            r@ == self.file_spec().metadata.name@,
    {
        self.package_file.metadata.name.as_str()
    }

    /// A package starts by itself unless it says otherwise.
    pub fn is_autostart(&self) -> (r: bool)
        ensures
            r == (self.file_spec().metadata.autostart != Some(false)),
    {
        match self.package_file.metadata.autostart {
            Some(autostart) => autostart,
            None => true,
        }
    }
}

/// What a package asks for as to its network: nothing is the network of the host, and
/// what is not known is nothing at all.
pub open spec fn requested_mode(name: Option<Seq<char>>) -> Option<NetworkMode> {
    match name {
        None => Some(NetworkMode::Host),
        Some(n) => if n == "host"@ {
            Some(NetworkMode::Host)
        } else if n == "none"@ {
            Some(NetworkMode::Isolated)
        } else if n == "bridge"@ {
            Some(NetworkMode::Bridge)
        } else {
            None
        },
    }
}

/// What a package gets: a bridge only where the daemon has a network, and else the
/// network of the host.
pub open spec fn effective_mode(requested: NetworkMode, has_network: bool) -> NetworkMode {
    if requested is Bridge && !has_network {
        NetworkMode::Host
    } else {
        requested
    }
}

pub fn resolve_network_mode(name: &Option<String>, has_network: bool) -> (r: Result<
    NetworkMode,
    PackageError,
>)
    ensures
        match requested_mode(path_view(*name)) {
            Some(m) => r == Ok::<NetworkMode, PackageError>(effective_mode(m, has_network)),
            None => r == Err::<NetworkMode, PackageError>(PackageError::InvalidNetworkMode),
        },
{
    let requested = match name {
        None => NetworkMode::Host,
        Some(n) => match NetworkMode::parse(n.as_str()) {
            Some(m) => {
                proof {
                    lemma_mode_names();
                }
                m
            },
            None => {
                proof {
                    assert(network_mode_name(NetworkMode::Host) != n@);
                    assert(network_mode_name(NetworkMode::Isolated) != n@);
                    assert(network_mode_name(NetworkMode::Bridge) != n@);
                }
                return Err(PackageError::InvalidNetworkMode);
            },
        },
    };
    if requested == NetworkMode::Bridge && !has_network {
        Ok(NetworkMode::Host)
    } else {
        Ok(requested)
    }
}

proof fn lemma_mode_names()
    ensures
        "host"@ != "none"@,
        "host"@ != "bridge"@,
        "none"@ != "bridge"@,
{
    reveal_strlit("host");
    reveal_strlit("none");
    reveal_strlit("bridge");
    assert("host"@[0] == 'h');
    assert("none"@[0] == 'n');
    assert("bridge"@[0] == 'b');
}

/// Where a package's volume is, and what surrounds its container.
#[derive(Debug)]
pub struct PackageSurroundings {
    pub oci_template: OciSpec,
    pub mount_point: String,
    pub data_mounts: Option<DataMountPaths>,
    /// The configured control group of the packages; may be empty.
    pub packages_cgroup: String,
    pub temp_dir: String,
    /// Whether the daemon has a bridge network.
    pub has_network: bool,
}

/// A package in the daemon's care: what it is, how its container is run, and how far it
/// has got.
#[derive(Debug)]
pub struct Package {
    context: PackageContext,
    command: ContainerCommand,
    service_info: ServiceInfo,
    container_interface: String,
    transition_mgr: TransitionManagerActor,
}

impl Package {
    pub closed spec fn context_spec(&self) -> PackageContext {
        self.context
    }

    pub closed spec fn command_spec(&self) -> ContainerCommand {
        self.command
    }

    pub closed spec fn service_spec(&self) -> ServiceInfo {
        self.service_info
    }

    pub closed spec fn interface_spec(&self) -> Seq<char> {
        self.container_interface@
    }

    pub closed spec fn manager_spec(&self) -> TransitionManagerActor {
        self.transition_mgr
    }

    pub open spec fn wf(&self) -> bool {
        self.manager_spec().wf()
    }

    /// The package's container runs on a bridge.
    pub open spec fn is_bridged(&self) -> bool {
        self.command_spec().spec.network_mode is Bridge
    }

    /// Makes a package from its file. Network mode and kind of service must be known; a
    /// package that asks for a bridge runs on the network of the host where the daemon
    /// has no bridge network.
    pub fn new(context: PackageContext, around: PackageSurroundings) -> (r: Result<
        Self,
        PackageError,
    >)
        ensures
            ({
                let meta = context.file_spec().metadata;
                let requested = requested_mode(path_view(meta.network_mode));
                if requested is None {
                    r == Err::<Self, PackageError>(PackageError::InvalidNetworkMode)
                } else if !is_service_type_name(meta.service_type@) {
                    r == Err::<Self, PackageError>(PackageError::InvalidServiceType)
                } else {
                    let mode = effective_mode(requested->0, around.has_network);
                    &&& r matches Ok(p)
                    &&& p.wf()
                    &&& p.context_spec() == context
                    &&& p.manager_spec().status_spec() == StatusView::Verified
                    &&& p.manager_spec().pending_spec() == PendingView::Idle
                    &&& p.manager_spec().name_spec() == meta.name@
                    &&& p.interface_spec() == match meta.bridge_interface_name {
                        Some(i) => i@,
                        None => DEFAULT_CONTAINER_INTERFACE@,
                    }
                    &&& p.service_spec().description == meta.description
                    &&& service_type_name(p.service_spec().service_type) == meta.service_type@
                    &&& p.service_spec().remain_after_exit == meta.remain_after_exit
                    &&& p.service_spec().bus_name == meta.bus_name
                    &&& p.command_spec().name@ == meta.name@
                    &&& p.command_spec().runtime == ContainerRuntime::CRun
                    &&& p.command_spec().spec.oci_template == around.oci_template
                    &&& p.command_spec().spec.seccomp_policy is Some <==> meta.security_seccomp
                    &&& meta.security_seccomp ==> p.command_spec().spec.seccomp_policy->0@
                        == context.file_spec().seccomp_policy@
                    &&& p.command_spec().spec.mac_enabled == meta.security_mac
                    &&& p.command_spec().spec.network_mode == mode
                    &&& p.command_spec().spec.cgroups_path@ == cgroups_path_spec(
                        around.packages_cgroup@,
                    )
                    &&& p.command_spec().spec.package_name@ == meta.name@
                    &&& p.command_spec().spec.mount_point == around.mount_point
                    &&& p.command_spec().spec.data_mounts == around.data_mounts
                    &&& path_view(p.command_spec().spec.bridge_netns_path) == if mode is Bridge {
                        Some(
                            joined(
                                crate::network::netns_dir_spec(around.temp_dir@),
                                crate::network::netns_name_spec(meta.name@),
                            ),
                        )
                    } else {
                        None
                    }
                }
            }),
    {
        let metadata = &context.package_file.metadata;
        let network_mode = match resolve_network_mode(
            &metadata.network_mode,
            around.has_network,
        ) {
            Ok(mode) => mode,
            Err(e) => {
                return Err(e);
            },
        };
        let service_info = match ServiceInfo::new_from_metadata(metadata) {
            Ok(info) => info,
            Err(e) => {
                return Err(e);
            },
        };
        let container_interface = match &metadata.bridge_interface_name {
            Some(name) => name.clone(),
            None => DEFAULT_CONTAINER_INTERFACE.to_owned(),
        };
        let mut seccomp_policy: Vec<u8> = Vec::new();
        seccomp_policy.extend_from_slice(context.package_file.seccomp_policy.as_slice());
        assert(seccomp_policy@ =~= context.package_file.seccomp_policy@);
        let settings = ContainerSettings {
            seccomp: metadata.security_seccomp,
            mac: metadata.security_mac,
            seccomp_policy,
        };
        let name = metadata.name.clone();
        let command = ContainerCommand::from_package(
            name.clone(),
            ContainerRuntime::CRun,
            around.oci_template,
            settings,
            network_mode,
            cgroups_path(around.packages_cgroup.as_str()),
            around.mount_point,
            around.data_mounts,
            around.temp_dir.as_str(),
        );
        let transition_mgr = TransitionManagerActor::new(name);
        Ok(Package { context, command, service_info, container_interface, transition_mgr })
    }

    /// All but the lifecycle is that of the other.
    pub open spec fn is_same_package(&self, other: &Package) -> bool {
        &&& self.context_spec() == other.context_spec()
        &&& self.command_spec() == other.command_spec()
        &&& self.service_spec() == other.service_spec()
        &&& self.interface_spec() == other.interface_spec()
    }

    /// What is asked of a package once it is made: that it be set up, and started where it
    /// starts by itself.
    pub fn initialize(&self) -> (r: Vec<PackageStatus>)
        ensures
            r@.len() == if self.context_spec().file_spec().metadata.autostart != Some(false) {
                2int
            } else {
                1
            },
            r@[0]@ == StatusView::SettingUp,
            r@.len() == 2 ==> r@[1]@ == StatusView::StartRequested,
    {
        let mut requests: Vec<PackageStatus> = Vec::new();
        requests.push(PackageStatus::SettingUp);
        if self.is_autostart() {
            requests.push(PackageStatus::StartRequested);
        }
        requests
    }

    pub fn command(&self) -> (r: &ContainerCommand)
        ensures
            *r == self.command_spec(),
    {
        &self.command
    }

    pub fn service_info(&self) -> (r: &ServiceInfo)
        ensures
            *r == self.service_spec(),
    {
        &self.service_info
    }

    pub fn container_interface(&self) -> (r: &str)
        ensures
            r@ == self.interface_spec(),
    {
        self.container_interface.as_str()
    }

    /// Whether the container runs on a bridge, so that it needs a namespace of its own.
    pub fn uses_bridge(&self) -> (r: bool)
        ensures
            r == self.is_bridged(),
    {
        self.command.spec.network_mode == NetworkMode::Bridge
    }

    /// Asks for the package to be set up.
    pub fn setup(&mut self) -> (r: Reply)
        requires
            old(self).wf(),
            old(self).manager_spec().pending_spec() == PendingView::Idle,
        ensures
            final(self).wf(),
            final(self).is_same_package(old(self)),
            (
                final(self).manager_spec().status_spec(),
                final(self).manager_spec().pending_spec(),
            ) == after_request(old(self).manager_spec().status_spec(), StatusView::SettingUp),
            is_reply_to(old(self).manager_spec().status_spec(), StatusView::SettingUp, r),
    {
        self.transition_mgr.transition_to(PackageStatus::SettingUp)
    }

    /// Asks for the package to be cleaned up.
    pub fn cleanup(&mut self) -> (r: Reply)
        requires
            old(self).wf(),
            old(self).manager_spec().pending_spec() == PendingView::Idle,
        ensures
            final(self).wf(),
            final(self).is_same_package(old(self)),
            (
                final(self).manager_spec().status_spec(),
                final(self).manager_spec().pending_spec(),
            ) == after_request(old(self).manager_spec().status_spec(), StatusView::CleaningUp),
            is_reply_to(old(self).manager_spec().status_spec(), StatusView::CleaningUp, r),
    {
        self.transition_mgr.transition_to(PackageStatus::CleaningUp)
    }

    /// Asks for the package to be started.
    pub fn request_start(&mut self) -> (r: Reply)
        requires
            old(self).wf(),
            old(self).manager_spec().pending_spec() == PendingView::Idle,
        ensures
            final(self).wf(),
            final(self).is_same_package(old(self)),
            (
                final(self).manager_spec().status_spec(),
                final(self).manager_spec().pending_spec(),
            ) == after_request(old(self).manager_spec().status_spec(), StatusView::StartRequested),
            is_reply_to(old(self).manager_spec().status_spec(), StatusView::StartRequested, r),
    {
        self.transition_mgr.transition_to(PackageStatus::StartRequested)
    }

    /// Asks for the package to be stopped.
    pub fn request_stop(&mut self) -> (r: Reply)
        requires
            old(self).wf(),
            old(self).manager_spec().pending_spec() == PendingView::Idle,
        ensures
            final(self).wf(),
            final(self).is_same_package(old(self)),
            (
                final(self).manager_spec().status_spec(),
                final(self).manager_spec().pending_spec(),
            ) == after_request(old(self).manager_spec().status_spec(), StatusView::StopRequested),
            is_reply_to(old(self).manager_spec().status_spec(), StatusView::StopRequested, r),
    {
        self.transition_mgr.transition_to(PackageStatus::StopRequested)
    }

    /// Asks for the package to make way for another version.
    pub fn prepare_upgrade(&mut self) -> (r: Reply)
        requires
            old(self).wf(),
            old(self).manager_spec().pending_spec() == PendingView::Idle,
        ensures
            final(self).wf(),
            final(self).is_same_package(old(self)),
            (
                final(self).manager_spec().status_spec(),
                final(self).manager_spec().pending_spec(),
            ) == after_request(old(self).manager_spec().status_spec(), StatusView::Upgrading),
            is_reply_to(old(self).manager_spec().status_spec(), StatusView::Upgrading, r),
    {
        self.transition_mgr.transition_to(PackageStatus::Upgrading)
    }

    /// Tells the package of a status that its unit or its file has brought about.
    pub fn transition_to(&mut self, next: PackageStatus) -> (r: Reply)
        requires
            old(self).wf(),
            old(self).manager_spec().pending_spec() == PendingView::Idle,
        ensures
            final(self).wf(),
            final(self).is_same_package(old(self)),
            (
                final(self).manager_spec().status_spec(),
                final(self).manager_spec().pending_spec(),
            ) == after_request(old(self).manager_spec().status_spec(), next@),
            is_reply_to(old(self).manager_spec().status_spec(), next@, r),
    {
        self.transition_mgr.transition_to(next)
    }

    /// Ends the operation that is under way.
    pub fn completed(&mut self, outcome: Outcome) -> (r: Reply)
        requires
            old(self).wf(),
            old(self).manager_spec().pending_spec() != PendingView::Idle,
        ensures
            final(self).wf(),
            final(self).is_same_package(old(self)),
            (
                final(self).manager_spec().status_spec(),
                final(self).manager_spec().pending_spec(),
            ) == after_outcome(
                old(self).manager_spec().status_spec(),
                old(self).manager_spec().pending_spec(),
                outcome,
            ),
            is_reply_after(
                final(self).manager_spec().status_spec(),
                final(self).manager_spec().pending_spec(),
                r,
            ),
    {
        self.transition_mgr.completed(outcome)
    }

    pub fn is_idle(&self) -> (r: bool)
        ensures
            r == (self.manager_spec().pending_spec() == PendingView::Idle),
    {
        self.transition_mgr.is_idle()
    }

    /// Whether the package has anything to tear down.
    pub fn teardown(&self) -> (r: bool)
        ensures
            r == !(self.manager_spec().status_spec() is Verified
                || self.manager_spec().status_spec() is Cleaned
                || self.manager_spec().status_spec() is Upgrading),
    {
        self.transition_mgr.needs_teardown()
    }

    pub fn get_package_file_path(&self) -> (r: &str)
        ensures
            r@ == self.context_spec().path_spec(),
    {
        self.context.package_file_path()
    }

    pub fn get_name(&self) -> (r: &str)
        ensures
            r@ == self.context_spec().file_spec().metadata.name@,
    {
        self.context.get_name()
    }

    pub fn is_autostart(&self) -> (r: bool)
        ensures
            r == (self.context_spec().file_spec().metadata.autostart != Some(false)),
    {
        self.context.is_autostart()
    }

    pub fn get_version(&self) -> (r: &str)
        ensures
            r@ == self.context_spec().file_spec().metadata.version@,
    {
        self.context.package_file.metadata.version.as_str()
    }

    pub fn get_metadata(&self) -> (r: &PackageMetadata)
        ensures
            *r == self.context_spec().file_spec().metadata,
    {
        &self.context.package_file.metadata
    }

    pub fn get_status(&self) -> (r: PackageStatus)
        ensures
            r@ == self.manager_spec().status_spec(),
    {
        self.transition_mgr.get_status()
    }

    /// What there is to tell of the package; `limit` is its quota, where it has one.
    pub fn get_package_info(&self, limit: Option<u64>) -> (r: PackageInfo)
        ensures
            r == package_info_of(self.context_spec(), r, limit),
            r.package_status@ == status_text(self.manager_spec().status_spec()),
            r.package_path@ == self.context_spec().path_spec(),
    {
        package_info(&self.context, &self.transition_mgr.get_status(), limit)
    }
}

/// The quota of a package's data.
#[derive(Debug, Clone, Copy, PartialEq, Eq, Structural)]
pub struct QuotaInformation {
    pub enabled: bool,
    pub limit: u64,
}

#[derive(Debug)]
pub struct PackageInfo {
    pub package_metadata: PackageMetadata,
    pub package_status: String,
    pub package_name: String,
    pub package_path: String,
    pub quota_info: QuotaInformation,
}

pub open spec fn quota_of(limit: Option<u64>) -> QuotaInformation {
    match limit {
        Some(limit) => QuotaInformation { enabled: true, limit },
        None => QuotaInformation { enabled: false, limit: 0 },
    }
}

/// `info` with all that the file and the quota fix of it.
pub open spec fn package_info_of(context: PackageContext, info: PackageInfo, limit: Option<u64>) -> PackageInfo {
    PackageInfo {
        package_metadata: context.file_spec().metadata,
        quota_info: quota_of(limit),
        package_name: context.file_spec().metadata.name,
        ..info
    }
}

/// What there is to tell of a package in a given status.
pub fn package_info(context: &PackageContext, status: &PackageStatus, limit: Option<u64>) -> (r:
    PackageInfo)
    ensures
        r == package_info_of(*context, r, limit),
        r.package_status@ == status_text(status@),
        r.package_path@ == context.path_spec(),
{
    let quota_info = match limit {
        Some(limit) => QuotaInformation { enabled: true, limit },
        None => QuotaInformation { enabled: false, limit: 0 },
    };
    PackageInfo {
        package_metadata: context.package_file.metadata.clone(),
        package_status: status.to_text(),
        package_name: context.package_file.metadata.name.clone(),
        package_path: context.path.clone(),
        quota_info,
    }
}

/// What the task that follows a package's unit is told.
#[derive(Debug)]
pub enum ReceiverEvent {
    State(ExecutionStatus),
    /// Nobody reports any more.
    Closed,
    /// The package refused the status that it was given last.
    TransitionFailed(String),
}

/// What it does: hand on a status, or record an error and end.
#[derive(Debug)]
pub enum ReceiverAction {
    TransitionTo(PackageStatus),
    EndWithError(PackageStatus),
}

/// Every state of the unit becomes the status of the package; when that comes to an end
/// or is refused, the package is in error.
pub fn receiver_next(event: ReceiverEvent) -> (r: ReceiverAction)
    ensures
        match event {
            ReceiverEvent::State(s) => r matches ReceiverAction::TransitionTo(t) && t@
                == status_of_unit(s),
            ReceiverEvent::Closed => r matches ReceiverAction::EndWithError(t) && t@
                == StatusView::Error("Channel closed"@),
            ReceiverEvent::TransitionFailed(e) => r matches ReceiverAction::EndWithError(t) && t@
                == StatusView::Error(e@),
        },
{
    match event {
        ReceiverEvent::State(s) => ReceiverAction::TransitionTo(PackageStatus::of_unit(s)),
        ReceiverEvent::Closed => ReceiverAction::EndWithError(
            PackageStatus::Error("Channel closed".to_owned()),
        ),
        ReceiverEvent::TransitionFailed(e) => ReceiverAction::EndWithError(PackageStatus::Error(e)),
    }
}

/// A package never ends up on a bridge that the daemon does not have.
pub proof fn law_bridge_needs_network(requested: NetworkMode, has_network: bool)
    ensures
        effective_mode(requested, has_network) is Bridge ==> has_network,
        has_network ==> effective_mode(requested, has_network) == requested,
        !(requested is Bridge) ==> effective_mode(requested, has_network) == requested,
{
}

/// What a package asks for as to its network: by the three words that there are, and that of
/// the host where it says nothing. Another word is refused.
pub proof fn law_networks_that_are_asked_for(word: Seq<char>)
    ensures
        requested_mode(None) == Some(NetworkMode::Host),
        requested_mode(Some("host"@)) == Some(NetworkMode::Host),
        requested_mode(Some("none"@)) == Some(NetworkMode::Isolated),
        requested_mode(Some("bridge"@)) == Some(NetworkMode::Bridge),
        word != "host"@ && word != "none"@ && word != "bridge"@ ==> requested_mode(Some(word))
            is None,
        effective_mode(NetworkMode::Bridge, false) == NetworkMode::Host,
{
    lemma_mode_names();
}

/// What is told of a package: its own data, its name, and its quota where it has one.
pub proof fn law_what_is_told_of_a_package(context: PackageContext, info: PackageInfo, limit: Option<u64>)
    requires
        info == package_info_of(context, info, limit),
    ensures
        info.package_metadata == context.file_spec().metadata,
        info.package_name == context.file_spec().metadata.name,
        limit is Some ==> info.quota_info.enabled && info.quota_info.limit == limit->0,
        limit is None ==> !info.quota_info.enabled && info.quota_info.limit == 0,
{
}

} // verus!
