//! The start of the daemon.

use crate::configuration::{Common, Configuration};
use crate::ipv4::{dotted, parse_ipv4};
use crate::path::texts;
use crate::text::join2;
use vstd::prelude::*;
use vstd::string::StringExecFns;

verus! {

/// The address that is listened on unless another is configured: that of the machine
/// itself.
pub const DEFAULT_RPC_BIND_IP_ADDR: u32 = 0x7f00_0001;

/// Why the daemon does not start.
#[derive(Debug)]
pub enum StartError {
    EmptyBundledDir,
    EmptyDownloadedDir,
    NoBundledDir(String),
    NoPublicKey(String),
    /// A directory that is needed cannot be made.
    MakeDir,
    NoCgroup(String),
    /// The packages cannot be loaded.
    Packages,
    /// The service manager cannot be told that the daemon is ready.
    Notify,
}

impl StartError {
    pub open spec fn text(&self) -> Seq<char> {
        match self {
            StartError::EmptyBundledDir => "bundled_packages_dir must not be empty"@,
            StartError::EmptyDownloadedDir => "downloaded_packages_dir must not be empty"@,
            StartError::NoBundledDir(dir) => "Bundled packages directory does not exist: "@ + dir@,
            StartError::NoPublicKey(path) => "Public key file not found: "@ + path@,
            StartError::MakeDir => "Failed to create a directory of the daemon"@,
            StartError::NoCgroup(cgroup) => "Cgroup "@ + cgroup@
                + " does not exist. Check your build configuration."@,
            StartError::Packages => "Failed to load packages"@,
            StartError::Notify => "Failed to tell that the daemon is ready"@,
        }
    }

    pub fn message(&self) -> (r: String)
        ensures
            r@ == self.text(),
    {
        match self {
            StartError::EmptyBundledDir => "bundled_packages_dir must not be empty".to_owned(),
            StartError::EmptyDownloadedDir => "downloaded_packages_dir must not be empty".to_owned(),
            StartError::NoBundledDir(dir) => join2(
                "Bundled packages directory does not exist: ",
                dir.as_str(),
            ),
            StartError::NoPublicKey(path) => join2("Public key file not found: ", path.as_str()),
            StartError::MakeDir => "Failed to create a directory of the daemon".to_owned(),
            StartError::Packages => "Failed to load packages".to_owned(),
            StartError::Notify => "Failed to tell that the daemon is ready".to_owned(),
            StartError::NoCgroup(cgroup) => {
                let mut out = join2("Cgroup ", cgroup.as_str());
                out.append(" does not exist. Check your build configuration.");
                out
            },
        }
    }
}

/// The daemon's own rules.
#[derive(Debug)]
pub struct Daemon;

impl Daemon {
    /// Both directories must be named, and that of the bundled packages must be there;
    /// `bundled_is_dir` tells whether it is.
    pub fn validate_package_dirs(
        bundled_dir_str: &str,
        downloaded_dir_str: &str,
        bundled_is_dir: bool,
    ) -> (r: Result<(), StartError>)
        ensures
            if bundled_dir_str@.len() == 0 {
                r matches Err(StartError::EmptyBundledDir)
            } else if downloaded_dir_str@.len() == 0 {
                r matches Err(StartError::EmptyDownloadedDir)
            } else if !bundled_is_dir {
                r matches Err(StartError::NoBundledDir(dir)) && dir@ == bundled_dir_str@
            } else {
                r is Ok
            },
    {
        if bundled_dir_str.is_empty() {
            return Err(StartError::EmptyBundledDir);
        }
        if downloaded_dir_str.is_empty() {
            return Err(StartError::EmptyDownloadedDir);
        }
        if !bundled_is_dir {
            return Err(StartError::NoBundledDir(bundled_dir_str.to_owned()));
        }
        Ok(())
    }

    /// What has to be there before packages are loaded: the public key, as `key_is_file`
    /// tells, and then these directories, which are made in this order.
    pub fn setup_runtime_environ(config: &Configuration, key_is_file: bool) -> (r: Result<
        Vec<String>,
        StartError,
    >)
        ensures
            match r {
                Ok(dirs) => {
                    &&& key_is_file
                    &&& dirs@.len() == 3
                    &&& dirs@[0]@ == config.common_spec().downloaded_packages_dir@
                    &&& dirs@[1]@ == config.common_spec().packages_data_root@
                    &&& dirs@[2]@ == config.common_spec().packages_mnt_root@
                },
                Err(e) => !key_is_file && (e matches StartError::NoPublicKey(path) && path@
                    == config.common_spec().public_key_file_path@),
            },
    {
        if !key_is_file {
            return Err(StartError::NoPublicKey(config.public_key_file_path().to_owned()));
        }
        let mut dirs: Vec<String> = Vec::new();
        dirs.push(config.downloaded_packages_dir().to_owned());
        dirs.push(config.packages_data_root().to_owned());
        dirs.push(config.packages_mnt_root().to_owned());
        Ok(dirs)
    }

    /// Whether the packages have a control group: none need be there if none is
    /// configured.
    pub fn package_cgroup_exists(packages_cgroup: &str, is_there: bool) -> (r: Result<
        (),
        StartError,
    >)
        ensures
            r is Ok <==> packages_cgroup@.len() == 0 || is_there,
            r matches Err(e) ==> (e matches StartError::NoCgroup(c) && c@ == packages_cgroup@),
    {
        if packages_cgroup.is_empty() || is_there {
            Ok(())
        } else {
            Err(StartError::NoCgroup(packages_cgroup.to_owned()))
        }
    }

    /// The address that is listened on: the configured one, if it is an address.
    pub fn bind_address(configured: Option<&str>) -> (r: u32)
        ensures
            configured is None ==> r == DEFAULT_RPC_BIND_IP_ADDR,
            configured matches Some(text) ==> {
                &&& forall|a: u32| text@ == #[trigger] dotted(a) ==> r == a
                &&& (forall|a: u32| text@ != #[trigger] dotted(a)) ==> r
                    == DEFAULT_RPC_BIND_IP_ADDR
            },
    {
        match configured {
            Some(text) => match parse_ipv4(text) {
                Some(addr) => addr,
                None => DEFAULT_RPC_BIND_IP_ADDR,
            },
            None => DEFAULT_RPC_BIND_IP_ADDR,
        }
    }
}

/// What has to be done next to run the daemon.
#[derive(Debug)]
pub enum RunAction {
    /// Make these directories, in this order.
    MakeDirs(Vec<String>),
    /// See whether the control group of the packages is there.
    CheckCgroup,
    LoadPackages,
    NotifyReady,
    /// Serve clients on this address until the daemon is told to stop.
    Serve(u32),
    Stopped,
    Failed(StartError),
}

pub enum RunView {
    MakeDirs(Seq<Seq<char>>),
    CheckCgroup,
    LoadPackages,
    NotifyReady,
    Serve(u32),
    Stopped,
    Failed(Seq<char>),
}

impl View for RunAction {
    type V = RunView;

    open spec fn view(&self) -> RunView {
        match self {
            RunAction::MakeDirs(dirs) => RunView::MakeDirs(texts(dirs@)),
            RunAction::CheckCgroup => RunView::CheckCgroup,
            RunAction::LoadPackages => RunView::LoadPackages,
            RunAction::NotifyReady => RunView::NotifyReady,
            RunAction::Serve(addr) => RunView::Serve(*addr),
            RunAction::Stopped => RunView::Stopped,
            RunAction::Failed(e) => RunView::Failed(e.text()),
        }
    }
}

/// How the daemon begins: what it needs must be named and be there.
pub open spec fn run_begins(c: Common, bundled_is_dir: bool, key_is_file: bool) -> RunView {
    if c.bundled_packages_dir@.len() == 0 {
        RunView::Failed(StartError::EmptyBundledDir.text())
    } else if c.downloaded_packages_dir@.len() == 0 {
        RunView::Failed(StartError::EmptyDownloadedDir.text())
    } else if !bundled_is_dir {
        RunView::Failed(StartError::NoBundledDir(c.bundled_packages_dir).text())
    } else if !key_is_file {
        RunView::Failed(StartError::NoPublicKey(c.public_key_file_path).text())
    } else {
        RunView::MakeDirs(
            seq![c.downloaded_packages_dir@, c.packages_data_root@, c.packages_mnt_root@],
        )
    }
}

/// The address that is listened on is the configured one, if that is an address.
pub open spec fn is_bind_address(configured: Option<String>, addr: u32) -> bool {
    match configured {
        Some(text) => if exists|a: u32| text@ == #[trigger] dotted(a) {
            text@ == dotted(addr)
        } else {
            addr == DEFAULT_RPC_BIND_IP_ADDR
        },
        None => addr == DEFAULT_RPC_BIND_IP_ADDR,
    }
}

/// One step of running the daemon, by whether the last succeeded.
pub open spec fn run_step(c: Common, action: RunView, ok: bool, next: RunView) -> bool {
    match action {
        RunView::MakeDirs(_) => next == if !ok {
            RunView::Failed(StartError::MakeDir.text())
        } else if c.packages_cgroup@.len() == 0 {
            RunView::LoadPackages
        } else {
            RunView::CheckCgroup
        },
        RunView::CheckCgroup => next == if ok {
            RunView::LoadPackages
        } else {
            RunView::Failed(StartError::NoCgroup(c.packages_cgroup).text())
        },
        RunView::LoadPackages => next == if ok {
            RunView::NotifyReady
        } else {
            RunView::Failed(StartError::Packages.text())
        },
        RunView::NotifyReady => if ok {
            next matches RunView::Serve(addr) && is_bind_address(c.rpc_bind_ip, addr)
        } else {
            next == RunView::Failed(StartError::Notify.text())
        },
        RunView::Serve(_) => next == RunView::Stopped,
        _ => next == action,
    }
}

impl Daemon {
    /// The first thing to do. `bundled_is_dir` and `key_is_file` tell what is there.
    pub fn run_first(config: &Configuration, bundled_is_dir: bool, key_is_file: bool) -> (r:
        RunAction)
        ensures
            r@ == run_begins(config.common_spec(), bundled_is_dir, key_is_file),
    {
        if let Err(e) = Daemon::validate_package_dirs(
            config.bundled_packages_dir(),
            config.downloaded_packages_dir(),
            bundled_is_dir,
        ) {
            return RunAction::Failed(e);
        }
        match Daemon::setup_runtime_environ(config, key_is_file) {
            Ok(dirs) => {
                let ghost c = config.common_spec();
                assert(texts(dirs@) =~= seq![
                    c.downloaded_packages_dir@,
                    c.packages_data_root@,
                    c.packages_mnt_root@,
                ]);
                RunAction::MakeDirs(dirs)
            },
            Err(e) => RunAction::Failed(e),
        }
    }

    /// Takes the daemon one step further. That serving fails does not make the daemon fail.
    pub fn run_next(config: &Configuration, action: RunAction, ok: bool) -> (r: RunAction)
        ensures
            run_step(config.common_spec(), action@, ok, r@),
    {
        match action {
            RunAction::MakeDirs(_) => if !ok {
                RunAction::Failed(StartError::MakeDir)
            } else if config.packages_cgroup().is_empty() {
                RunAction::LoadPackages
            } else {
                RunAction::CheckCgroup
            },
            RunAction::CheckCgroup => if ok {
                RunAction::LoadPackages
            } else {
                RunAction::Failed(StartError::NoCgroup(config.packages_cgroup().to_owned()))
            },
            RunAction::LoadPackages => if ok {
                RunAction::NotifyReady
            } else {
                RunAction::Failed(StartError::Packages)
            },
            RunAction::NotifyReady => if ok {
                RunAction::Serve(Daemon::bind_address(config.rpc_bind_ip()))
            } else {
                RunAction::Failed(StartError::Notify)
            },
            RunAction::Serve(_) => RunAction::Stopped,
            other => other,
        }
    }
}

/// The actions of the daemon, one after the other: each follows from the one before by
/// whether that succeeded.
pub open spec fn is_run(
    c: Common,
    bundled_is_dir: bool,
    key_is_file: bool,
    actions: Seq<RunView>,
    oks: Seq<bool>,
) -> bool {
    &&& actions.len() == oks.len() + 1
    &&& actions[0] == run_begins(c, bundled_is_dir, key_is_file)
    &&& forall|i: int|
        0 <= i < oks.len() ==> run_step(c, actions[i], oks[i], #[trigger] actions[i + 1])
}

/// The daemon serves clients only where both directories are named, the bundled one and the
/// public key are there, and the step before, telling that it is ready, succeeded.
pub proof fn law_served_means_ready(
    c: Common,
    bundled_is_dir: bool,
    key_is_file: bool,
    actions: Seq<RunView>,
    oks: Seq<bool>,
)
    requires
        is_run(c, bundled_is_dir, key_is_file, actions, oks),
        actions.last() is Serve,
    ensures
        c.bundled_packages_dir@.len() > 0,
        c.downloaded_packages_dir@.len() > 0,
        bundled_is_dir,
        key_is_file,
        oks.len() >= 3,
        oks.last(),
        actions[actions.len() - 2] is NotifyReady,
        forall|i: int| 0 <= i < oks.len() ==> #[trigger] oks[i],
{
    lemma_run(c, bundled_is_dir, key_is_file, actions, oks, oks.len() as int);
    let n = oks.len() as int;
    if n > 0 {
        assert(run_step(c, actions[n - 1], oks[n - 1], actions[n - 1 + 1]));
        lemma_run(c, bundled_is_dir, key_is_file, actions, oks, n - 1);
    }
}

/// How far a run has got by its `k`-th action.
proof fn lemma_run(
    c: Common,
    bundled_is_dir: bool,
    key_is_file: bool,
    actions: Seq<RunView>,
    oks: Seq<bool>,
    k: int,
)
    requires
        is_run(c, bundled_is_dir, key_is_file, actions, oks),
        0 <= k <= oks.len(),
    ensures
        match actions[k] {
            RunView::Failed(_) | RunView::Stopped => true,
            _ => {
                &&& c.bundled_packages_dir@.len() > 0
                &&& c.downloaded_packages_dir@.len() > 0
                &&& bundled_is_dir
                &&& key_is_file
                &&& forall|i: int| 0 <= i < k ==> #[trigger] oks[i]
                &&& (actions[k] is CheckCgroup ==> k >= 1)
                &&& (actions[k] is LoadPackages ==> k >= 1)
                &&& (actions[k] is NotifyReady ==> k >= 2)
                &&& (actions[k] is Serve ==> k >= 3)
            },
        },
    decreases k,
{
    if k > 0 {
        lemma_run(c, bundled_is_dir, key_is_file, actions, oks, k - 1);
        assert(run_step(c, actions[k - 1], oks[k - 1], actions[k - 1 + 1]));
    }
}

/// The daemon begins to make directories, those for installed packages, for data and for
/// mounts, if both directories of packages are named and the bundled one and the public key
/// are there. Else it fails, and says of the first that is missing which it is.
pub proof fn law_how_the_daemon_begins(c: Common, bundled_is_dir: bool, key_is_file: bool)
    ensures
        ({
            let begin = run_begins(c, bundled_is_dir, key_is_file);
            &&& begin is Failed || begin is MakeDirs
            &&& begin is MakeDirs <==> c.bundled_packages_dir@.len() > 0
                && c.downloaded_packages_dir@.len() > 0 && bundled_is_dir && key_is_file
            &&& begin matches RunView::MakeDirs(dirs) ==> dirs.len() == 3 && dirs[0]
                == c.downloaded_packages_dir@ && dirs[1] == c.packages_data_root@ && dirs[2]
                == c.packages_mnt_root@
            &&& c.bundled_packages_dir@.len() == 0 ==> begin == RunView::Failed(
                "bundled_packages_dir must not be empty"@,
            )
            &&& c.bundled_packages_dir@.len() > 0 && c.downloaded_packages_dir@.len() == 0 ==> begin
                == RunView::Failed("downloaded_packages_dir must not be empty"@)
            &&& c.bundled_packages_dir@.len() > 0 && c.downloaded_packages_dir@.len() > 0
                && !bundled_is_dir ==> begin == RunView::Failed(
                "Bundled packages directory does not exist: "@ + c.bundled_packages_dir@,
            )
            &&& c.bundled_packages_dir@.len() > 0 && c.downloaded_packages_dir@.len() > 0
                && bundled_is_dir && !key_is_file ==> begin == RunView::Failed(
                "Public key file not found: "@ + c.public_key_file_path@,
            )
        }),
{
}

/// How the daemon goes on: with the control group where one is configured, then it loads the
/// packages, tells that it is ready, serves, and stops. Whatever fails before it serves makes
/// it fail.
pub proof fn law_how_the_daemon_goes_on(c: Common, dirs: Seq<Seq<char>>, addr: u32, ok: bool, next: RunView)
    ensures
        run_step(c, RunView::MakeDirs(dirs), ok, next) ==> {
            &&& ok && c.packages_cgroup@.len() > 0 ==> next is CheckCgroup
            &&& ok && c.packages_cgroup@.len() == 0 ==> next is LoadPackages
            &&& !ok ==> next is Failed
        },
        run_step(c, RunView::CheckCgroup, ok, next) ==> if ok {
            next is LoadPackages
        } else {
            next == RunView::Failed(
                "Cgroup "@ + c.packages_cgroup@
                    + " does not exist. Check your build configuration."@,
            )
        },
        run_step(c, RunView::LoadPackages, ok, next) ==> if ok {
            next is NotifyReady
        } else {
            next is Failed
        },
        run_step(c, RunView::NotifyReady, ok, next) ==> if ok {
            next is Serve
        } else {
            next is Failed
        },
        run_step(c, RunView::Serve(addr), ok, next) ==> next is Stopped,
{
}

/// Clients are served on the address that is configured, if it is one, and else on that of the
/// machine itself, 127.0.0.1.
pub proof fn law_address_that_is_listened_on(c: Common, ip: u32, next: RunView)
    requires
        run_step(c, RunView::NotifyReady, true, next),
    ensures
        c.rpc_bind_ip is None ==> next == RunView::Serve(0x7f00_0001),
        c.rpc_bind_ip matches Some(text) && text@ == dotted(ip) ==> next == RunView::Serve(ip),
        c.rpc_bind_ip matches Some(text) && (forall|a: u32| text@ != #[trigger] dotted(a)) ==> next
            == RunView::Serve(0x7f00_0001),
{
    if let Some(text) = c.rpc_bind_ip {
        if text@ == dotted(ip) {
            crate::ipv4::law_dotted_is_unique(ip, next->Serve_0);
        }
    }
}

} // verus!
