//! Disk quota on an ext4 file system.

use crate::path::{components, same_path};
use crate::text::{decimal, decimal_signed, decimal_signed_text, decimal_text, is_same, join2};
use vstd::prelude::*;
use vstd::string::StringExecFns;

verus! {

/// Whose use is counted.
#[derive(Debug, Clone, Copy, PartialEq, Eq, Structural)]
pub enum QuotaType {
    User,
    Group,
    Project,
}

pub open spec fn quota_type_name(t: QuotaType) -> Seq<char> {
    match t {
        QuotaType::User => "User"@,
        QuotaType::Group => "Group"@,
        QuotaType::Project => "Project"@,
    }
}

impl QuotaType {
    pub fn name(&self) -> (r: &'static str)
        ensures
            r@ == quota_type_name(*self),
    {
        match self {
            QuotaType::User => "User",
            QuotaType::Group => "Group",
            QuotaType::Project => "Project",
        }
    }
}

/// The bits of the quota state: use is counted, and limits are enforced, for each type.
pub const FS_QUOTA_UDQ_ACCT: u16 = 1;

pub const FS_QUOTA_UDQ_ENFD: u16 = 2;

pub const FS_QUOTA_GDQ_ACCT: u16 = 4;

pub const FS_QUOTA_GDQ_ENFD: u16 = 8;

pub const FS_QUOTA_PDQ_ACCT: u16 = 16;

pub const FS_QUOTA_PDQ_ENFD: u16 = 32;

/// The bits that tell which fields of a quota are meant.
pub const QIF_BLIMITS: u32 = 1;

pub const QIF_ILIMITS: u32 = 4;

pub const QIF_BTIME: u32 = 16;

pub const QIF_ITIME: u32 = 32;

/// The bits that tell which fields of the general settings are meant.
pub const IIF_BGRACE: u32 = 1;

pub const IIF_IGRACE: u32 = 2;

/// The error of a system call that the kernel does not have.
pub const ENOSYS: i32 = 38;

pub open spec fn acct_bit(t: QuotaType) -> u16 {
    match t {
        QuotaType::User => FS_QUOTA_UDQ_ACCT,
        QuotaType::Group => FS_QUOTA_GDQ_ACCT,
        QuotaType::Project => FS_QUOTA_PDQ_ACCT,
    }
}

pub open spec fn enfd_bit(t: QuotaType) -> u16 {
    match t {
        QuotaType::User => FS_QUOTA_UDQ_ENFD,
        QuotaType::Group => FS_QUOTA_GDQ_ENFD,
        QuotaType::Project => FS_QUOTA_PDQ_ENFD,
    }
}

/// Whether use is counted.
pub fn is_accounting(flags: u16, quota_type: QuotaType) -> (r: bool)
    ensures
        r == (flags & acct_bit(quota_type) == acct_bit(quota_type)),
{
    let bit: u16 = match quota_type {
        QuotaType::User => FS_QUOTA_UDQ_ACCT,
        QuotaType::Group => FS_QUOTA_GDQ_ACCT,
        QuotaType::Project => FS_QUOTA_PDQ_ACCT,
    };
    flags & bit == bit
}

/// Whether limits are enforced.
pub fn is_enforced(flags: u16, quota_type: QuotaType) -> (r: bool)
    ensures
        r == (flags & enfd_bit(quota_type) == enfd_bit(quota_type)),
{
    let bit: u16 = match quota_type {
        QuotaType::User => FS_QUOTA_UDQ_ENFD,
        QuotaType::Group => FS_QUOTA_GDQ_ENFD,
        QuotaType::Project => FS_QUOTA_PDQ_ENFD,
    };
    flags & bit == bit
}

/// An error of the system: its number, and what the system says of it.
#[derive(Debug)]
pub struct SystemError {
    pub errno: i32,
    pub text: String,
}

/// Why a quota operation failed.
#[derive(Debug)]
pub enum Error {
    /// Nothing is mounted there; `source` tells why the path could not be resolved, where
    /// it could not.
    MountEntryNotFound { path: String, source: Option<String> },
    NotSupported { path: String, reason: String },
    QuotaOpFailed { mount_point: String, quota_type: QuotaType, id: i32, source: SystemError },
    QuotaNotEnabled { mount_point: String, quota_type: QuotaType },
    Io(SystemError),
    /// The mounts could not be read.
    ProcError { source: String },
}

/// What is known of the reason why a path could not be resolved.
pub open spec fn source_text(source: Option<String>) -> Seq<char> {
    match source {
        Some(text) => "Some("@ + text@ + ")"@,
        None => "None"@,
    }
}

impl Error {
    pub open spec fn text(&self) -> Seq<char> {
        match self {
            Error::MountEntryNotFound { path, source } => "Failed to find mount entry for '"@ + path@
                + "': "@ + source_text(*source),
            Error::NotSupported { path, reason } => "Not supported filesystem '"@ + path@ + "': "@
                + reason@,
            Error::QuotaOpFailed { mount_point, quota_type, id, source } => {
                "Quota operation failed for "@ + quota_type_name(*quota_type) + " (id: "@
                    + decimal_signed(*id as int) + ") on '"@ + mount_point@ + "': "@ + source.text@
            },
            Error::QuotaNotEnabled { mount_point, quota_type } => "Quota is not enabled for "@
                + quota_type_name(*quota_type) + " on '"@ + mount_point@ + "'"@,
            Error::Io(source) => "Io Error: "@ + source.text@,
            Error::ProcError { source } => "Procfs error: "@ + source@,
        }
    }

    pub fn message(&self) -> (r: String)
        ensures
            r@ == self.text(),
    {
        match self {
            Error::MountEntryNotFound { path, source } => {
                let mut out = join2("Failed to find mount entry for '", path.as_str());
                out.append("': ");
                match source {
                    Some(text) => {
                        let mut shown = join2("Some(", text.as_str());
                        shown.append(")");
                        out.append(shown.as_str());
                    },
                    None => {
                        out.append("None");
                    },
                }
                out
            },
            Error::NotSupported { path, reason } => {
                let mut out = join2("Not supported filesystem '", path.as_str());
                out.append("': ");
                out.append(reason.as_str());
                out
            },
            Error::QuotaOpFailed { mount_point, quota_type, id, source } => {
                let mut out = join2("Quota operation failed for ", quota_type.name());
                out.append(" (id: ");
                out.append(decimal_signed_text(*id as i64).as_str());
                out.append(") on '");
                out.append(mount_point.as_str());
                out.append("': ");
                out.append(source.text.as_str());
                out
            },
            Error::QuotaNotEnabled { mount_point, quota_type } => {
                let mut out = join2("Quota is not enabled for ", quota_type.name());
                out.append(" on '");
                out.append(mount_point.as_str());
                out.append("'");
                out
            },
            Error::Io(source) => join2("Io Error: ", source.text.as_str()),
            Error::ProcError { source } => join2("Procfs error: ", source.as_str()),
        }
    }
}

/// A mount as the system lists it, with its mount point resolved where that is possible.
#[derive(Debug)]
pub struct MountEntry {
    pub canonical: Option<String>,
    pub fs_spec: String,
    pub fs_vfstype: String,
}

pub open spec fn is_entry_at(entry: MountEntry, path: Seq<char>) -> bool {
    entry.canonical matches Some(c) && components(c@) == components(path)
}

/// The first mount at a resolved path.
pub fn find_mount_entry<'a>(entries: &'a Vec<MountEntry>, canonical: &str) -> (r: Option<
    &'a MountEntry,
>)
    ensures
        match r {
            Some(e) => exists|i: int|
                {
                    &&& 0 <= i < entries@.len()
                    &&& *e == entries@[i]
                    &&& #[trigger] is_entry_at(entries@[i], canonical@)
                    &&& forall|j: int| 0 <= j < i ==> !#[trigger] is_entry_at(entries@[j], canonical@)
                },
            None => forall|j: int|
                0 <= j < entries@.len() ==> !#[trigger] is_entry_at(entries@[j], canonical@),
        },
{
    let mut i: usize = 0;
    while i < entries.len()
        invariant
            i <= entries@.len(),
            forall|j: int| 0 <= j < i ==> !#[trigger] is_entry_at(entries@[j], canonical@),
        decreases entries.len() - i,
    {
        if let Some(c) = &entries[i].canonical {
            if same_path(c.as_str(), canonical) {
                assert(is_entry_at(entries@[i as int], canonical@));
                return Some(&entries[i]);
            }
        }
        i += 1;
    }
    None
}

/// What is mounted at a path.
#[derive(Debug)]
pub enum MountLookup<'a> {
    /// The path could not be resolved, for that reason.
    Unresolved(String),
    /// The mounts could not be read, for that reason.
    Unreadable(String),
    /// Nothing is.
    Absent,
    Found(&'a MountEntry),
}

/// What is mounted at a path, given the path resolved and the mounts there are. The
/// mounts are not looked at where the path could not be resolved.
pub fn get_mount_entry_from_path<'a>(
    canonical: Result<String, String>,
    mounts: Result<&'a Vec<MountEntry>, String>,
) -> (r: MountLookup<'a>)
    ensures
        match (canonical, mounts) {
            (Err(text), _) => r == MountLookup::Unresolved(text),
            (Ok(_), Err(text)) => r == MountLookup::Unreadable(text),
            (Ok(path), Ok(entries)) => match r {
                MountLookup::Found(e) => exists|i: int|
                    {
                        &&& 0 <= i < entries@.len()
                        &&& *e == entries@[i]
                        &&& #[trigger] is_entry_at(entries@[i], path@)
                        &&& forall|j: int| 0 <= j < i ==> !#[trigger] is_entry_at(entries@[j], path@)
                    },
                MountLookup::Absent => forall|j: int|
                    0 <= j < entries@.len() ==> !#[trigger] is_entry_at(entries@[j], path@),
                _ => false,
            },
        },
{
    let path = match canonical {
        Ok(path) => path,
        Err(text) => {
            return MountLookup::Unresolved(text);
        },
    };
    let entries = match mounts {
        Ok(entries) => entries,
        Err(text) => {
            return MountLookup::Unreadable(text);
        },
    };
    match find_mount_entry(entries, path.as_str()) {
        Some(e) => MountLookup::Found(e),
        None => MountLookup::Absent,
    }
}

/// Quota of one type on one file system.
#[derive(Debug)]
pub struct Ext4Quota {
    mount_point: String,
    device_path: String,
    quota_type: QuotaType,
}

/// An operation that failed: the kernel does not have it, or it went wrong.
pub open spec fn status_error(
    mount_point: Seq<char>,
    quota_type: QuotaType,
    error: SystemError,
    e: Error,
) -> bool {
    if error.errno == ENOSYS {
        &&& e matches Error::NotSupported { path, reason }
        &&& path@ == mount_point
        &&& reason@ == "Legacy quota is not supported"@
    } else {
        &&& e matches Error::QuotaOpFailed { mount_point: m, quota_type: t, id, source }
        &&& m@ == mount_point
        &&& t == quota_type
        &&& id == 0
        &&& source == error
    }
}

fn legacy_error(mount_point: &String) -> (r: Error)
    ensures
        r matches Error::NotSupported { path, reason } && path@ == mount_point@ && reason@
            == "Legacy quota is not supported"@,
{
    Error::NotSupported {
        path: mount_point.clone(),
        reason: "Legacy quota is not supported".to_owned(),
    }
}

/// The settings that hold for all ids of a type.
#[derive(Debug, Clone, Copy, PartialEq, Eq, Structural)]
pub struct DqInfo {
    pub dqi_bgrace: u64,
    pub dqi_igrace: u64,
    pub dqi_flags: u32,
    pub dqi_valid: u32,
}

/// The limits and the use of one id.
#[derive(Debug, Clone, Copy, PartialEq, Eq, Structural)]
pub struct DqBlk {
    pub dqb_bhardlimit: u64,
    pub dqb_bsoftlimit: u64,
    pub dqb_curspace: u64,
    pub dqb_ihardlimit: u64,
    pub dqb_isoftlimit: u64,
    pub dqb_curinodes: u64,
    pub dqb_btime: u64,
    pub dqb_itime: u64,
    pub dqb_valid: u32,
}

pub open spec fn blank_quota() -> DqBlk {
    DqBlk {
        dqb_bhardlimit: 0,
        dqb_bsoftlimit: 0,
        dqb_curspace: 0,
        dqb_ihardlimit: 0,
        dqb_isoftlimit: 0,
        dqb_curinodes: 0,
        dqb_btime: 0,
        dqb_itime: 0,
        dqb_valid: 0,
    }
}

impl Default for DqBlk {
    fn default() -> (r: Self)
        ensures
            r == blank_quota(),
    {
        DqBlk {
            dqb_bhardlimit: 0,
            dqb_bsoftlimit: 0,
            dqb_curspace: 0,
            dqb_ihardlimit: 0,
            dqb_isoftlimit: 0,
            dqb_curinodes: 0,
            dqb_btime: 0,
            dqb_itime: 0,
            dqb_valid: 0,
        }
    }
}

impl Ext4Quota {
    pub closed spec fn mount_point_spec(&self) -> Seq<char> {
        self.mount_point@
    }

    pub closed spec fn device_spec(&self) -> Seq<char> {
        self.device_path@
    }

    pub closed spec fn type_spec(&self) -> QuotaType {
        self.quota_type
    }

    /// The file system to ask for its quota: what is mounted there must be ext4.
    pub fn candidate(mount_point: &str, mount: MountLookup<'_>, quota_type: QuotaType) -> (r: Result<
        Self,
        Error,
    >)
        ensures
            match mount {
                MountLookup::Unresolved(text) => r matches Err(
                    Error::MountEntryNotFound { path, source },
                ) && path@ == mount_point@ && source == Some(text),
                MountLookup::Unreadable(text) => r matches Err(Error::ProcError { source })
                    && source == text,
                MountLookup::Absent => r matches Err(Error::MountEntryNotFound { path, source })
                    && path@ == mount_point@ && source is None,
                MountLookup::Found(e) => if e.fs_vfstype@ == "ext4"@ {
                    &&& r matches Ok(q)
                    &&& q.mount_point_spec() == mount_point@
                    &&& q.device_spec() == e.fs_spec@
                    &&& q.type_spec() == quota_type
                } else {
                    &&& r matches Err(Error::NotSupported { path, reason })
                    &&& path@ == mount_point@
                    &&& reason@ == "Unsupported filesystem type: "@ + e.fs_vfstype@
                },
            },
    {
        match mount {
            MountLookup::Unresolved(text) => Err(
                Error::MountEntryNotFound { path: mount_point.to_owned(), source: Some(text) },
            ),
            MountLookup::Unreadable(text) => Err(Error::ProcError { source: text }),
            MountLookup::Absent => Err(
                Error::MountEntryNotFound { path: mount_point.to_owned(), source: None },
            ),
            MountLookup::Found(e) => {
                if !is_same(e.fs_vfstype.as_str(), "ext4") {
                    return Err(
                        Error::NotSupported {
                            path: mount_point.to_owned(),
                            reason: join2("Unsupported filesystem type: ", e.fs_vfstype.as_str()),
                        },
                    );
                }
                Ok(
                    Ext4Quota {
                        mount_point: mount_point.to_owned(),
                        device_path: e.fs_spec.clone(),
                        quota_type,
                    },
                )
            },
        }
    }

    /// The quota of a candidate, by what the system says of its state: use must be
    /// counted.
    pub fn new(candidate: Ext4Quota, status: Result<u16, SystemError>) -> (r: Result<Self, Error>)
        ensures
            match status {
                Err(error) => r matches Err(e) && status_error(
                    candidate.mount_point_spec(),
                    candidate.type_spec(),
                    error,
                    e,
                ),
                Ok(flags) => if flags & acct_bit(candidate.type_spec()) == acct_bit(
                    candidate.type_spec(),
                ) {
                    r == Ok::<Self, Error>(candidate)
                } else {
                    &&& r matches Err(Error::QuotaNotEnabled { mount_point, quota_type })
                    &&& mount_point@ == candidate.mount_point_spec()
                    &&& quota_type == candidate.type_spec()
                },
            },
    {
        match candidate.is_accounting(status) {
            Err(e) => Err(e),
            Ok(true) => Ok(candidate),
            Ok(false) => Err(
                Error::QuotaNotEnabled {
                    mount_point: candidate.mount_point.clone(),
                    quota_type: candidate.quota_type,
                },
            ),
        }
    }

    fn get_status(&self, status: Result<u16, SystemError>) -> (r: Result<u16, Error>)
        ensures
            match status {
                Ok(flags) => r == Ok::<u16, Error>(flags),
                Err(error) => r matches Err(e) && status_error(
                    self.mount_point_spec(),
                    self.type_spec(),
                    error,
                    e,
                ),
            },
    {
        match status {
            Ok(flags) => Ok(flags),
            Err(error) => if error.errno == ENOSYS {
                Err(legacy_error(&self.mount_point))
            } else {
                Err(
                    Error::QuotaOpFailed {
                        mount_point: self.mount_point.clone(),
                        quota_type: self.quota_type,
                        id: 0,
                        source: error,
                    },
                )
            },
        }
    }

    /// Whether limits are enforced, by what the system says of the state.
    pub fn is_enforced(&self, status: Result<u16, SystemError>) -> (r: Result<bool, Error>)
        ensures
            match status {
                Ok(flags) => r == Ok::<bool, Error>(
                    flags & enfd_bit(self.type_spec()) == enfd_bit(self.type_spec()),
                ),
                Err(error) => r matches Err(e) && status_error(
                    self.mount_point_spec(),
                    self.type_spec(),
                    error,
                    e,
                ),
            },
    {
        match self.get_status(status) {
            Ok(flags) => Ok(is_enforced(flags, self.quota_type)),
            Err(e) => Err(e),
        }
    }

    /// Whether use is counted, by what the system says of the state.
    pub fn is_accounting(&self, status: Result<u16, SystemError>) -> (r: Result<bool, Error>)
        ensures
            match status {
                Ok(flags) => r == Ok::<bool, Error>(
                    flags & acct_bit(self.type_spec()) == acct_bit(self.type_spec()),
                ),
                Err(error) => r matches Err(e) && status_error(
                    self.mount_point_spec(),
                    self.type_spec(),
                    error,
                    e,
                ),
            },
    {
        match self.get_status(status) {
            Ok(flags) => Ok(is_accounting(flags, self.quota_type)),
            Err(e) => Err(e),
        }
    }

    /// Whether enforcement has to be switched on: not where it is on already.
    pub fn enforce(&self, status: Result<u16, SystemError>) -> (r: Result<bool, Error>)
        ensures
            match status {
                Ok(flags) => r == Ok::<bool, Error>(
                    flags & enfd_bit(self.type_spec()) != enfd_bit(self.type_spec()),
                ),
                Err(error) => r matches Err(e) && status_error(
                    self.mount_point_spec(),
                    self.type_spec(),
                    error,
                    e,
                ),
            },
    {
        match self.is_enforced(status) {
            Ok(enforced) => Ok(!enforced),
            Err(e) => Err(e),
        }
    }

    /// Whether enforcement has to be switched off: not where it is off already.
    pub fn unenforce(&self, status: Result<u16, SystemError>) -> (r: Result<bool, Error>)
        ensures
            match status {
                Ok(flags) => r == Ok::<bool, Error>(
                    flags & enfd_bit(self.type_spec()) == enfd_bit(self.type_spec()),
                ),
                Err(error) => r matches Err(e) && status_error(
                    self.mount_point_spec(),
                    self.type_spec(),
                    error,
                    e,
                ),
            },
    {
        self.is_enforced(status)
    }

    /// What came of switching enforcement on or off.
    pub fn switched(&self, outcome: Result<(), SystemError>) -> (r: Result<(), Error>)
        ensures
            match outcome {
                Ok(_) => r == Ok::<(), Error>(()),
                Err(error) => if error.errno == ENOSYS {
                    &&& r matches Err(Error::NotSupported { path, reason })
                    &&& path@ == self.mount_point_spec()
                    &&& reason@ == "Legacy quota is not supported"@
                } else {
                    r == Err::<(), Error>(Error::Io(error))
                },
            },
    {
        match outcome {
            Ok(()) => Ok(()),
            Err(error) => if error.errno == ENOSYS {
                Err(legacy_error(&self.mount_point))
            } else {
                Err(Error::Io(error))
            },
        }
    }

    /// What sets the time for which a soft limit on space may be exceeded.
    pub fn set_block_grace(&self, seconds: u64) -> (r: DqInfo)
        ensures
            r == (DqInfo {
                dqi_bgrace: seconds,
                dqi_igrace: 0,
                dqi_flags: 0,
                dqi_valid: IIF_BGRACE,
            }),
    {
        DqInfo { dqi_bgrace: seconds, dqi_igrace: 0, dqi_flags: 0, dqi_valid: IIF_BGRACE }
    }

    /// What sets the time for which a soft limit on files may be exceeded.
    pub fn set_inode_grace(&self, seconds: u64) -> (r: DqInfo)
        ensures
            r == (DqInfo {
                dqi_bgrace: 0,
                dqi_igrace: seconds,
                dqi_flags: 0,
                dqi_valid: IIF_IGRACE,
            }),
    {
        DqInfo { dqi_bgrace: 0, dqi_igrace: seconds, dqi_flags: 0, dqi_valid: IIF_IGRACE }
    }

    /// The error of an operation on the general settings.
    pub fn info_error(&self, error: SystemError) -> (r: Error)
        ensures
            r matches Error::QuotaOpFailed { mount_point, quota_type, id, source } && mount_point@
                == self.mount_point_spec() && quota_type == self.type_spec() && id == 0 && source
                == error,
    {
        Error::QuotaOpFailed {
            mount_point: self.mount_point.clone(),
            quota_type: self.quota_type,
            id: 0,
            source: error,
        }
    }

    /// The seconds for which a soft limit on space may be exceeded.
    pub fn get_block_grace(&self, info: Result<DqInfo, SystemError>) -> (r: Result<u64, Error>)
        ensures
            match info {
                Ok(i) => r == Ok::<u64, Error>(i.dqi_bgrace),
                Err(error) => r matches Err(Error::QuotaOpFailed { mount_point, quota_type, id, source })
                    && mount_point@ == self.mount_point_spec() && quota_type == self.type_spec()
                    && id == 0 && source == error,
            },
    {
        match info {
            Ok(i) => Ok(i.dqi_bgrace),
            Err(error) => Err(self.info_error(error)),
        }
    }

    /// The seconds for which a soft limit on files may be exceeded.
    pub fn get_inode_grace(&self, info: Result<DqInfo, SystemError>) -> (r: Result<u64, Error>)
        ensures
            match info {
                Ok(i) => r == Ok::<u64, Error>(i.dqi_igrace),
                Err(error) => r matches Err(Error::QuotaOpFailed { mount_point, quota_type, id, source })
                    && mount_point@ == self.mount_point_spec() && quota_type == self.type_spec()
                    && id == 0 && source == error,
            },
    {
        match info {
            Ok(i) => Ok(i.dqi_igrace),
            Err(error) => Err(self.info_error(error)),
        }
    }

    pub fn mount_point(&self) -> (r: &str)
        ensures
            r@ == self.mount_point_spec(),
    {
        self.mount_point.as_str()
    }

    pub fn device_path(&self) -> (r: &str)
        ensures
            r@ == self.device_spec(),
    {
        self.device_path.as_str()
    }

    pub fn quota_type(&self) -> (r: QuotaType)
        ensures
            r == self.type_spec(),
    {
        self.quota_type
    }

    /// The quota of one id.
    pub fn entry(&self, id: i32) -> (r: Ext4QuotaEntry)
        ensures
            r.mount_point_spec() == self.mount_point_spec(),
            r.device_spec() == self.device_spec(),
            r.type_spec() == self.type_spec(),
            r.id_spec() == id,
    {
        Ext4QuotaEntry {
            mount_point: self.mount_point.clone(),
            device_path: self.device_path.clone(),
            quota_type: self.quota_type,
            id,
        }
    }
}

/// The quota of one user, group or project.
#[derive(Debug)]
pub struct Ext4QuotaEntry {
    mount_point: String,
    device_path: String,
    quota_type: QuotaType,
    id: i32,
}

/// A limit as it is shown: a dash where it is not known.
pub open spec fn limit_text(known: bool, limit: u64) -> Seq<char> {
    if known {
        decimal(limit as nat)
    } else {
        "-"@
    }
}

fn shown_limit(known: bool, limit: u64) -> (r: String)
    ensures
        r@ == limit_text(known, limit),
{
    if known {
        decimal_text(limit)
    } else {
        "-".to_owned()
    }
}

impl Ext4QuotaEntry {
    pub closed spec fn mount_point_spec(&self) -> Seq<char> {
        self.mount_point@
    }

    pub closed spec fn device_spec(&self) -> Seq<char> {
        self.device_path@
    }

    pub closed spec fn type_spec(&self) -> QuotaType {
        self.quota_type
    }

    pub closed spec fn id_spec(&self) -> i32 {
        self.id
    }

    /// The error of an operation on this quota.
    pub open spec fn is_own_error(&self, error: SystemError, e: Error) -> bool {
        &&& e matches Error::QuotaOpFailed { mount_point, quota_type, id, source }
        &&& mount_point@ == self.mount_point_spec()
        &&& quota_type == self.type_spec()
        &&& id == self.id_spec()
        &&& source == error
    }

    pub fn op_error(&self, error: SystemError) -> (r: Error)
        ensures
            self.is_own_error(error, r),
    {
        Error::QuotaOpFailed {
            mount_point: self.mount_point.clone(),
            quota_type: self.quota_type,
            id: self.id,
            source: error,
        }
    }

    /// What sets the limits on space, in kilobytes.
    pub fn set_block_limits(&self, soft_limit_kb: u64, hard_limit_kb: u64) -> (r: DqBlk)
        ensures
            r == (DqBlk {
                dqb_bhardlimit: hard_limit_kb,
                dqb_bsoftlimit: soft_limit_kb,
                dqb_valid: QIF_BLIMITS,
                ..blank_quota()
            }),
    {
        let blank = DqBlk::default();
        DqBlk {
            dqb_bhardlimit: hard_limit_kb,
            dqb_bsoftlimit: soft_limit_kb,
            dqb_valid: QIF_BLIMITS,
            ..blank
        }
    }

    /// What sets the limits on the number of files.
    pub fn set_inode_limits(&self, soft_limit_count: u64, hard_limit_count: u64) -> (r: DqBlk)
        ensures
            r == (DqBlk {
                dqb_isoftlimit: soft_limit_count,
                dqb_ihardlimit: hard_limit_count,
                dqb_valid: QIF_ILIMITS,
                ..blank_quota()
            }),
    {
        let blank = DqBlk::default();
        DqBlk {
            dqb_isoftlimit: soft_limit_count,
            dqb_ihardlimit: hard_limit_count,
            dqb_valid: QIF_ILIMITS,
            ..blank
        }
    }

    /// What sets the timer on space.
    pub fn set_btime(&self, seconds: u64) -> (r: DqBlk)
        ensures
            r == (DqBlk { dqb_btime: seconds, dqb_valid: QIF_BTIME, ..blank_quota() }),
    {
        let blank = DqBlk::default();
        DqBlk { dqb_btime: seconds, dqb_valid: QIF_BTIME, ..blank }
    }

    /// What sets the timer on files.
    pub fn set_itime(&self, seconds: u64) -> (r: DqBlk)
        ensures
            r == (DqBlk { dqb_itime: seconds, dqb_valid: QIF_ITIME, ..blank_quota() }),
    {
        let blank = DqBlk::default();
        DqBlk { dqb_itime: seconds, dqb_valid: QIF_ITIME, ..blank }
    }

    /// The quota as the system tells it.
    pub fn get_quota(&self, quota: Result<DqBlk, SystemError>) -> (r: Result<DqBlk, Error>)
        ensures
            match quota {
                Ok(q) => r == Ok::<DqBlk, Error>(q),
                Err(error) => r matches Err(e) && self.is_own_error(error, e),
            },
    {
        match quota {
            Ok(q) => Ok(q),
            Err(error) => Err(self.op_error(error)),
        }
    }

    pub fn get_btime(&self, quota: Result<DqBlk, SystemError>) -> (r: Result<u64, Error>)
        ensures
            match quota {
                Ok(q) => r == Ok::<u64, Error>(q.dqb_btime),
                Err(error) => r matches Err(e) && self.is_own_error(error, e),
            },
    {
        match self.get_quota(quota) {
            Ok(q) => Ok(q.dqb_btime),
            Err(e) => Err(e),
        }
    }

    pub fn get_itime(&self, quota: Result<DqBlk, SystemError>) -> (r: Result<u64, Error>)
        ensures
            match quota {
                Ok(q) => r == Ok::<u64, Error>(q.dqb_itime),
                Err(error) => r matches Err(e) && self.is_own_error(error, e),
            },
    {
        match self.get_quota(quota) {
            Ok(q) => Ok(q.dqb_itime),
            Err(e) => Err(e),
        }
    }

    /// The soft and the hard limit on space, in kilobytes.
    pub fn get_block_limit(&self, quota: Result<DqBlk, SystemError>) -> (r: Result<(u64, u64), Error>)
        ensures
            match quota {
                Ok(q) => r == Ok::<(u64, u64), Error>((q.dqb_bsoftlimit, q.dqb_bhardlimit)),
                Err(error) => r matches Err(e) && self.is_own_error(error, e),
            },
    {
        match self.get_quota(quota) {
            Ok(q) => Ok((q.dqb_bsoftlimit, q.dqb_bhardlimit)),
            Err(e) => Err(e),
        }
    }

    /// The soft and the hard limit on the number of files.
    pub fn get_inode_limit(&self, quota: Result<DqBlk, SystemError>) -> (r: Result<(u64, u64), Error>)
        ensures
            match quota {
                Ok(q) => r == Ok::<(u64, u64), Error>((q.dqb_isoftlimit, q.dqb_ihardlimit)),
                Err(error) => r matches Err(e) && self.is_own_error(error, e),
            },
    {
        match self.get_quota(quota) {
            Ok(q) => Ok((q.dqb_isoftlimit, q.dqb_ihardlimit)),
            Err(e) => Err(e),
        }
    }

    /// The space in use, in bytes.
    pub fn get_curspace(&self, quota: Result<DqBlk, SystemError>) -> (r: Result<u64, Error>)
        ensures
            match quota {
                Ok(q) => r == Ok::<u64, Error>(q.dqb_curspace),
                Err(error) => r matches Err(e) && self.is_own_error(error, e),
            },
    {
        match self.get_quota(quota) {
            Ok(q) => Ok(q.dqb_curspace),
            Err(e) => Err(e),
        }
    }

    /// The number of files in use.
    pub fn get_curinodes(&self, quota: Result<DqBlk, SystemError>) -> (r: Result<u64, Error>)
        ensures
            match quota {
                Ok(q) => r == Ok::<u64, Error>(q.dqb_curinodes),
                Err(error) => r matches Err(e) && self.is_own_error(error, e),
            },
    {
        match self.get_quota(quota) {
            Ok(q) => Ok(q.dqb_curinodes),
            Err(e) => Err(e),
        }
    }

    pub fn id(&self) -> (r: i32)
        ensures
            r == self.id_spec(),
    {
        self.id
    }

    pub fn mount_point(&self) -> (r: &str)
        ensures
            r@ == self.mount_point_spec(),
    {
        self.mount_point.as_str()
    }

    pub fn device_path(&self) -> (r: &str)
        ensures
            r@ == self.device_spec(),
    {
        self.device_path.as_str()
    }

    pub fn quota_type(&self) -> (r: QuotaType)
        ensures
            r == self.type_spec(),
    {
        self.quota_type
    }

    /// The quota in words; limits that the system does not tell are shown as dashes.
    pub open spec fn text(&self, quota: Option<DqBlk>) -> Seq<char> {
        let q = match quota {
            Some(q) => q,
            None => blank_quota(),
        };
        let blocks = q.dqb_valid & QIF_BLIMITS == QIF_BLIMITS;
        let inodes = q.dqb_valid & QIF_ILIMITS == QIF_ILIMITS;
        "Ext4QuotaEntry { mount_point: "@ + self.mount_point_spec() + ", quota_type: "@
            + quota_type_name(self.type_spec()) + ", id: "@ + decimal_signed(self.id_spec() as int)
            + ", block_soft: "@ + limit_text(blocks, q.dqb_bsoftlimit) + ", block_hard: "@
            + limit_text(blocks, q.dqb_bhardlimit) + ", inode_soft: "@ + limit_text(
            inodes,
            q.dqb_isoftlimit,
        ) + ", inode_hard: "@ + limit_text(inodes, q.dqb_ihardlimit) + " }"@
    }

    pub fn to_text(&self, quota: Option<DqBlk>) -> (r: String)
        ensures
            r@ == self.text(quota),
    {
        let q = match quota {
            Some(q) => q,
            None => {
                let blank = DqBlk::default();
                blank
            },
        };
        let blocks = q.dqb_valid & QIF_BLIMITS == QIF_BLIMITS;
        let inodes = q.dqb_valid & QIF_ILIMITS == QIF_ILIMITS;
        let mut out = join2("Ext4QuotaEntry { mount_point: ", self.mount_point.as_str());
        out.append(", quota_type: ");
        out.append(self.quota_type.name());
        out.append(", id: ");
        out.append(decimal_signed_text(self.id as i64).as_str());
        out.append(", block_soft: ");
        out.append(shown_limit(blocks, q.dqb_bsoftlimit).as_str());
        out.append(", block_hard: ");
        out.append(shown_limit(blocks, q.dqb_bhardlimit).as_str());
        out.append(", inode_soft: ");
        out.append(shown_limit(inodes, q.dqb_isoftlimit).as_str());
        out.append(", inode_hard: ");
        out.append(shown_limit(inodes, q.dqb_ihardlimit).as_str());
        out.append(" }");
        out
    }
}

/// Switching is idempotent: with enforcement on it need not be switched on, and with it
/// off it need not be switched off.
pub proof fn law_switching_is_idempotent(flags: u16, t: QuotaType)
    ensures
        ((flags | enfd_bit(t)) & enfd_bit(t)) == enfd_bit(t),
        ((flags & !enfd_bit(t)) & enfd_bit(t)) != enfd_bit(t),
{
    let b = enfd_bit(t);
    assert((flags | b) & b == b) by (bit_vector);
    assert((flags & !b) & b == 0) by (bit_vector);
}

/// A quota that has no known limits shows dashes for all of them.
pub proof fn law_unknown_limits_are_dashes(entry: Ext4QuotaEntry)
    ensures
        entry.text(None) == "Ext4QuotaEntry { mount_point: "@ + entry.mount_point_spec()
            + ", quota_type: "@ + quota_type_name(entry.type_spec()) + ", id: "@ + decimal_signed(
            entry.id_spec() as int,
        ) + ", block_soft: "@ + "-"@ + ", block_hard: "@ + "-"@ + ", inode_soft: "@ + "-"@
            + ", inode_hard: "@ + "-"@ + " }"@,
{
    assert(0u32 & 1u32 == 0) by (bit_vector);
    assert(0u32 & 4u32 == 0) by (bit_vector);
}

/// The bits by which the kernel tells that use is counted, or limits are enforced, for each
/// kind of quota; no two kinds share one.
pub proof fn law_bits_of_the_kernel()
    ensures
        acct_bit(QuotaType::User) == 1,
        enfd_bit(QuotaType::User) == 2,
        acct_bit(QuotaType::Group) == 4,
        enfd_bit(QuotaType::Group) == 8,
        acct_bit(QuotaType::Project) == 16,
        enfd_bit(QuotaType::Project) == 32,
        QIF_BLIMITS == 1,
        QIF_ILIMITS == 4,
        QIF_BTIME == 16,
        QIF_ITIME == 32,
        IIF_BGRACE == 1,
        IIF_IGRACE == 2,
{
}

/// An operation that the kernel does not have is told as such; any other failure is told with
/// its source.
pub proof fn law_failed_operations(
    mount_point: Seq<char>,
    quota_type: QuotaType,
    error: SystemError,
    e: Error,
)
    requires
        status_error(mount_point, quota_type, error, e),
    ensures
        error.errno == 38 <==> e is NotSupported,
        error.errno != 38 <==> e is QuotaOpFailed,
        e matches Error::NotSupported { path, reason } ==> path@ == mount_point && reason@
            == "Legacy quota is not supported"@,
        e matches Error::QuotaOpFailed { mount_point: m, quota_type: t, id, source } ==> m@
            == mount_point && t == quota_type && id == 0 && source == error,
{
}

/// Limits are shown for what they are: soft before hard, space before files, and each only
/// where it is known.
pub proof fn law_limits_are_shown(entry: Ext4QuotaEntry, q: DqBlk)
    requires
        q.dqb_valid == 5,
    ensures
        entry.text(Some(q)) == "Ext4QuotaEntry { mount_point: "@ + entry.mount_point_spec()
            + ", quota_type: "@ + quota_type_name(entry.type_spec()) + ", id: "@ + decimal_signed(
            entry.id_spec() as int,
        ) + ", block_soft: "@ + decimal(q.dqb_bsoftlimit as nat) + ", block_hard: "@ + decimal(
            q.dqb_bhardlimit as nat,
        ) + ", inode_soft: "@ + decimal(q.dqb_isoftlimit as nat) + ", inode_hard: "@ + decimal(
            q.dqb_ihardlimit as nat,
        ) + " }"@,
        quota_type_name(QuotaType::User) == "User"@,
        quota_type_name(QuotaType::Group) == "Group"@,
        quota_type_name(QuotaType::Project) == "Project"@,
{
    assert(5u32 & 1u32 == 1) by (bit_vector);
    assert(5u32 & 4u32 == 4) by (bit_vector);
}

/// A mount is found at a path if it leads to the same place, however either is written; one
/// whose place is not known is not found.
pub proof fn law_mount_at_a_path(entry: MountEntry, path: Seq<char>)
    ensures
        entry.canonical is None ==> !is_entry_at(entry, path),
        entry.canonical matches Some(c) && c@ == path ==> is_entry_at(entry, path),
        entry.canonical matches Some(c) && components(c@) != components(path) ==> !is_entry_at(
            entry,
            path,
        ),
{
}

/// Limits that nobody set are no limits, and nothing of them is valid.
pub proof fn law_blank_limits()
    ensures
        ({
            let q = blank_quota();
            &&& q.dqb_bhardlimit == 0 && q.dqb_bsoftlimit == 0
            &&& q.dqb_ihardlimit == 0 && q.dqb_isoftlimit == 0
            &&& q.dqb_curspace == 0 && q.dqb_curinodes == 0
            &&& q.dqb_btime == 0 && q.dqb_itime == 0
            &&& q.dqb_valid == 0
        }),
{
}

} // verus!
