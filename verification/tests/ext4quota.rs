use ssamd::ext4quota::{
    find_mount_entry, get_mount_entry_from_path, is_accounting, is_enforced, DqBlk, DqInfo, Error,
    Ext4Quota, MountEntry, MountLookup, QuotaType, SystemError, ENOSYS, FS_QUOTA_GDQ_ENFD,
    FS_QUOTA_PDQ_ACCT, FS_QUOTA_PDQ_ENFD, IIF_BGRACE, IIF_IGRACE, QIF_BLIMITS, QIF_BTIME,
    QIF_ILIMITS, QIF_ITIME,
};

fn os_error(errno: i32) -> SystemError {
    SystemError { errno, text: std::io::Error::from_raw_os_error(errno).to_string() }
}

fn mount(canonical: Option<&str>, spec: &str, fs: &str) -> MountEntry {
    MountEntry {
        canonical: canonical.map(str::to_string),
        fs_spec: spec.to_string(),
        fs_vfstype: fs.to_string(),
    }
}

fn quota() -> Ext4Quota {
    let entry = mount(Some("/data"), "/dev/sda1", "ext4");
    let candidate =
        Ext4Quota::candidate("/data", MountLookup::Found(&entry), QuotaType::Project).unwrap();
    Ext4Quota::new(candidate, Ok(FS_QUOTA_PDQ_ACCT)).unwrap()
}

#[test]
fn flags_tell_what_is_on() {
    assert!(is_accounting(FS_QUOTA_PDQ_ACCT, QuotaType::Project));
    assert!(!is_accounting(FS_QUOTA_PDQ_ACCT, QuotaType::User));
    assert!(is_enforced(FS_QUOTA_GDQ_ENFD | FS_QUOTA_PDQ_ACCT, QuotaType::Group));
    assert!(!is_enforced(FS_QUOTA_PDQ_ACCT, QuotaType::Project));
}

#[test]
fn the_mount_at_a_path_is_the_first_there() {
    let entries = vec![
        mount(None, "none", "proc"),
        mount(Some("/data"), "/dev/sda1", "ext4"),
        mount(Some("/data/"), "/dev/sda2", "ext4"),
    ];
    assert_eq!(find_mount_entry(&entries, "/data").unwrap().fs_spec, "/dev/sda1");
    assert!(find_mount_entry(&entries, "/dat").is_none());
}

#[test]
fn quota_needs_an_ext4_that_counts() {
    let refused = |mount| Ext4Quota::candidate("/x", mount, QuotaType::User).unwrap_err().message();
    let entries = vec![mount(Some("/x"), "/dev/sdb", "xfs")];
    let no_such_file = std::io::Error::from_raw_os_error(2);
    let lookup =
        get_mount_entry_from_path(Err(format!("{no_such_file:?}")), Err("ignored".to_string()));
    assert_eq!(
        refused(lookup),
        format!("Failed to find mount entry for '/x': {:?}", Some(no_such_file))
    );
    let lookup = get_mount_entry_from_path(Ok("/x".to_string()), Err("denied".to_string()));
    assert_eq!(refused(lookup), "Procfs error: denied");
    let lookup = get_mount_entry_from_path(Ok("/y".to_string()), Ok(&entries));
    assert_eq!(refused(lookup), "Failed to find mount entry for '/x': None");
    let lookup = get_mount_entry_from_path(Ok("/x".to_string()), Ok(&entries));
    assert_eq!(
        refused(lookup),
        "Not supported filesystem '/x': Unsupported filesystem type: xfs"
    );

    let ext4 = mount(Some("/x"), "/dev/sdb", "ext4");
    let candidate =
        || Ext4Quota::candidate("/x", MountLookup::Found(&ext4), QuotaType::Group).unwrap();
    let error = Ext4Quota::new(candidate(), Ok(0)).unwrap_err();
    assert_eq!(error.message(), "Quota is not enabled for Group on '/x'");
    let error = Ext4Quota::new(candidate(), Err(os_error(ENOSYS))).unwrap_err();
    assert_eq!(error.message(), "Not supported filesystem '/x': Legacy quota is not supported");
    let error = Ext4Quota::new(candidate(), Err(os_error(1))).unwrap_err();
    assert_eq!(error.message(), "Quota operation failed for Group (id: 0) on '/x': Operation not permitted (os error 1)");
}

#[test]
fn enforcement_is_switched_where_it_has_to_be() {
    let quota = quota();
    let on = || Ok(FS_QUOTA_PDQ_ACCT | FS_QUOTA_PDQ_ENFD);
    let off = || Ok(FS_QUOTA_PDQ_ACCT);
    assert!(!quota.enforce(on()).unwrap());
    assert!(quota.enforce(off()).unwrap());
    assert!(quota.unenforce(on()).unwrap());
    assert!(!quota.unenforce(off()).unwrap());
    assert!(quota.is_accounting(on()).unwrap());
    assert!(quota.is_enforced(Err(os_error(5))).is_err());
    assert!(quota.switched(Ok(())).is_ok());
    assert!(matches!(quota.switched(Err(os_error(ENOSYS))), Err(Error::NotSupported { .. })));
    assert_eq!(quota.switched(Err(os_error(5))).unwrap_err().message(), "Io Error: Input/output error (os error 5)");
}

#[test]
fn grace_times_are_set_one_by_one() {
    let quota = quota();
    let info = quota.set_block_grace(60);
    assert_eq!((info.dqi_bgrace, info.dqi_valid), (60, IIF_BGRACE));
    let info = quota.set_inode_grace(70);
    assert_eq!((info.dqi_igrace, info.dqi_valid), (70, IIF_IGRACE));
    let read = DqInfo { dqi_bgrace: 1, dqi_igrace: 2, dqi_flags: 0, dqi_valid: 3 };
    assert_eq!(quota.get_block_grace(Ok(read)).unwrap(), 1);
    assert_eq!(quota.get_inode_grace(Ok(read)).unwrap(), 2);
    assert!(quota.get_inode_grace(Err(os_error(5))).is_err());
}

#[test]
fn limits_are_set_and_read() {
    let entry = quota().entry(42);
    assert_eq!(entry.id(), 42);
    assert_eq!(entry.device_path(), "/dev/sda1");
    let set = entry.set_block_limits(10, 20);
    assert_eq!((set.dqb_bsoftlimit, set.dqb_bhardlimit, set.dqb_valid), (10, 20, QIF_BLIMITS));
    let set = entry.set_inode_limits(3, 4);
    assert_eq!((set.dqb_isoftlimit, set.dqb_ihardlimit, set.dqb_valid), (3, 4, QIF_ILIMITS));
    let set = entry.set_btime(5);
    assert_eq!((set.dqb_btime, set.dqb_valid), (5, QIF_BTIME));
    let set = entry.set_itime(6);
    assert_eq!((set.dqb_itime, set.dqb_valid), (6, QIF_ITIME));

    let read = DqBlk {
        dqb_bsoftlimit: 1,
        dqb_bhardlimit: 2,
        dqb_isoftlimit: 3,
        dqb_ihardlimit: 4,
        dqb_curspace: 5,
        dqb_curinodes: 6,
        dqb_btime: 7,
        dqb_itime: 8,
        dqb_valid: 0,
    };
    assert_eq!(entry.get_block_limit(Ok(read)).unwrap(), (1, 2));
    assert_eq!(entry.get_inode_limit(Ok(read)).unwrap(), (3, 4));
    assert_eq!(entry.get_curspace(Ok(read)).unwrap(), 5);
    assert_eq!(entry.get_curinodes(Ok(read)).unwrap(), 6);
    assert_eq!(entry.get_btime(Ok(read)).unwrap(), 7);
    assert_eq!(entry.get_itime(Ok(read)).unwrap(), 8);
    assert_eq!(
        entry.get_quota(Err(os_error(3))).unwrap_err().message(),
        "Quota operation failed for Project (id: 42) on '/data': No such process (os error 3)"
    );
}

#[test]
fn a_quota_is_shown_with_the_limits_that_are_known() {
    let entry = quota().entry(-1);
    let mut read = entry.set_block_limits(10, 20);
    assert_eq!(
        entry.to_text(Some(read)),
        "Ext4QuotaEntry { mount_point: /data, quota_type: Project, id: -1, block_soft: 10, \
         block_hard: 20, inode_soft: -, inode_hard: - }"
    );
    read.dqb_valid = QIF_BLIMITS | QIF_ILIMITS;
    assert!(entry.to_text(Some(read)).ends_with("inode_soft: 0, inode_hard: 0 }"));
    assert_eq!(
        entry.to_text(None),
        "Ext4QuotaEntry { mount_point: /data, quota_type: Project, id: -1, block_soft: -, \
         block_hard: -, inode_soft: -, inode_hard: - }"
    );
}
