use ssamd::mount::{
    attach_request, base_mount_plan, build_overlay_options, escape_overlay_opt, findmnt_impl,
    is_exact_mount, loop_attach_next, loop_info, mount_device_next, mount_pkgfs_next,
    mount_source, overlay_plan, unmount_first, unmount_next, verity_name, AttachDecision,
    AttachOutcome, AttachRetry, DeviceStep, FindmntError, LoopAttachStep, LoopInfo, MountPoint,
    PkgfsEvent, PkgfsStep, UnmountStep, LO_FLAGS_READ_ONLY,
};
use ssamd::package_volume::PackageFsMetadata;

#[test]
fn attach_opens_backing_file_and_passes_expected_loop_config() {
    let info = loop_info(4096, 8192);
    assert_eq!(info.lo_offset, 4096);
    assert_eq!(info.lo_sizelimit, 8192);
    assert_eq!(info.lo_flags, LO_FLAGS_READ_ONLY);
    assert_eq!(loop_attach_next(LoopAttachStep::Configure, true), LoopAttachStep::Finish(true));
}

#[test]
fn attach_returns_configure_error_after_building_loop_info() {
    let info = loop_info(512, 2048);
    assert_eq!(info.lo_offset, 512);
    assert_eq!(info.lo_sizelimit, 2048);
    assert_eq!(info.lo_flags, LO_FLAGS_READ_ONLY);
    let step = loop_attach_next(LoopAttachStep::Configure, false);
    assert_eq!(loop_attach_next(step, false), LoopAttachStep::Finish(false));
}

#[test]
fn attach_falls_back_to_legacy_after_configure_failure() {
    let step = loop_attach_next(LoopAttachStep::Configure, false);
    assert_eq!(step, LoopAttachStep::Legacy);
    assert_eq!(loop_attach_next(step, true), LoopAttachStep::Finish(true));
}

#[test]
fn escape_overlay_opt_escapes_metachars() {
    assert_eq!(escape_overlay_opt("/mnt/pkg"), "/mnt/pkg");
    assert_eq!(escape_overlay_opt("a,b"), "a\\,b");
    assert_eq!(escape_overlay_opt("a:b"), "a\\:b");
    assert_eq!(escape_overlay_opt("a\\b"), "a\\\\b");
    // Backslash escaped first, so an injected "\," stays two escaped chars.
    assert_eq!(escape_overlay_opt("x\\,y"), "x\\\\\\,y");
}

#[test]
fn what_is_escaped_can_be_read_back() {
    for path in ["/mnt/pkg", "a,b:c\\d", "\\\\::,,", ""] {
        let mut read = String::new();
        let escaped = escape_overlay_opt(path);
        let mut chars = escaped.chars();
        while let Some(c) = chars.next() {
            assert!(c != ',' && c != ':', "bare separator in {escaped:?}");
            read.push(if c == '\\' { chars.next().unwrap() } else { c });
        }
        assert_eq!(read, path);
    }
}

#[test]
fn build_overlay_options_escapes_only_lowerdir() {
    // Colon escaped in lowerdir (list separator), raw in upperdir/workdir.
    let opts = build_overlay_options("/mnt/a:b", "/ov/a:b/upper", "/ov/a:b/work");
    assert_eq!(opts, "lowerdir=/mnt/a\\:b,upperdir=/ov/a:b/upper,workdir=/ov/a:b/work");
}

#[test]
fn an_overlay_has_its_layers_below_its_root() {
    let plan = overlay_plan("/mnt/p", "/ov/p");
    assert_eq!(plan.upperdir, "/ov/p/upper");
    assert_eq!(plan.workdir, "/ov/p/work");
    assert_eq!((plan.fstype.as_str(), plan.mount_point.as_str()), ("overlay", "/mnt/p"));
    assert!(!plan.read_only);
    assert_eq!(plan.options, "lowerdir=/mnt/p,upperdir=/ov/p/upper,workdir=/ov/p/work");
}

struct MockDeviceMountBackend {
    order: Vec<&'static str>,
    base_ok: bool,
    overlay_ok: bool,
    unmount_ok: bool,
}

impl MockDeviceMountBackend {
    fn mount(&mut self, overlay_enabled: bool) -> Result<(), DeviceStep> {
        let mut step = DeviceStep::MountBase;
        loop {
            let ok = match step {
                DeviceStep::MountBase => {
                    self.order.push("base");
                    self.base_ok
                }
                DeviceStep::MountOverlay => {
                    self.order.push("overlay");
                    self.overlay_ok
                }
                DeviceStep::UnmountBase => {
                    self.order.push("unmount");
                    self.unmount_ok
                }
                DeviceStep::Mounted => return Ok(()),
                failed => return Err(failed),
            };
            step = mount_device_next(overlay_enabled, step, ok);
        }
    }
}

fn mock_backend(overlay_ok: bool) -> MockDeviceMountBackend {
    MockDeviceMountBackend { order: vec![], base_ok: true, overlay_ok, unmount_ok: true }
}

#[test]
fn mount_device_rolls_back_base_on_overlay_failure() {
    let mut backend = mock_backend(false);
    assert!(backend.mount(true).is_err());
    assert_eq!(
        backend.order,
        ["base", "overlay", "unmount"],
        "must mount base, attempt overlay, then roll back"
    );
}

#[test]
fn mount_device_returns_overlay_error_when_rollback_unmount_fails() {
    let mut backend = mock_backend(false);
    backend.unmount_ok = false;
    let err = backend.mount(true).unwrap_err();
    assert_eq!(err, DeviceStep::OverlayFailed);
    assert!(backend.order.contains(&"unmount"), "rollback must be attempted");
}

#[test]
fn mount_device_stops_on_base_failure() {
    let mut backend = mock_backend(true);
    backend.base_ok = false;
    let err = backend.mount(true).unwrap_err();
    assert_eq!(err, DeviceStep::BaseFailed);
    assert_eq!(backend.order, ["base"]);
}

#[test]
fn mount_device_no_rollback_on_success() {
    let mut backend = mock_backend(true);
    assert!(backend.mount(true).is_ok());
    assert!(!backend.order.contains(&"unmount"), "success must not unmount");
}

#[test]
fn mount_device_skips_overlay_when_disabled() {
    let mut backend = mock_backend(false);
    assert!(backend.mount(false).is_ok());
    assert_eq!(backend.order, ["base"]);
}

#[test]
fn unmounting_takes_every_layer_off() {
    for overlay in [false, true] {
        for mounted in 0..=(1 + u32::from(overlay)) {
            let mut layers = mounted;
            let mut step = unmount_first(overlay);
            loop {
                let answer = match step {
                    UnmountStep::CheckOverlay | UnmountStep::CheckBase => layers > 0,
                    UnmountStep::UnmountOverlay | UnmountStep::UnmountBase => {
                        layers -= 1;
                        true
                    }
                    _ => break,
                };
                step = unmount_next(step, answer);
            }
            assert_eq!((step, layers), (UnmountStep::Unmounted, 0));
        }
    }
    assert_eq!(unmount_next(UnmountStep::UnmountOverlay, false), UnmountStep::OverlayFailed);
    assert_eq!(unmount_next(UnmountStep::UnmountBase, false), UnmountStep::BaseFailed);
}

fn meta() -> PackageFsMetadata {
    PackageFsMetadata {
        path: "/pkgs/p.ssam".to_string(),
        mount_point: "/mnt/p".to_string(),
        overlayfs_root: "/overlay/p".to_string(),
        fstype: "erofs".to_string(),
        pkgfs_offset: 4096,
        length: 8192,
    }
}

#[test]
fn a_package_is_mounted_step_by_step() {
    let yes = || PkgfsEvent::Answered(true);
    let no = || PkgfsEvent::Answered(false);
    let at = |path: &str| PkgfsEvent::Device(Some(path.to_string()));
    let nowhere = || PkgfsEvent::Device(None);
    let run = |verity: bool, events: &[PkgfsEvent]| {
        let meta = meta();
        events.iter().fold(PkgfsStep::CheckMounted, |step, event| {
            mount_pkgfs_next(&meta, verity, step, event)
        })
    };
    let mounting = |source: &str| PkgfsStep::MountDevice { source: source.to_string() };
    assert_eq!(run(true, &[yes()]), PkgfsStep::Mounted { reused: true });
    assert_eq!(run(true, &[yes(), at("/dev/loop0"), no()]), PkgfsStep::Mounted { reused: true });
    assert_eq!(run(true, &[no()]), PkgfsStep::AttachLoop(attach_request(&meta())));
    assert_eq!(run(true, &[no(), no()]), PkgfsStep::AttachFailed);
    assert_eq!(run(true, &[no(), yes(), nowhere()]), PkgfsStep::NoLoopPath);
    assert_eq!(
        run(true, &[no(), yes(), at("/dev/loop0")]),
        PkgfsStep::CreateVerity { loop_path: "/dev/loop0".to_string() }
    );
    assert_eq!(run(true, &[no(), yes(), at("/dev/loop0"), nowhere()]), PkgfsStep::VerityFailed);
    assert_eq!(
        run(true, &[no(), yes(), at("/dev/loop0"), at("/dev/dm-3")]),
        mounting("/dev/dm-3")
    );
    assert_eq!(run(false, &[no(), yes(), at("/dev/loop0")]), mounting("/dev/loop0"));
    assert_eq!(run(false, &[no(), yes(), at("/dev/loop0"), no()]), PkgfsStep::MountFailed);
    assert_eq!(
        run(true, &[no(), yes(), at("/dev/loop0"), at("/dev/dm-3"), yes()]),
        PkgfsStep::Mounted { reused: false }
    );
}

#[test]
fn the_package_file_is_attached_and_its_device_mounted() {
    let request = attach_request(&meta());
    assert_eq!(request.backing_file, "/pkgs/p.ssam");
    assert_eq!(
        request.info,
        LoopInfo { lo_offset: 4096, lo_sizelimit: 8192, lo_flags: LO_FLAGS_READ_ONLY }
    );
    let node = Some("/dev/dm-3");
    assert_eq!(mount_source(true, "/dev/loop0", node).as_deref(), node);
    assert_eq!(mount_source(true, "/dev/loop0", None), None);
    assert_eq!(mount_source(false, "/dev/loop0", node).as_deref(), Some("/dev/loop0"));
    let plan = base_mount_plan("/dev/dm-3", &meta());
    assert_eq!(plan.device, "/dev/dm-3");
    assert_eq!(plan.mount_point, "/mnt/p");
    assert_eq!(plan.fstype, "erofs");
    assert!(plan.read_only);
}

#[test]
fn verified_devices_have_names_of_their_own() {
    assert_eq!(verity_name("pkg", "1a2b"), "ssam-pkg-verity-1a2b");
    assert_ne!(verity_name("pkg", "1a2b"), verity_name("pkg", "1a2c"));
}

const TEST_DIR: &str = "/tmp/.tmpAb12Cd";

fn mounts(files: &[&str]) -> Vec<MountPoint> {
    files
        .iter()
        .map(|f| MountPoint { file: f.to_string(), canonical: f.to_string() })
        .collect()
}

fn findmnt(target: &str, files: &[&str]) -> Result<String, FindmntError> {
    findmnt_impl(true, target, Some(&mounts(files)))
}

#[test]
fn test_findmnt_happy_case_root_mount() {
    let result = findmnt(TEST_DIR, &["/"]);
    assert!(result.is_ok());
    assert_eq!(result.unwrap(), "/");
}

#[test]
fn test_findmnt_happy_case_specific_mount() {
    let result = findmnt(TEST_DIR, &["/", TEST_DIR]);
    assert!(result.is_ok());
    assert_eq!(result.unwrap(), TEST_DIR);
}

#[test]
fn test_findmnt_best_match_longest_path() {
    let nested_mount = format!("{TEST_DIR}/nested");
    let result = findmnt(&nested_mount, &["/", TEST_DIR, &nested_mount]);
    assert!(result.is_ok());
    assert_eq!(result.unwrap(), nested_mount);
}

#[test]
fn test_findmnt_multiple_mounts_chooses_best_match() {
    let result = findmnt(TEST_DIR, &["/", "/usr", "/var", TEST_DIR, "/home"]);
    assert!(result.is_ok());
    assert_eq!(result.unwrap(), TEST_DIR);
}

#[test]
fn test_findmnt_error_case_non_existent_directory() {
    let result = findmnt_impl(false, "/this/path/does/not/exist", Some(&mounts(&["/"])));
    assert!(result.is_err());
    let error_msg = result.unwrap_err().message();
    assert!(error_msg.contains("does not exist or is not a directory"));
}

#[test]
fn test_findmnt_error_case_not_a_directory() {
    let file_path = format!("{TEST_DIR}/testfile");
    let result = findmnt_impl(false, &file_path, Some(&mounts(&["/"])));
    assert!(result.is_err());
    let error_msg = result.unwrap_err().message();
    assert!(error_msg.contains("does not exist or is not a directory"));
}

#[test]
fn test_findmnt_error_case_no_matching_mount() {
    let result = findmnt(TEST_DIR, &["/usr", "/var", "/home"]);
    assert!(result.is_err());
    let error_msg = result.unwrap_err().message();
    assert!(error_msg.contains("No matching mount point found"));
}

#[test]
fn test_findmnt_error_case_procfs_failure() {
    let result = findmnt_impl(true, TEST_DIR, None);
    assert!(result.is_err());
    let error_msg = result.unwrap_err().message();
    assert!(error_msg.contains("Failed to read system mounts"));
}

#[test]
fn test_findmnt_edge_case_empty_mounts() {
    let result = findmnt(TEST_DIR, &[]);
    assert!(result.is_err());
    let error_msg = result.unwrap_err().message();
    assert!(error_msg.contains("No matching mount point found"));
}

#[test]
fn test_findmnt_edge_case_root_directory() {
    let result = findmnt("/", &["/", "/usr", "/var"]);
    assert!(result.is_ok());
    assert_eq!(result.unwrap(), "/");
}

#[test]
fn test_findmnt_edge_case_mount_point_with_spaces() {
    let expected_mount = format!("{TEST_DIR}/path with spaces");
    let result = findmnt(&expected_mount, &["/", &expected_mount]);
    assert!(result.is_ok());
    assert_eq!(result.unwrap(), expected_mount);
}

#[test]
fn test_findmnt_edge_case_symlink_directory() {
    // The link is resolved before the mount points are searched.
    let real_dir = format!("{TEST_DIR}/real_dir");
    let result = findmnt(&real_dir, &["/", &real_dir]);
    assert!(result.is_ok());
}

#[test]
fn a_mount_point_holds_whole_steps_only() {
    assert_eq!(findmnt("/tmpfoo", &["/", "/tmp"]).unwrap(), "/");
    let listed = vec![
        MountPoint { file: "/link".to_string(), canonical: "/real".to_string() },
        MountPoint { file: "/real".to_string(), canonical: "/real".to_string() },
    ];
    assert_eq!(findmnt_impl(true, "/real/x", Some(&listed)).unwrap(), "/real");
    assert!(is_exact_mount(Some("/mnt/p/"), "/mnt/p"));
    assert!(!is_exact_mount(Some("/mnt"), "/mnt/p"));
    assert!(!is_exact_mount(None, "/mnt/p"));
}

fn attach_with_retry(
    busy: u32,
    wouldblock: u32,
    outcome: impl Fn(u32) -> AttachOutcome,
) -> (Result<u32, AttachOutcome>, u32) {
    let mut retry = AttachRetry::new(busy, wouldblock);
    let mut call_count = 0;
    loop {
        let dev = call_count;
        let result = outcome(dev);
        call_count += 1;
        match retry.decide(result) {
            AttachDecision::Done => return (Ok(dev), call_count),
            AttachDecision::Retry => {}
            AttachDecision::GiveUp => return (Err(result), call_count),
        }
    }
}

#[test]
fn succeeds_on_first_attempt() {
    let (result, _) = attach_with_retry(2, 50, |_| AttachOutcome::Attached);
    assert_eq!(result.unwrap(), 0);
}

#[test]
fn wouldblock_retries_then_succeeds() {
    let (result, call_count) = attach_with_retry(2, 50, |n| {
        if n < 3 {
            AttachOutcome::WouldBlock
        } else {
            AttachOutcome::Attached
        }
    });
    assert!(result.is_ok());
    assert_eq!(call_count, 4);
}

#[test]
fn busy_retries_then_succeeds() {
    let (result, call_count) = attach_with_retry(2, 50, |n| {
        if n < 2 {
            AttachOutcome::Busy
        } else {
            AttachOutcome::Attached
        }
    });
    assert!(result.is_ok());
    assert_eq!(call_count, 3);
}

#[test]
fn wouldblock_exhaustion_returns_error() {
    let (result, call_count) = attach_with_retry(2, 5, |_| AttachOutcome::WouldBlock);
    assert!(result.is_err());
    assert_eq!(result.unwrap_err(), AttachOutcome::WouldBlock);
    assert_eq!(call_count, 6);
}

#[test]
fn busy_exhaustion_returns_error() {
    let (result, call_count) = attach_with_retry(2, 50, |_| AttachOutcome::Busy);
    assert!(result.is_err());
    assert_eq!(result.unwrap_err(), AttachOutcome::Busy);
    assert_eq!(call_count, 3);
}

#[test]
fn busy_exhausts_independently_of_wouldblock() {
    let (result, call_count) = attach_with_retry(2, 50, |n| {
        if n == 0 {
            AttachOutcome::WouldBlock
        } else {
            AttachOutcome::Busy
        }
    });
    assert!(result.is_err());
    assert_eq!(result.unwrap_err(), AttachOutcome::Busy);
    assert_eq!(call_count, 4);
}

#[test]
fn other_error_returns_immediately() {
    let (result, call_count) = attach_with_retry(2, 50, |_| AttachOutcome::Failed);
    assert!(result.is_err());
    assert_eq!(call_count, 1);
}

#[test]
fn next_free_error_propagates() {
    let (result, _) = attach_with_retry(2, 50, |_| AttachOutcome::NoFreeDevice);
    assert_eq!(result.unwrap_err(), AttachOutcome::NoFreeDevice);
}
