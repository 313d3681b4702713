//! Mounting a package's file system.

use crate::package_volume::PackageFsMetadata;
use crate::path::{components, is_under, join, joined, path_starts_with, same_path};
use crate::text::{chars_of, join2, optional_text};
use vstd::prelude::*;
use vstd::string::StringExecFns;
use vstd::utf8::encode_utf8;

verus! {

/// How often a loop device that another process took is tried again.
pub const ATTACH_BUSY_MAX_RETRIES: u32 = 2;

/// How often an attach that would have blocked is tried again.
pub const ATTACH_WOULDBLOCK_MAX_RETRIES: u32 = 50;

/// How long to wait between two attempts.
pub const ATTACH_RETRY_INTERVAL_MS: u64 = 10;

/// The flag of a read-only loop device.
pub const LO_FLAGS_READ_ONLY: u32 = 1;

/// What a loop device is told of its backing file. What is not here is zero.
#[derive(Debug, Clone, Copy, PartialEq, Eq, Structural)]
pub struct LoopInfo {
    pub lo_offset: u64,
    pub lo_sizelimit: u64,
    pub lo_flags: u32,
}

/// A part of a file as a read-only loop device.
pub fn loop_info(offset: u64, length: u64) -> (r: LoopInfo)
    ensures
        r == (LoopInfo { lo_offset: offset, lo_sizelimit: length, lo_flags: LO_FLAGS_READ_ONLY }),
{
    LoopInfo { lo_offset: offset, lo_sizelimit: length, lo_flags: LO_FLAGS_READ_ONLY }
}

/// How a loop device is attached: in one call, and where that fails in the older way.
#[derive(Debug, Clone, Copy, PartialEq, Eq, Structural)]
pub enum LoopAttachStep {
    Configure,
    Legacy,
    Finish(bool),
}

pub open spec fn loop_attach_step(step: LoopAttachStep, ok: bool) -> LoopAttachStep {
    match step {
        LoopAttachStep::Configure => if ok {
            LoopAttachStep::Finish(true)
        } else {
            LoopAttachStep::Legacy
        },
        LoopAttachStep::Legacy => LoopAttachStep::Finish(ok),
        LoopAttachStep::Finish(_) => step,
    }
}

/// A device is attached if either way succeeds; the older one is taken only where the newer
/// fails, and neither is tried twice.
pub proof fn law_either_way_attaches(a: bool, b: bool)
    ensures
        loop_attach_step(LoopAttachStep::Configure, true) == LoopAttachStep::Finish(true),
        loop_attach_step(LoopAttachStep::Configure, false) is Legacy,
        loop_attach_step(loop_attach_step(LoopAttachStep::Configure, a), b)
            == LoopAttachStep::Finish(a || b),
        loop_attach_step(LoopAttachStep::Finish(a), b) == LoopAttachStep::Finish(a),
{
}

pub fn loop_attach_next(step: LoopAttachStep, ok: bool) -> (r: LoopAttachStep)
    ensures
        r == loop_attach_step(step, ok),
        r == match step {
            LoopAttachStep::Configure => if ok {
                LoopAttachStep::Finish(true)
            } else {
                LoopAttachStep::Legacy
            },
            LoopAttachStep::Legacy => LoopAttachStep::Finish(ok),
            LoopAttachStep::Finish(_) => step,
        },
{
    match step {
        LoopAttachStep::Configure => if ok {
            LoopAttachStep::Finish(true)
        } else {
            LoopAttachStep::Legacy
        },
        LoopAttachStep::Legacy => LoopAttachStep::Finish(ok),
        LoopAttachStep::Finish(_) => step,
    }
}

/// What came of one attempt to attach a loop device.
#[derive(Debug, Clone, Copy, PartialEq, Eq, Structural)]
pub enum AttachOutcome {
    Attached,
    /// Another process took the device first.
    Busy,
    WouldBlock,
    Failed,
    /// There was no free device to begin with.
    NoFreeDevice,
}

/// What to do after an attempt.
#[derive(Debug, Clone, Copy, PartialEq, Eq, Structural)]
pub enum AttachDecision {
    /// The device of this attempt is attached.
    Done,
    /// Wait, and try the next free device.
    Retry,
    /// Give up with the error of this attempt.
    GiveUp,
}

/// What to do after an attempt, where attempts have failed `busy` and `wouldblock` times
/// before in the two passing ways. Only those are tried again, each as often as it may be.
pub open spec fn decision(
    busy: nat,
    wouldblock: nat,
    busy_max: nat,
    wouldblock_max: nat,
    outcome: AttachOutcome,
) -> AttachDecision {
    match outcome {
        AttachOutcome::Attached => AttachDecision::Done,
        AttachOutcome::Busy if busy < busy_max => AttachDecision::Retry,
        AttachOutcome::WouldBlock if wouldblock < wouldblock_max => AttachDecision::Retry,
        _ => AttachDecision::GiveUp,
    }
}

/// Attaching with retries: the two passing failures are counted apart.
#[derive(Debug)]
pub struct AttachRetry {
    busy_max: u32,
    wouldblock_max: u32,
    busy_count: u32,
    wouldblock_count: u32,
}

impl AttachRetry {
    pub closed spec fn busy_max_spec(&self) -> u32 {
        self.busy_max
    }

    pub closed spec fn wouldblock_max_spec(&self) -> u32 {
        self.wouldblock_max
    }

    pub closed spec fn busy_spec(&self) -> u32 {
        self.busy_count
    }

    pub closed spec fn wouldblock_spec(&self) -> u32 {
        self.wouldblock_count
    }

    /// Neither failure has occurred more often than it may be retried.
    pub open spec fn wf(&self) -> bool {
        &&& self.busy_spec() <= self.busy_max_spec()
        &&& self.wouldblock_spec() <= self.wouldblock_max_spec()
        &&& self.busy_max_spec() < u32::MAX
        &&& self.wouldblock_max_spec() < u32::MAX
    }

    pub fn new(busy_max_retries: u32, wouldblock_max_retries: u32) -> (r: Self)
        requires
            busy_max_retries < u32::MAX,
            wouldblock_max_retries < u32::MAX,
        ensures
            r.wf(),
            r.busy_max_spec() == busy_max_retries,
            r.wouldblock_max_spec() == wouldblock_max_retries,
            r.busy_spec() == 0,
            r.wouldblock_spec() == 0,
    {
        AttachRetry {
            busy_max: busy_max_retries,
            wouldblock_max: wouldblock_max_retries,
            busy_count: 0,
            wouldblock_count: 0,
        }
    }

    /// Decides after an attempt, and counts it.
    pub fn decide(&mut self, outcome: AttachOutcome) -> (r: AttachDecision)
        requires
            old(self).wf(),
        ensures
            r is Retry ==> final(self).wf(),
            final(self).busy_max_spec() == old(self).busy_max_spec(),
            final(self).wouldblock_max_spec() == old(self).wouldblock_max_spec(),
            final(self).busy_spec() == old(self).busy_spec() + if outcome is Busy {
                1int
            } else {
                0
            },
            final(self).wouldblock_spec() == old(self).wouldblock_spec() + if outcome is WouldBlock {
                1int
            } else {
                0
            },
            r == decision(
                old(self).busy_spec() as nat,
                old(self).wouldblock_spec() as nat,
                old(self).busy_max_spec() as nat,
                old(self).wouldblock_max_spec() as nat,
                outcome,
            ),
    {
        match outcome {
            AttachOutcome::Attached => AttachDecision::Done,
            AttachOutcome::Busy => {
                self.busy_count += 1;
                if self.busy_count > self.busy_max {
                    AttachDecision::GiveUp
                } else {
                    AttachDecision::Retry
                }
            },
            AttachOutcome::WouldBlock => {
                self.wouldblock_count += 1;
                if self.wouldblock_count > self.wouldblock_max {
                    AttachDecision::GiveUp
                } else {
                    AttachDecision::Retry
                }
            },
            _ => AttachDecision::GiveUp,
        }
    }
}

pub open spec fn count_of(outcomes: Seq<AttachOutcome>, kind: AttachOutcome) -> nat
    decreases outcomes.len(),
{
    if outcomes.len() == 0 {
        0
    } else {
        count_of(outcomes.drop_last(), kind) + if outcomes.last() == kind {
            1nat
        } else {
            0nat
        }
    }
}

/// Whether each of these attempts was followed by another.
pub open spec fn all_retried(outcomes: Seq<AttachOutcome>, busy_max: nat, wouldblock_max: nat) -> bool
    decreases outcomes.len(),
{
    outcomes.len() > 0 ==> {
        let before = outcomes.drop_last();
        &&& all_retried(before, busy_max, wouldblock_max)
        &&& decision(
            count_of(before, AttachOutcome::Busy),
            count_of(before, AttachOutcome::WouldBlock),
            busy_max,
            wouldblock_max,
            outcomes.last(),
        ) is Retry
    }
}

/// Attaching ends: no more attempts are followed by another than the two limits allow
/// together, and neither failure is retried more often than it may be.
pub proof fn law_retries_are_bounded(outcomes: Seq<AttachOutcome>, busy_max: nat, wouldblock_max: nat)
    requires
        all_retried(outcomes, busy_max, wouldblock_max),
    ensures
        outcomes.len() <= busy_max + wouldblock_max,
        count_of(outcomes, AttachOutcome::Busy) <= busy_max,
        count_of(outcomes, AttachOutcome::WouldBlock) <= wouldblock_max,
{
    lemma_counts(outcomes, busy_max, wouldblock_max);
}

proof fn lemma_counts(outcomes: Seq<AttachOutcome>, busy_max: nat, wouldblock_max: nat)
    requires
        all_retried(outcomes, busy_max, wouldblock_max),
    ensures
        outcomes.len() == count_of(outcomes, AttachOutcome::Busy) + count_of(
            outcomes,
            AttachOutcome::WouldBlock,
        ),
        count_of(outcomes, AttachOutcome::Busy) <= busy_max,
        count_of(outcomes, AttachOutcome::WouldBlock) <= wouldblock_max,
    decreases outcomes.len(),
{
    if outcomes.len() > 0 {
        lemma_counts(outcomes.drop_last(), busy_max, wouldblock_max);
    }
}

/// Mounting a device: the package's file system, then the overlay on it where overlays
/// are used. An overlay that fails takes the file system with it.
#[derive(Debug, Clone, Copy, PartialEq, Eq, Structural)]
pub enum DeviceStep {
    MountBase,
    MountOverlay,
    /// Undo the base; that it fails changes nothing of the result.
    UnmountBase,
    Mounted,
    BaseFailed,
    OverlayFailed,
}

pub open spec fn device_step(overlay_enabled: bool, step: DeviceStep, ok: bool) -> DeviceStep {
    match step {
        DeviceStep::MountBase => if !ok {
            DeviceStep::BaseFailed
        } else if overlay_enabled {
            DeviceStep::MountOverlay
        } else {
            DeviceStep::Mounted
        },
        DeviceStep::MountOverlay => if ok {
            DeviceStep::Mounted
        } else {
            DeviceStep::UnmountBase
        },
        DeviceStep::UnmountBase => DeviceStep::OverlayFailed,
        _ => step,
    }
}

pub fn mount_device_next(overlay_enabled: bool, step: DeviceStep, ok: bool) -> (r: DeviceStep)
    ensures
        r == device_step(overlay_enabled, step, ok),
{
    match step {
        DeviceStep::MountBase => if !ok {
            DeviceStep::BaseFailed
        } else if overlay_enabled {
            DeviceStep::MountOverlay
        } else {
            DeviceStep::Mounted
        },
        DeviceStep::MountOverlay => if ok {
            DeviceStep::Mounted
        } else {
            DeviceStep::UnmountBase
        },
        DeviceStep::UnmountBase => DeviceStep::OverlayFailed,
        other => other,
    }
}

/// How a device is mounted.
#[derive(Debug, PartialEq, Eq)]
pub struct BaseMount {
    pub device: String,
    pub mount_point: String,
    pub fstype: String,
    pub read_only: bool,
}

/// The mount of a package's own file system: read-only, at the package's mount point.
pub fn base_mount_plan(device: &str, meta: &PackageFsMetadata) -> (r: BaseMount)
    ensures
        r.device@ == device@,
        r.mount_point@ == meta.mount_point@,
        r.fstype@ == meta.fstype@,
        r.read_only,
{
    BaseMount {
        device: device.to_owned(),
        mount_point: meta.mount_point.clone(),
        fstype: meta.fstype.clone(),
        read_only: true,
    }
}

/// What is mounted at the mount point, layer by layer.
pub open spec fn layers_after(layers: nat, step: DeviceStep, ok: bool) -> nat {
    match step {
        DeviceStep::MountBase => if ok {
            layers + 1
        } else {
            layers
        },
        DeviceStep::MountOverlay => if ok {
            layers + 1
        } else {
            layers
        },
        DeviceStep::UnmountBase => if ok && layers > 0 {
            (layers - 1) as nat
        } else {
            layers
        },
        _ => layers,
    }
}

/// The step and the layers after any number of answers.
pub open spec fn device_run(overlay_enabled: bool, answers: Seq<bool>) -> (DeviceStep, nat)
    decreases answers.len(),
{
    if answers.len() == 0 {
        (DeviceStep::MountBase, 0)
    } else {
        let before = device_run(overlay_enabled, answers.drop_last());
        (
            device_step(overlay_enabled, before.0, answers.last()),
            layers_after(before.1, before.0, answers.last()),
        )
    }
}

/// Whatever the answers: a mounted device has all its layers, a failed base leaves
/// none, and a failed overlay leaves none either unless the unmount itself failed.
pub proof fn law_failed_overlay_leaves_nothing(overlay_enabled: bool, answers: Seq<bool>)
    ensures
        ({
            let end = device_run(overlay_enabled, answers);
            match end.0 {
                DeviceStep::MountBase => end.1 == 0,
                DeviceStep::MountOverlay => end.1 == 1 && overlay_enabled,
                DeviceStep::UnmountBase => end.1 == 1 && overlay_enabled,
                DeviceStep::Mounted => end.1 == if overlay_enabled {
                    2nat
                } else {
                    1nat
                },
                DeviceStep::BaseFailed => end.1 == 0,
                DeviceStep::OverlayFailed => end.1 <= 1 && overlay_enabled,
            }
        }),
        ({
            let end = device_run(overlay_enabled, answers);
            let before = device_run(overlay_enabled, answers.drop_last());
            answers.len() > 0 && before.0 is UnmountBase && answers.last() ==> end.0
                is OverlayFailed && end.1 == 0
        }),
    decreases answers.len(),
{
    if answers.len() > 0 {
        law_failed_overlay_leaves_nothing(overlay_enabled, answers.drop_last());
    }
}

/// A character as it stands in the list of lower directories.
pub open spec fn escaped_char(c: char) -> Seq<char> {
    if c == '\\' || c == ',' || c == ':' {
        seq!['\\', c]
    } else {
        seq![c]
    }
}

/// A path with a backslash before each character that would end it or the option.
pub open spec fn escaped(path: Seq<char>) -> Seq<char>
    decreases path.len(),
{
    if path.len() == 0 {
        Seq::empty()
    } else {
        escaped(path.drop_last()) + escaped_char(path.last())
    }
}

pub fn escape_overlay_opt(path: &str) -> (r: String)
    ensures
        r@ == escaped(path@),
{
    let chars = chars_of(path);
    let mut out = String::new();
    let mut i: usize = 0;
    assert(path@.take(0) =~= Seq::empty());
    while i < chars.len()
        invariant
            i <= chars@.len(),
            chars@ == path@,
            out@ == escaped(path@.take(i as int)),
        decreases chars.len() - i,
    {
        let c = chars[i];
        let ghost before = out@;
        assert(path@.take(i + 1).drop_last() =~= path@.take(i as int));
        if c == '\\' || c == ',' || c == ':' {
            out.push('\\');
            out.push(c);
            assert(out@ =~= before + seq!['\\', c]);
        } else {
            out.push(c);
            assert(out@ =~= before + seq![c]);
        }
        i += 1;
    }
    assert(path@.take(i as int) =~= path@);
    out
}

/// What a reader makes of an escaped text: a backslash stands for the character behind
/// it.
pub open spec fn unescaped(s: Seq<char>) -> Seq<char>
    decreases s.len(),
{
    if s.len() == 0 {
        Seq::empty()
    } else if s[0] == '\\' && s.len() >= 2 {
        seq![s[1]] + unescaped(s.skip(2))
    } else {
        seq![s[0]] + unescaped(s.skip(1))
    }
}

/// Where the first separator stands that is not escaped, reading from the start; -1 if
/// there is none.
pub open spec fn first_separator(s: Seq<char>) -> int
    decreases s.len(),
{
    if s.len() == 0 {
        -1
    } else if s[0] == '\\' && s.len() >= 2 {
        let rest = first_separator(s.skip(2));
        if rest < 0 {
            -1
        } else {
            rest + 2
        }
    } else if s[0] == ',' || s[0] == ':' {
        0
    } else {
        let rest = first_separator(s.skip(1));
        if rest < 0 {
            -1
        } else {
            rest + 1
        }
    }
}

proof fn lemma_escaped_front(path: Seq<char>)
    requires
        path.len() > 0,
    ensures
        escaped(path) == escaped_char(path[0]) + escaped(path.drop_first()),
    decreases path.len(),
{
    if path.len() == 1 {
        assert(path.drop_last() =~= Seq::empty());
        assert(path.drop_first() =~= Seq::empty());
        assert(escaped(path.drop_last()).len() == 0);
        assert(escaped(path.drop_first()).len() == 0);
        assert(path.last() == path[0]);
        assert(escaped(path) =~= escaped_char(path[0]) + escaped(path.drop_first()));
    } else {
        let front = path.drop_last();
        lemma_escaped_front(front);
        assert(path.drop_first().drop_last() =~= front.drop_first());
        assert(path.drop_first().last() == path.last());
        assert(escaped(path) =~= escaped_char(path[0]) + (escaped(front.drop_first())
            + escaped_char(path.last())));
    }
}

/// The reader gets back the very path that was escaped, and meets no separator in it:
/// a path can neither end the option nor add a directory to the list.
pub proof fn law_escape_is_undone(path: Seq<char>)
    ensures
        unescaped(escaped(path)) == path,
        first_separator(escaped(path)) == -1,
    decreases path.len(),
{
    if path.len() > 0 {
        lemma_escaped_front(path);
        let rest = path.drop_first();
        law_escape_is_undone(rest);
        let c = path[0];
        let s = escaped(path);
        if c == '\\' || c == ',' || c == ':' {
            assert(s.skip(2) =~= escaped(rest));
            assert(s[0] == '\\' && s[1] == c);
        } else {
            assert(s.skip(1) =~= escaped(rest));
            assert(s[0] == c);
        }
        assert(seq![c] + rest =~= path);
    }
}

/// The options of an overlay. Only the lower directory is a list, so only it is escaped.
pub open spec fn overlay_options(lowerdir: Seq<char>, upperdir: Seq<char>, workdir: Seq<char>) -> Seq<
    char,
> {
    "lowerdir="@ + escaped(lowerdir) + ",upperdir="@ + upperdir + ",workdir="@ + workdir
}

pub fn build_overlay_options(lowerdir: &str, upperdir: &str, workdir: &str) -> (r: String)
    ensures
        r@ == overlay_options(lowerdir@, upperdir@, workdir@),
{
    let mut out = join2("lowerdir=", escape_overlay_opt(lowerdir).as_str());
    out.append(",upperdir=");
    out.append(upperdir);
    out.append(",workdir=");
    out.append(workdir);
    out
}

/// What an overlay is mounted with.
#[derive(Debug)]
pub struct OverlayPlan {
    pub upperdir: String,
    pub workdir: String,
    /// Both the source and the type of the mount.
    pub fstype: String,
    pub mount_point: String,
    pub read_only: bool,
    pub options: String,
}

/// The overlay of a package: its layers lie below the overlay root, and the package's own
/// file system, which is mounted already, is the lower directory. It is mounted over it
/// and can be written to.
pub fn overlay_plan(mount_point: &str, overlayfs_root: &str) -> (r: OverlayPlan)
    requires
        overlayfs_root@.len() > 0,
    ensures
        r.upperdir@ == joined(overlayfs_root@, "upper"@),
        r.workdir@ == joined(overlayfs_root@, "work"@),
        r.fstype@ == "overlay"@,
        r.mount_point@ == mount_point@,
        !r.read_only,
        r.options@ == overlay_options(mount_point@, r.upperdir@, r.workdir@),
{
    let upperdir = join(overlayfs_root, "upper");
    let workdir = join(overlayfs_root, "work");
    let options = build_overlay_options(mount_point, upperdir.as_str(), workdir.as_str());
    OverlayPlan {
        upperdir,
        workdir,
        fstype: "overlay".to_owned(),
        mount_point: mount_point.to_owned(),
        read_only: false,
        options,
    }
}

/// Unmounting a package's file system: the overlay first where overlays are used, then
/// the base. What is not mounted is passed over.
#[derive(Debug, Clone, Copy, PartialEq, Eq, Structural)]
pub enum UnmountStep {
    /// See whether anything is mounted before the overlay is unmounted.
    CheckOverlay,
    UnmountOverlay,
    /// See whether anything is mounted before the base is unmounted.
    CheckBase,
    UnmountBase,
    Unmounted,
    OverlayFailed,
    BaseFailed,
}

pub fn unmount_first(overlay_enabled: bool) -> (r: UnmountStep)
    ensures
        r == if overlay_enabled {
            UnmountStep::CheckOverlay
        } else {
            UnmountStep::CheckBase
        },
{
    if overlay_enabled {
        UnmountStep::CheckOverlay
    } else {
        UnmountStep::CheckBase
    }
}

/// The next step, given whether something was mounted or whether the unmount succeeded.
pub open spec fn unmount_step(step: UnmountStep, answer: bool) -> UnmountStep {
    match step {
        UnmountStep::CheckOverlay => if answer {
            UnmountStep::UnmountOverlay
        } else {
            UnmountStep::CheckBase
        },
        UnmountStep::UnmountOverlay => if answer {
            UnmountStep::CheckBase
        } else {
            UnmountStep::OverlayFailed
        },
        UnmountStep::CheckBase => if answer {
            UnmountStep::UnmountBase
        } else {
            UnmountStep::Unmounted
        },
        UnmountStep::UnmountBase => if answer {
            UnmountStep::Unmounted
        } else {
            UnmountStep::BaseFailed
        },
        _ => step,
    }
}

pub fn unmount_next(step: UnmountStep, answer: bool) -> (r: UnmountStep)
    ensures
        r == unmount_step(step, answer),
{
    match step {
        UnmountStep::CheckOverlay => if answer {
            UnmountStep::UnmountOverlay
        } else {
            UnmountStep::CheckBase
        },
        UnmountStep::UnmountOverlay => if answer {
            UnmountStep::CheckBase
        } else {
            UnmountStep::OverlayFailed
        },
        UnmountStep::CheckBase => if answer {
            UnmountStep::UnmountBase
        } else {
            UnmountStep::Unmounted
        },
        UnmountStep::UnmountBase => if answer {
            UnmountStep::Unmounted
        } else {
            UnmountStep::BaseFailed
        },
        other => other,
    }
}

/// What an honest system answers when `layers` are mounted and every unmount succeeds.
pub open spec fn unmount_all(step: UnmountStep, layers: nat, fuel: nat) -> (UnmountStep, nat)
    decreases fuel,
{
    if fuel == 0 {
        (step, layers)
    } else {
        match step {
            UnmountStep::CheckOverlay | UnmountStep::CheckBase => unmount_all(
                unmount_step(step, layers > 0),
                layers,
                (fuel - 1) as nat,
            ),
            UnmountStep::UnmountOverlay | UnmountStep::UnmountBase => unmount_all(
                unmount_step(step, true),
                (layers - 1) as nat,
                (fuel - 1) as nat,
            ),
            _ => (step, layers),
        }
    }
}

/// Unmounting undoes mounting: from as many layers as mounting leaves, or fewer, none is
/// left.
pub proof fn law_unmount_undoes_mount(overlay_enabled: bool, layers: nat)
    requires
        layers <= if overlay_enabled {
            2nat
        } else {
            1nat
        },
    ensures
        unmount_all(
            if overlay_enabled {
                UnmountStep::CheckOverlay
            } else {
                UnmountStep::CheckBase
            },
            layers,
            5,
        ) == (UnmountStep::Unmounted, 0nat),
{
    reveal_with_fuel(unmount_all, 6);
}

/// A part of a file that is to become a loop device.
#[derive(Debug, PartialEq, Eq)]
pub struct AttachRequest {
    pub backing_file: String,
    pub info: LoopInfo,
}

pub struct AttachRequestView {
    pub backing_file: Seq<char>,
    pub info: LoopInfo,
}

impl View for AttachRequest {
    type V = AttachRequestView;

    open spec fn view(&self) -> AttachRequestView {
        AttachRequestView { backing_file: self.backing_file@, info: self.info }
    }
}

/// The loop device of a package: its file system in the package file, read-only.
pub open spec fn attach_request_spec(meta: PackageFsMetadata) -> AttachRequestView {
    AttachRequestView {
        backing_file: meta.path@,
        info: LoopInfo {
            lo_offset: meta.pkgfs_offset,
            lo_sizelimit: meta.length,
            lo_flags: LO_FLAGS_READ_ONLY,
        },
    }
}

pub fn attach_request(meta: &PackageFsMetadata) -> (r: AttachRequest)
    ensures
        r@ == attach_request_spec(*meta),
        r.backing_file@ == meta.path@,
        r.info == (LoopInfo {
            lo_offset: meta.pkgfs_offset,
            lo_sizelimit: meta.length,
            lo_flags: LO_FLAGS_READ_ONLY,
        }),
{
    AttachRequest {
        backing_file: meta.path.clone(),
        info: loop_info(meta.pkgfs_offset, meta.length),
    }
}

/// The device that is mounted: with integrity checks the verified one, once it is there,
/// and never the loop device below it; without them the loop device.
pub open spec fn mount_source_spec(
    verity: bool,
    loop_path: Seq<char>,
    verity_node: Option<Seq<char>>,
) -> Option<Seq<char>> {
    if verity {
        verity_node
    } else {
        Some(loop_path)
    }
}

pub fn mount_source(verity: bool, loop_path: &str, verity_node: Option<&str>) -> (r: Option<String>)
    ensures
        optional_text(r) == mount_source_spec(
            verity,
            loop_path@,
            match verity_node {
                Some(node) => Some(node@),
                None => None,
            },
        ),
{
    if verity {
        match verity_node {
            Some(node) => Some(node.to_owned()),
            None => None,
        }
    } else {
        Some(loop_path.to_owned())
    }
}

/// The whole way from a package file to a mounted file system.
#[derive(Debug, PartialEq, Eq)]
pub enum PkgfsStep {
    /// See whether the file system is mounted already.
    CheckMounted,
    AttachLoop(AttachRequest),
    /// Ask the loop device for its path.
    ResolveLoopPath,
    /// Make the verified device over the loop device.
    CreateVerity { loop_path: String },
    /// Mount the device, with its overlay.
    MountDevice { source: String },
    /// It is mounted; `reused` tells whether it was before.
    Mounted { reused: bool },
    AttachFailed,
    NoLoopPath,
    VerityFailed,
    MountFailed,
}

pub enum PkgfsStepView {
    CheckMounted,
    AttachLoop(AttachRequestView),
    ResolveLoopPath,
    CreateVerity { loop_path: Seq<char> },
    MountDevice { source: Seq<char> },
    Mounted { reused: bool },
    AttachFailed,
    NoLoopPath,
    VerityFailed,
    MountFailed,
}

impl View for PkgfsStep {
    type V = PkgfsStepView;

    open spec fn view(&self) -> PkgfsStepView {
        match *self {
            PkgfsStep::CheckMounted => PkgfsStepView::CheckMounted,
            PkgfsStep::AttachLoop(request) => PkgfsStepView::AttachLoop(request@),
            PkgfsStep::ResolveLoopPath => PkgfsStepView::ResolveLoopPath,
            PkgfsStep::CreateVerity { loop_path } => PkgfsStepView::CreateVerity {
                loop_path: loop_path@,
            },
            PkgfsStep::MountDevice { source } => PkgfsStepView::MountDevice { source: source@ },
            PkgfsStep::Mounted { reused } => PkgfsStepView::Mounted { reused },
            PkgfsStep::AttachFailed => PkgfsStepView::AttachFailed,
            PkgfsStep::NoLoopPath => PkgfsStepView::NoLoopPath,
            PkgfsStep::VerityFailed => PkgfsStepView::VerityFailed,
            PkgfsStep::MountFailed => PkgfsStepView::MountFailed,
        }
    }
}

/// What came of a step.
#[derive(Debug)]
pub enum PkgfsEvent {
    /// Whether it is mounted, or whether the step was carried out.
    Answered(bool),
    /// The path of the device, where it has one.
    Device(Option<String>),
}

pub enum PkgfsEventView {
    Answered(bool),
    Device(Option<Seq<char>>),
}

impl View for PkgfsEvent {
    type V = PkgfsEventView;

    open spec fn view(&self) -> PkgfsEventView {
        match *self {
            PkgfsEvent::Answered(ok) => PkgfsEventView::Answered(ok),
            PkgfsEvent::Device(path) => PkgfsEventView::Device(optional_text(path)),
        }
    }
}

/// What is mounted is not mounted again. An event that does not answer the step leaves it
/// as it is.
pub open spec fn pkgfs_step(
    meta: PackageFsMetadata,
    verity: bool,
    step: PkgfsStepView,
    event: PkgfsEventView,
) -> PkgfsStepView {
    match (step, event) {
        (PkgfsStepView::CheckMounted, PkgfsEventView::Answered(mounted)) => if mounted {
            PkgfsStepView::Mounted { reused: true }
        } else {
            PkgfsStepView::AttachLoop(attach_request_spec(meta))
        },
        (PkgfsStepView::AttachLoop(_), PkgfsEventView::Answered(ok)) => if ok {
            PkgfsStepView::ResolveLoopPath
        } else {
            PkgfsStepView::AttachFailed
        },
        (PkgfsStepView::ResolveLoopPath, PkgfsEventView::Device(path)) => match path {
            Some(loop_path) => match mount_source_spec(verity, loop_path, None) {
                Some(source) => PkgfsStepView::MountDevice { source },
                None => PkgfsStepView::CreateVerity { loop_path },
            },
            None => PkgfsStepView::NoLoopPath,
        },
        (PkgfsStepView::CreateVerity { loop_path }, PkgfsEventView::Device(node)) =>
        match mount_source_spec(verity, loop_path, node) {
            Some(source) => PkgfsStepView::MountDevice { source },
            None => PkgfsStepView::VerityFailed,
        },
        (PkgfsStepView::MountDevice { .. }, PkgfsEventView::Answered(ok)) => if ok {
            PkgfsStepView::Mounted { reused: false }
        } else {
            PkgfsStepView::MountFailed
        },
        _ => step,
    }
}

/// Takes the mount of a package's file system one step further.
pub fn mount_pkgfs_next(
    meta: &PackageFsMetadata,
    verity: bool,
    step: PkgfsStep,
    event: &PkgfsEvent,
) -> (r: PkgfsStep)
    ensures
        r@ == pkgfs_step(*meta, verity, step@, event@),
{
    match (step, event) {
        (PkgfsStep::CheckMounted, PkgfsEvent::Answered(mounted)) => if *mounted {
            PkgfsStep::Mounted { reused: true }
        } else {
            PkgfsStep::AttachLoop(attach_request(meta))
        },
        (PkgfsStep::AttachLoop(_), PkgfsEvent::Answered(ok)) => if *ok {
            PkgfsStep::ResolveLoopPath
        } else {
            PkgfsStep::AttachFailed
        },
        (PkgfsStep::ResolveLoopPath, PkgfsEvent::Device(path)) => match path {
            Some(loop_path) => match mount_source(verity, loop_path.as_str(), None) {
                Some(source) => PkgfsStep::MountDevice { source },
                None => PkgfsStep::CreateVerity { loop_path: loop_path.clone() },
            },
            None => PkgfsStep::NoLoopPath,
        },
        (PkgfsStep::CreateVerity { loop_path }, PkgfsEvent::Device(node)) => {
            let node = match node {
                Some(node) => Some(node.as_str()),
                None => None,
            };
            match mount_source(verity, loop_path.as_str(), node) {
                Some(source) => PkgfsStep::MountDevice { source },
                None => PkgfsStep::VerityFailed,
            }
        },
        (PkgfsStep::MountDevice { .. }, PkgfsEvent::Answered(ok)) => if *ok {
            PkgfsStep::Mounted { reused: false }
        } else {
            PkgfsStep::MountFailed
        },
        (step, _) => step,
    }
}

/// The step that the events lead to, from the first on.
pub open spec fn pkgfs_run(
    meta: PackageFsMetadata,
    verity: bool,
    events: Seq<PkgfsEventView>,
) -> PkgfsStepView
    decreases events.len(),
{
    if events.len() == 0 {
        PkgfsStepView::CheckMounted
    } else {
        pkgfs_step(meta, verity, pkgfs_run(meta, verity, events.drop_last()), events.last())
    }
}

/// A file system that is mounted already is left alone: no device is attached and
/// nothing is mounted, whatever happens after.
pub proof fn law_mounted_is_reused(
    meta: PackageFsMetadata,
    verity: bool,
    events: Seq<PkgfsEventView>,
)
    requires
        events.len() > 0,
        events[0] == PkgfsEventView::Answered(true),
    ensures
        pkgfs_run(meta, verity, events) == (PkgfsStepView::Mounted { reused: true }),
    decreases events.len(),
{
    if events.len() == 1 {
        assert(events.drop_last() =~= Seq::<PkgfsEventView>::empty());
        reveal_with_fuel(pkgfs_run, 2);
    } else {
        assert(events.drop_last()[0] == events[0]);
        law_mounted_is_reused(meta, verity, events.drop_last());
    }
}

/// Whatever is attached is the package's file system in its file, read-only.
pub proof fn law_package_file_is_attached(
    meta: PackageFsMetadata,
    verity: bool,
    events: Seq<PkgfsEventView>,
)
    ensures
        pkgfs_run(meta, verity, events) matches PkgfsStepView::AttachLoop(request) ==> request
            == attach_request_spec(meta),
    decreases events.len(),
{
    if events.len() > 0 {
        law_package_file_is_attached(meta, verity, events.drop_last());
    }
}

/// The device that was made at some point in the course of these events.
pub open spec fn device_came_of(
    meta: PackageFsMetadata,
    verity: bool,
    events: Seq<PkgfsEventView>,
    i: int,
    source: Seq<char>,
) -> bool {
    &&& 0 <= i < events.len()
    &&& events[i] == PkgfsEventView::Device(Some(source))
    &&& if verity {
        pkgfs_run(meta, verity, events.take(i)) is CreateVerity
    } else {
        pkgfs_run(meta, verity, events.take(i)) is ResolveLoopPath
    }
}

/// With integrity checks what is mounted is the verified device that was made, never the
/// loop device below it; without them it is the loop device.
pub proof fn law_verified_device_is_mounted(
    meta: PackageFsMetadata,
    verity: bool,
    events: Seq<PkgfsEventView>,
)
    ensures
        pkgfs_run(meta, verity, events) matches PkgfsStepView::MountDevice { source } ==> exists|
            i: int,
        | #[trigger] device_came_of(meta, verity, events, i, source),
        pkgfs_run(meta, verity, events) is CreateVerity ==> verity,
    decreases events.len(),
{
    if events.len() > 0 {
        let before = events.drop_last();
        let last = events.len() - 1;
        law_verified_device_is_mounted(meta, verity, before);
        assert(events.take(last) =~= before);
        if let PkgfsStepView::MountDevice { source } = pkgfs_run(meta, verity, events) {
            if pkgfs_run(meta, verity, before) is MountDevice {
                let i = choose|i: int| #[trigger] device_came_of(meta, verity, before, i, source);
                assert(before.take(i) =~= events.take(i));
                assert(device_came_of(meta, verity, events, i, source));
            } else {
                assert(device_came_of(meta, verity, events, last, source));
            }
        }
    }
}

pub open spec fn verity_name_spec(pkg_name: Seq<char>, suffix: Seq<char>) -> Seq<char> {
    "ssam-"@ + pkg_name + "-verity-"@ + suffix
}

/// The name of a package's verified device. A fresh suffix keeps it apart from one that
/// is still being removed.
pub fn verity_name(pkg_name: &str, suffix: &str) -> (r: String)
    ensures
        r@ == verity_name_spec(pkg_name@, suffix@),
{
    let mut out = join2("ssam-", pkg_name);
    out.append("-verity-");
    out.append(suffix);
    out
}

/// Devices of one package with different suffixes have different names.
pub proof fn law_verity_names_distinct(pkg_name: Seq<char>, a: Seq<char>, b: Seq<char>)
    requires
        verity_name_spec(pkg_name, a) == verity_name_spec(pkg_name, b),
    ensures
        a == b,
{
    let head = "ssam-"@ + pkg_name + "-verity-"@;
    let x = verity_name_spec(pkg_name, a);
    let y = verity_name_spec(pkg_name, b);
    assert(x =~= head + a);
    assert(y =~= head + b);
    assert(x.skip(head.len() as int) =~= a);
    assert(y.skip(head.len() as int) =~= b);
}

/// A mount point as the system lists it, and with its symbolic links resolved.
#[derive(Debug)]
pub struct MountPoint {
    pub file: String,
    pub canonical: String,
}

/// Why no mount point was found.
#[derive(Debug, Clone, Copy, PartialEq, Eq, Structural)]
pub enum FindmntError {
    NotADirectory,
    MountsUnreadable,
    NoMatch,
}

impl FindmntError {
    pub fn message(&self) -> (r: &'static str)
        ensures
            r@ == match *self {
                FindmntError::NotADirectory => "does not exist or is not a directory"@,
                FindmntError::MountsUnreadable => "Failed to read system mounts"@,
                FindmntError::NoMatch => "No matching mount point found"@,
            },
    {
        match self {
            FindmntError::NotADirectory => "does not exist or is not a directory",
            FindmntError::MountsUnreadable => "Failed to read system mounts",
            FindmntError::NoMatch => "No matching mount point found",
        }
    }
}

pub open spec fn holds_target(m: MountPoint, target: Seq<char>) -> bool {
    is_under(target, m.canonical@)
}

pub open spec fn byte_len(s: Seq<char>) -> nat {
    encode_utf8(s).len()
}

/// `i` is the mount point that `target` lies on: the longest that holds it, and the last
/// of those that are as long.
pub open spec fn is_best_mount(mounts: Seq<MountPoint>, target: Seq<char>, i: int) -> bool {
    &&& 0 <= i < mounts.len()
    &&& holds_target(mounts[i], target)
    &&& forall|j: int|
        0 <= j < mounts.len() && #[trigger] holds_target(mounts[j], target) ==> byte_len(
            mounts[j].canonical@,
        ) < byte_len(mounts[i].canonical@) || (byte_len(mounts[j].canonical@) == byte_len(
            mounts[i].canonical@,
        ) && j <= i)
}

/// The mount point that a directory lies on.
pub fn findmnt_impl(
    target_is_dir: bool,
    canonical_target: &str,
    mounts: Option<&Vec<MountPoint>>,
) -> (r: Result<String, FindmntError>)
    ensures
        match r {
            Ok(file) => {
                &&& target_is_dir
                &&& mounts matches Some(all)
                &&& exists|i: int|
                    #[trigger] is_best_mount(all@, canonical_target@, i) && file@
                        == all@[i].file@
            },
            Err(FindmntError::NotADirectory) => !target_is_dir,
            Err(FindmntError::MountsUnreadable) => target_is_dir && mounts is None,
            Err(FindmntError::NoMatch) => {
                &&& target_is_dir
                &&& mounts matches Some(all)
                &&& forall|j: int|
                    0 <= j < all@.len() ==> !#[trigger] holds_target(all@[j], canonical_target@)
            },
        },
{
    if !target_is_dir {
        return Err(FindmntError::NotADirectory);
    }
    let all = match mounts {
        Some(all) => all,
        None => {
            return Err(FindmntError::MountsUnreadable);
        },
    };
    let mut best: Option<usize> = None;
    let mut best_len: usize = 0;
    let mut i: usize = 0;
    while i < all.len()
        invariant
            i <= all@.len(),
            match best {
                Some(b) => b < i && is_best_mount(all@.take(i as int), canonical_target@, b as int)
                    && best_len == byte_len(all@[b as int].canonical@),
                None => forall|j: int|
                    0 <= j < i ==> !#[trigger] holds_target(all@[j], canonical_target@),
            },
        decreases all.len() - i,
    {
        let ghost before = all@.take(i as int);
        let ghost upto = all@.take(i + 1);
        let canonical = all[i].canonical.as_str();
        let held = path_starts_with(canonical_target, canonical);
        let len: usize = canonical.as_bytes().len();
        assert(upto[i as int] == all@[i as int]);
        assert(held == holds_target(upto[i as int], canonical_target@));
        assert(forall|j: int| 0 <= j < i ==> upto[j] == before[j] && before[j] == all@[j]);
        match best {
            Some(b) => {
                if held && len >= best_len {
                    best = Some(i);
                    best_len = len;
                    assert forall|j: int|
                        0 <= j < upto.len() && #[trigger] holds_target(
                            upto[j],
                            canonical_target@,
                        ) implies byte_len(upto[j].canonical@) < byte_len(
                        upto[i as int].canonical@,
                    ) || (byte_len(upto[j].canonical@) == byte_len(upto[i as int].canonical@) && j
                        <= i) by {
                        if j < i {
                            assert(holds_target(before[j], canonical_target@));
                        }
                    }
                    assert(is_best_mount(upto, canonical_target@, i as int));
                } else {
                    assert forall|j: int|
                        0 <= j < upto.len() && #[trigger] holds_target(
                            upto[j],
                            canonical_target@,
                        ) implies byte_len(upto[j].canonical@) < byte_len(
                        upto[b as int].canonical@,
                    ) || (byte_len(upto[j].canonical@) == byte_len(upto[b as int].canonical@) && j
                        <= b) by {
                        if j < i {
                            assert(holds_target(before[j], canonical_target@));
                        }
                    }
                    assert(is_best_mount(upto, canonical_target@, b as int));
                }
            },
            None => {
                if held {
                    best = Some(i);
                    best_len = len;
                    assert forall|j: int|
                        0 <= j < upto.len() && #[trigger] holds_target(
                            upto[j],
                            canonical_target@,
                        ) implies j == i by {
                        if j < i {
                            assert(!holds_target(all@[j], canonical_target@));
                        }
                    }
                    assert(is_best_mount(upto, canonical_target@, i as int));
                }
            },
        }
        i += 1;
    }
    assert(all@.take(i as int) =~= all@);
    match best {
        Some(b) => {
            assert(is_best_mount(all@, canonical_target@, b as int));
            Ok(all[b].file.clone())
        },
        None => Err(FindmntError::NoMatch),
    }
}

/// A directory lies on one mount point only.
pub proof fn law_best_mount_unique(mounts: Seq<MountPoint>, target: Seq<char>, i: int, j: int)
    requires
        is_best_mount(mounts, target, i),
        is_best_mount(mounts, target, j),
    ensures
        i == j,
{
    assert(holds_target(mounts[i], target) && holds_target(mounts[j], target));
}

/// Whether the mount point found for a directory is the directory itself. Both paths have
/// their symbolic links resolved; nothing found is no.
pub fn is_exact_mount(found_canonical: Option<&str>, canonical_mount_point: &str) -> (r: bool)
    ensures
        r == match found_canonical {
            Some(found) => components(found@) == components(canonical_mount_point@),
            None => false,
        },
{
    match found_canonical {
        Some(found) => same_path(found, canonical_mount_point),
        None => false,
    }
}

/// The loop device of a package covers its file system and nothing else of the file, and
/// cannot be written to.
pub proof fn law_loop_device_of_a_package(meta: PackageFsMetadata)
    ensures
        attach_request_spec(meta).backing_file == meta.path@,
        attach_request_spec(meta).info.lo_offset == meta.pkgfs_offset,
        attach_request_spec(meta).info.lo_sizelimit == meta.length,
        attach_request_spec(meta).info.lo_flags == 1,
{
}

/// How a package's file system is mounted when nothing fails: its file is attached, with
/// integrity checks the verified device is made over the loop device, and the device is
/// mounted.
pub proof fn law_mounting_when_nothing_fails(
    meta: PackageFsMetadata,
    loop_path: Seq<char>,
    node: Seq<char>,
)
    ensures
        ({
            let no = PkgfsEventView::Answered(false);
            let ok = PkgfsEventView::Answered(true);
            let at = PkgfsEventView::Device(Some(loop_path));
            let made = PkgfsEventView::Device(Some(node));
            &&& pkgfs_run(meta, true, seq![no]) is AttachLoop
            &&& pkgfs_run(meta, false, seq![no]) is AttachLoop
            &&& pkgfs_run(meta, true, seq![no, ok]) is ResolveLoopPath
            &&& pkgfs_run(meta, true, seq![no, ok, at]) == (PkgfsStepView::CreateVerity {
                loop_path,
            })
            &&& pkgfs_run(meta, true, seq![no, ok, at, made]) == (PkgfsStepView::MountDevice {
                source: node,
            })
            &&& pkgfs_run(meta, true, seq![no, ok, at, made, ok]) == (PkgfsStepView::Mounted {
                reused: false,
            })
            &&& pkgfs_run(meta, false, seq![no, ok, at]) == (PkgfsStepView::MountDevice {
                source: loop_path,
            })
            &&& pkgfs_run(meta, false, seq![no, ok, at, ok]) == (PkgfsStepView::Mounted {
                reused: false,
            })
        }),
{
    let no = PkgfsEventView::Answered(false);
    let ok = PkgfsEventView::Answered(true);
    let at = PkgfsEventView::Device(Some(loop_path));
    let made = PkgfsEventView::Device(Some(node));
    assert(seq![no].drop_last() =~= Seq::empty());
    assert(seq![no, ok].drop_last() =~= seq![no]);
    assert(seq![no, ok, at].drop_last() =~= seq![no, ok]);
    assert(seq![no, ok, at, made].drop_last() =~= seq![no, ok, at]);
    assert(seq![no, ok, at, ok].drop_last() =~= seq![no, ok, at]);
    assert(seq![no, ok, at, made, ok].drop_last() =~= seq![no, ok, at, made]);
    reveal_with_fuel(pkgfs_run, 6);
}

/// A part that fails ends the mount in its own error, and nothing is mounted after it.
pub proof fn law_mounting_when_something_fails(
    meta: PackageFsMetadata,
    verity: bool,
    loop_path: Seq<char>,
    source: Seq<char>,
    request: AttachRequestView,
)
    ensures
        ({
            let no = PkgfsEventView::Answered(false);
            let none = PkgfsEventView::Device(None);
            &&& pkgfs_step(meta, verity, PkgfsStepView::AttachLoop(request), no) is AttachFailed
            &&& pkgfs_step(meta, verity, PkgfsStepView::ResolveLoopPath, none) is NoLoopPath
            &&& pkgfs_step(meta, true, PkgfsStepView::CreateVerity { loop_path }, none)
                is VerityFailed
            &&& pkgfs_step(meta, verity, PkgfsStepView::MountDevice { source }, no) is MountFailed
        }),
{
}

/// How the layers of a package are mounted: the base, then the overlay where overlays are
/// used. A base that fails is the end; an overlay that fails takes the base down again.
pub proof fn law_layers_are_mounted_in_order(overlay_enabled: bool, ok: bool)
    ensures
        device_step(true, DeviceStep::MountBase, true) is MountOverlay,
        device_step(false, DeviceStep::MountBase, true) is Mounted,
        device_step(overlay_enabled, DeviceStep::MountBase, false) is BaseFailed,
        device_step(overlay_enabled, DeviceStep::MountOverlay, true) is Mounted,
        device_step(overlay_enabled, DeviceStep::MountOverlay, false) is UnmountBase,
        device_step(overlay_enabled, DeviceStep::UnmountBase, ok) is OverlayFailed,
{
}

/// Unmounting takes off what is there, the overlay before the base, and stops where an
/// unmount fails.
pub proof fn law_unmounting_stops_where_it_fails(step: UnmountStep)
    ensures
        unmount_step(UnmountStep::CheckOverlay, true) is UnmountOverlay,
        unmount_step(UnmountStep::CheckOverlay, false) is CheckBase,
        unmount_step(UnmountStep::UnmountOverlay, true) is CheckBase,
        unmount_step(UnmountStep::UnmountOverlay, false) is OverlayFailed,
        unmount_step(UnmountStep::CheckBase, true) is UnmountBase,
        unmount_step(UnmountStep::CheckBase, false) is Unmounted,
        unmount_step(UnmountStep::UnmountBase, true) is Unmounted,
        unmount_step(UnmountStep::UnmountBase, false) is BaseFailed,
{
}

/// An attempt that attached ends the attempts, one that failed for good gives up, and the two
/// passing failures are tried again as long as each is allowed to be.
pub proof fn law_attempts(busy: nat, wouldblock: nat, busy_max: nat, wouldblock_max: nat)
    ensures
        decision(busy, wouldblock, busy_max, wouldblock_max, AttachOutcome::Attached) is Done,
        decision(busy, wouldblock, busy_max, wouldblock_max, AttachOutcome::Failed) is GiveUp,
        decision(busy, wouldblock, busy_max, wouldblock_max, AttachOutcome::NoFreeDevice)
            is GiveUp,
        decision(busy, wouldblock, busy_max, wouldblock_max, AttachOutcome::Busy) == if busy
            < busy_max {
            AttachDecision::Retry
        } else {
            AttachDecision::GiveUp
        },
        decision(busy, wouldblock, busy_max, wouldblock_max, AttachOutcome::WouldBlock)
            == if wouldblock < wouldblock_max {
            AttachDecision::Retry
        } else {
            AttachDecision::GiveUp
        },
{
}

/// The options of an overlay name the lower directory, the upper one and the one for work in
/// progress, each for what it is; a reader of the lower one gets back the very path.
pub proof fn law_overlay_options(lower: Seq<char>, upper: Seq<char>, work: Seq<char>)
    ensures
        exists|list: Seq<char>|
            {
                &&& #[trigger] unescaped(list) == lower
                &&& first_separator(list) == -1
                &&& overlay_options(lower, upper, work) == "lowerdir="@ + list + ",upperdir="@
                    + upper + ",workdir="@ + work
            },
{
    law_escape_is_undone(lower);
    assert(unescaped(escaped(lower)) == lower);
}

/// The name of a verified device tells its package.
pub proof fn law_name_of_a_verified_device(pkg_name: Seq<char>, suffix: Seq<char>)
    ensures
        verity_name_spec(pkg_name, suffix) == "ssam-"@ + pkg_name + "-verity-"@ + suffix,
{
}

/// What a mount point holds lies below it, component by component, and the mount point that
/// a path lies on is the longest that holds it.
pub proof fn law_best_mount_holds_target(mounts: Seq<MountPoint>, target: Seq<char>, i: int, j: int)
    requires
        is_best_mount(mounts, target, i),
        0 <= j < mounts.len(),
        components(mounts[j].canonical@).is_prefix_of(components(target)),
    ensures
        components(mounts[i].canonical@).is_prefix_of(components(target)),
        encode_utf8(mounts[j].canonical@).len() <= encode_utf8(mounts[i].canonical@).len(),
        j > i ==> encode_utf8(mounts[j].canonical@).len() < encode_utf8(
            mounts[i].canonical@,
        ).len(),
{
    assert(holds_target(mounts[j], target));
    assert(holds_target(mounts[i], target));
}

/// Where some mount point holds a path, one of them is the one that the path lies on.
pub proof fn law_some_mount_is_best(mounts: Seq<MountPoint>, target: Seq<char>, j: int)
    requires
        0 <= j < mounts.len(),
        components(mounts[j].canonical@).is_prefix_of(components(target)),
    ensures
        exists|i: int| #[trigger] is_best_mount(mounts, target, i),
    decreases mounts.len(),
{
    assert(holds_target(mounts[j], target));
    let front = mounts.drop_last();
    let n = mounts.len() - 1;
    if exists|k: int| 0 <= k < n && holds_target(#[trigger] mounts[k], target) {
        let k = choose|k: int| 0 <= k < n && holds_target(#[trigger] mounts[k], target);
        assert(front[k] == mounts[k]);
        law_some_mount_is_best(front, target, k);
        let b = choose|i: int| #[trigger] is_best_mount(front, target, i);
        assert(holds_target(front[b], target));
        assert(front[b] == mounts[b]);
        let better = holds_target(mounts[n], target) && byte_len(mounts[b].canonical@) <= byte_len(
            mounts[n].canonical@,
        );
        let best = if better {
            n
        } else {
            b
        };
        assert forall|i: int|
            0 <= i < mounts.len() && #[trigger] holds_target(mounts[i], target) implies byte_len(
            mounts[i].canonical@,
        ) < byte_len(mounts[best].canonical@) || (byte_len(mounts[i].canonical@) == byte_len(
            mounts[best].canonical@,
        ) && i <= best) by {
            if i < n {
                assert(holds_target(front[i], target));
            }
        }
        assert(is_best_mount(mounts, target, best));
    } else {
        assert(j == n);
        assert forall|i: int|
            0 <= i < mounts.len() && #[trigger] holds_target(mounts[i], target) implies i
            == n by {
            if i < n {
                assert(holds_target(mounts[i], target));
            }
        }
        assert(is_best_mount(mounts, target, j));
    }
}

} // verus!
