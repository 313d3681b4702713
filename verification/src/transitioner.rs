//! What setting a package up, cleaning it up and tearing it down consist of.

use vstd::prelude::*;

verus! {

/// Mounting the package's file system: one that fails is tried once more, after
/// unmounting what may be left.
#[derive(Debug, Clone, Copy, PartialEq, Eq, Structural)]
pub enum MountStep {
    Mount,
    Unmount,
    MountAgain,
    Mounted,
    /// The second mount failed.
    MountFailed,
    /// What the first mount left could not be unmounted.
    UnmountFailed,
}

pub open spec fn mount_step(step: MountStep, ok: bool) -> MountStep {
    match step {
        MountStep::Mount => if ok {
            MountStep::Mounted
        } else {
            MountStep::Unmount
        },
        MountStep::Unmount => if ok {
            MountStep::MountAgain
        } else {
            MountStep::UnmountFailed
        },
        MountStep::MountAgain => if ok {
            MountStep::Mounted
        } else {
            MountStep::MountFailed
        },
        _ => step,
    }
}

pub fn mount_next(step: MountStep, ok: bool) -> (r: MountStep)
    ensures
        r == mount_step(step, ok),
{
    match step {
        MountStep::Mount => if ok {
            MountStep::Mounted
        } else {
            MountStep::Unmount
        },
        MountStep::Unmount => if ok {
            MountStep::MountAgain
        } else {
            MountStep::UnmountFailed
        },
        MountStep::MountAgain => if ok {
            MountStep::Mounted
        } else {
            MountStep::MountFailed
        },
        other => other,
    }
}

/// The step after any number of answers.
pub open spec fn mount_run(answers: Seq<bool>) -> MountStep
    decreases answers.len(),
{
    if answers.len() == 0 {
        MountStep::Mount
    } else {
        mount_step(mount_run(answers.drop_last()), answers.last())
    }
}

/// A file system that fails to mount is mounted once more, and no more: after three
/// answers the outcome is settled, and it is mounted if and only if the first attempt
/// succeeded, or the unmount and the second attempt did.
pub proof fn law_mount_is_retried_once(a: bool, b: bool, c: bool)
    ensures
        mount_run(seq![a, b, c]) == if a || (b && c) {
            MountStep::Mounted
        } else if !b {
            MountStep::UnmountFailed
        } else {
            MountStep::MountFailed
        },
{
    reveal_with_fuel(mount_run, 5);
    let s = seq![a, b, c];
    assert(s.drop_last() =~= seq![a, b]);
    assert(seq![a, b].drop_last() =~= seq![a]);
    assert(seq![a].drop_last() =~= Seq::<bool>::empty());
}

/// What happens to the network of a package while it is set up.
#[derive(Debug, Clone, Copy, PartialEq, Eq, Structural)]
pub enum NetnsStep {
    Create,
    Attach,
    Connected,
    Failed,
}

pub open spec fn first_netns_step(bridged: bool) -> NetnsStep {
    if bridged {
        NetnsStep::Create
    } else {
        NetnsStep::Connected
    }
}

pub open spec fn netns_step(step: NetnsStep, ok: bool) -> NetnsStep {
    match step {
        NetnsStep::Create => if ok {
            NetnsStep::Attach
        } else {
            NetnsStep::Failed
        },
        NetnsStep::Attach => if ok {
            NetnsStep::Connected
        } else {
            NetnsStep::Failed
        },
        other => other,
    }
}

/// A package on a bridge is connected only after its namespace was made and then its interface
/// attached; another needs neither.
pub proof fn law_connected_after_namespace_and_interface(a: bool, b: bool)
    ensures
        first_netns_step(false) is Connected,
        first_netns_step(true) is Create,
        netns_step(netns_step(first_netns_step(true), a), b) is Connected <==> a && b,
        netns_step(first_netns_step(true), true) is Attach,
        !a ==> netns_step(first_netns_step(true), a) is Failed,
        !b ==> netns_step(netns_step(first_netns_step(true), a), b) is Failed,
{
}

/// A package that is not on a bridge needs nothing.
pub fn netns_first(bridged: bool) -> (r: NetnsStep)
    ensures
        r == first_netns_step(bridged),
        r == if bridged {
            NetnsStep::Create
        } else {
            NetnsStep::Connected
        },
{
    if bridged {
        NetnsStep::Create
    } else {
        NetnsStep::Connected
    }
}

/// The namespace is made first, and only then is anything attached to it.
pub fn netns_next(step: NetnsStep, ok: bool) -> (r: NetnsStep)
    ensures
        r == netns_step(step, ok),
        r == match step {
            NetnsStep::Create => if ok {
                NetnsStep::Attach
            } else {
                NetnsStep::Failed
            },
            NetnsStep::Attach => if ok {
                NetnsStep::Connected
            } else {
                NetnsStep::Failed
            },
            other => other,
        },
{
    match step {
        NetnsStep::Create => if ok {
            NetnsStep::Attach
        } else {
            NetnsStep::Failed
        },
        NetnsStep::Attach => if ok {
            NetnsStep::Connected
        } else {
            NetnsStep::Failed
        },
        other => other,
    }
}

/// The part of a setup that failed.
#[derive(Debug, Clone, Copy, PartialEq, Eq, Structural)]
pub enum SetupError {
    /// One of the parts did not come to an end.
    Join,
    Executor,
    Prepare,
    Network,
    Mount,
}

/// What became of the four parts of a setup, which run side by side.
#[derive(Debug, Clone, Copy, PartialEq, Eq, Structural)]
pub struct SetupParts {
    pub all_ended: bool,
    pub executor: bool,
    pub prepare: bool,
    pub network: bool,
    pub mount: bool,
}

/// The first part of a setup that failed.
pub open spec fn setup_error(parts: SetupParts) -> Option<SetupError> {
    if !parts.all_ended {
        Some(SetupError::Join)
    } else if !parts.executor {
        Some(SetupError::Executor)
    } else if !parts.prepare {
        Some(SetupError::Prepare)
    } else if !parts.network {
        Some(SetupError::Network)
    } else if !parts.mount {
        Some(SetupError::Mount)
    } else {
        None
    }
}

/// A setup succeeds if and only if every part of it did, and what is reported did fail.
pub proof fn law_setup_needs_all_parts(parts: SetupParts)
    ensures
        setup_error(parts) is None <==> parts.all_ended && parts.executor && parts.prepare
            && parts.network && parts.mount,
        setup_error(parts) == Some(SetupError::Join) ==> !parts.all_ended,
        setup_error(parts) == Some(SetupError::Executor) ==> !parts.executor,
        setup_error(parts) == Some(SetupError::Prepare) ==> !parts.prepare,
        setup_error(parts) == Some(SetupError::Network) ==> !parts.network,
        setup_error(parts) == Some(SetupError::Mount) ==> !parts.mount && parts.executor
            && parts.prepare && parts.network,
{
}

/// A setup succeeds if all its parts do. Of several that fail, the first of executor,
/// preparation, network and mount is reported.
pub fn setup_result(parts: SetupParts) -> (r: Result<(), SetupError>)
    ensures
        r == match setup_error(parts) {
            Some(e) => Err::<(), SetupError>(e),
            None => Ok(()),
        },
        r is Ok <==> parts.all_ended && parts.executor && parts.prepare && parts.network
            && parts.mount,
        r matches Err(e) ==> e == if !parts.all_ended {
            SetupError::Join
        } else if !parts.executor {
            SetupError::Executor
        } else if !parts.prepare {
            SetupError::Prepare
        } else if !parts.network {
            SetupError::Network
        } else {
            SetupError::Mount
        },
{
    if !parts.all_ended {
        Err(SetupError::Join)
    } else if !parts.executor {
        Err(SetupError::Executor)
    } else if !parts.prepare {
        Err(SetupError::Prepare)
    } else if !parts.network {
        Err(SetupError::Network)
    } else if !parts.mount {
        Err(SetupError::Mount)
    } else {
        Ok(())
    }
}

/// One thing to undo. Only the unmount decides whether undoing succeeded.
#[derive(Debug, Clone, Copy, PartialEq, Eq, Structural)]
pub enum UndoAction {
    /// Stop the unit and clear its failure.
    StopExecutor,
    Detach,
    DestroyNetns,
    Unmount,
}

/// What undoing a setup consists of, in order: the unit first where there is one, then
/// the network of a package on a bridge, the file system last.
pub open spec fn undo_actions(has_executor: bool, bridged: bool) -> Seq<UndoAction> {
    (if has_executor {
        seq![UndoAction::StopExecutor]
    } else {
        Seq::empty()
    }) + (if bridged {
        seq![UndoAction::Detach, UndoAction::DestroyNetns]
    } else {
        Seq::empty()
    }) + seq![UndoAction::Unmount]
}

fn undo_plan(has_executor: bool, bridged: bool) -> (r: Vec<UndoAction>)
    ensures
        r@ == undo_actions(has_executor, bridged),
{
    let mut out: Vec<UndoAction> = Vec::new();
    if has_executor {
        out.push(UndoAction::StopExecutor);
    }
    if bridged {
        out.push(UndoAction::Detach);
        out.push(UndoAction::DestroyNetns);
    }
    out.push(UndoAction::Unmount);
    assert(out@ =~= undo_actions(has_executor, bridged));
    out
}

/// What cleaning a package up consists of: its unit is left alone.
pub fn cleanup_plan(bridged: bool) -> (r: Vec<UndoAction>)
    ensures
        r@ == undo_actions(false, bridged),
{
    undo_plan(false, bridged)
}

/// What tearing a package down consists of. A unit that was never made is not stopped.
pub fn teardown_plan(has_executor: bool, bridged: bool) -> (r: Vec<UndoAction>)
    ensures
        r@ == undo_actions(has_executor, bridged),
{
    undo_plan(has_executor, bridged)
}

/// Whether undoing succeeded, by what became of its actions: that of the last alone
/// counts.
pub fn undo_result(outcomes: &Vec<bool>) -> (r: bool)
    requires
        outcomes@.len() > 0,
    ensures
        r == outcomes@.last(),
{
    outcomes[outcomes.len() - 1]
}

/// The file system is always unmounted, and last: nothing that fails before it is in the
/// way.
pub proof fn law_unmount_comes_last(has_executor: bool, bridged: bool)
    ensures
        undo_actions(has_executor, bridged).last() == UndoAction::Unmount,
        forall|i: int|
            0 <= i < undo_actions(has_executor, bridged).len() - 1 ==> undo_actions(
                has_executor,
                bridged,
            )[i] != UndoAction::Unmount,
{
}

/// What is undone: the unit where there is one, and for a package on a bridge its interface
/// before its namespace. Nothing is undone that was not set up.
pub proof fn law_all_is_undone(has_executor: bool, bridged: bool)
    ensures
        ({
            let plan = undo_actions(has_executor, bridged);
            &&& plan.contains(UndoAction::Unmount)
            &&& plan.contains(UndoAction::StopExecutor) <==> has_executor
            &&& plan.contains(UndoAction::Detach) <==> bridged
            &&& plan.contains(UndoAction::DestroyNetns) <==> bridged
            &&& has_executor ==> plan[0] == UndoAction::StopExecutor
            &&& bridged ==> plan[plan.len() - 3] == UndoAction::Detach && plan[plan.len() - 2]
                == UndoAction::DestroyNetns
            &&& plan.len() == 1 + (if has_executor {
                1int
            } else {
                0
            }) + (if bridged {
                2int
            } else {
                0
            })
        }),
{
    let plan = undo_actions(has_executor, bridged);
    assert(plan[plan.len() - 1] == UndoAction::Unmount);
    if has_executor {
        assert(plan[0] == UndoAction::StopExecutor);
    }
    if bridged {
        assert(plan[plan.len() - 3] == UndoAction::Detach);
        assert(plan[plan.len() - 2] == UndoAction::DestroyNetns);
    }
}

/// Mounting goes on only where it failed: a mount that succeeds is the end, and the second
/// attempt comes after an unmount that succeeded.
pub proof fn law_mount_goes_on_where_it_failed(ok: bool)
    ensures
        mount_step(MountStep::Mount, true) is Mounted,
        mount_step(MountStep::Mount, false) is Unmount,
        mount_step(MountStep::Unmount, true) is MountAgain,
        mount_step(MountStep::Unmount, false) is UnmountFailed,
        mount_step(MountStep::MountAgain, true) is Mounted,
        mount_step(MountStep::MountAgain, false) is MountFailed,
        mount_step(MountStep::Mounted, ok) is Mounted,
{
}

} // verus!
