use ssamd::transitioner::{
    cleanup_plan, mount_next, netns_first, netns_next, setup_result, teardown_plan, undo_result,
    MountStep, NetnsStep, SetupError, SetupParts, UndoAction,
};

#[test]
fn a_failed_mount_is_tried_once_more() {
    let run = |answers: &[bool]| {
        answers.iter().fold(MountStep::Mount, |step, &ok| mount_next(step, ok))
    };
    assert_eq!(run(&[true]), MountStep::Mounted);
    assert_eq!(run(&[false, true, true]), MountStep::Mounted);
    assert_eq!(run(&[false, false]), MountStep::UnmountFailed);
    assert_eq!(run(&[false, true, false]), MountStep::MountFailed);
    assert_eq!(run(&[false, true, false, true]), MountStep::MountFailed);
}

#[test]
fn a_namespace_is_made_before_it_is_attached_to() {
    assert_eq!(netns_first(false), NetnsStep::Connected);
    assert_eq!(netns_first(true), NetnsStep::Create);
    assert_eq!(netns_next(NetnsStep::Create, true), NetnsStep::Attach);
    assert_eq!(netns_next(NetnsStep::Create, false), NetnsStep::Failed);
    assert_eq!(netns_next(NetnsStep::Attach, true), NetnsStep::Connected);
    assert_eq!(netns_next(NetnsStep::Attach, false), NetnsStep::Failed);
}

#[test]
fn the_first_part_that_failed_is_reported() {
    let all =
        SetupParts { all_ended: true, executor: true, prepare: true, network: true, mount: true };
    assert_eq!(setup_result(all), Ok(()));
    assert_eq!(setup_result(SetupParts { all_ended: false, ..all }), Err(SetupError::Join));
    assert_eq!(
        setup_result(SetupParts { executor: false, mount: false, ..all }),
        Err(SetupError::Executor)
    );
    assert_eq!(setup_result(SetupParts { prepare: false, ..all }), Err(SetupError::Prepare));
    assert_eq!(
        setup_result(SetupParts { network: false, mount: false, ..all }),
        Err(SetupError::Network)
    );
    assert_eq!(setup_result(SetupParts { mount: false, ..all }), Err(SetupError::Mount));
}

#[test]
fn the_file_system_is_unmounted_last() {
    assert_eq!(cleanup_plan(false), [UndoAction::Unmount]);
    assert_eq!(
        cleanup_plan(true),
        [UndoAction::Detach, UndoAction::DestroyNetns, UndoAction::Unmount]
    );
    assert_eq!(
        teardown_plan(true, true),
        [
            UndoAction::StopExecutor,
            UndoAction::Detach,
            UndoAction::DestroyNetns,
            UndoAction::Unmount
        ]
    );
    assert_eq!(teardown_plan(false, false), [UndoAction::Unmount]);
    assert!(undo_result(&vec![false, false, true]));
    assert!(!undo_result(&vec![true, false]));
}
