use ssamd::package_status::{ExecutionResult, ExecutionStatus, PackageStatus};
use ssamd::state_machine::{Outcome, Reply, TransitionError, TransitionManagerActor};
use ssamd::transition::Operation;

#[derive(Default)]
struct MockPackageTransitioner {
    setup_should_fail: bool,
    start_should_fail: bool,
    stop_should_fail: bool,
    cleanup_should_fail: bool,
    performed: Vec<Operation>,
}

impl MockPackageTransitioner {
    fn perform(&mut self, operation: Operation) -> Outcome {
        self.performed.push(operation);
        match operation {
            Operation::Setup if self.setup_should_fail => {
                Outcome::Done(Err("Setup failed".to_string()))
            }
            Operation::Cleanup if self.cleanup_should_fail => {
                Outcome::Done(Err("Cleanup failed".to_string()))
            }
            Operation::Setup | Operation::Cleanup | Operation::Teardown => Outcome::Done(Ok(())),
            Operation::Start if self.start_should_fail => {
                Outcome::Executed(Err("Start failed".to_string()))
            }
            Operation::Start => Outcome::Executed(Ok(ExecutionResult::Success(
                ExecutionStatus::Active("running".to_string()),
            ))),
            Operation::Stop if self.stop_should_fail => {
                Outcome::Executed(Err("Stop failed".to_string()))
            }
            Operation::Stop => Outcome::Executed(Ok(ExecutionResult::Success(
                ExecutionStatus::Inactive("stopped".to_string()),
            ))),
        }
    }
}

struct TransitionManager {
    actor: TransitionManagerActor,
    ops: MockPackageTransitioner,
}

impl TransitionManager {
    fn new(ops: MockPackageTransitioner) -> Self {
        Self { actor: TransitionManagerActor::new("test-package".to_string()), ops }
    }

    fn transition_to(&mut self, target: PackageStatus) -> Result<(), TransitionError> {
        let mut reply = self.actor.transition_to(target);
        loop {
            match reply {
                Reply::Finished(result) => {
                    assert!(self.actor.is_idle());
                    return result;
                }
                Reply::Perform(operation) => {
                    let outcome = self.ops.perform(operation);
                    reply = self.actor.completed(outcome);
                }
            }
        }
    }

    fn get_status(&self) -> PackageStatus {
        self.actor.get_status()
    }

    fn request_setup(&mut self) -> Result<(), TransitionError> {
        self.transition_to(PackageStatus::SettingUp)
    }

    fn request_start(&mut self) -> Result<(), TransitionError> {
        self.transition_to(PackageStatus::StartRequested)
    }

    fn request_stop(&mut self) -> Result<(), TransitionError> {
        self.transition_to(PackageStatus::StopRequested)
    }

    fn request_cleanup(&mut self) -> Result<(), TransitionError> {
        self.transition_to(PackageStatus::CleaningUp)
    }

    fn prepare_upgrade(&mut self) -> Result<(), TransitionError> {
        self.transition_to(PackageStatus::Upgrading)
    }

    fn teardown(&mut self) -> Result<(), String> {
        if self.actor.needs_teardown() {
            match self.ops.perform(Operation::Teardown) {
                Outcome::Done(result) => return result,
                Outcome::Executed(_) => unreachable!(),
            }
        }
        Ok(())
    }
}

fn manager() -> TransitionManager {
    TransitionManager::new(MockPackageTransitioner::default())
}

#[test]
fn test_transition_manager_with_mock_ops() {
    let mut actor = manager();
    assert_eq!(actor.get_status(), PackageStatus::Verified);
    let result = actor.transition_to(PackageStatus::SettingUp);
    assert!(result.is_ok());
    assert_eq!(actor.get_status(), PackageStatus::Ready);
}

#[test]
fn test_transition_manager_with_setup_failure() {
    let mut actor = TransitionManager::new(MockPackageTransitioner {
        setup_should_fail: true,
        ..Default::default()
    });
    let result = actor.transition_to(PackageStatus::SettingUp);
    assert!(result.is_err());
    assert!(matches!(actor.get_status(), PackageStatus::Error(_)));
    assert_eq!(actor.ops.performed, [Operation::Setup, Operation::Cleanup]);
    assert_eq!(
        result.unwrap_err().message("test-package"),
        format!(
            "Package test-package got into error state: {}",
            PackageStatus::Error("Setup failed".to_string()).to_text()
        )
    );
}

#[test]
fn test_no_transition_needed() {
    let mut actor = manager();
    let result = actor.transition_to(PackageStatus::Verified);
    assert!(result.is_ok());
    assert_eq!(actor.get_status(), PackageStatus::Verified);
    assert!(actor.ops.performed.is_empty());
}

#[test]
fn test_transition_manager_actor_message_handlers() {
    let mut actor = manager();
    assert_eq!(actor.get_status(), PackageStatus::Verified);
    let result = actor.transition_to(PackageStatus::SettingUp);
    assert!(result.is_ok());
    assert_eq!(actor.get_status(), PackageStatus::Ready);
    assert!(actor.teardown().is_ok());
}

#[test]
fn test_transition_manager_actor_invalid_transition() {
    let mut actor = manager();
    let result = actor.transition_to(PackageStatus::Running("active".to_string()));
    assert!(result.is_err());
    assert_eq!(actor.get_status(), PackageStatus::Verified);
    assert!(result
        .unwrap_err()
        .message("test-package")
        .starts_with("Invalid transition from "));
}

#[test]
fn test_transition_manager_actor_start_and_stop_flow() {
    let mut actor = manager();
    let result = actor.transition_to(PackageStatus::SettingUp);
    assert!(result.is_ok());
    assert_eq!(actor.get_status(), PackageStatus::Ready);
    let result = actor.transition_to(PackageStatus::StartRequested);
    assert!(result.is_ok());
    assert!(matches!(actor.get_status(), PackageStatus::Running(_)));
    let result = actor.transition_to(PackageStatus::StopRequested);
    assert!(result.is_ok());
    assert_eq!(actor.get_status(), PackageStatus::Ready);
}

#[test]
fn test_transition_manager_actor_cleanup_flow() {
    let mut actor = manager();
    let result = actor.transition_to(PackageStatus::SettingUp);
    assert!(result.is_ok());
    assert_eq!(actor.get_status(), PackageStatus::Ready);
    let result = actor.transition_to(PackageStatus::CleaningUp);
    assert!(result.is_ok());
    assert_eq!(actor.get_status(), PackageStatus::Cleaned);
}

#[test]
fn test_transition_manager_handler_creation() {
    let handler = manager();
    assert_eq!(handler.actor.get_name(), "test-package");
}

#[test]
fn test_transition_manager_handler_setup() {
    let mut handler = manager();
    let result = handler.request_setup();
    assert!(result.is_ok());
    assert_eq!(handler.get_status(), PackageStatus::Ready);
}

#[test]
fn test_transition_manager_handler_setup_failure() {
    let mut handler = TransitionManager::new(MockPackageTransitioner {
        setup_should_fail: true,
        ..Default::default()
    });
    let result = handler.request_setup();
    assert!(result.is_err());
    assert!(matches!(handler.get_status(), PackageStatus::Error(_)));
}

#[test]
fn test_transition_manager_handler_start() {
    let mut handler = manager();
    handler.request_setup().expect("Setup should succeed");
    let result = handler.request_start();
    assert!(result.is_ok());
    assert!(matches!(handler.get_status(), PackageStatus::Running(_)));
}

#[test]
fn test_transition_manager_handler_start_failure() {
    let mut handler = TransitionManager::new(MockPackageTransitioner {
        start_should_fail: true,
        ..Default::default()
    });
    handler.request_setup().expect("Setup should succeed");
    let result = handler.request_start();
    assert!(result.is_err());
    assert!(matches!(handler.get_status(), PackageStatus::Error(_)));
}

#[test]
fn test_transition_manager_handler_stop() {
    let mut handler = manager();
    handler.request_setup().expect("Setup should succeed");
    handler.request_start().expect("Start should succeed");
    let result = handler.request_stop();
    assert!(result.is_ok());
    assert_eq!(handler.get_status(), PackageStatus::Ready);
}

#[test]
fn test_transition_manager_handler_stop_failure() {
    let mut handler = TransitionManager::new(MockPackageTransitioner {
        stop_should_fail: true,
        ..Default::default()
    });
    handler.request_setup().expect("Setup should succeed");
    handler.request_start().expect("Start should succeed");
    let result = handler.request_stop();
    assert!(result.is_err());
    assert!(matches!(handler.get_status(), PackageStatus::Error(_)));
}

#[test]
fn test_transition_manager_handler_cleanup() {
    let mut handler = manager();
    handler.request_setup().expect("Setup should succeed");
    let result = handler.request_cleanup();
    assert!(result.is_ok());
    assert_eq!(handler.get_status(), PackageStatus::Cleaned);
}

#[test]
fn test_transition_manager_handler_cleanup_failure() {
    let mut handler = TransitionManager::new(MockPackageTransitioner {
        cleanup_should_fail: true,
        ..Default::default()
    });
    handler.request_setup().expect("Setup should succeed");
    let result = handler.request_cleanup();
    assert!(result.is_err());
    assert!(matches!(handler.get_status(), PackageStatus::Error(_)));
}

#[test]
fn test_transition_manager_handler_teardown() {
    let mut handler = manager();
    assert!(handler.teardown().is_ok());
    assert!(handler.ops.performed.is_empty());
}

#[test]
fn test_transition_manager_handler_complex_workflow() {
    let mut handler = manager();
    assert_eq!(handler.get_status(), PackageStatus::Verified);
    handler.request_setup().expect("Setup should succeed");
    assert_eq!(handler.get_status(), PackageStatus::Ready);
    handler.request_start().expect("Start should succeed");
    assert!(matches!(handler.get_status(), PackageStatus::Running(_)));
    handler.request_stop().expect("Stop should succeed");
    assert_eq!(handler.get_status(), PackageStatus::Ready);
    handler.request_cleanup().expect("Cleanup should succeed");
    assert_eq!(handler.get_status(), PackageStatus::Cleaned);
    handler.teardown().expect("Teardown should succeed");
}

#[test]
fn test_transition_manager_handler_ignore_transitions() {
    let mut handler = manager();
    handler.request_setup().expect("Setup should succeed");
    assert_eq!(handler.get_status(), PackageStatus::Ready);
    let result = handler.request_stop();
    assert!(result.is_ok());
    assert_eq!(handler.get_status(), PackageStatus::Ready);
    assert_eq!(handler.ops.performed, [Operation::Setup]);
}

#[test]
fn test_prepare_upgrade_from_verified() {
    let mut handler = manager();
    assert_eq!(handler.get_status(), PackageStatus::Verified);
    handler.prepare_upgrade().expect("Upgrade from Verified should succeed");
    assert_eq!(handler.get_status(), PackageStatus::Upgrading);
}

#[test]
fn test_prepare_upgrade_from_ready() {
    let mut handler = manager();
    handler.request_setup().expect("Setup should succeed");
    assert_eq!(handler.get_status(), PackageStatus::Ready);
    handler.prepare_upgrade().expect("Upgrade from Ready should succeed");
    assert_eq!(handler.get_status(), PackageStatus::Upgrading);
    assert_eq!(handler.ops.performed, [Operation::Setup, Operation::Teardown]);
}

#[test]
fn test_prepare_upgrade_from_cleaned_fails() {
    let mut handler = manager();
    handler.request_setup().expect("Setup should succeed");
    handler.request_cleanup().expect("Cleanup should succeed");
    assert_eq!(handler.get_status(), PackageStatus::Cleaned);
    let result = handler.prepare_upgrade();
    assert!(result.is_err());
}

#[test]
fn test_raw_teardown_succeeds_from_any_state() {
    let mut handler = manager();
    assert_eq!(handler.get_status(), PackageStatus::Verified);
    handler.teardown().expect("Teardown should succeed");
}

#[test]
fn only_what_was_set_up_is_torn_down() {
    let mut handler = manager();
    assert!(!handler.actor.needs_teardown());
    handler.request_setup().unwrap();
    assert!(handler.actor.needs_teardown());
    handler.request_cleanup().unwrap();
    assert!(!handler.actor.needs_teardown());
}

#[test]
fn a_unit_that_stops_by_itself_leaves_the_package_ready() {
    let mut handler = manager();
    handler.request_setup().unwrap();
    handler.request_start().unwrap();
    let inactive = PackageStatus::of_unit(ExecutionStatus::Inactive("inactive".to_string()));
    assert_eq!(inactive, PackageStatus::Ready);
    handler.transition_to(inactive).unwrap();
    assert_eq!(handler.get_status(), PackageStatus::Ready);
    let failed = PackageStatus::of_unit(ExecutionStatus::Active("failed".to_string()));
    handler.transition_to(failed).unwrap();
    assert_eq!(handler.get_status(), PackageStatus::Running("failed".to_string()));
    handler.request_start().unwrap();
    assert_eq!(handler.get_status(), PackageStatus::Running("running".to_string()));
}

#[test]
fn an_upgraded_package_does_nothing_more() {
    let mut handler = manager();
    handler.prepare_upgrade().unwrap();
    assert!(handler.request_setup().is_err());
    assert!(handler.request_start().is_err());
    assert_eq!(handler.get_status(), PackageStatus::Upgrading);
}

#[test]
fn what_became_of_the_unit_becomes_the_status() {
    let after = PackageStatus::after_execution;
    let active = ExecutionStatus::Active("active".to_string());
    assert_eq!(after(ExecutionResult::Success(active)), PackageStatus::Running("active".to_string()));
    let canceled = ExecutionResult::Canceled(ExecutionStatus::Inactive("inactive".to_string()));
    assert_eq!(after(canceled), PackageStatus::Ready);
    assert!(matches!(after(ExecutionResult::Failure("x".to_string())), PackageStatus::Error(_)));
    assert!(matches!(after(ExecutionResult::Timeout), PackageStatus::Error(_)));
}
