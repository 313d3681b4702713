use ssamd::package_status::{BrokenReason, PackageStatus};
use ssamd::transition::{Operation, TransitionHandler, TransitionStore, TransitionTo};

// Helper functions for testing transitions
fn is_transition_valid(
    transition_store: &TransitionStore,
    current: &PackageStatus,
    target: &PackageStatus,
) -> bool {
    transition_store.find_transition(current, target).is_some()
}

fn get_possible_transitions(
    transition_store: &TransitionStore,
    current: &PackageStatus,
) -> Vec<TransitionTo> {
    let mut targets = Vec::new();
    for transition in transition_store.transitions() {
        if transition.is_applicable(current) {
            targets.push(transition.to);
        }
    }
    targets
}

fn get_transition_description(
    transition_store: &TransitionStore,
    current: &PackageStatus,
    target: &PackageStatus,
) -> Option<&'static str> {
    transition_store
        .find_transition(current, target)
        .map(TransitionHandler::description)
}

#[test]
fn test_transition_store_creation() {
    let store = TransitionStore::new();

    // Test basic transitions
    assert!(is_transition_valid(
        &store,
        &PackageStatus::Verified,
        &PackageStatus::SettingUp
    ));
    assert!(is_transition_valid(
        &store,
        &PackageStatus::Ready,
        &PackageStatus::StartRequested
    ));
    assert!(is_transition_valid(
        &store,
        &PackageStatus::Ready,
        &PackageStatus::CleaningUp
    ));

    // Test invalid transitions
    assert!(!is_transition_valid(
        &store,
        &PackageStatus::Verified,
        &PackageStatus::Running("active".to_string())
    ));
    assert!(!is_transition_valid(
        &store,
        &PackageStatus::Cleaned,
        &PackageStatus::Running("active".to_string())
    ));
}

#[test]
fn test_get_possible_transitions() {
    let transition_store = TransitionStore::new();

    // Test possible transitions from Ready state
    let ready_transitions =
        get_possible_transitions(&transition_store, &PackageStatus::Ready);
    assert!(ready_transitions.contains(&TransitionTo::StartRequested));
    assert!(ready_transitions.contains(&TransitionTo::CleaningUp));

    // Test possible transitions from Verified state
    let verified_transitions =
        get_possible_transitions(&transition_store, &PackageStatus::Verified);
    assert!(verified_transitions.contains(&TransitionTo::SettingUp));
    assert!(!verified_transitions.contains(&TransitionTo::StartRequested));
}

#[test]
fn test_transition_descriptions() {
    let transition_store = TransitionStore::new();

    // Test getting descriptions for valid transitions
    let desc = get_transition_description(
        &transition_store,
        &PackageStatus::Verified,
        &PackageStatus::SettingUp,
    );
    assert!(desc.is_some());
    assert_eq!(
        desc.unwrap(),
        "Verified/Cleaned -> SettingUp (setup package)"
    );

    let desc = get_transition_description(
        &transition_store,
        &PackageStatus::Ready,
        &PackageStatus::StartRequested,
    );
    assert!(desc.is_some());
    assert_eq!(
        desc.unwrap(),
        "Ready/Running(failed) -> StartRequested (start package)"
    );

    // Test getting descriptions for invalid transitions
    let desc = get_transition_description(
        &transition_store,
        &PackageStatus::Verified,
        &PackageStatus::Running("active".to_string()),
    );
    assert!(desc.is_none());
}

#[test]
fn test_special_running_state_transitions() {
    let transition_store = TransitionStore::new();

    // Test restart failed transition
    assert!(is_transition_valid(
        &transition_store,
        &PackageStatus::Running("failed".to_string()),
        &PackageStatus::StartRequested
    ));

    // Test that Running("active") -> StartRequested is valid
    // Only failed running states can transition to StartRequested
    assert!(is_transition_valid(
        &transition_store,
        &PackageStatus::Running("active".to_string()),
        &PackageStatus::StartRequested
    ));

    // Test stop transitions - these should be valid
    assert!(is_transition_valid(
        &transition_store,
        &PackageStatus::Running("active".to_string()),
        &PackageStatus::StopRequested
    ));
    assert!(is_transition_valid(
        &transition_store,
        &PackageStatus::Running("failed".to_string()),
        &PackageStatus::StopRequested
    ));
}

#[test]
fn test_ignore_functionality() {
    let transition_store = TransitionStore::new();

    // Test keep_current behavior for StartRequested transition
    // When already in Running("failed") state, should keep current state
    let transition = transition_store
        .find_transition(
            &PackageStatus::Running("failed".to_string()),
            &PackageStatus::StartRequested,
        )
        .expect("Transition from Running('failed') to StartRequested should exist");
    assert!(transition.ignore_without_error(&PackageStatus::Running("active".to_string())));
    assert!(!transition.ignore_without_error(&PackageStatus::Ready));
    assert!(
        !transition.ignore_without_error(&PackageStatus::Running("failed".to_string()))
    );

    // Test keep_current behavior for StopRequested transition
    // When already in Ready state, should keep current state
    let transition = transition_store
        .find_transition(&PackageStatus::Ready, &PackageStatus::StopRequested)
        .expect("Transition from Ready to StopRequested should exist");
    assert!(transition.ignore_without_error(&PackageStatus::Ready));
    assert!(
        !transition.ignore_without_error(&PackageStatus::Running("active".to_string()))
    );
}

#[test]
fn test_transition_handle_implementation() {
    let transition_store = TransitionStore::new();

    // Create longer-lived values to avoid temporary value issues
    let running_active = PackageStatus::Running("active".to_string());
    let error_test = PackageStatus::Error("test".to_string());
    let broken_test = PackageStatus::Broken(BrokenReason::new("test", "test"));
    // Test that certain transitions exist and can be found
    // These transitions have handle implementations (return Some)
    let implemented_transitions = vec![
        (&PackageStatus::Verified, &PackageStatus::SettingUp),
        (&PackageStatus::Ready, &PackageStatus::StartRequested),
        (&PackageStatus::Ready, &PackageStatus::CleaningUp),
        (
            &PackageStatus::StartRequested,
            &PackageStatus::StopRequested,
        ),
    ];

    for (from, to) in implemented_transitions {
        let transition = transition_store.find_transition(from, to);
        assert!(
            transition.is_some(),
            "Transition from {from:?} to {to:?} should exist and have handle implementation"
        );
    }

    // Test that passthrough transitions exist (these use default handle which returns None)
    let passthrough_transitions = vec![
        (&PackageStatus::SettingUp, &PackageStatus::Ready),
        (&PackageStatus::StopRequested, &PackageStatus::Ready),
        (&PackageStatus::StartRequested, &running_active),
        (&PackageStatus::Ready, &running_active),
        (&PackageStatus::Verified, &broken_test),
        (&PackageStatus::Ready, &error_test),
    ];

    for (from, to) in passthrough_transitions {
        assert!(
            transition_store.find_transition(from, to).is_some(),
            "Passthrough transition from {from:?} to {to:?} should exist"
        );
    }
}

#[test]
fn test_transition_applicability() {
    let transition_store = TransitionStore::new();

    // Test that transitions are only applicable for correct states

    // SettingUp transition should only be applicable from Verified or Cleaned
    let setup_transition = transition_store
        .find_transition(&PackageStatus::Verified, &PackageStatus::SettingUp)
        .expect("Setup transition should exist");

    assert!(setup_transition.is_applicable(&PackageStatus::Verified));
    assert!(setup_transition.is_applicable(&PackageStatus::Cleaned));
    assert!(!setup_transition.is_applicable(&PackageStatus::Ready));
    assert!(!setup_transition.is_applicable(&PackageStatus::Running("active".to_string())));

    // StartRequested transition should be applicable from Ready and failed Running states
    let start_transition = transition_store
        .find_transition(&PackageStatus::Ready, &PackageStatus::StartRequested)
        .expect("Start transition should exist");

    assert!(start_transition.is_applicable(&PackageStatus::Ready));
    assert!(start_transition.is_applicable(&PackageStatus::Running("failed".to_string())));
    assert!(start_transition.is_applicable(&PackageStatus::Running("active".to_string())));
    assert!(!start_transition.is_applicable(&PackageStatus::Verified));

    // CleaningUp transition should only be applicable from Ready
    let cleanup_transition = transition_store
        .find_transition(&PackageStatus::Ready, &PackageStatus::CleaningUp)
        .expect("Cleanup transition should exist");

    assert!(cleanup_transition.is_applicable(&PackageStatus::Ready));
    assert!(
        !cleanup_transition.is_applicable(&PackageStatus::Running("active".to_string()))
    );
    assert!(!cleanup_transition.is_applicable(&PackageStatus::Verified));

    // StopRequested transition should be applicable from StartRequested and Running states
    let stop_transition = transition_store
        .find_transition(
            &PackageStatus::StartRequested,
            &PackageStatus::StopRequested,
        )
        .expect("Stop transition should exist");

    assert!(stop_transition.is_applicable(&PackageStatus::StartRequested));
    assert!(stop_transition.is_applicable(&PackageStatus::Running("active".to_string())));
    assert!(stop_transition.is_applicable(&PackageStatus::Running("failed".to_string())));
    assert!(stop_transition.is_applicable(&PackageStatus::Ready));
    assert!(!stop_transition.is_applicable(&PackageStatus::Verified));
}

#[test]
fn test_upgrading_transition_applicability() {
    let transition_store = TransitionStore::new();

    let upgrading_transition = transition_store
        .find_transition(&PackageStatus::Verified, &PackageStatus::Upgrading)
        .expect("Transition from Verified to Upgrading should exist");

    assert!(upgrading_transition.is_applicable(&PackageStatus::Verified));
    assert!(upgrading_transition.is_applicable(&PackageStatus::Ready));
    assert!(
        upgrading_transition.is_applicable(&PackageStatus::Running("active".to_string()))
    );
    assert!(upgrading_transition.is_applicable(&PackageStatus::StartRequested));

    assert!(!upgrading_transition.is_applicable(&PackageStatus::Cleaned));
    assert!(!upgrading_transition.is_applicable(&PackageStatus::StopRequested));
    assert!(!upgrading_transition.is_applicable(&PackageStatus::SettingUp));
    assert!(!upgrading_transition.is_applicable(&PackageStatus::CleaningUp));
}

#[test]
fn operations_lie_on_the_way() {
    let operation = |current: &PackageStatus, to| TransitionHandler { to }.operation(current);
    let verified = PackageStatus::Verified;
    assert_eq!(operation(&verified, TransitionTo::SettingUp), Some(Operation::Setup));
    assert_eq!(operation(&PackageStatus::Ready, TransitionTo::StartRequested), Some(Operation::Start));
    assert_eq!(operation(&PackageStatus::Ready, TransitionTo::StopRequested), Some(Operation::Stop));
    assert_eq!(operation(&PackageStatus::Ready, TransitionTo::CleaningUp), Some(Operation::Cleanup));
    assert_eq!(operation(&PackageStatus::Ready, TransitionTo::Upgrading), Some(Operation::Teardown));
    assert_eq!(operation(&PackageStatus::Ready, TransitionTo::Running), None);
}

#[test]
fn a_status_has_its_kind() {
    assert_eq!(TransitionTo::of(&PackageStatus::Running("x".to_string())), TransitionTo::Running);
    assert_eq!(
        TransitionTo::of(&PackageStatus::Broken(BrokenReason::new("a", "b"))),
        TransitionTo::Broken
    );
    assert!(TransitionStore::new()
        .find_transition(&PackageStatus::Ready, &PackageStatus::Verified)
        .is_none());
}
