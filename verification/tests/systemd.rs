use ssamd::package_status::{ExecutionResult, ExecutionStatus};
use ssamd::systemd::{
    active_state_from_str, cgroups_path, initial_state, map_job_result, monitor_first,
    monitor_next, slice_str_from_cgroups_path, start_next, stop_next, unit_bus_path, unit_name,
    waited_for, ContainerServiceType, ExecutorError, FailureInfo, JobResult, JobWatcher, MonitorAction, MonitorError,
    MonitorEvent, PropertyValue, ServiceInfo, UnitAction, UnitActiveState, UnitEvent, Waited,
};

const UNIT: &str = "test.service";

fn mock_failure() -> FailureInfo {
    FailureInfo { result: "exit-code".to_string(), exitcode: 1 }
}

#[test]
fn test_active_state_converter_handle_unit_active_state_changed() {
    let test_cases = vec![
        (UnitActiveState::Activating, "activating"),
        (UnitActiveState::Active, "active"),
        (UnitActiveState::Reloading, "reloading"),
        (UnitActiveState::Deactivating, "deactivating"),
        (UnitActiveState::Inactive, "inactive"),
        (UnitActiveState::Failed(mock_failure()), "failed"),
    ];
    for (unit_state, expected_display) in test_cases {
        let received_state = unit_state.to_execution_status();
        let display_state = match &received_state {
            ExecutionStatus::Active(state) | ExecutionStatus::Inactive(state) => state.clone(),
        };
        assert_eq!(display_state, expected_display);
        assert_eq!(received_state.to_text(), expected_display);
    }
}

#[test]
fn test_unit_active_state_to_execution_state_conversion() {
    let active_states = vec![
        UnitActiveState::Activating,
        UnitActiveState::Active,
        UnitActiveState::Reloading,
        UnitActiveState::Deactivating,
        UnitActiveState::Failed(FailureInfo::default()),
    ];
    for state in active_states {
        match state.to_execution_status() {
            ExecutionStatus::Active(_) => {}
            ExecutionStatus::Inactive(_) => {
                panic!("Expected Active state for {state:?}, got Inactive");
            }
        }
    }
    match UnitActiveState::Inactive.to_execution_status() {
        ExecutionStatus::Inactive(_) => {}
        ExecutionStatus::Active(_) => {
            panic!("Expected Inactive state for Inactive, got Active");
        }
    }
}

#[test]
fn test_active_state_converter_multiple_state_changes() {
    let state_sequence = vec![
        UnitActiveState::Activating,
        UnitActiveState::Active,
        UnitActiveState::Deactivating,
        UnitActiveState::Inactive,
    ];
    for state in state_sequence {
        let received_state = state.to_execution_status();
        match state {
            UnitActiveState::Inactive => {
                assert!(matches!(received_state, ExecutionStatus::Inactive(_)));
            }
            _ => {
                assert!(matches!(received_state, ExecutionStatus::Active(_)));
            }
        }
    }
}

fn active_status(state: UnitActiveState) -> ExecutionStatus {
    state.to_execution_status()
}

fn inactive_status() -> ExecutionStatus {
    UnitActiveState::Inactive.to_execution_status()
}

#[test]
fn test_map_job_result_success_with_active_status() {
    let status = active_status(UnitActiveState::Active);
    let result = map_job_result("test.service", JobResult::Success, status);
    assert!(matches!(result, ExecutionResult::Success(_)));
}

#[test]
fn test_map_job_result_canceled_preserves_status() {
    let status = active_status(UnitActiveState::Active);
    let result = map_job_result("test.service", JobResult::Canceled, status);
    assert!(matches!(result, ExecutionResult::Canceled(_)));
}

#[test]
fn test_map_job_result_failed_with_active_yields_success() {
    let status = active_status(UnitActiveState::Failed(mock_failure()));
    let result = map_job_result("test.service", JobResult::Failed("exit-code".into()), status);
    assert!(
        matches!(result, ExecutionResult::Success(ExecutionStatus::Active(s)) if s == "failed")
    );
}

#[test]
fn test_map_job_result_failed_with_inactive_yields_failure() {
    let status = inactive_status();
    let result = map_job_result("test.service", JobResult::Failed("dependency".into()), status);
    assert!(matches!(&result, ExecutionResult::Failure(reason) if reason == "dependency"));
}

#[test]
fn test_map_job_result_timeout_with_active_yields_success() {
    let status = active_status(UnitActiveState::Active);
    let result = map_job_result("test.service", JobResult::Timeout, status);
    assert!(matches!(result, ExecutionResult::Success(_)));
}

#[test]
fn test_map_job_result_timeout_with_inactive_yields_timeout() {
    let status = inactive_status();
    let result = map_job_result("test.service", JobResult::Timeout, status);
    assert!(matches!(result, ExecutionResult::Timeout));
}

/// Watches until the events are used up or the watch ends by itself.
fn run_active_state_monitor(
    initial: UnitActiveState,
    events: Vec<MonitorEvent>,
) -> (Vec<ExecutionStatus>, Option<Result<(), MonitorError>>) {
    let mut emitted = vec![];
    match monitor_first(&initial) {
        MonitorAction::Emit(status) => emitted.push(status),
        MonitorAction::End(end) => return (emitted, Some(end)),
    }
    for event in events {
        match monitor_next(event) {
            MonitorAction::Emit(status) => emitted.push(status),
            MonitorAction::End(end) => return (emitted, Some(end)),
        }
    }
    (emitted, None)
}

fn changed(name: &str) -> MonitorEvent {
    MonitorEvent::Changed(name.to_string(), Some(mock_failure()))
}

#[test]
fn test_run_active_state_monitor_exits_on_stream_closure() {
    let (_, end) =
        run_active_state_monitor(UnitActiveState::Inactive, vec![MonitorEvent::Closed]);
    assert!(end.expect("Should not hang when stream closes").is_err());
}

#[test]
fn test_run_active_state_monitor_emits_initial_then_forwards_all() {
    let (emitted, end) = run_active_state_monitor(
        UnitActiveState::Inactive,
        vec![changed("active"), changed("active"), changed("inactive"), MonitorEvent::Closed],
    );
    assert!(end.unwrap().is_err());
    assert!(matches!(emitted[0], ExecutionStatus::Inactive(_)));
    assert!(matches!(emitted[1], ExecutionStatus::Active(_)));
    assert!(matches!(emitted[2], ExecutionStatus::Active(_)));
    assert!(matches!(emitted[3], ExecutionStatus::Inactive(_)));
    assert_eq!(emitted.len(), 4);
}

#[test]
fn test_run_active_state_monitor_propagates_stream_error() {
    let (_, end) = run_active_state_monitor(
        UnitActiveState::Inactive,
        vec![changed("active"), MonitorEvent::Broken],
    );
    assert_eq!(end, Some(Err(MonitorError::StreamFailed)));
}

#[test]
fn test_run_active_state_monitor_respects_cancellation() {
    let (_, end) =
        run_active_state_monitor(UnitActiveState::Inactive, vec![MonitorEvent::Canceled]);
    assert_eq!(end, Some(Ok(())));
}

#[test]
fn test_run_active_state_monitor_handles_failed_state() {
    let (emitted, end) = run_active_state_monitor(
        UnitActiveState::Inactive,
        vec![changed("failed"), MonitorEvent::Closed],
    );
    assert!(end.unwrap().is_err());
    assert!(matches!(emitted[0], ExecutionStatus::Inactive(_)));
    assert!(matches!(emitted[1], ExecutionStatus::Active(_)));
}

#[test]
fn test_run_active_state_monitor_initial_active_forwards_coalesced_exit() {
    let (emitted, end) = run_active_state_monitor(
        UnitActiveState::Active,
        vec![changed("inactive"), MonitorEvent::Closed],
    );
    assert!(end.unwrap().is_err());
    assert!(matches!(emitted[0], ExecutionStatus::Active(_)));
    assert!(matches!(emitted[1], ExecutionStatus::Inactive(_)));
    assert_eq!(emitted.len(), 2);
}

#[test]
fn a_state_that_is_not_understood_ends_the_watch() {
    let unasked = MonitorEvent::Changed("failed".to_string(), None);
    for event in [changed("maintenance"), unasked] {
        let (_, end) = run_active_state_monitor(UnitActiveState::Active, vec![event]);
        assert_eq!(end, Some(Err(MonitorError::UnknownState)));
    }
}

#[test]
fn states_are_read_by_name() {
    let state = active_state_from_str("failed", Some(mock_failure())).unwrap();
    assert!(matches!(state, UnitActiveState::Failed(info) if info.exitcode == 1));
    assert!(active_state_from_str("failed", None).is_none());
    assert!(active_state_from_str("", None).is_none());
    for name in ["activating", "active", "reloading", "deactivating", "inactive"] {
        assert_eq!(active_state_from_str(name, None).unwrap().to_text(), name);
    }
    assert!(matches!(initial_state(Some("active"), None), UnitActiveState::Active));
    assert!(matches!(initial_state(Some("failed"), None), UnitActiveState::Inactive));
    assert!(matches!(initial_state(None, None), UnitActiveState::Inactive));
}

#[test]
fn jobs_end_as_the_signal_says() {
    assert!(matches!(JobResult::of_signal("done"), JobResult::Success));
    assert!(matches!(JobResult::of_signal("canceled"), JobResult::Canceled));
    assert!(matches!(JobResult::of_signal("timeout"), JobResult::Failed(s) if s == "timeout"));
}

#[test]
fn who_waits_for_a_job_is_told_once() {
    let mut watcher: JobWatcher<u32> = JobWatcher::new();
    watcher.watch("/job/1", 10);
    watcher.watch("/job/2", 20);
    assert!(watcher.job_removed("/job/3", "done").is_none());
    let told = watcher.job_removed("/job/1", "dependency").unwrap();
    assert!(matches!(told, (10, JobResult::Failed(s)) if s == "dependency"));
    assert!(watcher.job_removed("/job/1", "done").is_none());
    assert_eq!(watcher.cancel("/job/2"), Some(20));
    assert!(watcher.job_removed("/job/2", "done").is_none());
    assert!(matches!(waited_for(Waited::TimedOut), Some(JobResult::Timeout)));
    assert!(waited_for(Waited::Abandoned).is_none());
    let told = waited_for(Waited::Told(JobResult::Canceled));
    assert!(matches!(told, Some(JobResult::Canceled)));
}

fn state(s: UnitActiveState) -> UnitEvent {
    UnitEvent::State(Some(s))
}

#[test]
fn a_loaded_unit_is_not_started_again() {
    let action = start_next(UNIT, UnitAction::ReadState, state(UnitActiveState::Activating));
    assert!(matches!(
        action,
        UnitAction::Finish(Ok(ExecutionResult::Success(ExecutionStatus::Active(s))))
            if s == "activating"
    ));
}

#[test]
fn a_failed_unit_is_cleared_and_started() {
    let failed = UnitActiveState::Failed(mock_failure());
    let action = start_next(UNIT, UnitAction::ReadState, state(failed));
    assert!(matches!(action, UnitAction::ResetFailed));
    let action = start_next(UNIT, action, UnitEvent::Reset(true));
    assert!(matches!(action, UnitAction::RunJob));
    let action = start_next(UNIT, action, UnitEvent::JobEnded(Some(JobResult::Success)));
    assert!(matches!(action, UnitAction::ReadInnerState(Some(JobResult::Success))));
    let action = start_next(UNIT, action, state(UnitActiveState::Active));
    assert!(matches!(action, UnitAction::Finish(Ok(ExecutionResult::Success(_)))));
}

#[test]
fn starting_and_stopping_can_fail_at_each_step() {
    let finished = |action: UnitAction| match action {
        UnitAction::Finish(Err(e)) => e,
        other => panic!("not finished: {other:?}"),
    };
    for next in [start_next, stop_next] {
        let action = next(UNIT, UnitAction::ReadState, UnitEvent::State(None));
        assert_eq!(finished(action), ExecutorError::ActiveState);
        let action = next(UNIT, UnitAction::ResetFailed, UnitEvent::Reset(false));
        assert_eq!(finished(action), ExecutorError::ResetFailed);
        for error in [ExecutorError::Properties, ExecutorError::ManagerGone] {
            let action = next(UNIT, UnitAction::RunJob, UnitEvent::NotAsked(error));
            assert_eq!(finished(action), error);
        }
        let action = next(UNIT, UnitAction::RunJob, UnitEvent::JobEnded(None));
        assert!(matches!(action, UnitAction::ReadInnerState(None)));
        let action = next(UNIT, action, state(UnitActiveState::Inactive));
        assert_eq!(finished(action), ExecutorError::Job);
        let action = next(UNIT, UnitAction::ReadInnerState(None), UnitEvent::State(None));
        assert_eq!(finished(action), ExecutorError::InnerState);
        let action =
            next(UNIT, UnitAction::ReadInnerState(Some(JobResult::Success)), UnitEvent::State(None));
        assert_eq!(finished(action), ExecutorError::InnerState);
    }
}

#[test]
fn stopping_a_failed_unit_only_clears_it() {
    let failed = UnitActiveState::Failed(mock_failure());
    let action = stop_next(UNIT, UnitAction::ReadState, state(failed));
    assert!(matches!(action, UnitAction::ResetFailed));
    let action = stop_next(UNIT, action, UnitEvent::Reset(true));
    assert!(matches!(
        action,
        UnitAction::Finish(Ok(ExecutionResult::Success(ExecutionStatus::Inactive(_))))
    ));
    let action = stop_next(UNIT, UnitAction::ReadState, state(UnitActiveState::Active));
    assert!(matches!(action, UnitAction::RunJob));
}

#[test]
fn units_have_a_path_on_the_bus() {
    assert_eq!(unit_name("pkg"), "pkg.service");
    assert_eq!(
        unit_bus_path("my-pkg9.service"),
        "/org/freedesktop/systemd1/unit/my_2dpkg9_2eservice"
    );
    assert_eq!(unit_bus_path("9_"), "/org/freedesktop/systemd1/unit/_39_5f");
    assert_eq!(unit_bus_path(""), "/org/freedesktop/systemd1/unit/_");
    assert_eq!(unit_bus_path("\u{e9}"), "/org/freedesktop/systemd1/unit/_c3_a9");
    let names = ["a-b", "a_b", "a_2db", "a", "", "_", "1a", "A"];
    for (i, a) in names.iter().enumerate() {
        for b in &names[i + 1..] {
            assert_ne!(unit_bus_path(a), unit_bus_path(b));
        }
    }
}

#[test]
fn slice_is_the_last_part_of_the_control_group() {
    let path = "/sys/fs/cgroup/system.slice";
    assert_eq!(slice_str_from_cgroups_path(path).unwrap(), "system.slice");
    assert!(slice_str_from_cgroups_path("/").is_err());
    assert_eq!(cgroups_path(""), "system.slice");
    assert_eq!(cgroups_path("a.slice"), "a.slice");
}

fn text(value: &PropertyValue) -> &str {
    match value {
        PropertyValue::Text(s) => s,
        other => panic!("no text: {other:?}"),
    }
}

#[test]
fn unit_has_the_properties_of_its_service() {
    let commands = || {
        (
            vec!["/usr/bin/crun".to_string(), "run".to_string()],
            vec!["/usr/bin/crun".to_string(), "delete".to_string()],
        )
    };
    let info = |service_type, bus_name| ServiceInfo {
        description: "A package".to_string(),
        service_type,
        remain_after_exit: Some(true),
        bus_name,
    };
    let (start, stop) = commands();
    let simple = info(ContainerServiceType::Simple, None).gen_unit_properties(
        start,
        stop,
        "/cg/a.slice",
    );
    let names: Vec<&str> = simple.iter().map(|(name, _)| name.as_str()).collect();
    assert_eq!(
        names,
        [
            "Description",
            "TimeoutStartUSec",
            "TimeoutStopUSec",
            "Restart",
            "ExecStart",
            "ExecStopPost",
            "Slice",
            "Type",
            "RemainAfterExit",
        ]
    );
    assert_eq!(text(&simple[0].1), "A package");
    assert!(matches!(simple[1].1, PropertyValue::Number(5_000_000)));
    assert!(matches!(&simple[4].1, PropertyValue::Command(c)
        if c.path == "/usr/bin/crun" && c.args.len() == 2 && !c.ignore_failure));
    assert_eq!(text(&simple[6].1), "a.slice");
    assert_eq!(text(&simple[7].1), "simple");
    assert!(matches!(simple[8].1, PropertyValue::Flag(true)));

    let (start, stop) = commands();
    let notify =
        info(ContainerServiceType::Notify, None).gen_unit_properties(start, stop, "/cg/a.slice");
    assert_eq!(text(&notify[9].1), "all");
    assert!(matches!(&notify[10].1, PropertyValue::ExitStatus { codes, signals }
        if codes == &[143] && signals.is_empty()));

    let (start, stop) = commands();
    let bus = info(ContainerServiceType::DBus, Some("org.a.B".to_string()))
        .gen_unit_properties(start, stop, "/cg/a.slice");
    assert_eq!(bus[9].0, "Requires");
    assert_eq!(text(&bus[9].1), "dbus.service");
    assert_eq!(bus[10].0, "BusName");
    assert_eq!(text(&bus[10].1), "org.a.B");
}

#[test]
fn service_types_go_by_name() {
    for name in ["simple", "exec", "forking", "oneshot", "dbus", "notify", "idle"] {
        assert_eq!(ContainerServiceType::parse(name).unwrap().as_str(), name);
    }
    assert!(ContainerServiceType::parse("Simple").is_none());
}

#[test]
fn failures_are_told() {
    assert_eq!(mock_failure().to_text(), "Result: exit-code, Exitcode: 1");
}
