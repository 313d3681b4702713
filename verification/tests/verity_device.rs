use ssamd::dm_control::{DMDevice, DeviceNum, DmCommand};
use ssamd::verity_device::{
    devnode, make_target, setup_next, setup_request, SetupError, SetupEvent, SetupStep,
};

struct MockDMControl {
    busy: bool,
    load_table_fail: bool,
    resume_device_fail: bool,
    list_devices_result: Option<Vec<String>>,
    remove_device_called: bool,
}

impl MockDMControl {
    fn new(load_table_fail: bool, resume_device_fail: bool) -> Self {
        Self {
            busy: false,
            load_table_fail,
            resume_device_fail,
            list_devices_result: Some(vec![]),
            remove_device_called: false,
        }
    }

    fn with_busy(list_devices_result: Option<Vec<String>>) -> Self {
        Self {
            busy: true,
            load_table_fail: false,
            resume_device_fail: false,
            list_devices_result,
            remove_device_called: false,
        }
    }

    fn setup(&mut self, name: &str) -> Result<(), SetupError> {
        let mut step = SetupStep::Create;
        loop {
            let event = match step {
                SetupStep::Create if self.busy => SetupEvent::Busy,
                SetupStep::Create => SetupEvent::Created,
                SetupStep::ListDevices => match &self.list_devices_result {
                    Some(names) => SetupEvent::Listed(names.clone()),
                    None => SetupEvent::Failed,
                },
                SetupStep::LoadTable if self.load_table_fail => SetupEvent::Failed,
                SetupStep::Resume if self.resume_device_fail => SetupEvent::Failed,
                SetupStep::LoadTable | SetupStep::Resume => SetupEvent::Done,
                SetupStep::Remove(_) => {
                    self.remove_device_called = true;
                    SetupEvent::Done
                }
                SetupStep::Ready => return Ok(()),
                SetupStep::Failed(e) => return Err(e),
            };
            step = setup_next(name, step, &event);
        }
    }
}

#[test]
fn test_setup_success() {
    let mut mock = MockDMControl::new(false, false);
    assert!(mock.setup("test-dev").is_ok());
    assert!(!mock.remove_device_called);
}

#[test]
fn test_setup_calls_remove_device_on_load_table_failure() {
    let mut mock = MockDMControl::new(true, false);
    assert!(mock.setup("test-dev").is_err());
    assert!(mock.remove_device_called, "remove_device must be called when load_table fails");
}

#[test]
fn test_setup_calls_remove_device_on_resume_failure() {
    let mut mock = MockDMControl::new(false, true);
    assert!(mock.setup("test-dev").is_err());
    assert!(mock.remove_device_called, "remove_device must be called when resume_device fails");
}

#[test]
fn test_setup_ebusy_device_already_exists() {
    let mut mock =
        MockDMControl::with_busy(Some(vec!["other-dev".to_string(), "test-dev".to_string()]));
    let err = mock.setup("test-dev").unwrap_err();
    assert!(err.message().contains("already exists"));
}

#[test]
fn test_setup_ebusy_device_not_in_list() {
    let mut mock = MockDMControl::with_busy(Some(vec!["other-dev".to_string()]));
    let err = mock.setup("test-dev").unwrap_err();
    assert!(err.message().contains("busy, but does not exist"));
}

#[test]
fn test_setup_ebusy_list_devices_fails() {
    let mut mock = MockDMControl::with_busy(None);
    let err = mock.setup("test-dev").unwrap_err();
    assert_eq!(err, SetupError::List);
    assert!(!mock.remove_device_called);
}

#[test]
fn a_device_that_cannot_be_created_is_not_removed() {
    let step = setup_next("d", SetupStep::Create, &SetupEvent::Failed);
    assert_eq!(step, SetupStep::Failed(SetupError::Create));
}

#[test]
fn target_covers_the_data_in_sectors() {
    let target = make_target(4096, 512, "1 /dev/loop0".to_string());
    assert_eq!(target.sector_start, 0);
    assert_eq!(target.sector_size, 8);
    assert_eq!(target.target_type, "verity");
    assert_eq!(target.params, "1 /dev/loop0");
}

#[test]
fn device_node_has_the_minor_number() {
    let device = DMDevice::new(DeviceNum::new(253, 17), "x".to_string());
    assert_eq!(devnode(&device), "/dev/dm-17");
}

#[test]
fn each_step_is_one_command() {
    let target = make_target(4096, 512, "1 /dev/loop0".to_string());
    let request = |step| setup_request("d", &target, step);
    let command = |step| {
        let request = request(step).unwrap();
        assert_eq!(request.name.as_deref(), Some("d"));
        request.command
    };
    assert_eq!(command(SetupStep::Create), DmCommand::DevCreate);
    assert_eq!(command(SetupStep::LoadTable), DmCommand::TableLoad);
    assert_eq!(command(SetupStep::Resume), DmCommand::DevSuspend);
    assert_eq!(command(SetupStep::Remove(SetupError::Resume)), DmCommand::DevRemove);
    let list = request(SetupStep::ListDevices).unwrap();
    assert_eq!((list.command, list.name), (DmCommand::ListDevices, None));
    let table = request(SetupStep::LoadTable).unwrap().target.unwrap();
    assert_eq!((table.sector_size, table.params.as_str()), (8, "1 /dev/loop0"));
    assert!(request(SetupStep::Create).unwrap().target.is_none());
    assert!(request(SetupStep::Ready).is_none());
    assert!(request(SetupStep::Failed(SetupError::Create)).is_none());
}
