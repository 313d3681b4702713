//! Devices whose content is verified as it is read.

use crate::dm_control::{DMDevice, DMTargetInfo, DmCommand};
use crate::path::texts;
use crate::text::{decimal, decimal_text, is_same, join2, optional_text};
use vstd::prelude::*;

verus! {

/// Why a device could not be set up.
#[derive(Debug, Clone, Copy, PartialEq, Eq, Structural)]
pub enum SetupError {
    /// It could not be created.
    Create,
    /// A device of that name is there.
    AlreadyExists,
    /// The name is taken, but no device has it.
    BusyNotListed,
    /// The name is taken, and the devices could not be listed.
    List,
    LoadTable,
    Resume,
}

impl SetupError {
    pub fn message(&self) -> (r: &'static str)
        ensures
            r@ == match *self {
                SetupError::Create => "Failed to create device"@,
                SetupError::AlreadyExists => "Device already exists"@,
                SetupError::BusyNotListed =>
                    "Device is busy, but does not exist in the device list"@,
                SetupError::List => "Failed to list devices"@,
                SetupError::LoadTable => "Failed to load table"@,
                SetupError::Resume => "Failed to resume device"@,
            },
    {
        match self {
            SetupError::Create => "Failed to create device",
            SetupError::AlreadyExists => "Device already exists",
            SetupError::BusyNotListed => "Device is busy, but does not exist in the device list",
            SetupError::List => "Failed to list devices",
            SetupError::LoadTable => "Failed to load table",
            SetupError::Resume => "Failed to resume device",
        }
    }
}

/// What has to be done next to set a device up.
#[derive(Debug, Clone, Copy, PartialEq, Eq, Structural)]
pub enum SetupStep {
    Create,
    /// See which devices there are.
    ListDevices,
    LoadTable,
    Resume,
    /// Remove the device again; that it fails changes nothing of the result.
    Remove(SetupError),
    Ready,
    Failed(SetupError),
}

/// What came of it.
#[derive(Debug)]
pub enum SetupEvent {
    Created,
    /// The name is taken.
    Busy,
    /// The devices there are.
    Listed(Vec<String>),
    Done,
    Failed,
}

/// One step of a setup. Once the device is created, a failure removes it.
pub open spec fn setup_step(name: Seq<char>, step: SetupStep, event: SetupEvent) -> SetupStep {
    match (step, event) {
        (SetupStep::Create, SetupEvent::Created) => SetupStep::LoadTable,
        (SetupStep::Create, SetupEvent::Busy) => SetupStep::ListDevices,
        (SetupStep::Create, SetupEvent::Failed) => SetupStep::Failed(SetupError::Create),
        (SetupStep::ListDevices, SetupEvent::Listed(names)) => if texts(names@).contains(name) {
            SetupStep::Failed(SetupError::AlreadyExists)
        } else {
            SetupStep::Failed(SetupError::BusyNotListed)
        },
        (SetupStep::ListDevices, SetupEvent::Failed) => SetupStep::Failed(SetupError::List),
        (SetupStep::LoadTable, SetupEvent::Done) => SetupStep::Resume,
        (SetupStep::LoadTable, SetupEvent::Failed) => SetupStep::Remove(SetupError::LoadTable),
        (SetupStep::Resume, SetupEvent::Done) => SetupStep::Ready,
        (SetupStep::Resume, SetupEvent::Failed) => SetupStep::Remove(SetupError::Resume),
        (SetupStep::Remove(e), SetupEvent::Done) => SetupStep::Failed(e),
        (SetupStep::Remove(e), SetupEvent::Failed) => SetupStep::Failed(e),
        _ => step,
    }
}

fn lists(names: &Vec<String>, name: &str) -> (r: bool)
    ensures
        r == texts(names@).contains(name@),
{
    let mut i: usize = 0;
    while i < names.len()
        invariant
            i <= names@.len(),
            forall|j: int| 0 <= j < i ==> texts(names@)[j] != name@,
        decreases names.len() - i,
    {
        if is_same(names[i].as_str(), name) {
            assert(texts(names@)[i as int] == name@);
            return true;
        }
        i += 1;
    }
    false
}

/// Takes the setup of the device `name` one step further.
pub fn setup_next(name: &str, step: SetupStep, event: &SetupEvent) -> (r: SetupStep)
    ensures
        r == setup_step(name@, step, *event),
{
    match (step, event) {
        (SetupStep::Create, SetupEvent::Created) => SetupStep::LoadTable,
        (SetupStep::Create, SetupEvent::Busy) => SetupStep::ListDevices,
        (SetupStep::Create, SetupEvent::Failed) => SetupStep::Failed(SetupError::Create),
        (SetupStep::ListDevices, SetupEvent::Listed(names)) => if lists(names, name) {
            SetupStep::Failed(SetupError::AlreadyExists)
        } else {
            SetupStep::Failed(SetupError::BusyNotListed)
        },
        (SetupStep::ListDevices, SetupEvent::Failed) => SetupStep::Failed(SetupError::List),
        (SetupStep::LoadTable, SetupEvent::Done) => SetupStep::Resume,
        (SetupStep::LoadTable, SetupEvent::Failed) => SetupStep::Remove(SetupError::LoadTable),
        (SetupStep::Resume, SetupEvent::Done) => SetupStep::Ready,
        (SetupStep::Resume, SetupEvent::Failed) => SetupStep::Remove(SetupError::Resume),
        (SetupStep::Remove(e), SetupEvent::Done) => SetupStep::Failed(e),
        (SetupStep::Remove(e), SetupEvent::Failed) => SetupStep::Failed(e),
        (step, _) => step,
    }
}

/// A command to the device mapper.
#[derive(Debug)]
pub struct SetupRequest {
    pub command: DmCommand,
    /// The device that it concerns.
    pub name: Option<String>,
    /// The table that it brings.
    pub target: Option<DMTargetInfo>,
}

/// The command that carries a step out.
pub open spec fn command_of(step: SetupStep) -> Option<DmCommand> {
    match step {
        SetupStep::Create => Some(DmCommand::DevCreate),
        SetupStep::ListDevices => Some(DmCommand::ListDevices),
        SetupStep::LoadTable => Some(DmCommand::TableLoad),
        SetupStep::Resume => Some(DmCommand::DevSuspend),
        SetupStep::Remove(_) => Some(DmCommand::DevRemove),
        SetupStep::Ready | SetupStep::Failed(_) => None,
    }
}

/// The command that carries a step out, if there is anything left to do. All but the
/// list of devices concern the device `name`, and what is loaded is its target.
pub fn setup_request(name: &str, target: &DMTargetInfo, step: SetupStep) -> (r: Option<
    SetupRequest,
>)
    ensures
        r is None <==> (step is Ready || step is Failed),
        r is None <==> command_of(step) is None,
        r matches Some(request) ==> command_of(step) == Some(request.command),
        r matches Some(request) ==> {
            &&& request.command == match step {
                SetupStep::Create => DmCommand::DevCreate,
                SetupStep::ListDevices => DmCommand::ListDevices,
                SetupStep::LoadTable => DmCommand::TableLoad,
                SetupStep::Resume => DmCommand::DevSuspend,
                _ => DmCommand::DevRemove,
            }
            &&& optional_text(request.name) == if step is ListDevices {
                None
            } else {
                Some(name@)
            }
            &&& request.target == if step is LoadTable {
                Some(*target)
            } else {
                None
            }
        },
{
    let command = match step {
        SetupStep::Create => DmCommand::DevCreate,
        SetupStep::ListDevices => {
            return Some(
                SetupRequest { command: DmCommand::ListDevices, name: None, target: None },
            );
        },
        SetupStep::LoadTable => {
            return Some(
                SetupRequest {
                    command: DmCommand::TableLoad,
                    name: Some(name.to_owned()),
                    target: Some(target.clone()),
                },
            );
        },
        SetupStep::Resume => DmCommand::DevSuspend,
        SetupStep::Remove(_) => DmCommand::DevRemove,
        SetupStep::Ready | SetupStep::Failed(_) => {
            return None;
        },
    };
    Some(SetupRequest { command, name: Some(name.to_owned()), target: None })
}

/// The step after any number of events.
pub open spec fn setup_run(name: Seq<char>, events: Seq<SetupEvent>) -> SetupStep
    decreases events.len(),
{
    if events.len() == 0 {
        SetupStep::Create
    } else {
        setup_step(name, setup_run(name, events.drop_last()), events.last())
    }
}

/// Whether the device was created in the course of these events.
pub open spec fn was_created(name: Seq<char>, events: Seq<SetupEvent>) -> bool
    decreases events.len(),
{
    events.len() > 0 && (was_created(name, events.drop_last()) || (setup_run(
        name,
        events.drop_last(),
    ) is Create && events.last() is Created))
}

/// Whether its removal was asked for.
pub open spec fn was_removed(name: Seq<char>, events: Seq<SetupEvent>) -> bool
    decreases events.len(),
{
    events.len() > 0 && (was_removed(name, events.drop_last()) || (setup_run(
        name,
        events.drop_last(),
    ) is Remove && (events.last() is Done || events.last() is Failed)))
}

/// No device is left behind by a setup that failed, and none is removed by one that
/// succeeded: whatever happens, a device that was created is removed if and only if the
/// setup ends in failure.
pub proof fn law_failed_setup_removes_device(name: Seq<char>, events: Seq<SetupEvent>)
    ensures
        ({
            let step = setup_run(name, events);
            let created = was_created(name, events);
            let removed = was_removed(name, events);
            match step {
                SetupStep::Create | SetupStep::ListDevices => !created && !removed,
                SetupStep::LoadTable | SetupStep::Resume | SetupStep::Remove(_)
                | SetupStep::Ready => created && !removed,
                SetupStep::Failed(_) => created == removed,
            }
        }),
    decreases events.len(),
{
    if events.len() > 0 {
        law_failed_setup_removes_device(name, events.drop_last());
    }
}

/// The target of a verified device: all of its data, in sectors of the underlying device.
pub fn make_target(data_size: u64, sector_size: u32, table_params: String) -> (r: DMTargetInfo)
    requires
        sector_size > 0,
    ensures
        r.sector_start == 0,
        r.sector_size == data_size / sector_size as u64,
        r.target_type@ == "verity"@,
        r.params == table_params,
{
    DMTargetInfo::new(0, data_size / sector_size as u64, "verity".to_owned(), table_params)
}

/// The path of a mapped device.
pub fn devnode(device: &DMDevice) -> (r: String)
    ensures
        r@ == "/dev/dm-"@ + decimal(device.dev_no_spec().minor_spec() as nat),
{
    join2("/dev/dm-", decimal_text(device.dev_no().minor() as u64).as_str())
}

/// How a device is set up when nothing fails: it is created, its table is loaded, and it is
/// resumed.
pub proof fn law_setup_when_nothing_fails(name: Seq<char>)
    ensures
        setup_run(name, Seq::empty()) is Create,
        setup_run(name, seq![SetupEvent::Created]) is LoadTable,
        setup_run(name, seq![SetupEvent::Created, SetupEvent::Done]) is Resume,
        setup_run(name, seq![SetupEvent::Created, SetupEvent::Done, SetupEvent::Done]) is Ready,
{
    let one = seq![SetupEvent::Created];
    let two = seq![SetupEvent::Created, SetupEvent::Done];
    let three = seq![SetupEvent::Created, SetupEvent::Done, SetupEvent::Done];
    assert(one.drop_last() =~= Seq::empty());
    assert(two.drop_last() =~= one);
    assert(three.drop_last() =~= two);
    reveal_with_fuel(setup_run, 4);
}

/// How a setup ends when something fails: with the error of the part that failed, after the
/// device was removed if it had been created. Where the name is taken, the list of devices
/// tells whether a device has it.
pub proof fn law_setup_when_something_fails(name: Seq<char>, names: Vec<String>, last: SetupEvent)
    requires
        last is Done || last is Failed,
    ensures
        setup_run(name, seq![SetupEvent::Failed]) == SetupStep::Failed(SetupError::Create),
        setup_run(name, seq![SetupEvent::Busy]) is ListDevices,
        setup_run(name, seq![SetupEvent::Busy, SetupEvent::Failed]) == SetupStep::Failed(
            SetupError::List,
        ),
        setup_run(name, seq![SetupEvent::Busy, SetupEvent::Listed(names)]) == SetupStep::Failed(
            if exists|i: int| 0 <= i < names@.len() && (#[trigger] names@[i])@ == name {
                SetupError::AlreadyExists
            } else {
                SetupError::BusyNotListed
            },
        ),
        setup_run(name, seq![SetupEvent::Created, SetupEvent::Failed]) is Remove,
        setup_run(name, seq![SetupEvent::Created, SetupEvent::Failed, last]) == SetupStep::Failed(
            SetupError::LoadTable,
        ),
        setup_run(name, seq![SetupEvent::Created, SetupEvent::Done, SetupEvent::Failed]) is Remove,
        setup_run(name, seq![SetupEvent::Created, SetupEvent::Done, SetupEvent::Failed, last])
            == SetupStep::Failed(SetupError::Resume),
{
    let none = Seq::<SetupEvent>::empty();
    let failed = seq![SetupEvent::Failed];
    let busy = seq![SetupEvent::Busy];
    let unlisted = seq![SetupEvent::Busy, SetupEvent::Failed];
    let listed = seq![SetupEvent::Busy, SetupEvent::Listed(names)];
    let created = seq![SetupEvent::Created];
    let unloaded = seq![SetupEvent::Created, SetupEvent::Failed];
    let loaded = seq![SetupEvent::Created, SetupEvent::Done];
    let stuck = seq![SetupEvent::Created, SetupEvent::Done, SetupEvent::Failed];
    assert(failed.drop_last() =~= none);
    assert(busy.drop_last() =~= none);
    assert(unlisted.drop_last() =~= busy);
    assert(listed.drop_last() =~= busy);
    assert(created.drop_last() =~= none);
    assert(unloaded.drop_last() =~= created);
    assert(loaded.drop_last() =~= created);
    assert(seq![SetupEvent::Created, SetupEvent::Failed, last].drop_last() =~= unloaded);
    assert(stuck.drop_last() =~= loaded);
    assert(seq![SetupEvent::Created, SetupEvent::Done, SetupEvent::Failed, last].drop_last()
        =~= stuck);
    reveal_with_fuel(setup_run, 5);
    if texts(names@).contains(name) {
        let i = choose|i: int| 0 <= i < texts(names@).len() && texts(names@)[i] == name;
        assert(names@[i]@ == name);
    }
    if exists|i: int| 0 <= i < names@.len() && (#[trigger] names@[i])@ == name {
        let i = choose|i: int| 0 <= i < names@.len() && (#[trigger] names@[i])@ == name;
        assert(texts(names@)[i] == name);
    }
}

/// The commands of a setup: when nothing fails the device is created, its table loaded and the
/// device resumed, and nothing else is asked for; a failure after the first of them removes the
/// device.
pub proof fn law_commands_of_a_setup(name: Seq<char>)
    ensures
        command_of(setup_run(name, Seq::empty())) == Some(DmCommand::DevCreate),
        command_of(setup_run(name, seq![SetupEvent::Created])) == Some(DmCommand::TableLoad),
        command_of(setup_run(name, seq![SetupEvent::Created, SetupEvent::Done])) == Some(
            DmCommand::DevSuspend,
        ),
        command_of(
            setup_run(name, seq![SetupEvent::Created, SetupEvent::Done, SetupEvent::Done]),
        ) is None,
        command_of(setup_run(name, seq![SetupEvent::Busy])) == Some(DmCommand::ListDevices),
        command_of(setup_run(name, seq![SetupEvent::Created, SetupEvent::Failed])) == Some(
            DmCommand::DevRemove,
        ),
        command_of(
            setup_run(name, seq![SetupEvent::Created, SetupEvent::Done, SetupEvent::Failed]),
        ) == Some(DmCommand::DevRemove),
{
    law_setup_when_nothing_fails(name);
    law_setup_when_something_fails(name, arbitrary(), SetupEvent::Done);
}

} // verus!
