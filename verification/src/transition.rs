//! Which status may follow which, and what has to be done on the way.

use crate::package_status::{PackageStatus, StatusView};
use vstd::prelude::*;

verus! {

/// The kind of a status, without its text.
#[derive(Debug, Clone, Copy, PartialEq, Eq, Hash, Structural)]
pub enum TransitionTo {
    Verified,
    SettingUp,
    Ready,
    StartRequested,
    Running,
    StopRequested,
    CleaningUp,
    Cleaned,
    Upgrading,
    Error,
    Broken,
}

pub open spec fn kind_of(s: StatusView) -> TransitionTo {
    match s {
        StatusView::Verified => TransitionTo::Verified,
        StatusView::SettingUp => TransitionTo::SettingUp,
        StatusView::Ready => TransitionTo::Ready,
        StatusView::StartRequested => TransitionTo::StartRequested,
        StatusView::Running(_) => TransitionTo::Running,
        StatusView::StopRequested => TransitionTo::StopRequested,
        StatusView::CleaningUp => TransitionTo::CleaningUp,
        StatusView::Cleaned => TransitionTo::Cleaned,
        StatusView::Upgrading => TransitionTo::Upgrading,
        StatusView::Error(_) => TransitionTo::Error,
        StatusView::Broken(_, _) => TransitionTo::Broken,
    }
}

impl TransitionTo {
    pub fn of(status: &PackageStatus) -> (r: TransitionTo)
        ensures
            r == kind_of(status@),
    {
        match status {
            PackageStatus::Verified => TransitionTo::Verified,
            PackageStatus::SettingUp => TransitionTo::SettingUp,
            PackageStatus::Ready => TransitionTo::Ready,
            PackageStatus::StartRequested => TransitionTo::StartRequested,
            PackageStatus::Running(_) => TransitionTo::Running,
            PackageStatus::StopRequested => TransitionTo::StopRequested,
            PackageStatus::CleaningUp => TransitionTo::CleaningUp,
            PackageStatus::Cleaned => TransitionTo::Cleaned,
            PackageStatus::Upgrading => TransitionTo::Upgrading,
            PackageStatus::Error(_) => TransitionTo::Error,
            PackageStatus::Broken(_) => TransitionTo::Broken,
        }
    }
}

/// Whether a package may go to a status of kind `to` from `current`.
pub open spec fn may_go(current: StatusView, to: TransitionTo) -> bool {
    match to {
        TransitionTo::Verified => false,
        TransitionTo::SettingUp => current is Verified || current is Cleaned,
        TransitionTo::StartRequested => current is Ready || current is Running,
        TransitionTo::CleaningUp => current is Ready,
        TransitionTo::StopRequested => current is StartRequested || current is Running
            || current is Ready,
        TransitionTo::Ready => current is SettingUp || current is StopRequested
            || current is Running,
        TransitionTo::Running => current is Ready || current is StartRequested || current is Running
            || current is StopRequested,
        TransitionTo::Cleaned => current is CleaningUp,
        TransitionTo::Upgrading => current is Verified || current is Ready || current is Running
            || current is StartRequested,
        TransitionTo::Error => true,
        TransitionTo::Broken => true,
    }
}

/// Whether going to `to` from `current` is passed over in silence: a package that runs
/// needs no start, unless it has failed, and one that is ready needs no stop.
pub open spec fn is_passed_over(current: StatusView, to: TransitionTo) -> bool {
    match to {
        TransitionTo::StartRequested => current matches StatusView::Running(state) && state
            != "failed"@,
        TransitionTo::StopRequested => current is Ready,
        _ => false,
    }
}

/// What has to be done on the way to a status.
#[derive(Debug, Clone, Copy, PartialEq, Eq, Structural)]
pub enum Operation {
    Setup,
    Cleanup,
    Start,
    Stop,
    Teardown,
}

/// The operation that leads on from `current` to a status of kind `to`; none where the
/// status is merely taken on.
pub open spec fn operation_for(current: StatusView, to: TransitionTo) -> Option<Operation> {
    match to {
        TransitionTo::SettingUp => Some(Operation::Setup),
        TransitionTo::StartRequested => Some(Operation::Start),
        TransitionTo::CleaningUp => Some(Operation::Cleanup),
        TransitionTo::StopRequested => Some(Operation::Stop),
        TransitionTo::Upgrading => if current is Verified {
            None
        } else {
            Some(Operation::Teardown)
        },
        _ => None,
    }
}

/// The way to a status of one kind.
#[derive(Debug, Clone, Copy, PartialEq, Eq, Structural)]
pub struct TransitionHandler {
    pub to: TransitionTo,
}

impl TransitionHandler {
    pub fn is_applicable(&self, current: &PackageStatus) -> (r: bool)
        ensures
            r == may_go(current@, self.to),
    {
        match self.to {
            TransitionTo::Verified => false,
            TransitionTo::SettingUp => matches!(
                current,
                PackageStatus::Verified | PackageStatus::Cleaned
            ),
            TransitionTo::StartRequested => matches!(
                current,
                PackageStatus::Ready | PackageStatus::Running(_)
            ),
            TransitionTo::CleaningUp => matches!(current, PackageStatus::Ready),
            TransitionTo::StopRequested => matches!(
                current,
                PackageStatus::StartRequested | PackageStatus::Running(_) | PackageStatus::Ready
            ),
            TransitionTo::Ready => matches!(
                current,
                PackageStatus::SettingUp | PackageStatus::StopRequested | PackageStatus::Running(_)
            ),
            TransitionTo::Running => matches!(
                current,
                PackageStatus::Ready
                    | PackageStatus::StartRequested
                    | PackageStatus::Running(_)
                    | PackageStatus::StopRequested
            ),
            TransitionTo::Cleaned => matches!(current, PackageStatus::CleaningUp),
            TransitionTo::Upgrading => matches!(
                current,
                PackageStatus::Verified
                    | PackageStatus::Ready
                    | PackageStatus::Running(_)
                    | PackageStatus::StartRequested
            ),
            TransitionTo::Error => true,
            TransitionTo::Broken => true,
        }
    }

    pub fn ignore_without_error(&self, current: &PackageStatus) -> (r: bool)
        ensures
            r == is_passed_over(current@, self.to),
    {
        match self.to {
            TransitionTo::StartRequested => match current {
                PackageStatus::Running(state) => !crate::text::is_same(state.as_str(), "failed"),
                _ => false,
            },
            TransitionTo::StopRequested => matches!(current, PackageStatus::Ready),
            _ => false,
        }
    }

    pub fn operation(&self, current: &PackageStatus) -> (r: Option<Operation>)
        ensures
            r == operation_for(current@, self.to),
    {
        match self.to {
            TransitionTo::SettingUp => Some(Operation::Setup),
            TransitionTo::StartRequested => Some(Operation::Start),
            TransitionTo::CleaningUp => Some(Operation::Cleanup),
            TransitionTo::StopRequested => Some(Operation::Stop),
            TransitionTo::Upgrading => if matches!(current, PackageStatus::Verified) {
                None
            } else {
                Some(Operation::Teardown)
            },
            _ => None,
        }
    }

    pub fn description(&self) -> (r: &'static str)
        ensures
            r@ == match self.to {
                TransitionTo::Verified => ""@,
                TransitionTo::SettingUp => "Verified/Cleaned -> SettingUp (setup package)"@,
                TransitionTo::StartRequested =>
                    "Ready/Running(failed) -> StartRequested (start package)"@,
                TransitionTo::CleaningUp => "Ready -> CleaningUp (cleanup package)"@,
                TransitionTo::StopRequested =>
                    "StartRequested/Running -> StopRequested (stop package)"@,
                TransitionTo::Ready => "SettingUp/StopRequested -> Ready (setup/stop package)"@,
                TransitionTo::Running => "StartRequested -> Running (start package)"@,
                TransitionTo::Cleaned => "CleaningUp -> Cleaned (cleanup package)"@,
                TransitionTo::Error => "Any -> Error (error occurred)"@,
                TransitionTo::Broken => "Any -> Broken (package broken)"@,
                TransitionTo::Upgrading =>
                    "Verified/Ready/Running/StartRequested -> Upgrading (stop + unmount for upgrade)"@,
            },
    {
        match self.to {
            TransitionTo::Verified => "",
            TransitionTo::SettingUp => "Verified/Cleaned -> SettingUp (setup package)",
            TransitionTo::StartRequested => "Ready/Running(failed) -> StartRequested (start package)",
            TransitionTo::CleaningUp => "Ready -> CleaningUp (cleanup package)",
            TransitionTo::StopRequested => "StartRequested/Running -> StopRequested (stop package)",
            TransitionTo::Ready => "SettingUp/StopRequested -> Ready (setup/stop package)",
            TransitionTo::Running => "StartRequested -> Running (start package)",
            TransitionTo::Cleaned => "CleaningUp -> Cleaned (cleanup package)",
            TransitionTo::Error => "Any -> Error (error occurred)",
            TransitionTo::Broken => "Any -> Broken (package broken)",
            TransitionTo::Upgrading =>
                "Verified/Ready/Running/StartRequested -> Upgrading (stop + unmount for upgrade)",
        }
    }
}

/// All the ways there are: one to each kind of status but `Verified`, which a package
/// has only at its start.
#[derive(Debug)]
pub struct TransitionStore {
    transitions: Vec<TransitionHandler>,
}

pub open spec fn all_ways() -> Seq<TransitionTo> {
    seq![
        TransitionTo::SettingUp,
        TransitionTo::StartRequested,
        TransitionTo::CleaningUp,
        TransitionTo::StopRequested,
        TransitionTo::Ready,
        TransitionTo::Cleaned,
        TransitionTo::Running,
        TransitionTo::Broken,
        TransitionTo::Error,
        TransitionTo::Upgrading,
    ]
}

impl TransitionStore {
    pub closed spec fn ways(&self) -> Seq<TransitionTo> {
        Seq::new(self.transitions@.len(), |i: int| self.transitions@[i].to)
    }

    pub open spec fn wf(&self) -> bool {
        self.ways() == all_ways()
    }

    pub fn new() -> (r: Self)
        ensures
            r.wf(),
    {
        let transitions: Vec<TransitionHandler> = vec![
            TransitionHandler { to: TransitionTo::SettingUp },
            TransitionHandler { to: TransitionTo::StartRequested },
            TransitionHandler { to: TransitionTo::CleaningUp },
            TransitionHandler { to: TransitionTo::StopRequested },
            TransitionHandler { to: TransitionTo::Ready },
            TransitionHandler { to: TransitionTo::Cleaned },
            TransitionHandler { to: TransitionTo::Running },
            TransitionHandler { to: TransitionTo::Broken },
            TransitionHandler { to: TransitionTo::Error },
            TransitionHandler { to: TransitionTo::Upgrading },
        ];
        let r = TransitionStore { transitions };
        assert(r.ways() =~= all_ways());
        r
    }

    /// The ways, one after the other.
    pub fn transitions(&self) -> (r: &Vec<TransitionHandler>)
        ensures
            r@.len() == self.ways().len(),
            forall|i: int| 0 <= i < r@.len() ==> (#[trigger] r@[i]).to == self.ways()[i],
    {
        &self.transitions
    }

    /// The way from `current` to `target`, if a package may take it.
    pub fn find_transition(&self, current: &PackageStatus, target: &PackageStatus) -> (r: Option<
        &TransitionHandler,
    >)
        requires
            self.wf(),
        ensures
            r is Some <==> may_go(current@, kind_of(target@)),
            r matches Some(t) ==> t.to == kind_of(target@),
    {
        let to = TransitionTo::of(target);
        let mut i: usize = 0;
        while i < self.transitions.len()
            invariant
                i <= self.transitions@.len(),
                to == kind_of(target@),
                forall|j: int| 0 <= j < i ==> (#[trigger] self.transitions@[j]).to != to,
            decreases self.transitions.len() - i,
        {
            if self.transitions[i].to == to {
                if self.transitions[i].is_applicable(current) {
                    return Some(&self.transitions[i]);
                }
                return None;
            }
            i += 1;
        }
        proof {
            if to != TransitionTo::Verified {
                lemma_way_exists(to);
                let k = choose|k: int| 0 <= k < all_ways().len() && all_ways()[k] == to;
                assert(self.ways()[k] == self.transitions@[k].to);
            }
        }
        None
    }
}

proof fn lemma_way_exists(to: TransitionTo)
    requires
        to != TransitionTo::Verified,
    ensures
        exists|k: int| 0 <= k < all_ways().len() && all_ways()[k] == to,
{
    let w = all_ways();
    match to {
        TransitionTo::Verified => {},
        TransitionTo::SettingUp => assert(w[0] == to),
        TransitionTo::StartRequested => assert(w[1] == to),
        TransitionTo::CleaningUp => assert(w[2] == to),
        TransitionTo::StopRequested => assert(w[3] == to),
        TransitionTo::Ready => assert(w[4] == to),
        TransitionTo::Cleaned => assert(w[5] == to),
        TransitionTo::Running => assert(w[6] == to),
        TransitionTo::Broken => assert(w[7] == to),
        TransitionTo::Error => assert(w[8] == to),
        TransitionTo::Upgrading => assert(w[9] == to),
    }
}

} // verus!
