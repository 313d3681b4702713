//! The life of one package, as a machine: a request either ends at once or asks for an
//! operation, and what came of the operation ends it.

use crate::package_status::{
    status_after, status_text, ExecutionResult, PackageStatus, StatusView,
};
use crate::text::join2;
use crate::transition::{
    is_passed_over, kind_of, may_go, operation_for, Operation, TransitionStore,
};
use vstd::prelude::*;
use vstd::string::StringExecFns;

verus! {

/// Why a request was not met.
#[derive(Debug)]
pub enum TransitionError {
    /// The package cannot go there from where it is.
    Invalid { from: PackageStatus, to: PackageStatus },
    /// The package got into this error state.
    ErrorState(PackageStatus),
}

impl TransitionError {
    pub open spec fn text(&self, name: Seq<char>) -> Seq<char> {
        match self {
            TransitionError::Invalid { from, to } => "Invalid transition from "@ + status_text(
                from@,
            ) + " to "@ + status_text(to@),
            TransitionError::ErrorState(s) => "Package "@ + name + " got into error state: "@
                + status_text(s@),
        }
    }

    pub fn message(&self, name: &str) -> (r: String)
        ensures
            r@ == self.text(name@),
    {
        match self {
            TransitionError::Invalid { from, to } => {
                let mut out = join2("Invalid transition from ", from.to_text().as_str());
                out.append(" to ");
                out.append(to.to_text().as_str());
                out
            },
            TransitionError::ErrorState(s) => {
                let mut out = join2("Package ", name);
                out.append(" got into error state: ");
                out.append(s.to_text().as_str());
                out
            },
        }
    }
}

/// The operation that is under way.
#[derive(Debug)]
pub enum Pending {
    Idle,
    Setup,
    /// The cleanup after a setup that failed for the given reason.
    CleanupAfterSetup(String),
    Cleanup,
    Start,
    Stop,
    Teardown,
}

pub enum PendingView {
    Idle,
    Setup,
    CleanupAfterSetup(Seq<char>),
    Cleanup,
    Start,
    Stop,
    Teardown,
}

impl View for Pending {
    type V = PendingView;

    open spec fn view(&self) -> PendingView {
        match self {
            Pending::Idle => PendingView::Idle,
            Pending::Setup => PendingView::Setup,
            Pending::CleanupAfterSetup(e) => PendingView::CleanupAfterSetup(e@),
            Pending::Cleanup => PendingView::Cleanup,
            Pending::Start => PendingView::Start,
            Pending::Stop => PendingView::Stop,
            Pending::Teardown => PendingView::Teardown,
        }
    }
}

/// What came of an operation.
#[derive(Debug)]
pub enum Outcome {
    /// Setup, cleanup or teardown: done, or failed for a reason.
    Done(Result<(), String>),
    /// Start or stop: what became of the unit, or why it could not even be asked.
    Executed(Result<ExecutionResult, String>),
}

/// The answer to a request or an outcome.
#[derive(Debug)]
pub enum Reply {
    Finished(Result<(), TransitionError>),
    Perform(Operation),
}

/// The statuses that a package can rest in; the others only last while an operation
/// is under way.
pub open spec fn is_settled(s: StatusView) -> bool {
    match s {
        StatusView::SettingUp
        | StatusView::StartRequested
        | StatusView::StopRequested
        | StatusView::CleaningUp => false,
        _ => true,
    }
}

pub open spec fn pending_for(op: Operation) -> PendingView {
    match op {
        Operation::Setup => PendingView::Setup,
        Operation::Cleanup => PendingView::Cleanup,
        Operation::Start => PendingView::Start,
        Operation::Stop => PendingView::Stop,
        Operation::Teardown => PendingView::Teardown,
    }
}

/// The operation that a pending one is.
pub open spec fn operation_of(p: PendingView) -> Option<Operation> {
    match p {
        PendingView::Idle => None,
        PendingView::Setup => Some(Operation::Setup),
        PendingView::CleanupAfterSetup(_) => Some(Operation::Cleanup),
        PendingView::Cleanup => Some(Operation::Cleanup),
        PendingView::Start => Some(Operation::Start),
        PendingView::Stop => Some(Operation::Stop),
        PendingView::Teardown => Some(Operation::Teardown),
    }
}

/// The lifecycle of one package.
#[derive(Debug)]
pub struct TransitionManagerActor {
    name: String,
    status: PackageStatus,
    pending: Pending,
    transition_store: TransitionStore,
}

/// Where a request for `next` leads from `status`: the new status, and the operation
/// that is then under way.
pub open spec fn after_request(status: StatusView, next: StatusView) -> (StatusView, PendingView) {
    let to = kind_of(next);
    if next == status || !may_go(status, to) || is_passed_over(status, to) {
        (status, PendingView::Idle)
    } else {
        match operation_for(status, to) {
            Some(op) => (next, pending_for(op)),
            None => (next, PendingView::Idle),
        }
    }
}

/// Whether `r` is the answer to a request for `next` in `current`: what the package is
/// already, and what is passed over, is granted; what it may not become is refused; an
/// error that it is told of is reported back; and where something has to be done, that
/// is asked for.
pub open spec fn is_reply_to(current: StatusView, next: StatusView, r: Reply) -> bool {
    let to = kind_of(next);
    if next == current {
        r matches Reply::Finished(Ok(_))
    } else if !may_go(current, to) {
        &&& r matches Reply::Finished(Err(TransitionError::Invalid { from, to: t }))
        &&& from@ == current
        &&& t@ == next
    } else if is_passed_over(current, to) {
        r matches Reply::Finished(Ok(_))
    } else {
        match operation_for(current, to) {
            Some(op) => r == Reply::Perform(op),
            None => if next is Error {
                &&& r matches Reply::Finished(Err(TransitionError::ErrorState(s)))
                &&& s@ == next
            } else {
                r matches Reply::Finished(Ok(_))
            },
        }
    }
}

/// Whether `r` is the answer to an outcome that led to `status` and `pending`.
pub open spec fn is_reply_after(status: StatusView, pending: PendingView, r: Reply) -> bool {
    match operation_of(pending) {
        Some(op) => r == Reply::Perform(op),
        None => if status is Error {
            &&& r matches Reply::Finished(Err(TransitionError::ErrorState(s)))
            &&& s@ == status
        } else {
            r matches Reply::Finished(Ok(_))
        },
    }
}

/// Where the outcome of a pending operation leads: the new status, and what is then
/// under way. An outcome of the wrong sort leads nowhere.
pub open spec fn after_outcome(status: StatusView, pending: PendingView, outcome: Outcome) -> (
    StatusView,
    PendingView,
) {
    match (pending, outcome) {
        (PendingView::Setup, Outcome::Done(Ok(_))) => (StatusView::Ready, PendingView::Idle),
        (PendingView::Setup, Outcome::Done(Err(e))) => (
            status,
            PendingView::CleanupAfterSetup(e@),
        ),
        (PendingView::CleanupAfterSetup(e), Outcome::Done(_)) => (
            StatusView::Error(e),
            PendingView::Idle,
        ),
        (PendingView::Cleanup, Outcome::Done(Ok(_))) => (StatusView::Cleaned, PendingView::Idle),
        (PendingView::Cleanup, Outcome::Done(Err(e))) => (StatusView::Error(e@), PendingView::Idle),
        (PendingView::Teardown, Outcome::Done(Ok(_))) => (status, PendingView::Idle),
        (PendingView::Teardown, Outcome::Done(Err(e))) => (StatusView::Error(e@), PendingView::Idle),
        (PendingView::Start, Outcome::Executed(Ok(x))) => (status_after(x), PendingView::Idle),
        (PendingView::Start, Outcome::Executed(Err(e))) => (StatusView::Error(e@), PendingView::Idle),
        (PendingView::Stop, Outcome::Executed(Ok(x))) => (status_after(x), PendingView::Idle),
        (PendingView::Stop, Outcome::Executed(Err(e))) => (StatusView::Error(e@), PendingView::Idle),
        _ => (status, pending),
    }
}

impl TransitionManagerActor {
    pub closed spec fn name_spec(&self) -> Seq<char> {
        self.name@
    }

    pub closed spec fn status_spec(&self) -> StatusView {
        self.status@
    }

    pub closed spec fn pending_spec(&self) -> PendingView {
        self.pending@
    }

    /// At rest the status is a settled one; under way it is that of the operation.
    pub open spec fn wf(&self) -> bool {
        &&& self.store_wf()
        &&& match self.pending_spec() {
            PendingView::Idle => is_settled(self.status_spec()),
            PendingView::Setup => self.status_spec() is SettingUp,
            PendingView::CleanupAfterSetup(_) => self.status_spec() is SettingUp,
            PendingView::Cleanup => self.status_spec() is CleaningUp,
            PendingView::Start => self.status_spec() is StartRequested,
            PendingView::Stop => self.status_spec() is StopRequested,
            PendingView::Teardown => self.status_spec() is Upgrading,
        }
    }

    pub closed spec fn store_wf(&self) -> bool {
        self.transition_store.wf()
    }

    /// A package begins as verified.
    pub fn new(name: String) -> (r: Self)
        ensures
            r.wf(),
            r.name_spec() == name@,
            r.status_spec() == StatusView::Verified,
            r.pending_spec() == PendingView::Idle,
    {
        TransitionManagerActor {
            name,
            status: PackageStatus::Verified,
            pending: Pending::Idle,
            transition_store: TransitionStore::new(),
        }
    }

    pub fn get_name(&self) -> (r: &str)
        ensures
            r@ == self.name_spec(),
    {
        self.name.as_str()
    }

    pub fn get_status(&self) -> (r: PackageStatus)
        ensures
            r@ == self.status_spec(),
    {
        self.status.clone()
    }

    pub fn is_idle(&self) -> (r: bool)
        ensures
            r == (self.pending_spec() == PendingView::Idle),
    {
        matches!(self.pending, Pending::Idle)
    }

    /// Asks for the status `next`. What the package is already, and what may be passed
    /// over, is granted at once and changes nothing; where it may not go, it stays.
    pub fn transition_to(&mut self, next: PackageStatus) -> (r: Reply)
        requires
            old(self).wf(),
            old(self).pending_spec() == PendingView::Idle,
        ensures
            final(self).wf(),
            final(self).name_spec() == old(self).name_spec(),
            (final(self).status_spec(), final(self).pending_spec()) == after_request(
                old(self).status_spec(),
                next@,
            ),
            is_reply_to(old(self).status_spec(), next@, r),
    {
        let current = self.status.clone();
        if next == current {
            return Reply::Finished(Ok(()));
        }
        let handler = match self.transition_store.find_transition(&current, &next) {
            Some(handler) => *handler,
            None => {
                return Reply::Finished(
                    Err(TransitionError::Invalid { from: current, to: next }),
                );
            },
        };
        if handler.ignore_without_error(&current) {
            return Reply::Finished(Ok(()));
        }
        let is_error = matches!(next, PackageStatus::Error(_));
        self.status = next.clone();
        match handler.operation(&current) {
            Some(op) => {
                self.pending =
                match op {
                    Operation::Setup => Pending::Setup,
                    Operation::Cleanup => Pending::Cleanup,
                    Operation::Start => Pending::Start,
                    Operation::Stop => Pending::Stop,
                    Operation::Teardown => Pending::Teardown,
                };
                Reply::Perform(op)
            },
            None => if is_error {
                Reply::Finished(Err(TransitionError::ErrorState(next)))
            } else {
                Reply::Finished(Ok(()))
            },
        }
    }

    /// Ends the operation that is under way with its outcome. A setup that failed is
    /// cleaned up after first. An outcome of the wrong sort is answered with what is
    /// still to be done.
    pub fn completed(&mut self, outcome: Outcome) -> (r: Reply)
        requires
            old(self).wf(),
            old(self).pending_spec() != PendingView::Idle,
        ensures
            final(self).wf(),
            final(self).name_spec() == old(self).name_spec(),
            (final(self).status_spec(), final(self).pending_spec()) == after_outcome(
                old(self).status_spec(),
                old(self).pending_spec(),
                outcome,
            ),
            is_reply_after(final(self).status_spec(), final(self).pending_spec(), r),
    {
        let mut pending = Pending::Idle;
        std::mem::swap(&mut pending, &mut self.pending);
        let next = match (pending, outcome) {
            (Pending::Setup, Outcome::Done(Ok(()))) => PackageStatus::Ready,
            (Pending::Setup, Outcome::Done(Err(e))) => {
                self.pending = Pending::CleanupAfterSetup(e);
                return Reply::Perform(Operation::Cleanup);
            },
            (Pending::CleanupAfterSetup(e), Outcome::Done(_)) => PackageStatus::Error(e),
            (Pending::Cleanup, Outcome::Done(Ok(()))) => PackageStatus::Cleaned,
            (Pending::Cleanup, Outcome::Done(Err(e))) => PackageStatus::Error(e),
            (Pending::Teardown, Outcome::Done(Ok(()))) => PackageStatus::Upgrading,
            (Pending::Teardown, Outcome::Done(Err(e))) => PackageStatus::Error(e),
            (Pending::Start, Outcome::Executed(Ok(x))) => PackageStatus::after_execution(x),
            (Pending::Start, Outcome::Executed(Err(e))) => PackageStatus::Error(e),
            (Pending::Stop, Outcome::Executed(Ok(x))) => PackageStatus::after_execution(x),
            (Pending::Stop, Outcome::Executed(Err(e))) => PackageStatus::Error(e),
            (other, _) => {
                let op = match other {
                    Pending::Setup => Operation::Setup,
                    Pending::Start => Operation::Start,
                    Pending::Stop => Operation::Stop,
                    Pending::Teardown => Operation::Teardown,
                    _ => Operation::Cleanup,
                };
                self.pending = other;
                return Reply::Perform(op);
            },
        };
        self.status = next.clone();
        if matches!(next, PackageStatus::Error(_)) {
            Reply::Finished(Err(TransitionError::ErrorState(next)))
        } else {
            Reply::Finished(Ok(()))
        }
    }

    /// Whether there is anything to tear down: in these states no file system is
    /// mounted.
    pub fn needs_teardown(&self) -> (r: bool)
        ensures
            r == !(self.status_spec() is Verified || self.status_spec() is Cleaned
                || self.status_spec() is Upgrading),
    {
        !matches!(
            self.status,
            PackageStatus::Verified | PackageStatus::Cleaned | PackageStatus::Upgrading
        )
    }
}

/// No request makes a package verified that is not.
pub proof fn law_never_verified_again(status: StatusView, next: StatusView)
    requires
        !(status is Verified),
    ensures
        !(after_request(status, next).0 is Verified),
{
}

/// A package that is being upgraded is done with: only an error or a broken file is
/// still recorded of it.
pub proof fn law_upgrading_is_final(next: StatusView)
    ensures
        after_request(StatusView::Upgrading, next).1 == PendingView::Idle,
        ({
            let s = after_request(StatusView::Upgrading, next).0;
            s is Upgrading || s is Error || s is Broken
        }),
{
}

/// The file system of a package is let go only where nothing runs: cleaning up begins
/// in the state `Ready` alone.
pub proof fn law_cleanup_only_when_ready(status: StatusView, next: StatusView)
    ensures
        after_request(status, next).1 == PendingView::Cleanup ==> status is Ready,
{
}

/// Asking twice for the same thing is asking once: what a finished request leads to is
/// not changed by repeating it.
pub proof fn law_repeat_changes_nothing(status: StatusView, next: StatusView)
    requires
        after_request(status, next).1 == PendingView::Idle,
        may_go(status, kind_of(next)),
        !is_passed_over(status, kind_of(next)),
    ensures
        after_request(after_request(status, next).0, next) == (next, PendingView::Idle),
{
}

/// A setup that fails ends in the error of the setup, whatever its cleanup does.
pub proof fn law_failed_setup_is_cleaned_up(status: StatusView, e: String, cleanup: Result<(), String>)
    ensures
        ({
            let first = after_outcome(status, PendingView::Setup, Outcome::Done(Err(e)));
            &&& operation_of(first.1) == Some(Operation::Cleanup)
            &&& after_outcome(first.0, first.1, Outcome::Done(cleanup)) == (
                StatusView::Error(e@),
                PendingView::Idle,
            )
        }),
{
}

/// The statuses and pending operations that a sequence of outcomes leads through end at
/// rest after two fitting outcomes at the latest.
pub proof fn law_operations_end(status: StatusView, op: Operation, a: Outcome, b: Outcome)
    requires
        op is Start || op is Stop <==> a is Executed,
        b is Done,
    ensures
        ({
            let first = after_outcome(status, pending_for(op), a);
            first.1 == PendingView::Idle || after_outcome(first.0, first.1, b).1
                == PendingView::Idle
        }),
{
}

/// From its start on, a package that went through setup, start, stop and cleanup without
/// failure is cleaned, and can be set up again.
pub proof fn law_full_cycle(started: ExecutionResult, stopped: ExecutionResult)
    requires
        status_after(started) is Running,
        status_after(stopped) is Ready,
    ensures
        ({
            let s0 = after_request(StatusView::Verified, StatusView::SettingUp);
            let s1 = after_outcome(s0.0, s0.1, Outcome::Done(Ok(())));
            let s2 = after_request(s1.0, StatusView::StartRequested);
            let s3 = after_outcome(s2.0, s2.1, Outcome::Executed(Ok(started)));
            let s4 = after_request(s3.0, StatusView::StopRequested);
            let s5 = after_outcome(s4.0, s4.1, Outcome::Executed(Ok(stopped)));
            let s6 = after_request(s5.0, StatusView::CleaningUp);
            let s7 = after_outcome(s6.0, s6.1, Outcome::Done(Ok(())));
            &&& s7 == (StatusView::Cleaned, PendingView::Idle)
            &&& after_request(s7.0, StatusView::SettingUp).1 == PendingView::Setup
        }),
{
}

/// Where a package at rest gets by a request that has something to be done: it is set up from
/// the start or once it was cleaned up, started when it is ready or has failed, stopped when
/// it runs, cleaned up when it is ready, and torn down for an upgrade when it is ready or
/// runs.
pub proof fn law_requests_that_are_carried_out(state: Seq<char>)
    ensures
        after_request(StatusView::Verified, StatusView::SettingUp) == (
            StatusView::SettingUp,
            PendingView::Setup,
        ),
        after_request(StatusView::Cleaned, StatusView::SettingUp) == (
            StatusView::SettingUp,
            PendingView::Setup,
        ),
        after_request(StatusView::Ready, StatusView::StartRequested) == (
            StatusView::StartRequested,
            PendingView::Start,
        ),
        after_request(StatusView::Running("failed"@), StatusView::StartRequested) == (
            StatusView::StartRequested,
            PendingView::Start,
        ),
        after_request(StatusView::Running(state), StatusView::StopRequested) == (
            StatusView::StopRequested,
            PendingView::Stop,
        ),
        after_request(StatusView::Ready, StatusView::CleaningUp) == (
            StatusView::CleaningUp,
            PendingView::Cleanup,
        ),
        after_request(StatusView::Ready, StatusView::Upgrading) == (
            StatusView::Upgrading,
            PendingView::Teardown,
        ),
        after_request(StatusView::Running(state), StatusView::Upgrading) == (
            StatusView::Upgrading,
            PendingView::Teardown,
        ),
        after_request(StatusView::Verified, StatusView::Upgrading) == (
            StatusView::Upgrading,
            PendingView::Idle,
        ),
{
}

/// A package that runs, and has not failed, is not started again, and one that is ready is not
/// stopped: nothing changes, and the request counts as met.
pub proof fn law_requests_that_are_met_already(state: Seq<char>, r: Reply, q: Reply)
    requires
        state != "failed"@,
        is_reply_to(StatusView::Running(state), StatusView::StartRequested, r),
        is_reply_to(StatusView::Ready, StatusView::StopRequested, q),
    ensures
        after_request(StatusView::Running(state), StatusView::StartRequested) == (
            StatusView::Running(state),
            PendingView::Idle,
        ),
        after_request(StatusView::Ready, StatusView::StopRequested) == (
            StatusView::Ready,
            PendingView::Idle,
        ),
        r matches Reply::Finished(Ok(_)),
        q matches Reply::Finished(Ok(_)),
{
}

/// The requests that a user may make of a package at rest but that it cannot meet: it is
/// told so, with where it is and where it was to go, and nothing changes.
pub proof fn law_requests_that_are_refused(current: StatusView, next: StatusView, r: Reply)
    requires
        is_settled(current),
        next is SettingUp || next is StartRequested || next is StopRequested || next is CleaningUp
            || next is Upgrading,
        is_reply_to(current, next, r),
    ensures
        ({
            let possible = match next {
                StatusView::SettingUp => current is Verified || current is Cleaned,
                StatusView::StartRequested => current is Ready || current is Running,
                StatusView::StopRequested => current is Ready || current is Running,
                StatusView::CleaningUp => current is Ready,
                _ => current is Verified || current is Ready || current is Running || current
                    is Upgrading,
            };
            &&& !possible <==> (r matches Reply::Finished(Err(TransitionError::Invalid { .. })))
            &&& !possible ==> after_request(current, next) == (current, PendingView::Idle)
            &&& r matches Reply::Finished(Err(TransitionError::Invalid { from, to })) ==> from@
                == current && to@ == next
            &&& possible ==> !(r matches Reply::Finished(Err(_)))
        }),
{
}

/// What has to be done is what was asked for: a setup, a start, a stop, a cleanup, or for an
/// upgrade a teardown.
pub proof fn law_what_is_to_be_done(current: StatusView, next: StatusView, op: Operation)
    requires
        is_reply_to(current, next, Reply::Perform(op)),
    ensures
        op is Setup <==> next is SettingUp,
        op is Start <==> next is StartRequested,
        op is Stop <==> next is StopRequested,
        op is Cleanup <==> next is CleaningUp,
        op is Teardown <==> next is Upgrading,
        after_request(current, next).0 == next,
        after_request(current, next).1 == match op {
            Operation::Setup => PendingView::Setup,
            Operation::Start => PendingView::Start,
            Operation::Stop => PendingView::Stop,
            Operation::Cleanup => PendingView::Cleanup,
            Operation::Teardown => PendingView::Teardown,
        },
{
}

/// The state of its unit is taken on by a package that is ready or runs; an error, or a broken
/// file, always is, and an error is reported back.
pub proof fn law_what_is_told_is_taken_on(
    current: StatusView,
    state: Seq<char>,
    e: Seq<char>,
    detail: Seq<char>,
    r: Reply,
)
    requires
        current is Ready || current is Running,
        is_reply_to(current, StatusView::Error(e), r),
        current != StatusView::Error(e),
    ensures
        after_request(current, StatusView::Running(state)) == (
            StatusView::Running(state),
            PendingView::Idle,
        ),
        after_request(current, StatusView::Ready) == (StatusView::Ready, PendingView::Idle),
        after_request(current, StatusView::Error(e)) == (StatusView::Error(e), PendingView::Idle),
        after_request(current, StatusView::Broken(e, detail)) == (
            StatusView::Broken(e, detail),
            PendingView::Idle,
        ),
        r matches Reply::Finished(Err(TransitionError::ErrorState(s))) && s@ == StatusView::Error(
            e,
        ),
{
}

/// What an operation that ends well leads to: a setup to a package that is ready, a cleanup to
/// one that is cleaned, a teardown to one that is being upgraded, and a start or a stop to
/// what the unit then is.
pub proof fn law_operations_that_succeed(state: String, words: String)
    ensures
        after_outcome(StatusView::SettingUp, PendingView::Setup, Outcome::Done(Ok(()))) == (
            StatusView::Ready,
            PendingView::Idle,
        ),
        after_outcome(StatusView::CleaningUp, PendingView::Cleanup, Outcome::Done(Ok(()))) == (
            StatusView::Cleaned,
            PendingView::Idle,
        ),
        after_outcome(StatusView::Upgrading, PendingView::Teardown, Outcome::Done(Ok(()))) == (
            StatusView::Upgrading,
            PendingView::Idle,
        ),
        ({
            let there = Outcome::Executed(
                Ok(
                    ExecutionResult::Success(
                        crate::package_status::ExecutionStatus::Active(state),
                    ),
                ),
            );
            let gone = Outcome::Executed(
                Ok(
                    ExecutionResult::Success(
                        crate::package_status::ExecutionStatus::Inactive(words),
                    ),
                ),
            );
            &&& after_outcome(StatusView::StartRequested, PendingView::Start, there) == (
                StatusView::Running(state@),
                PendingView::Idle,
            )
            &&& after_outcome(StatusView::StartRequested, PendingView::Start, gone) == (
                StatusView::Ready,
                PendingView::Idle,
            )
            &&& after_outcome(StatusView::StopRequested, PendingView::Stop, there) == (
                StatusView::Running(state@),
                PendingView::Idle,
            )
            &&& after_outcome(StatusView::StopRequested, PendingView::Stop, gone) == (
                StatusView::Ready,
                PendingView::Idle,
            )
        }),
{
}

/// What an operation that fails leads to: the error that it failed with. A start or a stop
/// that takes too long is one too.
pub proof fn law_operations_that_fail(status: StatusView, e: String, pending: PendingView)
    requires
        pending is Cleanup || pending is Teardown || pending is Start || pending is Stop,
    ensures
        ({
            let failed = if pending is Start || pending is Stop {
                Outcome::Executed(Err(e))
            } else {
                Outcome::Done(Err(e))
            };
            after_outcome(status, pending, failed) == (StatusView::Error(e@), PendingView::Idle)
        }),
        pending is Start || pending is Stop ==> after_outcome(
            status,
            pending,
            Outcome::Executed(Ok(ExecutionResult::Failure(e))),
        ) == (StatusView::Error(e@), PendingView::Idle),
        pending is Start || pending is Stop ==> after_outcome(
            status,
            pending,
            Outcome::Executed(Ok(ExecutionResult::Timeout)),
        ) == (StatusView::Error("timeout"@), PendingView::Idle),
{
}

/// The answer to an outcome: what is still to be done, the error that the package is in, or
/// that all is well.
pub proof fn law_answers_to_outcomes(status: StatusView, e: Seq<char>, r: Reply)
    ensures
        is_reply_after(status, PendingView::CleanupAfterSetup(e), r) ==> r == Reply::Perform(
            Operation::Cleanup,
        ),
        is_reply_after(StatusView::Error(e), PendingView::Idle, r) ==> (r matches Reply::Finished(
            Err(TransitionError::ErrorState(s)),
        ) && s@ == StatusView::Error(e)),
        !(status is Error) && is_reply_after(status, PendingView::Idle, r) ==> (
        r matches Reply::Finished(Ok(_))),
{
}

} // verus!
