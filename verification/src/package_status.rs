//! The states of a package.

use crate::text::{is_same, join2};
use vstd::prelude::*;
use vstd::string::StringExecFns;

verus! {

/// Why a package file is broken.
#[derive(Debug, Hash)]
pub struct BrokenReason {
    pub summary: String,
    pub detail: String,
}

impl BrokenReason {
    pub fn new(summary: &str, detail: &str) -> (r: Self)
        ensures
            r.summary@ == summary@,
            r.detail@ == detail@,
    {
        BrokenReason { summary: summary.to_owned(), detail: detail.to_owned() }
    }

    pub open spec fn text(&self) -> Seq<char> {
        self.summary@ + ": "@ + self.detail@
    }
}

impl Clone for BrokenReason {
    fn clone(&self) -> (r: Self)
        ensures
            r == *self,
    {
        BrokenReason { summary: self.summary.clone(), detail: self.detail.clone() }
    }
}

#[derive(Debug, Hash)]
pub enum PackageStatus {
    Verified,
    SettingUp,
    Ready,
    StartRequested,
    Running(String),
    StopRequested,
    CleaningUp,
    Cleaned,
    Upgrading,
    Error(String),
    Broken(BrokenReason),
}

/// A package status, with its texts as characters.
pub enum StatusView {
    Verified,
    SettingUp,
    Ready,
    StartRequested,
    Running(Seq<char>),
    StopRequested,
    CleaningUp,
    Cleaned,
    Upgrading,
    Error(Seq<char>),
    Broken(Seq<char>, Seq<char>),
}

impl View for PackageStatus {
    type V = StatusView;

    open spec fn view(&self) -> StatusView {
        match self {
            PackageStatus::Verified => StatusView::Verified,
            PackageStatus::SettingUp => StatusView::SettingUp,
            PackageStatus::Ready => StatusView::Ready,
            PackageStatus::StartRequested => StatusView::StartRequested,
            PackageStatus::Running(s) => StatusView::Running(s@),
            PackageStatus::StopRequested => StatusView::StopRequested,
            PackageStatus::CleaningUp => StatusView::CleaningUp,
            PackageStatus::Cleaned => StatusView::Cleaned,
            PackageStatus::Upgrading => StatusView::Upgrading,
            PackageStatus::Error(s) => StatusView::Error(s@),
            PackageStatus::Broken(b) => StatusView::Broken(b.summary@, b.detail@),
        }
    }
}

impl Clone for PackageStatus {
    fn clone(&self) -> (r: Self)
        ensures
            r == *self,
    {
        match self {
            PackageStatus::Verified => PackageStatus::Verified,
            PackageStatus::SettingUp => PackageStatus::SettingUp,
            PackageStatus::Ready => PackageStatus::Ready,
            PackageStatus::StartRequested => PackageStatus::StartRequested,
            PackageStatus::Running(s) => PackageStatus::Running(s.clone()),
            PackageStatus::StopRequested => PackageStatus::StopRequested,
            PackageStatus::CleaningUp => PackageStatus::CleaningUp,
            PackageStatus::Cleaned => PackageStatus::Cleaned,
            PackageStatus::Upgrading => PackageStatus::Upgrading,
            PackageStatus::Error(s) => PackageStatus::Error(s.clone()),
            PackageStatus::Broken(b) => PackageStatus::Broken(b.clone()),
        }
    }
}

impl PartialEq for PackageStatus {
    fn eq(&self, other: &Self) -> (r: bool) {
        match (self, other) {
            (PackageStatus::Verified, PackageStatus::Verified) => true,
            (PackageStatus::SettingUp, PackageStatus::SettingUp) => true,
            (PackageStatus::Ready, PackageStatus::Ready) => true,
            (PackageStatus::StartRequested, PackageStatus::StartRequested) => true,
            (PackageStatus::Running(a), PackageStatus::Running(b)) => is_same(
                a.as_str(),
                b.as_str(),
            ),
            (PackageStatus::StopRequested, PackageStatus::StopRequested) => true,
            (PackageStatus::CleaningUp, PackageStatus::CleaningUp) => true,
            (PackageStatus::Cleaned, PackageStatus::Cleaned) => true,
            (PackageStatus::Upgrading, PackageStatus::Upgrading) => true,
            (PackageStatus::Error(a), PackageStatus::Error(b)) => is_same(a.as_str(), b.as_str()),
            (PackageStatus::Broken(a), PackageStatus::Broken(b)) => is_same(
                a.summary.as_str(),
                b.summary.as_str(),
            ) && is_same(a.detail.as_str(), b.detail.as_str()),
            _ => false,
        }
    }
}

impl vstd::std_specs::cmp::PartialEqSpecImpl for PackageStatus {
    open spec fn obeys_eq_spec() -> bool {
        true
    }

    open spec fn eq_spec(&self, other: &Self) -> bool {
        self@ == other@
    }
}

impl Eq for PackageStatus {

}

/// `name(text)`
pub open spec fn named(name: Seq<char>, text: Seq<char>) -> Seq<char> {
    name + "("@ + text + ")"@
}

fn named_text(name: &str, text: &str) -> (r: String)
    ensures
        r@ == named(name@, text@),
{
    let mut out = join2(name, "(");
    out.append(text);
    out.append(")");
    out
}

/// A status in words.
pub open spec fn status_text(s: StatusView) -> Seq<char> {
    match s {
        StatusView::Verified => "Verified"@,
        StatusView::SettingUp => "SettingUp"@,
        StatusView::Ready => "Ready"@,
        StatusView::StartRequested => "StartRequested"@,
        StatusView::Running(state) => named("Running"@, state),
        StatusView::StopRequested => "StopRequested"@,
        StatusView::CleaningUp => "CleaningUp"@,
        StatusView::Cleaned => "Cleaned"@,
        StatusView::Upgrading => "Upgrading"@,
        StatusView::Error(e) => named("Error"@, e),
        StatusView::Broken(summary, detail) => named("Broken"@, summary + ": "@ + detail),
    }
}

impl PackageStatus {
    pub fn to_text(&self) -> (r: String)
        ensures
            r@ == status_text(self@),
    {
        match self {
            PackageStatus::Verified => "Verified".to_owned(),
            PackageStatus::SettingUp => "SettingUp".to_owned(),
            PackageStatus::Ready => "Ready".to_owned(),
            PackageStatus::StartRequested => "StartRequested".to_owned(),
            PackageStatus::Running(state) => named_text("Running", state.as_str()),
            PackageStatus::StopRequested => "StopRequested".to_owned(),
            PackageStatus::CleaningUp => "CleaningUp".to_owned(),
            PackageStatus::Cleaned => "Cleaned".to_owned(),
            PackageStatus::Upgrading => "Upgrading".to_owned(),
            PackageStatus::Error(e) => named_text("Error", e.as_str()),
            PackageStatus::Broken(b) => {
                let mut text = join2(b.summary.as_str(), ": ");
                text.append(b.detail.as_str());
                named_text("Broken", text.as_str())
            },
        }
    }
}

/// A stretch of a package's life that is timed.
#[derive(Debug)]
pub enum PackagePhase {
    Parse,
    InitExecutor,
    Mount,
    PrepareCommand,
    Start,
    Stop,
    Unmount,
    Custom(String),
}

impl PackagePhase {
    pub fn to_text(&self) -> (r: String)
        ensures
            r@ == match *self {
                PackagePhase::Parse => "Parse"@,
                PackagePhase::InitExecutor => "InitExecutor"@,
                PackagePhase::Mount => "Mount"@,
                PackagePhase::PrepareCommand => "PrepareCommand"@,
                PackagePhase::Start => "Start"@,
                PackagePhase::Stop => "Stop"@,
                PackagePhase::Unmount => "Unmount"@,
                PackagePhase::Custom(s) => s@,
            },
    {
        match self {
            PackagePhase::Parse => "Parse".to_owned(),
            PackagePhase::InitExecutor => "InitExecutor".to_owned(),
            PackagePhase::Mount => "Mount".to_owned(),
            PackagePhase::PrepareCommand => "PrepareCommand".to_owned(),
            PackagePhase::Start => "Start".to_owned(),
            PackagePhase::Stop => "Stop".to_owned(),
            PackagePhase::Unmount => "Unmount".to_owned(),
            PackagePhase::Custom(s) => s.clone(),
        }
    }
}

/// What a unit is doing, in its own words.
#[derive(Debug)]
pub enum ExecutionStatus {
    Active(String),
    Inactive(String),
}

impl ExecutionStatus {
    pub open spec fn text(&self) -> Seq<char> {
        match self {
            ExecutionStatus::Active(s) => s@,
            ExecutionStatus::Inactive(s) => s@,
        }
    }

    pub fn to_text(&self) -> (r: String)
        ensures
            r@ == self.text(),
    {
        match self {
            ExecutionStatus::Active(s) => s.clone(),
            ExecutionStatus::Inactive(s) => s.clone(),
        }
    }
}

/// What came of starting or stopping a package.
#[derive(Debug)]
pub enum ExecutionResult {
    Success(ExecutionStatus),
    Canceled(ExecutionStatus),
    Failure(String),
    Timeout,
}

/// The status of a package whose unit is in a given state.
pub open spec fn status_of_unit(s: ExecutionStatus) -> StatusView {
    match s {
        ExecutionStatus::Active(state) => StatusView::Running(state@),
        ExecutionStatus::Inactive(_) => StatusView::Ready,
    }
}

/// The status of a package after starting or stopping it.
pub open spec fn status_after(e: ExecutionResult) -> StatusView {
    match e {
        ExecutionResult::Success(s) => status_of_unit(s),
        ExecutionResult::Canceled(s) => status_of_unit(s),
        ExecutionResult::Failure(reason) => StatusView::Error(reason@),
        ExecutionResult::Timeout => StatusView::Error("timeout"@),
    }
}

impl PackageStatus {
    pub fn of_unit(state: ExecutionStatus) -> (r: Self)
        ensures
            r@ == status_of_unit(state),
    {
        match state {
            ExecutionStatus::Active(s) => PackageStatus::Running(s),
            ExecutionStatus::Inactive(_) => PackageStatus::Ready,
        }
    }

    pub fn after_execution(result: ExecutionResult) -> (r: Self)
        ensures
            r@ == status_after(result),
    {
        match result {
            ExecutionResult::Success(s) => PackageStatus::of_unit(s),
            ExecutionResult::Canceled(s) => PackageStatus::of_unit(s),
            ExecutionResult::Failure(reason) => PackageStatus::Error(reason),
            ExecutionResult::Timeout => PackageStatus::Error("timeout".to_owned()),
        }
    }
}

/// The words for a running package tell the state of its unit.
pub proof fn law_status_text_tells_running(a: Seq<char>, b: Seq<char>)
    requires
        status_text(StatusView::Running(a)) == status_text(StatusView::Running(b)),
    ensures
        a == b,
{
    let x = named("Running"@, a);
    let y = named("Running"@, b);
    let p = ("Running"@ + "("@).len() as int;
    let q = ")"@.len() as int;
    assert(x.len() == p + a.len() + q);
    assert(y.len() == p + b.len() + q);
    assert(x.subrange(p, p + a.len()) =~= a);
    assert(y.subrange(p, p + b.len()) =~= b);
}

/// A package whose unit is there runs, in the words of the unit; else it is ready. A start or
/// stop that failed, or took too long, is an error with its reason.
pub proof fn law_status_follows_unit(state: String, reason: String)
    ensures
        status_of_unit(ExecutionStatus::Active(state)) == StatusView::Running(state@),
        status_of_unit(ExecutionStatus::Inactive(state)) == StatusView::Ready,
        status_after(ExecutionResult::Success(ExecutionStatus::Active(state)))
            == StatusView::Running(state@),
        status_after(ExecutionResult::Success(ExecutionStatus::Inactive(state)))
            == StatusView::Ready,
        status_after(ExecutionResult::Canceled(ExecutionStatus::Active(state)))
            == StatusView::Running(state@),
        status_after(ExecutionResult::Canceled(ExecutionStatus::Inactive(state)))
            == StatusView::Ready,
        status_after(ExecutionResult::Failure(reason)) == StatusView::Error(reason@),
        status_after(ExecutionResult::Timeout) == StatusView::Error("timeout"@),
{
}

/// The words for each status.
pub proof fn law_words_for_statuses(state: Seq<char>, summary: Seq<char>, detail: Seq<char>)
    ensures
        status_text(StatusView::Verified) == "Verified"@,
        status_text(StatusView::SettingUp) == "SettingUp"@,
        status_text(StatusView::Ready) == "Ready"@,
        status_text(StatusView::StartRequested) == "StartRequested"@,
        status_text(StatusView::StopRequested) == "StopRequested"@,
        status_text(StatusView::CleaningUp) == "CleaningUp"@,
        status_text(StatusView::Cleaned) == "Cleaned"@,
        status_text(StatusView::Upgrading) == "Upgrading"@,
        status_text(StatusView::Running(state)) == "Running"@ + "("@ + state + ")"@,
        status_text(StatusView::Error(state)) == "Error"@ + "("@ + state + ")"@,
        status_text(StatusView::Broken(summary, detail)) == "Broken"@ + "("@ + (summary + ": "@
            + detail) + ")"@,
{
}

} // verus!
