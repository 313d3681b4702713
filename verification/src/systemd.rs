//! Packages as transient systemd services: the properties of a unit, its states, and
//! what a job's outcome means.

use crate::name_map::NameMap;
use crate::network::{hex_digit, lemma_hex_digit_injective};
use crate::package_status::{ExecutionResult, ExecutionStatus};
use crate::path::{find_last, last_index, texts};
use crate::text::{
    chars_of, decimal_signed, decimal_signed_text, ends_with, is_same, join2, slice_text,
};
use vstd::prelude::*;
use vstd::string::StringExecFns;
use vstd::utf8::{encode_utf8, encode_utf8_decode_utf8};

verus! {

/// Below which the bus names its units.
pub const UNIT_PREFIX: &'static str = "/org/freedesktop/systemd1/unit";

/// How long a job is waited for.
pub const JOB_WAIT_TIMEOUT_SEC: u64 = 10;

/// How long a stop may hold up a teardown.
pub const BLOCKING_TIMEOUT_SEC: u64 = 8;

pub const START_TIMEOUT_SEC: u64 = 5;

pub const STOP_TIMEOUT_SEC: u64 = 5;

pub const USEC_PER_SEC: u64 = 1_000_000;

/// The control group where none is configured.
pub const DEF_CGROUPS_PATH: &'static str = "system.slice";

/// The exit code of a process that ended on SIGTERM.
pub const SIGTERM_EXIT_CODE: i32 = 143;

/// Whether a text is a path on the bus: steps of letters, digits and underscores, each
/// with a slash before it.
pub open spec fn is_object_path(p: Seq<char>) -> bool {
    &&& p.len() > 1
    &&& p[0] == '/'
    &&& p.last() != '/'
    &&& forall|i: int|
        0 <= i < p.len() ==> {
            ||| 'a' <= #[trigger] p[i] <= 'z'
            ||| 'A' <= p[i] <= 'Z'
            ||| '0' <= p[i] <= '9'
            ||| p[i] == '_'
            ||| (p[i] == '/' && p[i + 1] != '/')
        }
}

/// Whether the byte at index `i` of a label stands for itself: a letter does, and behind
/// the first byte a digit.
pub open spec fn is_plain(i: int, b: u8) -> bool {
    0x61 <= b <= 0x7a || 0x41 <= b <= 0x5a || (i > 0 && 0x30 <= b <= 0x39)
}

/// What stands in a label for the byte at index `i`: where it does not stand for itself,
/// an underscore and its two hexadecimal digits.
pub open spec fn label_part(i: int, b: u8) -> Seq<char> {
    if is_plain(i, b) {
        seq![b as char]
    } else {
        seq!['_', hex_digit(b / 16), hex_digit(b % 16)]
    }
}

/// The parts of a label from the byte at index `i` on.
pub open spec fn label_from(id: Seq<u8>, i: int) -> Seq<char>
    decreases id.len() - i,
{
    if i < 0 || i >= id.len() {
        Seq::empty()
    } else {
        label_part(i, id[i]) + label_from(id, i + 1)
    }
}

/// The label of an id, by the bytes of its UTF-8 encoding.
pub open spec fn bus_label(id: Seq<char>) -> Seq<char> {
    if encode_utf8(id).len() == 0 {
        seq!['_']
    } else {
        label_from(encode_utf8(id), 0)
    }
}

/// `zbus_systemd::bus_path_encode`, on a prefix that `ObjectPath::try_from` accepts: the
/// prefix, a slash and the label of the id. Every path on the bus is accepted.
#[verifier::external_body]
fn bus_path_encode(prefix: &str, id: &str) -> (r: Option<String>)
    ensures
        is_object_path(prefix@) ==> r is Some,
        r matches Some(p) ==> p@ == prefix@ + seq!['/'] + bus_label(id@),
{
    let prefix = zbus_systemd::zbus::ObjectPath::try_from(prefix).ok()?;
    Some(zbus_systemd::bus_path_encode(&prefix, id).as_str().to_owned())
}

/// The bus path of a unit.
pub fn unit_bus_path(unit_name: &str) -> (r: String)
    ensures
        r@ == UNIT_PREFIX@ + seq!['/'] + bus_label(unit_name@),
{
    proof {
        reveal_strlit("/org/freedesktop/systemd1/unit");
        assert(is_object_path("/org/freedesktop/systemd1/unit"@));
    }
    match bus_path_encode(UNIT_PREFIX, unit_name) {
        Some(path) => path,
        None => vstd::pervasive::unreached(),
    }
}

/// What a label begins with tells which byte it stands for, and where the rest begins.
proof fn lemma_label_part(i: int, b: u8, c: u8, after_b: Seq<char>, after_c: Seq<char>)
    requires
        label_part(i, b) + after_b == label_part(i, c) + after_c,
    ensures
        b == c,
        after_b == after_c,
{
    let (p, q) = (label_part(i, b), label_part(i, c));
    let (x, y) = (p + after_b, q + after_c);
    assert(b as char as u32 == b as u32);
    assert(c as char as u32 == c as u32);
    assert('_' as u32 == 0x5f);
    assert(x[0] == p[0]);
    assert(y[0] == q[0]);
    if is_plain(i, b) {
        assert(p[0] as u32 == b as u32);
        assert(is_plain(i, c));
        assert(q[0] as u32 == c as u32);
    } else {
        assert(p[0] == '_');
        assert(!is_plain(i, c)) by {
            if is_plain(i, c) {
                assert(q[0] as u32 == c as u32);
            }
        }
        assert(x[1] == p[1] && y[1] == q[1]);
        assert(x[2] == p[2] && y[2] == q[2]);
        lemma_hex_digit_injective(b / 16, c / 16);
        lemma_hex_digit_injective(b % 16, c % 16);
    }
    assert(after_b =~= x.skip(p.len() as int));
    assert(after_c =~= y.skip(q.len() as int));
}

proof fn lemma_label_injective(a: Seq<u8>, b: Seq<u8>, i: int)
    requires
        0 <= i <= a.len(),
        i <= b.len(),
        label_from(a, i) == label_from(b, i),
    ensures
        a.len() == b.len(),
        forall|j: int| i <= j < a.len() ==> a[j] == b[j],
    decreases a.len() - i,
{
    if i < a.len() && i < b.len() {
        lemma_label_part(i, a[i], b[i], label_from(a, i + 1), label_from(b, i + 1));
        lemma_label_injective(a, b, i + 1);
    } else if i < a.len() {
        assert(label_from(a, i).len() > 0);
    } else if i < b.len() {
        assert(label_from(b, i).len() > 0);
    }
}

/// No two units have the same path on the bus.
pub proof fn law_bus_paths_distinct(a: Seq<char>, b: Seq<char>)
    requires
        bus_label(a) == bus_label(b),
    ensures
        a == b,
{
    let (x, y) = (encode_utf8(a), encode_utf8(b));
    if x.len() == 0 && y.len() > 0 {
        assert(label_from(y, 0).len() == label_part(0, y[0]).len() + label_from(y, 1).len());
        assert(label_from(y, 0)[0] == label_part(0, y[0])[0]);
    } else if y.len() == 0 && x.len() > 0 {
        assert(label_from(x, 0).len() == label_part(0, x[0]).len() + label_from(x, 1).len());
        assert(label_from(x, 0)[0] == label_part(0, x[0])[0]);
    } else {
        if x.len() > 0 {
            lemma_label_injective(x, y, 0);
        }
        assert(x =~= y);
    }
    encode_utf8_decode_utf8(a);
    encode_utf8_decode_utf8(b);
}

/// The unit that runs a package.
pub fn unit_name(package_name: &str) -> (r: String)
    ensures
        r@ == package_name@ + ".service"@,
{
    join2(package_name, ".service")
}

/// Why a control group names no slice.
#[derive(Debug, Clone, Copy, PartialEq, Eq, Structural)]
pub enum SliceError {
    Empty,
    NotASlice,
}

/// The slice of a control group: the last step of its path.
pub open spec fn slice_of(cgroups_path: Seq<char>) -> Result<Seq<char>, SliceError> {
    if cgroups_path.len() == 0 {
        Err(SliceError::Empty)
    } else if !".slice"@.is_suffix_of(cgroups_path) {
        Err(SliceError::NotASlice)
    } else {
        Ok(
            cgroups_path.subrange(
                last_index(cgroups_path, '/') + 1,
                cgroups_path.len() as int,
            ),
        )
    }
}

pub fn slice_str_from_cgroups_path(cgroups_path: &str) -> (r: Result<String, SliceError>)
    ensures
        match r {
            Ok(s) => slice_of(cgroups_path@) == Ok::<Seq<char>, SliceError>(s@),
            Err(e) => slice_of(cgroups_path@) == Err::<Seq<char>, SliceError>(e),
        },
{
    if cgroups_path.is_empty() {
        return Err(SliceError::Empty);
    }
    if !ends_with(cgroups_path, ".slice") {
        return Err(SliceError::NotASlice);
    }
    let chars = chars_of(cgroups_path);
    let n: usize = chars.len();
    match find_last(&chars, '/') {
        Some(i) => Ok(slice_text(&chars, i + 1, n)),
        None => {
            assert(chars@.subrange(0, n as int) =~= chars@);
            Ok(slice_text(&chars, 0, n))
        },
    }
}

/// The control group of the packages: the configured one, or the default.
pub open spec fn cgroups_path_spec(configured: Seq<char>) -> Seq<char> {
    if configured.len() == 0 {
        DEF_CGROUPS_PATH@
    } else {
        configured
    }
}

pub fn cgroups_path(configured: &str) -> (r: String)
    ensures
        r@ == cgroups_path_spec(configured@),
{
    if configured.is_empty() {
        DEF_CGROUPS_PATH.to_owned()
    } else {
        configured.to_owned()
    }
}

/// How a unit failed.
#[derive(Debug)]
pub struct FailureInfo {
    pub result: String,
    pub exitcode: i32,
}

impl Default for FailureInfo {
    fn default() -> (r: Self)
        ensures
            r.result@ == "Unknown"@,
            r.exitcode == -1,
    {
        FailureInfo { result: "Unknown".to_owned(), exitcode: -1 }
    }
}

impl Clone for FailureInfo {
    fn clone(&self) -> (r: Self)
        ensures
            r == *self,
    {
        FailureInfo { result: self.result.clone(), exitcode: self.exitcode }
    }
}

impl FailureInfo {
    pub fn to_text(&self) -> (r: String)
        ensures
            r@ == "Result: "@ + self.result@ + ", Exitcode: "@ + decimal_signed(
                self.exitcode as int,
            ),
    {
        let mut out = join2("Result: ", self.result.as_str());
        out.append(", Exitcode: ");
        out.append(decimal_signed_text(self.exitcode as i64).as_str());
        out
    }
}

/// The state of a unit.
#[derive(Debug)]
pub enum UnitActiveState {
    Activating,
    Active,
    Reloading,
    Deactivating,
    Inactive,
    Failed(FailureInfo),
}

impl Clone for UnitActiveState {
    fn clone(&self) -> (r: Self)
        ensures
            r == *self,
    {
        match self {
            UnitActiveState::Activating => UnitActiveState::Activating,
            UnitActiveState::Active => UnitActiveState::Active,
            UnitActiveState::Reloading => UnitActiveState::Reloading,
            UnitActiveState::Deactivating => UnitActiveState::Deactivating,
            UnitActiveState::Inactive => UnitActiveState::Inactive,
            UnitActiveState::Failed(info) => UnitActiveState::Failed(info.clone()),
        }
    }
}

/// The name of a state on the bus.
pub open spec fn state_name(s: UnitActiveState) -> Seq<char> {
    match s {
        UnitActiveState::Activating => "activating"@,
        UnitActiveState::Active => "active"@,
        UnitActiveState::Reloading => "reloading"@,
        UnitActiveState::Deactivating => "deactivating"@,
        UnitActiveState::Inactive => "inactive"@,
        UnitActiveState::Failed(_) => "failed"@,
    }
}

/// Whether a text names a state of a unit that has not failed.
pub open spec fn is_sound_state_name(name: Seq<char>) -> bool {
    name == "activating"@ || name == "active"@ || name == "reloading"@ || name == "deactivating"@
        || name == "inactive"@
}

impl UnitActiveState {
    pub fn to_text(&self) -> (r: String)
        ensures
            r@ == state_name(*self),
    {
        match self {
            UnitActiveState::Activating => "activating".to_owned(),
            UnitActiveState::Active => "active".to_owned(),
            UnitActiveState::Reloading => "reloading".to_owned(),
            UnitActiveState::Deactivating => "deactivating".to_owned(),
            UnitActiveState::Inactive => "inactive".to_owned(),
            UnitActiveState::Failed(_) => "failed".to_owned(),
        }
    }

    /// Whether the unit is there at all: one that failed still is.
    pub open spec fn is_loaded(&self) -> bool {
        !(self is Inactive)
    }

    pub fn to_execution_status(&self) -> (r: ExecutionStatus)
        ensures
            r is Active <==> self.is_loaded(),
            r.text() == state_name(*self),
    {
        match self {
            UnitActiveState::Inactive => ExecutionStatus::Inactive(self.to_text()),
            _ => ExecutionStatus::Active(self.to_text()),
        }
    }
}

/// Reads the name of a state. For a failed unit the failure is asked for, which may
/// itself fail (`None`).
pub fn active_state_from_str(state: &str, failure: Option<FailureInfo>) -> (r: Option<
    UnitActiveState,
>)
    ensures
        r is Some <==> is_sound_state_name(state@) || (state@ == "failed"@ && failure is Some),
        r matches Some(s) ==> state_name(s) == state@,
        r matches Some(UnitActiveState::Failed(info)) ==> failure == Some(info),
{
    if is_same(state, "failed") {
        match failure {
            Some(info) => Some(UnitActiveState::Failed(info)),
            None => {
                proof {
                    lemma_failed_is_not_sound();
                }
                None
            },
        }
    } else if is_same(state, "activating") {
        Some(UnitActiveState::Activating)
    } else if is_same(state, "active") {
        Some(UnitActiveState::Active)
    } else if is_same(state, "reloading") {
        Some(UnitActiveState::Reloading)
    } else if is_same(state, "deactivating") {
        Some(UnitActiveState::Deactivating)
    } else if is_same(state, "inactive") {
        Some(UnitActiveState::Inactive)
    } else {
        None
    }
}

proof fn lemma_failed_is_not_sound()
    ensures
        !is_sound_state_name("failed"@),
{
    reveal_strlit("failed");
    reveal_strlit("activating");
    reveal_strlit("active");
    reveal_strlit("reloading");
    reveal_strlit("deactivating");
    reveal_strlit("inactive");
    assert("failed"@[0] == 'f');
    assert("activating"@[0] == 'a');
    assert("active"@[0] == 'a');
    assert("reloading"@[0] == 'r');
    assert("deactivating"@[0] == 'd');
    assert("inactive"@[0] == 'i');
}

/// The state that a unit is taken to be in at first: what the bus says, or inactive
/// where it says nothing that is understood.
pub fn initial_state(reported: Option<&str>, failure: Option<FailureInfo>) -> (r: UnitActiveState)
    ensures
        match reported {
            Some(name) if is_sound_state_name(name@) || (name@ == "failed"@ && failure is Some) => {
                &&& state_name(r) == name@
                &&& (r matches UnitActiveState::Failed(info) ==> failure == Some(info))
            },
            _ => r is Inactive,
        },
{
    match reported {
        Some(name) => match active_state_from_str(name, failure) {
            Some(state) => state,
            None => UnitActiveState::Inactive,
        },
        None => UnitActiveState::Inactive,
    }
}

/// How a job ended.
#[derive(Debug)]
pub enum JobResult {
    Success,
    Canceled,
    Failed(String),
    Timeout,
}

/// What the words of the bus say of a job.
pub open spec fn is_signal_result(result: Seq<char>, job: JobResult) -> bool {
    &&& job is Success <==> result == "done"@
    &&& job is Canceled <==> result == "canceled"@
    &&& job is Failed <==> result != "done"@ && result != "canceled"@
    &&& job matches JobResult::Failed(reason) ==> reason@ == result
}

impl JobResult {
    /// What the bus says of a job that it has removed.
    pub fn of_signal(result: &str) -> (r: Self)
        ensures
            is_signal_result(result@, r),
    {
        proof {
            reveal_strlit("done");
            reveal_strlit("canceled");
            assert("done"@[0] == 'd');
            assert("canceled"@[0] == 'c');
        }
        if is_same(result, "done") {
            JobResult::Success
        } else if is_same(result, "canceled") {
            JobResult::Canceled
        } else {
            JobResult::Failed(result.to_owned())
        }
    }
}

/// What a job's result means for a unit that is found in a given state: a failure
/// counts only where the unit is not there, and a cancellation always counts as one.
pub open spec fn job_outcome(job: JobResult, status: ExecutionStatus) -> ExecutionResult {
    match job {
        JobResult::Success => ExecutionResult::Success(status),
        JobResult::Canceled => ExecutionResult::Canceled(status),
        JobResult::Failed(reason) => if status is Active {
            ExecutionResult::Success(status)
        } else {
            ExecutionResult::Failure(reason)
        },
        JobResult::Timeout => if status is Active {
            ExecutionResult::Success(status)
        } else {
            ExecutionResult::Timeout
        },
    }
}

/// Who waits for the end of which job. Each waits for one job, and is told once.
#[derive(Debug)]
pub struct JobWatcher<W> {
    waiting: NameMap<W>,
}

impl<W> View for JobWatcher<W> {
    type V = Map<Seq<char>, W>;

    closed spec fn view(&self) -> Map<Seq<char>, W> {
        self.waiting@
    }
}

impl<W> JobWatcher<W> {
    pub closed spec fn wf(&self) -> bool {
        self.waiting.wf()
    }

    pub fn new() -> (r: Self)
        ensures
            r.wf(),
            r@ == Map::<Seq<char>, W>::empty(),
    {
        JobWatcher { waiting: NameMap::new() }
    }

    /// Lets `waiter` wait for the job at a path, in place of another that may have.
    pub fn watch(&mut self, job_path: &str, waiter: W)
        requires
            old(self).wf(),
        ensures
            final(self).wf(),
            final(self)@ == old(self)@.insert(job_path@, waiter),
    {
        let _ = self.waiting.insert(job_path.to_owned(), waiter);
    }

    /// Nobody waits for the job any more.
    pub fn cancel(&mut self, job_path: &str) -> (r: Option<W>)
        requires
            old(self).wf(),
        ensures
            final(self).wf(),
            final(self)@ == old(self)@.remove(job_path@),
            r == if old(self)@.dom().contains(job_path@) {
                Some(old(self)@[job_path@])
            } else {
                None
            },
    {
        self.waiting.remove(job_path)
    }

    /// A job is gone, with a result in the words of the bus. Who waited for it is to be
    /// told what is handed out.
    pub fn job_removed(&mut self, job_path: &str, result: &str) -> (r: Option<(W, JobResult)>)
        requires
            old(self).wf(),
        ensures
            final(self).wf(),
            final(self)@ == old(self)@.remove(job_path@),
            r is Some <==> old(self)@.dom().contains(job_path@),
            r matches Some(told) ==> {
                &&& told.0 == old(self)@[job_path@]
                &&& is_signal_result(result@, told.1)
            },
    {
        match self.waiting.remove(job_path) {
            Some(waiter) => Some((waiter, JobResult::of_signal(result))),
            None => None,
        }
    }
}

/// What came of waiting for the end of a job.
#[derive(Debug)]
pub enum Waited {
    Told(JobResult),
    /// Nobody will tell any more.
    Abandoned,
    /// The time was up.
    TimedOut,
}

/// The end of a job that was waited for. One that does not end in time is a result too.
pub fn waited_for(waited: Waited) -> (r: Option<JobResult>)
    ensures
        r == match waited {
            Waited::Told(job) => Some(job),
            Waited::Abandoned => None,
            Waited::TimedOut => Some(JobResult::Timeout),
        },
{
    match waited {
        Waited::Told(job) => Some(job),
        Waited::Abandoned => None,
        Waited::TimedOut => Some(JobResult::Timeout),
    }
}

/// What becomes of the unit named `_unit_name` after a job.
pub fn map_job_result(_unit_name: &str, job_result: JobResult, status: ExecutionStatus) -> (r:
    ExecutionResult)
    ensures
        r == job_outcome(job_result, status),
{
    match job_result {
        JobResult::Success => ExecutionResult::Success(status),
        JobResult::Canceled => ExecutionResult::Canceled(status),
        JobResult::Failed(reason) => match status {
            ExecutionStatus::Active(s) => ExecutionResult::Success(ExecutionStatus::Active(s)),
            ExecutionStatus::Inactive(_) => ExecutionResult::Failure(reason),
        },
        JobResult::Timeout => match status {
            ExecutionStatus::Active(s) => ExecutionResult::Success(ExecutionStatus::Active(s)),
            ExecutionStatus::Inactive(_) => ExecutionResult::Timeout,
        },
    }
}

/// Why starting or stopping a unit could not be carried through.
#[derive(Debug, Clone, Copy, PartialEq, Eq, Structural)]
pub enum ExecutorError {
    /// The state of the unit cannot be read before the job.
    ActiveState,
    /// The failed state of the unit cannot be cleared.
    ResetFailed,
    /// The properties of the unit cannot be made.
    Properties,
    /// Nobody is there to ask the service manager.
    ManagerGone,
    /// The service manager did not take the job, or its end cannot be told.
    Job,
    /// The state of the unit cannot be read after the job.
    InnerState,
}

/// What has to be done next to start or stop a unit.
#[derive(Debug)]
pub enum UnitAction {
    ReadState,
    ResetFailed,
    /// Start the transient unit, or stop it.
    RunJob,
    /// Read the state of the unit once the job has ended, or was not taken.
    ReadInnerState(Option<JobResult>),
    Finish(Result<ExecutionResult, ExecutorError>),
}

/// What came of it.
#[derive(Debug)]
pub enum UnitEvent {
    State(Option<UnitActiveState>),
    Reset(bool),
    /// The job was not even asked for.
    NotAsked(ExecutorError),
    /// How the job ended; nothing where it was not taken.
    JobEnded(Option<JobResult>),
}

/// A result that tells the state of a unit.
pub open spec fn succeeded_in(r: Result<ExecutionResult, ExecutorError>, s: UnitActiveState) -> bool {
    &&& r matches Ok(ExecutionResult::Success(x))
    &&& (x is Active <==> s.is_loaded())
    &&& x.text() == state_name(s)
}

/// One step of starting a unit. A unit that is there already, whatever it is about, is
/// left as it is; one that has failed is cleared first.
pub open spec fn start_step(action: UnitAction, event: UnitEvent, next: UnitAction) -> bool {
    match (action, event) {
        (UnitAction::ReadState, UnitEvent::State(state)) => match state {
            None => next == UnitAction::Finish(Err(ExecutorError::ActiveState)),
            Some(UnitActiveState::Inactive) => next is RunJob,
            Some(UnitActiveState::Failed(_)) => next is ResetFailed,
            Some(s) => next matches UnitAction::Finish(r) && succeeded_in(r, s),
        },
        (UnitAction::ResetFailed, UnitEvent::Reset(ok)) => if ok {
            next is RunJob
        } else {
            next == UnitAction::Finish(Err(ExecutorError::ResetFailed))
        },
        _ => job_step(action, event, next),
    }
}

/// The end of a job, which starting and stopping share.
pub open spec fn job_step(action: UnitAction, event: UnitEvent, next: UnitAction) -> bool {
    match (action, event) {
        (UnitAction::RunJob, UnitEvent::NotAsked(e)) => next == UnitAction::Finish(Err(e)),
        (UnitAction::RunJob, UnitEvent::JobEnded(ended)) => next == UnitAction::ReadInnerState(
            ended,
        ),
        (UnitAction::ReadInnerState(ended), UnitEvent::State(state)) => match (ended, state) {
            (_, None) => next == UnitAction::Finish(Err(ExecutorError::InnerState)),
            (None, Some(_)) => next == UnitAction::Finish(Err(ExecutorError::Job)),
            (Some(job), Some(s)) => {
                &&& next matches UnitAction::Finish(Ok(r))
                &&& match r {
                    ExecutionResult::Success(x) => {
                        &&& job is Success || ((job is Failed || job is Timeout) && s.is_loaded())
                        &&& (x is Active <==> s.is_loaded())
                        &&& x.text() == state_name(s)
                    },
                    ExecutionResult::Canceled(x) => {
                        &&& job is Canceled
                        &&& (x is Active <==> s.is_loaded())
                        &&& x.text() == state_name(s)
                    },
                    ExecutionResult::Failure(reason) => {
                        &&& job == JobResult::Failed(reason)
                        &&& !s.is_loaded()
                    },
                    ExecutionResult::Timeout => job is Timeout && !s.is_loaded(),
                }
            },
        },
        _ => next == action,
    }
}

/// One step of stopping a unit. One that has failed runs no more: clearing it is all,
/// and it is then inactive.
pub open spec fn stop_step(action: UnitAction, event: UnitEvent, next: UnitAction) -> bool {
    match (action, event) {
        (UnitAction::ReadState, UnitEvent::State(state)) => match state {
            None => next == UnitAction::Finish(Err(ExecutorError::ActiveState)),
            Some(UnitActiveState::Failed(_)) => next is ResetFailed,
            Some(_) => next is RunJob,
        },
        (UnitAction::ResetFailed, UnitEvent::Reset(ok)) => if ok {
            next matches UnitAction::Finish(r) && succeeded_in(r, UnitActiveState::Inactive)
        } else {
            next == UnitAction::Finish(Err(ExecutorError::ResetFailed))
        },
        _ => job_step(action, event, next),
    }
}

fn job_next(unit_name: &str, action: UnitAction, event: UnitEvent) -> (r: UnitAction)
    ensures
        job_step(action, event, r),
{
    match (action, event) {
        (UnitAction::RunJob, UnitEvent::NotAsked(e)) => UnitAction::Finish(Err(e)),
        (UnitAction::RunJob, UnitEvent::JobEnded(ended)) => UnitAction::ReadInnerState(ended),
        (UnitAction::ReadInnerState(ended), UnitEvent::State(state)) => match (ended, state) {
            (_, None) => UnitAction::Finish(Err(ExecutorError::InnerState)),
            (None, Some(_)) => UnitAction::Finish(Err(ExecutorError::Job)),
            (Some(job), Some(s)) => UnitAction::Finish(
                Ok(map_job_result(unit_name, job, s.to_execution_status())),
            ),
        },
        (action, _) => action,
    }
}

/// Takes the start of a unit one step further.
pub fn start_next(unit_name: &str, action: UnitAction, event: UnitEvent) -> (r: UnitAction)
    ensures
        start_step(action, event, r),
{
    match (action, event) {
        (UnitAction::ReadState, UnitEvent::State(state)) => match state {
            None => UnitAction::Finish(Err(ExecutorError::ActiveState)),
            Some(UnitActiveState::Inactive) => UnitAction::RunJob,
            Some(UnitActiveState::Failed(_)) => UnitAction::ResetFailed,
            Some(s) => UnitAction::Finish(Ok(ExecutionResult::Success(s.to_execution_status()))),
        },
        (UnitAction::ResetFailed, UnitEvent::Reset(ok)) => if ok {
            UnitAction::RunJob
        } else {
            UnitAction::Finish(Err(ExecutorError::ResetFailed))
        },
        (action, event) => job_next(unit_name, action, event),
    }
}

/// Takes the stop of a unit one step further.
pub fn stop_next(unit_name: &str, action: UnitAction, event: UnitEvent) -> (r: UnitAction)
    ensures
        stop_step(action, event, r),
{
    match (action, event) {
        (UnitAction::ReadState, UnitEvent::State(state)) => match state {
            None => UnitAction::Finish(Err(ExecutorError::ActiveState)),
            Some(UnitActiveState::Failed(_)) => UnitAction::ResetFailed,
            Some(_) => UnitAction::RunJob,
        },
        (UnitAction::ResetFailed, UnitEvent::Reset(ok)) => if ok {
            UnitAction::Finish(
                Ok(ExecutionResult::Success(UnitActiveState::Inactive.to_execution_status())),
            )
        } else {
            UnitAction::Finish(Err(ExecutorError::ResetFailed))
        },
        (action, event) => job_next(unit_name, action, event),
    }
}

/// What the watch over a unit's state is told.
#[derive(Debug)]
pub enum MonitorEvent {
    Canceled,
    /// The stream of changes has ended.
    Closed,
    /// The stream of changes has failed.
    Broken,
    /// The state has changed to what this name says; with the failure, where it could
    /// be asked for.
    Changed(String, Option<FailureInfo>),
}

/// Why the watch ended.
#[derive(Debug, Clone, Copy, PartialEq, Eq, Structural)]
pub enum MonitorError {
    StreamClosed,
    StreamFailed,
    UnknownState,
}

/// What the watch does next.
#[derive(Debug)]
pub enum MonitorAction {
    /// Pass the state on.
    Emit(ExecutionStatus),
    End(Result<(), MonitorError>),
}

/// Whether the name of a state is understood. That of a failed unit is, where the failure
/// could be asked for.
pub open spec fn is_understood(name: Seq<char>, failure: Option<FailureInfo>) -> bool {
    is_sound_state_name(name) || (name == "failed"@ && failure is Some)
}

/// What the watch does about an event. Every change is passed on as it comes, repeats too.
/// Only a cancellation ends the watch without an error.
pub open spec fn monitor_step(event: MonitorEvent, r: MonitorAction) -> bool {
    match event {
        MonitorEvent::Canceled => r == MonitorAction::End(Ok(())),
        MonitorEvent::Closed => r == MonitorAction::End(Err(MonitorError::StreamClosed)),
        MonitorEvent::Broken => r == MonitorAction::End(Err(MonitorError::StreamFailed)),
        MonitorEvent::Changed(name, failure) => if is_understood(name@, failure) {
            &&& r matches MonitorAction::Emit(s)
            &&& s.text() == name@
            &&& (s is Inactive <==> name@ == "inactive"@)
        } else {
            r == MonitorAction::End(Err(MonitorError::UnknownState))
        },
    }
}

pub fn monitor_next(event: MonitorEvent) -> (r: MonitorAction)
    ensures
        monitor_step(event, r),
{
    match event {
        MonitorEvent::Canceled => MonitorAction::End(Ok(())),
        MonitorEvent::Closed => MonitorAction::End(Err(MonitorError::StreamClosed)),
        MonitorEvent::Broken => MonitorAction::End(Err(MonitorError::StreamFailed)),
        MonitorEvent::Changed(name, failure) => match active_state_from_str(
            name.as_str(),
            failure,
        ) {
            Some(state) => {
                proof {
                    lemma_inactive_name(state);
                }
                MonitorAction::Emit(state.to_execution_status())
            },
            None => MonitorAction::End(Err(MonitorError::UnknownState)),
        },
    }
}

/// The watch over a unit begins by passing on the state that it found the unit in.
pub fn monitor_first(initial: &UnitActiveState) -> (r: MonitorAction)
    ensures
        r matches MonitorAction::Emit(s) && s.text() == state_name(*initial) && (s is Active
            <==> initial.is_loaded()),
{
    MonitorAction::Emit(initial.to_execution_status())
}

/// A watch did these things, one after the other: the first on the state that it found,
/// and one for each event until it ended.
pub open spec fn is_watch(
    initial: UnitActiveState,
    events: Seq<MonitorEvent>,
    actions: Seq<MonitorAction>,
) -> bool {
    &&& 1 <= actions.len() <= events.len() + 1
    &&& actions[0] matches MonitorAction::Emit(s) && s.text() == state_name(initial)
    &&& forall|i: int|
        1 <= i < actions.len() ==> monitor_step(events[i - 1], #[trigger] actions[i])
    &&& forall|i: int| 0 <= i < actions.len() - 1 ==> (#[trigger] actions[i]) is Emit
    &&& actions.last() is Emit ==> actions.len() == events.len() + 1
}

/// As long as the names of the states are understood, the watch passes on the state that
/// it found and then every change, none left out and none put together.
pub proof fn law_watch_passes_all_on(
    initial: UnitActiveState,
    events: Seq<MonitorEvent>,
    actions: Seq<MonitorAction>,
)
    requires
        is_watch(initial, events, actions),
        forall|i: int|
            0 <= i < events.len() ==> ((#[trigger] events[i]) matches MonitorEvent::Changed(n, f)
                && is_understood(n@, f)),
    ensures
        actions.len() == events.len() + 1,
        actions[0]->Emit_0.text() == state_name(initial),
        forall|i: int|
            0 <= i < events.len() ==> ((#[trigger] actions[i + 1]) matches MonitorAction::Emit(s)
                && s.text() == events[i]->Changed_0@),
{
    let last = actions.len() - 1;
    if last >= 1 {
        assert(monitor_step(events[last - 1], actions[last]));
    }
    assert(actions.last() is Emit);
    assert forall|i: int| 0 <= i < events.len() implies ((#[trigger] actions[
        i + 1
    ]) matches MonitorAction::Emit(s) && s.text() == events[i]->Changed_0@) by {
        assert(monitor_step(events[i + 1 - 1], actions[i + 1]));
    }
}

proof fn lemma_inactive_name(s: UnitActiveState)
    ensures
        state_name(s) == "inactive"@ <==> s is Inactive,
{
    reveal_strlit("failed");
    reveal_strlit("activating");
    reveal_strlit("active");
    reveal_strlit("reloading");
    reveal_strlit("deactivating");
    reveal_strlit("inactive");
    assert("inactive"@[0] == 'i');
    assert(!(s is Inactive) ==> state_name(s)[0] != 'i');
}

/// The kinds of service.
#[derive(Debug, Clone, Copy, PartialEq, Eq, Structural)]
pub enum ContainerServiceType {
    Simple,
    Exec,
    Forking,
    Oneshot,
    DBus,
    Notify,
    Idle,
}

pub open spec fn service_type_name(t: ContainerServiceType) -> Seq<char> {
    match t {
        ContainerServiceType::Simple => "simple"@,
        ContainerServiceType::Exec => "exec"@,
        ContainerServiceType::Forking => "forking"@,
        ContainerServiceType::Oneshot => "oneshot"@,
        ContainerServiceType::DBus => "dbus"@,
        ContainerServiceType::Notify => "notify"@,
        ContainerServiceType::Idle => "idle"@,
    }
}

/// Whether some kind of service has the name.
pub open spec fn is_service_type_name(name: Seq<char>) -> bool {
    exists|t: ContainerServiceType| #[trigger] service_type_name(t) == name
}

impl ContainerServiceType {
    pub fn as_str(&self) -> (r: &'static str)
        ensures
            r@ == service_type_name(*self),
    {
        match self {
            ContainerServiceType::Simple => "simple",
            ContainerServiceType::Exec => "exec",
            ContainerServiceType::Forking => "forking",
            ContainerServiceType::Oneshot => "oneshot",
            ContainerServiceType::DBus => "dbus",
            ContainerServiceType::Notify => "notify",
            ContainerServiceType::Idle => "idle",
        }
    }

    pub fn parse(name: &str) -> (r: Option<ContainerServiceType>)
        ensures
            r is Some <==> is_service_type_name(name@),
            r matches Some(t) ==> service_type_name(t) == name@,
    {
        if is_same(name, "simple") {
            assert(service_type_name(ContainerServiceType::Simple) == name@);
            Some(ContainerServiceType::Simple)
        } else if is_same(name, "exec") {
            assert(service_type_name(ContainerServiceType::Exec) == name@);
            Some(ContainerServiceType::Exec)
        } else if is_same(name, "forking") {
            assert(service_type_name(ContainerServiceType::Forking) == name@);
            Some(ContainerServiceType::Forking)
        } else if is_same(name, "oneshot") {
            assert(service_type_name(ContainerServiceType::Oneshot) == name@);
            Some(ContainerServiceType::Oneshot)
        } else if is_same(name, "dbus") {
            assert(service_type_name(ContainerServiceType::DBus) == name@);
            Some(ContainerServiceType::DBus)
        } else if is_same(name, "notify") {
            assert(service_type_name(ContainerServiceType::Notify) == name@);
            Some(ContainerServiceType::Notify)
        } else if is_same(name, "idle") {
            assert(service_type_name(ContainerServiceType::Idle) == name@);
            Some(ContainerServiceType::Idle)
        } else {
            None
        }
    }
}

/// What a package says of its service.
#[derive(Debug)]
pub struct ServiceInfo {
    pub description: String,
    pub service_type: ContainerServiceType,
    pub remain_after_exit: Option<bool>,
    pub bus_name: Option<String>,
}

/// One command line of a unit.
#[derive(Debug)]
pub struct ExecCommand {
    pub path: String,
    pub args: Vec<String>,
    pub ignore_failure: bool,
}

/// The value of a unit property.
#[derive(Debug)]
pub enum PropertyValue {
    Text(String),
    Number(u64),
    Flag(bool),
    Command(ExecCommand),
    ExitStatus { codes: Vec<i32>, signals: Vec<i32> },
}

pub enum PropertyView {
    Text(Seq<char>),
    Number(u64),
    Flag(bool),
    Command(Seq<char>, Seq<Seq<char>>, bool),
    ExitStatus(Seq<i32>, Seq<i32>),
}

impl View for PropertyValue {
    type V = PropertyView;

    open spec fn view(&self) -> PropertyView {
        match self {
            PropertyValue::Text(s) => PropertyView::Text(s@),
            PropertyValue::Number(n) => PropertyView::Number(*n),
            PropertyValue::Flag(b) => PropertyView::Flag(*b),
            PropertyValue::Command(c) => PropertyView::Command(
                c.path@,
                texts(c.args@),
                c.ignore_failure,
            ),
            PropertyValue::ExitStatus { codes, signals } => PropertyView::ExitStatus(
                codes@,
                signals@,
            ),
        }
    }
}

/// The properties of a unit, by name, in order.
pub open spec fn properties_view(p: Seq<(String, PropertyValue)>) -> Seq<(Seq<char>, PropertyView)> {
    Seq::new(p.len(), |i: int| (p[i].0@, p[i].1@))
}

/// The properties that a unit is started with.
pub open spec fn unit_properties(
    description: Seq<char>,
    service_type: ContainerServiceType,
    remain_after_exit: Option<bool>,
    bus_name: Option<Seq<char>>,
    start: Seq<Seq<char>>,
    stop: Seq<Seq<char>>,
    cgroups_path: Seq<char>,
) -> Seq<(Seq<char>, PropertyView)> {
    let base = seq![
        ("Description"@, PropertyView::Text(description)),
        ("TimeoutStartUSec"@, PropertyView::Number(5_000_000)),
        ("TimeoutStopUSec"@, PropertyView::Number(5_000_000)),
        ("Restart"@, PropertyView::Text("on-failure"@)),
        ("ExecStart"@, PropertyView::Command(start[0], start, false)),
        ("ExecStopPost"@, PropertyView::Command(stop[0], stop, false)),
    ];
    let slice = match slice_of(cgroups_path) {
        Ok(s) => seq![("Slice"@, PropertyView::Text(s))],
        Err(_) => Seq::empty(),
    };
    let kind = seq![
        ("Type"@, PropertyView::Text(service_type_name(service_type))),
        ("RemainAfterExit"@, PropertyView::Flag(remain_after_exit == Some(true))),
    ];
    let rest = match service_type {
        ContainerServiceType::Notify => seq![
            ("NotifyAccess"@, PropertyView::Text("all"@)),
            ("SuccessExitStatus"@, PropertyView::ExitStatus(seq![143i32], Seq::empty())),
        ],
        ContainerServiceType::DBus => seq![("Requires"@, PropertyView::Text("dbus.service"@))]
            + match bus_name {
            Some(name) => seq![("BusName"@, PropertyView::Text(name))],
            None => Seq::empty(),
        },
        _ => Seq::empty(),
    };
    base + slice + kind + rest
}

fn push_property(
    properties: &mut Vec<(String, PropertyValue)>,
    name: &str,
    value: PropertyValue,
)
    ensures
        properties_view(final(properties)@) == properties_view(old(properties)@).push(
            (name@, value@),
        ),
{
    let name = name.to_owned();
    let ghost before = properties@;
    properties.push((name, value));
    assert(properties_view(properties@) =~= properties_view(before).push((name@, value@)));
}

fn text_value(s: &str) -> (r: PropertyValue)
    ensures
        r@ == PropertyView::Text(s@),
{
    PropertyValue::Text(s.to_owned())
}

fn command_value(args: Vec<String>) -> (r: PropertyValue)
    requires
        args@.len() > 0,
    ensures
        r@ == PropertyView::Command(texts(args@)[0], texts(args@), false),
{
    PropertyValue::Command(ExecCommand { path: args[0].clone(), args, ignore_failure: false })
}

impl ServiceInfo {
    pub open spec fn bus_name_spec(&self) -> Option<Seq<char>> {
        match self.bus_name {
            Some(n) => Some(n@),
            None => None,
        }
    }

    /// The properties of the transient unit that runs the service with these command
    /// lines. Where the control group names no slice, none is asked for.
    pub fn gen_unit_properties(
        &self,
        start_cmd: Vec<String>,
        stop_cmd: Vec<String>,
        cgroups_path: &str,
    ) -> (r: Vec<(String, PropertyValue)>)
        requires
            start_cmd@.len() > 0,
            stop_cmd@.len() > 0,
        ensures
            properties_view(r@) == unit_properties(
                self.description@,
                self.service_type,
                self.remain_after_exit,
                self.bus_name_spec(),
                texts(start_cmd@),
                texts(stop_cmd@),
                cgroups_path@,
            ),
            properties_view(r@).contains(
                ("ExecStart"@, PropertyView::Command(start_cmd@[0]@, texts(start_cmd@), false)),
            ),
            properties_view(r@).contains(
                ("ExecStopPost"@, PropertyView::Command(stop_cmd@[0]@, texts(stop_cmd@), false)),
            ),
    {
        let mut p: Vec<(String, PropertyValue)> = Vec::new();
        assert(properties_view(p@) =~= Seq::empty());
        push_property(&mut p, "Description", text_value(self.description.as_str()));
        push_property(
            &mut p,
            "TimeoutStartUSec",
            PropertyValue::Number(START_TIMEOUT_SEC * USEC_PER_SEC),
        );
        push_property(
            &mut p,
            "TimeoutStopUSec",
            PropertyValue::Number(STOP_TIMEOUT_SEC * USEC_PER_SEC),
        );
        push_property(&mut p, "Restart", text_value("on-failure"));
        push_property(&mut p, "ExecStart", command_value(start_cmd));
        push_property(&mut p, "ExecStopPost", command_value(stop_cmd));
        if let Ok(slice) = slice_str_from_cgroups_path(cgroups_path) {
            push_property(&mut p, "Slice", PropertyValue::Text(slice));
        }
        push_property(&mut p, "Type", text_value(self.service_type.as_str()));
        let remain = match self.remain_after_exit {
            Some(remain) => remain,
            None => false,
        };
        push_property(&mut p, "RemainAfterExit", PropertyValue::Flag(remain));
        match self.service_type {
            ContainerServiceType::Notify => {
                push_property(&mut p, "NotifyAccess", text_value("all"));
                let mut codes: Vec<i32> = Vec::new();
                codes.push(SIGTERM_EXIT_CODE);
                let signals: Vec<i32> = Vec::new();
                assert(codes@ =~= seq![143i32]);
                assert(signals@ =~= Seq::empty());
                push_property(
                    &mut p,
                    "SuccessExitStatus",
                    PropertyValue::ExitStatus { codes, signals },
                );
            },
            ContainerServiceType::DBus => {
                push_property(&mut p, "Requires", text_value("dbus.service"));
                if let Some(bus_name) = &self.bus_name {
                    push_property(&mut p, "BusName", text_value(bus_name.as_str()));
                }
            },
            _ => {},
        }
        assert(properties_view(p@) =~= unit_properties(
            self.description@,
            self.service_type,
            self.remain_after_exit,
            self.bus_name_spec(),
            texts(start_cmd@),
            texts(stop_cmd@),
            cgroups_path@,
        ));
        proof {
            law_unit_runs_its_commands(
                self.description@,
                self.service_type,
                self.remain_after_exit,
                self.bus_name_spec(),
                texts(start_cmd@),
                texts(stop_cmd@),
                cgroups_path@,
            );
        }
        p
    }
}

/// Reading a state's name gives back the state: names of states are never mixed up.
pub proof fn law_state_names_distinct(a: UnitActiveState, b: UnitActiveState)
    requires
        state_name(a) == state_name(b),
    ensures
        a is Activating <==> b is Activating,
        a is Active <==> b is Active,
        a is Reloading <==> b is Reloading,
        a is Deactivating <==> b is Deactivating,
        a is Inactive <==> b is Inactive,
        a is Failed <==> b is Failed,
{
    reveal_strlit("failed");
    reveal_strlit("activating");
    reveal_strlit("active");
    reveal_strlit("reloading");
    reveal_strlit("deactivating");
    reveal_strlit("inactive");
    assert("active"@.len() == 6 && "failed"@.len() == 6);
    assert("active"@[0] == 'a' && "failed"@[0] == 'f');
    assert("activating"@.len() == 10 && "reloading"@.len() == 9);
    assert("deactivating"@.len() == 12 && "inactive"@.len() == 8);
}

/// A unit that is there is reflected as it is: no job result but a cancellation turns a
/// loaded unit into anything else than a success with its state.
pub proof fn law_loaded_unit_is_reflected(job: JobResult, status: ExecutionStatus)
    requires
        status is Active,
        !(job is Canceled),
    ensures
        job_outcome(job, status) == ExecutionResult::Success(status),
{
}

/// Starting is idempotent: a unit that is there, and has not failed, is neither reset
/// nor started again.
pub proof fn law_start_keeps_loaded_unit(s: UnitActiveState, next: UnitAction)
    requires
        s.is_loaded(),
        !(s is Failed),
        start_step(UnitAction::ReadState, UnitEvent::State(Some(s)), next),
    ensures
        next matches UnitAction::Finish(r) && succeeded_in(r, s),
{
}

/// A unit has one command to start it, the start command, and one to run once it has
/// stopped, the stop command; a failure of either counts.
pub proof fn law_unit_runs_its_commands(
    description: Seq<char>,
    service_type: ContainerServiceType,
    remain_after_exit: Option<bool>,
    bus_name: Option<Seq<char>>,
    start: Seq<Seq<char>>,
    stop: Seq<Seq<char>>,
    cgroups_path: Seq<char>,
)
    ensures
        ({
            let p = unit_properties(
                description,
                service_type,
                remain_after_exit,
                bus_name,
                start,
                stop,
                cgroups_path,
            );
            &&& p.contains(("ExecStart"@, PropertyView::Command(start[0], start, false)))
            &&& p.contains(("ExecStopPost"@, PropertyView::Command(stop[0], stop, false)))
            &&& forall|i: int, j: int|
                #![trigger p[i], p[j]]
                0 <= i < j < p.len() ==> p[i].0 != p[j].0
        }),
{
    let p = unit_properties(
        description,
        service_type,
        remain_after_exit,
        bus_name,
        start,
        stop,
        cgroups_path,
    );
    assert(p[4] == ("ExecStart"@, PropertyView::Command(start[0], start, false)));
    assert(p[5] == ("ExecStopPost"@, PropertyView::Command(stop[0], stop, false)));
    lemma_property_names();
}

/// The names of properties differ: by their lengths, or else in one letter.
proof fn lemma_property_names()
    ensures
        "Description"@.len() == 11,
        "TimeoutStartUSec"@.len() == 16,
        "TimeoutStopUSec"@.len() == 15,
        "Restart"@.len() == 7,
        "ExecStart"@.len() == 9,
        "ExecStopPost"@.len() == 12,
        "Slice"@.len() == 5,
        "Type"@.len() == 4,
        "RemainAfterExit"@.len() == 15,
        "NotifyAccess"@.len() == 12,
        "SuccessExitStatus"@.len() == 17,
        "Requires"@.len() == 8,
        "BusName"@.len() == 7,
        "TimeoutStopUSec"@[0] != "RemainAfterExit"@[0],
        "ExecStopPost"@[0] != "NotifyAccess"@[0],
        "Restart"@[0] != "BusName"@[0],
{
    reveal_strlit("Description");
    reveal_strlit("TimeoutStartUSec");
    reveal_strlit("TimeoutStopUSec");
    reveal_strlit("Restart");
    reveal_strlit("ExecStart");
    reveal_strlit("ExecStopPost");
    reveal_strlit("Slice");
    reveal_strlit("Type");
    reveal_strlit("RemainAfterExit");
    reveal_strlit("NotifyAccess");
    reveal_strlit("SuccessExitStatus");
    reveal_strlit("Requires");
    reveal_strlit("BusName");
}

/// A unit is described as its package, is of the kind that the package names, is given five
/// seconds to start and five to stop, and is started again where it fails.
pub proof fn law_unit_is_as_its_package_says(
    description: Seq<char>,
    service_type: ContainerServiceType,
    remain_after_exit: Option<bool>,
    bus_name: Option<Seq<char>>,
    start: Seq<Seq<char>>,
    stop: Seq<Seq<char>>,
    cgroups_path: Seq<char>,
)
    ensures
        ({
            let p = unit_properties(
                description,
                service_type,
                remain_after_exit,
                bus_name,
                start,
                stop,
                cgroups_path,
            );
            &&& p.contains(("Description"@, PropertyView::Text(description)))
            &&& p.contains(("TimeoutStartUSec"@, PropertyView::Number(5_000_000)))
            &&& p.contains(("TimeoutStopUSec"@, PropertyView::Number(5_000_000)))
            &&& p.contains(("Restart"@, PropertyView::Text("on-failure"@)))
            &&& p.contains(("Type"@, PropertyView::Text(service_type_name(service_type))))
            &&& p.contains(
                ("RemainAfterExit"@, PropertyView::Flag(remain_after_exit == Some(true))),
            )
            &&& service_type is Notify ==> p.contains(
                ("NotifyAccess"@, PropertyView::Text("all"@)),
            ) && p.contains(
                ("SuccessExitStatus"@, PropertyView::ExitStatus(seq![143i32], Seq::empty())),
            )
            &&& service_type is DBus ==> p.contains(
                ("Requires"@, PropertyView::Text("dbus.service"@)),
            )
            &&& service_type is DBus && bus_name is Some ==> p.contains(
                ("BusName"@, PropertyView::Text(bus_name->0)),
            )
            &&& slice_of(cgroups_path) matches Ok(slice) ==> p.contains(
                ("Slice"@, PropertyView::Text(slice)),
            )
            &&& p.len() == 8 + (if slice_of(cgroups_path) is Ok {
                1int
            } else {
                0
            }) + (match service_type {
                ContainerServiceType::Notify => 2int,
                ContainerServiceType::DBus => if bus_name is Some {
                    2
                } else {
                    1
                },
                _ => 0,
            })
        }),
{
    let p = unit_properties(
        description,
        service_type,
        remain_after_exit,
        bus_name,
        start,
        stop,
        cgroups_path,
    );
    assert(p[0] == ("Description"@, PropertyView::Text(description)));
    assert(p[1] == ("TimeoutStartUSec"@, PropertyView::Number(5_000_000)));
    assert(p[2] == ("TimeoutStopUSec"@, PropertyView::Number(5_000_000)));
    assert(p[3] == ("Restart"@, PropertyView::Text("on-failure"@)));
    let at: int = if slice_of(cgroups_path) is Ok {
        assert(p[6] == ("Slice"@, PropertyView::Text(slice_of(cgroups_path)->Ok_0)));
        7
    } else {
        6
    };
    assert(p[at] == ("Type"@, PropertyView::Text(service_type_name(service_type))));
    assert(p[at + 1] == (
        "RemainAfterExit"@,
        PropertyView::Flag(remain_after_exit == Some(true)),
    ));
    if service_type is Notify {
        assert(p[at + 2] == ("NotifyAccess"@, PropertyView::Text("all"@)));
        assert(p[at + 3] == (
            "SuccessExitStatus"@,
            PropertyView::ExitStatus(seq![143i32], Seq::empty()),
        ));
    }
    if service_type is DBus {
        assert(p[at + 2] == ("Requires"@, PropertyView::Text("dbus.service"@)));
        if bus_name is Some {
            assert(p[at + 3] == ("BusName"@, PropertyView::Text(bus_name->0)));
        }
    }
}

/// The slice of a control group is the last step of its path, which must end in `.slice`.
pub proof fn law_slice_is_last_step(dirs: Seq<char>, step: Seq<char>)
    requires
        !step.contains('/'),
        ".slice"@.is_suffix_of(step),
    ensures
        slice_of(step) == Ok::<Seq<char>, SliceError>(step),
        slice_of(dirs.push('/') + step) == Ok::<Seq<char>, SliceError>(step),
{
    lemma_slice_after(Seq::empty(), step);
    assert(Seq::<char>::empty() + step =~= step);
    lemma_slice_after(dirs.push('/'), step);
}

#[verifier::spinoff_prover]
proof fn lemma_slice_after(head: Seq<char>, step: Seq<char>)
    requires
        !step.contains('/'),
        ".slice"@.is_suffix_of(step),
        head.len() == 0 || head.last() == '/',
    ensures
        slice_of(head + step) == Ok::<Seq<char>, SliceError>(step),
{
    let path = head + step;
    let suffix = ".slice"@;
    assert(suffix.len() == 6) by {
        reveal_strlit(".slice");
    }
    assert(suffix.is_suffix_of(path)) by {
        assert(path.subrange(path.len() - 6, path.len() as int) =~= step.subrange(
            step.len() - 6,
            step.len() as int,
        ));
    }
    lemma_last_separator(head, step);
    assert(path.subrange(head.len() as int, path.len() as int) =~= step);
}

proof fn lemma_last_separator(head: Seq<char>, step: Seq<char>)
    requires
        !step.contains('/'),
        head.len() == 0 || head.last() == '/',
    ensures
        last_index(head + step, '/') == head.len() - 1,
    decreases step.len(),
{
    let all = head + step;
    if step.len() > 0 {
        assert(step.contains(step.last()));
        assert(all.drop_last() =~= head + step.drop_last());
        assert forall|c: char| step.drop_last().contains(c) implies step.contains(c) by {
            let i = choose|i: int| 0 <= i < step.drop_last().len() && step.drop_last()[i] == c;
            assert(step[i] == c);
        }
        lemma_last_separator(head, step.drop_last());
    } else {
        assert(all =~= head);
    }
}

/// What does not end in `.slice` names no slice, and neither does nothing at all.
pub proof fn law_what_is_no_slice(path: Seq<char>)
    requires
        !".slice"@.is_suffix_of(path),
    ensures
        slice_of(path) is Err,
        slice_of(path) == Err::<Seq<char>, SliceError>(SliceError::Empty) <==> path.len() == 0,
{
}

/// Packages run in the control group that is configured, and in `system.slice` where none
/// is.
pub proof fn law_control_group(configured: Seq<char>)
    ensures
        configured.len() > 0 ==> cgroups_path_spec(configured) == configured,
        cgroups_path_spec(Seq::empty()) == "system.slice"@,
{
}

/// The words that the bus has for states and for kinds of service.
pub proof fn law_words_of_the_bus(info: FailureInfo)
    ensures
        state_name(UnitActiveState::Activating) == "activating"@,
        state_name(UnitActiveState::Active) == "active"@,
        state_name(UnitActiveState::Reloading) == "reloading"@,
        state_name(UnitActiveState::Deactivating) == "deactivating"@,
        state_name(UnitActiveState::Inactive) == "inactive"@,
        state_name(UnitActiveState::Failed(info)) == "failed"@,
        service_type_name(ContainerServiceType::Simple) == "simple"@,
        service_type_name(ContainerServiceType::Exec) == "exec"@,
        service_type_name(ContainerServiceType::Forking) == "forking"@,
        service_type_name(ContainerServiceType::Oneshot) == "oneshot"@,
        service_type_name(ContainerServiceType::DBus) == "dbus"@,
        service_type_name(ContainerServiceType::Notify) == "notify"@,
        service_type_name(ContainerServiceType::Idle) == "idle"@,
{
}

/// How a job ended, in the words of the bus: done, canceled, and any other word a failure
/// for that reason.
pub proof fn law_words_for_jobs(word: Seq<char>, job: JobResult)
    requires
        is_signal_result(word, job),
    ensures
        word == "done"@ ==> job is Success,
        word == "canceled"@ ==> job is Canceled,
        word != "done"@ && word != "canceled"@ ==> (job matches JobResult::Failed(reason) && reason@
            == word),
        !(job is Timeout),
{
}

/// A unit is started where it is not there, and only then; one that has failed is cleared
/// first. One that cannot be asked for its state is not started.
pub proof fn law_start_begins(state: Option<UnitActiveState>, next: UnitAction)
    requires
        start_step(UnitAction::ReadState, UnitEvent::State(state), next),
    ensures
        next is RunJob <==> state == Some(UnitActiveState::Inactive),
        next is ResetFailed <==> (state matches Some(UnitActiveState::Failed(_))),
        next is Finish <==> (state is None || !(state->0 is Inactive || state->0 is Failed)),
        state is None ==> next == UnitAction::Finish(Err(ExecutorError::ActiveState)),
        state is Some && next is Finish ==> (next matches UnitAction::Finish(
            Ok(ExecutionResult::Success(ExecutionStatus::Active(words))),
        ) && words@ == state_name(state->0)),
{
}

/// A unit that was cleared is started; one that could not be cleared is not.
pub proof fn law_start_after_clearing(ok: bool, next: UnitAction)
    requires
        start_step(UnitAction::ResetFailed, UnitEvent::Reset(ok), next),
    ensures
        ok ==> next is RunJob,
        !ok ==> next == UnitAction::Finish(Err(ExecutorError::ResetFailed)),
{
}

/// A unit is stopped by a job, unless it has failed: then it is cleared, which leaves it
/// inactive. A job is asked for even where the unit is not there.
pub proof fn law_stop_begins(state: Option<UnitActiveState>, ok: bool, next: UnitAction, last: UnitAction)
    requires
        stop_step(UnitAction::ReadState, UnitEvent::State(state), next),
        stop_step(UnitAction::ResetFailed, UnitEvent::Reset(ok), last),
    ensures
        next is RunJob <==> (state is Some && !(state->0 is Failed)),
        next is ResetFailed <==> (state matches Some(UnitActiveState::Failed(_))),
        state is None ==> next == UnitAction::Finish(Err(ExecutorError::ActiveState)),
        ok ==> (last matches UnitAction::Finish(
            Ok(ExecutionResult::Success(ExecutionStatus::Inactive(words))),
        ) && words@ == "inactive"@),
        !ok ==> last == UnitAction::Finish(Err(ExecutorError::ResetFailed)),
{
}

/// What a start or a stop ends in, once its job has ended and the unit was looked at: a
/// cancellation is told as one; else a unit that is there is a success, and where it is
/// not, the job decides.
pub proof fn law_job_ends(job: JobResult, s: UnitActiveState, next: UnitAction, last: UnitAction)
    requires
        job_step(UnitAction::RunJob, UnitEvent::JobEnded(Some(job)), next),
        job_step(next, UnitEvent::State(Some(s)), last),
    ensures
        last matches UnitAction::Finish(Ok(_)),
        ({
            let end = last->Finish_0->Ok_0;
            &&& job is Canceled <==> end is Canceled
            &&& end is Success <==> job is Success || (!(s is Inactive) && !(job is Canceled))
            &&& end is Timeout <==> job is Timeout && s is Inactive
            &&& end matches ExecutionResult::Failure(reason) ==> job == JobResult::Failed(reason)
                && s is Inactive
            &&& end matches ExecutionResult::Success(x) ==> (x is Inactive <==> s is Inactive)
                && x.text() == state_name(s)
            &&& end matches ExecutionResult::Canceled(x) ==> (x is Inactive <==> s is Inactive)
                && x.text() == state_name(s)
        }),
{
}

/// A job that was not taken, or a unit that cannot be looked at after it, is an error.
pub proof fn law_job_not_taken(s: Option<UnitActiveState>, ended: Option<JobResult>, last: UnitAction)
    requires
        job_step(UnitAction::ReadInnerState(ended), UnitEvent::State(s), last),
        s is None || ended is None,
    ensures
        last == if s is None {
            UnitAction::Finish(Err(ExecutorError::InnerState))
        } else {
            UnitAction::Finish(Err(ExecutorError::Job))
        },
{
}

/// A cancellation is never turned into anything else, and a job that failed or took too long
/// counts as failed where the unit is not there.
pub proof fn law_job_outcomes(job: JobResult, words: String)
    ensures
        job is Canceled ==> job_outcome(job, ExecutionStatus::Inactive(words))
            == ExecutionResult::Canceled(ExecutionStatus::Inactive(words)) && job_outcome(
            job,
            ExecutionStatus::Active(words),
        ) == ExecutionResult::Canceled(ExecutionStatus::Active(words)),
        job is Success ==> job_outcome(job, ExecutionStatus::Inactive(words))
            == ExecutionResult::Success(ExecutionStatus::Inactive(words)),
        job matches JobResult::Failed(reason) ==> job_outcome(job, ExecutionStatus::Inactive(words))
            == ExecutionResult::Failure(reason),
        job is Timeout ==> job_outcome(job, ExecutionStatus::Inactive(words))
            == ExecutionResult::Timeout,
{
}

/// A change that is understood is passed on in its own words, and tells of a unit that is
/// there unless the word is `inactive`. Anything else ends the watch.
pub proof fn law_watch_tells_changes(name: String, failure: Option<FailureInfo>, r: MonitorAction)
    requires
        monitor_step(MonitorEvent::Changed(name, failure), r),
    ensures
        ({
            let understood = name@ == "activating"@ || name@ == "active"@ || name@ == "reloading"@
                || name@ == "deactivating"@ || name@ == "inactive"@ || (name@ == "failed"@ && failure
                is Some);
            &&& r is Emit <==> understood
            &&& r matches MonitorAction::Emit(s) ==> s.text() == name@ && (s is Inactive <==> name@
                == "inactive"@)
            &&& !understood ==> r == MonitorAction::End(Err(MonitorError::UnknownState))
        }),
{
}

} // verus!
