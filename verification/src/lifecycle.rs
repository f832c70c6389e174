//! The generalized provider lifecycle state machine.
//!
//! Every cloud backend drives a remote compute resource through the same
//! pattern: classify the observed instance state into a disposition for the
//! requested operation, and, where the action is not legal yet, poll on a
//! fixed interval under a hard retry budget. The classification and the
//! budget bookkeeping are decided here; performing the cloud calls and the
//! sleeps between polls is the caller's concern.
use vstd::prelude::*;

verus! {

/// The state every cloud backend's native instance-state vocabulary is
/// abstracted into. Always derived fresh from a provider query, never
/// cached beyond a single decision step.
#[derive(Clone, Copy, Debug, PartialEq, Eq, Structural)]
pub enum InstanceState {
    Stopped,
    Stopping,
    Pending,
    Running,
    ShuttingDown,
    Terminated,
    Unknown,
}

/// The point-in-time running query is a pure projection of the state.
pub fn instance_is_running(state: InstanceState) -> (r: bool)
    ensures
        r == (state == InstanceState::Running),
{
    match state {
        InstanceState::Running => true,
        _ => false,
    }
}

/// How a requested start relates to the observed state: issue the start
/// command, wait for `Stopped` first, treat the request as already
/// satisfied, or refuse it as illegal.
#[derive(Clone, Copy, Debug, PartialEq, Eq, Structural)]
pub enum StartDisposition {
    IssueStart,
    AwaitStopped,
    AlreadySatisfied,
    IllegalState,
}

pub open spec fn spec_start_disposition(state: InstanceState) -> StartDisposition {
    match state {
        InstanceState::Stopped => StartDisposition::IssueStart,
        InstanceState::Stopping => StartDisposition::AwaitStopped,
        InstanceState::Pending => StartDisposition::AlreadySatisfied,
        InstanceState::Running => StartDisposition::AlreadySatisfied,
        InstanceState::ShuttingDown => StartDisposition::IllegalState,
        InstanceState::Terminated => StartDisposition::IllegalState,
        InstanceState::Unknown => StartDisposition::IllegalState,
    }
}

pub fn start_disposition(state: InstanceState) -> (d: StartDisposition)
    ensures
        d == spec_start_disposition(state),
{
    match state {
        InstanceState::Stopped => StartDisposition::IssueStart,
        InstanceState::Stopping => StartDisposition::AwaitStopped,
        InstanceState::Pending => StartDisposition::AlreadySatisfied,
        InstanceState::Running => StartDisposition::AlreadySatisfied,
        InstanceState::ShuttingDown => StartDisposition::IllegalState,
        InstanceState::Terminated => StartDisposition::IllegalState,
        InstanceState::Unknown => StartDisposition::IllegalState,
    }
}

/// How a requested stop relates to the observed state; symmetric to the
/// start disposition with the roles reversed.
#[derive(Clone, Copy, Debug, PartialEq, Eq, Structural)]
pub enum StopDisposition {
    IssueStop,
    AwaitRunning,
    AlreadySatisfied,
    IllegalState,
}

pub open spec fn spec_stop_disposition(state: InstanceState) -> StopDisposition {
    match state {
        InstanceState::Running => StopDisposition::IssueStop,
        InstanceState::Pending => StopDisposition::AwaitRunning,
        InstanceState::Stopping => StopDisposition::AlreadySatisfied,
        InstanceState::Stopped => StopDisposition::AlreadySatisfied,
        InstanceState::ShuttingDown => StopDisposition::IllegalState,
        InstanceState::Terminated => StopDisposition::IllegalState,
        InstanceState::Unknown => StopDisposition::IllegalState,
    }
}

pub fn stop_disposition(state: InstanceState) -> (d: StopDisposition)
    ensures
        d == spec_stop_disposition(state),
{
    match state {
        InstanceState::Running => StopDisposition::IssueStop,
        InstanceState::Pending => StopDisposition::AwaitRunning,
        InstanceState::Stopping => StopDisposition::AlreadySatisfied,
        InstanceState::Stopped => StopDisposition::AlreadySatisfied,
        InstanceState::ShuttingDown => StopDisposition::IllegalState,
        InstanceState::Terminated => StopDisposition::IllegalState,
        InstanceState::Unknown => StopDisposition::IllegalState,
    }
}

/// A bounded polling discipline: poll every `interval_ms` milliseconds, at
/// most `max_attempts` times.
#[derive(Clone, Copy, Debug, PartialEq, Eq, Structural)]
pub struct RetryPolicy {
    pub interval_ms: u64,
    pub max_attempts: u32,
}

/// What a wait loop is waiting for.
#[derive(Clone, Copy, Debug, PartialEq, Eq, Structural)]
pub enum WaitKind {
    /// Waiting out a `Stopping` phase so a start can be issued.
    StoppedBeforeStart,
    /// Waiting out a `Pending` phase so a stop can be issued.
    RunningBeforeStop,
    /// Waiting for a resource to reach its off state before deletion.
    UntilOff,
}

/// How one observed state relates to what a wait loop waits for.
#[derive(Clone, Copy, Debug, PartialEq, Eq, Structural)]
pub enum WaitClass {
    /// The awaited settle state is reached: issue the deferred action now.
    Proceed,
    /// The request is already satisfied without an action.
    Satisfied,
    /// The transition is still in flight: keep polling.
    KeepWaiting,
    /// A state the wait cannot recover from: abandon the wait.
    Abort,
}

pub open spec fn spec_classify_wait(kind: WaitKind, state: InstanceState) -> WaitClass {
    match kind {
        WaitKind::StoppedBeforeStart => match state {
            InstanceState::Stopped => WaitClass::Proceed,
            InstanceState::Stopping => WaitClass::KeepWaiting,
            InstanceState::Pending => WaitClass::Satisfied,
            InstanceState::Running => WaitClass::Satisfied,
            _ => WaitClass::Abort,
        },
        WaitKind::RunningBeforeStop => match state {
            InstanceState::Running => WaitClass::Proceed,
            InstanceState::Pending => WaitClass::KeepWaiting,
            InstanceState::Stopping => WaitClass::Satisfied,
            InstanceState::Stopped => WaitClass::Satisfied,
            _ => WaitClass::Abort,
        },
        WaitKind::UntilOff => match state {
            InstanceState::Stopped => WaitClass::Satisfied,
            _ => WaitClass::KeepWaiting,
        },
    }
}

pub fn classify_wait(kind: WaitKind, state: InstanceState) -> (c: WaitClass)
    ensures
        c == spec_classify_wait(kind, state),
{
    match kind {
        WaitKind::StoppedBeforeStart => match state {
            InstanceState::Stopped => WaitClass::Proceed,
            InstanceState::Stopping => WaitClass::KeepWaiting,
            InstanceState::Pending => WaitClass::Satisfied,
            InstanceState::Running => WaitClass::Satisfied,
            _ => WaitClass::Abort,
        },
        WaitKind::RunningBeforeStop => match state {
            InstanceState::Running => WaitClass::Proceed,
            InstanceState::Pending => WaitClass::KeepWaiting,
            InstanceState::Stopping => WaitClass::Satisfied,
            InstanceState::Stopped => WaitClass::Satisfied,
            _ => WaitClass::Abort,
        },
        WaitKind::UntilOff => match state {
            InstanceState::Stopped => WaitClass::Satisfied,
            _ => WaitClass::KeepWaiting,
        },
    }
}

/// What one poll of a budgeted wait settles on.
#[derive(Clone, Copy, Debug, PartialEq, Eq, Structural)]
pub enum WaitStep {
    /// Still in flight and budget remains: sleep one interval, poll again.
    Continue,
    /// The settle state is reached: issue the deferred action, stop waiting.
    Proceed,
    /// Already satisfied: stop waiting, no action needed.
    Satisfied,
    /// An unrecoverable state was observed: stop waiting.
    Abort,
    /// The retry budget is exhausted without an outcome.
    TimedOut,
}

/// A budgeted wait loop's bookkeeping: what is waited for, under which
/// polling discipline, and how many polls were spent waiting so far.
pub struct Waiter {
    pub kind: WaitKind,
    pub policy: RetryPolicy,
    pub polls_made: u32,
}

impl Waiter {
    pub fn new(kind: WaitKind, policy: RetryPolicy) -> (w: Waiter)
        ensures
            w.kind == kind,
            w.policy == policy,
            w.polls_made == 0,
    {
        Waiter { kind, policy, polls_made: 0 }
    }

    /// Feed one freshly polled state to the wait. A state still in flight
    /// consumes one unit of the retry budget; spending the last unit on it
    /// times the wait out. Any other class of state ends the wait at once
    /// and costs no budget.
    pub fn observe(&mut self, state: InstanceState) -> (step: WaitStep)
        ensures
            final(self).kind == old(self).kind,
            final(self).policy == old(self).policy,
            spec_classify_wait(old(self).kind, state) == WaitClass::Proceed ==> step
                == WaitStep::Proceed && final(self).polls_made == old(self).polls_made,
            spec_classify_wait(old(self).kind, state) == WaitClass::Satisfied ==> step
                == WaitStep::Satisfied && final(self).polls_made == old(self).polls_made,
            spec_classify_wait(old(self).kind, state) == WaitClass::Abort ==> step
                == WaitStep::Abort && final(self).polls_made == old(self).polls_made,
            spec_classify_wait(old(self).kind, state) == WaitClass::KeepWaiting ==> {
                if old(self).polls_made >= old(self).policy.max_attempts {
                    step == WaitStep::TimedOut && final(self).polls_made == old(self).polls_made
                } else {
                    final(self).polls_made == old(self).polls_made + 1 && step == (
                    if old(self).polls_made + 1 == old(self).policy.max_attempts {
                        WaitStep::TimedOut
                    } else {
                        WaitStep::Continue
                    })
                }
            },
    {
        match classify_wait(self.kind, state) {
            WaitClass::Proceed => WaitStep::Proceed,
            WaitClass::Satisfied => WaitStep::Satisfied,
            WaitClass::Abort => WaitStep::Abort,
            WaitClass::KeepWaiting => {
                if self.polls_made >= self.policy.max_attempts {
                    WaitStep::TimedOut
                } else {
                    self.polls_made = self.polls_made + 1;
                    if self.polls_made == self.policy.max_attempts {
                        WaitStep::TimedOut
                    } else {
                        WaitStep::Continue
                    }
                }
            },
        }
    }
}

/// Why a state query could not produce a state.
#[derive(Clone, Copy, Debug, PartialEq, Eq, Structural)]
pub enum QueryError {
    /// No observed instance carries the configured identifier.
    InstanceNotFound,
    /// The matching instance was observed without a resolvable state.
    StateUnavailable,
}

/// One instance as a provider's describe call reported it: its identifier,
/// and its state where one could be resolved.
pub struct ObservedInstance {
    pub id: String,
    pub state: Option<InstanceState>,
}

/// Index of the first observed instance carrying `id`, or `-1`.
pub open spec fn first_match_index(instances: Seq<ObservedInstance>, id: Seq<char>) -> int
    decreases instances.len(),
{
    if instances.len() == 0 {
        -1
    } else if instances[0].id@ == id {
        0
    } else {
        let r = first_match_index(instances.drop_first(), id);
        if r == -1 {
            -1
        } else {
            r + 1
        }
    }
}

proof fn lemma_first_match_index(instances: Seq<ObservedInstance>, id: Seq<char>)
    ensures
        first_match_index(instances, id) == -1 ==> forall|j: int|
            0 <= j < instances.len() ==> instances[j].id@ != id,
        first_match_index(instances, id) != -1 ==> {
            let i = first_match_index(instances, id);
            &&& 0 <= i < instances.len()
            &&& instances[i].id@ == id
            &&& forall|j: int| 0 <= j < i ==> instances[j].id@ != id
        },
    decreases instances.len(),
{
    if instances.len() > 0 && instances[0].id@ != id {
        lemma_first_match_index(instances.drop_first(), id);
        if first_match_index(instances, id) == -1 {
            assert forall|j: int| 0 <= j < instances.len() implies instances[j].id@ != id by {
                if j > 0 {
                    assert(instances.drop_first()[j - 1] == instances[j]);
                }
            }
        } else {
            let i = first_match_index(instances, id);
            assert(instances.drop_first()[i - 1] == instances[i]);
            assert forall|j: int| 0 <= j < i implies instances[j].id@ != id by {
                if j > 0 {
                    assert(instances.drop_first()[j - 1] == instances[j]);
                }
            }
        }
    }
}

/// The state of the instance carrying `id` among the observed instances:
/// the first match decides; no match, or a match without a state, is an
/// error.
pub open spec fn spec_resolve_state(instances: Seq<ObservedInstance>, id: Seq<char>) -> Result<
    InstanceState,
    QueryError,
> {
    let i = first_match_index(instances, id);
    if i == -1 {
        Err(QueryError::InstanceNotFound)
    } else {
        match instances[i].state {
            Some(state) => Ok(state),
            None => Err(QueryError::StateUnavailable),
        }
    }
}

/// Resolve the configured instance's state from one describe observation.
pub fn resolve_instance_state(instances: &Vec<ObservedInstance>, instance_id: &str) -> (r: Result<
    InstanceState,
    QueryError,
>)
    ensures
        r == spec_resolve_state(instances@, instance_id@),
{
    let n = instances.len();
    let mut i: usize = 0;
    while i < n
        invariant
            n == instances.len(),
            i <= n,
            forall|j: int| 0 <= j < i ==> instances@[j].id@ != instance_id@,
        decreases n - i,
    {
        if crate::text::str_eq(instances[i].id.as_str(), instance_id) {
            proof {
                lemma_first_match_index(instances@, instance_id@);
            }
            return match instances[i].state {
                Some(state) => Ok(state),
                None => Err(QueryError::StateUnavailable),
            };
        }
        i = i + 1;
    }
    proof {
        lemma_first_match_index(instances@, instance_id@);
    }
    Err(QueryError::InstanceNotFound)
}

/// A start requested of an instance that is already running, or already on
/// its way up, needs no action and is not an error.
pub proof fn lemma_start_idempotent(state: InstanceState)
    requires
        state == InstanceState::Running || state == InstanceState::Pending,
    ensures
        spec_start_disposition(state) == StartDisposition::AlreadySatisfied,
{
}

/// A stop requested of an instance that is already stopped, or already on
/// its way down, needs no action and is not an error.
pub proof fn lemma_stop_idempotent(state: InstanceState)
    requires
        state == InstanceState::Stopped || state == InstanceState::Stopping,
    ensures
        spec_stop_disposition(state) == StopDisposition::AlreadySatisfied,
{
}

} // verus!
