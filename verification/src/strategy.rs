//! The scaling decision engine.
//!
//! `Strategy::apply` turns one queue observation into at most one scaling
//! action, under hysteresis rules: demand from eligible pending jobs starts
//! the agent, activity refreshes the idle clock, and only an idle period
//! longer than the configured window (or a running agent with no tracked
//! history at all) stops it.
use vstd::prelude::*;

use crate::agent::{FilterLabels, Labels, spec_supports};

verus! {

/// One pending job from a queue snapshot.
pub struct WpQueueInfoPending {
    pub id: String,
    pub labels: Labels,
}

/// One running job from a queue snapshot.
pub struct WpQueueInfoRunning {
    pub id: String,
    pub labels: Labels,
}

/// The counters of a queue snapshot.
pub struct WpQueueInfoStats {
    pub worker_count: u32,
    pub pending_count: u32,
    pub waiting_on_deps_count: u32,
    pub running_count: u32,
    pub completed_count: u32,
}

/// One immutable queue snapshot; an absent job list is equivalent to an
/// empty one.
pub struct WpQueueInfo {
    pub pending: Option<Vec<WpQueueInfoPending>>,
    pub running: Option<Vec<WpQueueInfoRunning>>,
    pub stats: WpQueueInfoStats,
}

/// The scaling action one decision step settles on.
#[derive(Clone, Copy, Debug, PartialEq, Eq, Structural)]
pub enum Action {
    StartAgent,
    StopAgent,
    NoAction,
}

/// How many of the given pending jobs the filter accepts.
pub open spec fn eligible_count(f: Map<Seq<char>, Seq<char>>, jobs: Seq<WpQueueInfoPending>) -> nat
    decreases jobs.len(),
{
    if jobs.len() == 0 {
        0
    } else {
        eligible_count(f, jobs.drop_last()) + if spec_supports(f, jobs.last().labels@) {
            1nat
        } else {
            0nat
        }
    }
}

/// The demand a queue snapshot holds for this agent: the eligible pending
/// jobs, an absent list counting as empty.
pub open spec fn pending_demand(
    f: Map<Seq<char>, Seq<char>>,
    pending: Option<Vec<WpQueueInfoPending>>,
) -> nat {
    match pending {
        Some(jobs) => eligible_count(f, jobs@),
        None => 0,
    }
}

/// How many of the given running jobs execute on the agent with this id.
pub open spec fn matching_count(agent_id: Seq<char>, jobs: Seq<WpQueueInfoRunning>) -> nat
    decreases jobs.len(),
{
    if jobs.len() == 0 {
        0
    } else {
        matching_count(agent_id, jobs.drop_last()) + if jobs.last().id@ == agent_id {
            1nat
        } else {
            0nat
        }
    }
}

/// The jobs of a queue snapshot already executing on this agent, an absent
/// list counting as empty.
pub open spec fn running_on_agent(
    agent_id: Seq<char>,
    running: Option<Vec<WpQueueInfoRunning>>,
) -> nat {
    match running {
        Some(jobs) => matching_count(agent_id, jobs@),
        None => 0,
    }
}

/// The action one decision step takes, given the observed agent state, the
/// eligible pending demand, the count of jobs running on this agent, the
/// tracked idle clock and the hysteresis window.
pub open spec fn spec_decide(
    agent_running: bool,
    pending: nat,
    on_agent: nat,
    last_time_running: Option<u64>,
    idle_time_before_stop: u64,
    now: u64,
) -> Action {
    if !agent_running && on_agent == 0 && pending > 0 {
        Action::StartAgent
    } else if agent_running && on_agent == 0 && pending == 0 {
        match last_time_running {
            Some(t) => if now - t > idle_time_before_stop {
                Action::StopAgent
            } else {
                Action::NoAction
            },
            None => Action::StopAgent,
        }
    } else {
        Action::NoAction
    }
}

/// The idle clock after one decision step: an attempted start and active
/// work both reset it to `now`; otherwise it is kept.
pub open spec fn spec_next_last_time(
    agent_running: bool,
    pending: nat,
    on_agent: nat,
    last_time_running: Option<u64>,
    now: u64,
) -> Option<u64> {
    if (!agent_running && on_agent == 0 && pending > 0) || on_agent > 0 {
        Some(now)
    } else {
        last_time_running
    }
}

/// The decision engine's state: the label filter the agent advertises, the
/// last instant work was observed (or a start was attempted), the hysteresis
/// window, and the agent's identity. Times are milliseconds on a monotonic
/// clock supplied by the caller.
pub struct Strategy {
    filter: FilterLabels,
    last_time_running_agent: Option<u64>,
    idle_time_before_stop: u64,
    agent_id: String,
}

impl Strategy {
    /// The filter mapping the strategy gates pending jobs with.
    pub closed spec fn spec_filter(self) -> Map<Seq<char>, Seq<char>> {
        self.filter@
    }

    /// The tracked idle clock.
    pub closed spec fn spec_last_time_running(self) -> Option<u64> {
        self.last_time_running_agent
    }

    /// The hysteresis window in milliseconds.
    pub closed spec fn spec_idle_time_before_stop(self) -> u64 {
        self.idle_time_before_stop
    }

    /// The agent identity used to match running jobs.
    pub closed spec fn spec_agent_id(self) -> Seq<char> {
        self.agent_id@
    }

    pub fn new(filter: FilterLabels, idle_time_before_stop: u64, agent_id: String) -> (s: Strategy)
        ensures
            s.spec_filter() == filter@,
            s.spec_last_time_running() is None,
            s.spec_idle_time_before_stop() == idle_time_before_stop,
            s.spec_agent_id() == agent_id@,
    {
        Strategy { filter, last_time_running_agent: None, idle_time_before_stop, agent_id }
    }

    /// Whether a job with the given labels is acceptable to this agent.
    pub fn supports_labels(&self, labels: &Labels) -> (r: bool)
        ensures
            r == spec_supports(self.spec_filter(), labels@),
    {
        self.filter.supports(labels)
    }

    /// One decision step for one queue snapshot. `agent_is_running` is the
    /// provider's answer to a point-in-time running query, or `None` when
    /// that query failed: then nothing is decided and no state changes
    /// (fail-soft). `now` comes from a monotonic clock, so it is never
    /// before the tracked idle clock.
    pub fn apply(
        &mut self,
        queue_info: &WpQueueInfo,
        agent_is_running: Option<bool>,
        now: u64,
    ) -> (action: Action)
        requires
            old(self).spec_last_time_running() matches Some(t) ==> t <= now,
        ensures
            final(self).spec_filter() == old(self).spec_filter(),
            final(self).spec_idle_time_before_stop() == old(self).spec_idle_time_before_stop(),
            final(self).spec_agent_id() == old(self).spec_agent_id(),
            agent_is_running is None ==> action == Action::NoAction
                && final(self).spec_last_time_running() == old(self).spec_last_time_running(),
            agent_is_running matches Some(r) ==> action == spec_decide(
                r,
                pending_demand(old(self).spec_filter(), queue_info.pending),
                running_on_agent(old(self).spec_agent_id(), queue_info.running),
                old(self).spec_last_time_running(),
                old(self).spec_idle_time_before_stop(),
                now,
            ) && final(self).spec_last_time_running() == spec_next_last_time(
                r,
                pending_demand(old(self).spec_filter(), queue_info.pending),
                running_on_agent(old(self).spec_agent_id(), queue_info.running),
                old(self).spec_last_time_running(),
                now,
            ),
    {
        let agent_running = match agent_is_running {
            Some(r) => r,
            None => {
                return Action::NoAction;
            },
        };

        let ghost f = self.spec_filter();
        let mut pending_count: usize = 0;
        match &queue_info.pending {
            Some(jobs) => {
                let n = jobs.len();
                let mut i: usize = 0;
                while i < n
                    invariant
                        n == jobs.len(),
                        i <= n,
                        pending_count <= i,
                        f == self.spec_filter(),
                        pending_count == eligible_count(f, jobs@.subrange(0, i as int)),
                    decreases n - i,
                {
                    if self.filter.supports(&jobs[i].labels) {
                        pending_count = pending_count + 1;
                    }
                    proof {
                        assert(jobs@.subrange(0, i + 1).drop_last() =~= jobs@.subrange(
                            0,
                            i as int,
                        ));
                    }
                    i = i + 1;
                }
                proof {
                    assert(jobs@.subrange(0, n as int) =~= jobs@);
                }
            },
            None => {},
        }

        let ghost aid = self.spec_agent_id();
        let mut running_count: usize = 0;
        match &queue_info.running {
            Some(jobs) => {
                let n = jobs.len();
                let mut i: usize = 0;
                while i < n
                    invariant
                        n == jobs.len(),
                        i <= n,
                        running_count <= i,
                        aid == self.spec_agent_id(),
                        running_count == matching_count(aid, jobs@.subrange(0, i as int)),
                    decreases n - i,
                {
                    if crate::text::str_eq(jobs[i].id.as_str(), self.agent_id.as_str()) {
                        running_count = running_count + 1;
                    }
                    proof {
                        assert(jobs@.subrange(0, i + 1).drop_last() =~= jobs@.subrange(
                            0,
                            i as int,
                        ));
                    }
                    i = i + 1;
                }
                proof {
                    assert(jobs@.subrange(0, n as int) =~= jobs@);
                }
            },
            None => {},
        }

        let mut action = Action::NoAction;
        if !agent_running && running_count == 0 && pending_count > 0 {
            action = Action::StartAgent;
            self.last_time_running_agent = Some(now);
        }
        if running_count > 0 {
            self.last_time_running_agent = Some(now);
        }
        if agent_running && running_count == 0 && pending_count == 0 {
            match self.last_time_running_agent {
                Some(last) => {
                    if now - last > self.idle_time_before_stop {
                        action = Action::StopAgent;
                    }
                },
                None => {
                    action = Action::StopAgent;
                },
            }
        }
        action
    }
}

/// When the agent is not running, no job runs on it and there is eligible
/// pending demand, the decision is to start the agent, and the idle clock is
/// set to the decision instant.
pub proof fn lemma_start_trigger(
    pending: nat,
    last_time_running: Option<u64>,
    idle_time_before_stop: u64,
    now: u64,
)
    requires
        pending > 0,
    ensures
        spec_decide(false, pending, 0, last_time_running, idle_time_before_stop, now)
            == Action::StartAgent,
        spec_next_last_time(false, pending, 0, last_time_running, now) == Some(now),
{
}

/// Hysteresis: an idle agent with a tracked idle clock is stopped exactly
/// when more than the configured window has elapsed; until then nothing is
/// done and the clock is kept.
pub proof fn lemma_hysteresis(t: u64, idle_time_before_stop: u64, now: u64)
    requires
        t <= now,
    ensures
        now - t <= idle_time_before_stop ==> spec_decide(
            true,
            0,
            0,
            Some(t),
            idle_time_before_stop,
            now,
        ) == Action::NoAction,
        now - t <= idle_time_before_stop ==> spec_next_last_time(true, 0, 0, Some(t), now)
            == Some(t),
        now - t > idle_time_before_stop ==> spec_decide(
            true,
            0,
            0,
            Some(t),
            idle_time_before_stop,
            now,
        ) == Action::StopAgent,
{
}

/// Hysteresis across polls: an agent that became idle with a freshly set
/// idle clock is left alone on a poll within the window, which also keeps
/// the clock, and is stopped on a subsequent poll once more than the window
/// has elapsed since the clock was set.
pub proof fn lemma_hysteresis_subsequent_poll(
    t: u64,
    idle_time_before_stop: u64,
    now1: u64,
    now2: u64,
)
    requires
        t <= now1 <= now2,
        now1 - t <= idle_time_before_stop,
        now2 - t > idle_time_before_stop,
    ensures
        spec_decide(true, 0, 0, Some(t), idle_time_before_stop, now1) == Action::NoAction,
        spec_next_last_time(true, 0, 0, Some(t), now1) == Some(t),
        spec_decide(
            true,
            0,
            0,
            spec_next_last_time(true, 0, 0, Some(t), now1),
            idle_time_before_stop,
            now2,
        ) == Action::StopAgent,
{
}

/// An agent observed running with no pending or running work and no tracked
/// history is treated as an orphan of a previous process lifetime and is
/// stopped at once.
pub proof fn lemma_orphan_stop(idle_time_before_stop: u64, now: u64)
    ensures
        spec_decide(true, 0, 0, Option::<u64>::None, idle_time_before_stop, now)
            == Action::StopAgent,
{
}

/// A pending job whose labels the filter rejects does not count as demand.
pub proof fn lemma_rejected_job_not_counted(
    f: Map<Seq<char>, Seq<char>>,
    jobs: Seq<WpQueueInfoPending>,
    job: WpQueueInfoPending,
)
    requires
        !spec_supports(f, job.labels@),
    ensures
        eligible_count(f, jobs.push(job)) == eligible_count(f, jobs),
{
    assert(jobs.push(job).drop_last() =~= jobs);
}

/// A queue whose pending jobs are all rejected by the filter holds no demand
/// and never triggers a start, whatever else is observed.
pub proof fn lemma_all_rejected_no_start(
    f: Map<Seq<char>, Seq<char>>,
    jobs: Seq<WpQueueInfoPending>,
    agent_running: bool,
    on_agent: nat,
    last_time_running: Option<u64>,
    idle_time_before_stop: u64,
    now: u64,
)
    requires
        forall|i: int| 0 <= i < jobs.len() ==> !spec_supports(f, #[trigger] jobs[i].labels@),
    ensures
        eligible_count(f, jobs) == 0,
        spec_decide(
            agent_running,
            eligible_count(f, jobs),
            on_agent,
            last_time_running,
            idle_time_before_stop,
            now,
        ) != Action::StartAgent,
    decreases jobs.len(),
{
    if jobs.len() > 0 {
        assert(jobs[jobs.len() - 1] == jobs.last());
        lemma_all_rejected_no_start(
            f,
            jobs.drop_last(),
            agent_running,
            on_agent,
            last_time_running,
            idle_time_before_stop,
            now,
        );
    }
}

} // verus!
