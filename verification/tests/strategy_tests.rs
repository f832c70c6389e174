use picus::agent::{FilterLabels, Labels};
use picus::strategy::{
    Action, Strategy, WpQueueInfo, WpQueueInfoPending, WpQueueInfoRunning, WpQueueInfoStats,
};

fn stats(worker: u32, pending: u32, running: u32) -> WpQueueInfoStats {
    WpQueueInfoStats {
        worker_count: worker,
        pending_count: pending,
        waiting_on_deps_count: 0,
        running_count: running,
        completed_count: 0,
    }
}

fn empty_queue(worker: u32) -> WpQueueInfo {
    WpQueueInfo { pending: None, running: None, stats: stats(worker, 0, 0) }
}

fn one_pending_queue() -> WpQueueInfo {
    WpQueueInfo {
        pending: Some(vec![WpQueueInfoPending { id: "0".to_string(), labels: Labels::new() }]),
        running: None,
        stats: stats(0, 1, 0),
    }
}

fn accept_all_filter() -> FilterLabels {
    FilterLabels::from_string("platform=*")
}

#[test]
fn stop_running_agent_present_on_startup() {
    let mut strategy = Strategy::new(accept_all_filter(), 60_000, "1".to_string());
    let queue_info = empty_queue(1);
    let action = strategy.apply(&queue_info, Some(true), 0);
    assert_eq!(action, Action::StopAgent);
}

#[test]
fn start_and_stop_agent() {
    let idle = 5_000;
    let mut strategy = Strategy::new(accept_all_filter(), idle, "1".to_string());

    let action = strategy.apply(&one_pending_queue(), Some(false), 0);
    assert_eq!(action, Action::StartAgent);

    let action = strategy.apply(&empty_queue(1), Some(true), idle + 1);
    assert_eq!(action, Action::StopAgent);
}

#[test]
fn start_and_not_stop_agent() {
    let idle = 5_000;
    let mut strategy = Strategy::new(accept_all_filter(), idle, "1".to_string());

    let action = strategy.apply(&one_pending_queue(), Some(false), 0);
    assert_eq!(action, Action::StartAgent);

    let action = strategy.apply(&empty_queue(1), Some(true), 1);
    assert_eq!(action, Action::NoAction);
}

#[test]
fn idle_exactly_at_window_not_stopped() {
    let idle = 5_000;
    let mut strategy = Strategy::new(accept_all_filter(), idle, "1".to_string());

    let action = strategy.apply(&one_pending_queue(), Some(false), 0);
    assert_eq!(action, Action::StartAgent);

    let action = strategy.apply(&empty_queue(1), Some(true), idle);
    assert_eq!(action, Action::NoAction);

    let action = strategy.apply(&empty_queue(1), Some(true), idle + 1);
    assert_eq!(action, Action::StopAgent);
}

#[test]
fn end_to_end_scenario() {
    let idle = 5_000;
    let mut strategy = Strategy::new(accept_all_filter(), idle, "1".to_string());

    let first = WpQueueInfo {
        pending: Some(vec![WpQueueInfoPending { id: "0".to_string(), labels: Labels::new() }]),
        running: None,
        stats: stats(0, 1, 0),
    };
    let action = strategy.apply(&first, Some(false), 0);
    assert_eq!(action, Action::StartAgent);

    let second = WpQueueInfo { pending: None, running: None, stats: stats(1, 0, 0) };
    let action = strategy.apply(&second, Some(true), idle + 1);
    assert_eq!(action, Action::StopAgent);
}

#[test]
fn rejected_pending_job_does_not_trigger_start() {
    let filter = FilterLabels::from_string("platform=linux/amd64");
    let mut strategy = Strategy::new(filter, 5_000, "1".to_string());

    let mut labels = Labels::new();
    labels.insert("platform".to_string(), "linux/arm64".to_string());
    let queue_info = WpQueueInfo {
        pending: Some(vec![WpQueueInfoPending { id: "7".to_string(), labels }]),
        running: None,
        stats: stats(0, 1, 0),
    };
    let action = strategy.apply(&queue_info, Some(false), 0);
    assert_eq!(action, Action::NoAction);
}

#[test]
fn eligible_and_rejected_jobs_counted_separately() {
    let filter = FilterLabels::from_string("platform=linux/amd64");
    let mut strategy = Strategy::new(filter, 5_000, "1".to_string());

    let mut rejected = Labels::new();
    rejected.insert("platform".to_string(), "linux/arm64".to_string());
    let mut accepted = Labels::new();
    accepted.insert("platform".to_string(), "linux/amd64".to_string());
    let queue_info = WpQueueInfo {
        pending: Some(vec![
            WpQueueInfoPending { id: "7".to_string(), labels: rejected },
            WpQueueInfoPending { id: "8".to_string(), labels: accepted },
        ]),
        running: None,
        stats: stats(0, 2, 0),
    };
    let action = strategy.apply(&queue_info, Some(false), 0);
    assert_eq!(action, Action::StartAgent);
}

#[test]
fn running_job_on_agent_refreshes_clock_and_blocks_stop() {
    let idle = 5_000;
    let mut strategy = Strategy::new(accept_all_filter(), idle, "1".to_string());

    let busy = WpQueueInfo {
        pending: None,
        running: Some(vec![WpQueueInfoRunning { id: "1".to_string(), labels: Labels::new() }]),
        stats: stats(1, 0, 1),
    };
    let action = strategy.apply(&busy, Some(true), 10_000);
    assert_eq!(action, Action::NoAction);

    // The job refreshed the clock at 10s: at 14s the window has not elapsed.
    let action = strategy.apply(&empty_queue(1), Some(true), 14_000);
    assert_eq!(action, Action::NoAction);

    let action = strategy.apply(&empty_queue(1), Some(true), 15_001);
    assert_eq!(action, Action::StopAgent);
}

#[test]
fn running_job_on_other_agent_does_not_count() {
    let idle = 5_000;
    let mut strategy = Strategy::new(accept_all_filter(), idle, "1".to_string());

    let other_busy = WpQueueInfo {
        pending: None,
        running: Some(vec![WpQueueInfoRunning { id: "2".to_string(), labels: Labels::new() }]),
        stats: stats(1, 0, 1),
    };
    // Jobs on another agent are no activity of this one: with no tracked
    // history the running agent is stopped as an orphan.
    let action = strategy.apply(&other_busy, Some(true), 0);
    assert_eq!(action, Action::StopAgent);
}

#[test]
fn failed_running_query_changes_nothing() {
    let idle = 5_000;
    let mut strategy = Strategy::new(accept_all_filter(), idle, "1".to_string());

    let action = strategy.apply(&one_pending_queue(), None, 0);
    assert_eq!(action, Action::NoAction);

    // The failed cycle left no tracked history behind: the next cycle still
    // sees an orphaned running agent.
    let action = strategy.apply(&empty_queue(1), Some(true), 1);
    assert_eq!(action, Action::StopAgent);
}

#[test]
fn start_not_triggered_while_agent_running() {
    let mut strategy = Strategy::new(accept_all_filter(), 5_000, "1".to_string());
    let action = strategy.apply(&one_pending_queue(), Some(true), 0);
    assert_eq!(action, Action::NoAction);
}
