//! The fleet-level lifecycle variant.
//!
//! One backend models lifecycle at the granularity of whole-resource
//! creation and destruction rather than start/stop of a persistent
//! instance: "start" creates a new resource only when none matching the
//! service's label selector exists, and "stop" shuts down and then deletes
//! every matching resource. The decisions, the resource naming, and the
//! selection of agent parameters from the process environment are made
//! here; the cloud calls themselves are the caller's concern.
use vstd::prelude::*;

use crate::lifecycle::InstanceState;
use crate::text::{starts_with, str_eq, str_starts_with};

verus! {

/// What a fleet-level start does, given how many matching resources exist.
#[derive(Clone, Copy, Debug, PartialEq, Eq, Structural)]
pub enum FleetStartAction {
    /// No matching resource exists: create one.
    CreateServer,
    /// One or more matching resources already exist: nothing to do.
    NoneNeeded,
}

pub open spec fn spec_fleet_start_action(existing: nat) -> FleetStartAction {
    if existing == 0 {
        FleetStartAction::CreateServer
    } else {
        FleetStartAction::NoneNeeded
    }
}

/// Decide a fleet-level start from the number of matching resources.
pub fn fleet_start_action(existing: usize) -> (a: FleetStartAction)
    ensures
        a == spec_fleet_start_action(existing as nat),
{
    if existing == 0 {
        FleetStartAction::CreateServer
    } else {
        FleetStartAction::NoneNeeded
    }
}

/// What a fleet-level stop does with one matching resource.
#[derive(Clone, Copy, Debug, PartialEq, Eq, Structural)]
pub enum FleetStopAction {
    /// The resource is running: shut it down gracefully, then delete it.
    ShutdownThenDelete,
    /// The resource is not running: delete it right away.
    DeleteOnly,
}

pub open spec fn spec_fleet_stop_action(state: InstanceState) -> FleetStopAction {
    if state == InstanceState::Running {
        FleetStopAction::ShutdownThenDelete
    } else {
        FleetStopAction::DeleteOnly
    }
}

/// Decide a fleet-level stop for one matching resource from its state.
pub fn fleet_stop_action(state: InstanceState) -> (a: FleetStopAction)
    ensures
        a == spec_fleet_stop_action(state),
{
    if state == InstanceState::Running {
        FleetStopAction::ShutdownThenDelete
    } else {
        FleetStopAction::DeleteOnly
    }
}

/// A fleet-level start on a non-empty fleet is a no-op, not an error.
pub proof fn lemma_fleet_start_idempotent(existing: nat)
    requires
        existing > 0,
    ensures
        spec_fleet_start_action(existing) == FleetStartAction::NoneNeeded,
{
}

/// The name of the service's resource for a configured identifier.
pub fn server_name(id: &str) -> (r: String)
    requires
        id@.len() <= 57,
    ensures
        r@ == "picus-"@ + id@,
        r@.len() <= 63,
{
    proof {
        reveal_strlit("picus-");
    }
    let mut s = String::from_str("picus-");
    s.append(id);
    s
}

/// Whether an identifier keeps the resource name within the 63 characters
/// a resource name may have.
pub fn server_name_fits(id: &str) -> (r: bool)
    ensures
        r == (id@.len() <= 57),
{
    id.unicode_len() <= 57
}

/// The label selector that matches every resource of this service for a
/// configured identifier.
pub fn label_selector(id: &str) -> (r: String)
    ensures
        r@ == "picus=="@ + id@,
{
    let mut s = String::from_str("picus==");
    s.append(id);
    s
}

/// Why agent parameters cannot be selected from an environment.
#[derive(Clone, Copy, Debug, PartialEq, Eq, Structural)]
pub enum AgentParamsError {
    /// The variable naming the CI server is missing.
    MissingServer,
    /// The variable holding the agent secret is missing.
    MissingAgentSecret,
}

/// The agent parameters among a sequence of environment variables: each
/// variable under the agent namespace, with the namespace prefix that is
/// common to agent and service configuration stripped from its name, in
/// order.
pub open spec fn selected_agent_params(vs: Seq<(String, String)>) -> Seq<(Seq<char>, Seq<char>)>
    decreases vs.len(),
{
    if vs.len() == 0 {
        Seq::empty()
    } else {
        let rest = selected_agent_params(vs.drop_last());
        if starts_with(vs.last().0@, "PICUS_AGENT_WOODPECKER_"@) {
            rest.push(
                (
                    vs.last().0@.subrange("PICUS_AGENT_"@.len() as int, vs.last().0@.len() as int),
                    vs.last().1@,
                ),
            )
        } else {
            rest
        }
    }
}

/// Some variable in `vs` has exactly this name.
pub open spec fn has_var(vs: Seq<(String, String)>, name: Seq<char>) -> bool {
    exists|i: int| 0 <= i < vs.len() && vs[i].0@ == name
}

fn find_var(vars: &Vec<(String, String)>, name: &str) -> (r: bool)
    ensures
        r == has_var(vars@, name@),
{
    let n = vars.len();
    let mut i: usize = 0;
    while i < n
        invariant
            n == vars.len(),
            i <= n,
            forall|j: int| 0 <= j < i ==> vars@[j].0@ != name@,
        decreases n - i,
    {
        if str_eq(vars[i].0.as_str(), name) {
            return true;
        }
        i = i + 1;
    }
    false
}

/// Select the agent's parameters from the process environment, handed in as
/// a list of name/value pairs: every variable under the agent namespace is
/// taken, with the configuration prefix stripped from its name, and the two
/// core variables (the CI server and the agent secret) must be present.
pub fn agent_env_params(vars: &Vec<(String, String)>) -> (r: Result<
    Vec<(String, String)>,
    AgentParamsError,
>)
    ensures
        r is Ok <==> has_var(vars@, "PICUS_AGENT_WOODPECKER_SERVER"@) && has_var(
            vars@,
            "PICUS_AGENT_WOODPECKER_AGENT_SECRET"@,
        ),
        r == Err::<Vec<(String, String)>, AgentParamsError>(AgentParamsError::MissingServer)
            <==> !has_var(vars@, "PICUS_AGENT_WOODPECKER_SERVER"@),
        r == Err::<Vec<(String, String)>, AgentParamsError>(AgentParamsError::MissingAgentSecret)
            <==> has_var(vars@, "PICUS_AGENT_WOODPECKER_SERVER"@) && !has_var(
            vars@,
            "PICUS_AGENT_WOODPECKER_AGENT_SECRET"@,
        ),
        r matches Ok(ps) ==> {
            let sel = selected_agent_params(vars@);
            &&& ps@.len() == sel.len()
            &&& forall|i: int| 0 <= i < sel.len() ==> ps@[i].0@ == #[trigger] sel[i].0 && ps@[i].1@
                == sel[i].1
        },
{
    if !find_var(vars, "PICUS_AGENT_WOODPECKER_SERVER") {
        return Err(AgentParamsError::MissingServer);
    }
    if !find_var(vars, "PICUS_AGENT_WOODPECKER_AGENT_SECRET") {
        return Err(AgentParamsError::MissingAgentSecret);
    }
    proof {
        reveal_strlit("PICUS_AGENT_WOODPECKER_");
        reveal_strlit("PICUS_AGENT_");
    }
    let mut params: Vec<(String, String)> = Vec::new();
    let n = vars.len();
    let mut i: usize = 0;
    while i < n
        invariant
            n == vars.len(),
            i <= n,
            "PICUS_AGENT_WOODPECKER_"@.len() == 23,
            "PICUS_AGENT_"@.len() == 12,
            params@.len() == selected_agent_params(vars@.subrange(0, i as int)).len(),
            forall|j: int| 0 <= j < params@.len() ==> params@[j].0@ == #[trigger] selected_agent_params(
                vars@.subrange(0, i as int),
            )[j].0 && params@[j].1@ == selected_agent_params(vars@.subrange(0, i as int))[j].1,
        decreases n - i,
    {
        let ghost prev = vars@.subrange(0, i as int);
        let ghost cur = vars@.subrange(0, i + 1);
        let ghost old_params = params@;
        proof {
            assert(cur.drop_last() =~= prev);
            assert(cur.last() == vars@[i as int]);
        }
        let key = vars[i].0.as_str();
        if str_starts_with(key, "PICUS_AGENT_WOODPECKER_") {
            let key_len = key.unicode_len();
            let stripped = key.substring_char(12, key_len).to_owned();
            let value = vars[i].1.clone();
            params.push((stripped, value));
            proof {
                assert(selected_agent_params(cur) == selected_agent_params(prev).push(
                    (
                        vars@[i as int].0@.subrange(
                            "PICUS_AGENT_"@.len() as int,
                            vars@[i as int].0@.len() as int,
                        ),
                        vars@[i as int].1@,
                    ),
                ));
                assert forall|j: int| 0 <= j < params@.len() implies params@[j].0@
                    == #[trigger] selected_agent_params(cur)[j].0 && params@[j].1@
                    == selected_agent_params(cur)[j].1 by {
                    if j < old_params.len() {
                        assert(old_params[j].0@ == selected_agent_params(prev)[j].0);
                        assert(old_params[j].1@ == selected_agent_params(prev)[j].1);
                    }
                }
            }
        } else {
            proof {
                assert(selected_agent_params(cur) == selected_agent_params(prev));
            }
        }
        i = i + 1;
    }
    proof {
        assert(vars@.subrange(0, n as int) =~= vars@);
    }
    Ok(params)
}

} // verus!
