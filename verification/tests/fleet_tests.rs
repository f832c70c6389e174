use picus::fleet::{
    agent_env_params, fleet_start_action, fleet_stop_action, label_selector, server_name,
    server_name_fits, AgentParamsError, FleetStartAction, FleetStopAction,
};
use picus::lifecycle::InstanceState;
use picus::text::split_str;

#[test]
fn fleet_start_only_when_none_exists() {
    assert_eq!(fleet_start_action(0), FleetStartAction::CreateServer);
    assert_eq!(fleet_start_action(1), FleetStartAction::NoneNeeded);
    assert_eq!(fleet_start_action(3), FleetStartAction::NoneNeeded);
}

#[test]
fn fleet_stop_shuts_down_only_running_resources() {
    assert_eq!(fleet_stop_action(InstanceState::Running), FleetStopAction::ShutdownThenDelete);
    assert_eq!(fleet_stop_action(InstanceState::Stopped), FleetStopAction::DeleteOnly);
    assert_eq!(fleet_stop_action(InstanceState::Pending), FleetStopAction::DeleteOnly);
    assert_eq!(fleet_stop_action(InstanceState::Unknown), FleetStopAction::DeleteOnly);
}

#[test]
fn server_name_prefixes_service() {
    assert_eq!(server_name("test"), "picus-test");
}

#[test]
fn label_selector_matches_service_id() {
    assert_eq!(label_selector("test"), "picus==test");
}

#[test]
fn server_name_length_limit() {
    let id_ok = "a".repeat(57);
    assert!(server_name_fits(&id_ok));
    assert_eq!(server_name(&id_ok).len(), 63);
    let id_long = "a".repeat(58);
    assert!(!server_name_fits(&id_long));
}

fn vars(pairs: &[(&str, &str)]) -> Vec<(String, String)> {
    pairs.iter().map(|(k, v)| (k.to_string(), v.to_string())).collect()
}

#[test]
fn agent_env_params_requires_server() {
    let vs = vars(&[("PICUS_AGENT_WOODPECKER_AGENT_SECRET", "SECRET-REDACTED")]);
    assert_eq!(agent_env_params(&vs), Err(AgentParamsError::MissingServer));
}

#[test]
fn agent_env_params_requires_secret() {
    let vs = vars(&[("PICUS_AGENT_WOODPECKER_SERVER", "https://ci.example.org")]);
    assert_eq!(agent_env_params(&vs), Err(AgentParamsError::MissingAgentSecret));
}

#[test]
fn agent_env_params_strips_config_prefix() {
    let vs = vars(&[
        ("PICUS_AGENT_WOODPECKER_SERVER", "https://ci.example.org"),
        ("HOME", "/root"),
        ("PICUS_AGENT_WOODPECKER_AGENT_SECRET", "SECRET-REDACTED"),
        ("PICUS_AGENT_WOODPECKER_MAX_WORKFLOWS", "2"),
        ("PICUS_HCLOUD_TOKEN", "SECRET-REDACTED"),
    ]);
    let params = agent_env_params(&vs).unwrap();
    assert_eq!(
        params,
        vars(&[
            ("WOODPECKER_SERVER", "https://ci.example.org"),
            ("WOODPECKER_AGENT_SECRET", "SECRET-REDACTED"),
            ("WOODPECKER_MAX_WORKFLOWS", "2"),
        ])
    );
}

#[test]
fn split_ssh_keys_on_commas() {
    let keys = split_str("alice,bob,carol", ',');
    assert_eq!(keys, vec!["alice", "bob", "carol"]);
    let one = split_str("alice", ',');
    assert_eq!(one, vec!["alice"]);
}
