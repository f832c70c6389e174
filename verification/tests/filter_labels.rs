use picus::agent::{FilterLabels, Labels};

fn labels_from(pairs: &[(&str, &str)]) -> Labels {
    let mut labels = Labels::new();
    for (k, v) in pairs {
        labels.insert(k.to_string(), v.to_string());
    }
    labels
}

#[test]
fn filter_labels_empty_labels() {
    let fl = FilterLabels::from_string("platform=linux/amd64,backend=docker");
    let workflow_labels = Labels::new();
    assert!(fl.supports(&workflow_labels));
}

#[test]
fn filter_labels_matching_label() {
    let fl = FilterLabels::from_string("platform=linux/amd64,backend=docker");
    let workflow_labels = labels_from(&[("platform", "linux/amd64")]);
    assert!(fl.supports(&workflow_labels));
}

#[test]
fn filter_labels_not_matching_label() {
    let fl = FilterLabels::from_string("platform=linux/amd64,backend=docker");
    let workflow_labels = labels_from(&[("platform", "linux/arm64")]);
    assert!(!fl.supports(&workflow_labels));
}

#[test]
fn filter_labels_wildcard() {
    let fl = FilterLabels::from_string("type=*,platform=linux/amd64,backend=docker");
    let workflow_labels = labels_from(&[("type", "picus")]);
    assert!(fl.supports(&workflow_labels));
}

#[test]
fn filter_labels_empty_workflow_value() {
    let fl = FilterLabels::from_string("type=*,platform=linux/amd64,backend=docker");
    let workflow_labels = labels_from(&[("platform", "")]);
    assert!(fl.supports(&workflow_labels));
}

#[test]
fn filter_labels_woodpecker_internal() {
    let fl = FilterLabels::from_string("type=*,platform=linux/amd64,backend=docker");
    let workflow_labels = labels_from(&[
        ("platform", ""),
        ("woodpecker-ci.org/repo-id", "3"),
        ("woodpecker-ci.org/repo-forge-id", "23949"),
    ]);
    assert!(fl.supports(&workflow_labels));
}

#[test]
fn filter_labels_missing_key_rejected() {
    let fl = FilterLabels::from_string("platform=linux/amd64");
    let workflow_labels = labels_from(&[("backend", "docker")]);
    assert!(!fl.supports(&workflow_labels));
}

#[test]
fn filter_labels_last_entry_wins() {
    let fl = FilterLabels::from_string("platform=linux/arm64,platform=linux/amd64");
    assert!(fl.supports(&labels_from(&[("platform", "linux/amd64")])));
    assert!(!fl.supports(&labels_from(&[("platform", "linux/arm64")])));
}

#[test]
fn filter_labels_value_up_to_second_equals() {
    let fl = FilterLabels::from_string("selector=picus==test");
    assert!(fl.supports(&labels_from(&[("selector", "picus")])));
    assert!(!fl.supports(&labels_from(&[("selector", "picus==test")])));
}

#[test]
fn parse_accepts_well_formed_string() {
    let fl = FilterLabels::parse("platform=linux/amd64,backend=docker");
    assert!(fl.is_some());
    let fl = fl.unwrap();
    assert!(fl.supports(&labels_from(&[("backend", "docker")])));
}

#[test]
fn parse_rejects_entry_without_equals() {
    assert!(FilterLabels::parse("platform").is_none());
    assert!(FilterLabels::parse("platform=linux/amd64,backend").is_none());
    assert!(FilterLabels::parse("").is_none());
}

#[test]
fn labels_insert_replaces_value() {
    let mut labels = Labels::new();
    labels.insert("k".to_string(), "v1".to_string());
    labels.insert("k".to_string(), "v2".to_string());
    let fl = FilterLabels::from_string("k=v2");
    assert!(fl.supports(&labels));
}
