use apparmor_policy::{evaluate, get_apparmor_profiles, validate, Pod, Settings};

const APPARMOR_KEY_APP: &str = "container.apparmor.security.beta.kubernetes.io/app";
const APPARMOR_KEY_SIDECAR: &str = "container.apparmor.security.beta.kubernetes.io/sidecar";

fn settings_from(conf: &str) -> Settings {
    Settings { allowed_profiles: conf.split(',').map(String::from).collect() }
}

fn pod_with(annotations: Vec<(&str, &str)>) -> Pod {
    Pod {
        annotations: Some(
            annotations.into_iter().map(|(k, v)| (k.to_string(), v.to_string())).collect(),
        ),
    }
}

/// A Pod whose annotations request no AppArmor profile.
fn pod_without_apparmor_profile() -> Pod {
    pod_with(vec![("kubernetes.io/psp", "default")])
}

/// A Pod requesting a custom AppArmor profile for one container.
fn pod_with_custom_apparmor_profile() -> Pod {
    pod_with(vec![
        ("kubernetes.io/psp", "default"),
        (APPARMOR_KEY_APP, "localhost/cognac-cointreau-lemon"),
    ])
}

#[test]
fn no_apparmor_profile() {
    let pod = pod_without_apparmor_profile();

    // Accept request when allowed_profiles is empty
    let decision = validate(&settings_from(""), &pod);
    assert!(decision.is_accepted());

    // Accept request when allowed_profiles is not empty
    let decision = validate(&settings_from("localhost/special-profile"), &pod);
    assert!(decision.is_accepted());
}

#[test]
fn not_allowed_apparmor_profile() {
    let pod = pod_with_custom_apparmor_profile();

    // Reject because allowed_profiles is empty
    let decision = validate(&settings_from(""), &pod);
    assert!(!decision.is_accepted());

    // Reject because not all the profiles are allowed
    let decision = validate(&settings_from("runtime/default"), &pod);
    assert!(!decision.is_accepted());
}

#[test]
fn allowed_apparmor_profile() {
    let pod = pod_with_custom_apparmor_profile();

    // Accept
    let decision = validate(
        &settings_from(
            "runtime/default,localhost/cognac-cointreau-lemon,localhost/another-profile",
        ),
        &pod,
    );
    assert!(decision.is_accepted());
}

#[test]
fn rejection_message_names_the_disallowed_profile() {
    let pod = pod_with_custom_apparmor_profile();
    let decision = validate(&Settings { allowed_profiles: Vec::new() }, &pod);
    assert!(!decision.is_accepted());
    assert_eq!(
        decision.message().unwrap().as_str(),
        "These AppArmor profiles are not allowed: [\"localhost/cognac-cointreau-lemon\"]"
    );
}

#[test]
fn rejection_message_enumerates_every_disallowed_profile() {
    let pod = pod_with(vec![
        (APPARMOR_KEY_APP, "localhost/first"),
        (APPARMOR_KEY_SIDECAR, "localhost/second"),
    ]);
    let decision = validate(&settings_from("runtime/default"), &pod);
    assert!(!decision.is_accepted());
    assert_eq!(
        decision.message().unwrap().as_str(),
        "These AppArmor profiles are not allowed: [\"localhost/first\", \"localhost/second\"]"
    );
}

#[test]
fn duplicate_profiles_collapse_to_one_entry() {
    // Two containers annotated with the same profile value: the disallowed
    // set has a single element.
    let pod = pod_with(vec![
        (APPARMOR_KEY_APP, "runtime/default"),
        (APPARMOR_KEY_SIDECAR, "runtime/default"),
    ]);

    let profiles = get_apparmor_profiles(&pod);
    assert_eq!(profiles, vec!["runtime/default".to_string()]);

    let decision = validate(&Settings { allowed_profiles: Vec::new() }, &pod);
    assert!(!decision.is_accepted());
    assert_eq!(
        decision.message().unwrap().as_str(),
        "These AppArmor profiles are not allowed: [\"runtime/default\"]"
    );
}

#[test]
fn extractor_filters_by_prefix_and_keeps_values() {
    let pod = pod_with(vec![
        ("kubernetes.io/psp", "default"),
        (APPARMOR_KEY_APP, "localhost/one"),
        ("container.apparmor.security.beta.kubernetes", "not-a-profile"),
        (APPARMOR_KEY_SIDECAR, "localhost/two"),
    ]);
    let profiles = get_apparmor_profiles(&pod);
    assert_eq!(profiles, vec!["localhost/one".to_string(), "localhost/two".to_string()]);
}

#[test]
fn absent_annotations_extract_nothing() {
    let pod = Pod { annotations: None };
    assert!(get_apparmor_profiles(&pod).is_empty());
    let decision = validate(&Settings { allowed_profiles: Vec::new() }, &pod);
    assert!(decision.is_accepted());
    assert!(decision.message().is_none());
}

#[test]
fn equal_sets_are_accepted() {
    // The extracted set equals the allow-list: nothing is disallowed.
    let pod = pod_with(vec![(APPARMOR_KEY_APP, "runtime/default")]);
    let decision = evaluate(&settings_from("runtime/default"), &get_apparmor_profiles(&pod));
    assert!(decision.is_accepted());
}

#[test]
fn evaluation_is_deterministic() {
    let pod = pod_with(vec![(APPARMOR_KEY_APP, "localhost/one")]);
    let settings = settings_from("runtime/default");
    let first = validate(&settings, &pod);
    let second = validate(&settings, &pod);
    assert_eq!(first.is_accepted(), second.is_accepted());
    assert_eq!(first.message(), second.message());
}

#[test]
fn settings_default_to_empty_allow_list() {
    let settings = Settings::default();
    assert!(settings.allowed_profiles.is_empty());
    assert!(settings.validate().is_ok());
}

#[test]
fn absent_allowed_profiles_key_parses_to_empty_set() {
    // A configuration document without the `allowed_profiles` key is valid
    // and means the empty allow-list.
    let raw: std::collections::HashMap<String, Vec<String>> =
        serde_json::from_str("{}").unwrap();
    let settings = Settings::from_allowed_profiles(raw.get("allowed_profiles").cloned());
    assert!(settings.allowed_profiles.is_empty());
    assert!(settings.validate().is_ok());

    let raw: std::collections::HashMap<String, Vec<String>> =
        serde_json::from_str("{\"allowed_profiles\": [\"runtime/default\"]}").unwrap();
    let settings = Settings::from_allowed_profiles(raw.get("allowed_profiles").cloned());
    assert_eq!(settings.allowed_profiles, vec!["runtime/default".to_string()]);
    assert!(settings.validate().is_ok());
}

#[test]
fn empty_allow_list_is_valid() {
    assert!(settings_from("").validate().is_ok());
    assert!(Settings { allowed_profiles: Vec::new() }.validate().is_ok());
}
