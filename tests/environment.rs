use ensure_hosts_have_env_tags::environment::{classify, environments, hostname_to_env};

#[test]
fn classify_prefers_earlier_catalog_entry() {
    let catalog = ["staging", "dev"];
    assert_eq!(classify("api-staging-dev-01", &catalog), Some("staging"));
}

#[test]
fn classify_order_decides_between_matches() {
    let catalog = ["dev", "staging"];
    assert_eq!(classify("api-staging-dev-01", &catalog), Some("dev"));
}

#[test]
fn classify_without_match_is_none() {
    let catalog = ["prod", "staging"];
    assert_eq!(classify("misc-3", &catalog), None);
    assert_eq!(classify("", &catalog), None);
}

#[test]
fn classify_is_case_sensitive() {
    let catalog = ["prod"];
    assert_eq!(classify("web-PROD-1", &catalog), None);
    assert_eq!(classify("web-prod-1", &catalog), Some("prod"));
}

#[test]
fn classify_with_empty_catalog() {
    let catalog: [&str; 0] = [];
    assert_eq!(classify("web-prod-1", &catalog), None);
}

#[test]
fn classify_is_deterministic() {
    let catalog = ["prod", "demo"];
    let first = classify("demo-prod-7", &catalog);
    let second = classify("demo-prod-7", &catalog);
    assert_eq!(first, second);
    assert_eq!(first, Some("prod"));
}

#[test]
fn fixed_catalog_order() {
    assert_eq!(
        environments(),
        vec!["prod", "demo", "staging", "dev", "end2end", "presales"]
    );
}

#[test]
fn hostname_to_env_uses_fixed_catalog() {
    assert_eq!(hostname_to_env("db-staging-2"), Some("staging"));
    assert_eq!(hostname_to_env("ci-end2end-runner"), Some("end2end"));
    assert_eq!(hostname_to_env("presales-demo-box"), Some("demo"));
    assert_eq!(hostname_to_env("devbox-prod"), Some("prod"));
    assert_eq!(hostname_to_env("laptop"), None);
}
