use ensure_hosts_have_env_tags::report::{aggregate, environment_report, Bucket};

fn strings(v: &[&str]) -> Vec<String> {
    v.iter().map(|s| s.to_string()).collect()
}

#[test]
fn aggregate_groups_and_drops_unmatched() {
    let hosts = strings(&["web-prod-1", "db-staging-2", "misc-3"]);
    let report = aggregate(&hosts, &["prod", "staging"]);
    assert_eq!(
        report.buckets,
        vec![
            Bucket { env: "prod".to_string(), hosts: strings(&["web-prod-1"]) },
            Bucket { env: "staging".to_string(), hosts: strings(&["db-staging-2"]) },
        ]
    );
    assert_eq!(report.total(), 2);
    assert_eq!(report.hosts_in("prod"), Some(&strings(&["web-prod-1"])));
    assert_eq!(report.hosts_in("staging"), Some(&strings(&["db-staging-2"])));
    assert_eq!(report.hosts_in("dev"), None);
}

#[test]
fn aggregate_keeps_input_order_within_bucket() {
    let hosts = strings(&["b-prod", "x-staging", "a-prod", "c-prod"]);
    let report = aggregate(&hosts, &["prod", "staging"]);
    assert_eq!(report.hosts_in("prod"), Some(&strings(&["b-prod", "a-prod", "c-prod"])));
    assert_eq!(report.buckets[0].env, "prod");
    assert_eq!(report.buckets[1].env, "staging");
    assert_eq!(report.total(), 4);
}

#[test]
fn aggregate_buckets_in_order_of_first_use() {
    let hosts = strings(&["x-staging", "b-prod"]);
    let report = aggregate(&hosts, &["prod", "staging"]);
    assert_eq!(report.buckets[0].env, "staging");
    assert_eq!(report.buckets[1].env, "prod");
}

#[test]
fn aggregate_keeps_duplicate_hosts() {
    let hosts = strings(&["web-prod-1", "web-prod-1"]);
    let report = aggregate(&hosts, &["prod"]);
    assert_eq!(report.hosts_in("prod"), Some(&strings(&["web-prod-1", "web-prod-1"])));
    assert_eq!(report.total(), 2);
}

#[test]
fn aggregate_places_host_in_one_bucket_only() {
    let hosts = strings(&["api-staging-dev-01"]);
    let report = aggregate(&hosts, &["staging", "dev"]);
    assert_eq!(report.buckets.len(), 1);
    assert_eq!(report.hosts_in("staging"), Some(&strings(&["api-staging-dev-01"])));
    assert_eq!(report.hosts_in("dev"), None);
}

#[test]
fn aggregate_of_no_hosts_is_empty() {
    let hosts: Vec<String> = Vec::new();
    let report = aggregate(&hosts, &["prod"]);
    assert!(report.buckets.is_empty());
    assert_eq!(report.total(), 0);
}

#[test]
fn total_is_sum_of_buckets_and_at_most_hosts() {
    let hosts = strings(&["a-prod", "b-dev", "c", "d-dev", "e-demo", "f"]);
    let report = environment_report(&hosts);
    let sum: usize = report.buckets.iter().map(|b| b.hosts.len()).sum();
    assert_eq!(report.total(), sum);
    assert_eq!(report.total(), 4);
    assert!(report.total() <= hosts.len());
}

#[test]
fn environment_report_uses_fixed_catalog() {
    let hosts = strings(&["web-prod-1", "db-staging-2", "misc-3", "qa-dev-9"]);
    let report = environment_report(&hosts);
    assert_eq!(report.hosts_in("prod"), Some(&strings(&["web-prod-1"])));
    assert_eq!(report.hosts_in("staging"), Some(&strings(&["db-staging-2"])));
    assert_eq!(report.hosts_in("dev"), Some(&strings(&["qa-dev-9"])));
    assert_eq!(report.total(), 3);
}
