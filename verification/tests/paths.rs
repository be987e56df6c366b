use asenix::paths::{
    agent_creds_dir, auth_path, domain_log_path, domain_pack_dir, domains_dir, join_path, log_path, logs_dir,
    next_agent_n, next_agent_n_for_domain, pid_path, workdir_path, cred_file_number, order_by_number,
};

#[test]
fn next_agent_n_returns_1_when_empty() {
    assert_eq!(next_agent_n(false, &[]), 1);
    assert_eq!(next_agent_n(true, &[]), 1);
}

#[test]
fn next_agent_n_increments_past_existing() {
    let files = vec!["agent_1.toml".to_string(), "agent_2.toml".to_string()];
    assert_eq!(next_agent_n(true, &files), 3);
    let gap = vec!["agent_2.toml".to_string(), "agent_1.toml".to_string(), "agent_4.toml".to_string()];
    assert_eq!(next_agent_n(true, &gap), 3);
}

#[test]
fn next_agent_n_for_domain_returns_1_when_empty() {
    assert_eq!(next_agent_n_for_domain(false, "cifar10", &[]), 1);
}

#[test]
fn next_agent_n_for_domain_independent_per_domain() {
    let files = vec!["cifar10_agent_1.toml".to_string(), "agent_1.toml".to_string()];
    assert_eq!(next_agent_n_for_domain(true, "cifar10", &files), 2);
    assert_eq!(next_agent_n_for_domain(true, "mnist", &files), 1);
    assert_eq!(next_agent_n(true, &files), 2);
}

#[test]
fn paths_under_the_data_directory() {
    assert_eq!(join_path("/data", "x"), "/data/x");
    assert_eq!(join_path("/data/", "x"), "/data/x");
    assert_eq!(join_path("", "x"), "x");
    assert_eq!(join_path("/data", "/abs"), "/abs");
    assert_eq!(agent_creds_dir("/d", "host"), "/d/host");
    assert_eq!(logs_dir("/d"), "/d/logs");
    assert_eq!(auth_path("/d"), "/d/auth.toml");
    assert_eq!(log_path("/d", 7), "/d/logs/agent_7.log");
    assert_eq!(domains_dir("/d"), "/d/domains");
    assert_eq!(domain_pack_dir("/d", "bio"), "/d/domains/bio");
    assert_eq!(domain_log_path("/d", "bio", 2, "20250101"), "/d/logs/bio_agent_2_20250101.log");
}

#[test]
fn workdir_path_is_in_tmp() {
    let p = workdir_path("/tmp", "cifar10", 1);
    assert_eq!(p, "/tmp/asenix/cifar10/1");
    assert!(p.starts_with("/tmp"));
    assert_eq!(pid_path("/tmp", "cifar10", 12), "/tmp/asenix/cifar10/12/agent.pid");
}

#[test]
fn credential_file_numbers_and_order() {
    assert_eq!(cred_file_number("agent_3.toml"), Some(3));
    assert_eq!(cred_file_number("agent_x.toml"), Some(0));
    assert_eq!(cred_file_number("agent_.toml"), Some(0));
    assert_eq!(cred_file_number("ml_agent_3.toml"), None);
    assert_eq!(cred_file_number("agent_3.txt"), None);
    assert_eq!(order_by_number(&[3, 1, 2, 1]), vec![1, 3, 2, 0]);
    assert!(order_by_number(&[]).is_empty());
}
