use optics::cli::{Args, Defaults, FIRST_NODE_ID};

fn base_args() -> Args {
    Args {
        join: None,
        init: true,
        hostname: None,
        listen_addr: "[::1]".to_string(),
        listen_port: 7051,
        work_dir: None,
        data_dir: None,
        s3_endpoint: "https://s3.example.org".to_string(),
        s3_path_style: None,
        s3_bucket: "bucket-1".to_string(),
        s3_secret_key: "SECRET-REDACTED".to_string(),
        s3_access_key_id: "key-id".to_string(),
    }
}

#[test]
fn validate_accepts_init() {
    assert_eq!(base_args().validate(), Ok(()));
}

#[test]
fn validate_accepts_join_address() {
    let mut a = base_args();
    a.init = false;
    a.join = Some("127.0.0.1:7051".to_string());
    assert_eq!(a.validate(), Ok(()));
}

#[test]
fn validate_requires_init_or_join() {
    let mut a = base_args();
    a.init = false;
    assert_eq!(a.validate(), Err("Either 'init' or 'join' should be set."));
}

#[test]
fn validate_rejects_join_without_port() {
    let mut a = base_args();
    a.join = Some("127.0.0.1".to_string());
    assert_eq!(
        a.validate(),
        Err("The 'join' address should be in the format 'IP:PORT'.")
    );
}

#[test]
fn validate_rejects_port_zero() {
    let mut a = base_args();
    a.listen_port = 0;
    assert_eq!(a.validate(), Err("The 'listen_port' should be a non-zero value."));
}

#[test]
fn validate_checks_mode_before_port() {
    let mut a = base_args();
    a.init = false;
    a.listen_port = 0;
    assert_eq!(a.validate(), Err("Either 'init' or 'join' should be set."));
}

#[test]
fn defaults_fill_only_unset_settings() {
    let mut a = base_args();
    a.work_dir = Some("/work".to_string());
    let m = a.missing_defaults();
    assert!(!m.work_dir && m.data_dir && m.hostname);
    a.set_defaults(Defaults {
        work_dir: Some("/tmp/w".to_string()),
        data_dir: Some("/tmp/d".to_string()),
        hostname: Some("node-a".to_string()),
    });
    assert_eq!(a.work_dir.as_deref(), Some("/work"));
    assert_eq!(a.data_dir.as_deref(), Some("/tmp/d"));
    assert_eq!(a.hostname.as_deref(), Some("node-a"));
    assert_eq!(a.listen_port, 7051);
}

#[test]
fn advertised_address_defaults_to_localhost() {
    let mut a = base_args();
    assert_eq!(a.advertised_addr(), "localhost:7051");
    a.hostname = Some("127.0.0.1".to_string());
    a.listen_port = 8051;
    assert_eq!(a.advertised_addr(), "127.0.0.1:8051");
}

#[test]
fn s3_config_path_style_defaults_to_false() {
    let mut a = base_args();
    assert!(!a.s3_config().path_style);
    a.s3_path_style = Some(true);
    let c = a.s3_config();
    assert!(c.path_style);
    assert_eq!(c.bucket, "bucket-1");
    assert_eq!(c.endpoint, "https://s3.example.org");
    assert_eq!(c.access_key_id, "key-id");
}

#[test]
fn start_plan_of_first_node() {
    let mut a = base_args();
    a.hostname = Some("127.0.0.1".to_string());
    a.work_dir = Some("/w".to_string());
    a.data_dir = Some("/d".to_string());
    a.listen_addr = "127.0.0.1".to_string();
    let p = a.start_plan(FIRST_NODE_ID);
    assert!(p.new_cluster);
    assert_eq!(p.node_id, 1);
    assert_eq!(p.advertised_addr, "127.0.0.1:7051");
    assert_eq!(p.listen_endpoint, "127.0.0.1:7051");
    assert_eq!(p.join_leader, None);
    assert_eq!(p.work_dir, "/w");
    assert_eq!(p.data_dir, "/d");
}

#[test]
fn start_plan_of_joining_node() {
    let mut a = base_args();
    a.init = false;
    a.join = Some("127.0.0.1:7051".to_string());
    a.hostname = Some("h2".to_string());
    a.work_dir = Some("/w".to_string());
    a.data_dir = Some("/d".to_string());
    a.listen_port = 9051;
    let p = a.start_plan(4);
    assert!(!p.new_cluster);
    assert_eq!(p.node_id, 4);
    assert_eq!(p.hostname, "h2");
    assert_eq!(p.advertised_addr, "h2:9051");
    assert_eq!(p.listen_endpoint, "[::1]:9051");
    assert_eq!(p.join_leader.as_deref(), Some("127.0.0.1:7051"));
}

#[test]
fn defaults_settle_after_one_call() {
    let mut a = base_args();
    a.set_defaults(Defaults {
        work_dir: Some("/tmp/w".to_string()),
        data_dir: Some("/tmp/d".to_string()),
        hostname: Some("node-a".to_string()),
    });
    let m = a.missing_defaults();
    assert!(!m.work_dir && !m.data_dir && !m.hostname);
    a.set_defaults(Defaults {
        work_dir: Some("/other".to_string()),
        data_dir: None,
        hostname: Some("node-b".to_string()),
    });
    assert_eq!(a.work_dir.as_deref(), Some("/tmp/w"));
    assert_eq!(a.data_dir.as_deref(), Some("/tmp/d"));
    assert_eq!(a.hostname.as_deref(), Some("node-a"));
}
