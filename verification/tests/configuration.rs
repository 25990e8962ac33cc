use waterleakage::conf::{constant_time_eq, text_eq};
use waterleakage::{ClientConfig, Conf};

fn client(user: &str, port: u16, secret: &str) -> ClientConfig {
    ClientConfig {
        user: user.to_string(),
        port,
        protocol: "tcp".to_string(),
        secret_key: secret.to_string(),
    }
}

fn conf(clients: Vec<ClientConfig>) -> Conf {
    Conf { bind_ip: "127.0.0.1".to_string(), server_port: 9000, client: clients }
}

#[test]
fn constant_time_eq_compares_bytes() {
    assert!(constant_time_eq(b"", b""));
    assert!(constant_time_eq(b"abc", b"abc"));
    assert!(!constant_time_eq(b"abc", b"abd"));
    assert!(!constant_time_eq(b"abc", b"bbc"));
    assert!(!constant_time_eq(b"abc", b"ab"));
    assert!(!constant_time_eq(b"", b"a"));
    assert!(!constant_time_eq(&[0x0f, 0xf0], &[0xf0, 0x0f]));
    assert!(!constant_time_eq(&[1, 0], &[0, 1]));
}

#[test]
fn text_eq_compares_strings() {
    assert!(text_eq("s3cret", "s3cret"));
    assert!(!text_eq("s3cret", "S3cret"));
    assert!(!text_eq("s3cret", "s3cret "));
    assert!(text_eq("", ""));
    assert!(text_eq("клиент", "клиент"));
    assert!(!text_eq("клиент", "клиенты"));
}

#[test]
fn matches_needs_both_name_and_secret() {
    let alice = client("alice", 9100, "s3cret");
    assert!(alice.matches("alice", "s3cret"));
    assert!(!alice.matches("alice", "s3cre"));
    assert!(!alice.matches("alic", "s3cret"));
    assert!(!alice.matches("s3cret", "alice"));
    assert!(!alice.matches("", ""));
}

#[test]
fn find_client_returns_the_first_match() {
    let conf = conf(vec![
        client("alice", 9100, "s3cret"),
        client("bob", 9200, "hunter2"),
        client("alice", 9300, "s3cret"),
        client("alice", 9400, "other"),
    ]);
    assert_eq!(conf.find_client("alice", "s3cret"), Some(0));
    assert_eq!(conf.find_client("bob", "hunter2"), Some(1));
    assert_eq!(conf.find_client("alice", "other"), Some(3));
    assert_eq!(conf.find_client("alice", "hunter2"), None);
    assert_eq!(conf.find_client("carol", "s3cret"), None);
    assert_eq!(conf.find_client("", ""), None);
}

#[test]
fn find_client_in_an_empty_configuration() {
    assert_eq!(conf(Vec::new()).find_client("alice", "s3cret"), None);
}

#[test]
fn unique_users_are_recognised() {
    assert!(conf(Vec::new()).has_unique_users());
    assert!(conf(vec![client("alice", 1, "a")]).has_unique_users());
    assert!(conf(vec![client("alice", 1, "a"), client("bob", 1, "a")]).has_unique_users());
    assert!(!conf(vec![client("alice", 1, "a"), client("alice", 2, "b")]).has_unique_users());
    assert!(!conf(vec![
        client("alice", 1, "a"),
        client("bob", 2, "b"),
        client("carol", 3, "c"),
        client("bob", 4, "d"),
    ])
    .has_unique_users());
}
