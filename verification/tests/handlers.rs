use tokenserver::error::TokenserverError;
use tokenserver::handlers::{
    api_endpoint, assemble_result, can_answer, get_tokenserver_result, heartbeat,
    make_token_plaintext, user_email, NodeAssignment, Secrets, TokenserverRequest,
};
use tokenserver::tokenlib::{derive_secret, verify_token};

const NOW: u64 = 1_600_000_000;

fn request() -> TokenserverRequest {
    TokenserverRequest { fxa_uid: String::from("abc123"), generation: 9, duration: 3600 }
}

fn assignment() -> NodeAssignment {
    NodeAssignment {
        node: String::from("https://node7.example"),
        uid: 42,
        client_state: vec![0x01, 0x02],
        keys_changed_at: None,
    }
}

fn secrets() -> Secrets {
    Secrets {
        master_secret: b"master-secret".to_vec(),
        fxa_metrics_hash_secret: b"metrics-key".to_vec(),
    }
}

fn is_lower_hex(text: &str) -> bool {
    text.chars().all(|c| c.is_ascii_digit() || ('a'..='f').contains(&c))
}

fn entries(report: &[(String, String)]) -> Vec<(&str, &str)> {
    report.iter().map(|(name, value)| (name.as_str(), value.as_str())).collect()
}

#[test]
fn end_to_end_scenario() {
    assert_eq!(user_email("abc123", "example.com"), "abc123@example.com");
    assert!(can_answer(&request(), Some(&assignment()), Some(NOW)));
    let result =
        get_tokenserver_result(&request(), Some(&assignment()), &secrets(), Some(NOW)).unwrap();
    assert_eq!(result.uid, 42);
    assert_eq!(result.api_endpoint, "https://node7.example/1.5/42");
    assert_eq!(result.duration, 3600);
    assert_eq!(result.hashed_fxa_uid.len(), 32);
    assert!(is_lower_hex(&result.hashed_fxa_uid));
    assert!(!result.id.is_empty());
    assert!(!result.key.is_empty());
    assert_ne!(result.id, result.key);
    assert_ne!(result.id.as_bytes(), secrets().master_secret.as_slice());
    assert_ne!(result.key.as_bytes(), secrets().master_secret.as_slice());
    assert!(!result.id.contains("master-secret"));
    assert!(!result.hashed_fxa_uid.contains("abc123"));
}

#[test]
fn end_to_end_exact_values() {
    let result =
        get_tokenserver_result(&request(), Some(&assignment()), &secrets(), Some(NOW)).unwrap();
    assert_eq!(result.hashed_fxa_uid, "535d8afa9be18d56261f3c6d8494a27d");
    assert_eq!(
        result.id,
        "000000000000001568747470733a2f2f6e6f6465372e6578616d706c65\
         0000000000000011303030303030303030303030392d415149\
         0000000000000006616263313233\
         00000000000000206262363235663631643461313930306231396239623763343632636164316532\
         00000000000000203533356438616661396265313864353632363166336336643834393461323764\
         000000005f5e1e10000000000000002a\
         6b2e14ccf9333f76781e54e9569a2f09e7a414ec9305ad0c82a62c8774808744"
    );
    assert_eq!(
        result.key,
        "70c8e1d94068d5589008df854b34d86a64cdc5967d60b08e05c5979faa5a5ab2"
    );
}

#[test]
fn result_can_be_checked_by_a_node() {
    let result =
        get_tokenserver_result(&request(), Some(&assignment()), &secrets(), Some(NOW)).unwrap();
    assert!(verify_token(&result.id, b"master-secret"));
    assert_eq!(derive_secret(&result.id, b"master-secret").unwrap(), result.key);
}

#[test]
fn result_is_the_same_for_the_same_inputs() {
    let first = get_tokenserver_result(&request(), Some(&assignment()), &secrets(), Some(NOW));
    let second = get_tokenserver_result(&request(), Some(&assignment()), &secrets(), Some(NOW));
    let first = first.unwrap();
    let second = second.unwrap();
    assert_eq!(first.id, second.id);
    assert_eq!(first.key, second.key);
    assert_eq!(first.api_endpoint, second.api_endpoint);
}

#[test]
fn missing_assignment_is_not_found() {
    let out = get_tokenserver_result(&request(), None, &secrets(), Some(NOW));
    assert_eq!(out.err(), Some(TokenserverError::LookupNotFound));
    let out = get_tokenserver_result(&request(), None, &secrets(), None);
    assert_eq!(out.err(), Some(TokenserverError::LookupNotFound));
}

#[test]
fn missing_clock_is_an_error() {
    let out = get_tokenserver_result(&request(), Some(&assignment()), &secrets(), None);
    assert_eq!(out.err(), Some(TokenserverError::ClockUnavailable));
}

#[test]
fn empty_master_secret_is_a_configuration_error() {
    let mut keys = secrets();
    keys.master_secret = Vec::new();
    let out = get_tokenserver_result(&request(), Some(&assignment()), &keys, Some(NOW));
    assert_eq!(out.err(), Some(TokenserverError::Configuration));
}

#[test]
fn plaintext_has_expiry_of_now_plus_duration() {
    let plaintext =
        make_token_plaintext(&request(), Some(&assignment()), b"metrics-key", Some(NOW)).unwrap();
    assert_eq!(plaintext.expires, NOW + 3600);
    let mut long = request();
    long.duration = 0;
    let plaintext =
        make_token_plaintext(&long, Some(&assignment()), b"metrics-key", Some(NOW)).unwrap();
    assert_eq!(plaintext.expires, NOW);
    long.duration = u64::MAX - NOW;
    let plaintext =
        make_token_plaintext(&long, Some(&assignment()), b"metrics-key", Some(NOW)).unwrap();
    assert_eq!(plaintext.expires, u64::MAX);
}

#[test]
fn plaintext_has_all_seven_fields() {
    let plaintext =
        make_token_plaintext(&request(), Some(&assignment()), b"metrics-key", Some(NOW)).unwrap();
    assert_eq!(plaintext.node, "https://node7.example");
    assert_eq!(plaintext.fxa_kid, "0000000000009-AQI");
    assert_eq!(plaintext.fxa_uid, "abc123");
    assert_eq!(plaintext.hashed_device_id, "bb625f61d4a1900b19b9b7c462cad1e2");
    assert_eq!(plaintext.hashed_fxa_uid, "535d8afa9be18d56261f3c6d8494a27d");
    assert_eq!(plaintext.expires, 1_600_003_600);
    assert_eq!(plaintext.uid, 42);
}

#[test]
fn plaintext_key_id_takes_the_later_epoch() {
    let mut assigned = assignment();
    let mut asked = request();
    assigned.keys_changed_at = Some(5);
    asked.generation = 3;
    let plaintext =
        make_token_plaintext(&asked, Some(&assigned), b"metrics-key", Some(NOW)).unwrap();
    assert_eq!(plaintext.fxa_kid, "0000000000005-AQI");
    assigned.keys_changed_at = Some(2);
    asked.generation = 7;
    let plaintext =
        make_token_plaintext(&asked, Some(&assigned), b"metrics-key", Some(NOW)).unwrap();
    assert_eq!(plaintext.fxa_kid, "0000000000007-AQI");
}

#[test]
fn plaintext_errors_in_order() {
    let out = make_token_plaintext(&request(), None, b"metrics-key", None);
    assert_eq!(out.err(), Some(TokenserverError::LookupNotFound));
    let out = make_token_plaintext(&request(), Some(&assignment()), b"metrics-key", None);
    assert_eq!(out.err(), Some(TokenserverError::ClockUnavailable));
}

#[test]
fn can_answer_tests_the_limits() {
    assert!(can_answer(&request(), Some(&assignment()), Some(NOW)));
    assert!(can_answer(&request(), None, None));
    let mut long = request();
    long.duration = u64::MAX - NOW;
    assert!(can_answer(&long, Some(&assignment()), Some(NOW)));
    long.duration = u64::MAX - NOW + 1;
    assert!(!can_answer(&long, Some(&assignment()), Some(NOW)));
    assert!(can_answer(&long, Some(&assignment()), None));
    long.duration = u64::MAX;
    assert!(!can_answer(&long, Some(&assignment()), Some(1)));
    assert!(can_answer(&long, Some(&assignment()), Some(0)));
}

#[test]
fn user_email_joins_with_at_sign() {
    assert_eq!(user_email("abc123", "example.com"), "abc123@example.com");
    assert_eq!(user_email("", ""), "@");
}

#[test]
fn api_endpoint_has_node_version_and_uid() {
    assert_eq!(api_endpoint("https://node7.example", 42), "https://node7.example/1.5/42");
    assert_eq!(api_endpoint("", 0), "/1.5/0");
    assert_eq!(api_endpoint("http://n", -7), "http://n/1.5/-7");
    assert_eq!(
        api_endpoint("n", i64::MIN),
        "n/1.5/-9223372036854775808"
    );
}

#[test]
fn assemble_result_fills_every_field() {
    let result = assemble_result(
        String::from("token"),
        String::from("key"),
        "https://node7.example",
        42,
        300,
        String::from("hashed"),
    );
    assert_eq!(result.id, "token");
    assert_eq!(result.key, "key");
    assert_eq!(result.uid, 42);
    assert_eq!(result.api_endpoint, "https://node7.example/1.5/42");
    assert_eq!(result.duration, 300);
    assert_eq!(result.hashed_fxa_uid, "hashed");
}

#[test]
fn heartbeat_when_check_passes() {
    let report = heartbeat("0.8.1", Some(true));
    assert_eq!(report.status_code, 200);
    assert_eq!(
        entries(&report.checklist),
        vec![("version", "0.8.1"), ("database", "Ok"), ("status", "Ok")]
    );
}

#[test]
fn heartbeat_when_check_fails() {
    let report = heartbeat("0.8.1", Some(false));
    assert_eq!(report.status_code, 200);
    assert_eq!(
        entries(&report.checklist),
        vec![
            ("version", "0.8.1"),
            ("database", "Err"),
            ("database_msg", "check failed without error"),
            ("status", "Err"),
        ]
    );
}

#[test]
fn heartbeat_when_check_errors() {
    let report = heartbeat("0.8.1", None);
    assert_eq!(report.status_code, 503);
    assert_eq!(
        entries(&report.checklist),
        vec![("version", "0.8.1"), ("status", "Err"), ("database", "Unknown")]
    );
}
