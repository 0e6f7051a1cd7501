use copilot_auth::{bearer_header, cli_outcome, cli_trimmed_outcome, status_is_success, Outcome};

#[test]
fn cli_output_is_trimmed() {
    let out = b"  gho_abc123\n".to_vec();
    assert_eq!(cli_outcome(true, &out), Outcome::Found("gho_abc123".to_string()));
}

#[test]
fn cli_failure_is_no_token() {
    let out = b"gho_abc123\n".to_vec();
    assert_eq!(cli_outcome(false, &out), Outcome::NotFound);
}

#[test]
fn cli_blank_output_is_no_token() {
    assert_eq!(cli_outcome(true, &b" \n\t".to_vec()), Outcome::NotFound);
    assert_eq!(cli_outcome(true, &Vec::new()), Outcome::NotFound);
}

#[test]
fn cli_invalid_utf8_is_replaced() {
    let out = vec![b'a', 0xff, b'b', b'\n'];
    assert_eq!(cli_outcome(true, &out), Outcome::Found("a\u{fffd}b".to_string()));
}

#[test]
fn cli_trimmed_text_decides() {
    assert_eq!(cli_trimmed_outcome(true, "tok".to_string()), Outcome::Found("tok".to_string()));
    assert_eq!(cli_trimmed_outcome(true, String::new()), Outcome::NotFound);
    assert_eq!(cli_trimmed_outcome(false, "tok".to_string()), Outcome::NotFound);
}

#[test]
fn validator_statuses() {
    assert!(status_is_success(200));
    assert!(status_is_success(204));
    assert!(status_is_success(299));
    assert!(!status_is_success(401));
    assert!(!status_is_success(199));
    assert!(!status_is_success(300));
    assert!(!status_is_success(500));
}

#[test]
fn bearer_header_value() {
    assert_eq!(bearer_header("gho_x"), "Bearer gho_x");
}
