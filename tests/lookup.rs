use copilot_auth::{first_token, lookup_plan, next_step, token_from_env, Outcome, Platform, Probe, Step};

fn found(s: &str) -> Outcome {
    Outcome::Found(s.to_string())
}

#[test]
fn test_env_var_takes_priority() {
    let env = token_from_env(Some("gho_test_token_123".to_string()));
    let token = first_token(vec![env, found("gho_from_hosts"), Outcome::NotFound, found("gho_cli")]);
    assert_eq!(token, Some("gho_test_token_123".to_string()));
}

#[test]
fn test_empty_env_var_is_skipped() {
    let env = token_from_env(Some("".to_string()));
    assert_eq!(env, Outcome::NotFound);
    let token = first_token(vec![env, Outcome::NotFound, Outcome::Failed, Outcome::NotFound]);
    assert_ne!(token, Some("".to_string()));
    assert_eq!(token, None);
}

#[test]
fn empty_env_var_falls_through_to_files() {
    let env = token_from_env(Some("".to_string()));
    let token = first_token(vec![env, found("gho_file")]);
    assert_eq!(token, Some("gho_file".to_string()));
}

#[test]
fn unset_env_var_is_no_token() {
    assert_eq!(token_from_env(None), Outcome::NotFound);
}

#[test]
fn config_file_wins_over_cli() {
    let outcomes = vec![
        token_from_env(None),
        found("A"),
        Outcome::NotFound,
        Outcome::NotFound,
        found("B"),
    ];
    assert_eq!(first_token(outcomes), Some("A".to_string()));
}

#[test]
fn failures_and_empty_finds_are_skipped() {
    let outcomes = vec![Outcome::Failed, found(""), Outcome::NotFound, found("gho_late")];
    assert_eq!(first_token(outcomes), Some("gho_late".to_string()));
}

#[test]
fn no_sources_no_token() {
    assert_eq!(first_token(vec![]), None);
}

#[test]
fn next_step_moves_on_and_stops() {
    assert_eq!(next_step(4, 0, Outcome::NotFound), Step::Probe(1));
    assert_eq!(next_step(4, 2, Outcome::Failed), Step::Probe(3));
    assert_eq!(next_step(4, 1, found("")), Step::Probe(2));
    assert_eq!(next_step(4, 3, Outcome::NotFound), Step::Done(None));
    assert_eq!(next_step(4, 1, found("tok")), Step::Done(Some("tok".to_string())));
}

#[test]
fn plan_on_linux_with_xdg() {
    let plan = lookup_plan(Some("/xdg".to_string()), Some("/home/u".to_string()), Platform::Other);
    let path = |parts: &[&str]| parts.iter().map(|p| p.to_string()).collect::<Vec<String>>();
    assert_eq!(
        plan,
        vec![
            Probe::EnvVar,
            Probe::ConfigFile(path(&["/xdg", "github-copilot", "hosts.json"])),
            Probe::ConfigFile(path(&["/xdg", "github-copilot", "apps.json"])),
            Probe::GhCli,
        ]
    );
}

#[test]
fn plan_on_macos_with_home() {
    let plan = lookup_plan(None, Some("/Users/u".to_string()), Platform::MacOs);
    let path = |parts: &[&str]| parts.iter().map(|p| p.to_string()).collect::<Vec<String>>();
    assert_eq!(
        plan,
        vec![
            Probe::EnvVar,
            Probe::ConfigFile(path(&["/Users/u", ".config", "github-copilot", "hosts.json"])),
            Probe::ConfigFile(path(&[
                "/Users/u",
                "Library",
                "Application Support",
                "github-copilot",
                "hosts.json",
            ])),
            Probe::ConfigFile(path(&["/Users/u", ".config", "github-copilot", "apps.json"])),
            Probe::ConfigFile(path(&[
                "/Users/u",
                "Library",
                "Application Support",
                "github-copilot",
                "apps.json",
            ])),
            Probe::GhCli,
        ]
    );
}
