use governance::checks::{validate_cross_references, validate_file_names};
use governance::identity::{
    validate_github_users, validate_slack_ids, Completion, IdentityCheck, IdentityClass,
};
use governance::model::{Contributor, EntityKey, EntityStore, Repo, Team};
use governance::outcome::{CheckOutcome, Inconclusive};

fn key(kind: &str, name: &str) -> EntityKey {
    EntityKey { kind: kind.to_string(), name: name.to_string() }
}

#[test]
fn names_in_errors_are_bold_red_where_colours_are_on() {
    colored::control::set_override(true);
    let mut contributors = EntityStore::new();
    contributors.insert(
        key("contributor", "alice"),
        Contributor {
            full_name: "Alice".to_string(),
            github_username: "alicia".to_string(),
            slack_member_id: "U1".to_string(),
        },
    );
    let teams: EntityStore<Team> = EntityStore::new();
    let repos: EntityStore<Repo> = EntityStore::new();
    let errors = validate_file_names(&contributors, &teams, &repos);
    assert_eq!(errors.len(), 1);
    assert_eq!(errors[0].file, "contributors/alice.toml");
    assert_eq!(
        errors[0].message,
        "Contributor file name '\u{1b}[1;31malice\u{1b}[0m' doesn't match GitHub username '\u{1b}[1;31malicia\u{1b}[0m'"
    );
}

#[test]
fn names_in_reference_errors_are_bold_red_where_colours_are_on() {
    colored::control::set_override(true);
    let contributors: EntityStore<Contributor> = EntityStore::new();
    let mut teams = EntityStore::new();
    teams.insert(
        key("team", "core"),
        Team {
            name: "core".to_string(),
            members: vec!["bob".to_string()],
            repos: Vec::new(),
            slack_channel_ids: Vec::new(),
        },
    );
    let repos: EntityStore<Repo> = EntityStore::new();
    let errors = validate_cross_references(&contributors, &teams, &repos);
    assert_eq!(errors.len(), 1);
    assert_eq!(errors[0].file, "teams/core.toml");
    assert_eq!(
        errors[0].message,
        "Team '\u{1b}[1;31mcore\u{1b}[0m' references non-existent contributor: \u{1b}[1;31mbob\u{1b}[0m"
    );
}

#[test]
fn identities_in_warnings_are_bold_yellow_where_colours_are_on() {
    colored::control::set_override(true);
    let completed = vec![
        Completion {
            check: IdentityCheck {
                class: IdentityClass::GithubUser,
                file: "contributors/a.toml".to_string(),
                identity: "a".to_string(),
            },
            outcome: CheckOutcome::Unknown(Inconclusive::Forbidden),
        },
        Completion {
            check: IdentityCheck {
                class: IdentityClass::GithubUser,
                file: "contributors/b.toml".to_string(),
                identity: "b".to_string(),
            },
            outcome: CheckOutcome::Absent,
        },
    ];
    let (errors, warnings) = validate_github_users(&completed);
    assert_eq!(errors[0].message, "GitHub user does not exist: \u{1b}[1;31mb\u{1b}[0m");
    assert_eq!(
        warnings[0].message,
        "Failed to check GitHub user \u{1b}[1;33ma\u{1b}[0m: Rate limit exceeded or access forbidden"
    );
    let (_, slack_warnings) = validate_slack_ids(&completed, &Vec::new());
    assert_eq!(slack_warnings.len(), 1);
}

#[test]
fn a_name_with_a_reset_sequence_stays_between_the_two_sequences() {
    colored::control::set_override(true);
    let completed = vec![Completion {
        check: IdentityCheck {
            class: IdentityClass::GithubUser,
            file: "contributors/a.toml".to_string(),
            identity: "a\u{1b}[0mb".to_string(),
        },
        outcome: CheckOutcome::Absent,
    }];
    let (errors, _) = validate_github_users(&completed);
    let shown = errors[0].message.strip_prefix("GitHub user does not exist: ").unwrap();
    assert!(shown.starts_with("\u{1b}[1;31m"));
    assert!(shown.ends_with("\u{1b}[0m"));
}

#[test]
fn a_name_with_an_escape_character_alone_is_kept_as_it_is() {
    colored::control::set_override(true);
    let completed = vec![Completion {
        check: IdentityCheck {
            class: IdentityClass::GithubUser,
            file: "contributors/a.toml".to_string(),
            identity: "a\u{1b}[1mb".to_string(),
        },
        outcome: CheckOutcome::Absent,
    }];
    let (errors, _) = validate_github_users(&completed);
    assert_eq!(
        errors[0].message,
        "GitHub user does not exist: \u{1b}[1;31ma\u{1b}[1mb\u{1b}[0m"
    );
}
