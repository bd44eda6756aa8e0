use governance::checks::{
    dangling_text, mismatch_text, record_file, validate_cross_references, validate_file_names,
    RecordKind, ReferenceKind,
};
use governance::model::{Contributor, EntityKey, EntityStore, Repo, Team, ValidationError};

fn key(kind: &str, name: &str) -> EntityKey {
    EntityKey { kind: kind.to_string(), name: name.to_string() }
}

fn contributor(github: &str) -> Contributor {
    Contributor {
        full_name: format!("{} Example", github),
        github_username: github.to_string(),
        slack_member_id: "U0001".to_string(),
    }
}

fn team(name: &str, members: &[&str], repos: &[&str]) -> Team {
    Team {
        name: name.to_string(),
        members: members.iter().map(|m| m.to_string()).collect(),
        repos: repos.iter().map(|r| r.to_string()).collect(),
        slack_channel_ids: Vec::new(),
    }
}

fn repo(name: &str) -> Repo {
    Repo { name: name.to_string(), website: None, websites: None, description: None }
}

fn error(file: &str, message: &str) -> ValidationError {
    ValidationError { file: file.to_string(), message: message.to_string() }
}

#[test]
fn matching_names_give_no_error() {
    colored::control::set_override(false);
    let mut contributors = EntityStore::new();
    contributors.insert(key("contributor", "alice"), contributor("alice"));
    let mut teams = EntityStore::new();
    teams.insert(key("team", "core"), team("core", &["alice"], &["site"]));
    let mut repos = EntityStore::new();
    repos.insert(key("repo", "site"), repo("site"));
    assert_eq!(validate_file_names(&contributors, &teams, &repos), vec![]);
    assert_eq!(validate_cross_references(&contributors, &teams, &repos), vec![]);
}

#[test]
fn contributor_file_name_must_match_github_username() {
    colored::control::set_override(false);
    let mut contributors = EntityStore::new();
    contributors.insert(key("contributor", "alice"), contributor("alicia"));
    let teams: EntityStore<Team> = EntityStore::new();
    let repos: EntityStore<Repo> = EntityStore::new();
    let errors = validate_file_names(&contributors, &teams, &repos);
    assert_eq!(errors.len(), 1);
    assert_eq!(errors[0].file, "contributors/alice.toml");
    assert!(errors[0].message.contains("alice"));
    assert!(errors[0].message.contains("alicia"));
    assert_eq!(
        errors[0].message,
        "Contributor file name 'alice' doesn't match GitHub username 'alicia'"
    );
}

#[test]
fn team_and_repo_file_names_must_match_their_names() {
    colored::control::set_override(false);
    let contributors: EntityStore<Contributor> = EntityStore::new();
    let mut teams = EntityStore::new();
    teams.insert(key("team", "core"), team("kernel", &[], &[]));
    teams.insert(key("team", "web"), team("web", &[], &[]));
    let mut repos = EntityStore::new();
    repos.insert(key("repo", "site"), repo("site"));
    repos.insert(key("repo", "api"), repo("backend"));
    let errors = validate_file_names(&contributors, &teams, &repos);
    assert_eq!(
        errors,
        vec![
            error("teams/core.toml", "Team file name 'core' doesn't match team name 'kernel'"),
            error("repos/api.toml", "Repo file name 'api' doesn't match repo name 'backend'"),
        ]
    );
}

#[test]
fn file_name_errors_come_contributors_first_then_teams_then_repos() {
    colored::control::set_override(false);
    let mut contributors = EntityStore::new();
    contributors.insert(key("contributor", "a"), contributor("b"));
    contributors.insert(key("contributor", "c"), contributor("c"));
    contributors.insert(key("contributor", "d"), contributor("e"));
    let mut teams = EntityStore::new();
    teams.insert(key("team", "t"), team("u", &[], &[]));
    let mut repos = EntityStore::new();
    repos.insert(key("repo", "r"), repo("s"));
    let errors = validate_file_names(&contributors, &teams, &repos);
    let files: Vec<&str> = errors.iter().map(|e| e.file.as_str()).collect();
    assert_eq!(
        files,
        vec!["contributors/a.toml", "contributors/d.toml", "teams/t.toml", "repos/r.toml"]
    );
}

#[test]
fn file_name_check_gives_the_same_errors_when_run_again() {
    colored::control::set_override(false);
    let mut contributors = EntityStore::new();
    contributors.insert(key("contributor", "alice"), contributor("alicia"));
    contributors.insert(key("contributor", "bob"), contributor("bob"));
    let mut teams = EntityStore::new();
    teams.insert(key("team", "core"), team("kernel", &[], &[]));
    let repos: EntityStore<Repo> = EntityStore::new();
    let first = validate_file_names(&contributors, &teams, &repos);
    let second = validate_file_names(&contributors, &teams, &repos);
    assert_eq!(first.len(), 2);
    assert_eq!(first, second);
}

#[test]
fn team_member_without_record_is_reported_once() {
    colored::control::set_override(false);
    let mut contributors = EntityStore::new();
    contributors.insert(key("contributor", "alice"), contributor("alice"));
    let mut teams = EntityStore::new();
    teams.insert(key("team", "core"), team("core", &["alice", "bob"], &[]));
    let repos: EntityStore<Repo> = EntityStore::new();
    let errors = validate_cross_references(&contributors, &teams, &repos);
    assert_eq!(
        errors,
        vec![error("teams/core.toml", "Team 'core' references non-existent contributor: bob")]
    );
}

#[test]
fn team_repo_without_record_is_reported() {
    colored::control::set_override(false);
    let contributors: EntityStore<Contributor> = EntityStore::new();
    let mut teams = EntityStore::new();
    teams.insert(key("team", "core"), team("core", &[], &["site", "ghost"]));
    let mut repos = EntityStore::new();
    repos.insert(key("repo", "site"), repo("site"));
    let errors = validate_cross_references(&contributors, &teams, &repos);
    assert_eq!(
        errors,
        vec![error("teams/core.toml", "Team 'core' references non-existent repo: ghost")]
    );
}

#[test]
fn missing_members_come_before_missing_repos() {
    colored::control::set_override(false);
    let contributors: EntityStore<Contributor> = EntityStore::new();
    let mut teams = EntityStore::new();
    teams.insert(key("team", "one"), team("one", &["x"], &["p"]));
    teams.insert(key("team", "two"), team("two", &["y"], &["q"]));
    let repos: EntityStore<Repo> = EntityStore::new();
    let errors = validate_cross_references(&contributors, &teams, &repos);
    assert_eq!(
        errors,
        vec![
            error("teams/one.toml", "Team 'one' references non-existent contributor: x"),
            error("teams/two.toml", "Team 'two' references non-existent contributor: y"),
            error("teams/one.toml", "Team 'one' references non-existent repo: p"),
            error("teams/two.toml", "Team 'two' references non-existent repo: q"),
        ]
    );
}

#[test]
fn a_member_listed_twice_is_reported_once() {
    colored::control::set_override(false);
    let contributors: EntityStore<Contributor> = EntityStore::new();
    let mut teams = EntityStore::new();
    teams.insert(key("team", "core"), team("core", &["bob", "bob"], &[]));
    let repos: EntityStore<Repo> = EntityStore::new();
    let errors = validate_cross_references(&contributors, &teams, &repos);
    assert_eq!(
        errors,
        vec![error("teams/core.toml", "Team 'core' references non-existent contributor: bob")]
    );
}

#[test]
fn names_listed_again_are_reported_where_they_are_listed_first() {
    colored::control::set_override(false);
    let mut contributors = EntityStore::new();
    contributors.insert(key("contributor", "alice"), contributor("alice"));
    let mut teams = EntityStore::new();
    teams.insert(
        key("team", "core"),
        team("core", &["x", "alice", "y", "x", "alice", "y", "x"], &["p", "p", "q", "p"]),
    );
    teams.insert(key("team", "web"), team("web", &["x"], &["q", "q"]));
    let repos: EntityStore<Repo> = EntityStore::new();
    let errors = validate_cross_references(&contributors, &teams, &repos);
    assert_eq!(
        errors,
        vec![
            error("teams/core.toml", "Team 'core' references non-existent contributor: x"),
            error("teams/core.toml", "Team 'core' references non-existent contributor: y"),
            error("teams/web.toml", "Team 'web' references non-existent contributor: x"),
            error("teams/core.toml", "Team 'core' references non-existent repo: p"),
            error("teams/core.toml", "Team 'core' references non-existent repo: q"),
            error("teams/web.toml", "Team 'web' references non-existent repo: q"),
        ]
    );
}

#[test]
fn a_reference_is_resolved_by_name_whatever_the_kind_of_the_key() {
    colored::control::set_override(false);
    let mut contributors = EntityStore::new();
    contributors.insert(key("person", "alice"), contributor("alice"));
    let mut teams = EntityStore::new();
    teams.insert(key("team", "core"), team("core", &["alice"], &[]));
    let repos: EntityStore<Repo> = EntityStore::new();
    assert_eq!(validate_cross_references(&contributors, &teams, &repos), vec![]);
}

#[test]
fn messages_are_written_round_the_names_as_they_are_shown() {
    assert_eq!(
        mismatch_text(RecordKind::Contributor, "<a>", "<b>"),
        "Contributor file name '<a>' doesn't match GitHub username '<b>'"
    );
    assert_eq!(
        mismatch_text(RecordKind::Team, "a", ""),
        "Team file name 'a' doesn't match team name ''"
    );
    assert_eq!(
        mismatch_text(RecordKind::Repo, "a", "b"),
        "Repo file name 'a' doesn't match repo name 'b'"
    );
    assert_eq!(
        dangling_text(ReferenceKind::Member, "core", "bob"),
        "Team 'core' references non-existent contributor: bob"
    );
    assert_eq!(
        dangling_text(ReferenceKind::Repo, "core", "site"),
        "Team 'core' references non-existent repo: site"
    );
}

#[test]
fn record_files_lie_in_the_directory_of_their_kind() {
    assert_eq!(record_file(RecordKind::Contributor, &key("x", "alice")), "contributors/alice.toml");
    assert_eq!(record_file(RecordKind::Team, &key("x", "core")), "teams/core.toml");
    assert_eq!(record_file(RecordKind::Repo, &key("x", "site")), "repos/site.toml");
}
