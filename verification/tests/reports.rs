use governance::identity::{Completion, Credentials, IdentityCheck, IdentityClass};
use governance::identity::slack_channel_checks;
use governance::model::{
    Contributor, EntityKey, EntityStore, Repo, Team, ValidationError, ValidationWarning,
};
use governance::outcome::{CheckOutcome, Inconclusive};
use governance::report::{
    file_findings, generate_report, insert_error, insert_warning, record_ledger, summarize,
    FileLedger, FileValidationMessages, ValidationStatistics,
};
use governance::validator::validate;

fn key(kind: &str, name: &str) -> EntityKey {
    EntityKey { kind: kind.to_string(), name: name.to_string() }
}

fn contributor(github: &str) -> Contributor {
    Contributor {
        full_name: "Some One".to_string(),
        github_username: github.to_string(),
        slack_member_id: "U1".to_string(),
    }
}

fn team(name: &str, members: &[&str], channels: &[&str]) -> Team {
    Team {
        name: name.to_string(),
        members: members.iter().map(|m| m.to_string()).collect(),
        repos: Vec::new(),
        slack_channel_ids: channels.iter().map(|c| c.to_string()).collect(),
    }
}

fn repo(name: &str) -> Repo {
    Repo { name: name.to_string(), website: None, websites: None, description: None }
}

fn error(file: &str, message: &str) -> ValidationError {
    ValidationError { file: file.to_string(), message: message.to_string() }
}

fn warning(file: &str, message: &str) -> ValidationWarning {
    ValidationWarning { file: file.to_string(), message: message.to_string() }
}

fn stores() -> (EntityStore<Contributor>, EntityStore<Team>, EntityStore<Repo>) {
    let mut contributors = EntityStore::new();
    contributors.insert(key("contributor", "alice"), contributor("alice"));
    contributors.insert(key("contributor", "bob"), contributor("bob"));
    let mut teams = EntityStore::new();
    teams.insert(key("team", "core"), team("core", &["alice", "bob"], &[]));
    let mut repos = EntityStore::new();
    repos.insert(key("repo", "site"), repo("site"));
    (contributors, teams, repos)
}

#[test]
fn errors_and_warnings_are_filed_under_their_path() {
    let mut ledger = FileLedger::new();
    assert_eq!(ledger.len(), 0);
    insert_error(&mut ledger, error("a.toml", "first"));
    insert_warning(&mut ledger, warning("b.toml", "careful"));
    insert_error(&mut ledger, error("a.toml", "second"));
    insert_warning(&mut ledger, warning("a.toml", "hm"));
    assert_eq!(ledger.len(), 2);
    assert_eq!(ledger.find(&"a.toml".to_string()), Some(0));
    assert_eq!(ledger.find(&"b.toml".to_string()), Some(1));
    assert_eq!(ledger.find(&"c.toml".to_string()), None);
    assert_eq!(
        ledger.entries[0].1,
        FileValidationMessages {
            errors: vec![error("a.toml", "first"), error("a.toml", "second")],
            warnings: vec![warning("a.toml", "hm")],
        }
    );
    assert_eq!(
        ledger.entries[1].1,
        FileValidationMessages { errors: vec![], warnings: vec![warning("b.toml", "careful")] }
    );
}

#[test]
fn tracking_a_path_twice_keeps_one_entry() {
    let mut ledger = FileLedger::new();
    ledger.track("a.toml".to_string());
    ledger.track("b.toml".to_string());
    ledger.track("a.toml".to_string());
    assert_eq!(ledger.len(), 2);
    assert_eq!(ledger.entries[0].1, FileValidationMessages::default());
}

#[test]
fn the_ledger_starts_with_one_entry_for_each_record() {
    let (contributors, teams, repos) = stores();
    let ledger = record_ledger(&contributors, &teams, &repos);
    let paths: Vec<&str> = ledger.entries.iter().map(|e| e.0.as_str()).collect();
    assert_eq!(
        paths,
        vec![
            "contributors/alice.toml",
            "contributors/bob.toml",
            "teams/core.toml",
            "repos/site.toml"
        ]
    );
    assert!(ledger.entries.iter().all(|e| e.1 == FileValidationMessages::default()));
}

#[test]
fn summary_counts_files_and_findings() {
    let mut ledger = FileLedger::new();
    ledger.track("clean.toml".to_string());
    file_findings(
        &mut ledger,
        &vec![error("a.toml", "x"), error("b.toml", "y"), error("a.toml", "z")],
        &vec![warning("clean.toml", "w"), warning("c.toml", "v")],
    );
    let report = summarize(3, 2, 1, ledger);
    assert_eq!(
        report.stats,
        ValidationStatistics {
            contributors_count: 3,
            teams_count: 2,
            repos_count: 1,
            valid_files_count: 2,
            invalid_files_count: 2,
            total_errors: 3,
            total_warnings: 2,
        }
    );
    assert!(!report.valid);
    assert_eq!(report.files.len(), 4);
}

#[test]
fn summary_of_an_empty_ledger_is_valid() {
    let report = summarize(0, 0, 0, FileLedger::new());
    assert!(report.valid);
    assert_eq!(report.stats.valid_files_count, 0);
    assert_eq!(report.stats.invalid_files_count, 0);
    assert_eq!(report.stats.total_errors, 0);
    assert_eq!(report.stats.total_warnings, 0);
}

#[test]
fn warnings_alone_leave_the_report_valid() {
    let (contributors, teams, repos) = stores();
    let warnings = vec![
        warning("contributors/alice.toml", "one"),
        warning("contributors/alice.toml", "two"),
        warning("contributors/bob.toml", "three"),
        warning("teams/core.toml", "four"),
        warning("elsewhere.toml", "five"),
    ];
    let report = generate_report(&contributors, &teams, &repos, &Vec::new(), &warnings);
    assert!(report.valid);
    assert_eq!(report.stats.total_errors, 0);
    assert_eq!(report.stats.total_warnings, 5);
    assert_eq!(report.stats.invalid_files_count, 0);
    assert_eq!(report.stats.valid_files_count, 5);
    assert_eq!(report.stats.contributors_count, 2);
    assert_eq!(report.stats.teams_count, 1);
    assert_eq!(report.stats.repos_count, 1);
}

#[test]
fn one_error_makes_the_report_invalid() {
    let (contributors, teams, repos) = stores();
    let errors = vec![error("teams/core.toml", "bad")];
    let report = generate_report(&contributors, &teams, &repos, &errors, &Vec::new());
    assert!(!report.valid);
    assert_eq!(report.stats.total_errors, 1);
    assert_eq!(report.stats.invalid_files_count, 1);
    assert_eq!(report.stats.valid_files_count, 3);
    let at = report.files.find(&"teams/core.toml".to_string()).unwrap();
    assert_eq!(report.files.entries[at].1.errors, errors);
}

#[test]
fn the_order_of_merging_does_not_change_the_counts() {
    let (contributors, teams, repos) = stores();
    let forward = vec![error("a.toml", "1"), error("b.toml", "2"), error("a.toml", "3")];
    let backward = vec![error("a.toml", "3"), error("b.toml", "2"), error("a.toml", "1")];
    let first = generate_report(&contributors, &teams, &repos, &forward, &Vec::new());
    let second = generate_report(&contributors, &teams, &repos, &backward, &Vec::new());
    assert_eq!(first.stats, second.stats);
    assert_eq!(first.valid, second.valid);
}

#[test]
fn a_run_without_findings_is_valid() {
    colored::control::set_override(false);
    let (contributors, teams, repos) = stores();
    let report = validate(&contributors, &teams, &repos, &vec![], &vec![], &vec![]);
    assert!(report.valid);
    assert_eq!(report.stats.total_errors, 0);
    assert_eq!(report.stats.total_warnings, 0);
    assert_eq!(report.stats.valid_files_count, 4);
    assert_eq!(report.stats.invalid_files_count, 0);
}

#[test]
fn a_github_user_that_does_not_exist_fails_the_run() {
    colored::control::set_override(false);
    let mut contributors = EntityStore::new();
    contributors.insert(key("contributor", "ghost404"), contributor("ghost404"));
    let teams: EntityStore<Team> = EntityStore::new();
    let repos: EntityStore<Repo> = EntityStore::new();
    let github = vec![Completion {
        check: IdentityCheck {
            class: IdentityClass::GithubUser,
            file: "contributors/ghost404.toml".to_string(),
            identity: "ghost404".to_string(),
        },
        outcome: CheckOutcome::Absent,
    }];
    let report = validate(&contributors, &teams, &repos, &github, &vec![], &vec![]);
    assert!(!report.valid);
    assert_eq!(report.stats.total_errors, 1);
    assert_eq!(report.stats.invalid_files_count, 1);
    assert_eq!(report.files.len(), 1);
    assert_eq!(report.files.entries[0].0, "contributors/ghost404.toml");
    assert_eq!(
        report.files.entries[0].1.errors,
        vec![error("contributors/ghost404.toml", "GitHub user does not exist: ghost404")]
    );
}

#[test]
fn a_missing_slack_token_does_not_fail_the_run() {
    colored::control::set_override(false);
    let contributors: EntityStore<Contributor> = EntityStore::new();
    let mut teams = EntityStore::new();
    teams.insert(key("team", "core"), team("core", &[], &["C0123"]));
    let repos: EntityStore<Repo> = EntityStore::new();
    let tokens = Credentials { github_token: String::new(), slack_token: String::new() };
    let mut channels = Vec::new();
    for check in slack_channel_checks(&teams) {
        let outcome = match check.plan(&tokens) {
            Err(reason) => CheckOutcome::Unknown(reason),
            Ok(_) => CheckOutcome::Exists,
        };
        channels.push(Completion { check, outcome });
    }
    assert_eq!(channels[0].outcome, CheckOutcome::Unknown(Inconclusive::MissingToken));
    let report = validate(&contributors, &teams, &repos, &vec![], &vec![], &channels);
    assert!(report.valid);
    assert_eq!(report.stats.total_errors, 0);
    assert_eq!(report.stats.total_warnings, 1);
    assert_eq!(report.files.entries[0].1.warnings.len(), 1);
}

#[test]
fn a_run_counts_every_kind_of_violation() {
    colored::control::set_override(false);
    let mut contributors = EntityStore::new();
    contributors.insert(key("contributor", "alice"), contributor("alicia"));
    let mut teams = EntityStore::new();
    teams.insert(key("team", "core"), team("core", &["alice", "bob"], &[]));
    let repos: EntityStore<Repo> = EntityStore::new();
    let github = vec![Completion {
        check: IdentityCheck {
            class: IdentityClass::GithubUser,
            file: "contributors/alice.toml".to_string(),
            identity: "alicia".to_string(),
        },
        outcome: CheckOutcome::Absent,
    }];
    let members = vec![Completion {
        check: IdentityCheck {
            class: IdentityClass::SlackMember,
            file: "contributors/alice.toml".to_string(),
            identity: "U1".to_string(),
        },
        outcome: CheckOutcome::Unknown(Inconclusive::RateLimited),
    }];
    let report = validate(&contributors, &teams, &repos, &github, &members, &vec![]);
    assert!(!report.valid);
    assert_eq!(report.stats.total_errors, 3);
    assert_eq!(report.stats.total_warnings, 1);
    assert_eq!(report.stats.invalid_files_count, 2);
    assert_eq!(report.stats.valid_files_count, 0);
    let at = report.files.find(&"contributors/alice.toml".to_string()).unwrap();
    let messages: Vec<&str> =
        report.files.entries[at].1.errors.iter().map(|e| e.message.as_str()).collect();
    assert_eq!(
        messages,
        vec![
            "Contributor file name 'alice' doesn't match GitHub username 'alicia'",
            "GitHub user does not exist: alicia",
        ]
    );
}
