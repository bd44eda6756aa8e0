use governance::github::check_github_user_exists;
use governance::request::LookupReply;
use governance::identity::{
    absent_text, github_checks, slack_channel_checks, slack_member_checks, unknown_text,
    validate_github_users, validate_slack_ids, Completion, Credentials, IdentityCheck,
    IdentityClass,
};
use governance::model::{
    Contributor, EntityKey, EntityStore, Team, ValidationError, ValidationWarning,
};
use governance::outcome::{CheckOutcome, Inconclusive};
use governance::slack::check_slack_id_exists;

fn answer(status: u16, body: &[u8]) -> LookupReply {
    LookupReply::Answer { status, body: body.to_vec() }
}

fn key(kind: &str, name: &str) -> EntityKey {
    EntityKey { kind: kind.to_string(), name: name.to_string() }
}

fn contributor(github: &str, slack: &str) -> Contributor {
    Contributor {
        full_name: "Some One".to_string(),
        github_username: github.to_string(),
        slack_member_id: slack.to_string(),
    }
}

fn team(name: &str, channels: &[&str]) -> Team {
    Team {
        name: name.to_string(),
        members: Vec::new(),
        repos: Vec::new(),
        slack_channel_ids: channels.iter().map(|c| c.to_string()).collect(),
    }
}

fn check(class: IdentityClass, file: &str, identity: &str) -> IdentityCheck {
    IdentityCheck { class, file: file.to_string(), identity: identity.to_string() }
}

fn done(class: IdentityClass, file: &str, identity: &str, outcome: CheckOutcome) -> Completion {
    Completion { check: check(class, file, identity), outcome }
}

fn error(file: &str, message: &str) -> ValidationError {
    ValidationError { file: file.to_string(), message: message.to_string() }
}

fn warning(file: &str, message: &str) -> ValidationWarning {
    ValidationWarning { file: file.to_string(), message: message.to_string() }
}

fn no_tokens() -> Credentials {
    Credentials { github_token: String::new(), slack_token: String::new() }
}

#[test]
fn each_contributor_gets_one_github_lookup() {
    let mut contributors = EntityStore::new();
    contributors.insert(key("contributor", "alice"), contributor("alicia", "U1"));
    contributors.insert(key("contributor", "bob"), contributor("bob", "U2"));
    assert_eq!(
        github_checks(&contributors),
        vec![
            check(IdentityClass::GithubUser, "contributors/alice.toml", "alicia"),
            check(IdentityClass::GithubUser, "contributors/bob.toml", "bob"),
        ]
    );
    assert_eq!(
        slack_member_checks(&contributors),
        vec![
            check(IdentityClass::SlackMember, "contributors/alice.toml", "U1"),
            check(IdentityClass::SlackMember, "contributors/bob.toml", "U2"),
        ]
    );
}

#[test]
fn each_channel_of_a_team_gets_one_lookup() {
    let mut teams = EntityStore::new();
    teams.insert(key("team", "core"), team("core", &["C1", "G2"]));
    teams.insert(key("team", "idle"), team("idle", &[]));
    teams.insert(key("team", "web"), team("web", &["C3"]));
    assert_eq!(
        slack_channel_checks(&teams),
        vec![
            check(IdentityClass::SlackChannel, "teams/core.toml", "C1"),
            check(IdentityClass::SlackChannel, "teams/core.toml", "G2"),
            check(IdentityClass::SlackChannel, "teams/web.toml", "C3"),
        ]
    );
    let none: EntityStore<Team> = EntityStore::new();
    assert_eq!(slack_channel_checks(&none), vec![]);
}

#[test]
fn a_channel_listed_twice_is_looked_up_once() {
    let mut teams = EntityStore::new();
    teams.insert(key("team", "core"), team("core", &["C1", "G2", "C1", "C1", "G2"]));
    teams.insert(key("team", "web"), team("web", &["C1", "C1"]));
    assert_eq!(
        slack_channel_checks(&teams),
        vec![
            check(IdentityClass::SlackChannel, "teams/core.toml", "C1"),
            check(IdentityClass::SlackChannel, "teams/core.toml", "G2"),
            check(IdentityClass::SlackChannel, "teams/web.toml", "C1"),
        ]
    );
}

#[test]
fn only_slack_answers_in_the_body() {
    assert!(!IdentityClass::GithubUser.answers_in_body());
    assert!(IdentityClass::SlackMember.answers_in_body());
    assert!(IdentityClass::SlackChannel.answers_in_body());
    let github = check(IdentityClass::GithubUser, "contributors/a.toml", "a");
    assert_eq!(github.settle(&answer(200, b"")).outcome, CheckOutcome::Exists);
}

#[test]
fn plans_follow_the_class_of_the_lookup() {
    let tokens = Credentials { github_token: "gh".to_string(), slack_token: "sl".to_string() };
    let github = check(IdentityClass::GithubUser, "contributors/a.toml", "alice")
        .plan(&tokens)
        .unwrap();
    assert_eq!(github.url, "https://api.github.com/users/alice");
    assert_eq!(github.bearer_token, Some("gh".to_string()));
    let member =
        check(IdentityClass::SlackMember, "contributors/a.toml", "U1").plan(&tokens).unwrap();
    assert_eq!(member.url, "https://slack.com/api/users.info");
    assert_eq!(member.query, Some(("user".to_string(), "U1".to_string())));
    assert_eq!(member.bearer_token, Some("sl".to_string()));
    let channel =
        check(IdentityClass::SlackChannel, "teams/t.toml", "C1").plan(&tokens).unwrap();
    assert_eq!(channel.url, "https://slack.com/api/conversations.info");
    let without = check(IdentityClass::GithubUser, "contributors/a.toml", "alice")
        .plan(&no_tokens())
        .unwrap();
    assert_eq!(without.bearer_token, None);
    assert_eq!(
        check(IdentityClass::SlackMember, "contributors/a.toml", "nobody").plan(&tokens),
        Err(Inconclusive::MalformedId("nobody".to_string()))
    );
}

#[test]
fn github_user_that_does_not_exist_is_an_error() {
    colored::control::set_override(false);
    let outcome = check_github_user_exists(&answer(404, b""));
    let completed =
        vec![done(IdentityClass::GithubUser, "contributors/ghost404.toml", "ghost404", outcome)];
    let (errors, warnings) = validate_github_users(&completed);
    assert_eq!(
        errors,
        vec![error("contributors/ghost404.toml", "GitHub user does not exist: ghost404")]
    );
    assert_eq!(warnings, vec![]);
}

#[test]
fn github_lookups_that_settle_nothing_are_warnings() {
    colored::control::set_override(false);
    let completed = vec![
        done(
            IdentityClass::GithubUser,
            "contributors/a.toml",
            "a",
            check_github_user_exists(&answer(403, b"")),
        ),
        done(
            IdentityClass::GithubUser,
            "contributors/b.toml",
            "b",
            check_github_user_exists(&answer(200, b"")),
        ),
        done(
            IdentityClass::GithubUser,
            "contributors/c.toml",
            "c",
            check_github_user_exists(&answer(502, b"")),
        ),
        done(
            IdentityClass::GithubUser,
            "contributors/d.toml",
            "d",
            check_github_user_exists(&LookupReply::Failed("connection reset".to_string())),
        ),
    ];
    let (errors, warnings) = validate_github_users(&completed);
    assert_eq!(errors, vec![]);
    assert_eq!(
        warnings,
        vec![
            warning(
                "contributors/a.toml",
                "Failed to check GitHub user a: Rate limit exceeded or access forbidden"
            ),
            warning("contributors/c.toml", "Failed to check GitHub user c: Unexpected status 502"),
            warning("contributors/d.toml", "Failed to check GitHub user d: connection reset"),
        ]
    );
}

#[test]
fn every_completed_lookup_is_counted_whatever_failed() {
    colored::control::set_override(false);
    let outcomes = vec![
        CheckOutcome::Exists,
        CheckOutcome::Unknown(Inconclusive::Unreachable("down".to_string())),
        CheckOutcome::Absent,
        CheckOutcome::Unknown(Inconclusive::Forbidden),
        CheckOutcome::Exists,
        CheckOutcome::Unknown(Inconclusive::UnexpectedStatus(500)),
        CheckOutcome::Absent,
    ];
    let submitted = outcomes.len();
    let completed: Vec<Completion> = outcomes
        .into_iter()
        .map(|outcome| done(IdentityClass::GithubUser, "contributors/x.toml", "x", outcome))
        .collect();
    let confirmed = completed.iter().filter(|c| c.outcome.is_exists()).count();
    let (errors, warnings) = validate_github_users(&completed);
    assert_eq!(errors.len(), 2);
    assert_eq!(warnings.len(), 3);
    assert_eq!(confirmed + errors.len() + warnings.len(), submitted);
}

#[test]
fn findings_follow_the_order_of_completion() {
    colored::control::set_override(false);
    let forward = vec![
        done(IdentityClass::GithubUser, "contributors/a.toml", "a", CheckOutcome::Absent),
        done(IdentityClass::GithubUser, "contributors/b.toml", "b", CheckOutcome::Absent),
    ];
    let backward = vec![
        done(IdentityClass::GithubUser, "contributors/b.toml", "b", CheckOutcome::Absent),
        done(IdentityClass::GithubUser, "contributors/a.toml", "a", CheckOutcome::Absent),
    ];
    let (first, _) = validate_github_users(&forward);
    let (mut second, _) = validate_github_users(&backward);
    assert_eq!(first[0].file, "contributors/a.toml");
    assert_eq!(second[0].file, "contributors/b.toml");
    second.reverse();
    assert_eq!(first, second);
}

#[test]
fn slack_channel_without_token_is_one_warning() {
    colored::control::set_override(false);
    let mut teams = EntityStore::new();
    teams.insert(key("team", "core"), team("core", &["C0123"]));
    let checks = slack_channel_checks(&teams);
    assert_eq!(checks.len(), 1);
    let mut completed = Vec::new();
    for check in checks {
        let outcome = match check.plan(&no_tokens()) {
            Err(reason) => CheckOutcome::Unknown(reason),
            Ok(_) => panic!("no request can be sent without a token"),
        };
        completed.push(Completion { check, outcome });
    }
    let (errors, warnings) = validate_slack_ids(&Vec::new(), &completed);
    assert_eq!(errors, vec![]);
    assert_eq!(
        warnings,
        vec![warning(
            "teams/core.toml",
            "Failed to check Slack channel ID C0123: SLACK_TOKEN environment variable not set"
        )]
    );
}

#[test]
fn slack_findings_come_members_first_then_channels() {
    colored::control::set_override(false);
    let members = vec![
        done(
            IdentityClass::SlackMember,
            "contributors/a.toml",
            "U1",
            check_slack_id_exists(&answer(200, br#"{"ok":false,"error":"user_not_found"}"#)),
        ),
        done(
            IdentityClass::SlackMember,
            "contributors/b.toml",
            "x9",
            CheckOutcome::Unknown(Inconclusive::MalformedId("x9".to_string())),
        ),
        done(
            IdentityClass::SlackMember,
            "contributors/c.toml",
            "U3",
            check_slack_id_exists(&answer(200, br#"{"ok":true}"#)),
        ),
    ];
    let channels = vec![
        done(
            IdentityClass::SlackChannel,
            "teams/t.toml",
            "C1",
            check_slack_id_exists(&answer(200, br#"{"ok":false,"error":"ratelimited"}"#)),
        ),
        done(
            IdentityClass::SlackChannel,
            "teams/t.toml",
            "C2",
            check_slack_id_exists(&answer(200, br#"{"ok":false,"error":"channel_not_found"}"#)),
        ),
    ];
    let (errors, warnings) = validate_slack_ids(&members, &channels);
    assert_eq!(
        errors,
        vec![
            error("contributors/a.toml", "Slack member ID does not exist: U1"),
            error("teams/t.toml", "Slack channel ID does not exist: C2"),
        ]
    );
    assert_eq!(
        warnings,
        vec![
            warning(
                "contributors/b.toml",
                "Failed to check Slack member ID x9: Invalid Slack ID format: x9"
            ),
            warning("teams/t.toml", "Failed to check Slack channel ID C1: Rate limit exceeded"),
        ]
    );
}

#[test]
fn a_lookup_is_settled_by_its_class() {
    let github = check(IdentityClass::GithubUser, "contributors/a.toml", "a");
    assert_eq!(
        github.settle(&answer(404, br#"{"ok":true}"#)),
        done(IdentityClass::GithubUser, "contributors/a.toml", "a", CheckOutcome::Absent)
    );
    let member = check(IdentityClass::SlackMember, "contributors/a.toml", "U1");
    assert_eq!(
        member.settle(&answer(404, br#"{"ok":true}"#)),
        done(IdentityClass::SlackMember, "contributors/a.toml", "U1", CheckOutcome::Exists)
    );
    let channel = check(IdentityClass::SlackChannel, "teams/t.toml", "C1");
    assert_eq!(
        channel.settle(&LookupReply::Failed("timed out".to_string())).outcome,
        CheckOutcome::Unknown(Inconclusive::Unreachable("timed out".to_string()))
    );
    let skipped = check(IdentityClass::SlackChannel, "teams/t.toml", "C1")
        .skip(Inconclusive::MissingToken);
    assert_eq!(skipped.outcome, CheckOutcome::Unknown(Inconclusive::MissingToken));
    assert_eq!(skipped.check.identity, "C1");
}

#[test]
fn no_lookups_give_no_findings() {
    let (errors, warnings) = validate_github_users(&Vec::new());
    assert_eq!(errors, vec![]);
    assert_eq!(warnings, vec![]);
    let (errors, warnings) = validate_slack_ids(&Vec::new(), &Vec::new());
    assert_eq!(errors, vec![]);
    assert_eq!(warnings, vec![]);
}

#[test]
fn lookup_messages_are_written_round_the_identity_as_it_is_shown() {
    assert_eq!(absent_text(IdentityClass::GithubUser, "<a>"), "GitHub user does not exist: <a>");
    assert_eq!(absent_text(IdentityClass::SlackMember, "U1"), "Slack member ID does not exist: U1");
    assert_eq!(
        absent_text(IdentityClass::SlackChannel, "C1"),
        "Slack channel ID does not exist: C1"
    );
    assert_eq!(
        unknown_text(IdentityClass::GithubUser, "a", "why"),
        "Failed to check GitHub user a: why"
    );
    assert_eq!(
        unknown_text(IdentityClass::SlackMember, "U1", "why"),
        "Failed to check Slack member ID U1: why"
    );
    assert_eq!(
        unknown_text(IdentityClass::SlackChannel, "C1", ""),
        "Failed to check Slack channel ID C1: "
    );
}
