//! One run of the validation: every check, and the report on what they found.

use vstd::prelude::*;
use crate::checks::{
    dangling_references, file_name_mismatches, reports_danglings, reports_mismatches,
    validate_cross_references, validate_file_names,
};
use crate::identity::{
    collected, completion_views, confirmed_absent, inconclusive, validate_github_users,
    validate_slack_ids, Completion,
};
use crate::model::{
    Contributor, EntityStore, Repo, Team, ValidationError, ValidationWarning,
};
use crate::report::{generate_report, ledger_holds, record_paths, ValidationReport};

verus! {

/// The number of definite violations in the records and the completed
/// lookups: records stored under a name they do not declare, references
/// that lead nowhere, and identities that a service does not know.
pub open spec fn violations(
    contributors: EntityStore<Contributor>,
    teams: EntityStore<Team>,
    repos: EntityStore<Repo>,
    github: Seq<Completion>,
    slack_members: Seq<Completion>,
    slack_channels: Seq<Completion>,
) -> nat {
    file_name_mismatches(contributors@, teams@, repos@).len() + dangling_references(
        contributors.name_set(),
        teams@,
        repos.name_set(),
    ).len() + confirmed_absent(completion_views(github)).len() + confirmed_absent(
        completion_views(slack_members) + completion_views(slack_channels),
    ).len()
}

/// The number of lookups that settled nothing.
pub open spec fn unsettled(
    github: Seq<Completion>,
    slack_members: Seq<Completion>,
    slack_channels: Seq<Completion>,
) -> nat {
    inconclusive(completion_views(github)).len() + inconclusive(
        completion_views(slack_members) + completion_views(slack_channels),
    ).len()
}

/// Whether `errors` and `warnings` are the findings of a run, in the order
/// in which the checks are made: the errors on file names, on references,
/// on GitHub users and on Slack ids, and the warnings on GitHub users and on
/// Slack ids.
pub open spec fn run_findings(
    contributors: EntityStore<Contributor>,
    teams: EntityStore<Team>,
    repos: EntityStore<Repo>,
    github: Seq<Completion>,
    slack_members: Seq<Completion>,
    slack_channels: Seq<Completion>,
    errors: Seq<ValidationError>,
    warnings: Seq<ValidationWarning>,
) -> bool {
    exists|
        of_names: Seq<ValidationError>,
        of_references: Seq<ValidationError>,
        of_github: Seq<ValidationError>,
        of_slack: Seq<ValidationError>,
        github_warnings: Seq<ValidationWarning>,
        slack_warnings: Seq<ValidationWarning>,
    |
        {
            &&& #[trigger] reports_mismatches(
                file_name_mismatches(contributors@, teams@, repos@),
                of_names,
            )
            &&& #[trigger] reports_danglings(
                dangling_references(contributors.name_set(), teams@, repos.name_set()),
                of_references,
            )
            &&& #[trigger] collected(completion_views(github), of_github, github_warnings)
            &&& #[trigger] collected(
                completion_views(slack_members) + completion_views(slack_channels),
                of_slack,
                slack_warnings,
            )
            &&& errors == of_names + of_references + of_github + of_slack
            &&& warnings == github_warnings + slack_warnings
        }
}

/// Runs every check on the records and on the completed lookups and reports
/// what they found. The report counts one error for each violation and one
/// warning for each lookup that settled nothing, and it is valid exactly
/// when there is no violation, whatever the number of warnings.
pub fn validate(
    contributors: &EntityStore<Contributor>,
    teams: &EntityStore<Team>,
    repos: &EntityStore<Repo>,
    github: &Vec<Completion>,
    slack_members: &Vec<Completion>,
    slack_channels: &Vec<Completion>,
) -> (report: ValidationReport)
    ensures
        report.wf(),
        report.stats.contributors_count == contributors@.len(),
        report.stats.teams_count == teams@.len(),
        report.stats.repos_count == repos@.len(),
        report.stats.total_errors == violations(
            *contributors,
            *teams,
            *repos,
            github@,
            slack_members@,
            slack_channels@,
        ),
        report.stats.total_warnings == unsettled(github@, slack_members@, slack_channels@),
        report.valid <==> violations(
            *contributors,
            *teams,
            *repos,
            github@,
            slack_members@,
            slack_channels@,
        ) == 0,
        exists|errors: Seq<ValidationError>, warnings: Seq<ValidationWarning>|
            {
                &&& #[trigger] run_findings(
                    *contributors,
                    *teams,
                    *repos,
                    github@,
                    slack_members@,
                    slack_channels@,
                    errors,
                    warnings,
                )
                &&& ledger_holds(
                    report.files,
                    record_paths(contributors@, teams@, repos@),
                    errors,
                    warnings,
                )
            },
{
    let mut errors = validate_file_names(contributors, teams, repos);
    let mut of_references = validate_cross_references(contributors, teams, repos);
    let (mut of_github, mut warnings) = validate_github_users(github);
    let (mut of_slack, mut slack_warnings) = validate_slack_ids(slack_members, slack_channels);
    let ghost of_names = errors@;
    let ghost references = of_references@;
    let ghost github_errors = of_github@;
    let ghost slack_errors = of_slack@;
    let ghost github_warnings = warnings@;
    let ghost more_warnings = slack_warnings@;
    errors.append(&mut of_references);
    errors.append(&mut of_github);
    errors.append(&mut of_slack);
    warnings.append(&mut slack_warnings);
    let report = generate_report(contributors, teams, repos, &errors, &warnings);
    proof {
        assert(errors@ == of_names + references + github_errors + slack_errors);
        assert(warnings@ == github_warnings + more_warnings);
        assert(run_findings(
            *contributors,
            *teams,
            *repos,
            github@,
            slack_members@,
            slack_channels@,
            errors@,
            warnings@,
        ));
    }
    report
}

} // verus!
