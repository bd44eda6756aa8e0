//! The checks of identities at GitHub and Slack: which lookups the records
//! call for, and what their outcomes add to the findings.
//!
//! The lookups themselves are sent by the caller, all at once and each only
//! once. They complete in no particular order, and whatever comes of one is
//! an outcome: nothing that happens to one lookup keeps another from being
//! counted.

use vstd::prelude::*;
use crate::github::{
    check_github_user_exists, github_lookup, github_reply_outcome, github_request,
};
use crate::lists::{distinct, distinct_texts, lemma_distinct, occurrences};
use crate::model::{
    contributor_file, contributor_path, team_file, team_path, Contributor, EntityKey, EntityStore,
    Team, ValidationError, ValidationWarning,
};
use crate::outcome::{reason_text, CheckOutcome, Inconclusive, Outcome, Reason};
use crate::request::{HttpRequest, LookupReply, RequestView};
use crate::slack::{
    check_slack_id_exists, plan_view, slack_plan, slack_reply_meaning, slack_request,
};
use crate::style::{bold_red, bold_yellow, shows_as_error, shows_as_warning};
use crate::text::{join2, join4, texts};

verus! {

/// The three classes of identity that are looked up.
#[derive(Clone, Copy, Debug, PartialEq, Eq, Structural)]
pub enum IdentityClass {
    GithubUser,
    SlackMember,
    SlackChannel,
}

impl IdentityClass {
    /// Whether a service says in the body of its answer what came of a
    /// lookup of this class. GitHub says it by the status alone, so the body
    /// of its answer need not be read.
    pub fn answers_in_body(self) -> (yes: bool)
        ensures
            yes == (self != IdentityClass::GithubUser),
    {
        match self {
            IdentityClass::GithubUser => false,
            _ => true,
        }
    }
}

/// One lookup as plain values.
pub struct CheckView {
    pub class: IdentityClass,
    pub file: Seq<char>,
    pub identity: Seq<char>,
}

/// One lookup that the records call for: the identity to look up, its class,
/// and the file that names it.
#[derive(Debug, PartialEq, Eq)]
pub struct IdentityCheck {
    pub class: IdentityClass,
    pub file: String,
    pub identity: String,
}

impl View for IdentityCheck {
    type V = CheckView;

    open spec fn view(&self) -> CheckView {
        CheckView { class: self.class, file: self.file@, identity: self.identity@ }
    }
}

/// The tokens with which the lookups are sent. An empty text stands for no
/// token.
#[derive(Debug)]
pub struct Credentials {
    pub github_token: String,
    pub slack_token: String,
}

/// What to do about a lookup: the request to send, or the reason for which
/// it is settled as unknown without one.
pub open spec fn lookup_plan(check: CheckView, github_token: Seq<char>, slack_token: Seq<char>) -> Result<
    RequestView,
    Reason,
> {
    match check.class {
        IdentityClass::GithubUser => Ok(github_lookup(check.identity, github_token)),
        _ => slack_plan(check.identity, slack_token),
    }
}

impl IdentityCheck {
    /// Decides what to do about the lookup. A GitHub user is asked for with
    /// or without a token; a Slack identity only with a token and only if its
    /// first character selects a lookup.
    pub fn plan(&self, credentials: &Credentials) -> (plan: Result<HttpRequest, Inconclusive>)
        ensures
            plan_view(plan) == lookup_plan(
                self@,
                credentials.github_token@,
                credentials.slack_token@,
            ),
    {
        match self.class {
            IdentityClass::GithubUser => Ok(
                github_request(self.identity.as_str(), credentials.github_token.as_str()),
            ),
            _ => slack_request(self.identity.as_str(), credentials.slack_token.as_str()),
        }
    }
}

/// The lookup of one contributor's identity of class `class`.
pub open spec fn contributor_check(class: IdentityClass, entry: (EntityKey, Contributor)) -> CheckView {
    CheckView {
        class,
        file: contributor_path(entry.0.name@),
        identity: match class {
            IdentityClass::GithubUser => entry.1.github_username@,
            _ => entry.1.slack_member_id@,
        },
    }
}

/// The lookups of class `class` for all contributors, one each, in the order
/// of the store.
pub open spec fn contributor_checks(class: IdentityClass, contributors: Seq<(EntityKey, Contributor)>) -> Seq<
    CheckView,
> {
    Seq::new(contributors.len(), |i: int| contributor_check(class, contributors[i]))
}

/// The channel ids of a team. What a team lists is a set: an id that it
/// lists more than once is one channel, and stands where it is listed first.
pub open spec fn channels_of(team: Team) -> Seq<Seq<char>> {
    distinct(texts(team.slack_channel_ids@))
}

/// The lookup of the channel `id` that the file `file` names.
pub open spec fn channel_check(file: Seq<char>, id: Seq<char>) -> CheckView {
    CheckView { class: IdentityClass::SlackChannel, file, identity: id }
}

/// One lookup for each of `ids`, in order.
pub open spec fn channel_lookups(file: Seq<char>, ids: Seq<Seq<char>>) -> Seq<CheckView> {
    Seq::new(ids.len(), |j: int| channel_check(file, ids[j]))
}

/// The lookups for the channels of one team: one for each id it lists, in
/// the order in which it lists them first.
pub open spec fn team_channel_checks(entry: (EntityKey, Team)) -> Seq<CheckView> {
    channel_lookups(team_path(entry.0.name@), channels_of(entry.1))
}

proof fn lemma_occurrences_lookups(file: Seq<char>, ids: Seq<Seq<char>>, id: Seq<char>)
    ensures
        occurrences(channel_lookups(file, ids), channel_check(file, id)) == occurrences(ids, id),
    decreases ids.len(),
{
    if ids.len() > 0 {
        assert(channel_lookups(file, ids).drop_last() =~= channel_lookups(file, ids.drop_last()));
        lemma_occurrences_lookups(file, ids.drop_last(), id);
    }
}

/// A team's channel is looked up once, however often the team lists its id,
/// and an id that the team does not list is not looked up for it.
pub proof fn lemma_channel_looked_up_once(entry: (EntityKey, Team), id: Seq<char>)
    ensures
        occurrences(team_channel_checks(entry), channel_check(team_path(entry.0.name@), id))
            == if texts(entry.1.slack_channel_ids@).contains(id) {
            1nat
        } else {
            0nat
        },
{
    lemma_occurrences_lookups(team_path(entry.0.name@), channels_of(entry.1), id);
    lemma_distinct(texts(entry.1.slack_channel_ids@), id);
}

/// The lookups for the channels of all teams, team by team.
pub open spec fn channel_checks(teams: Seq<(EntityKey, Team)>) -> Seq<CheckView>
    decreases teams.len(),
{
    if teams.len() == 0 {
        Seq::empty()
    } else {
        channel_checks(teams.drop_last()) + team_channel_checks(teams.last())
    }
}

/// The plain values of a list of lookups.
pub open spec fn check_views(checks: Seq<IdentityCheck>) -> Seq<CheckView> {
    Seq::new(checks.len(), |i: int| checks[i]@)
}

fn checks_of_contributors(class: IdentityClass, contributors: &EntityStore<Contributor>) -> (checks:
    Vec<IdentityCheck>)
    ensures
        check_views(checks@) == contributor_checks(class, contributors@),
        checks@.len() == contributors@.len(),
{
    let mut checks: Vec<IdentityCheck> = Vec::new();
    let mut i: usize = 0;
    while i < contributors.entries.len()
        invariant
            i <= contributors@.len(),
            checks@.len() == i,
            forall|k: int|
                0 <= k < i ==> (#[trigger] checks@[k])@ == contributor_check(
                    class,
                    contributors@[k],
                ),
        decreases contributors@.len() - i,
    {
        let entry = &contributors.entries[i];
        let identity = match class {
            IdentityClass::GithubUser => entry.1.github_username.clone(),
            _ => entry.1.slack_member_id.clone(),
        };
        checks.push(IdentityCheck { class, file: contributor_file(&entry.0), identity });
        i += 1;
    }
    assert(check_views(checks@) =~= contributor_checks(class, contributors@));
    checks
}

/// The lookups at GitHub that the contributors call for: one for each, for
/// their GitHub username.
pub fn github_checks(contributors: &EntityStore<Contributor>) -> (checks: Vec<IdentityCheck>)
    ensures
        check_views(checks@) == contributor_checks(IdentityClass::GithubUser, contributors@),
        checks@.len() == contributors@.len(),
{
    checks_of_contributors(IdentityClass::GithubUser, contributors)
}

/// The lookups of members at Slack that the contributors call for: one for
/// each, for their Slack member id.
pub fn slack_member_checks(contributors: &EntityStore<Contributor>) -> (checks: Vec<IdentityCheck>)
    ensures
        check_views(checks@) == contributor_checks(IdentityClass::SlackMember, contributors@),
        checks@.len() == contributors@.len(),
{
    checks_of_contributors(IdentityClass::SlackMember, contributors)
}

/// The lookups of channels at Slack that the teams call for: one for each
/// team and each channel id that it lists, however often it lists that id,
/// and none for a team without channels.
pub fn slack_channel_checks(teams: &EntityStore<Team>) -> (checks: Vec<IdentityCheck>)
    ensures
        check_views(checks@) == channel_checks(teams@),
{
    let mut checks: Vec<IdentityCheck> = Vec::new();
    let mut i: usize = 0;
    assert(check_views(checks@) =~= channel_checks(teams@.take(0)));
    while i < teams.entries.len()
        invariant
            i <= teams@.len(),
            check_views(checks@) == channel_checks(teams@.take(i as int)),
        decreases teams@.len() - i,
    {
        let entry = &teams.entries[i];
        let ghost before = check_views(checks@);
        let ghost of_team = team_channel_checks(teams@[i as int]);
        let channels = distinct_texts(&entry.1.slack_channel_ids);
        let mut j: usize = 0;
        while j < channels.len()
            invariant
                i < teams@.len(),
                *entry == teams@[i as int],
                of_team == team_channel_checks(teams@[i as int]),
                texts(channels@) == channels_of(teams@[i as int].1),
                j <= channels@.len(),
                check_views(checks@) == before + of_team.take(j as int),
            decreases channels@.len() - j,
        {
            let ghost so_far = check_views(checks@);
            assert(texts(channels@)[j as int] == channels@[j as int]@);
            let check = IdentityCheck {
                class: IdentityClass::SlackChannel,
                file: team_file(&entry.0),
                identity: channels[j].clone(),
            };
            assert(check@ == of_team[j as int]);
            checks.push(check);
            assert(check_views(checks@) =~= so_far.push(of_team[j as int]));
            assert(before + of_team.take(j + 1) =~= (before + of_team.take(j as int)).push(
                of_team[j as int],
            ));
            j += 1;
        }
        proof {
            assert(of_team.take(j as int) =~= of_team);
            assert(teams@.take(i + 1).drop_last() =~= teams@.take(i as int));
            assert(teams@.take(i + 1).last() == teams@[i as int]);
        }
        i += 1;
    }
    assert(teams@.take(teams@.len() as int) =~= teams@);
    checks
}

/// A completed lookup as plain values.
pub struct CompletionView {
    pub check: CheckView,
    pub outcome: Outcome,
}

/// A lookup together with its outcome.
#[derive(Debug, PartialEq, Eq)]
pub struct Completion {
    pub check: IdentityCheck,
    pub outcome: CheckOutcome,
}

impl View for Completion {
    type V = CompletionView;

    open spec fn view(&self) -> CompletionView {
        CompletionView { check: self.check@, outcome: self.outcome@ }
    }
}

/// What a reply means for a lookup of class `class`: GitHub says it by the
/// status of its answer, Slack in the body; a failure settles nothing.
pub open spec fn reply_outcome(class: IdentityClass, reply: LookupReply) -> Outcome {
    match class {
        IdentityClass::GithubUser => github_reply_outcome(reply),
        _ => slack_reply_meaning(reply),
    }
}

impl IdentityCheck {
    /// Completes the lookup with what came back for its request.
    pub fn settle(self, reply: &LookupReply) -> (done: Completion)
        ensures
            done.check == self,
            done.outcome@ == reply_outcome(self.class, *reply),
    {
        let outcome = match self.class {
            IdentityClass::GithubUser => check_github_user_exists(reply),
            _ => check_slack_id_exists(reply),
        };
        Completion { check: self, outcome }
    }

    /// Completes the lookup as unknown for `reason`, without a request:
    /// what is done where `plan` gives no request.
    pub fn skip(self, reason: Inconclusive) -> (done: Completion)
        ensures
            done.check == self,
            done.outcome == CheckOutcome::Unknown(reason),
    {
        Completion { check: self, outcome: CheckOutcome::Unknown(reason) }
    }
}

/// The plain values of a list of completed lookups.
pub open spec fn completion_views(completed: Seq<Completion>) -> Seq<CompletionView> {
    Seq::new(completed.len(), |i: int| completed[i]@)
}

/// The lookups that confirmed the identity, in order.
pub open spec fn confirmed(completed: Seq<CompletionView>) -> Seq<CompletionView> {
    completed.filter(|done: CompletionView| done.outcome is Exists)
}

/// The lookups that confirmed that there is no such identity, in order.
pub open spec fn confirmed_absent(completed: Seq<CompletionView>) -> Seq<CompletionView> {
    completed.filter(|done: CompletionView| done.outcome is Absent)
}

/// The lookups that settled nothing, in order.
pub open spec fn inconclusive(completed: Seq<CompletionView>) -> Seq<CompletionView> {
    completed.filter(|done: CompletionView| done.outcome is Unknown)
}

/// The message on an identity that does not exist, with the identity as it
/// is shown.
pub open spec fn absent_message(class: IdentityClass, identity: Seq<char>) -> Seq<char> {
    match class {
        IdentityClass::GithubUser => "GitHub user does not exist: "@ + identity,
        IdentityClass::SlackMember => "Slack member ID does not exist: "@ + identity,
        IdentityClass::SlackChannel => "Slack channel ID does not exist: "@ + identity,
    }
}

/// The message on a lookup that settled nothing, with the identity as it is
/// shown and the reason in words.
pub open spec fn unknown_message(class: IdentityClass, identity: Seq<char>, reason: Seq<char>) -> Seq<
    char,
> {
    match class {
        IdentityClass::GithubUser => "Failed to check GitHub user "@ + identity + ": "@ + reason,
        IdentityClass::SlackMember => "Failed to check Slack member ID "@ + identity + ": "@
            + reason,
        IdentityClass::SlackChannel => "Failed to check Slack channel ID "@ + identity + ": "@
            + reason,
    }
}

/// Whether `error` reports that the identity of `done` does not exist: it is
/// filed under the file that names the identity and says so for the
/// identity's class, the identity emphasised.
pub open spec fn reports_absent(done: CompletionView, error: ValidationError) -> bool {
    &&& error.file@ == done.check.file
    &&& exists|identity: Seq<char>|
        {
            &&& shows_as_error(done.check.identity, identity)
            &&& error.message@ == #[trigger] absent_message(done.check.class, identity)
        }
}

/// Whether `warning` reports that the lookup `done` settled nothing: it is
/// filed under the file that names the identity and gives the reason.
pub open spec fn reports_unknown(done: CompletionView, warning: ValidationWarning) -> bool {
    &&& done.outcome is Unknown
    &&& warning.file@ == done.check.file
    &&& exists|identity: Seq<char>|
        {
            &&& shows_as_warning(done.check.identity, identity)
            &&& warning.message@ == #[trigger] unknown_message(
                done.check.class,
                identity,
                reason_text(done.outcome->Unknown_0),
            )
        }
}

/// Whether `errors` and `warnings` are what `completed` comes to: one error
/// for each lookup that found the identity absent, one warning for each that
/// settled nothing, each list in the order of completion.
pub open spec fn collected(
    completed: Seq<CompletionView>,
    errors: Seq<ValidationError>,
    warnings: Seq<ValidationWarning>,
) -> bool {
    &&& errors.len() == confirmed_absent(completed).len()
    &&& forall|k: int|
        0 <= k < errors.len() ==> reports_absent(confirmed_absent(completed)[k], #[trigger] errors[k])
    &&& warnings.len() == inconclusive(completed).len()
    &&& forall|k: int|
        0 <= k < warnings.len() ==> reports_unknown(inconclusive(completed)[k], #[trigger] warnings[k])
}

/// Every completed lookup is counted once: among those that confirmed the
/// identity, among those that found it absent or among those that settled
/// nothing. However many lookups fail, none is lost.
pub proof fn lemma_every_outcome_counted(completed: Seq<CompletionView>)
    ensures
        confirmed(completed).len() + confirmed_absent(completed).len() + inconclusive(
            completed,
        ).len() == completed.len(),
    decreases completed.len(),
{
    reveal(Seq::filter);
    if completed.len() > 0 {
        lemma_every_outcome_counted(completed.drop_last());
    }
}

/// What one more completed lookup adds to the two lists.
proof fn lemma_collected_step(completed: Seq<CompletionView>, i: int)
    requires
        0 <= i < completed.len(),
    ensures
        confirmed_absent(completed.take(i + 1)) == if completed[i].outcome is Absent {
            confirmed_absent(completed.take(i)).push(completed[i])
        } else {
            confirmed_absent(completed.take(i))
        },
        inconclusive(completed.take(i + 1)) == if completed[i].outcome is Unknown {
            inconclusive(completed.take(i)).push(completed[i])
        } else {
            inconclusive(completed.take(i))
        },
{
    assert(completed.take(i + 1) =~= completed.take(i).push(completed[i]));
    completed.take(i).lemma_filter_push(completed[i], |done: CompletionView| done.outcome is Absent);
    completed.take(i).lemma_filter_push(
        completed[i],
        |done: CompletionView| done.outcome is Unknown,
    );
}

/// Writes the message on an identity of class `class` that does not exist,
/// with the identity as it is to be shown.
pub fn absent_text(class: IdentityClass, identity: &str) -> (message: String)
    ensures
        message@ == absent_message(class, identity@),
{
    match class {
        IdentityClass::GithubUser => join2("GitHub user does not exist: ", identity),
        IdentityClass::SlackMember => join2("Slack member ID does not exist: ", identity),
        IdentityClass::SlackChannel => join2("Slack channel ID does not exist: ", identity),
    }
}

/// Writes the message on a lookup of class `class` that settled nothing,
/// with the identity as it is to be shown and the reason in words.
pub fn unknown_text(class: IdentityClass, identity: &str, reason: &str) -> (message: String)
    ensures
        message@ == unknown_message(class, identity@, reason@),
{
    match class {
        IdentityClass::GithubUser => join4("Failed to check GitHub user ", identity, ": ", reason),
        IdentityClass::SlackMember => join4(
            "Failed to check Slack member ID ",
            identity,
            ": ",
            reason,
        ),
        IdentityClass::SlackChannel => join4(
            "Failed to check Slack channel ID ",
            identity,
            ": ",
            reason,
        ),
    }
}

/// The error on an identity that was found absent.
fn absent_error(check: &IdentityCheck) -> (error: ValidationError)
    ensures
        reports_absent(CompletionView { check: check@, outcome: Outcome::Absent }, error),
{
    let shown = bold_red(check.identity.as_str());
    let message = absent_text(check.class, shown.as_str());
    ValidationError { file: check.file.clone(), message }
}

/// The warning on a lookup that settled nothing for `reason`.
fn unknown_warning(check: &IdentityCheck, reason: &Inconclusive) -> (warning: ValidationWarning)
    ensures
        reports_unknown(
            CompletionView { check: check@, outcome: Outcome::Unknown(reason@) },
            warning,
        ),
{
    let shown = bold_yellow(check.identity.as_str());
    let words = reason.describe();
    let message = unknown_text(check.class, shown.as_str(), words.as_str());
    ValidationWarning { file: check.file.clone(), message }
}

/// Turns completed lookups into findings, in the order of completion.
fn collect(completed: &Vec<Completion>) -> (findings: (Vec<ValidationError>, Vec<ValidationWarning>))
    ensures
        collected(completion_views(completed@), findings.0@, findings.1@),
{
    let ghost views = completion_views(completed@);
    let mut errors: Vec<ValidationError> = Vec::new();
    let mut warnings: Vec<ValidationWarning> = Vec::new();
    let mut i: usize = 0;
    proof {
        views.take(0).lemma_filter_len(|done: CompletionView| done.outcome is Absent);
        views.take(0).lemma_filter_len(|done: CompletionView| done.outcome is Unknown);
    }
    while i < completed.len()
        invariant
            i <= completed@.len(),
            views == completion_views(completed@),
            collected(views.take(i as int), errors@, warnings@),
        decreases completed@.len() - i,
    {
        proof {
            lemma_collected_step(views, i as int);
        }
        let done = &completed[i];
        match &done.outcome {
            CheckOutcome::Exists => {},
            CheckOutcome::Absent => {
                let error = absent_error(&done.check);
                errors.push(error);
            },
            CheckOutcome::Unknown(reason) => {
                let warning = unknown_warning(&done.check, reason);
                warnings.push(warning);
            },
        }
        i += 1;
    }
    assert(views.take(views.len() as int) =~= views);
    (errors, warnings)
}

/// What the completed lookups of GitHub users come to: an error for each
/// user that GitHub does not know, a warning for each lookup that settled
/// nothing, and nothing for a user that exists. The lookups are taken in the
/// order in which they completed, whatever that is, and each is counted.
pub fn validate_github_users(completed: &Vec<Completion>) -> (findings: (
    Vec<ValidationError>,
    Vec<ValidationWarning>,
))
    ensures
        collected(completion_views(completed@), findings.0@, findings.1@),
        confirmed(completion_views(completed@)).len() + findings.0@.len() + findings.1@.len()
            == completed@.len(),
{
    proof {
        lemma_every_outcome_counted(completion_views(completed@));
    }
    collect(completed)
}

/// What the completed lookups at Slack come to: the findings on the members
/// first, then those on the channels, each batch in the order in which its
/// lookups completed. An id that Slack does not know gives an error; a
/// lookup that settled nothing, a missing token and a malformed id among
/// them, gives a warning.
pub fn validate_slack_ids(members: &Vec<Completion>, channels: &Vec<Completion>) -> (findings: (
    Vec<ValidationError>,
    Vec<ValidationWarning>,
))
    ensures
        collected(
            completion_views(members@) + completion_views(channels@),
            findings.0@,
            findings.1@,
        ),
        confirmed(completion_views(members@) + completion_views(channels@)).len()
            + findings.0@.len() + findings.1@.len() == members@.len() + channels@.len(),
{
    let ghost first = completion_views(members@);
    let ghost second = completion_views(channels@);
    proof {
        lemma_every_outcome_counted(first + second);
        Seq::filter_distributes_over_add(
            first,
            second,
            |done: CompletionView| done.outcome is Absent,
        );
        Seq::filter_distributes_over_add(
            first,
            second,
            |done: CompletionView| done.outcome is Unknown,
        );
    }
    let (mut errors, mut warnings) = collect(members);
    let (mut more_errors, mut more_warnings) = collect(channels);
    errors.append(&mut more_errors);
    warnings.append(&mut more_warnings);
    (errors, warnings)
}

} // verus!
