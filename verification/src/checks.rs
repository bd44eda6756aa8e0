//! The checks that need the records alone: that every record is stored under
//! the name it declares, and that every reference of a team leads to a record.

use vstd::prelude::*;
use crate::model::{
    contributor_file, contributor_path, repo_file, repo_path, team_file, team_path, Contributor,
    EntityKey, EntityStore, Repo, Team, ValidationError,
};
use crate::style::{
    bold_red, bold_red_code, escape_char, lemma_shown_without_escape, shows_as_error,
};
use crate::lists::{
    distinct, distinct_texts, lemma_contains_add, lemma_distinct, lemma_occurrences_add,
    occurrences,
};
use crate::text::{join4, join5, texts};

verus! {

/// The three kinds of record.
#[derive(Clone, Copy, Debug, PartialEq, Eq, Structural)]
pub enum RecordKind {
    Contributor,
    Team,
    Repo,
}

/// The path of the file that holds the record of kind `kind` stored under `name`.
pub open spec fn record_path(kind: RecordKind, name: Seq<char>) -> Seq<char> {
    match kind {
        RecordKind::Contributor => contributor_path(name),
        RecordKind::Team => team_path(name),
        RecordKind::Repo => repo_path(name),
    }
}

/// A record that is stored under one name and declares another.
pub struct Mismatch {
    pub kind: RecordKind,
    pub stored: Seq<char>,
    pub declared: Seq<char>,
}

/// The message on a record whose two names, as they are shown, are
/// `stored` and `declared`.
pub open spec fn mismatch_message(kind: RecordKind, stored: Seq<char>, declared: Seq<char>) -> Seq<
    char,
> {
    match kind {
        RecordKind::Contributor => "Contributor file name '"@ + stored
            + "' doesn't match GitHub username '"@ + declared + "'"@,
        RecordKind::Team => "Team file name '"@ + stored + "' doesn't match team name '"@
            + declared + "'"@,
        RecordKind::Repo => "Repo file name '"@ + stored + "' doesn't match repo name '"@
            + declared + "'"@,
    }
}

/// Whether `error` reports `found`: it is filed under the record's path, and
/// its message is the one for the record's kind with both names emphasised.
pub open spec fn reports_mismatch(found: Mismatch, error: ValidationError) -> bool {
    &&& error.file@ == record_path(found.kind, found.stored)
    &&& exists|stored: Seq<char>, declared: Seq<char>|
        {
            &&& shows_as_error(found.stored, stored)
            &&& shows_as_error(found.declared, declared)
            &&& error.message@ == #[trigger] mismatch_message(found.kind, stored, declared)
        }
}

/// The stored and the declared name of each contributor: the key's name and
/// the GitHub username.
pub open spec fn contributor_names(store: Seq<(EntityKey, Contributor)>) -> Seq<
    (Seq<char>, Seq<char>),
> {
    Seq::new(store.len(), |i: int| (store[i].0.name@, store[i].1.github_username@))
}

/// The stored and the declared name of each team.
pub open spec fn team_names(store: Seq<(EntityKey, Team)>) -> Seq<(Seq<char>, Seq<char>)> {
    Seq::new(store.len(), |i: int| (store[i].0.name@, store[i].1.name@))
}

/// The stored and the declared name of each repository.
pub open spec fn repo_names(store: Seq<(EntityKey, Repo)>) -> Seq<(Seq<char>, Seq<char>)> {
    Seq::new(store.len(), |i: int| (store[i].0.name@, store[i].1.name@))
}

/// The pairs of `names` whose two names differ, in order, as mismatches of
/// kind `kind`.
pub open spec fn mismatches(kind: RecordKind, names: Seq<(Seq<char>, Seq<char>)>) -> Seq<
    Mismatch,
> {
    names.filter(|pair: (Seq<char>, Seq<char>)| pair.0 != pair.1).map_values(
        |pair: (Seq<char>, Seq<char>)| Mismatch { kind, stored: pair.0, declared: pair.1 },
    )
}

/// Every mismatch among the records: the contributors' first, then the
/// teams', then the repositories', each in the order of its store.
pub open spec fn file_name_mismatches(
    contributors: Seq<(EntityKey, Contributor)>,
    teams: Seq<(EntityKey, Team)>,
    repos: Seq<(EntityKey, Repo)>,
) -> Seq<Mismatch> {
    mismatches(RecordKind::Contributor, contributor_names(contributors)) + mismatches(
        RecordKind::Team,
        team_names(teams),
    ) + mismatches(RecordKind::Repo, repo_names(repos))
}

/// Whether `errors` holds one error for each of `found`, in the same order.
pub open spec fn reports_mismatches(found: Seq<Mismatch>, errors: Seq<ValidationError>) -> bool {
    &&& errors.len() == found.len()
    &&& forall|k: int| 0 <= k < found.len() ==> reports_mismatch(found[k], #[trigger] errors[k])
}

/// What one more pair adds to the mismatches of the pairs before it.
proof fn lemma_mismatches_step(kind: RecordKind, names: Seq<(Seq<char>, Seq<char>)>, i: int)
    requires
        0 <= i < names.len(),
    ensures
        mismatches(kind, names.take(i + 1)) == if names[i].0 != names[i].1 {
            mismatches(kind, names.take(i)).push(
                Mismatch { kind, stored: names[i].0, declared: names[i].1 },
            )
        } else {
            mismatches(kind, names.take(i))
        },
{
    let differ = |pair: (Seq<char>, Seq<char>)| pair.0 != pair.1;
    assert(names.take(i + 1) =~= names.take(i).push(names[i]));
    names.take(i).lemma_filter_push(names[i], differ);
    assert(mismatches(kind, names.take(i + 1)) =~= if names[i].0 != names[i].1 {
        mismatches(kind, names.take(i)).push(
            Mismatch { kind, stored: names[i].0, declared: names[i].1 },
        )
    } else {
        mismatches(kind, names.take(i))
    });
}

/// Before the first pair there is no mismatch, and the pairs up to the last
/// are all.
proof fn lemma_mismatches_start(kind: RecordKind, names: Seq<(Seq<char>, Seq<char>)>)
    ensures
        mismatches(kind, names.take(0)).len() == 0,
        names.take(names.len() as int) == names,
{
    let differ = |pair: (Seq<char>, Seq<char>)| pair.0 != pair.1;
    names.take(0).lemma_filter_len(differ);
    assert(names.take(names.len() as int) =~= names);
}

/// Writes the path of the file that holds the record of kind `kind` stored
/// under `key`.
pub fn record_file(kind: RecordKind, key: &EntityKey) -> (path: String)
    ensures
        path@ == record_path(kind, key.name@),
{
    match kind {
        RecordKind::Contributor => contributor_file(key),
        RecordKind::Team => team_file(key),
        RecordKind::Repo => repo_file(key),
    }
}

/// Writes the message on a record of kind `kind` whose two names, as they
/// are to be shown, are `stored` and `declared`.
pub fn mismatch_text(kind: RecordKind, stored: &str, declared: &str) -> (message: String)
    ensures
        message@ == mismatch_message(kind, stored@, declared@),
{
    match kind {
        RecordKind::Contributor => join5(
            "Contributor file name '",
            stored,
            "' doesn't match GitHub username '",
            declared,
            "'",
        ),
        RecordKind::Team => join5(
            "Team file name '",
            stored,
            "' doesn't match team name '",
            declared,
            "'",
        ),
        RecordKind::Repo => join5(
            "Repo file name '",
            stored,
            "' doesn't match repo name '",
            declared,
            "'",
        ),
    }
}

/// The error on a record of kind `kind` that is stored under `key` and
/// declares the name `declared`.
fn mismatch_error(kind: RecordKind, key: &EntityKey, declared: &String) -> (error: ValidationError)
    ensures
        reports_mismatch(Mismatch { kind, stored: key.name@, declared: declared@ }, error),
{
    let stored_shown = bold_red(key.name.as_str());
    let declared_shown = bold_red(declared.as_str());
    let message = mismatch_text(kind, stored_shown.as_str(), declared_shown.as_str());
    ValidationError { file: record_file(kind, key), message }
}

fn contributor_name_errors(contributors: &EntityStore<Contributor>) -> (errors: Vec<
    ValidationError,
>)
    ensures
        reports_mismatches(
            mismatches(RecordKind::Contributor, contributor_names(contributors@)),
            errors@,
        ),
{
    let ghost names = contributor_names(contributors@);
    let mut errors: Vec<ValidationError> = Vec::new();
    let mut i: usize = 0;
    proof {
        lemma_mismatches_start(RecordKind::Contributor, names);
    }
    while i < contributors.entries.len()
        invariant
            i <= contributors@.len(),
            names == contributor_names(contributors@),
            reports_mismatches(mismatches(RecordKind::Contributor, names.take(i as int)), errors@),
        decreases contributors@.len() - i,
    {
        proof {
            lemma_mismatches_step(RecordKind::Contributor, names, i as int);
        }
        let entry = &contributors.entries[i];
        if entry.0.name != entry.1.github_username {
            let error = mismatch_error(RecordKind::Contributor, &entry.0, &entry.1.github_username);
            errors.push(error);
        }
        i += 1;
    }
    errors
}

fn team_name_errors(teams: &EntityStore<Team>) -> (errors: Vec<ValidationError>)
    ensures
        reports_mismatches(mismatches(RecordKind::Team, team_names(teams@)), errors@),
{
    let ghost names = team_names(teams@);
    let mut errors: Vec<ValidationError> = Vec::new();
    let mut i: usize = 0;
    proof {
        lemma_mismatches_start(RecordKind::Team, names);
    }
    while i < teams.entries.len()
        invariant
            i <= teams@.len(),
            names == team_names(teams@),
            reports_mismatches(mismatches(RecordKind::Team, names.take(i as int)), errors@),
        decreases teams@.len() - i,
    {
        proof {
            lemma_mismatches_step(RecordKind::Team, names, i as int);
        }
        let entry = &teams.entries[i];
        if entry.0.name != entry.1.name {
            let error = mismatch_error(RecordKind::Team, &entry.0, &entry.1.name);
            errors.push(error);
        }
        i += 1;
    }
    errors
}

fn repo_name_errors(repos: &EntityStore<Repo>) -> (errors: Vec<ValidationError>)
    ensures
        reports_mismatches(mismatches(RecordKind::Repo, repo_names(repos@)), errors@),
{
    let ghost names = repo_names(repos@);
    let mut errors: Vec<ValidationError> = Vec::new();
    let mut i: usize = 0;
    proof {
        lemma_mismatches_start(RecordKind::Repo, names);
    }
    while i < repos.entries.len()
        invariant
            i <= repos@.len(),
            names == repo_names(repos@),
            reports_mismatches(mismatches(RecordKind::Repo, names.take(i as int)), errors@),
        decreases repos@.len() - i,
    {
        proof {
            lemma_mismatches_step(RecordKind::Repo, names, i as int);
        }
        let entry = &repos.entries[i];
        if entry.0.name != entry.1.name {
            let error = mismatch_error(RecordKind::Repo, &entry.0, &entry.1.name);
            errors.push(error);
        }
        i += 1;
    }
    errors
}

/// Checks that every record is stored under the name it declares: a
/// contributor under their GitHub username, a team and a repository under
/// their name. The result holds one error for each record that is not, the
/// contributors' first, then the teams', then the repositories'.
pub fn validate_file_names(
    contributors: &EntityStore<Contributor>,
    teams: &EntityStore<Team>,
    repos: &EntityStore<Repo>,
) -> (errors: Vec<ValidationError>)
    ensures
        reports_mismatches(file_name_mismatches(contributors@, teams@, repos@), errors@),
{
    let mut errors = contributor_name_errors(contributors);
    let mut of_teams = team_name_errors(teams);
    let mut of_repos = repo_name_errors(repos);
    errors.append(&mut of_teams);
    errors.append(&mut of_repos);
    errors
}

/// The two kinds of reference that a team makes.
#[derive(Clone, Copy, Debug, PartialEq, Eq, Structural)]
pub enum ReferenceKind {
    /// To a contributor, by one of the team's members.
    Member,
    /// To a repository.
    Repo,
}

/// A reference of a team that leads to no record.
pub struct Dangling {
    pub kind: ReferenceKind,
    pub team: Seq<char>,
    pub target: Seq<char>,
}

/// The message on a reference that leads nowhere, with the team's name and
/// the name referred to as they are shown.
pub open spec fn dangling_message(kind: ReferenceKind, team: Seq<char>, target: Seq<char>) -> Seq<
    char,
> {
    match kind {
        ReferenceKind::Member => "Team '"@ + team + "' references non-existent contributor: "@
            + target,
        ReferenceKind::Repo => "Team '"@ + team + "' references non-existent repo: "@ + target,
    }
}

/// Whether `error` reports `found`: it is filed under the team's path, and
/// its message names the team and the missing record, both emphasised.
pub open spec fn reports_dangling(found: Dangling, error: ValidationError) -> bool {
    &&& error.file@ == team_path(found.team)
    &&& exists|team: Seq<char>, target: Seq<char>|
        {
            &&& shows_as_error(found.team, team)
            &&& shows_as_error(found.target, target)
            &&& error.message@ == #[trigger] dangling_message(found.kind, team, target)
        }
}

/// Whether `errors` holds one error for each of `found`, in the same order.
pub open spec fn reports_danglings(found: Seq<Dangling>, errors: Seq<ValidationError>) -> bool {
    &&& errors.len() == found.len()
    &&& forall|k: int| 0 <= k < found.len() ==> reports_dangling(found[k], #[trigger] errors[k])
}

/// The names that `team` refers to by references of kind `kind`. What a team
/// lists is a set: a name that it lists more than once is one reference, and
/// stands where it is listed first.
pub open spec fn targets_of(kind: ReferenceKind, team: Team) -> Seq<Seq<char>> {
    match kind {
        ReferenceKind::Member => distinct(texts(team.members@)),
        ReferenceKind::Repo => distinct(texts(team.repos@)),
    }
}

/// The references of one team that lead nowhere: those of `targets` that are
/// not among `known`, in order.
pub open spec fn unresolved(
    kind: ReferenceKind,
    team: Seq<char>,
    targets: Seq<Seq<char>>,
    known: Set<Seq<char>>,
) -> Seq<Dangling> {
    targets.filter(|target: Seq<char>| !known.contains(target)).map_values(
        |target: Seq<char>| Dangling { kind, team, target },
    )
}

/// The references of kind `kind` of all teams that lead nowhere, team by
/// team in the order of the store.
pub open spec fn all_unresolved(
    kind: ReferenceKind,
    teams: Seq<(EntityKey, Team)>,
    known: Set<Seq<char>>,
) -> Seq<Dangling>
    decreases teams.len(),
{
    if teams.len() == 0 {
        Seq::empty()
    } else {
        all_unresolved(kind, teams.drop_last(), known) + unresolved(
            kind,
            teams.last().0.name@,
            targets_of(kind, teams.last().1),
            known,
        )
    }
}

/// Every reference that leads nowhere: first the members that are no
/// contributors, then the repositories that are not on record.
pub open spec fn dangling_references(
    contributors: Set<Seq<char>>,
    teams: Seq<(EntityKey, Team)>,
    repos: Set<Seq<char>>,
) -> Seq<Dangling> {
    all_unresolved(ReferenceKind::Member, teams, contributors) + all_unresolved(
        ReferenceKind::Repo,
        teams,
        repos,
    )
}

/// What one more reference adds to the unresolved ones before it.
proof fn lemma_unresolved_step(
    kind: ReferenceKind,
    team: Seq<char>,
    targets: Seq<Seq<char>>,
    known: Set<Seq<char>>,
    i: int,
)
    requires
        0 <= i < targets.len(),
    ensures
        unresolved(kind, team, targets.take(i + 1), known) == if !known.contains(targets[i]) {
            unresolved(kind, team, targets.take(i), known).push(
                Dangling { kind, team, target: targets[i] },
            )
        } else {
            unresolved(kind, team, targets.take(i), known)
        },
{
    let missing = |target: Seq<char>| !known.contains(target);
    assert(targets.take(i + 1) =~= targets.take(i).push(targets[i]));
    targets.take(i).lemma_filter_push(targets[i], missing);
    assert(unresolved(kind, team, targets.take(i + 1), known) =~= if !known.contains(targets[i]) {
        unresolved(kind, team, targets.take(i), known).push(
            Dangling { kind, team, target: targets[i] },
        )
    } else {
        unresolved(kind, team, targets.take(i), known)
    });
}

/// Before the first reference none is unresolved, and the references up to
/// the last are all.
proof fn lemma_unresolved_start(
    kind: ReferenceKind,
    team: Seq<char>,
    targets: Seq<Seq<char>>,
    known: Set<Seq<char>>,
)
    ensures
        unresolved(kind, team, targets.take(0), known).len() == 0,
        targets.take(targets.len() as int) == targets,
{
    let missing = |target: Seq<char>| !known.contains(target);
    targets.take(0).lemma_filter_len(missing);
    assert(targets.take(targets.len() as int) =~= targets);
}

/// Writes the message on a reference of kind `kind` that leads nowhere, with
/// the team's name and the name referred to as they are to be shown.
pub fn dangling_text(kind: ReferenceKind, team: &str, target: &str) -> (message: String)
    ensures
        message@ == dangling_message(kind, team@, target@),
{
    match kind {
        ReferenceKind::Member => join4(
            "Team '",
            team,
            "' references non-existent contributor: ",
            target,
        ),
        ReferenceKind::Repo => join4("Team '", team, "' references non-existent repo: ", target),
    }
}

/// The error on the reference of kind `kind` that the team stored under
/// `team_key` makes to `target`, where no record has that name.
fn dangling_error(kind: ReferenceKind, team_key: &EntityKey, target: &String) -> (error:
    ValidationError)
    ensures
        reports_dangling(Dangling { kind, team: team_key.name@, target: target@ }, error),
{
    let team_shown = bold_red(team_key.name.as_str());
    let target_shown = bold_red(target.as_str());
    let message = dangling_text(kind, team_shown.as_str(), target_shown.as_str());
    ValidationError { file: team_file(team_key), message }
}

/// Appends to `errors` one error for each name of `targets` under which
/// `known` holds no record.
fn push_unresolved<T>(
    errors: &mut Vec<ValidationError>,
    kind: ReferenceKind,
    team_key: &EntityKey,
    targets: &Vec<String>,
    known: &EntityStore<T>,
    Ghost(before): Ghost<Seq<Dangling>>,
)
    requires
        reports_danglings(before, old(errors)@),
    ensures
        reports_danglings(
            before + unresolved(kind, team_key.name@, texts(targets@), known.name_set()),
            final(errors)@,
        ),
{
    let ghost names = texts(targets@);
    let ghost team = team_key.name@;
    let ghost set = known.name_set();
    let mut i: usize = 0;
    proof {
        lemma_unresolved_start(kind, team, names, set);
        assert(before + unresolved(kind, team, names.take(0), set) =~= before);
    }
    while i < targets.len()
        invariant
            i <= targets@.len(),
            names == texts(targets@),
            team == team_key.name@,
            set == known.name_set(),
            reports_danglings(before + unresolved(kind, team, names.take(i as int), set), errors@),
        decreases targets@.len() - i,
    {
        proof {
            lemma_unresolved_step(kind, team, names, set, i as int);
        }
        let ghost so_far = before + unresolved(kind, team, names.take(i as int), set);
        let target = &targets[i];
        if known.find(target).is_none() {
            let error = dangling_error(kind, team_key, target);
            errors.push(error);
            assert(before + unresolved(kind, team, names.take(i + 1), set) =~= so_far.push(
                Dangling { kind, team, target: target@ },
            ));
        }
        i += 1;
    }
    proof {
        lemma_unresolved_start(kind, team, names, set);
    }
}

/// One error for each reference of kind `kind` that leads to no record of
/// `known`.
fn unresolved_errors<T>(kind: ReferenceKind, teams: &EntityStore<Team>, known: &EntityStore<T>) -> (errors:
    Vec<ValidationError>)
    ensures
        reports_danglings(all_unresolved(kind, teams@, known.name_set()), errors@),
{
    let ghost set = known.name_set();
    let mut errors: Vec<ValidationError> = Vec::new();
    let mut i: usize = 0;
    while i < teams.entries.len()
        invariant
            i <= teams@.len(),
            set == known.name_set(),
            reports_danglings(all_unresolved(kind, teams@.take(i as int), set), errors@),
        decreases teams@.len() - i,
    {
        let entry = &teams.entries[i];
        let ghost so_far = all_unresolved(kind, teams@.take(i as int), set);
        proof {
            assert(teams@.take(i + 1).drop_last() =~= teams@.take(i as int));
            assert(teams@.take(i + 1).last() == teams@[i as int]);
        }
        let targets = match kind {
            ReferenceKind::Member => distinct_texts(&entry.1.members),
            ReferenceKind::Repo => distinct_texts(&entry.1.repos),
        };
        push_unresolved(&mut errors, kind, &entry.0, &targets, known, Ghost(so_far));
        i += 1;
    }
    proof {
        assert(teams@.take(teams@.len() as int) =~= teams@);
    }
    errors
}

/// Checks that every member a team lists is a contributor on record and
/// every repository it lists is a repository on record. The result holds one
/// error for each team and each name it lists that is not, however often the
/// team lists that name: the members' first, team by team, then the
/// repositories'.
pub fn validate_cross_references(
    contributors: &EntityStore<Contributor>,
    teams: &EntityStore<Team>,
    repos: &EntityStore<Repo>,
) -> (errors: Vec<ValidationError>)
    ensures
        reports_danglings(
            dangling_references(contributors.name_set(), teams@, repos.name_set()),
            errors@,
        ),
{
    let mut errors = unresolved_errors(ReferenceKind::Member, teams, contributors);
    let mut of_repos = unresolved_errors(ReferenceKind::Repo, teams, repos);
    errors.append(&mut of_repos);
    errors
}

/// Among the unresolved references to `targets`, a reference of that team
/// and kind to a name without a record occurs as often as `targets` holds
/// the name; any other reference does not occur.
proof fn lemma_occurrences_unresolved(
    kind: ReferenceKind,
    team: Seq<char>,
    targets: Seq<Seq<char>>,
    known: Set<Seq<char>>,
    wanted: Dangling,
)
    ensures
        occurrences(unresolved(kind, team, targets, known), wanted) == if wanted.kind == kind
            && wanted.team == team && !known.contains(wanted.target) {
            occurrences(targets, wanted.target)
        } else {
            0
        },
    decreases targets.len(),
{
    let missing = |target: Seq<char>| !known.contains(target);
    if targets.len() == 0 {
        targets.lemma_filter_len(missing);
    } else {
        let rest = targets.drop_last();
        let last = targets.last();
        assert(targets =~= rest.push(last));
        rest.lemma_filter_push(last, missing);
        lemma_occurrences_unresolved(kind, team, rest, known, wanted);
        if !known.contains(last) {
            let found = Dangling { kind, team, target: last };
            assert(unresolved(kind, team, targets, known) =~= unresolved(
                kind,
                team,
                rest,
                known,
            ).push(found));
            assert(unresolved(kind, team, rest, known).push(found).drop_last() =~= unresolved(
                kind,
                team,
                rest,
                known,
            ));
        } else {
            assert(unresolved(kind, team, targets, known) =~= unresolved(kind, team, rest, known));
        }
    }
}

/// Among the unresolved references of all teams, a reference does not occur
/// if it is of another kind or of a team that is not among them.
proof fn lemma_occurrences_elsewhere(
    kind: ReferenceKind,
    teams: Seq<(EntityKey, Team)>,
    known: Set<Seq<char>>,
    wanted: Dangling,
)
    requires
        wanted.kind != kind || forall|i: int|
            0 <= i < teams.len() ==> (#[trigger] teams[i]).0.name@ != wanted.team,
    ensures
        occurrences(all_unresolved(kind, teams, known), wanted) == 0,
    decreases teams.len(),
{
    if teams.len() > 0 {
        let rest = teams.drop_last();
        let last = teams.last();
        assert(last == teams[teams.len() - 1]);
        assert forall|i: int| 0 <= i < rest.len() implies (#[trigger] rest[i]) == teams[i] by {}
        lemma_occurrences_elsewhere(kind, rest, known, wanted);
        lemma_occurrences_unresolved(kind, last.0.name@, targets_of(kind, last.1), known, wanted);
        lemma_occurrences_add(
            all_unresolved(kind, rest, known),
            unresolved(kind, last.0.name@, targets_of(kind, last.1), known),
            wanted,
        );
    }
}

/// Among the unresolved references of all teams, each stored under a name
/// of its own, the reference of the team at `at` to a name without a record
/// occurs as often as the name stands among that team's references.
proof fn lemma_occurrences_all_unresolved(
    kind: ReferenceKind,
    teams: Seq<(EntityKey, Team)>,
    known: Set<Seq<char>>,
    at: int,
    target: Seq<char>,
)
    requires
        forall|i: int, j: int|
            0 <= i < j < teams.len() ==> (#[trigger] teams[i]).0.name@ != (
            #[trigger] teams[j]).0.name@,
        0 <= at < teams.len(),
        !known.contains(target),
    ensures
        occurrences(
            all_unresolved(kind, teams, known),
            Dangling { kind, team: teams[at].0.name@, target },
        ) == occurrences(targets_of(kind, teams[at].1), target),
    decreases teams.len(),
{
    let wanted = Dangling { kind, team: teams[at].0.name@, target };
    let rest = teams.drop_last();
    let last = teams.last();
    assert(last == teams[teams.len() - 1]);
    assert forall|i: int| 0 <= i < rest.len() implies (#[trigger] rest[i]) == teams[i] by {}
    lemma_occurrences_unresolved(kind, last.0.name@, targets_of(kind, last.1), known, wanted);
    lemma_occurrences_add(
        all_unresolved(kind, rest, known),
        unresolved(kind, last.0.name@, targets_of(kind, last.1), known),
        wanted,
    );
    if at == teams.len() - 1 {
        assert forall|i: int| 0 <= i < rest.len() implies (#[trigger] rest[i]).0.name@
            != wanted.team by {
            assert(teams[i].0.name@ != teams[at].0.name@);
        }
        lemma_occurrences_elsewhere(kind, rest, known, wanted);
    } else {
        assert(teams[at].0.name@ != teams[teams.len() - 1].0.name@);
        assert(rest[at] == teams[at]);
        assert forall|i: int, j: int| 0 <= i < j < rest.len() implies (#[trigger] rest[i]).0.name@
            != (#[trigger] rest[j]).0.name@ by {
            assert(teams[i].0.name@ != teams[j].0.name@);
        }
        lemma_occurrences_all_unresolved(kind, rest, known, at, target);
    }
}

/// Where a team lists a member who is no contributor on record, the
/// references that lead nowhere hold that team's reference to that name
/// exactly once, however often the team lists the name; a name that the team
/// does not list is not among them. `validate_cross_references` reports each
/// of them with one error, filed under the team's path and naming the member.
pub proof fn lemma_missing_member_reported(
    contributors: EntityStore<Contributor>,
    teams: EntityStore<Team>,
    repos: EntityStore<Repo>,
    at: int,
    member: Seq<char>,
)
    requires
        teams.wf(),
        0 <= at < teams@.len(),
        !contributors.has_name(member),
    ensures
        occurrences(
            dangling_references(contributors.name_set(), teams@, repos.name_set()),
            Dangling { kind: ReferenceKind::Member, team: teams@[at].0.name@, target: member },
        ) == if texts(teams@[at].1.members@).contains(member) {
            1nat
        } else {
            0nat
        },
{
    let wanted = Dangling {
        kind: ReferenceKind::Member,
        team: teams@[at].0.name@,
        target: member,
    };
    lemma_occurrences_all_unresolved(
        ReferenceKind::Member,
        teams@,
        contributors.name_set(),
        at,
        member,
    );
    lemma_distinct(texts(teams@[at].1.members@), member);
    lemma_occurrences_elsewhere(ReferenceKind::Repo, teams@, repos.name_set(), wanted);
    lemma_occurrences_add(
        all_unresolved(ReferenceKind::Member, teams@, contributors.name_set()),
        all_unresolved(ReferenceKind::Repo, teams@, repos.name_set()),
        wanted,
    );
}

/// Where a team lists a repository that is not on record, the references
/// that lead nowhere hold that team's reference to that name exactly once,
/// however often the team lists the name; a name that the team does not list
/// is not among them.
pub proof fn lemma_missing_repo_reported(
    contributors: EntityStore<Contributor>,
    teams: EntityStore<Team>,
    repos: EntityStore<Repo>,
    at: int,
    repo: Seq<char>,
)
    requires
        teams.wf(),
        0 <= at < teams@.len(),
        !repos.has_name(repo),
    ensures
        occurrences(
            dangling_references(contributors.name_set(), teams@, repos.name_set()),
            Dangling { kind: ReferenceKind::Repo, team: teams@[at].0.name@, target: repo },
        ) == if texts(teams@[at].1.repos@).contains(repo) {
            1nat
        } else {
            0nat
        },
{
    let wanted = Dangling { kind: ReferenceKind::Repo, team: teams@[at].0.name@, target: repo };
    lemma_occurrences_all_unresolved(ReferenceKind::Repo, teams@, repos.name_set(), at, repo);
    lemma_distinct(texts(teams@[at].1.repos@), repo);
    lemma_occurrences_elsewhere(ReferenceKind::Member, teams@, contributors.name_set(), wanted);
    lemma_occurrences_add(
        all_unresolved(ReferenceKind::Member, teams@, contributors.name_set()),
        all_unresolved(ReferenceKind::Repo, teams@, repos.name_set()),
        wanted,
    );
}

/// An error on a mismatch whose message holds no escape character has the
/// message for the record's kind with both names as they are.
pub proof fn lemma_mismatch_without_colours(found: Mismatch, error: ValidationError)
    requires
        reports_mismatch(found, error),
        !error.message@.contains(escape_char()),
    ensures
        error.file@ == record_path(found.kind, found.stored),
        error.message@ == mismatch_message(found.kind, found.stored, found.declared),
{
    let (stored, declared) = choose|stored: Seq<char>, declared: Seq<char>|
        {
            &&& shows_as_error(found.stored, stored)
            &&& shows_as_error(found.declared, declared)
            &&& error.message@ == #[trigger] mismatch_message(found.kind, stored, declared)
        };
    let (opening, middle, closing) = match found.kind {
        RecordKind::Contributor => (
            "Contributor file name '"@,
            "' doesn't match GitHub username '"@,
            "'"@,
        ),
        RecordKind::Team => ("Team file name '"@, "' doesn't match team name '"@, "'"@),
        RecordKind::Repo => ("Repo file name '"@, "' doesn't match repo name '"@, "'"@),
    };
    assert(error.message@ == opening + stored + middle + declared + closing);
    lemma_contains_add(opening + stored + middle + declared, closing, escape_char());
    lemma_contains_add(opening + stored + middle, declared, escape_char());
    lemma_contains_add(opening + stored, middle, escape_char());
    lemma_contains_add(opening, stored, escape_char());
    lemma_shown_without_escape(found.stored, bold_red_code(), stored);
    lemma_shown_without_escape(found.declared, bold_red_code(), declared);
}

/// Two runs of the structural check on the same records whose messages hold
/// no escape character, as it is when colours are off, give the same errors
/// in the same order, file for file and message for message.
pub proof fn lemma_file_name_check_repeats_without_colours(
    contributors: EntityStore<Contributor>,
    teams: EntityStore<Team>,
    repos: EntityStore<Repo>,
    first: Seq<ValidationError>,
    second: Seq<ValidationError>,
)
    requires
        reports_mismatches(file_name_mismatches(contributors@, teams@, repos@), first),
        reports_mismatches(file_name_mismatches(contributors@, teams@, repos@), second),
        forall|k: int|
            0 <= k < first.len() ==> !(#[trigger] first[k]).message@.contains(escape_char()),
        forall|k: int|
            0 <= k < second.len() ==> !(#[trigger] second[k]).message@.contains(escape_char()),
    ensures
        first.len() == second.len(),
        forall|k: int| 0 <= k < first.len() ==> (#[trigger] first[k])@ == second[k]@,
{
    let found = file_name_mismatches(contributors@, teams@, repos@);
    assert forall|k: int| 0 <= k < first.len() implies (#[trigger] first[k])@ == second[k]@ by {
        lemma_mismatch_without_colours(found[k], first[k]);
        lemma_mismatch_without_colours(found[k], second[k]);
    }
}

/// The mismatches that the structural check reports are a function of the
/// records: two runs on the same records give lists of one length that
/// report, position by position, the same mismatch under the same path.
/// (The emphasis of the names inside a message follows the terminal and may
/// differ between two runs.)
pub proof fn lemma_file_name_check_repeatable(
    contributors: EntityStore<Contributor>,
    teams: EntityStore<Team>,
    repos: EntityStore<Repo>,
    first: Seq<ValidationError>,
    second: Seq<ValidationError>,
)
    requires
        reports_mismatches(file_name_mismatches(contributors@, teams@, repos@), first),
        reports_mismatches(file_name_mismatches(contributors@, teams@, repos@), second),
    ensures
        first.len() == second.len(),
        forall|k: int| 0 <= k < first.len() ==> (#[trigger] first[k]).file@ == second[k].file@,
        forall|k: int|
            0 <= k < first.len() ==> reports_mismatch(
                file_name_mismatches(contributors@, teams@, repos@)[k],
                #[trigger] first[k],
            ) && reports_mismatch(file_name_mismatches(contributors@, teams@, repos@)[k], second[k]),
{
}

} // verus!
