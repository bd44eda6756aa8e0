//! The records that are validated and the findings that validation yields.

use vstd::prelude::*;
use vstd::std_specs::cmp::PartialEqSpecImpl;
use crate::text::{copy_texts, join3, texts};

verus! {

/// A person who contributes, as the record file describes them.
#[derive(Debug, Clone, PartialEq, Eq)]
pub struct Contributor {
    pub full_name: String,
    pub github_username: String,
    pub slack_member_id: String,
}

/// A team with the names of its members and repositories and the ids of
/// its Slack channels.
#[derive(Debug, Clone, PartialEq, Eq)]
pub struct Team {
    pub name: String,
    pub members: Vec<String>,
    pub repos: Vec<String>,
    pub slack_channel_ids: Vec<String>,
}

/// A repository.
#[derive(Debug, Clone, PartialEq, Eq)]
pub struct Repo {
    pub name: String,
    pub website: Option<String>,
    pub websites: Option<Vec<String>>,
    pub description: Option<String>,
}

/// A contributor as plain values.
pub struct ContributorView {
    pub full_name: Seq<char>,
    pub github_username: Seq<char>,
    pub slack_member_id: Seq<char>,
}

/// A team as plain values.
pub struct TeamView {
    pub name: Seq<char>,
    pub members: Seq<Seq<char>>,
    pub repos: Seq<Seq<char>>,
    pub slack_channel_ids: Seq<Seq<char>>,
}

/// A repository as plain values.
pub struct RepoView {
    pub name: Seq<char>,
    pub website: Option<Seq<char>>,
    pub websites: Option<Seq<Seq<char>>>,
    pub description: Option<Seq<char>>,
}

/// The text of an optional string.
pub open spec fn optional_text(text: Option<String>) -> Option<Seq<char>> {
    match text {
        Some(inner) => Some(inner@),
        None => None,
    }
}

impl View for Contributor {
    type V = ContributorView;

    open spec fn view(&self) -> ContributorView {
        ContributorView {
            full_name: self.full_name@,
            github_username: self.github_username@,
            slack_member_id: self.slack_member_id@,
        }
    }
}

impl View for Team {
    type V = TeamView;

    open spec fn view(&self) -> TeamView {
        TeamView {
            name: self.name@,
            members: texts(self.members@),
            repos: texts(self.repos@),
            slack_channel_ids: texts(self.slack_channel_ids@),
        }
    }
}

impl View for Repo {
    type V = RepoView;

    open spec fn view(&self) -> RepoView {
        RepoView {
            name: self.name@,
            website: optional_text(self.website),
            websites: match self.websites {
                Some(list) => Some(texts(list@)),
                None => None,
            },
            description: optional_text(self.description),
        }
    }
}

/// A copy of an optional string.
pub fn copy_optional_text(text: &Option<String>) -> (copy: Option<String>)
    ensures
        optional_text(copy) == optional_text(*text),
{
    match text {
        Some(inner) => Some(inner.clone()),
        None => None,
    }
}

impl Contributor {
    /// A copy of the record.
    pub fn duplicate(&self) -> (copy: Contributor)
        ensures
            copy@ == self@,
    {
        Contributor {
            full_name: self.full_name.clone(),
            github_username: self.github_username.clone(),
            slack_member_id: self.slack_member_id.clone(),
        }
    }
}

impl Team {
    /// A copy of the record.
    pub fn duplicate(&self) -> (copy: Team)
        ensures
            copy@ == self@,
    {
        Team {
            name: self.name.clone(),
            members: copy_texts(&self.members),
            repos: copy_texts(&self.repos),
            slack_channel_ids: copy_texts(&self.slack_channel_ids),
        }
    }
}

impl Repo {
    /// A copy of the record.
    pub fn duplicate(&self) -> (copy: Repo)
        ensures
            copy@ == self@,
    {
        Repo {
            name: self.name.clone(),
            website: copy_optional_text(&self.website),
            websites: match &self.websites {
                Some(list) => Some(copy_texts(list)),
                None => None,
            },
            description: copy_optional_text(&self.description),
        }
    }
}

/// The key under which a record is stored: its kind (`"contributor"`,
/// `"team"` or `"repo"`) and the stem of its file's name.
///
/// Two keys are equal when their names are equal. The kind is carried along
/// and takes no part in the comparison: each store holds records of one kind
/// only, so a team and a repository of one name never meet in one store.
#[derive(Debug, Clone)]
pub struct EntityKey {
    pub kind: String,
    pub name: String,
}

/// The text `kind:name`.
pub open spec fn scoped(kind: Seq<char>, name: Seq<char>) -> Seq<char> {
    kind + seq![':'] + name
}

impl EntityKey {
    /// The key's name prefixed by its kind, which tells records of different
    /// kinds apart.
    pub fn scoped_id(&self) -> (id: String)
        ensures
            id@ == scoped(self.kind@, self.name@),
    {
        proof {
            reveal_strlit(":");
            assert(":"@ =~= seq![':']);
        }
        join3(self.kind.as_str(), ":", self.name.as_str())
    }

    /// What the key is shown as: its name.
    pub fn to_string(&self) -> (shown: String)
        ensures
            shown@ == self.name@,
    {
        self.name.clone()
    }
}

impl PartialEq for EntityKey {
    fn eq(&self, other: &Self) -> (same: bool) {
        self.name == other.name
    }
}

impl PartialEqSpecImpl for EntityKey {
    open spec fn obeys_eq_spec() -> bool {
        true
    }

    open spec fn eq_spec(&self, other: &Self) -> bool {
        self.name@ == other.name@
    }
}

impl Eq for EntityKey {}

/// The records of one kind, each under its key, in the order in which they
/// were stored.
///
/// This is a map from names to records, kept as a list that is searched by
/// name. A `HashMap` would not do here: vstd states what a hash map holds
/// only for keys whose hashing it knows, which are the integer types, and
/// these keys are texts. What the map gave, that no name occurs twice, is
/// the invariant `wf`.
#[derive(Debug)]
pub struct EntityStore<T> {
    pub entries: Vec<(EntityKey, T)>,
}

impl<T> View for EntityStore<T> {
    type V = Seq<(EntityKey, T)>;

    open spec fn view(&self) -> Seq<(EntityKey, T)> {
        self.entries@
    }
}

impl<T> EntityStore<T> {
    /// Whether a record is stored under `name`.
    pub open spec fn has_name(self, name: Seq<char>) -> bool {
        exists|i: int| 0 <= i < self@.len() && #[trigger] self@[i].0.name@ == name
    }

    /// The names under which records are stored, as a set.
    pub open spec fn name_set(self) -> Set<Seq<char>> {
        Set::new(|name: Seq<char>| self.has_name(name))
    }

    /// No name is used twice.
    pub open spec fn wf(self) -> bool {
        forall|i: int, j: int|
            0 <= i < j < self@.len() ==> #[trigger] self@[i].0.name@ != #[trigger] self@[j].0.name@
    }

    /// A store without records.
    pub fn new() -> (store: Self)
        ensures
            store@.len() == 0,
            store.wf(),
    {
        EntityStore { entries: Vec::new() }
    }

    /// The number of records.
    pub fn len(&self) -> (count: usize)
        ensures
            count == self@.len(),
    {
        self.entries.len()
    }

    /// The position of the record stored under `name`, if there is one.
    pub fn find(&self, name: &String) -> (found: Option<usize>)
        ensures
            found is Some <==> self.has_name(name@),
            found matches Some(at) ==> at < self@.len() && self@[at as int].0.name@ == name@ && forall|
                j: int,
            | 0 <= j < at ==> #[trigger] self@[j].0.name@ != name@,
    {
        let mut i: usize = 0;
        while i < self.entries.len()
            invariant
                i <= self@.len(),
                forall|j: int| 0 <= j < i ==> #[trigger] self@[j].0.name@ != name@,
            decreases self@.len() - i,
        {
            if self.entries[i].0.name == *name {
                return Some(i);
            }
            i += 1;
        }
        None
    }

    /// Whether a record is stored under the name of `key`. The kind of `key`
    /// is not looked at.
    pub fn contains_key(&self, key: &EntityKey) -> (found: bool)
        ensures
            found == self.has_name(key.name@),
    {
        self.find(&key.name).is_some()
    }

    /// Stores `value` under `key`. Where a record is already stored under
    /// that name, its value is replaced and its key stays as it was; else the
    /// record is added at the end.
    pub fn insert(&mut self, key: EntityKey, value: T)
        requires
            old(self).wf(),
        ensures
            final(self).wf(),
            old(self).has_name(key.name@) ==> exists|at: int|
                0 <= at < old(self)@.len() && #[trigger] old(self)@[at].0.name@ == key.name@
                    && final(self)@ == old(self)@.update(at, (old(self)@[at].0, value)),
            !old(self).has_name(key.name@) ==> final(self)@ == old(self)@.push((key, value)),
    {
        match self.find(&key.name) {
            Some(at) => {
                let ghost before = self@;
                self.entries[at].1 = value;
                assert(self@ =~= before.update(at as int, (before[at as int].0, value)));
                assert forall|i: int| 0 <= i < self@.len() implies #[trigger] self@[i].0.name@
                    == before[i].0.name@ by {}
            },
            None => {
                let ghost before = self@;
                self.entries.push((key, value));
                assert forall|i: int| 0 <= i < before.len() implies #[trigger] self@[i].0.name@
                    != key.name@ by {
                    assert(self@[i] == before[i]);
                    assert(before[i].0.name@ != key.name@);
                }
            },
        }
    }
}

/// What a finding says, as plain text: the file it is about and the message.
pub struct Finding {
    pub file: Seq<char>,
    pub message: Seq<char>,
}

/// A definite violation found in a file.
#[derive(Debug, PartialEq, Eq)]
pub struct ValidationError {
    pub file: String,
    pub message: String,
}

/// A check on a file that could not be settled.
#[derive(Debug, PartialEq, Eq)]
pub struct ValidationWarning {
    pub file: String,
    pub message: String,
}

impl View for ValidationError {
    type V = Finding;

    open spec fn view(&self) -> Finding {
        Finding { file: self.file@, message: self.message@ }
    }
}

impl View for ValidationWarning {
    type V = Finding;

    open spec fn view(&self) -> Finding {
        Finding { file: self.file@, message: self.message@ }
    }
}

/// The path of the file that holds the contributor stored under `name`.
pub open spec fn contributor_path(name: Seq<char>) -> Seq<char> {
    "contributors/"@ + name + ".toml"@
}

/// The path of the file that holds the team stored under `name`.
pub open spec fn team_path(name: Seq<char>) -> Seq<char> {
    "teams/"@ + name + ".toml"@
}

/// The path of the file that holds the repository stored under `name`.
pub open spec fn repo_path(name: Seq<char>) -> Seq<char> {
    "repos/"@ + name + ".toml"@
}

/// Writes the path of a contributor's file.
pub fn contributor_file(key: &EntityKey) -> (path: String)
    ensures
        path@ == contributor_path(key.name@),
{
    join3("contributors/", key.name.as_str(), ".toml")
}

/// Writes the path of a team's file.
pub fn team_file(key: &EntityKey) -> (path: String)
    ensures
        path@ == team_path(key.name@),
{
    join3("teams/", key.name.as_str(), ".toml")
}

/// Writes the path of a repository's file.
pub fn repo_file(key: &EntityKey) -> (path: String)
    ensures
        path@ == repo_path(key.name@),
{
    join3("repos/", key.name.as_str(), ".toml")
}

} // verus!
