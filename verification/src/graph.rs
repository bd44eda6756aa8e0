//! The records as graphs: who is in which team, which team has which
//! repository, and who works on which repository through a team.

use vstd::prelude::*;
use crate::checks::{targets_of, ReferenceKind};
use crate::lists::{distinct_texts, lemma_contains_push, lemma_contains_take};
use crate::model::{
    scoped, Contributor, ContributorView, EntityKey, EntityStore, Repo, RepoView, Team, TeamView,
};
use crate::text::texts;

verus! {

/// A node as plain values.
#[allow(inconsistent_fields)]
pub enum NodeView {
    Contributor { id: Seq<char>, inner: ContributorView },
    Team { id: Seq<char>, inner: TeamView },
    Repo { id: Seq<char>, inner: RepoView },
}

/// A node of a graph: a record with the id that tells it apart from the
/// records of the other kinds.
#[derive(Debug, PartialEq, Eq)]
#[allow(inconsistent_fields)]
pub enum GraphNode {
    Contributor { id: String, inner: Contributor },
    Team { id: String, inner: Team },
    Repo { id: String, inner: Repo },
}

impl View for GraphNode {
    type V = NodeView;

    open spec fn view(&self) -> NodeView {
        match self {
            GraphNode::Contributor { id, inner } => NodeView::Contributor {
                id: id@,
                inner: inner@,
            },
            GraphNode::Team { id, inner } => NodeView::Team { id: id@, inner: inner@ },
            GraphNode::Repo { id, inner } => NodeView::Repo { id: id@, inner: inner@ },
        }
    }
}

/// A link as plain values.
pub struct LinkView {
    pub source: Seq<char>,
    pub target: Seq<char>,
    pub link_type: Seq<char>,
}

/// A link of a graph, from the node with the id `source` to the node with
/// the id `target`.
#[derive(Debug, PartialEq, Eq)]
pub struct GraphLink {
    pub source: String,
    pub target: String,
    pub link_type: String,
}

impl View for GraphLink {
    type V = LinkView;

    open spec fn view(&self) -> LinkView {
        LinkView { source: self.source@, target: self.target@, link_type: self.link_type@ }
    }
}

/// A graph.
#[derive(Debug)]
pub struct GraphData {
    pub nodes: Vec<GraphNode>,
    pub links: Vec<GraphLink>,
}

/// The three graphs that are drawn.
#[derive(Debug)]
pub struct GraphSet {
    /// Contributors and teams, linked by membership.
    pub default: GraphData,
    /// Teams and repositories, linked by what each team lists.
    pub teams_repos: GraphData,
    /// Contributors and repositories, linked through the teams.
    pub contributors_repos: GraphData,
}

/// The plain values of a list of nodes.
pub open spec fn node_views(nodes: Seq<GraphNode>) -> Seq<NodeView> {
    Seq::new(nodes.len(), |i: int| nodes[i]@)
}

/// The plain values of a list of links.
pub open spec fn link_views(links: Seq<GraphLink>) -> Seq<LinkView> {
    Seq::new(links.len(), |i: int| links[i]@)
}

/// The id of the record stored under `key`.
pub open spec fn node_id(key: EntityKey) -> Seq<char> {
    scoped(key.kind@, key.name@)
}

/// One node for each contributor, in the order of the store.
pub open spec fn contributor_nodes(contributors: Seq<(EntityKey, Contributor)>) -> Seq<NodeView> {
    Seq::new(
        contributors.len(),
        |i: int|
            NodeView::Contributor { id: node_id(contributors[i].0), inner: contributors[i].1@ },
    )
}

/// One node for each team, in the order of the store.
pub open spec fn team_nodes(teams: Seq<(EntityKey, Team)>) -> Seq<NodeView> {
    Seq::new(teams.len(), |i: int| NodeView::Team { id: node_id(teams[i].0), inner: teams[i].1@ })
}

/// One node for each repository, in the order of the store.
pub open spec fn repo_nodes(repos: Seq<(EntityKey, Repo)>) -> Seq<NodeView> {
    Seq::new(repos.len(), |i: int| NodeView::Repo { id: node_id(repos[i].0), inner: repos[i].1@ })
}

/// The link from the team stored under `team` to the record it refers to by
/// the name `target`.
pub open spec fn team_link(kind: ReferenceKind, team: EntityKey, target: Seq<char>) -> LinkView {
    match kind {
        ReferenceKind::Member => LinkView {
            source: node_id(team),
            target: scoped("contributor"@, target),
            link_type: "team-member"@,
        },
        ReferenceKind::Repo => LinkView {
            source: node_id(team),
            target: scoped("repo"@, target),
            link_type: "team-repo"@,
        },
    }
}

/// The links of kind `kind` of one team, one for each name it lists, in the
/// order in which it lists them first.
pub open spec fn links_of_team(kind: ReferenceKind, entry: (EntityKey, Team)) -> Seq<LinkView> {
    Seq::new(
        targets_of(kind, entry.1).len(),
        |j: int| team_link(kind, entry.0, targets_of(kind, entry.1)[j]),
    )
}

/// The links of kind `kind` of all teams, team by team.
pub open spec fn team_links(kind: ReferenceKind, teams: Seq<(EntityKey, Team)>) -> Seq<LinkView>
    decreases teams.len(),
{
    if teams.len() == 0 {
        Seq::empty()
    } else {
        team_links(kind, teams.drop_last()) + links_of_team(kind, teams.last())
    }
}

/// Whether some team lists both the member `member` and the repository `repo`.
pub open spec fn shares_team(teams: Seq<(EntityKey, Team)>, member: Seq<char>, repo: Seq<char>) -> bool {
    exists|t: int|
        0 <= t < teams.len() && texts((#[trigger] teams[t]).1.members@).contains(member) && texts(
            teams[t].1.repos@,
        ).contains(repo)
}

/// The link from the contributor named `member` to the repository named `repo`.
pub open spec fn contributor_repo_link(pair: (Seq<char>, Seq<char>)) -> LinkView {
    LinkView {
        source: scoped("contributor"@, pair.0),
        target: scoped("repo"@, pair.1),
        link_type: "contributor-repo"@,
    }
}

/// The links of a list of pairs of a member and a repository.
pub open spec fn links_of_pairs(pairs: Seq<(Seq<char>, Seq<char>)>) -> Seq<LinkView> {
    Seq::new(pairs.len(), |i: int| contributor_repo_link(pairs[i]))
}

/// Whether `links` links each contributor to each repository of a team of
/// theirs, once: they are the links of a list of pairs of a member and a
/// repository that holds no pair twice and holds exactly the pairs that some
/// team lists together.
pub open spec fn links_through_teams(teams: Seq<(EntityKey, Team)>, links: Seq<LinkView>) -> bool {
    exists|pairs: Seq<(Seq<char>, Seq<char>)>|
        {
            &&& pairs.no_duplicates()
            &&& forall|member: Seq<char>, repo: Seq<char>|
                pairs.contains((member, repo)) <==> #[trigger] shares_team(teams, member, repo)
            &&& links == links_of_pairs(pairs)
        }
}

/// The plain values of a list of pairs.
pub open spec fn pair_views(pairs: Seq<(String, String)>) -> Seq<(Seq<char>, Seq<char>)> {
    Seq::new(pairs.len(), |i: int| (pairs[i].0@, pairs[i].1@))
}

fn push_contributor_nodes(nodes: &mut Vec<GraphNode>, contributors: &EntityStore<Contributor>)
    ensures
        node_views(final(nodes)@) == node_views(old(nodes)@) + contributor_nodes(contributors@),
{
    let ghost before = node_views(nodes@);
    let ghost wanted = contributor_nodes(contributors@);
    let mut i: usize = 0;
    assert(node_views(nodes@) =~= before + wanted.take(0));
    while i < contributors.entries.len()
        invariant
            i <= contributors@.len(),
            wanted == contributor_nodes(contributors@),
            node_views(nodes@) == before + wanted.take(i as int),
        decreases contributors@.len() - i,
    {
        let entry = &contributors.entries[i];
        let ghost so_far = node_views(nodes@);
        nodes.push(GraphNode::Contributor { id: entry.0.scoped_id(), inner: entry.1.duplicate() });
        proof {
            assert(node_views(nodes@) =~= so_far.push(wanted[i as int]));
            assert(before + wanted.take(i + 1) =~= (before + wanted.take(i as int)).push(
                wanted[i as int],
            ));
        }
        i += 1;
    }
    assert(wanted.take(wanted.len() as int) =~= wanted);
}

fn push_team_nodes(nodes: &mut Vec<GraphNode>, teams: &EntityStore<Team>)
    ensures
        node_views(final(nodes)@) == node_views(old(nodes)@) + team_nodes(teams@),
{
    let ghost before = node_views(nodes@);
    let ghost wanted = team_nodes(teams@);
    let mut i: usize = 0;
    assert(node_views(nodes@) =~= before + wanted.take(0));
    while i < teams.entries.len()
        invariant
            i <= teams@.len(),
            wanted == team_nodes(teams@),
            node_views(nodes@) == before + wanted.take(i as int),
        decreases teams@.len() - i,
    {
        let entry = &teams.entries[i];
        let ghost so_far = node_views(nodes@);
        nodes.push(GraphNode::Team { id: entry.0.scoped_id(), inner: entry.1.duplicate() });
        proof {
            assert(node_views(nodes@) =~= so_far.push(wanted[i as int]));
            assert(before + wanted.take(i + 1) =~= (before + wanted.take(i as int)).push(
                wanted[i as int],
            ));
        }
        i += 1;
    }
    assert(wanted.take(wanted.len() as int) =~= wanted);
}

fn push_repo_nodes(nodes: &mut Vec<GraphNode>, repos: &EntityStore<Repo>)
    ensures
        node_views(final(nodes)@) == node_views(old(nodes)@) + repo_nodes(repos@),
{
    let ghost before = node_views(nodes@);
    let ghost wanted = repo_nodes(repos@);
    let mut i: usize = 0;
    assert(node_views(nodes@) =~= before + wanted.take(0));
    while i < repos.entries.len()
        invariant
            i <= repos@.len(),
            wanted == repo_nodes(repos@),
            node_views(nodes@) == before + wanted.take(i as int),
        decreases repos@.len() - i,
    {
        let entry = &repos.entries[i];
        let ghost so_far = node_views(nodes@);
        nodes.push(GraphNode::Repo { id: entry.0.scoped_id(), inner: entry.1.duplicate() });
        proof {
            assert(node_views(nodes@) =~= so_far.push(wanted[i as int]));
            assert(before + wanted.take(i + 1) =~= (before + wanted.take(i as int)).push(
                wanted[i as int],
            ));
        }
        i += 1;
    }
    assert(wanted.take(wanted.len() as int) =~= wanted);
}

/// The link from the team stored under `team` to what it names `target`.
fn link_of_team(kind: ReferenceKind, team: &EntityKey, target: &String) -> (link: GraphLink)
    ensures
        link@ == team_link(kind, *team, target@),
{
    match kind {
        ReferenceKind::Member => {
            let target_id = EntityKey {
                kind: String::from_str("contributor"),
                name: target.clone(),
            };
            GraphLink {
                source: team.scoped_id(),
                target: target_id.scoped_id(),
                link_type: String::from_str("team-member"),
            }
        },
        ReferenceKind::Repo => {
            let target_id = EntityKey { kind: String::from_str("repo"), name: target.clone() };
            GraphLink {
                source: team.scoped_id(),
                target: target_id.scoped_id(),
                link_type: String::from_str("team-repo"),
            }
        },
    }
}

fn links_between(kind: ReferenceKind, teams: &EntityStore<Team>) -> (links: Vec<GraphLink>)
    ensures
        link_views(links@) == team_links(kind, teams@),
{
    let mut links: Vec<GraphLink> = Vec::new();
    let mut i: usize = 0;
    assert(link_views(links@) =~= team_links(kind, teams@.take(0)));
    while i < teams.entries.len()
        invariant
            i <= teams@.len(),
            link_views(links@) == team_links(kind, teams@.take(i as int)),
        decreases teams@.len() - i,
    {
        let entry = &teams.entries[i];
        let targets = match kind {
            ReferenceKind::Member => distinct_texts(&entry.1.members),
            ReferenceKind::Repo => distinct_texts(&entry.1.repos),
        };
        let ghost before = link_views(links@);
        let ghost of_team = links_of_team(kind, teams@[i as int]);
        let mut j: usize = 0;
        assert(link_views(links@) =~= before + of_team.take(0));
        while j < targets.len()
            invariant
                i < teams@.len(),
                *entry == teams@[i as int],
                texts(targets@) == targets_of(kind, entry.1),
                of_team == links_of_team(kind, teams@[i as int]),
                j <= targets@.len(),
                link_views(links@) == before + of_team.take(j as int),
            decreases targets@.len() - j,
        {
            let ghost so_far = link_views(links@);
            let link = link_of_team(kind, &entry.0, &targets[j]);
            assert(link@ == of_team[j as int]);
            links.push(link);
            proof {
                assert(link_views(links@) =~= so_far.push(of_team[j as int]));
                assert(before + of_team.take(j + 1) =~= (before + of_team.take(j as int)).push(
                    of_team[j as int],
                ));
            }
            j += 1;
        }
        proof {
            assert(of_team.take(j as int) =~= of_team);
            assert(teams@.take(i + 1).drop_last() =~= teams@.take(i as int));
            assert(teams@.take(i + 1).last() == teams@[i as int]);
        }
        i += 1;
    }
    assert(teams@.take(teams@.len() as int) =~= teams@);
    links
}

/// What one more team adds to the pairs that some team lists together.
proof fn lemma_shares_team_step(
    teams: Seq<(EntityKey, Team)>,
    i: int,
    member: Seq<char>,
    repo: Seq<char>,
)
    requires
        0 <= i < teams.len(),
    ensures
        shares_team(teams.take(i + 1), member, repo) <==> shares_team(teams.take(i), member, repo)
            || (texts(teams[i].1.members@).contains(member) && texts(teams[i].1.repos@).contains(
            repo,
        )),
        !shares_team(teams.take(0), member, repo),
{
    let now = teams.take(i + 1);
    let then = teams.take(i);
    if shares_team(now, member, repo) {
        let t = choose|t: int|
            0 <= t < now.len() && texts((#[trigger] now[t]).1.members@).contains(member) && texts(
                now[t].1.repos@,
            ).contains(repo);
        if t < i {
            assert(then[t] == now[t]);
        }
    }
    if shares_team(then, member, repo) {
        let t = choose|t: int|
            0 <= t < then.len() && texts((#[trigger] then[t]).1.members@).contains(member)
                && texts(then[t].1.repos@).contains(repo);
        assert(now[t] == then[t]);
    }
    if texts(teams[i].1.members@).contains(member) && texts(teams[i].1.repos@).contains(repo) {
        assert(now[i] == teams[i]);
    }
}

fn has_pair(pairs: &Vec<(String, String)>, member: &String, repo: &String) -> (found: bool)
    ensures
        found == pair_views(pairs@).contains((member@, repo@)),
{
    let mut i: usize = 0;
    while i < pairs.len()
        invariant
            i <= pairs@.len(),
            forall|k: int| 0 <= k < i ==> pair_views(pairs@)[k] != (member@, repo@),
        decreases pairs@.len() - i,
    {
        if pairs[i].0 == *member && pairs[i].1 == *repo {
            assert(pair_views(pairs@)[i as int] == (member@, repo@));
            return true;
        }
        i += 1;
    }
    false
}

/// Adds to `pairs` each pair of a member and a repository of `team` that it
/// does not hold yet.
fn add_team_pairs(pairs: &mut Vec<(String, String)>, team: &Team)
    requires
        pair_views(old(pairs)@).no_duplicates(),
    ensures
        pair_views(final(pairs)@).no_duplicates(),
        forall|member: Seq<char>, repo: Seq<char>| #[trigger]
            pair_views(final(pairs)@).contains((member, repo)) <==> pair_views(
                old(pairs)@,
            ).contains((member, repo)) || (texts(team.members@).contains(member) && texts(
                team.repos@,
            ).contains(repo)),
{
    let ghost before = pair_views(pairs@);
    let ghost members = texts(team.members@);
    let ghost repos = texts(team.repos@);
    let mut i: usize = 0;
    proof {
        assert forall|member: Seq<char>, repo: Seq<char>| #[trigger]
            pair_views(pairs@).contains((member, repo)) <==> before.contains((member, repo)) || (
            members.take(0).contains(member) && repos.contains(repo)) by {
            assert(members.take(0).len() == 0);
        }
    }
    while i < team.members.len()
        invariant
            i <= team.members@.len(),
            members == texts(team.members@),
            repos == texts(team.repos@),
            pair_views(pairs@).no_duplicates(),
            forall|member: Seq<char>, repo: Seq<char>| #[trigger]
                pair_views(pairs@).contains((member, repo)) <==> before.contains((member, repo))
                    || (members.take(i as int).contains(member) && repos.contains(repo)),
        decreases team.members@.len() - i,
    {
        let ghost at_member = pair_views(pairs@);
        let mut j: usize = 0;
        proof {
            assert forall|member: Seq<char>, repo: Seq<char>| #[trigger]
                pair_views(pairs@).contains((member, repo)) <==> at_member.contains((member, repo))
                    || (member == members[i as int] && repos.take(0).contains(repo)) by {
                assert(repos.take(0).len() == 0);
            }
        }
        while j < team.repos.len()
            invariant
                i < team.members@.len(),
                j <= team.repos@.len(),
                members == texts(team.members@),
                repos == texts(team.repos@),
                pair_views(pairs@).no_duplicates(),
                forall|member: Seq<char>, repo: Seq<char>| #[trigger]
                    pair_views(pairs@).contains((member, repo)) <==> at_member.contains(
                        (member, repo),
                    ) || (member == members[i as int] && repos.take(j as int).contains(repo)),
            decreases team.repos@.len() - j,
        {
            let ghost previous = pair_views(pairs@);
            let ghost pair = (members[i as int], repos[j as int]);
            if !has_pair(pairs, &team.members[i], &team.repos[j]) {
                pairs.push((team.members[i].clone(), team.repos[j].clone()));
                proof {
                    assert(pair_views(pairs@) =~= previous.push(pair));
                }
            }
            proof {
                let now = pair_views(pairs@);
                assert forall|member: Seq<char>, repo: Seq<char>| #[trigger]
                    now.contains((member, repo)) <==> at_member.contains((member, repo)) || (member
                        == members[i as int] && repos.take(j + 1).contains(repo)) by {
                    lemma_contains_push(previous, pair, (member, repo));
                    lemma_contains_take(repos, j as int, repo);
                    assert(previous.contains((member, repo)) <==> at_member.contains(
                        (member, repo),
                    ) || (member == members[i as int] && repos.take(j as int).contains(repo)));
                }
            }
            j += 1;
        }
        proof {
            assert(repos.take(repos.len() as int) =~= repos);
            let now = pair_views(pairs@);
            assert forall|member: Seq<char>, repo: Seq<char>| #[trigger]
                now.contains((member, repo)) <==> before.contains((member, repo)) || (members.take(
                    i + 1,
                ).contains(member) && repos.contains(repo)) by {
                lemma_contains_take(members, i as int, member);
                assert(at_member.contains((member, repo)) <==> before.contains((member, repo)) || (
                members.take(i as int).contains(member) && repos.contains(repo)));
            }
        }
        i += 1;
    }
    proof {
        assert(members.take(members.len() as int) =~= members);
    }
}

/// The link from a contributor to a repository of a team of theirs.
fn link_of_pair(pair: &(String, String)) -> (link: GraphLink)
    ensures
        link@ == contributor_repo_link((pair.0@, pair.1@)),
{
    let source_id = EntityKey { kind: String::from_str("contributor"), name: pair.0.clone() };
    let target_id = EntityKey { kind: String::from_str("repo"), name: pair.1.clone() };
    GraphLink {
        source: source_id.scoped_id(),
        target: target_id.scoped_id(),
        link_type: String::from_str("contributor-repo"),
    }
}

/// The links from each contributor to each repository of a team of theirs.
/// The pairs are gathered in a list that is searched before a pair is added,
/// which keeps each pair once as a set of texts would.
fn links_via_teams(teams: &EntityStore<Team>) -> (links: Vec<GraphLink>)
    ensures
        links_through_teams(teams@, link_views(links@)),
{
    let mut pairs: Vec<(String, String)> = Vec::new();
    let mut t: usize = 0;
    proof {
        assert forall|member: Seq<char>, repo: Seq<char>|
            pair_views(pairs@).contains((member, repo)) <==> #[trigger] shares_team(
                teams@.take(0),
                member,
                repo,
            ) by {
            assert(teams@.take(0).len() == 0);
        }
    }
    while t < teams.entries.len()
        invariant
            t <= teams@.len(),
            pair_views(pairs@).no_duplicates(),
            forall|member: Seq<char>, repo: Seq<char>|
                pair_views(pairs@).contains((member, repo)) <==> #[trigger] shares_team(
                    teams@.take(t as int),
                    member,
                    repo,
                ),
        decreases teams@.len() - t,
    {
        let ghost previous = pair_views(pairs@);
        add_team_pairs(&mut pairs, &teams.entries[t].1);
        proof {
            let now = pair_views(pairs@);
            assert forall|member: Seq<char>, repo: Seq<char>|
                now.contains((member, repo)) <==> #[trigger] shares_team(
                    teams@.take(t + 1),
                    member,
                    repo,
                ) by {
                lemma_shares_team_step(teams@, t as int, member, repo);
                assert(previous.contains((member, repo)) <==> shares_team(
                    teams@.take(t as int),
                    member,
                    repo,
                ));
                assert(now.contains((member, repo)) <==> previous.contains((member, repo)) || (
                texts(teams@[t as int].1.members@).contains(member) && texts(
                    teams@[t as int].1.repos@,
                ).contains(repo)));
            }
        }
        t += 1;
    }
    proof {
        assert(teams@.take(teams@.len() as int) =~= teams@);
    }
    let ghost listed = pair_views(pairs@);
    let mut links: Vec<GraphLink> = Vec::new();
    let mut k: usize = 0;
    while k < pairs.len()
        invariant
            k <= pairs@.len(),
            listed == pair_views(pairs@),
            links@.len() == k,
            forall|n: int| 0 <= n < k ==> (#[trigger] links@[n])@ == contributor_repo_link(listed[n]),
        decreases pairs@.len() - k,
    {
        let link = link_of_pair(&pairs[k]);
        links.push(link);
        k += 1;
    }
    proof {
        assert(link_views(links@) =~= links_of_pairs(listed));
    }
    links
}

/// Builds the graphs from the three stores.
pub struct GraphBuilder<'a> {
    pub contributors: &'a EntityStore<Contributor>,
    pub teams: &'a EntityStore<Team>,
    pub repos: &'a EntityStore<Repo>,
}

impl<'a> GraphBuilder<'a> {
    /// A builder on the three stores.
    pub fn new(
        contributors: &'a EntityStore<Contributor>,
        teams: &'a EntityStore<Team>,
        repos: &'a EntityStore<Repo>,
    ) -> (builder: Self)
        ensures
            builder.contributors == contributors,
            builder.teams == teams,
            builder.repos == repos,
    {
        GraphBuilder { contributors, teams, repos }
    }

    /// The graph of contributors and teams: a node for each contributor,
    /// then one for each team, and a link from each team to each member it
    /// lists, whether or not that member is on record.
    pub fn build_contributors_teams_graph(&self) -> (graph: GraphData)
        ensures
            node_views(graph.nodes@) == contributor_nodes(self.contributors@) + team_nodes(
                self.teams@,
            ),
            link_views(graph.links@) == team_links(ReferenceKind::Member, self.teams@),
    {
        let mut nodes: Vec<GraphNode> = Vec::new();
        assert(node_views(nodes@) =~= Seq::<NodeView>::empty());
        push_contributor_nodes(&mut nodes, self.contributors);
        assert(node_views(nodes@) =~= contributor_nodes(self.contributors@));
        push_team_nodes(&mut nodes, self.teams);
        let links = links_between(ReferenceKind::Member, self.teams);
        GraphData { nodes, links }
    }

    /// The graph of teams and repositories: a node for each team, then one
    /// for each repository, and a link from each team to each repository it
    /// lists, whether or not that repository is on record.
    pub fn build_teams_repos_graph(&self) -> (graph: GraphData)
        ensures
            node_views(graph.nodes@) == team_nodes(self.teams@) + repo_nodes(self.repos@),
            link_views(graph.links@) == team_links(ReferenceKind::Repo, self.teams@),
    {
        let mut nodes: Vec<GraphNode> = Vec::new();
        assert(node_views(nodes@) =~= Seq::<NodeView>::empty());
        push_team_nodes(&mut nodes, self.teams);
        assert(node_views(nodes@) =~= team_nodes(self.teams@));
        push_repo_nodes(&mut nodes, self.repos);
        let links = links_between(ReferenceKind::Repo, self.teams);
        GraphData { nodes, links }
    }

    /// The graph of contributors and repositories: a node for each
    /// contributor, then one for each repository, and one link from each
    /// member of a team to each repository of that team, however many teams
    /// bring the two together.
    pub fn build_contributors_repos_graph(&self) -> (graph: GraphData)
        ensures
            node_views(graph.nodes@) == contributor_nodes(self.contributors@) + repo_nodes(
                self.repos@,
            ),
            links_through_teams(self.teams@, link_views(graph.links@)),
    {
        let mut nodes: Vec<GraphNode> = Vec::new();
        assert(node_views(nodes@) =~= Seq::<NodeView>::empty());
        push_contributor_nodes(&mut nodes, self.contributors);
        assert(node_views(nodes@) =~= contributor_nodes(self.contributors@));
        push_repo_nodes(&mut nodes, self.repos);
        let links = links_via_teams(self.teams);
        GraphData { nodes, links }
    }
}

/// The three graphs of the records.
pub fn build_graph_data(
    contributors: EntityStore<Contributor>,
    teams: EntityStore<Team>,
    repos: EntityStore<Repo>,
) -> (graphs: GraphSet)
    ensures
        node_views(graphs.default.nodes@) == contributor_nodes(contributors@) + team_nodes(teams@),
        link_views(graphs.default.links@) == team_links(ReferenceKind::Member, teams@),
        node_views(graphs.teams_repos.nodes@) == team_nodes(teams@) + repo_nodes(repos@),
        link_views(graphs.teams_repos.links@) == team_links(ReferenceKind::Repo, teams@),
        node_views(graphs.contributors_repos.nodes@) == contributor_nodes(contributors@)
            + repo_nodes(repos@),
        links_through_teams(teams@, link_views(graphs.contributors_repos.links@)),
{
    let builder = GraphBuilder::new(&contributors, &teams, &repos);
    GraphSet {
        default: builder.build_contributors_teams_graph(),
        teams_repos: builder.build_teams_repos_graph(),
        contributors_repos: builder.build_contributors_repos_graph(),
    }
}

} // verus!
