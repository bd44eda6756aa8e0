use governance::graph::{build_graph_data, GraphBuilder, GraphLink, GraphNode};
use governance::model::{Contributor, EntityKey, EntityStore, Repo, Team};

fn key(kind: &str, name: &str) -> EntityKey {
    EntityKey { kind: kind.to_string(), name: name.to_string() }
}

fn contributor(github: &str) -> Contributor {
    Contributor {
        full_name: "Some One".to_string(),
        github_username: github.to_string(),
        slack_member_id: "U1".to_string(),
    }
}

fn team(name: &str, members: &[&str], repos: &[&str]) -> Team {
    Team {
        name: name.to_string(),
        members: members.iter().map(|m| m.to_string()).collect(),
        repos: repos.iter().map(|r| r.to_string()).collect(),
        slack_channel_ids: Vec::new(),
    }
}

fn repo(name: &str) -> Repo {
    Repo { name: name.to_string(), website: None, websites: None, description: None }
}

fn link(source: &str, target: &str, link_type: &str) -> GraphLink {
    GraphLink {
        source: source.to_string(),
        target: target.to_string(),
        link_type: link_type.to_string(),
    }
}

fn stores() -> (EntityStore<Contributor>, EntityStore<Team>, EntityStore<Repo>) {
    let mut contributors = EntityStore::new();
    contributors.insert(key("contributor", "alice"), contributor("alice"));
    contributors.insert(key("contributor", "bob"), contributor("bob"));
    let mut teams = EntityStore::new();
    teams.insert(key("team", "core"), team("core", &["alice", "bob"], &["site"]));
    teams.insert(key("team", "web"), team("web", &["alice"], &["site", "docs"]));
    let mut repos = EntityStore::new();
    repos.insert(key("repo", "site"), repo("site"));
    repos.insert(key("repo", "docs"), repo("docs"));
    (contributors, teams, repos)
}

#[test]
fn contributors_and_teams_are_linked_by_membership() {
    let (contributors, teams, repos) = stores();
    let graph = GraphBuilder::new(&contributors, &teams, &repos).build_contributors_teams_graph();
    assert_eq!(
        graph.nodes,
        vec![
            GraphNode::Contributor {
                id: "contributor:alice".to_string(),
                inner: contributor("alice")
            },
            GraphNode::Contributor { id: "contributor:bob".to_string(), inner: contributor("bob") },
            GraphNode::Team {
                id: "team:core".to_string(),
                inner: team("core", &["alice", "bob"], &["site"])
            },
            GraphNode::Team {
                id: "team:web".to_string(),
                inner: team("web", &["alice"], &["site", "docs"])
            },
        ]
    );
    assert_eq!(
        graph.links,
        vec![
            link("team:core", "contributor:alice", "team-member"),
            link("team:core", "contributor:bob", "team-member"),
            link("team:web", "contributor:alice", "team-member"),
        ]
    );
}

#[test]
fn teams_and_repos_are_linked_by_what_teams_list() {
    let (contributors, teams, repos) = stores();
    let graph = GraphBuilder::new(&contributors, &teams, &repos).build_teams_repos_graph();
    assert_eq!(graph.nodes.len(), 4);
    assert_eq!(
        graph.nodes[2],
        GraphNode::Repo { id: "repo:site".to_string(), inner: repo("site") }
    );
    assert_eq!(
        graph.links,
        vec![
            link("team:core", "repo:site", "team-repo"),
            link("team:web", "repo:site", "team-repo"),
            link("team:web", "repo:docs", "team-repo"),
        ]
    );
}

#[test]
fn contributors_reach_repos_through_teams_once() {
    let (contributors, teams, repos) = stores();
    let graph = GraphBuilder::new(&contributors, &teams, &repos).build_contributors_repos_graph();
    assert_eq!(graph.nodes.len(), 4);
    assert_eq!(
        graph.links,
        vec![
            link("contributor:alice", "repo:site", "contributor-repo"),
            link("contributor:bob", "repo:site", "contributor-repo"),
            link("contributor:alice", "repo:docs", "contributor-repo"),
        ]
    );
}

#[test]
fn links_are_drawn_to_names_without_record_too() {
    let contributors: EntityStore<Contributor> = EntityStore::new();
    let mut teams = EntityStore::new();
    teams.insert(key("team", "core"), team("core", &["ghost"], &["nowhere"]));
    let repos: EntityStore<Repo> = EntityStore::new();
    let graphs = build_graph_data(contributors, teams, repos);
    assert_eq!(graphs.default.nodes.len(), 1);
    assert_eq!(graphs.default.links, vec![link("team:core", "contributor:ghost", "team-member")]);
    assert_eq!(graphs.teams_repos.links, vec![link("team:core", "repo:nowhere", "team-repo")]);
    assert_eq!(graphs.contributors_repos.nodes.len(), 0);
    assert_eq!(
        graphs.contributors_repos.links,
        vec![link("contributor:ghost", "repo:nowhere", "contributor-repo")]
    );
}

#[test]
fn no_records_give_empty_graphs() {
    let graphs = build_graph_data(EntityStore::new(), EntityStore::new(), EntityStore::new());
    assert!(graphs.default.nodes.is_empty() && graphs.default.links.is_empty());
    assert!(graphs.teams_repos.nodes.is_empty() && graphs.teams_repos.links.is_empty());
    assert!(
        graphs.contributors_repos.nodes.is_empty() && graphs.contributors_repos.links.is_empty()
    );
}

#[test]
fn a_name_listed_twice_gives_one_link() {
    let contributors: EntityStore<Contributor> = EntityStore::new();
    let mut teams = EntityStore::new();
    teams.insert(key("team", "core"), team("core", &["a", "b", "a"], &["r", "r"]));
    let repos: EntityStore<Repo> = EntityStore::new();
    let graphs = build_graph_data(contributors, teams, repos);
    assert_eq!(
        graphs.default.links,
        vec![
            link("team:core", "contributor:a", "team-member"),
            link("team:core", "contributor:b", "team-member"),
        ]
    );
    assert_eq!(graphs.teams_repos.links, vec![link("team:core", "repo:r", "team-repo")]);
    assert_eq!(
        graphs.contributors_repos.links,
        vec![
            link("contributor:a", "repo:r", "contributor-repo"),
            link("contributor:b", "repo:r", "contributor-repo"),
        ]
    );
}
