//! Filing the records that were read into stores.
//!
//! Reading and parsing the files is left to the caller, who hands over each
//! record with the stem of its file's name.

use vstd::prelude::*;
use crate::model::{Contributor, EntityKey, EntityStore, Repo, Team};

verus! {

/// Whether the file at `i` is the last of `files` with its stem.
pub open spec fn is_last_of_stem<T>(files: Seq<(String, T)>, i: int) -> bool {
    &&& 0 <= i < files.len()
    &&& forall|j: int| i < j < files.len() ==> (#[trigger] files[j]).0@ != files[i].0@
}

/// Whether `store` is what filing `files` under the kind `kind` gives: every
/// key is of that kind, the names are the stems, no name is used twice, and
/// under each name stands the record of the last file with that stem.
pub open spec fn holds_files<T>(store: EntityStore<T>, kind: Seq<char>, files: Seq<(String, T)>) -> bool {
    &&& store.wf()
    &&& forall|name: Seq<char>| #[trigger]
        store.has_name(name) <==> exists|i: int|
            0 <= i < files.len() && (#[trigger] files[i]).0@ == name
    &&& forall|k: int|
        0 <= k < store@.len() ==> (#[trigger] store@[k]).0.kind@ == kind && exists|i: int|
            is_last_of_stem(files, i) && (#[trigger] files[i]).0@ == store@[k].0.name@
                && files[i].1 == store@[k].1
}

/// Files each record under a key of kind `item_name` and the stem of its
/// file's name. Of two files with one stem the later one stays.
pub fn load_from_dir<T>(item_name: &str, files: Vec<(String, T)>) -> (store: EntityStore<T>)
    ensures
        holds_files(store, item_name@, files@),
{
    let ghost all = files@;
    let mut store: EntityStore<T> = EntityStore::new();
    for entry in it: files.into_iter()
        invariant
            it.seq() == all,
            holds_files(store, item_name@, all.take(it.index() as int)),
    {
        let ghost n = it.index() as int;
        let ghost before = store;
        let ghost then = all.take(n);
        let ghost now = all.take(n + 1);
        assert(entry == all[n]);
        let key = EntityKey { kind: String::from_str(item_name), name: entry.0 };
        store.insert(key, entry.1);
        proof {
            assert(now =~= then.push(all[n]));
            assert forall|name: Seq<char>| #[trigger]
                store.has_name(name) <==> exists|i: int|
                    0 <= i < now.len() && (#[trigger] now[i]).0@ == name by {
                if store.has_name(name) {
                    let k = choose|k: int| 0 <= k < store@.len() && #[trigger] store@[k].0.name@ == name;
                    if name != all[n].0@ {
                        assert(before.has_name(name)) by {
                            if before.has_name(all[n].0@) {
                                assert(before@[k].0.name@ == name);
                            } else {
                                assert(before@[k].0.name@ == name);
                            }
                        }
                        let i = choose|i: int| 0 <= i < then.len() && (#[trigger] then[i]).0@ == name;
                        assert(now[i].0@ == name);
                    } else {
                        assert(now[n].0@ == name);
                    }
                }
                if exists|i: int| 0 <= i < now.len() && (#[trigger] now[i]).0@ == name {
                    let i = choose|i: int| 0 <= i < now.len() && (#[trigger] now[i]).0@ == name;
                    if i < n {
                        assert(then[i].0@ == name);
                        assert(before.has_name(name));
                        let k = choose|k: int| 0 <= k < before@.len() && #[trigger] before@[k].0.name@ == name;
                        assert(store@[k].0.name@ == name);
                    } else {
                        if before.has_name(all[n].0@) {
                            let k = choose|k: int| 0 <= k < before@.len() && #[trigger] before@[k].0.name@ == all[n].0@;
                            assert(store@[k].0.name@ == name);
                        } else {
                            assert(store@[before@.len() as int].0.name@ == name);
                        }
                    }
                }
            }
            assert forall|k: int| 0 <= k < store@.len() implies (#[trigger] store@[k]).0.kind@
                == item_name@ && exists|i: int|
                is_last_of_stem(now, i) && (#[trigger] now[i]).0@ == store@[k].0.name@ && now[i].1
                    == store@[k].1 by {
                if store@[k].0.name@ == all[n].0@ {
                    assert(is_last_of_stem(now, n));
                    assert(now[n].0@ == store@[k].0.name@ && now[n].1 == store@[k].1);
                } else {
                    assert(store@[k] == before@[k]);
                    let i = choose|i: int|
                        is_last_of_stem(then, i) && (#[trigger] then[i]).0@ == before@[k].0.name@
                            && then[i].1 == before@[k].1;
                    assert forall|j: int| i < j < now.len() implies (#[trigger] now[j]).0@
                        != now[i].0@ by {
                        if j < n {
                            assert(then[j].0@ != then[i].0@);
                        }
                    }
                    assert(is_last_of_stem(now, i));
                    assert(now[i].0@ == store@[k].0.name@ && now[i].1 == store@[k].1);
                }
            }
        }
    }
    proof {
        assert(all.take(all.len() as int) =~= all);
    }
    store
}

/// Files the contributors that were read, each under the stem of its file's
/// name, which is meant to be the contributor's GitHub username.
pub fn load_contributors(files: Vec<(String, Contributor)>) -> (store: EntityStore<Contributor>)
    ensures
        holds_files(store, "contributor"@, files@),
{
    load_from_dir("contributor", files)
}

/// Files the teams that were read, each under the stem of its file's name.
pub fn load_teams(files: Vec<(String, Team)>) -> (store: EntityStore<Team>)
    ensures
        holds_files(store, "team"@, files@),
{
    load_from_dir("team", files)
}

/// Files the repositories that were read, each under the stem of its file's
/// name.
pub fn load_repos(files: Vec<(String, Repo)>) -> (store: EntityStore<Repo>)
    ensures
        holds_files(store, "repo"@, files@),
{
    load_from_dir("repo", files)
}

} // verus!
