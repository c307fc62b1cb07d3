//! The declaration side of adding a repository: the duplicate-name
//! check, the comma-separated group list, and the group updates that
//! enroll the new repository.  Creating the working tree on disk is the
//! caller's business.

use vstd::prelude::*;
use crate::config::{clone_string, clone_string_vec, spec_groups_of};
use crate::config::{Config, Group, GroupView, Repository, RepositoryView};
use crate::resolve::contains_name;
use crate::text::{split_fields, split_on, trim, trimmed};

verus! {

/// The group names in a comma-separated list, each trimmed of
/// surrounding whitespace.
pub open spec fn group_list_spec(s: Seq<char>) -> Seq<Seq<char>> {
    split_fields(s, ',').map_values(|f: Seq<char>| trimmed(f))
}

/// Splits a comma-separated group list and trims each name, exactly as
/// [`group_list_spec`] reads it.
pub fn split_group_list(s: &str) -> (r: Vec<String>)
    ensures
        r.deep_view() == group_list_spec(s@),
{
    let parts = split_on(s, ',');
    let ghost parts_dv = parts.deep_view();
    let mut out: Vec<String> = Vec::new();
    let mut i: usize = 0;
    while i < parts.len()
        invariant
            parts_dv == parts.deep_view(),
            0 <= i <= parts.len(),
            parts_dv.len() == parts.len(),
            out.deep_view() =~= parts_dv.map_values(|f: Seq<char>| trimmed(f)).take(i as int),
        decreases parts.len() - i,
    {
        let ghost old_dv = out.deep_view();
        let piece = trim(parts[i].as_str());
        out.push(piece);
        proof {
            assert(out.deep_view() =~= old_dv.push(trimmed(parts_dv[i as int])));
            assert(out.deep_view() =~= parts_dv.map_values(|f: Seq<char>| trimmed(f)).take(
                i + 1,
            ));
        }
        i = i + 1;
    }
    proof {
        let mapped = parts_dv.map_values(|f: Seq<char>| trimmed(f));
        assert(mapped.take(mapped.len() as int) =~= mapped);
    }
    out
}

/// Whether `n` occurs among the member names `ss`.
pub open spec fn string_in(ss: Seq<Seq<char>>, n: Seq<char>) -> bool {
    exists|i: int| 0 <= i < ss.len() && ss[i] == n
}

/// Index of the first group called `n`, or `gs.len()` when none is.
pub open spec fn find_group(gs: Seq<GroupView>, n: Seq<char>) -> nat
    decreases gs.len(),
{
    if gs.len() == 0 {
        0
    } else if gs[0].name == n {
        0
    } else {
        1 + find_group(gs.skip(1), n)
    }
}

/// Enrolls repository `rname` in the group called `gname`: the first
/// group of that name gains the member unless it already has it, and a
/// missing group is declared with the single member.
pub open spec fn add_member_to_groups(
    gs: Seq<GroupView>,
    gname: Seq<char>,
    rname: Seq<char>,
) -> Seq<GroupView> {
    let i = find_group(gs, gname) as int;
    if i >= gs.len() {
        gs.push(GroupView { name: gname, repositories: seq![rname] })
    } else {
        let g = gs[i];
        if string_in(g.repositories, rname) {
            gs
        } else {
            gs.update(i, GroupView { name: g.name, repositories: g.repositories.push(rname) })
        }
    }
}

/// Enrolls `rname` in every listed group, in order.
pub open spec fn add_member_all(
    gs: Seq<GroupView>,
    gnames: Seq<Seq<char>>,
    rname: Seq<char>,
) -> Seq<GroupView>
    decreases gnames.len(),
{
    if gnames.len() == 0 {
        gs
    } else {
        add_member_all(add_member_to_groups(gs, gnames[0], rname), gnames.skip(1), rname)
    }
}

proof fn lemma_find_group_skip(gs: Seq<GroupView>, n: Seq<char>, i: int)
    requires
        0 <= i <= gs.len(),
        forall|m: int| 0 <= m < i ==> gs[m].name != n,
    ensures
        find_group(gs, n) == i + find_group(gs.skip(i), n),
    decreases i,
{
    if i > 0 {
        lemma_find_group_skip(gs.skip(1), n, i - 1);
        assert(forall|m: int| 0 <= m < i - 1 ==> gs.skip(1)[m] == gs[m + 1]);
        assert(gs.skip(1).skip(i - 1) =~= gs.skip(i));
    } else {
        assert(gs.skip(0) =~= gs);
    }
}

fn find_group_index(gs: &Vec<Group>, name: &String) -> (r: Option<usize>)
    ensures
        match r {
            Some(i) => i < gs.len() && gs.deep_view()[i as int].name == name@ && find_group(
                gs.deep_view(),
                name@,
            ) == i,
            None => find_group(gs.deep_view(), name@) == gs.deep_view().len(),
        },
{
    let ghost dv = gs.deep_view();
    let mut i: usize = 0;
    while i < gs.len()
        invariant
            dv == gs.deep_view(),
            0 <= i <= gs.len(),
            dv.len() == gs.len(),
            forall|m: int| 0 <= m < i ==> dv[m].name != name@,
        decreases gs.len() - i,
    {
        if gs[i].name == *name {
            proof {
                lemma_find_group_skip(dv, name@, i as int);
                assert(dv.skip(i as int)[0] == dv[i as int]);
            }
            return Some(i);
        }
        i = i + 1;
    }
    proof {
        lemma_find_group_skip(dv, name@, dv.len() as int);
        assert(dv.skip(dv.len() as int).len() == 0);
    }
    None
}

fn members_contain(members: &Vec<String>, name: &String) -> (b: bool)
    ensures
        b == string_in(members.deep_view(), name@),
{
    let ghost dv = members.deep_view();
    let mut i: usize = 0;
    while i < members.len()
        invariant
            dv == members.deep_view(),
            0 <= i <= members.len(),
            dv.len() == members.len(),
            forall|m: int| 0 <= m < i ==> dv[m] != name@,
        decreases members.len() - i,
    {
        if members[i] == *name {
            assert(string_in(dv, name@)) by {
                assert(dv[i as int] == name@);
            }
            return true;
        }
        i = i + 1;
    }
    false
}

fn repositories_contain(repos: &Vec<Repository>, name: &String) -> (b: bool)
    ensures
        b == contains_name(repos.deep_view(), name@),
{
    let ghost dv = repos.deep_view();
    let mut i: usize = 0;
    while i < repos.len()
        invariant
            dv == repos.deep_view(),
            0 <= i <= repos.len(),
            dv.len() == repos.len(),
            forall|m: int| 0 <= m < i ==> dv[m].name != name@,
        decreases repos.len() - i,
    {
        if repos[i].name == *name {
            assert(contains_name(dv, name@)) by {
                assert(dv[i as int].name == name@);
            }
            return true;
        }
        i = i + 1;
    }
    false
}

fn clone_group_vec(v: &Vec<Group>) -> (r: Vec<Group>)
    ensures
        r.deep_view() == v.deep_view(),
{
    let mut out: Vec<Group> = Vec::new();
    let mut i: usize = 0;
    while i < v.len()
        invariant
            0 <= i <= v.len(),
            out.deep_view() =~= v.deep_view().take(i as int),
        decreases v.len() - i,
    {
        let ghost old_dv = out.deep_view();
        out.push(v[i].clone());
        proof {
            assert(out.deep_view() =~= old_dv.push(v.deep_view()[i as int]));
            assert(out.deep_view() =~= v.deep_view().take(i + 1));
        }
        i = i + 1;
    }
    proof {
        assert(v.deep_view().take(v.len() as int) =~= v.deep_view());
    }
    out
}

fn enroll_in_group(gs: &mut Vec<Group>, gname: &String, rname: &String)
    ensures
        final(gs).deep_view() == add_member_to_groups(old(gs).deep_view(), gname@, rname@),
{
    let ghost dv = gs.deep_view();
    match find_group_index(gs, gname) {
        Some(i) => {
            if !members_contain(&gs[i].repositories, rname) {
                let mut g = gs.remove(i);
                let ghost gv = g@;
                g.repositories.push(clone_string(rname));
                proof {
                    assert(g@.repositories =~= gv.repositories.push(rname@));
                }
                gs.insert(i, g);
                proof {
                    assert(gs.deep_view() =~= dv.update(
                        i as int,
                        GroupView {
                            name: dv[i as int].name,
                            repositories: dv[i as int].repositories.push(rname@),
                        },
                    ));
                }
            }
        },
        None => {
            let mut members: Vec<String> = Vec::new();
            members.push(clone_string(rname));
            let g = Group { name: clone_string(gname), repositories: members };
            proof {
                assert(g@.repositories =~= seq![rname@]);
            }
            gs.push(g);
            proof {
                assert(gs.deep_view() =~= dv.push(
                    GroupView { name: gname@, repositories: seq![rname@] },
                ));
            }
        },
    }
}

/// Adds a new repository to the declaration: refused (and nothing
/// changed) when a repository of that name is already configured; else
/// the descriptor is appended, and when a group list is given the
/// repository is enrolled in each named group, declaring groups that do
/// not exist yet.
pub fn add_repository(
    config: &mut Config,
    name: &String,
    path: &String,
    remote: Option<&String>,
    branch: Option<&String>,
    groups: Option<&String>,
) -> (added: bool)
    ensures
        added == !contains_name(old(config).repositories.deep_view(), name@),
        !added ==> (final(config).repositories.deep_view() == old(
            config,
        ).repositories.deep_view() && spec_groups_of(final(config)) == spec_groups_of(
            old(config),
        )),
        added ==> (final(config).repositories.deep_view() == old(
            config,
        ).repositories.deep_view().push(
            RepositoryView {
                name: name@,
                path: path@,
                remote: match remote {
                    Some(s) => Some(s@),
                    None => None,
                },
                branch: match branch {
                    Some(s) => Some(s@),
                    None => None,
                },
                groups: match groups {
                    Some(s) => Some(group_list_spec(s@)),
                    None => None,
                },
            },
        )),
        added ==> (spec_groups_of(final(config)) == match groups {
            Some(s) => add_member_all(spec_groups_of(old(config)), group_list_spec(s@), name@),
            None => spec_groups_of(old(config)),
        }),
        (added && groups is Some) ==> final(config).groups is Some,
        (!added || groups is None) ==> (final(config).groups is Some <==> old(
            config,
        ).groups is Some),
{
    let ghost old_repos = config.repositories.deep_view();
    let ghost old_groups = spec_groups_of(config);
    if repositories_contain(&config.repositories, name) {
        return false;
    }
    let group_names: Option<Vec<String>> = match groups {
        Some(s) => Some(split_group_list(s.as_str())),
        None => None,
    };
    let repo = Repository {
        name: clone_string(name),
        path: clone_string(path),
        remote: match remote {
            Some(s) => Some(clone_string(s)),
            None => None,
        },
        branch: match branch {
            Some(s) => Some(clone_string(s)),
            None => None,
        },
        groups: match &group_names {
            Some(v) => Some(clone_string_vec(v)),
            None => None,
        },
    };
    let ghost repo_view = repo@;
    config.repositories.push(repo);
    proof {
        assert(config.repositories.deep_view() =~= old_repos.push(repo_view));
    }
    match group_names {
        Some(gnames) => {
            let ghost gnames_dv = gnames.deep_view();
            let mut updated: Vec<Group> = match &config.groups {
                Some(gs) => clone_group_vec(gs),
                None => {
                    let fresh: Vec<Group> = Vec::new();
                    proof {
                        assert(fresh.deep_view() =~= old_groups);
                    }
                    fresh
                },
            };
            let mut k: usize = 0;
            proof {
                assert(gnames_dv.skip(0) =~= gnames_dv);
            }
            while k < gnames.len()
                invariant
                    gnames_dv == gnames.deep_view(),
                    0 <= k <= gnames.len(),
                    gnames_dv.len() == gnames.len(),
                    add_member_all(old_groups, gnames_dv, name@) == add_member_all(
                        updated.deep_view(),
                        gnames_dv.skip(k as int),
                        name@,
                    ),
                decreases gnames.len() - k,
            {
                proof {
                    assert(gnames_dv.skip(k as int)[0] == gnames_dv[k as int]);
                    assert(gnames_dv.skip(k as int).skip(1) =~= gnames_dv.skip(k + 1));
                }
                enroll_in_group(&mut updated, &gnames[k], name);
                k = k + 1;
            }
            proof {
                assert(gnames_dv.skip(gnames_dv.len() as int).len() == 0);
            }
            config.groups = Some(updated);
        },
        None => {},
    }
    true
}

} // verus!
