//! The target resolver: turns a requested list of repository and group
//! names into an ordered, de-duplicated list of repository descriptors,
//! collecting non-fatal warnings for anything that cannot be resolved.

use vstd::prelude::*;
use crate::config::{Config, Group, Repository, RepositoryView, GroupView, spec_groups_of};
use crate::config::{clone_string, clone_string_vec};

verus! {

/// A non-fatal resolution warning.  Warnings never abort resolution; they
/// are collected and surfaced alongside the resolved targets.
#[derive(Debug)]
pub enum Warning {
    /// A requested name matched neither a group nor a repository.
    UnknownName { name: String },
    /// A group member is not a configured repository.
    GroupMemberMissing { group: String, member: String },
    /// A non-empty request resolved to no repository at all.
    NoValidRepositories,
}

/// Mathematical image of a [`Warning`].
pub ghost enum WarningView {
    UnknownName { name: Seq<char> },
    GroupMemberMissing { group: Seq<char>, member: Seq<char> },
    NoValidRepositories,
}

impl View for Warning {
    type V = WarningView;

    open spec fn view(&self) -> WarningView {
        match self {
            Warning::UnknownName { name } => WarningView::UnknownName { name: name@ },
            Warning::GroupMemberMissing { group, member } => WarningView::GroupMemberMissing {
                group: group@,
                member: member@,
            },
            Warning::NoValidRepositories => WarningView::NoValidRepositories,
        }
    }
}

impl DeepView for Warning {
    type V = WarningView;

    open spec fn deep_view(&self) -> WarningView {
        self.view()
    }
}

/// What resolution produced: the ordered target list and the warnings
/// emitted along the way.
pub struct Resolution {
    pub targets: Vec<Repository>,
    pub warnings: Vec<Warning>,
}

/// Mathematical image of a [`Resolution`].
#[verifier::ext_equal]
pub ghost struct ResolutionView {
    pub targets: Seq<RepositoryView>,
    pub warnings: Seq<WarningView>,
}

impl View for Resolution {
    type V = ResolutionView;

    open spec fn view(&self) -> ResolutionView {
        ResolutionView {
            targets: self.targets.deep_view(),
            warnings: self.warnings.deep_view(),
        }
    }
}

impl DeepView for Resolution {
    type V = ResolutionView;

    open spec fn deep_view(&self) -> ResolutionView {
        self.view()
    }
}

/// The first configured repository called `n`, if any.  Resolution always
/// uses the first match, so a defensive duplicate declaration of a name
/// cannot put two descriptors in one target list.
pub open spec fn find_repo(repos: Seq<RepositoryView>, n: Seq<char>) -> Option<RepositoryView>
    decreases repos.len(),
{
    if repos.len() == 0 {
        None
    } else if repos[0].name == n {
        Some(repos[0])
    } else {
        find_repo(repos.skip(1), n)
    }
}

/// Whether some already-resolved target is called `n`.
pub open spec fn contains_name(rs: Seq<RepositoryView>, n: Seq<char>) -> bool {
    exists|i: int| 0 <= i < rs.len() && rs[i].name == n
}

/// Whether a group called `n` is declared.
pub open spec fn is_group_name(groups: Seq<GroupView>, n: Seq<char>) -> bool {
    exists|i: int| 0 <= i < groups.len() && groups[i].name == n
}

/// The member names of every group called `n`, concatenated in declared
/// order.
pub open spec fn group_members(groups: Seq<GroupView>, n: Seq<char>) -> Seq<Seq<char>>
    decreases groups.len(),
{
    if groups.len() == 0 {
        Seq::empty()
    } else {
        let rest = group_members(groups.skip(1), n);
        if groups[0].name == n {
            groups[0].repositories + rest
        } else {
            rest
        }
    }
}

/// Resolves one repository name against the accumulator: a known name is
/// appended unless a target of that name is already present (first mention
/// wins the position); an unknown name adds the warning `w` instead.
pub open spec fn add_named(
    repos: Seq<RepositoryView>,
    acc: ResolutionView,
    n: Seq<char>,
    w: WarningView,
) -> ResolutionView {
    match find_repo(repos, n) {
        Some(r) => if contains_name(acc.targets, n) {
            acc
        } else {
            ResolutionView { targets: acc.targets.push(r), warnings: acc.warnings }
        },
        None => ResolutionView { targets: acc.targets, warnings: acc.warnings.push(w) },
    }
}

/// Resolves the member names of group `gname`, in order.
pub open spec fn add_members(
    repos: Seq<RepositoryView>,
    acc: ResolutionView,
    members: Seq<Seq<char>>,
    gname: Seq<char>,
) -> ResolutionView
    decreases members.len(),
{
    if members.len() == 0 {
        acc
    } else {
        let next = add_named(
            repos,
            acc,
            members[0],
            WarningView::GroupMemberMissing { group: gname, member: members[0] },
        );
        add_members(repos, next, members.skip(1), gname)
    }
}

/// Resolves one requested name: a declared group name expands to its
/// members; any other name is taken as a repository name.
pub open spec fn resolve_one(
    repos: Seq<RepositoryView>,
    groups: Seq<GroupView>,
    acc: ResolutionView,
    n: Seq<char>,
) -> ResolutionView {
    if is_group_name(groups, n) {
        add_members(repos, acc, group_members(groups, n), n)
    } else {
        add_named(repos, acc, n, WarningView::UnknownName { name: n })
    }
}

/// Folds [`resolve_one`] over the requested names, left to right.
pub open spec fn resolve_all(
    repos: Seq<RepositoryView>,
    groups: Seq<GroupView>,
    acc: ResolutionView,
    names: Seq<Seq<char>>,
) -> ResolutionView
    decreases names.len(),
{
    if names.len() == 0 {
        acc
    } else {
        resolve_all(repos, groups, resolve_one(repos, groups, acc, names[0]), names.skip(1))
    }
}

pub open spec fn empty_resolution() -> ResolutionView {
    ResolutionView { targets: Seq::empty(), warnings: Seq::empty() }
}

/// The full resolution contract.  An empty request selects every
/// configured repository, in declaration order, with no warning.  A
/// non-empty request is folded name by name, and a final warning is added
/// when nothing at all resolved.
pub open spec fn resolution_spec(
    repos: Seq<RepositoryView>,
    groups: Seq<GroupView>,
    names: Seq<Seq<char>>,
) -> ResolutionView {
    if names.len() == 0 {
        ResolutionView { targets: repos, warnings: Seq::empty() }
    } else {
        let acc = resolve_all(repos, groups, empty_resolution(), names);
        if acc.targets.len() == 0 {
            ResolutionView {
                targets: acc.targets,
                warnings: acc.warnings.push(WarningView::NoValidRepositories),
            }
        } else {
            acc
        }
    }
}

proof fn lemma_find_repo_skip(repos: Seq<RepositoryView>, n: Seq<char>, i: int)
    requires
        0 <= i <= repos.len(),
        forall|m: int| 0 <= m < i ==> repos[m].name != n,
    ensures
        find_repo(repos, n) == find_repo(repos.skip(i), n),
    decreases i,
{
    if i > 0 {
        lemma_find_repo_skip(repos.skip(1), n, i - 1);
        assert(forall|m: int| 0 <= m < i - 1 ==> repos.skip(1)[m] == repos[m + 1]);
        assert(repos.skip(1).skip(i - 1) =~= repos.skip(i));
    } else {
        assert(repos.skip(0) =~= repos);
    }
}

fn find_repository(repos: &Vec<Repository>, name: &String) -> (r: Option<usize>)
    ensures
        match r {
            Some(i) => i < repos.len() && repos.deep_view()[i as int].name == name@
                && find_repo(repos.deep_view(), name@) == Some(repos.deep_view()[i as int]),
            None => find_repo(repos.deep_view(), name@) is None,
        },
{
    let ghost dv = repos.deep_view();
    let mut i: usize = 0;
    while i < repos.len()
        invariant
            dv == repos.deep_view(),
            0 <= i <= repos.len(),
            dv.len() == repos.len(),
            forall|m: int| 0 <= m < i ==> dv[m].name != name@,
        decreases repos.len() - i,
    {
        if repos[i].name == *name {
            proof {
                lemma_find_repo_skip(dv, name@, i as int);
                assert(dv.skip(i as int)[0] == dv[i as int]);
            }
            return Some(i);
        }
        i = i + 1;
    }
    proof {
        lemma_find_repo_skip(dv, name@, dv.len() as int);
        assert(dv.skip(dv.len() as int).len() == 0);
    }
    None
}

fn targets_contain(targets: &Vec<Repository>, name: &String) -> (b: bool)
    ensures
        b == contains_name(targets.deep_view(), name@),
{
    let ghost dv = targets.deep_view();
    let mut i: usize = 0;
    while i < targets.len()
        invariant
            dv == targets.deep_view(),
            0 <= i <= targets.len(),
            dv.len() == targets.len(),
            forall|m: int| 0 <= m < i ==> dv[m].name != name@,
        decreases targets.len() - i,
    {
        if targets[i].name == *name {
            assert(contains_name(dv, name@)) by {
                assert(dv[i as int].name == name@);
            }
            return true;
        }
        i = i + 1;
    }
    false
}

spec fn group_name_in_prefix(gs: Seq<GroupView>, k: int, n: Seq<char>) -> bool {
    exists|m: int| 0 <= m < k && gs[m].name == n
}

/// Collects whether `name` names a declared group and, if so, the member
/// names of every group so named, concatenated in declared order.
fn collect_group_members(groups: &Vec<Group>, name: &String) -> (r: (bool, Vec<String>))
    ensures
        r.0 == is_group_name(groups.deep_view(), name@),
        r.1.deep_view() == group_members(groups.deep_view(), name@),
{
    let ghost gv = groups.deep_view();
    let mut found = false;
    let mut members: Vec<String> = Vec::new();
    let mut i: usize = 0;
    proof {
        assert(gv.skip(0) =~= gv);
        assert(members.deep_view() + group_members(gv, name@) =~= group_members(gv, name@));
    }
    while i < groups.len()
        invariant
            gv == groups.deep_view(),
            0 <= i <= groups.len(),
            gv.len() == groups.len(),
            found == group_name_in_prefix(gv, i as int, name@),
            group_members(gv, name@) == members.deep_view() + group_members(
                gv.skip(i as int),
                name@,
            ),
        decreases groups.len() - i,
    {
        let ghost rest = gv.skip(i as int);
        proof {
            assert(rest[0] == gv[i as int]);
            assert(rest.skip(1) =~= gv.skip(i + 1));
        }
        if groups[i].name == *name {
            found = true;
            let mut chunk = clone_string_vec(&groups[i].repositories);
            let ghost old_members = members.deep_view();
            let ghost chunk_dv = chunk.deep_view();
            proof {
                assert(chunk_dv == gv[i as int].repositories);
            }
            members.append(&mut chunk);
            proof {
                assert(members.deep_view() =~= old_members + chunk_dv);
                assert(old_members + (chunk_dv + group_members(gv.skip(i + 1), name@))
                    =~= (old_members + chunk_dv) + group_members(gv.skip(i + 1), name@));
            }
        }
        proof {
            if gv[i as int].name == name@ {
                assert(group_name_in_prefix(gv, i + 1, name@)) by {
                    assert(0 <= (i as int) && (i as int) < i + 1 && gv[i as int].name == name@);
                }
            } else {
                assert(group_name_in_prefix(gv, i + 1, name@) == group_name_in_prefix(
                    gv,
                    i as int,
                    name@,
                )) by {
                    if group_name_in_prefix(gv, i + 1, name@) {
                        let m = choose|m: int| 0 <= m < i + 1 && #[trigger] gv[m].name == name@;
                        assert(m < i as int);
                    }
                }
            }
        }
        i = i + 1;
    }
    proof {
        assert(group_name_in_prefix(gv, gv.len() as int, name@) == is_group_name(gv, name@));
        assert(gv.skip(gv.len() as int).len() == 0);
        assert(members.deep_view() + group_members(gv.skip(gv.len() as int), name@)
            =~= members.deep_view());
    }
    (found, members)
}

fn configured_groups<'a>(config: &'a Config, empty: &'a Vec<Group>) -> (r: &'a Vec<Group>)
    requires
        empty.deep_view().len() == 0,
    ensures
        r.deep_view() == spec_groups_of(config),
{
    match &config.groups {
        Some(g) => g,
        None => {
            proof {
                assert(empty.deep_view() =~= spec_groups_of(config));
            }
            empty
        },
    }
}

/// Resolves the requested repository and group names into an ordered,
/// de-duplicated target list plus the warnings emitted along the way,
/// exactly as [`resolution_spec`] describes.  An empty request selects
/// every configured repository in declaration order.
pub fn resolve(config: &Config, names: &Vec<String>) -> (r: Resolution)
    ensures
        r@ == resolution_spec(
            config.repositories.deep_view(),
            spec_groups_of(config),
            names.deep_view(),
        ),
{
    let ghost repos_dv = config.repositories.deep_view();
    let ghost groups_dv = spec_groups_of(config);
    let ghost names_dv = names.deep_view();

    if names.len() == 0 {
        let mut targets: Vec<Repository> = Vec::new();
        let mut i: usize = 0;
        while i < config.repositories.len()
            invariant
                repos_dv == config.repositories.deep_view(),
                0 <= i <= config.repositories.len(),
                repos_dv.len() == config.repositories.len(),
                targets.deep_view() =~= repos_dv.take(i as int),
            decreases config.repositories.len() - i,
        {
            let ghost old_dv = targets.deep_view();
            targets.push(config.repositories[i].clone());
            proof {
                assert(targets.deep_view() =~= old_dv.push(repos_dv[i as int]));
                assert(targets.deep_view() =~= repos_dv.take(i + 1));
            }
            i = i + 1;
        }
        proof {
            assert(repos_dv.take(repos_dv.len() as int) =~= repos_dv);
        }
        let r = Resolution { targets, warnings: Vec::new() };
        proof {
            assert(r@.warnings =~= Seq::<WarningView>::empty());
        }
        return r;
    }

    let empty_groups: Vec<Group> = Vec::new();
    let groups = configured_groups(config, &empty_groups);
    let mut targets: Vec<Repository> = Vec::new();
    let mut warnings: Vec<Warning> = Vec::new();
    let mut k: usize = 0;
    proof {
        assert(names_dv.skip(0) =~= names_dv);
        assert(ResolutionView {
            targets: targets.deep_view(),
            warnings: warnings.deep_view(),
        } =~= empty_resolution());
    }
    while k < names.len()
        invariant
            repos_dv == config.repositories.deep_view(),
            groups_dv == groups.deep_view(),
            groups_dv == spec_groups_of(config),
            names_dv == names.deep_view(),
            0 <= k <= names.len(),
            names_dv.len() == names.len(),
            resolve_all(repos_dv, groups_dv, empty_resolution(), names_dv) == resolve_all(
                repos_dv,
                groups_dv,
                ResolutionView { targets: targets.deep_view(), warnings: warnings.deep_view() },
                names_dv.skip(k as int),
            ),
        decreases names.len() - k,
    {
        let name = &names[k];
        proof {
            assert(names_dv.skip(k as int)[0] == names_dv[k as int]);
            assert(names_dv.skip(k as int).skip(1) =~= names_dv.skip(k + 1));
        }
        let ghost acc0 = ResolutionView {
            targets: targets.deep_view(),
            warnings: warnings.deep_view(),
        };
        let (is_grp, members) = collect_group_members(groups, name);
        if is_grp {
            let ghost members_dv = members.deep_view();
            let mut j: usize = 0;
            proof {
                assert(members_dv.skip(0) =~= members_dv);
            }
            while j < members.len()
                invariant
                    repos_dv == config.repositories.deep_view(),
                    members_dv == members.deep_view(),
                    0 <= j <= members.len(),
                    members_dv.len() == members.len(),
                    add_members(repos_dv, acc0, members_dv, name@) == add_members(
                        repos_dv,
                        ResolutionView {
                            targets: targets.deep_view(),
                            warnings: warnings.deep_view(),
                        },
                        members_dv.skip(j as int),
                        name@,
                    ),
                decreases members.len() - j,
            {
                let member = &members[j];
                let ghost acc_j = ResolutionView {
                    targets: targets.deep_view(),
                    warnings: warnings.deep_view(),
                };
                let ghost w = WarningView::GroupMemberMissing {
                    group: name@,
                    member: members_dv[j as int],
                };
                proof {
                    assert(members_dv.skip(j as int)[0] == members_dv[j as int]);
                    assert(members_dv.skip(j as int).skip(1) =~= members_dv.skip(j + 1));
                }
                match find_repository(&config.repositories, member) {
                    Some(idx) => {
                        if !targets_contain(&targets, member) {
                            let ghost old_t = targets.deep_view();
                            targets.push(config.repositories[idx].clone());
                            proof {
                                assert(targets.deep_view() =~= old_t.push(
                                    repos_dv[idx as int],
                                ));
                            }
                        }
                    },
                    None => {
                        let warn = Warning::GroupMemberMissing {
                            group: clone_string(name),
                            member: clone_string(member),
                        };
                        let ghost old_w = warnings.deep_view();
                        warnings.push(warn);
                        proof {
                            assert(warnings.deep_view() =~= old_w.push(w));
                        }
                    },
                }
                proof {
                    assert(ResolutionView {
                        targets: targets.deep_view(),
                        warnings: warnings.deep_view(),
                    } == add_named(repos_dv, acc_j, members_dv[j as int], w));
                }
                j = j + 1;
            }
            proof {
                assert(members_dv.skip(members_dv.len() as int).len() == 0);
                assert(members_dv == group_members(groups_dv, name@));
                assert(resolve_one(repos_dv, groups_dv, acc0, name@) == ResolutionView {
                    targets: targets.deep_view(),
                    warnings: warnings.deep_view(),
                });
            }
        } else {
            let ghost w = WarningView::UnknownName { name: name@ };
            match find_repository(&config.repositories, name) {
                Some(idx) => {
                    if !targets_contain(&targets, name) {
                        let ghost old_t = targets.deep_view();
                        targets.push(config.repositories[idx].clone());
                        proof {
                            assert(targets.deep_view() =~= old_t.push(repos_dv[idx as int]));
                        }
                    }
                },
                None => {
                    let warn = Warning::UnknownName { name: clone_string(name) };
                    let ghost old_w = warnings.deep_view();
                    warnings.push(warn);
                    proof {
                        assert(warnings.deep_view() =~= old_w.push(w));
                    }
                },
            }
            proof {
                assert(resolve_one(repos_dv, groups_dv, acc0, name@) == ResolutionView {
                    targets: targets.deep_view(),
                    warnings: warnings.deep_view(),
                });
            }
        }
        k = k + 1;
    }
    proof {
        assert(names_dv.skip(names_dv.len() as int).len() == 0);
    }
    if targets.len() == 0 {
        let ghost old_w = warnings.deep_view();
        warnings.push(Warning::NoValidRepositories);
        proof {
            assert(warnings.deep_view() =~= old_w.push(WarningView::NoValidRepositories));
        }
    }
    Resolution { targets, warnings }
}

/// The resolved target list alone, for callers that do not report
/// warnings themselves.
pub fn get_repositories_by_names(config: &Config, names: &Vec<String>) -> (r: Vec<Repository>)
    ensures
        r.deep_view() == resolution_spec(
            config.repositories.deep_view(),
            spec_groups_of(config),
            names.deep_view(),
        ).targets,
{
    let resolution = resolve(config, names);
    resolution.targets
}

/// No repository name appears twice in `rs`.
pub open spec fn unique_names(rs: Seq<RepositoryView>) -> bool {
    forall|i: int, j: int| 0 <= i < j < rs.len() ==> rs[i].name != rs[j].name
}

/// What `find_repo` returns is a configured repository of that name, and
/// it returns nothing exactly when no configured repository has the name.
pub proof fn lemma_find_repo_props(repos: Seq<RepositoryView>, n: Seq<char>)
    ensures
        match find_repo(repos, n) {
            Some(r) => r.name == n && contains_name(repos, n) && repos.contains(r),
            None => !contains_name(repos, n),
        },
    decreases repos.len(),
{
    if repos.len() == 0 {
    } else if repos[0].name == n {
        assert(contains_name(repos, n)) by {
            assert(repos[0].name == n);
        }
        assert(repos.contains(repos[0]));
    } else {
        lemma_find_repo_props(repos.skip(1), n);
        match find_repo(repos.skip(1), n) {
            Some(r) => {
                let i = choose|i: int|
                    0 <= i < repos.skip(1).len() && #[trigger] repos.skip(1)[i].name == n;
                assert(repos[i + 1].name == n);
                let j = choose|j: int|
                    0 <= j < repos.skip(1).len() && #[trigger] repos.skip(1)[j] == r;
                assert(repos[j + 1] == r);
                assert(repos.contains(r));
            },
            None => {
                if contains_name(repos, n) {
                    let i = choose|i: int| 0 <= i < repos.len() && #[trigger] repos[i].name == n;
                    assert(i != 0);
                    assert(repos.skip(1)[i - 1].name == n);
                }
            },
        }
    }
}

/// Every target in `rs` is one of the configured repositories.
pub open spec fn targets_configured(repos: Seq<RepositoryView>, rs: Seq<RepositoryView>) -> bool {
    forall|i: int| 0 <= i < rs.len() ==> repos.contains(#[trigger] rs[i])
}

proof fn lemma_add_named_configured(
    repos: Seq<RepositoryView>,
    acc: ResolutionView,
    n: Seq<char>,
    w: WarningView,
)
    requires
        targets_configured(repos, acc.targets),
    ensures
        targets_configured(repos, add_named(repos, acc, n, w).targets),
{
    lemma_find_repo_props(repos, n);
}

proof fn lemma_add_members_configured(
    repos: Seq<RepositoryView>,
    acc: ResolutionView,
    members: Seq<Seq<char>>,
    gname: Seq<char>,
)
    requires
        targets_configured(repos, acc.targets),
    ensures
        targets_configured(repos, add_members(repos, acc, members, gname).targets),
    decreases members.len(),
{
    if members.len() > 0 {
        let w = WarningView::GroupMemberMissing { group: gname, member: members[0] };
        lemma_add_named_configured(repos, acc, members[0], w);
        lemma_add_members_configured(
            repos,
            add_named(repos, acc, members[0], w),
            members.skip(1),
            gname,
        );
    }
}

proof fn lemma_resolve_all_configured(
    repos: Seq<RepositoryView>,
    groups: Seq<GroupView>,
    acc: ResolutionView,
    names: Seq<Seq<char>>,
)
    requires
        targets_configured(repos, acc.targets),
    ensures
        targets_configured(repos, resolve_all(repos, groups, acc, names).targets),
    decreases names.len(),
{
    if names.len() > 0 {
        if is_group_name(groups, names[0]) {
            lemma_add_members_configured(repos, acc, group_members(groups, names[0]), names[0]);
        } else {
            lemma_add_named_configured(
                repos,
                acc,
                names[0],
                WarningView::UnknownName { name: names[0] },
            );
        }
        lemma_resolve_all_configured(repos, groups, resolve_one(repos, groups, acc, names[0]),
            names.skip(1));
    }
}

/// Resolution invents nothing: every resolved target is one of the
/// configured repositories.
pub proof fn lemma_resolved_targets_configured(
    repos: Seq<RepositoryView>,
    groups: Seq<GroupView>,
    names: Seq<Seq<char>>,
)
    ensures
        targets_configured(repos, resolution_spec(repos, groups, names).targets),
{
    if names.len() == 0 {
        assert forall|i: int| 0 <= i < repos.len() implies repos.contains(#[trigger] repos[i]) by {
            assert(repos[i] == repos[i]);
        }
    } else {
        lemma_resolve_all_configured(repos, groups, empty_resolution(), names);
    }
}

proof fn lemma_add_named_unique(
    repos: Seq<RepositoryView>,
    acc: ResolutionView,
    n: Seq<char>,
    w: WarningView,
)
    requires
        unique_names(acc.targets),
    ensures
        unique_names(add_named(repos, acc, n, w).targets),
{
    lemma_find_repo_props(repos, n);
    let res = add_named(repos, acc, n, w);
    match find_repo(repos, n) {
        Some(r) => {
            if !contains_name(acc.targets, n) {
                assert forall|i: int, j: int| 0 <= i < j < res.targets.len() implies res
                    .targets[i].name != res.targets[j].name by {
                    if j == acc.targets.len() as int {
                        if res.targets[i].name == n {
                            assert(acc.targets[i].name == n);
                            assert(contains_name(acc.targets, n));
                        }
                    }
                }
            }
        },
        None => {},
    }
}

proof fn lemma_add_members_unique(
    repos: Seq<RepositoryView>,
    acc: ResolutionView,
    members: Seq<Seq<char>>,
    gname: Seq<char>,
)
    requires
        unique_names(acc.targets),
    ensures
        unique_names(add_members(repos, acc, members, gname).targets),
    decreases members.len(),
{
    if members.len() > 0 {
        let w = WarningView::GroupMemberMissing { group: gname, member: members[0] };
        lemma_add_named_unique(repos, acc, members[0], w);
        lemma_add_members_unique(
            repos,
            add_named(repos, acc, members[0], w),
            members.skip(1),
            gname,
        );
    }
}

proof fn lemma_resolve_all_unique(
    repos: Seq<RepositoryView>,
    groups: Seq<GroupView>,
    acc: ResolutionView,
    names: Seq<Seq<char>>,
)
    requires
        unique_names(acc.targets),
    ensures
        unique_names(resolve_all(repos, groups, acc, names).targets),
    decreases names.len(),
{
    if names.len() > 0 {
        if is_group_name(groups, names[0]) {
            lemma_add_members_unique(repos, acc, group_members(groups, names[0]), names[0]);
        } else {
            lemma_add_named_unique(
                repos,
                acc,
                names[0],
                WarningView::UnknownName { name: names[0] },
            );
        }
        lemma_resolve_all_unique(repos, groups, resolve_one(repos, groups, acc, names[0]),
            names.skip(1));
    }
}

/// A repository reachable through several requested names or overlapping
/// groups still appears only once in the resolved targets: no two targets
/// of a non-empty request share a name, and the first mention keeps the
/// position.
pub proof fn lemma_resolved_targets_unique(
    repos: Seq<RepositoryView>,
    groups: Seq<GroupView>,
    names: Seq<Seq<char>>,
)
    requires
        names.len() > 0,
    ensures
        unique_names(resolution_spec(repos, groups, names).targets),
{
    lemma_resolve_all_unique(repos, groups, empty_resolution(), names);
}

/// A mention of a name whose repository already stands among the targets
/// adds nothing and moves nothing: only the first mention counts.
pub proof fn lemma_later_mention_changes_no_target(
    repos: Seq<RepositoryView>,
    acc: ResolutionView,
    n: Seq<char>,
    w: WarningView,
)
    requires
        contains_name(acc.targets, n),
    ensures
        add_named(repos, acc, n, w).targets == acc.targets,
{
}

/// The first mention of a known name places its repository at the very
/// next position of the target list; an unknown name places nothing.
pub proof fn lemma_first_mention_takes_next_position(
    repos: Seq<RepositoryView>,
    acc: ResolutionView,
    n: Seq<char>,
    w: WarningView,
)
    requires
        !contains_name(acc.targets, n),
    ensures
        (match find_repo(repos, n) {
            Some(r) => add_named(repos, acc, n, w).targets == acc.targets.push(r),
            None => add_named(repos, acc, n, w).targets == acc.targets,
        }),
{
}

proof fn lemma_prefix_trans(a: Seq<RepositoryView>, b: Seq<RepositoryView>, c: Seq<RepositoryView>)
    requires
        a.is_prefix_of(b),
        b.is_prefix_of(c),
    ensures
        a.is_prefix_of(c),
{
    assert(a =~= c.subrange(0, a.len() as int)) by {
        assert(forall|i: int| 0 <= i < a.len() ==> a[i] == b.subrange(0, b.len() as int)[i]);
    }
}

proof fn lemma_add_named_extends(
    repos: Seq<RepositoryView>,
    acc: ResolutionView,
    n: Seq<char>,
    w: WarningView,
)
    ensures
        acc.targets.is_prefix_of(add_named(repos, acc, n, w).targets),
{
    let t = add_named(repos, acc, n, w).targets;
    assert(acc.targets =~= t.subrange(0, acc.targets.len() as int));
}

proof fn lemma_add_members_extends(
    repos: Seq<RepositoryView>,
    acc: ResolutionView,
    members: Seq<Seq<char>>,
    gname: Seq<char>,
)
    ensures
        acc.targets.is_prefix_of(add_members(repos, acc, members, gname).targets),
    decreases members.len(),
{
    if members.len() == 0 {
        assert(acc.targets =~= acc.targets.subrange(0, acc.targets.len() as int));
    } else {
        let w = WarningView::GroupMemberMissing { group: gname, member: members[0] };
        let next = add_named(repos, acc, members[0], w);
        lemma_add_named_extends(repos, acc, members[0], w);
        lemma_add_members_extends(repos, next, members.skip(1), gname);
        lemma_prefix_trans(
            acc.targets,
            next.targets,
            add_members(repos, next, members.skip(1), gname).targets,
        );
    }
}

/// Resolution only ever appends to the target list: whatever further
/// names are processed, every already-resolved repository keeps its
/// position.  With [`lemma_first_mention_takes_next_position`] and
/// [`lemma_later_mention_changes_no_target`] this fixes each target at
/// the position of its first mention.
pub proof fn lemma_resolution_append_only(
    repos: Seq<RepositoryView>,
    groups: Seq<GroupView>,
    acc: ResolutionView,
    names: Seq<Seq<char>>,
)
    ensures
        acc.targets.is_prefix_of(resolve_all(repos, groups, acc, names).targets),
    decreases names.len(),
{
    if names.len() == 0 {
        assert(acc.targets =~= acc.targets.subrange(0, acc.targets.len() as int));
    } else {
        let next = resolve_one(repos, groups, acc, names[0]);
        if is_group_name(groups, names[0]) {
            lemma_add_members_extends(repos, acc, group_members(groups, names[0]), names[0]);
        } else {
            lemma_add_named_extends(
                repos,
                acc,
                names[0],
                WarningView::UnknownName { name: names[0] },
            );
        }
        lemma_resolution_append_only(repos, groups, next, names.skip(1));
        lemma_prefix_trans(
            acc.targets,
            next.targets,
            resolve_all(repos, groups, next, names.skip(1)).targets,
        );
    }
}

/// Resolving the same request against the same configuration twice yields
/// identical targets and identical warnings.
pub proof fn lemma_resolution_deterministic(
    config: &Config,
    names: &Vec<String>,
    r1: Resolution,
    r2: Resolution,
)
    requires
        call_ensures(resolve, (config, names), r1),
        call_ensures(resolve, (config, names), r2),
    ensures
        r1@ == r2@,
{
}

/// An empty request selects every configured repository, in declaration
/// order, and warns about nothing.
pub proof fn lemma_empty_request_selects_all(repos: Seq<RepositoryView>, groups: Seq<GroupView>)
    ensures
        resolution_spec(repos, groups, Seq::empty()).targets == repos,
        resolution_spec(repos, groups, Seq::empty()).warnings == Seq::<WarningView>::empty(),
{
}

/// One unknown-name warning for each requested name, in request order.
pub open spec fn unknown_warnings(names: Seq<Seq<char>>) -> Seq<WarningView> {
    Seq::new(names.len(), |k: int| WarningView::UnknownName { name: names[k] })
}

proof fn lemma_resolve_all_unknown(
    repos: Seq<RepositoryView>,
    groups: Seq<GroupView>,
    acc: ResolutionView,
    names: Seq<Seq<char>>,
)
    requires
        forall|k: int| 0 <= k < names.len() ==> (!is_group_name(groups, #[trigger] names[k])
            && find_repo(repos, names[k]) is None),
    ensures
        resolve_all(repos, groups, acc, names) == (ResolutionView {
            targets: acc.targets,
            warnings: acc.warnings + unknown_warnings(names),
        }),
    decreases names.len(),
{
    if names.len() == 0 {
        assert(acc.warnings + unknown_warnings(names) =~= acc.warnings);
        assert(resolve_all(repos, groups, acc, names) =~= ResolutionView {
            targets: acc.targets,
            warnings: acc.warnings + unknown_warnings(names),
        });
    } else {
        let w = WarningView::UnknownName { name: names[0] };
        let next = ResolutionView { targets: acc.targets, warnings: acc.warnings.push(w) };
        assert(resolve_one(repos, groups, acc, names[0]) == next);
        assert(forall|k: int| 0 <= k < names.skip(1).len() ==> !is_group_name(
            groups,
            #[trigger] names.skip(1)[k],
        ) && find_repo(repos, names.skip(1)[k]) is None) by {
            assert(forall|k: int| 0 <= k < names.skip(1).len() ==> #[trigger] names.skip(1)[k]
                == names[k + 1]);
        }
        lemma_resolve_all_unknown(repos, groups, next, names.skip(1));
        assert(next.warnings + unknown_warnings(names.skip(1)) =~= acc.warnings
            + unknown_warnings(names));
        assert(resolve_all(repos, groups, acc, names) =~= ResolutionView {
            targets: acc.targets,
            warnings: acc.warnings + unknown_warnings(names),
        });
    }
}

/// A non-empty request in which no name matches a group or a repository
/// resolves to no targets at all, warns once per name, and closes with a
/// final warning that nothing valid was found.
pub proof fn lemma_unknown_names_resolve_empty(
    repos: Seq<RepositoryView>,
    groups: Seq<GroupView>,
    names: Seq<Seq<char>>,
)
    requires
        names.len() > 0,
        forall|k: int| 0 <= k < names.len() ==> (!is_group_name(groups, #[trigger] names[k])
            && find_repo(repos, names[k]) is None),
    ensures
        resolution_spec(repos, groups, names).targets == Seq::<RepositoryView>::empty(),
        resolution_spec(repos, groups, names).warnings == unknown_warnings(names).push(
            WarningView::NoValidRepositories,
        ),
{
    lemma_resolve_all_unknown(repos, groups, empty_resolution(), names);
    assert(empty_resolution().warnings + unknown_warnings(names) =~= unknown_warnings(names));
}

} // verus!
