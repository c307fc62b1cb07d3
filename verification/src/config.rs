//! The configured data model: repository and group descriptors, the
//! configuration that holds them, and the bootstrap content used when no
//! configuration exists yet.

use vstd::prelude::*;
use crate::text::has_prefix;

verus! {

/// Identity and connection facts for one working tree, as declared in the
/// configuration.  The core only reads descriptors; it never mutates them
/// during a batch.
pub struct Repository {
    pub name: String,
    pub path: String,
    pub remote: Option<String>,
    pub branch: Option<String>,
    pub groups: Option<Vec<String>>,
}

/// Mathematical image of a [`Repository`].
pub ghost struct RepositoryView {
    pub name: Seq<char>,
    pub path: Seq<char>,
    pub remote: Option<Seq<char>>,
    pub branch: Option<Seq<char>>,
    pub groups: Option<Seq<Seq<char>>>,
}

impl View for Repository {
    type V = RepositoryView;

    open spec fn view(&self) -> RepositoryView {
        RepositoryView {
            name: self.name@,
            path: self.path@,
            remote: match self.remote {
                Some(s) => Some(s@),
                None => None,
            },
            branch: match self.branch {
                Some(s) => Some(s@),
                None => None,
            },
            groups: match self.groups {
                Some(v) => Some(v.deep_view()),
                None => None,
            },
        }
    }
}

impl DeepView for Repository {
    type V = RepositoryView;

    open spec fn deep_view(&self) -> RepositoryView {
        self.view()
    }
}

/// A named, ordered list of member repository names.
pub struct Group {
    pub name: String,
    pub repositories: Vec<String>,
}

/// Mathematical image of a [`Group`].
pub ghost struct GroupView {
    pub name: Seq<char>,
    pub repositories: Seq<Seq<char>>,
}

impl View for Group {
    type V = GroupView;

    open spec fn view(&self) -> GroupView {
        GroupView { name: self.name@, repositories: self.repositories.deep_view() }
    }
}

impl DeepView for Group {
    type V = GroupView;

    open spec fn deep_view(&self) -> GroupView {
        self.view()
    }
}

/// The persisted declaration: an ordered repository list and an optional
/// ordered group list.
pub struct Config {
    pub repositories: Vec<Repository>,
    pub groups: Option<Vec<Group>>,
}

/// The declared groups, reading an absent group list as empty.
pub open spec fn spec_groups_of(c: &Config) -> Seq<GroupView> {
    match c.groups {
        Some(gs) => gs.deep_view(),
        None => Seq::empty(),
    }
}

pub(crate) fn clone_string(s: &String) -> (r: String)
    ensures
        r@ == s@,
{
    s.clone()
}

fn clone_opt_string(o: &Option<String>) -> (r: Option<String>)
    ensures
        match o {
            Some(s) => r matches Some(t) && t@ == s@,
            None => r is None,
        },
{
    match o {
        Some(s) => Some(clone_string(s)),
        None => None,
    }
}

pub(crate) fn clone_string_vec(v: &Vec<String>) -> (r: Vec<String>)
    ensures
        r.deep_view() == v.deep_view(),
{
    let mut out: Vec<String> = Vec::new();
    let mut i: usize = 0;
    while i < v.len()
        invariant
            0 <= i <= v.len(),
            out.deep_view() =~= v.deep_view().take(i as int),
        decreases v.len() - i,
    {
        let ghost old_dv = out.deep_view();
        out.push(clone_string(&v[i]));
        proof {
            assert(out.deep_view() =~= old_dv.push(v.deep_view()[i as int]));
            assert(out.deep_view() =~= v.deep_view().take(i + 1));
        }
        i = i + 1;
    }
    proof {
        assert(v.deep_view().take(v.len() as int) =~= v.deep_view());
    }
    out
}

impl Clone for Repository {
    fn clone(&self) -> (r: Self)
        ensures
            r@ == self@,
    {
        let r = Repository {
            name: clone_string(&self.name),
            path: clone_string(&self.path),
            remote: clone_opt_string(&self.remote),
            branch: clone_opt_string(&self.branch),
            groups: match &self.groups {
                Some(v) => Some(clone_string_vec(v)),
                None => None,
            },
        };
        r
    }
}

impl Clone for Group {
    fn clone(&self) -> (r: Self)
        ensures
            r@ == self@,
    {
        Group {
            name: clone_string(&self.name),
            repositories: clone_string_vec(&self.repositories),
        }
    }
}

/// A remote locator the configuration accepts: an `http://` or `https://`
/// address or a `git@` shorthand.
pub open spec fn valid_remote_url(r: Seq<char>) -> bool {
    "http://"@.is_prefix_of(r) || "https://"@.is_prefix_of(r) || "git@"@.is_prefix_of(r)
}

impl Repository {
    /// Accepts the descriptor exactly when its remote, if declared, has a
    /// recognised locator form; the error carries the offending remote.
    pub fn validate(&self) -> (r: Result<(), String>)
        ensures
            match self.remote {
                None => r is Ok,
                Some(rem) => match r {
                    Ok(_) => valid_remote_url(rem@),
                    Err(m) => !valid_remote_url(rem@) && m@ == "Invalid remote URL format: "@
                        + rem@,
                },
            },
    {
        match &self.remote {
            None => Ok(()),
            Some(rem) => {
                if has_prefix(rem.as_str(), "http://") || has_prefix(rem.as_str(), "https://")
                    || has_prefix(rem.as_str(), "git@") {
                    Ok(())
                } else {
                    let msg = String::from_str("Invalid remote URL format: ").concat(
                        rem.as_str(),
                    );
                    Err(msg)
                }
            },
        }
    }

    /// The remote to synchronize against: the declared one, else `origin`.
    pub fn effective_remote(&self) -> (r: String)
        ensures
            match self.remote {
                Some(s) => r@ == s@,
                None => r@ == "origin"@,
            },
    {
        match &self.remote {
            Some(s) => clone_string(s),
            None => String::from_str("origin"),
        }
    }

    /// The branch to synchronize: the declared one, else `main`.
    pub fn effective_branch(&self) -> (r: String)
        ensures
            match self.branch {
                Some(s) => r@ == s@,
                None => r@ == "main"@,
            },
    {
        match &self.branch {
            Some(s) => clone_string(s),
            None => String::from_str("main"),
        }
    }

    /// The working-tree location with a leading home-directory shorthand
    /// expanded.  A path that does not begin with `'~'`, and a `~user`
    /// form, are returned unchanged; in every outcome everything after a
    /// leading `'~'` survives as a suffix of the result.  Only the
    /// looked-up home directory itself, which depends on the
    /// environment, is left open.
    pub fn expanded_path(&self) -> (r: String)
        ensures
            self.path@.len() == 0 ==> r@ == self.path@,
            self.path@.len() > 0 && self.path@[0] != '~' ==> r@ == self.path@,
            (self.path@.len() > 1 && self.path@[0] == '~' && self.path@[1] != '/') ==> r@
                == self.path@,
            self.path@.len() > 0 ==> self.path@.skip(1).is_suffix_of(r@),
    {
        tilde_expand(self.path.as_str())
    }
}

/// Relies on `shellexpand::tilde`: an input that does not begin with
/// `'~'` is returned unchanged, as is an empty input and a `~user` form
/// (a `'~'` not followed by `'/'`).  Where the shorthand does expand,
/// the looked-up home directory replaces the `'~'` alone, so everything
/// after a leading `'~'` is a suffix of every outcome.
#[verifier::external_body]
fn tilde_expand(path: &str) -> (r: String)
    ensures
        path@.len() == 0 ==> r@ == path@,
        path@.len() > 0 && path@[0] != '~' ==> r@ == path@,
        (path@.len() > 1 && path@[0] == '~' && path@[1] != '/') ==> r@ == path@,
        path@.len() > 0 ==> path@.skip(1).is_suffix_of(r@),
{
    shellexpand::tilde(path).into_owned()
}

/// The bootstrap configuration written when none is found: one example
/// repository in one `default` group.
pub fn default_config() -> (c: Config)
    ensures
        c.repositories.deep_view() =~= seq![
            RepositoryView {
                name: "example-repo"@,
                path: "~/repos/example"@,
                remote: Some("origin"@),
                branch: Some("main"@),
                groups: Some(seq!["default"@]),
            },
        ],
        spec_groups_of(&c) =~= seq![
            GroupView { name: "default"@, repositories: seq!["example-repo"@] },
        ],
        c.groups is Some,
{
    let mut group_names: Vec<String> = Vec::new();
    group_names.push(String::from_str("default"));
    let repo = Repository {
        name: String::from_str("example-repo"),
        path: String::from_str("~/repos/example"),
        remote: Some(String::from_str("origin")),
        branch: Some(String::from_str("main")),
        groups: Some(group_names),
    };
    let mut repositories: Vec<Repository> = Vec::new();
    repositories.push(repo);
    let mut members: Vec<String> = Vec::new();
    members.push(String::from_str("example-repo"));
    let group = Group { name: String::from_str("default"), repositories: members };
    let mut groups: Vec<Group> = Vec::new();
    groups.push(group);
    proof {
        assert(repositories.deep_view()[0].groups matches Some(g) && g =~= seq!["default"@]);
        assert(groups.deep_view()[0].repositories =~= seq!["example-repo"@]);
    }
    Config { repositories, groups: Some(groups) }
}

} // verus!
