//! The status inspector: interprets the raw output of the
//! version-control queries — current branch, porcelain change list,
//! ahead/behind counts and remote list — into a structured report.

use vstd::prelude::*;
use crate::text::{
    all_digits, blank, dec_value, is_blank, parse_u64, split_fields, split_lines,
    split_lines_spec, split_on, trim, trimmed,
};

verus! {

/// The change category a two-letter porcelain status code maps to.
#[derive(Clone, Copy, Debug, PartialEq, Eq, Structural)]
pub enum Category {
    Modified,
    Added,
    Deleted,
    Renamed,
    Copied,
    Unmerged,
    Untracked,
    Changed,
}

/// The category a single status letter maps to.
pub open spec fn category_of_letter(c: char) -> Category {
    if c == 'M' {
        Category::Modified
    } else if c == 'A' {
        Category::Added
    } else if c == 'D' {
        Category::Deleted
    } else if c == 'R' {
        Category::Renamed
    } else if c == 'C' {
        Category::Copied
    } else if c == 'U' {
        Category::Unmerged
    } else {
        Category::Changed
    }
}

/// The category of a two-character status code, matched with surrounding
/// spaces trimmed: a single letter keeps its meaning wherever it stands,
/// `??` marks an untracked file, and anything else falls back to the
/// generic changed category.
pub open spec fn category_of_code(c0: char, c1: char) -> Category {
    if c0 == ' ' && c1 == ' ' {
        Category::Changed
    } else if c0 == ' ' {
        category_of_letter(c1)
    } else if c1 == ' ' {
        category_of_letter(c0)
    } else if c0 == '?' && c1 == '?' {
        Category::Untracked
    } else {
        Category::Changed
    }
}

/// One working-tree change: its category and the path it concerns.
#[derive(Debug)]
pub struct ChangeEntry {
    pub category: Category,
    pub path: String,
}

/// Mathematical image of a [`ChangeEntry`].
pub ghost struct ChangeEntryView {
    pub category: Category,
    pub path: Seq<char>,
}

impl View for ChangeEntry {
    type V = ChangeEntryView;

    open spec fn view(&self) -> ChangeEntryView {
        ChangeEntryView { category: self.category, path: self.path@ }
    }
}

impl DeepView for ChangeEntry {
    type V = ChangeEntryView;

    open spec fn deep_view(&self) -> ChangeEntryView {
        self.view()
    }
}

/// What one porcelain line means: the first two characters are the status
/// code and the path begins at the fixed offset behind them.  A line too
/// short to carry both is meaningless.
pub open spec fn line_entry(l: Seq<char>) -> Option<ChangeEntryView> {
    if l.len() >= 3 {
        Some(ChangeEntryView { category: category_of_code(l[0], l[1]), path: l.skip(3) })
    } else {
        None
    }
}

/// The change entries of a list of porcelain lines, in order, skipping
/// lines too short to parse.
pub open spec fn entries_of_lines(lines: Seq<Seq<char>>) -> Seq<ChangeEntryView>
    decreases lines.len(),
{
    if lines.len() == 0 {
        Seq::empty()
    } else {
        let rest = entries_of_lines(lines.skip(1));
        match line_entry(lines[0]) {
            Some(e) => seq![e] + rest,
            None => rest,
        }
    }
}

/// The change entries of a whole porcelain report.
pub open spec fn porcelain_entries(s: Seq<char>) -> Seq<ChangeEntryView> {
    entries_of_lines(split_lines_spec(s))
}

fn category_from_code(c0: char, c1: char) -> (cat: Category)
    ensures
        cat == category_of_code(c0, c1),
{
    if c0 == ' ' && c1 == ' ' {
        Category::Changed
    } else if c0 == ' ' || c1 == ' ' {
        let c = if c0 == ' ' {
            c1
        } else {
            c0
        };
        if c == 'M' {
            Category::Modified
        } else if c == 'A' {
            Category::Added
        } else if c == 'D' {
            Category::Deleted
        } else if c == 'R' {
            Category::Renamed
        } else if c == 'C' {
            Category::Copied
        } else if c == 'U' {
            Category::Unmerged
        } else {
            Category::Changed
        }
    } else if c0 == '?' && c1 == '?' {
        Category::Untracked
    } else {
        Category::Changed
    }
}

/// Parses one porcelain line into a change entry, exactly as
/// [`line_entry`] reads it.
pub fn parse_status_line(line: &str) -> (r: Option<ChangeEntry>)
    ensures
        match r {
            Some(e) => line_entry(line@) == Some(e@),
            None => line_entry(line@) is None,
        },
{
    let n = line.unicode_len();
    if n < 3 {
        return None;
    }
    let c0 = line.get_char(0);
    let c1 = line.get_char(1);
    let category = category_from_code(c0, c1);
    let path = line.substring_char(3, n).to_owned();
    proof {
        assert(line@.subrange(3, n as int) =~= line@.skip(3));
    }
    Some(ChangeEntry { category, path })
}

/// Parses a whole porcelain report into its change entries, exactly as
/// [`porcelain_entries`] reads it.
pub fn parse_porcelain(s: &str) -> (r: Vec<ChangeEntry>)
    ensures
        r.deep_view() == porcelain_entries(s@),
{
    let lines = split_lines(s);
    let ghost lines_dv = lines.deep_view();
    let mut out: Vec<ChangeEntry> = Vec::new();
    let mut i: usize = 0;
    proof {
        assert(lines_dv.skip(0) =~= lines_dv);
        assert(out.deep_view() + entries_of_lines(lines_dv) =~= entries_of_lines(lines_dv));
    }
    while i < lines.len()
        invariant
            lines_dv == lines.deep_view(),
            0 <= i <= lines.len(),
            lines_dv.len() == lines.len(),
            entries_of_lines(lines_dv) == out.deep_view() + entries_of_lines(
                lines_dv.skip(i as int),
            ),
        decreases lines.len() - i,
    {
        proof {
            assert(lines_dv.skip(i as int)[0] == lines_dv[i as int]);
            assert(lines_dv.skip(i as int).skip(1) =~= lines_dv.skip(i + 1));
        }
        match parse_status_line(lines[i].as_str()) {
            Some(e) => {
                let ghost old_dv = out.deep_view();
                let ghost ev = e@;
                out.push(e);
                proof {
                    assert(out.deep_view() =~= old_dv.push(ev));
                    assert(old_dv + (seq![ev] + entries_of_lines(lines_dv.skip(i + 1)))
                        =~= out.deep_view() + entries_of_lines(lines_dv.skip(i + 1)));
                }
            },
            None => {},
        }
        i = i + 1;
    }
    proof {
        assert(lines_dv.skip(lines_dv.len() as int).len() == 0);
        assert(out.deep_view() + entries_of_lines(lines_dv.skip(lines_dv.len() as int))
            =~= out.deep_view());
    }
    out
}

/// The standing of the local branch relative to its upstream, as the
/// count query and the remote list reveal it.
#[derive(Clone, Copy, Debug, PartialEq, Eq, Structural)]
pub enum RemoteStatus {
    /// Zero behind and zero ahead.
    InSync,
    /// Ahead only: local commits await a push.
    Ahead { ahead: u64 },
    /// Behind only: upstream commits await a pull.
    Behind { behind: u64 },
    /// Both sides non-zero after a diverged history.
    Diverged { behind: u64, ahead: u64 },
    /// The count query succeeded but did not yield two counts.
    Unparsed,
    /// No upstream is set, though a remote is configured.
    NoUpstream,
    /// No remote is configured at all.
    NoRemote,
}

/// The `behind`/`ahead` pair of a count query output, when the trimmed
/// output is exactly two tab-separated decimal numerals that fit.
pub open spec fn counts_pair(t: Seq<char>) -> Option<(nat, nat)> {
    let parts = split_fields(t, '\t');
    if parts.len() == 2 && parts[0].len() > 0 && parts[1].len() > 0 && all_digits(parts[0])
        && all_digits(parts[1]) && dec_value(parts[0]) <= u64::MAX && dec_value(parts[1])
        <= u64::MAX {
        Some((dec_value(parts[0]), dec_value(parts[1])))
    } else {
        None
    }
}

/// Parses a count query output into its `(behind, ahead)` pair, trimming
/// surrounding whitespace first, exactly as [`counts_pair`] reads it.
pub fn parse_ahead_behind(s: &str) -> (r: Option<(u64, u64)>)
    ensures
        match counts_pair(trimmed(s@)) {
            Some(p) => r == Some(((p.0 as u64), (p.1 as u64))),
            None => r is None,
        },
{
    let t = trim(s);
    let parts = split_on(t.as_str(), '\t');
    let ghost parts_dv = parts.deep_view();
    if parts.len() != 2 {
        return None;
    }
    let behind = match parse_u64(parts[0].as_str()) {
        Some(v) => v,
        None => {
            return None;
        },
    };
    let ahead = match parse_u64(parts[1].as_str()) {
        Some(v) => v,
        None => {
            return None;
        },
    };
    Some((behind, ahead))
}

/// The success flag and captured standard output of one boundary query to
/// the version-control tool.
#[derive(Debug)]
pub struct QueryOutput {
    pub success: bool,
    pub stdout: String,
}

/// The upstream standing that a count query and a remote list imply: a
/// successful count query is read as a `behind`/`ahead` pair; a failed
/// one means no upstream is set when a remote exists, and no remote at
/// all otherwise.
pub open spec fn remote_status_of(
    counts_ok: bool,
    counts_out: Seq<char>,
    remotes_ok: bool,
    remotes_out: Seq<char>,
) -> RemoteStatus {
    if counts_ok {
        match counts_pair(trimmed(counts_out)) {
            Some(p) => if p.0 == 0 && p.1 == 0 {
                RemoteStatus::InSync
            } else if p.0 == 0 {
                RemoteStatus::Ahead { ahead: p.1 as u64 }
            } else if p.1 == 0 {
                RemoteStatus::Behind { behind: p.0 as u64 }
            } else {
                RemoteStatus::Diverged { behind: p.0 as u64, ahead: p.1 as u64 }
            },
            None => RemoteStatus::Unparsed,
        }
    } else if remotes_ok && !is_blank(remotes_out) {
        RemoteStatus::NoUpstream
    } else {
        RemoteStatus::NoRemote
    }
}

/// Classifies the upstream standing, exactly as [`remote_status_of`]
/// reads the two queries.
pub fn remote_status(counts_query: &QueryOutput, remotes_query: &QueryOutput) -> (r: RemoteStatus)
    ensures
        r == remote_status_of(
            counts_query.success,
            counts_query.stdout@,
            remotes_query.success,
            remotes_query.stdout@,
        ),
{
    if counts_query.success {
        match parse_ahead_behind(counts_query.stdout.as_str()) {
            Some(p) => {
                let (behind, ahead) = p;
                if behind == 0 && ahead == 0 {
                    RemoteStatus::InSync
                } else if behind == 0 {
                    RemoteStatus::Ahead { ahead }
                } else if ahead == 0 {
                    RemoteStatus::Behind { behind }
                } else {
                    RemoteStatus::Diverged { behind, ahead }
                }
            },
            None => RemoteStatus::Unparsed,
        }
    } else if remotes_query.success && !blank(remotes_query.stdout.as_str()) {
        RemoteStatus::NoUpstream
    } else {
        RemoteStatus::NoRemote
    }
}

/// The structured result of inspecting one repository: its current
/// branch, whether the tree is clean, the parsed change list, and the
/// upstream standing.
#[derive(Debug)]
pub struct StatusReport {
    pub branch: String,
    pub clean: bool,
    pub changes: Vec<ChangeEntry>,
    pub remote: RemoteStatus,
}

/// The per-repository outcome of a status inspection.
#[derive(Debug)]
pub enum InspectOutcome {
    /// The expanded repository path does not exist on disk.
    PathMissing,
    /// The working-tree status query itself failed.
    StatusQueryFailed,
    /// The inspection succeeded and produced a report.
    Report(StatusReport),
}

/// Interprets the four raw query results for one repository.  A missing
/// path or a failed status query is a per-repository failure; otherwise
/// the branch is the trimmed branch output (empty means detached or
/// unknown), the tree is clean exactly when the porcelain output is
/// blank, and the change list and upstream standing are parsed as
/// specified.  The inspection never mutates repository state.
pub fn inspect_outcome(
    path_exists: bool,
    branch_query: &QueryOutput,
    status_query: &QueryOutput,
    counts_query: &QueryOutput,
    remotes_query: &QueryOutput,
) -> (r: InspectOutcome)
    ensures
        (!path_exists ==> r is PathMissing),
        (path_exists && !status_query.success ==> r is StatusQueryFailed),
        (path_exists && status_query.success ==> (r matches InspectOutcome::Report(rep)
            && rep.branch@ == trimmed(branch_query.stdout@) && rep.clean == is_blank(
            status_query.stdout@,
        ) && rep.changes.deep_view() == porcelain_entries(status_query.stdout@) && rep.remote
            == remote_status_of(
            counts_query.success,
            counts_query.stdout@,
            remotes_query.success,
            remotes_query.stdout@,
        ))),
{
    if !path_exists {
        return InspectOutcome::PathMissing;
    }
    if !status_query.success {
        return InspectOutcome::StatusQueryFailed;
    }
    let branch = trim(branch_query.stdout.as_str());
    let clean = blank(status_query.stdout.as_str());
    let changes = parse_porcelain(status_query.stdout.as_str());
    let remote = remote_status(counts_query, remotes_query);
    InspectOutcome::Report(StatusReport { branch, clean, changes, remote })
}

} // verus!
