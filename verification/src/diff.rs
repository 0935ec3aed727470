//! The comparison of a local configuration with the state on GitHub: both
//! in normal form, written out as YAML, and compared line by line.

use crate::config::{Config, ConfigModel};
use crate::documents::{written, yaml_rendering, yaml_text};
use crate::encode::config_tree;
use crate::error::{AppError, ErrorModel, outcome};
use crate::github::GitHubClient;
use crate::normalize::{normal_local, normal_remote, normalize};
use crate::text::{joined, trim_end, trimmed_end};
use vstd::prelude::*;

verus! {

broadcast use vstd::std_specs::vec::group_vec_axioms;

/// What became of a line.
#[derive(Clone, Copy, Debug, PartialEq, Eq, Structural)]
pub enum ChangeKind {
    /// The line is on both sides.
    Equal,
    /// The line is on the old side only.
    Delete,
    /// The line is on the new side only.
    Insert,
}

/// A line of a hunk and what became of it.
#[derive(Debug)]
pub struct LineChange {
    pub kind: ChangeKind,
    pub text: String,
}

/// The model of a [`LineChange`].
pub struct LineChangeModel {
    pub kind: ChangeKind,
    pub text: Seq<char>,
}

impl View for LineChange {
    type V = LineChangeModel;

    open spec fn view(&self) -> LineChangeModel {
        LineChangeModel { kind: self.kind, text: self.text@ }
    }
}

impl DeepView for LineChange {
    type V = LineChangeModel;

    open spec fn deep_view(&self) -> LineChangeModel {
        self@
    }
}

/// A hunk of a unified diff: its header and its lines.
#[derive(Debug)]
pub struct Hunk {
    pub header: String,
    pub changes: Vec<LineChange>,
}

/// The model of a [`Hunk`].
pub struct HunkModel {
    pub header: Seq<char>,
    pub changes: Seq<LineChangeModel>,
}

impl View for Hunk {
    type V = HunkModel;

    open spec fn view(&self) -> HunkModel {
        HunkModel { header: self.header@, changes: self.changes.deep_view() }
    }
}

impl DeepView for Hunk {
    type V = HunkModel;

    open spec fn deep_view(&self) -> HunkModel {
        self@
    }
}

/// The hunks of the unified diff that `similar` computes of two texts,
/// line by line, with `radius` lines of context; it is applied only to a
/// radius whose double fits into a machine word.
pub uninterp spec fn line_hunks(old: Seq<char>, new: Seq<char>, radius: nat) -> Seq<HunkModel>;

/// Computes the hunks of the line-by-line diff of two texts.
///
/// Trusted: this is `similar::TextDiff::from_lines` with the crate's
/// defaults, and of its unified diff with the given context radius the
/// hunks: of each its header as `similar` prints it, and its changes with
/// their tags and values. The result depends on the two texts and the
/// radius alone and is named, not described, but for one fact: hunks are
/// made of the clusters of changes, so the diff of a text with itself has
/// none. `similar` doubles the radius when it groups the changes, so a
/// radius whose double does not fit is left out.
#[verifier::external_body]
pub(crate) fn unified_hunks(old: &str, new: &str, radius: usize) -> (r: Vec<Hunk>)
    requires
        radius <= usize::MAX / 2,
    ensures
        r.deep_view() == line_hunks(old@, new@, radius as nat),
        old@ == new@ ==> r@.len() == 0,
{
    let diff = similar::TextDiff::from_lines(old, new);
    let mut unified = diff.unified_diff();
    let hunks = unified.context_radius(radius).iter_hunks();
    hunks.map(|h| Hunk {
        header: h.header().to_string(),
        changes: h.iter_changes().map(|c| LineChange {
            kind: match c.tag() {
                similar::ChangeTag::Equal => ChangeKind::Equal,
                similar::ChangeTag::Delete => ChangeKind::Delete,
                similar::ChangeTag::Insert => ChangeKind::Insert,
            },
            text: c.value().to_string(),
        }).collect(),
    }).collect()
}

/// What a line of a report is.
#[derive(Clone, Copy, Debug, PartialEq, Eq, Structural)]
pub enum LineKind {
    /// The header of a hunk.
    Header,
    /// A line that both sides have.
    Context,
    /// A line that only GitHub has.
    Removed,
    /// A line that only the local configuration has.
    Added,
}

/// A line of a report.
#[derive(Debug)]
pub struct ReportLine {
    pub kind: LineKind,
    pub text: String,
}

/// The model of a [`ReportLine`].
pub struct ReportLineModel {
    pub kind: LineKind,
    pub text: Seq<char>,
}

impl View for ReportLine {
    type V = ReportLineModel;

    open spec fn view(&self) -> ReportLineModel {
        ReportLineModel { kind: self.kind, text: self.text@ }
    }
}

impl DeepView for ReportLine {
    type V = ReportLineModel;

    open spec fn deep_view(&self) -> ReportLineModel {
        self@
    }
}

/// The report of a comparison.
#[derive(Debug)]
pub struct DiffReport {
    pub has_differences: bool,
    pub lines: Vec<ReportLine>,
}

/// The model of a [`DiffReport`].
pub struct ReportModel {
    pub has_differences: bool,
    pub lines: Seq<ReportLineModel>,
}

impl View for DiffReport {
    type V = ReportModel;

    open spec fn view(&self) -> ReportModel {
        ReportModel { has_differences: self.has_differences, lines: self.lines.deep_view() }
    }
}

impl DeepView for DiffReport {
    type V = ReportModel;

    open spec fn deep_view(&self) -> ReportModel {
        self@
    }
}

/// The line of a report that shows a change: a marker, a blank, and the
/// line without the white space at its end.
pub open spec fn change_line(change: LineChangeModel) -> ReportLineModel {
    match change.kind {
        ChangeKind::Delete => ReportLineModel {
            kind: LineKind::Removed,
            text: "- "@ + trimmed_end(change.text),
        },
        ChangeKind::Insert => ReportLineModel {
            kind: LineKind::Added,
            text: "+ "@ + trimmed_end(change.text),
        },
        ChangeKind::Equal => ReportLineModel {
            kind: LineKind::Context,
            text: "  "@ + trimmed_end(change.text),
        },
    }
}

/// The lines of a report that show a hunk: its header, then its changes.
pub open spec fn hunk_lines(hunk: HunkModel) -> Seq<ReportLineModel> {
    seq![ReportLineModel { kind: LineKind::Header, text: hunk.header }] + Seq::new(
        hunk.changes.len(),
        |i: int| change_line(hunk.changes[i]),
    )
}

/// The lines of a report that show the first `upto` hunks.
pub open spec fn report_lines(hunks: Seq<HunkModel>, upto: int) -> Seq<ReportLineModel>
    decreases upto,
{
    if upto <= 0 {
        Seq::empty()
    } else {
        report_lines(hunks, upto - 1) + hunk_lines(hunks[upto - 1])
    }
}

/// The report of a comparison that found the hunks: there are differences
/// where there is a hunk.
pub open spec fn report_of(hunks: Seq<HunkModel>) -> ReportModel {
    ReportModel { has_differences: hunks.len() > 0, lines: report_lines(hunks, hunks.len() as int) }
}

/// The text of the first `upto` lines of a report, each line ended.
pub open spec fn lines_text(lines: Seq<ReportLineModel>, upto: int) -> Seq<char>
    decreases upto,
{
    if upto <= 0 {
        Seq::empty()
    } else {
        lines_text(lines, upto - 1) + lines[upto - 1].text + "\n"@
    }
}

/// What a comparison of two configurations reports: the hunks between the
/// YAML of the remote side and that of the local side, both in normal form,
/// with three lines of context; or the error of writing either out.
pub open spec fn diff_report(local: ConfigModel, remote: ConfigModel) -> Result<
    ReportModel,
    ErrorModel,
> {
    match written(yaml_rendering(config_tree(normal_remote(local, remote)))) {
        Ok(old) => match written(yaml_rendering(config_tree(normal_local(local, remote)))) {
            Ok(new) => Ok(report_of(line_hunks(old, new, 3))),
            Err(e) => Err(e),
        },
        Err(e) => Err(e),
    }
}

/// Makes the report of the hunks that a comparison found.
pub fn render_hunks(hunks: &Vec<Hunk>) -> (r: DiffReport)
    ensures
        r@ == report_of(hunks.deep_view()),
{
    let ghost all = hunks.deep_view();
    let mut lines: Vec<ReportLine> = Vec::new();
    let mut i: usize = 0;
    proof {
        assert(lines.deep_view() =~= report_lines(all, 0));
    }
    while i < hunks.len()
        invariant
            i <= hunks.len(),
            all == hunks.deep_view(),
            lines.deep_view() == report_lines(all, i as int),
        decreases hunks.len() - i,
    {
        let hunk: &Hunk = &hunks[i];
        let ghost start = lines.deep_view();
        let ghost wanted = hunk_lines(all[i as int]);
        lines.push(ReportLine { kind: LineKind::Header, text: hunk.header.clone() });
        proof {
            assert(lines.deep_view() =~= start + wanted.take(1));
        }
        let mut j: usize = 0;
        while j < hunk.changes.len()
            invariant
                j <= hunk.changes.len(),
                wanted == hunk_lines(hunk@),
                lines.deep_view() == start + wanted.take(1 + j),
            decreases hunk.changes.len() - j,
        {
            let change: &LineChange = &hunk.changes[j];
            let kept: String = trim_end(change.text.as_str());
            let line: ReportLine = match change.kind {
                ChangeKind::Delete => ReportLine {
                    kind: LineKind::Removed,
                    text: joined("- ", kept.as_str()),
                },
                ChangeKind::Insert => ReportLine {
                    kind: LineKind::Added,
                    text: joined("+ ", kept.as_str()),
                },
                ChangeKind::Equal => ReportLine {
                    kind: LineKind::Context,
                    text: joined("  ", kept.as_str()),
                },
            };
            let ghost before = lines.deep_view();
            proof {
                assert(line@ == change_line(hunk@.changes[j as int]));
                assert(wanted[1 + j] == line@);
            }
            lines.push(line);
            proof {
                assert(lines.deep_view() =~= before.push(line@));
                assert(start + wanted.take(1 + j + 1) =~= (start + wanted.take(1 + j)).push(
                    line@,
                ));
            }
            j += 1;
        }
        proof {
            assert(wanted.take(1 + hunk.changes.len()) =~= wanted);
        }
        i += 1;
    }
    DiffReport { has_differences: hunks.len() > 0, lines }
}

impl DiffReport {
    /// The report as plain text, line by line.
    pub fn text(&self) -> (r: String)
        ensures
            r@ == lines_text(self@.lines, self@.lines.len() as int),
    {
        let ghost all = self@.lines;
        let mut out: String = String::new();
        let mut i: usize = 0;
        while i < self.lines.len()
            invariant
                i <= self.lines.len(),
                all == self@.lines,
                out@ == lines_text(all, i as int),
            decreases self.lines.len() - i,
        {
            out.append(self.lines[i].text.as_str());
            out.append("\n");
            i += 1;
        }
        out
    }
}

impl GitHubClient {
    /// Compares a local configuration with the state that was observed on
    /// GitHub. Both are brought to normal form and written out as YAML; the
    /// report holds the hunks between the two texts, the remote side being
    /// the old one.
    ///
    /// Where the two normal forms are the same, the report shows no
    /// difference.
    pub fn diff(&self, local: &Config, remote: &Config) -> (r: Result<DiffReport, AppError>)
        ensures
            outcome(r) == diff_report(local@, remote@),
            normal_local(local@, remote@) == normal_remote(local@, remote@) ==> match r {
                Ok(report) => !report.has_differences && report.lines@.len() == 0,
                Err(_) => true,
            },
    {
        let sides: (Config, Config) = normalize(local, remote);
        let github_yaml: String = match yaml_text(&sides.1.to_node()) {
            Ok(text) => text,
            Err(e) => {
                return Err(e);
            },
        };
        let local_yaml: String = match yaml_text(&sides.0.to_node()) {
            Ok(text) => text,
            Err(e) => {
                return Err(e);
            },
        };
        let hunks: Vec<Hunk> = unified_hunks(github_yaml.as_str(), local_yaml.as_str(), 3);
        let report: DiffReport = render_hunks(&hunks);
        proof {
            if hunks@.len() == 0 {
                assert(report.lines.deep_view().len() == 0);
            }
        }
        Ok(report)
    }
}

} // verus!
