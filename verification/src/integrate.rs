//! What an integration of the roles' branches came to, as the operator reads
//! it.
use vstd::prelude::*;

use crate::text;

verus! {

/// Where an integration stands.
#[derive(Debug, Clone, Copy, PartialEq, Eq, Structural)]
pub enum Standing {
    /// Every branch merged and the checks passed.
    Green,
    /// Every branch merged; no checks were run.
    Merged,
    /// Some branch conflicted.
    Conflicts,
    /// Every branch merged, but the checks failed.
    ChecksFailed,
}

/// A branch that did not merge, and the files it collides on.
#[derive(Debug, PartialEq, Eq)]
pub struct Conflict {
    /// The branch.
    pub branch: String,
    /// The files.
    pub files: Vec<String>,
}

/// What the acceptance check came to.
#[derive(Debug, PartialEq, Eq)]
pub struct CheckOutcome {
    /// The command that was run.
    pub command: String,
    /// Whether it passed.
    pub passed: bool,
    /// The tail of its output.
    pub output: String,
}

/// What an integration came to.
#[derive(Debug, PartialEq, Eq)]
pub struct IntegrationReport {
    /// The integration branch.
    pub branch: String,
    /// The ref it was cut from.
    pub base: String,
    /// The branches that merged.
    pub merged: Vec<String>,
    /// The branches that did not.
    pub conflicts: Vec<Conflict>,
    /// The acceptance check, where one was run.
    pub check: Option<CheckOutcome>,
    /// Where the integration stands.
    pub standing: Standing,
}

/// What a conflicting integration is told.
pub const CONFLICTS: &'static str =
    "CONFLICTS: resolve the conflicts above (merge each branch by hand and fix them, \
     or redraw the lanes), then integrate again. Nothing was dropped.";

/// One conflict as the operator reads it.
pub open spec fn conflict_line(conflict: Conflict) -> Seq<char> {
    "  CONFLICT: "@ + conflict.branch@ + " collides on "@ + text::joined(
        text::texts(conflict.files@),
        ", "@,
    ) + "\n"@
}

/// Conflicts as the operator reads them.
pub open spec fn conflict_lines(conflicts: Seq<Conflict>) -> Seq<char>
    decreases conflicts.len(),
{
    if conflicts.len() == 0 {
        Seq::empty()
    } else {
        conflict_lines(conflicts.drop_last()) + conflict_line(conflicts.last())
    }
}

/// Lines, each indented.
pub open spec fn indented(lines: Seq<Seq<char>>) -> Seq<char>
    decreases lines.len(),
{
    if lines.len() == 0 {
        Seq::empty()
    } else {
        indented(lines.drop_last()) + "  "@ + lines.last() + "\n"@
    }
}

/// A check as the operator reads it: its verdict, and its output where it
/// failed with any.
pub open spec fn check_text(check: CheckOutcome) -> Seq<char> {
    let verdict = "  check `"@ + check.command@ + (if check.passed {
        "`: passed\n"@
    } else {
        "`: FAILED\n"@
    });
    if check.passed || check.output@.len() == 0 {
        verdict
    } else {
        verdict + "  ---\n"@ + indented(text::lines_of(check.output@)) + "  ---\n"@
    }
}

/// The closing line: what the standing means and what to do next.
pub open spec fn standing_text(standing: Standing, branch: Seq<char>) -> Seq<char> {
    match standing {
        Standing::Green => "GREEN: every branch merged and the checks passed. Push `"@ + branch
            + "` and open a PR."@,
        Standing::Merged => "MERGED: every branch merged cleanly (no checks run). Run the acceptance checks, then push `"@
            + branch + "`."@,
        Standing::Conflicts => CONFLICTS@,
        Standing::ChecksFailed => "CHECKS FAILED: the branches merged but the acceptance checks are red on `"@
            + branch + "`. Fix the integrated result before declaring done."@,
    }
}

/// The integration report as the operator reads it.
pub open spec fn report_text(report: IntegrationReport) -> Seq<char> {
    "Integrated onto "@ + report.branch@ + " (from "@ + report.base@ + "):\n"@ + (
    if report.merged@.len() == 0 {
        "  merged: nothing\n"@
    } else {
        "  merged: "@ + text::joined(text::texts(report.merged@), ", "@) + "\n"@
    }) + conflict_lines(report.conflicts@) + (match report.check {
        Some(check) => check_text(check),
        None => Seq::empty(),
    }) + standing_text(report.standing, report.branch@)
}

/// The closing line: what the standing means and what to do next.
pub fn standing_line(standing: Standing, branch: &str) -> (r: String)
    ensures
        r@ == standing_text(standing, branch@),
{
    match standing {
        Standing::Green => "GREEN: every branch merged and the checks passed. Push `".to_owned().concat(
            branch,
        ).concat("` and open a PR."),
        Standing::Merged => "MERGED: every branch merged cleanly (no checks run). Run the acceptance checks, then push `".to_owned().concat(
            branch,
        ).concat("`."),
        Standing::Conflicts => CONFLICTS.to_owned(),
        Standing::ChecksFailed => "CHECKS FAILED: the branches merged but the acceptance checks are red on `".to_owned().concat(
            branch,
        ).concat("`. Fix the integrated result before declaring done."),
    }
}

/// Conflicts as the operator reads them.
fn render_conflicts(conflicts: &Vec<Conflict>) -> (r: String)
    ensures
        r@ == conflict_lines(conflicts@),
{
    let mut out = String::new();
    let mut i: usize = 0;
    assert(conflicts@.take(0) =~= Seq::empty());
    while i < conflicts.len()
        invariant
            i <= conflicts.len(),
            out@ == conflict_lines(conflicts@.take(i as int)),
        decreases conflicts.len() - i,
    {
        let conflict = &conflicts[i];
        let line = "  CONFLICT: ".to_owned().concat(conflict.branch.as_str()).concat(
            " collides on ",
        ).concat(text::join(conflict.files.as_slice(), ", ").as_str()).concat("\n");
        out.append(line.as_str());
        i = i + 1;
        assert(conflicts@.take(i as int).drop_last() =~= conflicts@.take(i - 1));
        assert(conflicts@.take(i as int).last() == conflicts@[i - 1]);
    }
    assert(conflicts@.take(conflicts@.len() as int) =~= conflicts@);
    out
}

/// Lines, each indented.
fn indent(lines: &Vec<String>) -> (r: String)
    ensures
        r@ == indented(text::texts(lines@)),
{
    let ghost all = text::texts(lines@);
    let mut out = String::new();
    let mut i: usize = 0;
    assert(all.take(0) =~= Seq::empty());
    while i < lines.len()
        invariant
            i <= lines.len(),
            all == text::texts(lines@),
            out@ == indented(all.take(i as int)),
        decreases lines.len() - i,
    {
        out = out.concat("  ").concat(lines[i].as_str()).concat("\n");
        i = i + 1;
        assert(all.take(i as int).drop_last() =~= all.take(i - 1));
        assert(all.take(i as int).last() == lines@[i - 1]@);
    }
    assert(all.take(all.len() as int) =~= all);
    out
}

/// A check as the operator reads it.
fn render_check(check: &CheckOutcome) -> (r: String)
    ensures
        r@ == check_text(*check),
{
    let closing = if check.passed {
        "`: passed\n"
    } else {
        "`: FAILED\n"
    };
    let verdict = "  check `".to_owned().concat(check.command.as_str()).concat(closing);
    if check.passed || check.output.as_str().is_empty() {
        return verdict;
    }
    let lines = text::lines(check.output.as_str());
    verdict.concat("  ---\n").concat(indent(&lines).as_str()).concat("  ---\n")
}

/// Renders the integration report for the operator: what merged, what
/// conflicted, and the overall standing.
pub fn render(report: &IntegrationReport) -> (r: String)
    ensures
        r@ == report_text(*report),
{
    let merged = if report.merged.len() == 0 {
        "  merged: nothing\n".to_owned()
    } else {
        "  merged: ".to_owned().concat(text::join(report.merged.as_slice(), ", ").as_str()).concat(
            "\n",
        )
    };
    let check = match &report.check {
        Some(check) => render_check(check),
        None => String::new(),
    };
    "Integrated onto ".to_owned().concat(report.branch.as_str()).concat(" (from ").concat(
        report.base.as_str(),
    ).concat("):\n").concat(merged.as_str()).concat(
        render_conflicts(&report.conflicts).as_str(),
    ).concat(check.as_str()).concat(
        standing_line(report.standing, report.branch.as_str()).as_str(),
    )
}

/// What an integration in `repo` is reported as: its report, or that there were
/// no branches to integrate.
pub fn integrate(repo: &str, report: Option<&IntegrationReport>) -> (r: String)
    ensures
        r@ == (match report {
            Some(report) => report_text(*report),
            None => "No crew/<role> branches to integrate in "@ + repo@ + "."@,
        }),
{
    match report {
        Some(report) => render(report),
        None => "No crew/<role> branches to integrate in ".to_owned().concat(repo).concat("."),
    }
}

/// The closing line says how the integration stands, and where it can go on, on which
/// branch: green only with the checks passed, and never where something failed.
pub proof fn the_closing_line_says_how_it_stands(standing: Standing, branch: &str, line: String)
    requires
        call_ensures(standing_line, (standing, branch), line),
    ensures
        "GREEN: "@.is_prefix_of(line@) <==> standing == Standing::Green,
        "MERGED: "@.is_prefix_of(line@) <==> standing == Standing::Merged,
        "CONFLICTS: "@.is_prefix_of(line@) <==> standing == Standing::Conflicts,
        "CHECKS FAILED: "@.is_prefix_of(line@) <==> standing == Standing::ChecksFailed,
        standing != Standing::Conflicts ==> text::mentions(line@, branch@),
{
    reveal_strlit("GREEN: ");
    reveal_strlit("MERGED: ");
    reveal_strlit("CONFLICTS: ");
    reveal_strlit("CHECKS FAILED: ");
    reveal_strlit("GREEN: every branch merged and the checks passed. Push `");
    reveal_strlit(
        "MERGED: every branch merged cleanly (no checks run). Run the acceptance checks, then push `",
    );
    reveal_strlit(
        "CHECKS FAILED: the branches merged but the acceptance checks are red on `",
    );
    reveal_strlit(
        "CONFLICTS: resolve the conflicts above (merge each branch by hand and fix them, \
     or redraw the lanes), then integrate again. Nothing was dropped.",
    );
    let s = line@;
    assert("GREEN: "@[0] == 'G' && "MERGED: "@[0] == 'M' && "CONFLICTS: "@[1] == 'O'
        && "CHECKS FAILED: "@[1] == 'H' && "CONFLICTS: "@[0] == 'C' && "CHECKS FAILED: "@[0] == 'C');
    lemma_starts(s, "GREEN: "@);
    lemma_starts(s, "MERGED: "@);
    lemma_starts(s, "CONFLICTS: "@);
    lemma_starts(s, "CHECKS FAILED: "@);
    match standing {
        Standing::Green => {
            assert(s.subrange(0, 7) =~= "GREEN: "@);
            text::lemma_mentions(
                "GREEN: every branch merged and the checks passed. Push `"@,
                branch@,
                "` and open a PR."@,
            );
        },
        Standing::Merged => {
            assert(s.subrange(0, 8) =~= "MERGED: "@);
            text::lemma_mentions(
                "MERGED: every branch merged cleanly (no checks run). Run the acceptance checks, then push `"@,
                branch@,
                "`."@,
            );
        },
        Standing::Conflicts => {
            assert(s.subrange(0, 11) =~= "CONFLICTS: "@);
        },
        Standing::ChecksFailed => {
            assert(s.subrange(0, 15) =~= "CHECKS FAILED: "@);
            text::lemma_mentions(
                "CHECKS FAILED: the branches merged but the acceptance checks are red on `"@,
                branch@,
                "`. Fix the integrated result before declaring done."@,
            );
        },
    }
}

proof fn lemma_starts(s: Seq<char>, start: Seq<char>)
    requires
        start.len() >= 2,
    ensures
        start.is_prefix_of(s) ==> s.len() >= 2 && s[0] == start[0] && s[1] == start[1],
{
    if start.is_prefix_of(s) {
        assert(s.subrange(0, start.len() as int)[0] == start[0]);
        assert(s.subrange(0, start.len() as int)[1] == start[1]);
    }
}

/// The report names the branch and what it was cut from, every branch that merged,
/// every one that conflicts with the files it collides on, and how it stands.
pub proof fn the_report_leaves_nothing_out(
    report: IntegrationReport,
    k: int,
    closing: String,
    branch: &str,
    shown: String,
)
    requires
        call_ensures(render, (&report,), shown),
        branch@ == report.branch@,
        call_ensures(standing_line, (report.standing, branch), closing),
    ensures
        ("Integrated onto "@ + report.branch@ + " (from "@ + report.base@).is_prefix_of(shown@),
        closing@.is_suffix_of(shown@),
        report.merged@.len() > 0 ==> text::mentions(
            shown@,
            text::joined(text::texts(report.merged@), ", "@),
        ),
        0 <= k < report.conflicts@.len() ==> text::mentions(
            shown@,
            "  CONFLICT: "@ + report.conflicts@[k].branch@ + " collides on "@ + text::joined(
                text::texts(report.conflicts@[k].files@),
                ", "@,
            ) + "\n"@,
        ),
        report.check matches Some(check) ==> text::mentions(
            shown@,
            "  check `"@ + check.command@ + (if check.passed {
                "`: passed\n"@
            } else {
                "`: FAILED\n"@
            }),
        ),
{
    let front = "Integrated onto "@ + report.branch@ + " (from "@ + report.base@;
    let merged = if report.merged@.len() == 0 {
        "  merged: nothing\n"@
    } else {
        "  merged: "@ + text::joined(text::texts(report.merged@), ", "@) + "\n"@
    };
    let conflicts = conflict_lines(report.conflicts@);
    let check = match report.check {
        Some(check) => check_text(check),
        None => Seq::empty(),
    };
    let closing = closing@;
    if report.merged@.len() > 0 {
        let names = text::joined(text::texts(report.merged@), ", "@);
        text::lemma_mentions("  merged: "@, names, "\n"@);
        lemma_report_pieces(front, "):\n"@, merged, conflicts, check, closing, names);
    }
    if 0 <= k < report.conflicts@.len() {
        let line = conflict_line(report.conflicts@[k]);
        lemma_conflict_listed(report.conflicts@, k);
        lemma_report_pieces(front, "):\n"@, merged, conflicts, check, closing, line);
    }
    if let Some(outcome) = report.check {
        let verdict = "  check `"@ + outcome.command@ + (if outcome.passed {
            "`: passed\n"@
        } else {
            "`: FAILED\n"@
        });
        lemma_verdict_told(outcome);
        lemma_report_pieces(front, "):\n"@, merged, conflicts, check, closing, verdict);
    }
    lemma_report_pieces(front, "):\n"@, merged, conflicts, check, closing, closing);
}

proof fn lemma_verdict_told(check: CheckOutcome)
    ensures
        text::mentions(
            check_text(check),
            "  check `"@ + check.command@ + (if check.passed {
                "`: passed\n"@
            } else {
                "`: FAILED\n"@
            }),
        ),
{
    let verdict = "  check `"@ + check.command@ + (if check.passed {
        "`: passed\n"@
    } else {
        "`: FAILED\n"@
    });
    text::lemma_pieces(verdict, Seq::empty());
    assert(verdict + Seq::<char>::empty() =~= verdict);
    let lines = indented(text::lines_of(check.output@));
    text::lemma_pieces(verdict, "  ---\n"@);
    text::lemma_extends(verdict + "  ---\n"@, lines, verdict);
    text::lemma_extends(verdict + "  ---\n"@ + lines, "  ---\n"@, verdict);
}

proof fn lemma_report_pieces(
    front: Seq<char>,
    opening: Seq<char>,
    merged: Seq<char>,
    conflicts: Seq<char>,
    check: Seq<char>,
    closing: Seq<char>,
    part: Seq<char>,
)
    ensures
        ({
            let all = front + opening + merged + conflicts + check + closing;
            &&& front.is_prefix_of(all)
            &&& closing.is_suffix_of(all)
            &&& text::mentions(merged, part) || text::mentions(conflicts, part) || text::mentions(
                check,
                part,
            ) ==> text::mentions(all, part)
        }),
{
    let opened = front + opening;
    let listed = opened + merged;
    let told = listed + conflicts;
    let checked = told + check;
    text::lemma_pieces(front, opening);
    text::lemma_extends(opened, merged, front);
    text::lemma_extends(listed, conflicts, front);
    text::lemma_extends(told, check, front);
    text::lemma_extends(checked, closing, front);
    text::lemma_pieces(checked, closing);
    if text::mentions(merged, part) {
        text::lemma_mentions_within(opened, merged, conflicts, part);
        text::lemma_extends(told, check, part);
        text::lemma_extends(checked, closing, part);
    }
    if text::mentions(conflicts, part) {
        text::lemma_mentions_within(listed, conflicts, check, part);
        text::lemma_extends(checked, closing, part);
    }
    if text::mentions(check, part) {
        text::lemma_mentions_within(told, check, closing, part);
    }
}

proof fn lemma_conflict_listed(conflicts: Seq<Conflict>, k: int)
    requires
        0 <= k < conflicts.len(),
    ensures
        text::mentions(conflict_lines(conflicts), conflict_line(conflicts[k])),
    decreases conflicts.len(),
{
    let front = conflict_lines(conflicts.drop_last());
    let last = conflict_line(conflicts.last());
    text::lemma_pieces(front, last);
    if k < conflicts.len() - 1 {
        lemma_conflict_listed(conflicts.drop_last(), k);
        text::lemma_extends(front, last, conflict_line(conflicts[k]));
    }
}

/// A failed check shows its output, every line of it.
pub proof fn a_failed_check_shows_its_output(check: CheckOutcome, k: int)
    requires
        !check.passed,
        0 <= k < text::lines_of(check.output@).len(),
        check.output@.len() > 0,
    ensures
        text::mentions(check_text(check), "  "@ + text::lines_of(check.output@)[k] + "\n"@),
{
    let lines = text::lines_of(check.output@);
    let line = "  "@ + lines[k] + "\n"@;
    lemma_indented(lines, k);
    let verdict = "  check `"@ + check.command@ + "`: FAILED\n"@;
    text::lemma_mentions_within(verdict + "  ---\n"@, indented(lines), "  ---\n"@, line);
}

proof fn lemma_indented(lines: Seq<Seq<char>>, k: int)
    requires
        0 <= k < lines.len(),
    ensures
        text::mentions(indented(lines), "  "@ + lines[k] + "\n"@),
    decreases lines.len(),
{
    let front = indented(lines.drop_last());
    let last = "  "@ + lines.last() + "\n"@;
    text::lemma_associative(front, "  "@, lines.last());
    text::lemma_associative(front, "  "@ + lines.last(), "\n"@);
    text::lemma_pieces(front, last);
    if k < lines.len() - 1 {
        lemma_indented(lines.drop_last(), k);
        text::lemma_extends(front, last, "  "@ + lines[k] + "\n"@);
    }
}

/// Without branches to integrate there is no report, and the operator is told where.
pub proof fn no_branches_no_report(repo: &str, report: IntegrationReport, none: String, some: String, shown: String)
    requires
        call_ensures(integrate, (repo, None), none),
        call_ensures(integrate, (repo, Some(&report)), some),
        call_ensures(render, (&report,), shown),
    ensures
        some@ == shown@,
        text::mentions(none@, repo@),
{
    text::lemma_mentions("No crew/<role> branches to integrate in "@, repo@, "."@);
}

/// A check that passed, or failed without a word, is told on its one line.
pub proof fn a_check_without_output_to_show_is_one_line(check: CheckOutcome)
    ensures
        check.passed ==> check_text(check) == "  check `"@ + check.command@ + "`: passed\n"@,
        !check.passed && check.output@.len() == 0 ==> check_text(check) == "  check `"@ + check.command@
            + "`: FAILED\n"@,
        !check.passed && check.output@.len() > 0 ==> ("  check `"@ + check.command@
            + "`: FAILED\n"@ + "  ---\n"@).is_prefix_of(check_text(check)),
{
    if !check.passed && check.output@.len() > 0 {
        let front = "  check `"@ + check.command@ + "`: FAILED\n"@ + "  ---\n"@;
        let lines = indented(text::lines_of(check.output@));
        text::lemma_pieces(front, lines);
        text::lemma_extends(front + lines, "  ---\n"@, front);
    }
}

} // verus!
