//! Output formatters — JSON (default) and human-readable.
//!
//! JSON is the report's serde form, which the program writes; the human
//! form is rendered here.
use crate::cli::Format;
use crate::finding::{AuditReport, Confidence, Finding, Location, Severity};
use crate::strings::{decimal, decimal_string};
use vstd::prelude::*;

verus! {

/// What to write for a report.
pub enum Output {
    /// The report as JSON (its serde form).
    Json,
    /// This text.
    Text(String),
}

/// A severity as a word.
pub open spec fn severity_word(s: Severity) -> Seq<char> {
    match s {
        Severity::Info => "info"@,
        Severity::Low => "low"@,
        Severity::Medium => "medium"@,
        Severity::High => "high"@,
        Severity::Critical => "critical"@,
    }
}

/// A confidence as a word.
pub open spec fn confidence_word(c: Confidence) -> Seq<char> {
    match c {
        Confidence::Low => "low"@,
        Confidence::Medium => "medium"@,
        Confidence::High => "high"@,
    }
}

/// A location as `file:line` or `file:line-end`.
pub open spec fn location_text(l: Location) -> Seq<char> {
    l.file@ + ":"@ + decimal(l.line as nat) + match l.end_line {
        Some(e) => "-"@ + decimal(e as nat),
        None => Seq::empty(),
    }
}

/// One finding: severity and title, where, how sure, why, and what to do.
pub open spec fn finding_text(f: Finding) -> Seq<char> {
    "\n["@ + severity_word(f.severity) + "] "@ + f.title@ + "\n  at "@ + location_text(f.location)
        + "\n  confidence: "@ + confidence_word(f.confidence) + "\n  "@ + f.explanation@
        + "\n  suggestion: "@ + f.suggestion@ + "\n"@
}

/// The first `n` findings, one after another.
pub open spec fn findings_text(fs: Seq<Finding>, n: int) -> Seq<char>
    decreases n,
{
    if n <= 0 {
        Seq::empty()
    } else {
        findings_text(fs, n - 1) + finding_text(fs[n - 1])
    }
}

/// The first `n` strings, separated by `, `.
pub open spec fn comma_list(ss: Seq<String>, n: int) -> Seq<char>
    decreases n,
{
    if n <= 0 {
        Seq::empty()
    } else if n == 1 {
        ss[0]@
    } else {
        comma_list(ss, n - 1) + ", "@ + ss[n - 1]@
    }
}

/// The human-readable report: the subject, the specs run, and each finding
/// (or that there are none).
pub open spec fn human_text(r: AuditReport) -> Seq<char> {
    "oaudit report: "@ + r.subject@ + "\nspecs: "@ + comma_list(r.specs_run@, r.specs_run.len() as int)
        + "\n"@ + if r.findings.len() == 0 {
        "no findings\n"@
    } else {
        decimal(r.findings.len() as nat) + " finding(s)\n"@ + findings_text(
            r.findings@,
            r.findings.len() as int,
        )
    }
}

fn severity_str(s: Severity) -> (w: &'static str)
    ensures
        w@ == severity_word(s),
{
    match s {
        Severity::Info => "info",
        Severity::Low => "low",
        Severity::Medium => "medium",
        Severity::High => "high",
        Severity::Critical => "critical",
    }
}

fn confidence_str(c: Confidence) -> (w: &'static str)
    ensures
        w@ == confidence_word(c),
{
    match c {
        Confidence::Low => "low",
        Confidence::Medium => "medium",
        Confidence::High => "high",
    }
}

fn push_finding(out: &mut String, f: &Finding)
    ensures
        final(out)@ == old(out)@ + finding_text(*f),
{
    out.append("\n[");
    out.append(severity_str(f.severity));
    out.append("] ");
    out.append(f.title.as_str());
    out.append("\n  at ");
    out.append(f.location.file.as_str());
    out.append(":");
    let line = decimal_string(f.location.line as usize);
    out.append(line.as_str());
    match f.location.end_line {
        Some(e) => {
            out.append("-");
            let end = decimal_string(e as usize);
            out.append(end.as_str());
        },
        None => {},
    }
    out.append("\n  confidence: ");
    out.append(confidence_str(f.confidence));
    out.append("\n  ");
    out.append(f.explanation.as_str());
    out.append("\n  suggestion: ");
    out.append(f.suggestion.as_str());
    out.append("\n");
    proof {
        assert(final(out)@ =~= old(out)@ + finding_text(*f));
    }
}

/// Renders `report` for a terminal.
pub fn human_report(report: &AuditReport) -> (s: String)
    ensures
        s@ == human_text(*report),
{
    let mut out = String::from_str("oaudit report: ");
    out.append(report.subject.as_str());
    out.append("\nspecs: ");
    let ghost head = out@;
    let mut i: usize = 0;
    while i < report.specs_run.len()
        invariant
            i <= report.specs_run.len(),
            out@ == head + comma_list(report.specs_run@, i as int),
        decreases report.specs_run.len() - i,
    {
        if i > 0 {
            out.append(", ");
        }
        out.append(report.specs_run[i].as_str());
        i = i + 1;
    }
    out.append("\n");
    if report.findings.len() == 0 {
        out.append("no findings\n");
    } else {
        let count = decimal_string(report.findings.len());
        out.append(count.as_str());
        out.append(" finding(s)\n");
        let ghost mid = out@;
        let mut j: usize = 0;
        while j < report.findings.len()
            invariant
                j <= report.findings.len(),
                out@ == mid + findings_text(report.findings@, j as int),
            decreases report.findings.len() - j,
        {
            push_finding(&mut out, &report.findings[j]);
            j = j + 1;
        }
    }
    proof {
        assert(out@ =~= human_text(*report));
    }
    out
}

/// What to write for `report` in `format`: JSON is the report's serde form;
/// human output is [`human_report`].
pub fn emit(report: &AuditReport, format: Format) -> (r: Output)
    ensures
        format == Format::Json ==> r is Json,
        format == Format::Human ==> (r matches Output::Text(t) && t@ == human_text(*report)),
{
    match format {
        Format::Json => Output::Json,
        Format::Human => Output::Text(human_report(report)),
    }
}

} // verus!
