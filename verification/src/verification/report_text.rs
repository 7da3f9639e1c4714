//! The text report of a Verification: conformance, health, and one line per Finding.

use vstd::prelude::*;

use super::{conformant, healthy_at, Finding, FindingView, Severity, VerificationReport};
use crate::text::{decimal, push_decimal};

verus! {

/// `yes` or `no`.
pub open spec fn yes_no_text(value: bool) -> Seq<char> {
    if value {
        "yes"@
    } else {
        "no"@
    }
}

/// The name under which a Severity is reported.
pub open spec fn severity_name(severity: Severity) -> Seq<char> {
    match severity {
        Severity::Error => "error"@,
        Severity::Warning => "warning"@,
        Severity::Suggestion => "suggestion"@,
    }
}

/// `:line:column`, `:line`, or nothing when there is no line.
pub open spec fn location_text(line: Option<usize>, column: Option<usize>) -> Seq<char> {
    match (line, column) {
        (Some(line), Some(column)) => ":"@ + decimal(line as nat) + ":"@ + decimal(column as nat),
        (Some(line), None) => ":"@ + decimal(line as nat),
        _ => seq![],
    }
}

/// One report line: `document:line:column: severity [code] message`.
pub open spec fn finding_text(finding: FindingView) -> Seq<char> {
    finding.document + location_text(finding.line, finding.column) + ": "@ + severity_name(
        finding.severity,
    ) + " ["@ + finding.rule_code + "] "@ + finding.message + "\n"@
}

/// The report lines of the first `n` Findings.
pub open spec fn findings_text(findings: Seq<FindingView>, n: nat) -> Seq<char>
    decreases n,
{
    if n == 0 || n > findings.len() {
        seq![]
    } else {
        findings_text(findings, (n - 1) as nat) + finding_text(findings[n - 1])
    }
}

/// The text report: conformance and health at the Failure Threshold, then `OK` when
/// there is no Finding, else one line per Finding.
pub open spec fn report_text(findings: Seq<FindingView>, failure_threshold: Severity) -> Seq<char> {
    "conformant: "@ + yes_no_text(conformant(findings)) + "\nhealthy: "@ + yes_no_text(
        healthy_at(findings, failure_threshold),
    ) + "\n"@ + if findings.len() == 0 {
        "OK\n"@
    } else {
        findings_text(findings, findings.len())
    }
}

pub fn yes_no(value: bool) -> (text: &'static str)
    ensures
        text@ == yes_no_text(value),
{
    if value {
        "yes"
    } else {
        "no"
    }
}

fn severity_label(severity: Severity) -> (text: &'static str)
    ensures
        text@ == severity_name(severity),
{
    match severity {
        Severity::Error => "error",
        Severity::Warning => "warning",
        Severity::Suggestion => "suggestion",
    }
}

fn push_location(out: &mut String, line: Option<usize>, column: Option<usize>)
    ensures
        final(out)@ == old(out)@ + location_text(line, column),
{
    match (line, column) {
        (Some(line), Some(column)) => {
            out.append(":");
            push_decimal(out, line);
            out.append(":");
            push_decimal(out, column);
            proof {
                assert(out@ =~= old(out)@ + location_text(Some(line), Some(column)));
            }
        },
        (Some(line), None) => {
            out.append(":");
            push_decimal(out, line);
            proof {
                assert(out@ =~= old(out)@ + location_text(Some(line), None));
            }
        },
        _ => {
            proof {
                assert(out@ =~= old(out)@ + location_text(line, column));
            }
        },
    }
}

fn push_finding_text(out: &mut String, finding: &Finding)
    ensures
        final(out)@ == old(out)@ + finding_text(finding@),
{
    out.append(finding.document.as_str());
    push_location(out, finding.line, finding.column);
    out.append(": ");
    out.append(severity_label(finding.severity));
    out.append(" [");
    out.append(finding.rule_code);
    out.append("] ");
    out.append(finding.message.as_str());
    out.append("\n");
    proof {
        assert(out@ =~= old(out)@ + finding_text(finding@));
    }
}

/// The text report at the default Failure Threshold, `Warning`.
pub fn format_report(report: &VerificationReport) -> (text: String)
    ensures
        text@ == report_text(report@, Severity::Warning),
{
    format_report_with_threshold(report, Severity::Warning)
}

/// The text report: conformance and health at `failure_threshold`, then each Finding.
pub fn format_report_with_threshold(
    report: &VerificationReport,
    failure_threshold: Severity,
) -> (text: String)
    ensures
        text@ == report_text(report@, failure_threshold),
{
    let mut output = "conformant: ".to_owned();
    output.append(yes_no(report.is_conformant()));
    output.append("\nhealthy: ");
    output.append(yes_no(report.is_healthy_at(failure_threshold)));
    output.append("\n");
    let ghost header = output@;
    if report.findings.len() == 0 {
        output.append("OK\n");
        return output;
    }
    let mut i: usize = 0;
    while i < report.findings.len()
        invariant
            i <= report.findings@.len(),
            report.findings@.len() > 0,
            output@ == header + findings_text(report@, i as nat),
        decreases report.findings@.len() - i,
    {
        let finding = &report.findings[i];
        assert(report@[i as int] == finding@);
        push_finding_text(&mut output, finding);
        i = i + 1;
        proof {
            assert(output@ =~= header + findings_text(report@, i as nat));
        }
    }
    output
}

} // verus!
