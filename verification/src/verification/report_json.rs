//! The Structured Output of a Verification: one JSON object with conformance, health,
//! the status at the Failure Threshold, and the Findings.

use vstd::prelude::*;

use super::report_text::severity_name;
use super::{conformant, healthy_at, passes_threshold, Finding, FindingView, Severity, VerificationReport};
use crate::text::{chars_of, decimal, push_decimal};

verus! {

/// Lower-case hexadecimal digit for `d < 16`.
pub open spec fn hex_digit(d: nat) -> char {
    if d < 10 {
        crate::text::digit(d)
    } else if d == 10 {
        'a'
    } else if d == 11 {
        'b'
    } else if d == 12 {
        'c'
    } else if d == 13 {
        'd'
    } else if d == 14 {
        'e'
    } else {
        'f'
    }
}

/// A character inside a JSON string: quotation marks and backslashes escaped, line
/// feeds, carriage returns and tabs by their short escapes, the other control
/// characters as `\u00XX`.
pub open spec fn json_escape(c: char) -> Seq<char> {
    if c == '"' {
        seq!['\\', '"']
    } else if c == '\\' {
        seq!['\\', '\\']
    } else if c == '\n' {
        seq!['\\', 'n']
    } else if c == '\r' {
        seq!['\\', 'r']
    } else if c == '\t' {
        seq!['\\', 't']
    } else if (c as u32) < 0x20 {
        seq!['\\', 'u', '0', '0', hex_digit((c as u32 / 16) as nat), hex_digit((c as u32 % 16) as nat)]
    } else {
        seq![c]
    }
}

/// The first `n` characters of `s`, escaped.
pub open spec fn json_escaped(s: Seq<char>, n: nat) -> Seq<char>
    decreases n,
{
    if n == 0 || n > s.len() {
        seq![]
    } else {
        json_escaped(s, (n - 1) as nat) + json_escape(s[n - 1])
    }
}

/// A JSON string holding `s`.
pub open spec fn json_string(s: Seq<char>) -> Seq<char> {
    seq!['"'] + json_escaped(s, s.len()) + seq!['"']
}

/// `true` or `false`.
pub open spec fn json_bool(value: bool) -> Seq<char> {
    if value {
        "true"@
    } else {
        "false"@
    }
}

/// A number, or `null` when there is none.
pub open spec fn json_number(value: Option<usize>) -> Seq<char> {
    match value {
        Some(n) => decimal(n as nat),
        None => "null"@,
    }
}

/// One Finding as a JSON object.
pub open spec fn finding_json(finding: FindingView) -> Seq<char> {
    "{\"rule_code\":"@ + json_string(finding.rule_code) + ",\"severity\":"@ + json_string(
        severity_name(finding.severity),
    ) + ",\"message\":"@ + json_string(finding.message) + ",\"document\":"@ + json_string(
        finding.document,
    ) + ",\"line\":"@ + json_number(finding.line) + ",\"column\":"@ + json_number(finding.column)
        + "}"@
}

/// The first `n` Findings as JSON objects separated by commas.
pub open spec fn findings_json(findings: Seq<FindingView>, n: nat) -> Seq<char>
    decreases n,
{
    if n == 0 || n > findings.len() {
        seq![]
    } else if n == 1 {
        finding_json(findings[0])
    } else {
        findings_json(findings, (n - 1) as nat) + ","@ + finding_json(findings[n - 1])
    }
}

/// The JSON report: conformance, health at the Failure Threshold, `pass` or `fail` at
/// that threshold, and the Findings in order.
pub open spec fn report_json(findings: Seq<FindingView>, failure_threshold: Severity) -> Seq<char> {
    "{\"conformant\":"@ + json_bool(conformant(findings)) + ",\"healthy\":"@ + json_bool(
        healthy_at(findings, failure_threshold),
    ) + ",\"status\":"@ + (if passes_threshold(findings, failure_threshold) {
        "\"pass\""@
    } else {
        "\"fail\""@
    }) + ",\"findings\":["@ + findings_json(findings, findings.len()) + "]}\n"@
}

fn hex_char(d: u32) -> (c: char)
    requires
        d < 16,
    ensures
        c == hex_digit(d as nat),
{
    if d == 0 { '0' }
    else if d == 1 { '1' }
    else if d == 2 { '2' }
    else if d == 3 { '3' }
    else if d == 4 { '4' }
    else if d == 5 { '5' }
    else if d == 6 { '6' }
    else if d == 7 { '7' }
    else if d == 8 { '8' }
    else if d == 9 { '9' }
    else if d == 10 { 'a' }
    else if d == 11 { 'b' }
    else if d == 12 { 'c' }
    else if d == 13 { 'd' }
    else if d == 14 { 'e' }
    else { 'f' }
}

fn push_escaped(out: &mut String, c: char)
    ensures
        final(out)@ == old(out)@ + json_escape(c),
{
    let n = c as u32;
    if c == '"' {
        out.append("\\\"");
    } else if c == '\\' {
        out.append("\\\\");
    } else if c == '\n' {
        out.append("\\n");
    } else if c == '\r' {
        out.append("\\r");
    } else if c == '\t' {
        out.append("\\t");
    } else if n < 0x20 {
        out.append("\\u00");
        out.push(hex_char(n / 16));
        out.push(hex_char(n % 16));
    } else {
        out.push(c);
    }
    proof {
        reveal_strlit("\\\"");
        reveal_strlit("\\\\");
        reveal_strlit("\\n");
        reveal_strlit("\\r");
        reveal_strlit("\\t");
        reveal_strlit("\\u00");
        assert(out@ =~= old(out)@ + json_escape(c));
    }
}

fn push_json_string(out: &mut String, s: &str)
    ensures
        final(out)@ == old(out)@ + json_string(s@),
{
    let v = chars_of(s);
    out.push('"');
    let ghost start = out@;
    let mut i: usize = 0;
    while i < v.len()
        invariant
            i <= v@.len(),
            v@ == s@,
            out@ == start + json_escaped(v@, i as nat),
        decreases v@.len() - i,
    {
        push_escaped(out, v[i]);
        i = i + 1;
        proof {
            assert(out@ =~= start + json_escaped(v@, i as nat));
        }
    }
    out.push('"');
    proof {
        assert(out@ =~= old(out)@ + json_string(s@));
    }
}

fn push_json_number(out: &mut String, value: Option<usize>)
    ensures
        final(out)@ == old(out)@ + json_number(value),
{
    match value {
        Some(n) => push_decimal(out, n),
        None => {
            out.append("null");
        },
    }
}

fn json_bool_text(value: bool) -> (text: &'static str)
    ensures
        text@ == json_bool(value),
{
    if value {
        "true"
    } else {
        "false"
    }
}

fn severity_label(severity: Severity) -> (text: &'static str)
    ensures
        text@ == severity_name(severity),
{
    match severity {
        Severity::Error => "error",
        Severity::Warning => "warning",
        Severity::Suggestion => "suggestion",
    }
}

fn push_finding_json(out: &mut String, finding: &Finding)
    ensures
        final(out)@ == old(out)@ + finding_json(finding@),
{
    out.append("{\"rule_code\":");
    push_json_string(out, finding.rule_code);
    out.append(",\"severity\":");
    push_json_string(out, severity_label(finding.severity));
    out.append(",\"message\":");
    push_json_string(out, finding.message.as_str());
    out.append(",\"document\":");
    push_json_string(out, finding.document.as_str());
    out.append(",\"line\":");
    push_json_number(out, finding.line);
    out.append(",\"column\":");
    push_json_number(out, finding.column);
    out.append("}");
    proof {
        assert(out@ =~= old(out)@ + finding_json(finding@));
    }
}

/// The JSON report: conformance and health at `failure_threshold`, whether the report
/// passes that threshold, and each Finding with its Rule Code, Severity, message,
/// document, line and column.
pub fn format_report_json(report: &VerificationReport, failure_threshold: Severity) -> (text:
    String)
    ensures
        text@ == report_json(report@, failure_threshold),
{
    let mut output = "{\"conformant\":".to_owned();
    output.append(json_bool_text(report.is_conformant()));
    output.append(",\"healthy\":");
    output.append(json_bool_text(report.is_healthy_at(failure_threshold)));
    output.append(",\"status\":");
    if report.passes_failure_threshold(failure_threshold) {
        output.append("\"pass\"");
    } else {
        output.append("\"fail\"");
    }
    output.append(",\"findings\":[");
    let ghost header = output@;
    let mut i: usize = 0;
    while i < report.findings.len()
        invariant
            i <= report.findings@.len(),
            output@ == header + findings_json(report@, i as nat),
        decreases report.findings@.len() - i,
    {
        let finding = &report.findings[i];
        assert(report@[i as int] == finding@);
        if i > 0 {
            output.append(",");
        }
        push_finding_json(&mut output, finding);
        i = i + 1;
        proof {
            assert(output@ =~= header + findings_json(report@, i as nat));
        }
    }
    output.append("]}\n");
    output
}

} // verus!
