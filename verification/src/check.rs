//! The decisions of a Check: the Configuration read from `rokf.yml`, the Failure
//! Threshold in force, the Verification target, and the Findings that the Rule Set and
//! Suppressions keep.

use vstd::prelude::*;

use crate::text::str_eq;
use crate::verification::{views, Finding, FindingView, Severity, VerificationReport};
use crate::yaml;

verus! {

/// Which Rules a Check reports.
#[derive(Debug, Clone, Copy, PartialEq, Eq, Structural)]
pub enum RuleSet {
    /// Every Rule.
    Default,
    /// The Conformance Rules only.
    Conformance,
}

/// How a Verification is configured.
#[derive(Debug, Clone)]
pub struct VerificationOptions {
    pub rule_set: RuleSet,
    /// Rule Codes whose Findings are not reported.
    pub suppressions: Vec<String>,
    /// Paths, relative to the Bundle Root, left out of the Verification Scope.
    pub exclusions: Vec<String>,
}

/// Views of strings.
pub open spec fn string_views(strings: Seq<String>) -> Seq<Seq<char>> {
    strings.map_values(|s: String| s@)
}

impl View for VerificationOptions {
    type V = (RuleSet, Seq<Seq<char>>, Seq<Seq<char>>);

    open spec fn view(&self) -> (RuleSet, Seq<Seq<char>>, Seq<Seq<char>>) {
        (self.rule_set, string_views(self.suppressions@), string_views(self.exclusions@))
    }
}

impl Default for VerificationOptions {
    fn default() -> (options: Self)
        ensures
            options@ == (RuleSet::Default, Seq::<Seq<char>>::empty(), Seq::<Seq<char>>::empty()),
    {
        let options = VerificationOptions {
            rule_set: RuleSet::Default,
            suppressions: Vec::new(),
            exclusions: Vec::new(),
        };
        proof {
            assert(options@.1 =~= Seq::<Seq<char>>::empty());
            assert(options@.2 =~= Seq::<Seq<char>>::empty());
        }
        options
    }
}

/// A Configuration: the configured Failure Threshold and Verification options.
#[derive(Debug, Clone)]
pub struct Config {
    pub failure_threshold: Option<Severity>,
    pub options: VerificationOptions,
}

impl View for Config {
    type V = (Option<Severity>, (RuleSet, Seq<Seq<char>>, Seq<Seq<char>>));

    open spec fn view(&self) -> (Option<Severity>, (RuleSet, Seq<Seq<char>>, Seq<Seq<char>>)) {
        (self.failure_threshold, self.options@)
    }
}

impl Default for Config {
    fn default() -> (config: Self)
        ensures
            config@ == (
                None::<Severity>,
                (RuleSet::Default, Seq::<Seq<char>>::empty(), Seq::<Seq<char>>::empty()),
            ),
    {
        Config { failure_threshold: None, options: VerificationOptions::default() }
    }
}

/// Why a Check could not run.
#[derive(Debug)]
pub struct CheckError {
    message: String,
}

impl View for CheckError {
    type V = Seq<char>;

    closed spec fn view(&self) -> Seq<char> {
        self.message@
    }
}

impl CheckError {
    pub fn new(message: String) -> (error: CheckError)
        ensures
            error@ == message@,
    {
        CheckError { message }
    }

    /// An error about `path`: the path, `: error: ` and what went wrong.
    pub fn io(path: &str, detail: &str) -> (error: CheckError)
        ensures
            error@ == path@ + ": error: "@ + detail@,
    {
        let mut message = path.to_owned();
        message.append(": error: ");
        message.append(detail);
        CheckError { message }
    }

    pub fn message(&self) -> (message: &str)
        ensures
            message@ == self@,
    {
        self.message.as_str()
    }
}

/// The Severity a Configuration names: `error`, `warning` or `suggestion`.
pub open spec fn severity_named(name: Seq<char>) -> Option<Severity> {
    if name == "error"@ {
        Some(Severity::Error)
    } else if name == "warning"@ {
        Some(Severity::Warning)
    } else if name == "suggestion"@ {
        Some(Severity::Suggestion)
    } else {
        None
    }
}

/// The Rule Set a Configuration names: `conformance`, or the default one.
pub open spec fn rule_set_named(name: Option<Seq<char>>) -> RuleSet {
    if name == Some("conformance"@) {
        RuleSet::Conformance
    } else {
        RuleSet::Default
    }
}

pub fn parse_severity(value: String) -> (severity: Option<Severity>)
    ensures
        severity == severity_named(value@),
{
    if str_eq(value.as_str(), "error") {
        Some(Severity::Error)
    } else if str_eq(value.as_str(), "warning") {
        Some(Severity::Warning)
    } else if str_eq(value.as_str(), "suggestion") {
        Some(Severity::Suggestion)
    } else {
        None
    }
}

pub fn parse_rule_set(value: Option<&str>) -> (rule_set: RuleSet)
    ensures
        rule_set == rule_set_named(
            match value {
                Some(v) => Some(v@),
                None => None,
            },
        ),
{
    match value {
        Some(v) => if str_eq(v, "conformance") {
            RuleSet::Conformance
        } else {
            RuleSet::Default
        },
        None => RuleSet::Default,
    }
}

/// The string items, in order, of the first `n` items of a YAML sequence.
pub open spec fn string_items(items: Seq<serde_yaml::Value>, n: nat) -> Seq<Seq<char>>
    decreases n,
{
    if n == 0 || n > items.len() {
        seq![]
    } else {
        string_items(items, (n - 1) as nat) + match yaml::yaml_str(items[n - 1]) {
            Some(s) => seq![s],
            None => seq![],
        }
    }
}

/// The strings of the sequence held under `key`; nothing when there is none.
pub open spec fn config_list_of(mapping: serde_yaml::Mapping, key: Seq<char>) -> Seq<Seq<char>> {
    match yaml::yaml_lookup(mapping, key) {
        Some(value) => match yaml::yaml_sequence(value) {
            Some(items) => string_items(items, items.len()),
            None => seq![],
        },
        None => seq![],
    }
}

/// The Configuration that a parsed `rokf.yml` mapping states.
pub open spec fn config_of(mapping: serde_yaml::Mapping) -> (
    Option<Severity>,
    (RuleSet, Seq<Seq<char>>, Seq<Seq<char>>),
) {
    (
        match yaml::string_field(mapping, "failure_threshold"@) {
            Some(name) => severity_named(name),
            None => None,
        },
        (
            rule_set_named(yaml::string_field(mapping, "rule_set"@)),
            config_list_of(mapping, "suppressions"@),
            config_list_of(mapping, "exclusions"@),
        ),
    )
}

/// The string value under `key`.
pub fn config_string(mapping: &serde_yaml::Mapping, key: &str) -> (value: Option<String>)
    ensures
        yaml::opt_chars(value) == yaml::string_field(*mapping, key@),
{
    yaml::mapping_string(mapping, key)
}

/// The strings of the sequence under `key`, in order; other items are skipped.
pub fn config_list(mapping: &serde_yaml::Mapping, key: &str) -> (list: Vec<String>)
    ensures
        string_views(list@) == config_list_of(*mapping, key@),
{
    let mut list: Vec<String> = Vec::new();
    let items = match yaml::mapping_get(mapping, key) {
        Some(value) => match yaml::value_as_sequence(&value) {
            Some(items) => items,
            None => {
                proof {
                    assert(string_views(list@) =~= seq![]);
                }
                return list;
            },
        },
        None => {
            proof {
                assert(string_views(list@) =~= seq![]);
            }
            return list;
        },
    };
    let mut i: usize = 0;
    proof {
        assert(string_views(list@) =~= seq![]);
    }
    while i < items.len()
        invariant
            i <= items@.len(),
            string_views(list@) == string_items(items@, i as nat),
        decreases items@.len() - i,
    {
        let ghost before = list@;
        match yaml::value_as_str(&items[i]) {
            Some(s) => {
                list.push(s);
            },
            None => {},
        }
        i = i + 1;
        proof {
            assert(string_views(list@) =~= string_items(items@, i as nat));
        }
    }
    list
}

/// The Configuration in the text of `rokf.yml`, or an error naming the file when the
/// text is not a YAML mapping.
pub fn parse_config(path: &str, contents: &str) -> (config: Result<Config, CheckError>)
    ensures
        match yaml::yaml_parse(contents@) {
            Ok(mapping) => config matches Ok(c) && c@ == config_of(mapping),
            Err(error) => config matches Err(e) && e@ == path@
                + ": error: Configuration must be parseable YAML: "@ + yaml::yaml_error_text(
                error,
            ),
        },
{
    match yaml::parse_mapping(contents) {
        Err(error) => {
            let mut message = path.to_owned();
            message.append(": error: Configuration must be parseable YAML: ");
            let detail = yaml::error_message(&error);
            message.append(detail.as_str());
            Err(CheckError::new(message))
        },
        Ok(mapping) => {
            let failure_threshold = match config_string(&mapping, "failure_threshold") {
                Some(name) => parse_severity(name),
                None => None,
            };
            let rule_set_name = config_string(&mapping, "rule_set");
            let rule_set = match &rule_set_name {
                Some(name) => parse_rule_set(Some(name.as_str())),
                None => parse_rule_set(None),
            };
            let suppressions = config_list(&mapping, "suppressions");
            let exclusions = config_list(&mapping, "exclusions");
            Ok(
                Config {
                    failure_threshold,
                    options: VerificationOptions { rule_set, suppressions, exclusions },
                },
            )
        },
    }
}

/// The Failure Threshold in force: the one asked for, else the configured one, else
/// `Warning`.
pub open spec fn threshold_in_force(asked: Option<Severity>, configured: Option<Severity>) -> Severity {
    match asked {
        Some(t) => t,
        None => match configured {
            Some(t) => t,
            None => Severity::Warning,
        },
    }
}

pub fn effective_failure_threshold(asked: Option<Severity>, configured: Option<Severity>) -> (threshold:
    Severity)
    ensures
        threshold == threshold_in_force(asked, configured),
{
    match asked {
        Some(t) => t,
        None => match configured {
            Some(t) => t,
            None => Severity::Warning,
        },
    }
}

/// The target of a Check: the one given, else the Bundle Root that Bundle Discovery
/// found, else an error.
pub fn resolve_target(target: Option<String>, discovered: Option<String>) -> (resolved: Result<
    String,
    CheckError,
>)
    ensures
        match target {
            Some(t) => resolved matches Ok(r) && r@ == t@,
            None => match discovered {
                Some(d) => resolved matches Ok(r) && r@ == d@,
                None => resolved matches Err(e) && e@
                    == "rokf check: error: could not discover a Bundle Root from the current directory"@,
            },
        },
{
    match target {
        Some(target) => Ok(target),
        None => match discovered {
            Some(root) => Ok(root),
            None => Err(
                CheckError::new(
                    "rokf check: error: could not discover a Bundle Root from the current directory".to_owned(),
                ),
            ),
        },
    }
}

/// A Finding is kept: its Rule Code is not suppressed, and under the Conformance Rule
/// Set it is a Conformance Rule Finding, that is an error.
pub open spec fn kept(finding: FindingView, options: (RuleSet, Seq<Seq<char>>, Seq<Seq<char>>)) -> bool {
    &&& !options.1.contains(finding.rule_code)
    &&& (options.0 == RuleSet::Conformance ==> finding.severity == Severity::Error)
}

/// The kept Findings among the first `n`, in order.
pub open spec fn kept_findings(
    findings: Seq<FindingView>,
    options: (RuleSet, Seq<Seq<char>>, Seq<Seq<char>>),
    n: nat,
) -> Seq<FindingView>
    decreases n,
{
    if n == 0 || n > findings.len() {
        seq![]
    } else {
        kept_findings(findings, options, (n - 1) as nat) + if kept(findings[n - 1], options) {
            seq![findings[n - 1]]
        } else {
            seq![]
        }
    }
}

fn is_suppressed(code: &str, suppressions: &Vec<String>) -> (r: bool)
    ensures
        r == string_views(suppressions@).contains(code@),
{
    let mut i: usize = 0;
    while i < suppressions.len()
        invariant
            i <= suppressions@.len(),
            forall|j: int| 0 <= j < i ==> (#[trigger] suppressions@[j])@ != code@,
        decreases suppressions@.len() - i,
    {
        if str_eq(suppressions[i].as_str(), code) {
            assert(string_views(suppressions@)[i as int] == code@);
            return true;
        }
        i = i + 1;
    }
    proof {
        if string_views(suppressions@).contains(code@) {
            let j = choose|j: int|
                0 <= j < string_views(suppressions@).len() && string_views(suppressions@)[j]
                    == code@;
            assert(suppressions@[j]@ == code@);
        }
    }
    false
}

/// The report without the Findings that the Rule Set and Suppressions leave out.
pub fn filter_report(report: VerificationReport, options: &VerificationOptions) -> (filtered:
    VerificationReport)
    ensures
        filtered@ == kept_findings(report@, options@, report@.len()),
{
    let ghost all = report@;
    let findings = report.findings;
    let mut kept_list: Vec<Finding> = Vec::new();
    let mut i: usize = 0;
    proof {
        assert(views(kept_list@) =~= seq![]);
    }
    while i < findings.len()
        invariant
            views(findings@) == all,
            i <= findings@.len(),
            views(kept_list@) == kept_findings(all, options@, i as nat),
        decreases findings@.len() - i,
    {
        let finding = &findings[i];
        assert(all[i as int] == finding@);
        let keep = !is_suppressed(finding.rule_code, &options.suppressions) && (
        options.rule_set == RuleSet::Default || finding.severity == Severity::Error);
        if keep {
            kept_list.push(finding.clone_finding());
        }
        i = i + 1;
        proof {
            assert(views(kept_list@) =~= kept_findings(all, options@, i as nat));
        }
    }
    VerificationReport { findings: kept_list }
}

} // verus!
