//! Document Verification of Log Files: no Frontmatter, date headings in ISO 8601
//! form, newest first.

use vstd::prelude::*;

use super::rules::Rule;
use super::{
    push_finding, report_of, split_frontmatter, split_frontmatter_of, views, Finding,
    FindingView, VerificationReport,
};
use crate::text::{chars_of, lines, starts_with, starts_with_in};

verus! {

/// An ASCII decimal digit.
pub open spec fn is_digit(c: char) -> bool {
    '0' <= c && c <= '9'
}

/// The value of an ASCII decimal digit.
pub open spec fn digit_value(c: char) -> int {
    c as int - '0' as int
}

/// A date in ISO 8601 calendar form `YYYY-MM-DD`: ten characters, digits but for the
/// hyphens at the fifth and eighth, with a month from 1 to 12 and a day from 1 to 31.
pub open spec fn iso_8601_date(value: Seq<char>) -> bool {
    &&& value.len() == 10
    &&& forall|i: int|
        0 <= i < 10 ==> if i == 4 || i == 7 {
            value[i] == '-'
        } else {
            is_digit(#[trigger] value[i])
        }
    &&& 1 <= 10 * digit_value(value[5]) + digit_value(value[6]) <= 12
    &&& 1 <= 10 * digit_value(value[8]) + digit_value(value[9]) <= 31
}

/// The date of a Log File heading line `## <date>`.
pub open spec fn heading_date(line: Seq<char>) -> Option<Seq<char>> {
    if starts_with(line, seq!['#', '#', ' ']) {
        Some(line.skip(3))
    } else {
        None
    }
}

/// Errors for the date headings among the lines with index below `n`.
pub open spec fn date_format_findings_of(document: Seq<char>, ls: Seq<Seq<char>>, n: nat) -> Seq<
    FindingView,
>
    decreases n,
{
    if n == 0 {
        seq![]
    } else {
        date_format_findings_of(document, ls, (n - 1) as nat) + match heading_date(ls[n - 1]) {
            Some(date) => if iso_8601_date(date) {
                seq![]
            } else {
                seq![
                    Rule::LogDateFormat.spec_finding(
                        document,
                        "Log File date heading must use ISO 8601 date format: "@ + date,
                        Some(n as usize),
                        Some(4),
                    ),
                ]
            },
            None => seq![],
        }
    }
}

/// The well-formed dates of the heading lines with index below `n`, with their line
/// numbers.
pub open spec fn dated_headings(ls: Seq<Seq<char>>, n: nat) -> Seq<(Seq<char>, nat)>
    decreases n,
{
    if n == 0 {
        seq![]
    } else {
        dated_headings(ls, (n - 1) as nat) + match heading_date(ls[n - 1]) {
            Some(date) => if iso_8601_date(date) {
                seq![(date, n)]
            } else {
                seq![]
            },
            None => seq![],
        }
    }
}

/// `a` sorts before `b`, character by character, as `str` ordering does.
pub open spec fn lex_less(a: Seq<char>, b: Seq<char>) -> bool
    decreases a.len(),
{
    if a.len() == 0 {
        b.len() > 0
    } else if b.len() == 0 {
        false
    } else if a[0] != b[0] {
        (a[0] as u32) < (b[0] as u32)
    } else {
        lex_less(a.drop_first(), b.drop_first())
    }
}

/// Warnings for each dated heading, among the first `n`, that is older than the next
/// one: Log File dates go newest first.
pub open spec fn date_order_findings_of(
    document: Seq<char>,
    dates: Seq<(Seq<char>, nat)>,
    n: nat,
) -> Seq<FindingView>
    decreases n,
{
    if n == 0 {
        seq![]
    } else {
        date_order_findings_of(document, dates, (n - 1) as nat) + if n < dates.len() && lex_less(
            dates[n - 1].0,
            dates[n as int].0,
        ) {
            seq![
                Rule::LogDateOrder.spec_finding(
                    document,
                    "Log File dates should be ordered newest first"@,
                    Some(dates[n - 1].1 as usize),
                    Some(1),
                ),
            ]
        } else {
            seq![]
        }
    }
}

/// The Findings of Document Verification of a Log File.
pub open spec fn log_findings(document: Seq<char>, contents: Seq<char>) -> Seq<FindingView> {
    let ls = lines(contents);
    let dates = dated_headings(ls, ls.len());
    (if split_frontmatter_of(contents) is Some {
        seq![
            Rule::LogNoFrontmatter.spec_finding(
                document,
                "Log File must not contain frontmatter"@,
                Some(1),
                Some(1),
            ),
        ]
    } else {
        seq![]
    }) + date_format_findings_of(document, ls, ls.len()) + date_order_findings_of(
        document,
        dates,
        dates.len(),
    )
}

fn is_digit_char(c: char) -> (r: bool)
    ensures
        r == is_digit(c),
{
    '0' <= c && c <= '9'
}

fn digit_of(c: char) -> (d: u32)
    requires
        is_digit(c),
    ensures
        d == digit_value(c),
        d <= 9,
{
    (c as u32) - ('0' as u32)
}

fn iso_date_in(v: &Vec<char>, a: usize, b: usize) -> (r: bool)
    requires
        a <= b <= v@.len(),
    ensures
        r == iso_8601_date(v@.subrange(a as int, b as int)),
{
    let ghost s = v@.subrange(a as int, b as int);
    if b - a != 10 {
        return false;
    }
    let mut i: usize = 0;
    while i < 10
        invariant
            b - a == 10,
            a <= b <= v@.len(),
            s == v@.subrange(a as int, b as int),
            i <= 10,
            forall|j: int|
                0 <= j < i ==> if j == 4 || j == 7 {
                    s[j] == '-'
                } else {
                    is_digit(#[trigger] s[j])
                },
        decreases 10 - i,
    {
        let c = v[a + i];
        assert(s[i as int] == c);
        if i == 4 || i == 7 {
            if c != '-' {
                return false;
            }
        } else if !is_digit_char(c) {
            return false;
        }
        i = i + 1;
    }
    assert(s[5] == v@[a + 5] && s[6] == v@[a + 6] && s[8] == v@[a + 8] && s[9] == v@[a + 9]);
    let month = 10 * digit_of(v[a + 5]) + digit_of(v[a + 6]);
    let day = 10 * digit_of(v[a + 8]) + digit_of(v[a + 9]);
    1 <= month && month <= 12 && 1 <= day && day <= 31
}

/// The text is a date in ISO 8601 calendar form.
pub fn is_iso_8601_date(value: &str) -> (r: bool)
    ensures
        r == iso_8601_date(value@),
{
    let v = chars_of(value);
    proof {
        assert(v@.subrange(0, v@.len() as int) =~= v@);
    }
    iso_date_in(&v, 0, v.len())
}

/// `a` sorts before `b`.
pub fn is_lex_less(a: &Vec<char>, b: &Vec<char>) -> (r: bool)
    ensures
        r == lex_less(a@, b@),
{
    let mut i: usize = 0;
    proof {
        assert(a@.skip(0) =~= a@);
        assert(b@.skip(0) =~= b@);
    }
    while i < a.len() && i < b.len() && a[i] == b[i]
        invariant
            i <= a@.len(),
            i <= b@.len(),
            lex_less(a@, b@) == lex_less(a@.skip(i as int), b@.skip(i as int)),
        decreases a@.len() - i,
    {
        proof {
            assert(a@.skip(i as int).drop_first() =~= a@.skip(i + 1));
            assert(b@.skip(i as int).drop_first() =~= b@.skip(i + 1));
        }
        i = i + 1;
    }
    if i == a.len() {
        i < b.len()
    } else if i == b.len() {
        false
    } else {
        assert(a@.skip(i as int)[0] == a@[i as int]);
        assert(b@.skip(i as int)[0] == b@[i as int]);
        (a[i] as u32) < (b[i] as u32)
    }
}

/// Document Verification of a Log File: no Frontmatter, date headings in ISO 8601
/// form, newest first.
pub fn verify_log_file(document: &str, contents: &str) -> (report: VerificationReport)
    ensures
        report@ == log_findings(document@, contents@),
{
    let v = chars_of(contents);
    let spans = crate::text::line_spans(&v);
    let ghost ls = lines(contents@);
    let mut findings: Vec<Finding> = Vec::new();
    if split_frontmatter(contents).is_some() {
        push_finding(
            &mut findings,
            Rule::LogNoFrontmatter.finding(
                document.to_owned(),
                "Log File must not contain frontmatter".to_owned(),
                Some(1),
                Some(1),
            ),
        );
    }
    let ghost head = views(findings@);
    proof {
        assert(head =~= if split_frontmatter_of(contents@) is Some {
            seq![
                Rule::LogNoFrontmatter.spec_finding(
                    document@,
                    "Log File must not contain frontmatter"@,
                    Some(1),
                    Some(1),
                ),
            ]
        } else {
            seq![]
        });
    }
    let heading = vec!['#', '#', ' '];
    proof {
        assert(heading@ =~= seq!['#', '#', ' ']);
    }
    let mut dates: Vec<(Vec<char>, usize)> = Vec::new();
    let mut k: usize = 0;
    while k < spans.len()
        invariant
            v@ == contents@,
            ls == lines(v@),
            heading@ == seq!['#', '#', ' '],
            spans@.len() == ls.len(),
            spans@.len() <= v@.len(),
            forall|j: int|
                0 <= j < spans@.len() ==> {
                    &&& (#[trigger] spans@[j]).0 <= spans@[j].1 <= v@.len()
                    &&& v@.subrange(spans@[j].0 as int, spans@[j].1 as int) == ls[j]
                },
            k <= spans@.len(),
            views(findings@) == head + date_format_findings_of(document@, ls, k as nat),
            dates@.map_values(|d: (Vec<char>, usize)| (d.0@, d.1 as nat)) == dated_headings(
                ls,
                k as nat,
            ),
        decreases spans@.len() - k,
    {
        let (a, b) = spans[k];
        let ghost line = ls[k as int];
        assert(v@.subrange(a as int, b as int) == line);
        let ghost old_dates = dates@;
        if starts_with_in(&v, a, b, &heading) {
            proof {
                assert(v@.subrange(a + 3, b as int) =~= line.skip(3));
            }
            if !iso_date_in(&v, a + 3, b) {
                let date = crate::text::string_of(&v, a + 3, b);
                let mut message = "Log File date heading must use ISO 8601 date format: ".to_owned();
                message.append(date.as_str());
                push_finding(
                    &mut findings,
                    Rule::LogDateFormat.finding(document.to_owned(), message, Some(k + 1), Some(4)),
                );
            } else {
                let mut date: Vec<char> = Vec::new();
                let mut i = a + 3;
                while i < b
                    invariant
                        a + 3 <= i <= b <= v@.len(),
                        date@ == v@.subrange(a + 3, i as int),
                    decreases b - i,
                {
                    date.push(v[i]);
                    proof {
                        assert(v@.subrange(a + 3, i + 1) =~= v@.subrange(a + 3, i as int).push(
                            v@[i as int],
                        ));
                    }
                    i = i + 1;
                }
                dates.push((date, k + 1));
            }
        }
        k = k + 1;
        proof {
            assert(views(findings@) =~= head + date_format_findings_of(document@, ls, k as nat));
            assert(dates@.map_values(|d: (Vec<char>, usize)| (d.0@, d.1 as nat)) =~= dated_headings(
                ls,
                k as nat,
            ));
        }
    }
    let ghost all_dates = dated_headings(ls, ls.len());
    let ghost middle = views(findings@);
    let mut n: usize = 0;
    while n < dates.len()
        invariant
            dates@.map_values(|d: (Vec<char>, usize)| (d.0@, d.1 as nat)) == all_dates,
            n <= dates@.len(),
            views(findings@) == middle + date_order_findings_of(document@, all_dates, n as nat),
        decreases dates@.len() - n,
    {
        let next = n + 1;
        if next < dates.len() && is_lex_less(&dates[n].0, &dates[next].0) {
            proof {
                assert(all_dates[n as int] == (dates@[n as int].0@, dates@[n as int].1 as nat));
                assert(all_dates[next as int] == (dates@[next as int].0@, dates@[next as int].1 as nat));
            }
            push_finding(
                &mut findings,
                Rule::LogDateOrder.finding(
                    document.to_owned(),
                    "Log File dates should be ordered newest first".to_owned(),
                    Some(dates[n].1),
                    Some(1),
                ),
            );
        } else {
            proof {
                if next < dates@.len() {
                    assert(all_dates[n as int] == (dates@[n as int].0@, dates@[n as int].1 as nat));
                    assert(all_dates[next as int] == (dates@[next as int].0@, dates@[next as int].1 as nat));
                }
            }
        }
        n = next;
        proof {
            assert(views(findings@) =~= middle + date_order_findings_of(document@, all_dates, n as nat));
        }
    }
    proof {
        assert(views(findings@) =~= log_findings(document@, contents@));
    }
    report_of(findings)
}

} // verus!
