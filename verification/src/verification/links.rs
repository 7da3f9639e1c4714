//! The Broken Link Rule of Bundle Verification: a Concept Link in a Concept Document
//! whose target, resolved relative to the document or to the Bundle Root, is not an
//! OKF Document of the Knowledge Bundle.

use vstd::prelude::*;

use super::rules::Rule;
use super::{push_finding, report_of, views, Finding, FindingView, VerificationReport};
use crate::text::{
    chars_of, contains, contains_in, find_from, find_in, lemma_find_from, lines, lines_of,
    range_eq, starts_with, string_of,
};

verus! {

/// Index of the first `/` in `s`, or its length when there is none.
pub open spec fn seg_end(s: Seq<char>) -> nat
    decreases s.len(),
{
    if s.len() == 0 || s[0] == '/' {
        0
    } else {
        1 + seg_end(s.drop_first())
    }
}

pub proof fn lemma_seg_end_bound(s: Seq<char>)
    ensures
        seg_end(s) <= s.len(),
    decreases s.len(),
{
    if s.len() > 0 && s[0] != '/' {
        lemma_seg_end_bound(s.drop_first());
    }
}

proof fn lemma_seg_end(s: Seq<char>, k: int)
    requires
        0 <= k <= s.len(),
        forall|j: int| 0 <= j < k ==> #[trigger] s[j] != '/',
        k == s.len() || s[k] == '/',
    ensures
        seg_end(s) == k,
    decreases k,
{
    if k > 0 {
        let t = s.drop_first();
        assert(s[0] != '/');
        assert forall|j: int| 0 <= j < k - 1 implies #[trigger] t[j] != '/' by {
            assert(t[j] == s[j + 1]);
        }
        if k < s.len() {
            assert(t[k - 1] == s[k]);
        }
        lemma_seg_end(t, k - 1);
    }
}

/// The segments of a path: the text split at each `/`; empty segments stay.
pub open spec fn path_segments(s: Seq<char>) -> Seq<Seq<char>>
    decreases s.len(),
{
    let k = seg_end(s);
    proof {
        lemma_seg_end_bound(s);
    }
    if k >= s.len() {
        seq![s]
    } else {
        seq![s.take(k as int)] + path_segments(s.skip(k + 1int))
    }
}

/// The character sequences of a vector of character vectors.
pub open spec fn seg_views(v: Seq<Vec<char>>) -> Seq<Seq<char>> {
    v.map_values(|x: Vec<char>| x@)
}

/// The segments of `v[a..]`.
pub fn segments_of(v: &Vec<char>, a: usize) -> (segs: Vec<Vec<char>>)
    requires
        a <= v@.len(),
    ensures
        seg_views(segs@) == path_segments(v@.skip(a as int)),
{
    let mut segs: Vec<Vec<char>> = Vec::new();
    let mut start: usize = a;
    loop
        invariant
            a <= start <= v@.len(),
            seg_views(segs@) + path_segments(v@.skip(start as int)) == path_segments(
                v@.skip(a as int),
            ),
        decreases v@.len() - start,
    {
        let ghost rest = v@.skip(start as int);
        let mut seg: Vec<char> = Vec::new();
        let mut k: usize = start;
        while k < v.len() && v[k] != '/'
            invariant
                start <= k <= v@.len(),
                seg@ == v@.subrange(start as int, k as int),
                forall|j: int| start <= j < k ==> #[trigger] v@[j] != '/',
            decreases v@.len() - k,
        {
            seg.push(v[k]);
            k = k + 1;
            proof {
                assert(seg@ =~= v@.subrange(start as int, k as int));
            }
        }
        proof {
            assert forall|j: int| 0 <= j < k - start implies #[trigger] rest[j] != '/' by {
                assert(rest[j] == v@[start + j]);
            }
            if k < v.len() {
                assert(rest[k - start] == v@[k as int]);
            }
            lemma_seg_end(rest, k - start);
            assert(rest.take(k - start) =~= seg@);
        }
        let ghost before = seg_views(segs@);
        segs.push(seg);
        proof {
            assert(seg_views(segs@) =~= before.push(seg@));
        }
        if k >= v.len() {
            proof {
                assert(path_segments(rest) == seq![rest]);
                assert(rest =~= seg@);
                assert(seg_views(segs@) =~= before + path_segments(rest));
            }
            return segs;
        }
        proof {
            assert(rest.skip(k - start + 1) =~= v@.skip(k + 1));
            assert(path_segments(rest) == seq![seg@] + path_segments(v@.skip(k + 1)));
            assert(seg_views(segs@) + path_segments(v@.skip(k + 1)) =~= before + path_segments(
                rest,
            ));
        }
        start = k + 1;
    }
}

/// The segments of `base` followed by `segs`, with empty and `.` segments dropped and
/// each `..` taking away the segment before it; `None` when a `..` would climb above
/// the Bundle Root.
pub open spec fn normalize_segments(base: Seq<Seq<char>>, segs: Seq<Seq<char>>) -> Option<
    Seq<Seq<char>>,
>
    decreases segs.len(),
{
    if segs.len() == 0 {
        Some(base)
    } else {
        let s = segs[0];
        if s.len() == 0 || s == seq!['.'] {
            normalize_segments(base, segs.drop_first())
        } else if s == seq!['.', '.'] {
            if base.len() == 0 {
                None
            } else {
                normalize_segments(base.drop_last(), segs.drop_first())
            }
        } else {
            normalize_segments(base.push(s), segs.drop_first())
        }
    }
}

/// The normalized segments of `base` followed by `segs`.
pub fn normalize(base: Vec<Vec<char>>, segs: &Vec<Vec<char>>) -> (r: Option<Vec<Vec<char>>>)
    ensures
        normalize_segments(seg_views(base@), seg_views(segs@)) == match r {
            Some(out) => Some(seg_views(out@)),
            None => None,
        },
{
    let ghost whole = normalize_segments(seg_views(base@), seg_views(segs@));
    let mut stack = base;
    let dot: Vec<char> = vec!['.'];
    let dots: Vec<char> = vec!['.', '.'];
    let mut i: usize = 0;
    proof {
        assert(seg_views(segs@).skip(0) =~= seg_views(segs@));
    }
    while i < segs.len()
        invariant
            i <= segs@.len(),
            dot@ == seq!['.'],
            dots@ == seq!['.', '.'],
            normalize_segments(seg_views(stack@), seg_views(segs@).skip(i as int)) == whole,
            whole == normalize_segments(seg_views(base@), seg_views(segs@)),
        decreases segs@.len() - i,
    {
        let ghost rest = seg_views(segs@).skip(i as int);
        let seg = &segs[i];
        proof {
            assert(rest[0] == seg@);
            assert(rest.drop_first() =~= seg_views(segs@).skip(i + 1));
            assert(seg@.subrange(0, seg@.len() as int) =~= seg@);
        }
        if seg.len() == 0 || range_eq(seg, 0, seg.len(), &dot) {
        } else if range_eq(seg, 0, seg.len(), &dots) {
            if stack.len() == 0 {
                proof {
                    assert(seg_views(stack@).len() == 0);
                }
                return None;
            }
            let ghost before = seg_views(stack@);
            stack.pop();
            proof {
                assert(seg_views(stack@) =~= before.drop_last());
            }
        } else {
            let ghost before = seg_views(stack@);
            stack.push(seg.clone());
            proof {
                assert(seg_views(stack@) =~= before.push(seg@));
            }
        }
        i = i + 1;
    }
    proof {
        assert(seg_views(segs@).skip(i as int) =~= seq![]);
    }
    Some(stack)
}

/// `s` ends with `p`.
pub open spec fn ends_with(s: Seq<char>, p: Seq<char>) -> bool {
    p.len() <= s.len() && s.skip(s.len() - p.len()) == p
}

/// The path of a link destination: what comes before its first `#`.
pub open spec fn link_path(dest: Seq<char>) -> Seq<char> {
    match find_from(dest, seq!['#'], 0) {
        Some(h) => dest.take(h),
        None => dest,
    }
}

/// A Concept Link: a destination with no URI scheme (no `:`) whose path names a
/// markdown document.
pub open spec fn is_concept_link(dest: Seq<char>) -> bool {
    !contains(dest, seq![':']) && ends_with(link_path(dest), seq!['.', 'm', 'd'])
}

/// The segments of a link's target, seen from a document in the directory `dir`: a
/// path that starts with `/` is resolved from the Bundle Root, any other from `dir`.
pub open spec fn link_target(dir: Seq<Seq<char>>, dest: Seq<char>) -> Option<Seq<Seq<char>>> {
    let path = link_path(dest);
    normalize_segments(
        if starts_with(path, seq!['/']) { seq![] } else { dir },
        path_segments(path),
    )
}

/// A Broken Link: a Concept Link whose target is not among the documents, each given
/// by the segments of its path relative to the Bundle Root.
pub open spec fn is_broken_link(
    dir: Seq<Seq<char>>,
    dest: Seq<char>,
    known: Seq<Seq<Seq<char>>>,
) -> bool {
    is_concept_link(dest) && match link_target(dir, dest) {
        None => true,
        Some(target) => !known.contains(target),
    }
}

/// The characters `v[a..b]`.
pub fn copy_range(v: &Vec<char>, a: usize, b: usize) -> (out: Vec<char>)
    requires
        a <= b <= v@.len(),
    ensures
        out@ == v@.subrange(a as int, b as int),
{
    let mut out: Vec<char> = Vec::new();
    let mut k: usize = a;
    while k < b
        invariant
            a <= k <= b,
            b <= v@.len(),
            out@ == v@.subrange(a as int, k as int),
        decreases b - k,
    {
        out.push(v[k]);
        k = k + 1;
        proof {
            assert(out@ =~= v@.subrange(a as int, k as int));
        }
    }
    out
}

/// A copy of a sequence of segments.
pub fn copy_segments(segs: &Vec<Vec<char>>) -> (out: Vec<Vec<char>>)
    ensures
        seg_views(out@) == seg_views(segs@),
{
    let mut out: Vec<Vec<char>> = Vec::new();
    let mut k: usize = 0;
    while k < segs.len()
        invariant
            k <= segs@.len(),
            seg_views(out@) == seg_views(segs@).take(k as int),
        decreases segs@.len() - k,
    {
        let ghost before = seg_views(out@);
        out.push(segs[k].clone());
        k = k + 1;
        proof {
            assert(seg_views(out@) =~= before.push(segs@[k - 1]@));
            assert(seg_views(out@) =~= seg_views(segs@).take(k as int));
        }
    }
    proof {
        assert(seg_views(segs@).take(k as int) =~= seg_views(segs@));
    }
    out
}

/// The two sequences of segments are equal.
pub fn segments_equal(a: &Vec<Vec<char>>, b: &Vec<Vec<char>>) -> (r: bool)
    ensures
        r == (seg_views(a@) == seg_views(b@)),
{
    if a.len() != b.len() {
        proof {
            assert(seg_views(a@).len() != seg_views(b@).len());
        }
        return false;
    }
    let mut k: usize = 0;
    while k < a.len()
        invariant
            a@.len() == b@.len(),
            k <= a@.len(),
            forall|j: int| 0 <= j < k ==> (#[trigger] a@[j])@ == b@[j]@,
        decreases a@.len() - k,
    {
        let x = &a[k];
        proof {
            assert(x@.subrange(0, x@.len() as int) =~= x@);
        }
        if !range_eq(x, 0, x.len(), &b[k]) {
            proof {
                assert(seg_views(a@)[k as int] != seg_views(b@)[k as int]);
            }
            return false;
        }
        k = k + 1;
    }
    proof {
        assert(seg_views(a@) =~= seg_views(b@));
    }
    true
}

/// The segments are among `known`.
pub fn segments_known(target: &Vec<Vec<char>>, known: &Vec<Vec<Vec<char>>>) -> (r: bool)
    ensures
        r == known_views(known@).contains(seg_views(target@)),
{
    let mut k: usize = 0;
    while k < known.len()
        invariant
            k <= known@.len(),
            forall|j: int| 0 <= j < k ==> known_views(known@)[j] != seg_views(target@),
        decreases known@.len() - k,
    {
        if segments_equal(&known[k], target) {
            proof {
                assert(known_views(known@)[k as int] == seg_views(target@));
            }
            return true;
        }
        k = k + 1;
    }
    false
}

/// The segment sequences of a list of paths' segments.
pub open spec fn known_views(known: Seq<Vec<Vec<char>>>) -> Seq<Seq<Seq<char>>> {
    known.map_values(|k: Vec<Vec<char>>| seg_views(k@))
}

/// Where a Concept Link's path ends in its destination, or `None` for a destination
/// that is no Concept Link.
pub fn concept_link_path_end(dest: &Vec<char>) -> (r: Option<usize>)
    ensures
        match r {
            Some(e) => is_concept_link(dest@) && e <= dest@.len() && link_path(dest@) == dest@.take(
                e as int,
            ),
            None => !is_concept_link(dest@),
        },
{
    let colon: Vec<char> = vec![':'];
    let hash: Vec<char> = vec!['#'];
    let md: Vec<char> = vec!['.', 'm', 'd'];
    proof {
        assert(dest@.subrange(0, dest@.len() as int) =~= dest@);
        assert(colon@ =~= seq![':']);
        assert(hash@ =~= seq!['#']);
        assert(md@ =~= seq!['.', 'm', 'd']);
    }
    if contains_in(dest, 0, dest.len(), &colon) {
        return None;
    }
    let e = match find_in(dest, &hash, 0) {
        Some(h) => {
            proof {
                lemma_find_from(dest@, hash@, 0);
            }
            h
        },
        None => dest.len(),
    };
    proof {
        assert(dest@.take(dest@.len() as int) =~= dest@);
    }
    if e < 3 {
        return None;
    }
    if range_eq(dest, e - 3, e, &md) {
        proof {
            assert(dest@.take(e as int).skip(e - 3) =~= dest@.subrange(e - 3, e as int));
        }
        Some(e)
    } else {
        proof {
            assert(dest@.take(e as int).skip(e - 3) =~= dest@.subrange(e - 3, e as int));
        }
        None
    }
}

/// The link's destination is a Broken Link, seen from a document in `dir`.
pub fn link_is_broken(dir: &Vec<Vec<char>>, dest: &Vec<char>, known: &Vec<Vec<Vec<char>>>) -> (r:
    bool)
    ensures
        r == is_broken_link(seg_views(dir@), dest@, known_views(known@)),
{
    let e = match concept_link_path_end(dest) {
        None => return false,
        Some(e) => e,
    };
    let path = copy_range(dest, 0, e);
    let slash: Vec<char> = vec!['/'];
    proof {
        assert(dest@.subrange(0, e as int) =~= dest@.take(e as int));
        assert(path@.subrange(0, path@.len() as int) =~= path@);
        assert(slash@ =~= seq!['/']);
        assert(path@.skip(0) =~= path@);
    }
    let base = if crate::text::starts_with_in(&path, 0, path.len(), &slash) {
        let empty: Vec<Vec<char>> = Vec::new();
        proof {
            assert(seg_views(empty@) =~= seq![]);
        }
        empty
    } else {
        copy_segments(dir)
    };
    let segs = segments_of(&path, 0);
    match normalize(base, &segs) {
        None => true,
        Some(target) => !segments_known(&target, known),
    }
}

/// The inline links of a line from index `i` on, each as the index where its
/// destination starts and the destination: a `](` followed later on the line by a
/// `)`, the destination standing between them; the scan goes on after the `)`.
pub open spec fn line_links(line: Seq<char>, i: int) -> Seq<(int, Seq<char>)>
    decreases line.len() - i,
{
    if i < 0 || i > line.len() {
        seq![]
    } else {
        match find_from(line, seq![']', '('], i) {
            None => seq![],
            Some(p) => {
                proof {
                    lemma_find_from(line, seq![']', '('], i);
                }
                match find_from(line, seq![')'], p + 2) {
                    None => seq![],
                    Some(q) => {
                        proof {
                            lemma_find_from(line, seq![')'], p + 2);
                        }
                        seq![(p + 2, line.subrange(p + 2, q))] + line_links(line, q + 1)
                    },
                }
            },
        }
    }
}

/// The message of a Broken Link Finding.
pub open spec fn broken_link_message(dest: Seq<char>) -> Seq<char> {
    "Concept Link target does not exist in the Knowledge Bundle: "@ + dest
}

/// Warnings for the Broken Links among `links`, found on the line numbered
/// `line_number` (from one); each points at the first character of its destination.
pub open spec fn broken_link_findings_of(
    document: Seq<char>,
    dir: Seq<Seq<char>>,
    known: Seq<Seq<Seq<char>>>,
    line_number: nat,
    links: Seq<(int, Seq<char>)>,
) -> Seq<FindingView>
    decreases links.len(),
{
    if links.len() == 0 {
        seq![]
    } else {
        let (start, dest) = links[0];
        (if is_broken_link(dir, dest, known) {
            seq![
                Rule::BrokenLink.spec_finding(
                    document,
                    broken_link_message(dest),
                    Some(line_number as usize),
                    Some((start + 1) as usize),
                ),
            ]
        } else {
            seq![]
        }) + broken_link_findings_of(document, dir, known, line_number, links.drop_first())
    }
}

/// Broken Link Findings of the first `n` lines, in order.
pub open spec fn lines_link_findings(
    document: Seq<char>,
    dir: Seq<Seq<char>>,
    known: Seq<Seq<Seq<char>>>,
    ls: Seq<Seq<char>>,
    n: nat,
) -> Seq<FindingView>
    decreases n,
{
    if n == 0 || n > ls.len() {
        seq![]
    } else {
        lines_link_findings(document, dir, known, ls, (n - 1) as nat) + broken_link_findings_of(
            document,
            dir,
            known,
            n,
            line_links(ls[n - 1], 0),
        )
    }
}

/// The directory of a document, as the segments of its path relative to the Bundle
/// Root without the last.
pub open spec fn document_dir(relative: Seq<char>) -> Seq<Seq<char>> {
    path_segments(relative).drop_last()
}

/// The segments of each path relative to the Bundle Root.
pub open spec fn bundle_segments(paths: Seq<String>) -> Seq<Seq<Seq<char>>> {
    paths.map_values(|p: String| path_segments(p@))
}

/// The Broken Link Findings of a Concept Document, given its path relative to the
/// Bundle Root and the relative paths of the Knowledge Bundle's OKF Documents.
pub open spec fn link_findings(
    document: Seq<char>,
    relative: Seq<char>,
    contents: Seq<char>,
    bundle_paths: Seq<String>,
) -> Seq<FindingView> {
    lines_link_findings(
        document,
        document_dir(relative),
        bundle_segments(bundle_paths),
        lines(contents),
        lines(contents).len(),
    )
}

/// Adds the Broken Link Findings of one line, numbered `line_number`.
fn line_link_findings(
    document: &str,
    dir: &Vec<Vec<char>>,
    known: &Vec<Vec<Vec<char>>>,
    line: &str,
    line_number: usize,
    findings: &mut Vec<Finding>,
)
    ensures
        views(final(findings)@) == views(old(findings)@) + broken_link_findings_of(
            document@,
            seg_views(dir@),
            known_views(known@),
            line_number as nat,
            line_links(line@, 0),
        ),
{
    let ghost d = seg_views(dir@);
    let ghost kn = known_views(known@);
    let ghost whole = views(old(findings)@) + broken_link_findings_of(
        document@,
        d,
        kn,
        line_number as nat,
        line_links(line@, 0),
    );
    let v = chars_of(line);
    let open = vec![']', '('];
    let close = vec![')'];
    proof {
        assert(open@ =~= seq![']', '(']);
        assert(close@ =~= seq![')']);
        assert(views(findings@) + broken_link_findings_of(
            document@,
            d,
            kn,
            line_number as nat,
            line_links(v@, 0),
        ) =~= whole);
    }
    let n = v.len();
    let mut i: usize = 0;
    loop
        invariant
            n == v@.len(),
            v@ == line@,
            open@ == seq![']', '('],
            close@ == seq![')'],
            d == seg_views(dir@),
            kn == known_views(known@),
            whole == views(old(findings)@) + broken_link_findings_of(
                document@,
                seg_views(dir@),
                known_views(known@),
                line_number as nat,
                line_links(line@, 0),
            ),
            i <= v@.len(),
            views(findings@) + broken_link_findings_of(
                document@,
                d,
                kn,
                line_number as nat,
                line_links(v@, i as int),
            ) == whole,
        decreases v@.len() - i,
    {
        let ghost rest = line_links(v@, i as int);
        let p = match find_in(&v, &open, i) {
            None => {
                proof {
                    assert(rest =~= seq![]);
                    assert(views(findings@) =~= whole);
                }
                return ;
            },
            Some(p) => p,
        };
        proof {
            lemma_find_from(v@, open@, i as int);
            assert(p + 2 <= v@.len());
        }
        let q = match find_in(&v, &close, p + 2) {
            None => {
                proof {
                    assert(rest =~= seq![]);
                    assert(views(findings@) =~= whole);
                }
                return ;
            },
            Some(q) => q,
        };
        proof {
            lemma_find_from(v@, close@, p + 2);
            assert(q + 1 <= n);
        }
        let ghost link = (p + 2int, v@.subrange(p + 2, q as int));
        let ghost after = line_links(v@, q + 1);
        proof {
            assert(rest == seq![link] + after);
            assert((seq![link] + after)[0] == link);
            assert((seq![link] + after).drop_first() =~= after);
        }
        let dest = copy_range(&v, p + 2, q);
        let ghost before = views(findings@);
        if link_is_broken(dir, &dest, known) {
            let mut message = "Concept Link target does not exist in the Knowledge Bundle: "
                .to_owned();
            let target = string_of(&v, p + 2, q);
            message.append(target.as_str());
            push_finding(
                findings,
                Rule::BrokenLink.finding(
                    document.to_owned(),
                    message,
                    Some(line_number),
                    Some(p + 3),
                ),
            );
        }
        proof {
            assert(views(findings@) + broken_link_findings_of(
                document@,
                d,
                kn,
                line_number as nat,
                after,
            ) =~= before + broken_link_findings_of(document@, d, kn, line_number as nat, rest));
        }
        i = q + 1;
    }
}

/// Broken Link Findings of a document's text, seen from the directory `dir`, against
/// the documents `known` by their segments.
pub(crate) fn concept_link_findings(
    document: &str,
    dir: &Vec<Vec<char>>,
    contents: &str,
    known: &Vec<Vec<Vec<char>>>,
) -> (report: VerificationReport)
    ensures
        report@ == lines_link_findings(
            document@,
            seg_views(dir@),
            known_views(known@),
            lines(contents@),
            lines(contents@).len(),
        ),
{
    let ls = lines_of(contents);
    let ghost ll = lines(contents@);
    let mut findings: Vec<Finding> = Vec::new();
    proof {
        assert(views(findings@) =~= seq![]);
    }
    let mut k: usize = 0;
    while k < ls.len()
        invariant
            k <= ls@.len(),
            ls@.len() == ll.len(),
            forall|j: int| 0 <= j < ls@.len() ==> (#[trigger] ls@[j])@ == ll[j],
            views(findings@) == lines_link_findings(
                document@,
                seg_views(dir@),
                known_views(known@),
                ll,
                k as nat,
            ),
        decreases ls@.len() - k,
    {
        let line = ls[k];
        line_link_findings(document, dir, known, line, k + 1, &mut findings);
        k = k + 1;
    }
    report_of(findings)
}

/// Every path has at least one segment.
pub proof fn lemma_path_segments_nonempty(s: Seq<char>)
    ensures
        path_segments(s).len() >= 1,
{
    lemma_seg_end_bound(s);
}

/// The segments of each path.
pub(crate) fn bundle_segments_of(paths: &Vec<String>) -> (known: Vec<Vec<Vec<char>>>)
    ensures
        known_views(known@) == bundle_segments(paths@),
{
    let mut known: Vec<Vec<Vec<char>>> = Vec::new();
    let mut k: usize = 0;
    while k < paths.len()
        invariant
            k <= paths@.len(),
            known_views(known@) == bundle_segments(paths@).take(k as int),
        decreases paths@.len() - k,
    {
        let v = chars_of(paths[k].as_str());
        proof {
            assert(v@.skip(0) =~= v@);
        }
        let segs = segments_of(&v, 0);
        let ghost before = known_views(known@);
        known.push(segs);
        k = k + 1;
        proof {
            assert(known_views(known@) =~= before.push(seg_views(segs@)));
            assert(bundle_segments(paths@)[k - 1] == path_segments(paths@[k - 1]@));
            assert(known_views(known@) =~= bundle_segments(paths@).take(k as int));
        }
    }
    proof {
        assert(bundle_segments(paths@).take(k as int) =~= bundle_segments(paths@));
    }
    known
}

/// The directory segments of a path relative to the Bundle Root.
pub(crate) fn dir_segments_of(relative: &str) -> (dir: Vec<Vec<char>>)
    ensures
        seg_views(dir@) == document_dir(relative@),
{
    let v = chars_of(relative);
    proof {
        assert(v@.skip(0) =~= v@);
        lemma_path_segments_nonempty(v@);
    }
    let mut segs = segments_of(&v, 0);
    let ghost before = seg_views(segs@);
    segs.pop();
    proof {
        assert(seg_views(segs@) =~= before.drop_last());
    }
    segs
}

/// The Broken Link Rule on a Concept Document: a Warning for each Concept Link whose
/// target, resolved from the document's directory (`relative` is the document's path
/// relative to the Bundle Root) or, for a path that starts with `/`, from the Bundle
/// Root, is none of `bundle_paths`, the relative paths of the Knowledge Bundle's OKF
/// Documents. Links with a URI scheme are not Concept Links and are never checked.
pub fn verify_concept_links(
    document: &str,
    relative: &str,
    contents: &str,
    bundle_paths: &Vec<String>,
) -> (report: VerificationReport)
    ensures
        report@ == link_findings(document@, relative@, contents@, bundle_paths@),
{
    let dir = dir_segments_of(relative);
    let known = bundle_segments_of(bundle_paths);
    concept_link_findings(document, &dir, contents, &known)
}

} // verus!
