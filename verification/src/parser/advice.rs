//! The upgrade-notice pattern engine.
//!
//! A pattern is an ordered list of segments: literal text that must match
//! exactly, and captures that take the rest of the current line. Every
//! notice the extractor recognizes names the installed version and the
//! fixed version on lines of their own, so a capture runs to the next
//! newline or to the end of the narrative. A narrative is scanned left to
//! right; matches do not overlap, and scanning resumes right after each
//! match.

use crate::text::{chars_of, starts_with_at, string_range};
use vstd::prelude::*;

verus! {

/// What a capture binds: the installed version, the fixed version, or a
/// labeled path that a notice names but an advisory does not carry.
#[derive(Debug, Clone, Copy, PartialEq, Eq)]
pub enum Capture {
    Old,
    New,
    Path,
}

/// One pattern segment: literal text, or a capture running to the end of
/// the current line.
#[derive(Debug, Clone)]
pub enum Segment {
    Lit(Vec<char>),
    Cap(Capture),
}

/// Mathematical image of a `Segment`.
pub enum SegmentV {
    Lit(Seq<char>),
    Cap(Capture),
}

impl View for Segment {
    type V = SegmentV;

    open spec fn view(&self) -> SegmentV {
        match *self {
            Segment::Lit(ref l) => SegmentV::Lit(l@),
            Segment::Cap(c) => SegmentV::Cap(c),
        }
    }
}

/// One upgrade-notice pattern.
#[derive(Debug, Clone)]
pub struct Pattern {
    pub segments: Vec<Segment>,
}

impl View for Pattern {
    type V = Seq<SegmentV>;

    open spec fn view(&self) -> Seq<SegmentV> {
        self.segments@.map_values(|g: Segment| g@)
    }
}

/// One recognized notice: the installed version and the fixed version.
#[derive(Debug, Clone, PartialEq)]
pub struct VersionPair {
    pub old: String,
    pub new: String,
}

/// Mathematical image of a `VersionPair`.
pub struct VersionPairV {
    pub old: Seq<char>,
    pub new: Seq<char>,
}

impl View for VersionPair {
    type V = VersionPairV;

    open spec fn view(&self) -> VersionPairV {
        VersionPairV { old: self.old@, new: self.new@ }
    }
}

/// What the captures of one match attempt have bound so far.
pub struct CapsV {
    pub old: Option<Seq<char>>,
    pub new: Option<Seq<char>>,
}

/// The end of the line that position `i` stands on: the index of the
/// next newline at or after `i`, or the end of the text.
pub open spec fn line_end(s: Seq<char>, i: int) -> int
    decreases s.len() - i,
{
    if i < 0 {
        0
    } else if i >= s.len() {
        s.len() as int
    } else if s[i] == '\n' {
        i
    } else {
        line_end(s, i + 1)
    }
}

/// Binds one captured value, keeping an earlier binding of the same name.
pub open spec fn bind_capture(c: Capture, v: Seq<char>, caps: CapsV) -> CapsV {
    match c {
        Capture::Old => CapsV { old: Some(v), new: caps.new },
        Capture::New => CapsV { old: caps.old, new: Some(v) },
        Capture::Path => caps,
    }
}

/// Matches the segments from index `k` on against `s` at position `i`:
/// the captured values and the position right after the match, or nothing
/// when a literal fails to stand there.
pub open spec fn match_from(s: Seq<char>, i: int, segs: Seq<SegmentV>, k: int) -> Option<
    (CapsV, int),
>
    decreases segs.len() - k,
{
    if k < 0 || k >= segs.len() {
        Some((CapsV { old: None, new: None }, i))
    } else {
        match segs[k] {
            SegmentV::Lit(l) => {
                if starts_with_at(s, i, l) {
                    match_from(s, i + l.len(), segs, k + 1)
                } else {
                    None
                }
            },
            SegmentV::Cap(c) => {
                let j = line_end(s, i);
                match match_from(s, j, segs, k + 1) {
                    None => None,
                    Some((caps, end)) => Some((bind_capture(c, s.subrange(i, j), caps), end)),
                }
            },
        }
    }
}

/// A full match of a pattern at position `i`.
pub open spec fn match_at(s: Seq<char>, i: int, segs: Seq<SegmentV>) -> Option<(CapsV, int)> {
    match_from(s, i, segs, 0)
}

/// The notice a successful match yields; a capture the pattern lacks
/// reads as empty.
pub open spec fn pair_of_caps(caps: CapsV) -> VersionPairV {
    VersionPairV {
        old: match caps.old {
            Some(v) => v,
            None => Seq::empty(),
        },
        new: match caps.new {
            Some(v) => v,
            None => Seq::empty(),
        },
    }
}

/// All matches of a pattern in `s` from position `i` on, leftmost first
/// and non-overlapping: scanning resumes after each match, and moves one
/// position on where no match starts.
pub open spec fn find_from(s: Seq<char>, i: int, segs: Seq<SegmentV>) -> Seq<VersionPairV>
    decreases s.len() - i,
{
    if i < 0 || i >= s.len() {
        Seq::empty()
    } else {
        match match_at(s, i, segs) {
            None => find_from(s, i + 1, segs),
            Some((caps, end)) => {
                let next = if i < end <= s.len() {
                    end
                } else {
                    i + 1
                };
                seq![pair_of_caps(caps)] + find_from(s, next, segs)
            },
        }
    }
}

/// `line_end` lands on the first newline at or after `i`, or on the end
/// of the text when none follows.
proof fn lemma_line_end_at(s: Seq<char>, i: int, k: int)
    requires
        0 <= i <= k <= s.len(),
        forall|j: int| i <= j < k ==> s[j] != '\n',
        k == s.len() || s[k] == '\n',
    ensures
        line_end(s, i) == k,
    decreases k - i,
{
    if i < k {
        lemma_line_end_at(s, i + 1, k);
    }
}

/// Scanning finds nothing when no position starts a match.
proof fn lemma_find_from_empty(s: Seq<char>, i: int, segs: Seq<SegmentV>)
    requires
        forall|k: int| i <= k < s.len() ==> #[trigger] match_at(s, k, segs) is None,
    ensures
        find_from(s, i, segs) == Seq::<VersionPairV>::empty(),
    decreases s.len() - i,
{
    if 0 <= i < s.len() {
        lemma_find_from_empty(s, i + 1, segs);
    }
}

/// Free of newlines.
pub open spec fn nl_free(v: Seq<char>) -> bool {
    forall|i: int| 0 <= i < v.len() ==> v[i] != '\n'
}

/// Every notice's captured parts are free of newlines.
pub open spec fn pairs_nl_free(ps: Seq<VersionPairV>) -> bool {
    forall|i: int| 0 <= i < ps.len() ==> nl_free(#[trigger] ps[i].old) && nl_free(ps[i].new)
}

/// The text of one generic two-line notice.
pub open spec fn generic_notice_text(p: VersionPairV) -> Seq<char> {
    "Remote package installed : "@ + p.old + "\nShould be : "@ + p.new
}

/// The text of several generic notices on consecutive lines.
pub open spec fn generic_notices_text(ps: Seq<VersionPairV>) -> Seq<char>
    decreases ps.len(),
{
    if ps.len() == 0 {
        Seq::empty()
    } else if ps.len() == 1 {
        generic_notice_text(ps[0])
    } else {
        generic_notice_text(ps[0]) + seq!['\n'] + generic_notices_text(ps.drop_first())
    }
}

/// The line end lies between `i` and the end of the text.
proof fn lemma_line_end_bounds(s: Seq<char>, i: int)
    requires
        0 <= i <= s.len(),
    ensures
        i <= line_end(s, i) <= s.len(),
    decreases s.len() - i,
{
    if i < s.len() && s[i] != '\n' {
        lemma_line_end_bounds(s, i + 1);
    }
}

/// The line end is unmoved by dropping a prefix the scan never reads.
proof fn lemma_line_end_shift(s: Seq<char>, d: int, i: int)
    requires
        0 <= d <= i,
        d <= s.len(),
    ensures
        line_end(s, i) == d + line_end(s.skip(d), i - d),
    decreases s.len() - i,
{
    if i < s.len() {
        assert(s[i] == s.skip(d)[i - d]);
        if s[i] != '\n' {
            lemma_line_end_shift(s, d, i + 1);
        }
    }
}

/// A match is unmoved by dropping a prefix the scan never reads.
proof fn lemma_match_from_shift(s: Seq<char>, d: int, i: int, segs: Seq<SegmentV>, k: int)
    requires
        0 <= d <= i <= s.len(),
    ensures
        match match_from(s.skip(d), i - d, segs, k) {
            None => match_from(s, i, segs, k) is None,
            Some((caps, end)) => match_from(s, i, segs, k) == Some((caps, d + end)),
        },
    decreases segs.len() - k,
{
    if 0 <= k < segs.len() {
        match segs[k] {
            SegmentV::Lit(l) => {
                assert(starts_with_at(s, i, l) == starts_with_at(s.skip(d), i - d, l)) by {
                    if starts_with_at(s, i, l) {
                        assert(s.skip(d).subrange(i - d, i - d + l.len()) =~= s.subrange(
                            i,
                            i + l.len(),
                        ));
                    }
                    if starts_with_at(s.skip(d), i - d, l) {
                        assert(s.subrange(i, i + l.len()) =~= s.skip(d).subrange(
                            i - d,
                            i - d + l.len(),
                        ));
                    }
                }
                if starts_with_at(s, i, l) {
                    lemma_match_from_shift(s, d, i + l.len(), segs, k + 1);
                }
            },
            SegmentV::Cap(c) => {
                lemma_line_end_bounds(s.skip(d), i - d);
                lemma_line_end_shift(s, d, i);
                let j = line_end(s, i);
                lemma_match_from_shift(s, d, j, segs, k + 1);
                assert(s.subrange(i, j) =~= s.skip(d).subrange(i - d, j - d));
            },
        }
    }
}

/// Scanning is unmoved by dropping a prefix it never revisits.
proof fn lemma_find_from_shift(s: Seq<char>, d: int, i: int, segs: Seq<SegmentV>)
    requires
        0 <= d <= i <= s.len(),
    ensures
        find_from(s, i, segs) == find_from(s.skip(d), i - d, segs),
    decreases s.len() - i,
{
    if i < s.len() {
        lemma_match_from_shift(s, d, i, segs, 0);
        match match_at(s.skip(d), i - d, segs) {
            None => {
                lemma_find_from_shift(s, d, i + 1, segs);
            },
            Some((caps, end0)) => {
                let end = d + end0;
                let next0 = if i - d < end0 <= s.skip(d).len() {
                    end0
                } else {
                    i - d + 1
                };
                let next = if i < end <= s.len() {
                    end
                } else {
                    i + 1
                };
                assert(next == d + next0);
                lemma_find_from_shift(s, d, next, segs);
            },
        }
    }
}

/// In the text of one notice, the one newline separates the two lines.
proof fn lemma_notice_text_newlines(p: VersionPairV)
    requires
        nl_free(p.old),
        nl_free(p.new),
    ensures
        forall|j: int|
            0 <= j < generic_notice_text(p).len() ==> ((#[trigger] generic_notice_text(p)[j]
                == '\n') <==> j == 27 + p.old.len()),
        generic_notice_text(p).len() == 40 + p.old.len() + p.new.len(),
{
    reveal_strlit("Remote package installed : ");
    reveal_strlit("\nShould be : ");
    let l1 = "Remote package installed : "@;
    let l2 = "\nShould be : "@;
    assert(l1.len() == 27);
    assert(l2.len() == 13);
    let t = generic_notice_text(p);
    let q = 27 + p.old.len() as int;
    assert forall|j: int| 0 <= j < t.len() implies ((#[trigger] t[j] == '\n') <==> j == q) by {
        if j < 27 {
            assert(t[j] == l1[j]);
        } else if j < q {
            assert(t[j] == p.old[j - 27]);
        } else if j == q {
            assert(t[j] == l2[0]);
        } else if j < q + 13 {
            assert(t[j] == l2[j - q]);
        } else {
            assert(t[j] == p.new[j - q - 13]);
        }
    }
}

/// In the text of several notices, an 'S' or an 'R' follows every
/// newline: the rest of a "Should be" label, or the next notice.
proof fn lemma_newline_followed(ps: Seq<VersionPairV>)
    requires
        pairs_nl_free(ps),
    ensures
        forall|j: int|
            0 <= j < generic_notices_text(ps).len() && #[trigger] generic_notices_text(ps)[j]
                == '\n' ==> j + 1 < generic_notices_text(ps).len() && (generic_notices_text(
                ps,
            )[j + 1] == 'S' || generic_notices_text(ps)[j + 1] == 'R'),
    decreases ps.len(),
{
    reveal_strlit("Remote package installed : ");
    reveal_strlit("\nShould be : ");
    let t = generic_notices_text(ps);
    if ps.len() == 0 {
    } else if ps.len() == 1 {
        lemma_notice_text_newlines(ps[0]);
        let q = 27 + ps[0].old.len() as int;
        assert(t[q + 1] == "\nShould be : "@[1]);
    } else {
        let head = generic_notice_text(ps[0]);
        let rest = generic_notices_text(ps.drop_first());
        lemma_notice_text_newlines(ps[0]);
        lemma_newline_followed(ps.drop_first());
        let a = head.len() as int;
        let q = 27 + ps[0].old.len() as int;
        assert(rest.len() > 0);
        assert(rest[0] == "Remote package installed : "@[0]) by {
            if ps.drop_first().len() == 1 {
            } else {
            }
        }
        assert forall|j: int| 0 <= j < t.len() && #[trigger] t[j] == '\n' implies j + 1 < t.len()
            && (t[j + 1] == 'S' || t[j + 1] == 'R') by {
            if j < a {
                assert(t[j] == head[j]);
                assert(j == q);
                assert(t[j + 1] == head[q + 1]);
                assert(head[q + 1] == "\nShould be : "@[1]);
            } else if j == a {
                assert(t[j + 1] == rest[0]);
            } else {
                assert(t[j] == rest[j - a - 1]);
                assert(t[j + 1] == rest[j - a]);
            }
        }
    }
}

/// The runtime block never matches a text whose every newline is
/// followed by an 'S' or an 'R': its label holds two newlines in a row.
proof fn lemma_runtime_matches_nothing(s: Seq<char>)
    requires
        forall|j: int|
            0 <= j < s.len() && #[trigger] s[j] == '\n' ==> j + 1 < s.len() && (s[j + 1] == 'S'
                || s[j + 1] == 'R'),
    ensures
        find_from(s, 0, runtime_notice()) == Seq::<VersionPairV>::empty(),
{
    reveal_strlit(
        "The following vulnerable instance of Java is installed on the\nremote host :\n\n  Path              : ",
    );
    let rl = "The following vulnerable instance of Java is installed on the\nremote host :\n\n  Path              : "@;
    assert(rl.len() == 99);
    assert(rl[75] == '\n');
    assert(rl[76] == '\n');
    assert forall|k: int| 0 <= k < s.len() implies #[trigger] match_at(s, k, runtime_notice())
        is None by {
        if starts_with_at(s, k, rl) {
            assert(s.subrange(k, k + 99)[75] == rl[75]);
            assert(s.subrange(k, k + 99)[76] == rl[76]);
            assert(s[k + 75] == '\n');
            assert(s[k + 76] == '\n');
        }
        assert(!starts_with_at(s, k, rl));
        assert(match_from(s, k, runtime_notice(), 0) is None);
    }
    lemma_find_from_empty(s, 0, runtime_notice());
}

/// The package notice never matches a text whose every newline is
/// followed by an 'S' or an 'R': its second label wants a space there.
proof fn lemma_package_matches_nothing(s: Seq<char>)
    requires
        forall|j: int|
            0 <= j < s.len() && #[trigger] s[j] == '\n' ==> j + 1 < s.len() && (s[j + 1] == 'S'
                || s[j + 1] == 'R'),
    ensures
        find_from(s, 0, package_notice()) == Seq::<VersionPairV>::empty(),
{
    reveal_strlit("- Installed package : ");
    reveal_strlit("\n    Fixed package     : ");
    let pl1 = "- Installed package : "@;
    let pl2 = "\n    Fixed package     : "@;
    assert(pl1.len() == 22);
    assert(pl2.len() == 25);
    assert(pl2[0] == '\n');
    assert(pl2[1] == ' ');
    assert forall|k: int| 0 <= k < s.len() implies #[trigger] match_at(s, k, package_notice())
        is None by {
        if starts_with_at(s, k, pl1) {
            let j2 = line_end(s, k + 22);
            assert(!starts_with_at(s, j2, pl2)) by {
                if starts_with_at(s, j2, pl2) {
                    assert(s.subrange(j2, j2 + 25)[0] == pl2[0]);
                    assert(s.subrange(j2, j2 + 25)[1] == pl2[1]);
                    assert(s[j2] == '\n');
                    assert(s[j2 + 1] == ' ');
                }
            }
            assert(match_from(s, j2, package_notice(), 2) is None);
            assert(match_from(s, k + 22, package_notice(), 1) is None);
        }
        assert(match_from(s, k, package_notice(), 0) is None);
    }
    lemma_find_from_empty(s, 0, package_notice());
}

/// The generic pattern finds exactly the notices a repeated-notice text
/// was built from, in order.
proof fn lemma_generic_finds_all(ps: Seq<VersionPairV>)
    requires
        pairs_nl_free(ps),
    ensures
        find_from(generic_notices_text(ps), 0, generic_notice()) == ps,
    decreases ps.len(),
{
    reveal_strlit("Remote package installed : ");
    reveal_strlit("\nShould be : ");
    let l1 = "Remote package installed : "@;
    let l2 = "\nShould be : "@;
    assert(l1.len() == 27);
    assert(l2.len() == 13);
    let t = generic_notices_text(ps);
    let segs = generic_notice();
    if ps.len() == 0 {
        assert(find_from(t, 0, segs) =~= Seq::<VersionPairV>::empty());
    } else {
        let p0 = ps[0];
        let head = generic_notice_text(p0);
        let a = head.len() as int;
        let q = 27 + p0.old.len() as int;
        lemma_notice_text_newlines(p0);
        // the head notice matches at the start and ends right after it
        assert(starts_with_at(t, 0, l1)) by {
            assert(t.subrange(0, 27) =~= l1);
        }
        lemma_line_end_at(t, 27, q);
        assert(t.subrange(27, q) =~= p0.old);
        assert(starts_with_at(t, q, l2)) by {
            assert(t.subrange(q, q + 13) =~= l2);
        }
        lemma_line_end_at(t, q + 13, a);
        assert(t.subrange(q + 13, a) =~= p0.new);
        let full_caps = CapsV { old: Some(p0.old), new: Some(p0.new) };
        assert(match_from(t, a, segs, 4) == Some((CapsV { old: None, new: None }, a)));
        assert(match_from(t, q + 13, segs, 3) == Some(
            (CapsV { old: None, new: Some(p0.new) }, a),
        ));
        assert(match_from(t, q, segs, 2) == Some((CapsV { old: None, new: Some(p0.new) }, a)));
        assert(match_from(t, 27, segs, 1) == Some((full_caps, a)));
        assert(match_at(t, 0, segs) == Some((full_caps, a)));
        assert(pair_of_caps(full_caps) == p0);
        assert(find_from(t, 0, segs) == seq![p0] + find_from(t, a, segs));
        if ps.len() == 1 {
            assert(find_from(t, a, segs) == Seq::<VersionPairV>::empty());
            assert(seq![p0] + Seq::<VersionPairV>::empty() =~= ps);
        } else {
            let rest = generic_notices_text(ps.drop_first());
            // the separating newline starts no match
            assert(t[a] == '\n');
            assert(!starts_with_at(t, a, l1)) by {
                if starts_with_at(t, a, l1) {
                    assert(t.subrange(a, a + 27)[0] == l1[0]);
                }
            }
            assert(match_from(t, a, segs, 0) is None);
            assert(find_from(t, a, segs) == find_from(t, a + 1, segs));
            lemma_find_from_shift(t, a + 1, a + 1, segs);
            assert(t.skip(a + 1) =~= rest);
            lemma_generic_finds_all(ps.drop_first());
            assert(seq![p0] + ps.drop_first() =~= ps);
        }
    }
}

/// A narrative that is several generic two-line notices on consecutive
/// lines yields exactly those notices, one advisory source per notice
/// and in the notices' textual order; no other pattern fires anywhere in
/// such a narrative.
pub proof fn lemma_repeated_generic_notices(ps: Seq<VersionPairV>)
    requires
        pairs_nl_free(ps),
    ensures
        all_matches(generic_notices_text(ps)) == ps,
{
    let t = generic_notices_text(ps);
    lemma_generic_finds_all(ps);
    lemma_newline_followed(ps);
    lemma_runtime_matches_nothing(t);
    lemma_package_matches_nothing(t);
    assert(all_matches(t) =~= ps);
}

/// A narrative that is exactly one generic two-line notice yields
/// exactly that notice: one match of the generic pattern binding the
/// installed and the fixed version, and no match of any other pattern.
pub proof fn lemma_single_generic_notice(old_v: Seq<char>, new_v: Seq<char>)
    requires
        nl_free(old_v),
        nl_free(new_v),
    ensures
        all_matches("Remote package installed : "@ + old_v + "\nShould be : "@ + new_v)
            == seq![VersionPairV { old: old_v, new: new_v }],
{
    let p = VersionPairV { old: old_v, new: new_v };
    assert(pairs_nl_free(seq![p])) by {
        assert(seq![p][0] == p);
    }
    lemma_repeated_generic_notices(seq![p]);
    assert(generic_notices_text(seq![p]) == generic_notice_text(p));
}

/// Whether the literal `lit` stands in `cs` at position `i`.
pub fn check_lit(cs: &Vec<char>, i: usize, lit: &Vec<char>) -> (r: bool)
    requires
        i <= cs@.len(),
    ensures
        r == starts_with_at(cs@, i as int, lit@),
{
    let m = lit.len();
    let n = cs.len();
    if n - i < m {
        proof {
            assert(!starts_with_at(cs@, i as int, lit@));
        }
        return false;
    }
    let mut j: usize = 0;
    while j < m
        invariant
            m == lit@.len(),
            n == cs@.len(),
            i + m <= n,
            0 <= j <= m,
            forall|t: int| 0 <= t < j ==> cs@[i + t] == lit@[t],
        decreases m - j,
    {
        if cs[i + j] != lit[j] {
            proof {
                assert(!starts_with_at(cs@, i as int, lit@)) by {
                    if starts_with_at(cs@, i as int, lit@) {
                        assert(cs@.subrange(i as int, i + lit@.len())[j as int] == lit@[j as int]);
                    }
                }
            }
            return false;
        }
        j = j + 1;
    }
    proof {
        assert(cs@.subrange(i as int, i + lit@.len()) =~= lit@);
    }
    true
}

/// The index of the next newline at or after `i`, or the end of the text.
pub fn find_line_end(cs: &Vec<char>, i: usize) -> (r: usize)
    requires
        i <= cs@.len(),
    ensures
        r == line_end(cs@, i as int),
        i <= r <= cs@.len(),
{
    let n = cs.len();
    let mut j: usize = i;
    while j < n
        invariant
            n == cs@.len(),
            i <= j <= n,
            line_end(cs@, i as int) == line_end(cs@, j as int),
        decreases n - j,
    {
        if cs[j] == '\n' {
            return j;
        }
        j = j + 1;
    }
    j
}

/// Matches the segments from index `k` on against `cs` at position `i`,
/// as [`match_from`] describes.
fn run_match(cs: &Vec<char>, i: usize, segs: &Vec<Segment>, k: usize) -> (r: Option<
    (Option<String>, Option<String>, usize),
>)
    requires
        i <= cs@.len(),
        k <= segs@.len(),
    ensures
        match r {
            None => match_from(cs@, i as int, segs@.map_values(|g: Segment| g@), k as int)
                is None,
            Some((o, n, end)) => {
                &&& end <= cs@.len()
                &&& match_from(cs@, i as int, segs@.map_values(|g: Segment| g@), k as int)
                    == Some(
                    (
                        CapsV {
                            old: match o {
                                Some(ref v) => Some(v@),
                                None => None,
                            },
                            new: match n {
                                Some(ref v) => Some(v@),
                                None => None,
                            },
                        },
                        end as int,
                    ),
                )
            },
        },
    decreases segs@.len() - k,
{
    let ghost gsegs = segs@.map_values(|g: Segment| g@);
    let n = cs.len();
    if k >= segs.len() {
        return Some((None, None, i));
    }
    match &segs[k] {
        Segment::Lit(l) => {
            if check_lit(cs, i, l) {
                run_match(cs, i + l.len(), segs, k + 1)
            } else {
                None
            }
        },
        Segment::Cap(c) => {
            let j = find_line_end(cs, i);
            match run_match(cs, j, segs, k + 1) {
                None => None,
                Some((o, n, end)) => {
                    let captured = string_range(cs, i, j);
                    match c {
                        Capture::Old => Some((Some(captured), n, end)),
                        Capture::New => Some((o, Some(captured), end)),
                        Capture::Path => Some((o, n, end)),
                    }
                },
            }
        },
    }
}

/// All matches of a pattern in a narrative, leftmost first and
/// non-overlapping, as [`find_from`] describes.
pub fn find_matches(cs: &Vec<char>, pattern: &Pattern) -> (r: Vec<VersionPair>)
    ensures
        r@.map_values(|p: VersionPair| p@) == find_from(cs@, 0, pattern@),
{
    let ghost gsegs = pattern@;
    let mut out: Vec<VersionPair> = Vec::new();
    let mut i: usize = 0;
    let n = cs.len();
    proof {
        assert(out@.map_values(|p: VersionPair| p@) + find_from(cs@, 0, gsegs) =~= find_from(
            cs@,
            0,
            gsegs,
        ));
    }
    while i < n
        invariant
            n == cs@.len(),
            0 <= i <= n,
            gsegs == pattern@,
            find_from(cs@, 0, gsegs) == out@.map_values(|p: VersionPair| p@) + find_from(
                cs@,
                i as int,
                gsegs,
            ),
        decreases n - i,
    {
        let ghost prev = out@.map_values(|p: VersionPair| p@);
        match run_match(cs, i, &pattern.segments, 0) {
            None => {
                i = i + 1;
            },
            Some((o, n_cap, end)) => {
                let old_text = match o {
                    Some(v) => v,
                    None => String::new(),
                };
                let new_text = match n_cap {
                    Some(v) => v,
                    None => String::new(),
                };
                let pair = VersionPair { old: old_text, new: new_text };
                proof {
                    let stepped = match_at(cs@, i as int, gsegs);
                    assert(stepped matches Some(p) && pair_of_caps(p.0) == pair@);
                }
                out.push(pair);
                let next = if i < end && end <= n {
                    end
                } else {
                    i + 1
                };
                proof {
                    assert(out@.map_values(|p: VersionPair| p@) =~= prev + seq![pair@]);
                    assert(prev + (seq![pair@] + find_from(cs@, next as int, gsegs)) =~= (prev
                        + seq![pair@]) + find_from(cs@, next as int, gsegs));
                }
                i = next;
            },
        }
    }
    out
}

/// The generic two-line notice: "Remote package installed" naming the
/// installed package, "Should be" naming the fixed one.
pub open spec fn generic_notice() -> Seq<SegmentV> {
    seq![
        SegmentV::Lit("Remote package installed : "@),
        SegmentV::Cap(Capture::Old),
        SegmentV::Lit("\nShould be : "@),
        SegmentV::Cap(Capture::New),
    ]
}

/// The labeled runtime-instance block: a path line, then the installed
/// and fixed versions of the runtime on labeled lines.
pub open spec fn runtime_notice() -> Seq<SegmentV> {
    seq![
        SegmentV::Lit(
            "The following vulnerable instance of Java is installed on the\nremote host :\n\n  Path              : "@,
        ),
        SegmentV::Cap(Capture::Path),
        SegmentV::Lit("\n  Installed version : "@),
        SegmentV::Cap(Capture::Old),
        SegmentV::Lit("\n  Fixed version     : "@),
        SegmentV::Cap(Capture::New),
    ]
}

/// The two-line notice with "Installed package" and "Fixed package"
/// labels.
pub open spec fn package_notice() -> Seq<SegmentV> {
    seq![
        SegmentV::Lit("- Installed package : "@),
        SegmentV::Cap(Capture::Old),
        SegmentV::Lit("\n    Fixed package     : "@),
        SegmentV::Cap(Capture::New),
    ]
}

/// Every notice the extractor recognizes in a narrative, in pattern-table
/// order: all matches of the generic notice, then of the runtime block,
/// then of the package notice.
pub open spec fn all_matches(s: Seq<char>) -> Seq<VersionPairV> {
    find_from(s, 0, generic_notice()) + find_from(s, 0, runtime_notice()) + find_from(
        s,
        0,
        package_notice(),
    )
}

/// The fixed, ordered pattern table, built once and passed to the
/// extractor.
pub fn advisory_patterns() -> (r: Vec<Pattern>)
    ensures
        r@.len() == 3,
        r@[0]@ == generic_notice(),
        r@[1]@ == runtime_notice(),
        r@[2]@ == package_notice(),
{
    let mut generic_segs: Vec<Segment> = Vec::new();
    generic_segs.push(Segment::Lit(chars_of("Remote package installed : ")));
    generic_segs.push(Segment::Cap(Capture::Old));
    generic_segs.push(Segment::Lit(chars_of("\nShould be : ")));
    generic_segs.push(Segment::Cap(Capture::New));
    let generic = Pattern { segments: generic_segs };
    proof {
        assert(generic@ =~= generic_notice());
    }

    let mut runtime_segs: Vec<Segment> = Vec::new();
    runtime_segs.push(
        Segment::Lit(
            chars_of(
                "The following vulnerable instance of Java is installed on the\nremote host :\n\n  Path              : ",
            ),
        ),
    );
    runtime_segs.push(Segment::Cap(Capture::Path));
    runtime_segs.push(Segment::Lit(chars_of("\n  Installed version : ")));
    runtime_segs.push(Segment::Cap(Capture::Old));
    runtime_segs.push(Segment::Lit(chars_of("\n  Fixed version     : ")));
    runtime_segs.push(Segment::Cap(Capture::New));
    let runtime = Pattern { segments: runtime_segs };
    proof {
        assert(runtime@ =~= runtime_notice());
    }

    let mut package_segs: Vec<Segment> = Vec::new();
    package_segs.push(Segment::Lit(chars_of("- Installed package : ")));
    package_segs.push(Segment::Cap(Capture::Old));
    package_segs.push(Segment::Lit(chars_of("\n    Fixed package     : ")));
    package_segs.push(Segment::Cap(Capture::New));
    let package = Pattern { segments: package_segs };
    proof {
        assert(package@ =~= package_notice());
    }

    let mut r: Vec<Pattern> = Vec::new();
    r.push(generic);
    r.push(runtime);
    r.push(package);
    r
}

} // verus!
