//! Path segments and route patterns: splitting a request path, and
//! matching it against a pattern of literal, dynamic and wildcard parts.
use vstd::prelude::*;
use crate::text::copy_text;

verus! {

/// One element of a route pattern.
#[derive(Debug, Clone)]
pub enum SegmentSpec {
    /// Matches exactly this text.
    Literal(Vec<char>),
    /// Matches any one segment and binds it under this name.
    Dynamic(Vec<char>),
    /// Matches all remaining segments (possibly none); always last.
    Wildcard(Vec<char>),
}

/// The splitting state after reading `p`: the finished pieces and the
/// piece still being read.
pub open spec fn split_state(p: Seq<char>, sep: char) -> (Seq<Seq<char>>, Seq<char>)
    decreases p.len(),
{
    if p.len() == 0 {
        (seq![], seq![])
    } else {
        let (done, cur) = split_state(p.drop_last(), sep);
        if p.last() == sep {
            if cur.len() > 0 {
                (done.push(cur), seq![])
            } else {
                (done, seq![])
            }
        } else {
            (done, cur.push(p.last()))
        }
    }
}

/// The non-empty pieces of `p` between occurrences of `sep`, in order.
pub open spec fn pieces(p: Seq<char>, sep: char) -> Seq<Seq<char>> {
    let (done, cur) = split_state(p, sep);
    if cur.len() > 0 {
        done.push(cur)
    } else {
        done
    }
}

/// The non-empty pieces of a path between slashes, in order.
pub open spec fn path_segments(p: Seq<char>) -> Seq<Seq<char>> {
    pieces(p, '/')
}

/// The views of a list of segments.
pub open spec fn views(v: Seq<Vec<char>>) -> Seq<Seq<char>> {
    v.map_values(|s: Vec<char>| s@)
}

proof fn lemma_split_segments_nonempty(p: Seq<char>, sep: char)
    ensures
        forall|i: int|
            0 <= i < split_state(p, sep).0.len() ==> (#[trigger] split_state(p, sep).0[i]).len()
                > 0,
    decreases p.len(),
{
    if p.len() > 0 {
        lemma_split_segments_nonempty(p.drop_last(), sep);
        let (done, cur) = split_state(p.drop_last(), sep);
        assert forall|i: int| 0 <= i < split_state(p, sep).0.len() implies (#[trigger] split_state(
            p,
            sep,
        ).0[i]).len() > 0 by {
            if i < done.len() {
                assert(done[i].len() > 0);
            }
        }
    }
}

/// Every segment of a split path is non-empty.
pub proof fn lemma_segments_nonempty(p: Seq<char>)
    ensures
        forall|i: int|
            0 <= i < path_segments(p).len() ==> (#[trigger] path_segments(p)[i]).len() > 0,
{
    lemma_split_segments_nonempty(p, '/');
}

/// Splits a path on `/`, dropping empty pieces.
pub fn split_path(p: &Vec<char>) -> (r: Vec<Vec<char>>)
    ensures
        views(r@) == path_segments(p@),
{
    split_on(p, '/')
}

/// Splits a text on `sep`, dropping empty pieces.
pub fn split_on(p: &Vec<char>, sep: char) -> (r: Vec<Vec<char>>)
    ensures
        views(r@) == pieces(p@, sep),
{
    let mut done: Vec<Vec<char>> = Vec::new();
    let mut cur: Vec<char> = Vec::new();
    let mut i: usize = 0;
    while i < p.len()
        invariant
            i <= p@.len(),
            (views(done@), cur@) == split_state(p@.subrange(0, i as int), sep),
        decreases p@.len() - i,
    {
        let c = p[i];
        assert(p@.subrange(0, i + 1).drop_last() =~= p@.subrange(0, i as int));
        if c == sep {
            if cur.len() > 0 {
                let piece = cur;
                cur = Vec::new();
                done.push(piece);
                assert(views(done@) =~= split_state(p@.subrange(0, i + 1), sep).0);
            }
        } else {
            cur.push(c);
        }
        i = i + 1;
    }
    assert(p@.subrange(0, p@.len() as int) =~= p@);
    if cur.len() > 0 {
        done.push(cur);
        assert(views(done@) =~= pieces(p@, sep));
    }
    done
}

/// Whether a pattern is well formed: a wildcard may only stand last.
pub open spec fn pattern_wf(p: Seq<SegmentSpec>) -> bool {
    forall|i: int| 0 <= i < p.len() - 1 ==> !(#[trigger] p[i] is Wildcard)
}

/// Whether the pattern ends in a wildcard.
pub open spec fn has_wildcard(p: Seq<SegmentSpec>) -> bool {
    p.len() > 0 && p.last() is Wildcard
}

/// The number of pattern parts that consume exactly one segment.
pub open spec fn fixed_len(p: Seq<SegmentSpec>) -> int {
    if has_wildcard(p) {
        p.len() - 1
    } else {
        p.len() as int
    }
}

/// Whether one pattern part accepts one segment.
pub open spec fn part_fits(part: SegmentSpec, seg: Seq<char>) -> bool {
    match part {
        SegmentSpec::Literal(t) => t@ == seg,
        SegmentSpec::Dynamic(_) => seg.len() > 0,
        SegmentSpec::Wildcard(_) => true,
    }
}

/// Whether a request's segments fit a pattern: literals agree, each dynamic
/// part takes one non-empty segment, and a trailing wildcard takes the rest.
pub open spec fn pattern_matches(p: Seq<SegmentSpec>, s: Seq<Seq<char>>) -> bool {
    &&& if has_wildcard(p) {
        s.len() >= fixed_len(p)
    } else {
        s.len() == p.len()
    }
    &&& forall|i: int| 0 <= i < fixed_len(p) ==> part_fits(#[trigger] p[i], s[i])
}

/// The segments bound by the dynamic parts among the first `n` parts.
pub open spec fn dynamic_values(p: Seq<SegmentSpec>, s: Seq<Seq<char>>, n: int) -> Seq<Seq<char>>
    decreases n,
{
    if n <= 0 {
        seq![]
    } else if p[n - 1] is Dynamic {
        dynamic_values(p, s, n - 1).push(s[n - 1])
    } else {
        dynamic_values(p, s, n - 1)
    }
}

/// What a matching pattern binds: the dynamic segments in order, and the
/// segments that the wildcard takes.
#[derive(Debug, Clone)]
pub struct Bindings {
    pub params: Vec<Vec<char>>,
    pub rest: Vec<Vec<char>>,
}

/// The bindings owed for a pattern and segments that match.
pub open spec fn bindings_for(p: Seq<SegmentSpec>, s: Seq<Seq<char>>, b: Bindings) -> bool {
    &&& views(b.params@) == dynamic_values(p, s, fixed_len(p))
    &&& views(b.rest@) == s.subrange(fixed_len(p), s.len() as int)
}

/// Whether two patterns have the same shape: the same literals in the same
/// places, and the same kind of part elsewhere.
pub open spec fn same_shape(a: Seq<SegmentSpec>, b: Seq<SegmentSpec>) -> bool {
    &&& a.len() == b.len()
    &&& forall|i: int| 0 <= i < a.len() ==> part_same(#[trigger] a[i], b[i])
}

pub open spec fn part_same(x: SegmentSpec, y: SegmentSpec) -> bool {
    match (x, y) {
        (SegmentSpec::Literal(t), SegmentSpec::Literal(u)) => t@ == u@,
        (SegmentSpec::Dynamic(_), SegmentSpec::Dynamic(_)) => true,
        (SegmentSpec::Wildcard(_), SegmentSpec::Wildcard(_)) => true,
        _ => false,
    }
}

fn text_eq(a: &Vec<char>, b: &Vec<char>) -> (r: bool)
    ensures
        r == (a@ == b@),
{
    if a.len() != b.len() {
        return false;
    }
    let mut i: usize = 0;
    while i < a.len()
        invariant
            a@.len() == b@.len(),
            i <= a@.len(),
            forall|j: int| 0 <= j < i ==> a@[j] == b@[j],
        decreases a@.len() - i,
    {
        if a[i] != b[i] {
            return false;
        }
        i = i + 1;
    }
    assert(a@ =~= b@);
    true
}

/// Compares two texts character by character.
pub fn same_text(a: &Vec<char>, b: &Vec<char>) -> (r: bool)
    ensures
        r == (a@ == b@),
{
    text_eq(a, b)
}

/// Whether a pattern ends in a wildcard.
pub fn ends_in_wildcard(p: &Vec<SegmentSpec>) -> (r: bool)
    ensures
        r == has_wildcard(p@),
{
    p.len() > 0 && match &p[p.len() - 1] {
        SegmentSpec::Wildcard(_) => true,
        _ => false,
    }
}

fn part_fits_exec(part: &SegmentSpec, seg: &Vec<char>) -> (r: bool)
    ensures
        r == part_fits(*part, seg@),
{
    match part {
        SegmentSpec::Literal(t) => text_eq(t, seg),
        SegmentSpec::Dynamic(_) => seg.len() > 0,
        SegmentSpec::Wildcard(_) => true,
    }
}

/// Matches segments against a pattern; on a match, returns what it binds.
pub fn match_pattern(p: &Vec<SegmentSpec>, s: &Vec<Vec<char>>) -> (r: Option<Bindings>)
    ensures
        r.is_some() == pattern_matches(p@, views(s@)),
        r.is_some() ==> bindings_for(p@, views(s@), r.unwrap()),
{
    let wild = ends_in_wildcard(p);
    let fixed: usize = if wild { p.len() - 1 } else { p.len() };
    if wild {
        if s.len() < fixed {
            return None;
        }
    } else if s.len() != fixed {
        return None;
    }
    let mut params: Vec<Vec<char>> = Vec::new();
    let mut i: usize = 0;
    while i < fixed
        invariant
            fixed == fixed_len(p@),
            fixed <= s@.len(),
            fixed <= p@.len(),
            i <= fixed,
            forall|j: int| 0 <= j < i ==> part_fits(#[trigger] p@[j], views(s@)[j]),
            views(params@) == dynamic_values(p@, views(s@), i as int),
        decreases fixed - i,
    {
        if !part_fits_exec(&p[i], &s[i]) {
            return None;
        }
        match &p[i] {
            SegmentSpec::Dynamic(_) => {
                params.push(copy_text(&s[i]));
                assert(views(params@) =~= dynamic_values(p@, views(s@), i + 1));
            },
            _ => {},
        }
        i = i + 1;
    }
    let mut rest: Vec<Vec<char>> = Vec::new();
    let mut k: usize = fixed;
    while k < s.len()
        invariant
            fixed <= k <= s@.len(),
            views(rest@) == views(s@).subrange(fixed as int, k as int),
        decreases s@.len() - k,
    {
        let ghost before = rest@;
        rest.push(copy_text(&s[k]));
        assert(views(rest@) =~= views(before).push(views(s@)[k as int]));
        k = k + 1;
        assert(views(rest@) =~= views(s@).subrange(fixed as int, k as int));
    }
    Some(Bindings { params, rest })
}

/// Whether `part` is what the pattern text `seg` declares: `<name..>` a
/// wildcard, `<name>` a dynamic part, anything else a literal.
pub open spec fn declares(seg: Seq<char>, part: SegmentSpec) -> bool {
    if seg.len() >= 4 && seg[0] == '<' && seg.subrange(seg.len() - 3, seg.len() as int) == "..>"@ {
        part is Wildcard && part->Wildcard_0@ == seg.subrange(1, seg.len() - 3)
    } else if seg.len() >= 2 && seg[0] == '<' && seg.last() == '>' {
        part is Dynamic && part->Dynamic_0@ == seg.subrange(1, seg.len() - 1)
    } else {
        part is Literal && part->Literal_0@ == seg
    }
}

fn slice_text(s: &Vec<char>, from: usize, to: usize) -> (r: Vec<char>)
    requires
        from <= to <= s@.len(),
    ensures
        r@ == s@.subrange(from as int, to as int),
{
    let mut r: Vec<char> = Vec::new();
    let mut i: usize = from;
    while i < to
        invariant
            from <= i <= to <= s@.len(),
            r@ == s@.subrange(from as int, i as int),
        decreases to - i,
    {
        r.push(s[i]);
        i = i + 1;
        assert(r@ =~= s@.subrange(from as int, i as int));
    }
    r
}

/// Reads one part of a pattern.
pub fn parse_part(seg: &Vec<char>) -> (r: SegmentSpec)
    ensures
        declares(seg@, r),
{
    let n = seg.len();
    if n >= 4 && seg[0] == '<' && seg[n - 3] == '.' && seg[n - 2] == '.' && seg[n - 1] == '>' {
        proof {
            reveal_strlit("..>");
        }
        assert(seg@.subrange(n - 3, n as int) =~= "..>"@);
        return SegmentSpec::Wildcard(slice_text(seg, 1, n - 3));
    }
    proof {
        reveal_strlit("..>");
        if n >= 4 && seg@[0] == '<' {
            if seg@.subrange(n - 3, n as int) == "..>"@ {
                assert(seg@.subrange(n - 3, n as int)[0] == seg@[n - 3]);
                assert(seg@.subrange(n - 3, n as int)[1] == seg@[n - 2]);
                assert(seg@.subrange(n - 3, n as int)[2] == seg@[n - 1]);
            }
        }
    }
    if n >= 2 && seg[0] == '<' && seg[n - 1] == '>' {
        return SegmentSpec::Dynamic(slice_text(seg, 1, n - 1));
    }
    SegmentSpec::Literal(copy_text(seg))
}

/// Reads a pattern such as `/outer/<path..>`.
pub fn parse_pattern(text: &str) -> (r: Vec<SegmentSpec>)
    ensures
        r@.len() == path_segments(text@).len(),
        forall|i: int| 0 <= i < r@.len() ==> declares(path_segments(text@)[i], #[trigger] r@[i]),
{
    let segs = split_path(&crate::text::chars_of(text));
    let mut r: Vec<SegmentSpec> = Vec::new();
    let mut i: usize = 0;
    while i < segs.len()
        invariant
            views(segs@) == path_segments(text@),
            i <= segs@.len(),
            r@.len() == i,
            forall|j: int| 0 <= j < i ==> declares(path_segments(text@)[j], #[trigger] r@[j]),
        decreases segs@.len() - i,
    {
        let part = parse_part(&segs[i]);
        assert(views(segs@)[i as int] == segs@[i as int]@);
        r.push(part);
        i = i + 1;
    }
    r
}

/// A literal pattern part.
pub fn lit(s: &str) -> (r: SegmentSpec)
    ensures
        r is Literal && r->Literal_0@ == s@,
{
    SegmentSpec::Literal(crate::text::chars_of(s))
}

/// A dynamic pattern part.
pub fn dynamic(name: &str) -> (r: SegmentSpec)
    ensures
        r is Dynamic && r->Dynamic_0@ == name@,
{
    SegmentSpec::Dynamic(crate::text::chars_of(name))
}

/// A wildcard pattern part.
pub fn wildcard(name: &str) -> (r: SegmentSpec)
    ensures
        r is Wildcard && r->Wildcard_0@ == name@,
{
    SegmentSpec::Wildcard(crate::text::chars_of(name))
}

/// A pattern part as plain values.
pub enum PartView {
    Lit(Seq<char>),
    Param,
    Rest,
}

/// The plain view of a pattern part.
pub open spec fn part_view(part: SegmentSpec) -> PartView {
    match part {
        SegmentSpec::Literal(t) => PartView::Lit(t@),
        SegmentSpec::Dynamic(_) => PartView::Param,
        SegmentSpec::Wildcard(_) => PartView::Rest,
    }
}

/// The plain view of a pattern, part by part.
pub open spec fn pattern_view(p: Seq<SegmentSpec>) -> Seq<PartView> {
    p.map_values(|part: SegmentSpec| part_view(part))
}

/// How many parts of a pattern are dynamic or wildcard.
pub open spec fn param_count(p: Seq<SegmentSpec>) -> nat
    decreases p.len(),
{
    if p.len() == 0 {
        0
    } else {
        param_count(p.drop_last()) + if p.last() is Literal {
            0nat
        } else {
            1nat
        }
    }
}

/// The rank a pattern gets when none is given: one more than the lowest
/// default for each dynamic or wildcard part, so that patterns with fewer
/// of them are tried first. From 63 such parts on, the rank stays at -1.
pub open spec fn default_rank(p: Seq<SegmentSpec>) -> i64 {
    if param_count(p) < 64 {
        (param_count(p) - 64) as i64
    } else {
        -1i64
    }
}

/// The rank a pattern gets when none is given.
pub fn rank_for(p: &Vec<SegmentSpec>) -> (r: i64)
    ensures
        r == default_rank(p@),
{
    let mut count: i64 = 0;
    let mut i: usize = 0;
    while i < p.len()
        invariant
            i <= p@.len(),
            count == param_count(p@.subrange(0, i as int)),
            count < 64,
        decreases p@.len() - i,
    {
        assert(p@.subrange(0, i + 1).drop_last() =~= p@.subrange(0, i as int));
        match &p[i] {
            SegmentSpec::Literal(_) => {},
            _ => {
                if count == 63 {
                    proof {
                        lemma_param_count_grows(p@, i + 1, p@.len() as int);
                        assert(p@.subrange(0, p@.len() as int) =~= p@);
                    }
                    return -1;
                }
                count = count + 1;
            },
        }
        i = i + 1;
    }
    assert(p@.subrange(0, p@.len() as int) =~= p@);
    count - 64
}

proof fn lemma_param_count_grows(p: Seq<SegmentSpec>, i: int, j: int)
    requires
        0 <= i <= j <= p.len(),
    ensures
        param_count(p.subrange(0, i)) <= param_count(p.subrange(0, j)),
    decreases j - i,
{
    if i < j {
        lemma_param_count_grows(p, i, j - 1);
        assert(p.subrange(0, j).drop_last() =~= p.subrange(0, j - 1));
    }
}

} // verus!
