//! The chapter-side grammar: a quiz is embedded where a chapter holds a
//! `{{#quiz <path>}}` directive.  The scanner finds every directive, from
//! the left and without overlap, and the splicer replaces each found byte
//! range with its rendered element.

use vstd::prelude::*;

verus! {

/// One directive found in a chapter: the byte range it occupies and the
/// path it names.
pub struct QuizDirective {
    /// The first byte of the directive.
    pub start: usize,
    /// One past the last byte of the directive.
    pub end: usize,
    /// The bytes between the marker and the closing braces: the path of
    /// the quiz document.
    pub path: Vec<u8>,
}

/// The view of [`QuizDirective`].
#[verifier::ext_equal]
pub struct QuizDirectiveV {
    pub start: int,
    pub end: int,
    pub path: Seq<u8>,
}

impl View for QuizDirective {
    type V = QuizDirectiveV;

    open spec fn view(&self) -> QuizDirectiveV {
        QuizDirectiveV { start: self.start as int, end: self.end as int, path: self.path@ }
    }
}

/// The views of a list of directives.
pub open spec fn directives_view(ds: Seq<QuizDirective>) -> Seq<QuizDirectiveV> {
    Seq::new(ds.len(), |i: int| ds[i]@)
}

/// The bytes that open a directive.
pub open spec fn marker() -> Seq<u8> {
    seq![0x7bu8, 0x7bu8, 0x23u8, 0x71u8, 0x75u8, 0x69u8, 0x7au8, 0x20u8]
}

/// Whether the marker stands at position `i`.
pub open spec fn has_marker(b: Seq<u8>, i: int) -> bool {
    0 <= i && i + 8 <= b.len() && b.subrange(i, i + 8) == marker()
}

/// The position of the first closing brace at or after `p`, or the length.
pub open spec fn first_close(b: Seq<u8>, p: int) -> int
    decreases b.len() - p,
{
    if p < 0 || p >= b.len() {
        b.len() as int
    } else if b[p] == 0x7du8 {
        p
    } else {
        first_close(b, p + 1)
    }
}

/// [`first_close`] never lies before its starting point nor beyond the
/// length, and finds a closing brace when it is not the length.
pub proof fn lemma_first_close_bounds(b: Seq<u8>, p: int)
    requires
        0 <= p <= b.len(),
    ensures
        p <= first_close(b, p) <= b.len(),
    decreases b.len() - p,
{
    if p < b.len() && b[p] != 0x7du8 {
        lemma_first_close_bounds(b, p + 1);
    }
}

/// [`first_close`] skips positions holding no closing brace.
proof fn lemma_first_close_shift(b: Seq<u8>, lo: int, hi: int)
    requires
        0 <= lo <= hi <= b.len(),
        forall|j: int| lo <= j < hi ==> b[j] != 0x7du8,
    ensures
        first_close(b, lo) == first_close(b, hi),
    decreases hi - lo,
{
    if lo < hi {
        lemma_first_close_shift(b, lo + 1, hi);
    }
}

/// The directives of `b` from position `i` on: at a marker whose path
/// runs to a doubled closing brace, the directive, then the rest after
/// it; otherwise the rest from the next position.
pub open spec fn scan(b: Seq<u8>, i: int) -> Seq<QuizDirectiveV>
    decreases b.len() - i,
{
    if i < 0 || i + 8 > b.len() {
        Seq::empty()
    } else if has_marker(b, i) {
        let p = first_close(b, i + 8);
        if p > i + 8 && p + 1 < b.len() && b[p + 1] == 0x7du8 {
            seq![QuizDirectiveV { start: i, end: p + 2, path: b.subrange(i + 8, p) }] + scan(
                b,
                p + 2,
            )
        } else {
            scan(b, i + 1)
        }
    } else {
        scan(b, i + 1)
    }
}

/// Every `{{#quiz <path>}}` directive of a chapter, from the left and
/// without overlap.
pub open spec fn quiz_directives(b: Seq<u8>) -> Seq<QuizDirectiveV> {
    scan(b, 0)
}

/// Whether the marker stands at position `i` of `b`.
fn marker_at(b: &Vec<u8>, i: usize) -> (r: bool)
    ensures
        r == has_marker(b@, i as int),
{
    if b.len() < 8 || i > b.len() - 8 {
        return false;
    }
    let r = b[i] == 0x7b && b[i + 1] == 0x7b && b[i + 2] == 0x23 && b[i + 3] == 0x71 && b[i + 4]
        == 0x75 && b[i + 5] == 0x69 && b[i + 6] == 0x7a && b[i + 7] == 0x20;
    proof {
        if r {
            assert(b@.subrange(i as int, i + 8) =~= marker());
        } else {
            if b@.subrange(i as int, i + 8) == marker() {
                assert(b@[i as int] == marker()[0]);
                assert(b@[i + 1] == marker()[1]);
                assert(b@[i + 2] == marker()[2]);
                assert(b@[i + 3] == marker()[3]);
                assert(b@[i + 4] == marker()[4]);
                assert(b@[i + 5] == marker()[5]);
                assert(b@[i + 6] == marker()[6]);
                assert(b@[i + 7] == marker()[7]);
            }
        }
    }
    r
}

/// The position of the first closing brace at or after `p`, or the
/// length, as [`first_close`] says.
fn find_close(b: &Vec<u8>, p: usize) -> (r: usize)
    requires
        p <= b@.len(),
    ensures
        r == first_close(b@, p as int),
        p <= r <= b@.len(),
{
    let mut i: usize = p;
    while i < b.len()
        invariant
            p <= i <= b@.len(),
            forall|j: int| p <= j < i ==> b@[j] != 0x7du8,
        decreases b@.len() - i,
    {
        if b[i] == 0x7d {
            proof {
                lemma_first_close_shift(b@, p as int, i as int);
            }
            return i;
        }
        i += 1;
    }
    proof {
        lemma_first_close_shift(b@, p as int, b@.len() as int);
    }
    b.len()
}

/// Finds every directive of a chapter, as [`quiz_directives`] says.
pub fn find_quiz_directives(content: &Vec<u8>) -> (r: Vec<QuizDirective>)
    ensures
        directives_view(r@) == quiz_directives(content@),
{
    let ghost bv = content@;
    let mut found: Vec<QuizDirective> = Vec::new();
    let mut i: usize = 0;
    while i < content.len()
        invariant
            i <= bv.len(),
            bv == content@,
            directives_view(found@) + scan(bv, i as int) == quiz_directives(bv),
        decreases bv.len() - i,
    {
        if marker_at(content, i) {
            let p = find_close(content, i + 8);
            if p > i + 8 && p < content.len() - 1 && content[p + 1] == 0x7d {
                let mut path: Vec<u8> = Vec::new();
                let mut k: usize = i + 8;
                while k < p
                    invariant
                        i + 8 <= k <= p <= bv.len(),
                        bv == content@,
                        path@ == bv.subrange(i + 8, k as int),
                    decreases p - k,
                {
                    path.push(content[k]);
                    proof {
                        assert(path@ =~= bv.subrange(i + 8, k + 1));
                    }
                    k += 1;
                }
                let ghost pre = found@;
                found.push(QuizDirective { start: i, end: p + 2, path });
                proof {
                    assert(directives_view(found@) =~~= directives_view(pre) + seq![
                        QuizDirectiveV { start: i as int, end: p + 2, path: bv.subrange(i + 8, p as int) },
                    ]);
                    assert((directives_view(pre) + seq![
                        QuizDirectiveV { start: i as int, end: p + 2, path: bv.subrange(i + 8, p as int) },
                    ]) + scan(bv, p + 2) =~= directives_view(pre) + (seq![
                        QuizDirectiveV { start: i as int, end: p + 2, path: bv.subrange(i + 8, p as int) },
                    ] + scan(bv, p + 2)));
                }
                i = p + 2;
            } else {
                i += 1;
            }
        } else {
            i += 1;
        }
    }
    proof {
        assert(scan(bv, i as int) =~= Seq::<QuizDirectiveV>::empty());
        assert(directives_view(found@) + Seq::<QuizDirectiveV>::empty() =~= directives_view(
            found@,
        ));
    }
    found
}

/// The chapter text from `pos` on, with each replacement from `k` on
/// standing in place of its byte range.
pub open spec fn splice_from(
    b: Seq<u8>,
    rs: Seq<(usize, usize, Seq<u8>)>,
    k: int,
    pos: int,
) -> Seq<u8>
    decreases rs.len() - k,
{
    if k < 0 || k >= rs.len() {
        b.subrange(pos, b.len() as int)
    } else {
        b.subrange(pos, rs[k].0 as int) + rs[k].2 + splice_from(b, rs, k + 1, rs[k].1 as int)
    }
}

/// The views of a list of replacements.
pub open spec fn reps_view(rs: Seq<(usize, usize, Vec<u8>)>) -> Seq<(usize, usize, Seq<u8>)> {
    Seq::new(rs.len(), |k: int| (rs[k].0, rs[k].1, rs[k].2@))
}

/// Whether the replacements are ordered, non-overlapping byte ranges of a
/// text of `len` bytes.
pub open spec fn reps_wf(rs: Seq<(usize, usize, Seq<u8>)>, len: int) -> bool {
    &&& forall|k: int| 0 <= k < rs.len() ==> (#[trigger] rs[k]).0 <= rs[k].1 <= len
    &&& forall|k: int| 0 < k < rs.len() ==> (#[trigger] rs[k]).0 >= rs[k - 1].1
}

/// Splices the replacements into the chapter text, as [`splice_from`]
/// says.
pub fn splice_replacements(content: &Vec<u8>, reps: &Vec<(usize, usize, Vec<u8>)>) -> (r: Vec<
    u8,
>)
    requires
        reps_wf(reps_view(reps@), content@.len() as int),
    ensures
        r@ == splice_from(content@, reps_view(reps@), 0, 0),
{
    let ghost bv = content@;
    let ghost rv = reps_view(reps@);
    let mut out: Vec<u8> = Vec::new();
    let mut pos: usize = 0;
    let mut k: usize = 0;
    while k < reps.len()
        invariant
            k <= reps@.len(),
            bv == content@,
            rv == reps_view(reps@),
            rv.len() == reps@.len(),
            forall|j: int| 0 <= j < rv.len() ==> rv[j] == (reps@[j].0, reps@[j].1, reps@[j].2@),
            reps_wf(rv, bv.len() as int),
            pos <= bv.len(),
            k < rv.len() ==> pos <= rv[k as int].0,
            k > 0 ==> pos == rv[k - 1].1,
            k == 0 ==> pos == 0,
            out@ + splice_from(bv, rv, k as int, pos as int) == splice_from(bv, rv, 0, 0),
        decreases reps@.len() - k,
    {
        let (start, end) = (reps[k].0, reps[k].1);
        let ghost pre = out@;
        let mut j: usize = pos;
        while j < start
            invariant
                pos <= j <= start <= bv.len(),
                bv == content@,
                out@ == pre + bv.subrange(pos as int, j as int),
            decreases start - j,
        {
            out.push(content[j]);
            proof {
                assert(out@ =~= pre + bv.subrange(pos as int, j + 1));
            }
            j += 1;
        }
        let ghost mid = out@;
        let mut t: usize = 0;
        while t < reps[k].2.len()
            invariant
                t <= reps@[k as int].2@.len(),
                k < reps@.len(),
                bv == content@,
                out@ == mid + reps@[k as int].2@.subrange(0, t as int),
            decreases reps@[k as int].2@.len() - t,
        {
            out.push(reps[k].2[t]);
            proof {
                assert(out@ =~= mid + reps@[k as int].2@.subrange(0, t + 1));
            }
            t += 1;
        }
        proof {
            assert(reps@[k as int].2@.subrange(0, reps@[k as int].2@.len() as int) =~= reps@[k as int].2@);
            assert(out@ =~= (pre + bv.subrange(pos as int, start as int)) + rv[k as int].2);
            assert(splice_from(bv, rv, k as int, pos as int) == bv.subrange(
                pos as int,
                start as int,
            ) + rv[k as int].2 + splice_from(bv, rv, k + 1, end as int));
            assert(out@ + splice_from(bv, rv, k + 1, end as int) =~= pre + splice_from(
                bv,
                rv,
                k as int,
                pos as int,
            ));
        }
        pos = end;
        k += 1;
    }
    let ghost pre = out@;
    let mut j: usize = pos;
    while j < content.len()
        invariant
            pos <= j <= bv.len(),
            bv == content@,
            out@ == pre + bv.subrange(pos as int, j as int),
        decreases bv.len() - j,
    {
        out.push(content[j]);
        proof {
            assert(out@ =~= pre + bv.subrange(pos as int, j + 1));
        }
        j += 1;
    }
    proof {
        assert(out@ =~= pre + bv.subrange(pos as int, bv.len() as int));
        assert(splice_from(bv, rv, rv.len() as int, pos as int) == bv.subrange(
            pos as int,
            bv.len() as int,
        ));
    }
    out
}

} // verus!
