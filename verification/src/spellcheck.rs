//! The spellcheck sub-validator: flags words of a Markdown value that a
//! dictionary does not hold, as warnings anchored at the word's byte range
//! in the original document.  The range composes the range of the TOML
//! string literal, the width of its opening quotes, the offset of the text
//! node within the Markdown string, and the offset of the word within the
//! text node.

use vstd::prelude::*;
use vstd::string::StrSliceExecFns;
use crate::diagnostics::{DiagMessage, DiagMessageV, DiagnosticV, ValidationContext};
use crate::schema::Markdown;
use crate::span_tree::Span;
use crate::text::{sat_add, sat_add_spec};
use crate::text::str_eq;

verus! {

#[verifier::external_type_specification]
#[verifier::external_body]
pub struct ExDictionary(zspell::Dictionary);

/// The views of a list of offset-and-text pairs.
pub open spec fn word_pairs_view(v: Seq<(usize, String)>) -> Seq<(usize, Seq<char>)> {
    Seq::new(v.len(), |i: int| (v[i].0, v[i].1@))
}

/// The byte offset, within a Markdown string, and the text of every plain
/// text node of its document tree, in the order the tree walk visits
/// them: a function of the Markdown string alone.
pub uninterp spec fn md_leaves_of(s: Seq<char>) -> Seq<(usize, Seq<char>)>;

/// The byte offset, within a text, of each word a dictionary does not
/// hold, with the word, in text order: a function of the dictionary and
/// the text alone.
pub uninterp spec fn dict_misses_of(d: zspell::Dictionary, text: Seq<char>) -> Seq<
    (usize, Seq<char>),
>;

/// Relies on `markdown::to_mdast`: collects the byte offset, within the
/// Markdown string, and the text of every plain text node, in the order
/// the tree walk visits them.  Parsing is deterministic, so the result is
/// the one [`md_leaves_of`] names.
#[verifier::external_body]
fn markdown_text_leaves(s: &str) -> (r: Vec<(usize, String)>)
    ensures
        word_pairs_view(r@) == md_leaves_of(s@),
{
    let Ok(root) = markdown::to_mdast(s, &markdown::ParseOptions::default()) else {
        return Vec::new();
    };
    let mut queue = vec![&root];
    let mut leaves = Vec::new();
    while let Some(node) = queue.pop() {
        if let (markdown::mdast::Node::Text(text), Some(pos)) = (node, node.position()) {
            leaves.push((pos.start.offset, text.value.clone()));
        }
        if let Some(children) = node.children() {
            queue.extend(children);
        }
    }
    leaves
}

/// Relies on `zspell`'s `Dictionary::check_indices`: the byte offset,
/// within the text, of each word the dictionary does not hold, with the
/// word itself.  The lookup is deterministic in the dictionary and the
/// text, so the result is the one [`dict_misses_of`] names.
#[verifier::external_body]
fn dict_check_words(dict: &zspell::Dictionary, text: &str) -> (r: Vec<(usize, String)>)
    ensures
        word_pairs_view(r@) == dict_misses_of(*dict, text@),
{
    dict.check_indices(text).map(|(idx, word)| (idx, word.to_string())).collect()
}

/// Whether a character is a decimal digit.
pub open spec fn is_digit(c: char) -> bool {
    '0' <= c && c <= '9'
}

/// Whether every character of `s` is a decimal digit.
pub open spec fn digits_only(s: Seq<char>) -> bool {
    forall|i: int| 0 <= i < s.len() ==> is_digit(#[trigger] s[i])
}

/// Whether `c` is the lower-case letter `l` in either case.
pub open spec fn eqi(c: char, l: char) -> bool {
    c == l || c as u32 == l as u32 - 32
}

/// Whether `s` spells the lower-case word `w`, ignoring case.
pub open spec fn matches_kw(s: Seq<char>, w: Seq<char>) -> bool {
    s.len() == w.len() && forall|i: int| 0 <= i < s.len() ==> eqi(#[trigger] s[i], w[i])
}

/// `s` without one leading sign character.
pub open spec fn strip_sign(s: Seq<char>) -> Seq<char> {
    if s.len() > 0 && (s[0] == '+' || s[0] == '-') {
        s.drop_first()
    } else {
        s
    }
}

/// The position of the first occurrence of `c1` or `c2` in `s` at or
/// after `i`, or the length of `s`.
pub open spec fn first_at(s: Seq<char>, i: int, c1: char, c2: char) -> int
    decreases s.len() - i,
{
    if i < 0 || i >= s.len() {
        s.len() as int
    } else if s[i] == c1 || s[i] == c2 {
        i
    } else {
        first_at(s, i + 1, c1, c2)
    }
}

/// [`first_at`] of a position where neither character occurs earlier.
pub proof fn lemma_first_at_found(s: Seq<char>, i: int, c1: char, c2: char)
    requires
        0 <= i < s.len(),
        s[i] == c1 || s[i] == c2,
        forall|j: int| 0 <= j < i ==> s[j] != c1 && s[j] != c2,
    ensures
        first_at(s, 0, c1, c2) == i,
    decreases i,
{
    if i > 0 {
        lemma_first_at_shift(s, 0, i, c1, c2);
    }
}

/// [`first_at`] skips over positions where neither character occurs.
proof fn lemma_first_at_shift(s: Seq<char>, lo: int, hi: int, c1: char, c2: char)
    requires
        0 <= lo <= hi <= s.len(),
        forall|j: int| lo <= j < hi ==> s[j] != c1 && s[j] != c2,
    ensures
        first_at(s, lo, c1, c2) == first_at(s, hi, c1, c2),
    decreases hi - lo,
{
    if lo < hi {
        lemma_first_at_shift(s, lo + 1, hi, c1, c2);
    }
}

/// When neither character occurs at all, [`first_at`] is the length.
pub proof fn lemma_first_at_none(s: Seq<char>, c1: char, c2: char)
    requires
        forall|j: int| 0 <= j < s.len() ==> s[j] != c1 && s[j] != c2,
    ensures
        first_at(s, 0, c1, c2) == s.len(),
{
    lemma_first_at_shift(s, 0, s.len() as int, c1, c2);
}

/// A decimal mantissa: digits, optionally with one point, with a digit on
/// at least one side of it.
pub open spec fn is_mantissa(m: Seq<char>) -> bool {
    let d = first_at(m, 0, '.', '.');
    if d == m.len() {
        m.len() > 0 && digits_only(m)
    } else {
        digits_only(m.take(d)) && digits_only(m.skip(d + 1)) && (d > 0 || m.len() > d + 1)
    }
}

/// An exponent part: an optional sign, then at least one digit.
pub open spec fn is_exponent(x: Seq<char>) -> bool {
    strip_sign(x).len() > 0 && digits_only(strip_sign(x))
}

/// A decimal number with an optional exponent marked `e` or `E`.
pub open spec fn is_number(s: Seq<char>) -> bool {
    let e = first_at(s, 0, 'e', 'E');
    if e == s.len() {
        is_mantissa(s)
    } else {
        is_mantissa(s.take(e)) && is_exponent(s.skip(e + 1))
    }
}

/// Whether `s` denotes a floating-point number: an optional sign, then
/// one of the infinity or not-a-number words in any case, or a number.
pub open spec fn is_float_token(s: Seq<char>) -> bool {
    let b = strip_sign(s);
    matches_kw(b, "inf"@) || matches_kw(b, "infinity"@) || matches_kw(b, "nan"@) || is_number(b)
}

/// Whether the spellcheck passes a token by without looking it up: a lone
/// hyphen, or a token that denotes a number.
pub open spec fn skip_token(s: Seq<char>) -> bool {
    s == "-"@ || is_float_token(s)
}

/// The characters of a string, one by one.
fn chars_of(s: &str) -> (v: Vec<char>)
    ensures
        v@ == s@,
{
    let n = s.unicode_len();
    let mut v: Vec<char> = Vec::new();
    let mut i: usize = 0;
    while i < n
        invariant
            n == s@.len(),
            i <= n,
            v@ == s@.take(i as int),
        decreases n - i,
    {
        v.push(s.get_char(i));
        proof {
            assert(v@ =~= s@.take(i + 1));
        }
        i += 1;
    }
    proof {
        assert(s@.take(n as int) =~= s@);
    }
    v
}

/// The characters of `v` from `lo` to `hi`.
fn subvec(v: &Vec<char>, lo: usize, hi: usize) -> (r: Vec<char>)
    requires
        lo <= hi <= v@.len(),
    ensures
        r@ == v@.subrange(lo as int, hi as int),
{
    let mut r: Vec<char> = Vec::new();
    let mut i: usize = lo;
    while i < hi
        invariant
            lo <= i <= hi <= v@.len(),
            r@ == v@.subrange(lo as int, i as int),
        decreases hi - i,
    {
        r.push(v[i]);
        proof {
            assert(r@ =~= v@.subrange(lo as int, i + 1));
        }
        i += 1;
    }
    r
}

/// `v` without one leading sign character.
fn strip_sign_x(v: &Vec<char>) -> (r: Vec<char>)
    ensures
        r@ == strip_sign(v@),
{
    if v.len() > 0 && (v[0] == '+' || v[0] == '-') {
        let r = subvec(v, 1, v.len());
        proof {
            assert(r@ =~= strip_sign(v@));
        }
        r
    } else {
        let r = subvec(v, 0, v.len());
        proof {
            assert(r@ =~= strip_sign(v@));
        }
        r
    }
}

/// Whether every character of `v` is a decimal digit.
fn digits_only_x(v: &Vec<char>) -> (r: bool)
    ensures
        r == digits_only(v@),
{
    let mut i: usize = 0;
    while i < v.len()
        invariant
            i <= v@.len(),
            forall|j: int| 0 <= j < i ==> is_digit(#[trigger] v@[j]),
        decreases v@.len() - i,
    {
        let c = v[i];
        if !('0' <= c && c <= '9') {
            return false;
        }
        i += 1;
    }
    true
}

/// Whether `v` spells the lower-case word `w`, ignoring case.
fn matches_kw_x(v: &Vec<char>, w: &str) -> (r: bool)
    ensures
        r == matches_kw(v@, w@),
{
    let n = w.unicode_len();
    if v.len() != n {
        return false;
    }
    let mut i: usize = 0;
    while i < n
        invariant
            n == w@.len() == v@.len(),
            i <= n,
            forall|j: int| 0 <= j < i ==> eqi(#[trigger] v@[j], w@[j]),
        decreases n - i,
    {
        let c = v[i];
        let l = w.get_char(i);
        let lu = l as u32;
        if !(c == l || (lu >= 32 && c as u32 == lu - 32)) {
            return false;
        }
        i += 1;
    }
    true
}

/// The position of the first occurrence of `c1` or `c2` in `v`, or its
/// length.
fn first_at_x(v: &Vec<char>, c1: char, c2: char) -> (r: usize)
    ensures
        r == first_at(v@, 0, c1, c2),
        r <= v@.len(),
{
    let mut i: usize = 0;
    while i < v.len()
        invariant
            i <= v@.len(),
            forall|j: int| 0 <= j < i ==> v@[j] != c1 && v@[j] != c2,
        decreases v@.len() - i,
    {
        if v[i] == c1 || v[i] == c2 {
            proof {
                lemma_first_at_found(v@, i as int, c1, c2);
            }
            return i;
        }
        i += 1;
    }
    proof {
        lemma_first_at_none(v@, c1, c2);
    }
    v.len()
}

/// Whether `v` is a decimal mantissa, as [`is_mantissa`] says.
fn is_mantissa_x(v: &Vec<char>) -> (r: bool)
    ensures
        r == is_mantissa(v@),
{
    let d = first_at_x(v, '.', '.');
    if d == v.len() {
        v.len() > 0 && digits_only_x(v)
    } else {
        let pre = subvec(v, 0, d);
        let post = subvec(v, d + 1, v.len());
        proof {
            assert(pre@ =~= v@.take(d as int));
            assert(post@ =~= v@.skip(d + 1));
        }
        digits_only_x(&pre) && digits_only_x(&post) && (d > 0 || v.len() > d + 1)
    }
}

/// Whether `v` is an exponent part, as [`is_exponent`] says.
fn is_exponent_x(v: &Vec<char>) -> (r: bool)
    ensures
        r == is_exponent(v@),
{
    let b = strip_sign_x(v);
    b.len() > 0 && digits_only_x(&b)
}

/// Whether `v` is a number, as [`is_number`] says.
fn is_number_x(v: &Vec<char>) -> (r: bool)
    ensures
        r == is_number(v@),
{
    let e = first_at_x(v, 'e', 'E');
    if e == v.len() {
        is_mantissa_x(v)
    } else {
        let pre = subvec(v, 0, e);
        let post = subvec(v, e + 1, v.len());
        proof {
            assert(pre@ =~= v@.take(e as int));
            assert(post@ =~= v@.skip(e + 1));
        }
        is_mantissa_x(&pre) && is_exponent_x(&post)
    }
}

/// Whether the spellcheck passes the token `w` by, as [`skip_token`]
/// says.
fn token_is_skipped(w: &str) -> (r: bool)
    ensures
        r == skip_token(w@),
{
    if str_eq(w, "-") {
        return true;
    }
    let v = chars_of(w);
    let b = strip_sign_x(&v);
    matches_kw_x(&b, "inf") || matches_kw_x(&b, "infinity") || matches_kw_x(&b, "nan")
        || is_number_x(&b)
}

/// The width of the opening string delimiter at `start`: three quotes and
/// an immediate line break make four bytes to pass over, three quotes
/// alone make three, anything else one.
pub open spec fn spec_quote_size(bytes: Seq<u8>, start: int) -> int {
    if start + 3 <= bytes.len() && bytes[start] == 34 && bytes[start + 1] == 34 && bytes[start
        + 2] == 34 {
        if start + 4 <= bytes.len() && bytes[start + 3] == 10 {
            4
        } else {
            3
        }
    } else {
        1
    }
}

/// The width of the opening string delimiter at `start`, as
/// [`spec_quote_size`] says.
fn quote_size(bytes: &Vec<u8>, start: usize) -> (r: usize)
    ensures
        r == spec_quote_size(bytes@, start as int),
{
    if bytes.len() >= 3 && start <= bytes.len() - 3 && *bytes.get(start).unwrap() == 34 && *bytes.get(
        start + 1,
    ).unwrap() == 34 && *bytes.get(start + 2).unwrap() == 34 {
        if bytes.len() >= 4 && start <= bytes.len() - 4 && *bytes.get(start + 3).unwrap() == 10 {
            4
        } else {
            3
        }
    } else {
        1
    }
}

/// One spelling warning: the flagged word, anchored where the leaf base
/// and the word offset place it, for as many bytes as the word encodes
/// to.
pub open spec fn spell_diag(w: Seq<char>, base: nat, idx: nat) -> DiagnosticV {
    let st = sat_add_spec(base, idx);
    let en = sat_add_spec(st, (vstd::utf8::encode_utf8(w).len() as usize) as nat);
    DiagnosticV {
        fatal: false,
        message: DiagMessageV::Spelling(w),
        spans: seq![Span { start: st as usize, end: en as usize }],
    }
}

/// The warnings one text leaf earns from the dictionary misses `ms` from
/// position `k` on: one per miss whose word the spellcheck does not pass
/// by.
pub open spec fn word_warnings(ms: Seq<(usize, Seq<char>)>, base: nat, k: int) -> Seq<
    DiagnosticV,
>
    decreases ms.len() - k,
{
    if k < 0 || k >= ms.len() {
        Seq::empty()
    } else if skip_token(ms[k].1) {
        word_warnings(ms, base, k + 1)
    } else {
        seq![spell_diag(ms[k].1, base, ms[k].0 as nat)] + word_warnings(ms, base, k + 1)
    }
}

/// The warnings of the text leaves from position `j` on, each leaf's
/// misses anchored at the document base plus the leaf's offset.
pub open spec fn leaf_warnings(
    d: zspell::Dictionary,
    leaves: Seq<(usize, Seq<char>)>,
    base: nat,
    j: int,
) -> Seq<DiagnosticV>
    decreases leaves.len() - j,
{
    if j < 0 || j >= leaves.len() {
        Seq::empty()
    } else {
        word_warnings(
            dict_misses_of(d, leaves[j].1),
            sat_add_spec(base, leaves[j].0 as nat),
            0,
        ) + leaf_warnings(d, leaves, base, j + 1)
    }
}

/// All spelling warnings one Markdown value earns: per text leaf of the
/// Markdown document and per dictionary miss that is no number token nor
/// a lone hyphen, one warning whose byte range composes the literal's
/// position, the opening-quote width, the leaf's offset and the word's
/// offset.
pub open spec fn spelling_warnings(
    d: zspell::Dictionary,
    md: Seq<char>,
    value_span: Span,
    contents: Seq<u8>,
) -> Seq<DiagnosticV> {
    leaf_warnings(
        d,
        md_leaves_of(md),
        sat_add_spec(
            value_span.start as nat,
            spec_quote_size(contents, value_span.start as int) as nat,
        ),
        0,
    )
}

/// What checking one Markdown value records: nothing without a
/// dictionary, else exactly its spelling warnings.
pub open spec fn md_diags(
    d: Option<zspell::Dictionary>,
    md: Seq<char>,
    value_span: Span,
    contents: Seq<u8>,
) -> Seq<DiagnosticV> {
    match d {
        Some(dd) => spelling_warnings(dd, md, value_span, contents),
        None => Seq::empty(),
    }
}

/// The dictionary a caller handed in, as a value.
pub open spec fn dict_of(o: Option<&zspell::Dictionary>) -> Option<zspell::Dictionary> {
    match o {
        Some(d) => Some(*d),
        None => None,
    }
}

/// Every warning of [`word_warnings`] is a non-fatal spelling finding.
pub proof fn lemma_word_warnings_shape(ms: Seq<(usize, Seq<char>)>, base: nat, k: int)
    ensures
        forall|i: int|
            0 <= i < word_warnings(ms, base, k).len() ==> (!(#[trigger] word_warnings(
                ms,
                base,
                k,
            )[i]).fatal && word_warnings(ms, base, k)[i].message is Spelling),
    decreases ms.len() - k,
{
    if 0 <= k < ms.len() {
        lemma_word_warnings_shape(ms, base, k + 1);
    }
}

/// Every warning of [`leaf_warnings`] is a non-fatal spelling finding.
pub proof fn lemma_leaf_warnings_shape(
    d: zspell::Dictionary,
    leaves: Seq<(usize, Seq<char>)>,
    base: nat,
    j: int,
)
    ensures
        forall|i: int|
            0 <= i < leaf_warnings(d, leaves, base, j).len() ==> (!(#[trigger] leaf_warnings(
                d,
                leaves,
                base,
                j,
            )[i]).fatal && leaf_warnings(d, leaves, base, j)[i].message is Spelling),
    decreases leaves.len() - j,
{
    if 0 <= j < leaves.len() {
        lemma_word_warnings_shape(
            dict_misses_of(d, leaves[j].1),
            sat_add_spec(base, leaves[j].0 as nat),
            0,
        );
        lemma_leaf_warnings_shape(d, leaves, base, j + 1);
    }
}

/// Every warning of [`md_diags`] is a non-fatal spelling finding.
pub proof fn lemma_md_diags_shape(
    d: Option<zspell::Dictionary>,
    md: Seq<char>,
    value_span: Span,
    contents: Seq<u8>,
)
    ensures
        forall|i: int|
            0 <= i < md_diags(d, md, value_span, contents).len() ==> (!(#[trigger] md_diags(
                d,
                md,
                value_span,
                contents,
            )[i]).fatal && md_diags(d, md, value_span, contents)[i].message is Spelling),
{
    match d {
        Some(dd) => {
            lemma_leaf_warnings_shape(
                dd,
                md_leaves_of(md),
                sat_add_spec(
                    value_span.start as nat,
                    spec_quote_size(contents, value_span.start as int) as nat,
                ),
                0,
            );
        },
        None => {},
    }
}

/// Checks the spelling of one Markdown value located at `value_span`,
/// when a dictionary is given.  Records exactly the warnings
/// [`md_diags`] names: without a dictionary nothing, else one warning per
/// flagged word with its exact byte range; nothing fatal is ever recorded
/// here, so spelling never fails a validation call.
pub fn validate_markdown(
    md: &Markdown,
    value_span: Span,
    cx: &mut ValidationContext,
    dict: Option<&zspell::Dictionary>,
)
    ensures
        final(cx)@.diags == old(cx)@.diags + md_diags(
            dict_of(dict),
            md@,
            value_span,
            old(cx)@.contents,
        ),
        final(cx)@.diags.len() >= old(cx)@.diags.len(),
        final(cx)@.diags.take(old(cx)@.diags.len() as int) == old(cx)@.diags,
        forall|i: int|
            old(cx)@.diags.len() <= i < final(cx)@.diags.len() ==> (!final(cx)@.diags[i].fatal
                && final(cx)@.diags[i].message is Spelling),
        final(cx)@.path == old(cx)@.path,
        final(cx)@.contents == old(cx)@.contents,
{
    proof {
        lemma_md_diags_shape(dict_of(dict), md@, value_span, cx@.contents);
    }
    let d = match dict {
        None => {
            proof {
                assert(cx@.diags + md_diags(dict_of(dict), md@, value_span, cx@.contents)
                    =~= cx@.diags);
                assert(cx@.diags.take(cx@.diags.len() as int) =~= cx@.diags);
            }
            return;
        },
        Some(d) => d,
    };
    let ghost dv = *d;
    let leaves = markdown_text_leaves(md.0.as_str());
    let ghost leavesv = word_pairs_view(leaves@);
    let qs = quote_size(cx.contents(), value_span.start);
    let base = sat_add(value_span.start, qs);
    let ghost basen = base as nat;
    let ghost n0 = old(cx)@.diags.len() as int;
    let mut li: usize = 0;
    while li < leaves.len()
        invariant
            li <= leaves@.len(),
            dv == *d,
            leavesv == word_pairs_view(leaves@),
            leavesv == md_leaves_of(md@),
            leavesv.len() == leaves@.len(),
            forall|j: int|
                0 <= j < leaves@.len() ==> #[trigger] leavesv[j] == (
                    leaves@[j].0,
                    leaves@[j].1@,
                ),
            basen == base as nat,
            cx@.diags + leaf_warnings(dv, leavesv, basen, li as int) == old(cx)@.diags
                + leaf_warnings(dv, leavesv, basen, 0),
            n0 == old(cx)@.diags.len(),
            cx@.diags.len() >= n0,
            cx@.diags.take(n0) == old(cx)@.diags,
            forall|i: int|
                n0 <= i < cx@.diags.len() ==> (!cx@.diags[i].fatal && cx@.diags[i].message
                    is Spelling),
            cx@.path == old(cx)@.path,
            cx@.contents == old(cx)@.contents,
        decreases leaves@.len() - li,
    {
        let off = leaves[li].0;
        let words = dict_check_words(d, leaves[li].1.as_str());
        let ghost msv = word_pairs_view(words@);
        proof {
            assert(leavesv[li as int].1 == leaves@[li as int].1@);
            assert(msv == dict_misses_of(dv, leavesv[li as int].1));
        }
        let lbase = sat_add(base, off);
        let ghost lbasen = lbase as nat;
        let ghost entry = cx@.diags;
        let mut wi: usize = 0;
        while wi < words.len()
            invariant
                wi <= words@.len(),
                msv == word_pairs_view(words@),
                msv.len() == words@.len(),
                forall|j: int|
                    0 <= j < words@.len() ==> #[trigger] msv[j] == (words@[j].0, words@[j].1@),
                lbasen == lbase as nat,
                cx@.diags + word_warnings(msv, lbasen, wi as int) == entry + word_warnings(
                    msv,
                    lbasen,
                    0,
                ),
                entry.len() >= n0,
                cx@.diags.len() >= entry.len(),
                n0 == old(cx)@.diags.len(),
                cx@.diags.take(n0) == old(cx)@.diags,
                forall|i: int|
                    n0 <= i < cx@.diags.len() ==> (!cx@.diags[i].fatal && cx@.diags[i].message
                        is Spelling),
                cx@.path == old(cx)@.path,
                cx@.contents == old(cx)@.contents,
            decreases words@.len() - wi,
        {
            let idx = words[wi].0;
            proof {
                assert(msv[wi as int] == (words@[wi as int].0, words@[wi as int].1@));
            }
            if !token_is_skipped(words[wi].1.as_str()) {
                let ghost pre = cx@.diags;
                let st = sat_add(lbase, idx);
                let en = sat_add(st, words[wi].1.as_str().len());
                let mut spans: Vec<Span> = Vec::new();
                spans.push(Span { start: st, end: en });
                cx.warning(DiagMessage::Spelling(words[wi].1.clone()), spans);
                proof {
                    assert(cx@.diags =~~= pre + seq![
                        spell_diag(msv[wi as int].1, lbasen, msv[wi as int].0 as nat),
                    ]);
                    assert(word_warnings(msv, lbasen, wi as int) == seq![
                        spell_diag(msv[wi as int].1, lbasen, msv[wi as int].0 as nat),
                    ] + word_warnings(msv, lbasen, wi + 1));
                    assert(cx@.diags + word_warnings(msv, lbasen, wi + 1) =~= pre
                        + word_warnings(msv, lbasen, wi as int));
                    assert(cx@.diags.take(n0) =~= pre.take(n0));
                }
            } else {
                proof {
                    assert(word_warnings(msv, lbasen, wi as int) == word_warnings(
                        msv,
                        lbasen,
                        wi + 1,
                    ));
                }
            }
            wi += 1;
        }
        proof {
            assert(word_warnings(msv, lbasen, wi as int) =~= Seq::<DiagnosticV>::empty());
            assert(cx@.diags + Seq::<DiagnosticV>::empty() =~= cx@.diags);
            assert(cx@.diags =~= entry + word_warnings(msv, lbasen, 0));
            assert(leaf_warnings(dv, leavesv, basen, li as int) == word_warnings(
                dict_misses_of(dv, leavesv[li as int].1),
                sat_add_spec(basen, leavesv[li as int].0 as nat),
                0,
            ) + leaf_warnings(dv, leavesv, basen, li + 1));
            assert(lbasen == sat_add_spec(basen, leavesv[li as int].0 as nat));
            assert((entry + word_warnings(msv, lbasen, 0)) + leaf_warnings(
                dv,
                leavesv,
                basen,
                li + 1,
            ) =~= entry + (word_warnings(msv, lbasen, 0) + leaf_warnings(
                dv,
                leavesv,
                basen,
                li + 1,
            )));
        }
        li += 1;
    }
    proof {
        assert(leaf_warnings(dv, leavesv, basen, li as int) =~= Seq::<DiagnosticV>::empty());
        assert(cx@.diags + Seq::<DiagnosticV>::empty() =~= cx@.diags);
        assert(cx@.diags =~= old(cx)@.diags + leaf_warnings(dv, leavesv, basen, 0));
        assert(cx@.diags =~~= old(cx)@.diags + md_diags(
            dict_of(dict),
            md@,
            value_span,
            old(cx)@.contents,
        ));
    }
}

} // verus!
