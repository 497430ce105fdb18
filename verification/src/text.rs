//! Small verified utilities on strings, bytes and counters that the rest
//! of the crate builds on.

use vstd::prelude::*;
use vstd::string::StringExecFns;
use vstd::string::StrSliceExecFns;
use vstd::string::StringSliceAdditionalSpecFns;

verus! {

/// `a + b`, capped at the largest machine integer.  Byte offsets composed
/// from untrusted sources are added with this, so no bound on them is ever
/// assumed.
pub open spec fn sat_add_spec(a: nat, b: nat) -> nat {
    if a + b <= usize::MAX as nat {
        a + b
    } else {
        usize::MAX as nat
    }
}

/// Saturating addition on machine integers.
pub fn sat_add(a: usize, b: usize) -> (r: usize)
    ensures
        r == sat_add_spec(a as nat, b as nat),
{
    if a <= usize::MAX - b {
        a + b
    } else {
        usize::MAX
    }
}

/// Whether two strings hold the same characters, decided by comparing
/// their bytes.
pub fn str_eq(a: &str, b: &str) -> (r: bool)
    ensures
        r == (a@ == b@),
{
    let ab = a.as_bytes();
    let bb = b.as_bytes();
    if ab.len() != bb.len() {
        proof {
            lemma_encode_eq(a@, b@);
        }
        return false;
    }
    let n = ab.len();
    let mut i: usize = 0;
    while i < n
        invariant
            n == ab@.len() == bb@.len(),
            i <= n,
            ab@ == a.spec_bytes(),
            bb@ == b.spec_bytes(),
            forall|j: int| 0 <= j < i ==> ab@[j] == bb@[j],
        decreases n - i,
    {
        if ab[i] != bb[i] {
            proof {
                lemma_encode_eq(a@, b@);
            }
            return false;
        }
        i += 1;
    }
    proof {
        assert(a.spec_bytes() =~= b.spec_bytes());
        lemma_encode_eq(a@, b@);
    }
    true
}

/// UTF-8 encoding is injective, so strings with equal bytes hold equal
/// characters.
proof fn lemma_encode_eq(a: Seq<char>, b: Seq<char>)
    ensures
        (vstd::utf8::encode_utf8(a) == vstd::utf8::encode_utf8(b)) == (a == b),
{
    if vstd::utf8::encode_utf8(a) == vstd::utf8::encode_utf8(b) {
        vstd::utf8::encode_utf8_decode_utf8(a);
        vstd::utf8::encode_utf8_decode_utf8(b);
    }
}

/// Appends one character to a string.
///
/// Relies on `String::push`: the string grows by exactly that character.
#[verifier::external_body]
pub fn push_char(s: &mut String, c: char)
    ensures
        final(s)@ == old(s)@.push(c),
{
    s.push(c);
}

/// The decimal digits of `n`, most significant first.
pub open spec fn dec_digits(n: nat) -> Seq<char>
    decreases n,
{
    if n < 10 {
        seq![digit_char(n)]
    } else {
        dec_digits(n / 10).push(digit_char(n % 10))
    }
}

/// The character of one decimal digit.
pub open spec fn digit_char(d: nat) -> char {
    ((d + 0x30) as u8) as char
}

/// Renders a machine integer in decimal.
pub fn usize_to_string(n: usize) -> (r: String)
    ensures
        r@ == dec_digits(n as nat),
    decreases n,
{
    let mut r = if n >= 10 {
        usize_to_string(n / 10)
    } else {
        String::new()
    };
    let d = n % 10;
    push_char(&mut r, (d as u8 + 0x30) as char);
    proof {
        if n >= 10 {
            assert(r@ == dec_digits(n as nat));
        } else {
            assert(r@ =~= dec_digits(n as nat));
        }
    }
    r
}

/// What one character of indented text becomes: a line break brings the
/// prefix of the next line with it.
pub open spec fn indent_piece(c: char, prefix: Seq<char>) -> Seq<char> {
    if c == '\n' {
        seq!['\n'] + prefix
    } else {
        seq![c]
    }
}

/// The body of [`indented`], one character at a time.
pub open spec fn indent_tail(text: Seq<char>, prefix: Seq<char>) -> Seq<char>
    decreases text.len(),
{
    if text.len() == 0 {
        Seq::empty()
    } else {
        indent_piece(text[0], prefix) + indent_tail(text.drop_first(), prefix)
    }
}

/// `text` with `prefix` put before its first line and after every line
/// break.
pub open spec fn indented(text: Seq<char>, prefix: Seq<char>) -> Seq<char> {
    prefix + indent_tail(text, prefix)
}

/// [`indent_tail`] grows on the right one piece at a time.
pub proof fn lemma_indent_tail_push(text: Seq<char>, c: char, prefix: Seq<char>)
    ensures
        indent_tail(text.push(c), prefix) == indent_tail(text, prefix) + indent_piece(c, prefix),
    decreases text.len(),
{
    if text.len() == 0 {
        assert(text.push(c).drop_first() =~= text);
        assert(indent_tail(text.push(c), prefix) =~= indent_tail(text, prefix) + indent_piece(
            c,
            prefix,
        ));
    } else {
        assert(text.push(c).drop_first() =~= text.drop_first().push(c));
        lemma_indent_tail_push(text.drop_first(), c, prefix);
        assert(indent_tail(text.push(c), prefix) =~= indent_tail(text, prefix) + indent_piece(
            c,
            prefix,
        ));
    }
}

/// Indents `text` by `prefix`, as [`indented`] says.
pub fn indent(text: &str, prefix: &str) -> (r: String)
    ensures
        r@ == indented(text@, prefix@),
{
    let mut r = String::new();
    r.append(prefix);
    let n = text.unicode_len();
    let mut i: usize = 0;
    while i < n
        invariant
            n == text@.len(),
            i <= n,
            r@ == prefix@ + indent_tail(text@.take(i as int), prefix@),
        decreases n - i,
    {
        let c = text.get_char(i);
        if c == '\n' {
            push_char(&mut r, '\n');
            r.append(prefix);
        } else {
            push_char(&mut r, c);
        }
        proof {
            lemma_indent_tail_push(text@.take(i as int), c, prefix@);
            assert(text@.take(i as int).push(c) =~= text@.take(i + 1 as int));
            assert(r@ =~= prefix@ + indent_tail(text@.take(i + 1 as int), prefix@));
        }
        i += 1;
    }
    proof {
        assert(text@.take(n as int) =~= text@);
    }
    r
}

} // verus!
