//! Character-level helpers shared by the layout, language and protocol rules.
use vstd::prelude::*;

verus! {

broadcast use vstd::string::group_string_axioms;

/// `a` and `b` agree on their first `k` characters and first differ there,
/// with `a` the smaller one (or `a` ending there while `b` goes on).
pub open spec fn diverges_below(a: Seq<char>, b: Seq<char>, k: int) -> bool {
    &&& 0 <= k <= a.len()
    &&& k <= b.len()
    &&& forall|j: int| 0 <= j < k ==> a[j] == b[j]
    &&& (k == a.len() && k < b.len()) || (k < a.len() && k < b.len() && (a[k] as u32) < (
    b[k] as u32))
}

/// Strict lexicographic order on code points; for strings this is the order
/// of their UTF-8 bytes, the order that `String`'s comparison uses.
pub open spec fn precedes(a: Seq<char>, b: Seq<char>) -> bool {
    exists|k: int| diverges_below(a, b, k)
}

/// No sequence precedes itself.
pub proof fn lemma_precedes_irreflexive(a: Seq<char>)
    ensures
        !precedes(a, a),
{
}

/// Walks the common prefix of `a` and `b` from `i` to the place where they part.
proof fn lemma_divergence_from(a: Seq<char>, b: Seq<char>, i: int)
    requires
        a != b,
        0 <= i <= a.len(),
        i <= b.len(),
        forall|j: int| 0 <= j < i ==> a[j] == b[j],
    ensures
        precedes(a, b) || precedes(b, a),
    decreases a.len() - i,
{
    if i == a.len() || i == b.len() {
        if a.len() == b.len() {
            assert(a =~= b);
        } else if a.len() < b.len() {
            assert(diverges_below(a, b, i));
        } else {
            assert(diverges_below(b, a, i));
        }
    } else if a[i] != b[i] {
        if (a[i] as u32) < (b[i] as u32) {
            assert(diverges_below(a, b, i));
        } else {
            vstd::utf8::char_u32_cast(a[i], a[i] as u32);
            vstd::utf8::char_u32_cast(b[i], b[i] as u32);
            assert(diverges_below(b, a, i));
        }
    } else {
        lemma_divergence_from(a, b, i + 1);
    }
}

/// Two different sequences are ordered one way or the other.
pub proof fn lemma_precedes_total(a: Seq<char>, b: Seq<char>)
    ensures
        a == b || precedes(a, b) || precedes(b, a),
{
    if a != b {
        lemma_divergence_from(a, b, 0);
    }
}

/// The order is transitive.
pub proof fn lemma_precedes_transitive(a: Seq<char>, b: Seq<char>, c: Seq<char>)
    requires
        precedes(a, b),
        precedes(b, c),
    ensures
        precedes(a, c),
{
    let k1 = choose|k: int| diverges_below(a, b, k);
    let k2 = choose|k: int| diverges_below(b, c, k);
    if k1 < k2 {
        assert(diverges_below(a, c, k1));
    } else if k2 < k1 {
        assert(diverges_below(a, c, k2));
    } else {
        assert(diverges_below(a, c, k1));
    }
}

/// The order is asymmetric.
pub proof fn lemma_precedes_asymmetric(a: Seq<char>, b: Seq<char>)
    requires
        precedes(a, b),
    ensures
        !precedes(b, a),
{
    if precedes(b, a) {
        lemma_precedes_transitive(a, b, a);
    }
}

/// Decides `precedes` on two character vectors.
pub fn chars_precede(a: &Vec<char>, b: &Vec<char>) -> (r: bool)
    ensures
        r == precedes(a@, b@),
{
    let mut i: usize = 0;
    while i < a.len() && i < b.len() && a[i] == b[i]
        invariant
            i <= a.len(),
            i <= b.len(),
            forall|j: int| 0 <= j < i ==> a@[j] == b@[j],
        decreases a.len() - i,
    {
        i = i + 1;
    }
    if i == a.len() {
        if i < b.len() {
            assert(diverges_below(a@, b@, i as int));
            true
        } else {
            assert(a@ =~= b@);
            false
        }
    } else if i == b.len() {
        assert forall|k: int| !diverges_below(a@, b@, k) by {}
        false
    } else {
        let x: u32 = a[i] as u32;
        let y: u32 = b[i] as u32;
        if x < y {
            assert(diverges_below(a@, b@, i as int));
            true
        } else {
            assert forall|k: int| !diverges_below(a@, b@, k) by {
                broadcast use vstd::utf8::char_u32_cast;

                if diverges_below(a@, b@, k) && k > i {
                    assert(a@[i as int] == b@[i as int]);
                }
            }
            false
        }
    }
}

/// Collects the characters of `s` in order.
pub fn chars_of(s: &str) -> (v: Vec<char>)
    ensures
        v@ == s@,
{
    let mut v: Vec<char> = Vec::new();
    for c in it: s.chars()
        invariant
            v@ == it.seq().take(it.index() as int),
            it.seq() == s@,
    {
        v.push(c);
    }
    v
}

/// The encoding of joined text is the joined encodings.
pub proof fn lemma_encode_concat(a: Seq<char>, b: Seq<char>)
    ensures
        vstd::utf8::encode_utf8(a + b) == vstd::utf8::encode_utf8(a) + vstd::utf8::encode_utf8(b),
    decreases a.len(),
{
    if a.len() == 0 {
        assert(a + b =~= b);
        assert(vstd::utf8::encode_utf8(a) =~= Seq::<u8>::empty());
        assert(vstd::utf8::encode_utf8(a) + vstd::utf8::encode_utf8(b) =~= vstd::utf8::encode_utf8(b));
    } else {
        lemma_encode_concat(a.drop_first(), b);
        assert((a + b).drop_first() =~= a.drop_first() + b);
        assert((a + b)[0] == a[0]);
        assert(vstd::utf8::encode_utf8(a + b) =~= vstd::utf8::encode_utf8(a) + vstd::utf8::encode_utf8(b));
    }
}

/// A space takes one byte.
pub proof fn lemma_space_len()
    ensures
        vstd::utf8::encode_utf8(seq![' ']).len() == 1,
{
    let s = seq![' '];
    assert(s.drop_first() =~= Seq::<char>::empty());
    assert(vstd::utf8::encode_utf8(s.drop_first()) =~= Seq::<u8>::empty());
    assert((' ' as u32) == 32) by {
        vstd::utf8::char_u32_cast(' ', 32);
    }
}

/// Number of bytes in the UTF-8 encoding of `s`, as `str::len` reports it.
pub open spec fn byte_len(s: Seq<char>) -> usize {
    vstd::utf8::encode_utf8(s).len() as usize
}

/// Number of bytes in the UTF-8 encoding of `s`.
pub fn text_len(s: &str) -> (n: usize)
    ensures
        n == vstd::utf8::encode_utf8(s@).len(),
        n == byte_len(s@),
{
    s.as_bytes().len()
}

/// Whether two strings hold the same characters.
pub fn same_text(a: &str, b: &str) -> (r: bool)
    ensures
        r == (a@ == b@),
{
    let x = chars_of(a);
    let y = chars_of(b);
    if x.len() != y.len() {
        return false;
    }
    let mut i: usize = 0;
    while i < x.len()
        invariant
            x@ == a@,
            y@ == b@,
            x.len() == y.len(),
            i <= x.len(),
            forall|j: int| 0 <= j < i ==> x@[j] == y@[j],
        decreases x.len() - i,
    {
        if x[i] != y[i] {
            return false;
        }
        i = i + 1;
    }
    assert(x@ =~= y@);
    true
}

/// Appends one character (`String::push`).
#[verifier::external_body]
pub(crate) fn push_char(s: &mut String, c: char)
    ensures
        final(s)@ == old(s)@.push(c),
{
    s.push(c);
}

/// The character with scalar value `v` (`char::from_u32`): `None` exactly
/// when `v` is no Unicode scalar value (a surrogate, or above 0x10FFFF).
#[verifier::external_body]
pub(crate) fn scalar_char(v: u32) -> (r: Option<char>)
    ensures
        r is Some <==> vstd::utf8::is_scalar(v),
        r matches Some(c) ==> c as u32 == v,
{
    char::from_u32(v)
}

/// A character allowed in a layout code: lowercase ASCII letter, digit or hyphen.
pub open spec fn code_char(c: char) -> bool {
    ('a' <= c && c <= 'z') || ('0' <= c && c <= '9') || c == '-'
}

/// A layout code: 1 to 32 lowercase ASCII letters, digits or hyphens.
pub open spec fn is_valid_code(code: Seq<char>) -> bool {
    0 < code.len() <= 32 && forall|i: int| 0 <= i < code.len() ==> code_char(#[trigger] code[i])
}

/// Whether `code` is a valid layout code.
pub fn valid_code(code: &str) -> (r: bool)
    ensures
        r == is_valid_code(code@),
{
    let chars = chars_of(code);
    if chars.len() == 0 || chars.len() > 32 {
        return false;
    }
    let mut i: usize = 0;
    while i < chars.len()
        invariant
            chars@ == code@,
            i <= chars@.len(),
            forall|j: int| 0 <= j < i ==> code_char(#[trigger] chars@[j]),
        decreases chars@.len() - i,
    {
        let c = chars[i];
        if !(('a' <= c && c <= 'z') || ('0' <= c && c <= '9') || c == '-') {
            return false;
        }
        i = i + 1;
    }
    true
}

} // verus!
