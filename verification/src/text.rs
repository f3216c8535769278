//! Strings, compared and taken apart through their UTF-8 bytes.

use vstd::prelude::*;
use vstd::string::*;
use vstd::utf8::*;

verus! {

/// Encoding a concatenation concatenates the encodings.
proof fn lemma_encode_concat(a: Seq<char>, b: Seq<char>)
    ensures
        encode_utf8(a + b) == encode_utf8(a) + encode_utf8(b),
    decreases a.len(),
{
    if a.len() == 0 {
        assert(a + b =~= b);
    } else {
        lemma_encode_concat(a.drop_first(), b);
        assert((a + b).drop_first() =~= a.drop_first() + b);
    }
}

/// Two texts with the same bytes are the same text.
proof fn lemma_encode_injective(a: Seq<char>, b: Seq<char>)
    requires
        encode_utf8(a) == encode_utf8(b),
    ensures
        a == b,
{
    encode_utf8_decode_utf8(a);
    encode_utf8_decode_utf8(b);
}

/// A text begins with `p` exactly when its bytes begin with those of `p`.
proof fn lemma_prefix_bytes(s: Seq<char>, p: Seq<char>)
    ensures
        p.is_prefix_of(s) <==> encode_utf8(p).is_prefix_of(encode_utf8(s)),
{
    let whole = encode_utf8(s);
    let head = encode_utf8(p);
    if p.is_prefix_of(s) {
        let rest = s.skip(p.len() as int);
        assert(s =~= p + rest);
        lemma_encode_concat(p, rest);
        assert(whole.subrange(0, head.len() as int) =~= head);
    }
    if head.is_prefix_of(whole) {
        let n = head.len() as int;
        let tail = whole.subrange(n, whole.len() as int);
        encode_utf8_valid_utf8(s);
        encode_utf8_valid_utf8(p);
        assert(whole.subrange(0, n) =~= head);
        if !valid_utf8(tail) {
            partial_valid_partial_invalid_utf8(whole, n);
        }
        let rest = decode_utf8(tail);
        decode_utf8_encode_utf8(tail);
        lemma_encode_concat(p, rest);
        assert(whole =~= head + tail);
        lemma_encode_injective(s, p + rest);
        assert((p + rest).subrange(0, p.len() as int) =~= p);
    }
}

/// The end of a leading part of a text is a character boundary of its bytes.
proof fn lemma_prefix_boundary(p: Seq<char>, rest: Seq<char>)
    ensures
        is_char_boundary(encode_utf8(p + rest), encode_utf8(p).len() as int),
    decreases p.len(),
{
    let s = p + rest;
    let bytes = encode_utf8(s);
    encode_utf8_valid_utf8(s);
    if p.len() > 0 {
        encode_utf8_first_scalar(s);
        assert(s.drop_first() =~= p.drop_first() + rest);
        assert(s[0] == p[0]);
        assert(pop_first_scalar(bytes) =~= encode_utf8(s.drop_first()));
        lemma_encode_concat(p, rest);
        lemma_prefix_boundary(p.drop_first(), rest);
    }
}

/// Whether two byte strings are the same.
fn bytes_eq(a: &[u8], b: &[u8]) -> (r: bool)
    ensures
        r == (a@ == b@),
{
    if a.len() != b.len() {
        return false;
    }
    let mut i: usize = 0;
    while i < a.len()
        invariant
            i <= a.len(),
            a.len() == b.len(),
            forall|j: int| 0 <= j < i ==> a[j] == b[j],
        decreases a.len() - i,
    {
        if a[i] != b[i] {
            return false;
        }
        i += 1;
    }
    assert(a@ =~= b@);
    true
}

/// Whether two texts are the same.
pub fn str_eq(a: &str, b: &str) -> (r: bool)
    ensures
        r == (a@ == b@),
{
    let r = bytes_eq(a.as_bytes(), b.as_bytes());
    proof {
        if r {
            lemma_encode_injective(a@, b@);
        }
    }
    r
}

/// What follows `prefix` in `s`, if `s` begins with it.
pub fn strip_prefix<'a>(s: &'a str, prefix: &str) -> (r: Option<&'a str>)
    ensures
        match r {
            Some(rest) => s@ == prefix@ + rest@,
            None => !prefix@.is_prefix_of(s@),
        },
{
    let whole = s.as_bytes();
    let head = prefix.as_bytes();
    proof {
        lemma_prefix_bytes(s@, prefix@);
    }
    if whole.len() < head.len() {
        return None;
    }
    let n: usize = head.len();
    if !bytes_eq(vstd::slice::slice_subrange(whole, 0, n), head) {
        return None;
    }
    proof {
        assert(encode_utf8(prefix@).is_prefix_of(encode_utf8(s@)));
        let rest = s@.skip(prefix@.len() as int);
        assert(s@ =~= prefix@ + rest);
        lemma_prefix_boundary(prefix@, rest);
        lemma_encode_concat(prefix@, rest);
    }
    let (_, tail) = s.split_at(n);
    proof {
        let rest = s@.skip(prefix@.len() as int);
        assert(encode_utf8(tail@) =~= encode_utf8(rest));
        lemma_encode_injective(tail@, rest);
    }
    Some(tail)
}

/// Whether the character `c` occurs in `s`.
pub fn contains_char(s: &str, c: char) -> (r: bool)
    ensures
        r == s@.contains(c),
{
    for x in it: s.chars()
        invariant
            it.seq() == s@,
            forall|j: int| 0 <= j < it.index() ==> s@[j] != c,
    {
        if x == c {
            assert(s@[it.index() as int] == c);
            return true;
        }
    }
    false
}

/// Two texts are the same exactly if they have the same characters in the same places.
pub proof fn law_str_eq_by_chars(a: &str, b: &str, r: bool)
    requires
        call_ensures(str_eq, (a, b), r),
    ensures
        r <==> a@.len() == b@.len() && forall|i: int|
            0 <= i < a@.len() ==> #[trigger] a@[i] == b@[i],
{
    if a@.len() == b@.len() && forall|i: int| 0 <= i < a@.len() ==> #[trigger] a@[i] == b@[i] {
        assert(a@ =~= b@);
    }
}

/// A prefix is stripped exactly if all its characters stand at the front, and what is left are the
/// characters after it.
pub proof fn law_strip_prefix_by_chars<'a>(s: &'a str, prefix: &str, r: Option<&'a str>)
    requires
        call_ensures(strip_prefix, (s, prefix), r),
    ensures
        r is Some <==> prefix@.len() <= s@.len() && forall|i: int|
            0 <= i < prefix@.len() ==> #[trigger] prefix@[i] == s@[i],
        r matches Some(rest) ==> rest@.len() == s@.len() - prefix@.len() && forall|i: int|
            0 <= i < rest@.len() ==> #[trigger] rest@[i] == s@[prefix@.len() + i],
{
    if prefix@.len() <= s@.len() && forall|i: int|
        0 <= i < prefix@.len() ==> #[trigger] prefix@[i] == s@[i] {
        assert(s@.subrange(0, prefix@.len() as int) =~= prefix@);
    }
    if let Some(rest) = r {
        assert forall|i: int| 0 <= i < rest@.len() implies #[trigger] rest@[i] == s@[prefix@.len()
            + i] by {
            assert((prefix@ + rest@)[prefix@.len() + i] == rest@[i]);
        }
    }
}

/// A character is found exactly if it stands somewhere.
pub proof fn law_contains_char_by_place(s: &str, c: char, r: bool)
    requires
        call_ensures(contains_char, (s, c), r),
    ensures
        r <==> exists|i: int| 0 <= i < s@.len() && #[trigger] s@[i] == c,
{
}

} // verus!
