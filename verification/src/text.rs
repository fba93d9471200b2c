//! Characters and strings: what the library needs of them beyond what `vstd` specifies.

use vstd::prelude::*;

verus! {

/// The characters with the Unicode `White_Space` property.
pub open spec fn is_white_space(c: char) -> bool {
    ||| '\u{9}' <= c <= '\u{d}'
    ||| c == '\u{20}'
    ||| c == '\u{85}'
    ||| c == '\u{a0}'
    ||| c == '\u{1680}'
    ||| '\u{2000}' <= c <= '\u{200a}'
    ||| c == '\u{2028}'
    ||| c == '\u{2029}'
    ||| c == '\u{202f}'
    ||| c == '\u{205f}'
    ||| c == '\u{3000}'
}

/// `char::is_whitespace` tells whether a character has the Unicode `White_Space` property, which
/// the Unicode Character Database gives to exactly the characters of [`is_white_space`].
pub assume_specification[ char::is_whitespace ](c: char) -> (r: bool)
    ensures
        r == is_white_space(c),
;

/// `String::push` appends one character to the end of the string.
pub assume_specification[ String::push ](s: &mut String, c: char)
    ensures
        final(s)@ == old(s)@.push(c),
;

/// The text without the run of `c` at its end.
pub open spec fn without_trailing(s: Seq<char>, c: char) -> Seq<char>
    decreases s.len(),
{
    if s.len() > 0 && s.last() == c {
        without_trailing(s.drop_last(), c)
    } else {
        s
    }
}

/// Removes every occurrence of `c` at the end of the text and leaves the rest as it is.
pub(crate) fn trim_end(s: &str, c: char) -> (r: String)
    ensures
        r@ == without_trailing(s@, c),
{
    let mut chars: Vec<char> = chars_of(s);
    while chars.len() > 0 && chars[chars.len() - 1] == c
        invariant
            without_trailing(chars@, c) == without_trailing(s@, c),
        decreases chars@.len(),
    {
        let _ = chars.pop();
    }
    string_of(&chars, 0)
}

/// Whether `s` begins with `prefix`.
pub open spec fn starts_with(s: Seq<char>, prefix: Seq<char>) -> bool {
    prefix.len() <= s.len() && s.take(prefix.len() as int) == prefix
}

/// The rest of the text after the prefix, where the text begins with it.
pub(crate) fn strip_prefix(s: &str, prefix: &str) -> (r: Option<String>)
    ensures
        r is Some == starts_with(s@, prefix@),
        r matches Some(rest) ==> rest@ == s@.skip(prefix@.len() as int),
{
    let chars: Vec<char> = chars_of(s);
    let start: Vec<char> = chars_of(prefix);
    if chars.len() < start.len() {
        return None;
    }
    let mut i: usize = 0;
    while i < start.len()
        invariant
            i <= start@.len() <= chars@.len(),
            chars@ == s@,
            start@ == prefix@,
            forall|j: int| 0 <= j < i ==> chars@[j] == start@[j],
        decreases start@.len() - i,
    {
        if chars[i] != start[i] {
            assert(s@.take(prefix@.len() as int)[i as int] != prefix@[i as int]);
            return None;
        }
        i = i + 1;
    }
    assert(s@.take(prefix@.len() as int) == prefix@);
    Some(string_of(&chars, start.len()))
}

/// The characters of a string, in order.
pub(crate) fn chars_of(s: &str) -> (r: Vec<char>)
    ensures
        r@ == s@,
{
    let mut chars: Vec<char> = Vec::new();
    for c in it: s.chars()
        invariant
            it.seq() == s@,
            chars@ == s@.take(it.index() as int),
    {
        chars.push(c);
    }
    assert(s@.take(s@.len() as int) == s@);
    chars
}

/// The text that the characters make up, from a place on.
fn string_of(chars: &Vec<char>, from: usize) -> (r: String)
    requires
        from <= chars@.len(),
    ensures
        r@ == chars@.skip(from as int),
{
    let mut text: String = String::new();
    let mut i: usize = from;
    while i < chars.len()
        invariant
            from <= i <= chars@.len(),
            text@ == chars@.subrange(from as int, i as int),
        decreases chars@.len() - i,
    {
        text.push(chars[i]);
        i = i + 1;
    }
    text
}

/// What is left without the run of a character at its end is the beginning of the text, does not
/// end in that character, and nothing but that character follows it.
pub proof fn lemma_without_trailing(s: Seq<char>, c: char)
    ensures
        without_trailing(s, c).len() <= s.len(),
        forall|i: int|
            0 <= i < without_trailing(s, c).len() ==> #[trigger] without_trailing(s, c)[i] == s[i],
        forall|i: int| without_trailing(s, c).len() <= i < s.len() ==> #[trigger] s[i] == c,
        without_trailing(s, c).len() > 0 ==> without_trailing(s, c).last() != c,
    decreases s.len(),
{
    if s.len() > 0 && s.last() == c {
        let front = s.drop_last();
        lemma_without_trailing(front, c);
        assert forall|i: int| without_trailing(s, c).len() <= i < s.len() implies #[trigger] s[i]
            == c by {
            if i < front.len() {
                assert(front[i] == s[i]);
            }
        }
    }
}

/// Two texts are the same without the runs of a character at their ends exactly when they agree up
/// to some place, and nothing but that character follows it in either.
pub proof fn lemma_same_but_for_trailing(a: Seq<char>, b: Seq<char>, c: char)
    ensures
        without_trailing(a, c) == without_trailing(b, c) <==> agree_but_for_trailing(a, b, c),
{
    lemma_without_trailing(a, c);
    lemma_without_trailing(b, c);
    if without_trailing(a, c) == without_trailing(b, c) {
        let n = without_trailing(a, c).len() as int;
        assert forall|i: int| 0 <= i < n implies a[i] == b[i] by {
            assert(without_trailing(a, c)[i] == a[i]);
            assert(without_trailing(b, c)[i] == b[i]);
        }
        assert(a.take(n) =~= b.take(n));
    }
    if agree_but_for_trailing(a, b, c) {
        let n = choose|n: int|
            0 <= n <= a.len() && n <= b.len() && #[trigger] a.take(n) == b.take(n) && (forall|i: int|
                n <= i < a.len() ==> a[i] == c) && (forall|i: int| n <= i < b.len() ==> b[i] == c);
        lemma_trailing_cut(a, c, n);
        lemma_trailing_cut(b, c, n);
    }
}

/// The texts agree up to some place, and nothing but the character follows it.
pub open spec fn agree_but_for_trailing(a: Seq<char>, b: Seq<char>, c: char) -> bool {
    exists|n: int|
        0 <= n <= a.len() && n <= b.len() && #[trigger] a.take(n) == b.take(n) && (forall|i: int|
            n <= i < a.len() ==> a[i] == c) && (forall|i: int| n <= i < b.len() ==> b[i] == c)
}

/// A run of the character at the end can be cut off first.
proof fn lemma_trailing_cut(s: Seq<char>, c: char, n: int)
    requires
        0 <= n <= s.len(),
        forall|i: int| n <= i < s.len() ==> s[i] == c,
    ensures
        without_trailing(s, c) == without_trailing(s.take(n), c),
    decreases s.len(),
{
    if n < s.len() {
        let front = s.drop_last();
        assert(s.last() == c);
        lemma_trailing_cut(front, c, n);
        assert(front.take(n) =~= s.take(n));
    } else {
        assert(s.take(n) =~= s);
    }
}

/// A text begins with a prefix exactly when something follows the prefix to make up the text.
pub proof fn lemma_starts_with(s: Seq<char>, prefix: Seq<char>)
    ensures
        starts_with(s, prefix) <==> exists|rest: Seq<char>| s == #[trigger] (prefix + rest),
{
    if starts_with(s, prefix) {
        let rest = s.skip(prefix.len() as int);
        assert(s =~= prefix + rest) by {
            assert(s =~= s.take(prefix.len() as int) + rest);
        }
    }
    if exists|rest: Seq<char>| s == #[trigger] (prefix + rest) {
        let rest = choose|rest: Seq<char>| s == #[trigger] (prefix + rest);
        assert((prefix + rest).take(prefix.len() as int) =~= prefix);
    }
}

} // verus!
