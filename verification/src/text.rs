//! Character-level helpers on ASCII text: the small scanning and slicing
//! operations that every parser of the grammar is built from.

use vstd::prelude::*;
use vstd::string::*;
use vstd::utf8::*;

verus! {

broadcast use vstd::string::is_ascii_spec_bytes;

/// A decimal digit.
pub open spec fn is_digit(c: char) -> bool {
    '0' <= c && c <= '9'
}

/// ASCII white space: the blank, and tab through carriage return.
pub open spec fn is_space(c: char) -> bool {
    c == ' ' || ('\t' <= c && c <= '\r')
}

/// `s` is not empty and begins with `c`.
pub open spec fn first_is(s: Seq<char>, c: char) -> bool {
    s.len() > 0 && s[0] == c
}

/// `rest` is what is left of `s` when a number of its first characters
/// have been read.
pub open spec fn is_tail_of(rest: Seq<char>, s: Seq<char>) -> bool {
    rest.len() <= s.len() && rest == s.skip(s.len() - rest.len())
}

/// What is left of a tail is a tail of the whole.
pub proof fn lemma_tail_of_tail(a: Seq<char>, b: Seq<char>, c: Seq<char>)
    requires
        is_tail_of(a, b),
        is_tail_of(b, c),
    ensures
        is_tail_of(a, c),
{
    assert(c.skip(c.len() - b.len()).skip(b.len() - a.len()) =~= c.skip(c.len() - a.len()));
}

/// Skipping characters leaves a tail.
pub proof fn lemma_skip_is_tail(s: Seq<char>, k: int)
    requires
        0 <= k <= s.len(),
    ensures
        is_tail_of(s.skip(k), s),
        is_tail_of(s, s),
{
    assert(s.skip(0) =~= s);
}

/// `s` without its trailing white space.
pub open spec fn trim_end(s: Seq<char>) -> Seq<char>
    decreases s.len(),
{
    if s.len() > 0 && is_space(s.last()) {
        trim_end(s.drop_last())
    } else {
        s
    }
}

/// `s` without its leading white space.
pub open spec fn trim_start(s: Seq<char>) -> Seq<char>
    decreases s.len(),
{
    if s.len() > 0 && is_space(s[0]) {
        trim_start(s.skip(1))
    } else {
        s
    }
}

/// Position of the first place in `s` where `p` occurs, if any.
pub open spec fn index_of_text(s: Seq<char>, p: Seq<char>) -> Option<int>
    decreases s.len(),
{
    if p.is_prefix_of(s) {
        Some(0)
    } else if s.len() == 0 {
        None
    } else {
        match index_of_text(s.skip(1), p) {
            Some(i) => Some(i + 1),
            None => None,
        }
    }
}

/// `index_of_text` finds an occurrence, and no occurrence starts before it.
pub proof fn lemma_index_of_text(s: Seq<char>, p: Seq<char>)
    ensures
        match index_of_text(s, p) {
            Some(i) => {
                &&& 0 <= i <= s.len()
                &&& p.is_prefix_of(s.skip(i))
                &&& forall|j: int| 0 <= j < i ==> !p.is_prefix_of(#[trigger] s.skip(j))
            },
            None => forall|j: int| 0 <= j <= s.len() ==> !p.is_prefix_of(#[trigger] s.skip(j)),
        },
    decreases s.len(),
{
    assert(s.skip(0) =~= s);
    if p.is_prefix_of(s) {
    } else if s.len() == 0 {
    } else {
        let t = s.skip(1);
        lemma_index_of_text(t, p);
        assert forall|j: int| 1 <= j <= s.len() implies #[trigger] s.skip(j) == t.skip(j - 1) by {
            assert(s.skip(j) =~= t.skip(j - 1));
        }
        match index_of_text(t, p) {
            Some(i) => {
                assert(s.skip(i + 1) == t.skip(i));
                assert forall|j: int| 0 <= j < i + 1 implies !p.is_prefix_of(
                    #[trigger] s.skip(j),
                ) by {
                    if j > 0 {
                        assert(s.skip(j) == t.skip(j - 1));
                    }
                }
            },
            None => {
                assert forall|j: int| 0 <= j <= s.len() implies !p.is_prefix_of(
                    #[trigger] s.skip(j),
                ) by {
                    if j > 0 {
                        assert(s.skip(j) == t.skip(j - 1));
                    }
                }
            },
        }
    }
}

/// Number of characters of an ASCII string.
pub fn text_len(s: &str) -> (n: usize)
    requires
        s.is_ascii(),
    ensures
        n == s@.len(),
{
    s.as_bytes().len()
}

/// The character at position `i` of an ASCII string.
pub fn char_at(s: &str, i: usize) -> (c: char)
    requires
        s.is_ascii(),
        i < s@.len(),
    ensures
        c == s@[i as int],
{
    let b: u8 = s.get_ascii(i);
    b as char
}

/// The part of an ASCII string from position `from` up to, not including, `to`.
pub fn slice<'a>(s: &'a str, from: usize, to: usize) -> (r: &'a str)
    requires
        s.is_ascii(),
        from <= to <= s@.len(),
    ensures
        r@ == s@.subrange(from as int, to as int),
        r.is_ascii(),
{
    s.substring_ascii(from, to)
}

/// The part of an ASCII string from position `from` on.
pub fn tail<'a>(s: &'a str, from: usize) -> (r: &'a str)
    requires
        s.is_ascii(),
        from <= s@.len(),
    ensures
        r@ == s@.skip(from as int),
        r.is_ascii(),
{
    s.substring_ascii(from, text_len(s))
}

/// The first `to` characters of an ASCII string.
pub fn head<'a>(s: &'a str, to: usize) -> (r: &'a str)
    requires
        s.is_ascii(),
        to <= s@.len(),
    ensures
        r@ == s@.take(to as int),
        r.is_ascii(),
{
    s.substring_ascii(0, to)
}

/// Whether an ASCII string begins with the character `c`.
pub fn begins_with_char(s: &str, c: char) -> (r: bool)
    requires
        s.is_ascii(),
    ensures
        r == first_is(s@, c),
{
    text_len(s) > 0 && char_at(s, 0) == c
}

/// Whether an ASCII string begins with a decimal digit.
pub fn begins_with_digit(s: &str) -> (r: bool)
    requires
        s.is_ascii(),
    ensures
        r == (s@.len() > 0 && is_digit(s@[0])),
{
    if text_len(s) == 0 {
        return false;
    }
    let c = char_at(s, 0);
    '0' <= c && c <= '9'
}

/// Whether the ASCII string `s` begins with the ASCII string `p`.
pub fn begins_with(s: &str, p: &str) -> (r: bool)
    requires
        s.is_ascii(),
        p.is_ascii(),
    ensures
        r == p@.is_prefix_of(s@),
{
    let n = text_len(p);
    if text_len(s) < n {
        return false;
    }
    let mut i: usize = 0;
    while i < n
        invariant
            s.is_ascii(),
            p.is_ascii(),
            n == p@.len(),
            n <= s@.len(),
            i <= n,
            forall|j: int| 0 <= j < i ==> s@[j] == p@[j],
        decreases n - i,
    {
        if char_at(s, i) != char_at(p, i) {
            assert(s@.subrange(0, n as int)[i as int] != p@[i as int]);
            return false;
        }
        i += 1;
    }
    assert(p@ =~= s@.subrange(0, n as int));
    true
}

/// Whether two ASCII strings hold the same characters.
pub fn same_text(a: &str, b: &str) -> (r: bool)
    requires
        a.is_ascii(),
        b.is_ascii(),
    ensures
        r == (a@ == b@),
{
    if text_len(a) != text_len(b) {
        return false;
    }
    let r = begins_with(a, b);
    assert(r ==> a@ =~= b@);
    r
}

/// Position of the first `c` in an ASCII string.
pub fn find_char(s: &str, c: char) -> (r: Option<usize>)
    requires
        s.is_ascii(),
    ensures
        match r {
            Some(i) => s@.index_of_first(c) == Some(i as int) && i < s@.len() && s@[i as int] == c,
            None => s@.index_of_first(c) is None,
        },
        s@.len() <= usize::MAX,
{
    let n = text_len(s);
    let mut i: usize = 0;
    proof {
        s@.index_of_first_ensures(c);
    }
    while i < n
        invariant
            s.is_ascii(),
            n == s@.len(),
            i <= n,
            forall|j: int| 0 <= j < i ==> s@[j] != c,
        decreases n - i,
    {
        if char_at(s, i) == c {
            proof {
                s@.index_of_first_ensures(c);
            }
            return Some(i);
        }
        i += 1;
    }
    proof {
        s@.index_of_first_ensures(c);
    }
    None
}

/// Position of the last `c` in an ASCII string.
pub fn rfind_char(s: &str, c: char) -> (r: Option<usize>)
    requires
        s.is_ascii(),
    ensures
        match r {
            Some(i) => s@.index_of_last(c) == Some(i as int) && i < s@.len() && s@[i as int] == c,
            None => s@.index_of_last(c) is None,
        },
        s@.len() <= usize::MAX,
{
    let n = text_len(s);
    let mut i: usize = n;
    while i > 0
        invariant
            s.is_ascii(),
            n == s@.len(),
            i <= n,
            forall|j: int| i <= j < n ==> s@[j] != c,
        decreases i,
    {
        i -= 1;
        if char_at(s, i) == c {
            proof {
                s@.index_of_last_ensures(c);
            }
            return Some(i);
        }
    }
    proof {
        s@.index_of_last_ensures(c);
    }
    None
}

/// Position of the first occurrence of the ASCII string `p` in the ASCII
/// string `s`.
pub fn find_text(s: &str, p: &str) -> (r: Option<usize>)
    requires
        s.is_ascii(),
        p.is_ascii(),
    ensures
        match r {
            Some(i) => index_of_text(s@, p@) == Some(i as int) && i + p@.len() <= s@.len(),
            None => index_of_text(s@, p@) is None,
        },
        s@.len() <= usize::MAX,
{
    let n = text_len(s);
    let mut i: usize = 0;
    proof {
        lemma_index_of_text(s@, p@);
    }
    while i <= n
        invariant
            s.is_ascii(),
            p.is_ascii(),
            n == s@.len(),
            i <= n + 1,
            forall|j: int| 0 <= j < i ==> !p@.is_prefix_of(#[trigger] s@.skip(j)),
        decreases n + 1 - i,
    {
        let rest = tail(s, i);
        if begins_with(rest, p) {
            proof {
                lemma_index_of_text(s@, p@);
            }
            return Some(i);
        }
        if i == n {
            proof {
                lemma_index_of_text(s@, p@);
            }
            return None;
        }
        i += 1;
    }
    proof {
        lemma_index_of_text(s@, p@);
    }
    None
}

/// Whether `c` is ASCII white space.
pub fn is_space_char(c: char) -> (r: bool)
    ensures
        r == is_space(c),
{
    c == ' ' || ('\t' <= c && c <= '\r')
}

/// An ASCII string without its trailing white space.
pub fn trimmed_end<'a>(s: &'a str) -> (r: &'a str)
    requires
        s.is_ascii(),
    ensures
        r@ == trim_end(s@),
        r.is_ascii(),
{
    let mut n: usize = text_len(s);
    assert(s@.take(n as int) =~= s@);
    while n > 0 && is_space_char(char_at(s, n - 1))
        invariant
            s.is_ascii(),
            n <= s@.len(),
            trim_end(s@.take(n as int)) == trim_end(s@),
        decreases n,
    {
        assert(s@.take(n as int).drop_last() =~= s@.take(n - 1));
        n -= 1;
    }
    head(s, n)
}

/// An ASCII string without its leading white space.
pub fn trimmed_start<'a>(s: &'a str) -> (r: &'a str)
    requires
        s.is_ascii(),
    ensures
        r@ == trim_start(s@),
        r.is_ascii(),
{
    let n: usize = text_len(s);
    let mut i: usize = 0;
    assert(s@.skip(0) =~= s@);
    while i < n && is_space_char(char_at(s, i))
        invariant
            s.is_ascii(),
            n == s@.len(),
            i <= n,
            trim_start(s@.skip(i as int)) == trim_start(s@),
        decreases n - i,
    {
        assert(s@.skip(i as int).skip(1) =~= s@.skip(i + 1));
        i += 1;
    }
    tail(s, i)
}

} // verus!
