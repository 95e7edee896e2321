//! The two scalar scanners: runs of decimal digits, and runs of qualifier
//! and indirection letters.

use vstd::prelude::*;
use vstd::string::*;
use vstd::utf8::*;
use crate::options::DemangleOptions;
use crate::text::{char_at, is_digit, is_tail_of, tail, text_len, trim_end, trimmed_end};

verus! {

/// Length of the run of decimal digits that `s` begins with.
pub open spec fn digit_run(s: Seq<char>) -> nat
    decreases s.len(),
{
    if s.len() > 0 && is_digit(s[0]) {
        1 + digit_run(s.skip(1))
    } else {
        0
    }
}

/// The number that a decimal digit stands for.
pub open spec fn digit_value(c: char) -> nat {
    (c as int - '0' as int) as nat
}

/// The number that a string of decimal digits stands for.
pub open spec fn decimal_value(s: Seq<char>) -> nat
    decreases s.len(),
{
    if s.len() == 0 {
        0
    } else {
        10 * decimal_value(s.drop_last()) + digit_value(s.last())
    }
}

/// The decimal digit of a number below ten.
pub open spec fn digit_char(d: nat) -> char {
    if d == 0 {
        '0'
    } else if d == 1 {
        '1'
    } else if d == 2 {
        '2'
    } else if d == 3 {
        '3'
    } else if d == 4 {
        '4'
    } else if d == 5 {
        '5'
    } else if d == 6 {
        '6'
    } else if d == 7 {
        '7'
    } else if d == 8 {
        '8'
    } else {
        '9'
    }
}

/// A number written in decimal, without leading zeros.
pub open spec fn decimal_text(n: nat) -> Seq<char>
    decreases n,
{
    if n < 10 {
        seq![digit_char(n)]
    } else {
        decimal_text(n / 10).push(digit_char(n % 10))
    }
}

/// The digit scanner: the value of the leading run of digits and what
/// follows the run. Nothing where `s` does not begin with a digit, or where
/// the value does not fit the machine word.
pub open spec fn spec_parse_digits(s: Seq<char>) -> Option<(usize, Seq<char>)> {
    let n = digit_run(s) as int;
    let v = decimal_value(s.take(n));
    if n == 0 || v > usize::MAX {
        None
    } else {
        Some((v as usize, s.skip(n)))
    }
}

/// The run of digits lies within `s`, holds digits only, and ends where `s`
/// ends or at a character that is no digit.
pub proof fn lemma_digit_run(s: Seq<char>)
    ensures
        digit_run(s) <= s.len(),
        forall|j: int| 0 <= j < digit_run(s) ==> is_digit(#[trigger] s[j]),
        digit_run(s) < s.len() ==> !is_digit(s[digit_run(s) as int]),
    decreases s.len(),
{
    if s.len() > 0 && is_digit(s[0]) {
        let t = s.skip(1);
        lemma_digit_run(t);
        assert forall|j: int| 0 <= j < digit_run(s) implies is_digit(#[trigger] s[j]) by {
            if j > 0 {
                assert(s[j] == t[j - 1]);
            }
        }
        if digit_run(s) < s.len() {
            assert(s[digit_run(s) as int] == t[digit_run(t) as int]);
        }
    }
}

/// A run of `n` digits that stops at position `n` is the run of digits.
pub proof fn lemma_digit_run_is(s: Seq<char>, n: int)
    requires
        0 <= n <= s.len(),
        forall|j: int| 0 <= j < n ==> is_digit(#[trigger] s[j]),
        n < s.len() ==> !is_digit(s[n]),
    ensures
        digit_run(s) == n,
{
    lemma_digit_run(s);
    let r = digit_run(s) as int;
    if r < n {
        assert(is_digit(s[r]));
    } else if r > n {
        assert(is_digit(s[n]));
    }
}

/// What the digit scanner leaves is a proper tail of its input.
pub proof fn lemma_parse_digits_rest(s: Seq<char>)
    ensures
        match spec_parse_digits(s) {
            Some((v, rest)) => 0 < digit_run(s) <= s.len() && rest == s.skip(digit_run(s) as int)
                && rest.len() < s.len() && is_tail_of(rest, s) && (rest.len() > 0 ==> !is_digit(
                rest[0],
            )),
            None => true,
        },
{
    lemma_digit_run(s);
}

/// A longer prefix of a digit string stands for no smaller a number.
pub proof fn lemma_decimal_value_grows(s: Seq<char>, j: int, k: int)
    requires
        0 <= j <= k <= s.len(),
    ensures
        decimal_value(s.take(j)) <= decimal_value(s.take(k)),
    decreases k - j,
{
    if j < k {
        assert(s.take(k).drop_last() =~= s.take(k - 1));
        lemma_decimal_value_grows(s, j, k - 1);
    }
}

/// Whether `c` is a decimal digit.
pub fn is_digit_char(c: char) -> (r: bool)
    ensures
        r == is_digit(c),
{
    '0' <= c && c <= '9'
}

/// The digit scanner.
pub fn parse_digits<'a>(s: &'a str) -> (r: Option<(usize, &'a str)>)
    requires
        s.is_ascii(),
    ensures
        match r {
            Some((v, rest)) => spec_parse_digits(s@) == Some((v, rest@)) && rest.is_ascii(),
            None => spec_parse_digits(s@) is None,
        },
{
    let n = text_len(s);
    let mut i: usize = 0;
    let mut acc: usize = 0;
    assert(s@.take(0) =~= Seq::<char>::empty());
    while i < n && is_digit_char(char_at(s, i))
        invariant
            s.is_ascii(),
            n == s@.len(),
            i <= n,
            forall|j: int| 0 <= j < i ==> is_digit(#[trigger] s@[j]),
            acc == decimal_value(s@.take(i as int)),
        decreases n - i,
    {
        let c = char_at(s, i);
        let d: usize = (c as u8 - 48u8) as usize;
        proof {
            assert(s@.take(i + 1).drop_last() =~= s@.take(i as int));
            assert(s@.take(i + 1).last() == c);
            assert(d == digit_value(c));
            lemma_digit_run(s@);
            if digit_run(s@) <= i {
                assert(!is_digit(s@[digit_run(s@) as int]));
            }
            lemma_decimal_value_grows(s@, i + 1, digit_run(s@) as int);
        }
        let scaled = match acc.checked_mul(10) {
            Some(m) => m,
            None => {
                return None;
            },
        };
        acc = match scaled.checked_add(d) {
            Some(v) => v,
            None => {
                return None;
            },
        };
        i += 1;
    }
    proof {
        lemma_digit_run_is(s@, i as int);
    }
    if i == 0 {
        return None;
    }
    Some((acc, tail(s, i)))
}

/// The decimal digit of a number below ten, as text.
pub fn digit_text(d: usize) -> (r: &'static str)
    requires
        d < 10,
    ensures
        r@ == seq![digit_char(d as nat)],
        r.is_ascii(),
{
    proof {
        reveal_strlit("0");
        reveal_strlit("1");
        reveal_strlit("2");
        reveal_strlit("3");
        reveal_strlit("4");
        reveal_strlit("5");
        reveal_strlit("6");
        reveal_strlit("7");
        reveal_strlit("8");
        reveal_strlit("9");
    }
    let r = if d == 0 {
        "0"
    } else if d == 1 {
        "1"
    } else if d == 2 {
        "2"
    } else if d == 3 {
        "3"
    } else if d == 4 {
        "4"
    } else if d == 5 {
        "5"
    } else if d == 6 {
        "6"
    } else if d == 7 {
        "7"
    } else if d == 8 {
        "8"
    } else {
        "9"
    };
    assert(r@ =~= seq![digit_char(d as nat)]);
    r
}

/// A number written in decimal, without leading zeros.
pub fn decimal_string(n: usize) -> (r: String)
    ensures
        r@ == decimal_text(n as nat),
        is_ascii_chars(r@),
    decreases n,
{
    if n < 10 {
        String::from_str(digit_text(n))
    } else {
        let mut r = decimal_string(n / 10);
        r.append(digit_text(n % 10));
        assert(r@ =~= decimal_text(n as nat));
        r
    }
}

/// Whether the qualifier scanner takes the letter `c`. `V` is a vendor
/// extension.
pub open spec fn is_qualifier(c: char, mw_extensions: bool) -> bool {
    c == 'P' || c == 'R' || c == 'C' || c == 'U' || c == 'S' || (mw_extensions && c == 'V')
}

/// The keyword of a qualifier letter, with the blank that follows it.
pub open spec fn qualifier_keyword(c: char) -> Seq<char> {
    if c == 'C' {
        "const "@
    } else if c == 'V' {
        "volatile "@
    } else if c == 'U' {
        "unsigned "@
    } else {
        "signed "@
    }
}

/// The declarator mark of an indirection letter.
pub open spec fn indirection_mark(c: char) -> Seq<char> {
    if c == 'P' {
        "*"@
    } else {
        "&"@
    }
}

/// The effect of one letter on the pending keywords `pre` and the chain of
/// indirections `post`. A keyword joins the pending ones. An indirection goes
/// in front of the chain, and the keywords that were pending bind to it:
/// they stand between its mark and the rest of the chain.
pub open spec fn qualifier_step(pre: Seq<char>, post: Seq<char>, c: char) -> (
    Seq<char>,
    Seq<char>,
) {
    if c == 'P' || c == 'R' {
        if pre.len() == 0 {
            (pre, indirection_mark(c) + post)
        } else {
            (Seq::empty(), indirection_mark(c) + " "@ + trim_end(pre) + post)
        }
    } else {
        (pre + qualifier_keyword(c), post)
    }
}

/// The letters of `s` taken one by one, from the state `(pre, post)`, up to
/// the first character that is no such letter.
pub open spec fn scan_qualifiers(
    pre: Seq<char>,
    post: Seq<char>,
    s: Seq<char>,
    mw_extensions: bool,
) -> (Seq<char>, Seq<char>, Seq<char>)
    decreases s.len(),
{
    if s.len() > 0 && is_qualifier(s[0], mw_extensions) {
        let next = qualifier_step(pre, post, s[0]);
        scan_qualifiers(next.0, next.1, s.skip(1), mw_extensions)
    } else {
        (pre, post, s)
    }
}

/// The qualifier scanner: the keywords left pending, the chain of
/// indirections without trailing white space, and what follows the run.
pub open spec fn spec_parse_qualifiers(s: Seq<char>, mw_extensions: bool) -> (
    Seq<char>,
    Seq<char>,
    Seq<char>,
) {
    let r = scan_qualifiers(Seq::empty(), Seq::empty(), s, mw_extensions);
    (r.0, trim_end(r.1), r.2)
}

/// What the scan leaves is a tail of its input.
pub proof fn lemma_scan_qualifiers_rest(
    pre: Seq<char>,
    post: Seq<char>,
    s: Seq<char>,
    mw_extensions: bool,
)
    ensures
        ({
            let r = scan_qualifiers(pre, post, s, mw_extensions);
            &&& is_tail_of(r.2, s)
            &&& r.2.len() > 0 ==> !is_qualifier(r.2[0], mw_extensions)
        }),
    decreases s.len(),
{
    if s.len() > 0 && is_qualifier(s[0], mw_extensions) {
        let next = qualifier_step(pre, post, s[0]);
        let t = s.skip(1);
        lemma_scan_qualifiers_rest(next.0, next.1, t, mw_extensions);
        let r = scan_qualifiers(pre, post, s, mw_extensions);
        assert(t.skip(t.len() - r.2.len()) =~= s.skip(s.len() - r.2.len()));
    } else {
        assert(s.skip(0) =~= s);
    }
}

/// The keyword of a qualifier letter, with the blank that follows it.
fn keyword_text(c: char) -> (r: &'static str)
    ensures
        r@ == qualifier_keyword(c),
        r.is_ascii(),
{
    proof {
        reveal_strlit("const ");
        reveal_strlit("volatile ");
        reveal_strlit("unsigned ");
        reveal_strlit("signed ");
    }
    if c == 'C' {
        "const "
    } else if c == 'V' {
        "volatile "
    } else if c == 'U' {
        "unsigned "
    } else {
        "signed "
    }
}

/// The declarator mark of an indirection letter.
fn mark_text(c: char) -> (r: &'static str)
    ensures
        r@ == indirection_mark(c),
        r.is_ascii(),
{
    proof {
        reveal_strlit("*");
        reveal_strlit("&");
    }
    if c == 'P' {
        "*"
    } else {
        "&"
    }
}

/// Whether the qualifier scanner takes the letter `c`.
fn is_qualifier_char(c: char, options: &DemangleOptions) -> (r: bool)
    ensures
        r == is_qualifier(c, options.mw_extensions),
{
    c == 'P' || c == 'R' || c == 'C' || c == 'U' || c == 'S' || (options.mw_extensions && c
        == 'V')
}

/// The qualifier scanner.
pub fn parse_qualifiers<'a>(s: &'a str, options: &DemangleOptions) -> (r: (String, String, &'a str))
    requires
        s.is_ascii(),
    ensures
        (r.0@, r.1@, r.2@) == spec_parse_qualifiers(s@, options.mw_extensions),
        is_ascii_chars(r.0@),
        is_ascii_chars(r.1@),
        r.2.is_ascii(),
{
    let n = text_len(s);
    let mut pre = String::new();
    let mut post = String::new();
    let mut i: usize = 0;
    assert(s@.skip(0) =~= s@);
    while i < n && is_qualifier_char(char_at(s, i), options)
        invariant
            s.is_ascii(),
            n == s@.len(),
            i <= n,
            is_ascii_chars(pre@),
            is_ascii_chars(post@),
            scan_qualifiers(pre@, post@, s@.skip(i as int), options.mw_extensions)
                == scan_qualifiers(Seq::empty(), Seq::empty(), s@, options.mw_extensions),
        decreases n - i,
    {
        let c = char_at(s, i);
        assert(s@.skip(i as int).skip(1) =~= s@.skip(i + 1));
        assert(s@.skip(i as int)[0] == c);
        if c == 'P' || c == 'R' {
            if text_len(pre.as_str()) == 0 {
                let mut chain = String::from_str(mark_text(c));
                chain.append(post.as_str());
                post = chain;
            } else {
                proof {
                    reveal_strlit(" ");
                }
                let mut chain = String::from_str(mark_text(c));
                chain.append(" ");
                chain.append(trimmed_end(pre.as_str()));
                chain.append(post.as_str());
                post = chain;
                pre = String::new();
            }
        } else {
            pre.append(keyword_text(c));
        }
        i += 1;
    }
    let rest = tail(s, i);
    let chain = String::from_str(trimmed_end(post.as_str()));
    (pre, chain, rest)
}

} // verus!
