//! The parsers of names and types. Each one computes what the function of
//! the same name in `grammar` specifies.

use vstd::prelude::*;
use vstd::string::*;
use vstd::utf8::*;
use crate::grammar::{
    builtin_type, lemma_arg_rest, lemma_function_args_rest, lemma_name_rest,
    lemma_qualified_name_rest, spec_demangle_arg, spec_demangle_function_args,
    spec_demangle_name, spec_demangle_qualified_name, spec_demangle_template_args,
    spec_array_type, spec_function_args_from, spec_function_pointer, spec_function_type,
    spec_member_pointer, spec_name_path, spec_template_arg_list,
};
use crate::options::DemangleOptions;
use crate::scan::{
    decimal_string, digit_value, is_digit_char, lemma_parse_digits_rest,
    lemma_scan_qualifiers_rest, parse_digits, parse_qualifiers,
};
use crate::text::{
    begins_with, begins_with_char, begins_with_digit, char_at, find_char, head, rfind_char, slice,
    tail, text_len, trimmed_start,
};

verus! {

/// The decoded fragment and the rest, as sequences of characters.
pub open spec fn fragment_view(r: Option<(String, String, &str)>) -> Option<
    (Seq<char>, Seq<char>, Seq<char>),
> {
    match r {
        Some((a, b, rest)) => Some((a@, b@, rest@)),
        None => None,
    }
}

/// All three texts of a result are ASCII.
pub open spec fn fragment_is_ascii(r: Option<(String, String, &str)>) -> bool {
    match r {
        Some((a, b, rest)) => is_ascii_chars(a@) && is_ascii_chars(b@) && is_ascii_chars(rest@),
        None => true,
    }
}

/// `list` in front of the text that `more` holds, if it holds one.
pub open spec fn in_front(list: Seq<char>, more: Option<Seq<char>>) -> Option<Seq<char>> {
    match more {
        Some(t) => Some(list + t),
        None => None,
    }
}

/// The name of the builtin type that the letter `c` stands for.
fn builtin_name(c: char) -> (r: Option<&'static str>)
    ensures
        match r {
            Some(name) => builtin_type(c) == Some(name@) && name.is_ascii(),
            None => builtin_type(c) is None,
        },
{
    proof {
        reveal_strlit("int");
        reveal_strlit("bool");
        reveal_strlit("char");
        reveal_strlit("short");
        reveal_strlit("long");
        reveal_strlit("long long");
        reveal_strlit("float");
        reveal_strlit("double");
        reveal_strlit("wchar_t");
        reveal_strlit("void");
        reveal_strlit("...");
    }
    if c == 'i' {
        Some("int")
    } else if c == 'b' {
        Some("bool")
    } else if c == 'c' {
        Some("char")
    } else if c == 's' {
        Some("short")
    } else if c == 'l' {
        Some("long")
    } else if c == 'x' {
        Some("long long")
    } else if c == 'f' {
        Some("float")
    } else if c == 'd' {
        Some("double")
    } else if c == 'w' {
        Some("wchar_t")
    } else if c == 'v' {
        Some("void")
    } else if c == 'e' {
        Some("...")
    } else {
        None
    }
}

/// Splits an identifier from its template arguments and renders the
/// arguments.
pub fn demangle_template_args<'a>(s: &'a str, options: &DemangleOptions) -> (r: Option<
    (&'a str, String),
>)
    requires
        s.is_ascii(),
    ensures
        match r {
            Some((name, args)) => spec_demangle_template_args(s@, options.mw_extensions) == Some(
                (name@, args@),
            ) && name.is_ascii() && is_ascii_chars(args@),
            None => spec_demangle_template_args(s@, options.mw_extensions) is None,
        },
    decreases s@.len(), 0nat, 0nat,
{
    let start = match find_char(s, '<') {
        Some(i) => i,
        None => {
            return Some((s, String::new()));
        },
    };
    let end = match rfind_char(s, '>') {
        Some(i) => i,
        None => {
            return None;
        },
    };
    if end < start {
        return None;
    }
    let name = head(s, start);
    let mut args = slice(s, start + 1, end);
    let mut body = String::new();
    let ghost listed = spec_template_arg_list(args@, options.mw_extensions);
    assert(in_front(body@, listed) == listed) by {
        if listed is Some {
            assert(body@ + listed->0 =~= listed->0);
        }
    }
    while text_len(args) > 0
        invariant
            args.is_ascii(),
            is_ascii_chars(body@),
            args@.len() < s@.len(),
            in_front(body@, spec_template_arg_list(args@, options.mw_extensions)) == listed,
            listed is None ==> spec_demangle_template_args(s@, options.mw_extensions) is None,
        decreases args@.len(),
    {
        let ghost before = body@;
        let (pre, post, rest) = match demangle_arg(args, options) {
            Some(x) => x,
            None => {
                return None;
            },
        };
        proof {
            lemma_arg_rest(args@, options.mw_extensions);
        }
        body.append(pre.as_str());
        body.append(post.as_str());
        if text_len(rest) == 0 {
            assert(body@ =~= before + (pre@ + post@));
            assert(before + (pre@ + post@) + Seq::<char>::empty() =~= body@);
            args = rest;
        } else {
            proof {
                reveal_strlit(", ");
            }
            body.append(", ");
            args = tail(rest, 1);
            proof {
                let more = spec_template_arg_list(args@, options.mw_extensions);
                if more is Some {
                    assert(body@ + more->0 =~= before + (pre@ + post@ + ", "@ + more->0));
                }
            }
        }
    }
    proof {
        reveal_strlit("<");
        reveal_strlit(">");
        assert(body@ + Seq::<char>::empty() =~= body@);
    }
    let mut out = String::from_str("<");
    out.append(body.as_str());
    out.append(">");
    Some((name, out))
}

/// Parses one name.
pub fn demangle_name<'a>(s: &'a str, options: &DemangleOptions) -> (r: Option<
    (String, String, &'a str),
>)
    requires
        s.is_ascii(),
    ensures
        fragment_view(r) == spec_demangle_name(s@, options.mw_extensions),
        fragment_is_ascii(r),
    decreases s@.len(), 0nat, 0nat,
{
    let (size, rest) = match parse_digits(s) {
        Some(x) => x,
        None => {
            return None;
        },
    };
    proof {
        lemma_parse_digits_rest(s@);
    }
    if text_len(rest) == 0 || begins_with_char(rest, ',') {
        let out = decimal_string(size);
        return Some((out.clone(), out, rest));
    }
    if text_len(rest) < size {
        return None;
    }
    let (name, args) = match demangle_template_args(head(rest, size), options) {
        Some(x) => x,
        None => {
            return None;
        },
    };
    let mut full = String::from_str(name);
    full.append(args.as_str());
    Some((String::from_str(name), full, tail(rest, size)))
}

/// Parses a qualified name.
pub fn demangle_qualified_name<'a>(s: &'a str, options: &DemangleOptions) -> (r: Option<
    (String, String, &'a str),
>)
    requires
        s.is_ascii(),
    ensures
        fragment_view(r) == spec_demangle_qualified_name(s@, options.mw_extensions),
        fragment_is_ascii(r),
    decreases s@.len(), 1nat, 0nat,
{
    if !begins_with_char(s, 'Q') {
        return demangle_name(s, options);
    }
    if text_len(s) < 3 {
        return None;
    }
    let digit = char_at(s, 1);
    if !is_digit_char(digit) {
        return None;
    }
    let count: usize = (digit as u8 - 48u8) as usize;
    let mut cur = tail(s, 2);
    let mut last = String::new();
    let mut path = String::new();
    let mut i: usize = 0;
    while i < count
        invariant
            i <= count,
            count == digit_value(digit),
            cur.is_ascii(),
            cur@.len() < s@.len(),
            is_ascii_chars(last@),
            is_ascii_chars(path@),
            spec_name_path((count - i) as nat, last@, path@, cur@, options.mw_extensions)
                == spec_demangle_qualified_name(s@, options.mw_extensions),
        decreases count - i,
    {
        let (class, full, rest) = match demangle_name(cur, options) {
            Some(x) => x,
            None => {
                return None;
            },
        };
        proof {
            lemma_name_rest(cur@, options.mw_extensions);
        }
        path.append(full.as_str());
        if i < count - 1 {
            proof {
                reveal_strlit("::");
            }
            path.append("::");
        }
        last = class;
        cur = rest;
        i += 1;
    }
    Some((last, path, cur))
}

/// Parses the type of a function that is reached through the declarator
/// `pre + post`.
fn function_type<'a>(
    pre: String,
    post: String,
    const_member: bool,
    s: &'a str,
    options: &DemangleOptions,
) -> (r: Option<(String, String, &'a str)>)
    requires
        s.is_ascii(),
        is_ascii_chars(pre@),
        is_ascii_chars(post@),
    ensures
        fragment_view(r) == spec_function_type(
            pre@,
            post@,
            const_member,
            s@,
            options.mw_extensions,
        ),
        fragment_is_ascii(r),
    decreases s@.len(), 5nat, 0nat,
{
    let (args, rest) = match demangle_function_args(s, options) {
        Some(x) => x,
        None => {
            return None;
        },
    };
    proof {
        lemma_function_args_rest(Seq::empty(), s@, options.mw_extensions);
    }
    if !begins_with_char(rest, '_') {
        return None;
    }
    let (ret_pre, ret_post, after) = match demangle_arg(tail(rest, 1), options) {
        Some(x) => x,
        None => {
            return None;
        },
    };
    proof {
        reveal_strlit(" (");
        reveal_strlit(")(");
        reveal_strlit(")");
        reveal_strlit(" const");
    }
    let mut res_pre = ret_pre;
    res_pre.append(" (");
    res_pre.append(pre.as_str());
    res_pre.append(post.as_str());
    let mut res_post = String::from_str(")(");
    res_post.append(args.as_str());
    res_post.append(")");
    if const_member {
        res_post.append(" const");
    } else {
        assert(res_post@ + Seq::<char>::empty() =~= res_post@);
    }
    res_post.append(ret_post.as_str());
    Some((res_pre, res_post, after))
}

/// Parses a pointer to a member function, whose letter `M` has been read.
fn member_pointer<'a>(pre: String, post: String, s: &'a str, options: &DemangleOptions) -> (r:
    Option<(String, String, &'a str)>)
    requires
        s.is_ascii(),
        is_ascii_chars(pre@),
        is_ascii_chars(post@),
    ensures
        fragment_view(r) == spec_member_pointer(pre@, post@, s@, options.mw_extensions),
        fragment_is_ascii(r),
    decreases s@.len(), 6nat, 0nat,
{
    let (_, class, after) = match demangle_qualified_name(s, options) {
        Some(x) => x,
        None => {
            return None;
        },
    };
    proof {
        lemma_qualified_name_rest(s@, options.mw_extensions);
    }
    if !begins_with_char(after, 'F') {
        return None;
    }
    let hidden = tail(after, 1);
    proof {
        reveal_strlit("::*");
        reveal_strlit("PCvPCv");
        reveal_strlit("PCvPv");
    }
    let mut owner = class;
    owner.append("::*");
    owner.append(pre.as_str());
    if begins_with(hidden, "PCvPCv") {
        function_type(owner, post, true, tail(hidden, 6), options)
    } else if begins_with(hidden, "PCvPv") {
        function_type(owner, post, false, tail(hidden, 5), options)
    } else {
        None
    }
}

/// Parses the function that a pointer points to, whose letter `F` has been
/// read.
fn function_pointer<'a>(pre: String, post: String, s: &'a str, options: &DemangleOptions) -> (r:
    Option<(String, String, &'a str)>)
    requires
        s.is_ascii(),
        is_ascii_chars(pre@),
        is_ascii_chars(post@),
    ensures
        fragment_view(r) == spec_function_pointer(pre@, post@, s@, options.mw_extensions),
        fragment_is_ascii(r),
    decreases s@.len(), 6nat, 0nat,
{
    if !begins_with_char(post.as_str(), '*') {
        return None;
    }
    proof {
        reveal_strlit("*");
    }
    let mut owner = String::from_str("*");
    owner.append(pre.as_str());
    let chain = String::from_str(trimmed_start(tail(post.as_str(), 1)));
    function_type(owner, chain, false, s, options)
}

/// Parses an array type, whose letter `A` has been read: `s` begins with
/// the number of elements. `pre` and `post` are what the qualifiers in
/// front of the `A` gave.
fn array_type<'a>(pre: String, post: String, s: &'a str, options: &DemangleOptions) -> (r: Option<
    (String, String, &'a str),
>)
    requires
        s.is_ascii(),
        is_ascii_chars(pre@),
        is_ascii_chars(post@),
    ensures
        fragment_view(r) == spec_array_type(pre@, post@, s@, options.mw_extensions),
        fragment_is_ascii(r),
    decreases s@.len(), 6nat, 0nat,
{
    let (count, rest) = match parse_digits(s) {
        Some(x) => x,
        None => {
            return None;
        },
    };
    proof {
        lemma_parse_digits_rest(s@);
    }
    if !begins_with_char(rest, '_') {
        return None;
    }
    let (elem_pre, elem_post, after) = match demangle_arg(tail(rest, 1), options) {
        Some(x) => x,
        None => {
            return None;
        },
    };
    proof {
        reveal_strlit("(");
        reveal_strlit(")");
        reveal_strlit("[");
        reveal_strlit("]");
    }
    let mut res_pre = pre;
    res_pre.append(elem_pre.as_str());
    if text_len(post.as_str()) > 0 {
        res_pre.append("(");
        res_pre.append(post.as_str());
        res_pre.append(")");
        assert(res_pre@ =~= pre@ + elem_pre@ + ("("@ + post@ + ")"@));
    } else {
        assert(res_pre@ =~= pre@ + elem_pre@ + post@);
    }
    let mut res_post = String::from_str("[");
    res_post.append(decimal_string(count).as_str());
    res_post.append("]");
    res_post.append(elem_post.as_str());
    Some((res_pre, res_post, after))
}

/// Parses one type.
pub fn demangle_arg<'a>(s: &'a str, options: &DemangleOptions) -> (r: Option<
    (String, String, &'a str),
>)
    requires
        s.is_ascii(),
    ensures
        fragment_view(r) == spec_demangle_arg(s@, options.mw_extensions),
        fragment_is_ascii(r),
    decreases s@.len(), 2nat, 0nat,
{
    let (pre, post, rest) = parse_qualifiers(s, options);
    proof {
        lemma_scan_qualifiers_rest(Seq::empty(), Seq::empty(), s@, options.mw_extensions);
    }
    if begins_with_char(rest, 'Q') || begins_with_digit(rest) {
        let (_, qualified, after) = match demangle_qualified_name(rest, options) {
            Some(x) => x,
            None => {
                return None;
            },
        };
        let mut out = pre;
        out.append(qualified.as_str());
        out.append(post.as_str());
        Some((out, String::new(), after))
    } else if begins_with_char(rest, 'M') {
        member_pointer(pre, post, tail(rest, 1), options)
    } else if begins_with_char(rest, 'F') {
        function_pointer(pre, post, tail(rest, 1), options)
    } else if begins_with_char(rest, 'A') {
        array_type(pre, post, tail(rest, 1), options)
    } else if text_len(rest) == 0 {
        None
    } else {
        let c = char_at(rest, 0);
        if c == '_' {
            return Some((pre, String::new(), rest));
        }
        let name = match builtin_name(c) {
            Some(x) => x,
            None => {
                return None;
            },
        };
        let mut out = pre;
        out.append(name);
        out.append(post.as_str());
        Some((out, String::new(), tail(rest, 1)))
    }
}

/// Parses the parameter list of a function.
pub fn demangle_function_args<'a>(s: &'a str, options: &DemangleOptions) -> (r: Option<
    (String, &'a str),
>)
    requires
        s.is_ascii(),
    ensures
        match r {
            Some((list, rest)) => spec_demangle_function_args(s@, options.mw_extensions) == Some(
                (list@, rest@),
            ) && is_ascii_chars(list@) && rest.is_ascii(),
            None => spec_demangle_function_args(s@, options.mw_extensions) is None,
        },
    decreases s@.len(), 4nat, 0nat,
{
    let mut list = String::new();
    let mut cur = s;
    let mut done = false;
    let ghost whole = spec_function_args_from(Seq::empty(), s@, options.mw_extensions);
    while !done && text_len(cur) > 0
        invariant
            cur.is_ascii(),
            is_ascii_chars(list@),
            cur@.len() <= s@.len(),
            whole == spec_function_args_from(Seq::empty(), s@, options.mw_extensions),
            done ==> whole == Some((list@, cur@)),
            !done ==> whole == spec_function_args_from(list@, cur@, options.mw_extensions),
        decreases
                (if done {
                    0int
                } else {
                    1int
                }),
                cur@.len(),
    {
        let ghost before = list@;
        if text_len(list.as_str()) > 0 {
            proof {
                reveal_strlit(", ");
            }
            list.append(", ");
        }
        let (pre, post, rest) = match demangle_arg(cur, options) {
            Some(x) => x,
            None => {
                return None;
            },
        };
        proof {
            lemma_arg_rest(cur@, options.mw_extensions);
        }
        list.append(pre.as_str());
        list.append(post.as_str());
        assert(list@ =~= if before.len() > 0 {
            before + ", "@ + pre@ + post@
        } else {
            pre@ + post@
        });
        cur = rest;
        if begins_with_char(cur, '_') || begins_with_char(cur, ',') {
            done = true;
        }
    }
    Some((list, cur))
}

} // verus!
