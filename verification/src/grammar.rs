//! The grammar of names and types, as specification functions over
//! sequences of characters.
//!
//! Each function takes the text that is still to be read and gives, where
//! the text begins with the construct in question, the decoded fragment and
//! the text that follows the construct. The functions call each other as the
//! grammar nests: a name may carry template arguments, which are types,
//! which may be names again.
//!
//! Where one of them goes on with what another has left, it first tests that
//! the text has not grown. That test is what makes the definitions
//! well-founded; the lemmas at the end of this file show that it never fails.

use vstd::prelude::*;
use vstd::string::*;
use crate::scan::{
    decimal_text, digit_value, lemma_parse_digits_rest, lemma_scan_qualifiers_rest,
    spec_parse_digits, spec_parse_qualifiers,
};
use crate::text::{
    first_is, is_digit, is_tail_of, lemma_skip_is_tail, lemma_tail_of_tail, trim_start,
};

verus! {

/// The name of the builtin type that the letter `c` stands for.
pub open spec fn builtin_type(c: char) -> Option<Seq<char>> {
    if c == 'i' {
        Some("int"@)
    } else if c == 'b' {
        Some("bool"@)
    } else if c == 'c' {
        Some("char"@)
    } else if c == 's' {
        Some("short"@)
    } else if c == 'l' {
        Some("long"@)
    } else if c == 'x' {
        Some("long long"@)
    } else if c == 'f' {
        Some("float"@)
    } else if c == 'd' {
        Some("double"@)
    } else if c == 'w' {
        Some("wchar_t"@)
    } else if c == 'v' {
        Some("void"@)
    } else if c == 'e' {
        Some("..."@)
    } else {
        None
    }
}

/// An identifier with its template arguments, if it has any: the bare
/// identifier, and the rendered argument list, `<` and `>` included. The
/// list lies between the first `<` and the last `>` of `s`; without a `<`
/// there is no list and the second part is empty.
pub open spec fn spec_demangle_template_args(s: Seq<char>, mw_extensions: bool) -> Option<
    (Seq<char>, Seq<char>),
>
    decreases s.len(), 0nat, 0nat,
{
    match s.index_of_first('<') {
        None => Some((s, Seq::empty())),
        Some(start) => match s.index_of_last('>') {
            None => None,
            Some(end) => if end < start {
                None
            } else {
                proof {
                    s.index_of_first_ensures('<');
                    s.index_of_last_ensures('>');
                }
                match spec_template_arg_list(s.subrange(start + 1, end), mw_extensions) {
                    None => None,
                    Some(body) => Some((s.take(start), "<"@ + body + ">"@)),
                }
            },
        },
    }
}

/// The rendered template arguments that `s` lists: each one is a type, and
/// one character (the comma) stands between two of them. The rendered types
/// are joined by a comma and a blank.
pub open spec fn spec_template_arg_list(s: Seq<char>, mw_extensions: bool) -> Option<Seq<char>>
    decreases s.len(), 3nat, 0nat,
{
    if s.len() == 0 {
        Some(Seq::empty())
    } else {
        match spec_demangle_arg(s, mw_extensions) {
            None => None,
            Some((pre, post, rest)) => if rest.len() == 0 {
                Some(pre + post)
            } else if rest.len() > s.len() {
                None
            } else {
                match spec_template_arg_list(rest.skip(1), mw_extensions) {
                    None => None,
                    Some(more) => Some(pre + post + ", "@ + more),
                }
            },
        }
    }
}

/// A name: a decimal length, then that many characters, which hold an
/// identifier and its template arguments. The result is the bare
/// identifier, the identifier with its rendered arguments, and the rest.
/// A number that ends the text or stands before a comma is a literal value:
/// it is both of its own forms.
pub open spec fn spec_demangle_name(s: Seq<char>, mw_extensions: bool) -> Option<
    (Seq<char>, Seq<char>, Seq<char>),
>
    decreases s.len(), 0nat, 0nat,
{
    match spec_parse_digits(s) {
        None => None,
        Some((size, rest)) => if rest.len() == 0 || rest[0] == ',' {
            Some((decimal_text(size as nat), decimal_text(size as nat), rest))
        } else if rest.len() < size {
            None
        } else {
            proof {
                lemma_parse_digits_rest(s);
            }
            match spec_demangle_template_args(rest.take(size as int), mw_extensions) {
                None => None,
                Some((name, args)) => Some((name, name + args, rest.skip(size as int))),
            }
        },
    }
}

/// `n` names in a row, after the path `path` whose last name is `last`.
/// The full forms are joined by `::`.
pub open spec fn spec_name_path(
    n: nat,
    last: Seq<char>,
    path: Seq<char>,
    s: Seq<char>,
    mw_extensions: bool,
) -> Option<(Seq<char>, Seq<char>, Seq<char>)>
    decreases s.len(), 1nat, n,
{
    if n == 0 {
        Some((last, path, s))
    } else {
        match spec_demangle_name(s, mw_extensions) {
            None => None,
            Some((class, full, rest)) => if rest.len() > s.len() {
                None
            } else {
                let joined = if n > 1 {
                    path + full + "::"@
                } else {
                    path + full
                };
                spec_name_path((n - 1) as nat, class, joined, rest, mw_extensions)
            },
        }
    }
}

/// A qualified name: `Q`, one digit that counts the names, and the names;
/// or one name alone. The result is the bare form of the last name (the
/// short name), the whole path, and the rest.
pub open spec fn spec_demangle_qualified_name(s: Seq<char>, mw_extensions: bool) -> Option<
    (Seq<char>, Seq<char>, Seq<char>),
>
    decreases s.len(), 1nat, 0nat,
{
    if first_is(s, 'Q') {
        if s.len() < 3 || !is_digit(s[1]) {
            None
        } else {
            spec_name_path(digit_value(s[1]), Seq::empty(), Seq::empty(), s.skip(2), mw_extensions)
        }
    } else {
        spec_demangle_name(s, mw_extensions)
    }
}

/// The type of a function that is reached through the declarator
/// `pre + post` (a pointer, or a pointer to a member): the parameters, `_`,
/// and the type that is returned. The declarator stands in parentheses
/// between the two parts of the returned type, and the parameter list
/// follows it.
pub open spec fn spec_function_type(
    pre: Seq<char>,
    post: Seq<char>,
    const_member: bool,
    s: Seq<char>,
    mw_extensions: bool,
) -> Option<(Seq<char>, Seq<char>, Seq<char>)>
    decreases s.len(), 5nat, 0nat,
{
    match spec_demangle_function_args(s, mw_extensions) {
        None => None,
        Some((args, rest)) => if !first_is(rest, '_') || rest.len() > s.len() {
            None
        } else {
            match spec_demangle_arg(rest.skip(1), mw_extensions) {
                None => None,
                Some((ret_pre, ret_post, after)) => {
                    let marker = if const_member {
                        " const"@
                    } else {
                        Seq::empty()
                    };
                    Some(
                        (
                            ret_pre + " ("@ + pre + post,
                            ")("@ + args + ")"@ + marker + ret_post,
                            after,
                        ),
                    )
                },
            }
        },
    }
}

/// A pointer to a member function, after its `M`: the class, `F`, the
/// hidden parameters (`PCvPv`, or `PCvPCv` for a const member), and the
/// function type. `pre` and `post` are what the qualifiers in front of the
/// `M` gave; the class and `::*` go in front of them.
pub open spec fn spec_member_pointer(
    pre: Seq<char>,
    post: Seq<char>,
    s: Seq<char>,
    mw_extensions: bool,
) -> Option<(Seq<char>, Seq<char>, Seq<char>)>
    decreases s.len(), 6nat, 0nat,
{
    match spec_demangle_qualified_name(s, mw_extensions) {
        None => None,
        Some((_, class, rest)) => if !first_is(rest, 'F') || rest.len() > s.len() {
            None
        } else {
            let hidden = rest.skip(1);
            let owner = class + "::*"@ + pre;
            proof {
                reveal_strlit("PCvPCv");
                reveal_strlit("PCvPv");
            }
            if "PCvPCv"@.is_prefix_of(hidden) {
                spec_function_type(owner, post, true, hidden.skip(6), mw_extensions)
            } else if "PCvPv"@.is_prefix_of(hidden) {
                spec_function_type(owner, post, false, hidden.skip(5), mw_extensions)
            } else {
                None
            }
        },
    }
}

/// The function that a pointer points to, after its `F`. The chain of
/// indirections `post` must begin with the pointer: its `*` goes in front of
/// `pre`, and what is left of the chain, without leading white space, stays
/// behind.
pub open spec fn spec_function_pointer(
    pre: Seq<char>,
    post: Seq<char>,
    s: Seq<char>,
    mw_extensions: bool,
) -> Option<(Seq<char>, Seq<char>, Seq<char>)>
    decreases s.len(), 6nat, 0nat,
{
    if first_is(post, '*') {
        spec_function_type("*"@ + pre, trim_start(post.skip(1)), false, s, mw_extensions)
    } else {
        None
    }
}

/// An array, after its `A`: the number of elements, `_`, and the type of an
/// element. The bound goes in front of what stands after the element's
/// name; the chain of indirections `post`, if there is one, is put in
/// parentheses, since it binds less tightly than the bound.
pub open spec fn spec_array_type(
    pre: Seq<char>,
    post: Seq<char>,
    s: Seq<char>,
    mw_extensions: bool,
) -> Option<(Seq<char>, Seq<char>, Seq<char>)>
    decreases s.len(), 6nat, 0nat,
{
    match spec_parse_digits(s) {
        None => None,
        Some((count, rest)) => if !first_is(rest, '_') {
            None
        } else {
            proof {
                lemma_parse_digits_rest(s);
            }
            match spec_demangle_arg(rest.skip(1), mw_extensions) {
                None => None,
                Some((elem_pre, elem_post, after)) => {
                    let declarator = if post.len() > 0 {
                        "("@ + post + ")"@
                    } else {
                        post
                    };
                    Some(
                        (
                            pre + elem_pre + declarator,
                            "["@ + decimal_text(count as nat) + "]"@ + elem_post,
                            after,
                        ),
                    )
                },
            }
        },
    }
}

/// One type, as the two parts of a declarator: what stands before the name
/// that is declared and what stands after it; and the rest.
///
/// The qualifiers come first. Then a name or `Q` begins a class type, `M` a
/// pointer to a member function (whose hidden first parameters must
/// follow the `F`), `F` the function that a pointer points to, `A` an
/// array, and a single letter names a builtin type. Before `_` the type is
/// empty and nothing is read.
pub open spec fn spec_demangle_arg(s: Seq<char>, mw_extensions: bool) -> Option<
    (Seq<char>, Seq<char>, Seq<char>),
>
    decreases s.len(), 2nat, 0nat,
{
    let q = spec_parse_qualifiers(s, mw_extensions);
    let pre = q.0;
    let post = q.1;
    let r = q.2;
    proof {
        lemma_scan_qualifiers_rest(Seq::empty(), Seq::empty(), s, mw_extensions);
    }
    if first_is(r, 'Q') || (r.len() > 0 && is_digit(r[0])) {
        match spec_demangle_qualified_name(r, mw_extensions) {
            None => None,
            Some((_, qualified, rest)) => Some((pre + qualified + post, Seq::empty(), rest)),
        }
    } else if first_is(r, 'M') {
        spec_member_pointer(pre, post, r.skip(1), mw_extensions)
    } else if first_is(r, 'F') {
        spec_function_pointer(pre, post, r.skip(1), mw_extensions)
    } else if first_is(r, 'A') {
        spec_array_type(pre, post, r.skip(1), mw_extensions)
    } else if r.len() == 0 {
        None
    } else if r[0] == '_' {
        Some((pre, Seq::empty(), r))
    } else {
        match builtin_type(r[0]) {
            None => None,
            Some(name) => Some((pre + name + post, Seq::empty(), r.skip(1))),
        }
    }
}

/// The types of `s`, one after the other, added to the list `list` that has
/// been rendered so far; up to the end of the text, or to a type after
/// which `_` or `,` stands. A comma and a blank go between two types, but
/// not in front of the first text of the list.
pub open spec fn spec_function_args_from(list: Seq<char>, s: Seq<char>, mw_extensions: bool)
    -> Option<(Seq<char>, Seq<char>)>
    decreases s.len(), 3nat, 0nat,
{
    if s.len() == 0 {
        Some((list, s))
    } else {
        match spec_demangle_arg(s, mw_extensions) {
            None => None,
            Some((pre, post, rest)) => {
                let extended = if list.len() > 0 {
                    list + ", "@ + pre + post
                } else {
                    pre + post
                };
                if first_is(rest, '_') || first_is(rest, ',') {
                    Some((extended, rest))
                } else if rest.len() >= s.len() {
                    None
                } else {
                    spec_function_args_from(extended, rest, mw_extensions)
                }
            },
        }
    }
}

/// The parameter list of a function: the rendered types, joined by a comma
/// and a blank, and the rest.
pub open spec fn spec_demangle_function_args(s: Seq<char>, mw_extensions: bool) -> Option<
    (Seq<char>, Seq<char>),
>
    decreases s.len(), 4nat, 0nat,
{
    spec_function_args_from(Seq::empty(), s, mw_extensions)
}

/// What a parser leaves is a tail of what it was given: the text is read
/// from left to right, and nothing of it twice.
pub open spec fn reads_forward(s: Seq<char>, r: Option<(Seq<char>, Seq<char>, Seq<char>)>) -> bool {
    match r {
        Some((_, _, rest)) => is_tail_of(rest, s),
        None => true,
    }
}

/// As `reads_forward`, and at least one character is read.
pub open spec fn reads_ahead(s: Seq<char>, r: Option<(Seq<char>, Seq<char>, Seq<char>)>) -> bool {
    match r {
        Some((_, _, rest)) => is_tail_of(rest, s) && rest.len() < s.len(),
        None => true,
    }
}

/// A name takes at least one character.
pub proof fn lemma_name_rest(s: Seq<char>, mw_extensions: bool)
    ensures
        reads_ahead(s, spec_demangle_name(s, mw_extensions)),
{
    lemma_parse_digits_rest(s);
    match spec_parse_digits(s) {
        None => {},
        Some((size, rest)) => {
            if !(rest.len() == 0 || rest[0] == ',') && rest.len() >= size {
                lemma_skip_is_tail(rest, size as int);
                lemma_tail_of_tail(rest.skip(size as int), rest, s);
            }
        },
    }
}

/// A row of names leaves a tail of what it was given.
pub proof fn lemma_name_path_rest(
    n: nat,
    last: Seq<char>,
    path: Seq<char>,
    s: Seq<char>,
    mw_extensions: bool,
)
    ensures
        reads_forward(s, spec_name_path(n, last, path, s, mw_extensions)),
    decreases n,
{
    if n > 0 {
        lemma_name_rest(s, mw_extensions);
        match spec_demangle_name(s, mw_extensions) {
            None => {},
            Some((class, full, rest)) => {
                let joined = if n > 1 {
                    path + full + "::"@
                } else {
                    path + full
                };
                lemma_name_path_rest((n - 1) as nat, class, joined, rest, mw_extensions);
                match spec_name_path((n - 1) as nat, class, joined, rest, mw_extensions) {
                    None => {},
                    Some((_, _, after)) => {
                        lemma_tail_of_tail(after, rest, s);
                    },
                }
            },
        }
    } else {
        lemma_skip_is_tail(s, 0);
    }
}

/// A qualified name takes at least one character.
pub proof fn lemma_qualified_name_rest(s: Seq<char>, mw_extensions: bool)
    ensures
        reads_ahead(s, spec_demangle_qualified_name(s, mw_extensions)),
{
    if first_is(s, 'Q') {
        if s.len() >= 3 && is_digit(s[1]) {
            let r = spec_name_path(
                digit_value(s[1]),
                Seq::empty(),
                Seq::empty(),
                s.skip(2),
                mw_extensions,
            );
            lemma_name_path_rest(
                digit_value(s[1]),
                Seq::empty(),
                Seq::empty(),
                s.skip(2),
                mw_extensions,
            );
            match r {
                None => {},
                Some((_, _, rest)) => {
                    lemma_skip_is_tail(s, 2);
                    lemma_tail_of_tail(rest, s.skip(2), s);
                },
            }
        }
    } else {
        lemma_name_rest(s, mw_extensions);
    }
}

/// A pointer to a member function takes at least one character.
pub proof fn lemma_member_pointer_rest(
    pre: Seq<char>,
    post: Seq<char>,
    s: Seq<char>,
    mw_extensions: bool,
)
    ensures
        reads_ahead(s, spec_member_pointer(pre, post, s, mw_extensions)),
    decreases s.len(), 6nat,
{
    lemma_qualified_name_rest(s, mw_extensions);
    match spec_demangle_qualified_name(s, mw_extensions) {
        None => {},
        Some((_, class, rest)) => {
            if first_is(rest, 'F') {
                let hidden = rest.skip(1);
                let owner = class + "::*"@ + pre;
                reveal_strlit("PCvPCv");
                reveal_strlit("PCvPv");
                let skipped: int = if "PCvPCv"@.is_prefix_of(hidden) {
                    6
                } else {
                    5
                };
                if "PCvPCv"@.is_prefix_of(hidden) || "PCvPv"@.is_prefix_of(hidden) {
                    let body = hidden.skip(skipped);
                    let is_const = "PCvPCv"@.is_prefix_of(hidden);
                    lemma_function_type_rest(owner, post, is_const, body, mw_extensions);
                    match spec_function_type(owner, post, is_const, body, mw_extensions) {
                        None => {},
                        Some((_, _, after)) => {
                            lemma_skip_is_tail(hidden, skipped);
                            lemma_skip_is_tail(rest, 1);
                            lemma_tail_of_tail(body, hidden, rest);
                            lemma_tail_of_tail(body, rest, s);
                            lemma_tail_of_tail(after, body, s);
                        },
                    }
                }
            }
        },
    }
}

/// An array type takes at least one character.
pub proof fn lemma_array_type_rest(
    pre: Seq<char>,
    post: Seq<char>,
    s: Seq<char>,
    mw_extensions: bool,
)
    ensures
        reads_ahead(s, spec_array_type(pre, post, s, mw_extensions)),
    decreases s.len(), 6nat,
{
    lemma_parse_digits_rest(s);
    match spec_parse_digits(s) {
        None => {},
        Some((count, rest)) => {
            if first_is(rest, '_') {
                lemma_arg_rest(rest.skip(1), mw_extensions);
                match spec_demangle_arg(rest.skip(1), mw_extensions) {
                    None => {},
                    Some((_, _, after)) => {
                        lemma_skip_is_tail(rest, 1);
                        lemma_tail_of_tail(rest.skip(1), rest, s);
                        lemma_tail_of_tail(after, rest.skip(1), s);
                    },
                }
            }
        },
    }
}

/// A type leaves a tail of what it was given, and takes nothing only
/// before a `_`.
pub proof fn lemma_arg_rest(s: Seq<char>, mw_extensions: bool)
    ensures
        reads_forward(s, spec_demangle_arg(s, mw_extensions)),
        match spec_demangle_arg(s, mw_extensions) {
            Some((_, _, rest)) => rest.len() == s.len() ==> first_is(rest, '_'),
            None => true,
        },
    decreases s.len(), 2nat,
{
    let q = spec_parse_qualifiers(s, mw_extensions);
    let pre = q.0;
    let post = q.1;
    let r = q.2;
    lemma_scan_qualifiers_rest(Seq::empty(), Seq::empty(), s, mw_extensions);
    let found = spec_demangle_arg(s, mw_extensions);
    if first_is(r, 'Q') || (r.len() > 0 && is_digit(r[0])) {
        lemma_qualified_name_rest(r, mw_extensions);
        match found {
            Some((_, _, rest)) => {
                lemma_tail_of_tail(rest, r, s);
            },
            None => {},
        }
    } else if first_is(r, 'M') || first_is(r, 'F') || first_is(r, 'A') {
        let t = r.skip(1);
        lemma_skip_is_tail(r, 1);
        lemma_tail_of_tail(t, r, s);
        if first_is(r, 'M') {
            lemma_member_pointer_rest(pre, post, t, mw_extensions);
        } else if first_is(r, 'F') {
            if first_is(post, '*') {
                lemma_function_type_rest(
                    "*"@ + pre,
                    trim_start(post.skip(1)),
                    false,
                    t,
                    mw_extensions,
                );
            }
        } else {
            lemma_array_type_rest(pre, post, t, mw_extensions);
        }
        match found {
            Some((_, _, rest)) => {
                lemma_tail_of_tail(rest, t, s);
            },
            None => {},
        }
    } else if r.len() > 0 && r[0] != '_' {
        if found is Some {
            lemma_skip_is_tail(r, 1);
            lemma_tail_of_tail(r.skip(1), r, s);
        }
    }
}

/// A function type takes at least the `_` before the returned type.
pub proof fn lemma_function_type_rest(
    pre: Seq<char>,
    post: Seq<char>,
    const_member: bool,
    s: Seq<char>,
    mw_extensions: bool,
)
    ensures
        reads_ahead(s, spec_function_type(pre, post, const_member, s, mw_extensions)),
    decreases s.len(), 5nat,
{
    lemma_function_args_rest(Seq::empty(), s, mw_extensions);
    match spec_demangle_function_args(s, mw_extensions) {
        None => {},
        Some((args, rest)) => {
            if first_is(rest, '_') && rest.len() <= s.len() {
                lemma_arg_rest(rest.skip(1), mw_extensions);
                match spec_demangle_arg(rest.skip(1), mw_extensions) {
                    None => {},
                    Some((_, _, after)) => {
                        lemma_skip_is_tail(rest, 1);
                        lemma_tail_of_tail(rest.skip(1), rest, s);
                        lemma_tail_of_tail(after, rest.skip(1), s);
                    },
                }
            }
        },
    }
}

/// A parameter list leaves a tail of what it was given.
pub proof fn lemma_function_args_rest(list: Seq<char>, s: Seq<char>, mw_extensions: bool)
    ensures
        match spec_function_args_from(list, s, mw_extensions) {
            Some((_, rest)) => is_tail_of(rest, s),
            None => true,
        },
    decreases s.len(), 3nat,
{
    if s.len() > 0 {
        lemma_arg_rest(s, mw_extensions);
        match spec_demangle_arg(s, mw_extensions) {
            None => {},
            Some((pre, post, rest)) => {
                let extended = if list.len() > 0 {
                    list + ", "@ + pre + post
                } else {
                    pre + post
                };
                if !(first_is(rest, '_') || first_is(rest, ',')) && rest.len() < s.len() {
                    lemma_function_args_rest(extended, rest, mw_extensions);
                    match spec_function_args_from(extended, rest, mw_extensions) {
                        None => {},
                        Some((_, after)) => {
                            lemma_tail_of_tail(after, rest, s);
                        },
                    }
                }
            },
        }
    } else {
        lemma_skip_is_tail(s, 0);
    }
}

} // verus!
