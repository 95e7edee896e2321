//! A whole symbol: the markers of static locals, the name of the function,
//! the class it belongs to, its parameters and the type it returns; and the
//! declaration that is printed for it.

use vstd::prelude::*;
use vstd::string::*;
use vstd::utf8::*;
use crate::grammar::{
    lemma_arg_rest, lemma_function_args_rest, lemma_qualified_name_rest, spec_demangle_arg,
    spec_demangle_function_args, spec_demangle_qualified_name, spec_demangle_template_args,
};
use crate::options::DemangleOptions;
use crate::parse::{
    demangle_arg, demangle_function_args, demangle_qualified_name, demangle_template_args,
    fragment_is_ascii, fragment_view,
};
use crate::special::{demangle_special_function, spec_demangle_special_function};
use crate::text::{
    begins_with, begins_with_char, find_char, find_text, first_is, head, index_of_text,
    is_tail_of, lemma_index_of_text, lemma_skip_is_tail, lemma_tail_of_tail, rfind_char,
    same_text, slice, tail, text_len,
};

verus! {

/// What a symbol declares, as text.
pub struct SignatureText {
    /// The returned type, before the name.
    pub return_pre: Seq<char>,
    /// The returned type, after the parameters.
    pub return_post: Seq<char>,
    /// The class or namespace path; empty where the symbol has none.
    pub qualified: Seq<char>,
    /// The name of the function or object.
    pub name: Seq<char>,
    /// The rendered parameter list, where the symbol is a function.
    pub params: Option<Seq<char>>,
    /// Whether the function is a const member.
    pub is_const: bool,
    /// The static local that the symbol stands for, in the function that
    /// the other fields describe; empty where it stands for the function.
    pub static_var: Seq<char>,
}

/// What a symbol declares.
#[derive(Clone, Debug)]
pub struct Signature {
    /// The returned type, before the name.
    pub return_pre: String,
    /// The returned type, after the parameters.
    pub return_post: String,
    /// The class or namespace path; empty where the symbol has none.
    pub qualified: String,
    /// The name of the function or object.
    pub name: String,
    /// The rendered parameter list, where the symbol is a function.
    pub params: Option<String>,
    /// Whether the function is a const member.
    pub is_const: bool,
    /// The static local that the symbol stands for; empty where it stands
    /// for the function itself.
    pub static_var: String,
}

/// The text that an optional string holds.
pub open spec fn text_of(s: Option<String>) -> Option<Seq<char>> {
    match s {
        Some(t) => Some(t@),
        None => None,
    }
}

impl View for Signature {
    type V = SignatureText;

    open spec fn view(&self) -> SignatureText {
        SignatureText {
            return_pre: self.return_pre@,
            return_post: self.return_post@,
            qualified: self.qualified@,
            name: self.name@,
            params: text_of(self.params),
            is_const: self.is_const,
            static_var: self.static_var@,
        }
    }
}

/// What an optional signature declares, as text.
pub open spec fn signature_of(r: Option<Signature>) -> Option<SignatureText> {
    match r {
        Some(signature) => Some(signature@),
        None => None,
    }
}

/// The marker of a static local in front of a symbol: `@LOCAL@` or
/// `@GUARD@`, with the name of the variable after the last `@`. The result
/// is the static local (for a guard, with the word `guard`) and the symbol
/// without marker and variable. A symbol without marker has no static local.
pub open spec fn spec_static_marker(s: Seq<char>) -> Option<(Seq<char>, Seq<char>)> {
    let guard = "@GUARD@"@.is_prefix_of(s);
    if guard || "@LOCAL@"@.is_prefix_of(s) {
        let t = s.skip(7);
        match t.index_of_last('@') {
            None => None,
            Some(at) => {
                let var = t.skip(at + 1);
                Some(
                    (
                        if guard {
                            var + " guard"@
                        } else {
                            var
                        },
                        t.take(at),
                    ),
                )
            },
        }
    } else {
        Some((Seq::empty(), s))
    }
}

/// The token that names the function, and what follows the `__` behind it.
/// The token ends before the first `__`; only where the symbol is special
/// and that token is `init` does the name go on to the next `__`.
pub open spec fn spec_split_name(s: Seq<char>, special: bool) -> Option<(Seq<char>, Seq<char>)> {
    match index_of_text(s, "__"@) {
        None => None,
        Some(at) => if special && s.take(at) == "init"@ {
            match index_of_text(s.skip(at + 2), "__"@) {
                None => None,
                Some(next) => Some((s.take(at + 2 + next), s.skip(at + 2 + next + 2))),
            }
        } else {
            Some((s.take(at), s.skip(at + 2)))
        },
    }
}

/// The older marker of a static local, inside the name of the function:
/// the variable, `$`, a word that begins with `localstatic`, `$`, and the
/// name proper. The result is the static local, if the name holds a `$`,
/// and the name proper. For the variable `init` the static local is the
/// word between the `$`, with `guard`.
pub open spec fn spec_local_static(name: Seq<char>) -> Option<(Option<Seq<char>>, Seq<char>)> {
    match name.index_of_first('$') {
        None => Some((None, name)),
        Some(first) => match name.skip(first + 1).index_of_first('$') {
            None => None,
            Some(second) => {
                let var = name.take(first);
                let kind = name.subrange(first + 1, first + 1 + second);
                if !"localstatic"@.is_prefix_of(kind) {
                    None
                } else {
                    Some(
                        (
                            Some(
                                if var == "init"@ {
                                    kind + " guard"@
                                } else {
                                    var
                                },
                            ),
                            name.skip(first + 1 + second + 1),
                        ),
                    )
                }
            },
        },
    }
}

/// The class of a symbol: the short name, the whole path and the rest.
/// A symbol whose name is followed by `F` at once belongs to no class.
pub open spec fn spec_owner(s: Seq<char>, mw_extensions: bool) -> Option<
    (Seq<char>, Seq<char>, Seq<char>),
> {
    if first_is(s, 'F') {
        Some((Seq::empty(), Seq::empty(), s))
    } else {
        spec_demangle_qualified_name(s, mw_extensions)
    }
}

/// The end of a symbol: `C` for a const member, `F` and the parameters, `_`
/// and the returned type, each of them optional and in this order. The
/// result is the const flag, the parameters, the two parts of the returned
/// type, and the rest.
pub open spec fn spec_signature_tail(s: Seq<char>, mw_extensions: bool) -> Option<
    (bool, Option<Seq<char>>, Seq<char>, Seq<char>, Seq<char>),
> {
    let is_const = first_is(s, 'C');
    let s1 = if is_const {
        s.skip(1)
    } else {
        s
    };
    let listed = if first_is(s1, 'F') {
        match spec_demangle_function_args(s1.skip(1), mw_extensions) {
            None => None,
            Some((args, rest)) => Some((Some(args), rest)),
        }
    } else {
        Some((None, s1))
    };
    match listed {
        None => None,
        Some((params, s2)) => if first_is(s2, '_') {
            match spec_demangle_arg(s2.skip(1), mw_extensions) {
                None => None,
                Some((pre, post, rest)) => Some((is_const, params, pre, post, rest)),
            }
        } else {
            Some((is_const, params, Seq::empty(), Seq::empty(), s2))
        },
    }
}

/// The name of the function, as the symbol writes it: whether the symbol
/// is special (it begins with `__`), the static local that the name holds,
/// the name proper, and what follows the `__` behind the name. The name of a
/// special symbol is a code; any other name may carry template arguments,
/// which are rendered.
pub open spec fn spec_symbol_name(s: Seq<char>, mw_extensions: bool) -> Option<
    (bool, Option<Seq<char>>, Seq<char>, Seq<char>),
> {
    let special = "__"@.is_prefix_of(s);
    let named = spec_split_name(
        if special {
            s.skip(2)
        } else {
            s
        },
        special,
    );
    match named {
        None => None,
        Some((token, rest)) => {
            let written = if special {
                Some((token, Seq::empty()))
            } else {
                spec_demangle_template_args(token, mw_extensions)
            };
            match written {
                None => None,
                Some((name, args)) => match spec_local_static(name + args) {
                    None => None,
                    Some((local, proper)) => Some((special, local, proper, rest)),
                },
            }
        },
    }
}

/// What the symbol `s` declares, read from left to right, and the text that
/// is left when every part has been read.
pub open spec fn spec_read_symbol(s: Seq<char>, mw_extensions: bool) -> Option<
    (SignatureText, Seq<char>),
> {
    match spec_static_marker(s) {
        None => None,
        Some((marked, s1)) => match spec_symbol_name(s1, mw_extensions) {
            None => None,
            Some((special, local, written, s2)) => match spec_owner(s2, mw_extensions) {
                None => None,
                Some((class_name, qualified, s3)) => {
                    let resolved = if special {
                        spec_demangle_special_function(written, class_name, mw_extensions)
                    } else {
                        Some(written)
                    };
                    match (resolved, spec_signature_tail(s3, mw_extensions)) {
                        (Some(name), Some((is_const, params, pre, post, rest))) => Some(
                            (
                                SignatureText {
                                    return_pre: pre,
                                    return_post: post,
                                    qualified,
                                    name,
                                    params,
                                    is_const,
                                    static_var: match local {
                                        Some(var) => var,
                                        None => marked,
                                    },
                                },
                                rest,
                            ),
                        ),
                        _ => None,
                    }
                },
            },
        },
    }
}

/// What the symbol `s` declares. A symbol declares something only if
/// reading it leaves nothing over.
pub open spec fn spec_parse_symbol(s: Seq<char>, mw_extensions: bool) -> Option<SignatureText> {
    match spec_read_symbol(s, mw_extensions) {
        None => None,
        Some((signature, rest)) => if rest.len() == 0 {
            Some(signature)
        } else {
            None
        },
    }
}

/// The name with its parameter list. A list that is just `void` is left
/// empty where `omit_empty_parameters` is set.
pub open spec fn spec_call(name: Seq<char>, params: Option<Seq<char>>, omit_empty_parameters: bool)
    -> Seq<char> {
    match params {
        None => name,
        Some(args) => if omit_empty_parameters && args == "void"@ {
            name + "()"@
        } else {
            name + "("@ + args + ")"@
        },
    }
}

/// The declaration around the name with its parameter list `call`: the
/// const marker behind it, the path in front of it, the returned type
/// around both, and the static local at the end.
pub open spec fn spec_declaration(signature: SignatureText, call: Seq<char>) -> Seq<char> {
    let marked = if signature.is_const {
        call + " const"@
    } else {
        call
    };
    let scoped = if signature.qualified.len() > 0 {
        signature.qualified + "::"@ + marked
    } else {
        marked
    };
    let typed = if signature.return_pre.len() > 0 {
        signature.return_pre + " "@ + scoped + signature.return_post
    } else {
        scoped
    };
    if signature.static_var.len() > 0 {
        typed + "::"@ + signature.static_var
    } else {
        typed
    }
}

/// The declaration that is printed for a signature.
pub open spec fn spec_render(signature: SignatureText, omit_empty_parameters: bool) -> Seq<char> {
    spec_declaration(
        signature,
        spec_call(signature.name, signature.params, omit_empty_parameters),
    )
}

/// The declaration that is printed for the symbol `s`: none where `s` holds
/// a character that is not ASCII, or does not match the grammar to its end.
pub open spec fn spec_demangle(s: Seq<char>, options: DemangleOptions) -> Option<Seq<char>> {
    if !is_ascii_chars(s) {
        None
    } else {
        match spec_parse_symbol(s, options.mw_extensions) {
            None => None,
            Some(signature) => Some(spec_render(signature, options.omit_empty_parameters)),
        }
    }
}

/// The name of the function is read from the front of the symbol, and at
/// least its `__` is read.
pub proof fn lemma_symbol_name_rest(s: Seq<char>, mw_extensions: bool)
    ensures
        match spec_symbol_name(s, mw_extensions) {
            Some((_, _, _, rest)) => is_tail_of(rest, s) && rest.len() < s.len(),
            None => true,
        },
{
    reveal_strlit("__");
    let special = "__"@.is_prefix_of(s);
    let t = if special {
        s.skip(2)
    } else {
        s
    };
    lemma_skip_is_tail(s, 0);
    if special {
        lemma_skip_is_tail(s, 2);
    }
    lemma_index_of_text(t, "__"@);
    match index_of_text(t, "__"@) {
        None => {},
        Some(at) => {
            lemma_skip_is_tail(t, at + 2);
            lemma_tail_of_tail(t.skip(at + 2), t, s);
            if special && t.take(at) == "init"@ {
                let u = t.skip(at + 2);
                lemma_index_of_text(u, "__"@);
                match index_of_text(u, "__"@) {
                    None => {},
                    Some(next) => {
                        lemma_skip_is_tail(u, next + 2);
                        assert(u.skip(next + 2) =~= t.skip(at + 2 + next + 2));
                        lemma_tail_of_tail(u.skip(next + 2), u, s);
                    },
                }
            }
        },
    }
}

/// The end of a symbol is read from left to right.
pub proof fn lemma_signature_tail_rest(s: Seq<char>, mw_extensions: bool)
    ensures
        match spec_signature_tail(s, mw_extensions) {
            Some((_, _, _, _, rest)) => is_tail_of(rest, s),
            None => true,
        },
{
    let is_const = first_is(s, 'C');
    let s1 = if is_const {
        s.skip(1)
    } else {
        s
    };
    lemma_skip_is_tail(s, 0);
    if is_const {
        lemma_skip_is_tail(s, 1);
    }
    let s2 = if first_is(s1, 'F') {
        lemma_skip_is_tail(s1, 1);
        lemma_function_args_rest(Seq::empty(), s1.skip(1), mw_extensions);
        match spec_demangle_function_args(s1.skip(1), mw_extensions) {
            Some((_, rest)) => {
                lemma_tail_of_tail(rest, s1.skip(1), s1);
                rest
            },
            None => s1,
        }
    } else {
        lemma_skip_is_tail(s1, 0);
        s1
    };
    lemma_tail_of_tail(s2, s1, s);
    if first_is(s2, '_') {
        lemma_skip_is_tail(s2, 1);
        lemma_tail_of_tail(s2.skip(1), s2, s);
        lemma_arg_rest(s2.skip(1), mw_extensions);
        match spec_demangle_arg(s2.skip(1), mw_extensions) {
            Some((_, _, rest)) => {
                lemma_tail_of_tail(rest, s2.skip(1), s);
            },
            None => {},
        }
    }
}

/// A symbol is read from left to right: what is left when all its parts
/// have been read is a tail of the symbol without the marker of a static
/// local, and shorter than it.
pub proof fn lemma_read_symbol_rest(s: Seq<char>, mw_extensions: bool)
    ensures
        match spec_read_symbol(s, mw_extensions) {
            Some((_, rest)) => match spec_static_marker(s) {
                Some((_, core)) => is_tail_of(rest, core) && rest.len() < core.len(),
                None => false,
            },
            None => true,
        },
{
    match spec_static_marker(s) {
        None => {},
        Some((marked, s1)) => {
            lemma_symbol_name_rest(s1, mw_extensions);
            match spec_symbol_name(s1, mw_extensions) {
                None => {},
                Some((special, local, written, s2)) => {
                    lemma_skip_is_tail(s2, 0);
                    if !first_is(s2, 'F') {
                        lemma_qualified_name_rest(s2, mw_extensions);
                    }
                    match spec_owner(s2, mw_extensions) {
                        None => {},
                        Some((class_name, qualified, s3)) => {
                            lemma_tail_of_tail(s3, s2, s1);
                            lemma_signature_tail_rest(s3, mw_extensions);
                            match spec_signature_tail(s3, mw_extensions) {
                                None => {},
                                Some((_, _, _, _, rest)) => {
                                    lemma_tail_of_tail(rest, s3, s1);
                                },
                            }
                        },
                    }
                },
            }
        },
    }
}

/// Reads the marker of a static local in front of a symbol.
fn static_marker<'a>(s: &'a str) -> (r: Option<(String, &'a str)>)
    requires
        s.is_ascii(),
    ensures
        match r {
            Some((var, rest)) => spec_static_marker(s@) == Some((var@, rest@)) && rest.is_ascii(),
            None => spec_static_marker(s@) is None,
        },
{
    proof {
        reveal_strlit("@GUARD@");
        reveal_strlit("@LOCAL@");
        reveal_strlit(" guard");
    }
    let guard = begins_with(s, "@GUARD@");
    if !guard && !begins_with(s, "@LOCAL@") {
        return Some((String::new(), s));
    }
    let t = tail(s, 7);
    let at = match rfind_char(t, '@') {
        Some(i) => i,
        None => {
            return None;
        },
    };
    let mut var = String::from_str(tail(t, at + 1));
    if guard {
        var.append(" guard");
    }
    Some((var, head(t, at)))
}

/// Splits the token that names the function from what follows it.
fn split_name<'a>(s: &'a str, special: bool) -> (r: Option<(&'a str, &'a str)>)
    requires
        s.is_ascii(),
    ensures
        match r {
            Some((token, rest)) => spec_split_name(s@, special) == Some((token@, rest@))
                && token.is_ascii() && rest.is_ascii(),
            None => spec_split_name(s@, special) is None,
        },
{
    proof {
        reveal_strlit("__");
        reveal_strlit("init");
    }
    let at = match find_text(s, "__") {
        Some(i) => i,
        None => {
            return None;
        },
    };
    let token = head(s, at);
    if special && same_text(token, "init") {
        let next = match find_text(tail(s, at + 2), "__") {
            Some(i) => i,
            None => {
                return None;
            },
        };
        Some((head(s, at + 2 + next), tail(s, at + 2 + next + 2)))
    } else {
        Some((token, tail(s, at + 2)))
    }
}

/// Reads the older marker of a static local inside the name of a function.
fn local_static(name: &str) -> (r: Option<(Option<String>, String)>)
    requires
        name.is_ascii(),
    ensures
        match r {
            Some((local, proper)) => spec_local_static(name@) == Some((text_of(local), proper@))
                && is_ascii_chars(proper@),
            None => spec_local_static(name@) is None,
        },
{
    proof {
        reveal_strlit("localstatic");
        reveal_strlit("init");
        reveal_strlit(" guard");
    }
    let first = match find_char(name, '$') {
        Some(i) => i,
        None => {
            return Some((None, String::from_str(name)));
        },
    };
    let second = match find_char(tail(name, first + 1), '$') {
        Some(i) => i,
        None => {
            return None;
        },
    };
    let var = head(name, first);
    let kind = slice(name, first + 1, first + 1 + second);
    if !begins_with(kind, "localstatic") {
        return None;
    }
    let local = if same_text(var, "init") {
        let mut word = String::from_str(kind);
        word.append(" guard");
        word
    } else {
        String::from_str(var)
    };
    Some((Some(local), String::from_str(tail(name, first + 1 + second + 1))))
}

/// Reads the end of a symbol: the const marker, the parameters and the
/// returned type.
fn signature_tail<'a>(s: &'a str, options: &DemangleOptions) -> (r: Option<
    (bool, Option<String>, String, String, &'a str),
>)
    requires
        s.is_ascii(),
    ensures
        match r {
            Some((is_const, params, pre, post, rest)) => spec_signature_tail(
                s@,
                options.mw_extensions,
            ) == Some((is_const, text_of(params), pre@, post@, rest@)) && rest.is_ascii(),
            None => spec_signature_tail(s@, options.mw_extensions) is None,
        },
{
    let is_const = begins_with_char(s, 'C');
    let s1 = if is_const {
        tail(s, 1)
    } else {
        s
    };
    let (params, s2) = if begins_with_char(s1, 'F') {
        match demangle_function_args(tail(s1, 1), options) {
            Some((args, rest)) => (Some(args), rest),
            None => {
                return None;
            },
        }
    } else {
        (None, s1)
    };
    if begins_with_char(s2, '_') {
        match demangle_arg(tail(s2, 1), options) {
            Some((pre, post, rest)) => Some((is_const, params, pre, post, rest)),
            None => None,
        }
    } else {
        Some((is_const, params, String::new(), String::new(), s2))
    }
}

/// Reads the name of the function as the symbol writes it.
fn symbol_name<'a>(s: &'a str, options: &DemangleOptions) -> (r: Option<
    (bool, Option<String>, String, &'a str),
>)
    requires
        s.is_ascii(),
    ensures
        match r {
            Some((special, local, proper, rest)) => spec_symbol_name(s@, options.mw_extensions)
                == Some((special, text_of(local), proper@, rest@)) && is_ascii_chars(proper@)
                && rest.is_ascii(),
            None => spec_symbol_name(s@, options.mw_extensions) is None,
        },
{
    proof {
        reveal_strlit("__");
    }
    let special = begins_with(s, "__");
    let named = if special {
        split_name(tail(s, 2), special)
    } else {
        split_name(s, special)
    };
    let (token, rest) = match named {
        Some(x) => x,
        None => {
            return None;
        },
    };
    let mut written = String::from_str(token);
    if !special {
        match demangle_template_args(token, options) {
            Some((name, args)) => {
                written = String::from_str(name);
                written.append(args.as_str());
            },
            None => {
                return None;
            },
        }
    } else {
        assert(token@ + Seq::<char>::empty() =~= token@);
    }
    match local_static(written.as_str()) {
        Some((local, proper)) => Some((special, local, proper, rest)),
        None => None,
    }
}

/// Reads the class of a symbol.
fn owner<'a>(s: &'a str, options: &DemangleOptions) -> (r: Option<(String, String, &'a str)>)
    requires
        s.is_ascii(),
    ensures
        fragment_view(r) == spec_owner(s@, options.mw_extensions),
        fragment_is_ascii(r),
{
    if begins_with_char(s, 'F') {
        Some((String::new(), String::new(), s))
    } else {
        demangle_qualified_name(s, options)
    }
}

/// Reads what an ASCII symbol declares.
pub fn parse_symbol(s: &str, options: &DemangleOptions) -> (r: Option<Signature>)
    requires
        s.is_ascii(),
    ensures
        signature_of(r) == spec_parse_symbol(s@, options.mw_extensions),
{
    let (marked, s1) = match static_marker(s) {
        Some(x) => x,
        None => {
            return None;
        },
    };
    let (special, local, written, s2) = match symbol_name(s1, options) {
        Some(x) => x,
        None => {
            return None;
        },
    };
    let (class_name, qualified, s3) = match owner(s2, options) {
        Some(x) => x,
        None => {
            return None;
        },
    };
    let name = if special {
        match demangle_special_function(written.as_str(), class_name.as_str(), options) {
            Some(x) => x,
            None => {
                return None;
            },
        }
    } else {
        written
    };
    let (is_const, params, return_pre, return_post, rest) = match signature_tail(s3, options) {
        Some(x) => x,
        None => {
            return None;
        },
    };
    if text_len(rest) != 0 {
        return None;
    }
    let static_var = match local {
        Some(var) => var,
        None => marked,
    };
    Some(Signature { return_pre, return_post, qualified, name, params, is_const, static_var })
}

/// Whether the text is the word `void`.
fn is_void(args: &String) -> (r: bool)
    ensures
        r == (args@ == "void"@),
{
    let word = String::from_str("void");
    *args == word
}

/// Renders the declaration of a signature.
pub fn render(signature: &Signature, omit_empty_parameters: bool) -> (r: String)
    ensures
        r@ == spec_render(signature@, omit_empty_parameters),
{
    proof {
        reveal_strlit("()");
        reveal_strlit("(");
        reveal_strlit(")");
        reveal_strlit(" const");
        reveal_strlit("::");
        reveal_strlit(" ");
    }
    let mut call = signature.name.clone();
    match &signature.params {
        None => {},
        Some(args) => {
            if omit_empty_parameters && is_void(args) {
                call.append("()");
            } else {
                call.append("(");
                call.append(args.as_str());
                call.append(")");
            }
        },
    }
    assert(call@ == spec_call(signature@.name, signature@.params, omit_empty_parameters));
    if signature.is_const {
        call.append(" const");
    }
    let scoped = if !signature.qualified.as_str().is_empty() {
        let mut path = signature.qualified.clone();
        path.append("::");
        path.append(call.as_str());
        path
    } else {
        call
    };
    let typed = if !signature.return_pre.as_str().is_empty() {
        let mut whole = signature.return_pre.clone();
        whole.append(" ");
        whole.append(scoped.as_str());
        whole.append(signature.return_post.as_str());
        whole
    } else {
        scoped
    };
    if !signature.static_var.as_str().is_empty() {
        let mut whole = typed;
        whole.append("::");
        whole.append(signature.static_var.as_str());
        whole
    } else {
        typed
    }
}

/// Decodes a mangled symbol into the declaration it stands for.
///
/// The result is the whole declaration, or nothing: a symbol that holds a
/// character outside ASCII, or that does not match the grammar up to its
/// last character, is not decoded.
pub fn demangle(s: &str, options: &DemangleOptions) -> (r: Option<String>)
    ensures
        text_of(r) == spec_demangle(s@, *options),
        !is_ascii_chars(s@) ==> r is None,
{
    if !s.is_ascii() {
        return None;
    }
    match parse_symbol(s, options) {
        Some(signature) => Some(render(&signature, options.omit_empty_parameters)),
        None => None,
    }
}

} // verus!
