//! What holds of every symbol and every choice of options.

use vstd::prelude::*;
use vstd::string::*;
use vstd::utf8::*;
use crate::grammar::{spec_demangle_arg, spec_demangle_template_args, spec_template_arg_list};
use crate::options::DemangleOptions;
use crate::symbol::{
    lemma_read_symbol_rest, spec_call, spec_declaration, spec_demangle, spec_parse_symbol,
    spec_read_symbol, spec_static_marker,
};
use crate::text::is_tail_of;

verus! {

/// The options with the given values.
pub open spec fn options_with(omit_empty_parameters: bool, mw_extensions: bool)
    -> DemangleOptions {
    DemangleOptions { omit_empty_parameters, mw_extensions }
}

/// Decoding depends on nothing but the characters of the symbol and the
/// values of the two options: whenever these agree, the results agree.
pub proof fn law_deterministic(s: Seq<char>, t: Seq<char>, a: DemangleOptions, b: DemangleOptions)
    requires
        s =~= t,
        a.omit_empty_parameters == b.omit_empty_parameters,
        a.mw_extensions == b.mw_extensions,
    ensures
        spec_demangle(s, a) == spec_demangle(t, b),
{
}

/// A symbol that holds a character outside ASCII is never decoded.
pub proof fn law_ascii_gate(s: Seq<char>, options: DemangleOptions, i: int)
    requires
        0 <= i < s.len(),
        s[i] > '\u{7f}',
    ensures
        spec_demangle(s, options) is None,
{
}

/// The two ways to write a name with its parameter list differ only for
/// the list `void`.
pub proof fn lemma_call_with_and_without_void(name: Seq<char>, params: Option<Seq<char>>)
    ensures
        params == Some("void"@) ==> spec_call(name, params, true) == name + "()"@ && spec_call(
            name,
            params,
            false,
        ) == name + "(void)"@,
        params != Some("void"@) ==> spec_call(name, params, true) == spec_call(
            name,
            params,
            false,
        ),
{
    reveal_strlit("(");
    reveal_strlit(")");
    reveal_strlit("void");
    reveal_strlit("(void)");
    if params == Some("void"@) {
        assert(name + "("@ + "void"@ + ")"@ =~= name + "(void)"@);
    }
}

/// `omit_empty_parameters` decides nothing but how an empty parameter list
/// is written. Whether a symbol is decoded does not depend on it. Where the
/// parameter list of the symbol is not just `void`, the two declarations are
/// the same. Where it is, they are the same declaration around `name()` and
/// around `name(void)`.
pub proof fn law_omit_changes_only_empty_lists(s: Seq<char>, mw_extensions: bool)
    ensures
        spec_demangle(s, options_with(true, mw_extensions)) is Some <==> spec_demangle(
            s,
            options_with(false, mw_extensions),
        ) is Some,
        spec_demangle(s, options_with(true, mw_extensions)) is Some ==> ({
            let signature = spec_parse_symbol(s, mw_extensions)->0;
            let omitted = spec_demangle(s, options_with(true, mw_extensions))->0;
            let kept = spec_demangle(s, options_with(false, mw_extensions))->0;
            if signature.params == Some("void"@) {
                &&& omitted == spec_declaration(signature, signature.name + "()"@)
                &&& kept == spec_declaration(signature, signature.name + "(void)"@)
            } else {
                omitted == kept
            }
        }),
{
    match spec_parse_symbol(s, mw_extensions) {
        Some(signature) => {
            lemma_call_with_and_without_void(signature.name, signature.params);
        },
        None => {},
    }
}

/// The symbol without the marker of a static local and without the name
/// of the static local; the whole symbol where it has no marker.
pub open spec fn symbol_core(s: Seq<char>) -> Seq<char> {
    match spec_static_marker(s) {
        Some((_, core)) => core,
        None => s,
    }
}

/// A symbol is decoded only if it is read to its end. The symbol, without
/// the marker of a static local, is read from left to right; what is left
/// of it when name, class, parameters and returned type have been read is
/// one of its tails. Where the symbol is decoded, that tail is empty; where
/// anything is left, the symbol is not decoded.
pub proof fn law_total_consumption(s: Seq<char>, options: DemangleOptions)
    ensures
        match spec_read_symbol(s, options.mw_extensions) {
            Some((signature, rest)) => {
                &&& is_tail_of(rest, symbol_core(s))
                &&& spec_demangle(s, options) is Some ==> rest.len() == 0
                &&& rest.len() > 0 ==> spec_demangle(s, options) is None
            },
            None => spec_demangle(s, options) is None,
        },
{
    lemma_read_symbol_rest(s, options.mw_extensions);
}

/// The rendered template arguments of the identifier `s`, brackets
/// included; empty where `s` has none.
pub open spec fn rendered_list(s: Seq<char>, mw_extensions: bool) -> Seq<char> {
    match spec_demangle_template_args(s, mw_extensions) {
        Some((_, list)) => list,
        None => Seq::empty(),
    }
}

/// The template arguments that the text `s` lists, each one rendered. A
/// separator at the very end of `s` is followed by an empty argument.
pub open spec fn template_arg_items(s: Seq<char>, mw_extensions: bool) -> Option<Seq<Seq<char>>>
    decreases s.len(),
{
    if s.len() == 0 {
        Some(Seq::empty())
    } else {
        match spec_demangle_arg(s, mw_extensions) {
            None => None,
            Some((pre, post, rest)) => if rest.len() == 0 {
                Some(seq![pre + post])
            } else if rest.len() > s.len() {
                None
            } else if rest.len() == 1 {
                Some(seq![pre + post, Seq::empty()])
            } else {
                match template_arg_items(rest.skip(1), mw_extensions) {
                    None => None,
                    Some(more) => Some(seq![pre + post] + more),
                }
            },
        }
    }
}

/// The texts of `items`, with a comma and a blank between each two of them.
pub open spec fn joined(items: Seq<Seq<char>>) -> Seq<char>
    decreases items.len(),
{
    if items.len() == 0 {
        Seq::empty()
    } else if items.len() == 1 {
        items[0]
    } else {
        items[0] + ", "@ + joined(items.skip(1))
    }
}

/// A text that is not empty lists at least one argument.
pub proof fn lemma_items_of_text(s: Seq<char>, mw_extensions: bool)
    requires
        s.len() > 0,
    ensures
        match template_arg_items(s, mw_extensions) {
            Some(items) => items.len() > 0,
            None => true,
        },
{
}

/// The rendered list is the rendered arguments, joined.
pub proof fn lemma_list_is_joined(s: Seq<char>, mw_extensions: bool)
    ensures
        spec_template_arg_list(s, mw_extensions) == match template_arg_items(s, mw_extensions) {
            Some(items) => Some(joined(items)),
            None => None,
        },
    decreases s.len(),
{
    if s.len() > 0 {
        match spec_demangle_arg(s, mw_extensions) {
            None => {},
            Some((pre, post, rest)) => {
                let item = pre + post;
                if rest.len() == 0 {
                } else if rest.len() > s.len() {
                } else if rest.len() == 1 {
                    let items = seq![item, Seq::<char>::empty()];
                    assert(items.skip(1) =~= seq![Seq::<char>::empty()]);
                    assert(joined(items.skip(1)) == Seq::<char>::empty());
                    assert(rest.skip(1).len() == 0);
                    assert(spec_template_arg_list(rest.skip(1), mw_extensions) == Some(
                        Seq::<char>::empty(),
                    ));
                } else {
                    let t = rest.skip(1);
                    lemma_list_is_joined(t, mw_extensions);
                    lemma_items_of_text(t, mw_extensions);
                    match template_arg_items(t, mw_extensions) {
                        None => {},
                        Some(more) => {
                            let items = seq![item] + more;
                            assert(items.skip(1) =~= more);
                            assert(items[0] == item);
                        },
                    }
                }
            },
        }
    }
}

/// A joined text ends as its last item ends.
pub proof fn lemma_joined_ends_with_last(items: Seq<Seq<char>>)
    requires
        items.len() > 0,
        items.last().len() > 0,
    ensures
        joined(items).len() > 0,
        joined(items).last() == items.last().last(),
    decreases items.len(),
{
    if items.len() > 1 {
        let more = items.skip(1);
        assert(more.last() == items.last());
        lemma_joined_ends_with_last(more);
    }
}

/// A rendered list of template arguments is `<`, the rendered arguments
/// with a comma and a blank between each two, and `>`. Nothing stands
/// between the last argument and the closing bracket: where the last
/// argument ends with `>`, as a name with template arguments of its own
/// does, the list ends with `>>`.
pub proof fn law_closing_brackets_adjacent(s: Seq<char>, mw_extensions: bool)
    requires
        spec_demangle_template_args(s, mw_extensions) is Some,
        rendered_list(s, mw_extensions).len() > 0,
    ensures
        ({
            let list = rendered_list(s, mw_extensions);
            let start = s.index_of_first('<')->0;
            let end = s.index_of_last('>')->0;
            let items = template_arg_items(s.subrange(start + 1, end), mw_extensions);
            &&& items is Some
            &&& list == "<"@ + joined(items->0) + ">"@
            &&& list.first() == '<'
            &&& list.last() == '>'
            &&& items->0.len() > 0 && items->0.last().len() > 0 && items->0.last().last() == '>'
                ==> list.len() >= 3 && list[list.len() - 2] == '>'
        }),
{
    reveal_strlit("<");
    reveal_strlit(">");
    let start = s.index_of_first('<')->0;
    let end = s.index_of_last('>')->0;
    let inner = s.subrange(start + 1, end);
    lemma_list_is_joined(inner, mw_extensions);
    let items = template_arg_items(inner, mw_extensions);
    if items is Some && items->0.len() > 0 && items->0.last().len() > 0 {
        lemma_joined_ends_with_last(items->0);
    }
}

} // verus!
