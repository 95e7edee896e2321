//! Special function names: conversion operators, constructors and
//! destructors, operators, and the pseudo-members of a class.

use vstd::prelude::*;
use vstd::string::*;
use vstd::utf8::*;
use crate::grammar::{spec_demangle_arg, spec_demangle_template_args};
use crate::options::DemangleOptions;
use crate::parse::{demangle_arg, demangle_template_args};
use crate::text::{begins_with, same_text, tail};

verus! {

/// The spelling of the operator or pseudo-member that a code names. A code
/// that the table does not hold has none.
pub open spec fn operator_symbol(code: Seq<char>) -> Option<Seq<char>> {
    if code == "nw"@ {
        Some("operator new"@)
    } else if code == "nwa"@ {
        Some("operator new[]"@)
    } else if code == "dl"@ {
        Some("operator delete"@)
    } else if code == "dla"@ {
        Some("operator delete[]"@)
    } else if code == "pl"@ {
        Some("operator+"@)
    } else if code == "mi"@ {
        Some("operator-"@)
    } else if code == "ml"@ {
        Some("operator*"@)
    } else if code == "dv"@ {
        Some("operator/"@)
    } else if code == "md"@ {
        Some("operator%"@)
    } else if code == "er"@ {
        Some("operator^"@)
    } else if code == "ad"@ {
        Some("operator&"@)
    } else if code == "or"@ {
        Some("operator|"@)
    } else if code == "co"@ {
        Some("operator~"@)
    } else if code == "nt"@ {
        Some("operator!"@)
    } else if code == "as"@ {
        Some("operator="@)
    } else if code == "lt"@ {
        Some("operator<"@)
    } else if code == "gt"@ {
        Some("operator>"@)
    } else if code == "apl"@ {
        Some("operator+="@)
    } else if code == "ami"@ {
        Some("operator-="@)
    } else if code == "amu"@ {
        Some("operator*="@)
    } else if code == "adv"@ {
        Some("operator/="@)
    } else if code == "amd"@ {
        Some("operator%="@)
    } else if code == "aer"@ {
        Some("operator^="@)
    } else if code == "aad"@ {
        Some("operator&="@)
    } else if code == "aor"@ {
        Some("operator|="@)
    } else if code == "ls"@ {
        Some("operator<<"@)
    } else if code == "rs"@ {
        Some("operator>>"@)
    } else if code == "ars"@ {
        Some("operator>>="@)
    } else if code == "als"@ {
        Some("operator<<="@)
    } else if code == "eq"@ {
        Some("operator=="@)
    } else if code == "ne"@ {
        Some("operator!="@)
    } else if code == "le"@ {
        Some("operator<="@)
    } else if code == "ge"@ {
        Some("operator>="@)
    } else if code == "aa"@ {
        Some("operator&&"@)
    } else if code == "oo"@ {
        Some("operator||"@)
    } else if code == "pp"@ {
        Some("operator++"@)
    } else if code == "mm"@ {
        Some("operator--"@)
    } else if code == "cm"@ {
        Some("operator,"@)
    } else if code == "rm"@ {
        Some("operator->*"@)
    } else if code == "rf"@ {
        Some("operator->"@)
    } else if code == "cl"@ {
        Some("operator()"@)
    } else if code == "vc"@ {
        Some("operator[]"@)
    } else if code == "vt"@ {
        Some("__vtable"@)
    } else if code == "RTTI"@ {
        Some("__RTTI"@)
    } else {
        None
    }
}

/// What a special function is: its code taken apart.
pub enum SpecialKind {
    /// `op` and a type: the conversion to that type, given by its two parts.
    Conversion { pre: Seq<char>, post: Seq<char> },
    /// `ct`: the constructor, with the template arguments of the code.
    Constructor { args: Seq<char> },
    /// `dt`: the destructor, with the template arguments of the code.
    Destructor { args: Seq<char> },
    /// A code of the table: its spelling, with the template arguments.
    Named { symbol: Seq<char>, args: Seq<char> },
    /// Any other code is kept as it is, with the template arguments.
    Unknown { code: Seq<char>, args: Seq<char> },
}

/// The kind of the special function that the code `s` names. Every code
/// whose parts can be read has a kind: one that the table does not hold is
/// `Unknown`.
pub open spec fn spec_special_kind(s: Seq<char>, mw_extensions: bool) -> Option<SpecialKind> {
    if "op"@.is_prefix_of(s) {
        match spec_demangle_arg(s.skip(2), mw_extensions) {
            None => None,
            Some((pre, post, _)) => Some(SpecialKind::Conversion { pre, post }),
        }
    } else {
        match spec_demangle_template_args(s, mw_extensions) {
            None => None,
            Some((code, args)) => if code == "dt"@ {
                Some(SpecialKind::Destructor { args })
            } else if code == "ct"@ {
                Some(SpecialKind::Constructor { args })
            } else {
                match operator_symbol(code) {
                    Some(symbol) => Some(SpecialKind::Named { symbol, args }),
                    None => Some(SpecialKind::Unknown { code, args }),
                }
            },
        }
    }
}

/// The name of a special function of the class `class_name`, as it is
/// printed.
pub open spec fn special_name(kind: SpecialKind, class_name: Seq<char>) -> Seq<char> {
    match kind {
        SpecialKind::Conversion { pre, post } => "operator "@ + pre + post,
        SpecialKind::Constructor { args } => class_name + args,
        SpecialKind::Destructor { args } => "~"@ + class_name + args,
        SpecialKind::Named { symbol, args } => symbol + args,
        SpecialKind::Unknown { code, args } => "__"@ + code + args,
    }
}

/// The printed name of the special function that the code `s` names in the
/// class `class_name`.
pub open spec fn spec_demangle_special_function(
    s: Seq<char>,
    class_name: Seq<char>,
    mw_extensions: bool,
) -> Option<Seq<char>> {
    match spec_special_kind(s, mw_extensions) {
        None => None,
        Some(kind) => Some(special_name(kind, class_name)),
    }
}

/// The spelling of the operator or pseudo-member that a code names.
fn operator_name(code: &str) -> (r: Option<&'static str>)
    requires
        code.is_ascii(),
    ensures
        match r {
            Some(symbol) => operator_symbol(code@) == Some(symbol@),
            None => operator_symbol(code@) is None,
        },
{
    proof {
        reveal_strlit("nw");
        reveal_strlit("nwa");
        reveal_strlit("dl");
        reveal_strlit("dla");
        reveal_strlit("pl");
        reveal_strlit("mi");
        reveal_strlit("ml");
        reveal_strlit("dv");
        reveal_strlit("md");
        reveal_strlit("er");
        reveal_strlit("ad");
        reveal_strlit("or");
        reveal_strlit("co");
        reveal_strlit("nt");
        reveal_strlit("as");
        reveal_strlit("lt");
        reveal_strlit("gt");
        reveal_strlit("apl");
        reveal_strlit("ami");
        reveal_strlit("amu");
        reveal_strlit("adv");
        reveal_strlit("amd");
        reveal_strlit("aer");
        reveal_strlit("aad");
        reveal_strlit("aor");
        reveal_strlit("ls");
        reveal_strlit("rs");
        reveal_strlit("ars");
        reveal_strlit("als");
        reveal_strlit("eq");
        reveal_strlit("ne");
        reveal_strlit("le");
        reveal_strlit("ge");
        reveal_strlit("aa");
        reveal_strlit("oo");
        reveal_strlit("pp");
        reveal_strlit("mm");
        reveal_strlit("cm");
        reveal_strlit("rm");
        reveal_strlit("rf");
        reveal_strlit("cl");
        reveal_strlit("vc");
        reveal_strlit("vt");
        reveal_strlit("RTTI");
    }
    if same_text(code, "nw") {
        Some("operator new")
    } else if same_text(code, "nwa") {
        Some("operator new[]")
    } else if same_text(code, "dl") {
        Some("operator delete")
    } else if same_text(code, "dla") {
        Some("operator delete[]")
    } else if same_text(code, "pl") {
        Some("operator+")
    } else if same_text(code, "mi") {
        Some("operator-")
    } else if same_text(code, "ml") {
        Some("operator*")
    } else if same_text(code, "dv") {
        Some("operator/")
    } else if same_text(code, "md") {
        Some("operator%")
    } else if same_text(code, "er") {
        Some("operator^")
    } else if same_text(code, "ad") {
        Some("operator&")
    } else if same_text(code, "or") {
        Some("operator|")
    } else if same_text(code, "co") {
        Some("operator~")
    } else if same_text(code, "nt") {
        Some("operator!")
    } else if same_text(code, "as") {
        Some("operator=")
    } else if same_text(code, "lt") {
        Some("operator<")
    } else if same_text(code, "gt") {
        Some("operator>")
    } else if same_text(code, "apl") {
        Some("operator+=")
    } else if same_text(code, "ami") {
        Some("operator-=")
    } else if same_text(code, "amu") {
        Some("operator*=")
    } else if same_text(code, "adv") {
        Some("operator/=")
    } else if same_text(code, "amd") {
        Some("operator%=")
    } else if same_text(code, "aer") {
        Some("operator^=")
    } else if same_text(code, "aad") {
        Some("operator&=")
    } else if same_text(code, "aor") {
        Some("operator|=")
    } else if same_text(code, "ls") {
        Some("operator<<")
    } else if same_text(code, "rs") {
        Some("operator>>")
    } else if same_text(code, "ars") {
        Some("operator>>=")
    } else if same_text(code, "als") {
        Some("operator<<=")
    } else if same_text(code, "eq") {
        Some("operator==")
    } else if same_text(code, "ne") {
        Some("operator!=")
    } else if same_text(code, "le") {
        Some("operator<=")
    } else if same_text(code, "ge") {
        Some("operator>=")
    } else if same_text(code, "aa") {
        Some("operator&&")
    } else if same_text(code, "oo") {
        Some("operator||")
    } else if same_text(code, "pp") {
        Some("operator++")
    } else if same_text(code, "mm") {
        Some("operator--")
    } else if same_text(code, "cm") {
        Some("operator,")
    } else if same_text(code, "rm") {
        Some("operator->*")
    } else if same_text(code, "rf") {
        Some("operator->")
    } else if same_text(code, "cl") {
        Some("operator()")
    } else if same_text(code, "vc") {
        Some("operator[]")
    } else if same_text(code, "vt") {
        Some("__vtable")
    } else if same_text(code, "RTTI") {
        Some("__RTTI")
    } else {
        None
    }
}

/// Resolves the code of a special function to the name that is printed for
/// it in the class `class_name`.
pub fn demangle_special_function(s: &str, class_name: &str, options: &DemangleOptions) -> (r:
    Option<String>)
    requires
        s.is_ascii(),
    ensures
        match r {
            Some(name) => spec_demangle_special_function(
                s@,
                class_name@,
                options.mw_extensions,
            ) == Some(name@),
            None => spec_demangle_special_function(s@, class_name@, options.mw_extensions)
                is None,
        },
{
    proof {
        reveal_strlit("op");
        reveal_strlit("dt");
        reveal_strlit("ct");
    }
    if begins_with(s, "op") {
        let (pre, post, _) = match demangle_arg(tail(s, 2), options) {
            Some(x) => x,
            None => {
                return None;
            },
        };
        let mut out = String::from_str("operator ");
        out.append(pre.as_str());
        out.append(post.as_str());
        return Some(out);
    }
    let (code, args) = match demangle_template_args(s, options) {
        Some(x) => x,
        None => {
            return None;
        },
    };
    if same_text(code, "dt") {
        let mut out = String::from_str("~");
        out.append(class_name);
        out.append(args.as_str());
        Some(out)
    } else if same_text(code, "ct") {
        let mut out = String::from_str(class_name);
        out.append(args.as_str());
        Some(out)
    } else {
        match operator_name(code) {
            Some(symbol) => {
                let mut out = String::from_str(symbol);
                out.append(args.as_str());
                Some(out)
            },
            None => {
                let mut out = String::from_str("__");
                out.append(code);
                out.append(args.as_str());
                Some(out)
            },
        }
    }
}

} // verus!
