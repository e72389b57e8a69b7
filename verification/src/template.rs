//! Interpolation templates: splitting resolved text on `{{name}}`
//! placeholders and building the immediately-invoked wrapper expression.

use vstd::prelude::*;
use vstd::string::*;
use crate::ast::{
    Arg, ArrowBody, Expr, TplPart, VArg, VArrowBody, VExpr, VTplPart, view_arg, view_args,
    view_expr, view_strings, view_tpl_parts,
};

verus! {

/// First position `j` at or after `i` where `c` occurs twice in a row.
pub open spec fn find_pair(s: Seq<char>, c: char, i: int) -> Option<int>
    decreases s.len() - i,
{
    if i < 0 || i + 1 >= s.len() {
        None
    } else if s[i] == c && s[i + 1] == c {
        Some(i)
    } else {
        find_pair(s, c, i + 1)
    }
}

pub proof fn lemma_find_pair_some(s: Seq<char>, c: char, j: int, i: int)
    requires
        find_pair(s, c, j) == Some(i),
    ensures
        j <= i,
        i + 1 < s.len(),
        s[i] == c && s[i + 1] == c,
    decreases s.len() - j,
{
    if 0 <= j && j + 1 < s.len() && !(s[j] == c && s[j + 1] == c) {
        lemma_find_pair_some(s, c, j + 1, i);
    }
}

/// The template parts denoted by a resolved text: literal runs alternating
/// with interpolation slots, one slot per `{{name}}` placeholder, in order.
/// `None` when an opened placeholder is never closed.
pub open spec fn spec_split_placeholders(s: Seq<char>) -> Option<Seq<VTplPart>>
    decreases s.len(),
    via spec_split_placeholders_dec
{
    match find_pair(s, '{', 0) {
        None => Some(seq![VTplPart::Text(s)]),
        Some(j) => match find_pair(s, '}', j + 2) {
            None => None,
            Some(k) => match spec_split_placeholders(s.skip(k + 2)) {
                None => None,
                Some(rest) => Some(
                    seq![
                        VTplPart::Text(s.take(j)),
                        VTplPart::Slot(s.subrange(j + 2, k)),
                    ] + rest,
                ),
            },
        },
    }
}

#[via_fn]
proof fn spec_split_placeholders_dec(s: Seq<char>) {
    if let Some(j) = find_pair(s, '{', 0) {
        lemma_find_pair_some(s, '{', 0, j);
        if let Some(k) = find_pair(s, '}', j + 2) {
            lemma_find_pair_some(s, '}', j + 2, k);
        }
    }
}

/// First position at or after `start` where `c` occurs twice in a row.
pub fn find_double_from(s: &str, c: char, start: usize) -> (r: Option<usize>)
    ensures
        r matches Some(i) ==> find_pair(s@, c, start as int) == Some(i as int),
        r is None ==> find_pair(s@, c, start as int) is None,
{
    let n = s.unicode_len();
    let mut i: usize = start;
    if n == 0 {
        return None;
    }
    while i < n - 1
        invariant
            n == s@.len(),
            n >= 1,
            find_pair(s@, c, start as int) == find_pair(s@, c, i as int),
        decreases n - i,
    {
        if s.get_char(i) == c && s.get_char(i + 1) == c {
            return Some(i);
        }
        i = i + 1;
    }
    None
}

/// Splits a resolved text into template parts, one slot per `{{name}}`
/// placeholder; fails when a placeholder is opened and never closed.
pub fn split_placeholders(s: &str) -> (r: Result<Vec<TplPart>, ()>)
    ensures
        r matches Ok(parts) ==> Some(view_tpl_parts(parts@)) == spec_split_placeholders(s@),
        (r is Err) <==> spec_split_placeholders(s@) is None,
    decreases s@.len(),
{
    let n = s.unicode_len();
    match find_double_from(s, '{', 0) {
        None => {
            let mut v: Vec<TplPart> = Vec::new();
            v.push(TplPart::Text(s.to_owned()));
            proof {
                assert(view_tpl_parts(v@) =~= seq![VTplPart::Text(s@)]);
            }
            Ok(v)
        },
        Some(j) => {
            proof {
                lemma_find_pair_some(s@, '{', 0, j as int);
            }
            match find_double_from(s, '}', j + 2) {
                None => Err(()),
                Some(k) => {
                    proof {
                        lemma_find_pair_some(s@, '}', j as int + 2, k as int);
                    }
                    let pre = s.substring_char(0, j).to_owned();
                    let name = s.substring_char(j + 2, k).to_owned();
                    let rest = s.substring_char(k + 2, n);
                    match split_placeholders(rest) {
                        Err(()) => Err(()),
                        Ok(mut parts) => {
                            let ghost old_parts = parts@;
                            parts.insert(0, TplPart::Slot(name));
                            parts.insert(0, TplPart::Text(pre));
                            proof {
                                assert(view_tpl_parts(parts@) =~= seq![
                                    VTplPart::Text(s@.take(j as int)),
                                    VTplPart::Slot(s@.subrange(j as int + 2, k as int)),
                                ] + view_tpl_parts(old_parts));
                            }
                            Ok(parts)
                        },
                    }
                },
            }
        },
    }
}

/// The immediately-invoked one-parameter wrapper that evaluates a resolved
/// template against the call's original second argument.
pub open spec fn spec_interpolation_call(parts: Seq<VTplPart>, arg: VArg) -> VExpr {
    VExpr::Call(
        Box::new(VExpr::Arrow(seq!["v"@], Box::new(VArrowBody::Expr(VExpr::Tpl(parts))))),
        seq![arg],
    )
}

/// Builds the wrapper invocation, handing the original second argument
/// through verbatim.
pub fn make_interpolation_call(parts: Vec<TplPart>, arg: Arg) -> (r: Expr)
    ensures
        view_expr(r) == spec_interpolation_call(view_tpl_parts(parts@), view_arg(arg)),
{
    let ghost varg = view_arg(arg);
    let mut params: Vec<String> = Vec::new();
    params.push(String::from_str("v"));
    let mut args: Vec<Arg> = Vec::new();
    args.push(arg);
    proof {
        reveal_with_fuel(view_expr, 4);
        assert(view_strings(params@) =~= seq!["v"@]);
        assert(args@.drop_first() =~= Seq::<Arg>::empty());
        assert(view_args(args@.drop_first()) =~= Seq::<VArg>::empty());
        assert(view_args(args@) =~= seq![varg]);
    }
    Expr::Call(Box::new(Expr::Arrow(params, Box::new(ArrowBody::Expr(Expr::Tpl(parts))))), args)
}

} // verus!
