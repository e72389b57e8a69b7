//! The rewrite engine: one depth-first pass over the module tree that
//! tracks translation scopes, rewrites the recognized call shapes, splices
//! mixed-content markup, and sweeps dead declarations out of statement
//! lists.
//!
//! Every step is mirrored by a specification function over the tree views;
//! the executable traversal is proved equal to that mirror.

use vstd::prelude::*;
use vstd::string::*;
use crate::ast::{
    Arg, ArrowBody, Declarator, Expr, JsxAttr, JsxAttrValue, JsxChild, JsxElement, ModuleItem,
    Prop, Span, Stmt, StrLit, VArg, VArrowBody, VDeclarator, VExpr, VJsxAttr, VJsxAttrValue,
    VJsxChild, VJsxElement, VModuleItem, VProp, VStmt, VStrLit, VVarDecl, VarDeclStmt, copy_arg,
    copy_expr, copy_jsx_element, lemma_view_args_index, lemma_view_attrs_index,
    lemma_view_children_index, lemma_view_decls_index, lemma_view_items_index,
    lemma_view_opt_args_index, lemma_view_props_index, lemma_view_stmts_index, view_arg,
    view_opt_args,
    view_args, view_arrow_body, view_attr, view_attrs, view_children, view_declarator,
    view_decls, view_expr, view_item, view_items, view_jsx_child, view_jsx_element, view_prop,
    view_props, view_stmt, view_stmts, view_strings,
};
use crate::cache::{Cache, CacheView};
use crate::markup::{spec_splice, splice_markup, view_cmap};
use crate::resolve::{resolve, spec_resolve};
use crate::template::{
    make_interpolation_call, spec_interpolation_call, spec_split_placeholders, split_placeholders,
};

verus! {

/// What a diagnostic reports.
#[derive(Clone, Copy, PartialEq, Eq, Structural, Debug)]
pub enum DiagKind {
    ResourceLoad,
    KeyNotFound,
    MalformedTemplate,
    Unsupported,
}

/// A location-tagged diagnostic for the host channel.
#[derive(Debug)]
pub struct Diag {
    pub kind: DiagKind,
    pub span: Span,
    pub detail: String,
}

pub struct VDiag {
    pub kind: DiagKind,
    pub span: Span,
    pub detail: Seq<char>,
}

pub open spec fn view_diag(d: Diag) -> VDiag {
    VDiag { kind: d.kind, span: d.span, detail: d.detail@ }
}

pub open spec fn view_diags(s: Seq<Diag>) -> Seq<VDiag> {
    s.map_values(|d: Diag| view_diag(d))
}

/// The traversal state threaded through the rewrite: the active scope stack
/// and the diagnostics reported so far.
pub struct VSt {
    pub scopes: Seq<Seq<char>>,
    pub diags: Seq<VDiag>,
}

pub open spec fn vst_of(scopes: Seq<String>, diags: Seq<Diag>) -> VSt {
    VSt { scopes: view_strings(scopes), diags: view_diags(diags) }
}

/// The recorded load failure for a namespace, if its resource file could not
/// be read or parsed; the entry recorded last wins.
pub open spec fn err_lookup(s: Seq<(String, String)>, k: Seq<char>) -> Option<Seq<char>>
    decreases s.len(),
{
    if s.len() == 0 {
        None
    } else if s.last().0@ == k {
        Some(s.last().1@)
    } else {
        err_lookup(s.drop_last(), k)
    }
}

// ---------------------------------------------------------------------------
// The rewrite, specified over views
// ---------------------------------------------------------------------------

pub open spec fn key_not_found_diag(lit: VStrLit) -> VDiag {
    VDiag { kind: DiagKind::KeyNotFound, span: lit.span, detail: lit.value }
}

pub open spec fn malformed_diag(span: Span, value: Seq<char>) -> VDiag {
    VDiag { kind: DiagKind::MalformedTemplate, span, detail: value }
}

/// Whether a dependency-array entry is a bare reference to the translate
/// binding.
pub open spec fn is_t_ref(o: Option<VArg>) -> bool {
    o matches Some(a) && a.expr == VExpr::Ident("t"@)
}

/// Dependency-array scrubbing: every bare reference to the translate binding
/// removed, everything else kept in order.
pub open spec fn spec_scrub(elems: Seq<Option<VArg>>) -> Seq<Option<VArg>> {
    elems.filter(|o: Option<VArg>| !is_t_ref(o))
}

pub open spec fn is_deps_name(name: Seq<char>) -> bool {
    name == "useEffect"@ || name == "useCallback"@ || name == "useMemo"@
}

/// One namespace argument of the translation hook: on a recorded load
/// failure, a diagnostic at the literal; otherwise the namespace joins the
/// scope stack.
pub open spec fn spec_scope_arg(lit: VStrLit, errs: Seq<(String, String)>, st: VSt) -> VSt {
    match err_lookup(errs, lit.value) {
        Some(msg) => VSt {
            scopes: st.scopes,
            diags: st.diags.push(
                VDiag { kind: DiagKind::ResourceLoad, span: lit.span, detail: msg },
            ),
        },
        None => VSt { scopes: st.scopes.push(lit.value), diags: st.diags },
    }
}

pub open spec fn spec_scope_elems(
    elems: Seq<Option<VArg>>,
    errs: Seq<(String, String)>,
    st: VSt,
) -> VSt
    decreases elems.len(),
{
    if elems.len() == 0 {
        st
    } else {
        let st1 = match elems[0] {
            Some(a) => match a.expr {
                VExpr::Str(lit) => spec_scope_arg(lit, errs, st),
                _ => st,
            },
            None => st,
        };
        spec_scope_elems(elems.drop_first(), errs, st1)
    }
}

/// A matched translation-hook call resets the scope stack and repopulates it
/// from the call's first argument: one string, or each string of an array
/// literal.
pub open spec fn spec_hook_args(args: Seq<VArg>, errs: Seq<(String, String)>, st: VSt) -> VSt {
    let st0 = VSt { scopes: Seq::empty(), diags: st.diags };
    if args.len() == 0 {
        st0
    } else {
        match args[0].expr {
            VExpr::Array(elems) => spec_scope_elems(elems, errs, st0),
            VExpr::Str(lit) => spec_scope_arg(lit, errs, st0),
            _ => st0,
        }
    }
}

pub open spec fn is_hook_call(e: VExpr) -> bool {
    e matches VExpr::Call(callee, _) && *callee matches VExpr::Ident(name) && name
        == "useTranslation"@
}

pub open spec fn hook_init(d: VVarDecl) -> Option<VExpr> {
    if d.decls.len() > 0 {
        d.decls[0].init
    } else {
        None
    }
}

pub open spec fn is_hook_decl(d: VVarDecl) -> bool {
    hook_init(d) matches Some(e) && is_hook_call(e)
}

/// The first `i18nKey` attribute carrying a string literal, at or after `i`.
pub open spec fn find_i18nkey_from(attrs: Seq<VJsxAttr>, i: int) -> Option<VStrLit>
    decreases attrs.len() - i,
{
    if i < 0 || i >= attrs.len() {
        None
    } else {
        match attrs[i] {
            VJsxAttr::Named(n, VJsxAttrValue::Str(lit)) => if n == "i18nKey"@ {
                Some(lit)
            } else {
                find_i18nkey_from(attrs, i + 1)
            },
            _ => find_i18nkey_from(attrs, i + 1),
        }
    }
}

/// The component-map entries of an inline object literal: each property
/// mapping a name to a markup element, one layer of parenthesization
/// unwrapped.
pub open spec fn spec_capture(props: Seq<VProp>) -> Seq<(Seq<char>, VJsxElement)>
    decreases props.len(),
{
    if props.len() == 0 {
        Seq::empty()
    } else {
        let rest = spec_capture(props.drop_last());
        match props.last() {
            VProp::KeyValue(k, e) => match e {
                VExpr::Jsx(el) => rest.push((k, *el)),
                VExpr::Paren(inner) => match *inner {
                    VExpr::Jsx(el) => rest.push((k, *el)),
                    _ => rest,
                },
                _ => rest,
            },
            _ => rest,
        }
    }
}

/// All component-map entries captured from a node's attributes, in order.
pub open spec fn spec_capture_attrs(attrs: Seq<VJsxAttr>) -> Seq<(Seq<char>, VJsxElement)>
    decreases attrs.len(),
{
    if attrs.len() == 0 {
        Seq::empty()
    } else {
        let rest = spec_capture_attrs(attrs.drop_last());
        match attrs.last() {
            VJsxAttr::Named(n, VJsxAttrValue::Expr(VExpr::Object(props))) => if n == "components"@ {
                rest + spec_capture(props)
            } else {
                rest
            },
            _ => rest,
        }
    }
}

pub open spec fn spec_tr_expr(
    e: VExpr,
    cv: CacheView,
    errs: Seq<(String, String)>,
    cmap: Seq<(Seq<char>, VJsxElement)>,
    st: VSt,
) -> (VExpr, VSt)
    decreases e,
{
    match e {
        VExpr::Call(callee, args) => {
            if *callee is Ident {
                let name = callee->Ident_0;
                if is_deps_name(name) && args.len() > 1 && args[1].expr is Array {
                    let (args3, st1) = spec_tr_args(args, cv, errs, cmap, st);
                    let out_args = if args3.len() > 1 && args3[1].expr is Array {
                        args3.update(
                            1,
                            VArg {
                                spread: args3[1].spread,
                                expr: VExpr::Array(spec_scrub(args3[1].expr->Array_0)),
                            },
                        )
                    } else {
                        args3
                    };
                    (VExpr::Call(Box::new(VExpr::Ident(name)), out_args), st1)
                } else if name == "t"@ && args.len() == 1 && args[0].expr is Str {
                    let lit = args[0].expr->Str_0;
                    match spec_resolve(cv, st.scopes, lit.value) {
                        None => (
                            e,
                            VSt { scopes: st.scopes, diags: st.diags.push(key_not_found_diag(lit)) },
                        ),
                        Some(value) => match spec_splice(value, cmap) {
                            None => (
                                e,
                                VSt {
                                    scopes: st.scopes,
                                    diags: st.diags.push(malformed_diag(lit.span, value)),
                                },
                            ),
                            Some(out) => (out, st),
                        },
                    }
                } else if name == "t"@ && args.len() >= 2 && args[0].expr is Str {
                    let lit = args[0].expr->Str_0;
                    match spec_resolve(cv, st.scopes, lit.value) {
                        None => (
                            e,
                            VSt { scopes: st.scopes, diags: st.diags.push(key_not_found_diag(lit)) },
                        ),
                        Some(value) => {
                            if args[1].expr is Ident || args[1].expr is Object {
                                match spec_split_placeholders(value) {
                                    None => (
                                        e,
                                        VSt {
                                            scopes: st.scopes,
                                            diags: st.diags.push(malformed_diag(lit.span, value)),
                                        },
                                    ),
                                    Some(parts) => {
                                        let (second, st1) = spec_tr_expr(
                                            args[1].expr,
                                            cv,
                                            errs,
                                            cmap,
                                            st,
                                        );
                                        (
                                            spec_interpolation_call(
                                                parts,
                                                VArg { spread: false, expr: second },
                                            ),
                                            st1,
                                        )
                                    },
                                }
                            } else {
                                (e, st)
                            }
                        },
                    }
                } else {
                    let (args2, st1) = spec_tr_args(args, cv, errs, cmap, st);
                    (VExpr::Call(callee, args2), st1)
                }
            } else {
                let (c2, st1) = spec_tr_expr(*callee, cv, errs, cmap, st);
                let (args2, st2) = spec_tr_args(args, cv, errs, cmap, st1);
                (VExpr::Call(Box::new(c2), args2), st2)
            }
        },
        VExpr::Paren(inner) => {
            let (i2, st1) = spec_tr_expr(*inner, cv, errs, cmap, st);
            (VExpr::Paren(Box::new(i2)), st1)
        },
        VExpr::Arrow(params, body) => {
            let (b2, st1) = spec_tr_arrow_body(*body, cv, errs, cmap, st);
            (VExpr::Arrow(params, Box::new(b2)), st1)
        },
        VExpr::Object(props) => {
            let (p2, st1) = spec_tr_props(props, cv, errs, cmap, st);
            (VExpr::Object(p2), st1)
        },
        VExpr::Array(elems) => {
            let (e2, st1) = spec_tr_opt_args(elems, cv, errs, cmap, st);
            (VExpr::Array(e2), st1)
        },
        VExpr::Jsx(el) => {
            let (el2, st1) = spec_tr_jsx_element(*el, cv, errs, cmap, st);
            if el2.name == "Trans"@ {
                (VExpr::JsxFrag(el2.children), st1)
            } else {
                (VExpr::Jsx(Box::new(el2)), st1)
            }
        },
        VExpr::JsxFrag(children) => {
            let (c2, st1) = spec_tr_jsx_children(children, cv, errs, cmap, st);
            (VExpr::JsxFrag(c2), st1)
        },
        _ => (e, st),
    }
}

pub open spec fn spec_tr_args(
    s: Seq<VArg>,
    cv: CacheView,
    errs: Seq<(String, String)>,
    cmap: Seq<(Seq<char>, VJsxElement)>,
    st: VSt,
) -> (Seq<VArg>, VSt)
    decreases s,
{
    if s.len() == 0 {
        (Seq::empty(), st)
    } else {
        let (e2, st1) = spec_tr_expr(s[0].expr, cv, errs, cmap, st);
        let h = VArg { spread: s[0].spread, expr: e2 };
        let (rest, st2) = spec_tr_args(s.drop_first(), cv, errs, cmap, st1);
        (seq![h] + rest, st2)
    }
}

pub open spec fn spec_tr_opt_args(
    s: Seq<Option<VArg>>,
    cv: CacheView,
    errs: Seq<(String, String)>,
    cmap: Seq<(Seq<char>, VJsxElement)>,
    st: VSt,
) -> (Seq<Option<VArg>>, VSt)
    decreases s,
{
    if s.len() == 0 {
        (Seq::empty(), st)
    } else {
        let (h, st1) = match s[0] {
            Some(a) => {
                let (e2, stx) = spec_tr_expr(a.expr, cv, errs, cmap, st);
                (Some(VArg { spread: a.spread, expr: e2 }), stx)
            },
            None => (None, st),
        };
        let (rest, st2) = spec_tr_opt_args(s.drop_first(), cv, errs, cmap, st1);
        (seq![h] + rest, st2)
    }
}

pub open spec fn spec_tr_props(
    s: Seq<VProp>,
    cv: CacheView,
    errs: Seq<(String, String)>,
    cmap: Seq<(Seq<char>, VJsxElement)>,
    st: VSt,
) -> (Seq<VProp>, VSt)
    decreases s,
{
    if s.len() == 0 {
        (Seq::empty(), st)
    } else {
        let (h, st1) = match s[0] {
            VProp::KeyValue(k, v) => {
                let (v2, stx) = spec_tr_expr(v, cv, errs, cmap, st);
                (VProp::KeyValue(k, v2), stx)
            },
            VProp::Opaque(hh) => (VProp::Opaque(hh), st),
        };
        let (rest, st2) = spec_tr_props(s.drop_first(), cv, errs, cmap, st1);
        (seq![h] + rest, st2)
    }
}

pub open spec fn spec_tr_arrow_body(
    b: VArrowBody,
    cv: CacheView,
    errs: Seq<(String, String)>,
    cmap: Seq<(Seq<char>, VJsxElement)>,
    st: VSt,
) -> (VArrowBody, VSt)
    decreases b,
{
    match b {
        VArrowBody::Block(stmts) => {
            let (ss2, st1) = spec_tr_stmts(stmts, cv, errs, cmap, st);
            (VArrowBody::Block(spec_sweep_stmts(ss2)), st1)
        },
        VArrowBody::Expr(e) => {
            let (e2, st1) = spec_tr_expr(e, cv, errs, cmap, st);
            (VArrowBody::Expr(e2), st1)
        },
    }
}

pub open spec fn spec_tr_attrs(
    s: Seq<VJsxAttr>,
    cv: CacheView,
    errs: Seq<(String, String)>,
    cmap: Seq<(Seq<char>, VJsxElement)>,
    st: VSt,
) -> (Seq<VJsxAttr>, VSt)
    decreases s,
{
    if s.len() == 0 {
        (Seq::empty(), st)
    } else {
        let (h, st1) = match s[0] {
            VJsxAttr::Named(n, VJsxAttrValue::Expr(e)) => {
                let (e2, stx) = spec_tr_expr(e, cv, errs, cmap, st);
                (VJsxAttr::Named(n, VJsxAttrValue::Expr(e2)), stx)
            },
            _ => (s[0], st),
        };
        let (rest, st2) = spec_tr_attrs(s.drop_first(), cv, errs, cmap, st1);
        (seq![h] + rest, st2)
    }
}

/// One mixed-content component node: an `i18nKey` string attribute is an
/// unsupported hard failure; otherwise the node's own component map is
/// captured from its `components` attribute and governs its subtree alone.
pub open spec fn spec_tr_jsx_element(
    el: VJsxElement,
    cv: CacheView,
    errs: Seq<(String, String)>,
    cmap: Seq<(Seq<char>, VJsxElement)>,
    st: VSt,
) -> (VJsxElement, VSt)
    decreases el,
{
    if el.name == "Trans"@ {
        match find_i18nkey_from(el.attrs, 0) {
            Some(lit) => (
                el,
                VSt {
                    scopes: st.scopes,
                    diags: st.diags.push(
                        VDiag { kind: DiagKind::Unsupported, span: lit.span, detail: lit.value },
                    ),
                },
            ),
            None => {
                let cmap2 = spec_capture_attrs(el.attrs);
                let (attrs2, st1) = spec_tr_attrs(el.attrs, cv, errs, cmap2, st);
                let (children2, st2) = spec_tr_jsx_children(el.children, cv, errs, cmap2, st1);
                (
                    VJsxElement {
                        name: el.name,
                        attrs: attrs2,
                        self_closing: el.self_closing,
                        children: children2,
                        span: el.span,
                    },
                    st2,
                )
            },
        }
    } else {
        let (attrs2, st1) = spec_tr_attrs(el.attrs, cv, errs, cmap, st);
        let (children2, st2) = spec_tr_jsx_children(el.children, cv, errs, cmap, st1);
        (
            VJsxElement {
                name: el.name,
                attrs: attrs2,
                self_closing: el.self_closing,
                children: children2,
                span: el.span,
            },
            st2,
        )
    }
}

pub open spec fn spec_tr_jsx_child(
    c: VJsxChild,
    cv: CacheView,
    errs: Seq<(String, String)>,
    cmap: Seq<(Seq<char>, VJsxElement)>,
    st: VSt,
) -> (VJsxChild, VSt)
    decreases c,
{
    match c {
        VJsxChild::Element(el) => {
            let (el2, st1) = spec_tr_jsx_element(el, cv, errs, cmap, st);
            if el2.name == "Trans"@ {
                (VJsxChild::Fragment(el2.children), st1)
            } else {
                (VJsxChild::Element(el2), st1)
            }
        },
        VJsxChild::Fragment(children) => {
            let (c2, st1) = spec_tr_jsx_children(children, cv, errs, cmap, st);
            (VJsxChild::Fragment(c2), st1)
        },
        VJsxChild::Container(e) => {
            let (e2, st1) = spec_tr_expr(e, cv, errs, cmap, st);
            (VJsxChild::Container(e2), st1)
        },
        _ => (c, st),
    }
}

pub open spec fn spec_tr_jsx_children(
    s: Seq<VJsxChild>,
    cv: CacheView,
    errs: Seq<(String, String)>,
    cmap: Seq<(Seq<char>, VJsxElement)>,
    st: VSt,
) -> (Seq<VJsxChild>, VSt)
    decreases s,
{
    if s.len() == 0 {
        (Seq::empty(), st)
    } else {
        let (h, st1) = spec_tr_jsx_child(s[0], cv, errs, cmap, st);
        let (rest, st2) = spec_tr_jsx_children(s.drop_first(), cv, errs, cmap, st1);
        (seq![h] + rest, st2)
    }
}

pub open spec fn spec_tr_decls(
    s: Seq<VDeclarator>,
    cv: CacheView,
    errs: Seq<(String, String)>,
    cmap: Seq<(Seq<char>, VJsxElement)>,
    st: VSt,
) -> (Seq<VDeclarator>, VSt)
    decreases s,
{
    if s.len() == 0 {
        (Seq::empty(), st)
    } else {
        let (h, st1) = match s[0].init {
            Some(e) => {
                let (e2, stx) = spec_tr_expr(e, cv, errs, cmap, st);
                (VDeclarator { pat: s[0].pat, init: Some(e2) }, stx)
            },
            None => (s[0], st),
        };
        let (rest, st2) = spec_tr_decls(s.drop_first(), cv, errs, cmap, st1);
        (seq![h] + rest, st2)
    }
}

/// Statement-list sweep: the placeholders left by deleted declarations are
/// removed, everything else keeps its relative order.
pub open spec fn spec_sweep_stmts(ss: Seq<VStmt>) -> Seq<VStmt> {
    ss.filter(|s: VStmt| !(s is Empty))
}

pub open spec fn spec_tr_stmt(
    s: VStmt,
    cv: CacheView,
    errs: Seq<(String, String)>,
    cmap: Seq<(Seq<char>, VJsxElement)>,
    st: VSt,
) -> (VStmt, VSt)
    decreases s,
{
    match s {
        VStmt::VarDecl(d) => {
            if is_hook_decl(d) {
                (VStmt::Empty, spec_hook_args(hook_init(d)->Some_0->Call_1, errs, st))
            } else {
                let (d2, st1) = spec_tr_decls(d.decls, cv, errs, cmap, st);
                (VStmt::VarDecl(VVarDecl { decls: d2 }), st1)
            }
        },
        VStmt::Expr(e) => {
            let (e2, st1) = spec_tr_expr(e, cv, errs, cmap, st);
            (VStmt::Expr(e2), st1)
        },
        VStmt::Block(ss) => {
            let (ss2, st1) = spec_tr_stmts(ss, cv, errs, cmap, st);
            (VStmt::Block(spec_sweep_stmts(ss2)), st1)
        },
        VStmt::Func(h, ss) => {
            let (ss2, st1) = spec_tr_stmts(ss, cv, errs, cmap, st);
            (VStmt::Func(h, spec_sweep_stmts(ss2)), st1)
        },
        VStmt::Return(Some(e)) => {
            let (e2, st1) = spec_tr_expr(e, cv, errs, cmap, st);
            (VStmt::Return(Some(e2)), st1)
        },
        _ => (s, st),
    }
}

pub open spec fn spec_tr_stmts(
    s: Seq<VStmt>,
    cv: CacheView,
    errs: Seq<(String, String)>,
    cmap: Seq<(Seq<char>, VJsxElement)>,
    st: VSt,
) -> (Seq<VStmt>, VSt)
    decreases s,
{
    if s.len() == 0 {
        (Seq::empty(), st)
    } else {
        let (h, st1) = spec_tr_stmt(s[0], cv, errs, cmap, st);
        let (rest, st2) = spec_tr_stmts(s.drop_first(), cv, errs, cmap, st1);
        (seq![h] + rest, st2)
    }
}

pub open spec fn spec_tr_item(
    it: VModuleItem,
    cv: CacheView,
    errs: Seq<(String, String)>,
    cmap: Seq<(Seq<char>, VJsxElement)>,
    st: VSt,
) -> (VModuleItem, VSt)
    decreases it,
{
    match it {
        VModuleItem::Stmt(s) => {
            let (s2, st1) = spec_tr_stmt(s, cv, errs, cmap, st);
            (VModuleItem::Stmt(s2), st1)
        },
        _ => (it, st),
    }
}

pub open spec fn spec_tr_items(
    s: Seq<VModuleItem>,
    cv: CacheView,
    errs: Seq<(String, String)>,
    cmap: Seq<(Seq<char>, VJsxElement)>,
    st: VSt,
) -> (Seq<VModuleItem>, VSt)
    decreases s,
{
    if s.len() == 0 {
        (Seq::empty(), st)
    } else {
        let (h, st1) = spec_tr_item(s[0], cv, errs, cmap, st);
        let (rest, st2) = spec_tr_items(s.drop_first(), cv, errs, cmap, st1);
        (seq![h] + rest, st2)
    }
}

pub open spec fn kept_item(it: VModuleItem) -> bool {
    !(it matches VModuleItem::Stmt(VStmt::Empty)) && !(it matches VModuleItem::Import(src, _)
        && src == "react-i18next"@)
}

/// Module-level sweep: placeholders of deleted declarations and imports of
/// the translation library are removed, order kept.
pub open spec fn spec_sweep_items(s: Seq<VModuleItem>) -> Seq<VModuleItem> {
    s.filter(|it: VModuleItem| kept_item(it))
}

/// The whole transform of a module's item list, from an empty scope stack,
/// an empty component map and no diagnostics.
pub open spec fn spec_transform(
    items: Seq<VModuleItem>,
    cv: CacheView,
    errs: Seq<(String, String)>,
) -> (Seq<VModuleItem>, VSt) {
    let st0 = VSt { scopes: Seq::empty(), diags: Seq::empty() };
    let (out, st) = spec_tr_items(items, cv, errs, Seq::empty(), st0);
    (spec_sweep_items(out), st)
}

/// The first unsupported-feature diagnostic, if any was reported.
pub open spec fn first_unsupported(ds: Seq<VDiag>) -> Option<VDiag>
    decreases ds.len(),
{
    if ds.len() == 0 {
        None
    } else if ds[0].kind == DiagKind::Unsupported {
        Some(ds[0])
    } else {
        first_unsupported(ds.drop_first())
    }
}


// ---------------------------------------------------------------------------
// The executable traversal
// ---------------------------------------------------------------------------

fn is_named(s: &String, lit: &str) -> (b: bool)
    ensures
        b == (s@ == lit@),
{
    let l = lit.to_owned();
    s.eq(&l)
}

fn err_get(errs: &Vec<(String, String)>, k: &String) -> (r: Option<String>)
    ensures
        r matches Some(m) ==> err_lookup(errs@, k@) == Some(m@),
        r is None ==> err_lookup(errs@, k@) is None,
{
    let ghost s = errs@;
    let mut i = errs.len();
    proof {
        assert(s.take(i as int) =~= s);
    }
    while i > 0
        invariant
            i <= errs.len(),
            s == errs@,
            err_lookup(s, k@) == err_lookup(s.take(i as int), k@),
        decreases i,
    {
        i = i - 1;
        proof {
            assert(s.take(i as int + 1).last() == s[i as int]);
            assert(s.take(i as int + 1).drop_last() =~= s.take(i as int));
        }
        if errs[i].0.eq(k) {
            return Some(errs[i].1.clone());
        }
    }
    None
}

/// Processes one namespace literal of a hook call: a recorded load failure
/// becomes a diagnostic, otherwise the namespace joins the scope stack.
fn scope_arg(
    lit: &StrLit,
    errs: &Vec<(String, String)>,
    scopes: &mut Vec<String>,
    diags: &mut Vec<Diag>,
)
    ensures
        vst_of(final(scopes)@, final(diags)@) == spec_scope_arg(
            crate::ast::view_str_lit(*lit),
            errs@,
            vst_of(old(scopes)@, old(diags)@),
        ),
{
    match err_get(errs, &lit.value) {
        Some(msg) => {
            let d = Diag { kind: DiagKind::ResourceLoad, span: lit.span, detail: msg };
            let ghost vd = view_diag(d);
            diags.push(d);
            proof {
                assert(view_diags(diags@) =~= view_diags(old(diags)@).push(vd));
            }
        },
        None => {
            scopes.push(lit.value.clone());
            proof {
                assert(view_strings(scopes@) =~= view_strings(old(scopes)@).push(lit.value@));
            }
        },
    }
}

fn scope_elems(
    elems: &Vec<Option<Arg>>,
    errs: &Vec<(String, String)>,
    scopes: &mut Vec<String>,
    diags: &mut Vec<Diag>,
)
    ensures
        vst_of(final(scopes)@, final(diags)@) == spec_scope_elems(
            view_opt_args(elems@),
            errs@,
            vst_of(old(scopes)@, old(diags)@),
        ),
{
    let ghost ve = view_opt_args(elems@);
    let ghost st0 = vst_of(scopes@, diags@);
    let n = elems.len();
    proof {
        lemma_view_opt_args_index(elems@);
        assert(ve.skip(0) =~= ve);
    }
    let mut i: usize = 0;
    while i < n
        invariant
            i <= n,
            n == elems@.len(),
            ve == view_opt_args(elems@),
            ve.len() == n,
            forall|j: int| #![auto] 0 <= j < n ==> ve[j] == (match elems@[j] {
                Some(a) => Some(view_arg(a)),
                None => None,
            }),
            spec_scope_elems(ve, errs@, st0) == spec_scope_elems(
                ve.skip(i as int),
                errs@,
                vst_of(scopes@, diags@),
            ),
        decreases n - i,
    {
        proof {
            assert(ve.skip(i as int)[0] == ve[i as int]);
            assert(ve.skip(i as int).drop_first() =~= ve.skip(i as int + 1));
        }
        match &elems[i] {
            Some(a) => match &a.expr {
                Expr::Str(lit) => {
                    scope_arg(lit, errs, scopes, diags);
                },
                _ => {},
            },
            None => {},
        }
        i = i + 1;
    }
    proof {
        assert(ve.skip(n as int) =~= Seq::<Option<VArg>>::empty());
    }
}

/// Removes from a dependency array exactly the entries that are bare
/// references to the translate binding, preserving the order of the rest.
pub fn scrub_elems(v: &Vec<Option<Arg>>) -> (r: Vec<Option<Arg>>)
    ensures
        view_opt_args(r@) == spec_scrub(view_opt_args(v@)),
{
    let ghost ve = view_opt_args(v@);
    let mut out: Vec<Option<Arg>> = Vec::new();
    let n = v.len();
    proof {
        lemma_view_opt_args_index(v@);
        assert(ve.take(0) =~= Seq::<Option<VArg>>::empty());
        assert(view_opt_args(out@) =~= spec_scrub(ve.take(0)));
    }
    let mut i: usize = 0;
    while i < n
        invariant
            i <= n,
            n == v@.len(),
            ve == view_opt_args(v@),
            ve.len() == n,
            forall|j: int| #![auto] 0 <= j < n ==> ve[j] == (match v@[j] {
                Some(a) => Some(view_arg(a)),
                None => None,
            }),
            view_opt_args(out@) == spec_scrub(ve.take(i as int)),
        decreases n - i,
    {
        let keep = match &v[i] {
            Some(a) => match &a.expr {
                Expr::Ident(s) => !is_named(s, "t"),
                _ => true,
            },
            None => true,
        };
        proof {
            assert(keep == !is_t_ref(ve[i as int]));
            assert(ve.take(i as int + 1).drop_last() =~= ve.take(i as int));
            assert(ve.take(i as int + 1).last() == ve[i as int]);
            reveal(Seq::filter);
        }
        if keep {
            let ghost old_out = out@;
            let x = match &v[i] {
                Some(a) => Some(copy_arg(a)),
                None => None,
            };
            out.push(x);
            proof {
                lemma_view_opt_args_index(old_out);
                lemma_view_opt_args_index(out@);
                assert(view_opt_args(out@) =~= view_opt_args(old_out).push(ve[i as int]));
            }
        }
        i = i + 1;
    }
    proof {
        assert(ve.take(n as int) =~= ve);
    }
    out
}

fn find_i18nkey(attrs: &Vec<JsxAttr>) -> (r: Option<(Span, String)>)
    ensures
        r matches Some((sp, val)) ==> find_i18nkey_from(view_attrs(attrs@), 0) == Some(
            VStrLit { value: val@, span: sp },
        ),
        r is None ==> find_i18nkey_from(view_attrs(attrs@), 0) is None,
{
    let ghost va = view_attrs(attrs@);
    let n = attrs.len();
    proof {
        lemma_view_attrs_index(attrs@);
    }
    let mut i: usize = 0;
    while i < n
        invariant
            i <= n,
            n == attrs@.len(),
            va == view_attrs(attrs@),
            va.len() == n,
            forall|j: int| #![auto] 0 <= j < n ==> va[j] == view_attr(attrs@[j]),
            find_i18nkey_from(va, 0) == find_i18nkey_from(va, i as int),
        decreases n - i,
    {
        match &attrs[i] {
            JsxAttr::Named(nm, val) => {
                if is_named(nm, "i18nKey") {
                    match val {
                        JsxAttrValue::Str(lit) => {
                            return Some((lit.span, lit.value.clone()));
                        },
                        _ => {},
                    }
                }
            },
            _ => {},
        }
        i = i + 1;
    }
    None
}

/// Captures the component map of an inline object literal: each property
/// mapping a name to a markup element, one layer of parentheses unwrapped.
pub fn capture_components(props: &Vec<Prop>) -> (r: Vec<(String, JsxElement)>)
    ensures
        view_cmap(r@) == spec_capture(view_props(props@)),
{
    let ghost vp = view_props(props@);
    let mut out: Vec<(String, JsxElement)> = Vec::new();
    let n = props.len();
    proof {
        lemma_view_props_index(props@);
        assert(vp.take(0) =~= Seq::<VProp>::empty());
        assert(view_cmap(out@) =~= spec_capture(vp.take(0)));
    }
    let mut i: usize = 0;
    while i < n
        invariant
            i <= n,
            n == props@.len(),
            vp == view_props(props@),
            vp.len() == n,
            forall|j: int| #![auto] 0 <= j < n ==> vp[j] == view_prop(props@[j]),
            view_cmap(out@) == spec_capture(vp.take(i as int)),
        decreases n - i,
    {
        proof {
            assert(vp.take(i as int + 1).drop_last() =~= vp.take(i as int));
            assert(vp.take(i as int + 1).last() == vp[i as int]);
        }
        match &props[i] {
            Prop::KeyValue(k, v) => {
                match v {
                    Expr::Jsx(el) => {
                        let ghost old_out = out@;
                        out.push((k.clone(), copy_jsx_element(el)));
                        proof {
                            assert(out@.drop_last() =~= old_out);
                            assert(view_cmap(out@) =~= view_cmap(old_out).push(
                                (k@, view_jsx_element(**el)),
                            ));
                        }
                    },
                    Expr::Paren(inner) => {
                        match &**inner {
                            Expr::Jsx(el) => {
                                let ghost old_out = out@;
                                out.push((k.clone(), copy_jsx_element(el)));
                                proof {
                                    assert(out@.drop_last() =~= old_out);
                                    assert(view_cmap(out@) =~= view_cmap(old_out).push(
                                        (k@, view_jsx_element(**el)),
                                    ));
                                }
                            },
                            _ => {},
                        }
                    },
                    _ => {},
                }
            },
            _ => {},
        }
        i = i + 1;
    }
    proof {
        assert(vp.take(n as int) =~= vp);
    }
    out
}

pub proof fn lemma_view_cmap_concat(a: Seq<(String, JsxElement)>, b: Seq<(String, JsxElement)>)
    ensures
        view_cmap(a + b) == view_cmap(a) + view_cmap(b),
    decreases b.len(),
{
    if b.len() == 0 {
        assert(a + b =~= a);
        assert(view_cmap(a) + view_cmap(b) =~= view_cmap(a));
    } else {
        lemma_view_cmap_concat(a, b.drop_last());
        assert((a + b).drop_last() =~= a + b.drop_last());
        assert((a + b).last() == b.last());
        assert(view_cmap(a) + view_cmap(b) =~= (view_cmap(a) + view_cmap(b.drop_last())).push(
            (b.last().0@, view_jsx_element(b.last().1)),
        ));
    }
}

/// Captures all component-map entries named by a node's attributes.
fn capture_attrs(attrs: &Vec<JsxAttr>) -> (r: Vec<(String, JsxElement)>)
    ensures
        view_cmap(r@) == spec_capture_attrs(view_attrs(attrs@)),
{
    let ghost va = view_attrs(attrs@);
    let mut out: Vec<(String, JsxElement)> = Vec::new();
    let n = attrs.len();
    proof {
        lemma_view_attrs_index(attrs@);
        assert(va.take(0) =~= Seq::<VJsxAttr>::empty());
        assert(view_cmap(out@) =~= spec_capture_attrs(va.take(0)));
    }
    let mut i: usize = 0;
    while i < n
        invariant
            i <= n,
            n == attrs@.len(),
            va == view_attrs(attrs@),
            va.len() == n,
            forall|j: int| #![auto] 0 <= j < n ==> va[j] == view_attr(attrs@[j]),
            view_cmap(out@) == spec_capture_attrs(va.take(i as int)),
        decreases n - i,
    {
        proof {
            assert(va.take(i as int + 1).drop_last() =~= va.take(i as int));
            assert(va.take(i as int + 1).last() == va[i as int]);
        }
        match &attrs[i] {
            JsxAttr::Named(nm, val) => {
                if is_named(nm, "components") {
                    match val {
                        JsxAttrValue::Expr(Expr::Object(props)) => {
                            let mut part = capture_components(props);
                            let ghost old_out = out@;
                            let ghost old_part = part@;
                            out.append(&mut part);
                            proof {
                                lemma_view_cmap_concat(old_out, old_part);
                                assert(out@ =~= old_out + old_part);
                            }
                        },
                        _ => {},
                    }
                }
            },
            _ => {},
        }
        i = i + 1;
    }
    proof {
        assert(va.take(n as int) =~= va);
    }
    out
}

fn tr_expr(
    e: &Expr,
    cache: &Cache,
    errs: &Vec<(String, String)>,
    cmap: &Vec<(String, JsxElement)>,
    scopes: &mut Vec<String>,
    diags: &mut Vec<Diag>,
) -> (r: Expr)
    ensures
        ({
            let (vr, vst) = spec_tr_expr(
                view_expr(*e),
                cache@,
                errs@,
                view_cmap(cmap@),
                vst_of(old(scopes)@, old(diags)@),
            );
            view_expr(r) == vr && vst_of(final(scopes)@, final(diags)@) == vst
        }),
    decreases *e,
{
    match e {
        Expr::Call(callee, args) => {
            proof {
                lemma_view_args_index(args@);
            }
            match &**callee {
                Expr::Ident(name) => {
                    let is_deps = is_named(name, "useEffect") || is_named(name, "useCallback")
                        || is_named(name, "useMemo");
                    let is_t = is_named(name, "t");
                    let first_is_str = args.len() >= 1 && matches!(&args[0].expr, Expr::Str(_));
                    let second_is_array = args.len() > 1 && matches!(&args[1].expr, Expr::Array(_));
                    if is_deps && second_is_array {
                        let mut args3 = tr_args(args, cache, errs, cmap, scopes, diags);
                        let ghost vargs3 = view_args(args3@);
                        proof {
                            lemma_view_args_index(args3@);
                        }
                        if args3.len() > 1 {
                            let spread = args3[1].spread;
                            let scrubbed = match &args3[1].expr {
                                Expr::Array(elems) => Some(scrub_elems(elems)),
                                _ => None,
                            };
                            match scrubbed {
                                Some(sc) => {
                                    args3.set(1, Arg { spread, expr: Expr::Array(sc) });
                                    proof {
                                        lemma_view_args_index(args3@);
                                        assert(view_args(args3@) =~= vargs3.update(
                                            1,
                                            VArg {
                                                spread: vargs3[1].spread,
                                                expr: VExpr::Array(
                                                    spec_scrub(vargs3[1].expr->Array_0),
                                                ),
                                            },
                                        ));
                                    }
                                },
                                None => {},
                            }
                        }
                        Expr::Call(Box::new(Expr::Ident(name.clone())), args3)
                    } else if is_t && args.len() == 1 && first_is_str {
                        match &args[0].expr {
                            Expr::Str(lit) => {
                                proof {
                                    assert(scopes.deep_view() =~= view_strings(scopes@));
                                }
                                match resolve(cache, scopes, lit.value.clone()) {
                                    Err(_) => {
                                        let d = Diag {
                                            kind: DiagKind::KeyNotFound,
                                            span: lit.span,
                                            detail: lit.value.clone(),
                                        };
                                        let ghost vd = view_diag(d);
                                        diags.push(d);
                                        proof {
                                            assert(view_diags(diags@) =~= view_diags(
                                                old(diags)@,
                                            ).push(vd));
                                        }
                                        copy_expr(e)
                                    },
                                    Ok(value) => {
                                        match splice_markup(value.as_str(), cmap) {
                                            Ok(out) => out,
                                            Err(()) => {
                                                let d = Diag {
                                                    kind: DiagKind::MalformedTemplate,
                                                    span: lit.span,
                                                    detail: value,
                                                };
                                                let ghost vd = view_diag(d);
                                                diags.push(d);
                                                proof {
                                                    assert(view_diags(diags@) =~= view_diags(
                                                        old(diags)@,
                                                    ).push(vd));
                                                }
                                                copy_expr(e)
                                            },
                                        }
                                    },
                                }
                            },
                            _ => copy_expr(e),
                        }
                    } else if is_t && args.len() >= 2 && first_is_str {
                        match &args[0].expr {
                            Expr::Str(lit) => {
                                proof {
                                    assert(scopes.deep_view() =~= view_strings(scopes@));
                                }
                                match resolve(cache, scopes, lit.value.clone()) {
                                    Err(_) => {
                                        let d = Diag {
                                            kind: DiagKind::KeyNotFound,
                                            span: lit.span,
                                            detail: lit.value.clone(),
                                        };
                                        let ghost vd = view_diag(d);
                                        diags.push(d);
                                        proof {
                                            assert(view_diags(diags@) =~= view_diags(
                                                old(diags)@,
                                            ).push(vd));
                                        }
                                        copy_expr(e)
                                    },
                                    Ok(value) => {
                                        let second_ok = matches!(&args[1].expr, Expr::Ident(_))
                                            || matches!(&args[1].expr, Expr::Object(_));
                                        if second_ok {
                                            match split_placeholders(value.as_str()) {
                                                Err(()) => {
                                                    let d = Diag {
                                                        kind: DiagKind::MalformedTemplate,
                                                        span: lit.span,
                                                        detail: value,
                                                    };
                                                    let ghost vd = view_diag(d);
                                                    diags.push(d);
                                                    proof {
                                                        assert(view_diags(diags@) =~= view_diags(
                                                            old(diags)@,
                                                        ).push(vd));
                                                    }
                                                    copy_expr(e)
                                                },
                                                Ok(parts) => {
                                                    proof {
                                                        assert(decreases_to!(*e => args@[1].expr));
                                                    }
                                                    let second2 = tr_expr(
                                                        &args[1].expr,
                                                        cache,
                                                        errs,
                                                        cmap,
                                                        scopes,
                                                        diags,
                                                    );
                                                    make_interpolation_call(
                                                        parts,
                                                        Arg { spread: false, expr: second2 },
                                                    )
                                                },
                                            }
                                        } else {
                                            copy_expr(e)
                                        }
                                    },
                                }
                            },
                            _ => copy_expr(e),
                        }
                    } else {
                        let args2 = tr_args(args, cache, errs, cmap, scopes, diags);
                        Expr::Call(Box::new(Expr::Ident(name.clone())), args2)
                    }
                },
                _ => {
                    let c2 = tr_expr(callee, cache, errs, cmap, scopes, diags);
                    let args2 = tr_args(args, cache, errs, cmap, scopes, diags);
                    Expr::Call(Box::new(c2), args2)
                },
            }
        },
        Expr::Paren(inner) => Expr::Paren(Box::new(tr_expr(inner, cache, errs, cmap, scopes, diags))),
        Expr::Arrow(params, body) => Expr::Arrow(
            crate::ast::copy_strings(params),
            Box::new(tr_arrow_body(body, cache, errs, cmap, scopes, diags)),
        ),
        Expr::Object(props) => Expr::Object(tr_props(props, cache, errs, cmap, scopes, diags)),
        Expr::Array(elems) => Expr::Array(tr_opt_args(elems, cache, errs, cmap, scopes, diags)),
        Expr::Jsx(el) => {
            let el2 = tr_jsx_element(el, cache, errs, cmap, scopes, diags);
            if is_named(&el2.name, "Trans") {
                Expr::JsxFrag(el2.children)
            } else {
                Expr::Jsx(Box::new(el2))
            }
        },
        Expr::JsxFrag(children) => Expr::JsxFrag(
            tr_jsx_children(children, cache, errs, cmap, scopes, diags),
        ),
        _ => copy_expr(e),
    }
}

fn tr_args(
    v: &Vec<Arg>,
    cache: &Cache,
    errs: &Vec<(String, String)>,
    cmap: &Vec<(String, JsxElement)>,
    scopes: &mut Vec<String>,
    diags: &mut Vec<Diag>,
) -> (r: Vec<Arg>)
    ensures
        ({
            let (vr, vst) = spec_tr_args(
                view_args(v@),
                cache@,
                errs@,
                view_cmap(cmap@),
                vst_of(old(scopes)@, old(diags)@),
            );
            view_args(r@) == vr && vst_of(final(scopes)@, final(diags)@) == vst
        }),
    decreases v@,
{
    let ghost vs = view_args(v@);
    let ghost st0 = vst_of(scopes@, diags@);
    let mut out: Vec<Arg> = Vec::new();
    let n = v.len();
    proof {
        lemma_view_args_index(v@);
        assert(vs.skip(0) =~= vs);
        assert(view_args(out@) =~= Seq::<VArg>::empty());
    }
    let mut i: usize = 0;
    while i < n
        invariant
            i <= n,
            n == v@.len(),
            vs == view_args(v@),
            vs.len() == n,
            forall|j: int| #![auto] 0 <= j < n ==> vs[j] == view_arg(v@[j]),
            spec_tr_args(vs, cache@, errs@, view_cmap(cmap@), st0) == ({
                let (rest, stf) = spec_tr_args(
                    vs.skip(i as int),
                    cache@,
                    errs@,
                    view_cmap(cmap@),
                    vst_of(scopes@, diags@),
                );
                (view_args(out@) + rest, stf)
            }),
        decreases n - i,
    {
        proof {
            assert(vs.skip(i as int)[0] == vs[i as int]);
            assert(vs.skip(i as int).drop_first() =~= vs.skip(i as int + 1));
        }
        let ghost old_out = out@;
        let e2 = tr_expr(&v[i].expr, cache, errs, cmap, scopes, diags);
        out.push(Arg { spread: v[i].spread, expr: e2 });
        proof {
            lemma_view_args_index(old_out);
            lemma_view_args_index(out@);
            assert(view_args(out@) =~= view_args(old_out).push(view_arg(out@.last())));
            assert(view_args(out@) + spec_tr_args(
                vs.skip(i as int + 1),
                cache@,
                errs@,
                view_cmap(cmap@),
                vst_of(scopes@, diags@),
            ).0 =~= view_args(old_out) + (seq![view_arg(out@.last())] + spec_tr_args(
                vs.skip(i as int + 1),
                cache@,
                errs@,
                view_cmap(cmap@),
                vst_of(scopes@, diags@),
            ).0));
        }
        i = i + 1;
    }
    proof {
        assert(vs.skip(n as int) =~= Seq::<VArg>::empty());
        assert(view_args(out@) + Seq::<VArg>::empty() =~= view_args(out@));
    }
    out
}

fn tr_opt_args(
    v: &Vec<Option<Arg>>,
    cache: &Cache,
    errs: &Vec<(String, String)>,
    cmap: &Vec<(String, JsxElement)>,
    scopes: &mut Vec<String>,
    diags: &mut Vec<Diag>,
) -> (r: Vec<Option<Arg>>)
    ensures
        ({
            let (vr, vst) = spec_tr_opt_args(
                view_opt_args(v@),
                cache@,
                errs@,
                view_cmap(cmap@),
                vst_of(old(scopes)@, old(diags)@),
            );
            view_opt_args(r@) == vr && vst_of(final(scopes)@, final(diags)@) == vst
        }),
    decreases v@,
{
    let ghost vs = view_opt_args(v@);
    let ghost st0 = vst_of(scopes@, diags@);
    let mut out: Vec<Option<Arg>> = Vec::new();
    let n = v.len();
    proof {
        lemma_view_opt_args_index(v@);
        assert(vs.skip(0) =~= vs);
        assert(view_opt_args(out@) =~= Seq::<Option<VArg>>::empty());
    }
    let mut i: usize = 0;
    while i < n
        invariant
            i <= n,
            n == v@.len(),
            vs == view_opt_args(v@),
            vs.len() == n,
            forall|j: int| 0 <= j < n ==> vs[j] == (match #[trigger] v@[j] {
                Some(a) => Some(view_arg(a)),
                None => None,
            }),
            spec_tr_opt_args(vs, cache@, errs@, view_cmap(cmap@), st0) == ({
                let (rest, stf) = spec_tr_opt_args(
                    vs.skip(i as int),
                    cache@,
                    errs@,
                    view_cmap(cmap@),
                    vst_of(scopes@, diags@),
                );
                (view_opt_args(out@) + rest, stf)
            }),
        decreases n - i,
    {
        proof {
            assert(vs.skip(i as int)[0] == vs[i as int]);
            assert(vs.skip(i as int).drop_first() =~= vs.skip(i as int + 1));
        }
        let ghost old_out = out@;
        let x = match &v[i] {
            Some(a) => {
                let e2 = tr_expr(&a.expr, cache, errs, cmap, scopes, diags);
                Some(Arg { spread: a.spread, expr: e2 })
            },
            None => None,
        };
        out.push(x);
        proof {
            lemma_view_opt_args_index(old_out);
            lemma_view_opt_args_index(out@);
            let h = match out@.last() {
                Some(a) => Some(view_arg(a)),
                None => None,
            };
            assert(view_opt_args(out@) =~= view_opt_args(old_out).push(h));
            assert(view_opt_args(out@) + spec_tr_opt_args(
                vs.skip(i as int + 1),
                cache@,
                errs@,
                view_cmap(cmap@),
                vst_of(scopes@, diags@),
            ).0 =~= view_opt_args(old_out) + (seq![h] + spec_tr_opt_args(
                vs.skip(i as int + 1),
                cache@,
                errs@,
                view_cmap(cmap@),
                vst_of(scopes@, diags@),
            ).0));
        }
        i = i + 1;
    }
    proof {
        assert(vs.skip(n as int) =~= Seq::<Option<VArg>>::empty());
        assert(view_opt_args(out@) + Seq::<Option<VArg>>::empty() =~= view_opt_args(out@));
    }
    out
}

fn tr_props(
    v: &Vec<Prop>,
    cache: &Cache,
    errs: &Vec<(String, String)>,
    cmap: &Vec<(String, JsxElement)>,
    scopes: &mut Vec<String>,
    diags: &mut Vec<Diag>,
) -> (r: Vec<Prop>)
    ensures
        ({
            let (vr, vst) = spec_tr_props(
                view_props(v@),
                cache@,
                errs@,
                view_cmap(cmap@),
                vst_of(old(scopes)@, old(diags)@),
            );
            view_props(r@) == vr && vst_of(final(scopes)@, final(diags)@) == vst
        }),
    decreases v@,
{
    let ghost vs = view_props(v@);
    let ghost st0 = vst_of(scopes@, diags@);
    let mut out: Vec<Prop> = Vec::new();
    let n = v.len();
    proof {
        lemma_view_props_index(v@);
        assert(vs.skip(0) =~= vs);
        assert(view_props(out@) =~= Seq::<VProp>::empty());
    }
    let mut i: usize = 0;
    while i < n
        invariant
            i <= n,
            n == v@.len(),
            vs == view_props(v@),
            vs.len() == n,
            forall|j: int| #![auto] 0 <= j < n ==> vs[j] == view_prop(v@[j]),
            spec_tr_props(vs, cache@, errs@, view_cmap(cmap@), st0) == ({
                let (rest, stf) = spec_tr_props(
                    vs.skip(i as int),
                    cache@,
                    errs@,
                    view_cmap(cmap@),
                    vst_of(scopes@, diags@),
                );
                (view_props(out@) + rest, stf)
            }),
        decreases n - i,
    {
        proof {
            assert(vs.skip(i as int)[0] == vs[i as int]);
            assert(vs.skip(i as int).drop_first() =~= vs.skip(i as int + 1));
        }
        let ghost old_out = out@;
        let x = match &v[i] {
            Prop::KeyValue(k, val) => Prop::KeyValue(
                k.clone(),
                tr_expr(val, cache, errs, cmap, scopes, diags),
            ),
            Prop::Opaque(h) => Prop::Opaque(*h),
        };
        out.push(x);
        proof {
            lemma_view_props_index(old_out);
            lemma_view_props_index(out@);
            let h = view_prop(out@.last());
            assert(view_props(out@) =~= view_props(old_out).push(h));
            assert(view_props(out@) + spec_tr_props(
                vs.skip(i as int + 1),
                cache@,
                errs@,
                view_cmap(cmap@),
                vst_of(scopes@, diags@),
            ).0 =~= view_props(old_out) + (seq![h] + spec_tr_props(
                vs.skip(i as int + 1),
                cache@,
                errs@,
                view_cmap(cmap@),
                vst_of(scopes@, diags@),
            ).0));
        }
        i = i + 1;
    }
    proof {
        assert(vs.skip(n as int) =~= Seq::<VProp>::empty());
        assert(view_props(out@) + Seq::<VProp>::empty() =~= view_props(out@));
    }
    out
}

fn tr_arrow_body(
    b: &ArrowBody,
    cache: &Cache,
    errs: &Vec<(String, String)>,
    cmap: &Vec<(String, JsxElement)>,
    scopes: &mut Vec<String>,
    diags: &mut Vec<Diag>,
) -> (r: ArrowBody)
    ensures
        ({
            let (vr, vst) = spec_tr_arrow_body(
                view_arrow_body(*b),
                cache@,
                errs@,
                view_cmap(cmap@),
                vst_of(old(scopes)@, old(diags)@),
            );
            view_arrow_body(r) == vr && vst_of(final(scopes)@, final(diags)@) == vst
        }),
    decreases *b,
{
    match b {
        ArrowBody::Block(stmts) => {
            let ss2 = tr_stmts(stmts, cache, errs, cmap, scopes, diags);
            ArrowBody::Block(sweep_stmts(ss2))
        },
        ArrowBody::Expr(e) => ArrowBody::Expr(tr_expr(e, cache, errs, cmap, scopes, diags)),
    }
}

fn tr_attrs(
    v: &Vec<JsxAttr>,
    cache: &Cache,
    errs: &Vec<(String, String)>,
    cmap: &Vec<(String, JsxElement)>,
    scopes: &mut Vec<String>,
    diags: &mut Vec<Diag>,
) -> (r: Vec<JsxAttr>)
    ensures
        ({
            let (vr, vst) = spec_tr_attrs(
                view_attrs(v@),
                cache@,
                errs@,
                view_cmap(cmap@),
                vst_of(old(scopes)@, old(diags)@),
            );
            view_attrs(r@) == vr && vst_of(final(scopes)@, final(diags)@) == vst
        }),
    decreases v@,
{
    let ghost vs = view_attrs(v@);
    let ghost st0 = vst_of(scopes@, diags@);
    let mut out: Vec<JsxAttr> = Vec::new();
    let n = v.len();
    proof {
        lemma_view_attrs_index(v@);
        assert(vs.skip(0) =~= vs);
        assert(view_attrs(out@) =~= Seq::<VJsxAttr>::empty());
    }
    let mut i: usize = 0;
    while i < n
        invariant
            i <= n,
            n == v@.len(),
            vs == view_attrs(v@),
            vs.len() == n,
            forall|j: int| #![auto] 0 <= j < n ==> vs[j] == view_attr(v@[j]),
            spec_tr_attrs(vs, cache@, errs@, view_cmap(cmap@), st0) == ({
                let (rest, stf) = spec_tr_attrs(
                    vs.skip(i as int),
                    cache@,
                    errs@,
                    view_cmap(cmap@),
                    vst_of(scopes@, diags@),
                );
                (view_attrs(out@) + rest, stf)
            }),
        decreases n - i,
    {
        proof {
            assert(vs.skip(i as int)[0] == vs[i as int]);
            assert(vs.skip(i as int).drop_first() =~= vs.skip(i as int + 1));
        }
        let ghost old_out = out@;
        let x = match &v[i] {
            JsxAttr::Named(nm, val) => match val {
                JsxAttrValue::Expr(e) => JsxAttr::Named(
                    nm.clone(),
                    JsxAttrValue::Expr(tr_expr(e, cache, errs, cmap, scopes, diags)),
                ),
                _ => crate::ast::copy_attr(&v[i]),
            },
            _ => crate::ast::copy_attr(&v[i]),
        };
        out.push(x);
        proof {
            lemma_view_attrs_index(old_out);
            lemma_view_attrs_index(out@);
            let h = view_attr(out@.last());
            assert(view_attrs(out@) =~= view_attrs(old_out).push(h));
            assert(view_attrs(out@) + spec_tr_attrs(
                vs.skip(i as int + 1),
                cache@,
                errs@,
                view_cmap(cmap@),
                vst_of(scopes@, diags@),
            ).0 =~= view_attrs(old_out) + (seq![h] + spec_tr_attrs(
                vs.skip(i as int + 1),
                cache@,
                errs@,
                view_cmap(cmap@),
                vst_of(scopes@, diags@),
            ).0));
        }
        i = i + 1;
    }
    proof {
        assert(vs.skip(n as int) =~= Seq::<VJsxAttr>::empty());
        assert(view_attrs(out@) + Seq::<VJsxAttr>::empty() =~= view_attrs(out@));
    }
    out
}

fn tr_jsx_element(
    el: &JsxElement,
    cache: &Cache,
    errs: &Vec<(String, String)>,
    cmap: &Vec<(String, JsxElement)>,
    scopes: &mut Vec<String>,
    diags: &mut Vec<Diag>,
) -> (r: JsxElement)
    ensures
        ({
            let (vr, vst) = spec_tr_jsx_element(
                view_jsx_element(*el),
                cache@,
                errs@,
                view_cmap(cmap@),
                vst_of(old(scopes)@, old(diags)@),
            );
            view_jsx_element(r) == vr && vst_of(final(scopes)@, final(diags)@) == vst
        }),
    decreases *el,
{
    if is_named(&el.name, "Trans") {
        match find_i18nkey(&el.attrs) {
            Some((sp, val)) => {
                let d = Diag { kind: DiagKind::Unsupported, span: sp, detail: val };
                let ghost vd = view_diag(d);
                diags.push(d);
                proof {
                    assert(view_diags(diags@) =~= view_diags(old(diags)@).push(vd));
                }
                copy_jsx_element(el)
            },
            None => {
                let cmap2 = capture_attrs(&el.attrs);
                let attrs2 = tr_attrs(&el.attrs, cache, errs, &cmap2, scopes, diags);
                let children2 = tr_jsx_children(&el.children, cache, errs, &cmap2, scopes, diags);
                JsxElement {
                    name: el.name.clone(),
                    attrs: attrs2,
                    self_closing: el.self_closing,
                    children: children2,
                    span: el.span,
                }
            },
        }
    } else {
        let attrs2 = tr_attrs(&el.attrs, cache, errs, cmap, scopes, diags);
        let children2 = tr_jsx_children(&el.children, cache, errs, cmap, scopes, diags);
        JsxElement {
            name: el.name.clone(),
            attrs: attrs2,
            self_closing: el.self_closing,
            children: children2,
            span: el.span,
        }
    }
}

fn tr_jsx_child(
    c: &JsxChild,
    cache: &Cache,
    errs: &Vec<(String, String)>,
    cmap: &Vec<(String, JsxElement)>,
    scopes: &mut Vec<String>,
    diags: &mut Vec<Diag>,
) -> (r: JsxChild)
    ensures
        ({
            let (vr, vst) = spec_tr_jsx_child(
                view_jsx_child(*c),
                cache@,
                errs@,
                view_cmap(cmap@),
                vst_of(old(scopes)@, old(diags)@),
            );
            view_jsx_child(r) == vr && vst_of(final(scopes)@, final(diags)@) == vst
        }),
    decreases *c,
{
    match c {
        JsxChild::Element(el) => {
            let el2 = tr_jsx_element(el, cache, errs, cmap, scopes, diags);
            if is_named(&el2.name, "Trans") {
                JsxChild::Fragment(el2.children)
            } else {
                JsxChild::Element(el2)
            }
        },
        JsxChild::Fragment(children) => JsxChild::Fragment(
            tr_jsx_children(children, cache, errs, cmap, scopes, diags),
        ),
        JsxChild::Container(e) => JsxChild::Container(
            tr_expr(e, cache, errs, cmap, scopes, diags),
        ),
        _ => crate::ast::copy_jsx_child(c),
    }
}

fn tr_jsx_children(
    v: &Vec<JsxChild>,
    cache: &Cache,
    errs: &Vec<(String, String)>,
    cmap: &Vec<(String, JsxElement)>,
    scopes: &mut Vec<String>,
    diags: &mut Vec<Diag>,
) -> (r: Vec<JsxChild>)
    ensures
        ({
            let (vr, vst) = spec_tr_jsx_children(
                view_children(v@),
                cache@,
                errs@,
                view_cmap(cmap@),
                vst_of(old(scopes)@, old(diags)@),
            );
            view_children(r@) == vr && vst_of(final(scopes)@, final(diags)@) == vst
        }),
    decreases v@,
{
    let ghost vs = view_children(v@);
    let ghost st0 = vst_of(scopes@, diags@);
    let mut out: Vec<JsxChild> = Vec::new();
    let n = v.len();
    proof {
        lemma_view_children_index(v@);
        assert(vs.skip(0) =~= vs);
        assert(view_children(out@) =~= Seq::<VJsxChild>::empty());
    }
    let mut i: usize = 0;
    while i < n
        invariant
            i <= n,
            n == v@.len(),
            vs == view_children(v@),
            vs.len() == n,
            forall|j: int| #![auto] 0 <= j < n ==> vs[j] == view_jsx_child(v@[j]),
            spec_tr_jsx_children(vs, cache@, errs@, view_cmap(cmap@), st0) == ({
                let (rest, stf) = spec_tr_jsx_children(
                    vs.skip(i as int),
                    cache@,
                    errs@,
                    view_cmap(cmap@),
                    vst_of(scopes@, diags@),
                );
                (view_children(out@) + rest, stf)
            }),
        decreases n - i,
    {
        proof {
            assert(vs.skip(i as int)[0] == vs[i as int]);
            assert(vs.skip(i as int).drop_first() =~= vs.skip(i as int + 1));
        }
        let ghost old_out = out@;
        let x = tr_jsx_child(&v[i], cache, errs, cmap, scopes, diags);
        out.push(x);
        proof {
            lemma_view_children_index(old_out);
            lemma_view_children_index(out@);
            let h = view_jsx_child(out@.last());
            assert(view_children(out@) =~= view_children(old_out).push(h));
            assert(view_children(out@) + spec_tr_jsx_children(
                vs.skip(i as int + 1),
                cache@,
                errs@,
                view_cmap(cmap@),
                vst_of(scopes@, diags@),
            ).0 =~= view_children(old_out) + (seq![h] + spec_tr_jsx_children(
                vs.skip(i as int + 1),
                cache@,
                errs@,
                view_cmap(cmap@),
                vst_of(scopes@, diags@),
            ).0));
        }
        i = i + 1;
    }
    proof {
        assert(vs.skip(n as int) =~= Seq::<VJsxChild>::empty());
        assert(view_children(out@) + Seq::<VJsxChild>::empty() =~= view_children(out@));
    }
    out
}

fn tr_decls(
    v: &Vec<Declarator>,
    cache: &Cache,
    errs: &Vec<(String, String)>,
    cmap: &Vec<(String, JsxElement)>,
    scopes: &mut Vec<String>,
    diags: &mut Vec<Diag>,
) -> (r: Vec<Declarator>)
    ensures
        ({
            let (vr, vst) = spec_tr_decls(
                view_decls(v@),
                cache@,
                errs@,
                view_cmap(cmap@),
                vst_of(old(scopes)@, old(diags)@),
            );
            view_decls(r@) == vr && vst_of(final(scopes)@, final(diags)@) == vst
        }),
    decreases v@,
{
    let ghost vs = view_decls(v@);
    let ghost st0 = vst_of(scopes@, diags@);
    let mut out: Vec<Declarator> = Vec::new();
    let n = v.len();
    proof {
        lemma_view_decls_index(v@);
        assert(vs.skip(0) =~= vs);
        assert(view_decls(out@) =~= Seq::<VDeclarator>::empty());
    }
    let mut i: usize = 0;
    while i < n
        invariant
            i <= n,
            n == v@.len(),
            vs == view_decls(v@),
            vs.len() == n,
            forall|j: int| #![auto] 0 <= j < n ==> vs[j] == view_declarator(v@[j]),
            spec_tr_decls(vs, cache@, errs@, view_cmap(cmap@), st0) == ({
                let (rest, stf) = spec_tr_decls(
                    vs.skip(i as int),
                    cache@,
                    errs@,
                    view_cmap(cmap@),
                    vst_of(scopes@, diags@),
                );
                (view_decls(out@) + rest, stf)
            }),
        decreases n - i,
    {
        proof {
            assert(vs.skip(i as int)[0] == vs[i as int]);
            assert(vs.skip(i as int).drop_first() =~= vs.skip(i as int + 1));
        }
        let ghost old_out = out@;
        let x = match &v[i].init {
            Some(e) => Declarator {
                pat: v[i].pat,
                init: Some(tr_expr(e, cache, errs, cmap, scopes, diags)),
            },
            None => Declarator { pat: v[i].pat, init: None },
        };
        out.push(x);
        proof {
            lemma_view_decls_index(old_out);
            lemma_view_decls_index(out@);
            let h = view_declarator(out@.last());
            assert(view_decls(out@) =~= view_decls(old_out).push(h));
            assert(view_decls(out@) + spec_tr_decls(
                vs.skip(i as int + 1),
                cache@,
                errs@,
                view_cmap(cmap@),
                vst_of(scopes@, diags@),
            ).0 =~= view_decls(old_out) + (seq![h] + spec_tr_decls(
                vs.skip(i as int + 1),
                cache@,
                errs@,
                view_cmap(cmap@),
                vst_of(scopes@, diags@),
            ).0));
        }
        i = i + 1;
    }
    proof {
        assert(vs.skip(n as int) =~= Seq::<VDeclarator>::empty());
        assert(view_decls(out@) + Seq::<VDeclarator>::empty() =~= view_decls(out@));
    }
    out
}

/// Removes the placeholders left by deleted declarations, keeping order.
fn sweep_stmts(v: Vec<Stmt>) -> (r: Vec<Stmt>)
    ensures
        view_stmts(r@) == spec_sweep_stmts(view_stmts(v@)),
{
    let ghost vs = view_stmts(v@);
    let mut out: Vec<Stmt> = Vec::new();
    let n = v.len();
    proof {
        lemma_view_stmts_index(v@);
        assert(vs.take(0) =~= Seq::<VStmt>::empty());
        assert(view_stmts(out@) =~= spec_sweep_stmts(vs.take(0)));
    }
    let mut i: usize = 0;
    while i < n
        invariant
            i <= n,
            n == v@.len(),
            vs == view_stmts(v@),
            vs.len() == n,
            forall|j: int| #![auto] 0 <= j < n ==> vs[j] == view_stmt(v@[j]),
            view_stmts(out@) == spec_sweep_stmts(vs.take(i as int)),
        decreases n - i,
    {
        let keep = match &v[i] {
            Stmt::Empty => false,
            _ => true,
        };
        proof {
            assert(vs.take(i as int + 1).drop_last() =~= vs.take(i as int));
            assert(vs.take(i as int + 1).last() == vs[i as int]);
            reveal(Seq::filter);
        }
        if keep {
            let ghost old_out = out@;
            let x = crate::ast::copy_stmt(&v[i]);
            out.push(x);
            proof {
                lemma_view_stmts_index(old_out);
                lemma_view_stmts_index(out@);
                assert(view_stmts(out@) =~= view_stmts(old_out).push(vs[i as int]));
            }
        }
        i = i + 1;
    }
    proof {
        assert(vs.take(n as int) =~= vs);
    }
    out
}

fn tr_stmt(
    s: &Stmt,
    cache: &Cache,
    errs: &Vec<(String, String)>,
    cmap: &Vec<(String, JsxElement)>,
    scopes: &mut Vec<String>,
    diags: &mut Vec<Diag>,
) -> (r: Stmt)
    ensures
        ({
            let (vr, vst) = spec_tr_stmt(
                view_stmt(*s),
                cache@,
                errs@,
                view_cmap(cmap@),
                vst_of(old(scopes)@, old(diags)@),
            );
            view_stmt(r) == vr && vst_of(final(scopes)@, final(diags)@) == vst
        }),
    decreases *s,
{
    match s {
        Stmt::VarDecl(d) => {
            let hook = d.decls.len() > 0 && (match &d.decls[0].init {
                Some(e0) => match e0 {
                    Expr::Call(callee, _a) => match &**callee {
                        Expr::Ident(nm) => is_named(nm, "useTranslation"),
                        _ => false,
                    },
                    _ => false,
                },
                None => false,
            });
            proof {
                lemma_view_decls_index(d.decls@);
            }
            if hook {
                let mut fresh: Vec<String> = Vec::new();
                core::mem::swap(scopes, &mut fresh);
                proof {
                    assert(view_strings(scopes@) =~= Seq::<Seq<char>>::empty());
                }
                match &d.decls[0].init {
                    Some(e0) => match e0 {
                        Expr::Call(_callee, args) => {
                            proof {
                                lemma_view_args_index(args@);
                            }
                            if args.len() > 0 {
                                match &args[0].expr {
                                    Expr::Array(elems) => {
                                        scope_elems(elems, errs, scopes, diags);
                                    },
                                    Expr::Str(lit) => {
                                        scope_arg(lit, errs, scopes, diags);
                                    },
                                    _ => {},
                                }
                            }
                        },
                        _ => {},
                    },
                    None => {},
                }
                Stmt::Empty
            } else {
                Stmt::VarDecl(VarDeclStmt { decls: tr_decls(&d.decls, cache, errs, cmap, scopes, diags) })
            }
        },
        Stmt::Expr(e) => Stmt::Expr(tr_expr(e, cache, errs, cmap, scopes, diags)),
        Stmt::Block(ss) => Stmt::Block(sweep_stmts(tr_stmts(ss, cache, errs, cmap, scopes, diags))),
        Stmt::Func(h, ss) => Stmt::Func(
            *h,
            sweep_stmts(tr_stmts(ss, cache, errs, cmap, scopes, diags)),
        ),
        Stmt::Return(oe) => match oe {
            Some(e) => Stmt::Return(Some(tr_expr(e, cache, errs, cmap, scopes, diags))),
            None => Stmt::Return(None),
        },
        Stmt::Empty => Stmt::Empty,
        Stmt::Opaque(h) => Stmt::Opaque(*h),
    }
}

fn tr_stmts(
    v: &Vec<Stmt>,
    cache: &Cache,
    errs: &Vec<(String, String)>,
    cmap: &Vec<(String, JsxElement)>,
    scopes: &mut Vec<String>,
    diags: &mut Vec<Diag>,
) -> (r: Vec<Stmt>)
    ensures
        ({
            let (vr, vst) = spec_tr_stmts(
                view_stmts(v@),
                cache@,
                errs@,
                view_cmap(cmap@),
                vst_of(old(scopes)@, old(diags)@),
            );
            view_stmts(r@) == vr && vst_of(final(scopes)@, final(diags)@) == vst
        }),
    decreases v@,
{
    let ghost vs = view_stmts(v@);
    let ghost st0 = vst_of(scopes@, diags@);
    let mut out: Vec<Stmt> = Vec::new();
    let n = v.len();
    proof {
        lemma_view_stmts_index(v@);
        assert(vs.skip(0) =~= vs);
        assert(view_stmts(out@) =~= Seq::<VStmt>::empty());
    }
    let mut i: usize = 0;
    while i < n
        invariant
            i <= n,
            n == v@.len(),
            vs == view_stmts(v@),
            vs.len() == n,
            forall|j: int| #![auto] 0 <= j < n ==> vs[j] == view_stmt(v@[j]),
            spec_tr_stmts(vs, cache@, errs@, view_cmap(cmap@), st0) == ({
                let (rest, stf) = spec_tr_stmts(
                    vs.skip(i as int),
                    cache@,
                    errs@,
                    view_cmap(cmap@),
                    vst_of(scopes@, diags@),
                );
                (view_stmts(out@) + rest, stf)
            }),
        decreases n - i,
    {
        proof {
            assert(vs.skip(i as int)[0] == vs[i as int]);
            assert(vs.skip(i as int).drop_first() =~= vs.skip(i as int + 1));
        }
        let ghost old_out = out@;
        let x = tr_stmt(&v[i], cache, errs, cmap, scopes, diags);
        out.push(x);
        proof {
            lemma_view_stmts_index(old_out);
            lemma_view_stmts_index(out@);
            let h = view_stmt(out@.last());
            assert(view_stmts(out@) =~= view_stmts(old_out).push(h));
            assert(view_stmts(out@) + spec_tr_stmts(
                vs.skip(i as int + 1),
                cache@,
                errs@,
                view_cmap(cmap@),
                vst_of(scopes@, diags@),
            ).0 =~= view_stmts(old_out) + (seq![h] + spec_tr_stmts(
                vs.skip(i as int + 1),
                cache@,
                errs@,
                view_cmap(cmap@),
                vst_of(scopes@, diags@),
            ).0));
        }
        i = i + 1;
    }
    proof {
        assert(vs.skip(n as int) =~= Seq::<VStmt>::empty());
        assert(view_stmts(out@) + Seq::<VStmt>::empty() =~= view_stmts(out@));
    }
    out
}

fn tr_items(
    v: &Vec<ModuleItem>,
    cache: &Cache,
    errs: &Vec<(String, String)>,
    cmap: &Vec<(String, JsxElement)>,
    scopes: &mut Vec<String>,
    diags: &mut Vec<Diag>,
) -> (r: Vec<ModuleItem>)
    ensures
        ({
            let (vr, vst) = spec_tr_items(
                view_items(v@),
                cache@,
                errs@,
                view_cmap(cmap@),
                vst_of(old(scopes)@, old(diags)@),
            );
            view_items(r@) == vr && vst_of(final(scopes)@, final(diags)@) == vst
        }),
    decreases v@,
{
    let ghost vs = view_items(v@);
    let ghost st0 = vst_of(scopes@, diags@);
    let mut out: Vec<ModuleItem> = Vec::new();
    let n = v.len();
    proof {
        lemma_view_items_index(v@);
        assert(vs.skip(0) =~= vs);
        assert(view_items(out@) =~= Seq::<VModuleItem>::empty());
    }
    let mut i: usize = 0;
    while i < n
        invariant
            i <= n,
            n == v@.len(),
            vs == view_items(v@),
            vs.len() == n,
            forall|j: int| #![auto] 0 <= j < n ==> vs[j] == view_item(v@[j]),
            spec_tr_items(vs, cache@, errs@, view_cmap(cmap@), st0) == ({
                let (rest, stf) = spec_tr_items(
                    vs.skip(i as int),
                    cache@,
                    errs@,
                    view_cmap(cmap@),
                    vst_of(scopes@, diags@),
                );
                (view_items(out@) + rest, stf)
            }),
        decreases n - i,
    {
        proof {
            assert(vs.skip(i as int)[0] == vs[i as int]);
            assert(vs.skip(i as int).drop_first() =~= vs.skip(i as int + 1));
        }
        let ghost old_out = out@;
        let x = match &v[i] {
            ModuleItem::Stmt(st) => ModuleItem::Stmt(tr_stmt(st, cache, errs, cmap, scopes, diags)),
            ModuleItem::Import(src, h) => ModuleItem::Import(src.clone(), *h),
            ModuleItem::Opaque(h) => ModuleItem::Opaque(*h),
        };
        out.push(x);
        proof {
            lemma_view_items_index(old_out);
            lemma_view_items_index(out@);
            let h = view_item(out@.last());
            assert(view_items(out@) =~= view_items(old_out).push(h));
            assert(view_items(out@) + spec_tr_items(
                vs.skip(i as int + 1),
                cache@,
                errs@,
                view_cmap(cmap@),
                vst_of(scopes@, diags@),
            ).0 =~= view_items(old_out) + (seq![h] + spec_tr_items(
                vs.skip(i as int + 1),
                cache@,
                errs@,
                view_cmap(cmap@),
                vst_of(scopes@, diags@),
            ).0));
        }
        i = i + 1;
    }
    proof {
        assert(vs.skip(n as int) =~= Seq::<VModuleItem>::empty());
        assert(view_items(out@) + Seq::<VModuleItem>::empty() =~= view_items(out@));
    }
    out
}

/// Removes the statements marked as deleted placeholders and the imports of
/// the translation library, keeping order.
fn sweep_items(v: Vec<ModuleItem>) -> (r: Vec<ModuleItem>)
    ensures
        view_items(r@) == spec_sweep_items(view_items(v@)),
{
    let ghost vs = view_items(v@);
    let mut out: Vec<ModuleItem> = Vec::new();
    let n = v.len();
    proof {
        lemma_view_items_index(v@);
        assert(vs.take(0) =~= Seq::<VModuleItem>::empty());
        assert(view_items(out@) =~= spec_sweep_items(vs.take(0)));
    }
    let mut i: usize = 0;
    while i < n
        invariant
            i <= n,
            n == v@.len(),
            vs == view_items(v@),
            vs.len() == n,
            forall|j: int| #![auto] 0 <= j < n ==> vs[j] == view_item(v@[j]),
            view_items(out@) == spec_sweep_items(vs.take(i as int)),
        decreases n - i,
    {
        let keep = match &v[i] {
            ModuleItem::Stmt(Stmt::Empty) => false,
            ModuleItem::Import(src, _h) => !is_named(src, "react-i18next"),
            _ => true,
        };
        proof {
            assert(vs.take(i as int + 1).drop_last() =~= vs.take(i as int));
            assert(vs.take(i as int + 1).last() == vs[i as int]);
            assert(keep == kept_item(vs[i as int]));
            reveal(Seq::filter);
        }
        if keep {
            let ghost old_out = out@;
            let x = match &v[i] {
                ModuleItem::Stmt(st) => ModuleItem::Stmt(crate::ast::copy_stmt(st)),
                ModuleItem::Import(src, h) => ModuleItem::Import(src.clone(), *h),
                ModuleItem::Opaque(h) => ModuleItem::Opaque(*h),
            };
            out.push(x);
            proof {
                lemma_view_items_index(old_out);
                lemma_view_items_index(out@);
                assert(view_items(out@) =~= view_items(old_out).push(vs[i as int]));
            }
        }
        i = i + 1;
    }
    proof {
        assert(vs.take(n as int) =~= vs);
    }
    out
}

fn find_unsupported(diags: &Vec<Diag>) -> (r: Option<Diag>)
    ensures
        r matches Some(d) ==> first_unsupported(view_diags(diags@)) == Some(view_diag(d)),
        r is None ==> first_unsupported(view_diags(diags@)) is None,
{
    let ghost vs = view_diags(diags@);
    let n = diags.len();
    proof {
        assert(vs.skip(0) =~= vs);
    }
    let mut i: usize = 0;
    while i < n
        invariant
            i <= n,
            n == diags@.len(),
            vs == view_diags(diags@),
            vs.len() == n,
            first_unsupported(vs) == first_unsupported(vs.skip(i as int)),
        decreases n - i,
    {
        proof {
            assert(vs.skip(i as int)[0] == vs[i as int]);
            assert(vs.skip(i as int).drop_first() =~= vs.skip(i as int + 1));
        }
        let is_unsup = match diags[i].kind {
            DiagKind::Unsupported => true,
            _ => false,
        };
        if is_unsup {
            let d = Diag {
                kind: diags[i].kind,
                span: diags[i].span,
                detail: diags[i].detail.clone(),
            };
            return Some(d);
        }
        i = i + 1;
    }
    proof {
        assert(vs.skip(n as int) =~= Seq::<VDiag>::empty());
    }
    None
}

/// Transforms a whole module: translate calls are resolved and rewritten,
/// the translation hook's declarations and the library's imports are swept
/// out, and every failure is reported as a location-tagged diagnostic. An
/// unsupported-feature diagnostic is a hard failure and is returned as the
/// error instead.
pub fn transform_module(
    items: &Vec<ModuleItem>,
    cache: &Cache,
    load_errors: &Vec<(String, String)>,
) -> (r: Result<(Vec<ModuleItem>, Vec<Diag>), Diag>)
    ensures
        ({
            let (vitems, vst) = spec_transform(view_items(items@), cache@, load_errors@);
            match r {
                Ok((out, ds)) => view_items(out@) == vitems && view_diags(ds@) == vst.diags
                    && first_unsupported(vst.diags) is None,
                Err(d) => Some(view_diag(d)) == first_unsupported(vst.diags),
            }
        }),
{
    let mut scopes: Vec<String> = Vec::new();
    let mut diags: Vec<Diag> = Vec::new();
    let cmap: Vec<(String, JsxElement)> = Vec::new();
    proof {
        assert(view_strings(scopes@) =~= Seq::<Seq<char>>::empty());
        assert(view_diags(diags@) =~= Seq::<VDiag>::empty());
        assert(view_cmap(cmap@) =~= Seq::<(Seq<char>, VJsxElement)>::empty());
    }
    let out = tr_items(items, cache, load_errors, &cmap, &mut scopes, &mut diags);
    let swept = sweep_items(out);
    match find_unsupported(&diags) {
        Some(d) => Err(d),
        None => Ok((swept, diags)),
    }
}


// ---------------------------------------------------------------------------
// Laws of the rewrite
// ---------------------------------------------------------------------------

/// The view of a one-argument translate call on a literal key.
pub open spec fn t_call_one(lit: VStrLit) -> VExpr {
    VExpr::Call(
        Box::new(VExpr::Ident("t"@)),
        seq![VArg { spread: false, expr: VExpr::Str(lit) }],
    )
}

/// The view of a two-argument translate call on a literal key.
pub open spec fn t_call_two(lit: VStrLit, second: VArg) -> VExpr {
    VExpr::Call(
        Box::new(VExpr::Ident("t"@)),
        seq![VArg { spread: false, expr: VExpr::Str(lit) }, second],
    )
}

/// Law: a one-argument translate call whose key resolves, and whose resolved
/// text parses as a fragment with no element children, becomes a string
/// literal holding exactly the resolved value; the traversal state does not
/// change.
pub proof fn lemma_one_arg_literal(
    lit: VStrLit,
    cv: CacheView,
    errs: Seq<(String, String)>,
    cmap: Seq<(Seq<char>, VJsxElement)>,
    st: VSt,
    value: Seq<char>,
)
    requires
        spec_resolve(cv, st.scopes, lit.value) == Some(value),
        crate::markup::spec_parse_items(value, 0) matches Some(pr) && pr.1 == value.len()
            && !crate::markup::has_element_child(pr.0),
    ensures
        spec_tr_expr(t_call_one(lit), cv, errs, cmap, st) == (
            VExpr::Str(VStrLit { value, span: crate::ast::zero_span() }),
            st,
        ),
{
    reveal_strlit("t");
    reveal_strlit("useEffect");
    reveal_strlit("useCallback");
    reveal_strlit("useMemo");
    crate::markup::lemma_splice_no_elements(value, cmap);
}

/// Law: a one-argument translate call whose key does not resolve — missing
/// namespace or missing key — is left exactly as it was, and exactly one
/// diagnostic is reported, at the key literal's location and naming the key.
pub proof fn lemma_missing_key_unchanged(
    lit: VStrLit,
    cv: CacheView,
    errs: Seq<(String, String)>,
    cmap: Seq<(Seq<char>, VJsxElement)>,
    st: VSt,
)
    requires
        spec_resolve(cv, st.scopes, lit.value) is None,
    ensures
        spec_tr_expr(t_call_one(lit), cv, errs, cmap, st) == (
            t_call_one(lit),
            VSt { scopes: st.scopes, diags: st.diags.push(key_not_found_diag(lit)) },
        ),
{
    reveal_strlit("t");
    reveal_strlit("useEffect");
    reveal_strlit("useCallback");
    reveal_strlit("useMemo");
}

/// Law: a translate call whose second argument is an identifier reference
/// or an inline object literal that the rewrite leaves as it is, when its
/// key resolves to a template that splits into the given parts, becomes the
/// one-parameter wrapper over exactly those parts — one slot per `{{name}}`
/// placeholder, in order — immediately invoked with that second argument,
/// preserved verbatim.
pub proof fn lemma_two_arg_wrapper(
    lit: VStrLit,
    second: VExpr,
    cv: CacheView,
    errs: Seq<(String, String)>,
    cmap: Seq<(Seq<char>, VJsxElement)>,
    st: VSt,
    value: Seq<char>,
    parts: Seq<crate::ast::VTplPart>,
)
    requires
        spec_resolve(cv, st.scopes, lit.value) == Some(value),
        spec_split_placeholders(value) == Some(parts),
        second is Ident || second is Object,
        spec_tr_expr(second, cv, errs, cmap, st) == (second, st),
    ensures
        spec_tr_expr(
            t_call_two(lit, VArg { spread: false, expr: second }),
            cv,
            errs,
            cmap,
            st,
        ) == (spec_interpolation_call(parts, VArg { spread: false, expr: second }), st),
{
    reveal_strlit("t");
    reveal_strlit("useEffect");
    reveal_strlit("useCallback");
    reveal_strlit("useMemo");
}

/// Law: with an identifier as the second argument — which the rewrite never
/// touches — the wrapper invocation carries that identifier itself.
pub proof fn lemma_two_arg_wrapper_ident(
    lit: VStrLit,
    v: Seq<char>,
    cv: CacheView,
    errs: Seq<(String, String)>,
    cmap: Seq<(Seq<char>, VJsxElement)>,
    st: VSt,
    value: Seq<char>,
    parts: Seq<crate::ast::VTplPart>,
)
    requires
        spec_resolve(cv, st.scopes, lit.value) == Some(value),
        spec_split_placeholders(value) == Some(parts),
    ensures
        spec_tr_expr(
            t_call_two(lit, VArg { spread: false, expr: VExpr::Ident(v) }),
            cv,
            errs,
            cmap,
            st,
        ) == (spec_interpolation_call(parts, VArg { spread: false, expr: VExpr::Ident(v) }), st),
{
    lemma_two_arg_wrapper(lit, VExpr::Ident(v), cv, errs, cmap, st, value, parts);
}

/// Law: dependency-array scrubbing removes exactly the entries that are bare
/// references to the translate binding: no such reference survives, every
/// other entry is kept, relative order is preserved, and an array with no
/// such reference — of any length, including none — is unchanged.
pub proof fn lemma_scrub_exact(elems: Seq<Option<VArg>>)
    ensures
        spec_scrub(elems).len() <= elems.len(),
        forall|i: int| 0 <= i < spec_scrub(elems).len() ==> !is_t_ref(
            #[trigger] spec_scrub(elems)[i],
        ),
        forall|i: int| 0 <= i < elems.len() && !is_t_ref(#[trigger] elems[i]) ==> spec_scrub(
            elems,
        ).contains(elems[i]),
        (forall|i: int| 0 <= i < elems.len() ==> !is_t_ref(#[trigger] elems[i])) ==> spec_scrub(
            elems,
        ) == elems,
    decreases elems.len(),
{
    reveal(Seq::filter);
    if elems.len() > 0 {
        let dl = elems.drop_last();
        lemma_scrub_exact(dl);
        assert(forall|i: int| 0 <= i < dl.len() ==> #[trigger] dl[i] == elems[i]);
        if !is_t_ref(elems.last()) {
            assert(spec_scrub(elems) == spec_scrub(dl).push(elems.last()));
            assert(spec_scrub(elems)[spec_scrub(dl).len() as int] == elems.last());
        } else {
            assert(spec_scrub(elems) == spec_scrub(dl));
        }
        assert forall|i: int|
            0 <= i < elems.len() && !is_t_ref(#[trigger] elems[i]) implies spec_scrub(
            elems,
        ).contains(elems[i]) by {
            if i < elems.len() - 1 {
                assert(spec_scrub(dl).contains(dl[i]));
                let j = choose|j: int| 0 <= j < spec_scrub(dl).len() && spec_scrub(dl)[j] == dl[i];
                assert(spec_scrub(elems)[j] == elems[i]);
            } else {
                assert(spec_scrub(elems).last() == elems[i]);
            }
        }
        if forall|i: int| 0 <= i < elems.len() ==> !is_t_ref(#[trigger] elems[i]) {
            assert(spec_scrub(dl) == dl);
            assert(spec_scrub(elems) =~= elems);
        }
    }
}

} // verus!
