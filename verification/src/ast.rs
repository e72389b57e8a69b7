//! The syntax-tree model: a closed set of node kinds.
//!
//! The rewriter works on this tree alone. Shapes that the rewrite rules never
//! inspect are carried as opaque handles, so unmatched nodes are provably
//! left intact. Each executable node kind has a mathematical view, used by
//! every contract.

use vstd::prelude::*;

verus! {

/// A source position carried for diagnostics; nodes created by the rewriter
/// carry the zero span.
#[derive(Clone, Copy, PartialEq, Eq, Structural, Debug)]
pub struct Span {
    pub lo: u32,
    pub hi: u32,
}

pub open spec fn zero_span() -> Span {
    Span { lo: 0, hi: 0 }
}

pub fn make_zero_span() -> (s: Span)
    ensures
        s == zero_span(),
{
    Span { lo: 0, hi: 0 }
}

// ---------------------------------------------------------------------------
// Mathematical views
// ---------------------------------------------------------------------------

pub struct VStrLit {
    pub value: Seq<char>,
    pub span: Span,
}

pub enum VTplPart {
    Text(Seq<char>),
    Slot(Seq<char>),
}

pub enum VExpr {
    Ident(Seq<char>),
    Str(VStrLit),
    Tpl(Seq<VTplPart>),
    Object(Seq<VProp>),
    Array(Seq<Option<VArg>>),
    Call(Box<VExpr>, Seq<VArg>),
    Paren(Box<VExpr>),
    Arrow(Seq<Seq<char>>, Box<VArrowBody>),
    Jsx(Box<VJsxElement>),
    JsxFrag(Seq<VJsxChild>),
    Opaque(u64),
}

pub struct VArg {
    pub spread: bool,
    pub expr: VExpr,
}

pub enum VProp {
    KeyValue(Seq<char>, VExpr),
    Opaque(u64),
}

pub enum VArrowBody {
    Block(Seq<VStmt>),
    Expr(VExpr),
}

pub struct VJsxElement {
    pub name: Seq<char>,
    pub attrs: Seq<VJsxAttr>,
    pub self_closing: bool,
    pub children: Seq<VJsxChild>,
    pub span: Span,
}

pub enum VJsxAttr {
    Named(Seq<char>, VJsxAttrValue),
    Opaque(u64),
}

pub enum VJsxAttrValue {
    Str(VStrLit),
    Expr(VExpr),
    Empty,
    Opaque(u64),
}

pub enum VJsxChild {
    Text(Seq<char>),
    Element(VJsxElement),
    Fragment(Seq<VJsxChild>),
    Container(VExpr),
    Opaque(u64),
}

pub struct VDeclarator {
    pub pat: u64,
    pub init: Option<VExpr>,
}

pub struct VVarDecl {
    pub decls: Seq<VDeclarator>,
}

pub enum VStmt {
    VarDecl(VVarDecl),
    Expr(VExpr),
    Block(Seq<VStmt>),
    Func(u64, Seq<VStmt>),
    Return(Option<VExpr>),
    Empty,
    Opaque(u64),
}

pub enum VModuleItem {
    Import(Seq<char>, u64),
    Stmt(VStmt),
    Opaque(u64),
}

// ---------------------------------------------------------------------------
// Executable tree
// ---------------------------------------------------------------------------

pub struct StrLit {
    pub value: String,
    pub span: Span,
}

/// One piece of a template expression: a literal run, or an interpolation
/// slot that reads the named member of the enclosing wrapper's parameter.
pub enum TplPart {
    Text(String),
    Slot(String),
}

pub enum Expr {
    Ident(String),
    Str(StrLit),
    Tpl(Vec<TplPart>),
    Object(Vec<Prop>),
    Array(Vec<Option<Arg>>),
    Call(Box<Expr>, Vec<Arg>),
    Paren(Box<Expr>),
    Arrow(Vec<String>, Box<ArrowBody>),
    Jsx(Box<JsxElement>),
    JsxFrag(Vec<JsxChild>),
    Opaque(u64),
}

pub struct Arg {
    pub spread: bool,
    pub expr: Expr,
}

pub enum Prop {
    KeyValue(String, Expr),
    Opaque(u64),
}

pub enum ArrowBody {
    Block(Vec<Stmt>),
    Expr(Expr),
}

pub struct JsxElement {
    pub name: String,
    pub attrs: Vec<JsxAttr>,
    pub self_closing: bool,
    pub children: Vec<JsxChild>,
    pub span: Span,
}

pub enum JsxAttr {
    Named(String, JsxAttrValue),
    Opaque(u64),
}

pub enum JsxAttrValue {
    Str(StrLit),
    Expr(Expr),
    Empty,
    Opaque(u64),
}

pub enum JsxChild {
    Text(String),
    Element(JsxElement),
    Fragment(Vec<JsxChild>),
    Container(Expr),
    Opaque(u64),
}

pub struct Declarator {
    pub pat: u64,
    pub init: Option<Expr>,
}

pub struct VarDeclStmt {
    pub decls: Vec<Declarator>,
}

pub enum Stmt {
    VarDecl(VarDeclStmt),
    Expr(Expr),
    Block(Vec<Stmt>),
    Func(u64, Vec<Stmt>),
    Return(Option<Expr>),
    Empty,
    Opaque(u64),
}

pub enum ModuleItem {
    Import(String, u64),
    Stmt(Stmt),
    Opaque(u64),
}

// ---------------------------------------------------------------------------
// Views of the executable tree
// ---------------------------------------------------------------------------

pub open spec fn view_str_lit(l: StrLit) -> VStrLit {
    VStrLit { value: l.value@, span: l.span }
}

pub open spec fn view_tpl_part(p: TplPart) -> VTplPart {
    match p {
        TplPart::Text(s) => VTplPart::Text(s@),
        TplPart::Slot(s) => VTplPart::Slot(s@),
    }
}

pub open spec fn view_tpl_parts(s: Seq<TplPart>) -> Seq<VTplPart> {
    s.map_values(|p: TplPart| view_tpl_part(p))
}

pub open spec fn view_strings(s: Seq<String>) -> Seq<Seq<char>> {
    s.map_values(|x: String| x@)
}

pub open spec fn view_expr(e: Expr) -> VExpr
    decreases e,
{
    match e {
        Expr::Ident(s) => VExpr::Ident(s@),
        Expr::Str(l) => VExpr::Str(view_str_lit(l)),
        Expr::Tpl(parts) => VExpr::Tpl(view_tpl_parts(parts@)),
        Expr::Object(props) => VExpr::Object(view_props(props@)),
        Expr::Array(elems) => VExpr::Array(view_opt_args(elems@)),
        Expr::Call(callee, args) => VExpr::Call(Box::new(view_expr(*callee)), view_args(args@)),
        Expr::Paren(inner) => VExpr::Paren(Box::new(view_expr(*inner))),
        Expr::Arrow(params, body) => VExpr::Arrow(
            view_strings(params@),
            Box::new(view_arrow_body(*body)),
        ),
        Expr::Jsx(el) => VExpr::Jsx(Box::new(view_jsx_element(*el))),
        Expr::JsxFrag(children) => VExpr::JsxFrag(view_children(children@)),
        Expr::Opaque(h) => VExpr::Opaque(h),
    }
}

pub open spec fn view_arg(a: Arg) -> VArg
    decreases a,
{
    VArg { spread: a.spread, expr: view_expr(a.expr) }
}

pub open spec fn view_args(s: Seq<Arg>) -> Seq<VArg>
    decreases s,
{
    if s.len() == 0 {
        Seq::empty()
    } else {
        seq![view_arg(s[0])] + view_args(s.drop_first())
    }
}

pub open spec fn view_opt_args(s: Seq<Option<Arg>>) -> Seq<Option<VArg>>
    decreases s,
{
    if s.len() == 0 {
        Seq::empty()
    } else {
        seq![
            match s[0] {
                Some(a) => Some(view_arg(a)),
                None => None,
            },
        ] + view_opt_args(s.drop_first())
    }
}

pub open spec fn view_prop(p: Prop) -> VProp
    decreases p,
{
    match p {
        Prop::KeyValue(k, v) => VProp::KeyValue(k@, view_expr(v)),
        Prop::Opaque(h) => VProp::Opaque(h),
    }
}

pub open spec fn view_props(s: Seq<Prop>) -> Seq<VProp>
    decreases s,
{
    if s.len() == 0 {
        Seq::empty()
    } else {
        seq![view_prop(s[0])] + view_props(s.drop_first())
    }
}

pub open spec fn view_arrow_body(b: ArrowBody) -> VArrowBody
    decreases b,
{
    match b {
        ArrowBody::Block(stmts) => VArrowBody::Block(view_stmts(stmts@)),
        ArrowBody::Expr(e) => VArrowBody::Expr(view_expr(e)),
    }
}

pub open spec fn view_jsx_element(el: JsxElement) -> VJsxElement
    decreases el,
{
    VJsxElement {
        name: el.name@,
        attrs: view_attrs(el.attrs@),
        self_closing: el.self_closing,
        children: view_children(el.children@),
        span: el.span,
    }
}

pub open spec fn view_attr(a: JsxAttr) -> VJsxAttr
    decreases a,
{
    match a {
        JsxAttr::Named(n, v) => VJsxAttr::Named(n@, view_attr_value(v)),
        JsxAttr::Opaque(h) => VJsxAttr::Opaque(h),
    }
}

pub open spec fn view_attrs(s: Seq<JsxAttr>) -> Seq<VJsxAttr>
    decreases s,
{
    if s.len() == 0 {
        Seq::empty()
    } else {
        seq![view_attr(s[0])] + view_attrs(s.drop_first())
    }
}

pub open spec fn view_attr_value(v: JsxAttrValue) -> VJsxAttrValue
    decreases v,
{
    match v {
        JsxAttrValue::Str(l) => VJsxAttrValue::Str(view_str_lit(l)),
        JsxAttrValue::Expr(e) => VJsxAttrValue::Expr(view_expr(e)),
        JsxAttrValue::Empty => VJsxAttrValue::Empty,
        JsxAttrValue::Opaque(h) => VJsxAttrValue::Opaque(h),
    }
}

pub open spec fn view_jsx_child(c: JsxChild) -> VJsxChild
    decreases c,
{
    match c {
        JsxChild::Text(s) => VJsxChild::Text(s@),
        JsxChild::Element(el) => VJsxChild::Element(view_jsx_element(el)),
        JsxChild::Fragment(children) => VJsxChild::Fragment(view_children(children@)),
        JsxChild::Container(e) => VJsxChild::Container(view_expr(e)),
        JsxChild::Opaque(h) => VJsxChild::Opaque(h),
    }
}

pub open spec fn view_children(s: Seq<JsxChild>) -> Seq<VJsxChild>
    decreases s,
{
    if s.len() == 0 {
        Seq::empty()
    } else {
        seq![view_jsx_child(s[0])] + view_children(s.drop_first())
    }
}

pub open spec fn view_declarator(d: Declarator) -> VDeclarator
    decreases d,
{
    VDeclarator {
        pat: d.pat,
        init: match d.init {
            Some(e) => Some(view_expr(e)),
            None => None,
        },
    }
}

pub open spec fn view_decls(s: Seq<Declarator>) -> Seq<VDeclarator>
    decreases s,
{
    if s.len() == 0 {
        Seq::empty()
    } else {
        seq![view_declarator(s[0])] + view_decls(s.drop_first())
    }
}

pub open spec fn view_stmt(s: Stmt) -> VStmt
    decreases s,
{
    match s {
        Stmt::VarDecl(d) => VStmt::VarDecl(VVarDecl { decls: view_decls(d.decls@) }),
        Stmt::Expr(e) => VStmt::Expr(view_expr(e)),
        Stmt::Block(stmts) => VStmt::Block(view_stmts(stmts@)),
        Stmt::Func(h, stmts) => VStmt::Func(h, view_stmts(stmts@)),
        Stmt::Return(e) => VStmt::Return(
            match e {
                Some(e0) => Some(view_expr(e0)),
                None => None,
            },
        ),
        Stmt::Empty => VStmt::Empty,
        Stmt::Opaque(h) => VStmt::Opaque(h),
    }
}

pub open spec fn view_stmts(s: Seq<Stmt>) -> Seq<VStmt>
    decreases s,
{
    if s.len() == 0 {
        Seq::empty()
    } else {
        seq![view_stmt(s[0])] + view_stmts(s.drop_first())
    }
}

pub open spec fn view_item(it: ModuleItem) -> VModuleItem
    decreases it,
{
    match it {
        ModuleItem::Import(src, h) => VModuleItem::Import(src@, h),
        ModuleItem::Stmt(s) => VModuleItem::Stmt(view_stmt(s)),
        ModuleItem::Opaque(h) => VModuleItem::Opaque(h),
    }
}

pub open spec fn view_items(s: Seq<ModuleItem>) -> Seq<VModuleItem>
    decreases s,
{
    if s.len() == 0 {
        Seq::empty()
    } else {
        seq![view_item(s[0])] + view_items(s.drop_first())
    }
}


// ---------------------------------------------------------------------------
// Indexing facts about the list views
// ---------------------------------------------------------------------------

pub proof fn lemma_view_args_index(s: Seq<Arg>)
    ensures
        view_args(s).len() == s.len(),
        forall|i: int| #![auto] 0 <= i < s.len() ==> view_args(s)[i] == view_arg(s[i]),
    decreases s.len(),
{
    if s.len() > 0 {
        lemma_view_args_index(s.drop_first());
    }
}

pub proof fn lemma_view_opt_args_index(s: Seq<Option<Arg>>)
    ensures
        view_opt_args(s).len() == s.len(),
        forall|i: int| #![auto] 0 <= i < s.len() ==> view_opt_args(s)[i] == (match s[i] {
            Some(a) => Some(view_arg(a)),
            None => None,
        }),
    decreases s.len(),
{
    if s.len() > 0 {
        lemma_view_opt_args_index(s.drop_first());
    }
}

pub proof fn lemma_view_props_index(s: Seq<Prop>)
    ensures
        view_props(s).len() == s.len(),
        forall|i: int| #![auto] 0 <= i < s.len() ==> view_props(s)[i] == view_prop(s[i]),
    decreases s.len(),
{
    if s.len() > 0 {
        lemma_view_props_index(s.drop_first());
    }
}

pub proof fn lemma_view_attrs_index(s: Seq<JsxAttr>)
    ensures
        view_attrs(s).len() == s.len(),
        forall|i: int| #![auto] 0 <= i < s.len() ==> view_attrs(s)[i] == view_attr(s[i]),
    decreases s.len(),
{
    if s.len() > 0 {
        lemma_view_attrs_index(s.drop_first());
    }
}

pub proof fn lemma_view_children_index(s: Seq<JsxChild>)
    ensures
        view_children(s).len() == s.len(),
        forall|i: int| #![auto] 0 <= i < s.len() ==> view_children(s)[i] == view_jsx_child(s[i]),
    decreases s.len(),
{
    if s.len() > 0 {
        lemma_view_children_index(s.drop_first());
    }
}

pub proof fn lemma_view_decls_index(s: Seq<Declarator>)
    ensures
        view_decls(s).len() == s.len(),
        forall|i: int| #![auto] 0 <= i < s.len() ==> view_decls(s)[i] == view_declarator(s[i]),
    decreases s.len(),
{
    if s.len() > 0 {
        lemma_view_decls_index(s.drop_first());
    }
}

pub proof fn lemma_view_stmts_index(s: Seq<Stmt>)
    ensures
        view_stmts(s).len() == s.len(),
        forall|i: int| #![auto] 0 <= i < s.len() ==> view_stmts(s)[i] == view_stmt(s[i]),
    decreases s.len(),
{
    if s.len() > 0 {
        lemma_view_stmts_index(s.drop_first());
    }
}

pub proof fn lemma_view_items_index(s: Seq<ModuleItem>)
    ensures
        view_items(s).len() == s.len(),
        forall|i: int| #![auto] 0 <= i < s.len() ==> view_items(s)[i] == view_item(s[i]),
    decreases s.len(),
{
    if s.len() > 0 {
        lemma_view_items_index(s.drop_first());
    }
}

// ---------------------------------------------------------------------------
// Structural copies, view-preserving
// ---------------------------------------------------------------------------

pub fn copy_str_lit(l: &StrLit) -> (r: StrLit)
    ensures
        view_str_lit(r) == view_str_lit(*l),
{
    StrLit { value: l.value.clone(), span: l.span }
}

pub fn copy_tpl_parts(v: &Vec<TplPart>) -> (r: Vec<TplPart>)
    ensures
        view_tpl_parts(r@) == view_tpl_parts(v@),
{
    let mut out: Vec<TplPart> = Vec::new();
    let n = v.len();
    let mut i: usize = 0;
    while i < n
        invariant
            i <= n,
            n == v@.len(),
            out@.len() == i,
            forall|j: int| #![auto] 0 <= j < i ==> view_tpl_part(out@[j]) == view_tpl_part(v@[j]),
        decreases n - i,
    {
        let p = match &v[i] {
            TplPart::Text(s) => TplPart::Text(s.clone()),
            TplPart::Slot(s) => TplPart::Slot(s.clone()),
        };
        out.push(p);
        i = i + 1;
    }
    proof {
        assert(view_tpl_parts(out@) =~= view_tpl_parts(v@));
    }
    out
}

pub fn copy_strings(v: &Vec<String>) -> (r: Vec<String>)
    ensures
        view_strings(r@) == view_strings(v@),
{
    let mut out: Vec<String> = Vec::new();
    let n = v.len();
    let mut i: usize = 0;
    while i < n
        invariant
            i <= n,
            n == v@.len(),
            out@.len() == i,
            forall|j: int| #![auto] 0 <= j < i ==> out@[j]@ == v@[j]@,
        decreases n - i,
    {
        out.push(v[i].clone());
        i = i + 1;
    }
    proof {
        assert(view_strings(out@) =~= view_strings(v@));
    }
    out
}

pub fn copy_expr(e: &Expr) -> (r: Expr)
    ensures
        view_expr(r) == view_expr(*e),
    decreases *e,
{
    match e {
        Expr::Ident(s) => Expr::Ident(s.clone()),
        Expr::Str(l) => Expr::Str(copy_str_lit(l)),
        Expr::Tpl(parts) => Expr::Tpl(copy_tpl_parts(parts)),
        Expr::Object(props) => Expr::Object(copy_props(props)),
        Expr::Array(elems) => Expr::Array(copy_opt_args(elems)),
        Expr::Call(callee, args) => Expr::Call(Box::new(copy_expr(callee)), copy_args(args)),
        Expr::Paren(inner) => Expr::Paren(Box::new(copy_expr(inner))),
        Expr::Arrow(params, body) => Expr::Arrow(
            copy_strings(params),
            Box::new(copy_arrow_body(body)),
        ),
        Expr::Jsx(el) => Expr::Jsx(Box::new(copy_jsx_element(el))),
        Expr::JsxFrag(children) => Expr::JsxFrag(copy_children(children)),
        Expr::Opaque(h) => Expr::Opaque(*h),
    }
}

pub fn copy_arg(a: &Arg) -> (r: Arg)
    ensures
        view_arg(r) == view_arg(*a),
    decreases *a,
{
    Arg { spread: a.spread, expr: copy_expr(&a.expr) }
}

pub fn copy_args(v: &Vec<Arg>) -> (r: Vec<Arg>)
    ensures
        view_args(r@) == view_args(v@),
    decreases v@,
{
    let mut out: Vec<Arg> = Vec::new();
    let n = v.len();
    let mut i: usize = 0;
    while i < n
        invariant
            i <= n,
            n == v@.len(),
            out@.len() == i,
            forall|j: int| #![auto] 0 <= j < i ==> view_arg(out@[j]) == view_arg(v@[j]),
        decreases n - i,
    {
        out.push(copy_arg(&v[i]));
        i = i + 1;
    }
    proof {
        lemma_view_args_index(out@);
        lemma_view_args_index(v@);
        assert(view_args(out@) =~= view_args(v@));
    }
    out
}

pub fn copy_opt_args(v: &Vec<Option<Arg>>) -> (r: Vec<Option<Arg>>)
    ensures
        view_opt_args(r@) == view_opt_args(v@),
    decreases v@,
{
    let mut out: Vec<Option<Arg>> = Vec::new();
    let n = v.len();
    let mut i: usize = 0;
    while i < n
        invariant
            i <= n,
            n == v@.len(),
            out@.len() == i,
            forall|j: int| 0 <= j < i ==> (match (#[trigger] out@[j], v@[j]) {
                (Some(a), Some(b)) => view_arg(a) == view_arg(b),
                (None, None) => true,
                _ => false,
            }),
        decreases n - i,
    {
        let x = match &v[i] {
            Some(a) => Some(copy_arg(a)),
            None => None,
        };
        out.push(x);
        i = i + 1;
    }
    proof {
        lemma_view_opt_args_index(out@);
        lemma_view_opt_args_index(v@);
        assert(view_opt_args(out@) =~= view_opt_args(v@));
    }
    out
}

pub fn copy_prop(p: &Prop) -> (r: Prop)
    ensures
        view_prop(r) == view_prop(*p),
    decreases *p,
{
    match p {
        Prop::KeyValue(k, v) => Prop::KeyValue(k.clone(), copy_expr(v)),
        Prop::Opaque(h) => Prop::Opaque(*h),
    }
}

pub fn copy_props(v: &Vec<Prop>) -> (r: Vec<Prop>)
    ensures
        view_props(r@) == view_props(v@),
    decreases v@,
{
    let mut out: Vec<Prop> = Vec::new();
    let n = v.len();
    let mut i: usize = 0;
    while i < n
        invariant
            i <= n,
            n == v@.len(),
            out@.len() == i,
            forall|j: int| #![auto] 0 <= j < i ==> view_prop(out@[j]) == view_prop(v@[j]),
        decreases n - i,
    {
        out.push(copy_prop(&v[i]));
        i = i + 1;
    }
    proof {
        lemma_view_props_index(out@);
        lemma_view_props_index(v@);
        assert(view_props(out@) =~= view_props(v@));
    }
    out
}

pub fn copy_arrow_body(b: &ArrowBody) -> (r: ArrowBody)
    ensures
        view_arrow_body(r) == view_arrow_body(*b),
    decreases *b,
{
    match b {
        ArrowBody::Block(stmts) => ArrowBody::Block(copy_stmts(stmts)),
        ArrowBody::Expr(e) => ArrowBody::Expr(copy_expr(e)),
    }
}

pub fn copy_jsx_element(el: &JsxElement) -> (r: JsxElement)
    ensures
        view_jsx_element(r) == view_jsx_element(*el),
    decreases *el,
{
    JsxElement {
        name: el.name.clone(),
        attrs: copy_attrs(&el.attrs),
        self_closing: el.self_closing,
        children: copy_children(&el.children),
        span: el.span,
    }
}

pub fn copy_attr(a: &JsxAttr) -> (r: JsxAttr)
    ensures
        view_attr(r) == view_attr(*a),
    decreases *a,
{
    match a {
        JsxAttr::Named(n, v) => JsxAttr::Named(n.clone(), copy_attr_value(v)),
        JsxAttr::Opaque(h) => JsxAttr::Opaque(*h),
    }
}

pub fn copy_attrs(v: &Vec<JsxAttr>) -> (r: Vec<JsxAttr>)
    ensures
        view_attrs(r@) == view_attrs(v@),
    decreases v@,
{
    let mut out: Vec<JsxAttr> = Vec::new();
    let n = v.len();
    let mut i: usize = 0;
    while i < n
        invariant
            i <= n,
            n == v@.len(),
            out@.len() == i,
            forall|j: int| #![auto] 0 <= j < i ==> view_attr(out@[j]) == view_attr(v@[j]),
        decreases n - i,
    {
        out.push(copy_attr(&v[i]));
        i = i + 1;
    }
    proof {
        lemma_view_attrs_index(out@);
        lemma_view_attrs_index(v@);
        assert(view_attrs(out@) =~= view_attrs(v@));
    }
    out
}

pub fn copy_attr_value(v: &JsxAttrValue) -> (r: JsxAttrValue)
    ensures
        view_attr_value(r) == view_attr_value(*v),
    decreases *v,
{
    match v {
        JsxAttrValue::Str(l) => JsxAttrValue::Str(copy_str_lit(l)),
        JsxAttrValue::Expr(e) => JsxAttrValue::Expr(copy_expr(e)),
        JsxAttrValue::Empty => JsxAttrValue::Empty,
        JsxAttrValue::Opaque(h) => JsxAttrValue::Opaque(*h),
    }
}

pub fn copy_jsx_child(c: &JsxChild) -> (r: JsxChild)
    ensures
        view_jsx_child(r) == view_jsx_child(*c),
    decreases *c,
{
    match c {
        JsxChild::Text(s) => JsxChild::Text(s.clone()),
        JsxChild::Element(el) => JsxChild::Element(copy_jsx_element(el)),
        JsxChild::Fragment(children) => JsxChild::Fragment(copy_children(children)),
        JsxChild::Container(e) => JsxChild::Container(copy_expr(e)),
        JsxChild::Opaque(h) => JsxChild::Opaque(*h),
    }
}

pub fn copy_children(v: &Vec<JsxChild>) -> (r: Vec<JsxChild>)
    ensures
        view_children(r@) == view_children(v@),
    decreases v@,
{
    let mut out: Vec<JsxChild> = Vec::new();
    let n = v.len();
    let mut i: usize = 0;
    while i < n
        invariant
            i <= n,
            n == v@.len(),
            out@.len() == i,
            forall|j: int| #![auto] 0 <= j < i ==> view_jsx_child(out@[j]) == view_jsx_child(
                v@[j],
            ),
        decreases n - i,
    {
        out.push(copy_jsx_child(&v[i]));
        i = i + 1;
    }
    proof {
        lemma_view_children_index(out@);
        lemma_view_children_index(v@);
        assert(view_children(out@) =~= view_children(v@));
    }
    out
}

pub fn copy_declarator(d: &Declarator) -> (r: Declarator)
    ensures
        view_declarator(r) == view_declarator(*d),
    decreases *d,
{
    Declarator {
        pat: d.pat,
        init: match &d.init {
            Some(e) => Some(copy_expr(e)),
            None => None,
        },
    }
}

pub fn copy_decls(v: &Vec<Declarator>) -> (r: Vec<Declarator>)
    ensures
        view_decls(r@) == view_decls(v@),
    decreases v@,
{
    let mut out: Vec<Declarator> = Vec::new();
    let n = v.len();
    let mut i: usize = 0;
    while i < n
        invariant
            i <= n,
            n == v@.len(),
            out@.len() == i,
            forall|j: int| #![auto] 0 <= j < i ==> view_declarator(out@[j]) == view_declarator(
                v@[j],
            ),
        decreases n - i,
    {
        out.push(copy_declarator(&v[i]));
        i = i + 1;
    }
    proof {
        lemma_view_decls_index(out@);
        lemma_view_decls_index(v@);
        assert(view_decls(out@) =~= view_decls(v@));
    }
    out
}

pub fn copy_stmt(s: &Stmt) -> (r: Stmt)
    ensures
        view_stmt(r) == view_stmt(*s),
    decreases *s,
{
    match s {
        Stmt::VarDecl(d) => Stmt::VarDecl(VarDeclStmt { decls: copy_decls(&d.decls) }),
        Stmt::Expr(e) => Stmt::Expr(copy_expr(e)),
        Stmt::Block(stmts) => Stmt::Block(copy_stmts(stmts)),
        Stmt::Func(h, stmts) => Stmt::Func(*h, copy_stmts(stmts)),
        Stmt::Return(e) => Stmt::Return(
            match e {
                Some(e0) => Some(copy_expr(e0)),
                None => None,
            },
        ),
        Stmt::Empty => Stmt::Empty,
        Stmt::Opaque(h) => Stmt::Opaque(*h),
    }
}

pub fn copy_stmts(v: &Vec<Stmt>) -> (r: Vec<Stmt>)
    ensures
        view_stmts(r@) == view_stmts(v@),
    decreases v@,
{
    let mut out: Vec<Stmt> = Vec::new();
    let n = v.len();
    let mut i: usize = 0;
    while i < n
        invariant
            i <= n,
            n == v@.len(),
            out@.len() == i,
            forall|j: int| #![auto] 0 <= j < i ==> view_stmt(out@[j]) == view_stmt(v@[j]),
        decreases n - i,
    {
        out.push(copy_stmt(&v[i]));
        i = i + 1;
    }
    proof {
        lemma_view_stmts_index(out@);
        lemma_view_stmts_index(v@);
        assert(view_stmts(out@) =~= view_stmts(v@));
    }
    out
}

} // verus!
