use replace_t::ast::{
    Arg, Declarator, Expr, JsxAttr, JsxAttrValue, JsxChild, JsxElement, ModuleItem, Span, Stmt,
    StrLit, TplPart, VarDeclStmt,
};
use replace_t::cache::Cache;
use replace_t::rewrite::{transform_module, scrub_elems, Diag, DiagKind};

fn sp(lo: u32) -> Span {
    Span { lo, hi: lo + 1 }
}

fn strlit(v: &str, lo: u32) -> Expr {
    Expr::Str(StrLit { value: v.to_string(), span: sp(lo) })
}

fn arg(e: Expr) -> Arg {
    Arg { spread: false, expr: e }
}

fn t_call(key: &str, lo: u32) -> Expr {
    Expr::Call(Box::new(Expr::Ident("t".to_string())), vec![arg(strlit(key, lo))])
}

fn hook_stmt(ns: &str, lo: u32) -> Stmt {
    Stmt::VarDecl(VarDeclStmt {
        decls: vec![Declarator {
            pat: 1,
            init: Some(Expr::Call(
                Box::new(Expr::Ident("useTranslation".to_string())),
                vec![arg(strlit(ns, lo))],
            )),
        }],
    })
}

fn no_errors() -> Vec<(String, String)> {
    vec![]
}

#[test]
fn one_arg_call_becomes_literal_and_hook_is_removed() {
    // const { t } = useTranslation('noArgs'); console.log(t('a'))
    let mut cache = Cache::new("base".to_string());
    cache.add_file("noArgs".to_string(), 1, "{\"a\":\"test1\"}").unwrap();
    let items = vec![
        ModuleItem::Stmt(hook_stmt("noArgs", 10)),
        ModuleItem::Stmt(Stmt::Expr(Expr::Call(
            Box::new(Expr::Opaque(7)),
            vec![arg(t_call("a", 20))],
        ))),
    ];
    let (out, diags) = transform_module(&items, &cache, &no_errors()).unwrap();
    assert!(diags.is_empty());
    assert_eq!(out.len(), 1);
    match &out[0] {
        ModuleItem::Stmt(Stmt::Expr(Expr::Call(callee, args))) => {
            assert!(matches!(**callee, Expr::Opaque(7)));
            assert_eq!(args.len(), 1);
            match &args[0].expr {
                Expr::Str(l) => assert_eq!(l.value, "test1"),
                other => panic!("expected a string literal, got {:?}", kind_of(other)),
            }
        }
        _ => panic!("expected the call statement to survive"),
    }
}

fn kind_of(e: &Expr) -> &'static str {
    match e {
        Expr::Ident(_) => "ident",
        Expr::Str(_) => "str",
        Expr::Tpl(_) => "tpl",
        Expr::Object(_) => "object",
        Expr::Array(_) => "array",
        Expr::Call(_, _) => "call",
        Expr::Paren(_) => "paren",
        Expr::Arrow(_, _) => "arrow",
        Expr::Jsx(_) => "jsx",
        Expr::JsxFrag(_) => "jsxfrag",
        Expr::Opaque(_) => "opaque",
    }
}

#[test]
fn namespace_override_resolves_regardless_of_scope() {
    // t('dir/dir:foo.bar') with no hook in sight
    let mut cache = Cache::new("base".to_string());
    cache.add_file("dir/dir".to_string(), 1, "{\"foo\":{\"bar\":\"hello\"}}").unwrap();
    let items = vec![ModuleItem::Stmt(Stmt::Expr(t_call("dir/dir:foo.bar", 3)))];
    let (out, diags) = transform_module(&items, &cache, &no_errors()).unwrap();
    assert!(diags.is_empty());
    match &out[0] {
        ModuleItem::Stmt(Stmt::Expr(Expr::Str(l))) => assert_eq!(l.value, "hello"),
        _ => panic!("expected a string literal"),
    }
}

#[test]
fn two_arg_call_becomes_wrapper_invocation() {
    // t('foo', {min:100, max:400}) with foo = "value: {{max}} - {{min}}"
    let mut cache = Cache::new("base".to_string());
    cache
        .add_file("object".to_string(), 1, "{\"foo\":\"value: {{max}} - {{min}}\"}")
        .unwrap();
    let second = Expr::Object(vec![
        replace_t::ast::Prop::KeyValue("min".to_string(), Expr::Opaque(100)),
        replace_t::ast::Prop::KeyValue("max".to_string(), Expr::Opaque(400)),
    ]);
    let items = vec![
        ModuleItem::Stmt(hook_stmt("object", 1)),
        ModuleItem::Stmt(Stmt::Expr(Expr::Call(
            Box::new(Expr::Ident("t".to_string())),
            vec![arg(strlit("foo", 5)), arg(second)],
        ))),
    ];
    let (out, diags) = transform_module(&items, &cache, &no_errors()).unwrap();
    assert!(diags.is_empty());
    assert_eq!(out.len(), 1);
    match &out[0] {
        ModuleItem::Stmt(Stmt::Expr(Expr::Call(callee, args))) => {
            match &**callee {
                Expr::Arrow(params, body) => {
                    assert_eq!(params.as_slice(), &["v".to_string()]);
                    match &**body {
                        replace_t::ast::ArrowBody::Expr(Expr::Tpl(parts)) => {
                            let expect = vec![
                                TplPart::Text("value: ".to_string()),
                                TplPart::Slot("max".to_string()),
                                TplPart::Text(" - ".to_string()),
                                TplPart::Slot("min".to_string()),
                                TplPart::Text("".to_string()),
                            ];
                            assert_eq!(parts.len(), expect.len());
                            for (got, want) in parts.iter().zip(expect.iter()) {
                                match (got, want) {
                                    (TplPart::Text(a), TplPart::Text(b)) => assert_eq!(a, b),
                                    (TplPart::Slot(a), TplPart::Slot(b)) => assert_eq!(a, b),
                                    _ => panic!("part kind mismatch"),
                                }
                            }
                        }
                        _ => panic!("expected a template body"),
                    }
                }
                _ => panic!("expected an arrow callee"),
            }
            // the original second argument is preserved verbatim
            assert_eq!(args.len(), 1);
            match &args[0].expr {
                Expr::Object(props) => {
                    assert_eq!(props.len(), 2);
                    match &props[0] {
                        replace_t::ast::Prop::KeyValue(k, Expr::Opaque(100)) => {
                            assert_eq!(k, "min")
                        }
                        _ => panic!("expected min property"),
                    }
                    match &props[1] {
                        replace_t::ast::Prop::KeyValue(k, Expr::Opaque(400)) => {
                            assert_eq!(k, "max")
                        }
                        _ => panic!("expected max property"),
                    }
                }
                _ => panic!("expected the object argument"),
            }
        }
        _ => panic!("expected a call"),
    }
}

#[test]
fn translation_import_is_removed() {
    let items = vec![
        ModuleItem::Import("other".to_string(), 1),
        ModuleItem::Import("react-i18next".to_string(), 2),
    ];
    let cache = Cache::new("base".to_string());
    let (out, diags) = transform_module(&items, &cache, &no_errors()).unwrap();
    assert!(diags.is_empty());
    assert_eq!(out.len(), 1);
    assert!(matches!(&out[0], ModuleItem::Import(src, 1) if src == "other"));
}

#[test]
fn trans_wrapper_splices_line_breaks() {
    // <Trans>{t('lineBreak')}</Trans> with "hello<br/>world<br/>hi!"
    let mut cache = Cache::new("base".to_string());
    cache
        .add_file("react".to_string(), 1, "{\"lineBreak\":\"hello<br/>world<br/>hi!\"}")
        .unwrap();
    let trans = Expr::Jsx(Box::new(JsxElement {
        name: "Trans".to_string(),
        attrs: vec![],
        self_closing: false,
        children: vec![JsxChild::Container(t_call("lineBreak", 9))],
        span: sp(8),
    }));
    let items = vec![
        ModuleItem::Stmt(hook_stmt("react", 1)),
        ModuleItem::Stmt(Stmt::Expr(trans)),
    ];
    let (out, diags) = transform_module(&items, &cache, &no_errors()).unwrap();
    assert!(diags.is_empty());
    match &out[0] {
        ModuleItem::Stmt(Stmt::Expr(Expr::JsxFrag(children))) => {
            assert_eq!(children.len(), 1);
            match &children[0] {
                JsxChild::Container(Expr::JsxFrag(parts)) => {
                    assert_eq!(parts.len(), 5);
                    assert!(matches!(&parts[0], JsxChild::Text(t) if t == "hello"));
                    match &parts[1] {
                        JsxChild::Element(el) => {
                            assert_eq!(el.name, "br");
                            assert!(el.self_closing);
                            assert!(el.children.is_empty());
                        }
                        _ => panic!("expected a break element"),
                    }
                    assert!(matches!(&parts[2], JsxChild::Text(t) if t == "world"));
                    assert!(matches!(&parts[3], JsxChild::Element(_)));
                    assert!(matches!(&parts[4], JsxChild::Text(t) if t == "hi!"));
                }
                _ => panic!("expected a spliced fragment"),
            }
        }
        _ => panic!("expected the wrapper to become a fragment"),
    }
}

#[test]
fn trans_components_map_substitutes_template() {
    // <Trans components={{link: (<Link href="foo.com" />)}}>{t('k')}</Trans>
    // with "<link>click</link>"
    let mut cache = Cache::new("base".to_string());
    cache.add_file("react".to_string(), 1, "{\"k\":\"<link>click</link>\"}").unwrap();
    let template = JsxElement {
        name: "Link".to_string(),
        attrs: vec![JsxAttr::Named(
            "href".to_string(),
            JsxAttrValue::Str(StrLit { value: "foo.com".to_string(), span: sp(4) }),
        )],
        self_closing: true,
        children: vec![],
        span: sp(4),
    };
    let trans = Expr::Jsx(Box::new(JsxElement {
        name: "Trans".to_string(),
        attrs: vec![JsxAttr::Named(
            "components".to_string(),
            JsxAttrValue::Expr(Expr::Object(vec![replace_t::ast::Prop::KeyValue(
                "link".to_string(),
                Expr::Paren(Box::new(Expr::Jsx(Box::new(template)))),
            )])),
        )],
        self_closing: false,
        children: vec![JsxChild::Container(t_call("k", 9))],
        span: sp(8),
    }));
    let items = vec![
        ModuleItem::Stmt(hook_stmt("react", 1)),
        ModuleItem::Stmt(Stmt::Expr(trans)),
    ];
    let (out, diags) = transform_module(&items, &cache, &no_errors()).unwrap();
    assert!(diags.is_empty());
    match &out[0] {
        ModuleItem::Stmt(Stmt::Expr(Expr::JsxFrag(children))) => {
            match &children[0] {
                JsxChild::Container(Expr::JsxFrag(parts)) => {
                    assert_eq!(parts.len(), 1);
                    match &parts[0] {
                        JsxChild::Element(el) => {
                            assert_eq!(el.name, "Link");
                            assert_eq!(el.attrs.len(), 1);
                            match &el.attrs[0] {
                                JsxAttr::Named(n, JsxAttrValue::Str(v)) => {
                                    assert_eq!(n, "href");
                                    assert_eq!(v.value, "foo.com");
                                }
                                _ => panic!("expected the template attribute"),
                            }
                            assert!(!el.self_closing);
                            assert_eq!(el.children.len(), 1);
                            assert!(matches!(&el.children[0], JsxChild::Text(t) if t == "click"));
                        }
                        _ => panic!("expected the mapped element"),
                    }
                }
                _ => panic!("expected a spliced fragment"),
            }
        }
        _ => panic!("expected the wrapper to become a fragment"),
    }
}

#[test]
fn plain_text_trans_collapses_to_literal() {
    let mut cache = Cache::new("base".to_string());
    cache.add_file("react".to_string(), 1, "{\"plain\":\"just text\"}").unwrap();
    let items = vec![
        ModuleItem::Stmt(hook_stmt("react", 1)),
        ModuleItem::Stmt(Stmt::Expr(t_call("plain", 2))),
    ];
    let (out, diags) = transform_module(&items, &cache, &no_errors()).unwrap();
    assert!(diags.is_empty());
    match &out[0] {
        ModuleItem::Stmt(Stmt::Expr(Expr::Str(l))) => assert_eq!(l.value, "just text"),
        _ => panic!("expected a plain literal"),
    }
}

#[test]
fn missing_key_leaves_node_and_reports_once() {
    let mut cache = Cache::new("base".to_string());
    cache.add_file("ns".to_string(), 1, "{\"a\":\"x\"}").unwrap();
    let items = vec![
        ModuleItem::Stmt(hook_stmt("ns", 1)),
        ModuleItem::Stmt(Stmt::Expr(t_call("missing", 42))),
    ];
    let (out, diags) = transform_module(&items, &cache, &no_errors()).unwrap();
    assert_eq!(diags.len(), 1);
    assert!(matches!(diags[0].kind, DiagKind::KeyNotFound));
    assert!(diags[0].span == sp(42));
    assert_eq!(diags[0].detail, "missing");
    match &out[0] {
        ModuleItem::Stmt(Stmt::Expr(Expr::Call(callee, args))) => {
            assert!(matches!(&**callee, Expr::Ident(n) if n == "t"));
            assert!(matches!(&args[0].expr, Expr::Str(l) if l.value == "missing"));
        }
        _ => panic!("expected the call to survive unchanged"),
    }
}

#[test]
fn failed_resource_load_reports_and_skips_scope() {
    let cache = Cache::new("base".to_string());
    let errs = vec![("broken".to_string(), "cannot read a json file".to_string())];
    let items = vec![
        ModuleItem::Stmt(hook_stmt("broken", 11)),
        ModuleItem::Stmt(Stmt::Expr(t_call("a", 12))),
    ];
    let (_, diags) = transform_module(&items, &cache, &errs).unwrap();
    assert_eq!(diags.len(), 2);
    assert!(matches!(diags[0].kind, DiagKind::ResourceLoad));
    assert!(diags[0].span == sp(11));
    assert_eq!(diags[0].detail, "cannot read a json file");
    assert!(matches!(diags[1].kind, DiagKind::KeyNotFound));
}

#[test]
fn hook_array_argument_loads_each_scope() {
    let mut cache = Cache::new("base".to_string());
    cache.add_file("one".to_string(), 1, "{\"a\":\"first\"}").unwrap();
    cache.add_file("two".to_string(), 1, "{\"b\":\"second\"}").unwrap();
    let hook = Stmt::VarDecl(VarDeclStmt {
        decls: vec![Declarator {
            pat: 1,
            init: Some(Expr::Call(
                Box::new(Expr::Ident("useTranslation".to_string())),
                vec![arg(Expr::Array(vec![
                    Some(arg(strlit("one", 1))),
                    Some(arg(strlit("two", 2))),
                ]))],
            )),
        }],
    });
    let items = vec![
        ModuleItem::Stmt(hook),
        ModuleItem::Stmt(Stmt::Expr(t_call("a", 3))),
        ModuleItem::Stmt(Stmt::Expr(t_call("two:b", 4))),
    ];
    let (out, diags) = transform_module(&items, &cache, &no_errors()).unwrap();
    assert!(diags.is_empty());
    assert!(matches!(&out[0], ModuleItem::Stmt(Stmt::Expr(Expr::Str(l))) if l.value == "first"));
    assert!(matches!(&out[1], ModuleItem::Stmt(Stmt::Expr(Expr::Str(l))) if l.value == "second"));
}

#[test]
fn dependency_arrays_are_scrubbed() {
    let mut cache = Cache::new("base".to_string());
    cache.add_file("react".to_string(), 1, "{\"bar\":\"BAR\"}").unwrap();
    let deps_call = Expr::Call(
        Box::new(Expr::Ident("useEffect".to_string())),
        vec![
            arg(Expr::Opaque(50)),
            arg(Expr::Array(vec![
                Some(arg(Expr::Ident("t".to_string()))),
                Some(arg(Expr::Ident("c".to_string()))),
            ])),
        ],
    );
    let items = vec![
        ModuleItem::Stmt(hook_stmt("react", 1)),
        ModuleItem::Stmt(Stmt::Expr(deps_call)),
    ];
    let (out, diags) = transform_module(&items, &cache, &no_errors()).unwrap();
    assert!(diags.is_empty());
    match &out[0] {
        ModuleItem::Stmt(Stmt::Expr(Expr::Call(callee, args))) => {
            assert!(matches!(&**callee, Expr::Ident(n) if n == "useEffect"));
            match &args[1].expr {
                Expr::Array(elems) => {
                    assert_eq!(elems.len(), 1);
                    match &elems[0] {
                        Some(a) => assert!(matches!(&a.expr, Expr::Ident(n) if n == "c")),
                        None => panic!("expected the surviving entry"),
                    }
                }
                _ => panic!("expected the dependency array"),
            }
        }
        _ => panic!("expected the call to survive"),
    }
}

#[test]
fn scrub_keeps_everything_without_matches() {
    let elems = vec![
        Some(arg(Expr::Ident("a".to_string()))),
        None,
        Some(arg(Expr::Ident("b".to_string()))),
    ];
    let out = scrub_elems(&elems);
    assert_eq!(out.len(), 3);
    assert!(matches!(&out[0], Some(a) if matches!(&a.expr, Expr::Ident(n) if n == "a")));
    assert!(out[1].is_none());
    let empty: Vec<Option<Arg>> = vec![];
    assert_eq!(scrub_elems(&empty).len(), 0);
}

#[test]
fn i18nkey_attribute_is_a_hard_failure() {
    let cache = Cache::new("base".to_string());
    let trans = Expr::Jsx(Box::new(JsxElement {
        name: "Trans".to_string(),
        attrs: vec![JsxAttr::Named(
            "i18nKey".to_string(),
            JsxAttrValue::Str(StrLit { value: "some.key".to_string(), span: sp(77) }),
        )],
        self_closing: false,
        children: vec![],
        span: sp(70),
    }));
    let items = vec![ModuleItem::Stmt(Stmt::Expr(trans))];
    let r = transform_module(&items, &cache, &no_errors());
    match r {
        Err(d) => {
            assert!(matches!(d.kind, DiagKind::Unsupported));
            assert!(d.span == sp(77));
            assert_eq!(d.detail, "some.key");
        }
        Ok(_) => panic!("expected a hard failure"),
    }
}

#[test]
fn malformed_template_reports_and_keeps_node() {
    let mut cache = Cache::new("base".to_string());
    cache.add_file("ns".to_string(), 1, "{\"odd\":\"a < b\"}").unwrap();
    let items = vec![
        ModuleItem::Stmt(hook_stmt("ns", 1)),
        ModuleItem::Stmt(Stmt::Expr(t_call("odd", 30))),
    ];
    let (out, diags) = transform_module(&items, &cache, &no_errors()).unwrap();
    assert_eq!(diags.len(), 1);
    assert!(matches!(diags[0].kind, DiagKind::MalformedTemplate));
    assert!(matches!(&out[0], ModuleItem::Stmt(Stmt::Expr(Expr::Call(_, _)))));
}

#[test]
fn io_error_variant_carries_its_message() {
    let e = replace_t::cache::CacheError::IoError("no such file".to_string());
    assert!(matches!(e, replace_t::cache::CacheError::IoError(m) if m == "no such file"));
    let d = Diag { kind: DiagKind::ResourceLoad, span: sp(1), detail: "m".to_string() };
    assert!(matches!(d.kind, DiagKind::ResourceLoad));
}

#[test]
fn hook_without_arguments_empties_the_scopes() {
    let mut cache = Cache::new("base".to_string());
    cache.add_file("ns".to_string(), 1, "{\"a\":\"x\"}").unwrap();
    let bare_hook = Stmt::VarDecl(VarDeclStmt {
        decls: vec![Declarator {
            pat: 1,
            init: Some(Expr::Call(
                Box::new(Expr::Ident("useTranslation".to_string())),
                vec![],
            )),
        }],
    });
    let items = vec![
        ModuleItem::Stmt(hook_stmt("ns", 1)),
        ModuleItem::Stmt(bare_hook),
        ModuleItem::Stmt(Stmt::Expr(t_call("a", 2))),
    ];
    let (out, diags) = transform_module(&items, &cache, &no_errors()).unwrap();
    // the second hook reset the scope stack, so the lookup fails
    assert_eq!(diags.len(), 1);
    assert!(matches!(diags[0].kind, DiagKind::KeyNotFound));
    assert_eq!(out.len(), 1);
}

#[test]
fn empty_resolved_value_becomes_empty_literal() {
    let mut cache = Cache::new("base".to_string());
    cache.add_file("ns".to_string(), 1, "{\"empty\":\"\"}").unwrap();
    let items = vec![
        ModuleItem::Stmt(hook_stmt("ns", 1)),
        ModuleItem::Stmt(Stmt::Expr(t_call("empty", 2))),
    ];
    let (out, diags) = transform_module(&items, &cache, &no_errors()).unwrap();
    assert!(diags.is_empty());
    assert!(matches!(&out[0], ModuleItem::Stmt(Stmt::Expr(Expr::Str(l))) if l.value.is_empty()));
}

#[test]
fn nested_block_sweeps_hook_declaration() {
    // an arrow body holding the hook and a call, as a component function does
    let mut cache = Cache::new("base".to_string());
    cache.add_file("ns".to_string(), 1, "{\"a\":\"inner\"}").unwrap();
    let body = vec![
        hook_stmt("ns", 1),
        Stmt::Return(Some(t_call("a", 2))),
    ];
    let component = Stmt::VarDecl(VarDeclStmt {
        decls: vec![Declarator {
            pat: 2,
            init: Some(Expr::Arrow(
                vec![],
                Box::new(replace_t::ast::ArrowBody::Block(body)),
            )),
        }],
    });
    let items = vec![ModuleItem::Stmt(component)];
    let (out, diags) = transform_module(&items, &cache, &no_errors()).unwrap();
    assert!(diags.is_empty());
    match &out[0] {
        ModuleItem::Stmt(Stmt::VarDecl(d)) => match d.decls[0].init.as_ref().unwrap() {
            Expr::Arrow(_, b) => match &**b {
                replace_t::ast::ArrowBody::Block(stmts) => {
                    assert_eq!(stmts.len(), 1);
                    assert!(matches!(&stmts[0], Stmt::Return(Some(Expr::Str(l))) if l.value == "inner"));
                }
                _ => panic!("expected a block body"),
            },
            _ => panic!("expected an arrow"),
        },
        _ => panic!("expected the declaration"),
    }
}
