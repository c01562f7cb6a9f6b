use flair_core::ast::{
    ClassMethod, Expr, ImportSpecifier, JSXAttrItem, JSXAttrValue, JSXChild, JSXElement,
    ObjectProp, Program, PropKey, Stmt, VarDeclarator,
};
use flair_core::transform::{compile_styles, extract_styles, finalize_program, transform, TransformOptions};

fn options() -> TransformOptions {
    TransformOptions {
        css_out_dir: "out".to_string(),
        class_name_list: None,
        use_theme: None,
        theme: None,
        append_timestamp_to_css_file: None,
    }
}

fn style_import() -> Stmt {
    Stmt::ImportDecl {
        source: "@flairjs/client".to_string(),
        specifiers: vec![ImportSpecifier {
            imported: "Style".to_string(),
            local: "Style".to_string(),
            local_symbol: 1,
        }],
        span_start: 0,
    }
}

#[test]
fn unsupported_extension_yields_none() {
    let p = Program { body: vec![] };
    assert!(transform(p, "style.css".to_string(), options(), None).is_none());
}

#[test]
fn flair_assignment_extracted_and_scoped() {
    // function Button() {}  Button.flair = ".btn { color: blue; }";
    // <div className="btn"> inside the body is rewritten to the hashed name.
    let body = vec![
        Stmt::Return {
            argument: Some(Expr::Element(Box::new(JSXElement {
                name: "div".to_string(),
                name_symbol: None,
                attributes: vec![JSXAttrItem::Attr {
                    name: "className".to_string(),
                    value: Some(JSXAttrValue::StringValue("btn".to_string())),
                }],
                children: vec![],
                span_start: 30,
            }))),
            span_start: 20,
        },
    ];
    let p = Program {
        body: vec![
            Stmt::FunctionDecl {
                name: "Button".to_string(),
                symbol: Some(7),
                body,
                span_start: 10,
            },
            Stmt::ExprStmt {
                expr: Expr::Assign {
                    object_name: "Button".to_string(),
                    object_symbol: Some(7),
                    property: "flair".to_string(),
                    value: Box::new(Expr::StringLit {
                        value: ".btn { color: blue; }".to_string(),
                    }),
                    span_start: 100,
                },
                span_start: 100,
            },
        ],
    };
    let out = transform(p, "button.tsx".to_string(), options(), None).unwrap();
    // The sentinel statement is stripped; the function alone remains (the
    // stylesheet import is prepended by finalize_program, after the write).
    assert_eq!(out.program.body.len(), 1);
    // The engine normalizes the color keyword on the way through.
    assert!(out.css.contains("#00f"));
    // The className was rewritten to a hashed name that still ends in the
    // original name (the engine's default pattern is `[hash]_[local]`).
    match &out.program.body[0] {
        Stmt::FunctionDecl { body, .. } => match &body[0] {
            Stmt::Return { argument: Some(Expr::Element(el)), .. } => match &el.attributes[0] {
                JSXAttrItem::Attr { value: Some(JSXAttrValue::StringValue(v)), .. } => {
                    assert!(v != "btn");
                    assert!(v.ends_with("btn"));
                    assert!(out.css.contains(v.as_str()));
                }
                _ => panic!("attribute shape changed"),
            },
            _ => panic!("return shape changed"),
        },
        _ => panic!("function missing"),
    }
    assert!(out.generated_css_name.unwrap().ends_with(".css"));
}

#[test]
fn global_flair_is_never_hashed() {
    let p = Program {
        body: vec![
            Stmt::FunctionDecl {
                name: "App".to_string(),
                symbol: Some(3),
                body: vec![],
                span_start: 10,
            },
            Stmt::ExprStmt {
                expr: Expr::Assign {
                    object_name: "App".to_string(),
                    object_symbol: Some(3),
                    property: "globalFlair".to_string(),
                    value: Box::new(Expr::StringLit {
                        value: "body { margin: 0; }".to_string(),
                    }),
                    span_start: 50,
                },
                span_start: 50,
            },
        ],
    };
    let out = transform(p, "app.tsx".to_string(), options(), None).unwrap();
    assert!(out.css.contains("body"));
    assert!(out.css.contains("margin: 0"));
    // Global CSS is compiled unscoped: the selector is not hashed.
    assert!(out.css.contains("body {"));
}

#[test]
fn style_tag_extracted_and_removed() {
    // import { Style } from "@flairjs/client";
    // function Card() { return <div><Style>{`...css...`}</Style></div>; }
    let style_el = JSXElement {
        name: "Style".to_string(),
        name_symbol: Some(1),
        attributes: vec![],
        children: vec![JSXChild::Container(Expr::TemplateLit {
            quasis: vec![".card { margin: 0; }".to_string()],
            exprs: vec![],
        })],
        span_start: 40,
    };
    let root = JSXElement {
        name: "div".to_string(),
        name_symbol: None,
        attributes: vec![],
        children: vec![JSXChild::Element(Box::new(style_el))],
        span_start: 35,
    };
    let p = Program {
        body: vec![
            style_import(),
            Stmt::FunctionDecl {
                name: "Card".to_string(),
                symbol: Some(2),
                body: vec![Stmt::Return {
                    argument: Some(Expr::Element(Box::new(root))),
                    span_start: 30,
                }],
                span_start: 20,
            },
        ],
    };
    let out = transform(p, "card.tsx".to_string(), options(), None).unwrap();
    assert!(out.css.contains("margin: 0"));
    match &out.program.body[1] {
        Stmt::FunctionDecl { body, .. } => match &body[0] {
            Stmt::Return { argument: Some(Expr::Element(el)), .. } => {
                assert_eq!(el.children.len(), 0, "the style tag is removed");
            }
            _ => panic!("return shape changed"),
        },
        _ => panic!("function missing"),
    }
}

#[test]
fn variable_alias_rewritten_at_declaration() {
    // const a = "btn"; const b = a; function C() { return <div className={b}/>; }
    // C.flair = ".btn{color:blue}"; the declaration of `a` is rewritten.
    let p = Program {
        body: vec![
            Stmt::VarDecl {
                declarators: vec![VarDeclarator {
                    name: "a".to_string(),
                    symbol: Some(11),
                    init: Some(Expr::StringLit { value: "btn".to_string() }),
                    span_start: 1,
                }],
                span_start: 1,
            },
            Stmt::VarDecl {
                declarators: vec![VarDeclarator {
                    name: "b".to_string(),
                    symbol: Some(12),
                    init: Some(Expr::Ident { name: "a".to_string(), symbol: Some(11) }),
                    span_start: 5,
                }],
                span_start: 5,
            },
            Stmt::FunctionDecl {
                name: "C".to_string(),
                symbol: Some(13),
                body: vec![Stmt::Return {
                    argument: Some(Expr::Element(Box::new(JSXElement {
                        name: "div".to_string(),
                        name_symbol: None,
                        attributes: vec![JSXAttrItem::Attr {
                            name: "className".to_string(),
                            value: Some(JSXAttrValue::Container(Expr::Ident {
                                name: "b".to_string(),
                                symbol: Some(12),
                            })),
                        }],
                        children: vec![],
                        span_start: 33,
                    }))),
                    span_start: 30,
                }],
                span_start: 25,
            },
            Stmt::ExprStmt {
                expr: Expr::Assign {
                    object_name: "C".to_string(),
                    object_symbol: Some(13),
                    property: "flair".to_string(),
                    value: Box::new(Expr::StringLit {
                        value: ".btn { color: blue; }".to_string(),
                    }),
                    span_start: 90,
                },
                span_start: 90,
            },
        ],
    };
    let out = transform(p, "c.tsx".to_string(), options(), None).unwrap();
    // body: decl of a (rewritten), decl of b (unchanged), function
    match &out.program.body[0] {
        Stmt::VarDecl { declarators, .. } => match &declarators[0].init {
            Some(Expr::StringLit { value }) => {
                assert!(value != "btn");
                assert!(value.ends_with("btn"));
            }
            _ => panic!("declaration shape changed"),
        },
        _ => panic!("declaration missing"),
    }
    match &out.program.body[1] {
        Stmt::VarDecl { declarators, .. } => match &declarators[0].init {
            Some(Expr::Ident { name, .. }) => assert_eq!(name, "a"),
            _ => panic!("alias was touched"),
        },
        _ => panic!("alias missing"),
    }
}

#[test]
fn logical_and_guard_untouched() {
    // className={isActive && "active"} with a map containing both
    // `isActive` and `active` as keys: only the right operand changes.
    let p = Program {
        body: vec![
            Stmt::FunctionDecl {
                name: "T".to_string(),
                symbol: Some(21),
                body: vec![Stmt::Return {
                    argument: Some(Expr::Element(Box::new(JSXElement {
                        name: "div".to_string(),
                        name_symbol: None,
                        attributes: vec![JSXAttrItem::Attr {
                            name: "className".to_string(),
                            value: Some(JSXAttrValue::Container(Expr::Logical {
                                op: flair_core::ast::LogicalOp::And,
                                left: Box::new(Expr::Ident {
                                    name: "isActive".to_string(),
                                    symbol: None,
                                }),
                                right: Box::new(Expr::StringLit {
                                    value: "active".to_string(),
                                }),
                            })),
                        }],
                        children: vec![],
                        span_start: 33,
                    }))),
                    span_start: 30,
                }],
                span_start: 25,
            },
            Stmt::ExprStmt {
                expr: Expr::Assign {
                    object_name: "T".to_string(),
                    object_symbol: Some(21),
                    property: "flair".to_string(),
                    value: Box::new(Expr::StringLit {
                        value: ".active { color: blue; } .isActive { color: red; }".to_string(),
                    }),
                    span_start: 90,
                },
                span_start: 90,
            },
        ],
    };
    let out = transform(p, "t.tsx".to_string(), options(), None).unwrap();
    match &out.program.body[0] {
        Stmt::FunctionDecl { body, .. } => match &body[0] {
            Stmt::Return { argument: Some(Expr::Element(el)), .. } => match &el.attributes[0] {
                JSXAttrItem::Attr { value: Some(JSXAttrValue::Container(Expr::Logical {
                    left,
                    right,
                    ..
                })), .. } => {
                    match &**left {
                        Expr::Ident { name, .. } => assert_eq!(name, "isActive"),
                        _ => panic!("guard was rewritten"),
                    }
                    match &**right {
                        Expr::StringLit { value } => assert!(value.ends_with("active") && value != "active"),
                        _ => panic!("value shape changed"),
                    }
                }
                _ => panic!("attribute shape changed"),
            },
            _ => panic!("return shape changed"),
        },
        _ => panic!("function missing"),
    }
}

#[test]
fn method_style_scoped_to_class() {
    // class Panel { render() { return <div><Style>{`.p{margin:0}`}</Style></div>; } }
    let style_el = JSXElement {
        name: "Style".to_string(),
        name_symbol: Some(1),
        attributes: vec![],
        children: vec![JSXChild::Container(Expr::TemplateLit {
            quasis: vec![".p { margin: 0; }".to_string()],
            exprs: vec![],
        })],
        span_start: 60,
    };
    let render_body = vec![Stmt::Return {
        argument: Some(Expr::Element(Box::new(JSXElement {
            name: "div".to_string(),
            name_symbol: None,
            attributes: vec![JSXAttrItem::Attr {
                name: "className".to_string(),
                value: Some(JSXAttrValue::StringValue("p".to_string())),
            }],
            children: vec![JSXChild::Element(Box::new(style_el))],
            span_start: 55,
        }))),
        span_start: 50,
    }];
    let p = Program {
        body: vec![
            style_import(),
            Stmt::ClassDecl {
                name: "Panel".to_string(),
                symbol: Some(9),
                methods: vec![ClassMethod { body: render_body, span_start: 45 }],
                span_start: 40,
            },
        ],
    };
    let out = transform(p, "panel.tsx".to_string(), options(), None).unwrap();
    assert!(out.css.contains("margin: 0"));
    match &out.program.body[1] {
        Stmt::ClassDecl { methods, .. } => match &methods[0].body[0] {
            Stmt::Return { argument: Some(Expr::Element(el)), .. } => match &el.attributes[0] {
                JSXAttrItem::Attr { value: Some(JSXAttrValue::StringValue(v)), .. } => {
                    assert!(v != "p" && v.ends_with("p"), "method uses the class's map");
                }
                _ => panic!("attribute shape changed"),
            },
            _ => panic!("return shape changed"),
        },
        _ => panic!("class missing"),
    }
}

#[test]
fn transform_is_idempotent_on_transformed_output() {
    // Run the transform on its own finalized output (stylesheet import
    // prepended): no CSS is extracted and the tree is unchanged.
    let p = Program {
        body: vec![Stmt::FunctionDecl {
            name: "Done".to_string(),
            symbol: Some(4),
            body: vec![Stmt::Return {
                argument: Some(Expr::Element(Box::new(JSXElement {
                    name: "div".to_string(),
                    name_symbol: None,
                    attributes: vec![JSXAttrItem::Attr {
                        name: "className".to_string(),
                        value: Some(JSXAttrValue::StringValue("x_btn".to_string())),
                    }],
                    children: vec![],
                    span_start: 33,
                }))),
                span_start: 30,
            }],
            span_start: 25,
        }],
    };
    let again = Program {
        body: vec![Stmt::FunctionDecl {
            name: "Done".to_string(),
            symbol: Some(4),
            body: vec![Stmt::Return {
                argument: Some(Expr::Element(Box::new(JSXElement {
                    name: "div".to_string(),
                    name_symbol: None,
                    attributes: vec![JSXAttrItem::Attr {
                        name: "className".to_string(),
                        value: Some(JSXAttrValue::StringValue("x_btn".to_string())),
                    }],
                    children: vec![],
                    span_start: 33,
                }))),
                span_start: 30,
            }],
            span_start: 25,
        }],
    };
    let out = transform(p, "d.tsx".to_string(), options(), None).unwrap();
    assert_eq!(out.css, "");
    let name = out.generated_css_name.clone().unwrap();
    let finalized = finalize_program(out.program, &name);
    assert_eq!(finalized.body.len(), 2);
    let out2 = transform(finalized, "d.tsx".to_string(), options(), None).unwrap();
    assert_eq!(out2.css, "");
    assert_eq!(out2.generated_css_name.unwrap(), name);
    assert_eq!(out2.program.body.len(), 2);
    assert_eq!(out2.program.body[1], again.body[0]);
}

fn flair_program(symbol: u32, css: &str, path_hint: u32) -> Program {
    Program {
        body: vec![
            Stmt::FunctionDecl {
                name: "W".to_string(),
                symbol: Some(symbol),
                body: vec![],
                span_start: path_hint,
            },
            Stmt::ExprStmt {
                expr: Expr::Assign {
                    object_name: "W".to_string(),
                    object_symbol: Some(symbol),
                    property: "flair".to_string(),
                    value: Box::new(Expr::StringLit { value: css.to_string() }),
                    span_start: 90,
                },
                span_start: 90,
            },
        ],
    }
}

#[test]
fn only_utility_call_arguments_are_rewritten() {
    // className={c("btn")} with `c` imported as a class-name utility is
    // rewritten; className={f("btn")} with an unrecognized callee is
    // left untouched.
    let util_import = Stmt::ImportDecl {
        source: "@flairjs/client".to_string(),
        specifiers: vec![ImportSpecifier {
            imported: "c".to_string(),
            local: "c".to_string(),
            local_symbol: 2,
        }],
        span_start: 0,
    };
    let call = |callee: Expr| Expr::Call {
        callee: Box::new(callee),
        arguments: vec![Expr::StringLit { value: "btn".to_string() }],
        span_start: 70,
    };
    let elem = |sym: Option<u32>, name: &str, span: u32| {
        Expr::Element(Box::new(JSXElement {
            name: "div".to_string(),
            name_symbol: None,
            attributes: vec![JSXAttrItem::Attr {
                name: "className".to_string(),
                value: Some(JSXAttrValue::Container(call(Expr::Ident {
                    name: name.to_string(),
                    symbol: sym,
                }))),
            }],
            children: vec![],
            span_start: span,
        }))
    };
    let p = Program {
        body: vec![
            util_import,
            Stmt::FunctionDecl {
                name: "F".to_string(),
                symbol: Some(30),
                body: vec![
                    Stmt::Return { argument: Some(elem(Some(2), "c", 33)), span_start: 30 },
                    Stmt::Return { argument: Some(elem(None, "f", 36)), span_start: 35 },
                ],
                span_start: 25,
            },
            Stmt::ExprStmt {
                expr: Expr::Assign {
                    object_name: "F".to_string(),
                    object_symbol: Some(30),
                    property: "flair".to_string(),
                    value: Box::new(Expr::StringLit {
                        value: ".btn { color: blue; }".to_string(),
                    }),
                    span_start: 90,
                },
                span_start: 90,
            },
        ],
    };
    let out = transform(p, "f.tsx".to_string(), options(), None).unwrap();
    let arg_of = |st: &Stmt| -> String {
        match st {
            Stmt::Return { argument: Some(Expr::Element(el)), .. } => match &el.attributes[0] {
                JSXAttrItem::Attr { value: Some(JSXAttrValue::Container(Expr::Call {
                    arguments,
                    ..
                })), .. } => match &arguments[0] {
                    Expr::StringLit { value } => value.clone(),
                    _ => panic!("argument shape changed"),
                },
                _ => panic!("attribute shape changed"),
            },
            _ => panic!("return shape changed"),
        }
    };
    match &out.program.body[1] {
        Stmt::FunctionDecl { body, .. } => {
            let rewritten = arg_of(&body[0]);
            assert!(rewritten != "btn" && rewritten.ends_with("btn"));
            assert_eq!(arg_of(&body[1]), "btn");
        }
        _ => panic!("function missing"),
    }
}

#[test]
fn sibling_method_styles_accumulate() {
    // Two methods of one class each hold a Style tag: the class keeps
    // both contributions, compiled into one scoped bundle.
    let style_method = |css: &str, span: u32| {
        let style_el = JSXElement {
            name: "Style".to_string(),
            name_symbol: Some(1),
            attributes: vec![],
            children: vec![JSXChild::Container(Expr::TemplateLit {
                quasis: vec![css.to_string()],
                exprs: vec![],
            })],
            span_start: span + 10,
        };
        ClassMethod {
            body: vec![Stmt::Return {
                argument: Some(Expr::Element(Box::new(JSXElement {
                    name: "div".to_string(),
                    name_symbol: None,
                    attributes: vec![],
                    children: vec![JSXChild::Element(Box::new(style_el))],
                    span_start: span + 5,
                }))),
                span_start: span,
            }],
            span_start: span,
        }
    };
    let p = Program {
        body: vec![
            style_import(),
            Stmt::ClassDecl {
                name: "Panel".to_string(),
                symbol: Some(9),
                methods: vec![
                    style_method(".a { margin: 0; }", 40),
                    style_method(".b { padding: 0; }", 60),
                ],
                span_start: 35,
            },
        ],
    };
    let out = transform(p, "panel2.tsx".to_string(), options(), None).unwrap();
    assert!(out.css.contains("margin: 0"), "first method's CSS kept");
    assert!(out.css.contains("padding: 0"), "second method's CSS kept");
}

#[test]
fn preprocessor_substitute_replaces_bundle_text() {
    // The host's CSS preprocessor output is compiled instead of the raw
    // bundle text.
    let p = flair_program(8, ".btn { color: blue; }", 10);
    let ex = extract_styles(p, "w.tsx").unwrap();
    assert_eq!(ex.bundles.len(), 1);
    assert!(!ex.bundles[0].is_global);
    assert_eq!(ex.bundles[0].css, ".btn { color: blue; }");
    let subs = vec![Some(".btn { margin: 0; }".to_string())];
    let out = compile_styles(ex, &subs, "w.tsx", options(), None);
    assert!(out.css.contains("margin: 0"));
    assert!(!out.css.contains("#00f"));
}

#[test]
fn missing_substitute_falls_back_to_raw_text() {
    // `None` (the preprocessor failed or is absent) compiles the raw text.
    let p = flair_program(8, ".btn { color: blue; }", 10);
    let ex = extract_styles(p, "w.tsx").unwrap();
    let subs = vec![None];
    let out = compile_styles(ex, &subs, "w.tsx", options(), None);
    assert!(out.css.contains("#00f"));
}

#[test]
fn flair_object_call_compiles_to_css() {
    let obj = Expr::ObjectLit {
        props: vec![ObjectProp {
            key: PropKey::IdentKey("backgroundColor".to_string()),
            value: Expr::StringLit { value: "red".to_string() },
        }],
    };
    let s = flair_core::flair_property::build_style_string_from_object(match &obj {
        Expr::ObjectLit { props } => props,
        _ => unreachable!(),
    });
    assert_eq!(s, "background-color: red;\n");
}
