//! The flair-property visitor.
//!
//! It tracks which symbols name a component declaration (a function or
//! class declaration, or a variable whose initializer is — possibly
//! wrapped in calls — a function or arrow), and turns assignments of
//! the shape `X.flair = <css>` / `X.globalFlair = <css>` into recorded
//! CSS keyed by that declaration's identity, replacing the assignment
//! with an inert sentinel string so the finalize step can strip it.

use vstd::prelude::*;

use crate::ast::{
    expr_v, exprs_v, lemma_exprs_v, lemma_props_v, opt_expr_v, prop_key_v, prop_v, props_v,
    Expr, ExprV, ObjectProp, ObjectPropV, PropKey, PropKeyV, Stmt, StmtV, VarDeclarator,
    VarDeclaratorV,
};
use crate::css_map::{ordered_insert, OrderedCss};
use crate::maps::IdMap;
use crate::strutil::{append_str, camel_case_to_kebab_case, push_char, spec_kebab, str_eq};
use crate::style_tag::{quasis_concat, CSSData};
use crate::update_attribute::{lemma_expr_v_variant, lemma_prop_key_v_variant};

verus! {

/// The sentinel text that replaces a consumed flair assignment.
pub open spec fn flair_replacement_v() -> Seq<char> {
    "__flair_replacement__"@
}

/// The sentinel string literal's text.
pub fn flair_replacement() -> (r: String)
    ensures
        r@ == flair_replacement_v(),
{
    String::from_str("__flair_replacement__")
}

// ----------------------------------------------------------------------
// The CSS-from-object compiler.
// ----------------------------------------------------------------------

pub open spec fn prop_key_name(k: PropKeyV) -> Option<Seq<char>> {
    match k {
        PropKeyV::StringKey(s) => Some(s),
        PropKeyV::IdentKey(s) => Some(s),
        PropKeyV::OtherKey => None,
    }
}

/// One line of the object-compiled CSS: `kebab(key): value;` for plain
/// values, `key { ... }` for a nested selector block (its key verbatim).
pub open spec fn prop_line_v(p: ObjectPropV) -> Seq<char>
    decreases p,
{
    match prop_key_name(p.key) {
        None => Seq::<char>::empty(),
        Some(k) => match p.value {
            ExprV::ObjectLit { props } => k + " "@ + "{ "@ + style_string_v(props) + " }"@
                + "\n"@,
            ExprV::StringLit { value } => spec_kebab(k, true) + ": "@ + value + ";"@ + "\n"@,
            ExprV::NumberLit { raw } => spec_kebab(k, true) + ": "@ + raw + ";"@ + "\n"@,
            ExprV::BoolLit { value } => spec_kebab(k, true) + ": "@ + (if value {
                "true"@
            } else {
                "false"@
            }) + ";"@ + "\n"@,
            _ => spec_kebab(k, true) + ": "@ + ";"@ + "\n"@,
        },
    }
}

/// The CSS text an object literal compiles to, property by property.
pub open spec fn style_string_v(props: Seq<ObjectPropV>) -> Seq<char>
    decreases props,
{
    if props.len() == 0 {
        Seq::<char>::empty()
    } else {
        style_string_v(props.drop_last()) + prop_line_v(props.last())
    }
}

/// Compiles an object literal to CSS declarations and nested blocks.
#[verifier::rlimit(80)]
pub fn build_style_string_from_object(props: &Vec<ObjectProp>) -> (r: String)
    ensures
        r@ == style_string_v(props_v(props@)),
    decreases *props,
{
    let mut out = String::new();
    let mut i: usize = 0;
    proof {
        assert(props_v(props@.subrange(0, 0)) =~= Seq::<ObjectPropV>::empty());
        assert(out@ =~= style_string_v(props_v(props@.subrange(0, 0))));
    }
    while i < props.len()
        invariant
            i <= props@.len(),
            out@ == style_string_v(props_v(props@.subrange(0, i as int))),
        decreases props@.len() - i,
    {
        proof {
            assert(decreases_to!(*props => props@));
            assert(decreases_to!(props@ => props@[i as int]));
        }
        let p = &props[i];
        let ghost pre = out@;
        let ghost pv = prop_v(props@[i as int]);
        let key_name: Option<&String> = match &p.key {
            PropKey::StringKey(sk) => Some(sk),
            PropKey::IdentKey(ik) => Some(ik),
            PropKey::OtherKey => None,
        };
        match key_name {
            None => {
                proof {
                    lemma_prop_key_v_variant(p.key);
                    assert(out@ =~= pre + prop_line_v(pv));
                }
            },
            Some(k) => {
                match &p.value {
                    Expr::ObjectLit { props: nested } => {
                        let inner = build_style_string_from_object(nested);
                        let mut line = k.clone();
                        append_str(&mut line, " ");
                        append_str(&mut line, "{ ");
                        append_str(&mut line, inner.as_str());
                        append_str(&mut line, " }");
                        append_str(&mut line, "\n");
                        append_str(&mut out, line.as_str());
                        proof {
                            assert(line@ == prop_line_v(pv));
                            assert(out@ =~= pre + prop_line_v(pv));
                        }
                    },
                    Expr::StringLit { value } => {
                        let mut line = camel_case_to_kebab_case(k.as_str());
                        append_str(&mut line, ": ");
                        append_str(&mut line, value.as_str());
                        append_str(&mut line, ";");
                        append_str(&mut line, "\n");
                        append_str(&mut out, line.as_str());
                        proof {
                            assert(line@ == prop_line_v(pv));
                            assert(out@ =~= pre + prop_line_v(pv));
                        }
                    },
                    Expr::NumberLit { raw } => {
                        let mut line = camel_case_to_kebab_case(k.as_str());
                        append_str(&mut line, ": ");
                        append_str(&mut line, raw.as_str());
                        append_str(&mut line, ";");
                        append_str(&mut line, "\n");
                        append_str(&mut out, line.as_str());
                        proof {
                            assert(line@ == prop_line_v(pv));
                            assert(out@ =~= pre + prop_line_v(pv));
                        }
                    },
                    Expr::BoolLit { value } => {
                        let mut line = camel_case_to_kebab_case(k.as_str());
                        append_str(&mut line, ": ");
                        if *value {
                            append_str(&mut line, "true");
                        } else {
                            append_str(&mut line, "false");
                        }
                        append_str(&mut line, ";");
                        append_str(&mut line, "\n");
                        append_str(&mut out, line.as_str());
                        proof {
                            assert(line@ == prop_line_v(pv));
                            assert(out@ =~= pre + prop_line_v(pv));
                        }
                    },
                    other => {
                        let mut line = camel_case_to_kebab_case(k.as_str());
                        append_str(&mut line, ": ");
                        append_str(&mut line, ";");
                        append_str(&mut line, "\n");
                        append_str(&mut out, line.as_str());
                        proof {
                            lemma_expr_v_variant(p.value);
                            assert(line@ == prop_line_v(pv));
                            assert(out@ =~= pre + prop_line_v(pv));
                        }
                    },
                }
            },
        }
        i = i + 1;
        proof {
            let sub1 = props@.subrange(0, i as int);
            let sub0 = props@.subrange(0, i as int - 1);
            assert(sub1.drop_last() =~= sub0);
            assert(sub1.last() == props@[i as int - 1]);
            assert(props_v(sub1) == props_v(sub0).push(pv));
            assert(props_v(sub1).drop_last() =~= props_v(sub0));
            assert(props_v(sub1).last() == pv);
            assert(style_string_v(props_v(sub1)) == style_string_v(props_v(sub0)) + prop_line_v(
                pv,
            ));
        }
    }
    proof {
        assert(props@.subrange(0, props@.len() as int) =~= props@);
    }
    out
}

// ----------------------------------------------------------------------
// Finding the function-like node behind a declaration's initializer.
// ----------------------------------------------------------------------

/// The source offset of the function-like node an initializer denotes:
/// a function or arrow expression directly, or the first one found in
/// the arguments of a call (wrappers such as `memo(() => ...)`).
pub open spec fn get_item_v(e: ExprV) -> Option<u32>
    decreases e,
{
    match e {
        ExprV::FunctionExpr { body, span_start } => Some(span_start),
        ExprV::Arrow { body, span_start } => Some(span_start),
        ExprV::Call { callee, arguments, span_start } => get_item_args(arguments),
        _ => None,
    }
}

pub open spec fn get_item_args(s: Seq<ExprV>) -> Option<u32>
    decreases s,
{
    if s.len() == 0 {
        None
    } else {
        match get_item_v(s.first()) {
            Some(x) => Some(x),
            None => get_item_args(s.drop_first()),
        }
    }
}

/// Finds the function-like node behind an initializer, returning its
/// offset and a reference to its body.
pub fn get_item(expression: &Expr) -> (r: Option<(u32, &Vec<Stmt>)>)
    ensures
        match r {
            Some((span, body)) => get_item_v(expr_v(*expression)) == Some(span),
            None => get_item_v(expr_v(*expression)) is None,
        },
    decreases *expression,
{
    match expression {
        Expr::FunctionExpr { body, span_start } => Some((*span_start, body)),
        Expr::Arrow { body, span_start } => Some((*span_start, body)),
        Expr::Call { callee, arguments, span_start } => {
            let ghost av = exprs_v(arguments@);
            proof {
                lemma_exprs_v(arguments@);
            }
            let mut i: usize = 0;
            proof {
                assert(av.subrange(0, av.len() as int) =~= av);
            }
            #[verifier::loop_isolation(false)]
            while i < arguments.len()
                invariant
                    i <= arguments@.len(),
                    av == exprs_v(arguments@),
                    av.len() == arguments@.len(),
                    forall|k: int| 0 <= k < arguments@.len() ==> av[k] == expr_v(
                        #[trigger] arguments@[k],
                    ),
                    get_item_args(av) == get_item_args(av.subrange(i as int, av.len() as int)),
                decreases arguments@.len() - i,
            {
                proof {
                    assert(decreases_to!(*expression => *arguments));
                    assert(decreases_to!(*arguments => arguments@));
                    assert(decreases_to!(arguments@ => arguments@[i as int]));
                }
                let item = get_item(&arguments[i]);
                let ghost tail = av.subrange(i as int, av.len() as int);
                proof {
                    assert(tail.first() == av[i as int]);
                    assert(tail.drop_first() =~= av.subrange(i as int + 1, av.len() as int));
                }
                match item {
                    Some(x) => {
                        return Some(x);
                    },
                    None => {},
                }
                i = i + 1;
            }
            proof {
                assert(av.subrange(av.len() as int, av.len() as int) =~= Seq::<ExprV>::empty());
            }
            None
        },
        other => {
            proof {
                lemma_expr_v_variant(*expression);
            }
            None
        },
    }
}

// ----------------------------------------------------------------------
// CSS extraction from an assignment's right-hand side.
// ----------------------------------------------------------------------

/// The CSS text the right-hand side of a flair assignment contributes:
/// a string literal's value, the static chunks of a (tagged) template,
/// the compiled object of a `flair({...})` call, and nothing otherwise.
pub open spec fn extract_css_v(e: ExprV) -> Seq<char>
    decreases e,
{
    match e {
        ExprV::StringLit { value } => value,
        ExprV::TemplateLit { quasis, exprs } => quasis_concat(quasis),
        ExprV::TaggedTemplate { quasis } => quasis_concat(quasis),
        ExprV::Call { callee, arguments, span_start } => match *callee {
            ExprV::Ident { name, symbol } => {
                if name == "flair"@ && arguments.len() >= 1 {
                    match arguments[0] {
                        ExprV::ObjectLit { props } => style_string_v(props),
                        _ => Seq::<char>::empty(),
                    }
                } else {
                    Seq::<char>::empty()
                }
            },
            _ => Seq::<char>::empty(),
        },
        _ => Seq::<char>::empty(),
    }
}

/// What a flair assignment records: the declaration's offset, the CSS
/// text, and whether it is global.  `None` when the expression is not a
/// flair assignment to a tracked symbol.
pub open spec fn fp_assign(e: ExprV, m: Map<u32, u32>) -> Option<(u32, Seq<char>, bool)> {
    match e {
        ExprV::Assign { object_name, object_symbol, property, value, span_start } => match
            object_symbol {
            Some(sy) => {
                if m.contains_key(sy) && (property == "flair"@ || property == "globalFlair"@) {
                    Some((m[sy], extract_css_v(*value), property == "globalFlair"@))
                } else {
                    None
                }
            },
            None => None,
        },
        _ => None,
    }
}

/// Extracts, records and replaces flair-property assignments.
pub struct FlairProperty {
    pub style: OrderedCss,
    pub global_style: OrderedCss,
    pub symbol_to_span_start_map: IdMap,
}

impl FlairProperty {
    pub fn new() -> (r: FlairProperty)
        ensures
            r.style@ == Seq::<(u32, (Seq<char>, bool))>::empty(),
            r.global_style@ == Seq::<(u32, (Seq<char>, bool))>::empty(),
            r.symbol_to_span_start_map@ == Map::<u32, u32>::empty(),
    {
        FlairProperty {
            style: OrderedCss::new(),
            global_style: OrderedCss::new(),
            symbol_to_span_start_map: IdMap::new(),
        }
    }

    pub fn get_scoped_style(&self) -> (r: &OrderedCss)
        ensures
            r@ == self.style@,
    {
        &self.style
    }

    pub fn get_global_style(&self) -> (r: &OrderedCss)
        ensures
            r@ == self.global_style@,
    {
        &self.global_style
    }

    /// Records the declaration identity of a variable whose initializer
    /// is function-like.
    pub fn visit_declarator(&mut self, d: &VarDeclarator)
        ensures
            final(self).symbol_to_span_start_map@ == fp_declarator(
                crate::ast::declarator_v(*d),
                old(self).symbol_to_span_start_map@,
            ),
            final(self).style@ == old(self).style@,
            final(self).global_style@ == old(self).global_style@,
    {
        match (&d.init, d.symbol) {
            (Some(init), Some(sy)) => {
                match get_item(init) {
                    Some((span, _body)) => {
                        self.symbol_to_span_start_map.insert(sy, span);
                    },
                    None => {},
                }
            },
            _ => {},
        }
    }

    /// Records a named function declaration's identity.
    pub fn visit_function(&mut self, symbol: Option<u32>, span_start: u32)
        ensures
            final(self).symbol_to_span_start_map@ == (match symbol {
                Some(sy) => old(self).symbol_to_span_start_map@.insert(sy, span_start),
                None => old(self).symbol_to_span_start_map@,
            }),
            final(self).style@ == old(self).style@,
            final(self).global_style@ == old(self).global_style@,
    {
        match symbol {
            Some(sy) => {
                self.symbol_to_span_start_map.insert(sy, span_start);
            },
            None => {},
        }
    }

    /// Records a named class declaration's identity.
    pub fn visit_class(&mut self, symbol: Option<u32>, span_start: u32)
        ensures
            final(self).symbol_to_span_start_map@ == (match symbol {
                Some(sy) => old(self).symbol_to_span_start_map@.insert(sy, span_start),
                None => old(self).symbol_to_span_start_map@,
            }),
            final(self).style@ == old(self).style@,
            final(self).global_style@ == old(self).global_style@,
    {
        match symbol {
            Some(sy) => {
                self.symbol_to_span_start_map.insert(sy, span_start);
            },
            None => {},
        }
    }

    /// On a flair assignment to a tracked symbol: extracts the CSS,
    /// records it (global or scoped), and returns the sentinel string
    /// literal that replaces the assignment.  Otherwise returns `None`
    /// and changes nothing.
    pub fn visit_expression(&mut self, e: &Expr) -> (r: Option<Expr>)
        ensures
            ({
                let spec = fp_assign(expr_v(*e), old(self).symbol_to_span_start_map@);
                &&& final(self).symbol_to_span_start_map@ == old(self).symbol_to_span_start_map@
                &&& match spec {
                    Some((span, css, g)) => {
                        &&& r is Some
                        &&& expr_v(r->Some_0) == (ExprV::StringLit {
                            value: flair_replacement_v(),
                        })
                        &&& if g {
                            final(self).global_style@ == ordered_insert(
                                old(self).global_style@,
                                span,
                                (css, true),
                            ) && final(self).style@ == old(self).style@
                        } else {
                            final(self).style@ == ordered_insert(
                                old(self).style@,
                                span,
                                (css, false),
                            ) && final(self).global_style@ == old(self).global_style@
                        }
                    },
                    None => {
                        &&& r is None
                        &&& final(self).style@ == old(self).style@
                        &&& final(self).global_style@ == old(self).global_style@
                    },
                }
            }),
    {
        match e {
            Expr::Assign { object_name, object_symbol, property, value, span_start } => {
                let sy = match object_symbol {
                    Some(sy) => *sy,
                    None => {
                        return None;
                    },
                };
                let span = match self.symbol_to_span_start_map.get(sy) {
                    Some(span) => span,
                    None => {
                        return None;
                    },
                };
                let is_flair = str_eq(property.as_str(), "flair");
                let is_global = str_eq(property.as_str(), "globalFlair");
                if !is_flair && !is_global {
                    return None;
                }
                let css_content = extract_css(value);
                if is_global {
                    self.global_style.insert(
                        span,
                        CSSData { raw_css: css_content, is_global: true },
                    );
                } else {
                    self.style.insert(span, CSSData { raw_css: css_content, is_global: false });
                }
                Some(Expr::StringLit { value: flair_replacement() })
            },
            _ => {
                proof {
                    lemma_expr_v_variant(*e);
                }
                None
            },
        }
    }
}

/// What a declarator adds to the symbol-to-declaration map.
pub open spec fn fp_declarator(d: VarDeclaratorV, m: Map<u32, u32>) -> Map<u32, u32> {
    match (d.init, d.symbol) {
        (Some(init), Some(sy)) => match get_item_v(init) {
            Some(span) => m.insert(sy, span),
            None => m,
        },
        _ => m,
    }
}

/// Extracts the CSS text of a flair assignment's right-hand side.
pub fn extract_css(e: &Expr) -> (r: String)
    ensures
        r@ == extract_css_v(expr_v(*e)),
{
    match e {
        Expr::StringLit { value } => {
            let r = value.clone();
            proof {
                assert(r@ == extract_css_v(expr_v(*e)));
            }
            r
        },
        Expr::TemplateLit { quasis, exprs } => {
            let r = quasis_concat_pub(quasis);
            proof {
                assert(r@ == extract_css_v(expr_v(*e)));
            }
            r
        },
        Expr::TaggedTemplate { quasis } => {
            let r = quasis_concat_pub(quasis);
            proof {
                assert(r@ == extract_css_v(expr_v(*e)));
            }
            r
        },
        Expr::Call { callee, arguments, span_start } => {
            proof {
                lemma_exprs_v(arguments@);
            }
            match &**callee {
                Expr::Ident { name, symbol } => {
                    proof {
                        assert(expr_v(**callee) == (ExprV::Ident { name: name@, symbol: *symbol }));
                        assert(expr_v(*e) == (ExprV::Call {
                            callee: Box::new(expr_v(**callee)),
                            arguments: exprs_v(arguments@),
                            span_start: *span_start,
                        }));
                    }
                    if str_eq(name.as_str(), "flair") && arguments.len() >= 1 {
                        let r = match &arguments[0] {
                            Expr::ObjectLit { props } => build_style_string_from_object(props),
                            other => {
                                proof {
                                    lemma_expr_v_variant(arguments@[0]);
                                }
                                String::new()
                            },
                        };
                        proof {
                            assert(exprs_v(arguments@)[0] == expr_v(arguments@[0]));
                            assert(r@ == extract_css_v(expr_v(*e)));
                        }
                        r
                    } else {
                        let r = String::new();
                        proof {
                            assert(r@ == extract_css_v(expr_v(*e)));
                        }
                        r
                    }
                },
                other => {
                    proof {
                        lemma_expr_v_variant(**callee);
                    }
                    String::new()
                },
            }
        },
        other => {
            proof {
                lemma_expr_v_variant(*e);
            }
            String::new()
        },
    }
}

/// The concatenation of a template's static chunks.
fn quasis_concat_pub(qs: &Vec<String>) -> (r: String)
    ensures
        r@ == quasis_concat(crate::ast::strs_v(qs@)),
{
    let mut r = String::new();
    let mut i: usize = 0;
    proof {
        assert(crate::ast::strs_v(qs@.subrange(0, 0)) =~= Seq::<Seq<char>>::empty());
        assert(r@ =~= quasis_concat(crate::ast::strs_v(qs@.subrange(0, 0))));
    }
    while i < qs.len()
        invariant
            i <= qs@.len(),
            r@ == quasis_concat(crate::ast::strs_v(qs@.subrange(0, i as int))),
        decreases qs@.len() - i,
    {
        append_str(&mut r, qs[i].as_str());
        i = i + 1;
        proof {
            let sub1 = qs@.subrange(0, i as int);
            let sub0 = qs@.subrange(0, i as int - 1);
            assert(sub1.drop_last() =~= sub0);
            assert(crate::ast::strs_v(sub1).drop_last() =~= crate::ast::strs_v(sub0));
            assert(crate::ast::strs_v(sub1).last() == qs@[i as int - 1]@);
            assert(crate::ast::strs_v(sub1) =~= crate::ast::strs_v(sub0).push(
                qs@[i as int - 1]@,
            ));
        }
    }
    proof {
        assert(qs@.subrange(0, qs@.len() as int) =~= qs@);
    }
    r
}

} // verus!
