//! The Style-tag visitor and the later removal of matched tags.
//!
//! The detector scans a function body for JSX elements whose tag
//! resolves to one of the style-marker import symbols; it extracts the
//! CSS text of their children (literal text and the static chunks of
//! template literals), notes whether the element is global (a `global`
//! attribute with no value or the value `true`), and records the
//! element's source offset so a later pass can remove it.

use vstd::prelude::*;

use crate::ast::{
    attr_item_v, attr_value_v, attrs_v, child_v, children_v, declarator_v, declarators_v, expr_v,
    exprs_v, jsx_element_v, method_v, methods_v, opt_expr_v, prop_v, props_v, stmt_v, stmts_v,
    strs_v, ClassMethod, ClassMethodV, Expr, ExprV, JSXAttrItem, JSXAttrItemV, JSXAttrValue,
    JSXAttrValueV, JSXChild, JSXChildV, JSXElement, JSXElementV, ObjectProp, ObjectPropV,
    PropKey, Stmt, StmtV, VarDeclarator, VarDeclaratorV,
};
use crate::strutil::append_str;

verus! {

/// Raw CSS text attached to one declaration, with its scoping.
#[derive(Debug)]
pub struct CSSData {
    pub raw_css: String,
    pub is_global: bool,
}

impl CSSData {
    /// The view of one CSS datum: its text and whether it is global.
    pub open spec fn view(&self) -> (Seq<char>, bool) {
        (self.raw_css@, self.is_global)
    }

    pub fn duplicate(&self) -> (r: CSSData)
        ensures
            r@ == self@,
    {
        CSSData { raw_css: self.raw_css.clone(), is_global: self.is_global }
    }
}

pub open spec fn css_list_v(s: Seq<CSSData>) -> Seq<(Seq<char>, bool)> {
    s.map_values(|d: CSSData| d@)
}

// ----------------------------------------------------------------------
// What one matched Style element contributes.
// ----------------------------------------------------------------------

/// The concatenation of a template literal's static chunks.
pub open spec fn quasis_concat(qs: Seq<Seq<char>>) -> Seq<char>
    decreases qs.len(),
{
    if qs.len() == 0 {
        Seq::<char>::empty()
    } else {
        quasis_concat(qs.drop_last()) + qs.last()
    }
}

/// The CSS text one child contributes: literal text, or the static
/// chunks of a (possibly tagged) template literal in a container.
pub open spec fn child_css(ch: JSXChildV) -> Seq<char> {
    match ch {
        JSXChildV::Text(t) => t,
        JSXChildV::Container(e) => match *e {
            ExprV::TemplateLit { quasis, exprs } => quasis_concat(quasis),
            ExprV::TaggedTemplate { quasis } => quasis_concat(quasis),
            _ => Seq::<char>::empty(),
        },
        _ => Seq::<char>::empty(),
    }
}

pub open spec fn children_css(s: Seq<JSXChildV>) -> Seq<char>
    decreases s.len(),
{
    if s.len() == 0 {
        Seq::<char>::empty()
    } else {
        children_css(s.drop_last()) + child_css(s.last())
    }
}

/// Does one attribute mark the element global?  `global` with no value,
/// or `global={true}`.
pub open spec fn attr_marks_global(a: JSXAttrItemV) -> bool {
    match a {
        JSXAttrItemV::Attr { name, value } => name == "global"@ && match value {
            None => true,
            Some(JSXAttrValueV::Container(e)) => match *e {
                ExprV::BoolLit { value: b } => b,
                _ => false,
            },
            Some(_) => false,
        },
        JSXAttrItemV::Spread => false,
    }
}

pub open spec fn spec_is_global(attrs: Seq<JSXAttrItemV>) -> bool {
    exists|i: int| 0 <= i < attrs.len() && attr_marks_global(#[trigger] attrs[i])
}

/// Is this element a style tag: its name resolves to a style-marker
/// import symbol?
pub open spec fn is_style_el(el: JSXElementV, syms: Seq<u32>) -> bool {
    match el.name_symbol {
        Some(sy) => syms.contains(sy),
        None => false,
    }
}

// ----------------------------------------------------------------------
// The detector's scan: CSS entries and matched spans, in order.
// ----------------------------------------------------------------------

pub open spec fn det_el(el: JSXElementV, syms: Seq<u32>) -> (
    Seq<(Seq<char>, bool)>,
    Seq<u32>,
)
    decreases el,
{
    let own: (Seq<(Seq<char>, bool)>, Seq<u32>) = if is_style_el(el, syms) {
        (
            seq![(children_css(el.children), spec_is_global(el.attributes))],
            seq![el.span_start],
        )
    } else {
        (Seq::<(Seq<char>, bool)>::empty(), Seq::<u32>::empty())
    };
    let ta = det_attrs(el.attributes, syms);
    let tc = det_children(el.children, syms);
    (own.0 + ta.0 + tc.0, own.1 + ta.1 + tc.1)
}

pub open spec fn det_attr(a: JSXAttrItemV, syms: Seq<u32>) -> (
    Seq<(Seq<char>, bool)>,
    Seq<u32>,
)
    decreases a,
{
    match a {
        JSXAttrItemV::Attr { name, value } => match value {
            Some(JSXAttrValueV::Container(e)) => det_expr(*e, syms),
            _ => (Seq::<(Seq<char>, bool)>::empty(), Seq::<u32>::empty()),
        },
        JSXAttrItemV::Spread => (Seq::<(Seq<char>, bool)>::empty(), Seq::<u32>::empty()),
    }
}

pub open spec fn det_attrs(s: Seq<JSXAttrItemV>, syms: Seq<u32>) -> (
    Seq<(Seq<char>, bool)>,
    Seq<u32>,
)
    decreases s,
{
    if s.len() == 0 {
        (Seq::<(Seq<char>, bool)>::empty(), Seq::<u32>::empty())
    } else {
        let front = det_attrs(s.drop_last(), syms);
        let last = det_attr(s.last(), syms);
        (front.0 + last.0, front.1 + last.1)
    }
}

pub open spec fn det_child(ch: JSXChildV, syms: Seq<u32>) -> (
    Seq<(Seq<char>, bool)>,
    Seq<u32>,
)
    decreases ch,
{
    match ch {
        JSXChildV::Element(el) => det_el(*el, syms),
        JSXChildV::Container(e) => det_expr(*e, syms),
        _ => (Seq::<(Seq<char>, bool)>::empty(), Seq::<u32>::empty()),
    }
}

pub open spec fn det_children(s: Seq<JSXChildV>, syms: Seq<u32>) -> (
    Seq<(Seq<char>, bool)>,
    Seq<u32>,
)
    decreases s,
{
    if s.len() == 0 {
        (Seq::<(Seq<char>, bool)>::empty(), Seq::<u32>::empty())
    } else {
        let front = det_children(s.drop_last(), syms);
        let last = det_child(s.last(), syms);
        (front.0 + last.0, front.1 + last.1)
    }
}

pub open spec fn det_expr(e: ExprV, syms: Seq<u32>) -> (Seq<(Seq<char>, bool)>, Seq<u32>)
    decreases e,
{
    match e {
        ExprV::TemplateLit { quasis, exprs } => det_exprs(exprs, syms),
        ExprV::ArrayLit { elements } => det_exprs(elements, syms),
        ExprV::ObjectLit { props } => det_props(props, syms),
        ExprV::Conditional { test, consequent, alternate } => {
            let a = det_expr(*test, syms);
            let b = det_expr(*consequent, syms);
            let d = det_expr(*alternate, syms);
            (a.0 + b.0 + d.0, a.1 + b.1 + d.1)
        },
        ExprV::Logical { op, left, right } => {
            let a = det_expr(*left, syms);
            let b = det_expr(*right, syms);
            (a.0 + b.0, a.1 + b.1)
        },
        ExprV::Binary { op, left, right } => {
            let a = det_expr(*left, syms);
            let b = det_expr(*right, syms);
            (a.0 + b.0, a.1 + b.1)
        },
        ExprV::Call { callee, arguments, span_start } => {
            let a = det_expr(*callee, syms);
            let b = det_exprs(arguments, syms);
            (a.0 + b.0, a.1 + b.1)
        },
        ExprV::StaticMember { object, property } => det_expr(*object, syms),
        ExprV::Assign { value, .. } => det_expr(*value, syms),
        ExprV::Arrow { body, span_start } => det_stmts(body, syms),
        ExprV::FunctionExpr { body, span_start } => det_stmts(body, syms),
        ExprV::Element(el) => det_el(*el, syms),
        ExprV::Fragment { children, span_start } => det_children(children, syms),
        _ => (Seq::<(Seq<char>, bool)>::empty(), Seq::<u32>::empty()),
    }
}

pub open spec fn det_exprs(s: Seq<ExprV>, syms: Seq<u32>) -> (Seq<(Seq<char>, bool)>, Seq<u32>)
    decreases s,
{
    if s.len() == 0 {
        (Seq::<(Seq<char>, bool)>::empty(), Seq::<u32>::empty())
    } else {
        let front = det_exprs(s.drop_last(), syms);
        let last = det_expr(s.last(), syms);
        (front.0 + last.0, front.1 + last.1)
    }
}

pub open spec fn det_prop(p: ObjectPropV, syms: Seq<u32>) -> (Seq<(Seq<char>, bool)>, Seq<u32>)
    decreases p,
{
    det_expr(p.value, syms)
}

pub open spec fn det_props(s: Seq<ObjectPropV>, syms: Seq<u32>) -> (
    Seq<(Seq<char>, bool)>,
    Seq<u32>,
)
    decreases s,
{
    if s.len() == 0 {
        (Seq::<(Seq<char>, bool)>::empty(), Seq::<u32>::empty())
    } else {
        let front = det_props(s.drop_last(), syms);
        let last = det_prop(s.last(), syms);
        (front.0 + last.0, front.1 + last.1)
    }
}

pub open spec fn det_opt_expr(o: Option<ExprV>, syms: Seq<u32>) -> (
    Seq<(Seq<char>, bool)>,
    Seq<u32>,
)
    decreases o,
{
    match o {
        Some(e) => det_expr(e, syms),
        None => (Seq::<(Seq<char>, bool)>::empty(), Seq::<u32>::empty()),
    }
}

pub open spec fn det_declarator(d: VarDeclaratorV, syms: Seq<u32>) -> (
    Seq<(Seq<char>, bool)>,
    Seq<u32>,
)
    decreases d,
{
    det_opt_expr(d.init, syms)
}

pub open spec fn det_declarators(s: Seq<VarDeclaratorV>, syms: Seq<u32>) -> (
    Seq<(Seq<char>, bool)>,
    Seq<u32>,
)
    decreases s,
{
    if s.len() == 0 {
        (Seq::<(Seq<char>, bool)>::empty(), Seq::<u32>::empty())
    } else {
        let front = det_declarators(s.drop_last(), syms);
        let last = det_declarator(s.last(), syms);
        (front.0 + last.0, front.1 + last.1)
    }
}

pub open spec fn det_method(m: ClassMethodV, syms: Seq<u32>) -> (
    Seq<(Seq<char>, bool)>,
    Seq<u32>,
)
    decreases m,
{
    det_stmts(m.body, syms)
}

pub open spec fn det_methods(s: Seq<ClassMethodV>, syms: Seq<u32>) -> (
    Seq<(Seq<char>, bool)>,
    Seq<u32>,
)
    decreases s,
{
    if s.len() == 0 {
        (Seq::<(Seq<char>, bool)>::empty(), Seq::<u32>::empty())
    } else {
        let front = det_methods(s.drop_last(), syms);
        let last = det_method(s.last(), syms);
        (front.0 + last.0, front.1 + last.1)
    }
}

pub open spec fn det_stmt(st: StmtV, syms: Seq<u32>) -> (Seq<(Seq<char>, bool)>, Seq<u32>)
    decreases st,
{
    match st {
        StmtV::VarDecl { declarators, span_start } => det_declarators(declarators, syms),
        StmtV::FunctionDecl { body, .. } => det_stmts(body, syms),
        StmtV::ClassDecl { methods, .. } => det_methods(methods, syms),
        StmtV::ExprStmt { expr, span_start } => det_expr(expr, syms),
        StmtV::Return { argument, span_start } => det_opt_expr(argument, syms),
        _ => (Seq::<(Seq<char>, bool)>::empty(), Seq::<u32>::empty()),
    }
}

pub open spec fn det_stmts(s: Seq<StmtV>, syms: Seq<u32>) -> (Seq<(Seq<char>, bool)>, Seq<u32>)
    decreases s,
{
    if s.len() == 0 {
        (Seq::<(Seq<char>, bool)>::empty(), Seq::<u32>::empty())
    } else {
        let front = det_stmts(s.drop_last(), syms);
        let last = det_stmt(s.last(), syms);
        (front.0 + last.0, front.1 + last.1)
    }
}


// ----------------------------------------------------------------------
// Removal of matched style tags: a child whose element's offset is in
// the recorded set is dropped; everything else is kept and traversed.
// ----------------------------------------------------------------------

pub open spec fn keep_child(ch: JSXChildV, spans: Seq<u32>) -> bool {
    match ch {
        JSXChildV::Element(el) => !spans.contains(el.span_start),
        _ => true,
    }
}

pub open spec fn rm_children(s: Seq<JSXChildV>, spans: Seq<u32>) -> Seq<JSXChildV>
    decreases s,
{
    if s.len() == 0 {
        Seq::<JSXChildV>::empty()
    } else {
        let front = rm_children(s.drop_last(), spans);
        if keep_child(s.last(), spans) {
            front.push(rm_child(s.last(), spans))
        } else {
            front
        }
    }
}

pub open spec fn rm_child(ch: JSXChildV, spans: Seq<u32>) -> JSXChildV
    decreases ch,
{
    match ch {
        JSXChildV::Element(el) => JSXChildV::Element(Box::new(rm_el(*el, spans))),
        JSXChildV::Container(e) => JSXChildV::Container(Box::new(rm_expr(*e, spans))),
        other => other,
    }
}

pub open spec fn rm_el(el: JSXElementV, spans: Seq<u32>) -> JSXElementV
    decreases el,
{
    JSXElementV {
        name: el.name,
        name_symbol: el.name_symbol,
        attributes: rm_attrs(el.attributes, spans),
        children: rm_children(el.children, spans),
        span_start: el.span_start,
    }
}

pub open spec fn rm_attr(a: JSXAttrItemV, spans: Seq<u32>) -> JSXAttrItemV
    decreases a,
{
    match a {
        JSXAttrItemV::Attr { name, value } => JSXAttrItemV::Attr {
            name,
            value: match value {
                Some(JSXAttrValueV::Container(e)) => Some(
                    JSXAttrValueV::Container(Box::new(rm_expr(*e, spans))),
                ),
                other => other,
            },
        },
        JSXAttrItemV::Spread => JSXAttrItemV::Spread,
    }
}

pub open spec fn rm_attrs(s: Seq<JSXAttrItemV>, spans: Seq<u32>) -> Seq<JSXAttrItemV>
    decreases s,
{
    if s.len() == 0 {
        Seq::<JSXAttrItemV>::empty()
    } else {
        rm_attrs(s.drop_last(), spans).push(rm_attr(s.last(), spans))
    }
}

pub open spec fn rm_expr(e: ExprV, spans: Seq<u32>) -> ExprV
    decreases e,
{
    match e {
        ExprV::TemplateLit { quasis, exprs } => ExprV::TemplateLit {
            quasis,
            exprs: rm_exprs(exprs, spans),
        },
        ExprV::ArrayLit { elements } => ExprV::ArrayLit { elements: rm_exprs(elements, spans) },
        ExprV::ObjectLit { props } => ExprV::ObjectLit { props: rm_props(props, spans) },
        ExprV::Conditional { test, consequent, alternate } => ExprV::Conditional {
            test: Box::new(rm_expr(*test, spans)),
            consequent: Box::new(rm_expr(*consequent, spans)),
            alternate: Box::new(rm_expr(*alternate, spans)),
        },
        ExprV::Logical { op, left, right } => ExprV::Logical {
            op,
            left: Box::new(rm_expr(*left, spans)),
            right: Box::new(rm_expr(*right, spans)),
        },
        ExprV::Binary { op, left, right } => ExprV::Binary {
            op,
            left: Box::new(rm_expr(*left, spans)),
            right: Box::new(rm_expr(*right, spans)),
        },
        ExprV::Call { callee, arguments, span_start } => ExprV::Call {
            callee: Box::new(rm_expr(*callee, spans)),
            arguments: rm_exprs(arguments, spans),
            span_start,
        },
        ExprV::StaticMember { object, property } => ExprV::StaticMember {
            object: Box::new(rm_expr(*object, spans)),
            property,
        },
        ExprV::Assign { object_name, object_symbol, property, value, span_start } => ExprV::Assign {
            object_name,
            object_symbol,
            property,
            value: Box::new(rm_expr(*value, spans)),
            span_start,
        },
        ExprV::Arrow { body, span_start } => ExprV::Arrow {
            body: rm_stmts(body, spans),
            span_start,
        },
        ExprV::FunctionExpr { body, span_start } => ExprV::FunctionExpr {
            body: rm_stmts(body, spans),
            span_start,
        },
        ExprV::Element(el) => ExprV::Element(Box::new(rm_el(*el, spans))),
        ExprV::Fragment { children, span_start } => ExprV::Fragment {
            children: rm_children(children, spans),
            span_start,
        },
        other => other,
    }
}

pub open spec fn rm_exprs(s: Seq<ExprV>, spans: Seq<u32>) -> Seq<ExprV>
    decreases s,
{
    if s.len() == 0 {
        Seq::<ExprV>::empty()
    } else {
        rm_exprs(s.drop_last(), spans).push(rm_expr(s.last(), spans))
    }
}

pub open spec fn rm_prop(p: ObjectPropV, spans: Seq<u32>) -> ObjectPropV
    decreases p,
{
    ObjectPropV { key: p.key, value: rm_expr(p.value, spans) }
}

pub open spec fn rm_props(s: Seq<ObjectPropV>, spans: Seq<u32>) -> Seq<ObjectPropV>
    decreases s,
{
    if s.len() == 0 {
        Seq::<ObjectPropV>::empty()
    } else {
        rm_props(s.drop_last(), spans).push(rm_prop(s.last(), spans))
    }
}

pub open spec fn rm_opt_expr(o: Option<ExprV>, spans: Seq<u32>) -> Option<ExprV>
    decreases o,
{
    match o {
        Some(e) => Some(rm_expr(e, spans)),
        None => None,
    }
}

pub open spec fn rm_declarator(d: VarDeclaratorV, spans: Seq<u32>) -> VarDeclaratorV
    decreases d,
{
    VarDeclaratorV {
        name: d.name,
        symbol: d.symbol,
        init: rm_opt_expr(d.init, spans),
        span_start: d.span_start,
    }
}

pub open spec fn rm_declarators(s: Seq<VarDeclaratorV>, spans: Seq<u32>) -> Seq<VarDeclaratorV>
    decreases s,
{
    if s.len() == 0 {
        Seq::<VarDeclaratorV>::empty()
    } else {
        rm_declarators(s.drop_last(), spans).push(rm_declarator(s.last(), spans))
    }
}

pub open spec fn rm_method(m: ClassMethodV, spans: Seq<u32>) -> ClassMethodV
    decreases m,
{
    ClassMethodV { body: rm_stmts(m.body, spans), span_start: m.span_start }
}

pub open spec fn rm_methods(s: Seq<ClassMethodV>, spans: Seq<u32>) -> Seq<ClassMethodV>
    decreases s,
{
    if s.len() == 0 {
        Seq::<ClassMethodV>::empty()
    } else {
        rm_methods(s.drop_last(), spans).push(rm_method(s.last(), spans))
    }
}

pub open spec fn rm_stmt(st: StmtV, spans: Seq<u32>) -> StmtV
    decreases st,
{
    match st {
        StmtV::VarDecl { declarators, span_start } => StmtV::VarDecl {
            declarators: rm_declarators(declarators, spans),
            span_start,
        },
        StmtV::FunctionDecl { name, symbol, body, span_start } => StmtV::FunctionDecl {
            name,
            symbol,
            body: rm_stmts(body, spans),
            span_start,
        },
        StmtV::ClassDecl { name, symbol, methods, span_start } => StmtV::ClassDecl {
            name,
            symbol,
            methods: rm_methods(methods, spans),
            span_start,
        },
        StmtV::ExprStmt { expr, span_start } => StmtV::ExprStmt {
            expr: rm_expr(expr, spans),
            span_start,
        },
        StmtV::Return { argument, span_start } => StmtV::Return {
            argument: rm_opt_expr(argument, spans),
            span_start,
        },
        other => other,
    }
}

pub open spec fn rm_stmts(s: Seq<StmtV>, spans: Seq<u32>) -> Seq<StmtV>
    decreases s,
{
    if s.len() == 0 {
        Seq::<StmtV>::empty()
    } else {
        rm_stmts(s.drop_last(), spans).push(rm_stmt(s.last(), spans))
    }
}


// ----------------------------------------------------------------------
// The detector, executable.
// ----------------------------------------------------------------------

fn quasis_concat_exec(qs: &Vec<String>) -> (r: String)
    ensures
        r@ == quasis_concat(strs_v(qs@)),
{
    let mut r = String::new();
    let mut i: usize = 0;
    proof {
        assert(strs_v(qs@.subrange(0, 0)) =~= Seq::<Seq<char>>::empty());
        assert(r@ =~= quasis_concat(strs_v(qs@.subrange(0, 0))));
    }
    while i < qs.len()
        invariant
            i <= qs@.len(),
            r@ == quasis_concat(strs_v(qs@.subrange(0, i as int))),
        decreases qs@.len() - i,
    {
        append_str(&mut r, qs[i].as_str());
        i = i + 1;
        proof {
            let sub1 = qs@.subrange(0, i as int);
            let sub0 = qs@.subrange(0, i as int - 1);
            assert(sub1.drop_last() =~= sub0);
            assert(strs_v(sub1).drop_last() =~= strs_v(sub0));
            assert(strs_v(sub1).last() == qs@[i as int - 1]@);
            assert(strs_v(sub1) =~= strs_v(sub0).push(qs@[i as int - 1]@));
        }
    }
    proof {
        assert(qs@.subrange(0, qs@.len() as int) =~= qs@);
    }
    r
}

/// The CSS text of one matched element's children.
fn children_css_exec(children: &Vec<JSXChild>) -> (r: String)
    ensures
        r@ == children_css(children_v(children@)),
{
    let mut r = String::new();
    let mut i: usize = 0;
    proof {
        assert(children_v(children@.subrange(0, 0)) =~= Seq::<JSXChildV>::empty());
        assert(r@ =~= children_css(children_v(children@.subrange(0, 0))));
    }
    while i < children.len()
        invariant
            i <= children@.len(),
            r@ == children_css(children_v(children@.subrange(0, i as int))),
        decreases children@.len() - i,
    {
        let ghost pre = r@;
        match &children[i] {
            JSXChild::Text(t) => {
                append_str(&mut r, t.as_str());
            },
            JSXChild::Container(e) => match e {
                Expr::TemplateLit { quasis, exprs } => {
                    let q = quasis_concat_exec(quasis);
                    append_str(&mut r, q.as_str());
                },
                Expr::TaggedTemplate { quasis } => {
                    let q = quasis_concat_exec(quasis);
                    append_str(&mut r, q.as_str());
                },
                _ => {
                    proof {
                        crate::update_attribute::lemma_expr_v_variant(*e);
                        assert(child_css(child_v(children@[i as int])) =~= Seq::<char>::empty());
                        assert(r@ =~= pre + child_css(child_v(children@[i as int])));
                    }
                },
            },
            other => {
                proof {
                    crate::update_attribute::lemma_child_v_variant(children@[i as int]);
                    assert(child_css(child_v(children@[i as int])) =~= Seq::<char>::empty());
                    assert(r@ =~= pre + child_css(child_v(children@[i as int])));
                }
            },
        }
        i = i + 1;
        proof {
            let sub1 = children@.subrange(0, i as int);
            let sub0 = children@.subrange(0, i as int - 1);
            assert(sub1.drop_last() =~= sub0);
            assert(sub1.last() == children@[i as int - 1]);
            let sv1 = children_v(sub1);
            let sv0 = children_v(sub0);
            assert(sv1 == sv0.push(child_v(children@[i as int - 1])));
            assert(sv1.drop_last() =~= sv0);
            assert(children_css(sv1) == children_css(sv0) + child_css(
                child_v(children@[i as int - 1]),
            ));
        }
    }
    proof {
        assert(children@.subrange(0, children@.len() as int) =~= children@);
    }
    r
}

/// Does a `global` attribute mark the element global?
pub fn check_if_global(attrs: &Vec<JSXAttrItem>) -> (r: bool)
    ensures
        r == spec_is_global(attrs_v(attrs@)),
{
    let ghost av = attrs_v(attrs@);
    proof {
        crate::ast::lemma_attrs_v(attrs@);
    }
    let mut i: usize = 0;
    while i < attrs.len()
        invariant
            i <= attrs@.len(),
            av == attrs_v(attrs@),
            av.len() == attrs@.len(),
            forall|k: int| 0 <= k < attrs@.len() ==> av[k] == attr_item_v(#[trigger] attrs@[k]),
            forall|k: int| 0 <= k < i ==> !attr_marks_global(#[trigger] av[k]),
        decreases attrs@.len() - i,
    {
        let mut marks: bool = false;
        match &attrs[i] {
            JSXAttrItem::Attr { name, value } => {
                if crate::strutil::str_eq(name.as_str(), "global") {
                    match value {
                        None => {
                            marks = true;
                        },
                        Some(JSXAttrValue::Container(e)) => match e {
                            Expr::BoolLit { value: b } => {
                                marks = *b;
                            },
                            _ => {
                                proof {
                                    crate::update_attribute::lemma_expr_v_variant(*e);
                                }
                            },
                        },
                        Some(other) => {
                            proof {
                                crate::update_attribute::lemma_attr_value_v_variant(*other);
                            }
                        },
                    }
                }
            },
            JSXAttrItem::Spread => {},
        }
        proof {
            assert(marks == attr_marks_global(av[i as int]));
        }
        if marks {
            return true;
        }
        i = i + 1;
    }
    false
}

fn is_style_el_exec(el: &JSXElement, syms: &Vec<u32>) -> (r: bool)
    ensures
        r == is_style_el(jsx_element_v(*el), syms@),
{
    match el.name_symbol {
        Some(sy) => crate::update_attribute::contains_u32(syms, sy),
        None => false,
    }
}

fn scan_el(el: &JSXElement, syms: &Vec<u32>, css: &mut Vec<CSSData>, spans: &mut Vec<u32>)
    ensures
        ({
            let t = det_el(jsx_element_v(*el), syms@);
            css_list_v(final(css)@) == css_list_v(old(css)@) + t.0 && final(spans)@ == old(
                spans,
            )@ + t.1
        }),
    decreases *el,
{
    let ghost orig_css = css@;
    let ghost orig_spans = spans@;
    let ghost elv = jsx_element_v(*el);
    let ghost own: (Seq<(Seq<char>, bool)>, Seq<u32>) = if is_style_el(elv, syms@) {
        (
            seq![(children_css(elv.children), spec_is_global(elv.attributes))],
            seq![elv.span_start],
        )
    } else {
        (Seq::<(Seq<char>, bool)>::empty(), Seq::<u32>::empty())
    };
    if is_style_el_exec(el, syms) {
        let text = children_css_exec(&el.children);
        let g = check_if_global(&el.attributes);
        css.push(CSSData { raw_css: text, is_global: g });
        spans.push(el.span_start);
        proof {
            assert(css_list_v(css@) =~= css_list_v(orig_css) + own.0);
            assert(spans@ =~= orig_spans + own.1);
        }
    } else {
        proof {
            assert(css_list_v(css@) =~= css_list_v(orig_css) + own.0);
            assert(spans@ =~= orig_spans + own.1);
        }
    }
    let ghost mid_css = css@;
    let ghost mid_spans = spans@;
    scan_attrs(&el.attributes, syms, css, spans);
    let ghost after_css = css@;
    let ghost after_spans = spans@;
    scan_children(&el.children, syms, css, spans);
    proof {
        let ta = det_attrs(elv.attributes, syms@);
        let tc = det_children(elv.children, syms@);
        assert(css_list_v(css@) =~= css_list_v(orig_css) + (own.0 + ta.0 + tc.0));
        assert(spans@ =~= orig_spans + (own.1 + ta.1 + tc.1));
    }
}

fn scan_attr(a: &JSXAttrItem, syms: &Vec<u32>, css: &mut Vec<CSSData>, spans: &mut Vec<u32>)
    ensures
        ({
            let t = det_attr(attr_item_v(*a), syms@);
            css_list_v(final(css)@) == css_list_v(old(css)@) + t.0 && final(spans)@ == old(
                spans,
            )@ + t.1
        }),
    decreases *a,
{
    let ghost orig_css = css@;
    let ghost orig_spans = spans@;
    match a {
        JSXAttrItem::Attr { name, value } => match value {
            Some(JSXAttrValue::Container(e)) => {
                scan_expr(e, syms, css, spans);
            },
            other => {
                proof {
                    match other {
                        Some(x) => {
                            crate::update_attribute::lemma_attr_value_v_variant(*x);
                        },
                        None => {},
                    }
                    assert(css_list_v(css@) =~= css_list_v(orig_css) + det_attr(
                        attr_item_v(*a),
                        syms@,
                    ).0);
                    assert(spans@ =~= orig_spans + det_attr(attr_item_v(*a), syms@).1);
                }
            },
        },
        JSXAttrItem::Spread => {
            proof {
                assert(css_list_v(css@) =~= css_list_v(orig_css) + det_attr(
                    attr_item_v(*a),
                    syms@,
                ).0);
                assert(spans@ =~= orig_spans + det_attr(attr_item_v(*a), syms@).1);
            }
        },
    }
}

fn scan_child(ch: &JSXChild, syms: &Vec<u32>, css: &mut Vec<CSSData>, spans: &mut Vec<u32>)
    ensures
        ({
            let t = det_child(child_v(*ch), syms@);
            css_list_v(final(css)@) == css_list_v(old(css)@) + t.0 && final(spans)@ == old(
                spans,
            )@ + t.1
        }),
    decreases *ch,
{
    let ghost orig_css = css@;
    let ghost orig_spans = spans@;
    match ch {
        JSXChild::Element(el) => {
            scan_el(el, syms, css, spans);
        },
        JSXChild::Container(e) => {
            scan_expr(e, syms, css, spans);
        },
        other => {
            proof {
                crate::update_attribute::lemma_child_v_variant(*ch);
                assert(css_list_v(css@) =~= css_list_v(orig_css) + det_child(
                    child_v(*ch),
                    syms@,
                ).0);
                assert(spans@ =~= orig_spans + det_child(child_v(*ch), syms@).1);
            }
        },
    }
}

fn scan_opt_expr(
    o: &Option<Expr>,
    syms: &Vec<u32>,
    css: &mut Vec<CSSData>,
    spans: &mut Vec<u32>,
)
    ensures
        ({
            let t = det_opt_expr(opt_expr_v(*o), syms@);
            css_list_v(final(css)@) == css_list_v(old(css)@) + t.0 && final(spans)@ == old(
                spans,
            )@ + t.1
        }),
    decreases *o,
{
    let ghost orig_css = css@;
    let ghost orig_spans = spans@;
    match o {
        Some(e) => {
            scan_expr(e, syms, css, spans);
        },
        None => {
            proof {
                assert(css_list_v(css@) =~= css_list_v(orig_css) + det_opt_expr(
                    opt_expr_v(*o),
                    syms@,
                ).0);
                assert(spans@ =~= orig_spans + det_opt_expr(opt_expr_v(*o), syms@).1);
            }
        },
    }
}

fn scan_declarator(
    d: &VarDeclarator,
    syms: &Vec<u32>,
    css: &mut Vec<CSSData>,
    spans: &mut Vec<u32>,
)
    ensures
        ({
            let t = det_declarator(declarator_v(*d), syms@);
            css_list_v(final(css)@) == css_list_v(old(css)@) + t.0 && final(spans)@ == old(
                spans,
            )@ + t.1
        }),
    decreases *d,
{
    scan_opt_expr(&d.init, syms, css, spans);
}

fn scan_method(m: &ClassMethod, syms: &Vec<u32>, css: &mut Vec<CSSData>, spans: &mut Vec<u32>)
    ensures
        ({
            let t = det_method(method_v(*m), syms@);
            css_list_v(final(css)@) == css_list_v(old(css)@) + t.0 && final(spans)@ == old(
                spans,
            )@ + t.1
        }),
    decreases *m,
{
    scan_stmts(&m.body, syms, css, spans);
}

fn scan_prop(p: &ObjectProp, syms: &Vec<u32>, css: &mut Vec<CSSData>, spans: &mut Vec<u32>)
    ensures
        ({
            let t = det_prop(prop_v(*p), syms@);
            css_list_v(final(css)@) == css_list_v(old(css)@) + t.0 && final(spans)@ == old(
                spans,
            )@ + t.1
        }),
    decreases *p,
{
    scan_expr(&p.value, syms, css, spans);
}

fn scan_stmt(st: &Stmt, syms: &Vec<u32>, css: &mut Vec<CSSData>, spans: &mut Vec<u32>)
    ensures
        ({
            let t = det_stmt(stmt_v(*st), syms@);
            css_list_v(final(css)@) == css_list_v(old(css)@) + t.0 && final(spans)@ == old(
                spans,
            )@ + t.1
        }),
    decreases *st,
{
    let ghost orig_css = css@;
    let ghost orig_spans = spans@;
    match st {
        Stmt::VarDecl { declarators, span_start } => {
            scan_declarators(declarators, syms, css, spans);
        },
        Stmt::FunctionDecl { body, .. } => {
            scan_stmts(body, syms, css, spans);
        },
        Stmt::ClassDecl { methods, .. } => {
            scan_methods(methods, syms, css, spans);
        },
        Stmt::ExprStmt { expr, span_start } => {
            scan_expr(expr, syms, css, spans);
        },
        Stmt::Return { argument, span_start } => {
            scan_opt_expr(argument, syms, css, spans);
        },
        other => {
            proof {
                crate::update_attribute::lemma_stmt_v_variant(*st);
                assert(css_list_v(css@) =~= css_list_v(orig_css) + det_stmt(
                    stmt_v(*st),
                    syms@,
                ).0);
                assert(spans@ =~= orig_spans + det_stmt(stmt_v(*st), syms@).1);
            }
        },
    }
}

#[verifier::rlimit(60)]
fn scan_expr(e: &Expr, syms: &Vec<u32>, css: &mut Vec<CSSData>, spans: &mut Vec<u32>)
    ensures
        ({
            let t = det_expr(expr_v(*e), syms@);
            css_list_v(final(css)@) == css_list_v(old(css)@) + t.0 && final(spans)@ == old(
                spans,
            )@ + t.1
        }),
    decreases *e,
{
    let ghost orig_css = css@;
    let ghost orig_spans = spans@;
    match e {
        Expr::TemplateLit { quasis, exprs } => {
            scan_exprs(exprs, syms, css, spans);
        },
        Expr::ArrayLit { elements } => {
            scan_exprs(elements, syms, css, spans);
        },
        Expr::ObjectLit { props } => {
            scan_props(props, syms, css, spans);
        },
        Expr::Conditional { test, consequent, alternate } => {
            scan_expr(test, syms, css, spans);
            scan_expr(consequent, syms, css, spans);
            scan_expr(alternate, syms, css, spans);
            proof {
                let a = det_expr(expr_v(**test), syms@);
                let b = det_expr(expr_v(**consequent), syms@);
                let d = det_expr(expr_v(**alternate), syms@);
                assert(css_list_v(css@) =~= css_list_v(orig_css) + (a.0 + b.0 + d.0));
                assert(spans@ =~= orig_spans + (a.1 + b.1 + d.1));
            }
        },
        Expr::Logical { op, left, right } => {
            scan_expr(left, syms, css, spans);
            scan_expr(right, syms, css, spans);
            proof {
                let a = det_expr(expr_v(**left), syms@);
                let b = det_expr(expr_v(**right), syms@);
                assert(css_list_v(css@) =~= css_list_v(orig_css) + (a.0 + b.0));
                assert(spans@ =~= orig_spans + (a.1 + b.1));
            }
        },
        Expr::Binary { op, left, right } => {
            scan_expr(left, syms, css, spans);
            scan_expr(right, syms, css, spans);
            proof {
                let a = det_expr(expr_v(**left), syms@);
                let b = det_expr(expr_v(**right), syms@);
                assert(css_list_v(css@) =~= css_list_v(orig_css) + (a.0 + b.0));
                assert(spans@ =~= orig_spans + (a.1 + b.1));
            }
        },
        Expr::Call { callee, arguments, span_start } => {
            scan_expr(callee, syms, css, spans);
            scan_exprs(arguments, syms, css, spans);
            proof {
                let a = det_expr(expr_v(**callee), syms@);
                let b = det_exprs(exprs_v(arguments@), syms@);
                assert(css_list_v(css@) =~= css_list_v(orig_css) + (a.0 + b.0));
                assert(spans@ =~= orig_spans + (a.1 + b.1));
            }
        },
        Expr::StaticMember { object, property } => {
            scan_expr(object, syms, css, spans);
        },
        Expr::Assign { value, .. } => {
            scan_expr(value, syms, css, spans);
        },
        Expr::Arrow { body, span_start } => {
            scan_stmts(body, syms, css, spans);
        },
        Expr::FunctionExpr { body, span_start } => {
            scan_stmts(body, syms, css, spans);
        },
        Expr::Element(el) => {
            scan_el(el, syms, css, spans);
        },
        Expr::Fragment { children, span_start } => {
            scan_children(children, syms, css, spans);
        },
        other => {
            proof {
                crate::update_attribute::lemma_expr_v_variant(*e);
                assert(css_list_v(css@) =~= css_list_v(orig_css) + det_expr(
                    expr_v(*e),
                    syms@,
                ).0);
                assert(spans@ =~= orig_spans + det_expr(expr_v(*e), syms@).1);
            }
        },
    }
}

fn scan_stmts(v: &Vec<Stmt>, syms: &Vec<u32>, css: &mut Vec<CSSData>, spans: &mut Vec<u32>)
    ensures
        ({
            let t = det_stmts(stmts_v(v@), syms@);
            css_list_v(final(css)@) == css_list_v(old(css)@) + t.0 && final(spans)@ == old(
                spans,
            )@ + t.1
        }),
    decreases *v,
{
    let ghost orig_css = css@;
    let ghost orig_spans = spans@;
    let mut i: usize = 0;
    proof {
        assert(stmts_v(v@.subrange(0, 0)) =~= Seq::<StmtV>::empty());
        assert(css_list_v(css@) =~= css_list_v(orig_css) + det_stmts(
            stmts_v(v@.subrange(0, 0)),
            syms@,
        ).0);
        assert(spans@ =~= orig_spans + det_stmts(stmts_v(v@.subrange(0, 0)), syms@).1);
    }
    while i < v.len()
        invariant
            i <= v@.len(),
            css_list_v(css@) == css_list_v(orig_css) + det_stmts(
                stmts_v(v@.subrange(0, i as int)),
                syms@,
            ).0,
            spans@ == orig_spans + det_stmts(stmts_v(v@.subrange(0, i as int)), syms@).1,
        decreases v@.len() - i,
    {
        proof {
            assert(decreases_to!(*v => v@));
            assert(decreases_to!(v@ => v@[i as int]));
        }
        let ghost pre_css = css@;
        let ghost pre_spans = spans@;
        scan_stmt(&v[i], syms, css, spans);
        i = i + 1;
        proof {
            let sub1 = v@.subrange(0, i as int);
            let sub0 = v@.subrange(0, i as int - 1);
            assert(sub1.drop_last() =~= sub0);
            assert(sub1.last() == v@[i as int - 1]);
            let sv1 = stmts_v(sub1);
            let sv0 = stmts_v(sub0);
            assert(sv1 == sv0.push(stmt_v(v@[i as int - 1])));
            assert(sv1.drop_last() =~= sv0);
            assert(sv1.last() == stmt_v(v@[i as int - 1]));
            let front = det_stmts(sv0, syms@);
            let last = det_stmt(stmt_v(v@[i as int - 1]), syms@);
            assert(det_stmts(sv1, syms@) == (front.0 + last.0, front.1 + last.1));
            assert(css_list_v(css@) =~= css_list_v(orig_css) + (front.0 + last.0));
            assert(spans@ =~= orig_spans + (front.1 + last.1));
        }
    }
    proof {
        assert(v@.subrange(0, v@.len() as int) =~= v@);
    }
}

fn scan_exprs(v: &Vec<Expr>, syms: &Vec<u32>, css: &mut Vec<CSSData>, spans: &mut Vec<u32>)
    ensures
        ({
            let t = det_exprs(exprs_v(v@), syms@);
            css_list_v(final(css)@) == css_list_v(old(css)@) + t.0 && final(spans)@ == old(
                spans,
            )@ + t.1
        }),
    decreases *v,
{
    let ghost orig_css = css@;
    let ghost orig_spans = spans@;
    let mut i: usize = 0;
    proof {
        assert(exprs_v(v@.subrange(0, 0)) =~= Seq::<ExprV>::empty());
        assert(css_list_v(css@) =~= css_list_v(orig_css) + det_exprs(
            exprs_v(v@.subrange(0, 0)),
            syms@,
        ).0);
        assert(spans@ =~= orig_spans + det_exprs(exprs_v(v@.subrange(0, 0)), syms@).1);
    }
    while i < v.len()
        invariant
            i <= v@.len(),
            css_list_v(css@) == css_list_v(orig_css) + det_exprs(
                exprs_v(v@.subrange(0, i as int)),
                syms@,
            ).0,
            spans@ == orig_spans + det_exprs(exprs_v(v@.subrange(0, i as int)), syms@).1,
        decreases v@.len() - i,
    {
        proof {
            assert(decreases_to!(*v => v@));
            assert(decreases_to!(v@ => v@[i as int]));
        }
        let ghost pre_css = css@;
        let ghost pre_spans = spans@;
        scan_expr(&v[i], syms, css, spans);
        i = i + 1;
        proof {
            let sub1 = v@.subrange(0, i as int);
            let sub0 = v@.subrange(0, i as int - 1);
            assert(sub1.drop_last() =~= sub0);
            assert(sub1.last() == v@[i as int - 1]);
            let sv1 = exprs_v(sub1);
            let sv0 = exprs_v(sub0);
            assert(sv1 == sv0.push(expr_v(v@[i as int - 1])));
            assert(sv1.drop_last() =~= sv0);
            assert(sv1.last() == expr_v(v@[i as int - 1]));
            let front = det_exprs(sv0, syms@);
            let last = det_expr(expr_v(v@[i as int - 1]), syms@);
            assert(det_exprs(sv1, syms@) == (front.0 + last.0, front.1 + last.1));
            assert(css_list_v(css@) =~= css_list_v(orig_css) + (front.0 + last.0));
            assert(spans@ =~= orig_spans + (front.1 + last.1));
        }
    }
    proof {
        assert(v@.subrange(0, v@.len() as int) =~= v@);
    }
}

fn scan_props(v: &Vec<ObjectProp>, syms: &Vec<u32>, css: &mut Vec<CSSData>, spans: &mut Vec<u32>)
    ensures
        ({
            let t = det_props(props_v(v@), syms@);
            css_list_v(final(css)@) == css_list_v(old(css)@) + t.0 && final(spans)@ == old(
                spans,
            )@ + t.1
        }),
    decreases *v,
{
    let ghost orig_css = css@;
    let ghost orig_spans = spans@;
    let mut i: usize = 0;
    proof {
        assert(props_v(v@.subrange(0, 0)) =~= Seq::<ObjectPropV>::empty());
        assert(css_list_v(css@) =~= css_list_v(orig_css) + det_props(
            props_v(v@.subrange(0, 0)),
            syms@,
        ).0);
        assert(spans@ =~= orig_spans + det_props(props_v(v@.subrange(0, 0)), syms@).1);
    }
    while i < v.len()
        invariant
            i <= v@.len(),
            css_list_v(css@) == css_list_v(orig_css) + det_props(
                props_v(v@.subrange(0, i as int)),
                syms@,
            ).0,
            spans@ == orig_spans + det_props(props_v(v@.subrange(0, i as int)), syms@).1,
        decreases v@.len() - i,
    {
        proof {
            assert(decreases_to!(*v => v@));
            assert(decreases_to!(v@ => v@[i as int]));
        }
        let ghost pre_css = css@;
        let ghost pre_spans = spans@;
        scan_prop(&v[i], syms, css, spans);
        i = i + 1;
        proof {
            let sub1 = v@.subrange(0, i as int);
            let sub0 = v@.subrange(0, i as int - 1);
            assert(sub1.drop_last() =~= sub0);
            assert(sub1.last() == v@[i as int - 1]);
            let sv1 = props_v(sub1);
            let sv0 = props_v(sub0);
            assert(sv1 == sv0.push(prop_v(v@[i as int - 1])));
            assert(sv1.drop_last() =~= sv0);
            assert(sv1.last() == prop_v(v@[i as int - 1]));
            let front = det_props(sv0, syms@);
            let last = det_prop(prop_v(v@[i as int - 1]), syms@);
            assert(det_props(sv1, syms@) == (front.0 + last.0, front.1 + last.1));
            assert(css_list_v(css@) =~= css_list_v(orig_css) + (front.0 + last.0));
            assert(spans@ =~= orig_spans + (front.1 + last.1));
        }
    }
    proof {
        assert(v@.subrange(0, v@.len() as int) =~= v@);
    }
}

fn scan_children(v: &Vec<JSXChild>, syms: &Vec<u32>, css: &mut Vec<CSSData>, spans: &mut Vec<u32>)
    ensures
        ({
            let t = det_children(children_v(v@), syms@);
            css_list_v(final(css)@) == css_list_v(old(css)@) + t.0 && final(spans)@ == old(
                spans,
            )@ + t.1
        }),
    decreases *v,
{
    let ghost orig_css = css@;
    let ghost orig_spans = spans@;
    let mut i: usize = 0;
    proof {
        assert(children_v(v@.subrange(0, 0)) =~= Seq::<JSXChildV>::empty());
        assert(css_list_v(css@) =~= css_list_v(orig_css) + det_children(
            children_v(v@.subrange(0, 0)),
            syms@,
        ).0);
        assert(spans@ =~= orig_spans + det_children(children_v(v@.subrange(0, 0)), syms@).1);
    }
    while i < v.len()
        invariant
            i <= v@.len(),
            css_list_v(css@) == css_list_v(orig_css) + det_children(
                children_v(v@.subrange(0, i as int)),
                syms@,
            ).0,
            spans@ == orig_spans + det_children(children_v(v@.subrange(0, i as int)), syms@).1,
        decreases v@.len() - i,
    {
        proof {
            assert(decreases_to!(*v => v@));
            assert(decreases_to!(v@ => v@[i as int]));
        }
        let ghost pre_css = css@;
        let ghost pre_spans = spans@;
        scan_child(&v[i], syms, css, spans);
        i = i + 1;
        proof {
            let sub1 = v@.subrange(0, i as int);
            let sub0 = v@.subrange(0, i as int - 1);
            assert(sub1.drop_last() =~= sub0);
            assert(sub1.last() == v@[i as int - 1]);
            let sv1 = children_v(sub1);
            let sv0 = children_v(sub0);
            assert(sv1 == sv0.push(child_v(v@[i as int - 1])));
            assert(sv1.drop_last() =~= sv0);
            assert(sv1.last() == child_v(v@[i as int - 1]));
            let front = det_children(sv0, syms@);
            let last = det_child(child_v(v@[i as int - 1]), syms@);
            assert(det_children(sv1, syms@) == (front.0 + last.0, front.1 + last.1));
            assert(css_list_v(css@) =~= css_list_v(orig_css) + (front.0 + last.0));
            assert(spans@ =~= orig_spans + (front.1 + last.1));
        }
    }
    proof {
        assert(v@.subrange(0, v@.len() as int) =~= v@);
    }
}

fn scan_attrs(v: &Vec<JSXAttrItem>, syms: &Vec<u32>, css: &mut Vec<CSSData>, spans: &mut Vec<u32>)
    ensures
        ({
            let t = det_attrs(attrs_v(v@), syms@);
            css_list_v(final(css)@) == css_list_v(old(css)@) + t.0 && final(spans)@ == old(
                spans,
            )@ + t.1
        }),
    decreases *v,
{
    let ghost orig_css = css@;
    let ghost orig_spans = spans@;
    let mut i: usize = 0;
    proof {
        assert(attrs_v(v@.subrange(0, 0)) =~= Seq::<JSXAttrItemV>::empty());
        assert(css_list_v(css@) =~= css_list_v(orig_css) + det_attrs(
            attrs_v(v@.subrange(0, 0)),
            syms@,
        ).0);
        assert(spans@ =~= orig_spans + det_attrs(attrs_v(v@.subrange(0, 0)), syms@).1);
    }
    while i < v.len()
        invariant
            i <= v@.len(),
            css_list_v(css@) == css_list_v(orig_css) + det_attrs(
                attrs_v(v@.subrange(0, i as int)),
                syms@,
            ).0,
            spans@ == orig_spans + det_attrs(attrs_v(v@.subrange(0, i as int)), syms@).1,
        decreases v@.len() - i,
    {
        proof {
            assert(decreases_to!(*v => v@));
            assert(decreases_to!(v@ => v@[i as int]));
        }
        let ghost pre_css = css@;
        let ghost pre_spans = spans@;
        scan_attr(&v[i], syms, css, spans);
        i = i + 1;
        proof {
            let sub1 = v@.subrange(0, i as int);
            let sub0 = v@.subrange(0, i as int - 1);
            assert(sub1.drop_last() =~= sub0);
            assert(sub1.last() == v@[i as int - 1]);
            let sv1 = attrs_v(sub1);
            let sv0 = attrs_v(sub0);
            assert(sv1 == sv0.push(attr_item_v(v@[i as int - 1])));
            assert(sv1.drop_last() =~= sv0);
            assert(sv1.last() == attr_item_v(v@[i as int - 1]));
            let front = det_attrs(sv0, syms@);
            let last = det_attr(attr_item_v(v@[i as int - 1]), syms@);
            assert(det_attrs(sv1, syms@) == (front.0 + last.0, front.1 + last.1));
            assert(css_list_v(css@) =~= css_list_v(orig_css) + (front.0 + last.0));
            assert(spans@ =~= orig_spans + (front.1 + last.1));
        }
    }
    proof {
        assert(v@.subrange(0, v@.len() as int) =~= v@);
    }
}

fn scan_declarators(v: &Vec<VarDeclarator>, syms: &Vec<u32>, css: &mut Vec<CSSData>, spans: &mut Vec<u32>)
    ensures
        ({
            let t = det_declarators(declarators_v(v@), syms@);
            css_list_v(final(css)@) == css_list_v(old(css)@) + t.0 && final(spans)@ == old(
                spans,
            )@ + t.1
        }),
    decreases *v,
{
    let ghost orig_css = css@;
    let ghost orig_spans = spans@;
    let mut i: usize = 0;
    proof {
        assert(declarators_v(v@.subrange(0, 0)) =~= Seq::<VarDeclaratorV>::empty());
        assert(css_list_v(css@) =~= css_list_v(orig_css) + det_declarators(
            declarators_v(v@.subrange(0, 0)),
            syms@,
        ).0);
        assert(spans@ =~= orig_spans + det_declarators(declarators_v(v@.subrange(0, 0)), syms@).1);
    }
    while i < v.len()
        invariant
            i <= v@.len(),
            css_list_v(css@) == css_list_v(orig_css) + det_declarators(
                declarators_v(v@.subrange(0, i as int)),
                syms@,
            ).0,
            spans@ == orig_spans + det_declarators(declarators_v(v@.subrange(0, i as int)), syms@).1,
        decreases v@.len() - i,
    {
        proof {
            assert(decreases_to!(*v => v@));
            assert(decreases_to!(v@ => v@[i as int]));
        }
        let ghost pre_css = css@;
        let ghost pre_spans = spans@;
        scan_declarator(&v[i], syms, css, spans);
        i = i + 1;
        proof {
            let sub1 = v@.subrange(0, i as int);
            let sub0 = v@.subrange(0, i as int - 1);
            assert(sub1.drop_last() =~= sub0);
            assert(sub1.last() == v@[i as int - 1]);
            let sv1 = declarators_v(sub1);
            let sv0 = declarators_v(sub0);
            assert(sv1 == sv0.push(declarator_v(v@[i as int - 1])));
            assert(sv1.drop_last() =~= sv0);
            assert(sv1.last() == declarator_v(v@[i as int - 1]));
            let front = det_declarators(sv0, syms@);
            let last = det_declarator(declarator_v(v@[i as int - 1]), syms@);
            assert(det_declarators(sv1, syms@) == (front.0 + last.0, front.1 + last.1));
            assert(css_list_v(css@) =~= css_list_v(orig_css) + (front.0 + last.0));
            assert(spans@ =~= orig_spans + (front.1 + last.1));
        }
    }
    proof {
        assert(v@.subrange(0, v@.len() as int) =~= v@);
    }
}

fn scan_methods(v: &Vec<ClassMethod>, syms: &Vec<u32>, css: &mut Vec<CSSData>, spans: &mut Vec<u32>)
    ensures
        ({
            let t = det_methods(methods_v(v@), syms@);
            css_list_v(final(css)@) == css_list_v(old(css)@) + t.0 && final(spans)@ == old(
                spans,
            )@ + t.1
        }),
    decreases *v,
{
    let ghost orig_css = css@;
    let ghost orig_spans = spans@;
    let mut i: usize = 0;
    proof {
        assert(methods_v(v@.subrange(0, 0)) =~= Seq::<ClassMethodV>::empty());
        assert(css_list_v(css@) =~= css_list_v(orig_css) + det_methods(
            methods_v(v@.subrange(0, 0)),
            syms@,
        ).0);
        assert(spans@ =~= orig_spans + det_methods(methods_v(v@.subrange(0, 0)), syms@).1);
    }
    while i < v.len()
        invariant
            i <= v@.len(),
            css_list_v(css@) == css_list_v(orig_css) + det_methods(
                methods_v(v@.subrange(0, i as int)),
                syms@,
            ).0,
            spans@ == orig_spans + det_methods(methods_v(v@.subrange(0, i as int)), syms@).1,
        decreases v@.len() - i,
    {
        proof {
            assert(decreases_to!(*v => v@));
            assert(decreases_to!(v@ => v@[i as int]));
        }
        let ghost pre_css = css@;
        let ghost pre_spans = spans@;
        scan_method(&v[i], syms, css, spans);
        i = i + 1;
        proof {
            let sub1 = v@.subrange(0, i as int);
            let sub0 = v@.subrange(0, i as int - 1);
            assert(sub1.drop_last() =~= sub0);
            assert(sub1.last() == v@[i as int - 1]);
            let sv1 = methods_v(sub1);
            let sv0 = methods_v(sub0);
            assert(sv1 == sv0.push(method_v(v@[i as int - 1])));
            assert(sv1.drop_last() =~= sv0);
            assert(sv1.last() == method_v(v@[i as int - 1]));
            let front = det_methods(sv0, syms@);
            let last = det_method(method_v(v@[i as int - 1]), syms@);
            assert(det_methods(sv1, syms@) == (front.0 + last.0, front.1 + last.1));
            assert(css_list_v(css@) =~= css_list_v(orig_css) + (front.0 + last.0));
            assert(spans@ =~= orig_spans + (front.1 + last.1));
        }
    }
    proof {
        assert(v@.subrange(0, v@.len() as int) =~= v@);
    }
}

/// Finds Style elements in one function body and collects their CSS.
pub struct StyleDetector {
    pub style_tag_import_symbols: Vec<u32>,
    pub style_tag_symbol_ids: Vec<u32>,
    pub css: Vec<CSSData>,
    pub has_style: bool,
}

impl StyleDetector {
    pub open spec fn syms_v(&self) -> Seq<u32> {
        self.style_tag_import_symbols@
    }

    pub open spec fn spans_v(&self) -> Seq<u32> {
        self.style_tag_symbol_ids@
    }

    pub fn new(style_tag_import_symbols: &Vec<u32>) -> (r: StyleDetector)
        ensures
            r.syms_v() == style_tag_import_symbols@,
            r.spans_v() == Seq::<u32>::empty(),
            css_list_v(r.css@) == Seq::<(Seq<char>, bool)>::empty(),
            r.has_style == false,
    {
        let mut syms: Vec<u32> = Vec::new();
        let mut i: usize = 0;
        while i < style_tag_import_symbols.len()
            invariant
                i <= style_tag_import_symbols@.len(),
                syms@ == style_tag_import_symbols@.subrange(0, i as int),
            decreases style_tag_import_symbols@.len() - i,
        {
            syms.push(style_tag_import_symbols[i]);
            i = i + 1;
            proof {
                assert(syms@ =~= style_tag_import_symbols@.subrange(0, i as int));
            }
        }
        proof {
            assert(style_tag_import_symbols@.subrange(
                0,
                style_tag_import_symbols@.len() as int,
            ) =~= style_tag_import_symbols@);
        }
        let r = StyleDetector {
            style_tag_import_symbols: syms,
            style_tag_symbol_ids: Vec::new(),
            css: Vec::new(),
            has_style: false,
        };
        proof {
            assert(css_list_v(r.css@) =~= Seq::<(Seq<char>, bool)>::empty());
        }
        r
    }

    /// Scans one function body, accumulating CSS entries and the source
    /// offsets of the matched elements.
    pub fn visit_function_body(&mut self, body: &Vec<Stmt>)
        ensures
            ({
                let t = det_stmts(stmts_v(body@), old(self).syms_v());
                &&& css_list_v(final(self).css@) == css_list_v(old(self).css@) + t.0
                &&& final(self).spans_v() == old(self).spans_v() + t.1
                &&& final(self).has_style == (old(self).has_style || t.0.len() > 0)
                &&& final(self).syms_v() == old(self).syms_v()
            }),
    {
        let pre_len: usize = self.css.len();
        let mut css: Vec<CSSData> = Vec::new();
        std::mem::swap(&mut css, &mut self.css);
        let mut spans: Vec<u32> = Vec::new();
        std::mem::swap(&mut spans, &mut self.style_tag_symbol_ids);
        let ghost old_css = css@;
        scan_stmts(body, &self.style_tag_import_symbols, &mut css, &mut spans);
        proof {
            let t = det_stmts(stmts_v(body@), self.syms_v());
            assert(css_list_v(css@).len() == css_list_v(old_css).len() + t.0.len());
            assert(css_list_v(css@).len() == css@.len());
            assert(css_list_v(old_css).len() == old_css.len());
        }
        if css.len() != pre_len {
            self.has_style = true;
        }
        self.css = css;
        self.style_tag_symbol_ids = spans;
    }

    /// The source offsets of the matched style elements, as a copy.
    pub fn get_style_tag_symbol_ids(&self) -> (r: Vec<u32>)
        ensures
            r@ == self.spans_v(),
    {
        let mut out: Vec<u32> = Vec::new();
        let mut i: usize = 0;
        while i < self.style_tag_symbol_ids.len()
            invariant
                i <= self.style_tag_symbol_ids@.len(),
                out@ == self.style_tag_symbol_ids@.subrange(0, i as int),
            decreases self.style_tag_symbol_ids@.len() - i,
        {
            out.push(self.style_tag_symbol_ids[i]);
            i = i + 1;
            proof {
                assert(out@ =~= self.style_tag_symbol_ids@.subrange(0, i as int));
            }
        }
        proof {
            assert(self.style_tag_symbol_ids@.subrange(
                0,
                self.style_tag_symbol_ids@.len() as int,
            ) =~= self.style_tag_symbol_ids@);
        }
        out
    }
}


// ----------------------------------------------------------------------
// Removal, executable.
// ----------------------------------------------------------------------

/// Drops the recorded style-tag children of this element and recurses.
pub fn remove_in_el(el: &JSXElement, spans: &Vec<u32>) -> (r: JSXElement)
    ensures
        jsx_element_v(r) == rm_el(jsx_element_v(*el), spans@),
    decreases *el,
{
    let attributes = remove_in_attrs(&el.attributes, spans);
    let children = remove_in_children(&el.children, spans);
    JSXElement {
        name: el.name.clone(),
        name_symbol: el.name_symbol,
        attributes,
        children,
        span_start: el.span_start,
    }
}

pub fn remove_in_children(v: &Vec<JSXChild>, spans: &Vec<u32>) -> (r: Vec<JSXChild>)
    ensures
        children_v(r@) == rm_children(children_v(v@), spans@),
    decreases *v,
{
    let mut out: Vec<JSXChild> = Vec::new();
    let mut i: usize = 0;
    proof {
        assert(children_v(v@.subrange(0, 0)) =~= Seq::<JSXChildV>::empty());
        assert(children_v(out@) =~= rm_children(children_v(v@.subrange(0, 0)), spans@));
    }
    while i < v.len()
        invariant
            i <= v@.len(),
            children_v(out@) == rm_children(children_v(v@.subrange(0, i as int)), spans@),
        decreases v@.len() - i,
    {
        proof {
            assert(decreases_to!(*v => v@));
            assert(decreases_to!(v@ => v@[i as int]));
        }
        let ghost pre_out = out@;
        let mut keep: bool = true;
        match &v[i] {
            JSXChild::Element(el) => {
                keep = !crate::update_attribute::contains_u32(spans, el.span_start);
            },
            _ => {},
        }
        proof {
            crate::update_attribute::lemma_child_v_variant(v@[i as int]);
            assert(keep == keep_child(child_v(v@[i as int]), spans@));
        }
        if keep {
            let x = remove_in_child(&v[i], spans);
            out.push(x);
            proof {
                assert(out@.drop_last() =~= pre_out);
                assert(children_v(out@) =~= children_v(pre_out).push(child_v(out@.last())));
            }
        }
        i = i + 1;
        proof {
            let sub1 = v@.subrange(0, i as int);
            let sub0 = v@.subrange(0, i as int - 1);
            assert(sub1.drop_last() =~= sub0);
            assert(sub1.last() == v@[i as int - 1]);
            assert(children_v(sub1) == children_v(sub0).push(child_v(v@[i as int - 1])));
            assert(children_v(sub1).drop_last() =~= children_v(sub0));
            assert(children_v(sub1).last() == child_v(v@[i as int - 1]));
        }
    }
    proof {
        assert(v@.subrange(0, v@.len() as int) =~= v@);
    }
    out
}

fn remove_in_child(ch: &JSXChild, spans: &Vec<u32>) -> (r: JSXChild)
    ensures
        child_v(r) == rm_child(child_v(*ch), spans@),
    decreases *ch,
{
    match ch {
        JSXChild::Element(el) => JSXChild::Element(Box::new(remove_in_el(el, spans))),
        JSXChild::Container(e) => JSXChild::Container(remove_in_expr(e, spans)),
        other => {
            proof {
                crate::update_attribute::lemma_child_v_variant(*ch);
            }
            crate::tree_copy::copy_child(other)
        },
    }
}

fn remove_in_attr(a: &JSXAttrItem, spans: &Vec<u32>) -> (r: JSXAttrItem)
    ensures
        attr_item_v(r) == rm_attr(attr_item_v(*a), spans@),
    decreases *a,
{
    match a {
        JSXAttrItem::Attr { name, value } => {
            let nv = match value {
                Some(JSXAttrValue::Container(e)) => Some(
                    JSXAttrValue::Container(remove_in_expr(e, spans)),
                ),
                Some(other) => {
                    proof {
                        crate::update_attribute::lemma_attr_value_v_variant(*other);
                    }
                    Some(crate::tree_copy::copy_attr_value(other))
                },
                None => None,
            };
            JSXAttrItem::Attr { name: name.clone(), value: nv }
        },
        JSXAttrItem::Spread => JSXAttrItem::Spread,
    }
}

fn remove_in_opt_expr(o: &Option<Expr>, spans: &Vec<u32>) -> (r: Option<Expr>)
    ensures
        opt_expr_v(r) == rm_opt_expr(opt_expr_v(*o), spans@),
    decreases *o,
{
    match o {
        Some(e) => Some(remove_in_expr(e, spans)),
        None => None,
    }
}

fn remove_in_declarator(d: &VarDeclarator, spans: &Vec<u32>) -> (r: VarDeclarator)
    ensures
        declarator_v(r) == rm_declarator(declarator_v(*d), spans@),
    decreases *d,
{
    VarDeclarator {
        name: d.name.clone(),
        symbol: d.symbol,
        init: remove_in_opt_expr(&d.init, spans),
        span_start: d.span_start,
    }
}

fn remove_in_method(m: &ClassMethod, spans: &Vec<u32>) -> (r: ClassMethod)
    ensures
        method_v(r) == rm_method(method_v(*m), spans@),
    decreases *m,
{
    ClassMethod { body: remove_in_stmts(&m.body, spans), span_start: m.span_start }
}

fn remove_in_prop(p: &ObjectProp, spans: &Vec<u32>) -> (r: ObjectProp)
    ensures
        prop_v(r) == rm_prop(prop_v(*p), spans@),
    decreases *p,
{
    let key = match &p.key {
        PropKey::StringKey(sk) => PropKey::StringKey(sk.clone()),
        PropKey::IdentKey(ik) => PropKey::IdentKey(ik.clone()),
        PropKey::OtherKey => PropKey::OtherKey,
    };
    ObjectProp { key, value: remove_in_expr(&p.value, spans) }
}

fn remove_in_stmt(st: &Stmt, spans: &Vec<u32>) -> (r: Stmt)
    ensures
        stmt_v(r) == rm_stmt(stmt_v(*st), spans@),
    decreases *st,
{
    match st {
        Stmt::VarDecl { declarators, span_start } => Stmt::VarDecl {
            declarators: remove_in_declarators(declarators, spans),
            span_start: *span_start,
        },
        Stmt::FunctionDecl { name, symbol, body, span_start } => Stmt::FunctionDecl {
            name: name.clone(),
            symbol: *symbol,
            body: remove_in_stmts(body, spans),
            span_start: *span_start,
        },
        Stmt::ClassDecl { name, symbol, methods, span_start } => Stmt::ClassDecl {
            name: name.clone(),
            symbol: *symbol,
            methods: remove_in_methods(methods, spans),
            span_start: *span_start,
        },
        Stmt::ExprStmt { expr, span_start } => Stmt::ExprStmt {
            expr: remove_in_expr(expr, spans),
            span_start: *span_start,
        },
        Stmt::Return { argument, span_start } => Stmt::Return {
            argument: remove_in_opt_expr(argument, spans),
            span_start: *span_start,
        },
        other => {
            proof {
                crate::update_attribute::lemma_stmt_v_variant(*st);
            }
            crate::tree_copy::copy_stmt(other)
        },
    }
}

#[verifier::rlimit(60)]
fn remove_in_expr(e: &Expr, spans: &Vec<u32>) -> (r: Expr)
    ensures
        expr_v(r) == rm_expr(expr_v(*e), spans@),
    decreases *e,
{
    match e {
        Expr::TemplateLit { quasis, exprs } => Expr::TemplateLit {
            quasis: crate::tree_copy::copy_strings(quasis),
            exprs: remove_in_exprs(exprs, spans),
        },
        Expr::ArrayLit { elements } => Expr::ArrayLit {
            elements: remove_in_exprs(elements, spans),
        },
        Expr::ObjectLit { props } => Expr::ObjectLit { props: remove_in_props(props, spans) },
        Expr::Conditional { test, consequent, alternate } => Expr::Conditional {
            test: Box::new(remove_in_expr(test, spans)),
            consequent: Box::new(remove_in_expr(consequent, spans)),
            alternate: Box::new(remove_in_expr(alternate, spans)),
        },
        Expr::Logical { op, left, right } => Expr::Logical {
            op: *op,
            left: Box::new(remove_in_expr(left, spans)),
            right: Box::new(remove_in_expr(right, spans)),
        },
        Expr::Binary { op, left, right } => Expr::Binary {
            op: *op,
            left: Box::new(remove_in_expr(left, spans)),
            right: Box::new(remove_in_expr(right, spans)),
        },
        Expr::Call { callee, arguments, span_start } => Expr::Call {
            callee: Box::new(remove_in_expr(callee, spans)),
            arguments: remove_in_exprs(arguments, spans),
            span_start: *span_start,
        },
        Expr::StaticMember { object, property } => Expr::StaticMember {
            object: Box::new(remove_in_expr(object, spans)),
            property: property.clone(),
        },
        Expr::Assign { object_name, object_symbol, property, value, span_start } => Expr::Assign {
            object_name: object_name.clone(),
            object_symbol: *object_symbol,
            property: property.clone(),
            value: Box::new(remove_in_expr(value, spans)),
            span_start: *span_start,
        },
        Expr::Arrow { body, span_start } => Expr::Arrow {
            body: remove_in_stmts(body, spans),
            span_start: *span_start,
        },
        Expr::FunctionExpr { body, span_start } => Expr::FunctionExpr {
            body: remove_in_stmts(body, spans),
            span_start: *span_start,
        },
        Expr::Element(el) => Expr::Element(Box::new(remove_in_el(el, spans))),
        Expr::Fragment { children, span_start } => Expr::Fragment {
            children: remove_in_children(children, spans),
            span_start: *span_start,
        },
        other => {
            proof {
                crate::update_attribute::lemma_expr_v_variant(*e);
            }
            crate::tree_copy::copy_expr(other)
        },
    }
}

pub fn remove_in_stmts(v: &Vec<Stmt>, spans: &Vec<u32>) -> (r: Vec<Stmt>)
    ensures
        stmts_v(r@) == rm_stmts(stmts_v(v@), spans@),
    decreases *v,
{
    let mut out: Vec<Stmt> = Vec::new();
    let mut i: usize = 0;
    proof {
        assert(stmts_v(v@.subrange(0, 0)) =~= Seq::<StmtV>::empty());
        assert(stmts_v(out@) =~= rm_stmts(stmts_v(v@.subrange(0, 0)), spans@));
    }
    while i < v.len()
        invariant
            i <= v@.len(),
            stmts_v(out@) == rm_stmts(stmts_v(v@.subrange(0, i as int)), spans@),
        decreases v@.len() - i,
    {
        proof {
            assert(decreases_to!(*v => v@));
            assert(decreases_to!(v@ => v@[i as int]));
        }
        let ghost pre_out = out@;
        let x = remove_in_stmt(&v[i], spans);
        out.push(x);
        i = i + 1;
        proof {
            let sub1 = v@.subrange(0, i as int);
            let sub0 = v@.subrange(0, i as int - 1);
            assert(sub1.drop_last() =~= sub0);
            assert(sub1.last() == v@[i as int - 1]);
            assert(stmts_v(sub1) == stmts_v(sub0).push(stmt_v(v@[i as int - 1])));
            assert(stmts_v(sub1).drop_last() =~= stmts_v(sub0));
            assert(stmts_v(sub1).last() == stmt_v(v@[i as int - 1]));
            assert(out@.drop_last() =~= pre_out);
            assert(stmts_v(out@) =~= stmts_v(pre_out).push(stmt_v(out@.last())));
        }
    }
    proof {
        assert(v@.subrange(0, v@.len() as int) =~= v@);
    }
    out
}

pub fn remove_in_exprs(v: &Vec<Expr>, spans: &Vec<u32>) -> (r: Vec<Expr>)
    ensures
        exprs_v(r@) == rm_exprs(exprs_v(v@), spans@),
    decreases *v,
{
    let mut out: Vec<Expr> = Vec::new();
    let mut i: usize = 0;
    proof {
        assert(exprs_v(v@.subrange(0, 0)) =~= Seq::<ExprV>::empty());
        assert(exprs_v(out@) =~= rm_exprs(exprs_v(v@.subrange(0, 0)), spans@));
    }
    while i < v.len()
        invariant
            i <= v@.len(),
            exprs_v(out@) == rm_exprs(exprs_v(v@.subrange(0, i as int)), spans@),
        decreases v@.len() - i,
    {
        proof {
            assert(decreases_to!(*v => v@));
            assert(decreases_to!(v@ => v@[i as int]));
        }
        let ghost pre_out = out@;
        let x = remove_in_expr(&v[i], spans);
        out.push(x);
        i = i + 1;
        proof {
            let sub1 = v@.subrange(0, i as int);
            let sub0 = v@.subrange(0, i as int - 1);
            assert(sub1.drop_last() =~= sub0);
            assert(sub1.last() == v@[i as int - 1]);
            assert(exprs_v(sub1) == exprs_v(sub0).push(expr_v(v@[i as int - 1])));
            assert(exprs_v(sub1).drop_last() =~= exprs_v(sub0));
            assert(exprs_v(sub1).last() == expr_v(v@[i as int - 1]));
            assert(out@.drop_last() =~= pre_out);
            assert(exprs_v(out@) =~= exprs_v(pre_out).push(expr_v(out@.last())));
        }
    }
    proof {
        assert(v@.subrange(0, v@.len() as int) =~= v@);
    }
    out
}

pub fn remove_in_props(v: &Vec<ObjectProp>, spans: &Vec<u32>) -> (r: Vec<ObjectProp>)
    ensures
        props_v(r@) == rm_props(props_v(v@), spans@),
    decreases *v,
{
    let mut out: Vec<ObjectProp> = Vec::new();
    let mut i: usize = 0;
    proof {
        assert(props_v(v@.subrange(0, 0)) =~= Seq::<ObjectPropV>::empty());
        assert(props_v(out@) =~= rm_props(props_v(v@.subrange(0, 0)), spans@));
    }
    while i < v.len()
        invariant
            i <= v@.len(),
            props_v(out@) == rm_props(props_v(v@.subrange(0, i as int)), spans@),
        decreases v@.len() - i,
    {
        proof {
            assert(decreases_to!(*v => v@));
            assert(decreases_to!(v@ => v@[i as int]));
        }
        let ghost pre_out = out@;
        let x = remove_in_prop(&v[i], spans);
        out.push(x);
        i = i + 1;
        proof {
            let sub1 = v@.subrange(0, i as int);
            let sub0 = v@.subrange(0, i as int - 1);
            assert(sub1.drop_last() =~= sub0);
            assert(sub1.last() == v@[i as int - 1]);
            assert(props_v(sub1) == props_v(sub0).push(prop_v(v@[i as int - 1])));
            assert(props_v(sub1).drop_last() =~= props_v(sub0));
            assert(props_v(sub1).last() == prop_v(v@[i as int - 1]));
            assert(out@.drop_last() =~= pre_out);
            assert(props_v(out@) =~= props_v(pre_out).push(prop_v(out@.last())));
        }
    }
    proof {
        assert(v@.subrange(0, v@.len() as int) =~= v@);
    }
    out
}

pub fn remove_in_attrs(v: &Vec<JSXAttrItem>, spans: &Vec<u32>) -> (r: Vec<JSXAttrItem>)
    ensures
        attrs_v(r@) == rm_attrs(attrs_v(v@), spans@),
    decreases *v,
{
    let mut out: Vec<JSXAttrItem> = Vec::new();
    let mut i: usize = 0;
    proof {
        assert(attrs_v(v@.subrange(0, 0)) =~= Seq::<JSXAttrItemV>::empty());
        assert(attrs_v(out@) =~= rm_attrs(attrs_v(v@.subrange(0, 0)), spans@));
    }
    while i < v.len()
        invariant
            i <= v@.len(),
            attrs_v(out@) == rm_attrs(attrs_v(v@.subrange(0, i as int)), spans@),
        decreases v@.len() - i,
    {
        proof {
            assert(decreases_to!(*v => v@));
            assert(decreases_to!(v@ => v@[i as int]));
        }
        let ghost pre_out = out@;
        let x = remove_in_attr(&v[i], spans);
        out.push(x);
        i = i + 1;
        proof {
            let sub1 = v@.subrange(0, i as int);
            let sub0 = v@.subrange(0, i as int - 1);
            assert(sub1.drop_last() =~= sub0);
            assert(sub1.last() == v@[i as int - 1]);
            assert(attrs_v(sub1) == attrs_v(sub0).push(attr_item_v(v@[i as int - 1])));
            assert(attrs_v(sub1).drop_last() =~= attrs_v(sub0));
            assert(attrs_v(sub1).last() == attr_item_v(v@[i as int - 1]));
            assert(out@.drop_last() =~= pre_out);
            assert(attrs_v(out@) =~= attrs_v(pre_out).push(attr_item_v(out@.last())));
        }
    }
    proof {
        assert(v@.subrange(0, v@.len() as int) =~= v@);
    }
    out
}

pub fn remove_in_declarators(v: &Vec<VarDeclarator>, spans: &Vec<u32>) -> (r: Vec<VarDeclarator>)
    ensures
        declarators_v(r@) == rm_declarators(declarators_v(v@), spans@),
    decreases *v,
{
    let mut out: Vec<VarDeclarator> = Vec::new();
    let mut i: usize = 0;
    proof {
        assert(declarators_v(v@.subrange(0, 0)) =~= Seq::<VarDeclaratorV>::empty());
        assert(declarators_v(out@) =~= rm_declarators(declarators_v(v@.subrange(0, 0)), spans@));
    }
    while i < v.len()
        invariant
            i <= v@.len(),
            declarators_v(out@) == rm_declarators(declarators_v(v@.subrange(0, i as int)), spans@),
        decreases v@.len() - i,
    {
        proof {
            assert(decreases_to!(*v => v@));
            assert(decreases_to!(v@ => v@[i as int]));
        }
        let ghost pre_out = out@;
        let x = remove_in_declarator(&v[i], spans);
        out.push(x);
        i = i + 1;
        proof {
            let sub1 = v@.subrange(0, i as int);
            let sub0 = v@.subrange(0, i as int - 1);
            assert(sub1.drop_last() =~= sub0);
            assert(sub1.last() == v@[i as int - 1]);
            assert(declarators_v(sub1) == declarators_v(sub0).push(declarator_v(v@[i as int - 1])));
            assert(declarators_v(sub1).drop_last() =~= declarators_v(sub0));
            assert(declarators_v(sub1).last() == declarator_v(v@[i as int - 1]));
            assert(out@.drop_last() =~= pre_out);
            assert(declarators_v(out@) =~= declarators_v(pre_out).push(declarator_v(out@.last())));
        }
    }
    proof {
        assert(v@.subrange(0, v@.len() as int) =~= v@);
    }
    out
}

pub fn remove_in_methods(v: &Vec<ClassMethod>, spans: &Vec<u32>) -> (r: Vec<ClassMethod>)
    ensures
        methods_v(r@) == rm_methods(methods_v(v@), spans@),
    decreases *v,
{
    let mut out: Vec<ClassMethod> = Vec::new();
    let mut i: usize = 0;
    proof {
        assert(methods_v(v@.subrange(0, 0)) =~= Seq::<ClassMethodV>::empty());
        assert(methods_v(out@) =~= rm_methods(methods_v(v@.subrange(0, 0)), spans@));
    }
    while i < v.len()
        invariant
            i <= v@.len(),
            methods_v(out@) == rm_methods(methods_v(v@.subrange(0, i as int)), spans@),
        decreases v@.len() - i,
    {
        proof {
            assert(decreases_to!(*v => v@));
            assert(decreases_to!(v@ => v@[i as int]));
        }
        let ghost pre_out = out@;
        let x = remove_in_method(&v[i], spans);
        out.push(x);
        i = i + 1;
        proof {
            let sub1 = v@.subrange(0, i as int);
            let sub0 = v@.subrange(0, i as int - 1);
            assert(sub1.drop_last() =~= sub0);
            assert(sub1.last() == v@[i as int - 1]);
            assert(methods_v(sub1) == methods_v(sub0).push(method_v(v@[i as int - 1])));
            assert(methods_v(sub1).drop_last() =~= methods_v(sub0));
            assert(methods_v(sub1).last() == method_v(v@[i as int - 1]));
            assert(out@.drop_last() =~= pre_out);
            assert(methods_v(out@) =~= methods_v(pre_out).push(method_v(out@.last())));
        }
    }
    proof {
        assert(v@.subrange(0, v@.len() as int) =~= v@);
    }
    out
}
} // verus!
