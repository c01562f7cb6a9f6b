//! Verified deep copies of the tree model: each copy's view equals the
//! original's view.

use vstd::prelude::*;

use crate::ast::{
    attr_item_v, attr_value_v, attrs_v, child_v, children_v, declarator_v, declarators_v, expr_v,
    exprs_v, jsx_element_v, specifier_v, method_v, methods_v, opt_expr_v, prop_v, props_v, specifiers_v,
    stmt_v, stmts_v, strs_v, ClassMethod, Expr, ImportSpecifier, JSXAttrItem, JSXAttrValue,
    JSXChild, JSXElement, ObjectProp, PropKey, Stmt, VarDeclarator,
};

verus! {

pub fn copy_exprs(v: &Vec<Expr>) -> (r: Vec<Expr>)
    ensures
        exprs_v(r@) == exprs_v(v@),
    decreases *v,
{
    let mut out: Vec<Expr> = Vec::new();
    let mut i: usize = 0;
    proof {
        assert(exprs_v(out@) =~= exprs_v(v@.subrange(0, 0)));
    }
    while i < v.len()
        invariant
            i <= v@.len(),
            exprs_v(out@) == exprs_v(v@.subrange(0, i as int)),
        decreases v@.len() - i,
    {
        proof {
            assert(decreases_to!(*v => v@));
            assert(decreases_to!(v@ => v@[i as int]));
        }
        let ghost prev = out@;
        let x = copy_expr(&v[i]);
        out.push(x);
        i = i + 1;
        proof {
            assert(out@.drop_last() =~= prev);
            assert(v@.subrange(0, i as int).drop_last() =~= v@.subrange(0, i as int - 1));
            assert(v@.subrange(0, i as int).last() == v@[i as int - 1]);
            assert(exprs_v(out@) == exprs_v(v@.subrange(0, i as int)));
        }
    }
    proof {
        assert(v@.subrange(0, v@.len() as int) =~= v@);
    }
    out
}

pub fn copy_stmts(v: &Vec<Stmt>) -> (r: Vec<Stmt>)
    ensures
        stmts_v(r@) == stmts_v(v@),
    decreases *v,
{
    let mut out: Vec<Stmt> = Vec::new();
    let mut i: usize = 0;
    proof {
        assert(stmts_v(out@) =~= stmts_v(v@.subrange(0, 0)));
    }
    while i < v.len()
        invariant
            i <= v@.len(),
            stmts_v(out@) == stmts_v(v@.subrange(0, i as int)),
        decreases v@.len() - i,
    {
        proof {
            assert(decreases_to!(*v => v@));
            assert(decreases_to!(v@ => v@[i as int]));
        }
        let ghost prev = out@;
        let x = copy_stmt(&v[i]);
        out.push(x);
        i = i + 1;
        proof {
            assert(out@.drop_last() =~= prev);
            assert(v@.subrange(0, i as int).drop_last() =~= v@.subrange(0, i as int - 1));
            assert(v@.subrange(0, i as int).last() == v@[i as int - 1]);
            assert(stmts_v(out@) == stmts_v(v@.subrange(0, i as int)));
        }
    }
    proof {
        assert(v@.subrange(0, v@.len() as int) =~= v@);
    }
    out
}

pub fn copy_props(v: &Vec<ObjectProp>) -> (r: Vec<ObjectProp>)
    ensures
        props_v(r@) == props_v(v@),
    decreases *v,
{
    let mut out: Vec<ObjectProp> = Vec::new();
    let mut i: usize = 0;
    proof {
        assert(props_v(out@) =~= props_v(v@.subrange(0, 0)));
    }
    while i < v.len()
        invariant
            i <= v@.len(),
            props_v(out@) == props_v(v@.subrange(0, i as int)),
        decreases v@.len() - i,
    {
        proof {
            assert(decreases_to!(*v => v@));
            assert(decreases_to!(v@ => v@[i as int]));
        }
        let ghost prev = out@;
        let x = copy_prop(&v[i]);
        out.push(x);
        i = i + 1;
        proof {
            assert(out@.drop_last() =~= prev);
            assert(v@.subrange(0, i as int).drop_last() =~= v@.subrange(0, i as int - 1));
            assert(v@.subrange(0, i as int).last() == v@[i as int - 1]);
            assert(props_v(out@) == props_v(v@.subrange(0, i as int)));
        }
    }
    proof {
        assert(v@.subrange(0, v@.len() as int) =~= v@);
    }
    out
}

pub fn copy_children(v: &Vec<JSXChild>) -> (r: Vec<JSXChild>)
    ensures
        children_v(r@) == children_v(v@),
    decreases *v,
{
    let mut out: Vec<JSXChild> = Vec::new();
    let mut i: usize = 0;
    proof {
        assert(children_v(out@) =~= children_v(v@.subrange(0, 0)));
    }
    while i < v.len()
        invariant
            i <= v@.len(),
            children_v(out@) == children_v(v@.subrange(0, i as int)),
        decreases v@.len() - i,
    {
        proof {
            assert(decreases_to!(*v => v@));
            assert(decreases_to!(v@ => v@[i as int]));
        }
        let ghost prev = out@;
        let x = copy_child(&v[i]);
        out.push(x);
        i = i + 1;
        proof {
            assert(out@.drop_last() =~= prev);
            assert(v@.subrange(0, i as int).drop_last() =~= v@.subrange(0, i as int - 1));
            assert(v@.subrange(0, i as int).last() == v@[i as int - 1]);
            assert(children_v(out@) == children_v(v@.subrange(0, i as int)));
        }
    }
    proof {
        assert(v@.subrange(0, v@.len() as int) =~= v@);
    }
    out
}

pub fn copy_attrs(v: &Vec<JSXAttrItem>) -> (r: Vec<JSXAttrItem>)
    ensures
        attrs_v(r@) == attrs_v(v@),
    decreases *v,
{
    let mut out: Vec<JSXAttrItem> = Vec::new();
    let mut i: usize = 0;
    proof {
        assert(attrs_v(out@) =~= attrs_v(v@.subrange(0, 0)));
    }
    while i < v.len()
        invariant
            i <= v@.len(),
            attrs_v(out@) == attrs_v(v@.subrange(0, i as int)),
        decreases v@.len() - i,
    {
        proof {
            assert(decreases_to!(*v => v@));
            assert(decreases_to!(v@ => v@[i as int]));
        }
        let ghost prev = out@;
        let x = copy_attr_item(&v[i]);
        out.push(x);
        i = i + 1;
        proof {
            assert(out@.drop_last() =~= prev);
            assert(v@.subrange(0, i as int).drop_last() =~= v@.subrange(0, i as int - 1));
            assert(v@.subrange(0, i as int).last() == v@[i as int - 1]);
            assert(attrs_v(out@) == attrs_v(v@.subrange(0, i as int)));
        }
    }
    proof {
        assert(v@.subrange(0, v@.len() as int) =~= v@);
    }
    out
}

pub fn copy_declarators(v: &Vec<VarDeclarator>) -> (r: Vec<VarDeclarator>)
    ensures
        declarators_v(r@) == declarators_v(v@),
    decreases *v,
{
    let mut out: Vec<VarDeclarator> = Vec::new();
    let mut i: usize = 0;
    proof {
        assert(declarators_v(out@) =~= declarators_v(v@.subrange(0, 0)));
    }
    while i < v.len()
        invariant
            i <= v@.len(),
            declarators_v(out@) == declarators_v(v@.subrange(0, i as int)),
        decreases v@.len() - i,
    {
        proof {
            assert(decreases_to!(*v => v@));
            assert(decreases_to!(v@ => v@[i as int]));
        }
        let ghost prev = out@;
        let x = copy_declarator(&v[i]);
        out.push(x);
        i = i + 1;
        proof {
            assert(out@.drop_last() =~= prev);
            assert(v@.subrange(0, i as int).drop_last() =~= v@.subrange(0, i as int - 1));
            assert(v@.subrange(0, i as int).last() == v@[i as int - 1]);
            assert(declarators_v(out@) == declarators_v(v@.subrange(0, i as int)));
        }
    }
    proof {
        assert(v@.subrange(0, v@.len() as int) =~= v@);
    }
    out
}

pub fn copy_methods(v: &Vec<ClassMethod>) -> (r: Vec<ClassMethod>)
    ensures
        methods_v(r@) == methods_v(v@),
    decreases *v,
{
    let mut out: Vec<ClassMethod> = Vec::new();
    let mut i: usize = 0;
    proof {
        assert(methods_v(out@) =~= methods_v(v@.subrange(0, 0)));
    }
    while i < v.len()
        invariant
            i <= v@.len(),
            methods_v(out@) == methods_v(v@.subrange(0, i as int)),
        decreases v@.len() - i,
    {
        proof {
            assert(decreases_to!(*v => v@));
            assert(decreases_to!(v@ => v@[i as int]));
        }
        let ghost prev = out@;
        let x = copy_method(&v[i]);
        out.push(x);
        i = i + 1;
        proof {
            assert(out@.drop_last() =~= prev);
            assert(v@.subrange(0, i as int).drop_last() =~= v@.subrange(0, i as int - 1));
            assert(v@.subrange(0, i as int).last() == v@[i as int - 1]);
            assert(methods_v(out@) == methods_v(v@.subrange(0, i as int)));
        }
    }
    proof {
        assert(v@.subrange(0, v@.len() as int) =~= v@);
    }
    out
}

pub fn copy_strings(v: &Vec<String>) -> (r: Vec<String>)
    ensures
        strs_v(r@) == strs_v(v@),
{
    let mut out: Vec<String> = Vec::new();
    let mut i: usize = 0;
    while i < v.len()
        invariant
            i <= v@.len(),
            strs_v(out@) == strs_v(v@.subrange(0, i as int)),
        decreases v@.len() - i,
    {
        let ghost prev = out@;
        out.push(v[i].clone());
        i = i + 1;
        proof {
            assert(v@.subrange(0, i as int) =~= v@.subrange(0, i as int - 1).push(
                v@[i as int - 1],
            ));
            assert(strs_v(out@) =~= strs_v(prev).push(out@.last()@));
            assert(strs_v(v@.subrange(0, i as int)) =~= strs_v(v@.subrange(0, i as int - 1)).push(
                v@[i as int - 1]@,
            ));
            assert(strs_v(out@) =~= strs_v(v@.subrange(0, i as int)));
        }
    }
    proof {
        assert(v@.subrange(0, v@.len() as int) =~= v@);
    }
    out
}

pub fn copy_specifiers(v: &Vec<ImportSpecifier>) -> (r: Vec<ImportSpecifier>)
    ensures
        specifiers_v(r@) == specifiers_v(v@),
{
    let mut out: Vec<ImportSpecifier> = Vec::new();
    let mut i: usize = 0;
    while i < v.len()
        invariant
            i <= v@.len(),
            specifiers_v(out@) == specifiers_v(v@.subrange(0, i as int)),
        decreases v@.len() - i,
    {
        let ghost prev = out@;
        let x = &v[i];
        out.push(
            ImportSpecifier {
                imported: x.imported.clone(),
                local: x.local.clone(),
                local_symbol: x.local_symbol,
            },
        );
        i = i + 1;
        proof {
            assert(v@.subrange(0, i as int) =~= v@.subrange(0, i as int - 1).push(
                v@[i as int - 1],
            ));
            assert(specifiers_v(out@) =~= specifiers_v(out@.drop_last()).push(
                specifier_v(out@.last()),
            ));
            assert(specifiers_v(v@.subrange(0, i as int)) =~= specifiers_v(
                v@.subrange(0, i as int - 1),
            ).push(specifier_v(v@[i as int - 1])));
            assert(out@.drop_last() =~= prev);
            assert(specifiers_v(out@) =~= specifiers_v(v@.subrange(0, i as int)));
        }
    }
    proof {
        assert(v@.subrange(0, v@.len() as int) =~= v@);
    }
    out
}

pub fn copy_opt_expr(o: &Option<Expr>) -> (r: Option<Expr>)
    ensures
        opt_expr_v(r) == opt_expr_v(*o),
    decreases *o,
{
    match o {
        Some(e) => Some(copy_expr(e)),
        None => None,
    }
}

pub fn copy_prop(p: &ObjectProp) -> (r: ObjectProp)
    ensures
        prop_v(r) == prop_v(*p),
    decreases *p,
{
    let key = match &p.key {
        PropKey::StringKey(s) => PropKey::StringKey(s.clone()),
        PropKey::IdentKey(s) => PropKey::IdentKey(s.clone()),
        PropKey::OtherKey => PropKey::OtherKey,
    };
    ObjectProp { key, value: copy_expr(&p.value) }
}

pub fn copy_attr_value(v: &JSXAttrValue) -> (r: JSXAttrValue)
    ensures
        attr_value_v(r) == attr_value_v(*v),
    decreases *v,
{
    match v {
        JSXAttrValue::StringValue(s) => JSXAttrValue::StringValue(s.clone()),
        JSXAttrValue::Container(e) => JSXAttrValue::Container(copy_expr(e)),
        JSXAttrValue::EmptyContainer => JSXAttrValue::EmptyContainer,
        JSXAttrValue::OtherValue => JSXAttrValue::OtherValue,
    }
}

pub fn copy_attr_item(a: &JSXAttrItem) -> (r: JSXAttrItem)
    ensures
        attr_item_v(r) == attr_item_v(*a),
    decreases *a,
{
    match a {
        JSXAttrItem::Attr { name, value } => {
            let v = match value {
                Some(x) => Some(copy_attr_value(x)),
                None => None,
            };
            JSXAttrItem::Attr { name: name.clone(), value: v }
        },
        JSXAttrItem::Spread => JSXAttrItem::Spread,
    }
}

pub fn copy_child(c: &JSXChild) -> (r: JSXChild)
    ensures
        child_v(r) == child_v(*c),
    decreases *c,
{
    match c {
        JSXChild::Text(s) => JSXChild::Text(s.clone()),
        JSXChild::Element(el) => JSXChild::Element(Box::new(copy_jsx_element(el))),
        JSXChild::Container(e) => JSXChild::Container(copy_expr(e)),
        JSXChild::EmptyContainer => JSXChild::EmptyContainer,
        JSXChild::OtherChild => JSXChild::OtherChild,
    }
}

pub fn copy_jsx_element(el: &JSXElement) -> (r: JSXElement)
    ensures
        jsx_element_v(r) == jsx_element_v(*el),
    decreases *el,
{
    JSXElement {
        name: el.name.clone(),
        name_symbol: el.name_symbol,
        attributes: copy_attrs(&el.attributes),
        children: copy_children(&el.children),
        span_start: el.span_start,
    }
}

pub fn copy_declarator(d: &VarDeclarator) -> (r: VarDeclarator)
    ensures
        declarator_v(r) == declarator_v(*d),
    decreases *d,
{
    VarDeclarator {
        name: d.name.clone(),
        symbol: d.symbol,
        init: copy_opt_expr(&d.init),
        span_start: d.span_start,
    }
}

pub fn copy_method(m: &ClassMethod) -> (r: ClassMethod)
    ensures
        method_v(r) == method_v(*m),
    decreases *m,
{
    ClassMethod { body: copy_stmts(&m.body), span_start: m.span_start }
}

pub fn copy_stmt(st: &Stmt) -> (r: Stmt)
    ensures
        stmt_v(r) == stmt_v(*st),
    decreases *st,
{
    match st {
        Stmt::VarDecl { declarators, span_start } => Stmt::VarDecl {
            declarators: copy_declarators(declarators),
            span_start: *span_start,
        },
        Stmt::FunctionDecl { name, symbol, body, span_start } => Stmt::FunctionDecl {
            name: name.clone(),
            symbol: *symbol,
            body: copy_stmts(body),
            span_start: *span_start,
        },
        Stmt::ClassDecl { name, symbol, methods, span_start } => Stmt::ClassDecl {
            name: name.clone(),
            symbol: *symbol,
            methods: copy_methods(methods),
            span_start: *span_start,
        },
        Stmt::ExprStmt { expr, span_start } => Stmt::ExprStmt {
            expr: copy_expr(expr),
            span_start: *span_start,
        },
        Stmt::Return { argument, span_start } => Stmt::Return {
            argument: copy_opt_expr(argument),
            span_start: *span_start,
        },
        Stmt::ImportDecl { source, specifiers, span_start } => Stmt::ImportDecl {
            source: source.clone(),
            specifiers: copy_specifiers(specifiers),
            span_start: *span_start,
        },
        Stmt::OtherStmt { span_start } => Stmt::OtherStmt { span_start: *span_start },
    }
}

pub fn copy_expr(e: &Expr) -> (r: Expr)
    ensures
        expr_v(r) == expr_v(*e),
    decreases *e,
{
    match e {
        Expr::StringLit { value } => Expr::StringLit { value: value.clone() },
        Expr::NumberLit { raw } => Expr::NumberLit { raw: raw.clone() },
        Expr::BoolLit { value } => Expr::BoolLit { value: *value },
        Expr::TemplateLit { quasis, exprs } => Expr::TemplateLit {
            quasis: copy_strings(quasis),
            exprs: copy_exprs(exprs),
        },
        Expr::TaggedTemplate { quasis } => Expr::TaggedTemplate { quasis: copy_strings(quasis) },
        Expr::ArrayLit { elements } => Expr::ArrayLit { elements: copy_exprs(elements) },
        Expr::ObjectLit { props } => Expr::ObjectLit { props: copy_props(props) },
        Expr::Conditional { test, consequent, alternate } => Expr::Conditional {
            test: Box::new(copy_expr(test)),
            consequent: Box::new(copy_expr(consequent)),
            alternate: Box::new(copy_expr(alternate)),
        },
        Expr::Logical { op, left, right } => Expr::Logical {
            op: *op,
            left: Box::new(copy_expr(left)),
            right: Box::new(copy_expr(right)),
        },
        Expr::Binary { op, left, right } => Expr::Binary {
            op: *op,
            left: Box::new(copy_expr(left)),
            right: Box::new(copy_expr(right)),
        },
        Expr::Call { callee, arguments, span_start } => Expr::Call {
            callee: Box::new(copy_expr(callee)),
            arguments: copy_exprs(arguments),
            span_start: *span_start,
        },
        Expr::Ident { name, symbol } => Expr::Ident { name: name.clone(), symbol: *symbol },
        Expr::StaticMember { object, property } => Expr::StaticMember {
            object: Box::new(copy_expr(object)),
            property: property.clone(),
        },
        Expr::Assign { object_name, object_symbol, property, value, span_start } => Expr::Assign {
            object_name: object_name.clone(),
            object_symbol: *object_symbol,
            property: property.clone(),
            value: Box::new(copy_expr(value)),
            span_start: *span_start,
        },
        Expr::Arrow { body, span_start } => Expr::Arrow {
            body: copy_stmts(body),
            span_start: *span_start,
        },
        Expr::FunctionExpr { body, span_start } => Expr::FunctionExpr {
            body: copy_stmts(body),
            span_start: *span_start,
        },
        Expr::Element(el) => Expr::Element(Box::new(copy_jsx_element(el))),
        Expr::Fragment { children, span_start } => Expr::Fragment {
            children: copy_children(children),
            span_start: *span_start,
        },
        Expr::OtherExpr { span_start } => Expr::OtherExpr { span_start: *span_start },
    }
}

} // verus!
