//! The tree model the transform works on.
//!
//! The host's front end parses source text, resolves names, and hands
//! the library this tree; the host's back end prints the rewritten tree.
//! An identifier carries the symbol its name resolved to (two references
//! to one binding carry the same symbol).  Node kinds the transform
//! never reads or rewrites are represented by the `Other` variants,
//! which carry only the node's source offset; the host keeps the
//! original node for them.  A function-like or class node's source
//! offset (`span_start`) is its declaration identity: unique per parse
//! and stable across the passes, which rewrite the tree in memory
//! without re-parsing.

use vstd::prelude::*;

verus! {

/// A name binding's identity, assigned by the host's symbol table.
pub type SymbolId = u32;

#[derive(Clone, Copy, PartialEq, Eq, Structural, Debug)]
pub enum LogicalOp {
    Or,
    And,
    Coalesce,
}

#[derive(Clone, Copy, PartialEq, Eq, Structural, Debug)]
pub enum BinaryOp {
    Add,
    Other,
}

/// An object-literal property key.
#[derive(PartialEq, Debug)]
pub enum PropKey {
    StringKey(String),
    IdentKey(String),
    OtherKey,
}

/// An object-literal property.
#[derive(PartialEq, Debug)]
pub struct ObjectProp {
    pub key: PropKey,
    pub value: Expr,
}

/// The value of a JSX attribute.
#[derive(PartialEq, Debug)]
pub enum JSXAttrValue {
    StringValue(String),
    Container(Expr),
    EmptyContainer,
    OtherValue,
}

/// One item in a JSX opening element: a named attribute or a spread.
#[derive(PartialEq, Debug)]
pub enum JSXAttrItem {
    Attr { name: String, value: Option<JSXAttrValue> },
    Spread,
}

/// A JSX child node.
#[derive(PartialEq, Debug)]
pub enum JSXChild {
    Text(String),
    Element(Box<JSXElement>),
    Container(Expr),
    EmptyContainer,
    OtherChild,
}

/// A JSX element: its tag (with the symbol the tag name resolves to,
/// when it names a binding), attributes and children.
#[derive(PartialEq, Debug)]
pub struct JSXElement {
    pub name: String,
    pub name_symbol: Option<SymbolId>,
    pub attributes: Vec<JSXAttrItem>,
    pub children: Vec<JSXChild>,
    pub span_start: u32,
}

/// An expression.
#[derive(PartialEq, Debug)]
pub enum Expr {
    StringLit { value: String },
    NumberLit { raw: String },
    BoolLit { value: bool },
    /// A template literal: its static chunks and interpolated expressions.
    TemplateLit { quasis: Vec<String>, exprs: Vec<Expr> },
    /// A tagged template: only the static chunks matter to the transform.
    TaggedTemplate { quasis: Vec<String> },
    ArrayLit { elements: Vec<Expr> },
    ObjectLit { props: Vec<ObjectProp> },
    Conditional { test: Box<Expr>, consequent: Box<Expr>, alternate: Box<Expr> },
    Logical { op: LogicalOp, left: Box<Expr>, right: Box<Expr> },
    Binary { op: BinaryOp, left: Box<Expr>, right: Box<Expr> },
    Call { callee: Box<Expr>, arguments: Vec<Expr>, span_start: u32 },
    Ident { name: String, symbol: Option<SymbolId> },
    StaticMember { object: Box<Expr>, property: String },
    /// An assignment whose target is `<identifier>.<property>`; any
    /// other assignment shape is an `OtherExpr`.
    Assign {
        object_name: String,
        object_symbol: Option<SymbolId>,
        property: String,
        value: Box<Expr>,
        span_start: u32,
    },
    Arrow { body: Vec<Stmt>, span_start: u32 },
    FunctionExpr { body: Vec<Stmt>, span_start: u32 },
    Element(Box<JSXElement>),
    Fragment { children: Vec<JSXChild>, span_start: u32 },
    OtherExpr { span_start: u32 },
}

/// One declarator of a variable declaration.
#[derive(PartialEq, Debug)]
pub struct VarDeclarator {
    pub name: String,
    pub symbol: Option<SymbolId>,
    pub init: Option<Expr>,
    pub span_start: u32,
}

/// One named import of an import declaration.
#[derive(PartialEq, Debug)]
pub struct ImportSpecifier {
    pub imported: String,
    pub local: String,
    pub local_symbol: SymbolId,
}

/// A method of a class body.
#[derive(PartialEq, Debug)]
pub struct ClassMethod {
    pub body: Vec<Stmt>,
    pub span_start: u32,
}

/// A statement.
#[derive(PartialEq, Debug)]
pub enum Stmt {
    VarDecl { declarators: Vec<VarDeclarator>, span_start: u32 },
    FunctionDecl { name: String, symbol: Option<SymbolId>, body: Vec<Stmt>, span_start: u32 },
    ClassDecl { name: String, symbol: Option<SymbolId>, methods: Vec<ClassMethod>, span_start: u32 },
    ExprStmt { expr: Expr, span_start: u32 },
    Return { argument: Option<Expr>, span_start: u32 },
    ImportDecl { source: String, specifiers: Vec<ImportSpecifier>, span_start: u32 },
    OtherStmt { span_start: u32 },
}

/// A whole source file.
#[derive(PartialEq, Debug)]
pub struct Program {
    pub body: Vec<Stmt>,
}

// ----------------------------------------------------------------------
// Mathematical views of the tree, used by every contract.
// ----------------------------------------------------------------------

pub enum PropKeyV {
    StringKey(Seq<char>),
    IdentKey(Seq<char>),
    OtherKey,
}

pub struct ObjectPropV {
    pub key: PropKeyV,
    pub value: ExprV,
}

pub enum JSXAttrValueV {
    StringValue(Seq<char>),
    Container(Box<ExprV>),
    EmptyContainer,
    OtherValue,
}

pub enum JSXAttrItemV {
    Attr { name: Seq<char>, value: Option<JSXAttrValueV> },
    Spread,
}

pub enum JSXChildV {
    Text(Seq<char>),
    Element(Box<JSXElementV>),
    Container(Box<ExprV>),
    EmptyContainer,
    OtherChild,
}

pub struct JSXElementV {
    pub name: Seq<char>,
    pub name_symbol: Option<SymbolId>,
    pub attributes: Seq<JSXAttrItemV>,
    pub children: Seq<JSXChildV>,
    pub span_start: u32,
}

pub enum ExprV {
    StringLit { value: Seq<char> },
    NumberLit { raw: Seq<char> },
    BoolLit { value: bool },
    TemplateLit { quasis: Seq<Seq<char>>, exprs: Seq<ExprV> },
    TaggedTemplate { quasis: Seq<Seq<char>> },
    ArrayLit { elements: Seq<ExprV> },
    ObjectLit { props: Seq<ObjectPropV> },
    Conditional { test: Box<ExprV>, consequent: Box<ExprV>, alternate: Box<ExprV> },
    Logical { op: LogicalOp, left: Box<ExprV>, right: Box<ExprV> },
    Binary { op: BinaryOp, left: Box<ExprV>, right: Box<ExprV> },
    Call { callee: Box<ExprV>, arguments: Seq<ExprV>, span_start: u32 },
    Ident { name: Seq<char>, symbol: Option<SymbolId> },
    StaticMember { object: Box<ExprV>, property: Seq<char> },
    Assign {
        object_name: Seq<char>,
        object_symbol: Option<SymbolId>,
        property: Seq<char>,
        value: Box<ExprV>,
        span_start: u32,
    },
    Arrow { body: Seq<StmtV>, span_start: u32 },
    FunctionExpr { body: Seq<StmtV>, span_start: u32 },
    Element(Box<JSXElementV>),
    Fragment { children: Seq<JSXChildV>, span_start: u32 },
    OtherExpr { span_start: u32 },
}

pub struct VarDeclaratorV {
    pub name: Seq<char>,
    pub symbol: Option<SymbolId>,
    pub init: Option<ExprV>,
    pub span_start: u32,
}

pub struct ImportSpecifierV {
    pub imported: Seq<char>,
    pub local: Seq<char>,
    pub local_symbol: SymbolId,
}

pub struct ClassMethodV {
    pub body: Seq<StmtV>,
    pub span_start: u32,
}

pub enum StmtV {
    VarDecl { declarators: Seq<VarDeclaratorV>, span_start: u32 },
    FunctionDecl { name: Seq<char>, symbol: Option<SymbolId>, body: Seq<StmtV>, span_start: u32 },
    ClassDecl {
        name: Seq<char>,
        symbol: Option<SymbolId>,
        methods: Seq<ClassMethodV>,
        span_start: u32,
    },
    ExprStmt { expr: ExprV, span_start: u32 },
    Return { argument: Option<ExprV>, span_start: u32 },
    ImportDecl { source: Seq<char>, specifiers: Seq<ImportSpecifierV>, span_start: u32 },
    OtherStmt { span_start: u32 },
}

pub struct ProgramV {
    pub body: Seq<StmtV>,
}

// ----------------------------------------------------------------------
// View functions.
// ----------------------------------------------------------------------

pub open spec fn strs_v(s: Seq<String>) -> Seq<Seq<char>> {
    s.map_values(|x: String| x@)
}

pub open spec fn prop_key_v(k: PropKey) -> PropKeyV {
    match k {
        PropKey::StringKey(s) => PropKeyV::StringKey(s@),
        PropKey::IdentKey(s) => PropKeyV::IdentKey(s@),
        PropKey::OtherKey => PropKeyV::OtherKey,
    }
}

pub open spec fn specifier_v(s: ImportSpecifier) -> ImportSpecifierV {
    ImportSpecifierV { imported: s.imported@, local: s.local@, local_symbol: s.local_symbol }
}

pub open spec fn specifiers_v(s: Seq<ImportSpecifier>) -> Seq<ImportSpecifierV> {
    s.map_values(|x: ImportSpecifier| specifier_v(x))
}

pub open spec fn expr_v(e: Expr) -> ExprV
    decreases e,
{
    match e {
        Expr::StringLit { value } => ExprV::StringLit { value: value@ },
        Expr::NumberLit { raw } => ExprV::NumberLit { raw: raw@ },
        Expr::BoolLit { value } => ExprV::BoolLit { value },
        Expr::TemplateLit { quasis, exprs } => ExprV::TemplateLit {
            quasis: strs_v(quasis@),
            exprs: exprs_v(exprs@),
        },
        Expr::TaggedTemplate { quasis } => ExprV::TaggedTemplate { quasis: strs_v(quasis@) },
        Expr::ArrayLit { elements } => ExprV::ArrayLit { elements: exprs_v(elements@) },
        Expr::ObjectLit { props } => ExprV::ObjectLit { props: props_v(props@) },
        Expr::Conditional { test, consequent, alternate } => ExprV::Conditional {
            test: Box::new(expr_v(*test)),
            consequent: Box::new(expr_v(*consequent)),
            alternate: Box::new(expr_v(*alternate)),
        },
        Expr::Logical { op, left, right } => ExprV::Logical {
            op,
            left: Box::new(expr_v(*left)),
            right: Box::new(expr_v(*right)),
        },
        Expr::Binary { op, left, right } => ExprV::Binary {
            op,
            left: Box::new(expr_v(*left)),
            right: Box::new(expr_v(*right)),
        },
        Expr::Call { callee, arguments, span_start } => ExprV::Call {
            callee: Box::new(expr_v(*callee)),
            arguments: exprs_v(arguments@),
            span_start,
        },
        Expr::Ident { name, symbol } => ExprV::Ident { name: name@, symbol },
        Expr::StaticMember { object, property } => ExprV::StaticMember {
            object: Box::new(expr_v(*object)),
            property: property@,
        },
        Expr::Assign { object_name, object_symbol, property, value, span_start } => ExprV::Assign {
            object_name: object_name@,
            object_symbol,
            property: property@,
            value: Box::new(expr_v(*value)),
            span_start,
        },
        Expr::Arrow { body, span_start } => ExprV::Arrow { body: stmts_v(body@), span_start },
        Expr::FunctionExpr { body, span_start } => ExprV::FunctionExpr {
            body: stmts_v(body@),
            span_start,
        },
        Expr::Element(el) => ExprV::Element(Box::new(jsx_element_v(*el))),
        Expr::Fragment { children, span_start } => ExprV::Fragment {
            children: children_v(children@),
            span_start,
        },
        Expr::OtherExpr { span_start } => ExprV::OtherExpr { span_start },
    }
}

pub open spec fn exprs_v(s: Seq<Expr>) -> Seq<ExprV>
    decreases s,
{
    if s.len() == 0 {
        Seq::<ExprV>::empty()
    } else {
        exprs_v(s.drop_last()).push(expr_v(s.last()))
    }
}

pub open spec fn opt_expr_v(o: Option<Expr>) -> Option<ExprV>
    decreases o,
{
    match o {
        Some(e) => Some(expr_v(e)),
        None => None,
    }
}

pub open spec fn prop_v(p: ObjectProp) -> ObjectPropV
    decreases p,
{
    ObjectPropV { key: prop_key_v(p.key), value: expr_v(p.value) }
}

pub open spec fn props_v(s: Seq<ObjectProp>) -> Seq<ObjectPropV>
    decreases s,
{
    if s.len() == 0 {
        Seq::<ObjectPropV>::empty()
    } else {
        props_v(s.drop_last()).push(prop_v(s.last()))
    }
}

pub open spec fn attr_value_v(v: JSXAttrValue) -> JSXAttrValueV
    decreases v,
{
    match v {
        JSXAttrValue::StringValue(s) => JSXAttrValueV::StringValue(s@),
        JSXAttrValue::Container(e) => JSXAttrValueV::Container(Box::new(expr_v(e))),
        JSXAttrValue::EmptyContainer => JSXAttrValueV::EmptyContainer,
        JSXAttrValue::OtherValue => JSXAttrValueV::OtherValue,
    }
}

pub open spec fn attr_item_v(a: JSXAttrItem) -> JSXAttrItemV
    decreases a,
{
    match a {
        JSXAttrItem::Attr { name, value } => JSXAttrItemV::Attr {
            name: name@,
            value: match value {
                Some(v) => Some(attr_value_v(v)),
                None => None,
            },
        },
        JSXAttrItem::Spread => JSXAttrItemV::Spread,
    }
}

pub open spec fn attrs_v(s: Seq<JSXAttrItem>) -> Seq<JSXAttrItemV>
    decreases s,
{
    if s.len() == 0 {
        Seq::<JSXAttrItemV>::empty()
    } else {
        attrs_v(s.drop_last()).push(attr_item_v(s.last()))
    }
}

pub open spec fn child_v(c: JSXChild) -> JSXChildV
    decreases c,
{
    match c {
        JSXChild::Text(s) => JSXChildV::Text(s@),
        JSXChild::Element(el) => JSXChildV::Element(Box::new(jsx_element_v(*el))),
        JSXChild::Container(e) => JSXChildV::Container(Box::new(expr_v(e))),
        JSXChild::EmptyContainer => JSXChildV::EmptyContainer,
        JSXChild::OtherChild => JSXChildV::OtherChild,
    }
}

pub open spec fn children_v(s: Seq<JSXChild>) -> Seq<JSXChildV>
    decreases s,
{
    if s.len() == 0 {
        Seq::<JSXChildV>::empty()
    } else {
        children_v(s.drop_last()).push(child_v(s.last()))
    }
}

pub open spec fn jsx_element_v(el: JSXElement) -> JSXElementV
    decreases el,
{
    JSXElementV {
        name: el.name@,
        name_symbol: el.name_symbol,
        attributes: attrs_v(el.attributes@),
        children: children_v(el.children@),
        span_start: el.span_start,
    }
}

pub open spec fn declarator_v(d: VarDeclarator) -> VarDeclaratorV
    decreases d,
{
    VarDeclaratorV {
        name: d.name@,
        symbol: d.symbol,
        init: opt_expr_v(d.init),
        span_start: d.span_start,
    }
}

pub open spec fn declarators_v(s: Seq<VarDeclarator>) -> Seq<VarDeclaratorV>
    decreases s,
{
    if s.len() == 0 {
        Seq::<VarDeclaratorV>::empty()
    } else {
        declarators_v(s.drop_last()).push(declarator_v(s.last()))
    }
}

pub open spec fn method_v(m: ClassMethod) -> ClassMethodV
    decreases m,
{
    ClassMethodV { body: stmts_v(m.body@), span_start: m.span_start }
}

pub open spec fn methods_v(s: Seq<ClassMethod>) -> Seq<ClassMethodV>
    decreases s,
{
    if s.len() == 0 {
        Seq::<ClassMethodV>::empty()
    } else {
        methods_v(s.drop_last()).push(method_v(s.last()))
    }
}

pub open spec fn stmt_v(st: Stmt) -> StmtV
    decreases st,
{
    match st {
        Stmt::VarDecl { declarators, span_start } => StmtV::VarDecl {
            declarators: declarators_v(declarators@),
            span_start,
        },
        Stmt::FunctionDecl { name, symbol, body, span_start } => StmtV::FunctionDecl {
            name: name@,
            symbol,
            body: stmts_v(body@),
            span_start,
        },
        Stmt::ClassDecl { name, symbol, methods, span_start } => StmtV::ClassDecl {
            name: name@,
            symbol,
            methods: methods_v(methods@),
            span_start,
        },
        Stmt::ExprStmt { expr, span_start } => StmtV::ExprStmt { expr: expr_v(expr), span_start },
        Stmt::Return { argument, span_start } => StmtV::Return {
            argument: opt_expr_v(argument),
            span_start,
        },
        Stmt::ImportDecl { source, specifiers, span_start } => StmtV::ImportDecl {
            source: source@,
            specifiers: specifiers_v(specifiers@),
            span_start,
        },
        Stmt::OtherStmt { span_start } => StmtV::OtherStmt { span_start },
    }
}

pub open spec fn stmts_v(s: Seq<Stmt>) -> Seq<StmtV>
    decreases s,
{
    if s.len() == 0 {
        Seq::<StmtV>::empty()
    } else {
        stmts_v(s.drop_last()).push(stmt_v(s.last()))
    }
}

pub open spec fn program_v(p: Program) -> ProgramV {
    ProgramV { body: stmts_v(p.body@) }
}

// ----------------------------------------------------------------------
// Pointwise characterization of the sequence views.
// ----------------------------------------------------------------------

pub proof fn lemma_exprs_v(s: Seq<Expr>)
    ensures
        exprs_v(s).len() == s.len(),
        forall|i: int| 0 <= i < s.len() ==> exprs_v(s)[i] == expr_v(#[trigger] s[i]),
    decreases s,
{
    if s.len() > 0 {
        lemma_exprs_v(s.drop_last());
        assert forall|i: int| 0 <= i < s.len() implies exprs_v(s)[i] == expr_v(#[trigger] s[i]) by {
            if i < s.len() - 1 {
                assert(s.drop_last()[i] == s[i]);
                assert(exprs_v(s)[i] == exprs_v(s.drop_last())[i]);
            } else {
                assert(s[i] == s.last());
            }
        }
    }
}

pub proof fn lemma_stmts_v(s: Seq<Stmt>)
    ensures
        stmts_v(s).len() == s.len(),
        forall|i: int| 0 <= i < s.len() ==> stmts_v(s)[i] == stmt_v(#[trigger] s[i]),
    decreases s,
{
    if s.len() > 0 {
        lemma_stmts_v(s.drop_last());
        assert forall|i: int| 0 <= i < s.len() implies stmts_v(s)[i] == stmt_v(#[trigger] s[i]) by {
            if i < s.len() - 1 {
                assert(s.drop_last()[i] == s[i]);
                assert(stmts_v(s)[i] == stmts_v(s.drop_last())[i]);
            } else {
                assert(s[i] == s.last());
            }
        }
    }
}

pub proof fn lemma_props_v(s: Seq<ObjectProp>)
    ensures
        props_v(s).len() == s.len(),
        forall|i: int| 0 <= i < s.len() ==> props_v(s)[i] == prop_v(#[trigger] s[i]),
    decreases s,
{
    if s.len() > 0 {
        lemma_props_v(s.drop_last());
        assert forall|i: int| 0 <= i < s.len() implies props_v(s)[i] == prop_v(#[trigger] s[i]) by {
            if i < s.len() - 1 {
                assert(s.drop_last()[i] == s[i]);
                assert(props_v(s)[i] == props_v(s.drop_last())[i]);
            } else {
                assert(s[i] == s.last());
            }
        }
    }
}

pub proof fn lemma_attrs_v(s: Seq<JSXAttrItem>)
    ensures
        attrs_v(s).len() == s.len(),
        forall|i: int| 0 <= i < s.len() ==> attrs_v(s)[i] == attr_item_v(#[trigger] s[i]),
    decreases s,
{
    if s.len() > 0 {
        lemma_attrs_v(s.drop_last());
        assert forall|i: int| 0 <= i < s.len() implies attrs_v(s)[i] == attr_item_v(#[trigger] s[i]) by {
            if i < s.len() - 1 {
                assert(s.drop_last()[i] == s[i]);
                assert(attrs_v(s)[i] == attrs_v(s.drop_last())[i]);
            } else {
                assert(s[i] == s.last());
            }
        }
    }
}

pub proof fn lemma_children_v(s: Seq<JSXChild>)
    ensures
        children_v(s).len() == s.len(),
        forall|i: int| 0 <= i < s.len() ==> children_v(s)[i] == child_v(#[trigger] s[i]),
    decreases s,
{
    if s.len() > 0 {
        lemma_children_v(s.drop_last());
        assert forall|i: int| 0 <= i < s.len() implies children_v(s)[i] == child_v(#[trigger] s[i]) by {
            if i < s.len() - 1 {
                assert(s.drop_last()[i] == s[i]);
                assert(children_v(s)[i] == children_v(s.drop_last())[i]);
            } else {
                assert(s[i] == s.last());
            }
        }
    }
}

pub proof fn lemma_declarators_v(s: Seq<VarDeclarator>)
    ensures
        declarators_v(s).len() == s.len(),
        forall|i: int| 0 <= i < s.len() ==> declarators_v(s)[i] == declarator_v(#[trigger] s[i]),
    decreases s,
{
    if s.len() > 0 {
        lemma_declarators_v(s.drop_last());
        assert forall|i: int| 0 <= i < s.len() implies declarators_v(s)[i] == declarator_v(#[trigger] s[i]) by {
            if i < s.len() - 1 {
                assert(s.drop_last()[i] == s[i]);
                assert(declarators_v(s)[i] == declarators_v(s.drop_last())[i]);
            } else {
                assert(s[i] == s.last());
            }
        }
    }
}

pub proof fn lemma_methods_v(s: Seq<ClassMethod>)
    ensures
        methods_v(s).len() == s.len(),
        forall|i: int| 0 <= i < s.len() ==> methods_v(s)[i] == method_v(#[trigger] s[i]),
    decreases s,
{
    if s.len() > 0 {
        lemma_methods_v(s.drop_last());
        assert forall|i: int| 0 <= i < s.len() implies methods_v(s)[i] == method_v(#[trigger] s[i]) by {
            if i < s.len() - 1 {
                assert(s.drop_last()[i] == s[i]);
                assert(methods_v(s)[i] == methods_v(s.drop_last())[i]);
            } else {
                assert(s[i] == s.last());
            }
        }
    }
}

} // verus!
