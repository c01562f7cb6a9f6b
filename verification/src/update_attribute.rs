//! The class-name propagation engine.
//!
//! Given the class-name map of one declaration, it rewrites every
//! syntactic position that can carry a class name: string literals
//! (space-separated, token by token), template-literal chunks, array
//! elements, object-literal string keys, both branches of a ternary,
//! the operands of `||` / `??` and the right operand of `&&`, both
//! sides of `+`, the arguments of recognized class-name utility calls
//! and the elements of an `[..].join(" ")` receiver; any other call is
//! left untouched.  A bare identifier is not rewritten in
//! place: its symbol is resolved through the variable-link chain and
//! recorded for the later pass that rewrites the binding's initializer.

use vstd::prelude::*;

use crate::ast::{
    attr_item_v, attr_value_v, attrs_v, child_v, children_v, declarator_v, declarators_v, expr_v,
    exprs_v, jsx_element_v, lemma_exprs_v, lemma_props_v, method_v, methods_v, opt_expr_v,
    prop_key_v, prop_v, props_v, stmt_v, stmts_v, strs_v, BinaryOp, ClassMethod, ClassMethodV,
    Expr, ExprV, JSXAttrItem, JSXAttrItemV, JSXAttrValue, JSXAttrValueV, JSXChild, JSXChildV,
    JSXElement, JSXElementV, LogicalOp, ObjectProp, ObjectPropV, PropKey, PropKeyV, Stmt, StmtV,
    VarDeclarator, VarDeclaratorV,
};
use crate::maps::{IdMap, StrMap};
use crate::strutil::{append_str, chars_range_to_string, push_char, str_eq, str_to_chars};

verus! {

// ----------------------------------------------------------------------
// Space-separated token rewriting.
// ----------------------------------------------------------------------

/// First position at or after `i` holding a space.
pub open spec fn first_space(s: Seq<char>, i: int) -> int
    decreases s.len() - i,
{
    if i < 0 || i >= s.len() {
        s.len() as int
    } else if s[i] == ' ' {
        i
    } else {
        first_space(s, i + 1)
    }
}

/// The space-separated tokens of `s` from position `i` on.  Splitting
/// keeps empty tokens, as `str::split(' ')` does.
pub open spec fn split_sp(s: Seq<char>, i: int) -> Seq<Seq<char>>
    decreases s.len() - i,
{
    if i < 0 || i > s.len() {
        Seq::<Seq<char>>::empty()
    } else {
        let j0 = first_space(s, i);
        if j0 >= s.len() {
            seq![s.subrange(i, s.len() as int)]
        } else {
            let j = if j0 < i {
                i
            } else {
                j0
            };
            seq![s.subrange(i, j)] + split_sp(s, j + 1)
        }
    }
}

/// Tokens joined with single spaces.
pub open spec fn join_sp(ws: Seq<Seq<char>>) -> Seq<char>
    decreases ws.len(),
{
    if ws.len() == 0 {
        Seq::<char>::empty()
    } else if ws.len() == 1 {
        ws[0]
    } else {
        ws[0] + seq![' '] + join_sp(ws.drop_first())
    }
}

/// One token through the class-name map: mapped if present, else kept.
pub open spec fn map_token(m: Map<Seq<char>, Seq<char>>, w: Seq<char>) -> Seq<char> {
    if m.contains_key(w) {
        m[w]
    } else {
        w
    }
}

pub open spec fn map_tokens(ws: Seq<Seq<char>>, m: Map<Seq<char>, Seq<char>>) -> Seq<Seq<char>> {
    ws.map_values(|w: Seq<char>| map_token(m, w))
}

/// The rewriting of one class-name string: split on spaces, map each
/// token through the class-name map, join with spaces.
pub open spec fn spec_updated_classname(s: Seq<char>, m: Map<Seq<char>, Seq<char>>) -> Seq<char> {
    join_sp(map_tokens(split_sp(s, 0), m))
}

fn first_space_exec(s: &Vec<char>, i: usize) -> (r: usize)
    requires
        i <= s@.len(),
    ensures
        r == first_space(s@, i as int),
        i <= r <= s@.len(),
{
    let n = s.len();
    let mut k: usize = i;
    loop
        invariant
            i <= k <= n,
            n == s@.len(),
            first_space(s@, i as int) == first_space(s@, k as int),
        decreases n - k,
    {
        if k >= n {
            return n;
        }
        if s[k] == ' ' {
            return k;
        }
        k = k + 1;
    }
}

fn rewrite_from(s: &Vec<char>, i: usize, map: &StrMap) -> (r: String)
    requires
        i <= s@.len(),
    ensures
        r@ == join_sp(map_tokens(split_sp(s@, i as int), map@)),
    decreases s@.len() - i,
{
    let n = s.len();
    let j = first_space_exec(s, i);
    let word = chars_range_to_string(s, i, j);
    let mapped: String = match map.get(word.as_str()) {
        Some(v) => v.clone(),
        None => word,
    };
    let ghost toks = split_sp(s@, i as int);
    if j >= n {
        proof {
            assert(toks =~= seq![s@.subrange(i as int, s@.len() as int)]);
            assert(map_tokens(toks, map@) =~= seq![
                map_token(map@, s@.subrange(i as int, s@.len() as int)),
            ]);
        }
        mapped
    } else {
        let mut out = mapped;
        push_char(&mut out, ' ');
        let rest = rewrite_from(s, j + 1, map);
        append_str(&mut out, rest.as_str());
        proof {
            let tail = split_sp(s@, j as int + 1);
            assert(toks == seq![s@.subrange(i as int, j as int)] + tail);
            let mt = map_tokens(toks, map@);
            let mtail = map_tokens(tail, map@);
            assert(mt =~= seq![map_token(map@, s@.subrange(i as int, j as int))] + mtail);
            assert(mt[0] == map_token(map@, s@.subrange(i as int, j as int)));
            assert(mt.drop_first() =~= mtail);
            assert(tail.len() >= 1);
            assert(mt.len() >= 2);
            assert(join_sp(mt) == mt[0] + seq![' '] + join_sp(mtail));
            assert(out@ =~= mt[0] + seq![' '] + join_sp(mtail));
        }
        out
    }
}

/// Rewrites a space-separated class-name string through the map; tokens
/// absent from the map pass through unchanged.
pub fn get_updated_classname(map: &StrMap, class_name: &str) -> (r: String)
    ensures
        r@ == spec_updated_classname(class_name@, map@),
{
    let chars = str_to_chars(class_name);
    rewrite_from(&chars, 0, map)
}

// ----------------------------------------------------------------------
// Laws of the token rewriting.
// ----------------------------------------------------------------------

/// Splitting a string on spaces and joining the tokens with spaces
/// gives the string back.
pub proof fn lemma_join_split(s: Seq<char>, i: int)
    requires
        0 <= i <= s.len(),
    ensures
        join_sp(split_sp(s, i)) == s.subrange(i, s.len() as int),
    decreases s.len() - i,
{
    lemma_first_space_bounds(s, i);
    let j0 = first_space(s, i);
    if j0 >= s.len() {
    } else {
        lemma_join_split(s, j0 + 1);
        let tail = split_sp(s, j0 + 1);
        assert(tail.len() >= 1) by {
            lemma_first_space_bounds(s, j0 + 1);
        }
        let toks = seq![s.subrange(i, j0)] + tail;
        assert(split_sp(s, i) == toks);
        assert(toks.drop_first() =~= tail);
        assert(join_sp(toks) == s.subrange(i, j0) + seq![' '] + join_sp(tail));
        assert(s[j0] == ' ');
        assert(s.subrange(i, j0) + seq![' '] + s.subrange(j0 + 1, s.len() as int) =~= s.subrange(
            i,
            s.len() as int,
        ));
    }
}

/// `first_space` stays within bounds and `split_sp` is never empty.
pub proof fn lemma_first_space_bounds(s: Seq<char>, i: int)
    requires
        0 <= i <= s.len(),
    ensures
        i <= first_space(s, i) <= s.len(),
        first_space(s, i) < s.len() ==> s[first_space(s, i)] == ' ',
        split_sp(s, i).len() >= 1,
    decreases s.len() - i,
{
    if i < s.len() && s[i] != ' ' {
        lemma_first_space_bounds(s, i + 1);
    }
}

/// With an empty class-name map the rewriting is the identity.
pub proof fn lemma_updated_classname_empty(s: Seq<char>)
    ensures
        spec_updated_classname(s, Map::<Seq<char>, Seq<char>>::empty()) == s,
{
    let m = Map::<Seq<char>, Seq<char>>::empty();
    assert(map_tokens(split_sp(s, 0), m) =~= split_sp(s, 0));
    lemma_join_split(s, 0);
    assert(s.subrange(0, s.len() as int) =~= s);
}


/// Rewriting a logical `&&` touches only the right operand: the left is
/// a guard, and stays as it was even when its text is a mapped class
/// name.
pub proof fn lemma_and_left_untouched(
    left: ExprV,
    right: ExprV,
    c: UpdCtx,
)
    ensures
        upd_expr(
            ExprV::Logical { op: LogicalOp::And, left: Box::new(left), right: Box::new(right) },
            c,
        ).0 == (ExprV::Logical {
            op: LogicalOp::And,
            left: Box::new(left),
            right: Box::new(upd_expr(right, c).0),
        }),
{
}

/// Token rewriting is total: token by token, a class name present in
/// the map is replaced by its image and one absent passes through
/// unchanged.
pub proof fn lemma_tokens_total(s: Seq<char>, m: Map<Seq<char>, Seq<char>>)
    ensures
        map_tokens(split_sp(s, 0), m).len() == split_sp(s, 0).len(),
        forall|i: int|
            0 <= i < split_sp(s, 0).len() && m.contains_key(#[trigger] split_sp(s, 0)[i])
                ==> map_tokens(split_sp(s, 0), m)[i] == m[split_sp(s, 0)[i]],
        forall|i: int|
            0 <= i < split_sp(s, 0).len() && !m.contains_key(#[trigger] split_sp(s, 0)[i])
                ==> map_tokens(split_sp(s, 0), m)[i] == split_sp(s, 0)[i],
{
}

// ----------------------------------------------------------------------
// Attribute-name recognition (exact names and `/regex/` patterns).
// ----------------------------------------------------------------------

/// What `regex::Regex::new(pattern)` followed by `is_match(text)`
/// returns: `None` when the pattern does not compile, else whether the
/// pattern matches the text.  The result depends on the pattern and the
/// text alone.
pub uninterp spec fn regex_match(pattern: Seq<char>, text: Seq<char>) -> Option<bool>;

/// Relies on `regex::Regex::new` and `regex::Regex::is_match`.
#[verifier::external_body]
fn regex_is_match(pattern: &str, text: &str) -> (r: Option<bool>)
    ensures
        r == regex_match(pattern@, text@),
{
    match regex::Regex::new(pattern) {
        Ok(re) => Some(re.is_match(text)),
        Err(_) => None,
    }
}

/// Whether one configured attribute name matches: an item of the form
/// `/pattern/` is a regular expression (an item whose pattern does not
/// compile falls back to exact comparison); any other item must be equal
/// to the name.
pub open spec fn spec_matches_item(item: Seq<char>, name: Seq<char>) -> bool {
    if item.len() >= 2 && item[0] == '/' && item[item.len() - 1] == '/' {
        match regex_match(item.subrange(1, item.len() - 1), name) {
            Some(b) => b,
            None => item == name,
        }
    } else {
        item == name
    }
}

pub open spec fn spec_in_list(list: Seq<Seq<char>>, name: Seq<char>) -> bool {
    exists|i: int| 0 <= i < list.len() && spec_matches_item(#[trigger] list[i], name)
}

/// Does the attribute name match any entry of the configured list?
pub fn is_classname_in_list(list: &Vec<String>, class_name: &str) -> (r: bool)
    ensures
        r == spec_in_list(crate::ast::strs_v(list@), class_name@),
{
    let ghost lv = crate::ast::strs_v(list@);
    let mut i: usize = 0;
    while i < list.len()
        invariant
            i <= list@.len(),
            lv == crate::ast::strs_v(list@),
            lv.len() == list@.len(),
            forall|k: int| 0 <= k < i ==> !spec_matches_item(#[trigger] lv[k], class_name@),
        decreases list@.len() - i,
    {
        let item = &list[i];
        let chars = str_to_chars(item.as_str());
        let n = chars.len();
        let mut matched: bool = false;
        if n >= 2 && chars[0] == '/' && chars[n - 1] == '/' {
            let pattern = chars_range_to_string(&chars, 1, n - 1);
            match regex_is_match(pattern.as_str(), class_name) {
                Some(b) => {
                    matched = b;
                },
                None => {
                    matched = str_eq(item.as_str(), class_name);
                },
            }
        } else {
            matched = str_eq(item.as_str(), class_name);
        }
        proof {
            assert(lv[i as int] == item@);
        }
        if matched {
            return true;
        }
        i = i + 1;
    }
    false
}

// ----------------------------------------------------------------------
// Variable-link resolution.
// ----------------------------------------------------------------------

/// Follows the variable-link chain from `s` for at most `fuel` steps.
/// Link chains come from variable initializers and are acyclic, so a
/// fuel of the map's size reaches the terminal symbol.
pub open spec fn spec_resolve(links: Map<u32, u32>, s: u32, fuel: nat) -> u32
    decreases fuel,
{
    if fuel == 0 {
        s
    } else if links.contains_key(s) {
        spec_resolve(links, links[s], (fuel - 1) as nat)
    } else {
        s
    }
}

/// Resolves a symbol through the link chain to its terminal symbol.
pub fn get_resolved_symbol_id(links: &IdMap, symbol_id: u32) -> (r: u32)
    ensures
        r == spec_resolve(links@, symbol_id, links.len_v()),
{
    let mut cur = symbol_id;
    let mut fuel = links.entry_count();
    while fuel > 0
        invariant
            spec_resolve(links@, symbol_id, links.len_v()) == spec_resolve(
                links@,
                cur,
                fuel as nat,
            ),
        decreases fuel,
    {
        match links.get(cur) {
            Some(next) => {
                cur = next;
            },
            None => {
                return cur;
            },
        }
        fuel = fuel - 1;
    }
    cur
}

/// A terminal link is reached in one step: the content of the variable
/// aliasing rule for a two-element chain.
pub proof fn lemma_resolve_terminal(links: Map<u32, u32>, s: u32, fuel: nat)
    requires
        fuel >= 1,
        links.contains_key(s),
        !links.contains_key(links[s]),
    ensures
        spec_resolve(links, s, fuel) == links[s],
{
    assert(spec_resolve(links, links[s], (fuel - 1) as nat) == links[s]);
}


// ----------------------------------------------------------------------
// The rewrite of one class-name-bearing expression.
// ----------------------------------------------------------------------

/// A symbol whose binding must be rewritten later, with the declaration
/// whose class-name map applies to it.
#[derive(Clone, Copy, PartialEq, Eq, Structural, Debug)]
pub struct SymbolStore {
    pub symbol_id: u32,
    pub fn_id: u32,
}

impl SymbolStore {
    pub fn new(symbol_id: u32, fn_id: u32) -> (r: SymbolStore)
        ensures
            r == (SymbolStore { symbol_id, fn_id }),
    {
        SymbolStore { symbol_id, fn_id }
    }
}

/// Everything the rewrite depends on: the class-name map, the variable
/// links (with fuel bounding chain length), the recognized utility
/// symbols, the configured attribute names, and the declaration identity
/// pending references are recorded under.
pub struct UpdCtx {
    pub m: Map<Seq<char>, Seq<char>>,
    pub links: Map<u32, u32>,
    pub fuel: nat,
    pub utils: Seq<u32>,
    pub list: Seq<Seq<char>>,
    pub fnid: u32,
}

pub open spec fn is_space_lit(e: ExprV) -> bool {
    match e {
        ExprV::StringLit { value } => value == " "@,
        _ => false,
    }
}

/// The pending reference an identifier with a resolved symbol produces.
pub open spec fn pending_of(symbol: Option<u32>, c: UpdCtx) -> Seq<SymbolStore> {
    match symbol {
        Some(sy) => seq![
            SymbolStore { symbol_id: spec_resolve(c.links, sy, c.fuel), fn_id: c.fnid },
        ],
        None => Seq::<SymbolStore>::empty(),
    }
}

/// An object-literal key through the map: string keys are rewritten,
/// identifier and computed keys are not.
pub open spec fn upd_key(k: PropKeyV, m: Map<Seq<char>, Seq<char>>) -> PropKeyV {
    match k {
        PropKeyV::StringKey(s) => PropKeyV::StringKey(spec_updated_classname(s, m)),
        other => other,
    }
}

pub open spec fn upd_props(props: Seq<ObjectPropV>, m: Map<Seq<char>, Seq<char>>) -> Seq<
    ObjectPropV,
> {
    props.map_values(|p: ObjectPropV| ObjectPropV { key: upd_key(p.key, m), value: p.value })
}

pub open spec fn upd_quasis(qs: Seq<Seq<char>>, m: Map<Seq<char>, Seq<char>>) -> Seq<Seq<char>> {
    qs.map_values(|q: Seq<char>| spec_updated_classname(q, m))
}

/// The rewrite of one expression at a class-name-bearing position,
/// together with the pending identifier references it records.
pub open spec fn upd_expr(e: ExprV, c: UpdCtx) -> (ExprV, Seq<SymbolStore>)
    decreases e,
{
    match e {
        ExprV::StringLit { value } => (
            ExprV::StringLit { value: spec_updated_classname(value, c.m) },
            Seq::<SymbolStore>::empty(),
        ),
        ExprV::ObjectLit { props } => (
            ExprV::ObjectLit { props: upd_props(props, c.m) },
            Seq::<SymbolStore>::empty(),
        ),
        ExprV::ArrayLit { elements } => {
            let t = upd_exprs(elements, c);
            (ExprV::ArrayLit { elements: t.0 }, t.1)
        },
        ExprV::Logical { op, left, right } => {
            if op == LogicalOp::Or || op == LogicalOp::Coalesce {
                let l = upd_expr(*left, c);
                let r = upd_expr(*right, c);
                (ExprV::Logical { op, left: Box::new(l.0), right: Box::new(r.0) }, l.1 + r.1)
            } else {
                let r = upd_expr(*right, c);
                (ExprV::Logical { op, left, right: Box::new(r.0) }, r.1)
            }
        },
        ExprV::Conditional { test, consequent, alternate } => {
            let cq = upd_expr(*consequent, c);
            let al = upd_expr(*alternate, c);
            (
                ExprV::Conditional {
                    test,
                    consequent: Box::new(cq.0),
                    alternate: Box::new(al.0),
                },
                cq.1 + al.1,
            )
        },
        ExprV::Binary { op, left, right } => {
            if op == BinaryOp::Add {
                let l = upd_expr(*left, c);
                let r = upd_expr(*right, c);
                (ExprV::Binary { op, left: Box::new(l.0), right: Box::new(r.0) }, l.1 + r.1)
            } else {
                (ExprV::Binary { op, left, right }, Seq::<SymbolStore>::empty())
            }
        },
        ExprV::Call { callee, arguments, span_start } => match *callee {
            ExprV::StaticMember { object, property } => match *object {
                ExprV::ArrayLit { elements } => {
                    if property == "join"@ && arguments.len() >= 1 && is_space_lit(
                        arguments[0],
                    ) {
                        let t = upd_exprs(elements, c);
                        (
                            ExprV::Call {
                                callee: Box::new(
                                    ExprV::StaticMember {
                                        object: Box::new(ExprV::ArrayLit { elements: t.0 }),
                                        property,
                                    },
                                ),
                                arguments,
                                span_start,
                            },
                            t.1,
                        )
                    } else {
                        (
                            ExprV::Call {
                                callee: Box::new(
                                    ExprV::StaticMember {
                                        object: Box::new(ExprV::ArrayLit { elements }),
                                        property,
                                    },
                                ),
                                arguments,
                                span_start,
                            },
                            Seq::<SymbolStore>::empty(),
                        )
                    }
                },
                obj => (
                    ExprV::Call {
                        callee: Box::new(ExprV::StaticMember { object: Box::new(obj), property }),
                        arguments,
                        span_start,
                    },
                    Seq::<SymbolStore>::empty(),
                ),
            },
            cal => {
                if is_util_call(cal, c.utils) {
                    let t = upd_exprs(arguments, c);
                    (ExprV::Call { callee: Box::new(cal), arguments: t.0, span_start }, t.1)
                } else {
                    (
                        ExprV::Call { callee: Box::new(cal), arguments, span_start },
                        Seq::<SymbolStore>::empty(),
                    )
                }
            },
        },
        ExprV::Ident { name, symbol } => (
            ExprV::Ident { name, symbol },
            pending_of(symbol, c),
        ),
        ExprV::TemplateLit { quasis, exprs } => {
            let t = upd_exprs(exprs, c);
            (ExprV::TemplateLit { quasis: upd_quasis(quasis, c.m), exprs: t.0 }, t.1)
        },
        other => (other, Seq::<SymbolStore>::empty()),
    }
}

pub open spec fn upd_exprs(s: Seq<ExprV>, c: UpdCtx) -> (Seq<ExprV>, Seq<SymbolStore>)
    decreases s,
{
    if s.len() == 0 {
        (Seq::<ExprV>::empty(), Seq::<SymbolStore>::empty())
    } else {
        let front = upd_exprs(s.drop_last(), c);
        let last = upd_expr(s.last(), c);
        (front.0.push(last.0), front.1 + last.1)
    }
}

// ----------------------------------------------------------------------
// The tree walk of one function body: JSX attributes whose names are in
// the configured list, and the arguments of recognized utility calls,
// are rewritten; everything else is traversed.  A rewritten position is
// not traversed again.
// ----------------------------------------------------------------------

pub open spec fn wk_attr_value(v: Option<JSXAttrValueV>, hooked: bool, c: UpdCtx) -> (
    Option<JSXAttrValueV>,
    Seq<SymbolStore>,
)
    decreases v,
{
    match v {
        Some(JSXAttrValueV::StringValue(s)) => {
            if hooked {
                (
                    Some(JSXAttrValueV::StringValue(spec_updated_classname(s, c.m))),
                    Seq::<SymbolStore>::empty(),
                )
            } else {
                (Some(JSXAttrValueV::StringValue(s)), Seq::<SymbolStore>::empty())
            }
        },
        Some(JSXAttrValueV::Container(e)) => {
            if hooked {
                let t = upd_expr(*e, c);
                (Some(JSXAttrValueV::Container(Box::new(t.0))), t.1)
            } else {
                let t = wk_expr(*e, c);
                (Some(JSXAttrValueV::Container(Box::new(t.0))), t.1)
            }
        },
        other => (other, Seq::<SymbolStore>::empty()),
    }
}

pub open spec fn wk_attr(a: JSXAttrItemV, c: UpdCtx) -> (JSXAttrItemV, Seq<SymbolStore>)
    decreases a,
{
    match a {
        JSXAttrItemV::Attr { name, value } => {
            let hooked = spec_in_list(c.list, name);
            let t = wk_attr_value(value, hooked, c);
            (JSXAttrItemV::Attr { name, value: t.0 }, t.1)
        },
        JSXAttrItemV::Spread => (JSXAttrItemV::Spread, Seq::<SymbolStore>::empty()),
    }
}

pub open spec fn wk_attrs(s: Seq<JSXAttrItemV>, c: UpdCtx) -> (
    Seq<JSXAttrItemV>,
    Seq<SymbolStore>,
)
    decreases s,
{
    if s.len() == 0 {
        (Seq::<JSXAttrItemV>::empty(), Seq::<SymbolStore>::empty())
    } else {
        let front = wk_attrs(s.drop_last(), c);
        let last = wk_attr(s.last(), c);
        (front.0.push(last.0), front.1 + last.1)
    }
}

pub open spec fn wk_child(ch: JSXChildV, c: UpdCtx) -> (JSXChildV, Seq<SymbolStore>)
    decreases ch,
{
    match ch {
        JSXChildV::Element(el) => {
            let t = wk_jsx_element(*el, c);
            (JSXChildV::Element(Box::new(t.0)), t.1)
        },
        JSXChildV::Container(e) => {
            let t = wk_expr(*e, c);
            (JSXChildV::Container(Box::new(t.0)), t.1)
        },
        other => (other, Seq::<SymbolStore>::empty()),
    }
}

pub open spec fn wk_children(s: Seq<JSXChildV>, c: UpdCtx) -> (Seq<JSXChildV>, Seq<SymbolStore>)
    decreases s,
{
    if s.len() == 0 {
        (Seq::<JSXChildV>::empty(), Seq::<SymbolStore>::empty())
    } else {
        let front = wk_children(s.drop_last(), c);
        let last = wk_child(s.last(), c);
        (front.0.push(last.0), front.1 + last.1)
    }
}

pub open spec fn wk_jsx_element(el: JSXElementV, c: UpdCtx) -> (JSXElementV, Seq<SymbolStore>)
    decreases el,
{
    let ta = wk_attrs(el.attributes, c);
    let tc = wk_children(el.children, c);
    (
        JSXElementV {
            name: el.name,
            name_symbol: el.name_symbol,
            attributes: ta.0,
            children: tc.0,
            span_start: el.span_start,
        },
        ta.1 + tc.1,
    )
}

/// Is the call a recognized class-name utility call (its callee an
/// identifier whose symbol is one of the imported utility bindings)?
pub open spec fn is_util_call(callee: ExprV, utils: Seq<u32>) -> bool {
    match callee {
        ExprV::Ident { name, symbol } => match symbol {
            Some(sy) => utils.contains(sy),
            None => false,
        },
        _ => false,
    }
}

pub open spec fn wk_expr(e: ExprV, c: UpdCtx) -> (ExprV, Seq<SymbolStore>)
    decreases e,
{
    match e {
        ExprV::TemplateLit { quasis, exprs } => {
            let t = wk_exprs(exprs, c);
            (ExprV::TemplateLit { quasis, exprs: t.0 }, t.1)
        },
        ExprV::ArrayLit { elements } => {
            let t = wk_exprs(elements, c);
            (ExprV::ArrayLit { elements: t.0 }, t.1)
        },
        ExprV::ObjectLit { props } => {
            let t = wk_props(props, c);
            (ExprV::ObjectLit { props: t.0 }, t.1)
        },
        ExprV::Conditional { test, consequent, alternate } => {
            let tt = wk_expr(*test, c);
            let tc = wk_expr(*consequent, c);
            let ta = wk_expr(*alternate, c);
            (
                ExprV::Conditional {
                    test: Box::new(tt.0),
                    consequent: Box::new(tc.0),
                    alternate: Box::new(ta.0),
                },
                tt.1 + tc.1 + ta.1,
            )
        },
        ExprV::Logical { op, left, right } => {
            let tl = wk_expr(*left, c);
            let tr = wk_expr(*right, c);
            (ExprV::Logical { op, left: Box::new(tl.0), right: Box::new(tr.0) }, tl.1 + tr.1)
        },
        ExprV::Binary { op, left, right } => {
            let tl = wk_expr(*left, c);
            let tr = wk_expr(*right, c);
            (ExprV::Binary { op, left: Box::new(tl.0), right: Box::new(tr.0) }, tl.1 + tr.1)
        },
        ExprV::Call { callee, arguments, span_start } => {
            if is_util_call(*callee, c.utils) {
                let t = upd_exprs(arguments, c);
                (ExprV::Call { callee, arguments: t.0, span_start }, t.1)
            } else {
                let tc = wk_expr(*callee, c);
                let ta = wk_exprs(arguments, c);
                (
                    ExprV::Call { callee: Box::new(tc.0), arguments: ta.0, span_start },
                    tc.1 + ta.1,
                )
            }
        },
        ExprV::StaticMember { object, property } => {
            let t = wk_expr(*object, c);
            (ExprV::StaticMember { object: Box::new(t.0), property }, t.1)
        },
        ExprV::Assign { object_name, object_symbol, property, value, span_start } => {
            let t = wk_expr(*value, c);
            (
                ExprV::Assign {
                    object_name,
                    object_symbol,
                    property,
                    value: Box::new(t.0),
                    span_start,
                },
                t.1,
            )
        },
        ExprV::Arrow { body, span_start } => {
            let t = wk_stmts(body, c);
            (ExprV::Arrow { body: t.0, span_start }, t.1)
        },
        ExprV::FunctionExpr { body, span_start } => {
            let t = wk_stmts(body, c);
            (ExprV::FunctionExpr { body: t.0, span_start }, t.1)
        },
        ExprV::Element(el) => {
            let t = wk_jsx_element(*el, c);
            (ExprV::Element(Box::new(t.0)), t.1)
        },
        ExprV::Fragment { children, span_start } => {
            let t = wk_children(children, c);
            (ExprV::Fragment { children: t.0, span_start }, t.1)
        },
        other => (other, Seq::<SymbolStore>::empty()),
    }
}

pub open spec fn wk_exprs(s: Seq<ExprV>, c: UpdCtx) -> (Seq<ExprV>, Seq<SymbolStore>)
    decreases s,
{
    if s.len() == 0 {
        (Seq::<ExprV>::empty(), Seq::<SymbolStore>::empty())
    } else {
        let front = wk_exprs(s.drop_last(), c);
        let last = wk_expr(s.last(), c);
        (front.0.push(last.0), front.1 + last.1)
    }
}

pub open spec fn wk_prop(p: ObjectPropV, c: UpdCtx) -> (ObjectPropV, Seq<SymbolStore>)
    decreases p,
{
    let t = wk_expr(p.value, c);
    (ObjectPropV { key: p.key, value: t.0 }, t.1)
}

pub open spec fn wk_props(s: Seq<ObjectPropV>, c: UpdCtx) -> (Seq<ObjectPropV>, Seq<SymbolStore>)
    decreases s,
{
    if s.len() == 0 {
        (Seq::<ObjectPropV>::empty(), Seq::<SymbolStore>::empty())
    } else {
        let front = wk_props(s.drop_last(), c);
        let last = wk_prop(s.last(), c);
        (front.0.push(last.0), front.1 + last.1)
    }
}

pub open spec fn wk_opt_expr(o: Option<ExprV>, c: UpdCtx) -> (Option<ExprV>, Seq<SymbolStore>)
    decreases o,
{
    match o {
        Some(e) => {
            let t = wk_expr(e, c);
            (Some(t.0), t.1)
        },
        None => (None, Seq::<SymbolStore>::empty()),
    }
}

pub open spec fn wk_declarator(d: VarDeclaratorV, c: UpdCtx) -> (
    VarDeclaratorV,
    Seq<SymbolStore>,
)
    decreases d,
{
    let t = wk_opt_expr(d.init, c);
    (
        VarDeclaratorV { name: d.name, symbol: d.symbol, init: t.0, span_start: d.span_start },
        t.1,
    )
}

pub open spec fn wk_declarators(s: Seq<VarDeclaratorV>, c: UpdCtx) -> (
    Seq<VarDeclaratorV>,
    Seq<SymbolStore>,
)
    decreases s,
{
    if s.len() == 0 {
        (Seq::<VarDeclaratorV>::empty(), Seq::<SymbolStore>::empty())
    } else {
        let front = wk_declarators(s.drop_last(), c);
        let last = wk_declarator(s.last(), c);
        (front.0.push(last.0), front.1 + last.1)
    }
}

pub open spec fn wk_method(m: ClassMethodV, c: UpdCtx) -> (ClassMethodV, Seq<SymbolStore>)
    decreases m,
{
    let t = wk_stmts(m.body, c);
    (ClassMethodV { body: t.0, span_start: m.span_start }, t.1)
}

pub open spec fn wk_methods(s: Seq<ClassMethodV>, c: UpdCtx) -> (
    Seq<ClassMethodV>,
    Seq<SymbolStore>,
)
    decreases s,
{
    if s.len() == 0 {
        (Seq::<ClassMethodV>::empty(), Seq::<SymbolStore>::empty())
    } else {
        let front = wk_methods(s.drop_last(), c);
        let last = wk_method(s.last(), c);
        (front.0.push(last.0), front.1 + last.1)
    }
}

pub open spec fn wk_stmt(st: StmtV, c: UpdCtx) -> (StmtV, Seq<SymbolStore>)
    decreases st,
{
    match st {
        StmtV::VarDecl { declarators, span_start } => {
            let t = wk_declarators(declarators, c);
            (StmtV::VarDecl { declarators: t.0, span_start }, t.1)
        },
        StmtV::FunctionDecl { name, symbol, body, span_start } => {
            let t = wk_stmts(body, c);
            (StmtV::FunctionDecl { name, symbol, body: t.0, span_start }, t.1)
        },
        StmtV::ClassDecl { name, symbol, methods, span_start } => {
            let t = wk_methods(methods, c);
            (StmtV::ClassDecl { name, symbol, methods: t.0, span_start }, t.1)
        },
        StmtV::ExprStmt { expr, span_start } => {
            let t = wk_expr(expr, c);
            (StmtV::ExprStmt { expr: t.0, span_start }, t.1)
        },
        StmtV::Return { argument, span_start } => {
            let t = wk_opt_expr(argument, c);
            (StmtV::Return { argument: t.0, span_start }, t.1)
        },
        other => (other, Seq::<SymbolStore>::empty()),
    }
}

pub open spec fn wk_stmts(s: Seq<StmtV>, c: UpdCtx) -> (Seq<StmtV>, Seq<SymbolStore>)
    decreases s,
{
    if s.len() == 0 {
        (Seq::<StmtV>::empty(), Seq::<SymbolStore>::empty())
    } else {
        let front = wk_stmts(s.drop_last(), c);
        let last = wk_stmt(s.last(), c);
        (front.0.push(last.0), front.1 + last.1)
    }
}



/// The view constructor mirrors the node's constructor.
pub proof fn lemma_expr_v_variant(e: Expr)
    ensures
        (expr_v(e) is StringLit) == (e is StringLit),
        (expr_v(e) is ObjectLit) == (e is ObjectLit),
        (expr_v(e) is ArrayLit) == (e is ArrayLit),
        (expr_v(e) is Logical) == (e is Logical),
        (expr_v(e) is Conditional) == (e is Conditional),
        (expr_v(e) is Binary) == (e is Binary),
        (expr_v(e) is Call) == (e is Call),
        (expr_v(e) is Ident) == (e is Ident),
        (expr_v(e) is TemplateLit) == (e is TemplateLit),
        (expr_v(e) is StaticMember) == (e is StaticMember),
        (expr_v(e) is Assign) == (e is Assign),
        (expr_v(e) is Arrow) == (e is Arrow),
        (expr_v(e) is FunctionExpr) == (e is FunctionExpr),
        (expr_v(e) is Element) == (e is Element),
        (expr_v(e) is Fragment) == (e is Fragment),
        (expr_v(e) is NumberLit) == (e is NumberLit),
        (expr_v(e) is BoolLit) == (e is BoolLit),
        (expr_v(e) is TaggedTemplate) == (e is TaggedTemplate),
        (expr_v(e) is OtherExpr) == (e is OtherExpr),
{
    match e {
        Expr::StringLit { .. } => {},
        Expr::NumberLit { .. } => {},
        Expr::BoolLit { .. } => {},
        Expr::TemplateLit { .. } => {},
        Expr::TaggedTemplate { .. } => {},
        Expr::ArrayLit { .. } => {},
        Expr::ObjectLit { .. } => {},
        Expr::Conditional { .. } => {},
        Expr::Logical { .. } => {},
        Expr::Binary { .. } => {},
        Expr::Call { .. } => {},
        Expr::Ident { .. } => {},
        Expr::StaticMember { .. } => {},
        Expr::Assign { .. } => {},
        Expr::Arrow { .. } => {},
        Expr::FunctionExpr { .. } => {},
        Expr::Element(..) => {},
        Expr::Fragment { .. } => {},
        Expr::OtherExpr { .. } => {},
    }
}

// ----------------------------------------------------------------------
// The replacer itself.
// ----------------------------------------------------------------------

/// Rewrites class names in one declaration's scope: its class-name map,
/// the configured attribute names, the recognized utility symbols, the
/// variable links, and the declaration identity pending references are
/// recorded under.
pub struct ClassNameReplacer {
    pub class_name_map: StrMap,
    pub fn_id: u32,
    pub classname_util_symbols: Vec<u32>,
    pub variable_linking: IdMap,
    pub class_name_list: Vec<String>,
}

impl ClassNameReplacer {
    /// The rewrite context this replacer denotes.
    pub open spec fn ctx(&self) -> UpdCtx {
        UpdCtx {
            m: self.class_name_map@,
            links: self.variable_linking@,
            fuel: self.variable_linking.len_v(),
            utils: self.classname_util_symbols@,
            list: crate::ast::strs_v(self.class_name_list@),
            fnid: self.fn_id,
        }
    }

    /// Rewrites one expression at a class-name-bearing position,
    /// recording pending identifier references.
    #[verifier::rlimit(60)]
    pub fn update_expression(&self, e: &Expr, pending: &mut Vec<SymbolStore>) -> (r: Expr)
        ensures
            ({
                let t = upd_expr(expr_v(*e), self.ctx());
                expr_v(r) == t.0 && final(pending)@ == old(pending)@ + t.1
            }),
        decreases *e, 1int,
    {
        let ghost c = self.ctx();
        let ghost orig = pending@;
        match e {
            Expr::StringLit { value } => {
                let r = Expr::StringLit {
                    value: get_updated_classname(&self.class_name_map, value.as_str()),
                };
                proof {
                    assert(pending@ =~= orig + Seq::<SymbolStore>::empty());
                    assert(expr_v(*e) == ExprV::StringLit { value: value@ });
                    assert(upd_expr(expr_v(*e), c).0 == ExprV::StringLit {
                        value: spec_updated_classname(value@, c.m),
                    });
                    assert(expr_v(r) == ExprV::StringLit {
                        value: spec_updated_classname(value@, c.m),
                    });
                }
                r
            },
            Expr::ObjectLit { props } => {
                let r = Expr::ObjectLit { props: self.update_object_props(props) };
                proof {
                    assert(pending@ =~= orig + Seq::<SymbolStore>::empty());
                }
                r
            },
            Expr::ArrayLit { elements } => Expr::ArrayLit {
                elements: self.update_expressions(elements, pending),
            },
            Expr::Logical { op, left, right } => {
                if *op == LogicalOp::Or || *op == LogicalOp::Coalesce {
                    let l = self.update_expression(left, pending);
                    let r = self.update_expression(right, pending);
                    proof {
                        let tl = upd_expr(expr_v(**left), c);
                        let tr = upd_expr(expr_v(**right), c);
                        assert(pending@ =~= orig + (tl.1 + tr.1));
                    }
                    Expr::Logical { op: *op, left: Box::new(l), right: Box::new(r) }
                } else {
                    let r = self.update_expression(right, pending);
                    Expr::Logical {
                        op: *op,
                        left: Box::new(crate::tree_copy::copy_expr(left)),
                        right: Box::new(r),
                    }
                }
            },
            Expr::Conditional { test, consequent, alternate } => {
                let cq = self.update_expression(consequent, pending);
                let al = self.update_expression(alternate, pending);
                proof {
                    let t1 = upd_expr(expr_v(**consequent), c);
                    let t2 = upd_expr(expr_v(**alternate), c);
                    assert(pending@ =~= orig + (t1.1 + t2.1));
                }
                Expr::Conditional {
                    test: Box::new(crate::tree_copy::copy_expr(test)),
                    consequent: Box::new(cq),
                    alternate: Box::new(al),
                }
            },
            Expr::Binary { op, left, right } => {
                if *op == BinaryOp::Add {
                    let l = self.update_expression(left, pending);
                    let r = self.update_expression(right, pending);
                    proof {
                        let tl = upd_expr(expr_v(**left), c);
                        let tr = upd_expr(expr_v(**right), c);
                        assert(pending@ =~= orig + (tl.1 + tr.1));
                    }
                    Expr::Binary { op: *op, left: Box::new(l), right: Box::new(r) }
                } else {
                    let r = Expr::Binary {
                        op: *op,
                        left: Box::new(crate::tree_copy::copy_expr(left)),
                        right: Box::new(crate::tree_copy::copy_expr(right)),
                    };
                    proof {
                        assert(pending@ =~= orig + Seq::<SymbolStore>::empty());
                    }
                    r
                }
            },
            Expr::Call { .. } => self.update_call_expression(e, pending),
            Expr::Ident { name, symbol } => {
                match symbol {
                    Some(sy) => {
                        let resolved = get_resolved_symbol_id(&self.variable_linking, *sy);
                        pending.push(SymbolStore::new(resolved, self.fn_id));
                        proof {
                            assert(pending@ =~= orig + pending_of(Some(*sy), c));
                        }
                    },
                    None => {
                        proof {
                            assert(pending@ =~= orig + Seq::<SymbolStore>::empty());
                        }
                    },
                }
                Expr::Ident { name: name.clone(), symbol: *symbol }
            },
            Expr::TemplateLit { quasis, exprs } => {
                let q = self.update_quasis(quasis);
                let x = self.update_expressions(exprs, pending);
                Expr::TemplateLit { quasis: q, exprs: x }
            },
            other => {
                let r = crate::tree_copy::copy_expr(other);
                proof {
                    lemma_expr_v_variant(*e);
                    assert(pending@ =~= orig + Seq::<SymbolStore>::empty());
                }
                r
            },
        }
    }

    /// The call-expression rule: the elements of an `[..].join(" ")`
    /// receiver are rewritten, and the arguments of a recognized
    /// class-name utility call are; any other call is left untouched.
    fn update_call_expression(&self, e: &Expr, pending: &mut Vec<SymbolStore>) -> (r: Expr)
        requires
            e is Call,
        ensures
            ({
                let t = upd_expr(expr_v(*e), self.ctx());
                expr_v(r) == t.0 && final(pending)@ == old(pending)@ + t.1
            }),
        decreases *e, 0int,
    {
        let ghost c = self.ctx();
        let ghost orig = pending@;
        let (callee, arguments, span_start): (&Box<Expr>, &Vec<Expr>, u32) = match e {
            Expr::Call { callee, arguments, span_start } => (callee, arguments, *span_start),
            _ => {
                proof {
                    assert(false);
                }
                return Expr::OtherExpr { span_start: 0 };
            },
        };
        proof {
            assert(expr_v(*e) == (ExprV::Call {
                callee: Box::new(expr_v(**callee)),
                arguments: exprs_v(arguments@),
                span_start,
            }));
        }
        match &**callee {
            Expr::StaticMember { object, property } => match &**object {
                Expr::ArrayLit { elements } => {
                    proof {
                        assert(expr_v(**callee) == (ExprV::StaticMember {
                            object: Box::new(expr_v(**object)),
                            property: property@,
                        }));
                        assert(expr_v(**object) == (ExprV::ArrayLit {
                            elements: exprs_v(elements@),
                        }));
                    }
                    let mut is_join_space: bool = false;
                    if str_eq(property.as_str(), "join") && arguments.len() >= 1 {
                        match &arguments[0] {
                            Expr::StringLit { value } => {
                                is_join_space = str_eq(value.as_str(), " ");
                            },
                            _ => {},
                        }
                    }
                    proof {
                        lemma_exprs_v(arguments@);
                        if arguments@.len() >= 1 {
                            lemma_expr_v_variant(arguments@[0]);
                            assert(exprs_v(arguments@)[0] == expr_v(arguments@[0]));
                        }
                        assert(is_join_space == (property@ == "join"@ && exprs_v(
                            arguments@,
                        ).len() >= 1 && is_space_lit(exprs_v(arguments@)[0])));
                    }
                    if is_join_space {
                        let new_elems = self.update_expressions(elements, pending);
                        let arr = Expr::ArrayLit { elements: new_elems };
                        let ghost arr_v = expr_v(arr);
                        let sm = Expr::StaticMember {
                            object: Box::new(arr),
                            property: property.clone(),
                        };
                        let ghost sm_v = expr_v(sm);
                        let r = Expr::Call {
                            callee: Box::new(sm),
                            arguments: crate::tree_copy::copy_exprs(arguments),
                            span_start,
                        };
                        proof {
                            let t = upd_expr(expr_v(*e), c);
                            let te = upd_exprs(exprs_v(elements@), c);
                            assert(arr_v == (ExprV::ArrayLit { elements: te.0 }));
                            assert(sm_v == (ExprV::StaticMember {
                                object: Box::new(arr_v),
                                property: property@,
                            }));
                            assert(expr_v(r) == (ExprV::Call {
                                callee: Box::new(sm_v),
                                arguments: exprs_v(arguments@),
                                span_start,
                            }));
                            assert(expr_v(r) == t.0);
                            assert(pending@ == orig + t.1);
                        }
                        r
                    } else {
                        let r = crate::tree_copy::copy_expr(e);
                        proof {
                            let t = upd_expr(expr_v(*e), c);
                            assert(expr_v(r) == t.0);
                            assert(pending@ =~= orig + Seq::<SymbolStore>::empty());
                        }
                        r
                    }
                },
                _ => {
                    proof {
                        lemma_expr_v_variant(**object);
                        assert(expr_v(**callee) == (ExprV::StaticMember {
                            object: Box::new(expr_v(**object)),
                            property: property@,
                        }));
                    }
                    let r = crate::tree_copy::copy_expr(e);
                    proof {
                        let t = upd_expr(expr_v(*e), c);
                        assert(expr_v(r) == t.0);
                        assert(pending@ =~= orig + Seq::<SymbolStore>::empty());
                    }
                    r
                },
            },
            _ => {
                proof {
                    lemma_expr_v_variant(**callee);
                }
                let mut util: bool = false;
                match &**callee {
                    Expr::Ident { name: _, symbol } => match symbol {
                        Some(sy) => {
                            util = contains_u32(&self.classname_util_symbols, *sy);
                        },
                        None => {},
                    },
                    _ => {},
                }
                proof {
                    assert(util == is_util_call(expr_v(**callee), c.utils));
                }
                if util {
                    let new_args = self.update_expressions(arguments, pending);
                    let cp = crate::tree_copy::copy_expr(callee);
                    let ghost cp_v = expr_v(cp);
                    let r = Expr::Call { callee: Box::new(cp), arguments: new_args, span_start };
                    proof {
                        let t = upd_expr(expr_v(*e), c);
                        assert(cp_v == expr_v(**callee));
                        assert(expr_v(r) == (ExprV::Call {
                            callee: Box::new(cp_v),
                            arguments: exprs_v(new_args@),
                            span_start,
                        }));
                        assert(expr_v(r) == t.0);
                        assert(pending@ == orig + t.1);
                    }
                    r
                } else {
                    let r = crate::tree_copy::copy_expr(e);
                    proof {
                        let t = upd_expr(expr_v(*e), c);
                        assert(expr_v(r) == t.0);
                        assert(pending@ =~= orig + Seq::<SymbolStore>::empty());
                    }
                    r
                }
            },
        }
    }

    /// Rewrites each expression of a sequence in order.
    fn update_expressions(&self, v: &Vec<Expr>, pending: &mut Vec<SymbolStore>) -> (r: Vec<Expr>)
        ensures
            ({
                let t = upd_exprs(exprs_v(v@), self.ctx());
                exprs_v(r@) == t.0 && final(pending)@ == old(pending)@ + t.1
            }),
        decreases *v, 2int,
    {
        let ghost c = self.ctx();
        let ghost orig = pending@;
        let mut out: Vec<Expr> = Vec::new();
        let mut i: usize = 0;
        proof {
            assert(exprs_v(v@.subrange(0, 0)) =~= Seq::<ExprV>::empty());
            assert(exprs_v(out@) =~= Seq::<ExprV>::empty());
            assert(pending@ =~= orig + Seq::<SymbolStore>::empty());
        }
        while i < v.len()
            invariant
                i <= v@.len(),
                c == self.ctx(),
                orig.len() <= pending@.len(),
                exprs_v(out@) == upd_exprs(exprs_v(v@.subrange(0, i as int)), c).0,
                pending@ == orig + upd_exprs(exprs_v(v@.subrange(0, i as int)), c).1,
            decreases v@.len() - i,
        {
            proof {
                assert(decreases_to!(*v => v@));
                assert(decreases_to!(v@ => v@[i as int]));
            }
            let ghost pre_out = out@;
            let x = self.update_expression(&v[i], pending);
            out.push(x);
            i = i + 1;
            proof {
                let sub1 = v@.subrange(0, i as int);
                let sub0 = v@.subrange(0, i as int - 1);
                assert(sub1.drop_last() =~= sub0);
                assert(sub1.last() == v@[i as int - 1]);
                let sv1 = exprs_v(sub1);
                let sv0 = exprs_v(sub0);
                assert(sv1 == sv0.push(expr_v(v@[i as int - 1])));
                assert(sv1.drop_last() =~= sv0);
                assert(sv1.last() == expr_v(v@[i as int - 1]));
                let front = upd_exprs(sv0, c);
                let last = upd_expr(expr_v(v@[i as int - 1]), c);
                assert(upd_exprs(sv1, c) == (front.0.push(last.0), front.1 + last.1));
                assert(out@.drop_last() =~= pre_out);
                assert(exprs_v(out@) =~= exprs_v(pre_out).push(expr_v(out@.last())));
                assert(exprs_v(out@) == upd_exprs(sv1, c).0);
                assert(pending@ =~= orig + (front.1 + last.1));
            }
        }
        proof {
            assert(v@.subrange(0, v@.len() as int) =~= v@);
        }
        out
    }

    /// Rewrites the string keys of an object literal; values and other
    /// key kinds are untouched.
    fn update_object_props(&self, props: &Vec<ObjectProp>) -> (r: Vec<ObjectProp>)
        ensures
            props_v(r@) == upd_props(props_v(props@), self.ctx().m),
        decreases *props,
    {
        let ghost m = self.ctx().m;
        let mut out: Vec<ObjectProp> = Vec::new();
        let mut i: usize = 0;
        proof {
            lemma_props_v(props@);
            assert(props_v(out@) =~= upd_props(props_v(props@), m).subrange(0, 0));
        }
        while i < props.len()
            invariant
                i <= props@.len(),
                m == self.ctx().m,
                props_v(props@).len() == props@.len(),
                forall|k: int| 0 <= k < props@.len() ==> props_v(props@)[k] == prop_v(
                    #[trigger] props@[k],
                ),
                props_v(out@) == upd_props(props_v(props@), m).subrange(0, i as int),
            decreases props@.len() - i,
        {
            proof {
                assert(decreases_to!(*props => props@));
                assert(decreases_to!(props@ => props@[i as int]));
            }
            let p = &props[i];
            let ghost pre_out = out@;
            let key = match &p.key {
                PropKey::StringKey(sk) => PropKey::StringKey(
                    get_updated_classname(&self.class_name_map, sk.as_str()),
                ),
                PropKey::IdentKey(ik) => PropKey::IdentKey(ik.clone()),
                PropKey::OtherKey => PropKey::OtherKey,
            };
            out.push(ObjectProp { key, value: crate::tree_copy::copy_expr(&p.value) });
            i = i + 1;
            proof {
                let goal = upd_props(props_v(props@), m);
                assert(prop_key_v(out@.last().key) == upd_key(prop_v(props@[i as int - 1]).key, m));
                assert(prop_v(out@.last()) == goal[i as int - 1]);
                assert(out@.drop_last() =~= pre_out);
                assert(props_v(out@) =~= props_v(pre_out).push(prop_v(out@.last())));
                assert(props_v(out@) =~= goal.subrange(0, i as int));
            }
        }
        proof {
            assert(upd_props(props_v(props@), m).subrange(
                0,
                props@.len() as int,
            ) =~= upd_props(props_v(props@), m));
        }
        out
    }

    /// Rewrites each static chunk of a template literal.
    fn update_quasis(&self, qs: &Vec<String>) -> (r: Vec<String>)
        ensures
            strs_v(r@) == upd_quasis(strs_v(qs@), self.ctx().m),
    {
        let ghost m = self.ctx().m;
        let mut out: Vec<String> = Vec::new();
        let mut i: usize = 0;
        proof {
            assert(strs_v(out@) =~= upd_quasis(strs_v(qs@), m).subrange(0, 0));
        }
        while i < qs.len()
            invariant
                i <= qs@.len(),
                m == self.ctx().m,
                strs_v(out@) == upd_quasis(strs_v(qs@), m).subrange(0, i as int),
            decreases qs@.len() - i,
        {
            let ghost pre_out = out@;
            out.push(get_updated_classname(&self.class_name_map, qs[i].as_str()));
            i = i + 1;
            proof {
                let goal = upd_quasis(strs_v(qs@), m);
                assert(strs_v(qs@)[i as int - 1] == qs@[i as int - 1]@);
                assert(out@.last()@ == goal[i as int - 1]);
                assert(out@.drop_last() =~= pre_out);
                assert(strs_v(out@) =~= strs_v(pre_out).push(out@.last()@));
                assert(strs_v(out@) =~= goal.subrange(0, i as int));
            }
        }
        proof {
            assert(upd_quasis(strs_v(qs@), m).subrange(0, qs@.len() as int) =~= upd_quasis(
                strs_v(qs@),
                m,
            ));
        }
        out
    }
}


impl ClassNameReplacer {
    /// Walks one function body: class-name attributes and utility-call
    /// arguments are rewritten; everything else is traversed.
    pub fn visit_function_body(&self, body: &Vec<Stmt>, pending: &mut Vec<SymbolStore>) -> (r:
        Vec<Stmt>)
        ensures
            ({
                let t = wk_stmts(stmts_v(body@), self.ctx());
                stmts_v(r@) == t.0 && final(pending)@ == old(pending)@ + t.1
            }),
    {
        self.walk_stmts(body, pending)
    }

    fn walk_stmt(&self, st: &Stmt, pending: &mut Vec<SymbolStore>) -> (r: Stmt)
        ensures
            ({
                let t = wk_stmt(stmt_v(*st), self.ctx());
                stmt_v(r) == t.0 && final(pending)@ == old(pending)@ + t.1
            }),
        decreases *st,
    {
        let ghost c = self.ctx();
        let ghost orig = pending@;
        match st {
            Stmt::VarDecl { declarators, span_start } => Stmt::VarDecl {
                declarators: self.walk_declarators(declarators, pending),
                span_start: *span_start,
            },
            Stmt::FunctionDecl { name, symbol, body, span_start } => Stmt::FunctionDecl {
                name: name.clone(),
                symbol: *symbol,
                body: self.walk_stmts(body, pending),
                span_start: *span_start,
            },
            Stmt::ClassDecl { name, symbol, methods, span_start } => Stmt::ClassDecl {
                name: name.clone(),
                symbol: *symbol,
                methods: self.walk_methods(methods, pending),
                span_start: *span_start,
            },
            Stmt::ExprStmt { expr, span_start } => Stmt::ExprStmt {
                expr: self.walk_expr(expr, pending),
                span_start: *span_start,
            },
            Stmt::Return { argument, span_start } => Stmt::Return {
                argument: self.walk_opt_expr(argument, pending),
                span_start: *span_start,
            },
            other => {
                let r = crate::tree_copy::copy_stmt(other);
                proof {
                    lemma_stmt_v_variant(*st);
                    assert(pending@ =~= orig + Seq::<SymbolStore>::empty());
                }
                r
            },
        }
    }

    fn walk_opt_expr(&self, o: &Option<Expr>, pending: &mut Vec<SymbolStore>) -> (r: Option<Expr>)
        ensures
            ({
                let t = wk_opt_expr(opt_expr_v(*o), self.ctx());
                opt_expr_v(r) == t.0 && final(pending)@ == old(pending)@ + t.1
            }),
        decreases *o,
    {
        let ghost orig = pending@;
        match o {
            Some(e) => Some(self.walk_expr(e, pending)),
            None => {
                proof {
                    assert(pending@ =~= orig + Seq::<SymbolStore>::empty());
                }
                None
            },
        }
    }

    fn walk_declarator(&self, d: &VarDeclarator, pending: &mut Vec<SymbolStore>) -> (r:
        VarDeclarator)
        ensures
            ({
                let t = wk_declarator(declarator_v(*d), self.ctx());
                declarator_v(r) == t.0 && final(pending)@ == old(pending)@ + t.1
            }),
        decreases *d,
    {
        VarDeclarator {
            name: d.name.clone(),
            symbol: d.symbol,
            init: self.walk_opt_expr(&d.init, pending),
            span_start: d.span_start,
        }
    }

    fn walk_method(&self, m: &ClassMethod, pending: &mut Vec<SymbolStore>) -> (r: ClassMethod)
        ensures
            ({
                let t = wk_method(method_v(*m), self.ctx());
                method_v(r) == t.0 && final(pending)@ == old(pending)@ + t.1
            }),
        decreases *m,
    {
        ClassMethod { body: self.walk_stmts(&m.body, pending), span_start: m.span_start }
    }

    fn walk_prop(&self, p: &ObjectProp, pending: &mut Vec<SymbolStore>) -> (r: ObjectProp)
        ensures
            ({
                let t = wk_prop(prop_v(*p), self.ctx());
                prop_v(r) == t.0 && final(pending)@ == old(pending)@ + t.1
            }),
        decreases *p,
    {
        let key = match &p.key {
            PropKey::StringKey(sk) => PropKey::StringKey(sk.clone()),
            PropKey::IdentKey(ik) => PropKey::IdentKey(ik.clone()),
            PropKey::OtherKey => PropKey::OtherKey,
        };
        ObjectProp { key, value: self.walk_expr(&p.value, pending) }
    }

    fn walk_child(&self, ch: &JSXChild, pending: &mut Vec<SymbolStore>) -> (r: JSXChild)
        ensures
            ({
                let t = wk_child(child_v(*ch), self.ctx());
                child_v(r) == t.0 && final(pending)@ == old(pending)@ + t.1
            }),
        decreases *ch,
    {
        let ghost orig = pending@;
        match ch {
            JSXChild::Element(el) => JSXChild::Element(
                Box::new(self.walk_jsx_element(el, pending)),
            ),
            JSXChild::Container(e) => JSXChild::Container(self.walk_expr(e, pending)),
            other => {
                let r = crate::tree_copy::copy_child(other);
                proof {
                    lemma_child_v_variant(*ch);
                    assert(pending@ =~= orig + Seq::<SymbolStore>::empty());
                }
                r
            },
        }
    }

    fn walk_jsx_element(&self, el: &JSXElement, pending: &mut Vec<SymbolStore>) -> (r: JSXElement)
        ensures
            ({
                let t = wk_jsx_element(jsx_element_v(*el), self.ctx());
                jsx_element_v(r) == t.0 && final(pending)@ == old(pending)@ + t.1
            }),
        decreases *el,
    {
        let ghost c = self.ctx();
        let ghost orig = pending@;
        let attributes = self.walk_attrs(&el.attributes, pending);
        let children = self.walk_children(&el.children, pending);
        let r = JSXElement {
            name: el.name.clone(),
            name_symbol: el.name_symbol,
            attributes,
            children,
            span_start: el.span_start,
        };
        proof {
            let ta = wk_attrs(attrs_v(el.attributes@), c);
            let tc = wk_children(children_v(el.children@), c);
            assert(pending@ =~= orig + (ta.1 + tc.1));
        }
        r
    }

    fn walk_attr(&self, a: &JSXAttrItem, pending: &mut Vec<SymbolStore>) -> (r: JSXAttrItem)
        ensures
            ({
                let t = wk_attr(attr_item_v(*a), self.ctx());
                attr_item_v(r) == t.0 && final(pending)@ == old(pending)@ + t.1
            }),
        decreases *a,
    {
        let ghost orig = pending@;
        match a {
            JSXAttrItem::Attr { name, value } => {
                let hooked = is_classname_in_list(&self.class_name_list, name.as_str());
                let new_value = self.walk_attr_value(value, hooked, pending);
                JSXAttrItem::Attr { name: name.clone(), value: new_value }
            },
            JSXAttrItem::Spread => {
                proof {
                    assert(pending@ =~= orig + Seq::<SymbolStore>::empty());
                }
                JSXAttrItem::Spread
            },
        }
    }

    fn walk_attr_value(
        &self,
        v: &Option<JSXAttrValue>,
        hooked: bool,
        pending: &mut Vec<SymbolStore>,
    ) -> (r: Option<JSXAttrValue>)
        ensures
            ({
                let t = wk_attr_value(
                    match *v {
                        Some(x) => Some(attr_value_v(x)),
                        None => None,
                    },
                    hooked,
                    self.ctx(),
                );
                (match r {
                    Some(x) => Some(attr_value_v(x)),
                    None => None::<JSXAttrValueV>,
                }) == t.0 && final(pending)@ == old(pending)@ + t.1
            }),
        decreases *v,
    {
        let ghost orig = pending@;
        match v {
            Some(JSXAttrValue::StringValue(sv)) => {
                let r = if hooked {
                    Some(
                        JSXAttrValue::StringValue(
                            get_updated_classname(&self.class_name_map, sv.as_str()),
                        ),
                    )
                } else {
                    Some(JSXAttrValue::StringValue(sv.clone()))
                };
                proof {
                    assert(pending@ =~= orig + Seq::<SymbolStore>::empty());
                }
                r
            },
            Some(JSXAttrValue::Container(e)) => {
                if hooked {
                    Some(JSXAttrValue::Container(self.update_expression(e, pending)))
                } else {
                    Some(JSXAttrValue::Container(self.walk_expr(e, pending)))
                }
            },
            Some(other) => {
                let r = Some(crate::tree_copy::copy_attr_value(other));
                proof {
                    lemma_attr_value_v_variant(*other);
                    assert(pending@ =~= orig + Seq::<SymbolStore>::empty());
                }
                r
            },
            None => {
                proof {
                    assert(pending@ =~= orig + Seq::<SymbolStore>::empty());
                }
                None
            },
        }
    }

    fn walk_expr(&self, e: &Expr, pending: &mut Vec<SymbolStore>) -> (r: Expr)
        ensures
            ({
                let t = wk_expr(expr_v(*e), self.ctx());
                expr_v(r) == t.0 && final(pending)@ == old(pending)@ + t.1
            }),
        decreases *e,
    {
        let ghost c = self.ctx();
        let ghost orig = pending@;
        match e {
            Expr::TemplateLit { quasis, exprs } => Expr::TemplateLit {
                quasis: crate::tree_copy::copy_strings(quasis),
                exprs: self.walk_exprs(exprs, pending),
            },
            Expr::ArrayLit { elements } => Expr::ArrayLit {
                elements: self.walk_exprs(elements, pending),
            },
            Expr::ObjectLit { props } => Expr::ObjectLit {
                props: self.walk_object_props(props, pending),
            },
            Expr::Conditional { test, consequent, alternate } => {
                let t1 = self.walk_expr(test, pending);
                let t2 = self.walk_expr(consequent, pending);
                let t3 = self.walk_expr(alternate, pending);
                proof {
                    let wt = wk_expr(expr_v(**test), c);
                    let wc = wk_expr(expr_v(**consequent), c);
                    let wa = wk_expr(expr_v(**alternate), c);
                    assert(pending@ =~= orig + (wt.1 + wc.1 + wa.1));
                }
                Expr::Conditional {
                    test: Box::new(t1),
                    consequent: Box::new(t2),
                    alternate: Box::new(t3),
                }
            },
            Expr::Logical { op, left, right } => {
                let l = self.walk_expr(left, pending);
                let r = self.walk_expr(right, pending);
                proof {
                    let wl = wk_expr(expr_v(**left), c);
                    let wr = wk_expr(expr_v(**right), c);
                    assert(pending@ =~= orig + (wl.1 + wr.1));
                }
                Expr::Logical { op: *op, left: Box::new(l), right: Box::new(r) }
            },
            Expr::Binary { op, left, right } => {
                let l = self.walk_expr(left, pending);
                let r = self.walk_expr(right, pending);
                proof {
                    let wl = wk_expr(expr_v(**left), c);
                    let wr = wk_expr(expr_v(**right), c);
                    assert(pending@ =~= orig + (wl.1 + wr.1));
                }
                Expr::Binary { op: *op, left: Box::new(l), right: Box::new(r) }
            },
            Expr::Call { callee, arguments, span_start } => {
                let mut util: bool = false;
                match &**callee {
                    Expr::Ident { name, symbol } => {
                        match symbol {
                            Some(sy) => {
                                util = contains_u32(&self.classname_util_symbols, *sy);
                            },
                            None => {},
                        }
                    },
                    _ => {},
                }
                proof {
                    lemma_expr_v_variant(**callee);
                    assert(util == is_util_call(expr_v(**callee), c.utils));
                }
                if util {
                    let new_args = self.update_expressions(arguments, pending);
                    let cp = crate::tree_copy::copy_expr(callee);
                    let ghost cp_v = expr_v(cp);
                    let r = Expr::Call {
                        callee: Box::new(cp),
                        arguments: new_args,
                        span_start: *span_start,
                    };
                    proof {
                        assert(expr_v(r) == (ExprV::Call {
                            callee: Box::new(cp_v),
                            arguments: exprs_v(new_args@),
                            span_start: *span_start,
                        }));
                    }
                    r
                } else {
                    let new_callee = self.walk_expr(callee, pending);
                    let new_args = self.walk_exprs(arguments, pending);
                    let ghost nc_v = expr_v(new_callee);
                    let r = Expr::Call {
                        callee: Box::new(new_callee),
                        arguments: new_args,
                        span_start: *span_start,
                    };
                    proof {
                        let wc = wk_expr(expr_v(**callee), c);
                        let wa = wk_exprs(exprs_v(arguments@), c);
                        assert(expr_v(r) == (ExprV::Call {
                            callee: Box::new(nc_v),
                            arguments: exprs_v(new_args@),
                            span_start: *span_start,
                        }));
                        assert(pending@ =~= orig + (wc.1 + wa.1));
                    }
                    r
                }
            },
            Expr::StaticMember { object, property } => {
                let o = self.walk_expr(object, pending);
                Expr::StaticMember { object: Box::new(o), property: property.clone() }
            },
            Expr::Assign { object_name, object_symbol, property, value, span_start } => {
                let nv = self.walk_expr(value, pending);
                Expr::Assign {
                    object_name: object_name.clone(),
                    object_symbol: *object_symbol,
                    property: property.clone(),
                    value: Box::new(nv),
                    span_start: *span_start,
                }
            },
            Expr::Arrow { body, span_start } => Expr::Arrow {
                body: self.walk_stmts(body, pending),
                span_start: *span_start,
            },
            Expr::FunctionExpr { body, span_start } => Expr::FunctionExpr {
                body: self.walk_stmts(body, pending),
                span_start: *span_start,
            },
            Expr::Element(el) => Expr::Element(Box::new(self.walk_jsx_element(el, pending))),
            Expr::Fragment { children, span_start } => Expr::Fragment {
                children: self.walk_children(children, pending),
                span_start: *span_start,
            },
            other => {
                let r = crate::tree_copy::copy_expr(other);
                proof {
                    lemma_expr_v_variant(*e);
                    assert(pending@ =~= orig + Seq::<SymbolStore>::empty());
                }
                r
            },
        }
    }

    fn walk_exprs(&self, v: &Vec<Expr>, pending: &mut Vec<SymbolStore>) -> (r: Vec<Expr>)
        ensures
            ({
                let t = wk_exprs(exprs_v(v@), self.ctx());
                exprs_v(r@) == t.0 && final(pending)@ == old(pending)@ + t.1
            }),
        decreases *v,
    {
        let ghost c = self.ctx();
        let ghost orig = pending@;
        let mut out: Vec<Expr> = Vec::new();
        let mut i: usize = 0;
        proof {
            assert(exprs_v(v@.subrange(0, 0)) =~= Seq::<ExprV>::empty());
            assert(exprs_v(out@) =~= Seq::<ExprV>::empty());
            assert(pending@ =~= orig + Seq::<SymbolStore>::empty());
        }
        while i < v.len()
            invariant
                i <= v@.len(),
                c == self.ctx(),
                exprs_v(out@) == wk_exprs(exprs_v(v@.subrange(0, i as int)), c).0,
                pending@ == orig + wk_exprs(exprs_v(v@.subrange(0, i as int)), c).1,
            decreases v@.len() - i,
        {
            proof {
                assert(decreases_to!(*v => v@));
                assert(decreases_to!(v@ => v@[i as int]));
            }
            let ghost pre_out = out@;
            let x = self.walk_expr(&v[i], pending);
            out.push(x);
            i = i + 1;
            proof {
                let sub1 = v@.subrange(0, i as int);
                let sub0 = v@.subrange(0, i as int - 1);
                assert(sub1.drop_last() =~= sub0);
                assert(sub1.last() == v@[i as int - 1]);
                let sv1 = exprs_v(sub1);
                let sv0 = exprs_v(sub0);
                assert(sv1 == sv0.push(expr_v(v@[i as int - 1])));
                assert(sv1.drop_last() =~= sv0);
                assert(sv1.last() == expr_v(v@[i as int - 1]));
                let front = wk_exprs(sv0, c);
                let last = wk_expr(expr_v(v@[i as int - 1]), c);
                assert(wk_exprs(sv1, c) == (front.0.push(last.0), front.1 + last.1));
                assert(out@.drop_last() =~= pre_out);
                assert(exprs_v(out@) =~= exprs_v(pre_out).push(expr_v(out@.last())));
                assert(exprs_v(out@) == wk_exprs(sv1, c).0);
                assert(pending@ =~= orig + (front.1 + last.1));
            }
        }
        proof {
            assert(v@.subrange(0, v@.len() as int) =~= v@);
        }
        out
    }

    fn walk_stmts(&self, v: &Vec<Stmt>, pending: &mut Vec<SymbolStore>) -> (r: Vec<Stmt>)
        ensures
            ({
                let t = wk_stmts(stmts_v(v@), self.ctx());
                stmts_v(r@) == t.0 && final(pending)@ == old(pending)@ + t.1
            }),
        decreases *v,
    {
        let ghost c = self.ctx();
        let ghost orig = pending@;
        let mut out: Vec<Stmt> = Vec::new();
        let mut i: usize = 0;
        proof {
            assert(stmts_v(v@.subrange(0, 0)) =~= Seq::<StmtV>::empty());
            assert(stmts_v(out@) =~= Seq::<StmtV>::empty());
            assert(pending@ =~= orig + Seq::<SymbolStore>::empty());
        }
        while i < v.len()
            invariant
                i <= v@.len(),
                c == self.ctx(),
                stmts_v(out@) == wk_stmts(stmts_v(v@.subrange(0, i as int)), c).0,
                pending@ == orig + wk_stmts(stmts_v(v@.subrange(0, i as int)), c).1,
            decreases v@.len() - i,
        {
            proof {
                assert(decreases_to!(*v => v@));
                assert(decreases_to!(v@ => v@[i as int]));
            }
            let ghost pre_out = out@;
            let x = self.walk_stmt(&v[i], pending);
            out.push(x);
            i = i + 1;
            proof {
                let sub1 = v@.subrange(0, i as int);
                let sub0 = v@.subrange(0, i as int - 1);
                assert(sub1.drop_last() =~= sub0);
                assert(sub1.last() == v@[i as int - 1]);
                let sv1 = stmts_v(sub1);
                let sv0 = stmts_v(sub0);
                assert(sv1 == sv0.push(stmt_v(v@[i as int - 1])));
                assert(sv1.drop_last() =~= sv0);
                assert(sv1.last() == stmt_v(v@[i as int - 1]));
                let front = wk_stmts(sv0, c);
                let last = wk_stmt(stmt_v(v@[i as int - 1]), c);
                assert(wk_stmts(sv1, c) == (front.0.push(last.0), front.1 + last.1));
                assert(out@.drop_last() =~= pre_out);
                assert(stmts_v(out@) =~= stmts_v(pre_out).push(stmt_v(out@.last())));
                assert(stmts_v(out@) == wk_stmts(sv1, c).0);
                assert(pending@ =~= orig + (front.1 + last.1));
            }
        }
        proof {
            assert(v@.subrange(0, v@.len() as int) =~= v@);
        }
        out
    }

    fn walk_object_props(&self, v: &Vec<ObjectProp>, pending: &mut Vec<SymbolStore>) -> (r: Vec<ObjectProp>)
        ensures
            ({
                let t = wk_props(props_v(v@), self.ctx());
                props_v(r@) == t.0 && final(pending)@ == old(pending)@ + t.1
            }),
        decreases *v,
    {
        let ghost c = self.ctx();
        let ghost orig = pending@;
        let mut out: Vec<ObjectProp> = Vec::new();
        let mut i: usize = 0;
        proof {
            assert(props_v(v@.subrange(0, 0)) =~= Seq::<ObjectPropV>::empty());
            assert(props_v(out@) =~= Seq::<ObjectPropV>::empty());
            assert(pending@ =~= orig + Seq::<SymbolStore>::empty());
        }
        while i < v.len()
            invariant
                i <= v@.len(),
                c == self.ctx(),
                props_v(out@) == wk_props(props_v(v@.subrange(0, i as int)), c).0,
                pending@ == orig + wk_props(props_v(v@.subrange(0, i as int)), c).1,
            decreases v@.len() - i,
        {
            proof {
                assert(decreases_to!(*v => v@));
                assert(decreases_to!(v@ => v@[i as int]));
            }
            let ghost pre_out = out@;
            let x = self.walk_prop(&v[i], pending);
            out.push(x);
            i = i + 1;
            proof {
                let sub1 = v@.subrange(0, i as int);
                let sub0 = v@.subrange(0, i as int - 1);
                assert(sub1.drop_last() =~= sub0);
                assert(sub1.last() == v@[i as int - 1]);
                let sv1 = props_v(sub1);
                let sv0 = props_v(sub0);
                assert(sv1 == sv0.push(prop_v(v@[i as int - 1])));
                assert(sv1.drop_last() =~= sv0);
                assert(sv1.last() == prop_v(v@[i as int - 1]));
                let front = wk_props(sv0, c);
                let last = wk_prop(prop_v(v@[i as int - 1]), c);
                assert(wk_props(sv1, c) == (front.0.push(last.0), front.1 + last.1));
                assert(out@.drop_last() =~= pre_out);
                assert(props_v(out@) =~= props_v(pre_out).push(prop_v(out@.last())));
                assert(props_v(out@) == wk_props(sv1, c).0);
                assert(pending@ =~= orig + (front.1 + last.1));
            }
        }
        proof {
            assert(v@.subrange(0, v@.len() as int) =~= v@);
        }
        out
    }

    fn walk_children(&self, v: &Vec<JSXChild>, pending: &mut Vec<SymbolStore>) -> (r: Vec<JSXChild>)
        ensures
            ({
                let t = wk_children(children_v(v@), self.ctx());
                children_v(r@) == t.0 && final(pending)@ == old(pending)@ + t.1
            }),
        decreases *v,
    {
        let ghost c = self.ctx();
        let ghost orig = pending@;
        let mut out: Vec<JSXChild> = Vec::new();
        let mut i: usize = 0;
        proof {
            assert(children_v(v@.subrange(0, 0)) =~= Seq::<JSXChildV>::empty());
            assert(children_v(out@) =~= Seq::<JSXChildV>::empty());
            assert(pending@ =~= orig + Seq::<SymbolStore>::empty());
        }
        while i < v.len()
            invariant
                i <= v@.len(),
                c == self.ctx(),
                children_v(out@) == wk_children(children_v(v@.subrange(0, i as int)), c).0,
                pending@ == orig + wk_children(children_v(v@.subrange(0, i as int)), c).1,
            decreases v@.len() - i,
        {
            proof {
                assert(decreases_to!(*v => v@));
                assert(decreases_to!(v@ => v@[i as int]));
            }
            let ghost pre_out = out@;
            let x = self.walk_child(&v[i], pending);
            out.push(x);
            i = i + 1;
            proof {
                let sub1 = v@.subrange(0, i as int);
                let sub0 = v@.subrange(0, i as int - 1);
                assert(sub1.drop_last() =~= sub0);
                assert(sub1.last() == v@[i as int - 1]);
                let sv1 = children_v(sub1);
                let sv0 = children_v(sub0);
                assert(sv1 == sv0.push(child_v(v@[i as int - 1])));
                assert(sv1.drop_last() =~= sv0);
                assert(sv1.last() == child_v(v@[i as int - 1]));
                let front = wk_children(sv0, c);
                let last = wk_child(child_v(v@[i as int - 1]), c);
                assert(wk_children(sv1, c) == (front.0.push(last.0), front.1 + last.1));
                assert(out@.drop_last() =~= pre_out);
                assert(children_v(out@) =~= children_v(pre_out).push(child_v(out@.last())));
                assert(children_v(out@) == wk_children(sv1, c).0);
                assert(pending@ =~= orig + (front.1 + last.1));
            }
        }
        proof {
            assert(v@.subrange(0, v@.len() as int) =~= v@);
        }
        out
    }

    fn walk_attrs(&self, v: &Vec<JSXAttrItem>, pending: &mut Vec<SymbolStore>) -> (r: Vec<JSXAttrItem>)
        ensures
            ({
                let t = wk_attrs(attrs_v(v@), self.ctx());
                attrs_v(r@) == t.0 && final(pending)@ == old(pending)@ + t.1
            }),
        decreases *v,
    {
        let ghost c = self.ctx();
        let ghost orig = pending@;
        let mut out: Vec<JSXAttrItem> = Vec::new();
        let mut i: usize = 0;
        proof {
            assert(attrs_v(v@.subrange(0, 0)) =~= Seq::<JSXAttrItemV>::empty());
            assert(attrs_v(out@) =~= Seq::<JSXAttrItemV>::empty());
            assert(pending@ =~= orig + Seq::<SymbolStore>::empty());
        }
        while i < v.len()
            invariant
                i <= v@.len(),
                c == self.ctx(),
                attrs_v(out@) == wk_attrs(attrs_v(v@.subrange(0, i as int)), c).0,
                pending@ == orig + wk_attrs(attrs_v(v@.subrange(0, i as int)), c).1,
            decreases v@.len() - i,
        {
            proof {
                assert(decreases_to!(*v => v@));
                assert(decreases_to!(v@ => v@[i as int]));
            }
            let ghost pre_out = out@;
            let x = self.walk_attr(&v[i], pending);
            out.push(x);
            i = i + 1;
            proof {
                let sub1 = v@.subrange(0, i as int);
                let sub0 = v@.subrange(0, i as int - 1);
                assert(sub1.drop_last() =~= sub0);
                assert(sub1.last() == v@[i as int - 1]);
                let sv1 = attrs_v(sub1);
                let sv0 = attrs_v(sub0);
                assert(sv1 == sv0.push(attr_item_v(v@[i as int - 1])));
                assert(sv1.drop_last() =~= sv0);
                assert(sv1.last() == attr_item_v(v@[i as int - 1]));
                let front = wk_attrs(sv0, c);
                let last = wk_attr(attr_item_v(v@[i as int - 1]), c);
                assert(wk_attrs(sv1, c) == (front.0.push(last.0), front.1 + last.1));
                assert(out@.drop_last() =~= pre_out);
                assert(attrs_v(out@) =~= attrs_v(pre_out).push(attr_item_v(out@.last())));
                assert(attrs_v(out@) == wk_attrs(sv1, c).0);
                assert(pending@ =~= orig + (front.1 + last.1));
            }
        }
        proof {
            assert(v@.subrange(0, v@.len() as int) =~= v@);
        }
        out
    }

    fn walk_declarators(&self, v: &Vec<VarDeclarator>, pending: &mut Vec<SymbolStore>) -> (r: Vec<VarDeclarator>)
        ensures
            ({
                let t = wk_declarators(declarators_v(v@), self.ctx());
                declarators_v(r@) == t.0 && final(pending)@ == old(pending)@ + t.1
            }),
        decreases *v,
    {
        let ghost c = self.ctx();
        let ghost orig = pending@;
        let mut out: Vec<VarDeclarator> = Vec::new();
        let mut i: usize = 0;
        proof {
            assert(declarators_v(v@.subrange(0, 0)) =~= Seq::<VarDeclaratorV>::empty());
            assert(declarators_v(out@) =~= Seq::<VarDeclaratorV>::empty());
            assert(pending@ =~= orig + Seq::<SymbolStore>::empty());
        }
        while i < v.len()
            invariant
                i <= v@.len(),
                c == self.ctx(),
                declarators_v(out@) == wk_declarators(declarators_v(v@.subrange(0, i as int)), c).0,
                pending@ == orig + wk_declarators(declarators_v(v@.subrange(0, i as int)), c).1,
            decreases v@.len() - i,
        {
            proof {
                assert(decreases_to!(*v => v@));
                assert(decreases_to!(v@ => v@[i as int]));
            }
            let ghost pre_out = out@;
            let x = self.walk_declarator(&v[i], pending);
            out.push(x);
            i = i + 1;
            proof {
                let sub1 = v@.subrange(0, i as int);
                let sub0 = v@.subrange(0, i as int - 1);
                assert(sub1.drop_last() =~= sub0);
                assert(sub1.last() == v@[i as int - 1]);
                let sv1 = declarators_v(sub1);
                let sv0 = declarators_v(sub0);
                assert(sv1 == sv0.push(declarator_v(v@[i as int - 1])));
                assert(sv1.drop_last() =~= sv0);
                assert(sv1.last() == declarator_v(v@[i as int - 1]));
                let front = wk_declarators(sv0, c);
                let last = wk_declarator(declarator_v(v@[i as int - 1]), c);
                assert(wk_declarators(sv1, c) == (front.0.push(last.0), front.1 + last.1));
                assert(out@.drop_last() =~= pre_out);
                assert(declarators_v(out@) =~= declarators_v(pre_out).push(declarator_v(out@.last())));
                assert(declarators_v(out@) == wk_declarators(sv1, c).0);
                assert(pending@ =~= orig + (front.1 + last.1));
            }
        }
        proof {
            assert(v@.subrange(0, v@.len() as int) =~= v@);
        }
        out
    }

    fn walk_methods(&self, v: &Vec<ClassMethod>, pending: &mut Vec<SymbolStore>) -> (r: Vec<ClassMethod>)
        ensures
            ({
                let t = wk_methods(methods_v(v@), self.ctx());
                methods_v(r@) == t.0 && final(pending)@ == old(pending)@ + t.1
            }),
        decreases *v,
    {
        let ghost c = self.ctx();
        let ghost orig = pending@;
        let mut out: Vec<ClassMethod> = Vec::new();
        let mut i: usize = 0;
        proof {
            assert(methods_v(v@.subrange(0, 0)) =~= Seq::<ClassMethodV>::empty());
            assert(methods_v(out@) =~= Seq::<ClassMethodV>::empty());
            assert(pending@ =~= orig + Seq::<SymbolStore>::empty());
        }
        while i < v.len()
            invariant
                i <= v@.len(),
                c == self.ctx(),
                methods_v(out@) == wk_methods(methods_v(v@.subrange(0, i as int)), c).0,
                pending@ == orig + wk_methods(methods_v(v@.subrange(0, i as int)), c).1,
            decreases v@.len() - i,
        {
            proof {
                assert(decreases_to!(*v => v@));
                assert(decreases_to!(v@ => v@[i as int]));
            }
            let ghost pre_out = out@;
            let x = self.walk_method(&v[i], pending);
            out.push(x);
            i = i + 1;
            proof {
                let sub1 = v@.subrange(0, i as int);
                let sub0 = v@.subrange(0, i as int - 1);
                assert(sub1.drop_last() =~= sub0);
                assert(sub1.last() == v@[i as int - 1]);
                let sv1 = methods_v(sub1);
                let sv0 = methods_v(sub0);
                assert(sv1 == sv0.push(method_v(v@[i as int - 1])));
                assert(sv1.drop_last() =~= sv0);
                assert(sv1.last() == method_v(v@[i as int - 1]));
                let front = wk_methods(sv0, c);
                let last = wk_method(method_v(v@[i as int - 1]), c);
                assert(wk_methods(sv1, c) == (front.0.push(last.0), front.1 + last.1));
                assert(out@.drop_last() =~= pre_out);
                assert(methods_v(out@) =~= methods_v(pre_out).push(method_v(out@.last())));
                assert(methods_v(out@) == wk_methods(sv1, c).0);
                assert(pending@ =~= orig + (front.1 + last.1));
            }
        }
        proof {
            assert(v@.subrange(0, v@.len() as int) =~= v@);
        }
        out
    }

}

/// The statement view's constructor mirrors the node's constructor.
pub proof fn lemma_stmt_v_variant(st: Stmt)
    ensures
        (stmt_v(st) is VarDecl) == (st is VarDecl),
        (stmt_v(st) is FunctionDecl) == (st is FunctionDecl),
        (stmt_v(st) is ClassDecl) == (st is ClassDecl),
        (stmt_v(st) is ExprStmt) == (st is ExprStmt),
        (stmt_v(st) is Return) == (st is Return),
        (stmt_v(st) is ImportDecl) == (st is ImportDecl),
        (stmt_v(st) is OtherStmt) == (st is OtherStmt),
{
    match st {
        Stmt::VarDecl { .. } => {},
        Stmt::FunctionDecl { .. } => {},
        Stmt::ClassDecl { .. } => {},
        Stmt::ExprStmt { .. } => {},
        Stmt::Return { .. } => {},
        Stmt::ImportDecl { .. } => {},
        Stmt::OtherStmt { .. } => {},
    }
}

/// The child view's constructor mirrors the node's constructor.
pub proof fn lemma_child_v_variant(ch: JSXChild)
    ensures
        (child_v(ch) is Text) == (ch is Text),
        (child_v(ch) is Element) == (ch is Element),
        (child_v(ch) is Container) == (ch is Container),
        (child_v(ch) is EmptyContainer) == (ch is EmptyContainer),
        (child_v(ch) is OtherChild) == (ch is OtherChild),
{
    match ch {
        JSXChild::Text(..) => {},
        JSXChild::Element(..) => {},
        JSXChild::Container(..) => {},
        JSXChild::EmptyContainer => {},
        JSXChild::OtherChild => {},
    }
}

/// The attribute-value view's constructor mirrors the node's constructor.
pub proof fn lemma_attr_value_v_variant(v: JSXAttrValue)
    ensures
        (attr_value_v(v) is StringValue) == (v is StringValue),
        (attr_value_v(v) is Container) == (v is Container),
        (attr_value_v(v) is EmptyContainer) == (v is EmptyContainer),
        (attr_value_v(v) is OtherValue) == (v is OtherValue),
{
    match v {
        JSXAttrValue::StringValue(..) => {},
        JSXAttrValue::Container(..) => {},
        JSXAttrValue::EmptyContainer => {},
        JSXAttrValue::OtherValue => {},
    }
}


/// The key view's constructor mirrors the key's constructor.
pub proof fn lemma_prop_key_v_variant(k: PropKey)
    ensures
        (prop_key_v(k) is StringKey) == (k is StringKey),
        (prop_key_v(k) is IdentKey) == (k is IdentKey),
        (prop_key_v(k) is OtherKey) == (k is OtherKey),
{
    match k {
        PropKey::StringKey(..) => {},
        PropKey::IdentKey(..) => {},
        PropKey::OtherKey => {},
    }
}

/// Is `x` one of the recorded symbols?
pub fn contains_u32(v: &Vec<u32>, x: u32) -> (r: bool)
    ensures
        r == v@.contains(x),
{
    let mut i: usize = 0;
    while i < v.len()
        invariant
            i <= v@.len(),
            forall|k: int| 0 <= k < i ==> v@[k] != x,
        decreases v@.len() - i,
    {
        if v[i] == x {
            return true;
        }
        i = i + 1;
    }
    proof {
        assert(!v@.contains(x));
    }
    false
}

} // verus!
