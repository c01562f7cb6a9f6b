//! The transform orchestrator: three passes over one tree.
//!
//! The first pass collects import bindings, variable links and
//! component identities, extracts flair-property and Style-tag CSS, and
//! replaces consumed flair assignments with a sentinel.  The collected
//! CSS is then compiled per declaration: the scoped bundle with class
//! names hashed (producing that declaration's class-name map), the
//! global bundle untouched.  The second pass rewrites class-name
//! positions in every declaration's body and removes the extracted
//! Style tags.  The third pass rewrites the initializers of variables
//! recorded as class-name carriers.  Finalize strips the sentinels and
//! prepends a side-effect import of the generated stylesheet.

use vstd::prelude::*;

use crate::ast::{
    declarator_v, declarators_v, expr_v, exprs_v, jsx_element_v, lemma_declarators_v,
    lemma_exprs_v, lemma_methods_v, lemma_stmts_v, methods_v, opt_expr_v, program_v, specifier_v,
    specifiers_v, stmt_v, stmts_v, strs_v, ClassMethod, ClassMethodV, Expr, ExprV,
    ImportSpecifier, ImportSpecifierV, Program, ProgramV, Stmt, StmtV, VarDeclarator,
    VarDeclaratorV,
};
use crate::css_map::{ordered_insert, style_append, style_push, OrderedCss, StyleMap};
use crate::flair_property::{
    flair_replacement_v, fp_assign, fp_declarator, get_item, get_item_v, FlairProperty,
};
use crate::logger::{LogEntry, Logger};
use crate::maps::{IdMap, StrMap};
use crate::strutil::{append_str, push_char, spec_starts_with, str_eq, str_starts_with, str_to_chars};
use crate::style_tag::{det_stmts, CSSData, StyleDetector};
use crate::update_attribute::{lemma_expr_v_variant, lemma_stmt_v_variant, SymbolStore};

verus! {

/// Theme configuration: the `@screen` breakpoint table and an optional
/// prefix for theme-token custom properties.
pub struct Theme {
    pub breakpoints: StrMap,
    pub prefix: Option<String>,
}

/// Configuration of one transform invocation.
pub struct TransformOptions {
    pub css_out_dir: String,
    pub class_name_list: Option<Vec<String>>,
    pub use_theme: Option<bool>,
    pub theme: Option<Theme>,
    pub append_timestamp_to_css_file: Option<bool>,
}

/// The transform's result: the rewritten tree (for the host's printer),
/// the compiled CSS, the log, and the generated stylesheet's name.
pub struct TransformOutput {
    pub program: Program,
    pub css: String,
    pub logs: Vec<LogEntry>,
    pub generated_css_name: Option<String>,
}

/// The import-path prefix that marks style-related imports.
pub open spec fn import_path_v() -> Seq<char> {
    "@flairjs/client"@
}

// ----------------------------------------------------------------------
// The file-extension gate.
// ----------------------------------------------------------------------

/// The text after the last `.`, or the whole text without one.
pub open spec fn ext_of(s: Seq<char>) -> Seq<char>
    decreases s.len(),
{
    if s.len() == 0 {
        s
    } else if s.last() == '.' {
        Seq::<char>::empty()
    } else {
        let rest = ext_of(s.drop_last());
        if s.drop_last().contains('.') {
            rest.push(s.last())
        } else {
            s
        }
    }
}

pub open spec fn spec_supported_extension(path: Seq<char>) -> bool {
    ||| ext_of(path) == "tsx"@
    ||| ext_of(path) == "jsx"@
    ||| ext_of(path) == "ts"@
    ||| ext_of(path) == "js"@
}

/// Does the path end in one of the supported source extensions?
pub fn supported_extension(path: &str) -> (r: bool)
    ensures
        r == spec_supported_extension(path@),
{
    let chars = str_to_chars(path);
    let n = chars.len();
    let mut dot: usize = n;
    let mut k: usize = 0;
    while k < n
        invariant
            k <= n,
            n == chars@.len(),
            dot == n || (dot < k && chars@[dot as int] == '.'),
            forall|j: int| dot < j < k && dot < n ==> chars@[j] != '.',
            dot == n ==> forall|j: int| 0 <= j < k ==> chars@[j] != '.',
        decreases n - k,
    {
        if chars[k] == '.' {
            dot = k;
        }
        k = k + 1;
    }
    let ext: String;
    if dot == n {
        ext = crate::strutil::chars_to_string(&chars);
        proof {
            lemma_ext_no_dot(chars@);
        }
    } else {
        ext = crate::strutil::chars_range_to_string(&chars, dot + 1, n);
        proof {
            lemma_ext_after_dot(chars@, dot as int);
        }
    }
    let r = crate::strutil::str_eq(ext.as_str(), "tsx") || crate::strutil::str_eq(
        ext.as_str(),
        "jsx",
    ) || crate::strutil::str_eq(ext.as_str(), "ts") || crate::strutil::str_eq(ext.as_str(), "js");
    r
}

proof fn lemma_ext_no_dot(s: Seq<char>)
    requires
        forall|j: int| 0 <= j < s.len() ==> s[j] != '.',
    ensures
        ext_of(s) == s,
        !s.contains('.'),
    decreases s.len(),
{
    if s.len() > 0 {
        lemma_ext_no_dot(s.drop_last());
        assert(forall|j: int|
            0 <= j < s.drop_last().len() ==> #[trigger] s.drop_last()[j] == s[j]);
    }
    if s.contains('.') {
        let w = choose|j: int| 0 <= j < s.len() && s[j] == '.';
        assert(false);
    }
}

proof fn lemma_ext_after_dot(s: Seq<char>, dot: int)
    requires
        0 <= dot < s.len(),
        s[dot] == '.',
        forall|j: int| dot < j < s.len() ==> s[j] != '.',
    ensures
        ext_of(s) == s.subrange(dot + 1, s.len() as int),
    decreases s.len(),
{
    if dot == s.len() - 1 {
        assert(s.subrange(dot + 1, s.len() as int) =~= Seq::<char>::empty());
    } else {
        assert(s.last() != '.');
        lemma_ext_after_dot(s.drop_last(), dot);
        assert(s.drop_last()[dot] == '.');
        assert(s.drop_last().contains('.'));
        assert(ext_of(s) == ext_of(s.drop_last()).push(s.last()));
        assert(s.subrange(dot + 1, s.len() as int) =~= s.drop_last().subrange(
            dot + 1,
            s.len() as int - 1,
        ).push(s.last()));
    }
}

// ----------------------------------------------------------------------
// The content-derived stylesheet identifier.
// ----------------------------------------------------------------------

/// A small polynomial hash of the file path, kept below 2^32 so the
/// arithmetic never overflows.
pub open spec fn spec_path_hash(s: Seq<char>, i: int, acc: u64) -> u64
    decreases s.len() - i,
{
    if i < 0 || i >= s.len() || acc >= 0x1_0000_0000 {
        acc
    } else {
        spec_path_hash(
            s,
            i + 1,
            (((((acc as int) * 31) % 0x1_0000_0000) + (((s[i] as u32) as int) % 0x1_0000_0000))
                % 0x1_0000_0000) as u64,
        )
    }
}

fn path_hash(path: &str) -> (r: u64)
    ensures
        r == spec_path_hash(path@, 0, 0),
{
    let chars = str_to_chars(path);
    let n = chars.len();
    let mut acc: u64 = 0;
    let mut i: usize = 0;
    while i < n
        invariant
            i <= n,
            n == chars@.len(),
            chars@ == path@,
            acc < 0x1_0000_0000,
            spec_path_hash(path@, 0, 0) == spec_path_hash(path@, i as int, acc),
        decreases n - i,
    {
        let c = chars[i];
        let ghost pacc = acc;
        let ghost pi = i;
        acc = (((acc * 31) % 0x1_0000_0000) + (((c as u32) as u64) % 0x1_0000_0000))
            % 0x1_0000_0000;
        i = i + 1;
        proof {
            assert(spec_path_hash(path@, pi as int, pacc) == spec_path_hash(
                path@,
                i as int,
                acc,
            ));
        }
    }
    acc
}

/// Lower-case hexadecimal digits, most significant first.
pub open spec fn spec_hex(n: nat) -> Seq<char>
    decreases n,
{
    if n < 16 {
        seq![spec_hex_digit(n % 16)]
    } else {
        spec_hex(n / 16) + seq![spec_hex_digit(n % 16)]
    }
}

pub open spec fn spec_hex_digit(d: nat) -> char {
    if d < 10 {
        ((('0' as u8) + (d as u8)) as char)
    } else {
        ((('a' as u8) + ((d - 10) as u8)) as char)
    }
}

fn hex_digit(d: u64) -> (r: char)
    requires
        d < 16,
    ensures
        r == spec_hex_digit(d as nat),
{
    if d < 10 {
        ((('0' as u8) + (d as u8)) as char)
    } else {
        ((('a' as u8) + ((d - 10) as u8)) as char)
    }
}

fn to_hex(n: u64) -> (r: String)
    ensures
        r@ == spec_hex(n as nat),
    decreases n,
{
    if n < 16 {
        let mut s = String::new();
        push_char(&mut s, hex_digit(n));
        proof {
            assert(s@ =~= spec_hex(n as nat));
        }
        s
    } else {
        let mut s = to_hex(n / 16);
        push_char(&mut s, hex_digit(n % 16));
        s
    }
}

/// Decimal digits, most significant first.
pub open spec fn spec_dec(n: nat) -> Seq<char>
    decreases n,
{
    if n < 10 {
        seq![((('0' as u8) + (n as u8)) as char)]
    } else {
        spec_dec(n / 10) + seq![((('0' as u8) + ((n % 10) as u8)) as char)]
    }
}

fn to_dec(n: u64) -> (r: String)
    ensures
        r@ == spec_dec(n as nat),
    decreases n,
{
    if n < 10 {
        let mut s = String::new();
        push_char(&mut s, (('0' as u8) + (n as u8)) as char);
        proof {
            assert(s@ =~= spec_dec(n as nat));
        }
        s
    } else {
        let mut s = to_dec(n / 10);
        push_char(&mut s, (('0' as u8) + ((n % 10) as u8)) as char);
        s
    }
}

/// The generated stylesheet's file name: the path hash in hex, an
/// optional timestamp suffix, and the `.css` extension.
pub open spec fn spec_css_name(path: Seq<char>, timestamp: Option<u64>) -> Seq<char> {
    spec_hex(spec_path_hash(path, 0, 0) as nat) + (match timestamp {
        Some(t) => seq!['-'] + spec_dec(t as nat),
        None => Seq::<char>::empty(),
    }) + ".css"@
}

fn css_name(path: &str, timestamp: Option<u64>) -> (r: String)
    ensures
        r@ == spec_css_name(path@, timestamp),
{
    let h = path_hash(path);
    let mut s = to_hex(h);
    match timestamp {
        Some(t) => {
            push_char(&mut s, '-');
            let d = to_dec(t);
            append_str(&mut s, d.as_str());
        },
        None => {},
    }
    append_str(&mut s, ".css");
    proof {
        assert(s@ =~= spec_css_name(path@, timestamp));
    }
    s
}

// ----------------------------------------------------------------------
// Finalize: sentinel removal and the stylesheet import.
// ----------------------------------------------------------------------

/// Is this statement a consumed flair assignment's sentinel?
pub open spec fn is_sentinel_stmt(st: StmtV) -> bool {
    match st {
        StmtV::ExprStmt { expr, span_start } => match expr {
            ExprV::StringLit { value } => value == flair_replacement_v(),
            _ => false,
        },
        _ => false,
    }
}

pub open spec fn strip_sentinels(s: Seq<StmtV>) -> Seq<StmtV> {
    s.filter(|st: StmtV| !is_sentinel_stmt(st))
}

/// Removes the sentinel statements the flair visitor left behind.
pub fn remove_flair_statements(body: Vec<Stmt>) -> (r: Vec<Stmt>)
    ensures
        stmts_v(r@) == strip_sentinels(stmts_v(body@)),
{
    let mut out: Vec<Stmt> = Vec::new();
    let mut i: usize = 0;
    proof {
        reveal(Seq::filter);
        assert(stmts_v(body@.subrange(0, 0)) =~= Seq::<StmtV>::empty());
        assert(stmts_v(out@) =~= stmts_v(body@.subrange(0, 0)).filter(
            |st: StmtV| !is_sentinel_stmt(st),
        ));
    }
    while i < body.len()
        invariant
            i <= body@.len(),
            stmts_v(out@) == stmts_v(body@.subrange(0, i as int)).filter(
                |st: StmtV| !is_sentinel_stmt(st),
            ),
        decreases body@.len() - i,
    {
        let ghost pre_out = out@;
        let mut is_sent: bool = false;
        match &body[i] {
            Stmt::ExprStmt { expr, span_start } => match expr {
                Expr::StringLit { value } => {
                    is_sent = crate::strutil::str_eq(value.as_str(), "__flair_replacement__");
                    proof {
                        reveal_strlit("__flair_replacement__");
                    }
                },
                other => {
                    proof {
                        lemma_expr_v_variant(*other);
                    }
                },
            },
            other => {
                proof {
                    lemma_stmt_v_variant(body@[i as int]);
                }
            },
        }
        proof {
            assert(is_sent == is_sentinel_stmt(stmt_v(body@[i as int])));
        }
        if !is_sent {
            let x = crate::tree_copy::copy_stmt(&body[i]);
            out.push(x);
            proof {
                assert(out@.drop_last() =~= pre_out);
                assert(stmts_v(out@) =~= stmts_v(pre_out).push(stmt_v(body@[i as int])));
            }
        }
        i = i + 1;
        proof {
            reveal(Seq::filter);
            let sub1 = stmts_v(body@.subrange(0, i as int));
            let sub0 = stmts_v(body@.subrange(0, i as int - 1));
            assert(body@.subrange(0, i as int).drop_last() =~= body@.subrange(0, i as int - 1));
            assert(body@.subrange(0, i as int).last() == body@[i as int - 1]);
            assert(sub1 == sub0.push(stmt_v(body@[i as int - 1])));
            assert(sub1.drop_last() =~= sub0);
            assert(sub1.last() == stmt_v(body@[i as int - 1]));
            if !is_sentinel_stmt(stmt_v(body@[i as int - 1])) {
                assert(sub1.filter(|st: StmtV| !is_sentinel_stmt(st)) == sub0.filter(
                    |st: StmtV| !is_sentinel_stmt(st),
                ).push(stmt_v(body@[i as int - 1])));
            } else {
                assert(sub1.filter(|st: StmtV| !is_sentinel_stmt(st)) == sub0.filter(
                    |st: StmtV| !is_sentinel_stmt(st),
                ));
            }
            assert(stmts_v(out@) =~= sub1.filter(|st: StmtV| !is_sentinel_stmt(st)));
        }
    }
    proof {
        assert(body@.subrange(0, body@.len() as int) =~= body@);
    }
    out
}

/// The side-effect import of the generated stylesheet.
pub open spec fn import_stmt_v(css_file: Seq<char>) -> StmtV {
    StmtV::ImportDecl {
        source: "@flairjs/client/generated-css/"@ + css_file,
        specifiers: Seq::<ImportSpecifierV>::empty(),
        span_start: 0,
    }
}

fn make_import_stmt(css_file: &str) -> (r: Stmt)
    ensures
        stmt_v(r) == import_stmt_v(css_file@),
{
    let mut source = String::from_str("@flairjs/client/generated-css/");
    append_str(&mut source, css_file);
    let r = Stmt::ImportDecl { source, specifiers: Vec::new(), span_start: 0 };
    proof {
        assert(specifiers_v(Seq::<ImportSpecifier>::empty()) =~= Seq::<ImportSpecifierV>::empty());
    }
    r
}


// ----------------------------------------------------------------------
// Pass 1: collection and extraction.
// ----------------------------------------------------------------------

/// The first pass's ghost state.
pub struct P1V {
    pub link_count: nat,
    pub sym_span: Map<u32, u32>,
    pub scoped: Seq<(u32, (Seq<char>, bool))>,
    pub global: Seq<(u32, (Seq<char>, bool))>,
    pub links: Map<u32, u32>,
    pub style_syms: Seq<u32>,
    pub util_syms: Seq<u32>,
    pub smap: Seq<(u32, Seq<(Seq<char>, bool)>)>,
    pub fn_class: Map<u32, u32>,
    pub spans: Seq<u32>,
}

/// The first pass's working state.
pub struct Pass1State {
    pub flair: FlairProperty,
    pub variable_linking: IdMap,
    pub style_tag_import_symbols: Vec<u32>,
    pub classname_util_symbols: Vec<u32>,
    pub style_map: StyleMap,
    pub fn_id_to_class_map: IdMap,
    pub style_tag_symbols: Vec<u32>,
}

impl Pass1State {
    pub open spec fn view(&self) -> P1V {
        P1V {
            link_count: self.variable_linking.len_v(),
            sym_span: self.flair.symbol_to_span_start_map@,
            scoped: self.flair.style@,
            global: self.flair.global_style@,
            links: self.variable_linking@,
            style_syms: self.style_tag_import_symbols@,
            util_syms: self.classname_util_symbols@,
            smap: self.style_map@,
            fn_class: self.fn_id_to_class_map@,
            spans: self.style_tag_symbols@,
        }
    }

    pub fn new() -> (r: Pass1State)
        ensures
            r.view() == (P1V {
                link_count: 0,
                sym_span: Map::<u32, u32>::empty(),
                scoped: Seq::<(u32, (Seq<char>, bool))>::empty(),
                global: Seq::<(u32, (Seq<char>, bool))>::empty(),
                links: Map::<u32, u32>::empty(),
                style_syms: Seq::<u32>::empty(),
                util_syms: Seq::<u32>::empty(),
                smap: Seq::<(u32, Seq<(Seq<char>, bool)>)>::empty(),
                fn_class: Map::<u32, u32>::empty(),
                spans: Seq::<u32>::empty(),
            }),
    {
        let r = Pass1State {
            flair: FlairProperty::new(),
            variable_linking: IdMap::new(),
            style_tag_import_symbols: Vec::new(),
            classname_util_symbols: Vec::new(),
            style_map: StyleMap::new(),
            fn_id_to_class_map: IdMap::new(),
            style_tag_symbols: Vec::new(),
        };
        proof {
            assert(r.view().style_syms =~= Seq::<u32>::empty());
            assert(r.view().util_syms =~= Seq::<u32>::empty());
            assert(r.view().spans =~= Seq::<u32>::empty());
        }
        r
    }
}

/// What one import specifier of a style-package import contributes.
pub open spec fn p1_specifier(sp: ImportSpecifierV, st: P1V) -> P1V {
    let st1 = if sp.imported == "Style"@ || sp.local == "Style"@ {
        P1V { style_syms: st.style_syms.push(sp.local_symbol), ..st }
    } else {
        st
    };
    let st2 = if sp.imported == "c"@ || sp.local == "c"@ {
        P1V { util_syms: st1.util_syms.push(sp.local_symbol), ..st1 }
    } else {
        st1
    };
    if sp.imported == "cn"@ || sp.local == "cn"@ {
        P1V { util_syms: st2.util_syms.push(sp.local_symbol), ..st2 }
    } else {
        st2
    }
}

pub open spec fn p1_specifiers(ss: Seq<ImportSpecifierV>, st: P1V) -> P1V
    decreases ss,
{
    if ss.len() == 0 {
        st
    } else {
        p1_specifier(ss.last(), p1_specifiers(ss.drop_last(), st))
    }
}

/// A function-like body encountered during the first pass: the method-
/// to-class indirection, the Style-tag scan (its CSS keyed under the
/// enclosing class when there is one), and the recursive walk.
pub open spec fn p1_body(body: Seq<StmtV>, span: u32, parent: Option<u32>, st: P1V) -> (
    Seq<StmtV>,
    P1V,
)
    decreases body, 3int,
{
    let st1 = match parent {
        Some(c) => P1V { fn_class: st.fn_class.insert(span, c), ..st },
        None => st,
    };
    let det = det_stmts(body, st1.style_syms);
    let key = match parent {
        Some(c) => c,
        None => span,
    };
    let st2 = if det.0.len() > 0 {
        P1V { smap: style_append(st1.smap, key, det.0), spans: st1.spans + det.1, ..st1 }
    } else {
        P1V { spans: st1.spans + det.1, ..st1 }
    };
    p1_stmts(body, parent, st2)
}

pub open spec fn p1_component_init(e: ExprV, parent: Option<u32>, st: P1V) -> (ExprV, P1V)
    decreases e, 1int,
{
    match e {
        ExprV::Arrow { body, span_start } => {
            let t = p1_body(body, span_start, parent, st);
            (ExprV::Arrow { body: t.0, span_start }, t.1)
        },
        ExprV::FunctionExpr { body, span_start } => {
            let t = p1_body(body, span_start, parent, st);
            (ExprV::FunctionExpr { body: t.0, span_start }, t.1)
        },
        ExprV::Call { callee, arguments, span_start } => {
            let t = p1_component_args(arguments, parent, st);
            (ExprV::Call { callee, arguments: t.0, span_start }, t.1)
        },
        other => (other, st),
    }
}

pub open spec fn p1_component_args(s: Seq<ExprV>, parent: Option<u32>, st: P1V) -> (
    Seq<ExprV>,
    P1V,
)
    decreases s, 2int,
{
    if s.len() == 0 {
        (Seq::<ExprV>::empty(), st)
    } else {
        let front = p1_component_args(s.drop_last(), parent, st);
        let last = p1_component_init(s.last(), parent, front.1);
        (front.0.push(last.0), last.1)
    }
}

pub open spec fn p1_declarator(d: VarDeclaratorV, parent: Option<u32>, st: P1V) -> (
    VarDeclaratorV,
    P1V,
)
    decreases d, 3int,
{
    let st1 = match (d.init, d.symbol) {
        (Some(init), Some(sy)) => match init {
            ExprV::Ident { name, symbol } => match symbol {
                Some(isym) => P1V {
                    links: st.links.insert(sy, isym),
                    link_count: st.link_count + 1,
                    ..st
                },
                None => st,
            },
            _ => st,
        },
        _ => st,
    };
    let st2 = P1V { sym_span: fp_declarator(d, st1.sym_span), ..st1 };
    match d.init {
        Some(init) => {
            let t = p1_component_init(init, parent, st2);
            (
                VarDeclaratorV {
                    name: d.name,
                    symbol: d.symbol,
                    init: Some(t.0),
                    span_start: d.span_start,
                },
                t.1,
            )
        },
        None => (d, st2),
    }
}

pub open spec fn p1_declarators(s: Seq<VarDeclaratorV>, parent: Option<u32>, st: P1V) -> (
    Seq<VarDeclaratorV>,
    P1V,
)
    decreases s, 4int,
{
    if s.len() == 0 {
        (Seq::<VarDeclaratorV>::empty(), st)
    } else {
        let front = p1_declarators(s.drop_last(), parent, st);
        let last = p1_declarator(s.last(), parent, front.1);
        (front.0.push(last.0), last.1)
    }
}

pub open spec fn p1_methods(s: Seq<ClassMethodV>, class_span: u32, st: P1V) -> (
    Seq<ClassMethodV>,
    P1V,
)
    decreases s, 4int,
{
    if s.len() == 0 {
        (Seq::<ClassMethodV>::empty(), st)
    } else {
        let front = p1_methods(s.drop_last(), class_span, st);
        let m = s.last();
        let t = p1_body(m.body, m.span_start, Some(class_span), front.1);
        (front.0.push(ClassMethodV { body: t.0, span_start: m.span_start }), t.1)
    }
}

pub open spec fn p1_stmt(stv: StmtV, parent: Option<u32>, st: P1V) -> (StmtV, P1V)
    decreases stv, 5int,
{
    match stv {
        StmtV::ImportDecl { source, specifiers, span_start } => {
            let st1 = if spec_starts_with(source, import_path_v()) {
                p1_specifiers(specifiers, st)
            } else {
                st
            };
            (StmtV::ImportDecl { source, specifiers, span_start }, st1)
        },
        StmtV::VarDecl { declarators, span_start } => {
            let t = p1_declarators(declarators, parent, st);
            (StmtV::VarDecl { declarators: t.0, span_start }, t.1)
        },
        StmtV::FunctionDecl { name, symbol, body, span_start } => {
            let st1 = match symbol {
                Some(sy) => P1V { sym_span: st.sym_span.insert(sy, span_start), ..st },
                None => st,
            };
            let t = p1_body(body, span_start, parent, st1);
            (StmtV::FunctionDecl { name, symbol, body: t.0, span_start }, t.1)
        },
        StmtV::ClassDecl { name, symbol, methods, span_start } => {
            let st1 = match symbol {
                Some(sy) => P1V { sym_span: st.sym_span.insert(sy, span_start), ..st },
                None => st,
            };
            let t = p1_methods(methods, span_start, st1);
            (StmtV::ClassDecl { name, symbol, methods: t.0, span_start }, t.1)
        },
        StmtV::ExprStmt { expr, span_start } => match fp_assign(expr, st.sym_span) {
            Some((dspan, css, g)) => {
                let st1 = if g {
                    P1V { global: ordered_insert(st.global, dspan, (css, true)), ..st }
                } else {
                    P1V { scoped: ordered_insert(st.scoped, dspan, (css, false)), ..st }
                };
                (
                    StmtV::ExprStmt {
                        expr: ExprV::StringLit { value: flair_replacement_v() },
                        span_start,
                    },
                    st1,
                )
            },
            None => (StmtV::ExprStmt { expr, span_start }, st),
        },
        other => (other, st),
    }
}

pub open spec fn p1_stmts(s: Seq<StmtV>, parent: Option<u32>, st: P1V) -> (Seq<StmtV>, P1V)
    decreases s, 0int,
{
    if s.len() == 0 {
        (Seq::<StmtV>::empty(), st)
    } else {
        let front = p1_stmts(s.drop_last(), parent, st);
        let last = p1_stmt(s.last(), parent, front.1);
        (front.0.push(last.0), last.1)
    }
}


/// Appends the detector's recorded offsets to the running set.
fn extend_spans(dst: &mut Vec<u32>, src: &Vec<u32>)
    ensures
        final(dst)@ == old(dst)@ + src@,
{
    let mut i: usize = 0;
    proof {
        assert(dst@ =~= old(dst)@ + src@.subrange(0, 0));
    }
    while i < src.len()
        invariant
            i <= src@.len(),
            dst@ == old(dst)@ + src@.subrange(0, i as int),
        decreases src@.len() - i,
    {
        dst.push(src[i]);
        i = i + 1;
        proof {
            assert(dst@ =~= old(dst)@ + src@.subrange(0, i as int));
        }
    }
    proof {
        assert(src@.subrange(0, src@.len() as int) =~= src@);
    }
}

/// One function-like body in the first pass.
fn pass1_body(body: &Vec<Stmt>, span: u32, parent: Option<u32>, st: &mut Pass1State) -> (r: Vec<
    Stmt,
>)
    ensures
        ({
            let t = p1_body(stmts_v(body@), span, parent, old(st).view());
            stmts_v(r@) == t.0 && final(st).view() == t.1
        }),
    decreases *body, 3int,
{
    match parent {
        Some(c) => {
            st.fn_id_to_class_map.insert(span, c);
        },
        None => {},
    }
    let mut detector = StyleDetector::new(&st.style_tag_import_symbols);
    detector.visit_function_body(body);
    let key = match parent {
        Some(c) => c,
        None => span,
    };
    proof {
        assert(crate::style_tag::css_list_v(detector.css@) == det_stmts(
            stmts_v(body@),
            st.view().style_syms,
        ).0);
    }
    if detector.has_style {
        let spans = detector.get_style_tag_symbol_ids();
        st.style_map.append_css(key, &detector.css);
        extend_spans(&mut st.style_tag_symbols, &spans);
    } else {
        let spans = detector.get_style_tag_symbol_ids();
        extend_spans(&mut st.style_tag_symbols, &spans);
    }
    pass1_stmts(body, parent, st)
}

fn pass1_component_init(e: &Expr, parent: Option<u32>, st: &mut Pass1State) -> (r: Expr)
    ensures
        ({
            let t = p1_component_init(expr_v(*e), parent, old(st).view());
            expr_v(r) == t.0 && final(st).view() == t.1
        }),
    decreases *e, 1int,
{
    match e {
        Expr::Arrow { body, span_start } => Expr::Arrow {
            body: pass1_body(body, *span_start, parent, st),
            span_start: *span_start,
        },
        Expr::FunctionExpr { body, span_start } => Expr::FunctionExpr {
            body: pass1_body(body, *span_start, parent, st),
            span_start: *span_start,
        },
        Expr::Call { callee, arguments, span_start } => {
            let args = pass1_component_args(arguments, parent, st);
            let cp = crate::tree_copy::copy_expr(callee);
            let ghost cp_v = expr_v(cp);
            let r = Expr::Call { callee: Box::new(cp), arguments: args, span_start: *span_start };
            proof {
                assert(expr_v(r) == (ExprV::Call {
                    callee: Box::new(cp_v),
                    arguments: exprs_v(args@),
                    span_start: *span_start,
                }));
            }
            r
        },
        other => {
            proof {
                lemma_expr_v_variant(*e);
            }
            crate::tree_copy::copy_expr(other)
        },
    }
}

fn pass1_component_args(v: &Vec<Expr>, parent: Option<u32>, st: &mut Pass1State) -> (r: Vec<Expr>)
    ensures
        ({
            let t = p1_component_args(exprs_v(v@), parent, old(st).view());
            exprs_v(r@) == t.0 && final(st).view() == t.1
        }),
    decreases *v, 2int,
{
    let mut out: Vec<Expr> = Vec::new();
    let mut i: usize = 0;
    proof {
        assert(exprs_v(v@.subrange(0, 0)) =~= Seq::<ExprV>::empty());
        assert(exprs_v(out@) =~= Seq::<ExprV>::empty());
    }
    while i < v.len()
        invariant
            i <= v@.len(),
            exprs_v(out@) == p1_component_args(
                exprs_v(v@.subrange(0, i as int)),
                parent,
                old(st).view(),
            ).0,
            st.view() == p1_component_args(
                exprs_v(v@.subrange(0, i as int)),
                parent,
                old(st).view(),
            ).1,
        decreases v@.len() - i,
    {
        proof {
            assert(decreases_to!(*v => v@));
            assert(decreases_to!(v@ => v@[i as int]));
        }
        let ghost pre_out = out@;
        let x = pass1_component_init(&v[i], parent, st);
        out.push(x);
        i = i + 1;
        proof {
            let sub1 = v@.subrange(0, i as int);
            let sub0 = v@.subrange(0, i as int - 1);
            assert(sub1.drop_last() =~= sub0);
            assert(sub1.last() == v@[i as int - 1]);
            let sv1 = exprs_v(sub1);
            let sv0 = exprs_v(sub0);
            assert(sv1 == sv0.push(expr_v(v@[i as int - 1])));
            assert(sv1.drop_last() =~= sv0);
            assert(sv1.last() == expr_v(v@[i as int - 1]));
            assert(out@.drop_last() =~= pre_out);
            assert(exprs_v(out@) =~= exprs_v(pre_out).push(expr_v(out@.last())));
        }
    }
    proof {
        assert(v@.subrange(0, v@.len() as int) =~= v@);
    }
    out
}

fn pass1_declarator(d: &VarDeclarator, parent: Option<u32>, st: &mut Pass1State) -> (r:
    VarDeclarator)
    ensures
        ({
            let t = p1_declarator(declarator_v(*d), parent, old(st).view());
            declarator_v(r) == t.0 && final(st).view() == t.1
        }),
    decreases *d, 3int,
{
    match (&d.init, d.symbol) {
        (Some(init), Some(sy)) => {
            match init {
                Expr::Ident { name, symbol } => {
                    match symbol {
                        Some(isym) => {
                            st.variable_linking.insert(sy, *isym);
                        },
                        None => {},
                    }
                },
                other => {
                    proof {
                        lemma_expr_v_variant(*init);
                    }
                },
            }
        },
        _ => {},
    }
    st.flair.visit_declarator(d);
    match &d.init {
        Some(init) => {
            let new_init = pass1_component_init(init, parent, st);
            VarDeclarator {
                name: d.name.clone(),
                symbol: d.symbol,
                init: Some(new_init),
                span_start: d.span_start,
            }
        },
        None => VarDeclarator {
            name: d.name.clone(),
            symbol: d.symbol,
            init: None,
            span_start: d.span_start,
        },
    }
}

fn pass1_declarators(v: &Vec<VarDeclarator>, parent: Option<u32>, st: &mut Pass1State) -> (r: Vec<
    VarDeclarator,
>)
    ensures
        ({
            let t = p1_declarators(declarators_v(v@), parent, old(st).view());
            declarators_v(r@) == t.0 && final(st).view() == t.1
        }),
    decreases *v, 4int,
{
    let mut out: Vec<VarDeclarator> = Vec::new();
    let mut i: usize = 0;
    proof {
        assert(declarators_v(v@.subrange(0, 0)) =~= Seq::<VarDeclaratorV>::empty());
        assert(declarators_v(out@) =~= Seq::<VarDeclaratorV>::empty());
    }
    while i < v.len()
        invariant
            i <= v@.len(),
            declarators_v(out@) == p1_declarators(
                declarators_v(v@.subrange(0, i as int)),
                parent,
                old(st).view(),
            ).0,
            st.view() == p1_declarators(
                declarators_v(v@.subrange(0, i as int)),
                parent,
                old(st).view(),
            ).1,
        decreases v@.len() - i,
    {
        proof {
            assert(decreases_to!(*v => v@));
            assert(decreases_to!(v@ => v@[i as int]));
        }
        let ghost pre_out = out@;
        let x = pass1_declarator(&v[i], parent, st);
        out.push(x);
        i = i + 1;
        proof {
            let sub1 = v@.subrange(0, i as int);
            let sub0 = v@.subrange(0, i as int - 1);
            assert(sub1.drop_last() =~= sub0);
            assert(sub1.last() == v@[i as int - 1]);
            let sv1 = declarators_v(sub1);
            let sv0 = declarators_v(sub0);
            assert(sv1 == sv0.push(declarator_v(v@[i as int - 1])));
            assert(sv1.drop_last() =~= sv0);
            assert(sv1.last() == declarator_v(v@[i as int - 1]));
            assert(out@.drop_last() =~= pre_out);
            assert(declarators_v(out@) =~= declarators_v(pre_out).push(declarator_v(out@.last())));
        }
    }
    proof {
        assert(v@.subrange(0, v@.len() as int) =~= v@);
    }
    out
}

fn pass1_methods(v: &Vec<ClassMethod>, class_span: u32, st: &mut Pass1State) -> (r: Vec<
    ClassMethod,
>)
    ensures
        ({
            let t = p1_methods(methods_v(v@), class_span, old(st).view());
            methods_v(r@) == t.0 && final(st).view() == t.1
        }),
    decreases *v, 4int,
{
    let mut out: Vec<ClassMethod> = Vec::new();
    let mut i: usize = 0;
    proof {
        assert(methods_v(v@.subrange(0, 0)) =~= Seq::<ClassMethodV>::empty());
        assert(methods_v(out@) =~= Seq::<ClassMethodV>::empty());
    }
    while i < v.len()
        invariant
            i <= v@.len(),
            methods_v(out@) == p1_methods(
                methods_v(v@.subrange(0, i as int)),
                class_span,
                old(st).view(),
            ).0,
            st.view() == p1_methods(
                methods_v(v@.subrange(0, i as int)),
                class_span,
                old(st).view(),
            ).1,
        decreases v@.len() - i,
    {
        proof {
            assert(decreases_to!(*v => v@));
            assert(decreases_to!(v@ => v@[i as int]));
            assert(decreases_to!(v@[i as int] => v@[i as int].body));
        }
        let ghost pre_out = out@;
        let m = &v[i];
        let new_body = pass1_body(&m.body, m.span_start, Some(class_span), st);
        out.push(ClassMethod { body: new_body, span_start: m.span_start });
        i = i + 1;
        proof {
            let sub1 = v@.subrange(0, i as int);
            let sub0 = v@.subrange(0, i as int - 1);
            assert(sub1.drop_last() =~= sub0);
            assert(sub1.last() == v@[i as int - 1]);
            let sv1 = methods_v(sub1);
            let sv0 = methods_v(sub0);
            assert(sv1 == sv0.push(crate::ast::method_v(v@[i as int - 1])));
            assert(sv1.drop_last() =~= sv0);
            assert(sv1.last() == crate::ast::method_v(v@[i as int - 1]));
            assert(out@.drop_last() =~= pre_out);
            assert(methods_v(out@) =~= methods_v(pre_out).push(crate::ast::method_v(out@.last())));
        }
    }
    proof {
        assert(v@.subrange(0, v@.len() as int) =~= v@);
    }
    out
}

fn pass1_stmt(stmt: &Stmt, parent: Option<u32>, st: &mut Pass1State) -> (r: Stmt)
    ensures
        ({
            let t = p1_stmt(stmt_v(*stmt), parent, old(st).view());
            stmt_v(r) == t.0 && final(st).view() == t.1
        }),
    decreases *stmt, 5int,
{
    match stmt {
        Stmt::ImportDecl { source, specifiers, span_start } => {
            if str_starts_with(source.as_str(), "@flairjs/client") {
                let ghost sv = specifiers_v(specifiers@);
                proof {
                    assert(sv.subrange(0, sv.len() as int) =~= sv);
                }
                let mut i: usize = 0;
                #[verifier::loop_isolation(false)]
                while i < specifiers.len()
                    invariant
                        i <= specifiers@.len(),
                        st.view() == p1_specifiers(
                            sv.subrange(0, i as int),
                            old(st).view(),
                        ),
                    decreases specifiers@.len() - i,
                {
                    let sp = &specifiers[i];
                    if str_eq(sp.imported.as_str(), "Style") || str_eq(sp.local.as_str(), "Style") {
                        st.style_tag_import_symbols.push(sp.local_symbol);
                    }
                    if str_eq(sp.imported.as_str(), "c") || str_eq(sp.local.as_str(), "c") {
                        st.classname_util_symbols.push(sp.local_symbol);
                    }
                    if str_eq(sp.imported.as_str(), "cn") || str_eq(sp.local.as_str(), "cn") {
                        st.classname_util_symbols.push(sp.local_symbol);
                    }
                    i = i + 1;
                    proof {
                        let sub1 = sv.subrange(0, i as int);
                        let sub0 = sv.subrange(0, i as int - 1);
                        assert(sub1.drop_last() =~= sub0);
                        assert(sub1.last() == sv[i as int - 1]);
                        assert(sv[i as int - 1] == specifier_v(specifiers@[i as int - 1]));
                        assert(st.view() == p1_specifier(
                            sv[i as int - 1],
                            p1_specifiers(sub0, old(st).view()),
                        ));
                    }
                }
            }
            crate::tree_copy::copy_stmt(stmt)
        },
        Stmt::VarDecl { declarators, span_start } => Stmt::VarDecl {
            declarators: pass1_declarators(declarators, parent, st),
            span_start: *span_start,
        },
        Stmt::FunctionDecl { name, symbol, body, span_start } => {
            st.flair.visit_function(*symbol, *span_start);
            Stmt::FunctionDecl {
                name: name.clone(),
                symbol: *symbol,
                body: pass1_body(body, *span_start, parent, st),
                span_start: *span_start,
            }
        },
        Stmt::ClassDecl { name, symbol, methods, span_start } => {
            st.flair.visit_class(*symbol, *span_start);
            Stmt::ClassDecl {
                name: name.clone(),
                symbol: *symbol,
                methods: pass1_methods(methods, *span_start, st),
                span_start: *span_start,
            }
        },
        Stmt::ExprStmt { expr, span_start } => {
            match st.flair.visit_expression(expr) {
                Some(replacement) => Stmt::ExprStmt {
                    expr: replacement,
                    span_start: *span_start,
                },
                None => Stmt::ExprStmt {
                    expr: crate::tree_copy::copy_expr(expr),
                    span_start: *span_start,
                },
            }
        },
        other => {
            proof {
                lemma_stmt_v_variant(*stmt);
            }
            crate::tree_copy::copy_stmt(other)
        },
    }
}

/// The first pass over a statement list.
pub fn pass1_stmts(v: &Vec<Stmt>, parent: Option<u32>, st: &mut Pass1State) -> (r: Vec<Stmt>)
    ensures
        ({
            let t = p1_stmts(stmts_v(v@), parent, old(st).view());
            stmts_v(r@) == t.0 && final(st).view() == t.1
        }),
    decreases *v, 0int,
{
    let mut out: Vec<Stmt> = Vec::new();
    let mut i: usize = 0;
    proof {
        assert(stmts_v(v@.subrange(0, 0)) =~= Seq::<StmtV>::empty());
        assert(stmts_v(out@) =~= Seq::<StmtV>::empty());
    }
    while i < v.len()
        invariant
            i <= v@.len(),
            stmts_v(out@) == p1_stmts(
                stmts_v(v@.subrange(0, i as int)),
                parent,
                old(st).view(),
            ).0,
            st.view() == p1_stmts(stmts_v(v@.subrange(0, i as int)), parent, old(st).view()).1,
        decreases v@.len() - i,
    {
        proof {
            assert(decreases_to!(*v => v@));
            assert(decreases_to!(v@ => v@[i as int]));
        }
        let ghost pre_out = out@;
        let x = pass1_stmt(&v[i], parent, st);
        out.push(x);
        i = i + 1;
        proof {
            let sub1 = v@.subrange(0, i as int);
            let sub0 = v@.subrange(0, i as int - 1);
            assert(sub1.drop_last() =~= sub0);
            assert(sub1.last() == v@[i as int - 1]);
            let sv1 = stmts_v(sub1);
            let sv0 = stmts_v(sub0);
            assert(sv1 == sv0.push(stmt_v(v@[i as int - 1])));
            assert(sv1.drop_last() =~= sv0);
            assert(sv1.last() == stmt_v(v@[i as int - 1]));
            assert(out@.drop_last() =~= pre_out);
            assert(stmts_v(out@) =~= stmts_v(pre_out).push(stmt_v(out@.last())));
        }
    }
    proof {
        assert(v@.subrange(0, v@.len() as int) =~= v@);
    }
    out
}


// ----------------------------------------------------------------------
// Passes 2 and 3: class-name rewriting.
// ----------------------------------------------------------------------

/// The rewrite passes' ghost environment.
pub struct P2V {
    pub exports: Map<u32, Map<Seq<char>, Seq<char>>>,
    pub fn_class: Map<u32, u32>,
    pub links: Map<u32, u32>,
    pub fuel: nat,
    pub utils: Seq<u32>,
    pub list: Seq<Seq<char>>,
}

/// The class-name map of one declaration: a method resolves to its
/// class's map.
pub open spec fn lookup_exports(env: P2V, fnid: u32) -> Option<Map<Seq<char>, Seq<char>>> {
    let key = if env.fn_class.contains_key(fnid) {
        env.fn_class[fnid]
    } else {
        fnid
    };
    if env.exports.contains_key(key) {
        Some(env.exports[key])
    } else {
        None
    }
}

/// Sibling methods recorded under one class resolve class names
/// against the same shared map: each method's lookup goes through the
/// class's entry.
pub proof fn lemma_sibling_methods_share_map(env: P2V, f1: u32, f2: u32)
    requires
        env.fn_class.contains_key(f1),
        env.fn_class.contains_key(f2),
        env.fn_class[f1] == env.fn_class[f2],
    ensures
        lookup_exports(env, f1) == lookup_exports(env, f2),
{
}

/// The rewrite context of one declaration (an absent map is empty).
pub open spec fn ctx_for(env: P2V, fnid: u32) -> crate::update_attribute::UpdCtx {
    crate::update_attribute::UpdCtx {
        m: match lookup_exports(env, fnid) {
            Some(m) => m,
            None => Map::<Seq<char>, Seq<char>>::empty(),
        },
        links: env.links,
        fuel: env.fuel,
        utils: env.utils,
        list: env.list,
        fnid,
    }
}

pub open spec fn p2_init(e: ExprV, env: P2V) -> (ExprV, Seq<SymbolStore>)
    decreases e, 1int,
{
    match e {
        ExprV::Arrow { body, span_start } => {
            let inner = p2_stmts(body, env);
            let wk = crate::update_attribute::wk_stmts(inner.0, ctx_for(env, span_start));
            (ExprV::Arrow { body: wk.0, span_start }, inner.1 + wk.1)
        },
        ExprV::FunctionExpr { body, span_start } => {
            let inner = p2_stmts(body, env);
            let wk = crate::update_attribute::wk_stmts(inner.0, ctx_for(env, span_start));
            (ExprV::FunctionExpr { body: wk.0, span_start }, inner.1 + wk.1)
        },
        ExprV::Call { callee, arguments, span_start } => {
            let t = p2_args(arguments, env);
            (ExprV::Call { callee, arguments: t.0, span_start }, t.1)
        },
        other => (other, Seq::<SymbolStore>::empty()),
    }
}

pub open spec fn p2_args(s: Seq<ExprV>, env: P2V) -> (Seq<ExprV>, Seq<SymbolStore>)
    decreases s, 2int,
{
    if s.len() == 0 {
        (Seq::<ExprV>::empty(), Seq::<SymbolStore>::empty())
    } else {
        let front = p2_args(s.drop_last(), env);
        let last = p2_init(s.last(), env);
        (front.0.push(last.0), front.1 + last.1)
    }
}

pub open spec fn p2_declarator(d: VarDeclaratorV, env: P2V) -> (VarDeclaratorV, Seq<SymbolStore>)
    decreases d, 3int,
{
    match d.init {
        Some(init) => {
            let t = p2_init(init, env);
            (
                VarDeclaratorV {
                    name: d.name,
                    symbol: d.symbol,
                    init: Some(t.0),
                    span_start: d.span_start,
                },
                t.1,
            )
        },
        None => (d, Seq::<SymbolStore>::empty()),
    }
}

pub open spec fn p2_declarators(s: Seq<VarDeclaratorV>, env: P2V) -> (
    Seq<VarDeclaratorV>,
    Seq<SymbolStore>,
)
    decreases s, 4int,
{
    if s.len() == 0 {
        (Seq::<VarDeclaratorV>::empty(), Seq::<SymbolStore>::empty())
    } else {
        let front = p2_declarators(s.drop_last(), env);
        let last = p2_declarator(s.last(), env);
        (front.0.push(last.0), front.1 + last.1)
    }
}

pub open spec fn p2_methods(s: Seq<ClassMethodV>, env: P2V) -> (
    Seq<ClassMethodV>,
    Seq<SymbolStore>,
)
    decreases s, 4int,
{
    if s.len() == 0 {
        (Seq::<ClassMethodV>::empty(), Seq::<SymbolStore>::empty())
    } else {
        let front = p2_methods(s.drop_last(), env);
        let m = s.last();
        let inner = p2_stmts(m.body, env);
        let wk = crate::update_attribute::wk_stmts(inner.0, ctx_for(env, m.span_start));
        (
            front.0.push(ClassMethodV { body: wk.0, span_start: m.span_start }),
            front.1 + (inner.1 + wk.1),
        )
    }
}

pub open spec fn p2_stmt(stv: StmtV, env: P2V) -> (StmtV, Seq<SymbolStore>)
    decreases stv, 5int,
{
    match stv {
        StmtV::VarDecl { declarators, span_start } => {
            let t = p2_declarators(declarators, env);
            (StmtV::VarDecl { declarators: t.0, span_start }, t.1)
        },
        StmtV::FunctionDecl { name, symbol, body, span_start } => {
            let inner = p2_stmts(body, env);
            let wk = crate::update_attribute::wk_stmts(inner.0, ctx_for(env, span_start));
            (StmtV::FunctionDecl { name, symbol, body: wk.0, span_start }, inner.1 + wk.1)
        },
        StmtV::ClassDecl { name, symbol, methods, span_start } => {
            let t = p2_methods(methods, env);
            (StmtV::ClassDecl { name, symbol, methods: t.0, span_start }, t.1)
        },
        other => (other, Seq::<SymbolStore>::empty()),
    }
}

pub open spec fn p2_stmts(s: Seq<StmtV>, env: P2V) -> (Seq<StmtV>, Seq<SymbolStore>)
    decreases s, 0int,
{
    if s.len() == 0 {
        (Seq::<StmtV>::empty(), Seq::<SymbolStore>::empty())
    } else {
        let front = p2_stmts(s.drop_last(), env);
        let last = p2_stmt(s.last(), env);
        (front.0.push(last.0), front.1 + last.1)
    }
}

/// The first pending reference recorded for a symbol.
pub open spec fn find_pending(p: Seq<SymbolStore>, sy: u32) -> Option<SymbolStore>
    decreases p.len(),
{
    if p.len() == 0 {
        None
    } else if p.first().symbol_id == sy {
        Some(p.first())
    } else {
        find_pending(p.drop_first(), sy)
    }
}

pub open spec fn p3_init(e: ExprV, pending: Seq<SymbolStore>, env: P2V) -> ExprV
    decreases e, 1int,
{
    match e {
        ExprV::Arrow { body, span_start } => ExprV::Arrow {
            body: p3_stmts(body, pending, env),
            span_start,
        },
        ExprV::FunctionExpr { body, span_start } => ExprV::FunctionExpr {
            body: p3_stmts(body, pending, env),
            span_start,
        },
        ExprV::Call { callee, arguments, span_start } => ExprV::Call {
            callee,
            arguments: p3_args(arguments, pending, env),
            span_start,
        },
        other => other,
    }
}

pub open spec fn p3_args(s: Seq<ExprV>, pending: Seq<SymbolStore>, env: P2V) -> Seq<ExprV>
    decreases s, 2int,
{
    if s.len() == 0 {
        Seq::<ExprV>::empty()
    } else {
        p3_args(s.drop_last(), pending, env).push(p3_init(s.last(), pending, env))
    }
}

/// The third pass on one declarator: after traversing its initializer,
/// a binding recorded as a class-name carrier has the initializer
/// rewritten with the class-name map of the declaration the reference
/// was found in.
pub open spec fn p3_declarator(d: VarDeclaratorV, pending: Seq<SymbolStore>, env: P2V) -> VarDeclaratorV
    decreases d, 3int,
{
    let init1 = match d.init {
        Some(init) => Some(p3_init(init, pending, env)),
        None => None,
    };
    let init2 = match (init1, d.symbol) {
        (Some(e), Some(sy)) => match find_pending(pending, sy) {
            Some(store) => match lookup_exports(env, store.fn_id) {
                Some(m) => Some(
                    crate::update_attribute::upd_expr(
                        e,
                        crate::update_attribute::UpdCtx {
                            m,
                            links: env.links,
                            fuel: env.fuel,
                            utils: env.utils,
                            list: env.list,
                            fnid: d.span_start,
                        },
                    ).0,
                ),
                None => Some(e),
            },
            None => Some(e),
        },
        (x, _) => x,
    };
    VarDeclaratorV { name: d.name, symbol: d.symbol, init: init2, span_start: d.span_start }
}

pub open spec fn p3_declarators(s: Seq<VarDeclaratorV>, pending: Seq<SymbolStore>, env: P2V) -> Seq<
    VarDeclaratorV,
>
    decreases s, 4int,
{
    if s.len() == 0 {
        Seq::<VarDeclaratorV>::empty()
    } else {
        p3_declarators(s.drop_last(), pending, env).push(
            p3_declarator(s.last(), pending, env),
        )
    }
}

pub open spec fn p3_methods(s: Seq<ClassMethodV>, pending: Seq<SymbolStore>, env: P2V) -> Seq<
    ClassMethodV,
>
    decreases s, 4int,
{
    if s.len() == 0 {
        Seq::<ClassMethodV>::empty()
    } else {
        let m = s.last();
        p3_methods(s.drop_last(), pending, env).push(
            ClassMethodV { body: p3_stmts(m.body, pending, env), span_start: m.span_start },
        )
    }
}

pub open spec fn p3_stmt(stv: StmtV, pending: Seq<SymbolStore>, env: P2V) -> StmtV
    decreases stv, 5int,
{
    match stv {
        StmtV::VarDecl { declarators, span_start } => StmtV::VarDecl {
            declarators: p3_declarators(declarators, pending, env),
            span_start,
        },
        StmtV::FunctionDecl { name, symbol, body, span_start } => StmtV::FunctionDecl {
            name,
            symbol,
            body: p3_stmts(body, pending, env),
            span_start,
        },
        StmtV::ClassDecl { name, symbol, methods, span_start } => StmtV::ClassDecl {
            name,
            symbol,
            methods: p3_methods(methods, pending, env),
            span_start,
        },
        other => other,
    }
}

pub open spec fn p3_stmts(s: Seq<StmtV>, pending: Seq<SymbolStore>, env: P2V) -> Seq<StmtV>
    decreases s, 0int,
{
    if s.len() == 0 {
        Seq::<StmtV>::empty()
    } else {
        p3_stmts(s.drop_last(), pending, env).push(p3_stmt(s.last(), pending, env))
    }
}


/// The map denoted by the exports store, later entries winning.
pub open spec fn estore_map(s: Seq<(u32, StrMap)>) -> Map<u32, Map<Seq<char>, Seq<char>>>
    decreases s.len(),
{
    if s.len() == 0 {
        Map::<u32, Map<Seq<char>, Seq<char>>>::empty()
    } else {
        estore_map(s.drop_last()).insert(s.last().0, s.last().1@)
    }
}

proof fn lemma_estore_prefix(s: Seq<(u32, StrMap)>, i: int, k: u32)
    requires
        0 < i <= s.len(),
        s[i - 1].0 != k,
    ensures
        estore_map(s.subrange(0, i)).contains_key(k) == estore_map(
            s.subrange(0, i - 1),
        ).contains_key(k),
        estore_map(s.subrange(0, i)).contains_key(k) ==> estore_map(s.subrange(0, i))[k]
            == estore_map(s.subrange(0, i - 1))[k],
{
    let a = s.subrange(0, i);
    assert(a.drop_last() =~= s.subrange(0, i - 1));
}

/// The rewrite passes' working environment.
pub struct PassEnv {
    pub css_module_exports: Vec<(u32, StrMap)>,
    pub fn_id_to_class_map: IdMap,
    pub variable_linking: IdMap,
    pub classname_util_symbols: Vec<u32>,
    pub class_name_list: Vec<String>,
}

impl PassEnv {
    pub open spec fn view(&self) -> P2V {
        P2V {
            exports: estore_map(self.css_module_exports@),
            fn_class: self.fn_id_to_class_map@,
            links: self.variable_linking@,
            fuel: self.variable_linking.len_v(),
            utils: self.classname_util_symbols@,
            list: strs_v(self.class_name_list@),
        }
    }

    /// The class-name map of one declaration, a method resolving to its
    /// class's map.
    pub fn get_css_exports(&self, fn_id: u32) -> (r: Option<StrMap>)
        ensures
            match r {
                Some(m) => lookup_exports(self.view(), fn_id) == Some(m@),
                None => lookup_exports(self.view(), fn_id) is None,
            },
    {
        let key = match self.fn_id_to_class_map.get(fn_id) {
            Some(c) => c,
            None => fn_id,
        };
        let ghost s = self.css_module_exports@;
        let mut i: usize = self.css_module_exports.len();
        proof {
            assert(s.subrange(0, s.len() as int) =~= s);
        }
        #[verifier::loop_isolation(false)]
        while i > 0
            invariant
                i <= s.len(),
                estore_map(s).contains_key(key) == estore_map(
                    s.subrange(0, i as int),
                ).contains_key(key),
                estore_map(s).contains_key(key) ==> estore_map(s)[key] == estore_map(
                    s.subrange(0, i as int),
                )[key],
            decreases i,
        {
            if self.css_module_exports[i - 1].0 == key {
                proof {
                    let a = s.subrange(0, i as int);
                    assert(a.last() == s[i as int - 1]);
                }
                return Some(self.css_module_exports[i - 1].1.duplicate());
            }
            proof {
                lemma_estore_prefix(s, i as int, key);
            }
            i = i - 1;
        }
        proof {
            assert(s.subrange(0, 0) =~= Seq::<(u32, StrMap)>::empty());
        }
        None
    }

    /// Builds the replacer for one declaration.
    pub fn make_replacer(&self, fn_id: u32) -> (r: crate::update_attribute::ClassNameReplacer)
        ensures
            r.ctx() == ctx_for(self.view(), fn_id),
    {
        let class_name_map = match self.get_css_exports(fn_id) {
            Some(m) => m,
            None => StrMap::new(),
        };
        let mut utils: Vec<u32> = Vec::new();
        extend_spans(&mut utils, &self.classname_util_symbols);
        proof {
            assert(utils@ =~= self.classname_util_symbols@);
        }
        crate::update_attribute::ClassNameReplacer {
            class_name_map,
            fn_id,
            classname_util_symbols: utils,
            variable_linking: self.variable_linking.duplicate(),
            class_name_list: crate::tree_copy::copy_strings(&self.class_name_list),
        }
    }
}

/// The second pass on one function body: the recursive pass on nested
/// statements, then the class-name walk with this declaration's map.
fn pass2_body(
    body: &Vec<Stmt>,
    span: u32,
    env: &PassEnv,
    pending: &mut Vec<SymbolStore>,
) -> (r: Vec<Stmt>)
    ensures
        ({
            let inner = p2_stmts(stmts_v(body@), env.view());
            let wk = crate::update_attribute::wk_stmts(inner.0, ctx_for(env.view(), span));
            stmts_v(r@) == wk.0 && final(pending)@ == old(pending)@ + (inner.1 + wk.1)
        }),
    decreases *body, 1int,
{
    let ghost orig = pending@;
    let inner = pass2_stmts(body, env, pending);
    let replacer = env.make_replacer(span);
    let out = replacer.visit_function_body(&inner, pending);
    proof {
        let innert = p2_stmts(stmts_v(body@), env.view());
        let wk = crate::update_attribute::wk_stmts(innert.0, ctx_for(env.view(), span));
        assert(pending@ =~= orig + (innert.1 + wk.1));
    }
    out
}

fn pass2_init(e: &Expr, env: &PassEnv, pending: &mut Vec<SymbolStore>) -> (r: Expr)
    ensures
        ({
            let t = p2_init(expr_v(*e), env.view());
            expr_v(r) == t.0 && final(pending)@ == old(pending)@ + t.1
        }),
    decreases *e, 2int,
{
    let ghost orig = pending@;
    match e {
        Expr::Arrow { body, span_start } => Expr::Arrow {
            body: pass2_body(body, *span_start, env, pending),
            span_start: *span_start,
        },
        Expr::FunctionExpr { body, span_start } => Expr::FunctionExpr {
            body: pass2_body(body, *span_start, env, pending),
            span_start: *span_start,
        },
        Expr::Call { callee, arguments, span_start } => {
            let args = pass2_args(arguments, env, pending);
            let cp = crate::tree_copy::copy_expr(callee);
            let ghost cp_v = expr_v(cp);
            let r = Expr::Call { callee: Box::new(cp), arguments: args, span_start: *span_start };
            proof {
                assert(expr_v(r) == (ExprV::Call {
                    callee: Box::new(cp_v),
                    arguments: exprs_v(args@),
                    span_start: *span_start,
                }));
            }
            r
        },
        other => {
            let r = crate::tree_copy::copy_expr(other);
            proof {
                lemma_expr_v_variant(*e);
                assert(pending@ =~= orig + Seq::<SymbolStore>::empty());
            }
            r
        },
    }
}

fn pass2_args(v: &Vec<Expr>, env: &PassEnv, pending: &mut Vec<SymbolStore>) -> (r: Vec<Expr>)
    ensures
        ({
            let t = p2_args(exprs_v(v@), env.view());
            exprs_v(r@) == t.0 && final(pending)@ == old(pending)@ + t.1
        }),
    decreases *v, 3int,
{
    let ghost orig = pending@;
    let mut out: Vec<Expr> = Vec::new();
    let mut i: usize = 0;
    proof {
        assert(exprs_v(v@.subrange(0, 0)) =~= Seq::<ExprV>::empty());
        assert(exprs_v(out@) =~= Seq::<ExprV>::empty());
        assert(pending@ =~= orig + Seq::<SymbolStore>::empty());
    }
    while i < v.len()
        invariant
            i <= v@.len(),
            exprs_v(out@) == p2_args(exprs_v(v@.subrange(0, i as int)), env.view()).0,
            pending@ == orig + p2_args(exprs_v(v@.subrange(0, i as int)), env.view()).1,
        decreases v@.len() - i,
    {
        proof {
            assert(decreases_to!(*v => v@));
            assert(decreases_to!(v@ => v@[i as int]));
        }
        let ghost pre_out = out@;
        let x = pass2_init(&v[i], env, pending);
        out.push(x);
        i = i + 1;
        proof {
            let sub1 = v@.subrange(0, i as int);
            let sub0 = v@.subrange(0, i as int - 1);
            assert(sub1.drop_last() =~= sub0);
            assert(sub1.last() == v@[i as int - 1]);
            let sv1 = exprs_v(sub1);
            let sv0 = exprs_v(sub0);
            assert(sv1 == sv0.push(expr_v(v@[i as int - 1])));
            assert(sv1.drop_last() =~= sv0);
            assert(sv1.last() == expr_v(v@[i as int - 1]));
            assert(out@.drop_last() =~= pre_out);
            assert(exprs_v(out@) =~= exprs_v(pre_out).push(expr_v(out@.last())));
            let front = p2_args(sv0, env.view());
            let last = p2_init(expr_v(v@[i as int - 1]), env.view());
            assert(pending@ =~= orig + (front.1 + last.1));
        }
    }
    proof {
        assert(v@.subrange(0, v@.len() as int) =~= v@);
    }
    out
}

#[verifier::rlimit(100)]
fn pass2_declarator_list(
    declarators: &Vec<VarDeclarator>,
    env: &PassEnv,
    pending: &mut Vec<SymbolStore>,
) -> (r: Vec<VarDeclarator>)
    ensures
        ({
            let t = p2_declarators(declarators_v(declarators@), env.view());
            declarators_v(r@) == t.0 && final(pending)@ == old(pending)@ + t.1
        }),
    decreases *declarators, 5int,
{
    let ghost orig = pending@;
    let mut out: Vec<VarDeclarator> = Vec::new();
    let mut i: usize = 0;
    proof {
        assert(declarators_v(declarators@.subrange(0, 0)) =~= Seq::<VarDeclaratorV>::empty());
        assert(declarators_v(out@) =~= Seq::<VarDeclaratorV>::empty());
        assert(pending@ =~= orig + Seq::<SymbolStore>::empty());
    }
    #[verifier::loop_isolation(false)]
    while i < declarators.len()
        invariant
            i <= declarators@.len(),
            declarators_v(out@) == p2_declarators(
                declarators_v(declarators@.subrange(0, i as int)),
                env.view(),
            ).0,
            pending@ == orig + p2_declarators(
                declarators_v(declarators@.subrange(0, i as int)),
                env.view(),
            ).1,
        decreases declarators@.len() - i,
    {
        proof {
            assert(decreases_to!(*declarators => declarators@));
            assert(decreases_to!(declarators@ => declarators@[i as int]));
        }
        let d = &declarators[i];
                let ghost pre_out = out@;
                let new_init: Option<Expr> = match &d.init {
                    Some(init) => Some(pass2_init(init, env, pending)),
                    None => None,
                };
                out.push(
                    VarDeclarator {
                        name: d.name.clone(),
                        symbol: d.symbol,
                        init: new_init,
                        span_start: d.span_start,
                    },
                );
                i = i + 1;
                proof {
                    let sub1 = declarators@.subrange(0, i as int);
                    let sub0 = declarators@.subrange(0, i as int - 1);
                    assert(sub1.drop_last() =~= sub0);
                    assert(sub1.last() == declarators@[i as int - 1]);
                    let sv1 = declarators_v(sub1);
                    let sv0 = declarators_v(sub0);
                    assert(sv1 == sv0.push(declarator_v(declarators@[i as int - 1])));
                    assert(sv1.drop_last() =~= sv0);
                    assert(sv1.last() == declarator_v(declarators@[i as int - 1]));
                    assert(out@.drop_last() =~= pre_out);
                    assert(declarators_v(out@) =~= declarators_v(pre_out).push(
                        declarator_v(out@.last()),
                    ));
                    let front = p2_declarators(sv0, env.view());
                    let last = p2_declarator(declarator_v(declarators@[i as int - 1]), env.view());
                    assert(pending@ =~= orig + (front.1 + last.1));
                }
            }
    proof {
        assert(declarators@.subrange(0, declarators@.len() as int) =~= declarators@);
    }
    out
}

#[verifier::rlimit(100)]
fn pass2_method_list(
    methods: &Vec<ClassMethod>,
    env: &PassEnv,
    pending: &mut Vec<SymbolStore>,
) -> (r: Vec<ClassMethod>)
    ensures
        ({
            let t = p2_methods(methods_v(methods@), env.view());
            methods_v(r@) == t.0 && final(pending)@ == old(pending)@ + t.1
        }),
    decreases *methods, 5int,
{
    let ghost orig = pending@;
    let mut out: Vec<ClassMethod> = Vec::new();
    let mut i: usize = 0;
    proof {
        assert(methods_v(methods@.subrange(0, 0)) =~= Seq::<ClassMethodV>::empty());
        assert(methods_v(out@) =~= Seq::<ClassMethodV>::empty());
        assert(pending@ =~= orig + Seq::<SymbolStore>::empty());
    }
    #[verifier::loop_isolation(false)]
    while i < methods.len()
        invariant
            i <= methods@.len(),
            methods_v(out@) == p2_methods(methods_v(methods@.subrange(0, i as int)), env.view()).0,
            pending@ == orig + p2_methods(
                methods_v(methods@.subrange(0, i as int)),
                env.view(),
            ).1,
        decreases methods@.len() - i,
    {
        proof {
            assert(decreases_to!(*methods => methods@));
            assert(decreases_to!(methods@ => methods@[i as int]));
            assert(decreases_to!(methods@[i as int] => methods@[i as int].body));
        }
        let m = &methods[i];
        let ghost pre_out = out@;
        let ghost pre_pending = pending@;
        let new_body = pass2_body(&m.body, m.span_start, env, pending);
        out.push(ClassMethod { body: new_body, span_start: m.span_start });
        i = i + 1;
        proof {
            let sub1 = methods@.subrange(0, i as int);
            let sub0 = methods@.subrange(0, i as int - 1);
            assert(sub1.drop_last() =~= sub0);
            assert(sub1.last() == methods@[i as int - 1]);
            let sv1 = methods_v(sub1);
            let sv0 = methods_v(sub0);
            assert(sv1 == sv0.push(crate::ast::method_v(methods@[i as int - 1])));
            assert(sv1.drop_last() =~= sv0);
            assert(sv1.last() == crate::ast::method_v(methods@[i as int - 1]));
            assert(out@.drop_last() =~= pre_out);
            assert(methods_v(out@) =~= methods_v(pre_out).push(
                crate::ast::method_v(out@.last()),
            ));
            let front = p2_methods(sv0, env.view());
            let mv = crate::ast::method_v(methods@[i as int - 1]);
            let innert = p2_stmts(mv.body, env.view());
            let wk = crate::update_attribute::wk_stmts(
                innert.0,
                ctx_for(env.view(), mv.span_start),
            );
            assert(pending@ =~= orig + (front.1 + (innert.1 + wk.1)));
        }
    }
    proof {
        assert(methods@.subrange(0, methods@.len() as int) =~= methods@);
    }
    out
}

#[verifier::rlimit(100)]
fn pass2_stmt(stmt: &Stmt, env: &PassEnv, pending: &mut Vec<SymbolStore>) -> (r: Stmt)
    ensures
        ({
            let t = p2_stmt(stmt_v(*stmt), env.view());
            stmt_v(r) == t.0 && final(pending)@ == old(pending)@ + t.1
        }),
    decreases *stmt, 6int,
{
    let ghost orig = pending@;
    match stmt {
        Stmt::VarDecl { declarators, span_start } => {
            proof {
                assert(decreases_to!(*stmt => *declarators));
            }
            let out = pass2_declarator_list(declarators, env, pending);
            Stmt::VarDecl { declarators: out, span_start: *span_start }
        },
        Stmt::FunctionDecl { name, symbol, body, span_start } => Stmt::FunctionDecl {
            name: name.clone(),
            symbol: *symbol,
            body: pass2_body(body, *span_start, env, pending),
            span_start: *span_start,
        },
        Stmt::ClassDecl { name, symbol, methods, span_start } => {
            proof {
                assert(decreases_to!(*stmt => *methods));
            }
            let out = pass2_method_list(methods, env, pending);
            Stmt::ClassDecl {
                name: name.clone(),
                symbol: *symbol,
                methods: out,
                span_start: *span_start,
            }
        },
        other => {
            let r = crate::tree_copy::copy_stmt(other);
            proof {
                lemma_stmt_v_variant(*stmt);
                assert(pending@ =~= orig + Seq::<SymbolStore>::empty());
            }
            r
        },
    }
}

/// The second pass over a statement list.
pub fn pass2_stmts(v: &Vec<Stmt>, env: &PassEnv, pending: &mut Vec<SymbolStore>) -> (r: Vec<Stmt>)
    ensures
        ({
            let t = p2_stmts(stmts_v(v@), env.view());
            stmts_v(r@) == t.0 && final(pending)@ == old(pending)@ + t.1
        }),
    decreases *v, 0int,
{
    let ghost orig = pending@;
    let mut out: Vec<Stmt> = Vec::new();
    let mut i: usize = 0;
    proof {
        assert(stmts_v(v@.subrange(0, 0)) =~= Seq::<StmtV>::empty());
        assert(stmts_v(out@) =~= Seq::<StmtV>::empty());
        assert(pending@ =~= orig + Seq::<SymbolStore>::empty());
    }
    while i < v.len()
        invariant
            i <= v@.len(),
            stmts_v(out@) == p2_stmts(stmts_v(v@.subrange(0, i as int)), env.view()).0,
            pending@ == orig + p2_stmts(stmts_v(v@.subrange(0, i as int)), env.view()).1,
        decreases v@.len() - i,
    {
        proof {
            assert(decreases_to!(*v => v@));
            assert(decreases_to!(v@ => v@[i as int]));
        }
        let ghost pre_out = out@;
        let x = pass2_stmt(&v[i], env, pending);
        out.push(x);
        i = i + 1;
        proof {
            let sub1 = v@.subrange(0, i as int);
            let sub0 = v@.subrange(0, i as int - 1);
            assert(sub1.drop_last() =~= sub0);
            assert(sub1.last() == v@[i as int - 1]);
            let sv1 = stmts_v(sub1);
            let sv0 = stmts_v(sub0);
            assert(sv1 == sv0.push(stmt_v(v@[i as int - 1])));
            assert(sv1.drop_last() =~= sv0);
            assert(sv1.last() == stmt_v(v@[i as int - 1]));
            assert(out@.drop_last() =~= pre_out);
            assert(stmts_v(out@) =~= stmts_v(pre_out).push(stmt_v(out@.last())));
            let front = p2_stmts(sv0, env.view());
            let last = p2_stmt(stmt_v(v@[i as int - 1]), env.view());
            assert(pending@ =~= orig + (front.1 + last.1));
        }
    }
    proof {
        assert(v@.subrange(0, v@.len() as int) =~= v@);
    }
    out
}


/// The first recorded pending reference for a symbol.
fn find_pending_exec(p: &Vec<SymbolStore>, sy: u32) -> (r: Option<SymbolStore>)
    ensures
        r == find_pending(p@, sy),
{
    let ghost pv = p@;
    let mut i: usize = 0;
    proof {
        assert(pv.subrange(0, pv.len() as int) =~= pv);
        assert(pv.subrange(0 as int, pv.len() as int) == pv);
    }
    #[verifier::loop_isolation(false)]
    while i < p.len()
        invariant
            i <= pv.len(),
            find_pending(pv, sy) == find_pending(pv.subrange(i as int, pv.len() as int), sy),
        decreases pv.len() - i,
    {
        let ghost tail = pv.subrange(i as int, pv.len() as int);
        proof {
            assert(tail.first() == pv[i as int]);
            assert(tail.drop_first() =~= pv.subrange(i as int + 1, pv.len() as int));
        }
        if p[i].symbol_id == sy {
            return Some(p[i]);
        }
        i = i + 1;
    }
    proof {
        assert(pv.subrange(pv.len() as int, pv.len() as int) =~= Seq::<SymbolStore>::empty());
    }
    None
}

fn pass3_init(e: &Expr, pending: &Vec<SymbolStore>, env: &PassEnv) -> (r: Expr)
    ensures
        expr_v(r) == p3_init(expr_v(*e), pending@, env.view()),
    decreases *e, 1int,
{
    match e {
        Expr::Arrow { body, span_start } => Expr::Arrow {
            body: pass3_stmts(body, pending, env),
            span_start: *span_start,
        },
        Expr::FunctionExpr { body, span_start } => Expr::FunctionExpr {
            body: pass3_stmts(body, pending, env),
            span_start: *span_start,
        },
        Expr::Call { callee, arguments, span_start } => {
            let args = pass3_args(arguments, pending, env);
            let cp = crate::tree_copy::copy_expr(callee);
            let ghost cp_v = expr_v(cp);
            let r = Expr::Call { callee: Box::new(cp), arguments: args, span_start: *span_start };
            proof {
                assert(expr_v(r) == (ExprV::Call {
                    callee: Box::new(cp_v),
                    arguments: exprs_v(args@),
                    span_start: *span_start,
                }));
            }
            r
        },
        other => {
            proof {
                lemma_expr_v_variant(*e);
            }
            crate::tree_copy::copy_expr(other)
        },
    }
}

fn pass3_args(v: &Vec<Expr>, pending: &Vec<SymbolStore>, env: &PassEnv) -> (r: Vec<Expr>)
    ensures
        exprs_v(r@) == p3_args(exprs_v(v@), pending@, env.view()),
    decreases *v, 2int,
{
    let mut out: Vec<Expr> = Vec::new();
    let mut i: usize = 0;
    proof {
        assert(exprs_v(v@.subrange(0, 0)) =~= Seq::<ExprV>::empty());
        assert(exprs_v(out@) =~= Seq::<ExprV>::empty());
    }
    while i < v.len()
        invariant
            i <= v@.len(),
            exprs_v(out@) == p3_args(exprs_v(v@.subrange(0, i as int)), pending@, env.view()),
        decreases v@.len() - i,
    {
        proof {
            assert(decreases_to!(*v => v@));
            assert(decreases_to!(v@ => v@[i as int]));
        }
        let ghost pre_out = out@;
        let x = pass3_init(&v[i], pending, env);
        out.push(x);
        i = i + 1;
        proof {
            let sub1 = v@.subrange(0, i as int);
            let sub0 = v@.subrange(0, i as int - 1);
            assert(sub1.drop_last() =~= sub0);
            assert(sub1.last() == v@[i as int - 1]);
            let sv1 = exprs_v(sub1);
            let sv0 = exprs_v(sub0);
            assert(sv1 == sv0.push(expr_v(v@[i as int - 1])));
            assert(sv1.drop_last() =~= sv0);
            assert(sv1.last() == expr_v(v@[i as int - 1]));
            assert(out@.drop_last() =~= pre_out);
            assert(exprs_v(out@) =~= exprs_v(pre_out).push(expr_v(out@.last())));
        }
    }
    proof {
        assert(v@.subrange(0, v@.len() as int) =~= v@);
    }
    out
}

fn pass3_declarator(d: &VarDeclarator, pending: &Vec<SymbolStore>, env: &PassEnv) -> (r:
    VarDeclarator)
    ensures
        declarator_v(r) == p3_declarator(declarator_v(*d), pending@, env.view()),
    decreases *d, 3int,
{
    let init1: Option<Expr> = match &d.init {
        Some(init) => Some(pass3_init(init, pending, env)),
        None => None,
    };
    let init2: Option<Expr> = match (init1, d.symbol) {
        (Some(e), Some(sy)) => match find_pending_exec(pending, sy) {
            Some(store) => match env.get_css_exports(store.fn_id) {
                Some(m) => {
                    let replacer = crate::update_attribute::ClassNameReplacer {
                        class_name_map: m,
                        fn_id: d.span_start,
                        classname_util_symbols: {
                            let mut utils: Vec<u32> = Vec::new();
                            extend_spans(&mut utils, &env.classname_util_symbols);
                            proof {
                                assert(utils@ =~= env.classname_util_symbols@);
                            }
                            utils
                        },
                        variable_linking: env.variable_linking.duplicate(),
                        class_name_list: crate::tree_copy::copy_strings(&env.class_name_list),
                    };
                    let mut discard: Vec<SymbolStore> = Vec::new();
                    Some(replacer.update_expression(&e, &mut discard))
                },
                None => Some(e),
            },
            None => Some(e),
        },
        (x, _) => x,
    };
    VarDeclarator {
        name: d.name.clone(),
        symbol: d.symbol,
        init: init2,
        span_start: d.span_start,
    }
}

#[verifier::rlimit(100)]
fn pass3_stmt(stmt: &Stmt, pending: &Vec<SymbolStore>, env: &PassEnv) -> (r: Stmt)
    ensures
        stmt_v(r) == p3_stmt(stmt_v(*stmt), pending@, env.view()),
    decreases *stmt, 5int,
{
    match stmt {
        Stmt::VarDecl { declarators, span_start } => {
            let mut out: Vec<VarDeclarator> = Vec::new();
            let mut i: usize = 0;
            proof {
                assert(declarators_v(declarators@.subrange(0, 0)) =~= Seq::<
                    VarDeclaratorV,
                >::empty());
                assert(declarators_v(out@) =~= Seq::<VarDeclaratorV>::empty());
            }
            #[verifier::loop_isolation(false)]
            while i < declarators.len()
                invariant
                    i <= declarators@.len(),
                    declarators_v(out@) == p3_declarators(
                        declarators_v(declarators@.subrange(0, i as int)),
                        pending@,
                        env.view(),
                    ),
                decreases declarators@.len() - i,
            {
                proof {
                    assert(decreases_to!(*stmt => *declarators));
                    assert(decreases_to!(*declarators => declarators@));
                    assert(decreases_to!(declarators@ => declarators@[i as int]));
                }
                let ghost pre_out = out@;
                let x = pass3_declarator(&declarators[i], pending, env);
                out.push(x);
                i = i + 1;
                proof {
                    let sub1 = declarators@.subrange(0, i as int);
                    let sub0 = declarators@.subrange(0, i as int - 1);
                    assert(sub1.drop_last() =~= sub0);
                    assert(sub1.last() == declarators@[i as int - 1]);
                    let sv1 = declarators_v(sub1);
                    let sv0 = declarators_v(sub0);
                    assert(sv1 == sv0.push(declarator_v(declarators@[i as int - 1])));
                    assert(sv1.drop_last() =~= sv0);
                    assert(sv1.last() == declarator_v(declarators@[i as int - 1]));
                    assert(out@.drop_last() =~= pre_out);
                    assert(declarators_v(out@) =~= declarators_v(pre_out).push(
                        declarator_v(out@.last()),
                    ));
                }
            }
            proof {
                assert(declarators@.subrange(0, declarators@.len() as int) =~= declarators@);
            }
            Stmt::VarDecl { declarators: out, span_start: *span_start }
        },
        Stmt::FunctionDecl { name, symbol, body, span_start } => Stmt::FunctionDecl {
            name: name.clone(),
            symbol: *symbol,
            body: pass3_stmts(body, pending, env),
            span_start: *span_start,
        },
        Stmt::ClassDecl { name, symbol, methods, span_start } => {
            let mut out: Vec<ClassMethod> = Vec::new();
            let mut i: usize = 0;
            proof {
                assert(methods_v(methods@.subrange(0, 0)) =~= Seq::<ClassMethodV>::empty());
                assert(methods_v(out@) =~= Seq::<ClassMethodV>::empty());
            }
            #[verifier::loop_isolation(false)]
            while i < methods.len()
                invariant
                    i <= methods@.len(),
                    methods_v(out@) == p3_methods(
                        methods_v(methods@.subrange(0, i as int)),
                        pending@,
                        env.view(),
                    ),
                decreases methods@.len() - i,
            {
                proof {
                    assert(decreases_to!(*stmt => *methods));
                    assert(decreases_to!(*methods => methods@));
                    assert(decreases_to!(methods@ => methods@[i as int]));
                    assert(decreases_to!(methods@[i as int] => methods@[i as int].body));
                }
                let m = &methods[i];
                let ghost pre_out = out@;
                let new_body = pass3_stmts(&m.body, pending, env);
                out.push(ClassMethod { body: new_body, span_start: m.span_start });
                i = i + 1;
                proof {
                    let sub1 = methods@.subrange(0, i as int);
                    let sub0 = methods@.subrange(0, i as int - 1);
                    assert(sub1.drop_last() =~= sub0);
                    assert(sub1.last() == methods@[i as int - 1]);
                    let sv1 = methods_v(sub1);
                    let sv0 = methods_v(sub0);
                    assert(sv1 == sv0.push(crate::ast::method_v(methods@[i as int - 1])));
                    assert(sv1.drop_last() =~= sv0);
                    assert(sv1.last() == crate::ast::method_v(methods@[i as int - 1]));
                    assert(out@.drop_last() =~= pre_out);
                    assert(methods_v(out@) =~= methods_v(pre_out).push(
                        crate::ast::method_v(out@.last()),
                    ));
                }
            }
            proof {
                assert(methods@.subrange(0, methods@.len() as int) =~= methods@);
            }
            Stmt::ClassDecl {
                name: name.clone(),
                symbol: *symbol,
                methods: out,
                span_start: *span_start,
            }
        },
        other => {
            proof {
                lemma_stmt_v_variant(*stmt);
            }
            crate::tree_copy::copy_stmt(other)
        },
    }
}

/// The third pass over a statement list.
pub fn pass3_stmts(v: &Vec<Stmt>, pending: &Vec<SymbolStore>, env: &PassEnv) -> (r: Vec<Stmt>)
    ensures
        stmts_v(r@) == p3_stmts(stmts_v(v@), pending@, env.view()),
    decreases *v, 0int,
{
    let mut out: Vec<Stmt> = Vec::new();
    let mut i: usize = 0;
    proof {
        assert(stmts_v(v@.subrange(0, 0)) =~= Seq::<StmtV>::empty());
        assert(stmts_v(out@) =~= Seq::<StmtV>::empty());
    }
    while i < v.len()
        invariant
            i <= v@.len(),
            stmts_v(out@) == p3_stmts(stmts_v(v@.subrange(0, i as int)), pending@, env.view()),
        decreases v@.len() - i,
    {
        proof {
            assert(decreases_to!(*v => v@));
            assert(decreases_to!(v@ => v@[i as int]));
        }
        let ghost pre_out = out@;
        let x = pass3_stmt(&v[i], pending, env);
        out.push(x);
        i = i + 1;
        proof {
            let sub1 = v@.subrange(0, i as int);
            let sub0 = v@.subrange(0, i as int - 1);
            assert(sub1.drop_last() =~= sub0);
            assert(sub1.last() == v@[i as int - 1]);
            let sv1 = stmts_v(sub1);
            let sv0 = stmts_v(sub0);
            assert(sv1 == sv0.push(stmt_v(v@[i as int - 1])));
            assert(sv1.drop_last() =~= sv0);
            assert(sv1.last() == stmt_v(v@[i as int - 1]));
            assert(out@.drop_last() =~= pre_out);
            assert(stmts_v(out@) =~= stmts_v(pre_out).push(stmt_v(out@.last())));
        }
    }
    proof {
        assert(v@.subrange(0, v@.len() as int) =~= v@);
    }
    out
}


// ----------------------------------------------------------------------
// Compiling the collected CSS.
// ----------------------------------------------------------------------

/// The concatenation of one declaration's scoped CSS texts, oldest
/// first; `None` when it has none.
pub open spec fn scoped_bundle(l: Seq<(Seq<char>, bool)>) -> Option<Seq<char>>
    decreases l.len(),
{
    if l.len() == 0 {
        None
    } else {
        let front = scoped_bundle(l.drop_last());
        if !l.last().1 {
            match front {
                Some(x) => Some(x + l.last().0),
                None => Some(l.last().0),
            }
        } else {
            front
        }
    }
}

/// The concatenation of one declaration's global CSS texts.
pub open spec fn global_bundle(l: Seq<(Seq<char>, bool)>) -> Option<Seq<char>>
    decreases l.len(),
{
    if l.len() == 0 {
        None
    } else {
        let front = global_bundle(l.drop_last());
        if l.last().1 {
            match front {
                Some(x) => Some(x + l.last().0),
                None => Some(l.last().0),
            }
        } else {
            front
        }
    }
}

/// The raw bundles of the style map's first `i` entries, in compile
/// order: each declaration's scoped bundle (when present), then its
/// global one; the flag marks the global kind.
pub open spec fn bundle_list(
    entries: Seq<(u32, Seq<(Seq<char>, bool)>)>,
    i: int,
) -> Seq<(Seq<char>, bool)>
    decreases i,
{
    if i <= 0 || i > entries.len() {
        Seq::<(Seq<char>, bool)>::empty()
    } else {
        let front = bundle_list(entries, i - 1);
        let e = entries[i - 1];
        let after_scoped = match scoped_bundle(e.1) {
            Some(css) => front.push((css, false)),
            None => front,
        };
        match global_bundle(e.1) {
            Some(css) => after_scoped.push((css, true)),
            None => after_scoped,
        }
    }
}

/// The text compiled for the bundle at one position: the host's
/// substitute when it supplied one, the raw text otherwise — the
/// fallback when the host's CSS preprocessor is absent or failed.
pub open spec fn bundle_text(raw: Seq<char>, subs: Seq<Option<Seq<char>>>, k: int) -> Seq<char> {
    if 0 <= k < subs.len() && subs[k] is Some {
        subs[k]->Some_0
    } else {
        raw
    }
}

pub open spec fn subs_v(s: Seq<Option<String>>) -> Seq<Option<Seq<char>>> {
    s.map_values(
        |o: Option<String>|
            match o {
                Some(t) => Some(t@),
                None => None,
            },
    )
}

/// One raw CSS bundle as offered to the host's CSS preprocessor: its
/// concatenated text and whether it is the global (unscoped) kind.
pub struct CssBundle {
    pub css: String,
    pub is_global: bool,
}

pub open spec fn bundles_v(s: Seq<CssBundle>) -> Seq<(Seq<char>, bool)> {
    s.map_values(|b: CssBundle| (b.css@, b.is_global))
}

pub open spec fn warn_entries(ws: Seq<Seq<char>>) -> Seq<(Seq<char>, Seq<char>)> {
    ws.map_values(
        |w: Seq<char>| (w, crate::logger::spec_level_str(crate::logger::LogLevel::Warn)),
    )
}

pub open spec fn parse_error_entry() -> (Seq<char>, Seq<char>) {
    (
        "failed to parse CSS"@,
        crate::logger::spec_level_str(crate::logger::LogLevel::Error),
    )
}

/// One CSS bundle through preprocessing and compilation: the emitted
/// chunk (if the engine accepted the text), the log entries, and — in
/// scoped mode — the class-name map.
pub open spec fn compile_bundle(
    css: Seq<char>,
    fname: Seq<char>,
    module: bool,
    use_theme: bool,
    theme: Option<Theme>,
) -> (Option<(Seq<char>, Map<Seq<char>, Seq<char>>)>, Seq<(Seq<char>, Seq<char>)>) {
    let pre = crate::parse_css::preprocessed(css, use_theme, theme);
    let c = crate::parse_css::compiled_css(pre.0, fname, module);
    match c {
        Some(t) => (Some(t), warn_entries(pre.1)),
        None => (None, warn_entries(pre.1).push(parse_error_entry())),
    }
}

/// What compiling the first `i` style-map entries produces: the CSS
/// chunks in order (each declaration's scoped output before its global
/// output), the per-declaration class-name maps, and the log entries.
/// Each bundle's text may be substituted by the host (the CSS
/// preprocessor); global CSS never contributes a class-name map.
pub open spec fn pc_entries(
    entries: Seq<(u32, Seq<(Seq<char>, bool)>)>,
    i: int,
    path: Seq<char>,
    use_theme: bool,
    theme: Option<Theme>,
    subs: Seq<Option<Seq<char>>>,
) -> (Seq<Seq<char>>, Map<u32, Map<Seq<char>, Seq<char>>>, Seq<(Seq<char>, Seq<char>)>)
    decreases i,
{
    if i <= 0 || i > entries.len() {
        (
            Seq::<Seq<char>>::empty(),
            Map::<u32, Map<Seq<char>, Seq<char>>>::empty(),
            Seq::<(Seq<char>, Seq<char>)>::empty(),
        )
    } else {
        let front = pc_entries(entries, i - 1, path, use_theme, theme, subs);
        let e = entries[i - 1];
        let base = bundle_list(entries, i - 1).len() as int;
        let after_scoped: (Seq<Seq<char>>, Map<u32, Map<Seq<char>, Seq<char>>>, Seq<
            (Seq<char>, Seq<char>),
        >) = match scoped_bundle(e.1) {
            Some(css) => {
                let t = compile_bundle(
                    bundle_text(css, subs, base),
                    path + seq![':'] + spec_dec((i - 1) as nat),
                    true,
                    use_theme,
                    theme,
                );
                match t.0 {
                    Some(out) => (
                        front.0.push(out.0),
                        front.1.insert(e.0, out.1),
                        front.2 + t.1,
                    ),
                    None => (front.0, front.1, front.2 + t.1),
                }
            },
            None => front,
        };
        let gbase = if scoped_bundle(e.1) is Some {
            base + 1
        } else {
            base
        };
        match global_bundle(e.1) {
            Some(css) => {
                let t = compile_bundle(
                    bundle_text(css, subs, gbase),
                    path + seq![':'] + spec_dec(e.0 as nat),
                    false,
                    use_theme,
                    theme,
                );
                match t.0 {
                    Some(out) => (
                        after_scoped.0.push(out.0),
                        after_scoped.1,
                        after_scoped.2 + t.1,
                    ),
                    None => (after_scoped.0, after_scoped.1, after_scoped.2 + t.1),
                }
            },
            None => after_scoped,
        }
    }
}

/// Global CSS never receives a class-name map: a style map whose
/// entries hold no scoped CSS contributes no export entries, whatever
/// the bundle substitutes.
pub proof fn lemma_global_only_no_exports(
    entries: Seq<(u32, Seq<(Seq<char>, bool)>)>,
    i: int,
    path: Seq<char>,
    use_theme: bool,
    theme: Option<Theme>,
    subs: Seq<Option<Seq<char>>>,
)
    requires
        forall|j: int| 0 <= j < entries.len() ==> scoped_bundle((#[trigger] entries[j]).1) is None,
    ensures
        pc_entries(entries, i, path, use_theme, theme, subs).1 =~= Map::<
            u32,
            Map<Seq<char>, Seq<char>>,
        >::empty(),
    decreases i,
{
    if i <= 0 || i > entries.len() {
    } else {
        lemma_global_only_no_exports(entries, i - 1, path, use_theme, theme, subs);
    }
}

/// Concatenates one declaration's CSS of the given scope.
fn build_bundle(list: &Vec<CSSData>, want_global: bool) -> (r: Option<String>)
    ensures
        ({
            let b = if want_global {
                global_bundle(crate::style_tag::css_list_v(list@))
            } else {
                scoped_bundle(crate::style_tag::css_list_v(list@))
            };
            match r {
                Some(x) => b == Some(x@),
                None => b is None,
            }
        }),
{
    let ghost lv = crate::style_tag::css_list_v(list@);
    let mut acc: Option<String> = None;
    let mut i: usize = 0;
    proof {
        crate::css_map::lemma_css_list_pointwise(list@);
        assert(lv.subrange(0, 0) =~= Seq::<(Seq<char>, bool)>::empty());
    }
    #[verifier::loop_isolation(false)]
    while i < list.len()
        invariant
            i <= list@.len(),
            ({
                let b = if want_global {
                    global_bundle(lv.subrange(0, i as int))
                } else {
                    scoped_bundle(lv.subrange(0, i as int))
                };
                match acc {
                    Some(x) => b == Some(x@),
                    None => b is None,
                }
            }),
        decreases list@.len() - i,
    {
        let d = &list[i];
        if d.is_global == want_global {
            match acc {
                Some(mut x) => {
                    append_str(&mut x, d.raw_css.as_str());
                    acc = Some(x);
                },
                None => {
                    acc = Some(d.raw_css.clone());
                },
            }
        }
        i = i + 1;
        proof {
            let sub1 = lv.subrange(0, i as int);
            let sub0 = lv.subrange(0, i as int - 1);
            assert(sub1.drop_last() =~= sub0);
            assert(sub1.last() == lv[i as int - 1]);
            assert(lv[i as int - 1] == list@[i as int - 1]@);
        }
    }
    proof {
        assert(lv.subrange(0, lv.len() as int) =~= lv);
    }
    acc
}

/// A per-bundle filename: the source path, a colon, and a number.
fn bundle_name(path: &str, n: u64) -> (r: String)
    ensures
        r@ == path@ + seq![':'] + spec_dec(n as nat),
{
    let mut s = String::from_str(path);
    push_char(&mut s, ':');
    let d = to_dec(n);
    append_str(&mut s, d.as_str());
    proof {
        assert(s@ =~= path@ + seq![':'] + spec_dec(n as nat));
    }
    s
}

/// The raw bundles of every style-map entry, in compile order: what
/// the host's CSS preprocessor is offered before compilation.
pub fn collect_bundles(smap: &StyleMap) -> (r: Vec<CssBundle>)
    ensures
        bundles_v(r@) == bundle_list(smap@, smap@.len() as int),
{
    let ghost entries = smap@;
    let mut out: Vec<CssBundle> = Vec::new();
    let n = smap.entry_count();
    let mut i: usize = 0;
    proof {
        assert(bundles_v(out@) =~= bundle_list(entries, 0));
    }
    #[verifier::loop_isolation(false)]
    while i < n
        invariant
            i <= n,
            bundles_v(out@) == bundle_list(entries, i as int),
        decreases n - i,
    {
        let (_, list) = smap.entry_at(i);
        let scoped = build_bundle(&list, false);
        let ghost pre = out@;
        match scoped {
            Some(css) => {
                out.push(CssBundle { css, is_global: false });
                proof {
                    assert(bundles_v(out@) =~= bundles_v(pre).push((out@.last().css@, false)));
                }
            },
            None => {},
        }
        let global = build_bundle(&list, true);
        let ghost pre2 = out@;
        match global {
            Some(css) => {
                out.push(CssBundle { css, is_global: true });
                proof {
                    assert(bundles_v(out@) =~= bundles_v(pre2).push((out@.last().css@, true)));
                }
            },
            None => {},
        }
        i = i + 1;
    }
    out
}

/// The text to compile for the bundle at position `base`: the host's
/// substitute when one was supplied, the raw text otherwise.  `k` is
/// `base` clamped to the substitute list's length.
fn choose_bundle_text<'a>(
    subs: &'a Vec<Option<String>>,
    k: usize,
    raw: &'a String,
    Ghost(base): Ghost<int>,
) -> (r: &'a String)
    requires
        base <= subs@.len() ==> k as int == base,
        base > subs@.len() ==> k as int == subs@.len(),
    ensures
        r@ == bundle_text(raw@, subs_v(subs@), base),
{
    if k < subs.len() {
        proof {
            assert(base == k as int);
            assert(subs_v(subs@)[base] == (match subs@[base] {
                Some(t) => Some(t@),
                None => None::<Seq<char>>,
            }));
        }
        match &subs[k] {
            Some(t) => t,
            None => raw,
        }
    } else {
        raw
    }
}

/// Compiles every declaration's CSS: the scoped bundle in scoped mode
/// (recording its class-name map), then the global bundle unscoped.
/// Each bundle's text may first be replaced by the host's substitute
/// (the CSS preprocessor's output); a missing substitute means the raw
/// text, the fallback when the preprocessor is absent or failed.  A
/// bundle the engine rejects is logged and omitted; the other bundles
/// are unaffected.
pub fn process_css(
    smap: &StyleMap,
    subs: &Vec<Option<String>>,
    file_path: &str,
    use_theme: bool,
    theme: &Option<Theme>,
    logger: &mut Logger,
) -> (r: (Vec<String>, Vec<(u32, StrMap)>))
    ensures
        ({
            let t = pc_entries(
                smap@,
                smap@.len() as int,
                file_path@,
                use_theme,
                *theme,
                subs_v(subs@),
            );
            &&& strs_v(r.0@) == t.0
            &&& estore_map(r.1@) == t.1
            &&& final(logger)@ == old(logger)@ + t.2
        }),
{
    let ghost entries = smap@;
    let ghost sv = subs_v(subs@);
    let ghost orig_log = logger@;
    let mut chunks: Vec<String> = Vec::new();
    let mut exports: Vec<(u32, StrMap)> = Vec::new();
    let n = smap.entry_count();
    let mut i: usize = 0;
    let mut k: usize = 0;
    proof {
        assert(strs_v(chunks@) =~= pc_entries(entries, 0, file_path@, use_theme, *theme, sv).0);
        assert(estore_map(exports@) =~= pc_entries(entries, 0, file_path@, use_theme, *theme, sv).1);
        assert(logger@ =~= orig_log + pc_entries(entries, 0, file_path@, use_theme, *theme, sv).2);
    }
    #[verifier::loop_isolation(false)]
    while i < n
        invariant
            i <= n,
            strs_v(chunks@) == pc_entries(entries, i as int, file_path@, use_theme, *theme, sv).0,
            estore_map(exports@) == pc_entries(
                entries,
                i as int,
                file_path@,
                use_theme,
                *theme,
                sv,
            ).1,
            logger@ == orig_log + pc_entries(entries, i as int, file_path@, use_theme, *theme, sv).2,
            bundle_list(entries, i as int).len() <= sv.len() ==> k as int == bundle_list(
                entries,
                i as int,
            ).len(),
            bundle_list(entries, i as int).len() > sv.len() ==> k as int == sv.len(),
        decreases n - i,
    {
        let (fn_id, list) = smap.entry_at(i);
        let ghost e = entries[i as int];
        let ghost base = bundle_list(entries, i as int).len() as int;
        proof {
            assert((fn_id, crate::style_tag::css_list_v(list@)) == e);
        }
        let scoped = build_bundle(&list, false);
        match scoped {
            Some(css) => {
                let text = choose_bundle_text(subs, k, &css, Ghost(base));
                if k < subs.len() {
                    k = k + 1;
                }
                let fname = bundle_name(file_path, i as u64);
                let ghost pre_chunks = chunks@;
                let ghost pre_exports = exports@;
                match crate::parse_css::parse_css(
                    text.as_str(),
                    fname.as_str(),
                    true,
                    use_theme,
                    theme,
                    logger,
                ) {
                    Ok(out) => {
                        chunks.push(out.code);
                        exports.push((fn_id, out.exports));
                        proof {
                            assert(strs_v(chunks@) =~= strs_v(pre_chunks).push(
                                chunks@.last()@,
                            ));
                            assert(exports@.drop_last() =~= pre_exports);
                        }
                    },
                    Err(_) => {
                        crate::logger::log_error(logger, String::from_str("failed to parse CSS"));
                    },
                }
            },
            None => {},
        }
        let ghost gbase = if scoped_bundle(e.1) is Some {
            base + 1
        } else {
            base
        };
        let global = build_bundle(&list, true);
        match global {
            Some(css) => {
                let text = choose_bundle_text(subs, k, &css, Ghost(gbase));
                if k < subs.len() {
                    k = k + 1;
                }
                let fname = bundle_name(file_path, fn_id as u64);
                let ghost pre_chunks = chunks@;
                match crate::parse_css::parse_css(
                    text.as_str(),
                    fname.as_str(),
                    false,
                    use_theme,
                    theme,
                    logger,
                ) {
                    Ok(out) => {
                        chunks.push(out.code);
                        proof {
                            assert(strs_v(chunks@) =~= strs_v(pre_chunks).push(
                                chunks@.last()@,
                            ));
                        }
                    },
                    Err(_) => {
                        crate::logger::log_error(logger, String::from_str("failed to parse CSS"));
                    },
                }
            },
            None => {},
        }
        i = i + 1;
        proof {
            reveal_strlit("failed to parse CSS");
            reveal_strlit("error");
            assert(bundle_list(entries, i as int).len() == gbase + (
            if global_bundle(e.1) is Some {
                1int
            } else {
                0int
            }));
        }
    }
    (chunks, exports)
}


// ----------------------------------------------------------------------
// The whole transform.
// ----------------------------------------------------------------------

/// Flair-recorded CSS appended entry by entry to the style map.
pub open spec fn merge_css(
    smap: Seq<(u32, Seq<(Seq<char>, bool)>)>,
    entries: Seq<(u32, (Seq<char>, bool))>,
) -> Seq<(u32, Seq<(Seq<char>, bool)>)>
    decreases entries.len(),
{
    if entries.len() == 0 {
        smap
    } else {
        style_push(merge_css(smap, entries.drop_last()), entries.last().0, entries.last().1)
    }
}

fn merge_flair(smap: &mut StyleMap, entries: &OrderedCss)
    ensures
        final(smap)@ == merge_css(old(smap)@, entries@),
{
    let n = entries.entry_count();
    let mut i: usize = 0;
    proof {
        assert(entries@.subrange(0, 0) =~= Seq::<(u32, (Seq<char>, bool))>::empty());
    }
    #[verifier::loop_isolation(false)]
    while i < n
        invariant
            i <= n,
            smap@ == merge_css(old(smap)@, entries@.subrange(0, i as int)),
        decreases n - i,
    {
        let (k, d) = entries.entry_at(i);
        smap.push_css(k, d);
        i = i + 1;
        proof {
            let sub1 = entries@.subrange(0, i as int);
            let sub0 = entries@.subrange(0, i as int - 1);
            assert(sub1.drop_last() =~= sub0);
            assert(sub1.last() == entries@[i as int - 1]);
        }
    }
    proof {
        assert(entries@.subrange(0, entries@.len() as int) =~= entries@);
    }
}

/// Lines joined with line breaks.
pub open spec fn join_lines(s: Seq<Seq<char>>) -> Seq<char>
    decreases s.len(),
{
    if s.len() == 0 {
        Seq::<char>::empty()
    } else if s.len() == 1 {
        s[0]
    } else {
        join_lines(s.drop_last()) + seq!['\n'] + s.last()
    }
}

fn join_lines_exec(v: &Vec<String>) -> (r: String)
    ensures
        r@ == join_lines(strs_v(v@)),
{
    let mut out = String::new();
    let mut i: usize = 0;
    proof {
        assert(strs_v(v@.subrange(0, 0)) =~= Seq::<Seq<char>>::empty());
        assert(out@ =~= join_lines(strs_v(v@.subrange(0, 0))));
    }
    #[verifier::loop_isolation(false)]
    while i < v.len()
        invariant
            i <= v@.len(),
            out@ == join_lines(strs_v(v@.subrange(0, i as int))),
        decreases v@.len() - i,
    {
        if i > 0 {
            push_char(&mut out, '\n');
        }
        append_str(&mut out, v[i].as_str());
        i = i + 1;
        proof {
            let sub1 = strs_v(v@.subrange(0, i as int));
            let sub0 = strs_v(v@.subrange(0, i as int - 1));
            assert(v@.subrange(0, i as int).drop_last() =~= v@.subrange(0, i as int - 1));
            assert(sub1 =~= sub0.push(v@[i as int - 1]@));
            assert(sub1.drop_last() =~= sub0);
            assert(sub1.last() == v@[i as int - 1]@);
            if i == 1 {
                assert(out@ =~= join_lines(sub1));
            } else {
                assert(out@ =~= join_lines(sub0) + seq!['\n'] + v@[i as int - 1]@);
            }
        }
    }
    proof {
        assert(v@.subrange(0, v@.len() as int) =~= v@);
    }
    out
}

/// The attribute names to rewrite: the configured list, or the two
/// defaults.
pub open spec fn spec_name_list(l: Option<Vec<String>>) -> Seq<Seq<char>> {
    match l {
        Some(v) => strs_v(v@),
        None => seq!["className"@, "class"@],
    }
}

/// The first pass's empty starting state.
pub open spec fn p1_init() -> P1V {
    P1V {
        link_count: 0,
        sym_span: Map::<u32, u32>::empty(),
        scoped: Seq::<(u32, (Seq<char>, bool))>::empty(),
        global: Seq::<(u32, (Seq<char>, bool))>::empty(),
        links: Map::<u32, u32>::empty(),
        style_syms: Seq::<u32>::empty(),
        util_syms: Seq::<u32>::empty(),
        smap: Seq::<(u32, Seq<(Seq<char>, bool)>)>::empty(),
        fn_class: Map::<u32, u32>::empty(),
        spans: Seq::<u32>::empty(),
    }
}

/// What style extraction carries to the compile half: the first-pass
/// tree, the state the later passes need, the style map with the
/// flair-property CSS merged in, and its raw bundles.
pub struct ExtractionV {
    pub body: Seq<StmtV>,
    pub smap: Seq<(u32, Seq<(Seq<char>, bool)>)>,
    pub links: Map<u32, u32>,
    pub fuel: nat,
    pub utils: Seq<u32>,
    pub fn_class: Map<u32, u32>,
    pub spans: Seq<u32>,
    pub bundles: Seq<(Seq<char>, bool)>,
}

/// Style extraction on the model level: the first pass from the empty
/// state, then the flair-property CSS merged into the style map.
pub open spec fn extract_spec(p: ProgramV) -> ExtractionV {
    let t1 = p1_stmts(p.body, None, p1_init());
    let st = t1.1;
    let merged = merge_css(merge_css(st.smap, st.scoped), st.global);
    ExtractionV {
        body: t1.0,
        smap: merged,
        links: st.links,
        fuel: st.link_count,
        utils: st.util_syms,
        fn_class: st.fn_class,
        spans: st.spans,
        bundles: bundle_list(merged, merged.len() as int),
    }
}

/// The compile-and-rewrite half: CSS compilation with the host's
/// per-bundle substitutes, then the second and third passes and the
/// sentinel strip.  The returned tree carries no stylesheet import:
/// prepending it is the finalize step, taken only after the
/// stylesheet file was written.
pub open spec fn compile_spec(
    ex: ExtractionV,
    path: Seq<char>,
    options: TransformOptions,
    timestamp: Option<u64>,
    subs: Seq<Option<Seq<char>>>,
) -> (ProgramV, Seq<Seq<char>>, Seq<(Seq<char>, Seq<char>)>, Seq<char>) {
    let use_theme = match options.use_theme {
        Some(b) => b,
        None => false,
    };
    let pcr = pc_entries(ex.smap, ex.smap.len() as int, path, use_theme, options.theme, subs);
    let env = P2V {
        exports: pcr.1,
        fn_class: ex.fn_class,
        links: ex.links,
        fuel: ex.fuel,
        utils: ex.utils,
        list: spec_name_list(options.class_name_list),
    };
    let t2 = p2_stmts(ex.body, env);
    let rmb = crate::style_tag::rm_stmts(t2.0, ex.spans);
    let t3 = p3_stmts(rmb, t2.1, env);
    let stripped = strip_sentinels(t3);
    let name = spec_css_name(path, timestamp);
    (ProgramV { body: stripped }, pcr.0, pcr.2, name)
}

/// The whole transform's result on the tree and CSS level: `None` for
/// an unsupported extension; otherwise extraction followed by the
/// compile half under the given bundle substitutes.
pub open spec fn transform_spec_with(
    p: ProgramV,
    path: Seq<char>,
    options: TransformOptions,
    timestamp: Option<u64>,
    subs: Seq<Option<Seq<char>>>,
) -> Option<(ProgramV, Seq<Seq<char>>, Seq<(Seq<char>, Seq<char>)>, Seq<char>)> {
    if !spec_supported_extension(path) {
        None
    } else {
        Some(compile_spec(extract_spec(p), path, options, timestamp, subs))
    }
}

/// The transform without bundle substitutes: every bundle compiled
/// from its raw text.
pub open spec fn transform_spec(
    p: ProgramV,
    path: Seq<char>,
    options: TransformOptions,
    timestamp: Option<u64>,
) -> Option<(ProgramV, Seq<Seq<char>>, Seq<(Seq<char>, Seq<char>)>, Seq<char>)> {
    transform_spec_with(p, path, options, timestamp, Seq::<Option<Seq<char>>>::empty())
}

/// What style extraction hands to the host: the first-pass tree, the
/// state the later passes need, and the raw CSS bundles the host's
/// CSS preprocessor may transform before `compile_styles`.
pub struct Extraction {
    pub body: Vec<Stmt>,
    pub style_map: StyleMap,
    pub variable_linking: IdMap,
    pub classname_util_symbols: Vec<u32>,
    pub fn_id_to_class_map: IdMap,
    pub style_tag_symbols: Vec<u32>,
    pub bundles: Vec<CssBundle>,
}

impl Extraction {
    pub open spec fn view(&self) -> ExtractionV {
        ExtractionV {
            body: stmts_v(self.body@),
            smap: self.style_map@,
            links: self.variable_linking@,
            fuel: self.variable_linking.len_v(),
            utils: self.classname_util_symbols@,
            fn_class: self.fn_id_to_class_map@,
            spans: self.style_tag_symbols@,
            bundles: bundles_v(self.bundles@),
        }
    }
}

/// Style extraction: the first pass and the bundling of the collected
/// CSS.  A path without a supported extension yields `None`.  The
/// host may run its CSS preprocessor over `bundles`, in order, and
/// hand each outcome to `compile_styles`.
pub fn extract_styles(program: Program, file_path: &str) -> (r: Option<Extraction>)
    ensures
        ({
            match r {
                Some(ex) => spec_supported_extension(file_path@) && ex@ == extract_spec(
                    program_v(program),
                ),
                None => !spec_supported_extension(file_path@),
            }
        }),
{
    if !supported_extension(file_path) {
        return None;
    }
    let mut st = Pass1State::new();
    let body1 = pass1_stmts(&program.body, None, &mut st);
    let Pass1State {
        flair,
        variable_linking,
        style_tag_import_symbols: _,
        classname_util_symbols,
        mut style_map,
        fn_id_to_class_map,
        style_tag_symbols,
    } = st;
    merge_flair(&mut style_map, flair.get_scoped_style());
    merge_flair(&mut style_map, flair.get_global_style());
    let bundles = collect_bundles(&style_map);
    let ex = Extraction {
        body: body1,
        style_map,
        variable_linking,
        classname_util_symbols,
        fn_id_to_class_map,
        style_tag_symbols,
        bundles,
    };
    Some(ex)
}

/// The compile-and-rewrite half of the transform, fed the extraction
/// and the host's per-bundle substitutes: the CSS preprocessor's
/// output where it succeeded, `None` where it failed or was absent,
/// which means the raw text is compiled (the fallback rule).  The
/// returned tree carries no stylesheet import: the host prepends it
/// with `finalize_program` only after writing the stylesheet file.
pub fn compile_styles(
    ex: Extraction,
    subs: &Vec<Option<String>>,
    file_path: &str,
    options: TransformOptions,
    timestamp_millis: Option<u64>,
) -> (r: TransformOutput)
    ensures
        ({
            let t = compile_spec(ex@, file_path@, options, timestamp_millis, subs_v(subs@));
            &&& program_v(r.program) == t.0
            &&& r.css@ == join_lines(t.1)
            &&& crate::logger::log_v(r.logs@) == t.2
            &&& r.generated_css_name matches Some(n) && n@ == t.3
        }),
{
    let Extraction {
        body: body1,
        style_map,
        variable_linking,
        classname_util_symbols,
        fn_id_to_class_map,
        style_tag_symbols,
        bundles: _,
    } = ex;
    let mut logger = Logger::new();
    let use_theme = match options.use_theme {
        Some(b) => b,
        None => false,
    };
    let (chunks, exports) = process_css(
        &style_map,
        subs,
        file_path,
        use_theme,
        &options.theme,
        &mut logger,
    );
    let name_list: Vec<String> = match &options.class_name_list {
        Some(l) => crate::tree_copy::copy_strings(l),
        None => {
            let mut d: Vec<String> = Vec::new();
            d.push(String::from_str("className"));
            d.push(String::from_str("class"));
            proof {
                assert(strs_v(d@) =~= seq!["className"@, "class"@]);
            }
            d
        },
    };
    let env = PassEnv {
        css_module_exports: exports,
        fn_id_to_class_map,
        variable_linking,
        classname_util_symbols,
        class_name_list: name_list,
    };
    let mut pending: Vec<SymbolStore> = Vec::new();
    let body2 = pass2_stmts(&body1, &env, &mut pending);
    let body3 = crate::style_tag::remove_in_stmts(&body2, &style_tag_symbols);
    let body4 = pass3_stmts(&body3, &pending, &env);
    let body5 = remove_flair_statements(body4);
    let name = css_name(file_path, timestamp_millis);
    let css = join_lines_exec(&chunks);
    let logs = logger.drain_logs();
    TransformOutput {
        program: Program { body: body5 },
        css,
        logs,
        generated_css_name: Some(name),
    }
}

/// The finalize step: prepends the generated stylesheet's side-effect
/// import to the rewritten tree.  The host runs it only after the
/// stylesheet file was written; on a write failure the tree stays as
/// the transform returned it, without the import.
pub fn finalize_program(program: Program, css_file: &str) -> (r: Program)
    ensures
        program_v(r).body == seq![import_stmt_v(css_file@)] + program_v(program).body,
{
    let Program { mut body } = program;
    let import_stmt = make_import_stmt(css_file);
    let ghost pre_body = body@;
    let ghost imp = import_stmt;
    body.insert(0, import_stmt);
    proof {
        assert(body@ =~= seq![imp] + pre_body);
        lemma_stmts_v(body@);
        lemma_stmts_v(pre_body);
        assert forall|j: int| 0 <= j < body@.len() implies stmts_v(body@)[j] == (seq![
            stmt_v(imp),
        ] + stmts_v(pre_body))[j] by {
            if j == 0 {
                assert(body@[0] == imp);
            } else {
                assert(body@[j] == pre_body[j - 1]);
            }
        }
        assert(stmts_v(body@) =~= seq![stmt_v(imp)] + stmts_v(pre_body));
    }
    Program { body }
}

/// Transforms one source file's tree without a CSS preprocessor: every
/// bundle is compiled from its raw text.  A path without a supported
/// extension yields `None`; otherwise the result carries the rewritten
/// tree (without the stylesheet import: see `finalize_program`), the
/// compiled CSS (chunks joined with line breaks), the log, and the
/// generated stylesheet's name, which the host uses to write the CSS
/// file.  The timestamp, when the configuration asks for one, is
/// supplied by the host.
pub fn transform(
    program: Program,
    file_path: String,
    options: TransformOptions,
    timestamp_millis: Option<u64>,
) -> (r: Option<TransformOutput>)
    ensures
        ({
            let t = transform_spec(program_v(program), file_path@, options, timestamp_millis);
            match r {
                Some(out) => t matches Some(tt) && (program_v(out.program) == tt.0 && out.css@
                    == join_lines(tt.1) && crate::logger::log_v(out.logs@) == tt.2 && (
                out.generated_css_name matches Some(n) && n@ == tt.3)),
                None => t is None,
            }
        }),
{
    let ex = match extract_styles(program, file_path.as_str()) {
        Some(x) => x,
        None => {
            return None;
        },
    };
    let subs: Vec<Option<String>> = Vec::new();
    proof {
        assert(subs_v(subs@) =~= Seq::<Option<Seq<char>>>::empty());
    }
    let out = compile_styles(ex, &subs, file_path.as_str(), options, timestamp_millis);
    Some(out)
}

} // verus!
