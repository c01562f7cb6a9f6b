//! The CSS token preprocessor.
//!
//! One left-to-right scan over CSS text resolves theme tokens
//! (`$a.b.c` becomes `var(--a-b-c)`, with an optional prefix) and
//! `@screen <name>` at-rules (which become `@media (min-width: <value>)`
//! queries from the breakpoint table).  Quoted strings and comments are
//! copied verbatim; every other character passes through unchanged.
//! A malformed theme token or an unknown breakpoint name is preserved
//! verbatim and produces a warning.

use vstd::prelude::*;

use crate::maps::StrMap;
use crate::strutil::{append_str, chars_range_to_string, push_char, str_to_chars};

verus! {

/// A character allowed inside one segment of a theme token.
pub open spec fn spec_is_segment_char(c: char) -> bool {
    ('a' <= c && c <= 'z') || ('A' <= c && c <= 'Z') || ('0' <= c && c <= '9') || c == '_' || c
        == '-'
}

/// A character that keeps a theme-token run going: a segment character
/// or the dot that separates segments.
pub open spec fn spec_is_run_char(c: char) -> bool {
    spec_is_segment_char(c) || c == '.'
}

/// ASCII whitespace, as trimmed around a breakpoint name.
pub open spec fn spec_is_ws(c: char) -> bool {
    c == ' ' || c == '\t' || c == '\r' || c == '\n'
}

/// A valid theme token: dot-separated segments, each non-empty and made
/// of segment characters only.
pub open spec fn spec_valid_theme_token(t: Seq<char>) -> bool {
    &&& t.len() > 0
    &&& t[0] != '.'
    &&& t[t.len() - 1] != '.'
    &&& forall|k: int| 0 <= k < t.len() ==> spec_is_run_char(#[trigger] t[k])
    &&& forall|k: int| 0 <= k < t.len() - 1 ==> !(#[trigger] t[k] == '.' && t[k + 1] == '.')
}

/// The token with its segment separators turned into hyphens.
pub open spec fn spec_dashed(t: Seq<char>) -> Seq<char> {
    t.map_values(
        |c: char|
            if c == '.' {
                '-'
            } else {
                c
            },
    )
}

/// The custom-property reference a valid token turns into.
pub open spec fn spec_theme_var(t: Seq<char>, pfx: Seq<char>) -> Seq<char> {
    "var(--"@ + pfx + spec_dashed(t) + ")"@
}

/// The media query a known breakpoint value turns into.
pub open spec fn spec_media_query(value: Seq<char>) -> Seq<char> {
    "@media (min-width: "@ + value + ")"@
}

pub open spec fn spec_warn_theme(run: Seq<char>) -> Seq<char> {
    "invalid theme token: "@ + run
}

pub open spec fn spec_warn_screen(name: Seq<char>) -> Seq<char> {
    "no matching breakpoint for @screen: "@ + name
}

/// First position at or after `i` that does not continue a token run.
pub open spec fn run_end(s: Seq<char>, i: int) -> int
    decreases s.len() - i,
{
    if i < 0 || i >= s.len() {
        s.len() as int
    } else if spec_is_run_char(s[i]) {
        run_end(s, i + 1)
    } else {
        i
    }
}

/// Position just past the closing `*/` of a comment body starting at `i`.
pub open spec fn comment_end(s: Seq<char>, i: int) -> int
    decreases s.len() - i,
{
    if i < 0 || i >= s.len() {
        s.len() as int
    } else if s[i] == '*' && i + 1 < s.len() && s[i + 1] == '/' {
        i + 2
    } else {
        comment_end(s, i + 1)
    }
}

/// Position just past the closing quote of a string body starting at `i`.
pub open spec fn string_end(s: Seq<char>, i: int, q: char) -> int
    decreases s.len() - i,
{
    if i < 0 || i >= s.len() {
        s.len() as int
    } else if s[i] == q {
        i + 1
    } else if s[i] == '\\' && i + 1 < s.len() {
        string_end(s, i + 2, q)
    } else {
        string_end(s, i + 1, q)
    }
}

/// First position at or after `i` holding `{` or a line break.
pub open spec fn at_end(s: Seq<char>, i: int) -> int
    decreases s.len() - i,
{
    if i < 0 || i >= s.len() {
        s.len() as int
    } else if s[i] == '{' || s[i] == '\n' {
        i
    } else {
        at_end(s, i + 1)
    }
}

/// The text with ASCII whitespace removed from both ends.
pub open spec fn spec_trim(t: Seq<char>) -> Seq<char>
    decreases t.len(),
{
    if t.len() > 0 && spec_is_ws(t.first()) {
        spec_trim(t.drop_first())
    } else if t.len() > 0 && spec_is_ws(t.last()) {
        spec_trim(t.drop_last())
    } else {
        t
    }
}

/// Does `@screen` (as a whole at-keyword) start at position `i`?
pub open spec fn spec_screen_at(s: Seq<char>, i: int) -> bool {
    &&& i + 7 <= s.len()
    &&& s.subrange(i + 1, i + 7) == "screen"@
    &&& (i + 7 == s.len() || !spec_is_segment_char(s[i + 7]))
}

/// The next scan position: a clamp that guarantees progress.
pub open spec fn step_to(len: int, i: int, j: int) -> int {
    if j <= i {
        i + 1
    } else if j > len {
        len
    } else {
        j
    }
}

/// The scan itself: output text and warning messages from position `i` on.
pub open spec fn scan(s: Seq<char>, bp: Map<Seq<char>, Seq<char>>, pfx: Seq<char>, i: int) -> (
    Seq<char>,
    Seq<Seq<char>>,
)
    decreases s.len() - i,
{
    if i < 0 || i >= s.len() {
        (Seq::<char>::empty(), Seq::<Seq<char>>::empty())
    } else {
        let c = s[i];
        if c == '/' && i + 1 < s.len() && s[i + 1] == '*' {
            let j = step_to(s.len() as int, i, comment_end(s, i + 2));
            let rest = scan(s, bp, pfx, j);
            (s.subrange(i, j) + rest.0, rest.1)
        } else if c == '"' || c == '\'' {
            let j = step_to(s.len() as int, i, string_end(s, i + 1, c));
            let rest = scan(s, bp, pfx, j);
            (s.subrange(i, j) + rest.0, rest.1)
        } else if c == '$' {
            let j = step_to(s.len() as int, i, run_end(s, i + 1));
            if j == i + 1 {
                let rest = scan(s, bp, pfx, i + 1);
                (seq!['$'] + rest.0, rest.1)
            } else {
                let tok = s.subrange(i + 1, j);
                let rest = scan(s, bp, pfx, j);
                if spec_valid_theme_token(tok) {
                    (spec_theme_var(tok, pfx) + rest.0, rest.1)
                } else {
                    (s.subrange(i, j) + rest.0, seq![spec_warn_theme(s.subrange(i, j))] + rest.1)
                }
            }
        } else if c == '@' && spec_screen_at(s, i) {
            let j = step_to(s.len() as int, i, at_end(s, i + 7));
            let rest = scan(s, bp, pfx, j);
            if j < s.len() && s[j] == '{' {
                let name = spec_trim(s.subrange(i + 7, j));
                if bp.contains_key(name) {
                    (spec_media_query(bp[name]) + rest.0, rest.1)
                } else {
                    (s.subrange(i, j) + rest.0, seq![spec_warn_screen(name)] + rest.1)
                }
            } else {
                (s.subrange(i, j) + rest.0, rest.1)
            }
        } else {
            let rest = scan(s, bp, pfx, i + 1);
            (seq![c] + rest.0, rest.1)
        }
    }
}

/// The prefix text a theme contributes to every custom property.
pub open spec fn spec_prefix_seq(prefix: Option<Seq<char>>) -> Seq<char> {
    match prefix {
        Some(p) => p + "-"@,
        None => Seq::<char>::empty(),
    }
}

fn is_segment_char(c: char) -> (r: bool)
    ensures
        r == spec_is_segment_char(c),
{
    ('a' <= c && c <= 'z') || ('A' <= c && c <= 'Z') || ('0' <= c && c <= '9') || c == '_' || c
        == '-'
}

fn is_run_char(c: char) -> (r: bool)
    ensures
        r == spec_is_run_char(c),
{
    is_segment_char(c) || c == '.'
}

fn is_ws(c: char) -> (r: bool)
    ensures
        r == spec_is_ws(c),
{
    c == ' ' || c == '\t' || c == '\r' || c == '\n'
}

/// Validates a theme token (the text after the `$`): dot-separated
/// segments of letters, digits, `_` and `-`, each non-empty.
pub fn is_valid_theme_token(token: &str) -> (r: bool)
    ensures
        r == spec_valid_theme_token(token@),
{
    let t = str_to_chars(token);
    let n = t.len();
    if n == 0 {
        return false;
    }
    if t[0] == '.' || t[n - 1] == '.' {
        return false;
    }
    let mut k: usize = 0;
    while k < n
        invariant
            k <= n,
            n == t@.len(),
            t@ == token@,
            forall|m: int| 0 <= m < k ==> spec_is_run_char(#[trigger] t@[m]),
            forall|m: int| 0 <= m < k && m < n - 1 ==> !(#[trigger] t@[m] == '.' && t@[m + 1]
                == '.'),
        decreases n - k,
    {
        if !is_run_char(t[k]) {
            return false;
        }
        if k + 1 < n && t[k] == '.' && t[k + 1] == '.' {
            return false;
        }
        k = k + 1;
    }
    true
}

fn run_end_exec(s: &Vec<char>, i: usize) -> (r: usize)
    requires
        i <= s@.len(),
    ensures
        r == run_end(s@, i as int),
        i <= r <= s@.len(),
{
    let n = s.len();
    let mut k: usize = i;
    while k < n && is_run_char(s[k])
        invariant
            i <= k <= n,
            n == s@.len(),
            run_end(s@, i as int) == run_end(s@, k as int),
        decreases n - k,
    {
        k = k + 1;
    }
    k
}

fn comment_end_exec(s: &Vec<char>, i: usize) -> (r: usize)
    requires
        i <= s@.len(),
    ensures
        r == comment_end(s@, i as int),
        i <= r <= s@.len(),
{
    let n = s.len();
    let mut k: usize = i;
    loop
        invariant
            i <= k <= n,
            n == s@.len(),
            comment_end(s@, i as int) == comment_end(s@, k as int),
        decreases n - k,
    {
        if k >= n {
            return n;
        }
        if s[k] == '*' && k + 1 < n && s[k + 1] == '/' {
            return k + 2;
        }
        k = k + 1;
    }
}

fn string_end_exec(s: &Vec<char>, i: usize, q: char) -> (r: usize)
    requires
        i <= s@.len(),
    ensures
        r == string_end(s@, i as int, q),
        i <= r <= s@.len(),
{
    let n = s.len();
    let mut k: usize = i;
    loop
        invariant
            i <= k <= n,
            n == s@.len(),
            string_end(s@, i as int, q) == string_end(s@, k as int, q),
        decreases n - k,
    {
        if k >= n {
            return n;
        }
        if s[k] == q {
            return k + 1;
        }
        if s[k] == '\\' && k + 1 < n {
            k = k + 2;
        } else {
            k = k + 1;
        }
    }
}

fn at_end_exec(s: &Vec<char>, i: usize) -> (r: usize)
    requires
        i <= s@.len(),
    ensures
        r == at_end(s@, i as int),
        i <= r <= s@.len(),
{
    let n = s.len();
    let mut k: usize = i;
    loop
        invariant
            i <= k <= n,
            n == s@.len(),
            at_end(s@, i as int) == at_end(s@, k as int),
        decreases n - k,
    {
        if k >= n {
            return n;
        }
        if s[k] == '{' || s[k] == '\n' {
            return k;
        }
        k = k + 1;
    }
}

/// Trims ASCII whitespace from both ends of `s[from..to]`.
fn trim_range_to_string(s: &Vec<char>, from: usize, to: usize) -> (r: String)
    requires
        from <= to <= s@.len(),
    ensures
        r@ == spec_trim(s@.subrange(from as int, to as int)),
{
    let mut a: usize = from;
    let mut b: usize = to;
    while a < b && is_ws(s[a])
        invariant
            from <= a <= b <= to <= s@.len(),
            spec_trim(s@.subrange(from as int, to as int)) == spec_trim(
                s@.subrange(a as int, b as int),
            ),
        decreases b - a,
    {
        proof {
            let cur = s@.subrange(a as int, b as int);
            assert(cur.drop_first() =~= s@.subrange(a as int + 1, b as int));
        }
        a = a + 1;
    }
    while b > a && is_ws(s[b - 1])
        invariant
            from <= a <= b <= to <= s@.len(),
            a < b ==> !spec_is_ws(s@[a as int]),
            spec_trim(s@.subrange(from as int, to as int)) == spec_trim(
                s@.subrange(a as int, b as int),
            ),
        decreases b,
    {
        proof {
            let cur = s@.subrange(a as int, b as int);
            assert(cur.drop_last() =~= s@.subrange(a as int, b as int - 1));
        }
        b = b - 1;
    }
    chars_range_to_string(s, a, b)
}

/// Replaces each `.` of a valid token with `-`.
fn dash_token(s: &Vec<char>, from: usize, to: usize) -> (r: String)
    requires
        from <= to <= s@.len(),
    ensures
        r@ == spec_dashed(s@.subrange(from as int, to as int)),
{
    let mut r = String::new();
    let mut k: usize = from;
    while k < to
        invariant
            from <= k <= to <= s@.len(),
            r@ == spec_dashed(s@.subrange(from as int, k as int)),
        decreases to - k,
    {
        if s[k] == '.' {
            push_char(&mut r, '-');
        } else {
            push_char(&mut r, s[k]);
        }
        k = k + 1;
        proof {
            assert(r@ =~= spec_dashed(s@.subrange(from as int, k as int)));
        }
    }
    r
}

/// The view of a vector of warning messages.
pub open spec fn warns_v(w: Seq<String>) -> Seq<Seq<char>> {
    w.map_values(|x: String| x@)
}

/// Rewrites theme tokens and `@screen` at-rules in raw CSS text.
///
/// Returns the rewritten text together with one warning message for
/// each malformed theme token and each unknown breakpoint name; those
/// stretches of input are preserved verbatim in the output.
pub fn replace_theme_tokens(css: &str, breakpoints: &StrMap, prefix: &Option<String>) -> (r: (
    String,
    Vec<String>,
))
    ensures
        ({
            let spfx = spec_prefix_seq(
                match *prefix {
                    Some(p) => Some(p@),
                    None => None,
                },
            );
            let t = scan(css@, breakpoints@, spfx, 0);
            r.0@ == t.0 && warns_v(r.1@) == t.1
        }),
{
    let pfx: String = match prefix {
        Some(p) => {
            let mut x = p.clone();
            append_str(&mut x, "-");
            x
        },
        None => String::new(),
    };
    let ghost spfx = pfx@;
    proof {
        assert(spfx == spec_prefix_seq(
            match *prefix {
                Some(p) => Some(p@),
                None => None,
            },
        ));
    }
    let s = str_to_chars(css);
    let n = s.len();
    let ghost total = scan(s@, breakpoints@, spfx, 0);
    let mut out = String::new();
    let mut warns: Vec<String> = Vec::new();
    let mut i: usize = 0;
    proof {
        assert(out@ + total.0 =~= total.0);
        assert(warns_v(warns@) + total.1 =~= total.1);
    }
    while i < n
        invariant
            i <= n,
            n == s@.len(),
            s@ == css@,
            spfx == pfx@,
            total == scan(s@, breakpoints@, spfx, 0),
            out@ + scan(s@, breakpoints@, spfx, i as int).0 == total.0,
            warns_v(warns@) + scan(s@, breakpoints@, spfx, i as int).1 == total.1,
        decreases n - i,
    {
        let ghost cur = scan(s@, breakpoints@, spfx, i as int);
        let ghost pre_out = out@;
        let ghost pre_warns = warns@;
        let ghost mut emit: Seq<char> = Seq::<char>::empty();
        let ghost mut warn_emit: Seq<Seq<char>> = Seq::<Seq<char>>::empty();
        let c = s[i];
        let mut j: usize = i + 1;
        if c == '/' && i + 1 < n && s[i + 1] == '*' {
            j = comment_end_exec(&s, i + 2);
            let piece = chars_range_to_string(&s, i, j);
            append_str(&mut out, piece.as_str());
            proof {
                emit = s@.subrange(i as int, j as int);
            }
        } else if c == '"' || c == '\'' {
            j = string_end_exec(&s, i + 1, c);
            let piece = chars_range_to_string(&s, i, j);
            append_str(&mut out, piece.as_str());
            proof {
                emit = s@.subrange(i as int, j as int);
            }
        } else if c == '$' {
            j = run_end_exec(&s, i + 1);
            if j == i + 1 {
                push_char(&mut out, '$');
                proof {
                    emit = seq!['$'];
                    assert(out@ =~= pre_out + emit);
                }
            } else {
                let tok = chars_range_to_string(&s, i + 1, j);
                if is_valid_theme_token(tok.as_str()) {
                    let dashed = dash_token(&s, i + 1, j);
                    let mut rep = String::from_str("var(--");
                    append_str(&mut rep, pfx.as_str());
                    append_str(&mut rep, dashed.as_str());
                    append_str(&mut rep, ")");
                    append_str(&mut out, rep.as_str());
                    proof {
                        emit = spec_theme_var(s@.subrange(i as int + 1, j as int), spfx);
                        assert(rep@ == emit);
                        assert(out@ == pre_out + emit);
                    }
                } else {
                    let run = chars_range_to_string(&s, i, j);
                    append_str(&mut out, run.as_str());
                    let mut msg = String::new();
                    append_str(&mut msg, "invalid theme token: ");
                    append_str(&mut msg, run.as_str());
                    warns.push(msg);
                    proof {
                        emit = s@.subrange(i as int, j as int);
                        warn_emit = seq![spec_warn_theme(s@.subrange(i as int, j as int))];
                        assert(warns_v(warns@) =~= warns_v(pre_warns) + warn_emit);
                    }
                }
            }
        } else if c == '@' && screen_at_exec(&s, i) {
            j = at_end_exec(&s, i + 7);
            if j < n && s[j] == '{' {
                let name = trim_range_to_string(&s, i + 7, j);
                let hit = breakpoints.get(name.as_str());
                match hit {
                    Some(value) => {
                        let mut rep = String::from_str("@media (min-width: ");
                        let piece = value.clone();
                        append_str(&mut rep, piece.as_str());
                        append_str(&mut rep, ")");
                        append_str(&mut out, rep.as_str());
                        proof {
                            emit = spec_media_query(breakpoints@[name@]);
                            assert(rep@ == emit);
                            assert(out@ == pre_out + emit);
                        }
                    },
                    None => {
                        let run = chars_range_to_string(&s, i, j);
                        append_str(&mut out, run.as_str());
                        let mut msg = String::new();
                        append_str(&mut msg, "no matching breakpoint for @screen: ");
                        append_str(&mut msg, name.as_str());
                        warns.push(msg);
                        proof {
                            emit = s@.subrange(i as int, j as int);
                            warn_emit = seq![
                                spec_warn_screen(spec_trim(s@.subrange(i as int + 7, j as int))),
                            ];
                            assert(warns_v(warns@) =~= warns_v(pre_warns) + warn_emit);
                        }
                    },
                }
            } else {
                let piece = chars_range_to_string(&s, i, j);
                append_str(&mut out, piece.as_str());
                proof {
                    emit = s@.subrange(i as int, j as int);
                }
            }
        } else {
            push_char(&mut out, c);
            proof {
                emit = seq![c];
                assert(out@ =~= pre_out + emit);
            }
        }
        proof {
            let nxt = scan(s@, breakpoints@, spfx, j as int);
            assert(cur.0 == emit + nxt.0);
            assert(cur.1 == warn_emit + nxt.1);
            assert(out@ == pre_out + emit);
            assert(warns_v(warns@) == warns_v(pre_warns) + warn_emit);
            assert(out@ + nxt.0 =~= pre_out + (emit + nxt.0));
            assert(warns_v(warns@) + nxt.1 =~= warns_v(pre_warns) + (warn_emit + nxt.1));
        }
        i = j;
    }
    proof {
        assert(out@ + scan(s@, breakpoints@, spfx, n as int).0 =~= out@);
        assert(warns_v(warns@) + scan(s@, breakpoints@, spfx, n as int).1 =~= warns_v(warns@));
    }
    (out, warns)
}

fn screen_at_exec(s: &Vec<char>, i: usize) -> (r: bool)
    requires
        i < s@.len(),
    ensures
        r == spec_screen_at(s@, i as int),
{
    let n = s.len();
    if n - i < 7 {
        return false;
    }
    proof {
        reveal_strlit("screen");
    }
    let ok = s[i + 1] == 's' && s[i + 2] == 'c' && s[i + 3] == 'r' && s[i + 4] == 'e' && s[i + 5]
        == 'e' && s[i + 6] == 'n';
    if !ok {
        proof {
            assert(s@.subrange(i as int + 1, i as int + 7) != "screen"@) by {
                if s@.subrange(i as int + 1, i as int + 7) == "screen"@ {
                    assert(s@.subrange(i as int + 1, i as int + 7)[0] == 's');
                    assert(s@.subrange(i as int + 1, i as int + 7)[1] == 'c');
                    assert(s@.subrange(i as int + 1, i as int + 7)[2] == 'r');
                    assert(s@.subrange(i as int + 1, i as int + 7)[3] == 'e');
                    assert(s@.subrange(i as int + 1, i as int + 7)[4] == 'e');
                    assert(s@.subrange(i as int + 1, i as int + 7)[5] == 'n');
                }
            }
        }
        return false;
    }
    proof {
        assert(s@.subrange(i as int + 1, i as int + 7) =~= "screen"@);
    }
    if i + 7 == n {
        true
    } else {
        !is_segment_char(s[i + 7])
    }
}


/// All characters from `i` on continue a run, so the run reaches the end.
proof fn lemma_run_end_all(s: Seq<char>, i: int)
    requires
        0 <= i <= s.len(),
        forall|k: int| i <= k < s.len() ==> spec_is_run_char(#[trigger] s[k]),
    ensures
        run_end(s, i) == s.len(),
    decreases s.len() - i,
{
    if i < s.len() {
        lemma_run_end_all(s, i + 1);
    }
}

/// `at_end` finds the first `{` or line break.
proof fn lemma_at_end_first(s: Seq<char>, i: int, j: int)
    requires
        0 <= i <= j < s.len(),
        s[j] == '{' || s[j] == '\n',
        forall|k: int| i <= k < j ==> #[trigger] s[k] != '{' && s[k] != '\n',
    ensures
        at_end(s, i) == j,
    decreases j - i,
{
    if i < j {
        lemma_at_end_first(s, i + 1, j);
    }
}

/// Trimming ignores a leading space.
proof fn lemma_trim_space(x: Seq<char>)
    ensures
        spec_trim(seq![' '] + x) == spec_trim(x),
{
    let y = seq![' '] + x;
    assert(y.len() > 0 && spec_is_ws(y.first()));
    assert(y.drop_first() =~= x);
}

/// A valid theme token standing alone after its `$` delimiter is
/// rewritten to exactly the custom-property reference: `$a.b.c` with
/// prefix `pfx` becomes `var(--{pfx}a-b-c)`, and nothing is logged.
pub proof fn theme_token_replaced(
    t: Seq<char>,
    bp: Map<Seq<char>, Seq<char>>,
    pfx: Seq<char>,
)
    requires
        spec_valid_theme_token(t),
    ensures
        scan(seq!['$'] + t, bp, pfx, 0) == (spec_theme_var(t, pfx), Seq::<Seq<char>>::empty()),
{
    let s = seq!['$'] + t;
    assert(s[0] == '$');
    assert forall|k: int| 1 <= k < s.len() implies spec_is_run_char(#[trigger] s[k]) by {
        assert(s[k] == t[k - 1]);
    }
    lemma_run_end_all(s, 1);
    let j = step_to(s.len() as int, 0, run_end(s, 1));
    assert(j == s.len());
    assert(t.len() >= 1);
    assert(j != 1);
    assert(s.subrange(1, j) =~= t);
    let rest = scan(s, bp, pfx, j);
    assert(rest.0 =~= Seq::<char>::empty());
    assert(spec_theme_var(t, pfx) + rest.0 =~= spec_theme_var(t, pfx));
    assert(rest.1 =~= Seq::<Seq<char>>::empty());
}

/// A malformed theme token (for example one with an empty segment, as
/// in `$a..b`) is preserved verbatim, and exactly one warning is
/// produced for it.
pub proof fn malformed_token_preserved(
    t: Seq<char>,
    bp: Map<Seq<char>, Seq<char>>,
    pfx: Seq<char>,
)
    requires
        t.len() > 0,
        forall|k: int| 0 <= k < t.len() ==> spec_is_run_char(#[trigger] t[k]),
        !spec_valid_theme_token(t),
    ensures
        scan(seq!['$'] + t, bp, pfx, 0) == (
            seq!['$'] + t,
            seq![spec_warn_theme(seq!['$'] + t)],
        ),
{
    let s = seq!['$'] + t;
    assert(s[0] == '$');
    assert forall|k: int| 1 <= k < s.len() implies spec_is_run_char(#[trigger] s[k]) by {
        assert(s[k] == t[k - 1]);
    }
    lemma_run_end_all(s, 1);
    let j = step_to(s.len() as int, 0, run_end(s, 1));
    assert(j == s.len());
    assert(j != 1);
    let tok = s.subrange(1, j);
    assert(tok =~= t);
    let rest = scan(s, bp, pfx, j);
    assert(s.subrange(0, j) =~= s);
    assert(s + rest.0 =~= s);
    assert(seq![spec_warn_theme(s)] + rest.1 =~= seq![spec_warn_theme(s)]);
}

/// A `@screen` rule whose name is a key of the breakpoint table becomes
/// the corresponding `@media (min-width: <value>)` query; the block that
/// follows is kept.  Nothing is logged.
pub proof fn screen_rule_replaced(
    name: Seq<char>,
    bp: Map<Seq<char>, Seq<char>>,
    pfx: Seq<char>,
)
    requires
        forall|k: int| 0 <= k < name.len() ==> #[trigger] name[k] != '{' && name[k] != '\n'
            && name[k] != '@' && name[k] != '$' && name[k] != '/' && name[k] != '"' && name[k]
            != '\'',
        bp.contains_key(spec_trim(name)),
    ensures
        scan("@screen "@ + name + "{}"@, bp, pfx, 0) == (
            spec_media_query(bp[spec_trim(name)]) + "{}"@,
            Seq::<Seq<char>>::empty(),
        ),
{
    let s = "@screen "@ + name + "{}"@;
    screen_prelude(name, s);
    let jj = 8 + name.len() as int;
    lemma_at_end_first(s, 7, jj);
    let j = step_to(s.len() as int, 0, at_end(s, 7));
    assert(j == jj);
    assert(s[jj] == '{');
    assert(s.subrange(7, jj) == seq![' '] + name);
    lemma_trim_space(name);
    let rest = scan(s, bp, pfx, jj);
    assert(s[jj] == '{' && s[jj + 1] == '}' && jj + 2 == s.len());
    scan_two_plain(s, bp, pfx, jj);
    assert(rest.0 == seq!['{'] + (seq!['}'] + scan(s, bp, pfx, jj + 2).0));
    assert(scan(s, bp, pfx, jj + 2).0 =~= Seq::<char>::empty());
    assert(scan(s, bp, pfx, jj + 2).1 =~= Seq::<Seq<char>>::empty());
    assert(rest.0 =~= "{}"@) by {
        reveal_strlit("{}");
    }
    assert(rest.1 =~= Seq::<Seq<char>>::empty());
    assert(spec_media_query(bp[spec_trim(name)]) + rest.0 == spec_media_query(
        bp[spec_trim(name)],
    ) + "{}"@);
}

/// A `@screen` rule with an unknown name is preserved verbatim up to its
/// block, and exactly one warning is produced for it.
pub proof fn screen_rule_unknown_preserved(
    name: Seq<char>,
    bp: Map<Seq<char>, Seq<char>>,
    pfx: Seq<char>,
)
    requires
        forall|k: int| 0 <= k < name.len() ==> #[trigger] name[k] != '{' && name[k] != '\n'
            && name[k] != '@' && name[k] != '$' && name[k] != '/' && name[k] != '"' && name[k]
            != '\'',
        !bp.contains_key(spec_trim(name)),
    ensures
        scan("@screen "@ + name + "{}"@, bp, pfx, 0) == (
            "@screen "@ + name + "{}"@,
            seq![spec_warn_screen(spec_trim(name))],
        ),
{
    let s = "@screen "@ + name + "{}"@;
    screen_prelude(name, s);
    let jj = 8 + name.len() as int;
    lemma_at_end_first(s, 7, jj);
    let j = step_to(s.len() as int, 0, at_end(s, 7));
    assert(j == jj);
    assert(s[jj] == '{');
    assert(s.subrange(7, jj) == seq![' '] + name);
    lemma_trim_space(name);
    let rest = scan(s, bp, pfx, jj);
    assert(s[jj] == '{' && s[jj + 1] == '}' && jj + 2 == s.len());
    scan_two_plain(s, bp, pfx, jj);
    assert(rest.0 =~= "{}"@) by {
        reveal_strlit("{}");
    }
    assert(rest.1 =~= Seq::<Seq<char>>::empty());
    assert(s.subrange(0, jj) == "@screen "@ + name);
    assert(s.subrange(0, jj) + rest.0 =~= s);
    assert(seq![spec_warn_screen(spec_trim(name))] + rest.1 =~= seq![
        spec_warn_screen(spec_trim(name)),
    ]);
}

/// Shared facts about an input of the shape `@screen <name>{}`.
proof fn screen_prelude(name: Seq<char>, s: Seq<char>)
    requires
        s == "@screen "@ + name + "{}"@,
        forall|k: int| 0 <= k < name.len() ==> #[trigger] name[k] != '{' && name[k] != '\n'
            && name[k] != '@' && name[k] != '$' && name[k] != '/' && name[k] != '"' && name[k]
            != '\'',
    ensures
        s.len() == 10 + name.len(),
        s[0] == '@',
        spec_screen_at(s, 0),
        s[8 + name.len() as int] == '{',
        s[9 + name.len() as int] == '}',
        forall|k: int| 7 <= k < 8 + name.len() as int ==> #[trigger] s[k] != '{' && s[k] != '\n',
        s[0] != '/' && s[0] != '"' && s[0] != '\'' && s[0] != '$',
        s.subrange(7, 8 + name.len() as int) == seq![' '] + name,
        s.subrange(0, 8 + name.len() as int) == "@screen "@ + name,
{
    reveal_strlit("@screen ");
    reveal_strlit("{}");
    reveal_strlit("screen");
    assert(s.len() == 10 + name.len());
    assert(s[0] == '@');
    assert(s.subrange(1, 7) =~= "screen"@);
    assert(s[7] == ' ');
    assert(!spec_is_segment_char(' '));
    assert(s[8 + name.len() as int] == '{');
    assert(s[9 + name.len() as int] == '}');
    assert forall|k: int| 7 <= k < 8 + name.len() as int implies #[trigger] s[k] != '{' && s[k]
        != '\n' by {
        if k == 7 {
        } else {
            assert(s[k] == name[k - 8]);
        }
    }
    assert(s.subrange(7, 8 + name.len() as int) =~= seq![' '] + name);
    assert(s.subrange(0, 8 + name.len() as int) =~= "@screen "@ + name);
}

/// After the replaced rule, `{` and `}` pass through one at a time.
proof fn scan_two_plain(s: Seq<char>, bp: Map<Seq<char>, Seq<char>>, pfx: Seq<char>, i: int)
    requires
        0 <= i,
        i + 2 == s.len(),
        s[i] == '{',
        s[i + 1] == '}',
    ensures
        scan(s, bp, pfx, i) == (
            seq!['{'] + (seq!['}'] + scan(s, bp, pfx, i + 2).0),
            scan(s, bp, pfx, i + 2).1,
        ),
{
    assert(!spec_screen_at(s, i + 1)) by {
        assert(i + 8 > s.len());
    }
    assert(scan(s, bp, pfx, i + 1) == (
        seq!['}'] + scan(s, bp, pfx, i + 2).0,
        scan(s, bp, pfx, i + 2).1,
    ));
}

} // verus!
