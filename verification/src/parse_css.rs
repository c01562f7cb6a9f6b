//! CSS compilation: the theme-token preprocessor followed by the
//! external CSS engine, which parses the text, lowers nesting for a
//! baseline browser target, optionally scopes class names (producing
//! the class-name map), and prints the result unminified.

use vstd::prelude::*;

use crate::logger::{log_warn, Logger};
use crate::maps::{str_entries_map, StrMap};
use crate::preprocess::{replace_theme_tokens, scan, spec_prefix_seq};
use crate::transform::Theme;

verus! {

/// What the CSS engine produces for given text, filename and scoping
/// mode: the printed CSS and the class-name map, or nothing when the
/// text does not parse.  The result depends on the arguments alone.
pub uninterp spec fn compiled_css(css: Seq<char>, filename: Seq<char>, module: bool) -> Option<
    (Seq<char>, Map<Seq<char>, Seq<char>>),
>;

/// The pairs as a string map, later pairs winning.
pub open spec fn pairs_map(s: Seq<(String, String)>) -> Map<Seq<char>, Seq<char>> {
    str_entries_map(s.map_values(|e: (String, String)| (e.0@, e.1@)))
}

/// Relies on `lightningcss::stylesheet::StyleSheet::parse` and
/// `StyleSheet::to_css`: parsing succeeds or fails on the text alone,
/// and printing (with fixed options: the default browser baseline as
/// the target, no minification, class names scoped and exported when
/// `module` is set) is a function of the inputs.  Without `module` the
/// engine produces no exports (`to_css` returns `exports: None` when
/// no css-modules configuration was given).
#[verifier::external_body]
fn compile_stylesheet(css: &str, filename: &str, module: bool) -> (r: Result<
    (String, Vec<(String, String)>),
    String,
>)
    ensures
        ({
            let c = compiled_css(css@, filename@, module);
            match r {
                Ok(p) => c matches Some(t) && p.0@ == t.0 && pairs_map(p.1@) == t.1,
                Err(_) => c is None,
            }
        }),
        !module ==> (r matches Ok(p) ==> p.1@.len() == 0),
{
    let o = lightningcss::stylesheet::ParserOptions {
        filename: filename.to_string(),
        css_modules: module.then_some(Default::default()),
        ..Default::default()
    };
    let po = lightningcss::printer::PrinterOptions {
        minify: false,
        targets: lightningcss::targets::Browsers::from_browserslist(["defaults"]).ok().flatten().into(),
        ..Default::default()
    };
    let sheet = lightningcss::stylesheet::StyleSheet::parse(css, o).map_err(|e| e.to_string())?;
    let out = sheet.to_css(po).map_err(|e| e.to_string())?;
    Ok((out.code, out.exports.unwrap_or_default().into_iter().map(|(k, v)| (k, v.name)).collect()))
}

/// Compiled CSS: the printed text and, in scoped mode, the map from
/// original class name to generated name.
pub struct CssOutput {
    pub code: String,
    pub exports: StrMap,
}

/// The theme configuration's breakpoint table, or empty without one.
pub open spec fn theme_bp(theme: Option<Theme>) -> Map<Seq<char>, Seq<char>> {
    match theme {
        Some(t) => t.breakpoints@,
        None => Map::<Seq<char>, Seq<char>>::empty(),
    }
}

/// The theme configuration's prefix text.
pub open spec fn theme_pfx(theme: Option<Theme>) -> Seq<char> {
    spec_prefix_seq(
        match theme {
            Some(t) => match t.prefix {
                Some(p) => Some(p@),
                None => None,
            },
            None => None,
        },
    )
}

/// The text handed to the CSS engine: the preprocessor's output when
/// theme processing is on, the raw text otherwise.
pub open spec fn preprocessed(css: Seq<char>, use_theme: bool, theme: Option<Theme>) -> (
    Seq<char>,
    Seq<Seq<char>>,
) {
    if use_theme {
        scan(css, theme_bp(theme), theme_pfx(theme), 0)
    } else {
        (css, Seq::<Seq<char>>::empty())
    }
}

/// Parses CSS, applying theme-token preprocessing when enabled; in
/// scoped mode the result carries the class-name map.  Preprocessor
/// warnings are appended to the log; compilation succeeds exactly when
/// the engine accepts the preprocessed text.
pub fn parse_css(
    css: &str,
    filename: &str,
    module: bool,
    use_theme: bool,
    theme: &Option<Theme>,
    logger: &mut Logger,
) -> (r: Result<CssOutput, String>)
    ensures
        ({
            let pre = preprocessed(css@, use_theme, *theme);
            let c = compiled_css(pre.0, filename@, module);
            &&& final(logger)@ == old(logger)@ + pre.1.map_values(
                |w: Seq<char>| (w, crate::logger::spec_level_str(crate::logger::LogLevel::Warn)),
            )
            &&& match r {
                Ok(out) => c matches Some(t) && out.code@ == t.0 && out.exports@ == t.1,
                Err(_) => c is None,
            }
            &&& !module ==> (r matches Ok(out) ==> out.exports@ == Map::<
                Seq<char>,
                Seq<char>,
            >::empty())
        }),
{
    let ghost pre = preprocessed(css@, use_theme, *theme);
    let processed: String;
    if use_theme {
        let empty_bp = StrMap::new();
        let bp: &StrMap = match theme {
            Some(t) => &t.breakpoints,
            None => &empty_bp,
        };
        let prefix: &Option<String> = match theme {
            Some(t) => &t.prefix,
            None => &None,
        };
        let (out, warns) = replace_theme_tokens(css, bp, prefix);
        processed = out;
        let ghost pre_log = logger@;
        let mut i: usize = 0;
        while i < warns.len()
            invariant
                i <= warns@.len(),
                logger@ == pre_log + crate::preprocess::warns_v(warns@).map_values(
                    |w: Seq<char>| (
                        w,
                        crate::logger::spec_level_str(crate::logger::LogLevel::Warn),
                    ),
                ).subrange(0, i as int),
            decreases warns@.len() - i,
        {
            log_warn(logger, warns[i].clone());
            i = i + 1;
            proof {
                let mapped = crate::preprocess::warns_v(warns@).map_values(
                    |w: Seq<char>| (
                        w,
                        crate::logger::spec_level_str(crate::logger::LogLevel::Warn),
                    ),
                );
                assert(mapped.subrange(0, i as int) =~= mapped.subrange(0, i as int - 1).push(
                    mapped[i as int - 1],
                ));
                assert(logger@ =~= pre_log + mapped.subrange(0, i as int));
            }
        }
        proof {
            let mapped = crate::preprocess::warns_v(warns@).map_values(
                |w: Seq<char>| (w, crate::logger::spec_level_str(crate::logger::LogLevel::Warn)),
            );
            assert(mapped.subrange(0, mapped.len() as int) =~= mapped);
            assert(crate::preprocess::warns_v(warns@) == pre.1);
        }
    } else {
        processed = String::from_str(css);
        proof {
            assert(logger@ =~= old(logger)@ + pre.1.map_values(
                |w: Seq<char>| (w, crate::logger::spec_level_str(crate::logger::LogLevel::Warn)),
            ));
        }
    }
    match compile_stylesheet(processed.as_str(), filename, module) {
        Ok((code, pairs)) => {
            let mut exports = StrMap::new();
            let mut i: usize = 0;
            while i < pairs.len()
                invariant
                    i <= pairs@.len(),
                    exports@ == pairs_map(pairs@.subrange(0, i as int)),
                decreases pairs@.len() - i,
            {
                let (k, v) = (&pairs[i].0, &pairs[i].1);
                exports.insert(k.clone(), v.clone());
                i = i + 1;
                proof {
                    let mv = pairs@.subrange(0, i as int).map_values(
                        |e: (String, String)| (e.0@, e.1@),
                    );
                    assert(mv.drop_last() =~= pairs@.subrange(0, i as int - 1).map_values(
                        |e: (String, String)| (e.0@, e.1@),
                    ));
                    assert(mv.last() == (pairs@[i as int - 1].0@, pairs@[i as int - 1].1@));
                }
            }
            proof {
                assert(pairs@.subrange(0, pairs@.len() as int) =~= pairs@);
                if !module {
                    assert(pairs_map(pairs@) =~= Map::<Seq<char>, Seq<char>>::empty());
                }
            }
            Ok(CssOutput { code, exports })
        },
        Err(e) => Err(e),
    }
}

} // verus!
