use flair_core::logger::Logger;
use flair_core::maps::StrMap;
use flair_core::preprocess::{is_valid_theme_token, replace_theme_tokens};
use flair_core::strutil::camel_case_to_kebab_case;
use flair_core::update_attribute::get_updated_classname;

#[test]
fn theme_token_is_rewritten() {
    let bp = StrMap::new();
    let (out, warns) = replace_theme_tokens(".a { color: $colors.red.500; }", &bp, &None);
    assert_eq!(out, ".a { color: var(--colors-red-500); }");
    assert_eq!(warns.len(), 0);
}

#[test]
fn theme_token_with_prefix() {
    let bp = StrMap::new();
    let (out, warns) =
        replace_theme_tokens(".a { color: $primary; }", &bp, &Some("theme".to_string()));
    assert_eq!(out, ".a { color: var(--theme-primary); }");
    assert_eq!(warns.len(), 0);
}

#[test]
fn malformed_token_is_preserved_and_warned() {
    let bp = StrMap::new();
    let (out, warns) = replace_theme_tokens(".a { color: $a..b; }", &bp, &None);
    assert_eq!(out, ".a { color: $a..b; }");
    assert_eq!(warns.len(), 1);
    assert_eq!(warns[0], "invalid theme token: $a..b");
}

#[test]
fn screen_rule_becomes_media_query() {
    let mut bp = StrMap::new();
    bp.insert("md".to_string(), "768px".to_string());
    let (out, warns) = replace_theme_tokens("@screen md { .a { color: red; } }", &bp, &None);
    assert_eq!(out, "@media (min-width: 768px){ .a { color: red; } }");
    assert_eq!(warns.len(), 0);
}

#[test]
fn unknown_screen_name_is_preserved_and_warned() {
    let bp = StrMap::new();
    let (out, warns) = replace_theme_tokens("@screen xl { .a { color: red; } }", &bp, &None);
    assert_eq!(out, "@screen xl { .a { color: red; } }");
    assert_eq!(warns.len(), 1);
    assert_eq!(warns[0], "no matching breakpoint for @screen: xl");
}

#[test]
fn theme_tokens_in_strings_and_comments_stay() {
    let bp = StrMap::new();
    let (out, warns) = replace_theme_tokens(".a { content: \"$x..\"; /* $y.. */ }", &bp, &None);
    assert_eq!(out, ".a { content: \"$x..\"; /* $y.. */ }");
    assert_eq!(warns.len(), 0);
}

#[test]
fn valid_theme_tokens() {
    assert!(is_valid_theme_token("a"));
    assert!(is_valid_theme_token("a.b"));
    assert!(is_valid_theme_token("colors.red.500"));
    assert!(!is_valid_theme_token(""));
    assert!(!is_valid_theme_token("a..b"));
    assert!(!is_valid_theme_token(".a"));
    assert!(!is_valid_theme_token("a."));
    assert!(!is_valid_theme_token("a b"));
}

#[test]
fn camel_case_to_kebab_case_examples() {
    assert_eq!(camel_case_to_kebab_case("backgroundColor"), "background-color");
    assert_eq!(camel_case_to_kebab_case("color"), "color");
    assert_eq!(camel_case_to_kebab_case("WebkitTransform"), "webkit-transform");
}

#[test]
fn classname_tokens_mapped_and_passed_through() {
    let mut m = StrMap::new();
    m.insert("btn".to_string(), "btn_x1".to_string());
    assert_eq!(get_updated_classname(&m, "btn primary"), "btn_x1 primary");
    assert_eq!(get_updated_classname(&m, "primary"), "primary");
}

#[test]
fn parse_css_compiles_fallback_output() {
    // The preprocessor's fallback output for an unknown breakpoint is
    // still CSS the engine accepts once the at-rule block is plain.
    let mut logger = Logger::new();
    let r = flair_core::parse_css::parse_css(
        ".a { margin: 0; }",
        "t.tsx:0",
        false,
        false,
        &None,
        &mut logger,
    );
    assert!(r.is_ok());
    let out = r.unwrap();
    assert!(out.code.contains("margin: 0"));
}
