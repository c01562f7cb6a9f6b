//! A source-to-source transform for CSS-in-JS components.
//!
//! Source files may attach styles to a component through a `flair` /
//! `globalFlair` static property, a `flair({...})` call, or a `Style`
//! JSX tag.  The transform extracts those styles, compiles them (with
//! optional scoped class names and theme-token substitution), rewrites
//! class-name references in the tree to the compiled names, and adds a
//! side-effect import for the generated stylesheet.
//!
//! Parsing source text into the tree and printing the tree back are the
//! host's job; the library works on its own tree model.

pub mod ast;
pub mod css_map;
pub mod flair_property;
pub mod logger;
pub mod tree_copy;
pub mod maps;
pub mod parse_css;
pub mod preprocess;
pub mod update_attribute;
pub mod strutil;
pub mod style_tag;
pub mod transform;

use vstd::prelude::*;

verus! {

} // verus!
