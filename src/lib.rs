//! Markup parsing, utility-class style resolution and a cascading tree
//! materializer for a declarative UI description language.
pub mod color;
pub mod lexer;
pub mod node;
pub mod number;
pub mod parser;
pub mod render;
pub mod rules;
pub mod style;
pub mod text;

pub use node::{Error, FauxNode, Properties};
pub use parser::{rsx, ParseError};
pub use render::{render, is_resolved, CascadingStyle, Parent, Spawn};
pub use rules::{DefaultStyleSheet, Stylesheet, compute_style, resolve};
pub use style::{FauxStyle, Num, Rgba, Style, Val};
