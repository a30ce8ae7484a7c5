//! A parser for a small format-template language.
//!
//! A template is a sequence of `|`-separated alternatives; each alternative
//! is a list of tokens: literal text (with backslash escapes), `$name`
//! placeholders with optional `.name(...)` formatters, `^icon_name` icon
//! references, and `{ ... }` nested templates.

pub mod ast;
pub mod chars;
pub mod count;
pub mod extend;
pub mod grammar;
pub mod parser;
pub mod laws;
pub mod value;

pub use ast::Arg;
pub use ast::FormatTemplate;
pub use ast::Formatter;
pub use ast::Placeholder;
pub use ast::Token;
pub use ast::TokenList;
pub use parser::parse_arg;
pub use parser::parse_args;
pub use parser::parse_formatter;
pub use parser::parse_format_template;
pub use parser::parse_full;
pub use parser::parse_icon;
pub use parser::parse_placeholder;
pub use parser::parse_token_list;
pub use parser::ErrorDetail;
pub use parser::ParseError;
pub use parser::TemplateError;
pub use value::ArgValue;
pub use value::ValueError;
