//! Language constants of Kumir 3: keywords, operators, built-in names,
//! integer constants and identifier character classes.

pub mod builtins;
pub mod ident;
pub mod keywords;
pub mod math;
pub mod operators;

pub use builtins::{builtin_category, get_all_builtin_names, is_builtin_function, BuiltinCategory};
pub use ident::{
    is_digit_start, is_ident_continue, is_ident_start, is_unicode_combining_mark, is_whitespace,
};
pub use keywords::{all_keywords, get_keyword_token, is_keyword, keyword_for};
pub use math::{get_builtin_int_constant, is_builtin_constant};
pub use operators::{
    is_assignment_operator, is_binary_operator, is_operator_char, is_unary_operator, operator_token,
};
