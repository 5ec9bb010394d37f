//! Structural pattern matching over syntax trees, the lint rules built on it,
//! and the text utilities that turn matched blocks back into source fragments.
pub mod collapsible_if;
pub mod missing_const_for_fn;
pub mod needless_continue;
pub mod pattern;
pub mod shapes;
pub mod suggestion;
pub mod syntax;
pub mod text;
