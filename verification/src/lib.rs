pub mod constants;
pub mod corpus;
pub mod enums;
pub mod errors;
pub mod eval_funcs;
pub mod kb_builders;
pub mod kb_components;
pub mod kb_helpers;
pub mod key;
pub mod key_template;
pub mod keyboard;
pub mod mapped_swap;
pub mod random;
pub mod structs;
