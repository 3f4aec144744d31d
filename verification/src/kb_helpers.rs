//! The layout building and scoring helpers under one roof.
pub use crate::eval_funcs::{check_key_no_hist, compare_slots, global_adjustments};
pub use crate::kb_builders::{
    check_col, get_valid_key_locs_sorted, place_dvorak_keys, place_keys, place_qwerty_keys,
};
