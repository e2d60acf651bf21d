//! Helpers on strings.

pub mod case;
pub mod number;
pub mod order;
pub mod pad;
pub mod search;
pub mod split;
pub mod trim;
pub mod utf8;

pub use crate::text::case::lowercase_of;
pub(crate) use crate::text::case::to_lowercase;
pub use crate::text::number::{
    all_digits, decimal, decimal_string, digit_char, digit_value, digits_number, digits_value,
    hex_digit_char, hex_fixed, hex_fixed_string, is_all_digits, is_ascii_digit, is_digit,
    lemma_digits_value_grows, numbered_text, padded_decimal, padded_decimal_string, parse_digits,
    parse_i32, parse_number, parse_signed_32, parse_unsigned,
};
pub use crate::text::order::{
    bytes_less, bytes_order, lemma_bytes_less_skip, lemma_bytes_less_transitive,
    lemma_bytes_order_total, lemma_not_after, lemma_text_order, not_after, order_bytes, order_text,
    text_order, Order,
};
pub use crate::text::pad::{
    pad_end, pad_end_string, pad_start, pad_start_string, spaces, spaces_string,
};
pub use crate::text::search::{contains, contains_text, occurs_at, starts_with};
pub use crate::text::split::{
    after_last, first_index, lemma_after_last, lemma_first_index, split, split_chars, split_limited,
    split_rest, splitn, splitn_chars,
};
pub use crate::text::trim::{
    leading_count, leading_space, lemma_leading_count, lemma_leading_space, lemma_trailing_space,
    trailing_space_start, trim, trim_start, trim_start_matches, trimmed, unquoted, white_space,
};
pub(crate) use crate::text::trim::is_whitespace;
pub use crate::text::utf8::{
    bytes_eq, chars_of, has_nul, lemma_nul_bytes, lemma_utf8_injective, opt_agrees, str_eq,
    string_views, views,
};
pub(crate) use crate::text::utf8::str_from_utf8;
