//! Token identifiers and small helpers on names.

use vstd::prelude::*;
use vstd::string::{StrSliceExecFns, StringExecFns, StringSliceAdditionalSpecFns};
use vstd::utf8::{decode_utf8, encode_utf8, encode_utf8_decode_utf8, is_char_boundary};
use crate::text::{
    contains_infix, find_char, first_index_of, has_infix, lowercase, lowercase_of, trim, trimmed,
};

verus! {

broadcast use vstd::utf8::encode_utf8_valid_utf8;

pub const CHEESE_MINT: &'static str = "A3hzGcTxZNSc7744CWB2LR5Tt9VTtEaQYpP6nwripump";

pub const USDC_MINT: &'static str = "EPjFWdd5AufqSSqeM2qN1xzybapC8G4wEGGkZwyTDt1v";

pub const USDC_DECIMALS: u8 = 6;

pub const OSHO_MINT: &'static str = "27VkFr6b6DHoR6hSYZjUDbwJsV6MPSFqPavXLg8nduHW";

pub const HARA_MINT: &'static str = "7HW7JWmXKPf5GUgfP1vsXUjPBy7WJtA1YQMLFg62pump";

pub const EMPIRE_MINT: &'static str = "3G5t554LYng7f4xtKKecHbppvctm8qbkoRiTtpqQEAWy";

/// The mints that are never traded.
pub open spec fn blacklisted(mint: Seq<char>) -> bool {
    mint == OSHO_MINT@ || mint == HARA_MINT@ || mint == EMPIRE_MINT@
}

/// Whether `mint` is one of the tokens that are never traded.
pub fn is_token_blacklisted(mint: &str) -> (r: bool)
    ensures
        r == blacklisted(mint@),
{
    let owned = mint.to_owned();
    owned == OSHO_MINT.to_owned() || owned == HARA_MINT.to_owned() || owned
        == EMPIRE_MINT.to_owned()
}

/// The number of bytes that are kept of a name cut to `max_len` bytes: one
/// less than `max_len`, to leave room for the ellipsis.
pub open spec fn cut_point(max_len: nat) -> nat {
    if max_len == 0 {
        0
    } else {
        (max_len - 1) as nat
    }
}

/// `input` if its encoding has at most `max_len` bytes; else the characters
/// that the first `max_len - 1` bytes hold, and an ellipsis.
pub open spec fn truncated(input: Seq<char>, max_len: nat) -> Seq<char> {
    let bytes = encode_utf8(input);
    if bytes.len() <= max_len {
        input
    } else {
        decode_utf8(bytes.subrange(0, cut_point(max_len) as int)).push('\u{2026}')
    }
}

/// Cuts `input` down to fit a column of `max_len` bytes. A longer input must
/// have a character boundary at the cut.
pub fn truncate(input: &str, max_len: usize) -> (r: String)
    requires
        encode_utf8(input@).len() > max_len ==> is_char_boundary(
            encode_utf8(input@),
            cut_point(max_len as nat) as int,
        ),
    ensures
        r@ == truncated(input@, max_len as nat),
{
    if input.as_bytes().len() <= max_len {
        input.to_owned()
    } else {
        let keep: usize = if max_len == 0 {
            0
        } else {
            max_len - 1
        };
        let (head, _) = input.split_at(keep);
        let r = String::from_str(head).concat("\u{2026}");
        proof {
            encode_utf8_decode_utf8(head@);
            reveal_strlit("\u{2026}");
            assert("\u{2026}"@ =~= seq!['\u{2026}']);
            assert(r@ =~= head@.push('\u{2026}'));
        }
        r
    }
}

/// Whether a token name speaks of cheese: by the cheese sign, or by the word
/// in any mix of upper and lower case.
pub open spec fn mentions_cheese(name: Seq<char>) -> bool {
    has_infix(name, "\u{1F9C0}"@) || has_infix(lowercase_of(name), "cheese"@)
}

/// The name of the token that a pool pairs with cheese, as far as the pool's
/// name tells. A name with exactly one dash names two tokens, each taken
/// without the white space around it: the other token is the second, unless
/// only the second speaks of cheese. Any other name stands for itself.
pub open spec fn other_token_name(pool_name: Seq<char>) -> Seq<char> {
    let dash = first_index_of(pool_name, '-', 0);
    if dash < pool_name.len() && first_index_of(pool_name, '-', dash + 1) == pool_name.len() {
        let left = trimmed(pool_name.subrange(0, dash));
        let right = trimmed(pool_name.subrange(dash + 1, pool_name.len() as int));
        if mentions_cheese(left) {
            right
        } else if mentions_cheese(right) {
            left
        } else {
            right
        }
    } else {
        pool_name
    }
}

/// Whether a token name speaks of cheese.
pub fn speaks_of_cheese(name: &str) -> (r: bool)
    ensures
        r == mentions_cheese(name@),
{
    if contains_infix(name, "\u{1F9C0}") {
        return true;
    }
    let lowered = lowercase(name);
    contains_infix(lowered.as_str(), "cheese")
}

/// The name of the token that a pool pairs with cheese, read off the pool's
/// name.
pub fn parse_other_token_name(pool_name: &str) -> (r: String)
    ensures
        r@ == other_token_name(pool_name@),
{
    let n = pool_name.unicode_len();
    let dash = find_char(pool_name, '-', 0);
    if dash < n && find_char(pool_name, '-', dash + 1) == n {
        let left = trim(pool_name.substring_char(0, dash));
        let right = trim(pool_name.substring_char(dash + 1, n));
        if speaks_of_cheese(left) {
            right.to_owned()
        } else if speaks_of_cheese(right) {
            left.to_owned()
        } else {
            right.to_owned()
        }
    } else {
        pool_name.to_owned()
    }
}

} // verus!
