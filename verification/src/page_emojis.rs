//! The page emoji indicator: the front matter's emoji shortcode, turned
//! into the lowercase-hex scalar value the remote side stores as a page
//! property.

use crate::chars::string_from_chars;
use crate::checksum::hex_digit;
use crate::checksum::hex_digit_char;
use crate::markdown_page::MarkdownPage;
use vstd::prelude::*;
use vstd::string::StrSliceExecFns;

verus! {

/// The first scalar value of the emoji a shortcode names, if the shortcode
/// is known.
pub uninterp spec fn emoji_scalar(shortcode: Seq<char>) -> Option<u32>;

/// Relies on `emojis::get_by_shortcode`: a lookup in a static table keyed
/// by shortcode, so the found emoji — and its first scalar value — depends
/// on the shortcode alone.
#[verifier::external_body]
fn lookup_emoji_scalar(shortcode: &str) -> (r: Option<u32>)
    ensures
        r == emoji_scalar(shortcode@),
{
    emojis::get_by_shortcode(shortcode).and_then(|e| e.as_str().chars().next()).map(|c| c as u32)
}

/// `n` in lowercase hex with no leading zeros (`0` for zero).
pub open spec fn spec_hex_u32(n: int) -> Seq<char>
    decreases n,
{
    if n < 16 {
        seq![hex_digit(n as u8)]
    } else {
        spec_hex_u32(n / 16).push(hex_digit((n % 16) as u8))
    }
}

/// `n` in lowercase hex with no leading zeros.
pub fn hex_u32(n: u32) -> (r: Vec<char>)
    ensures
        r@ == spec_hex_u32(n as int),
    decreases n,
{
    if n < 16 {
        let mut v: Vec<char> = Vec::new();
        v.push(hex_digit_char(n as u8));
        proof {
            assert(v@ =~= seq![hex_digit(n as u8)]);
        }
        v
    } else {
        let mut v = hex_u32(n / 16);
        v.push(hex_digit_char((n % 16) as u8));
        v
    }
}

/// The emoji indicator a document carries: nothing when the front matter
/// has no emoji or names an unknown shortcode, otherwise the emoji's first
/// scalar value in lowercase hex.
pub open spec fn spec_parse_emoji(emoji_field: Seq<char>) -> Option<Seq<char>> {
    if emoji_field.len() == 0 {
        None
    } else {
        match emoji_scalar(emoji_field) {
            Some(u) => Some(spec_hex_u32(u as int)),
            None => None,
        }
    }
}

/// The emoji indicator of a parsed document, per `spec_parse_emoji`.
/// An unknown shortcode yields nothing and is reported by the caller.
pub fn parse_emoji(page: &MarkdownPage) -> (r: Option<String>)
    ensures
        r.deep_view() == spec_parse_emoji(page.front_matter.emoji@),
{
    let emoji_string = &page.front_matter.emoji;
    if emoji_string.as_str().unicode_len() == 0 {
        return None;
    }
    match lookup_emoji_scalar(emoji_string.as_str()) {
        Some(u) => {
            let h = hex_u32(u);
            Some(string_from_chars(&h))
        },
        None => None,
    }
}

} // verus!
