//! The web search that a gesture starts for the selected text.

use vstd::prelude::*;
use percent_encoding::{utf8_percent_encode, NON_ALPHANUMERIC};
use crate::text::{chars_of, string_from_chars, trimmed, trim_chars, replace_all, replace_str, upper_hex_digit};
use vstd::utf8::encode_utf8;

verus! {

/// The placeholder of the search address that the query replaces.
pub const QUERY_PLACEHOLDER: &'static str = "{query}";

/// An ASCII letter or digit.
pub open spec fn is_ascii_alphanumeric(b: u8) -> bool {
    (48 <= b <= 57) || (65 <= b <= 90) || (97 <= b <= 122)
}

/// The percent-encoding of bytes in which every byte but the ASCII letters
/// and digits becomes `%` and two uppercase hexadecimal digits.
pub open spec fn percent_encoded(bytes: Seq<u8>) -> Seq<char>
    decreases bytes.len(),
{
    if bytes.len() == 0 {
        seq![]
    } else {
        let b = bytes.last();
        percent_encoded(bytes.drop_last()) + if is_ascii_alphanumeric(b) {
            seq![b as char]
        } else {
            seq!['%', upper_hex_digit(b as int / 16), upper_hex_digit(b as int % 16)]
        }
    }
}

/// Calls `percent_encoding::utf8_percent_encode` with `NON_ALPHANUMERIC`
/// and collects the result. Claimed, as the crate documents that set
/// ("everything that is not an ASCII letter or digit") and its encoding of
/// a byte (`%` and two uppercase hexadecimal digits): the result is
/// `percent_encoded` of the text's UTF-8 bytes.
#[verifier::external_body]
fn percent_encode(text: &str) -> (r: String)
    ensures
        r@ == percent_encoded(encode_utf8(text@)),
{
    utf8_percent_encode(text, NON_ALPHANUMERIC).to_string()
}

/// The address that searches for the selection: the template with each
/// `{query}` replaced by the trimmed selection, percent-encoded; none when
/// the selection is blank.
pub open spec fn search_address(template: Seq<char>, selection: Seq<char>) -> Option<Seq<char>> {
    let query = trimmed(selection);
    if query.len() == 0 {
        None
    } else {
        Some(replace_all(template, QUERY_PLACEHOLDER@, percent_encoded(encode_utf8(query))))
    }
}

/// The address that searches for the selected text with the configured
/// template, or `None` when nothing but whitespace is selected.
pub fn search_url(template: &str, selection: &str) -> (r: Option<String>)
    ensures
        match search_address(template@, selection@) {
            Some(address) => r matches Some(url) && url@ == address,
            None => r is None,
        },
{
    let query = string_from_chars(&trim_chars(&chars_of(selection)));
    if query.as_str().is_empty() {
        return None;
    }
    let encoded = percent_encode(query.as_str());
    proof {
        reveal_strlit("{query}");
    }
    Some(replace_str(template, QUERY_PLACEHOLDER, encoded.as_str()))
}

} // verus!
