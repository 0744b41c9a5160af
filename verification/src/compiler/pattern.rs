//! The two word patterns of the language, and what the `regex` crate decides
//! about them.
//!
//! Words are classified by regular expressions. The matching itself is done
//! by the `regex` crate and is not verified here: [`pattern_is_match`] is the
//! one place where its answers enter the verified code, and its contract
//! lists everything that is taken on trust about them.

use vstd::prelude::*;
use vstd::utf8::is_ascii_chars;

verus! {

/// The pattern of an identifier: a letter or underscore, then word
/// characters, up to the end of the word.
pub const IDENTIFIER_PATTERN: &'static str = r"^[a-zA-Z_]\w*\b$";

/// The pattern of a constant: one or more decimal digits.
pub const CONSTANT_PATTERN: &'static str = r"^[0-9]+\b$";

/// What `regex::Regex::new(pattern)` followed by `Regex::is_match(haystack)`
/// gives: `None` where the pattern does not compile, else whether the
/// pattern matches somewhere in the haystack.
pub uninterp spec fn regex_is_match(pattern: Seq<char>, haystack: Seq<char>) -> Option<bool>;

/// The digits `0` to `9`.
pub open spec fn is_digit(ch: char) -> bool {
    '0' <= ch <= '9'
}

/// The characters that an identifier may begin with: the ASCII letters and
/// the underscore.
pub open spec fn is_identifier_start(ch: char) -> bool {
    'a' <= ch <= 'z' || 'A' <= ch <= 'Z' || ch == '_'
}

/// The ASCII characters in the class `\w`: letters, digits and the
/// underscore.
pub open spec fn is_ascii_word_char(ch: char) -> bool {
    is_identifier_start(ch) || is_digit(ch)
}

/// Whether `word` matches [`IDENTIFIER_PATTERN`]. For text outside ASCII the
/// class `\w` is a table of the Unicode standard, and the answer is left to
/// the `regex` crate.
pub open spec fn is_identifier(word: Seq<char>) -> bool {
    if is_ascii_chars(word) {
        &&& word.len() > 0
        &&& is_identifier_start(word[0])
        &&& forall|i: int| 1 <= i < word.len() ==> is_ascii_word_char(#[trigger] word[i])
    } else {
        regex_is_match(IDENTIFIER_PATTERN@, word) == Some(true)
    }
}

/// Whether `word` matches [`CONSTANT_PATTERN`].
pub open spec fn is_constant(word: Seq<char>) -> bool {
    &&& word.len() > 0
    &&& forall|i: int| 0 <= i < word.len() ==> is_digit(#[trigger] word[i])
}

/// Compiles `pattern` with `regex::Regex::new` and searches `haystack` with
/// `regex::Regex::is_match`. Trusted, not proved:
///
/// - the answer depends on the two texts alone;
/// - [`IDENTIFIER_PATTERN`] compiles, and on ASCII text it matches exactly
///   the words made of a first character in `[a-zA-Z_]` and further
///   characters in `[0-9A-Za-z_]` (`^` and `$` are the two ends of the
///   haystack, `\w` holds these ASCII characters and no other, and `\b` holds
///   between a word character and the end);
/// - [`CONSTANT_PATTERN`] compiles and matches exactly the nonempty words
///   made of the digits `0` to `9`.
#[verifier::external_body]
pub(crate) fn pattern_is_match(pattern: &str, haystack: &str) -> (found: Option<bool>)
    ensures
        found == regex_is_match(pattern@, haystack@),
        pattern@ == IDENTIFIER_PATTERN@ ==> found == Some(is_identifier(haystack@)),
        pattern@ == CONSTANT_PATTERN@ ==> found == Some(is_constant(haystack@)),
{
    match regex::Regex::new(pattern) {
        Ok(compiled) => Some(compiled.is_match(haystack)),
        Err(_) => None,
    }
}

} // verus!
