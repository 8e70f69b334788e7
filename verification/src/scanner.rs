//! The primitive scanner: literal, whitespace, number and string-literal
//! recognition over a character sequence, delegated to the `read_token`
//! crate behind trusted wrappers.
//!
//! Every wrapper takes the full character slice and an absolute offset,
//! and returns plain lengths or values; ranges are built by the callers.

use vstd::prelude::*;

verus! {

/// True when `text` occurs in `chars` starting at `offset`.
pub open spec fn text_matches_at(text: Seq<char>, chars: Seq<char>, offset: int) -> bool {
    &&& offset + text.len() <= chars.len()
    &&& chars.subrange(offset, offset + text.len()) == text
}

/// What `char::is_whitespace` returns for a character: the scanner's
/// whitespace classification, shared by its whitespace and until-any
/// readers.
pub uninterp spec fn is_space(c: char) -> bool;

/// The length of the string-literal token that the scanner recognizes at
/// the start of a character sequence, if any.
pub uninterp spec fn string_token_len(s: Seq<char>) -> Option<int>;

/// The characters that the scanner decodes out of a string-literal token
/// (resolving escapes), if the escapes are valid.
pub uninterp spec fn string_value(s: Seq<char>) -> Option<Seq<char>>;

/// The length of the number token that the scanner recognizes at the
/// start of a character sequence, if any.
pub uninterp spec fn number_token_len(allow_underscore: bool, s: Seq<char>) -> Option<int>;

/// The value that the scanner parses out of a number token, as the bit
/// pattern of an IEEE-754 double, if the token is well formed and in
/// range.
pub uninterp spec fn number_value_bits(allow_underscore: bool, s: Seq<char>) -> Option<u64>;

/// Relies on `read_token::ReadToken::tag`: it returns a range exactly when
/// the tag's characters occur at the current position, and that range's
/// length is the tag's character count.
#[verifier::external_body]
pub(crate) fn scan_tag(tag: &str, chars: &[char], offset: usize) -> (r: Option<usize>)
    requires
        offset <= chars@.len(),
    ensures
        r is Some <==> text_matches_at(tag@, chars@, offset as int),
        r matches Some(n) ==> n == tag@.len(),
{
    read_token::ReadToken::new(&chars[offset..], 0).tag(tag).map(|rg| rg.length)
}

/// Relies on `char::is_whitespace`: the whitespace classification the
/// scanner goes by.
#[verifier::external_body]
pub(crate) fn is_whitespace_char(c: char) -> (r: bool)
    ensures
        r == is_space(c),
{
    c.is_whitespace()
}

/// Relies on `read_token::ReadToken::whitespace`: it returns the maximal
/// run of whitespace characters at the current position.
#[verifier::external_body]
pub(crate) fn scan_whitespace(chars: &[char], offset: usize) -> (n: usize)
    requires
        offset <= chars@.len(),
    ensures
        offset + n <= chars@.len(),
        forall|i: int| offset <= i < offset + n ==> is_space(#[trigger] chars@[i]),
        offset + n < chars@.len() ==> !is_space(chars@[offset + n]),
{
    read_token::ReadToken::new(&chars[offset..], 0).whitespace().length
}

/// Relies on `read_token::ReadToken::until_any_or_whitespace`: it returns
/// the run of characters before the first whitespace character or stop
/// character (one of `any`), whichever comes first.
#[verifier::external_body]
pub(crate) fn scan_until_any_or_whitespace(any: &str, chars: &[char], offset: usize) -> (n: usize)
    requires
        offset <= chars@.len(),
    ensures
        offset + n <= chars@.len(),
        forall|i: int|
            offset <= i < offset + n ==> !is_space(#[trigger] chars@[i]) && !any@.contains(
                chars@[i],
            ),
        offset + n < chars@.len() ==> (is_space(chars@[offset + n]) || any@.contains(
            chars@[offset + n],
        )),
{
    read_token::ReadToken::new(&chars[offset..], 0).until_any_or_whitespace(any).0.length
}

/// Relies on `read_token::ReadToken::string`: it recognizes a
/// double-quoted string literal with escapes; the result depends on the
/// characters alone. A recognized token is at least one character long,
/// starts with a double quote, and stays inside the input.
#[verifier::external_body]
pub(crate) fn scan_string(chars: &[char], offset: usize) -> (r: Option<usize>)
    requires
        offset <= chars@.len(),
    ensures
        r matches Some(n) ==> {
            &&& string_token_len(chars@.skip(offset as int)) == Some(n as int)
            &&& 1 <= n
            &&& offset + n <= chars@.len()
            &&& chars@[offset as int] == '"'
        },
        r is None ==> string_token_len(chars@.skip(offset as int)) is None,
{
    read_token::ReadToken::new(&chars[offset..], 0).string().map(|rg| rg.length)
}

/// Relies on `read_token::ReadToken::parse_string`: it decodes the escapes
/// inside a quoted string literal of `n` characters; the result depends on
/// the characters alone. The scanner requires the token to hold both
/// quotes, so `n` must be at least two.
#[verifier::external_body]
pub(crate) fn parse_string_value(chars: &[char], offset: usize, n: usize) -> (r: Option<String>)
    requires
        2 <= n,
        offset + n <= chars@.len(),
    ensures
        r matches Some(text) ==> string_value(chars@.subrange(offset as int, offset + n)) == Some(
            text@,
        ),
        r is None ==> string_value(chars@.subrange(offset as int, offset + n)) is None,
{
    read_token::ReadToken::new(&chars[offset..], 0).parse_string(n).ok()
}

/// Relies on `read_token::ReadToken::number`: it recognizes a number token
/// (sign, digits, decimal separator, exponent, and optionally underscores)
/// at the current position; the result depends on the characters alone. A
/// recognized token is at least one character long and stays inside the
/// input.
#[verifier::external_body]
pub(crate) fn scan_number(allow_underscore: bool, chars: &[char], offset: usize) -> (r: Option<
    usize,
>)
    requires
        offset <= chars@.len(),
    ensures
        r matches Some(n) ==> {
            &&& number_token_len(allow_underscore, chars@.skip(offset as int)) == Some(n as int)
            &&& 1 <= n
            &&& offset + n <= chars@.len()
        },
        r is None ==> number_token_len(allow_underscore, chars@.skip(offset as int)) is None,
{
    let settings = read_token::NumberSettings { allow_underscore };
    read_token::ReadToken::new(&chars[offset..], 0).number(&settings).map(|rg| rg.length)
}

/// Relies on `read_token::ReadToken::parse_number`: it parses a number
/// token of `n` characters into an IEEE-754 double, returned here as its
/// bit pattern; the result depends on the characters alone.
#[verifier::external_body]
pub(crate) fn parse_number_bits(allow_underscore: bool, chars: &[char], offset: usize, n: usize) -> (r:
    Option<u64>)
    requires
        offset + n <= chars@.len(),
    ensures
        r == number_value_bits(allow_underscore, chars@.subrange(offset as int, offset + n)),
{
    let settings = read_token::NumberSettings { allow_underscore };
    read_token::ReadToken::new(&chars[offset..], 0).parse_number(&settings, n).ok().map(
        |v| v.to_bits(),
    )
}

/// Relies on `String: FromIterator<char>`: builds the string holding
/// exactly the given characters.
#[verifier::external_body]
pub(crate) fn string_from_chars(chars: &[char], offset: usize, n: usize) -> (r: String)
    requires
        offset + n <= chars@.len(),
    ensures
        r@ == chars@.subrange(offset as int, offset + n),
{
    chars[offset..offset + n].iter().collect()
}

/// Relies on `str::chars`: yields exactly the string's characters in
/// order.
#[verifier::external_body]
pub(crate) fn chars_of(text: &str) -> (v: Vec<char>)
    ensures
        v@ == text@,
{
    text.chars().collect()
}

} // verus!
