use vstd::prelude::*;
use crate::text::push_char;

verus! {

/// What `regex::Regex::new(pattern)` followed by `Regex::is_match(text)` answers, or `None`
/// when the pattern does not compile.
pub uninterp spec fn regex_is_match(pattern: Seq<char>, text: Seq<char>) -> Option<bool>;

/// Compiles `pattern` with `regex::Regex::new` and asks `Regex::is_match` whether it matches
/// somewhere in `text`. The answer is named by `regex_is_match`; `None` when the pattern does
/// not compile.
#[verifier::external_body]
fn regex_matches(pattern: &str, text: &str) -> (r: Option<bool>)
    ensures
        r == regex_is_match(pattern@, text@),
{
    match regex::Regex::new(pattern) {
        Ok(re) => Some(re.is_match(text)),
        Err(_) => None,
    }
}

/// `c` is a decimal digit as the mention patterns `<@&(\d+)>` and `<#(\d+)>` read `\d`: the
/// one-character text `c` is matched whole by `\d`.
pub open spec fn is_decimal_digit(c: char) -> bool {
    regex_is_match("\\A\\d\\z"@, seq![c]) == Some(true)
}

/// Whether `c` is a decimal digit, as the regular expression `\d` decides it.
pub fn decimal_digit(c: char) -> (b: bool)
    ensures
        b == is_decimal_digit(c),
{
    let mut s = String::new();
    push_char(&mut s, c);
    assert(s@ =~= seq![c]);
    match regex_matches("\\A\\d\\z", s.as_str()) {
        Some(b) => b,
        None => false,
    }
}

} // verus!
