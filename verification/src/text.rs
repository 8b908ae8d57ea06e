//! Text primitives of `std` used by the command-line parser, each given the
//! contract that `std`'s documentation states for it.
use vstd::prelude::*;

verus! {

/// `<str as PartialEq>::eq`: two string slices are equal exactly when they
/// hold the same characters.
pub assume_specification[ <str as PartialEq>::eq ](a: &str, b: &str) -> (r: bool)
    ensures
        r == (a@ == b@),
;

/// Unicode `White_Space` code points, the set that `char::is_whitespace`
/// and `str::trim` use.
pub open spec fn is_white_space(c: char) -> bool {
    let u = c as u32;
    ||| 0x09 <= u <= 0x0d
    ||| u == 0x20
    ||| u == 0x85
    ||| u == 0xa0
    ||| u == 0x1680
    ||| 0x2000 <= u <= 0x200a
    ||| u == 0x2028
    ||| u == 0x2029
    ||| u == 0x202f
    ||| u == 0x205f
    ||| u == 0x3000
}

/// `s` with leading and trailing white space removed.
pub open spec fn trimmed(s: Seq<char>) -> Seq<char>
    decreases s.len(),
{
    if s.len() > 0 && is_white_space(s[0]) {
        trimmed(s.drop_first())
    } else if s.len() > 0 && is_white_space(s.last()) {
        trimmed(s.drop_last())
    } else {
        s
    }
}

/// The comma-separated parts of `s`, in order: each comma ends one part
/// and starts the next, so there is one more part than there are commas.
pub open spec fn comma_parts(s: Seq<char>) -> Seq<Seq<char>>
    decreases s.len(),
{
    if s.len() == 0 {
        seq![Seq::empty()]
    } else {
        let rest = comma_parts(s.drop_last());
        if s.last() == ',' {
            rest.push(Seq::empty())
        } else {
            rest.update(rest.len() - 1, rest.last().push(s.last()))
        }
    }
}

pub open spec fn is_ascii_digit(c: char) -> bool {
    '0' <= c <= '9'
}

pub open spec fn all_digits(s: Seq<char>) -> bool {
    forall|i: int| 0 <= i < s.len() ==> is_ascii_digit(#[trigger] s[i])
}

/// The number written by the decimal digits `s`.
pub open spec fn digits_value(s: Seq<char>) -> nat
    decreases s.len(),
{
    if s.len() == 0 {
        0
    } else {
        digits_value(s.drop_last()) * 10 + ((s.last() as u32) - ('0' as u32)) as nat
    }
}

/// What an unsigned integer's `from_str` reads from `s`: an optional `+`
/// followed by one or more ASCII digits, and nothing else; `None` for any
/// other text.
pub open spec fn unsigned_text_value(s: Seq<char>) -> Option<nat> {
    let d = if s.len() > 0 && s[0] == '+' {
        s.drop_first()
    } else {
        s
    };
    if d.len() > 0 && all_digits(d) {
        Some(digits_value(d))
    } else {
        None
    }
}

/// The text of the error that `u8::from_str` reports for `s`.
pub uninterp spec fn u8_parse_error_text(s: Seq<char>) -> Seq<char>;

/// The text of the error that `u64::from_str` reports for `s`.
pub uninterp spec fn u64_parse_error_text(s: Seq<char>) -> Seq<char>;

/// The `Debug` rendering of a string slice: the text in double quotes with
/// special characters escaped.
pub uninterp spec fn debug_quoted(s: Seq<char>) -> Seq<char>;

/// Calls `str::split(',')` and turns each part into a `String`: the parts
/// between commas, in order.
#[verifier::external_body]
pub fn split_commas(s: &str) -> (parts: Vec<String>)
    ensures
        parts.deep_view() == comma_parts(s@),
{
    s.split(',').map(|p| p.to_string()).collect()
}

/// Calls `str::trim`: the slice without leading and trailing `White_Space`.
#[verifier::external_body]
pub fn trim(s: &str) -> (r: &str)
    ensures
        r@ == trimmed(s@),
{
    s.trim()
}

/// Calls `str::parse::<u8>`, turning the error into its `Display` text.
/// It succeeds exactly on an optional `+` followed by decimal digits whose
/// value is at most 255.
#[verifier::external_body]
pub fn parse_u8(s: &str) -> (r: Result<u8, String>)
    ensures
        match unsigned_text_value(s@) {
            Some(v) if v <= 255 => r == Ok::<u8, String>(v as u8),
            _ => r is Err && r->Err_0@ == u8_parse_error_text(s@),
        },
{
    s.parse::<u8>().map_err(|e| e.to_string())
}

/// Calls `str::parse::<u64>`, turning the error into its `Display` text.
/// It succeeds exactly on an optional `+` followed by decimal digits whose
/// value fits in a `u64`.
#[verifier::external_body]
pub fn parse_u64(s: &str) -> (r: Result<u64, String>)
    ensures
        match unsigned_text_value(s@) {
            Some(v) if v <= u64::MAX => r == Ok::<u64, String>(v as u64),
            _ => r is Err && r->Err_0@ == u64_parse_error_text(s@),
        },
{
    s.parse::<u64>().map_err(|e| e.to_string())
}

/// Formats `s` with `{:?}`.
#[verifier::external_body]
pub fn debug_quote(s: &str) -> (r: String)
    ensures
        r@ == debug_quoted(s@),
{
    format!("{s:?}")
}

} // verus!
