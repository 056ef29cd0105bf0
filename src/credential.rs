use crate::error::SlatusError;
use vstd::prelude::*;

verus! {

/// Unicode's White_Space property, which `char::is_whitespace` tests.
pub open spec fn is_white_space(c: char) -> bool {
    let u = c as u32;
    (0x09 <= u <= 0x0d) || u == 0x20 || u == 0x85 || u == 0xa0 || u == 0x1680 || (0x2000 <= u
        <= 0x200a) || u == 0x2028 || u == 0x2029 || u == 0x202f || u == 0x205f || u == 0x3000
}

/// `r` is `s` without its leading and trailing white space.
pub open spec fn is_trim_of(r: Seq<char>, s: Seq<char>) -> bool {
    exists|i: int, j: int|
        #![trigger s.subrange(i, j)]
        0 <= i <= j <= s.len() && r == s.subrange(i, j) && (forall|k: int|
            0 <= k < i ==> is_white_space(#[trigger] s[k])) && (forall|k: int|
            j <= k < s.len() ==> is_white_space(#[trigger] s[k])) && (i < j ==> !is_white_space(
            s[i],
        ) && !is_white_space(s[j - 1]))
}

/// `s` begins with `prefix`.
pub open spec fn has_prefix(s: Seq<char>, prefix: Seq<char>) -> bool {
    prefix.len() <= s.len() && s.subrange(0, prefix.len() as int) == prefix
}

/// Relies on str::trim: the slice without leading and trailing white space.
#[verifier::external_body]
fn trim(s: &str) -> (r: &str)
    ensures
        is_trim_of(r@, s@),
{
    s.trim()
}

/// Relies on str::starts_with with a `&str` pattern.
#[verifier::external_body]
fn starts_with(s: &str, prefix: &str) -> (r: bool)
    ensures
        r == has_prefix(s@, prefix@),
{
    s.starts_with(prefix)
}

/// Accepts a user token: one that begins with `xoxp-`.
pub fn check_token(token: &str) -> (r: Result<(), SlatusError>)
    ensures
        r is Ok <==> has_prefix(token@, "xoxp-"@),
        r matches Err(e) ==> e == SlatusError::InvalidInput,
{
    if starts_with(token, "xoxp-") {
        Ok(())
    } else {
        Err(SlatusError::InvalidInput)
    }
}

/// The credential held in the token file's contents, without surrounding
/// white space; `None` stands for a file that does not exist.
pub fn load_token(contents: Option<&str>) -> (r: Result<String, SlatusError>)
    ensures
        match contents {
            None => r == Err::<String, SlatusError>(SlatusError::NotConfigured),
            Some(t) => r matches Ok(tok) && is_trim_of(tok@, t@),
        },
{
    match contents {
        None => Err(SlatusError::NotConfigured),
        Some(t) => Ok(trim(t).to_string()),
    }
}

} // verus!
