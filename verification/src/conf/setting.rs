//! The settings stored in the `settings` table, read from their stored text.
//!
//! Text settings (`openai_chat_endpoint`, `openai_model`, `default_prompt`,
//! `system`) are used as stored; the numeric ones are decimal integers.

use vstd::prelude::*;

verus! {

/// A stored setting that does not hold a number of its type.
#[derive(Debug, Clone, Copy, PartialEq, Eq, Structural)]
pub struct InvalidSetting;

/// The value of a non-empty run of ASCII digits.
pub open spec fn digits_value(ds: Seq<char>) -> int
    decreases ds.len(),
{
    if ds.len() == 0 {
        0
    } else {
        digits_value(ds.drop_last()) * 10 + (ds.last() as int - '0' as int)
    }
}

/// A non-empty run of ASCII digits.
pub open spec fn all_digits(ds: Seq<char>) -> bool {
    ds.len() > 0 && forall|i: int| 0 <= i < ds.len() ==> '0' <= #[trigger] ds[i] <= '9'
}

/// The integer that `s` writes in decimal, as `str::parse` reads integers:
/// an optional `+` (or, where `signed`, `-`) and then only ASCII digits.
pub open spec fn parsed_integer(s: Seq<char>, signed: bool) -> Option<int> {
    if s.len() > 0 && s[0] == '+' {
        if all_digits(s.drop_first()) {
            Some(digits_value(s.drop_first()))
        } else {
            None
        }
    } else if signed && s.len() > 0 && s[0] == '-' {
        if all_digits(s.drop_first()) {
            Some(-digits_value(s.drop_first()))
        } else {
            None
        }
    } else if all_digits(s) {
        Some(digits_value(s))
    } else {
        None
    }
}

/// The integer that `s` writes, where it lies within `lo..=hi`.
pub open spec fn parsed_within(s: Seq<char>, signed: bool, lo: int, hi: int) -> Option<int> {
    match parsed_integer(s, signed) {
        Some(v) => if lo <= v <= hi {
            Some(v)
        } else {
            None
        },
        None => None,
    }
}

/// `str::parse::<usize>`: as its documentation says, an optional `+`
/// followed by decimal digits, within the range of the type.
#[verifier::external_body]
fn parse_usize(s: &str) -> (r: Option<usize>)
    ensures
        r matches Some(v) ==> parsed_within(s@, false, 0, usize::MAX as int) == Some(v as int),
        r is None ==> parsed_within(s@, false, 0, usize::MAX as int) is None,
{
    s.parse::<usize>().ok()
}

/// `str::parse::<i32>`: as its documentation says, an optional `+` or `-`
/// followed by decimal digits, within the range of the type.
#[verifier::external_body]
fn parse_i32(s: &str) -> (r: Option<i32>)
    ensures
        r matches Some(v) ==> parsed_within(s@, true, i32::MIN as int, i32::MAX as int) == Some(
            v as int,
        ),
        r is None ==> parsed_within(s@, true, i32::MIN as int, i32::MAX as int) is None,
{
    s.parse::<i32>().ok()
}

/// `str::parse::<i64>`: as its documentation says, an optional `+` or `-`
/// followed by decimal digits, within the range of the type.
#[verifier::external_body]
fn parse_i64(s: &str) -> (r: Option<i64>)
    ensures
        r matches Some(v) ==> parsed_within(s@, true, i64::MIN as int, i64::MAX as int) == Some(
            v as int,
        ),
        r is None ==> parsed_within(s@, true, i64::MIN as int, i64::MAX as int) is None,
{
    s.parse::<i64>().ok()
}

/// A count setting, read from its stored text.
fn count_setting(raw: &str) -> (r: Result<usize, InvalidSetting>)
    ensures
        r matches Ok(v) ==> parsed_within(raw@, false, 0, usize::MAX as int) == Some(v as int),
        r is Err ==> parsed_within(raw@, false, 0, usize::MAX as int) is None,
{
    match parse_usize(raw) {
        Some(v) => Ok(v),
        None => Err(InvalidSetting),
    }
}

/// A karma or token setting, read from its stored text.
fn i32_setting(raw: &str) -> (r: Result<i32, InvalidSetting>)
    ensures
        r matches Ok(v) ==> parsed_within(raw@, true, i32::MIN as int, i32::MAX as int) == Some(
            v as int,
        ),
        r is Err ==> parsed_within(raw@, true, i32::MIN as int, i32::MAX as int) is None,
{
    match parse_i32(raw) {
        Some(v) => Ok(v),
        None => Err(InvalidSetting),
    }
}

/// How many times at most the system interacts with the LLM automatically
/// in a loop.
pub fn max_thought_loops(raw: &str) -> (r: Result<usize, InvalidSetting>)
    ensures
        r matches Ok(v) ==> parsed_within(raw@, false, 0, usize::MAX as int) == Some(v as int),
        r is Err ==> parsed_within(raw@, false, 0, usize::MAX as int) is None,
{
    count_setting(raw)
}

/// How many prompts to select from the history for consideration.
pub fn recent_history_limit(raw: &str) -> (r: Result<usize, InvalidSetting>)
    ensures
        r matches Ok(v) ==> parsed_within(raw@, false, 0, usize::MAX as int) == Some(v as int),
        r is Err ==> parsed_within(raw@, false, 0, usize::MAX as int) is None,
{
    count_setting(raw)
}

/// After how many chars the output of a bash command is truncated.
pub fn max_bash_output_len_for_response(raw: &str) -> (r: Result<usize, InvalidSetting>)
    ensures
        r matches Ok(v) ==> parsed_within(raw@, false, 0, usize::MAX as int) == Some(v as int),
        r is Err ==> parsed_within(raw@, false, 0, usize::MAX as int) is None,
{
    count_setting(raw)
}

/// How many tokens can be sent to the LLM at most.
pub fn max_tokens(raw: &str) -> (r: Result<i32, InvalidSetting>)
    ensures
        r matches Ok(v) ==> parsed_within(raw@, true, i32::MIN as int, i32::MAX as int) == Some(
            v as int,
        ),
        r is Err ==> parsed_within(raw@, true, i32::MIN as int, i32::MAX as int) is None,
{
    i32_setting(raw)
}

/// The karma of an average prompt.
pub fn default_karma(raw: &str) -> (r: Result<i32, InvalidSetting>)
    ensures
        r matches Ok(v) ==> parsed_within(raw@, true, i32::MIN as int, i32::MAX as int) == Some(
            v as int,
        ),
        r is Err ==> parsed_within(raw@, true, i32::MIN as int, i32::MAX as int) is None,
{
    i32_setting(raw)
}

/// The karma of a prompt that holds crucial information.
pub fn instructive_karma(raw: &str) -> (r: Result<i32, InvalidSetting>)
    ensures
        r matches Ok(v) ==> parsed_within(raw@, true, i32::MIN as int, i32::MAX as int) == Some(
            v as int,
        ),
        r is Err ==> parsed_within(raw@, true, i32::MIN as int, i32::MAX as int) is None,
{
    i32_setting(raw)
}

/// The karma of a correction or a help with the format.
pub fn decorative_karma(raw: &str) -> (r: Result<i32, InvalidSetting>)
    ensures
        r matches Ok(v) ==> parsed_within(raw@, true, i32::MIN as int, i32::MAX as int) == Some(
            v as int,
        ),
        r is Err ==> parsed_within(raw@, true, i32::MIN as int, i32::MAX as int) is None,
{
    i32_setting(raw)
}

/// The karma of a finished task that is kept as context.
pub fn contextual_karma(raw: &str) -> (r: Result<i32, InvalidSetting>)
    ensures
        r matches Ok(v) ==> parsed_within(raw@, true, i32::MIN as int, i32::MAX as int) == Some(
            v as int,
        ),
        r is Err ==> parsed_within(raw@, true, i32::MIN as int, i32::MAX as int) is None,
{
    i32_setting(raw)
}

/// After how many idle seconds a session ends and the default prompt is
/// used for the next input.
pub fn end_session_after_idle_secs(raw: &str) -> (r: Result<i64, InvalidSetting>)
    ensures
        r matches Ok(v) ==> parsed_within(raw@, true, i64::MIN as int, i64::MAX as int) == Some(
            v as int,
        ),
        r is Err ==> parsed_within(raw@, true, i64::MIN as int, i64::MAX as int) is None,
{
    match parse_i64(raw) {
        Some(v) => Ok(v),
        None => Err(InvalidSetting),
    }
}

} // verus!
