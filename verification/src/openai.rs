//! Utils for communication with OpenAI models.

use crate::text::{is_white_space, is_whitespace, str_chars};
use vstd::prelude::*;

verus! {

/// The number of whitespace chars in `s`.
pub open spec fn whitespace_count(s: Seq<char>) -> nat
    decreases s.len(),
{
    if s.len() == 0 {
        0
    } else {
        whitespace_count(s.drop_last()) + if is_white_space(s.last()) {
            1nat
        } else {
            0nat
        }
    }
}

/// The pessimistic estimate of the tokens of `s`: two per whitespace char,
/// and at least two.
pub open spec fn estimated_tokens(s: Seq<char>) -> int {
    if whitespace_count(s) == 0 {
        2
    } else {
        2 * whitespace_count(s) as int
    }
}

/// The number of whitespace chars of `s`.
fn count_whitespace(s: &str) -> (r: usize)
    ensures
        r == whitespace_count(s@),
{
    let cs = str_chars(s);
    let mut n: usize = 0;
    let mut i: usize = 0;
    while i < cs.len()
        invariant
            i <= cs@.len(),
            n <= i,
            n == whitespace_count(cs@.take(i as int)),
        decreases cs@.len() - i,
    {
        assert(cs@.take(i + 1).drop_last() == cs@.take(i as int));
        if is_whitespace(cs[i]) {
            n = n + 1;
        }
        i = i + 1;
    }
    assert(cs@.take(cs@.len() as int) == cs@);
    n
}

/// Given string, estimate how many tokens would that string be represented
/// with in OpenAI universe.
/// We give a pessimistic estimate.
pub fn estimate_tokens(s: &str) -> (r: i32)
    requires
        whitespace_count(s@) <= 0x3fff_ffff,
    ensures
        r == estimated_tokens(s@),
{
    let n = count_whitespace(s);
    let n = if n > 1 {
        n
    } else {
        1
    };
    n as i32 * 2
}

/// Estimates the tokens of `s` as [`estimate_tokens`] does, or gives `None`
/// where the estimate does not fit in an `i32`.
pub fn checked_estimate_tokens(s: &str) -> (r: Option<i32>)
    ensures
        r matches Some(t) ==> t == estimated_tokens(s@),
        r is None <==> whitespace_count(s@) > 0x3fff_ffff,
{
    if count_whitespace(s) > 0x3fff_ffff {
        None
    } else {
        Some(estimate_tokens(s))
    }
}

/// The tokens of the completion: the total tokens of an exchange minus those
/// of the prompt, or zero where the total is smaller.
pub fn completion_tokens(total_tokens: u64, prompt_tokens: u64) -> (r: usize)
    ensures
        r == (if total_tokens >= prompt_tokens {
            (total_tokens - prompt_tokens) as usize
        } else {
            0usize
        }),
{
    match total_tokens.checked_sub(prompt_tokens) {
        Some(d) => d as usize,
        None => 0,
    }
}

/// What a reply of the chat API holds: the content of the first choice and
/// the usage counts, where they are there.
#[derive(Debug, Clone)]
pub struct Completion {
    /// `choices[0].message.content`, where it is a string.
    pub content: Option<String>,
    /// `usage.prompt_tokens`, where it is an unsigned integer.
    pub prompt_tokens: Option<u64>,
    /// `usage.total_tokens`, where it is an unsigned integer.
    pub total_tokens: Option<u64>,
}

/// What a reply of the chat API lacks.
#[derive(Debug, Clone, Copy, PartialEq, Eq, Structural)]
pub enum CompletionError {
    /// No `choices[0].message.content`.
    NoContent,
    /// No `usage.prompt_tokens`.
    NoPromptTokens,
    /// No `usage.total_tokens`.
    NoTotalTokens,
}

/// Reads a reply: the tokens of the completion and its text, or the first
/// of its parts that is missing.
pub fn read_completion(c: Completion) -> (r: Result<(usize, String), CompletionError>)
    ensures
        r is Ok <==> (c.content is Some && c.prompt_tokens is Some && c.total_tokens is Some),
        c.content is None ==> r == Err::<(usize, String), CompletionError>(CompletionError::NoContent),
        c.content is Some && c.prompt_tokens is None ==> r == Err::<(usize, String), CompletionError>(
            CompletionError::NoPromptTokens,
        ),
        c.content is Some && c.prompt_tokens is Some && c.total_tokens is None ==> r == Err::<
            (usize, String),
            CompletionError,
        >(CompletionError::NoTotalTokens),
        r matches Ok((n, s)) ==> s@ == c.content->0@ && n == (if c.total_tokens->0
            >= c.prompt_tokens->0 {
            (c.total_tokens->0 - c.prompt_tokens->0) as usize
        } else {
            0usize
        }),
{
    let message = match c.content {
        Some(m) => m,
        None => {
            return Err(CompletionError::NoContent);
        },
    };
    let prompt_tokens = match c.prompt_tokens {
        Some(t) => t,
        None => {
            return Err(CompletionError::NoPromptTokens);
        },
    };
    let total_tokens = match c.total_tokens {
        Some(t) => t,
        None => {
            return Err(CompletionError::NoTotalTokens);
        },
    };
    Ok((completion_tokens(total_tokens, prompt_tokens), message))
}

} // verus!
