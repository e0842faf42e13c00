//! Structs used across all modules.

use vstd::prelude::*;

verus! {

/// The key of a prompt in the history.
#[derive(Hash, Clone, Copy, Debug, Default, PartialEq, Eq, Structural, PartialOrd, Ord)]
pub struct PromptId(pub i32);

/// A prompt as it is stored in the history.
#[derive(Debug)]
pub struct Prompt {
    pub id: PromptId,
    pub role: String,
    pub content: String,
    pub created_at: String,
    pub mode: String,
    pub karma: i32,
    pub tokens: i32,
}

/// A prompt about to be stored in the history.
#[derive(Debug)]
pub struct NewPrompt<'a> {
    pub role: &'a str,
    pub content: &'a str,
    pub mode: &'a str,
    pub tokens: i32,
    pub karma: i32,
}

/// How the prompt generated by a mode is sent and stored.
#[derive(Debug)]
pub struct ImmediatePromptParams {
    /// What karma should be the user prompt inserted into db with
    pub user_prompt_karma: i32,
    /// Up to 4 sequences where the API stops generating further tokens.
    pub stop: Vec<String>,
}

/// How the response of the model is stored.
#[derive(Debug)]
pub struct LlmResponseParams {
    /// What karma should be the LLM response inserted into db with
    pub llm_response_karma: i32,
}

/// The format in which the history stores creation times.
pub const CREATED_AT_FORMAT: &'static str = "%Y-%m-%d %H:%M:%S";

/// Name for what chrono's `Utc.datetime_from_str(s, fmt)` gives back, taken
/// as the Unix timestamp of the parsed instant, or `None` where it fails.
pub uninterp spec fn utc_datetime_from_str(s: Seq<char>, fmt: Seq<char>) -> Option<i64>;

/// Parses `s` with the strftime format `fmt` as a UTC time, through chrono's
/// `TimeZone::datetime_from_str` on `Utc`, and gives its Unix timestamp
/// (`DateTime::timestamp`). The contract only names the result.
#[verifier::external_body]
#[allow(deprecated)]
fn parse_utc_timestamp(s: &str, fmt: &str) -> (r: Option<i64>)
    ensures
        r == utc_datetime_from_str(s@, fmt@),
{
    match chrono::TimeZone::datetime_from_str(&chrono::Utc, s, fmt) {
        Ok(t) => Some(t.timestamp()),
        Err(_) => None,
    }
}

impl Prompt {
    /// The creation time of the prompt as a Unix timestamp, where it can be
    /// read in [`CREATED_AT_FORMAT`].
    pub open spec fn spec_created_at(&self) -> Option<i64> {
        utc_datetime_from_str(self.created_at@, CREATED_AT_FORMAT@)
    }

    /// Reads the creation time, or `None` where it is not in
    /// [`CREATED_AT_FORMAT`].
    pub fn parse_created_at(&self) -> (r: Option<i64>)
        ensures
            r == self.spec_created_at(),
    {
        parse_utc_timestamp(self.created_at.as_str(), CREATED_AT_FORMAT)
    }

    /// The creation time of the prompt as a Unix timestamp.
    pub fn created_at(&self) -> (r: i64)
        requires
            self.spec_created_at() is Some,
        ensures
            self.spec_created_at() == Some(r),
    {
        self.parse_created_at().unwrap()
    }
}

impl Default for Prompt {
    fn default() -> (p: Self)
        ensures
            p.id == PromptId(0),
            p.role@ == Seq::<char>::empty(),
            p.content@ == Seq::<char>::empty(),
            p.created_at@ == Seq::<char>::empty(),
            p.mode@ == Seq::<char>::empty(),
            p.karma == 0,
            p.tokens == 0,
    {
        Prompt {
            id: PromptId(0),
            role: String::new(),
            content: String::new(),
            created_at: String::new(),
            mode: String::new(),
            karma: 0,
            tokens: 0,
        }
    }
}

impl Default for ImmediatePromptParams {
    fn default() -> (p: Self)
        ensures
            p.user_prompt_karma == 0,
            p.stop@.len() == 0,
    {
        ImmediatePromptParams { user_prompt_karma: 0, stop: Vec::new() }
    }
}

impl Default for LlmResponseParams {
    fn default() -> (p: Self)
        ensures
            p.llm_response_karma == 0,
    {
        LlmResponseParams { llm_response_karma: 0 }
    }
}

impl std::ops::Deref for PromptId {
    type Target = i32;

    fn deref(&self) -> (r: &i32)
        ensures
            *r == self.0,
    {
        &self.0
    }
}

} // verus!
