//! Mode determines decorators for prompt and LLM response interpretation.
//!
//! A keyword which changes the mode is called a directive.
//! A good directive is
//!
//! - short because you say it often;
//! - unambiguously pronounced with accents;
//! - mnemonic for flatter learning curve;
//! - obscure to lower collisions.

pub mod marat;

use crate::models::{ImmediatePromptParams, LlmResponseParams, NewPrompt, Prompt};
use crate::openai::{estimate_tokens, estimated_tokens, whitespace_count};
use crate::pattern::{
    is_match, regex_is_match, regex_replace_all, replace_all, ANNUS_RE, COBOL_RE, DALI_RE,
    MARAT_RE,
};
use crate::text::{str_eq, trim, trim_str};
use crate::history::USER_ROLE;
use marat::prompts::{tao_instruction, tao_text};
use vstd::prelude::*;

verus! {

/// A mode of operation: how the next prompt is made and how the response of
/// the model is read.
#[derive(Debug, Clone, PartialEq, Eq)]
pub enum Mode {
    /// For when I want a free-style mode, I use directive _"dali"_.
    /// This mode is the most creative.
    /// The prompt is the chat history and the instruction, without any system
    /// decorators.
    Dali { prompt: String },
    /// For when I want it to `$ bash`, I use _"marat"_ as the keyword that
    /// changes the mode.
    Marat {
        /// What to append to the chat messages next.
        next_prompt: String,
        /// How many responses of the loop came before; it bounds how many
        /// of the latest prompts the end of the loop demotes.
        thought_loop: usize,
        /// The karma that the next prompt is stored with: the first prompt
        /// is instructive, so that it is included as context longer; an
        /// observation has the default karma; a help with the format is
        /// decorative.
        next_prompt_karma: PromptKarma,
    },
    /// For when I want it to code, I use directive _"cobol"_.
    Cobol,
    /// For when I want to be explicit about history, I use directive
    /// _"annus"_.
    Annus,
}

/// Which karma setting a prompt is stored with.
#[derive(Debug, Clone, Copy, PartialEq, Eq, Structural)]
pub enum PromptKarma {
    /// The `instructive_karma` setting.
    Instructive,
    /// The `default_karma` setting.
    Default,
    /// The `decorative_karma` setting.
    Decorative,
}

/// A mode, with its texts as sequences of chars.
pub enum ModeView {
    Dali { prompt: Seq<char> },
    Marat { next_prompt: Seq<char>, thought_loop: nat, next_prompt_karma: PromptKarma },
    Cobol,
    Annus,
}

impl View for Mode {
    type V = ModeView;

    open spec fn view(&self) -> ModeView {
        match self {
            Mode::Dali { prompt } => ModeView::Dali { prompt: prompt@ },
            Mode::Marat { next_prompt, thought_loop, next_prompt_karma } => ModeView::Marat {
                next_prompt: next_prompt@,
                thought_loop: *thought_loop as nat,
                next_prompt_karma: *next_prompt_karma,
            },
            Mode::Cobol => ModeView::Cobol,
            Mode::Annus => ModeView::Annus,
        }
    }
}

/// The karma settings with which prompts are stored and demoted.
#[derive(Debug, Clone, Copy)]
pub struct KarmaSettings {
    /// The `default_karma` setting: an average prompt.
    pub default: i32,
    /// The `instructive_karma` setting: crucial information.
    pub instructive: i32,
    /// The `decorative_karma` setting: corrections and help on the format.
    pub decorative: i32,
    /// The `contextual_karma` setting: a finished task kept as context.
    pub contextual: i32,
}

/// What the choice of a mode for an input reads besides the input.
#[derive(Debug)]
pub struct InputContext {
    /// The `system` setting: the system that bash commands are written for.
    pub system: String,
    /// The `default_prompt` setting: the mode of an input without directive
    /// once the session has ended.
    pub default_prompt: String,
    /// The `end_session_after_idle_secs` setting.
    pub end_session_after_idle_secs: i64,
    /// The latest prompt of the history, if there is one.
    pub latest_prompt: Option<Prompt>,
    /// The current time, as a Unix timestamp in seconds.
    pub now: i64,
}

/// The value of a karma setting.
pub open spec fn karma_value(k: PromptKarma, karma: KarmaSettings) -> i32 {
    match k {
        PromptKarma::Instructive => karma.instructive,
        PromptKarma::Default => karma.default,
        PromptKarma::Decorative => karma.decorative,
    }
}

impl KarmaSettings {
    /// The value of the karma setting `k`.
    pub fn value_of(&self, k: PromptKarma) -> (r: i32)
        ensures
            r == karma_value(k, *self),
    {
        match k {
            PromptKarma::Instructive => self.instructive,
            PromptKarma::Default => self.default,
            PromptKarma::Decorative => self.decorative,
        }
    }
}

/// Why no mode can be chosen for an input.
#[derive(Debug, Clone, PartialEq, Eq)]
pub enum ModeError {
    /// The `default_prompt` setting names a mode that cannot start a session.
    UnsupportedDefaultPrompt(String),
}

/// The name of the mode "dali".
pub const DALI_STR: &'static str = "dali";

/// The name of the mode "annus".
pub const ANNUS_STR: &'static str = "annus";

/// The name of the mode "cobol".
pub const COBOL_STR: &'static str = "cobol";

/// The name of a mode, as stored with its prompts.
pub open spec fn mode_name(m: ModeView) -> Seq<char> {
    match m {
        ModeView::Marat { .. } => marat::MODE_STR@,
        ModeView::Dali { .. } => DALI_STR@,
        ModeView::Annus => ANNUS_STR@,
        ModeView::Cobol => COBOL_STR@,
    }
}

/// Seconds from `created_at` to `now`, or zero where `created_at` is later.
pub open spec fn elapsed_seconds(now: i64, created_at: i64) -> int {
    if now - created_at > 0 {
        now - created_at
    } else {
        0
    }
}

/// What the directive regexes find in an input.
#[derive(Debug, Clone, PartialEq, Eq)]
pub enum Directive {
    /// "marat", with the input where each occurrence is replaced by a space.
    Marat { task: String },
    /// "cobol".
    Cobol,
    /// "annus".
    Annus,
    /// "dali", with the input where each occurrence is replaced by a space.
    Dali { prompt: String },
    /// No directive.
    Absent,
}

/// A [`Directive`], with its texts as sequences of chars.
pub enum DirectiveView {
    Marat { task: Seq<char> },
    Cobol,
    Annus,
    Dali { prompt: Seq<char> },
    Absent,
}

impl View for Directive {
    type V = DirectiveView;

    open spec fn view(&self) -> DirectiveView {
        match self {
            Directive::Marat { task } => DirectiveView::Marat { task: task@ },
            Directive::Cobol => DirectiveView::Cobol,
            Directive::Annus => DirectiveView::Annus,
            Directive::Dali { prompt } => DirectiveView::Dali { prompt: prompt@ },
            Directive::Absent => DirectiveView::Absent,
        }
    }
}

/// The directive of an input: each is a whole word, case-insensitively;
/// "marat" wins over the others, then "cobol", "annus" and "dali".
pub open spec fn directive_found(t: Seq<char>) -> DirectiveView {
    if regex_is_match(MARAT_RE@, t) {
        DirectiveView::Marat { task: regex_replace_all(MARAT_RE@, t, " "@) }
    } else if regex_is_match(COBOL_RE@, t) {
        DirectiveView::Cobol
    } else if regex_is_match(ANNUS_RE@, t) {
        DirectiveView::Annus
    } else if regex_is_match(DALI_RE@, t) {
        DirectiveView::Dali { prompt: regex_replace_all(DALI_RE@, t, " "@) }
    } else {
        DirectiveView::Absent
    }
}

/// The latest prompt, whose creation time is `latest_created_at`, was stored
/// less than `end_session_after_idle_secs` seconds ago: the session goes on.
pub open spec fn session_continues(ctx: &InputContext, latest_created_at: Option<i64>) -> bool {
    &&& ctx.latest_prompt is Some
    &&& latest_created_at matches Some(c) && elapsed_seconds(ctx.now, c)
        < ctx.end_session_after_idle_secs
}

/// The mode of a (trimmed) input `t` in which `found` was found, where the
/// creation time of the latest prompt reads as `latest_created_at`.
///
/// A directive chooses its mode. Without one, an input within a running
/// session goes on in the mode of the latest prompt, where that is "dali" or
/// "marat". Otherwise the `default_prompt` setting decides, and only "dali"
/// can start a session.
pub open spec fn mode_from(
    t: Seq<char>,
    found: DirectiveView,
    ctx: &InputContext,
    latest_created_at: Option<i64>,
) -> Result<ModeView, Seq<char>> {
    match found {
        DirectiveView::Marat { task } => Ok(
            ModeView::Marat {
                next_prompt: tao_text(task, ctx.system@),
                thought_loop: 0,
                next_prompt_karma: PromptKarma::Instructive,
            },
        ),
        DirectiveView::Cobol => Ok(ModeView::Cobol),
        DirectiveView::Annus => Ok(ModeView::Annus),
        DirectiveView::Dali { prompt } => Ok(ModeView::Dali { prompt }),
        DirectiveView::Absent => {
            if session_continues(ctx, latest_created_at) && ctx.latest_prompt->0.mode@
                == DALI_STR@ {
                Ok(ModeView::Dali { prompt: t })
            } else if session_continues(ctx, latest_created_at) && ctx.latest_prompt->0.mode@
                == marat::MODE_STR@ {
                Ok(
                    ModeView::Marat {
                        next_prompt: tao_text(t, ctx.system@),
                        thought_loop: 0,
                        next_prompt_karma: PromptKarma::Instructive,
                    },
                )
            } else if ctx.default_prompt@ == DALI_STR@ {
                Ok(ModeView::Dali { prompt: t })
            } else {
                Err(ctx.default_prompt@)
            }
        },
    }
}

/// The creation time of the latest prompt, where there is one and it reads.
pub open spec fn latest_created_at(ctx: &InputContext) -> Option<i64> {
    match ctx.latest_prompt {
        Some(p) => p.spec_created_at(),
        None => None,
    }
}

/// The mode chosen for an input, or the name of the unusable default mode:
/// the mode of its trimmed text with the directive found in it.
pub open spec fn mode_for_input(input: Seq<char>, ctx: &InputContext) -> Result<ModeView, Seq<char>> {
    let t = trim(input);
    mode_from(t, directive_found(t), ctx, latest_created_at(ctx))
}

/// The input asks for a mode whose handling does not exist yet.
pub open spec fn asks_unimplemented_mode(input: Seq<char>) -> bool {
    directive_found(trim(input)) is Cobol || directive_found(trim(input)) is Annus
}

/// The input holds no directive, so its mode depends on the latest prompt.
pub open spec fn has_no_directive(input: Seq<char>) -> bool {
    directive_found(trim(input)) is Absent
}

/// The creation time of the latest prompt can be read, where there is one.
pub open spec fn latest_prompt_readable(ctx: &InputContext) -> bool {
    ctx.latest_prompt matches Some(p) ==> p.spec_created_at() is Some
}

/// The mode of an input can be decided: it asks for no mode whose handling
/// does not exist yet, and where the latest prompt decides, its creation time
/// can be read.
pub open spec fn input_decidable(input: Seq<char>, ctx: &InputContext) -> bool {
    &&& !asks_unimplemented_mode(input)
    &&& has_no_directive(input) ==> latest_prompt_readable(ctx)
}

/// An input with a directive gets the same mode whatever the history and the
/// session settings are: only the `system` setting goes into it.
pub proof fn law_directive_overrides_session(input: Seq<char>, ctx1: &InputContext, ctx2: &InputContext)
    requires
        !has_no_directive(input),
        ctx1.system@ == ctx2.system@,
    ensures
        mode_for_input(input, ctx1) == mode_for_input(input, ctx2),
{
}

/// The task that starts a thought loop, with a directive or in a running
/// session, is stored with the instructive karma.
pub proof fn law_new_task_is_instructive(input: Seq<char>, ctx: &InputContext, karma: KarmaSettings)
    ensures
        mode_for_input(input, ctx) is Ok && mode_for_input(input, ctx)->Ok_0 is Marat
            ==> immediate_prompt_of(mode_for_input(input, ctx)->Ok_0, karma).1 == karma.instructive,
{
}

/// An input with the directive "marat" starts a thought loop at zero whose
/// first prompt is the instruction: the system, the answer format, then the
/// input with the directive replaced by a space, as the task.
pub proof fn law_marat_directive_gives_the_instruction(input: Seq<char>, ctx: &InputContext)
    ensures
        regex_is_match(MARAT_RE@, trim(input)) ==> mode_for_input(input, ctx) == Ok::<
            ModeView,
            Seq<char>,
        >(
            ModeView::Marat {
                next_prompt: marat::prompts::TAO_INTRO@ + ctx.system@ + marat::prompts::TAO_FORMAT@
                    + regex_replace_all(MARAT_RE@, trim(input), " "@) + marat::prompts::TAO_END@,
                thought_loop: 0,
                next_prompt_karma: PromptKarma::Instructive,
            },
        ),
{
}

/// The view of the result of choosing a mode.
pub open spec fn mode_result_view(r: Result<Mode, ModeError>) -> Result<ModeView, Seq<char>> {
    match r {
        Ok(m) => Ok(m@),
        Err(ModeError::UnsupportedDefaultPrompt(d)) => Err(d@),
    }
}

/// The prompt that a mode sends next and the karma it is stored with.
pub open spec fn immediate_prompt_of(m: ModeView, karma: KarmaSettings) -> (Seq<char>, i32) {
    match m {
        ModeView::Marat { next_prompt, next_prompt_karma, .. } => (
            next_prompt,
            karma_value(next_prompt_karma, karma),
        ),
        ModeView::Dali { prompt } => (prompt, karma.default),
        _ => (seq![], 0),
    }
}

/// What to do with a response of the model: the decisions of a mode, for the
/// daemon to carry out.
#[derive(Debug)]
pub enum ResponseAction {
    /// The mode is done with this input; store the response with `params`.
    Done { params: LlmResponseParams },
    /// The thought loop of mode "marat" has ended: select the latest `limit`
    /// prompts, newest first, apply [`marat::karma_updates`] to them and store
    /// the response with `params`. The input is then done.
    FinishThoughtLoop { limit: usize, params: LlmResponseParams },
    /// Run `script` with bash, make an observation of its output
    /// ([`marat::format_observation`]) and go on with
    /// [`marat::after_observation`].
    RunScript { script: String, thought_loop: usize },
    /// Store the response with `params` and go on in `mode`.
    Continue { mode: Mode, params: LlmResponseParams },
}

/// A [`ResponseAction`], with its texts as sequences of chars.
pub enum ResponseActionView {
    Done { llm_response_karma: i32 },
    FinishThoughtLoop { limit: nat, llm_response_karma: i32 },
    RunScript { script: Seq<char>, thought_loop: nat },
    Continue { mode: ModeView, llm_response_karma: i32 },
}

impl View for ResponseAction {
    type V = ResponseActionView;

    open spec fn view(&self) -> ResponseActionView {
        match self {
            ResponseAction::Done { params } => ResponseActionView::Done {
                llm_response_karma: params.llm_response_karma,
            },
            ResponseAction::FinishThoughtLoop { limit, params } =>
                ResponseActionView::FinishThoughtLoop {
                limit: *limit as nat,
                llm_response_karma: params.llm_response_karma,
            },
            ResponseAction::RunScript { script, thought_loop } => ResponseActionView::RunScript {
                script: script@,
                thought_loop: *thought_loop as nat,
            },
            ResponseAction::Continue { mode, params } => ResponseActionView::Continue {
                mode: mode@,
                llm_response_karma: params.llm_response_karma,
            },
        }
    }
}

/// What a mode does with a response of the model.
pub open spec fn response_action_of(m: ModeView, response: Seq<char>, karma: KarmaSettings) -> ResponseActionView {
    match m {
        ModeView::Marat { thought_loop, .. } => marat::response_action(response, thought_loop, karma),
        _ => ResponseActionView::Done { llm_response_karma: 0 },
    }
}

/// The text after which the model stops generating in mode "marat".
pub const OBSERVATION_STOP: &'static str = "Observation:";

impl Mode {
    /// The name of the mode, as stored with its prompts.
    pub fn as_str(&self) -> (r: &'static str)
        ensures
            r@ == mode_name(self@),
    {
        match self {
            Self::Marat { .. } => marat::MODE_STR,
            Self::Dali { .. } => DALI_STR,
            Self::Annus => ANNUS_STR,
            Self::Cobol => COBOL_STR,
        }
    }

    /// Finds the directive of a (trimmed) input with the directive regexes
    /// (see [`directive_found`]).
    pub fn find_directive(t: &str) -> (r: Directive)
        ensures
            r@ == directive_found(t@),
    {
        if is_match(MARAT_RE, t) {
            Directive::Marat { task: replace_all(MARAT_RE, t, " ") }
        } else if is_match(COBOL_RE, t) {
            Directive::Cobol
        } else if is_match(ANNUS_RE, t) {
            Directive::Annus
        } else if is_match(DALI_RE, t) {
            Directive::Dali { prompt: replace_all(DALI_RE, t, " ") }
        } else {
            Directive::Absent
        }
    }

    /// The mode of a (trimmed) input `t` in which `found` was found, where the
    /// creation time of the latest prompt reads as `latest_created_at` (see
    /// [`mode_from`]).
    pub fn from_directive(
        t: &str,
        found: Directive,
        ctx: &InputContext,
        latest_created_at: Option<i64>,
    ) -> (r: Result<Self, ModeError>)
        requires
            !(found is Cobol || found is Annus),
        ensures
            mode_result_view(r) == mode_from(t@, found@, ctx, latest_created_at),
    {
        match found {
            Directive::Marat { task } => {
                return Ok(
                    Self::Marat {
                        thought_loop: 0,
                        next_prompt: tao_instruction(task.as_str(), ctx.system.as_str()),
                        next_prompt_karma: PromptKarma::Instructive,
                    },
                );
            },
            Directive::Dali { prompt } => {
                return Ok(Self::Dali { prompt });
            },
            _ => {},
        }
        if let Some(latest_prompt) = &ctx.latest_prompt {
            if let Some(created_at) = latest_created_at {
                let diff: i128 = ctx.now as i128 - created_at as i128;
                let elapsed_seconds: i128 = if diff > 0 {
                    diff
                } else {
                    0
                };
                // if session hasn't ended yet
                if elapsed_seconds < ctx.end_session_after_idle_secs as i128 {
                    if str_eq(latest_prompt.mode.as_str(), DALI_STR) {
                        return Ok(Self::Dali { prompt: String::from_str(t) });
                    } else if str_eq(latest_prompt.mode.as_str(), marat::MODE_STR) {
                        return Ok(
                            Self::Marat {
                                thought_loop: 0,
                                next_prompt: tao_instruction(t, ctx.system.as_str()),
                                next_prompt_karma: PromptKarma::Instructive,
                            },
                        );
                    }
                }
            }
        }
        if str_eq(ctx.default_prompt.as_str(), DALI_STR) {
            Ok(Self::Dali { prompt: String::from_str(t) })
        } else {
            Err(ModeError::UnsupportedDefaultPrompt(ctx.default_prompt.clone()))
        }
    }

    /// 1. Decides on the mode of an input (see [`mode_for_input`]).
    pub fn process_input(input: &str, ctx: &InputContext) -> (r: Result<Self, ModeError>)
        requires
            input_decidable(input@, ctx),
        ensures
            mode_result_view(r) == mode_for_input(input@, ctx),
    {
        let input = trim_str(input);
        let input = input.as_str();
        let found = Self::find_directive(input);
        let created_at = match (&found, &ctx.latest_prompt) {
            (Directive::Absent, Some(latest_prompt)) => Some(latest_prompt.created_at()),
            _ => None,
        };
        proof {
            if found is Absent {
                assert(created_at == latest_created_at(ctx));
            }
        }
        Self::from_directive(input, found, ctx, created_at)
    }

    /// Decides on the mode of an input as [`Mode::process_input`] does, or
    /// gives `None` where that cannot proceed: the input asks for a mode
    /// whose handling does not exist yet, or the latest prompt decides and
    /// its creation time cannot be read.
    pub fn try_process_input(input: &str, ctx: &InputContext) -> (r: Option<
        Result<Self, ModeError>,
    >)
        ensures
            r is None <==> !input_decidable(input@, ctx),
            r matches Some(res) ==> mode_result_view(res) == mode_for_input(input@, ctx),
    {
        let trimmed = trim_str(input);
        let found = Self::find_directive(trimmed.as_str());
        match found {
            Directive::Cobol | Directive::Annus => {
                return None;
            },
            Directive::Absent => {
                if let Some(latest_prompt) = &ctx.latest_prompt {
                    if latest_prompt.parse_created_at().is_none() {
                        return None;
                    }
                }
            },
            _ => {},
        }
        Some(Self::process_input(input, ctx))
    }

    /// 2. The prompt that the mode sends next, and how it is sent and
    /// stored.
    pub fn generate_immediate_prompt(&self, karma: &KarmaSettings) -> (r: (
        String,
        ImmediatePromptParams,
    ))
        requires
            self is Marat || self is Dali,
        ensures
            (r.0@, r.1.user_prompt_karma) == immediate_prompt_of(self@, *karma),
            self is Marat ==> r.1.stop@.len() == 1 && r.1.stop@[0]@ == OBSERVATION_STOP@,
            self is Dali ==> r.1.stop@.len() == 0,
    {
        match self {
            Mode::Marat { next_prompt, next_prompt_karma, .. } => (
                next_prompt.clone(),
                ImmediatePromptParams {
                    stop: vec![String::from_str(OBSERVATION_STOP)],
                    user_prompt_karma: karma.value_of(*next_prompt_karma),
                },
            ),
            Mode::Dali { prompt } => (
                prompt.clone(),
                ImmediatePromptParams { user_prompt_karma: karma.default, stop: Vec::new() },
            ),
            _ => {
                proof {
                    assert(false);
                }
                (String::new(), ImmediatePromptParams::default())
            },
        }
    }

    /// 3. What to do with a response of the model (see
    /// [`marat::response_action`]); mode "dali" is done after one response.
    pub fn process_llm_response(self, response: &str, karma: &KarmaSettings) -> (r: ResponseAction)
        requires
            self is Marat || self is Dali,
            self matches Mode::Marat { thought_loop, .. } ==> marat::loop_count_fits(thought_loop),
        ensures
            r@ == response_action_of(self@, response@, *karma),
    {
        match self {
            Self::Marat { thought_loop, .. } => marat::process_llm_response(
                response,
                thought_loop,
                karma,
            ),
            Self::Dali { .. } => ResponseAction::Done { params: LlmResponseParams::default() },
            _ => {
                proof {
                    assert(false);
                }
                ResponseAction::Done { params: LlmResponseParams::default() }
            },
        }
    }
}

/// An input is processed only when its trimmed text is not empty.
pub fn accepts_input(input: &str) -> (r: bool)
    ensures
        r == (trim(input@).len() > 0),
{
    let t = trim_str(input);
    !t.as_str().is_empty()
}

/// After exchange number `done` (counted from 0) with the model, the daemon
/// goes on in `next`, the mode that the response left, only while fewer than
/// `max_thought_loops` exchanges have taken place.
pub fn next_exchange(done: usize, max_thought_loops: usize, next: Option<Mode>) -> (r: Option<Mode>)
    requires
        done < max_thought_loops,
    ensures
        done + 1 >= max_thought_loops ==> r is None,
        done + 1 < max_thought_loops ==> r == next,
{
    if done + 1 < max_thought_loops {
        next
    } else {
        None
    }
}

/// The role of the responses of the model in the chat.
pub const ASSISTANT_ROLE: &'static str = "assistant";

/// The record of the prompt that a mode sends: from the user, in the mode,
/// with the karma its parameters give and its estimated tokens.
pub fn prompt_record<'a>(mode: &Mode, prompt: &'a str, params: &ImmediatePromptParams) -> (r:
    NewPrompt<'a>)
    requires
        whitespace_count(prompt@) <= 0x3fff_ffff,
    ensures
        r.role@ == USER_ROLE@,
        r.content@ == prompt@,
        r.mode@ == mode_name(mode@),
        r.karma == params.user_prompt_karma,
        r.tokens == estimated_tokens(prompt@),
{
    NewPrompt {
        role: USER_ROLE,
        content: prompt,
        mode: mode.as_str(),
        tokens: estimate_tokens(prompt),
        karma: params.user_prompt_karma,
    }
}

/// The record of a response of the model: from the assistant, in the mode
/// that the prompt was sent in, with the karma that the reading of the
/// response gave and its estimated tokens.
pub fn response_record<'a>(mode: &'a str, response: &'a str, params: &LlmResponseParams) -> (r:
    NewPrompt<'a>)
    requires
        whitespace_count(response@) <= 0x3fff_ffff,
    ensures
        r.role@ == ASSISTANT_ROLE@,
        r.content@ == response@,
        r.mode@ == mode@,
        r.karma == params.llm_response_karma,
        r.tokens == estimated_tokens(response@),
{
    NewPrompt {
        role: ASSISTANT_ROLE,
        content: response,
        mode,
        tokens: estimate_tokens(response),
        karma: params.llm_response_karma,
    }
}

} // verus!
