//! Mode "marat": the model answers in a Thought / Action / Observation loop
//! and the actions are bash scripts that the daemon runs.

pub mod prompts;

use crate::mode::{
    KarmaSettings, Mode, ModeView, PromptKarma, ResponseAction, ResponseActionView,
};
use crate::models::{LlmResponseParams, Prompt, PromptId};
use crate::pattern::{is_match, regex_is_match, FINAL_THOUGHT_RE};
use crate::text::{
    chars_to_string, contains, contains_exec, decimal, decimal_chars, int_decimal,
    int_to_string, lemma_nonblank_lines_nonempty, nonblank_lines, nonblank_lines_of, push_chars,
    starts_with, starts_with_exec, str_chars, str_eq, views,
};
use prompts::{NO_SUDO, ONLY_SINGLE_CODEBLOCK, REMIND_ABOUT_FORMAT};
use vstd::prelude::*;

verus! {

/// The name of this mode, also its directive.
pub const MODE_STR: &'static str = "marat";

/// What the first line of a response must contain.
pub const THOUGHT: &'static str = "Thought:";

/// What the line that introduces the script must start with.
pub const ACTION: &'static str = "Action:";

/// The delimiter of a code block.
pub const FENCE: &'static str = "```";

/// A script line that starts with this is refused.
pub const SUDO: &'static str = "sudo";

/// The first line of every script: bash stops at the first failing command.
pub const SCRIPT_HEADER: &'static str = "set -e\n";

/// The index of the first line of `t`, from `from` on, that starts with
/// `prefix`, or `t.len()` if there is none.
pub open spec fn first_line_starting(t: Seq<Seq<char>>, from: int, prefix: Seq<char>) -> int
    decreases t.len() - from,
{
    if from >= t.len() {
        t.len() as int
    } else if starts_with(t[from], prefix) {
        from
    } else {
        first_line_starting(t, from + 1, prefix)
    }
}

/// The first line starting with `prefix` lies between `from` and the end,
/// and the lines before it do not start with `prefix`.
pub proof fn lemma_first_line_starting(t: Seq<Seq<char>>, from: int, prefix: Seq<char>)
    requires
        0 <= from <= t.len(),
    ensures
        from <= first_line_starting(t, from, prefix) <= t.len(),
        first_line_starting(t, from, prefix) < t.len() ==> starts_with(
            t[first_line_starting(t, from, prefix)],
            prefix,
        ),
        forall|k: int|
            from <= k < first_line_starting(t, from, prefix) ==> !starts_with(#[trigger] t[k], prefix),
    decreases t.len() - from,
{
    if from < t.len() && !starts_with(t[from], prefix) {
        lemma_first_line_starting(t, from + 1, prefix);
    }
}

/// The lines, each followed by a newline.
pub open spec fn join_lines(lines: Seq<Seq<char>>) -> Seq<char>
    decreases lines.len(),
{
    if lines.len() == 0 {
        seq![]
    } else {
        join_lines(lines.drop_last()) + lines.last() + seq!['\n']
    }
}

/// How a response of the model is read in this mode.
///
/// Of the trimmed non-blank lines of the response, the first must contain
/// "Thought:". Then, skipping lines, comes one that starts with "Action:"
/// and right after it one that contains a code fence. The script is made of
/// the lines after that, up to the closing fence or the end: none of them may
/// start with "sudo", and no later line may open another code block. Any
/// other shape gets the reminder of the format.
pub open spec fn bash_commands_of(response: Seq<char>) -> Result<Seq<char>, Seq<char>> {
    let t = nonblank_lines(response);
    if t.len() == 0 || !contains(t[0], THOUGHT@) {
        Err(REMIND_ABOUT_FORMAT@)
    } else {
        let j = first_line_starting(t, 1, ACTION@);
        if j + 1 >= t.len() || !contains(t[j + 1], FENCE@) {
            Err(REMIND_ABOUT_FORMAT@)
        } else {
            let e = first_line_starting(t, j + 2, FENCE@);
            if first_line_starting(t, j + 2, SUDO@) < e {
                Err(NO_SUDO@)
            } else if e < t.len() && first_line_starting(t, e + 1, FENCE@) < t.len() {
                Err(ONLY_SINGLE_CODEBLOCK@)
            } else {
                Ok(SCRIPT_HEADER@ + join_lines(t.subrange(j + 2, e)))
            }
        }
    }
}

/// The script read out of a response is the header followed by the lines of
/// its single code block: none of them is empty, none runs `sudo`, and none
/// opens or closes a code block.
pub proof fn law_script_is_a_clean_code_block(response: Seq<char>)
    ensures
        bash_commands_of(response) matches Ok(script) ==> exists|lines: Seq<Seq<char>>|
            {
                &&& script == SCRIPT_HEADER@ + join_lines(lines)
                &&& forall|k: int|
                    0 <= k < lines.len() ==> {
                        &&& (#[trigger] lines[k]).len() > 0
                        &&& !starts_with(lines[k], SUDO@)
                        &&& !starts_with(lines[k], FENCE@)
                    }
            },
{
    let t = nonblank_lines(response);
    lemma_nonblank_lines_nonempty(response);
    if bash_commands_of(response) is Ok {
        let j = first_line_starting(t, 1, ACTION@);
        lemma_first_line_starting(t, 1, ACTION@);
        lemma_first_line_starting(t, j + 2, FENCE@);
        lemma_first_line_starting(t, j + 2, SUDO@);
        let e = first_line_starting(t, j + 2, FENCE@);
        let lines = t.subrange(j + 2, e);
        assert forall|k: int| 0 <= k < lines.len() implies {
            &&& (#[trigger] lines[k]).len() > 0
            &&& !starts_with(lines[k], SUDO@)
            &&& !starts_with(lines[k], FENCE@)
        } by {
            assert(lines[k] == t[j + 2 + k]);
        }
    }
}

/// Skipping lines that do not start with `prefix` does not change where the
/// first one that does is.
pub proof fn lemma_first_line_starting_skips(
    t: Seq<Seq<char>>,
    from: int,
    to: int,
    prefix: Seq<char>,
)
    requires
        0 <= from <= to <= t.len(),
        forall|k: int| from <= k < to ==> !starts_with(#[trigger] t[k], prefix),
    ensures
        first_line_starting(t, from, prefix) == first_line_starting(t, to, prefix),
    decreases to - from,
{
    if from < to {
        lemma_first_line_starting_skips(t, from + 1, to, prefix);
    }
}

/// The shape of a response before its script: its first non-blank line
/// mentions "Thought:" anywhere; line `j` is the first one after it that
/// starts with "Action:"; the next line opens a code block; and `e` is the
/// first line after that one which starts with a code fence (or the end).
pub open spec fn script_framed_by(t: Seq<Seq<char>>, j: int, e: int) -> bool {
    &&& 1 <= j
    &&& j + 2 <= e <= t.len()
    &&& contains(t[0], THOUGHT@)
    &&& starts_with(t[j], ACTION@)
    &&& forall|k: int| 1 <= k < j ==> !starts_with(#[trigger] t[k], ACTION@)
    &&& contains(t[j + 1], FENCE@)
    &&& forall|k: int| j + 2 <= k < e ==> !starts_with(#[trigger] t[k], FENCE@)
    &&& e < t.len() ==> starts_with(t[e], FENCE@)
}

/// Where the first non-blank line mentions "Thought:" anywhere, an
/// "Action:" line follows, then a code block that holds no line starting
/// with "sudo" and is the only one, the script is "set -e" followed by
/// the lines of that block.
pub proof fn law_well_formed_response_gives_its_block(response: Seq<char>, j: int, e: int)
    requires
        script_framed_by(nonblank_lines(response), j, e),
        forall|k: int|
            j + 2 <= k < e ==> !starts_with(#[trigger] nonblank_lines(response)[k], SUDO@),
        forall|k: int|
            e < k < nonblank_lines(response).len() ==> !starts_with(
                #[trigger] nonblank_lines(response)[k],
                FENCE@,
            ),
    ensures
        bash_commands_of(response) == Ok::<Seq<char>, Seq<char>>(
            SCRIPT_HEADER@ + join_lines(nonblank_lines(response).subrange(j + 2, e)),
        ),
{
    let t = nonblank_lines(response);
    lemma_first_line_starting_skips(t, 1, j, ACTION@);
    lemma_first_line_starting_skips(t, j + 2, e, FENCE@);
    lemma_first_line_starting_skips(t, j + 2, e, SUDO@);
    lemma_first_line_starting(t, e, SUDO@);
    if e < t.len() {
        lemma_first_line_starting_skips(t, e + 1, t.len() as int, FENCE@);
    }
}

/// Where a line of the script starts with "sudo", the response is refused
/// with the reminder not to use sudo, and the loop goes on with that
/// reminder as its next, decorative, prompt; the response itself gets no
/// karma.
pub proof fn law_sudo_is_refused(
    response: Seq<char>,
    j: int,
    e: int,
    s: int,
    thought_loop: nat,
    karma: KarmaSettings,
)
    requires
        script_framed_by(nonblank_lines(response), j, e),
        j + 2 <= s < e,
        starts_with(nonblank_lines(response)[s], SUDO@),
    ensures
        bash_commands_of(response) == Err::<Seq<char>, Seq<char>>(NO_SUDO@),
        action_for(false, response, thought_loop, karma) == (ResponseActionView::Continue {
            mode: ModeView::Marat {
                next_prompt: NO_SUDO@,
                thought_loop: thought_loop + 1,
                next_prompt_karma: PromptKarma::Decorative,
            },
            llm_response_karma: 0,
        }),
{
    let t = nonblank_lines(response);
    lemma_first_line_starting_skips(t, 1, j, ACTION@);
    lemma_first_line_starting_skips(t, j + 2, e, FENCE@);
    lemma_first_line_starting(t, j + 2, SUDO@);
}

/// When a response that does not end the loop cannot be read, the loop goes
/// on with exactly the text that the reading gave (the reminder it calls
/// for) as its next, decorative, prompt; when it can, its script is run.
pub proof fn law_reading_decides_the_next_step(
    response: Seq<char>,
    thought_loop: nat,
    karma: KarmaSettings,
)
    ensures
        bash_commands_of(response) matches Err(e) ==> action_for(
            false,
            response,
            thought_loop,
            karma,
        ) == (ResponseActionView::Continue {
            mode: ModeView::Marat {
                next_prompt: e,
                thought_loop: thought_loop + 1,
                next_prompt_karma: PromptKarma::Decorative,
            },
            llm_response_karma: 0,
        }),
        bash_commands_of(response) matches Ok(script) ==> action_for(
            false,
            response,
            thought_loop,
            karma,
        ) == (ResponseActionView::RunScript { script, thought_loop }),
{
}

/// A response that gives its Final Thought ends the loop, whatever else it
/// holds (a well-formed script too): the latest `(thought_loop + 1) * 2 + 1`
/// prompts are demoted and the response is stored as contextual.
pub proof fn law_final_thought_ends_the_loop(response: Seq<char>, thought_loop: nat, karma: KarmaSettings)
    ensures
        action_for(true, response, thought_loop, karma) == (
        ResponseActionView::FinishThoughtLoop {
            limit: (thought_loop + 1) * 2 + 1,
            llm_response_karma: karma.contextual,
        }),
        regex_is_match(FINAL_THOUGHT_RE@, response) ==> response_action(
            response,
            thought_loop,
            karma,
        ) == (ResponseActionView::FinishThoughtLoop {
            limit: (thought_loop + 1) * 2 + 1,
            llm_response_karma: karma.contextual,
        }),
{
}

/// The view of a parse result: the script or the text of the error.
pub open spec fn parse_result_view(r: Result<String, &'static str>) -> Result<Seq<char>, Seq<char>> {
    match r {
        Ok(s) => Ok(s@),
        Err(e) => Err(e@),
    }
}

/// The index of the first line of `t`, from `from` on, that starts with
/// `prefix`, or `t.len()` if there is none.
fn first_line_starting_exec(t: &Vec<Vec<char>>, from: usize, prefix: &Vec<char>) -> (r: usize)
    ensures
        r == first_line_starting(views(t@), from as int, prefix@),
{
    let ghost v = views(t@);
    if from >= t.len() {
        return t.len();
    }
    let mut i = from;
    while i < t.len()
        invariant
            from <= i <= t@.len(),
            v == views(t@),
            first_line_starting(v, i as int, prefix@) == first_line_starting(v, from as int, prefix@),
        decreases t@.len() - i,
    {
        assert(v[i as int] == t@[i as int]@);
        if starts_with_exec(&t[i], prefix) {
            return i;
        }
        i = i + 1;
    }
    t.len()
}

/// Reads the bash script out of a response of the model, or says which
/// reminder to send back (see [`bash_commands_of`]).
pub fn parse_bash_commands(response: &str) -> (r: Result<String, &'static str>)
    ensures
        parse_result_view(r) == bash_commands_of(response@),
{
    let chars = str_chars(response);
    let t = nonblank_lines_of(&chars);
    let ghost v = views(t@);
    let thought = str_chars(THOUGHT);
    let action = str_chars(ACTION);
    let fence = str_chars(FENCE);
    let sudo = str_chars(SUDO);
    if t.len() == 0 {
        return Err(REMIND_ABOUT_FORMAT);
    }
    assert(v[0] == t@[0]@);
    if !contains_exec(&t[0], &thought) {
        return Err(REMIND_ABOUT_FORMAT);
    }
    let j = first_line_starting_exec(&t, 1, &action);
    if j >= t.len() || j + 1 >= t.len() {
        return Err(REMIND_ABOUT_FORMAT);
    }
    assert(v[j + 1] == t@[j + 1]@);
    if !contains_exec(&t[j + 1], &fence) {
        return Err(REMIND_ABOUT_FORMAT);
    }
    let e = first_line_starting_exec(&t, j + 2, &fence);
    proof {
        lemma_first_line_starting(v, j + 2, FENCE@);
    }
    let s = first_line_starting_exec(&t, j + 2, &sudo);
    if s < e {
        return Err(NO_SUDO);
    }
    if e < t.len() {
        let again = first_line_starting_exec(&t, e + 1, &fence);
        if again < t.len() {
            return Err(ONLY_SINGLE_CODEBLOCK);
        }
    }
    let mut script = str_chars(SCRIPT_HEADER);
    let mut k = j + 2;
    while k < e
        invariant
            j + 2 <= k <= e <= t@.len(),
            v == views(t@),
            script@ == SCRIPT_HEADER@ + join_lines(v.subrange(j + 2, k as int)),
        decreases e - k,
    {
        let ghost before = script@;
        let line = &t[k];
        let mut c: usize = 0;
        while c < line.len()
            invariant
                c <= line@.len(),
                script@ == before + line@.take(c as int),
            decreases line@.len() - c,
        {
            script.push(line[c]);
            c = c + 1;
            assert(line@.take(c as int) == line@.take(c - 1 as int).push(line@[c - 1]));
        }
        assert(line@.take(line@.len() as int) == line@);
        script.push('\n');
        assert(v.subrange(j + 2, k + 1).drop_last() == v.subrange(j + 2, k as int));
        assert(v.subrange(j + 2, k + 1).last() == line@);
        k = k + 1;
    }
    Ok(chars_to_string(&script))
}

/// Rust's `/` on integers: the quotient rounded toward zero.
pub open spec fn div_toward_zero(k: int, d: int) -> int {
    if k >= 0 {
        k / d
    } else {
        -((-k) / d)
    }
}

/// The karma that a prompt of a finished thought loop is demoted to.
///
/// Decorative prompts (help with the format) drop to zero; thoughts, actions
/// and observations become decorative; the instruction that started the loop
/// becomes contextual; other karma is divided by five.
pub open spec fn demoted_karma(k: i32, ks: KarmaSettings) -> i32 {
    if k == ks.decorative {
        0
    } else if k == ks.default {
        ks.decorative
    } else if k == ks.instructive {
        ks.contextual
    } else {
        div_toward_zero(k as int, 5) as i32
    }
}

/// The new karma of the prompts of a finished thought loop, given the latest
/// prompts newest first: the leading prompts of this mode are demoted, up to
/// one that is contextual already (an earlier loop) or of another mode.
pub open spec fn karma_updates_of(prompts: Seq<Prompt>, ks: KarmaSettings) -> Seq<(PromptId, i32)>
    decreases prompts.len(),
{
    if prompts.len() == 0 || prompts[0].mode@ != MODE_STR@ || prompts[0].karma == ks.contextual {
        seq![]
    } else {
        seq![(prompts[0].id, demoted_karma(prompts[0].karma, ks))] + karma_updates_of(
            prompts.drop_first(),
            ks,
        )
    }
}

/// The end of a thought loop demotes the latest prompts in order, each to
/// its [`demoted_karma`], and only the run of prompts of this mode that
/// reaches back to a contextual prompt (the end of an earlier loop) or to a
/// prompt of another mode, which stays as it is.
pub proof fn law_demotion_covers_the_loop(prompts: Seq<Prompt>, ks: KarmaSettings)
    ensures
        ({
            let u = karma_updates_of(prompts, ks);
            &&& u.len() <= prompts.len()
            &&& forall|k: int|
                0 <= k < u.len() ==> {
                    &&& (#[trigger] u[k]).0 == prompts[k].id
                    &&& u[k].1 == demoted_karma(prompts[k].karma, ks)
                    &&& prompts[k].mode@ == MODE_STR@
                    &&& prompts[k].karma != ks.contextual
                }
            &&& u.len() < prompts.len() ==> (prompts[u.len() as int].mode@ != MODE_STR@
                || prompts[u.len() as int].karma == ks.contextual)
        }),
    decreases prompts.len(),
{
    if prompts.len() > 0 && prompts[0].mode@ == MODE_STR@ && prompts[0].karma != ks.contextual {
        let rest = prompts.drop_first();
        law_demotion_covers_the_loop(rest, ks);
        let u = karma_updates_of(prompts, ks);
        let ur = karma_updates_of(rest, ks);
        assert(u == seq![(prompts[0].id, demoted_karma(prompts[0].karma, ks))] + ur);
        assert forall|k: int| 0 <= k < u.len() implies {
            &&& (#[trigger] u[k]).0 == prompts[k].id
            &&& u[k].1 == demoted_karma(prompts[k].karma, ks)
            &&& prompts[k].mode@ == MODE_STR@
            &&& prompts[k].karma != ks.contextual
        } by {
            if k > 0 {
                assert(u[k] == ur[k - 1]);
                assert(rest[k - 1] == prompts[k]);
            }
        }
        if u.len() < prompts.len() {
            assert(rest[ur.len() as int] == prompts[u.len() as int]);
        }
    }
}

/// The karma a prompt of a finished thought loop is demoted to.
fn demote(k: i32, karma: &KarmaSettings) -> (r: i32)
    ensures
        r == demoted_karma(k, *karma),
{
    if k == karma.decorative {
        0
    } else if k == karma.default {
        karma.decorative
    } else if k == karma.instructive {
        karma.contextual
    } else if k >= 0 {
        k / 5
    } else {
        let m: i64 = -(k as i64);
        (-(m / 5)) as i32
    }
}

/// The new karma of the prompts of a finished thought loop, from the latest
/// prompts newest first (see [`karma_updates_of`]).
///
/// When the mode ends, the prompts that were used in the thought loop were
/// useful to achieve the task, but are not themselves interesting going
/// forward.
pub fn karma_updates(prompts: &Vec<Prompt>, karma: &KarmaSettings) -> (r: Vec<(PromptId, i32)>)
    ensures
        r@ == karma_updates_of(prompts@, *karma),
{
    let mut updates: Vec<(PromptId, i32)> = Vec::new();
    let mut i: usize = 0;
    assert(prompts@.subrange(0, prompts@.len() as int) == prompts@);
    assert(updates@ + karma_updates_of(prompts@, *karma) == karma_updates_of(prompts@, *karma));
    while i < prompts.len()
        invariant
            i <= prompts@.len(),
            karma_updates_of(prompts@, *karma) == updates@ + karma_updates_of(
                prompts@.subrange(i as int, prompts@.len() as int),
                *karma,
            ),
        decreases prompts@.len() - i,
    {
        let ghost rest = prompts@.subrange(i as int, prompts@.len() as int);
        assert(rest[0] == prompts@[i as int]);
        assert(rest.drop_first() == prompts@.subrange(i + 1, prompts@.len() as int));
        let p = &prompts[i];
        if !str_eq(p.mode.as_str(), MODE_STR) || p.karma == karma.contextual {
            // reached a prompt of another mode or of a previous marat loop
            assert(updates@ + seq![] == updates@);
            return updates;
        }
        let ghost before = updates@;
        updates.push((p.id, demote(p.karma, karma)));
        assert(before + karma_updates_of(rest, *karma) == updates@ + karma_updates_of(
            rest.drop_first(),
            *karma,
        ));
        i = i + 1;
    }
    assert(prompts@.subrange(i as int, prompts@.len() as int).len() == 0);
    assert(updates@ + seq![] == updates@);
    updates
}

/// The thought loop counter leaves room for the arithmetic on it.
pub open spec fn loop_count_fits(thought_loop: usize) -> bool {
    thought_loop < usize::MAX / 2
}

/// How many of the latest prompts the end of a thought loop looks at: the
/// loop starts at zero and each of its iterations stores two prompts, plus
/// one for an error.
pub open spec fn demotion_window(thought_loop: nat) -> nat {
    (thought_loop + 1) * 2 + 1
}

/// What the mode does with a response, where `final_thought` tells whether
/// it says "Final Thought": that ends the loop; a well-formed response has
/// its script run; otherwise the loop goes on with the reminder that the
/// reading of the response gave, and the response itself is stored with no
/// karma.
pub open spec fn action_for(
    final_thought: bool,
    response: Seq<char>,
    thought_loop: nat,
    karma: KarmaSettings,
) -> ResponseActionView {
    if final_thought {
        ResponseActionView::FinishThoughtLoop {
            limit: demotion_window(thought_loop),
            llm_response_karma: karma.contextual,
        }
    } else {
        match bash_commands_of(response) {
            Ok(script) => ResponseActionView::RunScript { script, thought_loop },
            Err(reminder) => ResponseActionView::Continue {
                mode: ModeView::Marat {
                    next_prompt: reminder,
                    thought_loop: thought_loop + 1,
                    next_prompt_karma: PromptKarma::Decorative,
                },
                llm_response_karma: 0,
            },
        }
    }
}

/// What the mode does with a response (see [`action_for`]), the end of the
/// loop being recognised by [`FINAL_THOUGHT_RE`].
pub open spec fn response_action(response: Seq<char>, thought_loop: nat, karma: KarmaSettings) -> ResponseActionView {
    action_for(regex_is_match(FINAL_THOUGHT_RE@, response), response, thought_loop, karma)
}

/// What the mode does with a response, where `final_thought` tells whether
/// it says "Final Thought" (see [`action_for`]).
pub fn action_for_response(
    final_thought: bool,
    response: &str,
    thought_loop: usize,
    karma: &KarmaSettings,
) -> (r: ResponseAction)
    requires
        loop_count_fits(thought_loop),
    ensures
        r@ == action_for(final_thought, response@, thought_loop as nat, *karma),
{
    if final_thought {
        ResponseAction::FinishThoughtLoop {
            limit: (thought_loop + 1) * 2 + 1,
            params: LlmResponseParams { llm_response_karma: karma.contextual },
        }
    } else {
        match parse_bash_commands(response) {
            Ok(script) => ResponseAction::RunScript { script, thought_loop },
            Err(prompt) => ResponseAction::Continue {
                // we instruct about how to fix the format
                mode: Mode::Marat {
                    thought_loop: thought_loop + 1,
                    next_prompt: String::from_str(prompt),
                    next_prompt_karma: PromptKarma::Decorative,
                },
                // diminish the karma of the invalid response
                params: LlmResponseParams { llm_response_karma: 0 },
            },
        }
    }
}

/// The mode ends when "Final Thought" is received from the LLM; otherwise the
/// script of the response is run, or the model is told how to fix the format
/// (see [`response_action`]).
pub fn process_llm_response(response: &str, thought_loop: usize, karma: &KarmaSettings) -> (r: ResponseAction)
    requires
        loop_count_fits(thought_loop),
    ensures
        r@ == response_action(response@, thought_loop as nat, *karma),
{
    action_for_response(is_match(FINAL_THOUGHT_RE, response), response, thought_loop, karma)
}

/// The prompts of a thought loop are stored with the karma their kind asks
/// for: a reminder of the format, sent after a malformed response, is
/// decorative; an observation of a script run has the default karma. (The
/// task that starts the loop is instructive: see
/// [`crate::mode::law_new_task_is_instructive`].)
pub proof fn law_loop_prompts_carry_their_karma(
    final_thought: bool,
    response: Seq<char>,
    thought_loop: nat,
    observation: Seq<char>,
    karma: KarmaSettings,
)
    ensures
        action_for(final_thought, response, thought_loop, karma) matches ResponseActionView::Continue {
            mode,
            ..
        } ==> crate::mode::immediate_prompt_of(mode, karma).1 == karma.decorative,
        crate::mode::immediate_prompt_of(
            observation_mode(observation, thought_loop),
            karma,
        ).1 == karma.default,
{
}

/// What the next prompt starts with after a script has run.
pub const OBSERVATION_PREFIX: &'static str = "Observation:\n";

/// The mode after a script has run: the observation is the next prompt.
pub open spec fn observation_mode(observation: Seq<char>, thought_loop: nat) -> ModeView {
    ModeView::Marat {
        next_prompt: OBSERVATION_PREFIX@ + observation,
        thought_loop: thought_loop + 1,
        next_prompt_karma: PromptKarma::Default,
    }
}

/// After a script has run, the loop goes on with its observation as the next
/// prompt; the response that held the script keeps the default karma.
pub fn after_observation(observation: &str, thought_loop: usize, karma: &KarmaSettings) -> (r: (
    Mode,
    LlmResponseParams,
))
    requires
        loop_count_fits(thought_loop),
    ensures
        r.0@ == observation_mode(observation@, thought_loop as nat),
        r.1.llm_response_karma == karma.default,
{
    let mut next_prompt = String::from_str(OBSERVATION_PREFIX);
    next_prompt.append(observation);
    (
        Mode::Marat {
            thought_loop: thought_loop + 1,
            next_prompt,
            next_prompt_karma: PromptKarma::Default,
        },
        LlmResponseParams { llm_response_karma: karma.default },
    )
}

/// What separates the kept part of a long output from the note on it.
pub const TRUNCATION_NOTE: &'static str = "\n...\nmax log length reached, ";

/// What ends the note on a truncated output.
pub const TRUNCATION_END: &'static str = " characters truncated";

/// The start of the observation of a script that succeeded.
pub const SUCCESS_PREFIX: &'static str = "status code: 0, stdout: \n";

/// The start of the observation of a script that failed, before its code.
pub const FAILURE_PREFIX: &'static str = "status code: ";

/// The observation of a failed script, between its code and its output.
pub const FAILURE_INFIX: &'static str = ", stderr: \n";

/// The output of a script: its standard output, a newline, its error output.
pub open spec fn script_output(stdout: Seq<char>, stderr: Seq<char>) -> Seq<char> {
    stdout + seq!['\n'] + stderr
}

/// The output as it is reported: where it is longer than `max_len` chars,
/// its first `max_len` chars, then a note on how many chars were cut.
pub open spec fn reported_output(output: Seq<char>, max_len: nat) -> Seq<char> {
    if output.len() > max_len {
        output.take(max_len as int) + TRUNCATION_NOTE@ + decimal((output.len() - max_len) as nat)
            + TRUNCATION_END@
    } else {
        output
    }
}

/// The observation of a script run: its status code (1 where it has none)
/// and its reported output.
pub open spec fn observation_of(
    stdout: Seq<char>,
    stderr: Seq<char>,
    success: bool,
    code: Option<i32>,
    max_len: nat,
) -> Seq<char> {
    let out = reported_output(script_output(stdout, stderr), max_len);
    if success {
        SUCCESS_PREFIX@ + out
    } else {
        FAILURE_PREFIX@ + int_decimal(
            match code {
                Some(c) => c as int,
                None => 1,
            },
        ) + FAILURE_INFIX@ + out
    }
}

/// The observation reports the standard output, a newline and the error
/// output, whether the script succeeded or failed, cut after `max_len`
/// chars with a note of how many chars were cut; a success reports status
/// code 0, a failure its own code, or 1 where it has none.
pub proof fn law_observation_reports_all_output(
    stdout: Seq<char>,
    stderr: Seq<char>,
    success: bool,
    code: Option<i32>,
    max_len: nat,
)
    ensures
        ({
            let all = stdout + seq!['\n'] + stderr;
            let out = if all.len() <= max_len {
                all
            } else {
                all.take(max_len as int) + TRUNCATION_NOTE@ + decimal((all.len() - max_len) as nat)
                    + TRUNCATION_END@
            };
            &&& success ==> observation_of(stdout, stderr, success, code, max_len)
                == SUCCESS_PREFIX@ + out
            &&& !success ==> observation_of(stdout, stderr, success, code, max_len)
                == FAILURE_PREFIX@ + int_decimal(
                match code {
                    Some(c) => c as int,
                    None => 1,
                },
            ) + FAILURE_INFIX@ + out
        }),
{
}

/// Turns the output of a script run into the observation sent to the model
/// (see [`observation_of`]); if the output is longer than `max_len` chars,
/// it is truncated.
pub fn format_observation(
    stdout: &str,
    stderr: &str,
    success: bool,
    code: Option<i32>,
    max_len: usize,
) -> (r: String)
    ensures
        r@ == observation_of(stdout@, stderr@, success, code, max_len as nat),
{
    let mut output = str_chars(stdout);
    output.push('\n');
    let err = str_chars(stderr);
    let mut i: usize = 0;
    let ghost before = output@;
    while i < err.len()
        invariant
            i <= err@.len(),
            output@ == before + err@.take(i as int),
        decreases err@.len() - i,
    {
        output.push(err[i]);
        i = i + 1;
        assert(err@.take(i as int) == err@.take(i - 1 as int).push(err@[i - 1]));
    }
    assert(err@.take(err@.len() as int) == err@);
    assert(output@ == script_output(stdout@, stderr@));
    let reported = if output.len() > max_len {
        let mut kept: Vec<char> = Vec::new();
        let mut k: usize = 0;
        while k < max_len
            invariant
                k <= max_len < output@.len(),
                kept@ == output@.take(k as int),
            decreases max_len - k,
        {
            kept.push(output[k]);
            k = k + 1;
            assert(output@.take(k as int) == output@.take(k - 1 as int).push(output@[k - 1]));
        }
        let mut r = chars_to_string(&kept);
        r.append(TRUNCATION_NOTE);
        push_chars(&mut r, &decimal_chars((output.len() - max_len) as u64));
        r.append(TRUNCATION_END);
        r
    } else {
        chars_to_string(&output)
    };
    assert(reported@ == reported_output(script_output(stdout@, stderr@), max_len as nat));
    if success {
        let mut r = String::from_str(SUCCESS_PREFIX);
        r.append(reported.as_str());
        r
    } else {
        let c: i32 = match code {
            Some(c) => c,
            None => 1,
        };
        let mut r = String::from_str(FAILURE_PREFIX);
        r.append(int_to_string(c as i64).as_str());
        r.append(FAILURE_INFIX);
        r.append(reported.as_str());
        r
    }
}

} // verus!
