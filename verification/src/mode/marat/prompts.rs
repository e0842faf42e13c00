//! Texts that the mode sends to the model.

use vstd::prelude::*;

verus! {

/// Sent when the script of a response runs a command with `sudo`.
pub const NO_SUDO: &'static str = "You must not use sudo. Rewrite the commands of your last action so that none of them needs sudo, and answer again in the format Thought, Action and a single bash code block.";

/// Sent when a response holds more than one code block.
pub const ONLY_SINGLE_CODEBLOCK: &'static str = "Your answer must contain exactly one bash code block. Answer again with a single Thought, a single Action and a single bash code block that holds all the commands to run.";

/// Sent when a response does not follow the expected format.
pub const REMIND_ABOUT_FORMAT: &'static str = "Your answer does not follow the format. Start with \"Thought:\", then write \"Action:\" on a line of its own and follow it with a single bash code block. When the task is done, answer with \"Final Thought:\" and a summary.";

/// The instruction text up to the name of the system.
pub const TAO_INTRO: &'static str = "You are an assistant that fulfils tasks by running bash commands on a ";

/// The instruction text between the name of the system and the task.
pub const TAO_FORMAT: &'static str = " system.\nAnswer in exactly this format:\n\nThought: what you think about the task and what to do next\nAction:\n```bash\nthe commands to run\n```\n\nThe commands will be run and you will get their output as an Observation.\nRepeat Thought, Action and Observation until the task is done, then answer with\n\nFinal Thought: a summary of what has been done\n\nTask: ";

/// The instruction text after the task.
pub const TAO_END: &'static str = "\n";

/// The instruction of the thought-action-observation loop for `task`
/// on `system`.
pub open spec fn tao_text(task: Seq<char>, system: Seq<char>) -> Seq<char> {
    TAO_INTRO@ + system + TAO_FORMAT@ + task + TAO_END@
}

/// The instruction names the system, then states the answer format (the
/// Thought / Action / Observation / Final Thought text) right before the
/// task, which closes it.
pub proof fn law_instruction_states_the_format(task: Seq<char>, system: Seq<char>)
    ensures
        tao_text(task, system) == TAO_INTRO@ + system + TAO_FORMAT@ + task + TAO_END@,
        tao_text(task, system).subrange(
            (TAO_INTRO@.len() + system.len()) as int,
            (TAO_INTRO@.len() + system.len() + TAO_FORMAT@.len() + task.len()) as int,
        ) == TAO_FORMAT@ + task,
{
    let x = TAO_INTRO@ + system + TAO_FORMAT@ + task + TAO_END@;
    assert(x.subrange(
        (TAO_INTRO@.len() + system.len()) as int,
        (TAO_INTRO@.len() + system.len() + TAO_FORMAT@.len() + task.len()) as int,
    ) =~= TAO_FORMAT@ + task);
}

/// Builds the instruction of the thought-action-observation loop.
pub fn tao_instruction(task: &str, system: &str) -> (r: String)
    ensures
        r@ == tao_text(task@, system@),
        r@ == TAO_INTRO@ + system@ + TAO_FORMAT@ + task@ + TAO_END@,
{
    let mut r = String::from_str(TAO_INTRO);
    r.append(system);
    r.append(TAO_FORMAT);
    r.append(task);
    r.append(TAO_END);
    r
}

} // verus!
