//! Defines which prompts to include with each LLM request for context.
//!
//! Each prompt of the recent history has a score, worked out from its karma,
//! its age, its length and its distance to the latest prompt. Prompts whose
//! score is below `min_score_to_include_prompt` are left out; while the
//! prompts and the new content hold more than `max_tokens` tokens, the prompt
//! with the lowest score is left out too, until one is left.

use crate::models::{Prompt, PromptId};
use vstd::prelude::*;

verus! {

/// The score of a prompt, as the caller worked it out (the score is a float):
/// whether it reaches `min_score_to_include_prompt`, and an integer that
/// orders the scores as `f32::total_cmp` does.
#[derive(Clone, Copy, Debug)]
pub struct PromptScore {
    /// `min_score_to_include_prompt > score` does not hold.
    pub reaches_min: bool,
    /// Orders the scores: a higher rank is a higher score.
    pub rank: i32,
}

/// The indices, in increasing order, of the first `n` prompts whose score
/// reaches the minimum.
pub open spec fn reaching(scores: Seq<PromptScore>, n: int) -> Seq<usize>
    decreases n,
{
    if n <= 0 {
        seq![]
    } else if scores[n - 1].reaches_min {
        reaching(scores, n - 1).push((n - 1) as usize)
    } else {
        reaching(scores, n - 1)
    }
}

/// The tokens of the prompts at the given indices.
pub open spec fn tokens_of(prompts: Seq<Prompt>, idx: Seq<usize>) -> int
    decreases idx.len(),
{
    if idx.len() == 0 {
        0
    } else {
        tokens_of(prompts, idx.drop_last()) + prompts[idx.last() as int].tokens
    }
}

/// The position, among the given indices, of the prompt with the lowest
/// score; of equal scores, the last one. This is the prompt that a stable
/// sort by descending score puts last.
pub open spec fn weakest_pos(scores: Seq<PromptScore>, idx: Seq<usize>) -> int
    decreases idx.len(),
{
    if idx.len() <= 1 {
        0
    } else {
        let p = weakest_pos(scores, idx.drop_last());
        if scores[idx.last() as int].rank <= scores[idx[p] as int].rank {
            idx.len() - 1
        } else {
            p
        }
    }
}

/// Leaves out the prompt with the lowest score while the tokens exceed
/// `max_tokens` and more than one prompt is left.
pub open spec fn prune(
    prompts: Seq<Prompt>,
    scores: Seq<PromptScore>,
    idx: Seq<usize>,
    total: int,
    max_tokens: int,
) -> Seq<usize>
    decreases idx.len(),
{
    if total > max_tokens && idx.len() > 1 {
        let p = weakest_pos(scores, idx);
        proof {
            lemma_weakest_pos_in_range(scores, idx);
        }
        prune(prompts, scores, idx.remove(p), total - prompts[idx[p] as int].tokens, max_tokens)
    } else {
        idx
    }
}

/// The indices of the prompts that are kept: those that reach the minimum
/// score, pruned to the budget of tokens.
pub open spec fn selected(
    prompts: Seq<Prompt>,
    scores: Seq<PromptScore>,
    content_tokens: int,
    max_tokens: int,
) -> Seq<usize> {
    let r = reaching(scores, prompts.len() as int);
    prune(prompts, scores, r, content_tokens + tokens_of(prompts, r), max_tokens)
}

/// The indices are valid positions in a sequence of length `n`.
pub open spec fn indices_below(idx: Seq<usize>, n: int) -> bool {
    forall|k: int| 0 <= k < idx.len() ==> (idx[k] as int) < n
}

/// The position of the weakest prompt lies among the indices.
pub proof fn lemma_weakest_pos_in_range(scores: Seq<PromptScore>, idx: Seq<usize>)
    requires
        idx.len() > 0,
    ensures
        0 <= weakest_pos(scores, idx) < idx.len(),
    decreases idx.len(),
{
    if idx.len() > 1 {
        lemma_weakest_pos_in_range(scores, idx.drop_last());
    }
}

/// The indices of the prompts whose score reaches the minimum.
fn reaching_exec(scores: &Vec<PromptScore>) -> (r: Vec<usize>)
    ensures
        r@ == reaching(scores@, scores@.len() as int),
        indices_below(r@, scores@.len() as int),
{
    let mut r: Vec<usize> = Vec::new();
    let mut i: usize = 0;
    while i < scores.len()
        invariant
            i <= scores@.len(),
            r@ == reaching(scores@, i as int),
            indices_below(r@, i as int),
        decreases scores@.len() - i,
    {
        if scores[i].reaches_min {
            r.push(i);
        }
        i = i + 1;
    }
    r
}

/// The tokens of the prompts at the given indices.
fn tokens_exec(prompts: &Vec<Prompt>, idx: &Vec<usize>) -> (r: i128)
    requires
        indices_below(idx@, prompts@.len() as int),
    ensures
        r == tokens_of(prompts@, idx@),
{
    let mut total: i128 = 0;
    let mut j: usize = 0;
    while j < idx.len()
        invariant
            j <= idx@.len(),
            indices_below(idx@, prompts@.len() as int),
            total == tokens_of(prompts@, idx@.take(j as int)),
            -0x8000_0000 * j <= total <= 0x7fff_ffff * j,
        decreases idx@.len() - j,
    {
        assert(idx@.take(j + 1).drop_last() == idx@.take(j as int));
        total = total + prompts[idx[j]].tokens as i128;
        j = j + 1;
    }
    assert(idx@.take(idx@.len() as int) == idx@);
    total
}

/// The position of the weakest prompt among the given indices.
fn weakest_pos_exec(scores: &Vec<PromptScore>, idx: &Vec<usize>) -> (r: usize)
    requires
        idx@.len() > 0,
        indices_below(idx@, scores@.len() as int),
    ensures
        r == weakest_pos(scores@, idx@),
{
    let mut best: usize = 0;
    let mut j: usize = 1;
    proof {
        assert(idx@.take(1).len() == 1);
    }
    while j < idx.len()
        invariant
            1 <= j <= idx@.len(),
            indices_below(idx@, scores@.len() as int),
            best < j,
            best == weakest_pos(scores@, idx@.take(j as int)),
        decreases idx@.len() - j,
    {
        let ghost t = idx@.take(j + 1);
        assert(t.drop_last() == idx@.take(j as int));
        assert(t.last() == idx@[j as int]);
        assert(idx@.take(j as int)[best as int] == idx@[best as int]);
        if scores[idx[j]].rank <= scores[idx[best]].rank {
            best = j;
        }
        j = j + 1;
    }
    assert(idx@.take(idx@.len() as int) == idx@);
    best
}

/// The indices of the prompts kept within the budget (see [`selected`]).
fn select_exec(
    prompts: &Vec<Prompt>,
    scores: &Vec<PromptScore>,
    content_tokens: i32,
    max_tokens: i32,
) -> (r: Vec<usize>)
    requires
        scores@.len() == prompts@.len(),
    ensures
        r@ == selected(prompts@, scores@, content_tokens as int, max_tokens as int),
        indices_below(r@, prompts@.len() as int),
{
    let mut kept = reaching_exec(scores);
    let n = kept.len();
    proof {
        lemma_tokens_bound(prompts@, kept@);
    }
    let mut total: i128 = content_tokens as i128 + tokens_exec(prompts, &kept);
    let ghost goal = selected(prompts@, scores@, content_tokens as int, max_tokens as int);
    while total > max_tokens as i128 && kept.len() > 1
        invariant
            scores@.len() == prompts@.len(),
            indices_below(kept@, prompts@.len() as int),
            total == content_tokens + tokens_of(prompts@, kept@),
            prune(prompts@, scores@, kept@, total as int, max_tokens as int) == goal,
        decreases kept@.len(),
    {
        let p = weakest_pos_exec(scores, &kept);
        proof {
            lemma_weakest_pos_in_range(scores@, kept@);
            lemma_tokens_remove(prompts@, kept@, p as int);
            lemma_tokens_bound(prompts@, kept@.remove(p as int));
        }
        let k = kept.remove(p);
        total = total - prompts[k].tokens as i128;
    }
    kept
}

/// The tokens of `n` prompts lie within `n` times the range of `i32`.
pub proof fn lemma_tokens_bound(prompts: Seq<Prompt>, idx: Seq<usize>)
    ensures
        -0x8000_0000 * idx.len() <= tokens_of(prompts, idx) <= 0x7fff_ffff * idx.len(),
    decreases idx.len(),
{
    if idx.len() > 0 {
        lemma_tokens_bound(prompts, idx.drop_last());
    }
}

/// Leaving out one index takes its tokens off the total.
pub proof fn lemma_tokens_remove(prompts: Seq<Prompt>, idx: Seq<usize>, p: int)
    requires
        0 <= p < idx.len(),
    ensures
        tokens_of(prompts, idx.remove(p)) == tokens_of(prompts, idx) - prompts[idx[p] as int].tokens,
    decreases idx.len(),
{
    if p == idx.len() - 1 {
        assert(idx.remove(p) == idx.drop_last());
    } else {
        lemma_tokens_remove(prompts, idx.drop_last(), p);
        assert(idx.remove(p).drop_last() == idx.drop_last().remove(p));
        assert(idx.remove(p).last() == idx.last());
    }
}

/// The prompt at `i` shares its id with one of the selected prompts.
pub open spec fn shares_id(prompts: Seq<Prompt>, sel: Seq<usize>, i: int) -> bool {
    exists|k: int| 0 <= k < sel.len() && prompts[sel[k] as int].id == prompts[i].id
}

/// The indices, in increasing order, of the first `n` prompts that share
/// their id with a selected prompt.
pub open spec fn included_upto(prompts: Seq<Prompt>, sel: Seq<usize>, n: int) -> Seq<usize>
    decreases n,
{
    if n <= 0 {
        seq![]
    } else if shares_id(prompts, sel, n - 1) {
        included_upto(prompts, sel, n - 1).push((n - 1) as usize)
    } else {
        included_upto(prompts, sel, n - 1)
    }
}

/// The indices, in increasing order, of the prompts of the history that go
/// with the request: all of them where there are at most two, otherwise
/// those whose id is among the selected prompts.
pub open spec fn included(
    prompts: Seq<Prompt>,
    scores: Seq<PromptScore>,
    content_tokens: int,
    max_tokens: int,
) -> Seq<usize> {
    if prompts.len() <= 2 {
        Seq::new(prompts.len(), |i: int| i as usize)
    } else {
        included_upto(
            prompts,
            selected(prompts, scores, content_tokens, max_tokens),
            prompts.len() as int,
        )
    }
}

/// The role of the new content in the chat.
pub const USER_ROLE: &'static str = "user";

/// The messages of the chat: the included prompts, oldest first (the history
/// is newest first), then the new content from the user.
pub open spec fn llm_messages(prompts: Seq<Prompt>, inc: Seq<usize>, content: Seq<char>) -> Seq<
    (Seq<char>, Seq<char>),
> {
    Seq::new(
        inc.len(),
        |j: int|
            (
                prompts[inc[inc.len() - 1 - j] as int].role@,
                prompts[inc[inc.len() - 1 - j] as int].content@,
            ),
    ).push((USER_ROLE@, content))
}

/// A message of the chat sent to the model.
#[derive(Debug, Clone)]
pub struct ChatMessage {
    pub role: String,
    pub content: String,
}

/// The role and content of each message.
pub open spec fn message_views(ms: Seq<ChatMessage>) -> Seq<(Seq<char>, Seq<char>)> {
    ms.map_values(|m: ChatMessage| (m.role@, m.content@))
}

/// The indices of the prompts that share their id with a selected prompt.
fn included_exec(prompts: &Vec<Prompt>, sel: &Vec<usize>) -> (r: Vec<usize>)
    requires
        indices_below(sel@, prompts@.len() as int),
    ensures
        r@ == included_upto(prompts@, sel@, prompts@.len() as int),
        indices_below(r@, prompts@.len() as int),
{
    let mut r: Vec<usize> = Vec::new();
    let mut i: usize = 0;
    while i < prompts.len()
        invariant
            i <= prompts@.len(),
            indices_below(sel@, prompts@.len() as int),
            r@ == included_upto(prompts@, sel@, i as int),
            indices_below(r@, i as int),
        decreases prompts@.len() - i,
    {
        let mut k: usize = 0;
        let mut found = false;
        while k < sel.len()
            invariant
                i < prompts@.len(),
                k <= sel@.len(),
                indices_below(sel@, prompts@.len() as int),
                found == exists|m: int| 0 <= m < k && prompts@[sel@[m] as int].id == prompts@[i as int].id,
            decreases sel@.len() - k,
        {
            if prompts[sel[k]].id.0 == prompts[i].id.0 {
                found = true;
            }
            k = k + 1;
        }
        if found {
            r.push(i);
        }
        i = i + 1;
    }
    r
}

/// The recent prompts of the history, newest first.
pub struct History {
    prompts: Vec<Prompt>,
}

impl View for History {
    type V = Seq<Prompt>;

    closed spec fn view(&self) -> Seq<Prompt> {
        self.prompts@
    }
}

impl History {
    /// The history made of the given prompts, newest first, as they are
    /// selected from the store (the latest `recent_history_limit` of them).
    pub fn from(prompts: Vec<Prompt>) -> (r: Self)
        ensures
            r@ == prompts@,
    {
        History { prompts }
    }

    /// The prompts of the history, newest first.
    pub fn prompts(&self) -> (r: &Vec<Prompt>)
        ensures
            r@ == self@,
    {
        &self.prompts
    }

    /// The chat to send to the model: the prompts of the history that fit
    /// (see [`included`]), oldest first, then `content` as the new user
    /// message. `scores` holds the score of each prompt of the history, in
    /// the same order.
    pub fn into_llm_prompt(
        self,
        scores: &Vec<PromptScore>,
        content: String,
        content_tokens: i32,
        max_tokens: i32,
    ) -> (r: Vec<ChatMessage>)
        requires
            scores@.len() == self@.len(),
        ensures
            message_views(r@) == llm_messages(
                self@,
                included(self@, scores@, content_tokens as int, max_tokens as int),
                content@,
            ),
    {
        let History { prompts } = self;
        let ghost inc_goal = included(prompts@, scores@, content_tokens as int, max_tokens as int);
        let inc = if prompts.len() > 2 {
            let sel = select_exec(&prompts, scores, content_tokens, max_tokens);
            included_exec(&prompts, &sel)
        } else {
            let mut all: Vec<usize> = Vec::new();
            let mut i: usize = 0;
            while i < prompts.len()
                invariant
                    i <= prompts@.len(),
                    all@ == Seq::new(i as nat, |k: int| k as usize),
                decreases prompts@.len() - i,
            {
                all.push(i);
                i = i + 1;
            }
            all
        };
        assert(inc@ == inc_goal);
        assert(indices_below(inc@, prompts@.len() as int));
        let mut messages: Vec<ChatMessage> = Vec::new();
        let mut j: usize = 0;
        let ghost goal = llm_messages(prompts@, inc@, content@);
        while j < inc.len()
            invariant
                j <= inc@.len(),
                indices_below(inc@, prompts@.len() as int),
                goal == llm_messages(prompts@, inc@, content@),
                messages@.len() == j,
                forall|m: int| 0 <= m < j ==> message_views(messages@)[m] == #[trigger] goal[m],
            decreases inc@.len() - j,
        {
            let p = &prompts[inc[inc.len() - 1 - j]];
            messages.push(ChatMessage { role: p.role.clone(), content: p.content.clone() });
            j = j + 1;
        }
        messages.push(ChatMessage { role: String::from_str(USER_ROLE), content });
        assert(message_views(messages@) =~= goal);
        messages
    }
}

/// The indices are strictly increasing.
pub open spec fn increasing(idx: Seq<usize>) -> bool {
    forall|a: int, b: int| 0 <= a < b < idx.len() ==> idx[a] < idx[b]
}

/// No two prompts share an id, as in the store, where ids are keys.
pub open spec fn distinct_ids(prompts: Seq<Prompt>) -> bool {
    forall|a: int, b: int|
        0 <= a < prompts.len() && 0 <= b < prompts.len() && a != b ==> prompts[a].id
            != prompts[b].id
}

/// The prompts that reach the minimum score come in increasing order.
pub proof fn lemma_reaching(scores: Seq<PromptScore>, n: int)
    requires
        0 <= n <= scores.len(),
        scores.len() <= usize::MAX,
    ensures
        increasing(reaching(scores, n)),
        indices_below(reaching(scores, n), n),
        forall|k: int|
            0 <= k < reaching(scores, n).len() ==> scores[reaching(scores, n)[k] as int].reaches_min,
        forall|i: int|
            0 <= i < n && scores[i].reaches_min ==> reaching(scores, n).contains(i as usize),
    decreases n,
{
    if n > 0 {
        lemma_reaching(scores, n - 1);
        let r = reaching(scores, n - 1);
        if scores[n - 1].reaches_min {
            let rn = reaching(scores, n);
            assert(rn == r.push((n - 1) as usize));
            assert forall|k: int| 0 <= k < r.len() implies rn[k] == r[k] && (rn[k] as int) < n - 1 by {}
            assert(increasing(rn));
            assert forall|i: int| 0 <= i < n && scores[i].reaches_min implies reaching(
                scores,
                n,
            ).contains(i as usize) by {
                if i < n - 1 {
                    let k = choose|k: int| 0 <= k < r.len() && r[k] == i as usize;
                    assert(reaching(scores, n)[k] == i as usize);
                } else {
                    assert(reaching(scores, n)[r.len() as int] == i as usize);
                }
            }
        }
    }
}

/// The weakest prompt ranks no higher than any of the given prompts.
pub proof fn lemma_weakest_is_lowest(scores: Seq<PromptScore>, idx: Seq<usize>)
    requires
        idx.len() > 0,
    ensures
        forall|k: int|
            0 <= k < idx.len() ==> scores[idx[weakest_pos(scores, idx)] as int].rank
                <= scores[#[trigger] idx[k] as int].rank,
    decreases idx.len(),
{
    lemma_weakest_pos_in_range(scores, idx);
    if idx.len() > 1 {
        let d = idx.drop_last();
        lemma_weakest_is_lowest(scores, d);
        lemma_weakest_pos_in_range(scores, d);
        assert forall|k: int| 0 <= k < idx.len() implies scores[idx[weakest_pos(
            scores,
            idx,
        )] as int].rank <= scores[#[trigger] idx[k] as int].rank by {
            if k < idx.len() - 1 {
                assert(d[k] == idx[k]);
            }
        }
    }
}

/// Pruning keeps some of the given indices, in their order, leaves the
/// tokens within the budget unless a single prompt is left, and leaves out
/// only prompts that rank no higher than every prompt it keeps.
pub proof fn lemma_prune(
    prompts: Seq<Prompt>,
    scores: Seq<PromptScore>,
    idx: Seq<usize>,
    content_tokens: int,
    max_tokens: int,
)
    requires
        increasing(idx),
    ensures
        ({
            let r = prune(
                prompts,
                scores,
                idx,
                content_tokens + tokens_of(prompts, idx),
                max_tokens,
            );
            &&& increasing(r)
            &&& forall|k: int| 0 <= k < r.len() ==> idx.contains(#[trigger] r[k])
            &&& content_tokens + tokens_of(prompts, r) <= max_tokens || r.len() <= 1
            &&& forall|j: usize, i: usize|
                idx.contains(j) && !r.contains(j) && r.contains(i) ==> scores[j as int].rank
                    <= scores[i as int].rank
        }),
    decreases idx.len(),
{
    let total = content_tokens + tokens_of(prompts, idx);
    if total > max_tokens && idx.len() > 1 {
        let p = weakest_pos(scores, idx);
        lemma_weakest_pos_in_range(scores, idx);
        lemma_weakest_is_lowest(scores, idx);
        lemma_tokens_remove(prompts, idx, p);
        let rest = idx.remove(p);
        assert(increasing(rest)) by {
            assert forall|a: int, b: int| 0 <= a < b < rest.len() implies rest[a] < rest[b] by {
                let a0 = if a < p { a } else { a + 1 };
                let b0 = if b < p { b } else { b + 1 };
                assert(rest[a] == idx[a0]);
                assert(rest[b] == idx[b0]);
            }
        }
        lemma_prune(prompts, scores, rest, content_tokens, max_tokens);
        assert(prune(prompts, scores, idx, total, max_tokens) == prune(
            prompts,
            scores,
            rest,
            content_tokens + tokens_of(prompts, rest),
            max_tokens,
        ));
        let r = prune(prompts, scores, rest, content_tokens + tokens_of(prompts, rest), max_tokens);
        assert forall|k: int| 0 <= k < r.len() implies idx.contains(#[trigger] r[k]) by {
            let q = choose|q: int| 0 <= q < rest.len() && rest[q] == r[k];
            if q < p {
                assert(idx[q] == r[k]);
            } else {
                assert(idx[q + 1] == r[k]);
            }
        }
        assert forall|j: usize, i: usize|
            idx.contains(j) && !r.contains(j) && r.contains(i) implies scores[j as int].rank
            <= scores[i as int].rank by {
            let qi = choose|q: int| 0 <= q < r.len() && r[q] == i;
            let ki = choose|q: int| 0 <= q < rest.len() && rest[q] == r[qi];
            let ii = if ki < p { ki } else { ki + 1 };
            assert(idx[ii] == i);
            let qj = choose|q: int| 0 <= q < idx.len() && idx[q] == j;
            if qj != p {
                let kj = if qj < p { qj } else { qj - 1 };
                assert(rest[kj] == j);
            } else {
                assert(scores[idx[p] as int].rank <= scores[idx[ii] as int].rank);
            }
        }
    }
}

/// Two sets of selected prompts that pick out the same prompts among the
/// first `n` include the same of them.
pub proof fn lemma_included_upto_congruent(
    prompts: Seq<Prompt>,
    s1: Seq<usize>,
    s2: Seq<usize>,
    n: int,
)
    requires
        forall|i: int| 0 <= i < n ==> shares_id(prompts, s1, i) == shares_id(prompts, s2, i),
    ensures
        included_upto(prompts, s1, n) == included_upto(prompts, s2, n),
    decreases n,
{
    if n > 0 {
        lemma_included_upto_congruent(prompts, s1, s2, n - 1);
    }
}

/// Where ids are distinct, the prompts included are exactly the selected
/// ones.
pub proof fn lemma_included_upto_selected(prompts: Seq<Prompt>, sel: Seq<usize>, n: int)
    requires
        0 <= n <= prompts.len(),
        prompts.len() <= usize::MAX,
        distinct_ids(prompts),
        increasing(sel),
        indices_below(sel, n),
    ensures
        included_upto(prompts, sel, n) == sel,
    decreases n,
{
    if n > 0 {
        if sel.len() > 0 && sel.last() == (n - 1) as usize {
            let d = sel.drop_last();
            assert(indices_below(d, n - 1)) by {
                assert forall|k: int| 0 <= k < d.len() implies (d[k] as int) < n - 1 by {
                    assert(sel[k] < sel[sel.len() - 1]);
                }
            }
            assert forall|i: int| 0 <= i < n - 1 implies shares_id(prompts, sel, i) == shares_id(
                prompts,
                d,
                i,
            ) by {
                if shares_id(prompts, sel, i) {
                    let k = choose|k: int|
                        0 <= k < sel.len() && prompts[sel[k] as int].id == prompts[i].id;
                    assert(sel[k] as int == i);
                    assert(k != sel.len() - 1);
                    assert(d[k] == sel[k]);
                }
                if shares_id(prompts, d, i) {
                    let k = choose|k: int| 0 <= k < d.len() && prompts[d[k] as int].id == prompts[i].id;
                    assert(sel[k] == d[k]);
                }
            }
            lemma_included_upto_selected(prompts, d, n - 1);
            lemma_included_upto_congruent(prompts, sel, d, n - 1);
            assert(shares_id(prompts, sel, n - 1)) by {
                assert(prompts[sel[sel.len() - 1] as int].id == prompts[n - 1].id);
            }
            assert(sel == d.push((n - 1) as usize));
            assert(included_upto(prompts, sel, n) == included_upto(prompts, sel, n - 1).push(
                (n - 1) as usize,
            ));
        } else {
            assert(indices_below(sel, n - 1)) by {
                assert forall|k: int| 0 <= k < sel.len() implies (sel[k] as int) < n - 1 by {
                    if sel[k] as int == n - 1 {
                        if k < sel.len() - 1 {
                            assert(sel[k] < sel[sel.len() - 1]);
                        }
                    }
                }
            }
            assert(!shares_id(prompts, sel, n - 1)) by {
                if shares_id(prompts, sel, n - 1) {
                    let k = choose|k: int|
                        0 <= k < sel.len() && prompts[sel[k] as int].id == prompts[n - 1].id;
                    assert(sel[k] as int == n - 1);
                }
            }
            lemma_included_upto_selected(prompts, sel, n - 1);
        }
    } else {
        if sel.len() > 0 {
            assert((sel[0] as int) < n);
        }
        assert(sel =~= seq![]);
    }
}

/// The chat holds one message per included prompt of history, oldest first,
/// each with the role and content of its prompt, and ends with the new
/// content from the user.
pub proof fn law_chat_ends_with_the_new_content(
    prompts: Seq<Prompt>,
    inc: Seq<usize>,
    content: Seq<char>,
)
    ensures
        ({
            let m = llm_messages(prompts, inc, content);
            &&& m.len() == inc.len() + 1
            &&& m.last() == (USER_ROLE@, content)
            &&& forall|j: int|
                0 <= j < inc.len() ==> #[trigger] m[j] == (
                    prompts[inc[inc.len() - 1 - j] as int].role@,
                    prompts[inc[inc.len() - 1 - j] as int].content@,
                )
        }),
{
}

/// With at most two prompts of history, all of them go with the request.
pub proof fn law_short_history_is_kept(
    prompts: Seq<Prompt>,
    scores: Seq<PromptScore>,
    content_tokens: int,
    max_tokens: int,
)
    requires
        prompts.len() <= 2,
    ensures
        included(prompts, scores, content_tokens, max_tokens) == Seq::new(
            prompts.len(),
            |i: int| i as usize,
        ),
{
}

/// The prompts that go with the request, together with the new content, hold
/// at most `max_tokens` tokens, unless a single prompt of history is left;
/// a prompt whose score is below the minimum never goes; and a prompt that
/// reaches the minimum but is left out ranks no higher than any prompt that
/// goes; where the prompts that reach the minimum fit the budget, all of
/// them go. This holds for a history of more than two prompts with distinct
/// ids.
pub proof fn law_history_fits_budget(
    prompts: Seq<Prompt>,
    scores: Seq<PromptScore>,
    content_tokens: int,
    max_tokens: int,
)
    requires
        2 < prompts.len() <= usize::MAX,
        scores.len() == prompts.len(),
        distinct_ids(prompts),
    ensures
        ({
            let inc = included(prompts, scores, content_tokens, max_tokens);
            &&& content_tokens + tokens_of(prompts, inc) <= max_tokens || inc.len() <= 1
            &&& forall|k: int| 0 <= k < inc.len() ==> scores[#[trigger] inc[k] as int].reaches_min
            &&& forall|j: usize, i: usize|
                (j as int) < prompts.len() && scores[j as int].reaches_min && !inc.contains(j)
                    && inc.contains(i) ==> scores[j as int].rank <= scores[i as int].rank
            &&& content_tokens + tokens_of(prompts, reaching(scores, prompts.len() as int))
                <= max_tokens ==> inc == reaching(scores, prompts.len() as int)
        }),
{
    let n = prompts.len() as int;
    let r = reaching(scores, n);
    lemma_reaching(scores, n);
    lemma_prune(prompts, scores, r, content_tokens, max_tokens);
    let sel = selected(prompts, scores, content_tokens, max_tokens);
    assert(indices_below(sel, n)) by {
        assert forall|k: int| 0 <= k < sel.len() implies (sel[k] as int) < n by {
            let q = choose|q: int| 0 <= q < r.len() && r[q] == sel[k];
        }
    }
    lemma_included_upto_selected(prompts, sel, n);
    let inc = included(prompts, scores, content_tokens, max_tokens);
    assert(inc == sel);
    assert forall|k: int| 0 <= k < inc.len() implies scores[#[trigger] inc[k] as int].reaches_min by {
        let q = choose|q: int| 0 <= q < r.len() && r[q] == sel[k];
    }
}

/// The position `a` holds the weakest of the given prompts: every other one
/// ranks higher, or ranks the same and comes before it.
pub open spec fn is_weakest_at(scores: Seq<PromptScore>, idx: Seq<usize>, a: int) -> bool {
    &&& 0 <= a < idx.len()
    &&& forall|k: int|
        0 <= k < idx.len() ==> scores[idx[a] as int].rank < scores[#[trigger] idx[k] as int].rank
            || (scores[idx[a] as int].rank == scores[idx[k] as int].rank && k <= a)
}

/// [`weakest_pos`] is the weakest prompt in the sense of [`is_weakest_at`],
/// and the only position that is.
pub proof fn lemma_weakest_characterized(scores: Seq<PromptScore>, idx: Seq<usize>, a: int)
    requires
        idx.len() > 0,
    ensures
        is_weakest_at(scores, idx, weakest_pos(scores, idx)),
        is_weakest_at(scores, idx, a) ==> a == weakest_pos(scores, idx),
    decreases idx.len(),
{
    lemma_weakest_pos_in_range(scores, idx);
    let w = weakest_pos(scores, idx);
    if idx.len() > 1 {
        let d = idx.drop_last();
        lemma_weakest_characterized(scores, d, 0);
        let pd = weakest_pos(scores, d);
        assert forall|k: int| 0 <= k < idx.len() implies scores[idx[w] as int].rank
            < scores[#[trigger] idx[k] as int].rank || (scores[idx[w] as int].rank
            == scores[idx[k] as int].rank && k <= w) by {
            if k < idx.len() - 1 {
                assert(d[k] == idx[k]);
                assert(d[pd] == idx[pd]);
            }
        }
    }
    if is_weakest_at(scores, idx, a) {
        assert(scores[idx[a] as int].rank < scores[idx[w] as int].rank || (scores[idx[a] as int].rank
            == scores[idx[w] as int].rank && w <= a));
        assert(scores[idx[w] as int].rank < scores[idx[a] as int].rank || (scores[idx[w] as int].rank
            == scores[idx[a] as int].rank && a <= w));
    }
}

/// Leaving out one of increasing indices keeps them increasing.
pub proof fn lemma_remove_increasing(idx: Seq<usize>, p: int)
    requires
        increasing(idx),
        0 <= p < idx.len(),
    ensures
        increasing(idx.remove(p)),
        !idx.remove(p).contains(idx[p]),
        forall|x: usize| #[trigger] idx.remove(p).contains(x) ==> idx.contains(x),
{
    let rest = idx.remove(p);
    assert forall|a: int, b: int| 0 <= a < b < rest.len() implies rest[a] < rest[b] by {
        let a0 = if a < p { a } else { a + 1 };
        let b0 = if b < p { b } else { b + 1 };
        assert(rest[a] == idx[a0]);
        assert(rest[b] == idx[b0]);
    }
    if rest.contains(idx[p]) {
        let q = choose|q: int| 0 <= q < rest.len() && rest[q] == idx[p];
        let q0 = if q < p { q } else { q + 1 };
        assert(rest[q] == idx[q0]);
    }
    assert forall|x: usize| #[trigger] rest.contains(x) implies idx.contains(x) by {
        let q = choose|q: int| 0 <= q < rest.len() && rest[q] == x;
        let q0 = if q < p { q } else { q + 1 };
        assert(rest[q] == idx[q0]);
    }
}

/// Pruning keeps only some of the given indices.
pub proof fn lemma_prune_within(
    prompts: Seq<Prompt>,
    scores: Seq<PromptScore>,
    idx: Seq<usize>,
    total: int,
    max_tokens: int,
)
    requires
        increasing(idx),
    ensures
        forall|x: usize|
            #[trigger] prune(prompts, scores, idx, total, max_tokens).contains(x) ==> idx.contains(x),
    decreases idx.len(),
{
    if total > max_tokens && idx.len() > 1 {
        let p = weakest_pos(scores, idx);
        lemma_weakest_pos_in_range(scores, idx);
        lemma_remove_increasing(idx, p);
        let rest = idx.remove(p);
        let t2 = total - prompts[idx[p] as int].tokens;
        lemma_prune_within(prompts, scores, rest, t2, max_tokens);
        let r = prune(prompts, scores, idx, total, max_tokens);
        assert(r == prune(prompts, scores, rest, t2, max_tokens));
        assert forall|x: usize| #[trigger] r.contains(x) implies idx.contains(x) by {
            assert(rest.contains(x));
        }
    }
}

/// Raising the rank of the prompt at `p`, all other ranks the same, never
/// makes pruning leave it out.
pub proof fn lemma_prune_monotone(
    prompts: Seq<Prompt>,
    s1: Seq<PromptScore>,
    s2: Seq<PromptScore>,
    idx: Seq<usize>,
    total: int,
    max_tokens: int,
    p: usize,
)
    requires
        increasing(idx),
        forall|k: int| 0 <= k < idx.len() && idx[k] != p ==> #[trigger] s2[idx[k] as int].rank
            == s1[idx[k] as int].rank,
        s2[p as int].rank >= s1[p as int].rank,
    ensures
        prune(prompts, s1, idx, total, max_tokens).contains(p) ==> prune(
            prompts,
            s2,
            idx,
            total,
            max_tokens,
        ).contains(p),
    decreases idx.len(),
{
    if total > max_tokens && idx.len() > 1 {
        let w = weakest_pos(s1, idx);
        lemma_weakest_characterized(s1, idx, w);
        let rest = idx.remove(w);
        lemma_remove_increasing(idx, w);
        let t2 = total - prompts[idx[w] as int].tokens;
        assert(prune(prompts, s1, idx, total, max_tokens) == prune(prompts, s1, rest, t2, max_tokens));
        if idx[w] == p {
            lemma_prune_within(prompts, s1, rest, t2, max_tokens);
            if prune(prompts, s1, rest, t2, max_tokens).contains(p) {
                assert(rest.contains(p));
            }
        } else {
            assert forall|k: int| 0 <= k < idx.len() implies s2[idx[w] as int].rank
                < s2[#[trigger] idx[k] as int].rank || (s2[idx[w] as int].rank
                == s2[idx[k] as int].rank && k <= w) by {
                if idx[k] == p {
                    assert(s1[idx[w] as int].rank < s1[idx[k] as int].rank || (s1[idx[w] as int].rank
                        == s1[idx[k] as int].rank && k <= w));
                } else {
                    assert(s1[idx[w] as int].rank < s1[idx[k] as int].rank || (s1[idx[w] as int].rank
                        == s1[idx[k] as int].rank && k <= w));
                }
            }
            assert(is_weakest_at(s2, idx, w));
            lemma_weakest_characterized(s2, idx, w);
            assert forall|k: int| 0 <= k < rest.len() && rest[k] != p implies #[trigger] s2[rest[k] as int].rank
                == s1[rest[k] as int].rank by {
                let k0 = if k < w { k } else { k + 1 };
                assert(rest[k] == idx[k0]);
            }
            assert(weakest_pos(s2, idx) == w);
            assert(prune(prompts, s2, idx, total, max_tokens) == prune(
                prompts,
                s2,
                rest,
                t2,
                max_tokens,
            ));
            lemma_prune_monotone(prompts, s1, s2, rest, t2, max_tokens, p);
        }
    }
}

/// Which prompts reach the minimum decides [`reaching`].
pub proof fn lemma_reaching_same_flags(s1: Seq<PromptScore>, s2: Seq<PromptScore>, n: int)
    requires
        forall|i: int| 0 <= i < n ==> #[trigger] s1[i].reaches_min == s2[i].reaches_min,
    ensures
        reaching(s1, n) == reaching(s2, n),
    decreases n,
{
    if n > 0 {
        lemma_reaching_same_flags(s1, s2, n - 1);
    }
}

/// A higher score never leaves a prompt out: where the scores of a history
/// differ only in the prompt at `p`, whose score is higher (and reaches the
/// minimum where it reached it before), a prompt at `p` that went with the
/// request still goes. This holds for a history of more than two prompts
/// with distinct ids.
pub proof fn law_higher_score_keeps_prompt(
    prompts: Seq<Prompt>,
    s1: Seq<PromptScore>,
    s2: Seq<PromptScore>,
    content_tokens: int,
    max_tokens: int,
    p: usize,
)
    requires
        2 < prompts.len() <= usize::MAX,
        s1.len() == prompts.len(),
        s2.len() == prompts.len(),
        distinct_ids(prompts),
        (p as int) < prompts.len(),
        forall|i: int| 0 <= i < prompts.len() && i != p ==> #[trigger] s2[i] == s1[i],
        s2[p as int].rank >= s1[p as int].rank,
        s1[p as int].reaches_min ==> s2[p as int].reaches_min,
    ensures
        included(prompts, s1, content_tokens, max_tokens).contains(p) ==> included(
            prompts,
            s2,
            content_tokens,
            max_tokens,
        ).contains(p),
{
    let n = prompts.len() as int;
    let inc1 = included(prompts, s1, content_tokens, max_tokens);
    if inc1.contains(p) {
        law_history_fits_budget(prompts, s1, content_tokens, max_tokens);
        law_history_fits_budget(prompts, s2, content_tokens, max_tokens);
        let k = choose|k: int| 0 <= k < inc1.len() && inc1[k] == p;
        assert(s1[inc1[k] as int].reaches_min);
        assert forall|i: int| 0 <= i < n implies #[trigger] s1[i].reaches_min == s2[i].reaches_min by {
            if i != p {
                assert(s2[i] == s1[i]);
            }
        }
        lemma_reaching_same_flags(s1, s2, n);
        let r = reaching(s1, n);
        lemma_reaching(s1, n);
        let total = content_tokens + tokens_of(prompts, r);
        lemma_prune(prompts, s1, r, content_tokens, max_tokens);
        lemma_prune(prompts, s2, r, content_tokens, max_tokens);
        let sel1 = selected(prompts, s1, content_tokens, max_tokens);
        let sel2 = selected(prompts, s2, content_tokens, max_tokens);
        assert(indices_below(sel1, n)) by {
            assert forall|j: int| 0 <= j < sel1.len() implies (sel1[j] as int) < n by {
                let q = choose|q: int| 0 <= q < r.len() && r[q] == sel1[j];
            }
        }
        assert(indices_below(sel2, n)) by {
            assert forall|j: int| 0 <= j < sel2.len() implies (sel2[j] as int) < n by {
                let q = choose|q: int| 0 <= q < r.len() && r[q] == sel2[j];
            }
        }
        lemma_included_upto_selected(prompts, sel1, n);
        lemma_included_upto_selected(prompts, sel2, n);
        assert forall|j: int| 0 <= j < r.len() && r[j] != p implies #[trigger] s2[r[j] as int].rank
            == s1[r[j] as int].rank by {
            assert(s2[r[j] as int] == s1[r[j] as int]);
        }
        lemma_prune_monotone(prompts, s1, s2, r, total, max_tokens, p);
    }
}

} // verus!
