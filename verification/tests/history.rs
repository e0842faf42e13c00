use llm_daemon::history::{History, PromptScore};
use llm_daemon::models::{Prompt, PromptId};

fn p(id: i32, role: &str, content: &str, tokens: i32) -> Prompt {
    Prompt {
        id: PromptId(id),
        role: role.to_string(),
        content: content.to_string(),
        created_at: "2023-05-01 10:00:00".to_string(),
        mode: "dali".to_string(),
        karma: 100,
        tokens,
    }
}

fn s(reaches_min: bool, rank: i32) -> PromptScore {
    PromptScore { reaches_min, rank }
}

fn pairs(history: History, scores: Vec<PromptScore>, content: &str, tokens: i32, max: i32) -> Vec<(String, String)> {
    history
        .into_llm_prompt(&scores, content.to_string(), tokens, max)
        .into_iter()
        .map(|m| (m.role, m.content))
        .collect()
}

fn pair(role: &str, content: &str) -> (String, String) {
    (role.to_string(), content.to_string())
}

#[test]
fn short_history_is_sent_whole_oldest_first() {
    let h = History::from(vec![p(2, "assistant", "b", 1000), p(1, "user", "a", 1000)]);
    assert_eq!(
        pairs(h, vec![s(false, 0), s(false, 0)], "c", 10, 5),
        vec![pair("user", "a"), pair("assistant", "b"), pair("user", "c")]
    );
    let h = History::from(vec![]);
    assert_eq!(pairs(h, vec![], "only", 2, 0), vec![pair("user", "only")]);
}

#[test]
fn prompts_below_min_score_are_left_out() {
    let h = History::from(vec![
        p(4, "assistant", "d", 1),
        p(3, "user", "c", 1),
        p(2, "assistant", "b", 1),
        p(1, "user", "a", 1),
    ]);
    assert_eq!(
        pairs(h, vec![s(true, 5), s(false, 9), s(true, 1), s(false, 3)], "e", 1, 1000),
        vec![pair("assistant", "b"), pair("assistant", "d"), pair("user", "e")]
    );
}

#[test]
fn lowest_scores_go_first_over_budget() {
    let h = History::from(vec![
        p(4, "assistant", "d", 10),
        p(3, "user", "c", 10),
        p(2, "assistant", "b", 10),
        p(1, "user", "a", 10),
    ]);
    // 5 + 40 tokens with a budget of 25: two prompts have to go, the lowest
    // ranks first; of equal ranks the older one goes first
    assert_eq!(
        pairs(h, vec![s(true, 3), s(true, 1), s(true, 7), s(true, 1)], "e", 5, 25),
        vec![pair("assistant", "b"), pair("assistant", "d"), pair("user", "e")]
    );
}

#[test]
fn one_prompt_is_kept_however_large() {
    let h = History::from(vec![
        p(3, "assistant", "c", 500),
        p(2, "user", "b", 500),
        p(1, "user", "a", 500),
    ]);
    assert_eq!(
        pairs(h, vec![s(true, 1), s(true, 2), s(true, 0)], "q", 5, 10),
        vec![pair("user", "b"), pair("user", "q")]
    );
}

#[test]
fn history_within_budget_is_kept() {
    let h = History::from(vec![
        p(3, "assistant", "c", 5),
        p(2, "user", "b", 5),
        p(1, "user", "a", 5),
    ]);
    assert_eq!(
        pairs(h, vec![s(true, 1), s(true, 2), s(true, 0)], "q", 5, 20),
        vec![pair("user", "a"), pair("user", "b"), pair("assistant", "c"), pair("user", "q")]
    );
}

#[test]
fn prompts_below_min_free_their_tokens() {
    // without the dropped prompt the rest fits: nothing more goes
    let h = History::from(vec![
        p(3, "assistant", "c", 5),
        p(2, "user", "b", 100),
        p(1, "user", "a", 5),
    ]);
    assert_eq!(
        pairs(h, vec![s(true, 0), s(false, 9), s(true, 0)], "q", 5, 20),
        vec![pair("user", "a"), pair("assistant", "c"), pair("user", "q")]
    );
}

#[test]
fn history_keeps_its_prompts() {
    let h = History::from(vec![p(1, "user", "a", 1)]);
    assert_eq!(h.prompts().len(), 1);
    assert_eq!(h.prompts()[0].content, "a");
}

#[test]
fn raising_a_score_keeps_a_prompt() {
    let history = || {
        History::from(vec![
            p(4, "assistant", "d", 10),
            p(3, "user", "c", 10),
            p(2, "assistant", "b", 10),
            p(1, "user", "a", 10),
        ])
    };
    let low = vec![s(true, 3), s(true, 1), s(true, 7), s(true, 2)];
    let high = vec![s(true, 3), s(true, 1), s(true, 9), s(true, 2)];
    let with_low = pairs(history(), low, "e", 5, 25);
    let with_high = pairs(history(), high, "e", 5, 25);
    assert!(with_low.contains(&pair("assistant", "b")));
    assert!(with_high.contains(&pair("assistant", "b")));
    // raising the score of "a" above the others keeps it instead of "d"
    let raised = vec![s(true, 3), s(true, 1), s(true, 7), s(true, 8)];
    assert_eq!(
        pairs(history(), raised, "e", 5, 25),
        vec![pair("user", "a"), pair("assistant", "b"), pair("user", "e")]
    );
}
