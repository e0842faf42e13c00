use llm_daemon::conf::defaults::{http_addr, sql_conn, user_home_dir};
use llm_daemon::conf::HttpAddr;
use llm_daemon::conf::setting::{
    contextual_karma, decorative_karma, default_karma, end_session_after_idle_secs,
    instructive_karma, max_bash_output_len_for_response, max_thought_loops, max_tokens,
    recent_history_limit, InvalidSetting,
};
use llm_daemon::db::{latest_prompt_opts, select_prompts_sql, OrderBy, SelectOpts};
use llm_daemon::openai::{
    checked_estimate_tokens, completion_tokens, estimate_tokens, read_completion, Completion,
    CompletionError,
};

#[test]
fn defaults_of_the_configuration() {
    assert_eq!(sql_conn(), ":memory:");
    assert_eq!(http_addr(), HttpAddr::V4 { ip: [127, 0, 0, 1], port: 8080 });
    assert_eq!(user_home_dir(), "/home/ajeto");
}

#[test]
fn count_settings_are_decimal() {
    assert_eq!(max_thought_loops("5"), Ok(5));
    assert_eq!(recent_history_limit("+20"), Ok(20));
    assert_eq!(max_bash_output_len_for_response("0100"), Ok(100));
    assert_eq!(max_thought_loops("-1"), Err(InvalidSetting));
    assert_eq!(max_thought_loops(""), Err(InvalidSetting));
    assert_eq!(max_thought_loops("+"), Err(InvalidSetting));
    assert_eq!(max_thought_loops(" 5"), Err(InvalidSetting));
    assert_eq!(max_thought_loops("1e3"), Err(InvalidSetting));
}

#[test]
fn signed_settings_are_decimal() {
    assert_eq!(max_tokens("4000"), Ok(4000));
    assert_eq!(default_karma("-7"), Ok(-7));
    assert_eq!(instructive_karma("2147483647"), Ok(i32::MAX));
    assert_eq!(decorative_karma("2147483648"), Err(InvalidSetting));
    assert_eq!(contextual_karma("-2147483648"), Ok(i32::MIN));
    assert_eq!(contextual_karma("--1"), Err(InvalidSetting));
    assert_eq!(end_session_after_idle_secs("600"), Ok(600));
    assert_eq!(end_session_after_idle_secs("-"), Err(InvalidSetting));
}

#[test]
fn select_queries() {
    assert_eq!(
        select_prompts_sql(&SelectOpts::default()),
        "SELECT id, mode, role, content, karma, tokens, created_at FROM prompts"
    );
    assert_eq!(
        select_prompts_sql(&latest_prompt_opts()),
        "SELECT id, mode, role, content, karma, tokens, created_at FROM prompts ORDER BY id DESC LIMIT 1"
    );
    assert_eq!(
        select_prompts_sql(&SelectOpts { limit: Some(250), order_by: Some(OrderBy::Asc) }),
        "SELECT id, mode, role, content, karma, tokens, created_at FROM prompts ORDER BY id ASC LIMIT 250"
    );
    assert_eq!(
        select_prompts_sql(&SelectOpts { limit: Some(0), order_by: None }),
        "SELECT id, mode, role, content, karma, tokens, created_at FROM prompts LIMIT 0"
    );
}

#[test]
fn tokens_are_estimated_pessimistically() {
    assert_eq!(estimate_tokens(""), 2);
    assert_eq!(estimate_tokens("word"), 2);
    assert_eq!(estimate_tokens("two words"), 2);
    assert_eq!(estimate_tokens("a b c d"), 6);
    assert_eq!(estimate_tokens(" \t\n\u{3000}"), 8);
    assert_eq!(checked_estimate_tokens("a  b"), Some(4));
}

#[test]
fn completion_tokens_never_go_negative() {
    assert_eq!(completion_tokens(120, 100), 20);
    assert_eq!(completion_tokens(100, 120), 0);
}

#[test]
fn stored_settings_read_back_unchanged() {
    for raw in ["0", "10", "4000", "18446744073709551615"] {
        assert_eq!(max_thought_loops(raw).unwrap().to_string(), raw);
        assert_eq!(recent_history_limit(raw).unwrap().to_string(), raw);
        assert_eq!(max_bash_output_len_for_response(raw).unwrap().to_string(), raw);
    }
    for raw in ["0", "-3", "4000", "-2147483648", "2147483647"] {
        assert_eq!(max_tokens(raw).unwrap().to_string(), raw);
        assert_eq!(default_karma(raw).unwrap().to_string(), raw);
        assert_eq!(instructive_karma(raw).unwrap().to_string(), raw);
        assert_eq!(decorative_karma(raw).unwrap().to_string(), raw);
        assert_eq!(contextual_karma(raw).unwrap().to_string(), raw);
        assert_eq!(end_session_after_idle_secs(raw).unwrap().to_string(), raw);
    }
}

fn completion(content: Option<&str>, prompt: Option<u64>, total: Option<u64>) -> Completion {
    Completion {
        content: content.map(|c| c.to_string()),
        prompt_tokens: prompt,
        total_tokens: total,
    }
}

#[test]
fn replies_are_read_or_refused() {
    assert_eq!(
        read_completion(completion(Some("hi"), Some(10), Some(25))),
        Ok((15, "hi".to_string()))
    );
    assert_eq!(
        read_completion(completion(Some("hi"), Some(30), Some(25))),
        Ok((0, "hi".to_string()))
    );
    assert_eq!(
        read_completion(completion(None, None, None)),
        Err(CompletionError::NoContent)
    );
    assert_eq!(
        read_completion(completion(Some(""), None, Some(1))),
        Err(CompletionError::NoPromptTokens)
    );
    assert_eq!(
        read_completion(completion(Some(""), Some(1), None)),
        Err(CompletionError::NoTotalTokens)
    );
}
