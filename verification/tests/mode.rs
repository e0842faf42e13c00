use llm_daemon::mode::marat::prompts::tao_instruction;
use llm_daemon::mode::{
    accepts_input, next_exchange, prompt_record, response_record, InputContext, KarmaSettings,
    Mode, ModeError, PromptKarma, ResponseAction,
};
use llm_daemon::models::{ImmediatePromptParams, LlmResponseParams};
use llm_daemon::models::{Prompt, PromptId};

fn context(latest: Option<Prompt>, now: i64) -> InputContext {
    InputContext {
        system: "Ubuntu 22.04".to_string(),
        default_prompt: "dali".to_string(),
        end_session_after_idle_secs: 300,
        latest_prompt: latest,
        now,
    }
}

fn latest(mode: &str, created_at: &str) -> Prompt {
    Prompt {
        id: PromptId(1),
        role: "assistant".to_string(),
        content: "hi".to_string(),
        created_at: created_at.to_string(),
        mode: mode.to_string(),
        karma: 100,
        tokens: 2,
    }
}

// 2023-05-01 10:00:00 UTC
const T0: i64 = 1682935200;

#[test]
fn it_constructs_marat() {
    let ctx = context(None, T0);

    let tests = vec![
        (" there's \nmarat a rainbow", "there's  a rainbow"),
        ("\n   marat a rainbow", " a rainbow"),
        (
            "ok marat heremarat no maratok marat.",
            "ok heremarat no maratok ",
        ),
        ("MaRat", " "),
    ];

    for (i, o) in tests {
        assert_eq!(
            Mode::process_input(i, &ctx).unwrap(),
            Mode::Marat {
                next_prompt: tao_instruction(o, &ctx.system),
                thought_loop: 0,
                next_prompt_karma: PromptKarma::Instructive,
            }
        );
    }
}

#[test]
fn it_constructs_dali() {
    let ctx = context(None, T0);

    let tests = vec![
        (" there's \ndali a rainbow", "there's  a rainbow"),
        ("\n   dali a rainbow", " a rainbow"),
        ("ok dali heredali no daliok dali", "ok heredali no daliok "),
        ("DaLi", " "),
    ];

    for (i, o) in tests {
        assert_eq!(
            Mode::process_input(i, &ctx).unwrap(),
            Mode::Dali {
                prompt: o.to_string()
            }
        );
    }
}

#[test]
fn marat_directive_wins_over_dali() {
    let ctx = context(None, T0);
    assert_eq!(
        Mode::process_input("dali and marat", &ctx).unwrap(),
        Mode::Marat {
            next_prompt: tao_instruction("dali and ", &ctx.system),
            thought_loop: 0,
            next_prompt_karma: PromptKarma::Instructive,
        }
    );
}

#[test]
fn session_goes_on_in_latest_mode() {
    let ctx = context(Some(latest("marat", "2023-05-01 10:00:00")), T0 + 299);
    assert_eq!(
        Mode::process_input("  now show the disk usage ", &ctx).unwrap(),
        Mode::Marat {
            next_prompt: tao_instruction("now show the disk usage", &ctx.system),
            thought_loop: 0,
            next_prompt_karma: PromptKarma::Instructive,
        }
    );
    let ctx = context(Some(latest("dali", "2023-05-01 10:00:00")), T0 + 10);
    assert_eq!(
        Mode::process_input("and then?", &ctx).unwrap(),
        Mode::Dali { prompt: "and then?".to_string() }
    );
}

#[test]
fn ended_session_uses_default_prompt() {
    let ctx = context(Some(latest("marat", "2023-05-01 10:00:00")), T0 + 300);
    assert_eq!(
        Mode::process_input("show the disk usage", &ctx).unwrap(),
        Mode::Dali { prompt: "show the disk usage".to_string() }
    );
    // a prompt from the future counts as zero seconds old
    let ctx = context(Some(latest("marat", "2023-05-01 10:00:00")), T0 - 1000);
    assert!(matches!(
        Mode::process_input("go on", &ctx).unwrap(),
        Mode::Marat { .. }
    ));
}

#[test]
fn unknown_latest_mode_falls_back_to_default() {
    let ctx = context(Some(latest("cobol", "2023-05-01 10:00:00")), T0);
    assert_eq!(
        Mode::process_input("hello", &ctx).unwrap(),
        Mode::Dali { prompt: "hello".to_string() }
    );
}

#[test]
fn unusable_default_prompt_is_an_error() {
    let mut ctx = context(None, T0);
    ctx.default_prompt = "marat".to_string();
    assert_eq!(
        Mode::process_input("hello", &ctx),
        Err(ModeError::UnsupportedDefaultPrompt("marat".to_string()))
    );
}

#[test]
fn try_process_input_refuses_what_cannot_proceed() {
    let ctx = context(None, T0);
    assert!(Mode::try_process_input("cobol write a parser", &ctx).is_none());
    assert!(Mode::try_process_input("ANNUS", &ctx).is_none());
    // marat wins over an unimplemented directive
    assert!(matches!(
        Mode::try_process_input("annus marat ls", &ctx),
        Some(Ok(Mode::Marat { .. }))
    ));
    let bad = context(Some(latest("dali", "yesterday")), T0);
    assert!(Mode::try_process_input("hello", &bad).is_none());
    // the creation time is not read when a directive decides
    assert_eq!(
        Mode::try_process_input("dali hello", &bad),
        Some(Ok(Mode::Dali { prompt: " hello".to_string() }))
    );
    assert_eq!(
        Mode::try_process_input("hello", &ctx),
        Some(Ok(Mode::Dali { prompt: "hello".to_string() }))
    );
}

#[test]
fn mode_names() {
    assert_eq!(Mode::Dali { prompt: String::new() }.as_str(), "dali");
    assert_eq!(
        Mode::Marat {
            next_prompt: String::new(),
            thought_loop: 3,
            next_prompt_karma: PromptKarma::Default,
        }
        .as_str(),
        "marat"
    );
    assert_eq!(Mode::Cobol.as_str(), "cobol");
    assert_eq!(Mode::Annus.as_str(), "annus");
}

fn karma() -> KarmaSettings {
    KarmaSettings { default: 1, instructive: 5, decorative: 2, contextual: 3 }
}

#[test]
fn first_marat_prompt_is_instructive() {
    let m = Mode::Marat {
        next_prompt: "task".to_string(),
        thought_loop: 0,
        next_prompt_karma: PromptKarma::Instructive,
    };
    let (p, params) = m.generate_immediate_prompt(&karma());
    assert_eq!(p, "task");
    assert_eq!(params.user_prompt_karma, 5);
    assert_eq!(params.stop, vec!["Observation:".to_string()]);

    let m = Mode::Marat {
        next_prompt: "obs".to_string(),
        thought_loop: 4,
        next_prompt_karma: PromptKarma::Default,
    };
    let (_, params) = m.generate_immediate_prompt(&karma());
    assert_eq!(params.user_prompt_karma, 1);

    let m = Mode::Dali { prompt: "hi".to_string() };
    let (p, params) = m.generate_immediate_prompt(&karma());
    assert_eq!(p, "hi");
    assert_eq!(params.user_prompt_karma, 1);
    assert!(params.stop.is_empty());
}

#[test]
fn dali_is_done_after_one_response() {
    let m = Mode::Dali { prompt: "hi".to_string() };
    match m.process_llm_response("Final Thought: hello", &karma()) {
        ResponseAction::Done { params } => assert_eq!(params.llm_response_karma, 0),
        other => panic!("unexpected {other:?}"),
    }
}

#[test]
fn marat_response_is_read_by_marat() {
    let m = Mode::Marat {
        next_prompt: "task".to_string(),
        thought_loop: 1,
        next_prompt_karma: PromptKarma::Default,
    };
    match m.process_llm_response("final thought: done", &karma()) {
        ResponseAction::FinishThoughtLoop { limit, params } => {
            assert_eq!(limit, 5);
            assert_eq!(params.llm_response_karma, 3);
        }
        other => panic!("unexpected {other:?}"),
    }
}

#[test]
fn created_at_is_read_as_utc() {
    let p = latest("dali", "2023-05-01 10:00:00");
    assert_eq!(p.created_at(), T0);
    assert_eq!(p.parse_created_at(), Some(T0));
    assert_eq!(latest("dali", "1970-01-01 00:00:00").created_at(), 0);
    assert_eq!(latest("dali", "not a date").parse_created_at(), None);
    assert_eq!(*PromptId(7), 7);
}

#[test]
fn directive_decides_whatever_the_session() {
    let fresh = context(None, T0);
    let mut busy = context(Some(latest("marat", "2023-05-01 10:00:00")), T0 + 5);
    busy.default_prompt = "cobol".to_string();
    busy.end_session_after_idle_secs = 1_000_000;
    for input in ["dali tell me a joke", "marat list files", "DALI"] {
        assert_eq!(
            Mode::process_input(input, &fresh),
            Mode::process_input(input, &busy)
        );
    }
}

#[test]
fn loop_prompts_carry_their_karma() {
    let m = Mode::Marat {
        next_prompt: "task".to_string(),
        thought_loop: 0,
        next_prompt_karma: PromptKarma::Instructive,
    };
    let next = match m.process_llm_response("no format here", &karma()) {
        ResponseAction::Continue { mode, .. } => mode,
        other => panic!("unexpected {other:?}"),
    };
    let (_, params) = next.generate_immediate_prompt(&karma());
    assert_eq!(params.user_prompt_karma, karma().decorative);
    let (next, _) = llm_daemon::mode::marat::after_observation("ok", 0, &karma());
    let (p, params) = next.generate_immediate_prompt(&karma());
    assert_eq!(p, "Observation:\nok");
    assert_eq!(params.user_prompt_karma, karma().default);
}

#[test]
fn empty_inputs_are_ignored() {
    assert!(!accepts_input(""));
    assert!(!accepts_input(" \n\t\u{3000}"));
    assert!(accepts_input("  hi "));
}

#[test]
fn exchanges_stop_at_the_bound() {
    let m = Mode::Dali { prompt: "x".to_string() };
    assert_eq!(next_exchange(0, 3, Some(m.clone())), Some(m.clone()));
    assert_eq!(next_exchange(1, 3, Some(m.clone())), Some(m.clone()));
    assert_eq!(next_exchange(2, 3, Some(m.clone())), None);
    assert_eq!(next_exchange(0, 1, Some(m)), None);
    assert_eq!(next_exchange(0, 3, None), None);
}

#[test]
fn exchange_records() {
    let m = Mode::Dali { prompt: "a b c".to_string() };
    let params = ImmediatePromptParams { user_prompt_karma: 7, stop: vec![] };
    let r = prompt_record(&m, "a b c", &params);
    assert_eq!((r.role, r.content, r.mode, r.karma, r.tokens), ("user", "a b c", "dali", 7, 4));
    let r = response_record("marat", "ok", &LlmResponseParams { llm_response_karma: 3 });
    assert_eq!((r.role, r.content, r.mode, r.karma, r.tokens), ("assistant", "ok", "marat", 3, 2));
}
