use chat_relay::allowances::{Allowance, AllowanceLedger};
use chat_relay::clock::current_time_millis;
use chat_relay::conversations::{ConversationStore, MessageIds};
use chat_relay::gpt::{
    ChatMessage, CompletionTokenDetails, Gpt, GptModel, MessageChoice, PromptTokenDetails, Role,
    TokenUsage,
};
use chat_relay::queries::{
    continue_conversation, out_of_allowance_text, plan_one_off, plan_query, record_exchange,
    start_conversation, OneOffPlan, QueryPlan,
};
use chat_relay::response_styles::{Personality, PersonalityPreset};
use chat_relay::user_settings::UserSettingsStore;
use chat_relay::util::{ending_from_finish_reason, format_chat_message};

const NOW: u64 = 1_700_000_000_000;

fn preset(name: &str) -> PersonalityPreset {
    PersonalityPreset::new(
        String::from(name),
        String::from("\u{1f916}"),
        format!("you are {}", name),
    )
}

fn model(name: &str, friendly: &str, input: u32, output: u32) -> GptModel {
    GptModel::new(String::from(name), String::from(friendly), input, output, 2)
}

fn test_gpt() -> Gpt {
    Gpt::new(
        2_500_000,
        4_000,
        vec![model("mini", "Mini", 400, 1600), model("big", "Big", 2000, 8000)],
        vec![],
        vec![preset("robot"), preset("poet")],
        vec![],
        vec![],
    )
    .unwrap()
}

fn ids(message_id: u64) -> MessageIds {
    MessageIds::new(10, 20, message_id)
}

fn usage(prompt: u32, completion: u32) -> TokenUsage {
    TokenUsage {
        prompt_tokens: prompt,
        completion_tokens: completion,
        total_tokens: prompt + completion,
        completion_tokens_details: CompletionTokenDetails {
            reasoning_tokens: 0,
            audio_tokens: 0,
            accepted_prediction_tokens: 0,
            rejected_prediction_tokens: 0,
        },
        prompt_tokens_details: PromptTokenDetails { cached_tokens: 0, audio_tokens: 0 },
    }
}

#[test]
fn starting_a_conversation_uses_the_sticky_personality() {
    let gpt = test_gpt();
    let mut settings = UserSettingsStore::new();
    settings.set_personality(1, Some(String::from("poet")));
    let (history, personality) = start_conversation(&gpt, &settings, 1, "write me a poem");
    assert_eq!(personality.name(), "poet");
    assert_eq!(history.len(), 2);
    assert!(matches!(history[0].role, Role::System));
    assert_eq!(history[0].content, "you are poet");
    assert!(matches!(history[1].role, Role::User));
    assert_eq!(history[1].content, "write me a poem");
    // No sticky personality: the default preset.
    let (history2, personality2) = start_conversation(&gpt, &settings, 2, "hello");
    assert_eq!(personality2.name(), "robot");
    assert_eq!(history2[0].content, "you are robot");
}

#[test]
fn a_vanished_sticky_personality_falls_back_to_the_default() {
    let gpt = test_gpt();
    let mut settings = UserSettingsStore::new();
    settings.set_personality(1, Some(String::from("retired-style")));
    let (_, personality) = start_conversation(&gpt, &settings, 1, "hi");
    assert_eq!(personality.name(), "robot");
}

#[test]
fn continuing_inherits_the_thread_personality_over_the_sticky_one() {
    let gpt = test_gpt();
    let mut convs = ConversationStore::new();
    convs.record_root(
        ids(1),
        String::from("q1"),
        String::from("a1"),
        Some(String::from("poet")),
    );
    let (history, personality) = continue_conversation(&gpt, &convs, ids(1), "more").unwrap();
    assert_eq!(personality.name(), "poet");
    assert_eq!(history.len(), 4);
    assert_eq!(history[0].content, "you are poet");
    assert_eq!(history[1].content, "q1");
    assert_eq!(history[2].content, "a1");
    assert_eq!(history[3].content, "more");
    assert!(matches!(history[3].role, Role::User));
}

#[test]
fn continuing_an_unknown_message_is_abandoned() {
    let gpt = test_gpt();
    let convs = ConversationStore::new();
    assert!(continue_conversation(&gpt, &convs, ids(9), "more").is_none());
}

#[test]
fn a_stored_custom_tag_resumes_the_custom_personality() {
    let gpt = test_gpt();
    let mut convs = ConversationStore::new();
    convs.record_root(
        ids(1),
        String::from("q1"),
        String::from("a1"),
        Some(String::from("custom(Only speak in questions.)")),
    );
    let (history, personality) = continue_conversation(&gpt, &convs, ids(1), "go on").unwrap();
    assert_eq!(personality.system_message(), "Only speak in questions.");
    assert_eq!(history[0].content, "Only speak in questions.");
}

#[test]
fn plan_query_refuses_when_out_of_allowance() {
    let gpt = test_gpt();
    let mut ledger = AllowanceLedger::new();
    let mut settings = UserSettingsStore::new();
    let convs = ConversationStore::new();
    // Overdraw the account first.
    let costly = model("costly", "Costly", 20_000, 20_000);
    chat_relay::allowances::spend_allowance(
        &mut ledger,
        1,
        usage(1000, 0),
        &costly,
        2_500_000,
        4_000,
        false,
        NOW,
    )
    .unwrap();
    match plan_query(&gpt, &ledger, &mut settings, &convs, 1, false, "hi", None, NOW) {
        QueryPlan::OutOfAllowance { allowance, max_allowance } => {
            assert_eq!(allowance, Allowance::Nanodollars(-10_000_000));
            assert_eq!(max_allowance, Allowance::Nanodollars(10_000_000));
            assert_eq!(
                out_of_allowance_text(allowance, max_allowance),
                "You are out of allowance. (-10 m$/10 m$)"
            );
        },
        _ => panic!("expected the allowance to refuse"),
    }
}

#[test]
fn plan_query_drops_continuations_without_history() {
    let gpt = test_gpt();
    let ledger = AllowanceLedger::new();
    let mut settings = UserSettingsStore::new();
    let convs = ConversationStore::new();
    let plan = plan_query(
        &gpt,
        &ledger,
        &mut settings,
        &convs,
        1,
        false,
        "go on",
        Some(ids(77)),
        NOW,
    );
    assert!(matches!(plan, QueryPlan::NoHistory));
}

#[test]
fn plan_query_consumes_the_model_override() {
    let gpt = test_gpt();
    let ledger = AllowanceLedger::new();
    let mut settings = UserSettingsStore::new();
    let convs = ConversationStore::new();
    settings.set_model(1, Some(String::from("big")));
    match plan_query(&gpt, &ledger, &mut settings, &convs, 1, false, "hi", None, NOW) {
        QueryPlan::Call { history, model, personality } => {
            assert_eq!(model.name(), "big");
            assert_eq!(personality.name(), "robot");
            assert_eq!(history.len(), 2);
            assert_eq!(history[1].content, "hi");
        },
        _ => panic!("expected a call plan"),
    }
    // The override was consumed by the attempt.
    assert_eq!(settings.get_model_setting(1), None);
    // The next plan uses the default model.
    match plan_query(&gpt, &ledger, &mut settings, &convs, 1, false, "again", None, NOW) {
        QueryPlan::Call { model, .. } => assert_eq!(model.name(), "mini"),
        _ => panic!("expected a call plan"),
    }
}

#[test]
fn infinite_allowance_users_always_proceed() {
    let gpt = test_gpt();
    let mut ledger = AllowanceLedger::new();
    let mut settings = UserSettingsStore::new();
    let convs = ConversationStore::new();
    let costly = model("costly", "Costly", 20_000, 20_000);
    chat_relay::allowances::spend_allowance(
        &mut ledger,
        1,
        usage(1000, 0),
        &costly,
        2_500_000,
        4_000,
        false,
        NOW,
    )
    .unwrap();
    let plan = plan_query(&gpt, &ledger, &mut settings, &convs, 1, true, "hi", None, NOW);
    assert!(matches!(plan, QueryPlan::Call { .. }));
}

#[test]
fn record_exchange_stores_roots_and_children() {
    let mut convs = ConversationStore::new();
    let poet = preset("poet");
    let personality = Personality::Preset(&poet);
    record_exchange(&mut convs, ids(1), None, "q1", "a1", &personality);
    assert_eq!(convs.get_message_personality(ids(1)), Some(String::from("poet")));
    let custom = Personality::Custom(String::from("Be terse."));
    record_exchange(&mut convs, ids(2), Some(ids(1)), "q2", "a2", &custom);
    assert_eq!(
        convs.get_message_personality(ids(2)),
        Some(String::from("custom(Be terse.)"))
    );
    let history = convs.reconstruct_history(ids(2), String::from("sys"));
    assert_eq!(history.len(), 5);
    assert_eq!(history[1].content, "q1");
    assert_eq!(history[4].content, "a2");
}

#[test]
fn one_off_plans_check_allowance_and_model() {
    let gpt = test_gpt();
    let ledger = AllowanceLedger::new();
    let mut settings = UserSettingsStore::new();
    match plan_one_off(&gpt, &ledger, &mut settings, 1, false, "sys", "input", Some("big"), NOW) {
        OneOffPlan::Call { history, model } => {
            assert_eq!(model.name(), "big");
            assert_eq!(history.len(), 2);
            assert_eq!(history[0].content, "sys");
            assert_eq!(history[1].content, "input");
        },
        _ => panic!("expected a call plan"),
    }
    let unknown =
        plan_one_off(&gpt, &ledger, &mut settings, 1, false, "sys", "input", Some("gone"), NOW);
    assert!(matches!(unknown, OneOffPlan::UnknownModel));
    // Without a command override the user's one-shot setting decides.
    settings.set_model(1, Some(String::from("big")));
    match plan_one_off(&gpt, &ledger, &mut settings, 1, false, "sys", "input", None, NOW) {
        OneOffPlan::Call { model, .. } => assert_eq!(model.name(), "big"),
        _ => panic!("expected a call plan"),
    }
    assert_eq!(settings.get_model_setting(1), None);
}

#[test]
fn finish_reason_annotations() {
    assert_eq!(ending_from_finish_reason("stop"), "");
    assert_eq!(ending_from_finish_reason("length"), "\u{2026}");
    assert_eq!(ending_from_finish_reason("content_filter"), " \\\u{1f64a}");
    assert_eq!(ending_from_finish_reason("function_call"), "\u{2047}");
    assert_eq!(ending_from_finish_reason(""), "\u{2047}");
}

#[test]
fn reply_formatting_matches_the_documented_shape() {
    let choice = MessageChoice {
        message: ChatMessage {
            role: Role::Assistant,
            content: String::from("Hello."),
        },
        finish_reason: String::from("stop"),
        index: 0,
    };
    let cost = Allowance::Nanodollars(250_000);
    let allowance = Allowance::Nanodollars(39_950_000);
    let gpt4 = model("gpt-4", "GPT-4", 2000, 8000);
    assert_eq!(
        format_chat_message(&choice, "\u{1f916}", cost, allowance, Some(&gpt4)),
        "\u{1f916} Hello. (-0.25 m$, 39.95 m$) (GPT-4)"
    );
    assert_eq!(
        format_chat_message(&choice, "\u{1f916}", cost, allowance, None),
        "\u{1f916} Hello. (-0.25 m$, 39.95 m$)"
    );
    let cut = MessageChoice {
        message: ChatMessage { role: Role::Assistant, content: String::from("Long") },
        finish_reason: String::from("length"),
        index: 0,
    };
    assert_eq!(
        format_chat_message(&cut, "\u{1f4dd}", cost, Allowance::Infinite, None),
        "\u{1f4dd} Long\u{2026} (-0.25 m$, \u{221e})"
    );
}

#[test]
fn model_cost_formulas_and_descriptions() {
    let m = model("big", "Big", 2000, 8000);
    assert_eq!(m.get_cost(usage(1000, 250)), 2000 * 1000 + 8000 * 250);
    assert_eq!(m.get_cost(usage(0, 0)), 0);
    assert_eq!(
        m.get_cost_description(),
        "2$ per 1M input tokens, 8$ per 1M output tokens"
    );
    assert_eq!(m.get_brief_cost_description(), "2$/1M in, 8$/1M out");
    let fractional = model("mini", "Mini", 375, 1500);
    assert_eq!(
        fractional.get_cost_description(),
        "0.375$ per 1M input tokens, 1.5$ per 1M output tokens"
    );
    assert_eq!(fractional.api_version(), 2);
}

#[test]
fn the_clock_stays_inside_the_horizon() {
    let a = current_time_millis();
    let b = current_time_millis();
    assert!(a <= chat_relay::allowances::MAX_TIME_MS);
    assert!(b <= chat_relay::allowances::MAX_TIME_MS);
    // The clock moved forward (or stood still) across two adjacent reads,
    // and a real clock reads after the epoch.
    assert!(a <= b);
    assert!(a > 0);
}
