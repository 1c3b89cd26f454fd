use chat_relay::gpt::{ConfigError, Gpt, GptModel};
use chat_relay::response_styles::{extract_custom, wrap_custom, Personality, PersonalityPreset};
use chat_relay::user_settings::{
    has_any_role, set_custom_personality, set_model_decision, set_personality_decision,
    UserSettingsStore,
};

fn preset(name: &str) -> PersonalityPreset {
    PersonalityPreset::new(
        String::from(name),
        String::from("\u{1f916}"),
        format!("you are {}", name),
    )
}

fn model(name: &str, friendly: &str, input: u32, output: u32) -> GptModel {
    GptModel::new(String::from(name), String::from(friendly), input, output, 1)
}

fn test_gpt() -> Gpt {
    Gpt::new(
        2_500_000,
        4_000,
        vec![model("gpt-4.1-mini", "Mini", 400, 1600), model("gpt-4.1", "Big", 2000, 8000)],
        vec![model("gpt-4o-search-preview", "Search", 2500, 10000)],
        vec![preset("robot"), preset("poet")],
        vec![],
        vec![7, 8],
    )
    .unwrap()
}

#[test]
fn custom_wrapper_round_trips() {
    let message = "Answer in haiku form.";
    let stored = wrap_custom(message);
    assert_eq!(stored, "custom(Answer in haiku form.)");
    assert_eq!(extract_custom(&stored), Some(message));
    assert_eq!(extract_custom("robot"), None);
    assert_eq!(extract_custom("custom"), None);
    assert_eq!(extract_custom("custom("), None);
    assert_eq!(extract_custom("custom()"), Some(""));
}

#[test]
fn custom_personality_round_trips_through_storage() {
    let gpt = test_gpt();
    let mut settings = UserSettingsStore::new();
    let message = "Speak like a pirate.";
    set_custom_personality(&mut settings, 1, message);
    let stored = settings.get_user_personality(1).unwrap();
    let personality = gpt.get_personality_by_name(&stored).unwrap();
    assert_eq!(personality.system_message(), message);
    // Its display name is the reserved word, distinct from every preset.
    assert_eq!(personality.name(), "custom");
    for p in gpt.personalities() {
        assert_ne!(personality.name(), p.name());
        assert_ne!(personality.database_name(), p.name());
    }
}

#[test]
fn personality_accessors() {
    let p = preset("robot");
    assert_eq!(p.name(), "robot");
    assert_eq!(p.emoji(), "\u{1f916}");
    assert_eq!(p.system_message(), "you are robot");
    let as_preset = Personality::Preset(&p);
    assert_eq!(as_preset.name(), "robot");
    assert_eq!(as_preset.database_name(), "robot");
    assert_eq!(as_preset.emoji(), "\u{1f916}");
    assert_eq!(as_preset.system_message(), "you are robot");
    let custom = Personality::Custom(String::from("be nice"));
    assert_eq!(custom.name(), "custom");
    assert_eq!(custom.database_name(), "custom(be nice)");
    assert_eq!(custom.emoji(), "\u{1f4dd}");
    assert_eq!(custom.system_message(), "be nice");
}

#[test]
fn configuration_invariants_are_fatal_at_startup() {
    assert!(matches!(
        Gpt::new(1, 1, vec![], vec![], vec![preset("a")], vec![], vec![]),
        Err(ConfigError::NoModels)
    ));
    assert!(matches!(
        Gpt::new(1, 1, vec![model("m", "M", 1, 1)], vec![], vec![], vec![], vec![]),
        Err(ConfigError::NoPersonalities)
    ));
    assert!(matches!(
        Gpt::new(
            1,
            1,
            vec![model("m", "M", 1, 1)],
            vec![],
            vec![preset("a"), preset("custom(b)")],
            vec![],
            vec![]
        ),
        Err(ConfigError::ReservedPersonalityName)
    ));
    assert!(matches!(
        Gpt::new(
            0,
            1,
            vec![model("m", "M", 1, 1)],
            vec![],
            vec![preset("a")],
            vec![],
            vec![]
        ),
        Err(ConfigError::InvalidRate)
    ));
    assert!(Gpt::new(
        2_500_000,
        4_000,
        vec![model("m", "M", 1, 1)],
        vec![],
        vec![preset("a")],
        vec![],
        vec![]
    )
    .is_ok());
}

#[test]
fn model_lookup_covers_search_models_and_misses() {
    let gpt = test_gpt();
    assert_eq!(gpt.get_model_by_name("gpt-4.1").unwrap().friendly_name(), "Big");
    assert_eq!(
        gpt.get_model_by_name("gpt-4o-search-preview").unwrap().friendly_name(),
        "Search"
    );
    assert!(gpt.get_model_by_name("gone").is_none());
    assert_eq!(gpt.default_model().name(), "gpt-4.1-mini");
    assert_eq!(gpt.default_personality().name(), "robot");
}

#[test]
fn one_shot_model_override_is_consumed_on_read() {
    let mut settings = UserSettingsStore::new();
    settings.set_model(1, Some(String::from("gpt-4.1")));
    assert_eq!(settings.get_model_setting(1), Some(String::from("gpt-4.1")));
    // A plain read does not consume.
    assert_eq!(settings.get_model_setting(1), Some(String::from("gpt-4.1")));
    // A consuming read clears it.
    assert_eq!(settings.consume_model_setting(1), Some(String::from("gpt-4.1")));
    assert_eq!(settings.get_model_setting(1), None);
    assert_eq!(settings.consume_model_setting(1), None);
}

#[test]
fn sticky_personality_survives_model_changes() {
    let mut settings = UserSettingsStore::new();
    settings.set_personality(1, Some(String::from("poet")));
    settings.set_model(1, Some(String::from("gpt-4.1")));
    settings.consume_model_setting(1);
    assert_eq!(settings.get_user_personality(1), Some(String::from("poet")));
    // Another user's row is untouched.
    assert_eq!(settings.get_user_personality(2), None);
}

#[test]
fn set_model_decision_replies_and_stores() {
    let gpt = test_gpt();
    let mut settings = UserSettingsStore::new();
    // Unknown model: refused, nothing stored.
    assert!(set_model_decision(&mut settings, &gpt, 1, "gone").is_none());
    assert_eq!(settings.get_model_setting(1), None);
    // Choosing the default model again: already set, nothing stored.
    let reply = set_model_decision(&mut settings, &gpt, 1, "gpt-4.1-mini").unwrap();
    assert_eq!(
        reply,
        "Model was already set to Mini (0.4$ per 1M input tokens, 1.6$ per 1M output tokens)."
    );
    assert_eq!(settings.get_model_setting(1), None);
    // Choosing another model stores the override.
    let reply = set_model_decision(&mut settings, &gpt, 1, "gpt-4.1").unwrap();
    assert_eq!(
        reply,
        "Model for your future prompts set to Big (2$ per 1M input tokens, 8$ per 1M output tokens)."
    );
    assert_eq!(settings.get_model_setting(1), Some(String::from("gpt-4.1")));
    // Choosing the default clears the override.
    let reply = set_model_decision(&mut settings, &gpt, 1, "gpt-4.1-mini").unwrap();
    assert!(reply.starts_with("Model for your future prompts set to Mini"));
    assert_eq!(settings.get_model_setting(1), None);
}

#[test]
fn set_personality_decision_replies_and_stores() {
    let mut settings = UserSettingsStore::new();
    let reply = set_personality_decision(&mut settings, 1, Some("poet"));
    assert_eq!(reply, "Personality for future new conversations set to poet.");
    assert_eq!(settings.get_user_personality(1), Some(String::from("poet")));
    let reply = set_personality_decision(&mut settings, 1, Some("poet"));
    assert_eq!(reply, "The personality is already set to that.");
    let reply = set_personality_decision(&mut settings, 1, None);
    assert_eq!(reply, "Personality for future new conversations reset to default.");
    assert_eq!(settings.get_user_personality(1), None);
}

#[test]
fn role_gate_for_prototyping() {
    let allowed = vec![7u64, 8];
    assert!(has_any_role(&allowed, &vec![1, 8, 3]));
    assert!(!has_any_role(&allowed, &vec![1, 2, 3]));
    assert!(!has_any_role(&allowed, &vec![]));
    assert!(!has_any_role(&vec![], &vec![7]));
}
