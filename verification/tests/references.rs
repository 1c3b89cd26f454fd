use chat_relay::conversations::{ConversationStore, MessageIds};
use chat_relay::references::{
    extract_message_link, probe_link, resolve_foreign_link, resolve_reply_reference,
    strip_mention, LinkProbe, LinkResolution, ReferencedMessage,
};

fn mentions() -> Vec<String> {
    vec![String::from("<@111>"), String::from("<@!111>")]
}

#[test]
fn mention_at_the_start_is_stripped_and_trimmed() {
    assert_eq!(strip_mention("<@111> hello", &mentions()), Some("hello"));
    assert_eq!(strip_mention("<@!111>  hi there ", &mentions()), Some("hi there"));
}

#[test]
fn mention_at_the_end_is_stripped_too() {
    assert_eq!(strip_mention("hello <@111>", &mentions()), Some("hello"));
}

#[test]
fn mention_in_the_middle_does_not_count() {
    assert_eq!(strip_mention("hello <@111> there", &mentions()), None);
    assert_eq!(strip_mention("no mention at all", &mentions()), None);
}

#[test]
fn only_one_mention_is_removed() {
    assert_eq!(strip_mention("<@111> hi <@111>", &mentions()), Some("hi <@111>"));
    assert_eq!(strip_mention("<@111><@111>", &mentions()), Some("<@111>"));
}

#[test]
fn link_extraction_takes_ids_and_rest() {
    let r = extract_message_link("https://discord.com/channels/1/2/3 what is this");
    let (rest, ids) = r.unwrap();
    assert_eq!(rest, "what is this");
    assert_eq!(ids, MessageIds::new(1, 2, 3));
}

#[test]
fn link_extraction_accepts_known_subdomains() {
    let (rest, ids) =
        extract_message_link("https://ptb.discord.com/channels/10/20/30 x").unwrap();
    assert_eq!(rest, "x");
    assert_eq!(ids, MessageIds::new(10, 20, 30));
    let (_, ids2) =
        extract_message_link("https://canary.discord.com/channels/4/5/6 y").unwrap();
    assert_eq!(ids2, MessageIds::new(4, 5, 6));
}

#[test]
fn link_extraction_rejects_malformed_links() {
    // No trailing space with text.
    assert!(extract_message_link("https://discord.com/channels/1/2/3").is_none());
    // A zero id is not a message.
    assert!(extract_message_link("https://discord.com/channels/0/2/3 x").is_none());
    // Too few sections.
    assert!(extract_message_link("https://discord.com/channels/1/2 x").is_none());
    // Stray characters inside the ids.
    assert!(extract_message_link("https://discord.com/channels/1/2a/3 x").is_none());
    // The link must stand at the very start.
    assert!(extract_message_link("see https://discord.com/channels/1/2/3 x").is_none());
}

#[test]
fn probing_a_link_asks_the_store() {
    let mut store = ConversationStore::new();
    store.record_root(
        MessageIds::new(1, 2, 3),
        String::from("q"),
        String::from("a"),
        None,
    );
    match probe_link(&store, "https://discord.com/channels/1/2/3 continue") {
        LinkProbe::OwnLink(ids, rest) => {
            assert_eq!(ids, MessageIds::new(1, 2, 3));
            assert_eq!(rest, "continue");
        },
        _ => panic!("expected an own link"),
    }
    match probe_link(&store, "https://discord.com/channels/1/2/9 look") {
        LinkProbe::ForeignLink(ids, rest) => {
            assert_eq!(ids, MessageIds::new(1, 2, 9));
            assert_eq!(rest, "look");
        },
        _ => panic!("expected a foreign link"),
    }
    assert!(matches!(probe_link(&store, "plain text"), LinkProbe::NoLink));
}

#[test]
fn reply_to_own_message_continues_with_text_unchanged() {
    let reference = resolve_reply_reference(1, 2, 3, true, None).unwrap();
    let (parent, content) = reference
        .get_parent_and_content("continue please", &mentions())
        .unwrap();
    assert_eq!(parent, Some(MessageIds::new(1, 2, 3)));
    assert_eq!(content, "continue please");
}

#[test]
fn reply_to_someone_else_quotes_their_text() {
    let reference =
        resolve_reply_reference(1, 2, 3, false, Some(String::from("42"))).unwrap();
    let (parent, content) = reference
        .get_parent_and_content("<@111> why", &mentions())
        .unwrap();
    assert_eq!(parent, None);
    assert_eq!(content, "why \"42\"");
}

#[test]
fn reply_without_mention_is_not_addressed_to_the_bot() {
    let reference =
        resolve_reply_reference(1, 2, 3, false, Some(String::from("42"))).unwrap();
    assert!(reference
        .get_parent_and_content("just chatting", &mentions())
        .is_none());
}

#[test]
fn empty_reply_recycles_the_quoted_text() {
    let reference = resolve_reply_reference(
        1,
        2,
        3,
        false,
        Some(String::from("<@111> older question")),
    )
    .unwrap();
    let (parent, content) = reference
        .get_parent_and_content("<@111>", &mentions())
        .unwrap();
    assert_eq!(parent, None);
    assert_eq!(content, "older question");
}

#[test]
fn empty_reply_to_empty_quote_is_dropped() {
    let reference =
        resolve_reply_reference(1, 2, 3, false, Some(String::from("<@111>"))).unwrap();
    assert!(reference.get_parent_and_content("<@111>", &mentions()).is_none());
}

#[test]
fn unfetchable_reply_target_drops_the_event() {
    assert!(resolve_reply_reference(1, 2, 3, false, None).is_none());
    assert!(resolve_reply_reference(1, 2, 3, false, Some(String::new())).is_none());
}

#[test]
fn mention_only_message_is_ignored() {
    let (parent, content) = ReferencedMessage::Unreferenced
        .get_parent_and_content("<@111> hello", &mentions())
        .unwrap();
    assert_eq!(parent, None);
    assert_eq!(content, "hello");
    assert!(ReferencedMessage::Unreferenced
        .get_parent_and_content("<@111>", &mentions())
        .is_none());
}

#[test]
fn unfetchable_link_falls_back_to_the_full_text() {
    // The fetch failed: the event proceeds as if no link were present, on
    // the full original text with the usual mention rules.
    let outcome = resolve_foreign_link(1, String::from("rest"), None);
    assert!(matches!(outcome, LinkResolution::Unlinked));
    let full_text = "<@111> https://discord.com/channels/1/2/9 look";
    let (parent, content) = ReferencedMessage::Unreferenced
        .get_parent_and_content(full_text, &mentions())
        .unwrap();
    assert_eq!(parent, None);
    assert_eq!(content, "https://discord.com/channels/1/2/9 look");
}

#[test]
fn fetched_link_target_becomes_quoted_context() {
    let outcome = resolve_foreign_link(
        1,
        String::from("<@111> what does it say"),
        Some((7, 9, false, String::from("the text"))),
    );
    match outcome {
        LinkResolution::Linked(reference, rest) => {
            let (parent, content) =
                reference.get_parent_and_content(rest.as_str(), &mentions()).unwrap();
            assert_eq!(parent, None);
            assert_eq!(content, "what does it say \"the text\"");
        },
        _ => panic!("expected quoted context"),
    }
    // A fetched message the bot itself wrote should have been in the store:
    // the event is dropped.
    let own = resolve_foreign_link(1, String::from("x"), Some((7, 9, true, String::new())));
    assert!(matches!(own, LinkResolution::Dropped));
}

#[test]
fn cross_guild_and_cross_channel_rules() {
    let same = ReferencedMessage::Own(MessageIds::new(1, 2, 3));
    assert!(same.is_allowed_to_be_replied_to(1, 2, false));
    // Cross-channel needs view access.
    assert!(!same.is_allowed_to_be_replied_to(1, 5, false));
    assert!(same.is_allowed_to_be_replied_to(1, 5, true));
    // Cross-guild is never allowed.
    assert!(!same.is_allowed_to_be_replied_to(9, 2, true));
    // No reference: always allowed.
    assert!(ReferencedMessage::Unreferenced.is_allowed_to_be_replied_to(9, 9, false));
}

#[test]
fn link_ids_too_large_for_the_id_space_are_no_link() {
    // Twenty-five digits cannot be a platform id.
    assert!(extract_message_link(
        "https://discord.com/channels/9999999999999999999999999/2/3 x"
    )
    .is_none());
    // The largest representable id still works.
    let (_, ids) = extract_message_link(
        "https://discord.com/channels/18446744073709551615/2/3 x",
    )
    .unwrap();
    assert_eq!(ids.guild_id, u64::MAX);
}

#[test]
fn both_mention_forms_are_recognized() {
    assert_eq!(strip_mention("hi <@!111>", &mentions()), Some("hi"));
    // The first matching mention in order wins; only it is removed.
    assert_eq!(strip_mention("<@!111> <@111>", &mentions()), Some("<@111>"));
}
