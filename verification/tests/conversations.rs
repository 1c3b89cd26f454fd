use chat_relay::conversations::{ConversationStore, MessageIds, DEPTH_LIMIT};
use chat_relay::gpt::Role;

fn ids(message_id: u64) -> MessageIds {
    MessageIds::new(10, 20, message_id)
}

/// A store holding one linear thread of `n` nodes with message ids
/// `1..=n`, each node `k` (for `k > 1`) a child of node `k - 1`.
fn chain_store(n: u64) -> ConversationStore {
    let mut store = ConversationStore::new();
    for k in 1..=n {
        let input = format!("question {}", k);
        let output = format!("answer {}", k);
        if k == 1 {
            store.record_root(ids(k), input, output, None);
        } else {
            store.record_child(ids(k), ids(k - 1), input, output, None);
        }
    }
    store
}

#[test]
fn unknown_parent_gives_only_the_system_message() {
    let store = chain_store(3);
    let history = store.reconstruct_history(ids(999), String::from("be brief"));
    assert_eq!(history.len(), 1);
    assert!(matches!(history[0].role, Role::System));
    assert_eq!(history[0].content, "be brief");
}

#[test]
fn same_id_in_another_channel_is_not_the_same_message() {
    let store = chain_store(3);
    let elsewhere = MessageIds::new(10, 21, 2);
    let history = store.reconstruct_history(elsewhere, String::from("sys"));
    assert_eq!(history.len(), 1);
}

#[test]
fn root_node_reconstructs_to_three_messages() {
    let store = chain_store(1);
    let history = store.reconstruct_history(ids(1), String::from("sys"));
    assert_eq!(history.len(), 3);
    assert!(matches!(history[0].role, Role::System));
    assert_eq!(history[0].content, "sys");
    assert!(matches!(history[1].role, Role::User));
    assert_eq!(history[1].content, "question 1");
    assert!(matches!(history[2].role, Role::Assistant));
    assert_eq!(history[2].content, "answer 1");
}

#[test]
fn chain_of_n_nodes_gives_one_plus_two_n_messages_in_order() {
    let n = 5u64;
    let store = chain_store(n);
    let history = store.reconstruct_history(ids(n), String::from("sys"));
    assert_eq!(history.len(), (1 + 2 * n) as usize);
    assert!(matches!(history[0].role, Role::System));
    for k in 0..n as usize {
        assert!(matches!(history[1 + 2 * k].role, Role::User));
        assert_eq!(history[1 + 2 * k].content, format!("question {}", k + 1));
        assert!(matches!(history[2 + 2 * k].role, Role::Assistant));
        assert_eq!(history[2 + 2 * k].content, format!("answer {}", k + 1));
    }
}

#[test]
fn long_chains_are_truncated_to_the_depth_limit_keeping_the_newest() {
    let n = 25u64;
    assert!(n as usize > DEPTH_LIMIT);
    let store = chain_store(n);
    let history = store.reconstruct_history(ids(n), String::from("sys"));
    assert_eq!(history.len(), 1 + 2 * DEPTH_LIMIT);
    // The oldest five exchanges fell off: the first emitted pair is number 6.
    assert_eq!(history[1].content, "question 6");
    assert_eq!(history[2].content, "answer 6");
    // The newest exchange is last.
    assert_eq!(history[2 * DEPTH_LIMIT].content, format!("answer {}", n));
}

#[test]
fn reconstructing_a_middle_node_ignores_its_descendants() {
    let store = chain_store(4);
    let history = store.reconstruct_history(ids(2), String::from("sys"));
    assert_eq!(history.len(), 5);
    assert_eq!(history[3].content, "question 2");
    assert_eq!(history[4].content, "answer 2");
}

#[test]
fn personality_tags_are_single_row_lookups() {
    let mut store = ConversationStore::new();
    store.record_root(
        ids(1),
        String::from("q"),
        String::from("a"),
        Some(String::from("custom(speak like a pirate)")),
    );
    store.record_child(ids(2), ids(1), String::from("q2"), String::from("a2"), None);
    assert_eq!(
        store.get_message_personality(ids(1)),
        Some(String::from("custom(speak like a pirate)"))
    );
    assert_eq!(store.get_message_personality(ids(2)), None);
    assert_eq!(store.get_message_personality(ids(3)), None);
}

#[test]
fn is_own_message_checks_the_store() {
    let store = chain_store(2);
    assert!(store.is_own_message(1));
    assert!(store.is_own_message(2));
    assert!(!store.is_own_message(3));
}

#[test]
fn message_ids_convert_to_signed_storage_form() {
    let m = MessageIds::new(1, 2, 3);
    assert_eq!(m.as_i64s(), (1, 2, 3));
    let top = MessageIds::new(u64::MAX, 2, 3);
    assert_eq!(top.as_i64s().0, -1);
}
