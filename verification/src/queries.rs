//! The query orchestrator: the decisions that tie allowance, settings,
//! personalities and the conversation graph together for one inbound event.
//! Outside work (the completion call, message delivery) happens between
//! these functions: the caller checks the plan, performs the call, settles
//! the cost, sends the reply, and records the new node.

use vstd::prelude::*;

use crate::allowances::{
    allowance_and_max, spec_balance, spec_effective, spec_max_balance, Allowance,
    AllowanceLedger, MAX_TIME_MS, spec_allowance_text,
};
use crate::conversations::{
    spec_has_full, spec_has_node, spec_index_of, spec_visible_chain, ConversationNode,
    ConversationStore, MessageIds,
};
use crate::gpt::{spec_find_model, spec_find_personality, ChatMessage, Gpt, GptModel, Role};
use crate::response_styles::{custom_contents, is_custom_wrapped, Personality};
use crate::user_settings::UserSettingsStore;

verus! {

/// How a stored personality tag (or its absence) resolves against the
/// configuration: the reserved custom form decodes to a custom personality;
/// a preset name resolves to its preset; anything else — including a stored
/// name no longer configured — falls back to the default preset.
pub open spec fn spec_personality_resolution<'a>(
    gpt: &Gpt,
    stored: Option<String>,
    r: Personality<'a>,
) -> bool {
    match stored {
        Some(s) => if is_custom_wrapped(s@) {
            r matches Personality::Custom(m) && m@ == custom_contents(s@)
        } else {
            match spec_find_personality(gpt.spec_personalities(), s@) {
                Some(found) => r matches Personality::Preset(p) && *p == found,
                None => r matches Personality::Preset(p) && *p == gpt.spec_personalities()[0],
            }
        },
        None => r matches Personality::Preset(p) && *p == gpt.spec_personalities()[0],
    }
}

/// Resolve a stored tag to a personality, falling back to the default
/// preset when the tag is absent or no longer configured.
fn personality_from_tag<'a>(gpt: &'a Gpt, stored: Option<String>) -> (r: Personality<'a>)
    requires
        gpt.wf(),
    ensures
        spec_personality_resolution(gpt, stored, r),
{
    match stored {
        Some(s) => match gpt.get_personality_by_name(s.as_str()) {
            Some(p) => p,
            None => Personality::Preset(gpt.default_personality()),
        },
        None => Personality::Preset(gpt.default_personality()),
    }
}

/// Start a new conversation: the user's sticky personality (or the default)
/// provides the system message, and the history is that system message
/// followed by the prompt.
pub fn start_conversation<'a>(
    gpt: &'a Gpt,
    settings: &UserSettingsStore,
    user: u64,
    input: &str,
) -> (r: (Vec<ChatMessage>, Personality<'a>))
    requires
        gpt.wf(),
    ensures
        spec_personality_resolution(gpt, settings.spec_personality(user), r.1),
        r.0@.len() == 2,
        r.0@[0].role == Role::System,
        r.0@[0].content@ == r.1.spec_system_message(),
        r.0@[1].role == Role::User,
        r.0@[1].content@ == input@,
{
    let personality = personality_from_tag(gpt, settings.get_user_personality(user));
    let system_text: String = personality.system_message().to_owned();
    let mut history: Vec<ChatMessage> = Vec::new();
    history.push(ChatMessage::system(system_text));
    history.push(ChatMessage::user(input.to_owned()));
    (history, personality)
}

/// The stored node a continuation hangs off: meaningful when the store has
/// a node with the parent's full identity.
pub open spec fn spec_parent_node(nodes: Seq<ConversationNode>, parent: MessageIds)
    -> ConversationNode {
    nodes[spec_index_of(nodes, parent.message_id)]
}

/// Attempt to continue an existing conversation from a reply: the parent
/// node's stored tag (or the default) provides the personality, the stored
/// chain provides the history, and the prompt is appended as the newest
/// user turn. Returns `None` — the caller abandons the continuation — when
/// the store has no node with the parent's identity, which most typically
/// happens when replying to a bot message that was not a completion reply.
pub fn continue_conversation<'a>(
    gpt: &'a Gpt,
    convs: &ConversationStore,
    parent: MessageIds,
    input: &str,
) -> (r: Option<(Vec<ChatMessage>, Personality<'a>)>)
    requires
        gpt.wf(),
        convs.wf(),
    ensures
        match r {
            None => !spec_has_full(convs.nodes(), parent),
            Some((history, personality)) => {
                &&& spec_has_full(convs.nodes(), parent)
                &&& spec_personality_resolution(
                    gpt,
                    spec_parent_node(convs.nodes(), parent).personality,
                    personality,
                )
                &&& history@.len() == 2 + 2 * spec_visible_chain(convs.nodes(), parent).len()
                &&& crate::conversations::spec_history_ok(
                    history@.drop_last(),
                    spec_visible_chain(convs.nodes(), parent),
                    personality.spec_system_message(),
                )
                &&& history@.last().role == Role::User
                &&& history@.last().content@ == input@
            },
        },
{
    let tag = convs.get_message_personality(parent);
    let ghost tag_snapshot = tag;
    let personality = personality_from_tag(gpt, tag);
    let system_text: String = personality.system_message().to_owned();
    let mut history = convs.reconstruct_history(parent, system_text);
    if history.len() == 1 {
        proof {
            if spec_has_full(convs.nodes(), parent) {
                crate::conversations::lemma_chain_len_positive(
                    convs.nodes(),
                    spec_index_of(convs.nodes(), parent.message_id),
                );
            }
        }
        return None;
    }
    proof {
        assert(spec_has_full(convs.nodes(), parent));
        let nodes = convs.nodes();
        let node = spec_parent_node(nodes, parent);
        lemma_parent_node_unique(nodes, parent);
        match tag_snapshot {
            Some(t) => {
                assert(node.personality matches Some(stored) && stored@ == t@);
                assert(spec_personality_resolution(gpt, node.personality, personality));
            },
            None => {
                assert(node.personality is None);
            },
        }
    }
    let ghost before = history@;
    history.push(ChatMessage::user(input.to_owned()));
    proof {
        assert(history@.drop_last() =~= before);
    }
    Some((history, personality))
}

/// In a well-formed store, the node indexed by a full identity's message id
/// is the one node carrying that identity.
proof fn lemma_parent_node_unique(nodes: Seq<ConversationNode>, parent: MessageIds)
    requires
        crate::conversations::nodes_unique(nodes),
        spec_has_full(nodes, parent),
    ensures
        spec_has_node(nodes, parent.message_id),
        0 <= spec_index_of(nodes, parent.message_id) < nodes.len(),
        spec_parent_node(nodes, parent).ids == parent,
        forall|i: int|
            0 <= i < nodes.len() && (#[trigger] nodes[i]).ids == parent ==> i == spec_index_of(
                nodes,
                parent.message_id,
            ),
{
    let w = choose|i: int| 0 <= i < nodes.len() && nodes[i].ids == parent;
    assert(nodes[w].ids.message_id == parent.message_id);
    let v = spec_index_of(nodes, parent.message_id);
    assert(0 <= v < nodes.len() && nodes[v].ids.message_id == parent.message_id);
    if v != w {
        assert(false);
    }
    assert forall|i: int|
        0 <= i < nodes.len() && (#[trigger] nodes[i]).ids == parent implies i == v by {
        if i != v {
            assert(nodes[i].ids.message_id == nodes[v].ids.message_id);
        }
    }
}

/// Consume the user's one-shot model override and resolve it: the override's
/// model if it is still configured, else the default model. The override is
/// used up by this read, whether or not the attempt it serves succeeds.
pub fn resolve_model<'a>(gpt: &'a Gpt, settings: &mut UserSettingsStore, user: u64) -> (r:
    &'a GptModel)
    requires
        gpt.wf(),
        old(settings).wf(),
    ensures
        final(settings).wf(),
        final(settings).spec_model(user) is None,
        final(settings).spec_personality(user) == old(settings).spec_personality(user),
        forall|v: u64| v != user ==> final(settings).row(v) == old(settings).row(v),
        match old(settings).spec_model(user) {
            Some(name) => match spec_find_model(
                gpt.spec_models() + gpt.spec_search_models(),
                name@,
            ) {
                Some(m) => *r == m,
                None => *r == gpt.spec_models()[0],
            },
            None => *r == gpt.spec_models()[0],
        },
{
    match settings.consume_model_setting(user) {
        Some(name) => match gpt.get_model_by_name(name.as_str()) {
            Some(m) => m,
            None => gpt.default_model(),
        },
        None => gpt.default_model(),
    }
}

/// What the orchestrator decided for one inbound event, before any outside
/// call is made.
pub enum QueryPlan<'a> {
    /// The user's allowance refuses the operation: report and stop.
    OutOfAllowance { allowance: Allowance, max_allowance: Allowance },
    /// The event continued a message that holds no real history: drop it.
    NoHistory,
    /// Send this history to this model, and decorate the reply with this
    /// personality.
    Call { history: Vec<ChatMessage>, model: &'a GptModel, personality: Personality<'a> },
}

/// Decide one query end-to-end up to the completion call: check the
/// allowance, resolve the thread (or start one), resolve the personality,
/// and consume and resolve the model override.
pub fn plan_query<'a>(
    gpt: &'a Gpt,
    ledger: &AllowanceLedger,
    settings: &mut UserSettingsStore,
    convs: &ConversationStore,
    user: u64,
    is_allowance_infinite: bool,
    input: &str,
    parent: Option<MessageIds>,
    now: u64,
) -> (r: QueryPlan<'a>)
    requires
        gpt.wf(),
        ledger.wf(),
        old(settings).wf(),
        convs.wf(),
        now <= MAX_TIME_MS,
    ensures
        final(settings).wf(),
        ({
            let daily = gpt.spec_daily_allowance();
            let md = gpt.spec_accrual_millidays();
            let balance = spec_balance(
                spec_effective(ledger.account(user), now),
                now as int,
                daily as int,
                md as int,
            );
            if !is_allowance_infinite && balance <= 0 {
                &&& r matches QueryPlan::OutOfAllowance { allowance, max_allowance }
                &&& (r matches QueryPlan::OutOfAllowance { allowance, max_allowance } ==> allowance
                    == Allowance::Nanodollars(balance as i64) && max_allowance
                    == Allowance::Nanodollars(
                    spec_max_balance(daily as int, md as int) as i64,
                ))
                &&& *final(settings) == *old(settings)
            } else if parent matches Some(p) && !spec_has_full(convs.nodes(), p) {
                &&& r is NoHistory
                &&& *final(settings) == *old(settings)
            } else {
                &&& r matches QueryPlan::Call { history, model, personality }
                &&& (r matches QueryPlan::Call { history, model, personality } ==> {
                    &&& (match old(settings).spec_model(user) {
                        Some(name) => match spec_find_model(
                            gpt.spec_models() + gpt.spec_search_models(),
                            name@,
                        ) {
                            Some(m) => *model == m,
                            None => *model == gpt.spec_models()[0],
                        },
                        None => *model == gpt.spec_models()[0],
                    })
                    &&& final(settings).spec_model(user) is None
                    &&& final(settings).spec_personality(user) == old(settings).spec_personality(
                        user,
                    )
                    &&& forall|v: u64|
                        v != user ==> final(settings).row(v) == old(settings).row(v)
                    &&& (match parent {
                        Some(p) => {
                            &&& spec_personality_resolution(
                                gpt,
                                spec_parent_node(convs.nodes(), p).personality,
                                personality,
                            )
                            &&& history@.len() == 2 + 2 * spec_visible_chain(convs.nodes(), p).len()
                            &&& crate::conversations::spec_history_ok(
                                history@.drop_last(),
                                spec_visible_chain(convs.nodes(), p),
                                personality.spec_system_message(),
                            )
                            &&& history@.last().role == Role::User
                            &&& history@.last().content@ == input@
                        },
                        None => {
                            &&& spec_personality_resolution(
                                gpt,
                                old(settings).spec_personality(user),
                                personality,
                            )
                            &&& history@.len() == 2
                            &&& history@[0].role == Role::System
                            &&& history@[0].content@ == personality.spec_system_message()
                            &&& history@[1].role == Role::User
                            &&& history@[1].content@ == input@
                        },
                    })
                })
            }
        }),
{
    let daily = gpt.daily_allowance();
    let md = gpt.accrual_millidays();
    let (allowance, max_allowance) = allowance_and_max(
        ledger,
        user,
        daily,
        md,
        is_allowance_infinite,
        now,
    );
    proof {
        ledger.lemma_account_in_horizon(user);
        crate::allowances::lemma_balance_in_i64_range(ledger.account(user), now, daily, md);
    }
    if allowance.is_out() {
        return QueryPlan::OutOfAllowance { allowance, max_allowance };
    }
    let (history, personality) = match parent {
        Some(p) => {
            match continue_conversation(gpt, convs, p, input) {
                Some(values) => values,
                None => {
                    return QueryPlan::NoHistory;
                },
            }
        },
        None => start_conversation(gpt, settings, user, input),
    };
    let model = resolve_model(gpt, settings, user);
    QueryPlan::Call { history, model, personality }
}

/// The reply when the allowance refuses an operation.
pub open spec fn spec_out_of_allowance_text(allowance: Allowance, max_allowance: Allowance) -> Seq<
    char,
> {
    "You are out of allowance. ("@ + spec_allowance_text(allowance) + "/"@ + spec_allowance_text(
        max_allowance,
    ) + ")"@
}

pub fn out_of_allowance_text(allowance: Allowance, max_allowance: Allowance) -> (r: String)
    ensures
        r@ == spec_out_of_allowance_text(allowance, max_allowance),
{
    let mut s = String::from_str("You are out of allowance. (");
    let a = allowance.text();
    s.append(a.as_str());
    s.append("/");
    let m = max_allowance.text();
    s.append(m.as_str());
    s.append(")");
    s
}

/// Persist one completed exchange under the delivered reply's identity:
/// a root node for a fresh thread, or a child of the continued parent. The
/// personality is stored under its database name, so a custom system
/// message round-trips through its reserved wrapper.
pub fn record_exchange(
    convs: &mut ConversationStore,
    own: MessageIds,
    parent: Option<MessageIds>,
    input: &str,
    output: &str,
    personality: &Personality<'_>,
)
    requires
        old(convs).wf(),
        !spec_has_node(old(convs).nodes(), own.message_id),
        parent matches Some(p) ==> spec_has_node(old(convs).nodes(), p.message_id),
    ensures
        final(convs).wf(),
        final(convs).nodes().len() == old(convs).nodes().len() + 1,
        ({
            let node = final(convs).nodes().last();
            &&& final(convs).nodes().take(old(convs).nodes().len() as int) == old(convs).nodes()
            &&& node.ids == own
            &&& node.parent == match parent {
                Some(p) => Some(p.message_id),
                None => None::<u64>,
            }
            &&& node.input@ == input@
            &&& node.output@ == output@
            &&& node.personality matches Some(tag) && tag@ == personality.spec_database_name()
        }),
{
    let tag = Some(personality.database_name());
    match parent {
        Some(p) => {
            convs.record_child(own, p, input.to_owned(), output.to_owned(), tag);
        },
        None => {
            convs.record_root(own, input.to_owned(), output.to_owned(), tag);
        },
    }
    proof {
        assert(final(convs).nodes().take(old(convs).nodes().len() as int) =~= old(convs).nodes());
    }
}

/// What the orchestrator decided for one one-off command.
pub enum OneOffPlan<'a> {
    /// The user's allowance refuses the operation: report and stop.
    OutOfAllowance { allowance: Allowance, max_allowance: Allowance },
    /// The command names a model that is not configured: report and stop,
    /// never panic.
    UnknownModel,
    /// Send this two-message history to this model.
    Call { history: Vec<ChatMessage>, model: &'a GptModel },
}

/// Decide a one-off command up to the completion call: check the allowance
/// and resolve the model, preferring the command's own override and
/// otherwise consuming the user's one-shot override.
pub fn plan_one_off<'a>(
    gpt: &'a Gpt,
    ledger: &AllowanceLedger,
    settings: &mut UserSettingsStore,
    user: u64,
    is_allowance_infinite: bool,
    system_message: &str,
    input: &str,
    model_override: Option<&str>,
    now: u64,
) -> (r: OneOffPlan<'a>)
    requires
        gpt.wf(),
        ledger.wf(),
        old(settings).wf(),
        now <= MAX_TIME_MS,
    ensures
        final(settings).wf(),
        ({
            let daily = gpt.spec_daily_allowance();
            let md = gpt.spec_accrual_millidays();
            let balance = spec_balance(
                spec_effective(ledger.account(user), now),
                now as int,
                daily as int,
                md as int,
            );
            if !is_allowance_infinite && balance <= 0 {
                &&& r matches OneOffPlan::OutOfAllowance { allowance, max_allowance }
                &&& (r matches OneOffPlan::OutOfAllowance { allowance, max_allowance }
                    ==> allowance == Allowance::Nanodollars(balance as i64) && max_allowance
                    == Allowance::Nanodollars(spec_max_balance(daily as int, md as int) as i64))
                &&& *final(settings) == *old(settings)
            } else {
                match model_override {
                    Some(name) => match spec_find_model(
                        gpt.spec_models() + gpt.spec_search_models(),
                        name@,
                    ) {
                        Some(m) => {
                            &&& (r matches OneOffPlan::Call { history, model } ==> *model == m
                                && spec_one_off_history(history@, system_message@, input@))
                            &&& (r matches OneOffPlan::Call { history, model })
                            &&& *final(settings) == *old(settings)
                        },
                        None => r is UnknownModel && *final(settings) == *old(settings),
                    },
                    None => {
                        &&& r matches OneOffPlan::Call { history, model }
                        &&& (r matches OneOffPlan::Call { history, model } ==> {
                            &&& (match old(settings).spec_model(user) {
                                Some(name) => match spec_find_model(
                                    gpt.spec_models() + gpt.spec_search_models(),
                                    name@,
                                ) {
                                    Some(m) => *model == m,
                                    None => *model == gpt.spec_models()[0],
                                },
                                None => *model == gpt.spec_models()[0],
                            })
                            &&& spec_one_off_history(history@, system_message@, input@)
                            &&& final(settings).spec_model(user) is None
                            &&& final(settings).spec_personality(user) == old(
                                settings,
                            ).spec_personality(user)
                        })
                    },
                }
            }
        }),
{
    let daily = gpt.daily_allowance();
    let md = gpt.accrual_millidays();
    let (allowance, max_allowance) = allowance_and_max(
        ledger,
        user,
        daily,
        md,
        is_allowance_infinite,
        now,
    );
    proof {
        ledger.lemma_account_in_horizon(user);
        crate::allowances::lemma_balance_in_i64_range(ledger.account(user), now, daily, md);
    }
    if allowance.is_out() {
        return OneOffPlan::OutOfAllowance { allowance, max_allowance };
    }
    let model = match model_override {
        Some(name) => match gpt.get_model_by_name(name) {
            Some(m) => m,
            None => {
                return OneOffPlan::UnknownModel;
            },
        },
        None => resolve_model(gpt, settings, user),
    };
    let mut history: Vec<ChatMessage> = Vec::new();
    history.push(ChatMessage::system(system_message.to_owned()));
    history.push(ChatMessage::user(input.to_owned()));
    OneOffPlan::Call { history, model }
}

/// The two-message history of a one-off command: its fixed system message,
/// then the user's single input.
pub open spec fn spec_one_off_history(
    history: Seq<ChatMessage>,
    system_message: Seq<char>,
    input: Seq<char>,
) -> bool {
    &&& history.len() == 2
    &&& history[0].role == Role::System
    &&& history[0].content@ == system_message
    &&& history[1].role == Role::User
    &&& history[1].content@ == input
}

} // verus!
