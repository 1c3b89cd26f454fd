//! The conversation graph: one node per bot reply, keyed by the platform
//! message identity (guild, channel, message), each holding the prompt, the
//! response, an optional personality tag, and an optional parent reference.
//!
//! Parents always point at nodes stored strictly earlier, so the graph is a
//! forest of finite, acyclic chains. A reply reconstructs its thread by
//! walking parent links newest-to-oldest, capped at a fixed depth, and
//! reversing into a chronological, completion-ready history.

use vstd::prelude::*;

use crate::gpt::{ChatMessage, Role};

verus! {

/// The hard cutoff on how many stored exchanges one reconstructed history
/// may contain: caps both token cost and the length of the chain walk.
pub const DEPTH_LIMIT: usize = 20;

/// The platform identity of a message: guild, channel and message id
/// together, to disambiguate across the platform's namespace.
#[derive(Debug, Clone, Copy, PartialEq, Eq, Structural)]
pub struct MessageIds {
    pub guild_id: u64,
    pub channel_id: u64,
    pub message_id: u64,
}

impl MessageIds {
    pub fn new(guild_id: u64, channel_id: u64, message_id: u64) -> (r: Self)
        ensures
            r == (MessageIds { guild_id, channel_id, message_id }),
    {
        MessageIds { guild_id, channel_id, message_id }
    }

    /// How the identity is stored in a signed-integer database: guild id,
    /// channel id and message id, in that order.
    pub fn as_i64s(self) -> (r: (i64, i64, i64))
        ensures
            r == (self.guild_id as i64, self.channel_id as i64, self.message_id as i64),
    {
        (self.guild_id as i64, self.channel_id as i64, self.message_id as i64)
    }
}

/// One stored exchange: created exactly once, immediately after a reply is
/// delivered, and immutable thereafter.
#[derive(Debug, Clone)]
pub struct ConversationNode {
    pub ids: MessageIds,
    /// The message id of the parent node; `None` for a thread root.
    pub parent: Option<u64>,
    /// The user's prompt.
    pub input: String,
    /// The model's response.
    pub output: String,
    /// The personality tag stored with the node; `None` means "use the
    /// default at read time, not frozen."
    pub personality: Option<String>,
}

/// Whether some node carries this message id.
pub open spec fn spec_has_node(nodes: Seq<ConversationNode>, id: u64) -> bool {
    exists|i: int| 0 <= i < nodes.len() && nodes[i].ids.message_id == id
}

/// The index of the node carrying this message id (unique in a well-formed
/// store).
pub open spec fn spec_index_of(nodes: Seq<ConversationNode>, id: u64) -> int {
    choose|i: int| 0 <= i < nodes.len() && nodes[i].ids.message_id == id
}

/// Whether some node carries this full identity.
pub open spec fn spec_has_full(nodes: Seq<ConversationNode>, ids: MessageIds) -> bool {
    exists|i: int| 0 <= i < nodes.len() && nodes[i].ids == ids
}

/// Message ids name at most one node each.
pub open spec fn nodes_unique(nodes: Seq<ConversationNode>) -> bool {
    forall|i: int, j: int|
        0 <= i < j < nodes.len() ==> nodes[i].ids.message_id != nodes[j].ids.message_id
}

/// Every parent reference points at a node stored strictly earlier: the
/// graph is acyclic by construction.
pub open spec fn parents_precede(nodes: Seq<ConversationNode>) -> bool {
    forall|i: int|
        0 <= i < nodes.len() ==> match (#[trigger] nodes[i]).parent {
            Some(p) => exists|j: int| 0 <= j < i && nodes[j].ids.message_id == p,
            None => true,
        }
}

/// The chronological (prompt, response) chain ending at node `i`: the
/// node's own exchange, preceded by its ancestors' exchanges, oldest first.
pub open spec fn spec_chain(nodes: Seq<ConversationNode>, i: int) -> Seq<(Seq<char>, Seq<char>)>
    decreases i,
{
    let pair = (nodes[i].input@, nodes[i].output@);
    match nodes[i].parent {
        Some(p) => if spec_has_node(nodes, p) && 0 <= spec_index_of(nodes, p) < i {
            spec_chain(nodes, spec_index_of(nodes, p)).push(pair)
        } else {
            seq![pair]
        },
        None => seq![pair],
    }
}

/// What a reconstructed history must look like for a given visible chain:
/// the system message first, then one user/assistant pair per exchange,
/// oldest to newest.
/// Whether `history` lists, after its leading system message, exactly the
/// exchanges of `visible` as alternating user/assistant turns, in order.
pub open spec fn spec_turns_match(
    history: Seq<ChatMessage>,
    visible: Seq<(Seq<char>, Seq<char>)>,
) -> bool
    decreases visible.len(),
{
    if visible.len() == 0 {
        history.len() == 1
    } else {
        &&& history.len() == 1 + 2 * visible.len()
        &&& spec_turns_match(history.take(history.len() - 2), visible.drop_last())
        &&& history[history.len() - 2].role == Role::User
        &&& history[history.len() - 2].content@ == visible.last().0
        &&& history[history.len() - 1].role == Role::Assistant
        &&& history[history.len() - 1].content@ == visible.last().1
    }
}

/// What a reconstructed history must look like for a given visible chain:
/// the system message first, then one user/assistant pair per exchange,
/// oldest to newest.
pub open spec fn spec_history_ok(
    history: Seq<ChatMessage>,
    visible: Seq<(Seq<char>, Seq<char>)>,
    system_message: Seq<char>,
) -> bool {
    &&& history.len() == 1 + 2 * visible.len()
    &&& history[0].role == Role::System
    &&& history[0].content@ == system_message
    &&& spec_turns_match(history, visible)
}

/// Pointwise reading of `spec_turns_match`: the `m`-th exchange stands at
/// positions `1 + 2m` (the user turn) and `2 + 2m` (the assistant turn).
pub proof fn lemma_history_turns(
    history: Seq<ChatMessage>,
    visible: Seq<(Seq<char>, Seq<char>)>,
    m: int,
)
    requires
        spec_turns_match(history, visible),
        0 <= m < visible.len(),
    ensures
        history[1 + 2 * m].role == Role::User,
        history[1 + 2 * m].content@ == visible[m].0,
        history[2 + 2 * m].role == Role::Assistant,
        history[2 + 2 * m].content@ == visible[m].1,
    decreases visible.len(),
{
    if m == visible.len() - 1 {
    } else {
        lemma_history_turns(history.take(history.len() - 2), visible.drop_last(), m);
        assert(history.take(history.len() - 2)[1 + 2 * m] == history[1 + 2 * m]);
        assert(history.take(history.len() - 2)[2 + 2 * m] == history[2 + 2 * m]);
        assert(visible.drop_last()[m] == visible[m]);
    }
}

/// The exchanges a reconstruction of `parent` must emit: the last
/// `DEPTH_LIMIT` links of the parent's chain, or nothing at all when the
/// store has no node with that full identity.
pub open spec fn spec_visible_chain(nodes: Seq<ConversationNode>, parent: MessageIds) -> Seq<
    (Seq<char>, Seq<char>),
> {
    if spec_has_full(nodes, parent) {
        let full = spec_chain(nodes, spec_index_of(nodes, parent.message_id));
        if full.len() <= DEPTH_LIMIT {
            full
        } else {
            full.skip(full.len() - DEPTH_LIMIT)
        }
    } else {
        Seq::empty()
    }
}

/// The persisted conversation graph.
pub struct ConversationStore {
    nodes: Vec<ConversationNode>,
}

impl ConversationStore {
    /// Nodes are unique by message id, and every parent reference points at
    /// a node stored strictly earlier.
    pub open spec fn wf(&self) -> bool {
        nodes_unique(self.nodes()) && parents_precede(self.nodes())
    }

    /// The stored nodes, oldest first.
    pub closed spec fn nodes(&self) -> Seq<ConversationNode> {
        self.nodes@
    }

    pub fn new() -> (r: Self)
        ensures
            r.wf(),
            r.nodes() =~= Seq::<ConversationNode>::empty(),
    {
        ConversationStore { nodes: Vec::new() }
    }

    /// Whether this message id names one of the bot's own stored replies.
    pub fn is_own_message(&self, message_id: u64) -> (r: bool)
        ensures
            r == spec_has_node(self.nodes(), message_id),
    {
        match self.find_by_id(message_id) {
            Some(_) => true,
            None => false,
        }
    }

    /// The index of the node with this message id, if any: the first match,
    /// which in a well-formed store is the only one.
    fn find_by_id(&self, message_id: u64) -> (r: Option<usize>)
        ensures
            match r {
                Some(i) => i < self.nodes().len() && self.nodes()[i as int].ids.message_id
                    == message_id && spec_has_node(self.nodes(), message_id),
                None => !spec_has_node(self.nodes(), message_id),
            },
    {
        let len = self.nodes.len();
        let mut i: usize = 0;
        while i < len
            invariant
                i <= len,
                len == self.nodes@.len(),
                forall|k: int| 0 <= k < i ==> self.nodes@[k].ids.message_id != message_id,
            decreases len - i,
        {
            if self.nodes[i].ids.message_id == message_id {
                return Some(i);
            }
            i = i + 1;
        }
        None
    }

    /// The index of the node with this full identity, if any.
    fn find_full(&self, ids: MessageIds) -> (r: Option<usize>)
        ensures
            match r {
                Some(i) => i < self.nodes().len() && self.nodes()[i as int].ids == ids
                    && spec_has_full(self.nodes(), ids),
                None => !spec_has_full(self.nodes(), ids),
            },
    {
        let len = self.nodes.len();
        let mut i: usize = 0;
        while i < len
            invariant
                i <= len,
                len == self.nodes@.len(),
                forall|k: int| 0 <= k < i ==> self.nodes@[k].ids != ids,
            decreases len - i,
        {
            let same = self.nodes[i].ids.guild_id == ids.guild_id && self.nodes[i].ids.channel_id
                == ids.channel_id && self.nodes[i].ids.message_id == ids.message_id;
            if same {
                proof {
                    assert(self.nodes@[i as int].ids == ids);
                }
                return Some(i);
            }
            i = i + 1;
        }
        None
    }

    /// Insert a parentless node: the root of a new thread. The caller never
    /// reuses a message identity, since each node's identity is the bot's
    /// own freshly delivered reply.
    pub fn record_root(
        &mut self,
        ids: MessageIds,
        input: String,
        output: String,
        personality: Option<String>,
    )
        requires
            old(self).wf(),
            !spec_has_node(old(self).nodes(), ids.message_id),
        ensures
            final(self).wf(),
            final(self).nodes() == old(self).nodes().push(
                ConversationNode { ids, parent: None, input, output, personality },
            ),
    {
        let node = ConversationNode { ids, parent: None, input, output, personality };
        proof {
            lemma_push_preserves_wf(self.nodes@, node);
        }
        self.nodes.push(node);
    }

    /// Insert a node whose parent must already be stored: the continuation
    /// of an existing thread.
    pub fn record_child(
        &mut self,
        ids: MessageIds,
        parent: MessageIds,
        input: String,
        output: String,
        personality: Option<String>,
    )
        requires
            old(self).wf(),
            !spec_has_node(old(self).nodes(), ids.message_id),
            spec_has_node(old(self).nodes(), parent.message_id),
        ensures
            final(self).wf(),
            final(self).nodes() == old(self).nodes().push(
                ConversationNode {
                    ids,
                    parent: Some(parent.message_id),
                    input,
                    output,
                    personality,
                },
            ),
    {
        let node = ConversationNode {
            ids,
            parent: Some(parent.message_id),
            input,
            output,
            personality,
        };
        proof {
            lemma_push_preserves_wf(self.nodes@, node);
        }
        self.nodes.push(node);
    }

    /// The personality tag stored on a node, if the node exists and carries
    /// one: a single-row lookup.
    pub fn get_message_personality(&self, parent: MessageIds) -> (r: Option<String>)
        requires
            self.wf(),
        ensures
            match r {
                Some(tag) => exists|i: int|
                    0 <= i < self.nodes().len() && (#[trigger] self.nodes()[i]).ids == parent && (
                    self.nodes()[i].personality matches Some(t) && t@ == tag@),
                None => !(exists|i: int|
                    0 <= i < self.nodes().len() && (#[trigger] self.nodes()[i]).ids == parent
                        && self.nodes()[i].personality is Some),
            },
    {
        match self.find_full(parent) {
            Some(i) => {
                proof {
                    lemma_unique_full(self.nodes(), parent, i as int);
                }
                match &self.nodes[i].personality {
                    Some(tag) => Some(tag.clone()),
                    None => None,
                }
            },
            None => None,
        }
    }

    /// Walk the parent chain starting at `parent`, collecting stored
    /// exchanges newest-to-oldest up to the depth limit, and emit the
    /// chronological history: the system message first, then alternating
    /// user/assistant turns oldest to newest. When the store has no node
    /// with that full identity, the result is the system message alone
    /// (length one), and callers treat it as "no real history found."
    pub fn reconstruct_history(&self, parent: MessageIds, system_message: String) -> (r: Vec<
        ChatMessage,
    >)
        requires
            self.wf(),
        ensures
            spec_history_ok(r@, spec_visible_chain(self.nodes(), parent), system_message@),
    {
        let ghost nodes = self.nodes();
        let ghost visible = spec_visible_chain(nodes, parent);
        let mut collected_rev: Vec<(String, String)> = Vec::new();
        match self.find_full(parent) {
            Some(start_idx) => {
                proof {
                    lemma_unique_full(nodes, parent, start_idx as int);
                }
                let ghost full = spec_chain(nodes, start_idx as int);
                let mut cur: usize = start_idx;
                loop
                    invariant_except_break
                        self.wf(),
                        nodes == self.nodes(),
                        cur < nodes.len(),
                        full == spec_chain(nodes, spec_index_of(nodes, parent.message_id)),
                        full.len() == spec_chain(nodes, cur as int).len() + collected_rev@.len(),
                        forall|m: int|
                            0 <= m < spec_chain(nodes, cur as int).len() ==> #[trigger] spec_chain(
                                nodes,
                                cur as int,
                            )[m] == full[m],
                    invariant
                        collected_rev@.len() <= DEPTH_LIMIT,
                        forall|k: int|
                            0 <= k < collected_rev@.len() ==> (
                            (#[trigger] collected_rev@[k]).0@,
                            collected_rev@[k].1@,
                            ) == full[full.len() - 1 - k],
                    ensures
                        collected_rev@.len() == if full.len() <= DEPTH_LIMIT {
                            full.len() as int
                        } else {
                            DEPTH_LIMIT as int
                        },
                        forall|k: int|
                            0 <= k < collected_rev@.len() ==> (
                            (#[trigger] collected_rev@[k]).0@,
                            collected_rev@[k].1@,
                            ) == full[full.len() - 1 - k],
                    decreases DEPTH_LIMIT - collected_rev@.len(),
                {
                    let ghost chain_here = spec_chain(nodes, cur as int);
                    proof {
                        lemma_chain_len_positive(nodes, cur as int);
                    }
                    if collected_rev.len() >= DEPTH_LIMIT {
                        proof {
                            assert(full.len() >= DEPTH_LIMIT + 1);
                        }
                        break;
                    }
                    let pair = (self.nodes[cur].input.clone(), self.nodes[cur].output.clone());
                    collected_rev.push(pair);
                    let parent_ref: Option<u64> = self.nodes[cur].parent;
                    match parent_ref {
                        Some(p) => {
                            proof {
                                // Well-formedness: the parent was stored
                                // strictly earlier, and ids are unique, so
                                // the lookup lands strictly below `cur`.
                                let w = choose|w: int|
                                    0 <= w < cur as int && nodes[w].ids.message_id == p;
                                assert(nodes[w].ids.message_id == p);
                                assert(spec_has_node(nodes, p));
                                let v = spec_index_of(nodes, p);
                                assert(0 <= v < nodes.len() && nodes[v].ids.message_id == p);
                                if v != w {
                                    assert(false);
                                }
                                assert(chain_here == spec_chain(nodes, v).push(
                                    (nodes[cur as int].input@, nodes[cur as int].output@),
                                ));
                            }
                            match self.find_by_id(p) {
                                Some(j) => {
                                    proof {
                                        let v = spec_index_of(nodes, p);
                                        assert(nodes[j as int].ids.message_id == p);
                                        if j as int != v {
                                            assert(false);
                                        }
                                        assert(spec_chain(nodes, j as int).len() + 1
                                            == chain_here.len());
                                        assert forall|m: int|
                                            0 <= m < spec_chain(nodes, j as int).len()
                                            implies #[trigger] spec_chain(nodes, j as int)[m]
                                            == full[m] by {
                                            assert(spec_chain(nodes, cur as int)[m] == full[m]);
                                            assert(spec_chain(nodes, j as int)[m]
                                                == chain_here[m]);
                                        }
                                        assert(spec_chain(nodes, cur as int)[chain_here.len() - 1]
                                            == full[chain_here.len() - 1]);
                                        assert(chain_here.last() == (
                                            nodes[cur as int].input@,
                                            nodes[cur as int].output@,
                                        ));
                                        assert((
                                        collected_rev@.last().0@,
                                        collected_rev@.last().1@,
                                        ) == full[chain_here.len() - 1]);
                                    }
                                    cur = j;
                                },
                                None => {
                                    proof {
                                        assert(false);
                                    }
                                },
                            }
                        },
                        None => {
                            proof {
                                assert(chain_here =~= seq![
                                    (nodes[cur as int].input@, nodes[cur as int].output@),
                                ]);
                                assert(full.len() == collected_rev@.len());
                                assert(spec_chain(nodes, cur as int)[0] == full[0]);
                                assert((collected_rev@.last().0@, collected_rev@.last().1@)
                                    == full[0]);
                                assert(full.len() <= DEPTH_LIMIT);
                            }
                            break;
                        },
                    }
                }
                proof {
                    lemma_visible_from_collected(nodes, parent, full, collected_rev@);
                }
            },
            None => {
                proof {
                    assert(visible =~= Seq::<(Seq<char>, Seq<char>)>::empty());
                }
            },
        }
        // `collected_rev` now lists the visible exchanges newest first:
        // popping emits them oldest first.
        assemble_history(collected_rev, system_message, Ghost(visible))
    }
}

/// Turn the collected exchanges (newest first) into the chronological
/// history: the system message, then one user/assistant pair per exchange.
fn assemble_history(
    collected_rev: Vec<(String, String)>,
    system_message: String,
    Ghost(visible): Ghost<Seq<(Seq<char>, Seq<char>)>>,
) -> (r: Vec<ChatMessage>)
    requires
        collected_rev@.len() == visible.len(),
        forall|k: int|
            0 <= k < collected_rev@.len() ==> ((#[trigger] collected_rev@[k]).0@,
            collected_rev@[k].1@) == visible[visible.len() - 1 - k],
    ensures
        spec_history_ok(r@, visible, system_message@),
{
    let ghost orig = collected_rev@;
    let ghost n = orig.len() as int;
    let mut collected_rev = collected_rev;
    let mut history: Vec<ChatMessage> = Vec::new();
    history.push(ChatMessage::system(system_message));
    #[verifier::loop_isolation(false)]
    while collected_rev.len() > 0
        invariant
            collected_rev@.len() <= n,
            forall|k: int| 0 <= k < collected_rev@.len() ==> collected_rev@[k] == orig[k],
            history@.len() == 1 + 2 * (n - collected_rev@.len()),
            history@[0].role == Role::System,
            history@[0].content@ == system_message@,
            spec_turns_match(history@, visible.take(n - collected_rev@.len())),
        decreases collected_rev@.len(),
    {
        let ghost remaining = collected_rev@.len() as int;
        let ghost h0 = history@;
        let ghost q = n - remaining;
        let pair = collected_rev.pop().unwrap();
        proof {
            assert(pair == orig[remaining - 1]);
            assert((pair.0@, pair.1@) == visible[q]);
        }
        let user_msg = ChatMessage::user(pair.0);
        let ghost gu = user_msg;
        let assistant_msg = ChatMessage::assistant(pair.1);
        let ghost ga = assistant_msg;
        history.push(user_msg);
        history.push(assistant_msg);
        proof {
            let h2 = h0.push(gu).push(ga);
            assert(history@ == h2);
            let v1 = visible.take(q + 1);
            assert(v1.len() == q + 1);
            assert(h2.take(h2.len() - 2) =~= h0);
            assert(v1.drop_last() =~= visible.take(q));
            assert(v1.last() == visible[q]);
            assert(h2[h2.len() - 2] == gu);
            assert(h2[h2.len() - 1] == ga);
            assert(spec_turns_match(history@, visible.take(q + 1)));
        }
    }
    proof {
        assert(visible.take(n) =~= visible);
    }
    history
}

/// A chain always contains at least the queried node's own exchange.
pub proof fn lemma_chain_len_positive(nodes: Seq<ConversationNode>, i: int)
    ensures
        spec_chain(nodes, i).len() >= 1,
    decreases i,
{
    match nodes[i].parent {
        Some(p) => {
            if spec_has_node(nodes, p) && 0 <= spec_index_of(nodes, p) < i {
                lemma_chain_len_positive(nodes, spec_index_of(nodes, p));
            }
        },
        None => {},
    }
}

/// Whether the first `i + 1` nodes of a store form one linear thread: the
/// first is a root, and each following node's parent is its predecessor.
pub open spec fn spec_linear_chain(nodes: Seq<ConversationNode>, i: int) -> bool {
    forall|k: int|
        0 <= k <= i ==> (#[trigger] nodes[k]).parent == if k == 0 {
            None::<u64>
        } else {
            Some(nodes[k - 1].ids.message_id)
        }
}

/// In a store whose first `i + 1` nodes form one linear thread, the chain
/// ending at node `i` holds exactly those `i + 1` exchanges.
pub proof fn lemma_linear_chain_len(nodes: Seq<ConversationNode>, i: int)
    requires
        nodes_unique(nodes),
        0 <= i < nodes.len(),
        spec_linear_chain(nodes, i),
    ensures
        spec_chain(nodes, i).len() == i + 1,
    decreases i,
{
    if i > 0 {
        let p = nodes[i - 1].ids.message_id;
        assert(nodes[i].parent == Some(p));
        assert(spec_has_node(nodes, p));
        let v = spec_index_of(nodes, p);
        assert(0 <= v < nodes.len() && nodes[v].ids.message_id == p);
        if v != i - 1 {
            assert(false);
        }
        lemma_linear_chain_len(nodes, i - 1);
        assert(spec_chain(nodes, i) == spec_chain(nodes, i - 1).push(
            (nodes[i].input@, nodes[i].output@),
        ));
    }
}

/// Reconstructing the newest node of a linear thread of `i + 1` exchanges
/// shows `min(i + 1, DEPTH_LIMIT)` of them, so the emitted history has
/// `1 + 2 * min(i + 1, DEPTH_LIMIT)` messages: truncation happens exactly
/// beyond the depth limit, never before.
pub proof fn lemma_linear_chain_visible_len(nodes: Seq<ConversationNode>, i: int)
    requires
        nodes_unique(nodes),
        0 <= i < nodes.len(),
        spec_linear_chain(nodes, i),
    ensures
        spec_visible_chain(nodes, nodes[i].ids).len() == if i + 1 <= DEPTH_LIMIT {
            i + 1
        } else {
            DEPTH_LIMIT as int
        },
{
    lemma_linear_chain_len(nodes, i);
    lemma_unique_full(nodes, nodes[i].ids, i);
    assert(spec_has_full(nodes, nodes[i].ids));
}

/// A reconstruction for a parent the store does not know contains exactly
/// one element: the synthesized system message. Callers treat such a result
/// as "no real history found" and abandon the continuation.
pub proof fn lemma_unknown_parent_history_is_system_only(
    history: Seq<ChatMessage>,
    nodes: Seq<ConversationNode>,
    parent: MessageIds,
    system_message: Seq<char>,
)
    requires
        !spec_has_full(nodes, parent),
        spec_history_ok(history, spec_visible_chain(nodes, parent), system_message),
    ensures
        history.len() == 1,
        history[0].role == Role::System,
        history[0].content@ == system_message,
{
}

/// A reconstruction of the newest node of a linear thread of `i + 1`
/// exchanges emits `1 + 2 * (i + 1)` messages, truncated to
/// `1 + 2 * DEPTH_LIMIT` for threads longer than the depth limit.
pub proof fn lemma_linear_chain_history_len(
    history: Seq<ChatMessage>,
    nodes: Seq<ConversationNode>,
    i: int,
    system_message: Seq<char>,
)
    requires
        nodes_unique(nodes),
        0 <= i < nodes.len(),
        spec_linear_chain(nodes, i),
        spec_history_ok(history, spec_visible_chain(nodes, nodes[i].ids), system_message),
    ensures
        history.len() == 1 + 2 * (if i + 1 <= DEPTH_LIMIT {
            i + 1
        } else {
            DEPTH_LIMIT as int
        }),
{
    lemma_linear_chain_visible_len(nodes, i);
}

/// The walk's outcome pinpoints the visible chain: the collected pairs are
/// its exchanges, newest first.
proof fn lemma_visible_from_collected(
    nodes: Seq<ConversationNode>,
    parent: MessageIds,
    full: Seq<(Seq<char>, Seq<char>)>,
    collected: Seq<(String, String)>,
)
    requires
        spec_has_full(nodes, parent),
        full == spec_chain(nodes, spec_index_of(nodes, parent.message_id)),
        collected.len() == if full.len() <= DEPTH_LIMIT {
            full.len() as int
        } else {
            DEPTH_LIMIT as int
        },
        forall|k: int|
            0 <= k < collected.len() ==> ((#[trigger] collected[k]).0@, collected[k].1@)
                == full[full.len() - 1 - k],
    ensures
        spec_visible_chain(nodes, parent).len() == collected.len(),
        forall|k: int|
            0 <= k < collected.len() ==> ((#[trigger] collected[k]).0@, collected[k].1@)
                == spec_visible_chain(nodes, parent)[collected.len() - 1 - k],
{
    let visible = spec_visible_chain(nodes, parent);
    if full.len() <= DEPTH_LIMIT {
        assert(visible == full);
    } else {
        assert(visible == full.skip(full.len() - DEPTH_LIMIT));
        assert forall|k: int| 0 <= k < collected.len() implies (
        (#[trigger] collected[k]).0@,
        collected[k].1@,
        ) == visible[collected.len() - 1 - k] by {
            assert(visible[collected.len() - 1 - k] == full[full.len() - 1 - k]);
        }
    }
}

proof fn lemma_push_preserves_wf(nodes: Seq<ConversationNode>, node: ConversationNode)
    requires
        nodes_unique(nodes),
        parents_precede(nodes),
        !spec_has_node(nodes, node.ids.message_id),
        node.parent matches Some(p) ==> spec_has_node(nodes, p),
    ensures
        nodes_unique(nodes.push(node)),
        parents_precede(nodes.push(node)),
{
    let pushed = nodes.push(node);
    assert forall|i: int, j: int| 0 <= i < j < pushed.len() implies pushed[i].ids.message_id
        != pushed[j].ids.message_id by {
        if j == nodes.len() as int {
            assert(pushed[i] == nodes[i]);
        }
    }
    assert forall|i: int| 0 <= i < pushed.len() implies match (#[trigger] pushed[i]).parent {
        Some(p) => exists|j: int| 0 <= j < i && pushed[j].ids.message_id == p,
        None => true,
    } by {
        if i < nodes.len() as int {
            assert(pushed[i] == nodes[i]);
            match nodes[i].parent {
                Some(p) => {
                    let j = choose|j: int| 0 <= j < i && nodes[j].ids.message_id == p;
                    assert(pushed[j] == nodes[j]);
                },
                None => {},
            }
        } else {
            match node.parent {
                Some(p) => {
                    let j = choose|j: int| 0 <= j < nodes.len() && nodes[j].ids.message_id == p;
                    assert(pushed[j] == nodes[j]);
                },
                None => {},
            }
        }
    }
}

/// In a store with unique message ids, a node matching a full identity is
/// the node its message id indexes.
proof fn lemma_unique_full(nodes: Seq<ConversationNode>, ids: MessageIds, i: int)
    requires
        nodes_unique(nodes),
        0 <= i < nodes.len(),
        nodes[i].ids == ids,
    ensures
        spec_has_node(nodes, ids.message_id),
        spec_index_of(nodes, ids.message_id) == i,
{
    assert(nodes[i].ids.message_id == ids.message_id);
    let w = spec_index_of(nodes, ids.message_id);
    assert(0 <= w < nodes.len() && nodes[w].ids.message_id == ids.message_id);
    if w != i {
        assert(false);
    }
}

} // verus!
