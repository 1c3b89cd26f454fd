//! The reference resolver: given a raw inbound message, decide whether it
//! continues an existing thread (an explicit reply to the bot, or a pasted
//! deep link to one of the bot's stored replies), quotes someone else's
//! message, or stands alone; and extract the effective prompt text,
//! stripping exactly one bot mention from one end where one is required.

use vstd::prelude::*;

use crate::conversations::{spec_has_node, ConversationStore, MessageIds};
use crate::text::{
    ends_with, starts_with, str_ends_with, str_starts_with, str_trim, str_trim_start,
    trim_spec, trim_start_spec,
};

verus! {

/// What an inbound message refers to: nothing, one of the bot's own replies
/// (a continuation), or someone else's message (quoted context, carried as
/// its text).
#[derive(Debug, Clone)]
pub enum ReferencedMessage {
    Unreferenced,
    Own(MessageIds),
    Others(MessageIds, String),
}

// --- mention stripping ---

/// The first mention that is a prefix of the text, stripped and trimmed.
pub open spec fn spec_strip_prefix_mention(text: Seq<char>, mentions: Seq<String>) -> Option<
    Seq<char>,
>
    decreases mentions.len(),
{
    if mentions.len() == 0 {
        None
    } else if starts_with(text, mentions[0]@) {
        Some(trim_spec(text.skip(mentions[0]@.len() as int)))
    } else {
        spec_strip_prefix_mention(text, mentions.skip(1))
    }
}

/// The first mention that is a suffix of the text, stripped and trimmed.
pub open spec fn spec_strip_suffix_mention(text: Seq<char>, mentions: Seq<String>) -> Option<
    Seq<char>,
>
    decreases mentions.len(),
{
    if mentions.len() == 0 {
        None
    } else if ends_with(text, mentions[0]@) {
        Some(trim_spec(text.take(text.len() - mentions[0]@.len())))
    } else {
        spec_strip_suffix_mention(text, mentions.skip(1))
    }
}

/// If a mention stands at either end of the text, the text with exactly that
/// one mention removed and the rest trimmed; prefix positions are preferred,
/// and mentions are tried in order.
pub open spec fn spec_strip_mention(text: Seq<char>, mentions: Seq<String>) -> Option<Seq<char>> {
    match spec_strip_prefix_mention(text, mentions) {
        Some(r) => Some(r),
        None => spec_strip_suffix_mention(text, mentions),
    }
}

/// If there is a mention on either end of the string, removes it and trims.
/// Removes only one mention.
pub fn strip_mention<'l>(text: &'l str, mentions: &Vec<String>) -> (r: Option<&'l str>)
    ensures
        match r {
            Some(s) => spec_strip_mention(text@, mentions@) == Some(s@),
            None => spec_strip_mention(text@, mentions@) is None,
        },
{
    let len = text.unicode_len();
    let n = mentions.len();
    proof {
        assert(mentions@.skip(0) =~= mentions@);
    }
    let mut i: usize = 0;
    while i < n
        invariant
            i <= n,
            n == mentions@.len(),
            len == text@.len(),
            spec_strip_prefix_mention(text@, mentions@) == spec_strip_prefix_mention(
                text@,
                mentions@.skip(i as int),
            ),
        decreases n - i,
    {
        proof {
            assert(mentions@.skip(i as int)[0] == mentions@[i as int]);
            assert(mentions@.skip(i as int).skip(1) =~= mentions@.skip(i as int + 1));
        }
        let mention = &mentions[i];
        if str_starts_with(text, mention.as_str()) {
            let mlen = mention.as_str().unicode_len();
            let stripped = text.substring_char(mlen, len);
            proof {
                assert(text@.subrange(mlen as int, len as int) =~= text@.skip(mlen as int));
            }
            return Some(str_trim(stripped));
        }
        i = i + 1;
    }
    proof {
        assert(mentions@.skip(n as int) =~= Seq::<String>::empty());
        assert(mentions@.skip(0) =~= mentions@);
    }
    let mut j: usize = 0;
    while j < n
        invariant
            j <= n,
            n == mentions@.len(),
            len == text@.len(),
            spec_strip_prefix_mention(text@, mentions@) is None,
            spec_strip_suffix_mention(text@, mentions@) == spec_strip_suffix_mention(
                text@,
                mentions@.skip(j as int),
            ),
        decreases n - j,
    {
        proof {
            assert(mentions@.skip(j as int)[0] == mentions@[j as int]);
            assert(mentions@.skip(j as int).skip(1) =~= mentions@.skip(j as int + 1));
        }
        let mention = &mentions[j];
        if str_ends_with(text, mention.as_str()) {
            let mlen = mention.as_str().unicode_len();
            let stripped = text.substring_char(0, len - mlen);
            proof {
                assert(text@.subrange(0, len - mlen) =~= text@.take(
                    text@.len() - mentions@[j as int]@.len(),
                ));
            }
            return Some(str_trim(stripped));
        }
        j = j + 1;
    }
    proof {
        assert(mentions@.skip(n as int) =~= Seq::<String>::empty());
    }
    None
}

// --- deep-link extraction ---

/// The text after a deep link's fixed prefix (`https://`, an optional
/// `ptb.` or `canary.` subdomain, then `discord.com/channels/`), if the
/// text starts with one.
pub open spec fn spec_after_link_prefix(s: Seq<char>) -> Option<Seq<char>> {
    if starts_with(s, "https://"@) {
        let t = s.skip("https://"@.len() as int);
        let u = if starts_with(t, "ptb."@) {
            t.skip("ptb."@.len() as int)
        } else if starts_with(t, "canary."@) {
            t.skip("canary."@.len() as int)
        } else {
            t
        };
        if starts_with(u, "discord.com/channels/"@) {
            Some(u.skip("discord.com/channels/"@.len() as int))
        } else {
            None
        }
    } else {
        None
    }
}

/// Scan three `/`-separated decimal ids after the link prefix, terminated by
/// the first space once all three are nonzero. Any other character, an id
/// too large for the platform's id space, or the end of the text means the
/// text carries no usable link. Returns the index of the terminating space
/// and the three ids.
pub open spec fn spec_link_scan(
    s: Seq<char>,
    i: int,
    section: int,
    guild: int,
    channel: int,
    message: int,
) -> Option<(int, MessageIds)>
    decreases s.len() - i,
{
    if i < 0 || i >= s.len() {
        None
    } else {
        let code = s[i] as int;
        if 48 <= code <= 57 {
            let digit = code - 48;
            let grown = (if section == 0 {
                guild
            } else if section == 1 {
                channel
            } else {
                message
            }) * 10 + digit;
            if grown > u64::MAX {
                None
            } else if section == 0 {
                spec_link_scan(s, i + 1, section, grown, channel, message)
            } else if section == 1 {
                spec_link_scan(s, i + 1, section, guild, grown, message)
            } else {
                spec_link_scan(s, i + 1, section, guild, channel, grown)
            }
        } else if s[i] == '/' && section < 2 {
            spec_link_scan(s, i + 1, section + 1, guild, channel, message)
        } else if s[i] == ' ' && section == 2 && guild != 0 && channel != 0 && message != 0 {
            Some(
                (
                    i,
                    MessageIds {
                        guild_id: guild as u64,
                        channel_id: channel as u64,
                        message_id: message as u64,
                    },
                ),
            )
        } else {
            None
        }
    }
}

/// The link target and the remaining prompt text, when the text begins with
/// a deep link of the exact accepted form: the rest is everything after the
/// first space, trimmed at the start.
pub open spec fn spec_extract_link(s: Seq<char>) -> Option<(Seq<char>, MessageIds)> {
    match spec_after_link_prefix(s) {
        Some(v) => match spec_link_scan(v, 0, 0, 0, 0, 0) {
            Some((space_i, ids)) => Some((trim_start_spec(v.skip(space_i)), ids)),
            None => None,
        },
        None => None,
    }
}

/// If there is a message link at the start of the string, removes it and
/// trims the start, and returns both the remaining message and the ids from
/// the link.
pub fn extract_message_link(text: &str) -> (r: Option<(&str, MessageIds)>)
    ensures
        match r {
            Some((rest, ids)) => spec_extract_link(text@) == Some((rest@, ids)),
            None => spec_extract_link(text@) is None,
        },
{
    proof {
        reveal_strlit("https://");
        reveal_strlit("ptb.");
        reveal_strlit("canary.");
        reveal_strlit("discord.com/channels/");
    }
    if !str_starts_with(text, "https://") {
        return None;
    }
    let len = text.unicode_len();
    let t = text.substring_char(8, len);
    proof {
        assert(text@.subrange(8, len as int) =~= text@.skip(8));
    }
    let sub_len: usize = if str_starts_with(t, "ptb.") {
        4
    } else if str_starts_with(t, "canary.") {
        7
    } else {
        0
    };
    let u = t.substring_char(sub_len, len - 8);
    proof {
        assert(t@.subrange(sub_len as int, t@.len() as int) =~= t@.skip(sub_len as int));
        if sub_len == 0 {
            assert(t@.skip(0) =~= t@);
        }
    }
    if !str_starts_with(u, "discord.com/channels/") {
        return None;
    }
    let ulen = len - 8 - sub_len;
    let v = u.substring_char(21, ulen);
    proof {
        assert(u@.subrange(21, u@.len() as int) =~= u@.skip(21));
        assert(spec_after_link_prefix(text@) == Some(v@));
    }
    let vlen = ulen - 21;
    let mut i: usize = 0;
    let mut section: u8 = 0;
    let mut guild: u64 = 0;
    let mut channel: u64 = 0;
    let mut message: u64 = 0;
    while i < vlen
        invariant
            i <= vlen,
            vlen == v@.len(),
            section <= 2,
            spec_link_scan(v@, 0, 0, 0, 0, 0) == spec_link_scan(
                v@,
                i as int,
                section as int,
                guild as int,
                channel as int,
                message as int,
            ),
            spec_after_link_prefix(text@) == Some(v@),
        decreases vlen - i,
    {
        let ch = v.get_char(i);
        let code = ch as u32;
        if code >= 48 && code <= 57 {
            let digit = (code - 48) as u64;
            let current: u64 = if section == 0 {
                guild
            } else if section == 1 {
                channel
            } else {
                message
            };
            let grown: u128 = current as u128 * 10 + digit as u128;
            if grown > u64::MAX as u128 {
                return None;
            }
            if section == 0 {
                guild = grown as u64;
            } else if section == 1 {
                channel = grown as u64;
            } else {
                message = grown as u64;
            }
        } else if ch == '/' && section < 2 {
            section = section + 1;
        } else if ch == ' ' && section == 2 && guild != 0 && channel != 0 && message != 0 {
            let tail = v.substring_char(i, vlen);
            proof {
                assert(v@.subrange(i as int, vlen as int) =~= v@.skip(i as int));
            }
            let rest = str_trim_start(tail);
            return Some((rest, MessageIds::new(guild, channel, message)));
        } else {
            return None;
        }
        i = i + 1;
    }
    None
}

// --- reference resolution ---

/// What a pasted deep link in the text leads to: no link at all, a link to
/// one of the bot's own stored replies (with the remaining prompt text), or
/// a link to a foreign message that would have to be fetched.
pub enum LinkProbe {
    NoLink,
    OwnLink(MessageIds, String),
    ForeignLink(MessageIds, String),
}

/// Classify a leading deep link in the text against the conversation store.
pub fn probe_link(store: &ConversationStore, content: &str) -> (r: LinkProbe)
    ensures
        match r {
            LinkProbe::NoLink => spec_extract_link(content@) is None,
            LinkProbe::OwnLink(ids, rest) => spec_extract_link(content@) == Some((rest@, ids))
                && spec_has_node(store.nodes(), ids.message_id),
            LinkProbe::ForeignLink(ids, rest) => spec_extract_link(content@) == Some((rest@, ids))
                && !spec_has_node(store.nodes(), ids.message_id),
        },
{
    match extract_message_link(content) {
        Some((rest, ids)) => {
            if store.is_own_message(ids.message_id) {
                LinkProbe::OwnLink(ids, rest.to_owned())
            } else {
                LinkProbe::ForeignLink(ids, rest.to_owned())
            }
        },
        None => LinkProbe::NoLink,
    }
}

/// Resolve an explicit platform reply: a reply to the bot's own message is a
/// continuation; a reply to someone else's message quotes that message's
/// text, which the caller fetched if it could; a reply whose text cannot be
/// obtained drops the event.
pub fn resolve_reply_reference(
    current_guild: u64,
    referenced_channel: u64,
    referenced_message: u64,
    author_is_self: bool,
    fetched_content: Option<String>,
) -> (r: Option<ReferencedMessage>)
    ensures
        ({
            let ids = MessageIds {
                guild_id: current_guild,
                channel_id: referenced_channel,
                message_id: referenced_message,
            };
            if author_is_self {
                r matches Some(m) && m == ReferencedMessage::Own(ids)
            } else {
                match fetched_content {
                    Some(content) => if content@.len() > 0 {
                        r matches Some(m) && m == ReferencedMessage::Others(ids, content)
                    } else {
                        r is None
                    },
                    None => r is None,
                }
            }
        }),
{
    let ids = MessageIds::new(current_guild, referenced_channel, referenced_message);
    if author_is_self {
        Some(ReferencedMessage::Own(ids))
    } else {
        match fetched_content {
            Some(content) => {
                if content.as_str().unicode_len() > 0 {
                    Some(ReferencedMessage::Others(ids, content))
                } else {
                    None
                }
            },
            None => None,
        }
    }
}

/// How a foreign deep link resolves once the caller has tried to fetch its
/// target: dropped (the target is the bot's own message that the store does
/// not know), unlinked (the target cannot be fetched at all, so the full
/// original text stands), or quoted context with the prompt being the text
/// after the link.
pub enum LinkResolution {
    Dropped,
    Unlinked,
    Linked(ReferencedMessage, String),
}

/// Resolve a foreign link target from what the fetch returned: the fetched
/// message's channel, id, whether the bot authored it, and its text.
pub fn resolve_foreign_link(
    current_guild: u64,
    rest: String,
    fetched: Option<(u64, u64, bool, String)>,
) -> (r: LinkResolution)
    ensures
        match fetched {
            None => r is Unlinked,
            Some((channel, message, author_is_self, content)) => if author_is_self {
                r is Dropped
            } else {
                r matches LinkResolution::Linked(m, c) && m == ReferencedMessage::Others(
                    MessageIds { guild_id: current_guild, channel_id: channel, message_id: message },
                    content,
                ) && c == rest
            },
        },
{
    match fetched {
        None => LinkResolution::Unlinked,
        Some((channel, message, author_is_self, content)) => {
            if author_is_self {
                LinkResolution::Dropped
            } else {
                let ids = MessageIds::new(current_guild, channel, message);
                LinkResolution::Linked(ReferencedMessage::Others(ids, content), rest)
            }
        },
    }
}

/// The converged output of reference resolution for one reference and one
/// reply body: the parent to continue (if any) and the effective prompt, or
/// nothing at all when the event is to be dropped.
pub open spec fn spec_parent_and_content(
    reference: ReferencedMessage,
    reply_body: Seq<char>,
    mentions: Seq<String>,
) -> Option<(Option<MessageIds>, Seq<char>)> {
    match reference {
        ReferencedMessage::Own(ids) => Some((Some(ids), reply_body)),
        ReferencedMessage::Others(_ids, quoted) => match spec_strip_mention(
            reply_body,
            mentions,
        ) {
            Some(text) => if text.len() == 0 {
                let fallback = match spec_strip_mention(quoted@, mentions) {
                    Some(stripped) => stripped,
                    None => quoted@,
                };
                if fallback.len() == 0 {
                    None
                } else {
                    Some((None, fallback))
                }
            } else {
                Some((None, text + " \""@ + quoted@ + "\""@))
            },
            None => None,
        },
        ReferencedMessage::Unreferenced => match spec_strip_mention(reply_body, mentions) {
            Some(text) => if text.len() == 0 {
                None
            } else {
                Some((None, text))
            },
            None => None,
        },
    }
}

impl ReferencedMessage {
    /// The identity this reference points at, if any.
    pub open spec fn spec_ids(&self) -> Option<MessageIds> {
        match self {
            ReferencedMessage::Unreferenced => None,
            ReferencedMessage::Own(ids) => Some(*ids),
            ReferencedMessage::Others(ids, _) => Some(*ids),
        }
    }

    /// Converge the reference and the reply body to the parent (if this is a
    /// continuation) and the effective prompt:
    /// - a reply to the bot's own message keeps its text unchanged;
    /// - a quoted message requires a mention at one end of the new text; the
    ///   prompt is `{stripped text} "{quoted text}"`, or the quoted text
    ///   alone (itself mention-stripped) when the new text is empty;
    /// - an unreferenced message requires a mention at one end and must not
    ///   be empty after stripping.
    pub fn get_parent_and_content(self, reply_body: &str, mentions: &Vec<String>) -> (r: Option<
        (Option<MessageIds>, String),
    >)
        ensures
            match r {
                Some((parent, content)) => (spec_parent_and_content(
                    self,
                    reply_body@,
                    mentions@,
                ) matches Some((p, c)) && parent == p && content@ == c),
                None => spec_parent_and_content(self, reply_body@, mentions@) is None,
            },
    {
        match self {
            ReferencedMessage::Own(ids) => Some((Some(ids), reply_body.to_owned())),
            ReferencedMessage::Others(_ids, quoted) => {
                match strip_mention(reply_body, mentions) {
                    Some(text) => {
                        if text.unicode_len() == 0 {
                            let fallback = match strip_mention(quoted.as_str(), mentions) {
                                Some(stripped) => stripped.to_owned(),
                                None => quoted,
                            };
                            if fallback.as_str().unicode_len() == 0 {
                                None
                            } else {
                                Some((None, fallback))
                            }
                        } else {
                            let mut content = text.to_owned();
                            content.append(" \"");
                            content.append(quoted.as_str());
                            content.append("\"");
                            Some((None, content))
                        }
                    },
                    None => None,
                }
            },
            ReferencedMessage::Unreferenced => {
                match strip_mention(reply_body, mentions) {
                    Some(text) => {
                        if text.unicode_len() == 0 {
                            None
                        } else {
                            Some((None, text.to_owned()))
                        }
                    },
                    None => None,
                }
            },
        }
    }

    /// Whether this reference may legitimately be continued or quoted here:
    /// always for an unreferenced message; otherwise the referenced message
    /// must be in the same guild, and, if it is in a different channel, the
    /// linking user must currently be able to view that channel (an external
    /// capability the caller supplies).
    pub fn is_allowed_to_be_replied_to(
        &self,
        message_guild: u64,
        message_channel: u64,
        can_view_channel: bool,
    ) -> (r: bool)
        ensures
            r == match self.spec_ids() {
                None => true,
                Some(ids) => ids.guild_id == message_guild && (ids.channel_id == message_channel
                    || can_view_channel),
            },
    {
        match self {
            ReferencedMessage::Unreferenced => true,
            ReferencedMessage::Own(ids) => ids.is_allowed(
                message_guild,
                message_channel,
                can_view_channel,
            ),
            ReferencedMessage::Others(ids, _) => ids.is_allowed(
                message_guild,
                message_channel,
                can_view_channel,
            ),
        }
    }
}

impl MessageIds {
    /// Whether this parent is allowed for this user in this context: the
    /// guild must be the same, and a cross-channel link needs view access
    /// to the original channel.
    pub fn is_allowed(&self, message_guild: u64, message_channel: u64, can_view_channel: bool) -> (r:
        bool)
        ensures
            r == (self.guild_id == message_guild && (self.channel_id == message_channel
                || can_view_channel)),
    {
        if self.guild_id != message_guild {
            false
        } else if self.channel_id != message_channel {
            can_view_channel
        } else {
            true
        }
    }
}

} // verus!
