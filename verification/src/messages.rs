//! Raw group events and message aggregation.
//!
//! Every protocol event a group carries is kept raw; a chat message is
//! recomputed from its backing events on every fetch: deletion events flip
//! the deleted flag without erasing content, reaction events are aggregated
//! per message, and the content is tokenized.

use vstd::prelude::*;
use crate::session::{Whitenoise, string_views, clone_string_vec, str_eq};
use crate::error::WhitenoiseError;
use crate::reactions::{ReactionEvent, ReactionEventV, ReactionSummary, ReactionSummaryV};
use crate::tokenizer::{SerializableToken, TokenV, token_views};
use crate::metadata::opt_view;

verus! {

/// One protocol tag: a non-empty list of strings.
#[derive(Debug)]
pub struct Tag {
    pub fields: Vec<String>,
}

impl View for Tag {
    type V = Seq<Seq<char>>;

    open spec fn view(&self) -> Seq<Seq<char>> {
        string_views(self.fields@)
    }
}

impl Clone for Tag {
    fn clone(&self) -> (r: Self)
        ensures
            r@ == self@,
    {
        Tag { fields: clone_string_vec(&self.fields) }
    }
}

/// The views of a list of tags.
pub open spec fn tags_view(s: Seq<Tag>) -> Seq<Seq<Seq<char>>> {
    s.map_values(|t: Tag| t@)
}

/// Copies a list of tags.
pub(crate) fn clone_tags(v: &Vec<Tag>) -> (r: Vec<Tag>)
    ensures
        tags_view(r@) == tags_view(v@),
{
    let mut r: Vec<Tag> = Vec::new();
    let mut i: usize = 0;
    while i < v.len()
        invariant
            i <= v@.len(),
            r@.len() == i,
            forall|j: int| 0 <= j < i ==> #[trigger] r@[j]@ == v@[j]@,
        decreases v@.len() - i,
    {
        r.push(v[i].clone());
        i += 1;
    }
    proof {
        assert forall|j: int| 0 <= j < v@.len() implies tags_view(r@)[j] == tags_view(v@)[j] by {
            assert(tags_view(r@)[j] == r@[j]@);
            assert(tags_view(v@)[j] == v@[j]@);
        }
        assert(tags_view(r@) =~= tags_view(v@));
    }
    r
}

/// Builds a tag from its string fields; a tag must be non-empty.
pub fn tag_from_vec(vec: Vec<String>) -> (r: Result<Tag, crate::error::ApiError>)
    ensures
        r is Ok <==> vec@.len() > 0,
        r is Ok ==> r.unwrap()@ == string_views(vec@),
        r is Err ==> crate::error::api_error_type_name(r.unwrap_err()) == "NostrTag"@,
{
    if vec.len() == 0 {
        Err(crate::error::ApiError::NostrTag { message: "empty tag".to_owned() })
    } else {
        Ok(Tag { fields: vec })
    }
}

/// One raw protocol event inside a group.
#[derive(Debug)]
pub struct MessageRecord {
    /// The group's local identifier, lowercase hexadecimal.
    pub group_id: String,
    /// Event identifier.
    pub id: String,
    /// Author public key.
    pub author: String,
    /// Protocol kind; 5 deletes, 7 reacts, anything else is content.
    pub kind: u16,
    pub created_at: u64,
    pub content: String,
    pub tags: Vec<Tag>,
}

/// The mathematical shape of a raw event.
pub struct MessageRecordV {
    pub group_id: Seq<char>,
    pub id: Seq<char>,
    pub author: Seq<char>,
    pub kind: u16,
    pub created_at: u64,
    pub content: Seq<char>,
    pub tags: Seq<Seq<Seq<char>>>,
}

impl View for MessageRecord {
    type V = MessageRecordV;

    open spec fn view(&self) -> MessageRecordV {
        MessageRecordV {
            group_id: self.group_id@,
            id: self.id@,
            author: self.author@,
            kind: self.kind,
            created_at: self.created_at,
            content: self.content@,
            tags: tags_view(self.tags@),
        }
    }
}

impl Clone for MessageRecord {
    fn clone(&self) -> (r: Self)
        ensures
            r@ == self@,
    {
        MessageRecord {
            group_id: self.group_id.clone(),
            id: self.id.clone(),
            author: self.author.clone(),
            kind: self.kind,
            created_at: self.created_at,
            content: self.content.clone(),
            tags: clone_tags(&self.tags),
        }
    }
}

/// The views of the raw event list.
pub open spec fn message_records_view(s: Seq<MessageRecord>) -> Seq<MessageRecordV> {
    s.map_values(|m: MessageRecord| m@)
}

/// The event a tag list points at: the second field of the first `e` tag.
pub open spec fn reply_target(tags: Seq<Seq<Seq<char>>>) -> Option<Seq<char>>
    decreases tags.len(),
{
    if tags.len() == 0 {
        None
    } else if tags[0].len() >= 2 && tags[0][0] == seq!['e'] {
        Some(tags[0][1])
    } else {
        reply_target(tags.drop_first())
    }
}

/// Finds the event a tag list points at, scanning forward.
pub(crate) fn reply_target_exec(tags: &Vec<Tag>) -> (r: Option<String>)
    ensures
        opt_view(r) == reply_target(tags_view(tags@)),
{
    let ghost tv = tags_view(tags@);
    let mut i: usize = 0;
    proof {
        assert(tv.skip(0) =~= tv);
    }
    while i < tags.len()
        invariant
            i <= tags@.len(),
            tv == tags_view(tags@),
            reply_target(tv) == reply_target(tv.skip(i as int)),
        decreases tags@.len() - i,
    {
        let t = &tags[i];
        proof {
            reveal_strlit("e");
            assert(tv.skip(i as int)[0] == tv[i as int]);
            assert(tv[i as int] == t@);
            assert(tv.skip(i as int).drop_first() =~= tv.skip(i as int + 1));
            assert("e"@ =~= seq!['e']);
        }
        if t.fields.len() >= 2 && str_eq(t.fields[0].as_str(), "e") {
            proof {
                assert(t@[0] == t.fields@[0]@);
                assert(t@[1] == t.fields@[1]@);
            }
            return Some(t.fields[1].clone());
        }
        proof {
            assert(t@.len() == t.fields@.len());
            if t@.len() >= 2 {
                assert(t@[0] == t.fields@[0]@);
            }
        }
        i += 1;
    }
    proof {
        assert(tv.skip(tags@.len() as int) =~= Seq::<Seq<Seq<char>>>::empty());
    }
    None
}

/// One sent message with its parsed tokens.
#[derive(Debug)]
pub struct MessageWithTokens {
    pub id: String,
    pub pubkey: String,
    pub kind: u16,
    pub created_at: u64,
    pub content: Option<String>,
    pub tokens: Vec<SerializableToken>,
}

/// The mathematical shape of a sent message.
pub struct MessageWithTokensV {
    pub id: Seq<char>,
    pub pubkey: Seq<char>,
    pub kind: u16,
    pub created_at: u64,
    pub content: Option<Seq<char>>,
    pub tokens: Seq<TokenV>,
}

impl View for MessageWithTokens {
    type V = MessageWithTokensV;

    open spec fn view(&self) -> MessageWithTokensV {
        MessageWithTokensV {
            id: self.id@,
            pubkey: self.pubkey@,
            kind: self.kind,
            created_at: self.created_at,
            content: opt_view(self.content),
            tokens: token_views(self.tokens@),
        }
    }
}

/// One decrypted, decoded chat message, derived from its backing events.
#[derive(Debug)]
pub struct ChatMessage {
    pub id: String,
    pub pubkey: String,
    pub content: String,
    pub created_at: u64,
    pub tags: Vec<Tag>,
    pub is_reply: bool,
    pub reply_to_id: Option<String>,
    pub is_deleted: bool,
    pub content_tokens: Vec<SerializableToken>,
    pub reactions: ReactionSummary,
    pub kind: u16,
}

/// The mathematical shape of a chat message.
pub struct ChatMessageV {
    pub id: Seq<char>,
    pub pubkey: Seq<char>,
    pub content: Seq<char>,
    pub created_at: u64,
    pub tags: Seq<Seq<Seq<char>>>,
    pub is_reply: bool,
    pub reply_to_id: Option<Seq<char>>,
    pub is_deleted: bool,
    pub content_tokens: Seq<TokenV>,
    pub reactions: ReactionSummaryV,
    pub kind: u16,
}

impl View for ChatMessage {
    type V = ChatMessageV;

    open spec fn view(&self) -> ChatMessageV {
        ChatMessageV {
            id: self.id@,
            pubkey: self.pubkey@,
            content: self.content@,
            created_at: self.created_at,
            tags: tags_view(self.tags@),
            is_reply: self.is_reply,
            reply_to_id: opt_view(self.reply_to_id),
            is_deleted: self.is_deleted,
            content_tokens: token_views(self.content_tokens@),
            reactions: self.reactions@,
            kind: self.kind,
        }
    }
}


/// The views of the chat messages.
pub open spec fn chat_views(s: Seq<ChatMessage>) -> Seq<ChatMessageV> {
    s.map_values(|c: ChatMessage| c@)
}

/// The raw events of one group, in arrival order.
pub open spec fn group_events(msgs: Seq<MessageRecordV>, gid: Seq<char>) -> Seq<MessageRecordV> {
    msgs.filter(|m: MessageRecordV| m.group_id == gid)
}

/// Whether a protocol kind carries content rather than a deletion or a
/// reaction.
pub open spec fn is_base_kind(k: u16) -> bool {
    k != 5 && k != 7
}

/// The content-bearing events of a group, in arrival order.
pub open spec fn base_events(evs: Seq<MessageRecordV>) -> Seq<MessageRecordV> {
    evs.filter(|m: MessageRecordV| is_base_kind(m.kind))
}

/// The reaction events targeting one message, as reaction inputs.
pub open spec fn reaction_events_for(evs: Seq<MessageRecordV>, id: Seq<char>) -> Seq<
    ReactionEventV,
> {
    evs.filter(|m: MessageRecordV| m.kind == 7 && reply_target(m.tags) == Some(id)).map_values(
        |m: MessageRecordV| ReactionEventV {
            user: m.author,
            emoji: m.content,
            content: m.content,
            created_at: m.created_at,
        },
    )
}

/// Whether some deletion event targets one message.
pub open spec fn deleted_in(evs: Seq<MessageRecordV>, id: Seq<char>) -> bool {
    exists|i: int|
        0 <= i < evs.len() && (#[trigger] evs[i]).kind == 5 && reply_target(evs[i].tags) == Some(
            id,
        )
}

/// The chat message one content event derives to, against the whole event
/// set of its group: deletion events flip the deleted flag but the content
/// is retained, reactions are aggregated, the content is tokenized.
pub open spec fn chat_message_spec(evs: Seq<MessageRecordV>, m: MessageRecordV) -> ChatMessageV {
    ChatMessageV {
        id: m.id,
        pubkey: m.author,
        content: m.content,
        created_at: m.created_at,
        tags: m.tags,
        is_reply: reply_target(m.tags) is Some,
        reply_to_id: reply_target(m.tags),
        is_deleted: deleted_in(evs, m.id),
        content_tokens: crate::tokenizer::tokenize_spec(m.content),
        reactions: crate::reactions::reaction_summary_spec(reaction_events_for(evs, m.id)),
        kind: m.kind,
    }
}

/// The chat messages derived from the first `k` events of a group's event
/// set, each aggregated against the whole set.
pub open spec fn chat_messages_partial(evs: Seq<MessageRecordV>, k: int) -> Seq<ChatMessageV> {
    base_events(evs.take(k)).map_values(|m: MessageRecordV| chat_message_spec(evs, m))
}

/// The chat messages a group's event set derives to.
pub open spec fn chat_messages_spec(evs: Seq<MessageRecordV>) -> Seq<ChatMessageV> {
    chat_messages_partial(evs, evs.len() as int)
}

/// Filtering raw events distributes over push.
proof fn lemma_event_filter_push(
    evs: Seq<MessageRecordV>,
    pred: spec_fn(MessageRecordV) -> bool,
    x: MessageRecordV,
)
    ensures
        evs.push(x).filter(pred) == if pred(x) {
            evs.filter(pred).push(x)
        } else {
            evs.filter(pred)
        },
{
    reveal(Seq::filter);
    assert(evs.push(x).drop_last() =~= evs);
}

impl Whitenoise {
    /// Collects the raw events of one group, in arrival order.
    fn collect_group_events(&self, group_id: &str) -> (r: Vec<MessageRecord>)
        ensures
            message_records_view(r@) == group_events(
                message_records_view(self.messages@),
                group_id@,
            ),
    {
        let ghost msgs = message_records_view(self.messages@);
        let mut out: Vec<MessageRecord> = Vec::new();
        let mut i: usize = 0;
        proof {
            reveal(Seq::filter);
            assert(msgs.take(0) =~= Seq::<MessageRecordV>::empty());
            assert(message_records_view(out@) =~= group_events(msgs.take(0), group_id@));
        }
        while i < self.messages.len()
            invariant
                i <= self.messages@.len(),
                msgs == message_records_view(self.messages@),
                message_records_view(out@) == group_events(msgs.take(i as int), group_id@),
            decreases self.messages@.len() - i,
        {
            let ghost o0 = out@;
            let ev = &self.messages[i];
            proof {
                assert(msgs.take(i as int + 1) =~= msgs.take(i as int).push(ev@));
                lemma_event_filter_push(
                    msgs.take(i as int),
                    |m: MessageRecordV| m.group_id == group_id@,
                    ev@,
                );
            }
            if str_eq(ev.group_id.as_str(), group_id) {
                out.push(ev.clone());
                proof {
                    assert(message_records_view(out@) =~= message_records_view(o0).push(ev@));
                    assert(message_records_view(out@) =~= group_events(
                        msgs.take(i as int + 1),
                        group_id@,
                    ));
                }
            } else {
                proof {
                    assert(message_records_view(out@) =~= group_events(
                        msgs.take(i as int + 1),
                        group_id@,
                    ));
                }
            }
            i += 1;
        }
        proof {
            assert(msgs.take(self.messages@.len() as int) =~= msgs);
        }
        out
    }

    /// Sends one message into a group: the raw event is stored under a
    /// fresh identifier, the group's last-message pointer moves, and the
    /// parsed tokens come back with the message. Requires a member author
    /// on an active group.
    pub fn send_message_to_group(
        &mut self,
        pubkey: String,
        group_id: String,
        message: String,
        kind: u16,
        tags: Option<Vec<Tag>>,
        now: u64,
    ) -> (r: Result<MessageWithTokens, WhitenoiseError>)
        ensures
            ({
                let recs = crate::groups::group_records_view(old(self).groups@);
                let gi = old(self).group_index(group_id@);
                let structural_ok = crate::encoding::valid_pubkey(pubkey@)
                    && crate::encoding::hex_valid(group_id@) && old(self).account_exists(pubkey@)
                    && gi != -1;
                let allowed = structural_ok && recs[gi].group.state is Active
                    && recs[gi].members.contains(pubkey@);
                let tv = match tags {
                    Some(v) => tags_view(v@),
                    None => Seq::<Seq<Seq<char>>>::empty(),
                };
                let new_event = MessageRecordV {
                    group_id: group_id@,
                    id: crate::encoding::hex_of(crate::encoding::u64_be_bytes(old(self).next_id)),
                    author: pubkey@,
                    kind: kind,
                    created_at: now,
                    content: message@,
                    tags: tv,
                };
                &&& (r is Ok <==> allowed && old(self).next_id < u64::MAX)
                &&& (structural_ok && !(recs[gi].group.state is Active) ==> r == Result::<
                    MessageWithTokens,
                    WhitenoiseError,
                >::Err(WhitenoiseError::GroupNotActive))
                &&& (structural_ok && recs[gi].group.state is Active && !recs[gi].members.contains(
                    pubkey@,
                ) ==> r == Result::<MessageWithTokens, WhitenoiseError>::Err(
                    WhitenoiseError::UnknownMember,
                ))
                &&& (r is Err ==> *final(self) == *old(self))
                &&& (r is Ok ==> {
                    &&& message_records_view(final(self).messages@) == message_records_view(
                        old(self).messages@,
                    ).push(new_event)
                    &&& crate::groups::group_records_view(final(self).groups@) == recs.update(
                        gi,
                        crate::groups::GroupRecordV {
                            group: crate::groups::GroupV {
                                last_message_id: Some(new_event.id),
                                last_message_at: Some(now),
                                ..recs[gi].group
                            },
                            ..recs[gi]
                        },
                    )
                    &&& final(self).next_id == old(self).next_id + 1
                    &&& r.unwrap()@ == (MessageWithTokensV {
                        id: new_event.id,
                        pubkey: pubkey@,
                        kind: kind,
                        created_at: now,
                        content: Some(message@),
                        tokens: crate::tokenizer::tokenize_spec(message@),
                    })
                    &&& final(self).accounts == old(self).accounts
                    &&& final(self).users == old(self).users
                    &&& final(self).relays == old(self).relays
                    &&& final(self).key_packages == old(self).key_packages
                    &&& final(self).follows == old(self).follows
                    &&& final(self).welcomes == old(self).welcomes
                    &&& final(self).relay_statuses == old(self).relay_statuses
                    &&& final(self).config == old(self).config
                })
            }),
            crate::groups::groups_wf(crate::groups::group_records_view(old(self).groups@))
                ==> crate::groups::groups_wf(
                crate::groups::group_records_view(final(self).groups@),
            ),
    {
        if !crate::encoding::check_pubkey(pubkey.as_str()) {
            return Err(WhitenoiseError::InvalidPublicKey);
        }
        if crate::encoding::hex_decode(group_id.as_str()).is_none() {
            return Err(WhitenoiseError::InvalidEncoding);
        }
        if self.find_account(pubkey.as_str()).is_none() {
            return Err(WhitenoiseError::AccountNotFound);
        }
        let gi = match self.find_group(group_id.as_str()) {
            None => {
                return Err(WhitenoiseError::GroupNotFound);
            },
            Some(gi) => gi,
        };
        let ghost recs = crate::groups::group_records_view(self.groups@);
        proof {
            assert(recs[gi as int] == self.groups@[gi as int]@);
        }
        if !matches!(self.groups[gi].group.state, crate::groups::GroupState::Active) {
            return Err(WhitenoiseError::GroupNotActive);
        }
        if !crate::session::string_vec_contains(&self.groups[gi].members, pubkey.as_str()) {
            return Err(WhitenoiseError::UnknownMember);
        }
        if self.next_id == u64::MAX {
            return Err(
                WhitenoiseError::Other { message: "local identifier space exhausted".to_owned() },
            );
        }
        let id = crate::encoding::local_id_string(self.next_id);
        let tag_vec = match tags {
            Some(v) => v,
            None => Vec::new(),
        };
        proof {
            assert(tags_view(Seq::<Tag>::empty()) =~= Seq::<Seq<Seq<char>>>::empty());
        }
        let tokens = crate::tokenizer::tokenize(message.as_str());
        let event = MessageRecord {
            group_id: group_id.clone(),
            id: id.clone(),
            author: pubkey.clone(),
            kind,
            created_at: now,
            content: message.clone(),
            tags: tag_vec,
        };
        let ghost msgs0 = message_records_view(self.messages@);
        let ghost ev = event@;
        self.messages.push(event);
        proof {
            assert(message_records_view(self.messages@) =~= msgs0.push(ev));
        }
        let rec = &self.groups[gi];
        let group = crate::groups::Group {
            mls_group_id: rec.group.mls_group_id.clone(),
            nostr_group_id: rec.group.nostr_group_id.clone(),
            name: rec.group.name.clone(),
            description: rec.group.description.clone(),
            image_hash: rec.group.image_hash,
            image_key: rec.group.image_key,
            admin_pubkeys: crate::session::clone_string_vec(&rec.group.admin_pubkeys),
            last_message_id: Some(id.clone()),
            last_message_at: Some(now),
            epoch: rec.group.epoch,
            state: rec.group.state,
        };
        let group_type = rec.group_type;
        let members = crate::session::clone_string_vec(&rec.members);
        let relays = crate::session::clone_string_vec(&rec.relays);
        let newrec = crate::groups::GroupRecord { group, group_type, members, relays };
        proof {
            assert(newrec@ == (crate::groups::GroupRecordV {
                group: crate::groups::GroupV {
                    last_message_id: Some(ev.id),
                    last_message_at: Some(now),
                    ..recs[gi as int].group
                },
                ..recs[gi as int]
            }));
        }
        self.groups.set(gi, newrec);
        self.next_id = self.next_id + 1;
        proof {
            assert(crate::groups::group_records_view(self.groups@) =~= recs.update(
                gi as int,
                crate::groups::GroupRecordV {
                    group: crate::groups::GroupV {
                        last_message_id: Some(ev.id),
                        last_message_at: Some(now),
                        ..recs[gi as int].group
                    },
                    ..recs[gi as int]
                },
            ));
            if crate::groups::groups_wf(recs) {
                assert forall|i: int|
                    0 <= i < crate::groups::group_records_view(self.groups@).len() implies ((
                #[trigger] crate::groups::group_records_view(self.groups@)[i]).group_type
                    is DirectMessage ==> crate::groups::group_records_view(
                    self.groups@,
                )[i].members.len() == 2) by {
                    if i != gi as int {
                        assert(crate::groups::group_records_view(self.groups@)[i] == recs[i]);
                    }
                }
            }
        }
        Ok(
            MessageWithTokens {
                id,
                pubkey,
                kind,
                created_at: now,
                content: Some(message),
                tokens,
            },
        )
    }

    /// Checks whether some deletion event in a set targets one message.
    fn deletion_targets(&self, evs: &Vec<MessageRecord>, id: &String) -> (r: bool)
        ensures
            r == deleted_in(message_records_view(evs@), id@),
    {
        let ghost evv = message_records_view(evs@);
        let mut i: usize = 0;
        while i < evs.len()
            invariant
                i <= evs@.len(),
                evv == message_records_view(evs@),
                forall|j: int|
                    0 <= j < i ==> !((#[trigger] evv[j]).kind == 5 && reply_target(evv[j].tags)
                        == Some(id@)),
            decreases evs@.len() - i,
        {
            let ev = &evs[i];
            proof {
                assert(evv[i as int] == ev@);
            }
            if ev.kind == 5 {
                match reply_target_exec(&ev.tags) {
                    Some(t) => {
                        if str_eq(t.as_str(), id.as_str()) {
                            assert(evv[i as int].kind == 5 && reply_target(evv[i as int].tags)
                                == Some(id@));
                            return true;
                        }
                    },
                    None => {},
                }
            }
            i += 1;
        }
        proof {
            if deleted_in(evv, id@) {
                let j = choose|j: int|
                    0 <= j < evv.len() && (#[trigger] evv[j]).kind == 5 && reply_target(
                        evv[j].tags,
                    ) == Some(id@);
                assert(!(evv[j].kind == 5 && reply_target(evv[j].tags) == Some(id@)));
            }
        }
        false
    }

    /// Collects the reaction events of a set that target one message.
    fn collect_reactions(&self, evs: &Vec<MessageRecord>, id: &String) -> (r: Vec<ReactionEvent>)
        ensures
            crate::reactions::events_view(r@) == reaction_events_for(
                message_records_view(evs@),
                id@,
            ),
    {
        let ghost evv = message_records_view(evs@);
        let mut out: Vec<ReactionEvent> = Vec::new();
        let mut i: usize = 0;
        proof {
            reveal(Seq::filter);
            assert(evv.take(0) =~= Seq::<MessageRecordV>::empty());
            assert(crate::reactions::events_view(out@) =~= reaction_events_for(
                evv.take(0),
                id@,
            ));
        }
        while i < evs.len()
            invariant
                i <= evs@.len(),
                evv == message_records_view(evs@),
                crate::reactions::events_view(out@) == reaction_events_for(
                    evv.take(i as int),
                    id@,
                ),
            decreases evs@.len() - i,
        {
            let ghost o0 = out@;
            let ev = &evs[i];
            proof {
                assert(evv.take(i as int + 1) =~= evv.take(i as int).push(ev@));
                lemma_event_filter_push(
                    evv.take(i as int),
                    |m: MessageRecordV| m.kind == 7 && reply_target(m.tags) == Some(id@),
                    ev@,
                );
            }
            let is_reaction = if ev.kind == 7 {
                match reply_target_exec(&ev.tags) {
                    Some(t) => str_eq(t.as_str(), id.as_str()),
                    None => false,
                }
            } else {
                false
            };
            if is_reaction {
                out.push(
                    ReactionEvent {
                        user: ev.author.clone(),
                        emoji: ev.content.clone(),
                        content: ev.content.clone(),
                        created_at: ev.created_at,
                    },
                );
                proof {
                    assert(crate::reactions::events_view(out@) =~= crate::reactions::events_view(
                        o0,
                    ).push(
                        ReactionEventV {
                            user: ev@.author,
                            emoji: ev@.content,
                            content: ev@.content,
                            created_at: ev@.created_at,
                        },
                    ));
                    assert(crate::reactions::events_view(out@) =~= reaction_events_for(
                        evv.take(i as int + 1),
                        id@,
                    ));
                }
            } else {
                proof {
                    assert(crate::reactions::events_view(out@) =~= reaction_events_for(
                        evv.take(i as int + 1),
                        id@,
                    ));
                }
            }
            i += 1;
        }
        proof {
            assert(evv.take(evs@.len() as int) =~= evv);
        }
        out
    }

    /// Recomputes the chat messages of one group from its raw events:
    /// content events in arrival order, each with its parsed tokens,
    /// aggregated reactions, reply pointer and deletion flag.
    pub fn fetch_aggregated_messages_for_group(&self, pubkey: String, group_id: String) -> (r:
        Result<Vec<ChatMessage>, WhitenoiseError>)
        ensures
            r is Ok <==> crate::encoding::valid_pubkey(pubkey@) && crate::encoding::hex_valid(
                group_id@,
            ) && self.account_exists(pubkey@) && self.group_index(group_id@) != -1,
            r is Ok ==> chat_views(r.unwrap()@) == chat_messages_spec(
                group_events(message_records_view(self.messages@), group_id@),
            ),
    {
        if !crate::encoding::check_pubkey(pubkey.as_str()) {
            return Err(WhitenoiseError::InvalidPublicKey);
        }
        if crate::encoding::hex_decode(group_id.as_str()).is_none() {
            return Err(WhitenoiseError::InvalidEncoding);
        }
        if self.find_account(pubkey.as_str()).is_none() {
            return Err(WhitenoiseError::AccountNotFound);
        }
        if self.find_group(group_id.as_str()).is_none() {
            return Err(WhitenoiseError::GroupNotFound);
        }
        let evs = self.collect_group_events(group_id.as_str());
        let ghost evv = message_records_view(evs@);
        let mut out: Vec<ChatMessage> = Vec::new();
        let mut k: usize = 0;
        proof {
            reveal(Seq::filter);
            assert(evv.take(0) =~= Seq::<MessageRecordV>::empty());
            assert(base_events(evv.take(0)) =~= Seq::<MessageRecordV>::empty());
            assert(chat_views(out@) =~= chat_messages_partial(evv, 0));
        }
        while k < evs.len()
            invariant
                k <= evs@.len(),
                evv == message_records_view(evs@),
                chat_views(out@) == chat_messages_partial(evv, k as int),
            decreases evs@.len() - k,
        {
            let ghost o0 = out@;
            let ev = &evs[k];
            proof {
                assert(evv.take(k as int + 1) =~= evv.take(k as int).push(ev@));
                lemma_event_filter_push(
                    evv.take(k as int),
                    |m: MessageRecordV| is_base_kind(m.kind),
                    ev@,
                );
            }
            if ev.kind != 5 && ev.kind != 7 {
                let reactions_vec = self.collect_reactions(&evs, &ev.id);
                let reactions = crate::reactions::aggregate_reactions(&reactions_vec);
                let is_deleted = self.deletion_targets(&evs, &ev.id);
                let content_tokens = crate::tokenizer::tokenize(ev.content.as_str());
                let reply_to_id = reply_target_exec(&ev.tags);
                let is_reply = reply_to_id.is_some();
                let msg = ChatMessage {
                    id: ev.id.clone(),
                    pubkey: ev.author.clone(),
                    content: ev.content.clone(),
                    created_at: ev.created_at,
                    tags: clone_tags(&ev.tags),
                    is_reply,
                    reply_to_id,
                    is_deleted,
                    content_tokens,
                    reactions,
                    kind: ev.kind,
                };
                proof {
                    assert(msg@ == chat_message_spec(evv, ev@));
                }
                out.push(msg);
                proof {
                    assert(chat_views(out@) =~= chat_views(o0).push(chat_message_spec(evv, ev@)));
                    assert(chat_views(out@) =~= chat_messages_partial(evv, k as int + 1));
                }
            } else {
                proof {
                    assert(chat_views(out@) =~= chat_messages_partial(evv, k as int + 1));
                }
            }
            k += 1;
        }
        proof {
            assert(evv.take(evs@.len() as int) =~= evv);
        }
        Ok(out)
    }
}

} // verus!
