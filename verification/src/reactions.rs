//! Emoji reaction aggregation.
//!
//! Raw reaction events referencing one message are folded, in arrival order,
//! into per-(user, emoji) entries: a later event by the same user on the same
//! emoji replaces the earlier one (last write wins), and an event whose
//! content is empty or whitespace retracts the user's reaction. The summary
//! derived from the entries groups active reactions by emoji in first-seen
//! order, counts distinct users, and lists the winning reactions in
//! chronological order.

use vstd::prelude::*;
use vstd::pervasive::VecAdditionalExecFns;

verus! {

/// One raw reaction event targeting one message.
#[derive(Debug)]
pub struct ReactionEvent {
    /// Reacting user's public key.
    pub user: String,
    /// The emoji reacted with.
    pub emoji: String,
    /// Raw event content; empty or whitespace means retraction.
    pub content: String,
    /// Event timestamp, seconds.
    pub created_at: u64,
}

/// The mathematical shape of a reaction event.
pub struct ReactionEventV {
    pub user: Seq<char>,
    pub emoji: Seq<char>,
    pub content: Seq<char>,
    pub created_at: u64,
}

impl View for ReactionEvent {
    type V = ReactionEventV;

    open spec fn view(&self) -> ReactionEventV {
        ReactionEventV {
            user: self.user@,
            emoji: self.emoji@,
            content: self.content@,
            created_at: self.created_at,
        }
    }
}

/// One winning reaction, for "who reacted when" views.
#[derive(Debug)]
pub struct UserReaction {
    pub user: String,
    pub emoji: String,
    pub created_at: u64,
}

/// The mathematical shape of a winning reaction.
pub struct UserReactionV {
    pub user: Seq<char>,
    pub emoji: Seq<char>,
    pub created_at: u64,
}

impl View for UserReaction {
    type V = UserReactionV;

    open spec fn view(&self) -> UserReactionV {
        UserReactionV { user: self.user@, emoji: self.emoji@, created_at: self.created_at }
    }
}

impl Clone for UserReaction {
    fn clone(&self) -> (r: Self)
        ensures
            r@ == self@,
    {
        UserReaction {
            user: self.user.clone(),
            emoji: self.emoji.clone(),
            created_at: self.created_at,
        }
    }
}

/// All active reactions with one emoji.
#[derive(Debug)]
pub struct EmojiReaction {
    pub emoji: String,
    /// Number of distinct reacting users.
    pub count: u64,
    /// The distinct reacting users, in first-seen order.
    pub users: Vec<String>,
}

/// The mathematical shape of an emoji group.
pub struct EmojiReactionV {
    pub emoji: Seq<char>,
    pub count: int,
    pub users: Seq<Seq<char>>,
}

/// The views of a vector of user keys.
pub open spec fn users_view(s: Seq<String>) -> Seq<Seq<char>> {
    s.map_values(|u: String| u@)
}

impl View for EmojiReaction {
    type V = EmojiReactionV;

    open spec fn view(&self) -> EmojiReactionV {
        EmojiReactionV {
            emoji: self.emoji@,
            count: self.count as int,
            users: users_view(self.users@),
        }
    }
}

/// The aggregate of all reactions targeting one message.
#[derive(Debug)]
pub struct ReactionSummary {
    pub by_emoji: Vec<EmojiReaction>,
    pub user_reactions: Vec<UserReaction>,
}

/// The mathematical shape of a reaction summary.
pub struct ReactionSummaryV {
    pub by_emoji: Seq<EmojiReactionV>,
    pub user_reactions: Seq<UserReactionV>,
}

/// The views of a vector of emoji groups.
pub open spec fn groups_view(s: Seq<EmojiReaction>) -> Seq<EmojiReactionV> {
    s.map_values(|g: EmojiReaction| g@)
}

/// The views of a vector of winning reactions.
pub open spec fn reactions_view(s: Seq<UserReaction>) -> Seq<UserReactionV> {
    s.map_values(|u: UserReaction| u@)
}

/// The views of a vector of reaction events.
pub open spec fn events_view(s: Seq<ReactionEvent>) -> Seq<ReactionEventV> {
    s.map_values(|e: ReactionEvent| e@)
}

impl View for ReactionSummary {
    type V = ReactionSummaryV;

    open spec fn view(&self) -> ReactionSummaryV {
        ReactionSummaryV {
            by_emoji: groups_view(self.by_emoji@),
            user_reactions: reactions_view(self.user_reactions@),
        }
    }
}

/// A whitespace character, for the retraction rule.
pub open spec fn is_space_char(c: char) -> bool {
    c == ' ' || c == '\t' || c == '\n' || c == '\r'
}

/// Empty or whitespace content retracts the user's reaction.
pub open spec fn is_retraction(content: Seq<char>) -> bool {
    forall|i: int| 0 <= i < content.len() ==> is_space_char(#[trigger] content[i])
}

/// One per-(user, emoji) entry of the fold: the user's currently winning
/// event, active unless that event was a retraction.
pub struct ReactionEntry {
    pub user: Seq<char>,
    pub emoji: Seq<char>,
    pub created_at: u64,
    pub active: bool,
}

/// The entry one event induces.
pub open spec fn entry_of(e: ReactionEventV) -> ReactionEntry {
    ReactionEntry {
        user: e.user,
        emoji: e.emoji,
        created_at: e.created_at,
        active: !is_retraction(e.content),
    }
}

/// Whether an entry belongs to a (user, emoji) pair.
pub open spec fn entry_matches(en: ReactionEntry, user: Seq<char>, emoji: Seq<char>) -> bool {
    en.user == user && en.emoji == emoji
}

/// The first entry of a (user, emoji) pair, or -1.
pub open spec fn find_entry(st: Seq<ReactionEntry>, user: Seq<char>, emoji: Seq<char>) -> int
    decreases st.len(),
{
    if st.len() == 0 {
        -1
    } else if entry_matches(st[0], user, emoji) {
        0
    } else {
        let r = find_entry(st.drop_first(), user, emoji);
        if r == -1 {
            -1
        } else {
            r + 1
        }
    }
}

/// `find_entry` returns the first matching index, or -1 when none matches.
pub proof fn lemma_find_entry(st: Seq<ReactionEntry>, user: Seq<char>, emoji: Seq<char>)
    ensures
        find_entry(st, user, emoji) == -1 ==> forall|j: int|
            0 <= j < st.len() ==> !entry_matches(#[trigger] st[j], user, emoji),
        find_entry(st, user, emoji) != -1 ==> {
            let r = find_entry(st, user, emoji);
            &&& 0 <= r < st.len()
            &&& entry_matches(st[r], user, emoji)
            &&& forall|j: int| 0 <= j < r ==> !entry_matches(#[trigger] st[j], user, emoji)
        },
    decreases st.len(),
{
    if st.len() > 0 && !entry_matches(st[0], user, emoji) {
        lemma_find_entry(st.drop_first(), user, emoji);
        assert forall|j: int| 1 <= j < st.len() implies st.drop_first()[j - 1] == st[j] by {}
    }
}

/// Folds one event into the entries: a new pair is appended; an event at or
/// after the stored timestamp replaces the stored entry; a stale event is
/// ignored.
pub open spec fn apply_event(st: Seq<ReactionEntry>, e: ReactionEventV) -> Seq<ReactionEntry> {
    let i = find_entry(st, e.user, e.emoji);
    if i == -1 {
        st.push(entry_of(e))
    } else if e.created_at >= st[i].created_at {
        st.update(i, entry_of(e))
    } else {
        st
    }
}

/// The entries of a whole event sequence, folded in order.
pub open spec fn fold_events(es: Seq<ReactionEventV>) -> Seq<ReactionEntry>
    decreases es.len(),
{
    if es.len() == 0 {
        Seq::empty()
    } else {
        apply_event(fold_events(es.drop_last()), es.last())
    }
}

/// Applying one event twice changes no more than applying it once.
pub proof fn lemma_apply_idempotent(st: Seq<ReactionEntry>, e: ReactionEventV)
    ensures
        apply_event(apply_event(st, e), e) == apply_event(st, e),
{
    lemma_find_entry(st, e.user, e.emoji);
    let i = find_entry(st, e.user, e.emoji);
    let st1 = apply_event(st, e);
    lemma_find_entry(st1, e.user, e.emoji);
    if i == -1 {
        assert(entry_matches(st1[st.len() as int], e.user, e.emoji));
        assert(find_entry(st1, e.user, e.emoji) == st.len());
        assert(st1.update(st.len() as int, entry_of(e)) =~= st1);
    } else if e.created_at >= st[i].created_at {
        assert(entry_matches(st1[i], e.user, e.emoji));
        assert(find_entry(st1, e.user, e.emoji) == i);
        assert(st1.update(i, entry_of(e)) =~= st1);
    }
}

/// Of two events by one user on one emoji, applying the earlier and then the
/// later leaves exactly what applying the later alone leaves.
pub proof fn lemma_apply_last_write_wins(
    st: Seq<ReactionEntry>,
    e1: ReactionEventV,
    e2: ReactionEventV,
)
    requires
        e1.user == e2.user,
        e1.emoji == e2.emoji,
        e1.created_at <= e2.created_at,
    ensures
        apply_event(apply_event(st, e1), e2) == apply_event(st, e2),
{
    lemma_find_entry(st, e1.user, e1.emoji);
    let i = find_entry(st, e1.user, e1.emoji);
    let st1 = apply_event(st, e1);
    lemma_find_entry(st1, e2.user, e2.emoji);
    if i == -1 {
        assert(entry_matches(st1[st.len() as int], e2.user, e2.emoji));
        assert(find_entry(st1, e2.user, e2.emoji) == st.len());
        assert(st1.update(st.len() as int, entry_of(e2)) =~= st.push(entry_of(e2)));
    } else if e1.created_at >= st[i].created_at {
        assert(entry_matches(st1[i], e2.user, e2.emoji));
        assert(find_entry(st1, e2.user, e2.emoji) == i);
        assert(st1.update(i, entry_of(e2)) =~= st.update(i, entry_of(e2)));
    }
}

/// The entries that still stand for a visible reaction.
pub open spec fn active_entries(st: Seq<ReactionEntry>) -> Seq<ReactionEntry> {
    st.filter(|en: ReactionEntry| en.active)
}

/// The emojis of a sequence of entries, first seen first.
pub open spec fn emojis_of(s: Seq<ReactionEntry>) -> Seq<Seq<char>>
    decreases s.len(),
{
    if s.len() == 0 {
        Seq::empty()
    } else {
        let pre = emojis_of(s.drop_last());
        if pre.contains(s.last().emoji) {
            pre
        } else {
            pre.push(s.last().emoji)
        }
    }
}

/// The users holding an active reaction with one emoji, in entry order.
pub open spec fn users_for(s: Seq<ReactionEntry>, emoji: Seq<char>) -> Seq<Seq<char>> {
    s.filter(|en: ReactionEntry| en.emoji == emoji).map_values(|en: ReactionEntry| en.user)
}

/// The emoji group derived for one emoji.
pub open spec fn emoji_group_of(s: Seq<ReactionEntry>, emoji: Seq<char>) -> EmojiReactionV {
    EmojiReactionV {
        emoji: emoji,
        count: users_for(s, emoji).len() as int,
        users: users_for(s, emoji),
    }
}

/// The winning reaction an entry stands for.
pub open spec fn reaction_of_entry(en: ReactionEntry) -> UserReactionV {
    UserReactionV { user: en.user, emoji: en.emoji, created_at: en.created_at }
}

/// Stable insertion by timestamp: the new element goes after every element
/// at or before its timestamp.
pub open spec fn insert_by_ts(s: Seq<UserReactionV>, x: UserReactionV) -> Seq<UserReactionV>
    decreases s.len(),
{
    if s.len() > 0 && s.last().created_at > x.created_at {
        insert_by_ts(s.drop_last(), x).push(s.last())
    } else {
        s.push(x)
    }
}

/// Stable sort by timestamp.
pub open spec fn sort_by_ts(s: Seq<UserReactionV>) -> Seq<UserReactionV>
    decreases s.len(),
{
    if s.len() == 0 {
        Seq::empty()
    } else {
        insert_by_ts(sort_by_ts(s.drop_last()), s.last())
    }
}

/// The by-emoji groups a sequence of active entries yields, first-seen
/// emoji order.
pub open spec fn by_emoji_of(act: Seq<ReactionEntry>) -> Seq<EmojiReactionV> {
    emojis_of(act).map_values(|em: Seq<char>| emoji_group_of(act, em))
}

/// The winning reactions of a sequence of active entries, entry order.
pub open spec fn winners_of(act: Seq<ReactionEntry>) -> Seq<UserReactionV> {
    act.map_values(|en: ReactionEntry| reaction_of_entry(en))
}

/// The summary a sequence of entries yields.
pub open spec fn summary_of(st: Seq<ReactionEntry>) -> ReactionSummaryV {
    let act = active_entries(st);
    ReactionSummaryV { by_emoji: by_emoji_of(act), user_reactions: sort_by_ts(winners_of(act)) }
}

/// The aggregate of a sequence of reaction events.
pub open spec fn reaction_summary_spec(es: Seq<ReactionEventV>) -> ReactionSummaryV {
    summary_of(fold_events(es))
}

/// Applying the same reaction event twice yields the same aggregate as
/// applying it once.
pub proof fn lemma_reaction_idempotent(es: Seq<ReactionEventV>, e: ReactionEventV)
    ensures
        reaction_summary_spec(es.push(e).push(e)) == reaction_summary_spec(es.push(e)),
{
    assert(es.push(e).drop_last() =~= es);
    assert(es.push(e).push(e).drop_last() =~= es.push(e));
    assert(fold_events(es.push(e)) == apply_event(fold_events(es), e));
    assert(fold_events(es.push(e).push(e)) == apply_event(apply_event(fold_events(es), e), e));
    lemma_apply_idempotent(fold_events(es), e);
}

/// Of two reactions by one user on one emoji, only the later one contributes
/// to the aggregate.
pub proof fn lemma_reaction_last_write_wins(
    es: Seq<ReactionEventV>,
    e1: ReactionEventV,
    e2: ReactionEventV,
)
    requires
        e1.user == e2.user,
        e1.emoji == e2.emoji,
        e1.created_at <= e2.created_at,
    ensures
        reaction_summary_spec(es.push(e1).push(e2)) == reaction_summary_spec(es.push(e2)),
{
    assert(es.push(e1).drop_last() =~= es);
    assert(es.push(e1).push(e2).drop_last() =~= es.push(e1));
    assert(es.push(e2).drop_last() =~= es);
    assert(fold_events(es.push(e1)) == apply_event(fold_events(es), e1));
    assert(fold_events(es.push(e1).push(e2)) == apply_event(
        apply_event(fold_events(es), e1),
        e2,
    ));
    assert(fold_events(es.push(e2)) == apply_event(fold_events(es), e2));
    lemma_apply_last_write_wins(fold_events(es), e1, e2);
}

/// One fold entry, executable form.
pub struct EntryE {
    pub user: String,
    pub emoji: String,
    pub created_at: u64,
    pub active: bool,
}

impl View for EntryE {
    type V = ReactionEntry;

    open spec fn view(&self) -> ReactionEntry {
        ReactionEntry {
            user: self.user@,
            emoji: self.emoji@,
            created_at: self.created_at,
            active: self.active,
        }
    }
}

/// The views of a vector of entries.
pub open spec fn entry_views(s: Seq<EntryE>) -> Seq<ReactionEntry> {
    s.map_values(|en: EntryE| en@)
}

/// Splitting a pushed element out of a filter.
proof fn lemma_filter_push<A>(s: Seq<A>, pred: spec_fn(A) -> bool, x: A)
    ensures
        s.push(x).filter(pred) == if pred(x) {
            s.filter(pred).push(x)
        } else {
            s.filter(pred)
        },
{
    reveal(Seq::filter);
    assert(s.push(x).drop_last() =~= s);
}

/// Checks whether content is empty or whitespace, the retraction rule.
fn is_retraction_exec(content: &str) -> (r: bool)
    ensures
        r == is_retraction(content@),
{
    let n = content.unicode_len();
    let mut i: usize = 0;
    while i < n
        invariant
            n == content@.len(),
            i <= n,
            forall|j: int| 0 <= j < i ==> is_space_char(#[trigger] content@[j]),
        decreases n - i,
    {
        let c = content.get_char(i);
        if !(c == ' ' || c == '\t' || c == '\n' || c == '\r') {
            return false;
        }
        i += 1;
    }
    true
}

/// Finds the entry of a (user, emoji) pair, scanning forward.
fn find_entry_exec(entries: &Vec<EntryE>, user: &String, emoji: &String) -> (r: Option<usize>)
    ensures
        match r {
            Some(i) => i < entries@.len() && find_entry(entry_views(entries@), user@, emoji@)
                == i as int,
            None => find_entry(entry_views(entries@), user@, emoji@) == -1,
        },
{
    let mut i: usize = 0;
    while i < entries.len()
        invariant
            i <= entries@.len(),
            forall|j: int|
                0 <= j < i ==> !entry_matches(
                    #[trigger] entry_views(entries@)[j],
                    user@,
                    emoji@,
                ),
        decreases entries@.len() - i,
    {
        let en = &entries[i];
        if en.user.eq(user) && en.emoji.eq(emoji) {
            proof {
                let st = entry_views(entries@);
                lemma_find_entry(st, user@, emoji@);
                let r = find_entry(st, user@, emoji@);
                assert(entry_matches(st[i as int], user@, emoji@));
                if r == -1 {
                } else if r < i as int {
                    assert(!entry_matches(st[r], user@, emoji@));
                } else if r > i as int {
                    assert(!entry_matches(st[i as int], user@, emoji@));
                }
            }
            return Some(i);
        }
        i += 1;
    }
    proof {
        let st = entry_views(entries@);
        lemma_find_entry(st, user@, emoji@);
        let r = find_entry(st, user@, emoji@);
        if r != -1 {
            assert(entry_matches(st[r], user@, emoji@));
        }
    }
    None
}

/// Folds the events into entries, in order.
fn fold_events_exec(events: &Vec<ReactionEvent>) -> (r: Vec<EntryE>)
    ensures
        entry_views(r@) == fold_events(events_view(events@)),
{
    let ghost evs = events_view(events@);
    let mut entries: Vec<EntryE> = Vec::new();
    let mut k: usize = 0;
    proof {
        assert(entry_views(entries@) =~= fold_events(evs.take(0)));
    }
    while k < events.len()
        invariant
            k <= events@.len(),
            evs == events_view(events@),
            entry_views(entries@) == fold_events(evs.take(k as int)),
        decreases events@.len() - k,
    {
        let ghost st0 = entry_views(entries@);
        let ev = &events[k];
        let active = !is_retraction_exec(ev.content.as_str());
        let en = EntryE {
            user: ev.user.clone(),
            emoji: ev.emoji.clone(),
            created_at: ev.created_at,
            active,
        };
        assert(en@ == entry_of(ev@));
        match find_entry_exec(&entries, &ev.user, &ev.emoji) {
            Some(i) => {
                if ev.created_at >= entries[i].created_at {
                    entries.set(i, en);
                    proof {
                        assert(entry_views(entries@) =~= st0.update(i as int, entry_of(ev@)));
                    }
                } else {
                    proof {
                        assert(entry_views(entries@) =~= apply_event(st0, ev@));
                    }
                }
            },
            None => {
                entries.push(en);
                proof {
                    assert(entry_views(entries@) =~= st0.push(entry_of(ev@)));
                }
            },
        }
        k += 1;
        proof {
            assert(evs.take(k as int).drop_last() =~= evs.take(k as int - 1));
            assert(evs.take(k as int).last() == ev@);
            assert(entry_views(entries@) =~= apply_event(st0, ev@));
        }
    }
    proof {
        assert(evs.take(events@.len() as int) =~= evs);
    }
    entries
}

/// Finds the group of an emoji in the summary built so far.
fn find_group_exec(groups: &Vec<EmojiReaction>, emoji: &String) -> (r: Option<usize>)
    ensures
        match r {
            Some(i) => i < groups@.len() && groups@[i as int].emoji@ == emoji@ && forall|j: int|
                0 <= j < i ==> groups@[j].emoji@ != emoji@,
            None => forall|j: int| 0 <= j < groups@.len() ==> groups@[j].emoji@ != emoji@,
        },
{
    let mut i: usize = 0;
    while i < groups.len()
        invariant
            i <= groups@.len(),
            forall|j: int| 0 <= j < i ==> groups@[j].emoji@ != emoji@,
        decreases groups@.len() - i,
    {
        if groups[i].emoji.eq(emoji) {
            return Some(i);
        }
        i += 1;
    }
    None
}

/// The emoji list never repeats an emoji, and covers every entry's emoji.
proof fn lemma_emojis_distinct(s: Seq<ReactionEntry>)
    ensures
        forall|a: int, b: int|
            0 <= a < b < emojis_of(s).len() ==> emojis_of(s)[a] != emojis_of(s)[b],
        forall|j: int| 0 <= j < s.len() ==> emojis_of(s).contains(#[trigger] s[j].emoji),
    decreases s.len(),
{
    if s.len() > 0 {
        lemma_emojis_distinct(s.drop_last());
        let pre = emojis_of(s.drop_last());
        let cur = emojis_of(s);
        if !pre.contains(s.last().emoji) {
            assert(cur == pre.push(s.last().emoji));
            assert forall|a: int, b: int| 0 <= a < b < cur.len() implies cur[a] != cur[b] by {
                if b == cur.len() - 1 {
                    assert(cur[b] == s.last().emoji);
                    assert(cur[a] == pre[a]);
                    if pre[a] == s.last().emoji {
                        assert(pre.contains(s.last().emoji));
                    }
                }
            }
        }
        assert forall|j: int| 0 <= j < s.len() implies cur.contains(#[trigger] s[j].emoji) by {
            if j < s.len() - 1 {
                assert(s.drop_last()[j] == s[j]);
                assert(pre.contains(s[j].emoji));
                let a = choose|a: int| 0 <= a < pre.len() && pre[a] == s[j].emoji;
                assert(cur[a] == s[j].emoji);
            } else {
                if pre.contains(s.last().emoji) {
                    let a = choose|a: int| 0 <= a < pre.len() && pre[a] == s.last().emoji;
                    assert(cur[a] == s.last().emoji);
                } else {
                    assert(cur[cur.len() - 1] == s.last().emoji);
                }
            }
        }
    }
}

/// Builds the by-emoji groups of a sequence of entries.
fn build_groups_exec(entries: &Vec<EntryE>) -> (r: Vec<EmojiReaction>)
    ensures
        groups_view(r@) == by_emoji_of(active_entries(entry_views(entries@))),
{
    let ghost all = entry_views(entries@);
    let mut groups: Vec<EmojiReaction> = Vec::new();
    let mut k: usize = 0;
    proof {
        assert(active_entries(all.take(0)) =~= Seq::<ReactionEntry>::empty()) by {
            reveal(Seq::filter);
        }
        assert(groups_view(groups@) =~= by_emoji_of(active_entries(all.take(0))));
    }
    while k < entries.len()
        invariant
            k <= entries@.len(),
            all == entry_views(entries@),
            groups_view(groups@) == by_emoji_of(active_entries(all.take(k as int))),
        decreases entries@.len() - k,
    {
        let ghost act0 = active_entries(all.take(k as int));
        let ghost g0 = groups_view(groups@);
        let en = &entries[k];
        proof {
            assert(all.take(k as int + 1) =~= all.take(k as int).push(en@));
            lemma_filter_push(all.take(k as int), |e: ReactionEntry| e.active, en@);
        }
        let ghost act1 = active_entries(all.take(k as int + 1));
        if en.active {
            proof {
                assert(act1 == act0.push(en@));
                lemma_emojis_distinct(act0);
                assert forall|em: Seq<char>| true implies users_for(act0.push(en@), em) == if em
                    == en@.emoji {
                    users_for(act0, em).push(en@.user)
                } else {
                    users_for(act0, em)
                } by {
                    lemma_filter_push(act0, |e: ReactionEntry| e.emoji == em, en@);
                    if em == en@.emoji {
                        assert(users_for(act0.push(en@), em) =~= users_for(act0, em).push(
                            en@.user,
                        ));
                    } else {
                        assert(users_for(act0.push(en@), em) =~= users_for(act0, em));
                    }
                }
            }
            match find_group_exec(&groups, &en.emoji) {
                Some(i) => {
                    proof {
                        assert(g0[i as int] == groups@[i as int]@);
                        assert(g0.len() == emojis_of(act0).len());
                        assert(by_emoji_of(act0)[i as int] == emoji_group_of(
                            act0,
                            emojis_of(act0)[i as int],
                        ));
                        assert(g0[i as int] == emoji_group_of(act0, emojis_of(act0)[i as int]));
                        assert(emojis_of(act0)[i as int] == en@.emoji);
                        assert(emojis_of(act0).contains(en@.emoji));
                        assert(act1.drop_last() =~= act0);
                        assert(act1.last() == en@);
                        assert(emojis_of(act1) == emojis_of(act0));
                    }
                    let ghost gs0 = groups@;
                    let mut g = groups.remove(i);
                    let ghost gv = g@;
                    g.users.push(en.user.clone());
                    let newcount = g.users.len() as u64;
                    let g2 = EmojiReaction { emoji: g.emoji, count: newcount, users: g.users };
                    groups.insert(i, g2);
                    proof {
                        assert(groups@ =~= gs0.update(i as int, g2));
                        assert(users_view(g2.users@) =~= gv.users.push(en@.user));
                        assert(gv == g0[i as int]);
                        assert(g2@.users == users_for(act1, en@.emoji));
                        assert(g2@.count == users_for(act1, en@.emoji).len());
                        assert(g2@ == emoji_group_of(act1, en@.emoji));
                        assert forall|a: int| 0 <= a < g0.len() && a != i implies emoji_group_of(
                            act1,
                            emojis_of(act1)[a],
                        ) == g0[a] by {
                            assert(emojis_of(act0)[a] != en@.emoji);
                            assert(by_emoji_of(act0)[a] == emoji_group_of(
                                act0,
                                emojis_of(act0)[a],
                            ));
                        }
                        assert forall|a: int|
                            0 <= a < groups@.len() implies groups_view(groups@)[a] == by_emoji_of(
                            act1,
                        )[a] by {
                            assert(groups_view(groups@)[a] == groups@[a]@);
                            assert(by_emoji_of(act1)[a] == emoji_group_of(
                                act1,
                                emojis_of(act1)[a],
                            ));
                            if a == i {
                            } else {
                                assert(groups@[a] == gs0[a]);
                                assert(groups_view(gs0)[a] == gs0[a]@);
                            }
                        }
                        assert(groups_view(groups@) =~= by_emoji_of(act1));
                    }
                },
                None => {
                    proof {
                        assert(!emojis_of(act0).contains(en@.emoji)) by {
                            if emojis_of(act0).contains(en@.emoji) {
                                let a = choose|a: int|
                                    0 <= a < emojis_of(act0).len() && emojis_of(act0)[a]
                                        == en@.emoji;
                                assert(g0.len() == emojis_of(act0).len());
                                assert(groups@.len() == g0.len());
                                assert(by_emoji_of(act0)[a] == emoji_group_of(
                                    act0,
                                    emojis_of(act0)[a],
                                ));
                                assert(g0[a] == emoji_group_of(act0, emojis_of(act0)[a]));
                                assert(groups_view(groups@)[a] == groups@[a]@);
                                assert(groups@[a].emoji@ == en@.emoji);
                            }
                        }
                        assert(act1.drop_last() =~= act0);
                        assert(act1.last() == en@);
                        assert(emojis_of(act1) == emojis_of(act0).push(en@.emoji));
                    }
                    let ghost gs0 = groups@;
                    let mut users: Vec<String> = Vec::new();
                    users.push(en.user.clone());
                    let g = EmojiReaction { emoji: en.emoji.clone(), count: 1, users };
                    groups.push(g);
                    proof {
                        assert forall|j: int| 0 <= j < act0.len() implies act0[j].emoji
                            != en@.emoji by {
                            if act0[j].emoji == en@.emoji {
                                assert(emojis_of(act0).contains(act0[j].emoji));
                            }
                        }
                        lemma_users_for_empty(act0, en@.emoji);
                        assert(users_view(g.users@) =~= users_for(act0, en@.emoji).push(
                            en@.user,
                        ));
                        assert(g@.users == users_for(act1, en@.emoji));
                        assert(g@ == emoji_group_of(act1, en@.emoji));
                        assert(g0.len() == emojis_of(act0).len());
                        assert forall|a: int|
                            0 <= a < groups@.len() implies groups_view(groups@)[a] == by_emoji_of(
                            act1,
                        )[a] by {
                            assert(groups_view(groups@)[a] == groups@[a]@);
                            assert(by_emoji_of(act1)[a] == emoji_group_of(
                                act1,
                                emojis_of(act1)[a],
                            ));
                            if a < g0.len() {
                                assert(groups@[a] == gs0[a]);
                                assert(groups_view(gs0)[a] == gs0[a]@);
                                assert(emojis_of(act1)[a] == emojis_of(act0)[a]);
                                assert(emojis_of(act0).contains(emojis_of(act0)[a]));
                                assert(emojis_of(act0)[a] != en@.emoji);
                                assert(by_emoji_of(act0)[a] == emoji_group_of(
                                    act0,
                                    emojis_of(act0)[a],
                                ));
                            } else {
                                assert(groups@[a] == g);
                                assert(emojis_of(act1)[a] == en@.emoji);
                            }
                        }
                        assert(groups_view(groups@).len() == by_emoji_of(act1).len());
                        assert(groups_view(groups@) =~= by_emoji_of(act1));
                    }
                },
            }
        } else {
            proof {
                assert(act1 == act0);
            }
        }
        k += 1;
    }
    proof {
        assert(all.take(entries@.len() as int) =~= all);
    }
    groups
}

/// With no entry of an emoji, its user list is empty.
proof fn lemma_users_for_empty(s: Seq<ReactionEntry>, emoji: Seq<char>)
    requires
        forall|j: int| 0 <= j < s.len() ==> s[j].emoji != emoji,
    ensures
        users_for(s, emoji) == Seq::<Seq<char>>::empty(),
    decreases s.len(),
{
    reveal(Seq::filter);
    if s.len() > 0 {
        assert forall|j: int| 0 <= j < s.drop_last().len() implies s.drop_last()[j].emoji
            != emoji by {
            assert(s.drop_last()[j] == s[j]);
        }
        lemma_users_for_empty(s.drop_last(), emoji);
        assert(users_for(s, emoji) =~= Seq::<Seq<char>>::empty());
    } else {
        assert(users_for(s, emoji) =~= Seq::<Seq<char>>::empty());
    }
}

/// Inserting at the position found from the right matches stable insertion.
proof fn lemma_insert_by_ts_at(s: Seq<UserReactionV>, x: UserReactionV, q: int)
    requires
        0 <= q <= s.len(),
        forall|k: int| q <= k < s.len() ==> s[k].created_at > x.created_at,
        q > 0 ==> s[q - 1].created_at <= x.created_at,
    ensures
        insert_by_ts(s, x) == s.take(q) + seq![x] + s.skip(q),
    decreases s.len() - q,
{
    if q == s.len() {
        assert(insert_by_ts(s, x) == s.push(x));
        assert(s.take(q) + seq![x] + s.skip(q) =~= s.push(x));
    } else {
        assert(s.last().created_at > x.created_at);
        assert forall|k: int| q <= k < s.drop_last().len() implies s.drop_last()[k].created_at
            > x.created_at by {
            assert(s.drop_last()[k] == s[k]);
        }
        lemma_insert_by_ts_at(s.drop_last(), x, q);
        assert(insert_by_ts(s, x) == insert_by_ts(s.drop_last(), x).push(s.last()));
        assert((s.drop_last().take(q) + seq![x] + s.drop_last().skip(q)).push(s.last()) =~= s.take(
            q,
        ) + seq![x] + s.skip(q));
    }
}

/// Sorts the winning reactions by timestamp, stably.
fn sort_reactions_exec(items: Vec<UserReaction>) -> (r: Vec<UserReaction>)
    ensures
        reactions_view(r@) == sort_by_ts(reactions_view(items@)),
{
    let ghost ivs = reactions_view(items@);
    let mut out: Vec<UserReaction> = Vec::new();
    let mut k: usize = 0;
    proof {
        assert(reactions_view(out@) =~= sort_by_ts(ivs.take(0)));
    }
    while k < items.len()
        invariant
            k <= items@.len(),
            ivs == reactions_view(items@),
            reactions_view(out@) == sort_by_ts(ivs.take(k as int)),
        decreases items@.len() - k,
    {
        let ghost o0 = reactions_view(out@);
        let x = items[k].clone();
        let mut q: usize = out.len();
        while q > 0 && out[q - 1].created_at > x.created_at
            invariant
                q <= out@.len(),
                x@ == ivs[k as int],
                o0 == reactions_view(out@),
                forall|j: int| q <= j < out@.len() ==> o0[j].created_at > x@.created_at,
            decreases q,
        {
            q -= 1;
        }
        out.insert(q, x);
        k += 1;
        proof {
            assert(ivs.take(k as int).drop_last() =~= ivs.take(k as int - 1));
            assert(ivs.take(k as int).last() == ivs[k as int - 1]);
            lemma_insert_by_ts_at(o0, ivs[k as int - 1], q as int);
            assert(reactions_view(out@) =~= o0.take(q as int) + seq![ivs[k as int - 1]] + o0.skip(
                q as int,
            ));
        }
    }
    proof {
        assert(ivs.take(items@.len() as int) =~= ivs);
    }
    out
}

/// Aggregates the reaction events targeting one message: groups active
/// reactions by emoji in first-seen order with distinct-user counts, and
/// lists each user's winning reaction chronologically.
pub fn aggregate_reactions(events: &Vec<ReactionEvent>) -> (r: ReactionSummary)
    ensures
        r@ == reaction_summary_spec(events_view(events@)),
{
    let entries = fold_events_exec(events);
    let groups = build_groups_exec(&entries);
    let ghost act = active_entries(entry_views(entries@));
    let mut winners: Vec<UserReaction> = Vec::new();
    let mut k: usize = 0;
    proof {
        reveal(Seq::filter);
        assert(active_entries(entry_views(entries@).take(0)) =~= Seq::<ReactionEntry>::empty());
        assert(reactions_view(winners@) =~= winners_of(
            active_entries(entry_views(entries@).take(0)),
        ));
    }
    while k < entries.len()
        invariant
            k <= entries@.len(),
            act == active_entries(entry_views(entries@)),
            reactions_view(winners@) == winners_of(
                active_entries(entry_views(entries@).take(k as int)),
            ),
        decreases entries@.len() - k,
    {
        let ghost all = entry_views(entries@);
        let en = &entries[k];
        proof {
            assert(all.take(k as int + 1) =~= all.take(k as int).push(en@));
            lemma_filter_push(all.take(k as int), |e: ReactionEntry| e.active, en@);
        }
        if en.active {
            let ghost w0 = winners@;
            let x = UserReaction {
                user: en.user.clone(),
                emoji: en.emoji.clone(),
                created_at: en.created_at,
            };
            proof {
                assert(x@ == reaction_of_entry(en@));
            }
            winners.push(x);
            proof {
                let ghost act0 = active_entries(all.take(k as int));
                assert(reactions_view(winners@) =~= reactions_view(w0).push(x@));
                assert(winners_of(act0.push(en@)) =~= winners_of(act0).push(
                    reaction_of_entry(en@),
                ));
                assert(reactions_view(winners@) =~= winners_of(
                    active_entries(all.take(k as int + 1)),
                ));
            }
        }
        k += 1;
    }
    proof {
        assert(entry_views(entries@).take(entries@.len() as int) =~= entry_views(entries@));
    }
    let user_reactions = sort_reactions_exec(winners);
    let r = ReactionSummary { by_emoji: groups, user_reactions };
    proof {
        assert(r@.by_emoji == summary_of(entry_views(entries@)).by_emoji);
        assert(r@.user_reactions == summary_of(entry_views(entries@)).user_reactions);
        assert(r@ == summary_of(entry_views(entries@)));
    }
    r
}

} // verus!
