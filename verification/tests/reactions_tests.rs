use whitenoise_core::reactions::{aggregate_reactions, ReactionEvent, ReactionSummary};

fn ev(user: &str, emoji: &str, content: &str, at: u64) -> ReactionEvent {
    ReactionEvent {
        user: user.to_string(),
        emoji: emoji.to_string(),
        content: content.to_string(),
        created_at: at,
    }
}

fn summaries_equal(a: &ReactionSummary, b: &ReactionSummary) -> bool {
    if a.by_emoji.len() != b.by_emoji.len() || a.user_reactions.len() != b.user_reactions.len() {
        return false;
    }
    for (x, y) in a.by_emoji.iter().zip(b.by_emoji.iter()) {
        if x.emoji != y.emoji || x.count != y.count || x.users != y.users {
            return false;
        }
    }
    for (x, y) in a.user_reactions.iter().zip(b.user_reactions.iter()) {
        if x.user != y.user || x.emoji != y.emoji || x.created_at != y.created_at {
            return false;
        }
    }
    true
}

#[test]
fn single_reaction_counts_once() {
    let events = vec![ev("alice", "+", "+", 10)];
    let s = aggregate_reactions(&events);
    assert_eq!(s.by_emoji.len(), 1);
    assert_eq!(s.by_emoji[0].emoji, "+");
    assert_eq!(s.by_emoji[0].count, 1);
    assert_eq!(s.by_emoji[0].users, vec!["alice".to_string()]);
    assert_eq!(s.user_reactions.len(), 1);
}

#[test]
fn applying_same_event_twice_is_idempotent() {
    let once = vec![ev("alice", "+", "+", 10)];
    let twice = vec![ev("alice", "+", "+", 10), ev("alice", "+", "+", 10)];
    assert!(summaries_equal(&aggregate_reactions(&once), &aggregate_reactions(&twice)));

    let base = vec![ev("bob", "x", "x", 5), ev("alice", "+", "+", 10)];
    let mut doubled = vec![ev("bob", "x", "x", 5), ev("alice", "+", "+", 10)];
    doubled.push(ev("alice", "+", "+", 10));
    assert!(summaries_equal(&aggregate_reactions(&base), &aggregate_reactions(&doubled)));
}

#[test]
fn last_write_wins_per_user_and_emoji() {
    let events = vec![ev("alice", "+", "+", 10), ev("alice", "+", "+", 20)];
    let s = aggregate_reactions(&events);
    assert_eq!(s.by_emoji.len(), 1);
    assert_eq!(s.by_emoji[0].count, 1);
    assert_eq!(s.user_reactions.len(), 1);
    assert_eq!(s.user_reactions[0].created_at, 20);

    let later_only = vec![ev("alice", "+", "+", 20)];
    assert!(summaries_equal(&aggregate_reactions(&events), &aggregate_reactions(&later_only)));
}

#[test]
fn stale_event_does_not_overwrite() {
    let events = vec![ev("alice", "+", "+", 20), ev("alice", "+", "+", 10)];
    let s = aggregate_reactions(&events);
    assert_eq!(s.user_reactions.len(), 1);
    assert_eq!(s.user_reactions[0].created_at, 20);
}

#[test]
fn whitespace_content_retracts() {
    let events = vec![ev("alice", "+", "+", 10), ev("alice", "+", "  ", 20)];
    let s = aggregate_reactions(&events);
    assert_eq!(s.by_emoji.len(), 0);
    assert_eq!(s.user_reactions.len(), 0);
}

#[test]
fn retraction_loses_to_later_reaction() {
    let events = vec![ev("alice", "+", "", 10), ev("alice", "+", "+", 20)];
    let s = aggregate_reactions(&events);
    assert_eq!(s.by_emoji.len(), 1);
    assert_eq!(s.by_emoji[0].count, 1);
}

#[test]
fn counts_distinct_users_in_first_seen_order() {
    let events = vec![
        ev("alice", "+", "+", 10),
        ev("bob", "+", "+", 5),
        ev("carol", "x", "x", 7),
        ev("alice", "+", "+", 30),
    ];
    let s = aggregate_reactions(&events);
    assert_eq!(s.by_emoji.len(), 2);
    assert_eq!(s.by_emoji[0].emoji, "+");
    assert_eq!(s.by_emoji[0].count, 2);
    assert_eq!(s.by_emoji[0].users, vec!["alice".to_string(), "bob".to_string()]);
    assert_eq!(s.by_emoji[1].emoji, "x");
    assert_eq!(s.by_emoji[1].count, 1);
}

#[test]
fn user_reactions_are_chronological() {
    let events = vec![
        ev("alice", "+", "+", 30),
        ev("bob", "x", "x", 10),
        ev("carol", "+", "+", 20),
    ];
    let s = aggregate_reactions(&events);
    let times: Vec<u64> = s.user_reactions.iter().map(|u| u.created_at).collect();
    assert_eq!(times, vec![10, 20, 30]);
}
