use whitenoise_core::error::WhitenoiseError;
use whitenoise_core::groups::{GroupState, GroupType};
use whitenoise_core::messages::Tag;
use whitenoise_core::relays::{
    get_default_blossom_server_url, relay_url_from_string, string_from_relay_url,
    SubscriptionOutcome,
};
use whitenoise_core::session::{
    create_whitenoise_config, relay_type_inbox, relay_type_key_package, relay_type_nip65,
    RelayType, Whitenoise,
};
use whitenoise_core::welcomes::{Welcome, WelcomeState};

fn pk(c: char) -> String {
    std::iter::repeat(c).take(64).collect()
}

fn session() -> Whitenoise {
    Whitenoise::new(create_whitenoise_config("/data".to_string(), "/logs".to_string()))
}

/// A session with accounts A, B, C, each holding a published key package.
fn session_with_accounts() -> (Whitenoise, String, String, String) {
    let mut w = session();
    let a = pk('a');
    let b = pk('b');
    let c = pk('c');
    for key in [&a, &b, &c] {
        w.create_identity(key.clone(), 1).unwrap();
        w.add_account_relay(key.clone(), "wss://relay.example".to_string(), RelayType::KeyPackage, 1)
            .unwrap();
        w.add_account_relay(key.clone(), "wss://relay.example".to_string(), RelayType::Nip65, 1)
            .unwrap();
        w.publish_account_key_package(key.clone(), 1).unwrap();
    }
    (w, a, b, c)
}

#[test]
fn relay_type_constructors() {
    assert!(matches!(relay_type_nip65(), RelayType::Nip65));
    assert!(matches!(relay_type_inbox(), RelayType::Inbox));
    assert!(matches!(relay_type_key_package(), RelayType::KeyPackage));
}

#[test]
fn create_identity_and_lookup() {
    let mut w = session();
    let a = pk('a');
    let acct = w.create_identity(a.clone(), 42).unwrap();
    assert_eq!(acct.pubkey, a);
    assert_eq!(acct.created_at, 42);
    assert_eq!(w.get_accounts().len(), 1);
    assert_eq!(w.get_account(a.clone()).unwrap().pubkey, a);
    assert!(matches!(w.get_account(pk('b')), Err(WhitenoiseError::AccountNotFound)));
    assert!(matches!(w.get_account("short".to_string()), Err(WhitenoiseError::InvalidPublicKey)));
    assert!(matches!(w.create_identity(a.clone(), 43), Err(WhitenoiseError::Other { .. })));
}

#[test]
fn login_returns_existing_or_registers() {
    let mut w = session();
    let a = pk('a');
    let first = w.login(a.clone(), 7).unwrap();
    assert_eq!(first.created_at, 7);
    let again = w.login(a.clone(), 9).unwrap();
    assert_eq!(again.created_at, 7);
    assert_eq!(w.get_accounts().len(), 1);
    w.logout(a.clone()).unwrap();
    assert_eq!(w.get_accounts().len(), 0);
    assert!(matches!(w.logout(a), Err(WhitenoiseError::AccountNotFound)));
}

#[test]
fn relay_configuration_is_idempotent() {
    let mut w = session();
    let a = pk('a');
    w.create_identity(a.clone(), 1).unwrap();
    w.add_account_relay(a.clone(), "wss://one.example".to_string(), RelayType::Nip65, 2).unwrap();
    w.add_account_relay(a.clone(), "wss://one.example".to_string(), RelayType::Nip65, 3).unwrap();
    let relays = w.account_relays(a.clone(), RelayType::Nip65).unwrap();
    assert_eq!(relays.len(), 1);
    assert_eq!(relays[0].url, "wss://one.example");
    assert_eq!(relays[0].created_at, 2);

    w.remove_account_relay(a.clone(), "wss://absent.example".to_string(), RelayType::Nip65)
        .unwrap();
    w.remove_account_relay(a.clone(), "wss://one.example".to_string(), RelayType::Nip65).unwrap();
    assert_eq!(w.account_relays(a.clone(), RelayType::Nip65).unwrap().len(), 0);

    assert!(matches!(
        w.add_account_relay(a.clone(), "http://not-ws.example".to_string(), RelayType::Nip65, 2),
        Err(WhitenoiseError::InvalidRelayUrl)
    ));
    assert!(matches!(
        w.add_account_relay(a, "wss://bad url".to_string(), RelayType::Nip65, 2),
        Err(WhitenoiseError::InvalidRelayUrl)
    ));
}

#[test]
fn key_package_lifecycle() {
    let mut w = session();
    let a = pk('a');
    w.create_identity(a.clone(), 1).unwrap();
    assert!(matches!(
        w.publish_account_key_package(a.clone(), 2),
        Err(WhitenoiseError::Other { .. })
    ));
    w.add_account_relay(a.clone(), "wss://kp.example".to_string(), RelayType::KeyPackage, 1)
        .unwrap();
    w.publish_account_key_package(a.clone(), 2).unwrap();
    w.publish_account_key_package(a.clone(), 3).unwrap();
    assert_eq!(w.account_key_packages(a.clone()).unwrap().len(), 2);
    assert!(w.user_has_key_package(a.clone(), true).unwrap());

    let first = w.account_key_package(a.clone()).unwrap().unwrap();
    w.delete_account_key_package(a.clone(), first.id.clone()).unwrap();
    assert_eq!(w.account_key_packages(a.clone()).unwrap().len(), 1);
    w.delete_account_key_package(a.clone(), first.id).unwrap();
    assert_eq!(w.account_key_packages(a.clone()).unwrap().len(), 1);
    let removed = w.delete_account_key_packages(a.clone()).unwrap();
    assert_eq!(removed, 1);
    assert!(!w.user_has_key_package(a, true).unwrap());
}

#[test]
fn follows_are_idempotent_edges() {
    let mut w = session();
    let a = pk('a');
    let b = pk('b');
    w.create_identity(a.clone(), 1).unwrap();
    w.follow_user(a.clone(), b.clone()).unwrap();
    w.follow_user(a.clone(), b.clone()).unwrap();
    let follows = w.account_follows(a.clone()).unwrap();
    assert_eq!(follows.len(), 1);
    assert_eq!(follows[0].pubkey, b);
    w.unfollow_user(a.clone(), b).unwrap();
    assert_eq!(w.account_follows(a).unwrap().len(), 0);
}

#[test]
fn users_resolve_lazily() {
    let mut w = session();
    let b = pk('b');
    let u = w.get_user(b.clone(), false, 11).unwrap();
    assert_eq!(u.pubkey, b);
    assert_eq!(u.created_at, 11);
    assert_eq!(u.metadata.name, None);
    let again = w.get_user(b, true, 99).unwrap();
    assert_eq!(again.created_at, 11);
}

#[test]
fn account_metadata_round_trip() {
    let mut w = session();
    let a = pk('a');
    w.create_identity(a.clone(), 1).unwrap();
    let empty = w.account_metadata(a.clone()).unwrap();
    assert_eq!(empty.name, None);
    let mut m = empty;
    m.name = Some("Alice".to_string());
    w.update_account_metadata(a.clone(), &m, 5).unwrap();
    assert_eq!(w.account_metadata(a).unwrap().name, Some("Alice".to_string()));
}

#[test]
fn direct_message_group_needs_exactly_two_participants() {
    let (mut w, a, b, c) = session_with_accounts();
    assert!(matches!(
        w.create_group(
            a.clone(),
            vec![b.clone(), c],
            vec![a.clone()],
            "dm".to_string(),
            "".to_string(),
            GroupType::DirectMessage,
        ),
        Err(WhitenoiseError::InvalidGroupKind)
    ));
    assert!(matches!(
        w.create_group(
            a.clone(),
            vec![],
            vec![a.clone()],
            "dm".to_string(),
            "".to_string(),
            GroupType::DirectMessage,
        ),
        Err(WhitenoiseError::InvalidGroupKind)
    ));
    assert!(matches!(
        w.create_group(
            a.clone(),
            vec![a.clone()],
            vec![a.clone()],
            "dm".to_string(),
            "".to_string(),
            GroupType::DirectMessage,
        ),
        Err(WhitenoiseError::InvalidGroupKind)
    ));
    let g = w
        .create_group(
            a.clone(),
            vec![b],
            vec![a.clone()],
            "dm".to_string(),
            "".to_string(),
            GroupType::DirectMessage,
        )
        .unwrap();
    let members = w.group_members(a, g.mls_group_id).unwrap();
    assert_eq!(members.len(), 2);
}

#[test]
fn create_group_requires_key_packages() {
    let (mut w, a, b, _c) = session_with_accounts();
    let d = pk('d');
    assert!(matches!(
        w.create_group(
            a,
            vec![b, d],
            vec![],
            "g".to_string(),
            "".to_string(),
            GroupType::Group,
        ),
        Err(WhitenoiseError::MissingKeyPackage)
    ));
}

#[test]
fn end_to_end_group_lifecycle() {
    let (mut w, a, b, c) = session_with_accounts();
    let g = w
        .create_group(
            a.clone(),
            vec![b.clone()],
            vec![a.clone()],
            "Test".to_string(),
            "Desc".to_string(),
            GroupType::Group,
        )
        .unwrap();
    assert_eq!(g.name, "Test");
    assert_eq!(g.description, "Desc");
    assert_eq!(g.epoch, 0);
    assert!(matches!(g.state, GroupState::Pending));
    let gid = g.mls_group_id.clone();

    // The group is pending until its own create commit is confirmed.
    assert!(matches!(
        w.add_members_to_group(a.clone(), gid.clone(), vec![c.clone()]),
        Err(WhitenoiseError::GroupNotActive)
    ));
    w.confirm_group_commit(gid.clone()).unwrap();
    let active = w.active_groups(a.clone()).unwrap();
    assert_eq!(active.len(), 1);
    assert!(matches!(active[0].state, GroupState::Active));

    // One batch, one epoch advance.
    w.add_members_to_group(a.clone(), gid.clone(), vec![c.clone()]).unwrap();
    let after_add = w.active_groups(a.clone()).unwrap();
    assert_eq!(after_add[0].epoch, 1);
    let members = w.group_members(a.clone(), gid.clone()).unwrap();
    assert_eq!(members, vec![a.clone(), b.clone(), c.clone()]);

    // A non-admin may not remove members.
    assert!(matches!(
        w.remove_members_from_group(b.clone(), gid.clone(), vec![b.clone()]),
        Err(WhitenoiseError::NotAdmin)
    ));

    // An admin removal advances the epoch by exactly one more.
    w.remove_members_from_group(a.clone(), gid.clone(), vec![b.clone()]).unwrap();
    let after_remove = w.active_groups(a.clone()).unwrap();
    assert_eq!(after_remove[0].epoch, 2);
    let members = w.group_members(a.clone(), gid.clone()).unwrap();
    assert_eq!(members, vec![a.clone(), c]);

    // Unknown member removal is rejected whole.
    assert!(matches!(
        w.remove_members_from_group(a.clone(), gid.clone(), vec![b]),
        Err(WhitenoiseError::UnknownMember)
    ));
    assert_eq!(w.active_groups(a.clone()).unwrap()[0].epoch, 2);

    let info = w.get_group_information(a.clone(), gid.clone()).unwrap();
    assert!(matches!(info.group_type, GroupType::Group));
    let infos = w.get_groups_informations(a.clone(), vec![gid.clone()]).unwrap();
    assert_eq!(infos.len(), 1);
    let admins = w.group_admins(a, gid).unwrap();
    assert_eq!(admins.len(), 1);
}

#[test]
fn update_group_data_is_partial_and_lossy() {
    let (mut w, a, b, _c) = session_with_accounts();
    let g = w
        .create_group(
            a.clone(),
            vec![b],
            vec![a.clone()],
            "Old".to_string(),
            "OldDesc".to_string(),
            GroupType::Group,
        )
        .unwrap();
    let gid = g.mls_group_id.clone();
    w.confirm_group_commit(gid.clone()).unwrap();
    let update = whitenoise_core::groups::FlutterGroupDataUpdate {
        name: Some("New".to_string()),
        description: None,
        relays: Some(vec![
            "wss://good.example".to_string(),
            "not a url".to_string(),
        ]),
        admins: Some(vec![a.clone(), "badkey".to_string()]),
        image_key: None,
        image_hash: None,
        image_nonce: None,
    };
    w.update_group_data(a.clone(), gid.clone(), update).unwrap();
    let active = w.active_groups(a.clone()).unwrap();
    assert_eq!(active[0].name, "New");
    assert_eq!(active[0].description, "OldDesc");
    assert_eq!(active[0].epoch, 1);
    let admins = w.group_admins(a, gid).unwrap();
    assert_eq!(admins, vec![pk('a')]);
}

fn welcome(id: &str, gid: &str, welcomer: &str, member_count: u32) -> Welcome {
    Welcome {
        id: id.to_string(),
        mls_group_id: gid.to_string(),
        nostr_group_id: "00ff".to_string(),
        group_name: "Invited".to_string(),
        group_description: "d".to_string(),
        group_admin_pubkeys: vec![welcomer.to_string()],
        group_relays: vec!["wss://relay.example".to_string()],
        welcomer: welcomer.to_string(),
        member_count,
        state: WelcomeState::Pending,
        created_at: 9,
    }
}

#[test]
fn welcome_accept_then_decline_fails_already_resolved() {
    let (mut w, a, b, _c) = session_with_accounts();
    w.receive_welcome(a.clone(), welcome("ev1", "aa11", &b, 3)).unwrap();
    assert_eq!(w.pending_welcomes(a.clone()).unwrap().len(), 1);

    w.accept_welcome(a.clone(), "ev1".to_string()).unwrap();
    assert!(matches!(
        w.decline_welcome(a.clone(), "ev1".to_string()),
        Err(WhitenoiseError::AlreadyResolved)
    ));
    assert!(matches!(
        w.accept_welcome(a.clone(), "ev1".to_string()),
        Err(WhitenoiseError::AlreadyResolved)
    ));
    let stored = w.find_welcome_by_event_id(a.clone(), "ev1".to_string()).unwrap();
    assert!(matches!(stored.state, WelcomeState::Accepted));
    assert_eq!(w.pending_welcomes(a.clone()).unwrap().len(), 0);

    // Acceptance materialized the invited group.
    let active = w.active_groups(a.clone()).unwrap();
    assert_eq!(active.len(), 1);
    assert_eq!(active[0].name, "Invited");
    let members = w.group_members(a, "aa11".to_string()).unwrap();
    assert_eq!(members.len(), 2);
}

#[test]
fn welcome_decline_then_accept_fails_already_resolved() {
    let (mut w, a, b, _c) = session_with_accounts();
    w.receive_welcome(a.clone(), welcome("ev2", "bb22", &b, 5)).unwrap();
    w.decline_welcome(a.clone(), "ev2".to_string()).unwrap();
    assert!(matches!(
        w.accept_welcome(a.clone(), "ev2".to_string()),
        Err(WhitenoiseError::AlreadyResolved)
    ));
    let stored = w.find_welcome_by_event_id(a.clone(), "ev2".to_string()).unwrap();
    assert!(matches!(stored.state, WelcomeState::Declined));
    // No group state was derived.
    assert_eq!(w.active_groups(a).unwrap().len(), 0);
}

#[test]
fn welcome_ignore_is_terminal() {
    let (mut w, a, b, _c) = session_with_accounts();
    w.receive_welcome(a.clone(), welcome("ev3", "cc33", &b, 4)).unwrap();
    w.ignore_welcome(a.clone(), "ev3".to_string()).unwrap();
    assert!(matches!(
        w.decline_welcome(a.clone(), "ev3".to_string()),
        Err(WhitenoiseError::AlreadyResolved)
    ));
    assert!(matches!(
        w.accept_welcome(a.clone(), "ev3".to_string()),
        Err(WhitenoiseError::AlreadyResolved)
    ));
    let stored = w.find_welcome_by_event_id(a, "ev3".to_string()).unwrap();
    assert!(matches!(stored.state, WelcomeState::Ignored));
}

#[test]
fn welcome_not_found() {
    let (mut w, a, _b, _c) = session_with_accounts();
    assert!(matches!(
        w.accept_welcome(a.clone(), "missing".to_string()),
        Err(WhitenoiseError::WelcomeNotFound)
    ));
    assert!(matches!(
        w.find_welcome_by_event_id(a, "missing".to_string()),
        Err(WhitenoiseError::WelcomeNotFound)
    ));
}

#[test]
fn subscription_sweep_skips_transient_and_aborts_on_storage_failure() {
    let mut w = session();
    let a = pk('a');
    let b = pk('b');
    let c = pk('c');
    w.create_identity(a.clone(), 1).unwrap();
    w.create_identity(b.clone(), 1).unwrap();
    w.create_identity(c.clone(), 1).unwrap();

    let outcomes = vec![
        SubscriptionOutcome::Refreshed { at: 50 },
        SubscriptionOutcome::TransientFailure,
        SubscriptionOutcome::Refreshed { at: 60 },
    ];
    w.ensure_all_subscriptions(&outcomes).unwrap();
    assert_eq!(w.get_account(a.clone()).unwrap().last_synced_at, Some(50));
    assert_eq!(w.get_account(b.clone()).unwrap().last_synced_at, None);
    assert_eq!(w.get_account(c.clone()).unwrap().last_synced_at, Some(60));

    let aborting = vec![
        SubscriptionOutcome::Refreshed { at: 70 },
        SubscriptionOutcome::StorageFailure { message: "disk gone".to_string() },
        SubscriptionOutcome::Refreshed { at: 80 },
    ];
    let err = w.ensure_all_subscriptions(&aborting).unwrap_err();
    assert!(matches!(err, WhitenoiseError::Storage { message } if message == "disk gone"));
    assert_eq!(w.get_account(a).unwrap().last_synced_at, Some(70));
    assert_eq!(w.get_account(c).unwrap().last_synced_at, Some(60));
}

#[test]
fn relay_status_reporting() {
    let mut w = session();
    let a = pk('a');
    w.create_identity(a.clone(), 1).unwrap();
    w.record_relay_status(a.clone(), "wss://r.example".to_string(), "Connected".to_string());
    w.record_relay_status(pk('b'), "wss://r.example".to_string(), "Pending".to_string());
    let statuses = w.get_account_relay_statuses(a).unwrap();
    assert_eq!(statuses.len(), 1);
    assert_eq!(statuses[0].status, "Connected");
}

#[test]
fn messages_are_aggregated_from_raw_events() {
    let (mut w, a, b, _c) = session_with_accounts();
    let g = w
        .create_group(
            a.clone(),
            vec![b.clone()],
            vec![a.clone()],
            "Chat".to_string(),
            "".to_string(),
            GroupType::Group,
        )
        .unwrap();
    let gid = g.mls_group_id.clone();
    w.confirm_group_commit(gid.clone()).unwrap();

    let sent = w
        .send_message_to_group(a.clone(), gid.clone(), "hi #all".to_string(), 9, None, 100)
        .unwrap();
    assert_eq!(sent.content, Some("hi #all".to_string()));
    assert_eq!(sent.tokens.len(), 3);
    let msg_id = sent.id.clone();

    // A reaction and a reply arrive as raw events.
    let e_tag = whitenoise_core::messages::tag_from_vec(vec![
        "e".to_string(),
        msg_id.clone(),
    ])
    .unwrap();
    w.send_message_to_group(b.clone(), gid.clone(), "+".to_string(), 7, Some(vec![e_tag]), 110)
        .unwrap();
    let e_tag2 = whitenoise_core::messages::tag_from_vec(vec![
        "e".to_string(),
        msg_id.clone(),
    ])
    .unwrap();
    w.send_message_to_group(b.clone(), gid.clone(), "welcome!".to_string(), 9, Some(vec![e_tag2]), 120)
        .unwrap();

    let msgs = w.fetch_aggregated_messages_for_group(a.clone(), gid.clone()).unwrap();
    assert_eq!(msgs.len(), 2);
    assert_eq!(msgs[0].content, "hi #all");
    assert!(!msgs[0].is_deleted);
    assert!(!msgs[0].is_reply);
    assert_eq!(msgs[0].reactions.by_emoji.len(), 1);
    assert_eq!(msgs[0].reactions.by_emoji[0].emoji, "+");
    assert_eq!(msgs[0].reactions.by_emoji[0].count, 1);
    assert_eq!(msgs[0].reactions.by_emoji[0].users, vec![b.clone()]);
    assert!(msgs[1].is_reply);
    assert_eq!(msgs[1].reply_to_id, Some(msg_id.clone()));

    // A deletion event flips the flag but the content is retained.
    let del_tag = whitenoise_core::messages::tag_from_vec(vec!["e".to_string(), msg_id]).unwrap();
    w.send_message_to_group(a.clone(), gid.clone(), "".to_string(), 5, Some(vec![del_tag]), 130)
        .unwrap();
    let msgs = w.fetch_aggregated_messages_for_group(a, gid).unwrap();
    assert_eq!(msgs.len(), 2);
    assert!(msgs[0].is_deleted);
    assert_eq!(msgs[0].content, "hi #all");
}

#[test]
fn group_kind_queries_on_group_value() {
    let (mut w, a, b, _c) = session_with_accounts();
    let g = w
        .create_group(
            a.clone(),
            vec![b],
            vec![a.clone()],
            "dm".to_string(),
            "".to_string(),
            GroupType::DirectMessage,
        )
        .unwrap();
    assert!(matches!(g.group_type(&w, a.clone()).unwrap(), GroupType::DirectMessage));
    assert!(g.is_direct_message_type(&w, a.clone()).unwrap());
    assert!(!g.is_group_type(&w, a).unwrap());
}

#[test]
fn relay_url_parsing() {
    let u = relay_url_from_string("wss://relay.example".to_string()).unwrap();
    assert_eq!(string_from_relay_url(&u), "wss://relay.example");
    assert!(relay_url_from_string("https://relay.example".to_string()).is_err());
    assert!(relay_url_from_string("wss://".to_string()).is_err());
    assert_eq!(get_default_blossom_server_url(), "https://blossom.primal.net");
}

#[test]
fn empty_tag_is_rejected() {
    assert!(whitenoise_core::messages::tag_from_vec(vec![]).is_err());
    let t: Tag = whitenoise_core::messages::tag_from_vec(vec!["p".to_string()]).unwrap();
    assert_eq!(t.fields, vec!["p".to_string()]);
}

#[test]
fn delete_all_data_clears_the_session() {
    let (mut w, a, _b, _c) = session_with_accounts();
    w.delete_all_data();
    assert_eq!(w.get_accounts().len(), 0);
    assert!(matches!(w.get_account(a), Err(WhitenoiseError::AccountNotFound)));
}
