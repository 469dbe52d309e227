//! Welcome (invitation) handshake.
//!
//! A welcome is an unconsumed invitation addressed to one account. It is
//! received `Pending` and leaves that state exactly once, to `Accepted`,
//! `Declined` or `Ignored`; the terminal states are immutable, and a second
//! resolution attempt fails with `AlreadyResolved`. Accepting derives the
//! local group state the invitation describes.

use vstd::prelude::*;
use vstd::pervasive::VecAdditionalExecFns;
use crate::session::{Whitenoise, string_views, clone_string_vec, str_eq};
use crate::encoding::{valid_pubkey, check_pubkey};
use crate::error::WhitenoiseError;
use crate::groups::{
    Group, GroupRecord, GroupRecordV, GroupState, GroupType, GroupV, group_records_view,
    groups_wf,
};

verus! {

/// The state of one welcome.
#[derive(Debug, Clone, Copy, PartialEq, Eq, Structural)]
pub enum WelcomeState {
    /// Received, not yet resolved.
    Pending,
    /// Accepted; local group state was derived.
    Accepted,
    /// Declined.
    Declined,
    /// Ignored.
    Ignored,
}

/// One unconsumed invitation to join a group.
#[derive(Debug)]
pub struct Welcome {
    /// Invitation event identifier.
    pub id: String,
    pub mls_group_id: String,
    pub nostr_group_id: String,
    pub group_name: String,
    pub group_description: String,
    pub group_admin_pubkeys: Vec<String>,
    pub group_relays: Vec<String>,
    /// Public key of the inviting user.
    pub welcomer: String,
    /// Member count of the group at invite time.
    pub member_count: u32,
    pub state: WelcomeState,
    pub created_at: u64,
}

/// The mathematical shape of a welcome.
pub struct WelcomeV {
    pub id: Seq<char>,
    pub mls_group_id: Seq<char>,
    pub nostr_group_id: Seq<char>,
    pub group_name: Seq<char>,
    pub group_description: Seq<char>,
    pub group_admin_pubkeys: Seq<Seq<char>>,
    pub group_relays: Seq<Seq<char>>,
    pub welcomer: Seq<char>,
    pub member_count: u32,
    pub state: WelcomeState,
    pub created_at: u64,
}

impl View for Welcome {
    type V = WelcomeV;

    open spec fn view(&self) -> WelcomeV {
        WelcomeV {
            id: self.id@,
            mls_group_id: self.mls_group_id@,
            nostr_group_id: self.nostr_group_id@,
            group_name: self.group_name@,
            group_description: self.group_description@,
            group_admin_pubkeys: string_views(self.group_admin_pubkeys@),
            group_relays: string_views(self.group_relays@),
            welcomer: self.welcomer@,
            member_count: self.member_count,
            state: self.state,
            created_at: self.created_at,
        }
    }
}

impl Clone for Welcome {
    fn clone(&self) -> (r: Self)
        ensures
            r@ == self@,
    {
        Welcome {
            id: self.id.clone(),
            mls_group_id: self.mls_group_id.clone(),
            nostr_group_id: self.nostr_group_id.clone(),
            group_name: self.group_name.clone(),
            group_description: self.group_description.clone(),
            group_admin_pubkeys: clone_string_vec(&self.group_admin_pubkeys),
            group_relays: clone_string_vec(&self.group_relays),
            welcomer: self.welcomer.clone(),
            member_count: self.member_count,
            state: self.state,
            created_at: self.created_at,
        }
    }
}

/// One welcome, addressed to one account.
#[derive(Debug)]
pub struct WelcomeRecord {
    pub account: String,
    pub welcome: Welcome,
}

/// The mathematical shape of a welcome record.
pub struct WelcomeRecordV {
    pub account: Seq<char>,
    pub welcome: WelcomeV,
}

impl View for WelcomeRecord {
    type V = WelcomeRecordV;

    open spec fn view(&self) -> WelcomeRecordV {
        WelcomeRecordV { account: self.account@, welcome: self.welcome@ }
    }
}

/// The views of the welcome records.
pub open spec fn welcome_records_view(s: Seq<WelcomeRecord>) -> Seq<WelcomeRecordV> {
    s.map_values(|r: WelcomeRecord| r@)
}

/// The views of a list of welcomes.
pub open spec fn welcome_views(s: Seq<Welcome>) -> Seq<WelcomeV> {
    s.map_values(|w: Welcome| w@)
}

/// The first welcome of an account with an invitation identifier, or -1.
pub open spec fn welcome_index_in(s: Seq<WelcomeRecordV>, account: Seq<char>, id: Seq<char>) -> int
    decreases s.len(),
{
    if s.len() == 0 {
        -1
    } else if s[0].account == account && s[0].welcome.id == id {
        0
    } else {
        let r = welcome_index_in(s.drop_first(), account, id);
        if r == -1 {
            -1
        } else {
            r + 1
        }
    }
}

/// `welcome_index_in` returns the first matching index, or -1.
pub proof fn lemma_welcome_index_in(s: Seq<WelcomeRecordV>, account: Seq<char>, id: Seq<char>)
    ensures
        welcome_index_in(s, account, id) == -1 ==> forall|j: int|
            0 <= j < s.len() ==> !((#[trigger] s[j]).account == account && s[j].welcome.id == id),
        welcome_index_in(s, account, id) != -1 ==> {
            let r = welcome_index_in(s, account, id);
            &&& 0 <= r < s.len()
            &&& s[r].account == account && s[r].welcome.id == id
            &&& forall|j: int|
                0 <= j < r ==> !((#[trigger] s[j]).account == account && s[j].welcome.id == id)
        },
    decreases s.len(),
{
    if s.len() > 0 && !(s[0].account == account && s[0].welcome.id == id) {
        lemma_welcome_index_in(s.drop_first(), account, id);
        assert forall|j: int| 1 <= j < s.len() implies s.drop_first()[j - 1] == s[j] by {}
    }
}

/// The welcome list after resolving one welcome to a terminal state: only a
/// pending welcome moves, and only its state field changes.
pub open spec fn resolve_welcome(
    s: Seq<WelcomeRecordV>,
    account: Seq<char>,
    id: Seq<char>,
    target: WelcomeState,
) -> Seq<WelcomeRecordV> {
    let i = welcome_index_in(s, account, id);
    if i == -1 {
        s
    } else if !(s[i].welcome.state is Pending) {
        s
    } else {
        s.update(
            i,
            WelcomeRecordV {
                account: s[i].account,
                welcome: WelcomeV { state: target, ..s[i].welcome },
            },
        )
    }
}

/// Whether a resolution attempt would succeed: the welcome exists and is
/// still pending.
pub open spec fn welcome_resolvable(
    s: Seq<WelcomeRecordV>,
    account: Seq<char>,
    id: Seq<char>,
) -> bool {
    let i = welcome_index_in(s, account, id);
    i != -1 && s[i].welcome.state is Pending
}

/// A welcome leaves `Pending` exactly once: after a first successful
/// resolution, the welcome keeps the first terminal state, a second attempt
/// is rejected as already resolved, and resolving again changes nothing.
pub proof fn lemma_welcome_single_resolution(
    s: Seq<WelcomeRecordV>,
    account: Seq<char>,
    id: Seq<char>,
    first: WelcomeState,
    second: WelcomeState,
)
    requires
        !(first is Pending),
        !(second is Pending),
        welcome_resolvable(s, account, id),
    ensures
        ({
            let s1 = resolve_welcome(s, account, id, first);
            let i = welcome_index_in(s, account, id);
            &&& welcome_index_in(s1, account, id) == i
            &&& s1[i].welcome.state == first
            &&& !welcome_resolvable(s1, account, id)
            &&& resolve_welcome(s1, account, id, second) == s1
        }),
{
    let i = welcome_index_in(s, account, id);
    lemma_welcome_index_in(s, account, id);
    let s1 = resolve_welcome(s, account, id, first);
    lemma_welcome_index_in(s1, account, id);
    assert(s1[i].account == account && s1[i].welcome.id == id);
    let r1 = welcome_index_in(s1, account, id);
    if r1 == -1 {
        assert(!(s1[i].account == account && s1[i].welcome.id == id));
    } else if r1 < i {
        assert(!(s[r1].account == account && s[r1].welcome.id == id));
        assert(s1[r1] == s[r1]);
    } else if r1 > i {
        assert(!(s1[i].account == account && s1[i].welcome.id == id));
    }
    assert(welcome_index_in(s1, account, id) == i);
}


/// The pending welcomes of one account, in receipt order.
pub open spec fn pending_welcomes_of(s: Seq<WelcomeRecordV>, account: Seq<char>) -> Seq<WelcomeV> {
    s.filter(|r: WelcomeRecordV| r.account == account && r.welcome.state is Pending).map_values(
        |r: WelcomeRecordV| r.welcome,
    )
}

/// Extending the records extends one account's pending welcomes
/// accordingly.
proof fn lemma_pending_welcomes_push(s: Seq<WelcomeRecordV>, account: Seq<char>, x: WelcomeRecordV)
    ensures
        pending_welcomes_of(s.push(x), account) == if x.account == account && x.welcome.state
            is Pending {
            pending_welcomes_of(s, account).push(x.welcome)
        } else {
            pending_welcomes_of(s, account)
        },
{
    reveal(Seq::filter);
    assert(s.push(x).drop_last() =~= s);
    if x.account == account && x.welcome.state is Pending {
        assert(pending_welcomes_of(s.push(x), account) =~= pending_welcomes_of(s, account).push(
            x.welcome,
        ));
    } else {
        assert(pending_welcomes_of(s.push(x), account) =~= pending_welcomes_of(s, account));
    }
}

/// The group record acceptance materializes from an invitation snapshot,
/// when no record of the group exists yet.
pub open spec fn accepted_group_record(w: WelcomeV, account: Seq<char>) -> GroupRecordV {
    GroupRecordV {
        group: GroupV {
            mls_group_id: w.mls_group_id,
            nostr_group_id: w.nostr_group_id,
            name: w.group_name,
            description: w.group_description,
            image_hash: None,
            image_key: None,
            admin_pubkeys: w.group_admin_pubkeys,
            last_message_id: None,
            last_message_at: None,
            epoch: 0,
            state: GroupState::Active,
        },
        group_type: if w.member_count == 2 && w.welcomer != account {
            GroupType::DirectMessage
        } else {
            GroupType::Group
        },
        members: if w.welcomer == account {
            seq![account]
        } else {
            seq![account, w.welcomer]
        },
        relays: w.group_relays,
    }
}

/// The group records after an accepted welcome: an existing pending record
/// turns active, an existing record in any other state stays, and a missing
/// record is materialized from the snapshot.
pub open spec fn groups_after_accept(
    recs: Seq<GroupRecordV>,
    w: WelcomeV,
    account: Seq<char>,
) -> Seq<GroupRecordV> {
    let gi = crate::groups::group_index_in(recs, w.mls_group_id);
    if gi == -1 {
        recs.push(accepted_group_record(w, account))
    } else if recs[gi].group.state is Pending {
        recs.update(
            gi,
            GroupRecordV {
                group: GroupV { state: GroupState::Active, ..recs[gi].group },
                ..recs[gi]
            },
        )
    } else {
        recs
    }
}

impl Whitenoise {
    /// The first welcome of an account with an invitation identifier.
    pub open spec fn welcome_index(self, account: Seq<char>, id: Seq<char>) -> int {
        welcome_index_in(welcome_records_view(self.welcomes@), account, id)
    }

    /// Finds the position of a welcome, scanning forward.
    fn find_welcome(&self, account: &str, id: &str) -> (r: Option<usize>)
        ensures
            match r {
                Some(i) => i < self.welcomes@.len() && self.welcome_index(account@, id@)
                    == i as int,
                None => self.welcome_index(account@, id@) == -1,
            },
    {
        let ghost s = welcome_records_view(self.welcomes@);
        let mut i: usize = 0;
        while i < self.welcomes.len()
            invariant
                i <= self.welcomes@.len(),
                s == welcome_records_view(self.welcomes@),
                forall|j: int|
                    0 <= j < i ==> !((#[trigger] s[j]).account == account@ && s[j].welcome.id
                        == id@),
            decreases self.welcomes@.len() - i,
        {
            let rec = &self.welcomes[i];
            if str_eq(rec.account.as_str(), account) && str_eq(rec.welcome.id.as_str(), id) {
                proof {
                    lemma_welcome_index_in(s, account@, id@);
                    let r = welcome_index_in(s, account@, id@);
                    assert(s[i as int].account == account@ && s[i as int].welcome.id == id@);
                    if r == -1 {
                    } else if r < i as int {
                        assert(!(s[r].account == account@ && s[r].welcome.id == id@));
                    } else if r > i as int {
                        assert(!(s[i as int].account == account@ && s[i as int].welcome.id
                            == id@));
                    }
                }
                return Some(i);
            }
            i += 1;
        }
        proof {
            lemma_welcome_index_in(s, account@, id@);
            let r = welcome_index_in(s, account@, id@);
            if r != -1 {
                assert(s[r].account == account@ && s[r].welcome.id == id@);
            }
        }
        None
    }

    /// Stores an inbound, still unresolved invitation for an account.
    pub fn receive_welcome(&mut self, account_pubkey: String, welcome: Welcome) -> (r: Result<
        (),
        WhitenoiseError,
    >)
        requires
            welcome@.state is Pending,
        ensures
            r is Ok <==> valid_pubkey(account_pubkey@) && old(self).account_exists(
                account_pubkey@,
            ),
            !valid_pubkey(account_pubkey@) ==> r == Result::<(), WhitenoiseError>::Err(
                WhitenoiseError::InvalidPublicKey,
            ),
            valid_pubkey(account_pubkey@) && !old(self).account_exists(account_pubkey@) ==> r
                == Result::<(), WhitenoiseError>::Err(WhitenoiseError::AccountNotFound),
            r is Err ==> *final(self) == *old(self),
            r is Ok ==> {
                &&& welcome_records_view(final(self).welcomes@) == welcome_records_view(
                    old(self).welcomes@,
                ).push(WelcomeRecordV { account: account_pubkey@, welcome: welcome@ })
                &&& final(self).accounts == old(self).accounts
                &&& final(self).users == old(self).users
                &&& final(self).relays == old(self).relays
                &&& final(self).key_packages == old(self).key_packages
                &&& final(self).follows == old(self).follows
                &&& final(self).groups == old(self).groups
                &&& final(self).messages == old(self).messages
                &&& final(self).relay_statuses == old(self).relay_statuses
                &&& final(self).config == old(self).config
                &&& final(self).next_id == old(self).next_id
            },
    {
        if !check_pubkey(account_pubkey.as_str()) {
            return Err(WhitenoiseError::InvalidPublicKey);
        }
        if self.find_account(account_pubkey.as_str()).is_none() {
            return Err(WhitenoiseError::AccountNotFound);
        }
        let ghost ws0 = welcome_records_view(self.welcomes@);
        let rec = WelcomeRecord { account: account_pubkey, welcome };
        let ghost rv = rec@;
        self.welcomes.push(rec);
        proof {
            assert(welcome_records_view(self.welcomes@) =~= ws0.push(rv));
        }
        Ok(())
    }

    /// The pending welcomes of an account, in receipt order.
    pub fn pending_welcomes(&self, pubkey: String) -> (r: Result<Vec<Welcome>, WhitenoiseError>)
        ensures
            r is Ok <==> valid_pubkey(pubkey@) && self.account_exists(pubkey@),
            !valid_pubkey(pubkey@) ==> r == Result::<Vec<Welcome>, WhitenoiseError>::Err(
                WhitenoiseError::InvalidPublicKey,
            ),
            valid_pubkey(pubkey@) && !self.account_exists(pubkey@) ==> r == Result::<
                Vec<Welcome>,
                WhitenoiseError,
            >::Err(WhitenoiseError::AccountNotFound),
            r is Ok ==> welcome_views(r.unwrap()@) == pending_welcomes_of(
                welcome_records_view(self.welcomes@),
                pubkey@,
            ),
    {
        if !check_pubkey(pubkey.as_str()) {
            return Err(WhitenoiseError::InvalidPublicKey);
        }
        if self.find_account(pubkey.as_str()).is_none() {
            return Err(WhitenoiseError::AccountNotFound);
        }
        let ghost ws = welcome_records_view(self.welcomes@);
        let mut out: Vec<Welcome> = Vec::new();
        let mut i: usize = 0;
        proof {
            reveal(Seq::filter);
            assert(ws.take(0) =~= Seq::<WelcomeRecordV>::empty());
            assert(welcome_views(out@) =~= pending_welcomes_of(ws.take(0), pubkey@));
        }
        while i < self.welcomes.len()
            invariant
                i <= self.welcomes@.len(),
                ws == welcome_records_view(self.welcomes@),
                welcome_views(out@) == pending_welcomes_of(ws.take(i as int), pubkey@),
            decreases self.welcomes@.len() - i,
        {
            let ghost o0 = out@;
            let rec = &self.welcomes[i];
            proof {
                assert(ws.take(i as int + 1) =~= ws.take(i as int).push(rec@));
                lemma_pending_welcomes_push(ws.take(i as int), pubkey@, rec@);
            }
            if str_eq(rec.account.as_str(), pubkey.as_str()) && matches!(
                rec.welcome.state,
                WelcomeState::Pending,
            ) {
                out.push(rec.welcome.clone());
                proof {
                    assert(welcome_views(out@) =~= welcome_views(o0).push(rec@.welcome));
                    assert(welcome_views(out@) =~= pending_welcomes_of(
                        ws.take(i as int + 1),
                        pubkey@,
                    ));
                }
            } else {
                proof {
                    assert(welcome_views(out@) =~= pending_welcomes_of(
                        ws.take(i as int + 1),
                        pubkey@,
                    ));
                }
            }
            i += 1;
        }
        proof {
            assert(ws.take(self.welcomes@.len() as int) =~= ws);
        }
        Ok(out)
    }

    /// Looks one welcome up by its invitation event identifier.
    pub fn find_welcome_by_event_id(&self, pubkey: String, welcome_event_id: String) -> (r: Result<
        Welcome,
        WhitenoiseError,
    >)
        ensures
            r is Ok <==> valid_pubkey(pubkey@) && self.account_exists(pubkey@)
                && self.welcome_index(pubkey@, welcome_event_id@) != -1,
            !valid_pubkey(pubkey@) ==> r == Result::<Welcome, WhitenoiseError>::Err(
                WhitenoiseError::InvalidPublicKey,
            ),
            valid_pubkey(pubkey@) && !self.account_exists(pubkey@) ==> r == Result::<
                Welcome,
                WhitenoiseError,
            >::Err(WhitenoiseError::AccountNotFound),
            valid_pubkey(pubkey@) && self.account_exists(pubkey@) && self.welcome_index(
                pubkey@,
                welcome_event_id@,
            ) == -1 ==> r == Result::<Welcome, WhitenoiseError>::Err(
                WhitenoiseError::WelcomeNotFound,
            ),
            r is Ok ==> r.unwrap()@ == welcome_records_view(self.welcomes@)[self.welcome_index(
                pubkey@,
                welcome_event_id@,
            )].welcome,
    {
        if !check_pubkey(pubkey.as_str()) {
            return Err(WhitenoiseError::InvalidPublicKey);
        }
        if self.find_account(pubkey.as_str()).is_none() {
            return Err(WhitenoiseError::AccountNotFound);
        }
        match self.find_welcome(pubkey.as_str(), welcome_event_id.as_str()) {
            None => Err(WhitenoiseError::WelcomeNotFound),
            Some(wi) => {
                proof {
                    assert(welcome_records_view(self.welcomes@)[wi as int]
                        == self.welcomes@[wi as int]@);
                }
                Ok(self.welcomes[wi].welcome.clone())
            },
        }
    }

    /// Moves one pending welcome to a terminal state, touching nothing
    /// else. Shared by decline and ignore.
    fn resolve_welcome_exec(&mut self, pubkey: String, welcome_event_id: String, target:
        WelcomeState) -> (r: Result<(), WhitenoiseError>)
        requires
            !(target is Pending),
        ensures
            ({
                let ws = welcome_records_view(old(self).welcomes@);
                let wi = welcome_index_in(ws, pubkey@, welcome_event_id@);
                let ok = valid_pubkey(pubkey@) && old(self).account_exists(pubkey@)
                    && welcome_resolvable(ws, pubkey@, welcome_event_id@);
                &&& (r is Ok <==> ok)
                &&& (!valid_pubkey(pubkey@) ==> r == Result::<(), WhitenoiseError>::Err(
                    WhitenoiseError::InvalidPublicKey,
                ))
                &&& (valid_pubkey(pubkey@) && !old(self).account_exists(pubkey@) ==> r == Result::<
                    (),
                    WhitenoiseError,
                >::Err(WhitenoiseError::AccountNotFound))
                &&& (valid_pubkey(pubkey@) && old(self).account_exists(pubkey@) && wi == -1 ==> r
                    == Result::<(), WhitenoiseError>::Err(WhitenoiseError::WelcomeNotFound))
                &&& (valid_pubkey(pubkey@) && old(self).account_exists(pubkey@) && wi != -1 && !(
                ws[wi].welcome.state is Pending) ==> r == Result::<(), WhitenoiseError>::Err(
                    WhitenoiseError::AlreadyResolved,
                ))
                &&& (r is Err ==> *final(self) == *old(self))
                &&& (r is Ok ==> {
                    &&& welcome_records_view(final(self).welcomes@) == resolve_welcome(
                        ws,
                        pubkey@,
                        welcome_event_id@,
                        target,
                    )
                    &&& final(self).accounts == old(self).accounts
                    &&& final(self).users == old(self).users
                    &&& final(self).relays == old(self).relays
                    &&& final(self).key_packages == old(self).key_packages
                    &&& final(self).follows == old(self).follows
                    &&& final(self).groups == old(self).groups
                    &&& final(self).messages == old(self).messages
                &&& final(self).relay_statuses == old(self).relay_statuses
                &&& final(self).config == old(self).config
                    &&& final(self).relay_statuses == old(self).relay_statuses
                    &&& final(self).config == old(self).config
                    &&& final(self).next_id == old(self).next_id
                })
            }),
    {
        if !check_pubkey(pubkey.as_str()) {
            return Err(WhitenoiseError::InvalidPublicKey);
        }
        if self.find_account(pubkey.as_str()).is_none() {
            return Err(WhitenoiseError::AccountNotFound);
        }
        let wi = match self.find_welcome(pubkey.as_str(), welcome_event_id.as_str()) {
            None => {
                return Err(WhitenoiseError::WelcomeNotFound);
            },
            Some(wi) => wi,
        };
        let ghost ws = welcome_records_view(self.welcomes@);
        proof {
            assert(ws[wi as int] == self.welcomes@[wi as int]@);
        }
        if !matches!(self.welcomes[wi].welcome.state, WelcomeState::Pending) {
            return Err(WhitenoiseError::AlreadyResolved);
        }
        let rec = &self.welcomes[wi];
        let mut w2 = rec.welcome.clone();
        w2.state = target;
        let newrec = WelcomeRecord { account: rec.account.clone(), welcome: w2 };
        proof {
            assert(newrec@ == (WelcomeRecordV {
                account: ws[wi as int].account,
                welcome: WelcomeV { state: target, ..ws[wi as int].welcome },
            }));
        }
        self.welcomes.set(wi, newrec);
        proof {
            assert(welcome_records_view(self.welcomes@) =~= resolve_welcome(
                ws,
                pubkey@,
                welcome_event_id@,
                target,
            ));
        }
        Ok(())
    }

    /// Declines a pending welcome; a second resolution attempt fails as
    /// already resolved.
    pub fn decline_welcome(&mut self, pubkey: String, welcome_event_id: String) -> (r: Result<
        (),
        WhitenoiseError,
    >)
        ensures
            ({
                let ws = welcome_records_view(old(self).welcomes@);
                let wi = welcome_index_in(ws, pubkey@, welcome_event_id@);
                &&& (r is Ok <==> valid_pubkey(pubkey@) && old(self).account_exists(pubkey@)
                    && welcome_resolvable(ws, pubkey@, welcome_event_id@))
                &&& (valid_pubkey(pubkey@) && old(self).account_exists(pubkey@) && wi != -1 && !(
                ws[wi].welcome.state is Pending) ==> r == Result::<(), WhitenoiseError>::Err(
                    WhitenoiseError::AlreadyResolved,
                ))
                &&& (r is Err ==> *final(self) == *old(self))
                &&& (r is Ok ==> welcome_records_view(final(self).welcomes@) == resolve_welcome(
                    ws,
                    pubkey@,
                    welcome_event_id@,
                    WelcomeState::Declined,
                ) && final(self).groups == old(self).groups)
            }),
    {
        self.resolve_welcome_exec(pubkey, welcome_event_id, WelcomeState::Declined)
    }

    /// Ignores a pending welcome; a second resolution attempt fails as
    /// already resolved.
    pub fn ignore_welcome(&mut self, pubkey: String, welcome_event_id: String) -> (r: Result<
        (),
        WhitenoiseError,
    >)
        ensures
            ({
                let ws = welcome_records_view(old(self).welcomes@);
                let wi = welcome_index_in(ws, pubkey@, welcome_event_id@);
                &&& (r is Ok <==> valid_pubkey(pubkey@) && old(self).account_exists(pubkey@)
                    && welcome_resolvable(ws, pubkey@, welcome_event_id@))
                &&& (valid_pubkey(pubkey@) && old(self).account_exists(pubkey@) && wi != -1 && !(
                ws[wi].welcome.state is Pending) ==> r == Result::<(), WhitenoiseError>::Err(
                    WhitenoiseError::AlreadyResolved,
                ))
                &&& (r is Err ==> *final(self) == *old(self))
                &&& (r is Ok ==> welcome_records_view(final(self).welcomes@) == resolve_welcome(
                    ws,
                    pubkey@,
                    welcome_event_id@,
                    WelcomeState::Ignored,
                ) && final(self).groups == old(self).groups)
            }),
    {
        self.resolve_welcome_exec(pubkey, welcome_event_id, WelcomeState::Ignored)
    }

    /// Accepts a pending welcome: the welcome turns `Accepted` and the
    /// local group state is derived, either by activating an existing
    /// pending group record or by materializing one from the invitation
    /// snapshot. A second resolution attempt fails as already resolved.
    pub fn accept_welcome(&mut self, pubkey: String, welcome_event_id: String) -> (r: Result<
        (),
        WhitenoiseError,
    >)
        ensures
            ({
                let ws = welcome_records_view(old(self).welcomes@);
                let recs = group_records_view(old(self).groups@);
                let wi = welcome_index_in(ws, pubkey@, welcome_event_id@);
                &&& (r is Ok <==> valid_pubkey(pubkey@) && old(self).account_exists(pubkey@)
                    && welcome_resolvable(ws, pubkey@, welcome_event_id@))
                &&& (!valid_pubkey(pubkey@) ==> r == Result::<(), WhitenoiseError>::Err(
                    WhitenoiseError::InvalidPublicKey,
                ))
                &&& (valid_pubkey(pubkey@) && !old(self).account_exists(pubkey@) ==> r == Result::<
                    (),
                    WhitenoiseError,
                >::Err(WhitenoiseError::AccountNotFound))
                &&& (valid_pubkey(pubkey@) && old(self).account_exists(pubkey@) && wi == -1 ==> r
                    == Result::<(), WhitenoiseError>::Err(WhitenoiseError::WelcomeNotFound))
                &&& (valid_pubkey(pubkey@) && old(self).account_exists(pubkey@) && wi != -1 && !(
                ws[wi].welcome.state is Pending) ==> r == Result::<(), WhitenoiseError>::Err(
                    WhitenoiseError::AlreadyResolved,
                ))
                &&& (r is Err ==> *final(self) == *old(self))
                &&& (r is Ok ==> {
                    &&& welcome_records_view(final(self).welcomes@) == resolve_welcome(
                        ws,
                        pubkey@,
                        welcome_event_id@,
                        WelcomeState::Accepted,
                    )
                    &&& group_records_view(final(self).groups@) == groups_after_accept(
                        recs,
                        ws[wi].welcome,
                        pubkey@,
                    )
                    &&& final(self).accounts == old(self).accounts
                    &&& final(self).users == old(self).users
                    &&& final(self).relays == old(self).relays
                    &&& final(self).key_packages == old(self).key_packages
                    &&& final(self).follows == old(self).follows
                    &&& final(self).messages == old(self).messages
                &&& final(self).relay_statuses == old(self).relay_statuses
                &&& final(self).config == old(self).config
                    &&& final(self).relay_statuses == old(self).relay_statuses
                    &&& final(self).config == old(self).config
                    &&& final(self).next_id == old(self).next_id
                })
            }),
            groups_wf(group_records_view(old(self).groups@)) ==> groups_wf(
                group_records_view(final(self).groups@),
            ),
    {
        if !check_pubkey(pubkey.as_str()) {
            return Err(WhitenoiseError::InvalidPublicKey);
        }
        if self.find_account(pubkey.as_str()).is_none() {
            return Err(WhitenoiseError::AccountNotFound);
        }
        let wi = match self.find_welcome(pubkey.as_str(), welcome_event_id.as_str()) {
            None => {
                return Err(WhitenoiseError::WelcomeNotFound);
            },
            Some(wi) => wi,
        };
        let ghost ws = welcome_records_view(self.welcomes@);
        let ghost recs = group_records_view(self.groups@);
        proof {
            assert(ws[wi as int] == self.welcomes@[wi as int]@);
        }
        if !matches!(self.welcomes[wi].welcome.state, WelcomeState::Pending) {
            return Err(WhitenoiseError::AlreadyResolved);
        }
        let w = self.welcomes[wi].welcome.clone();
        let rec = &self.welcomes[wi];
        let mut w2 = rec.welcome.clone();
        w2.state = WelcomeState::Accepted;
        let newrec = WelcomeRecord { account: rec.account.clone(), welcome: w2 };
        proof {
            assert(newrec@ == (WelcomeRecordV {
                account: ws[wi as int].account,
                welcome: WelcomeV { state: WelcomeState::Accepted, ..ws[wi as int].welcome },
            }));
        }
        self.welcomes.set(wi, newrec);
        proof {
            assert(welcome_records_view(self.welcomes@) =~= resolve_welcome(
                ws,
                pubkey@,
                welcome_event_id@,
                WelcomeState::Accepted,
            ));
        }
        match self.find_group(w.mls_group_id.as_str()) {
            Some(gi) => {
                proof {
                    assert(recs[gi as int] == self.groups@[gi as int]@);
                }
                if matches!(self.groups[gi].group.state, GroupState::Pending) {
                    let g = &self.groups[gi];
                    let group = Group {
                        mls_group_id: g.group.mls_group_id.clone(),
                        nostr_group_id: g.group.nostr_group_id.clone(),
                        name: g.group.name.clone(),
                        description: g.group.description.clone(),
                        image_hash: g.group.image_hash,
                        image_key: g.group.image_key,
                        admin_pubkeys: clone_string_vec(&g.group.admin_pubkeys),
                        last_message_id: crate::metadata::clone_opt_string(
                            &g.group.last_message_id,
                        ),
                        last_message_at: g.group.last_message_at,
                        epoch: g.group.epoch,
                        state: GroupState::Active,
                    };
                    let group_type = g.group_type;
                    let members = clone_string_vec(&g.members);
                    let relays = clone_string_vec(&g.relays);
                    let newg = GroupRecord { group, group_type, members, relays };
                    proof {
                        assert(newg@ == (GroupRecordV {
                            group: GroupV { state: GroupState::Active, ..recs[gi as int].group },
                            ..recs[gi as int]
                        }));
                    }
                    self.groups.set(gi, newg);
                    proof {
                        assert(group_records_view(self.groups@) =~= groups_after_accept(
                            recs,
                            ws[wi as int].welcome,
                            pubkey@,
                        ));
                        if groups_wf(recs) {
                            assert forall|i: int|
                                0 <= i < group_records_view(self.groups@).len() implies ((
                            #[trigger] group_records_view(self.groups@)[i]).group_type
                                is DirectMessage ==> group_records_view(
                                self.groups@,
                            )[i].members.len() == 2) by {
                                if i != gi as int {
                                    assert(group_records_view(self.groups@)[i] == recs[i]);
                                }
                            }
                        }
                    }
                } else {
                    proof {
                        assert(group_records_view(self.groups@) =~= groups_after_accept(
                            recs,
                            ws[wi as int].welcome,
                            pubkey@,
                        ));
                    }
                }
            },
            None => {
                let is_dm = w.member_count == 2 && !str_eq(
                    w.welcomer.as_str(),
                    pubkey.as_str(),
                );
                let mut members: Vec<String> = Vec::new();
                members.push(pubkey.clone());
                if !str_eq(w.welcomer.as_str(), pubkey.as_str()) {
                    members.push(w.welcomer.clone());
                }
                let group = Group {
                    mls_group_id: w.mls_group_id,
                    nostr_group_id: w.nostr_group_id,
                    name: w.group_name,
                    description: w.group_description,
                    image_hash: None,
                    image_key: None,
                    admin_pubkeys: w.group_admin_pubkeys,
                    last_message_id: None,
                    last_message_at: None,
                    epoch: 0,
                    state: GroupState::Active,
                };
                let group_type = if is_dm {
                    GroupType::DirectMessage
                } else {
                    GroupType::Group
                };
                let newg = GroupRecord { group, group_type, members, relays: w.group_relays };
                proof {
                    if ws[wi as int].welcome.welcomer == pubkey@ {
                        assert(string_views(newg.members@) =~= seq![pubkey@]);
                    } else {
                        assert(string_views(newg.members@) =~= seq![
                            pubkey@,
                            ws[wi as int].welcome.welcomer,
                        ]);
                    }
                    assert(newg@ == accepted_group_record(ws[wi as int].welcome, pubkey@));
                }
                self.groups.push(newg);
                proof {
                    assert(group_records_view(self.groups@) =~= groups_after_accept(
                        recs,
                        ws[wi as int].welcome,
                        pubkey@,
                    ));
                    if groups_wf(recs) {
                        assert forall|i: int|
                            0 <= i < group_records_view(self.groups@).len() implies ((
                        #[trigger] group_records_view(self.groups@)[i]).group_type
                            is DirectMessage ==> group_records_view(self.groups@)[i].members.len()
                            == 2) by {
                            if i < recs.len() {
                                assert(group_records_view(self.groups@)[i] == recs[i]);
                            }
                        }
                    }
                }
            },
        }
        Ok(())
    }
}

} // verus!
