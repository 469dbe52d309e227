//! Relay configuration, connectivity status, and the subscription sweep.
//!
//! A relay endpoint is a `ws://` or `wss://` URL; parsing a malformed one
//! fails with the relay-URL error instead of being silently accepted. Relay
//! configuration is idempotent: adding an already-present URL is a no-op
//! success, and so is removing an absent one.

use vstd::prelude::*;
use vstd::pervasive::VecAdditionalExecFns;
use crate::session::{
    Whitenoise, Relay, RelayV, RelayType, AccountRelay, AccountRelayV, RelayStatus, RelayStatusV,
    relay_rows_view, statuses_view, str_eq,
};
use crate::encoding::check_pubkey;
use crate::encoding::valid_pubkey;
use crate::error::WhitenoiseError;
use crate::tokenizer::{starts_with, str_starts_with};

verus! {

/// A character a relay URL may hold: no spaces, no line structure.
pub open spec fn is_url_char(c: char) -> bool {
    c != ' ' && c != '\n' && c != '\t' && c != '\r'
}

/// The plain WebSocket scheme.
pub open spec fn ws_prefix() -> Seq<char> {
    seq!['w', 's', ':', '/', '/']
}

/// The TLS WebSocket scheme.
pub open spec fn wss_prefix() -> Seq<char> {
    seq!['w', 's', 's', ':', '/', '/']
}

/// A well-formed relay URL: a WebSocket scheme, a non-empty remainder, and
/// no whitespace anywhere.
pub open spec fn valid_relay_url(s: Seq<char>) -> bool {
    ((starts_with(s, wss_prefix()) && s.len() > 6) || (starts_with(s, ws_prefix()) && s.len()
        > 5)) && forall|i: int| 0 <= i < s.len() ==> is_url_char(#[trigger] s[i])
}

/// Checks that a string is a well-formed relay URL.
pub fn check_relay_url(s: &str) -> (r: bool)
    ensures
        r == valid_relay_url(s@),
{
    proof {
        reveal_strlit("ws://");
        reveal_strlit("wss://");
        assert("ws://"@ =~= ws_prefix());
        assert("wss://"@ =~= wss_prefix());
    }
    let n = s.unicode_len();
    let scheme_ok = (str_starts_with(s, "wss://") && n > 6) || (str_starts_with(s, "ws://") && n
        > 5);
    if !scheme_ok {
        return false;
    }
    let mut i: usize = 0;
    while i < n
        invariant
            n == s@.len(),
            i <= n,
            forall|j: int| 0 <= j < i ==> is_url_char(#[trigger] s@[j]),
        decreases n - i,
    {
        let c = s.get_char(i);
        if c == ' ' || c == '\n' || c == '\t' || c == '\r' {
            return false;
        }
        i += 1;
    }
    true
}

/// A validated relay endpoint URL.
#[derive(Debug)]
pub struct RelayUrl {
    pub url: String,
}

impl View for RelayUrl {
    type V = Seq<char>;

    open spec fn view(&self) -> Seq<char> {
        self.url@
    }
}

impl Clone for RelayUrl {
    fn clone(&self) -> (r: Self)
        ensures
            r@ == self@,
    {
        RelayUrl { url: self.url.clone() }
    }
}

/// Parses a relay endpoint; a malformed URL is rejected, never silently
/// accepted.
pub fn relay_url_from_string(url: String) -> (r: Result<RelayUrl, crate::error::ApiError>)
    ensures
        r is Ok <==> valid_relay_url(url@),
        r is Ok ==> r.unwrap()@ == url@,
        r is Err ==> crate::error::api_error_type_name(r.unwrap_err()) == "NostrUrl"@,
{
    if check_relay_url(url.as_str()) {
        Ok(RelayUrl { url })
    } else {
        Err(crate::error::ApiError::NostrUrl { message: "malformed relay url".to_owned() })
    }
}

/// The string form of a validated relay endpoint.
pub fn string_from_relay_url(relay_url: &RelayUrl) -> (r: String)
    ensures
        r@ == relay_url@,
{
    relay_url.url.clone()
}

/// The default blob-server endpoint media uploads go to.
pub fn get_default_blossom_server_url() -> (r: String)
    ensures
        r@ == "https://blossom.primal.net"@,
{
    "https://blossom.primal.net".to_owned()
}

/// The relays an account has configured for one purpose, in stored order.
pub open spec fn relays_for(
    rows: Seq<AccountRelayV>,
    owner: Seq<char>,
    rt: RelayType,
) -> Seq<RelayV> {
    rows.filter(|r: AccountRelayV| r.owner == owner && r.relay_type == rt).map_values(
        |r: AccountRelayV| r.relay,
    )
}

/// Whether a relay row with an owner, purpose and URL exists.
pub open spec fn relay_row_exists(
    rows: Seq<AccountRelayV>,
    owner: Seq<char>,
    rt: RelayType,
    url: Seq<char>,
) -> bool {
    exists|i: int|
        0 <= i < rows.len() && (#[trigger] rows[i]).owner == owner && rows[i].relay_type == rt
            && rows[i].relay.url == url
}

/// The relay rows that stay after removing one owner's URL for one purpose.
pub open spec fn rows_without(
    rows: Seq<AccountRelayV>,
    owner: Seq<char>,
    rt: RelayType,
    url: Seq<char>,
) -> Seq<AccountRelayV> {
    rows.filter(
        |r: AccountRelayV| !(r.owner == owner && r.relay_type == rt && r.relay.url == url),
    )
}

/// Extending the rows extends the kept relays accordingly.
proof fn lemma_relays_for_push(
    rows: Seq<AccountRelayV>,
    owner: Seq<char>,
    rt: RelayType,
    x: AccountRelayV,
)
    ensures
        relays_for(rows.push(x), owner, rt) == if x.owner == owner && x.relay_type == rt {
            relays_for(rows, owner, rt).push(x.relay)
        } else {
            relays_for(rows, owner, rt)
        },
{
    reveal(Seq::filter);
    assert(rows.push(x).drop_last() =~= rows);
    if x.owner == owner && x.relay_type == rt {
        assert(relays_for(rows.push(x), owner, rt) =~= relays_for(rows, owner, rt).push(x.relay));
    } else {
        assert(relays_for(rows.push(x), owner, rt) =~= relays_for(rows, owner, rt));
    }
}

/// Extending the rows extends what removal keeps accordingly.
proof fn lemma_rows_without_push(
    rows: Seq<AccountRelayV>,
    owner: Seq<char>,
    rt: RelayType,
    url: Seq<char>,
    x: AccountRelayV,
)
    ensures
        rows_without(rows.push(x), owner, rt, url) == if !(x.owner == owner && x.relay_type == rt
            && x.relay.url == url) {
            rows_without(rows, owner, rt, url).push(x)
        } else {
            rows_without(rows, owner, rt, url)
        },
{
    reveal(Seq::filter);
    assert(rows.push(x).drop_last() =~= rows);
    if !(x.owner == owner && x.relay_type == rt && x.relay.url == url) {
        assert(rows_without(rows.push(x), owner, rt, url) =~= rows_without(
            rows,
            owner,
            rt,
            url,
        ).push(x));
    } else {
        assert(rows_without(rows.push(x), owner, rt, url) =~= rows_without(rows, owner, rt, url));
    }
}

/// The views of a list of relays.
pub open spec fn relay_list_view(s: Seq<Relay>) -> Seq<RelayV> {
    s.map_values(|r: Relay| r@)
}

impl Whitenoise {
    /// The relays an account has configured for one purpose.
    pub fn account_relays(&self, pubkey: String, relay_type: RelayType) -> (r: Result<
        Vec<Relay>,
        WhitenoiseError,
    >)
        ensures
            r is Ok <==> valid_pubkey(pubkey@) && self.account_exists(pubkey@),
            !valid_pubkey(pubkey@) ==> r == Result::<Vec<Relay>, WhitenoiseError>::Err(
                WhitenoiseError::InvalidPublicKey,
            ),
            valid_pubkey(pubkey@) && !self.account_exists(pubkey@) ==> r == Result::<
                Vec<Relay>,
                WhitenoiseError,
            >::Err(WhitenoiseError::AccountNotFound),
            r is Ok ==> relay_list_view(r.unwrap()@) == relays_for(
                relay_rows_view(self.relays@),
                pubkey@,
                relay_type,
            ),
    {
        if !check_pubkey(pubkey.as_str()) {
            return Err(WhitenoiseError::InvalidPublicKey);
        }
        if self.find_account(pubkey.as_str()).is_none() {
            return Err(WhitenoiseError::AccountNotFound);
        }
        Ok(self.collect_relays(pubkey.as_str(), relay_type))
    }

    /// Collects the relays one key has configured for one purpose.
    pub(crate) fn collect_relays(&self, owner: &str, relay_type: RelayType) -> (out: Vec<Relay>)
        ensures
            relay_list_view(out@) == relays_for(
                relay_rows_view(self.relays@),
                owner@,
                relay_type,
            ),
    {
        let ghost rows = relay_rows_view(self.relays@);
        let mut out: Vec<Relay> = Vec::new();
        let mut i: usize = 0;
        proof {
            reveal(Seq::filter);
            assert(rows.take(0) =~= Seq::<AccountRelayV>::empty());
            assert(relay_list_view(out@) =~= relays_for(rows.take(0), owner@, relay_type));
        }
        while i < self.relays.len()
            invariant
                i <= self.relays@.len(),
                rows == relay_rows_view(self.relays@),
                relay_list_view(out@) == relays_for(rows.take(i as int), owner@, relay_type),
            decreases self.relays@.len() - i,
        {
            let ghost o0 = out@;
            let row = &self.relays[i];
            proof {
                assert(rows.take(i as int + 1) =~= rows.take(i as int).push(row@));
                lemma_relays_for_push(rows.take(i as int), owner@, relay_type, row@);
            }
            if str_eq(row.owner.as_str(), owner) && row.relay_type == relay_type {
                out.push(row.relay.clone());
                proof {
                    assert(relay_list_view(out@) =~= relay_list_view(o0).push(row@.relay));
                    assert(relay_list_view(out@) =~= relays_for(
                        rows.take(i as int + 1),
                        owner@,
                        relay_type,
                    ));
                }
            } else {
                proof {
                    assert(relay_list_view(out@) =~= relays_for(
                        rows.take(i as int + 1),
                        owner@,
                        relay_type,
                    ));
                }
            }
            i += 1;
        }
        proof {
            assert(rows.take(self.relays@.len() as int) =~= rows);
        }
        out
    }

    /// Whether a relay row with an owner, purpose and URL is configured.
    fn relay_row_present(&self, owner: &str, relay_type: RelayType, url: &str) -> (r: bool)
        ensures
            r == relay_row_exists(relay_rows_view(self.relays@), owner@, relay_type, url@),
    {
        let ghost rows = relay_rows_view(self.relays@);
        let mut i: usize = 0;
        while i < self.relays.len()
            invariant
                i <= self.relays@.len(),
                rows == relay_rows_view(self.relays@),
                forall|j: int|
                    0 <= j < i ==> !((#[trigger] rows[j]).owner == owner@ && rows[j].relay_type
                        == relay_type && rows[j].relay.url == url@),
            decreases self.relays@.len() - i,
        {
            let row = &self.relays[i];
            if str_eq(row.owner.as_str(), owner) && row.relay_type == relay_type
                && str_eq(row.relay.url.as_str(), url) {
                assert(rows[i as int].owner == owner@);
                return true;
            }
            i += 1;
        }
        false
    }

    /// Configures a relay URL for an account and purpose. Adding an
    /// already-present URL is a no-op success.
    pub fn add_account_relay(
        &mut self,
        pubkey: String,
        url: String,
        relay_type: RelayType,
        now: u64,
    ) -> (r: Result<(), WhitenoiseError>)
        ensures
            r is Ok <==> valid_pubkey(pubkey@) && old(self).account_exists(pubkey@)
                && valid_relay_url(url@),
            !valid_pubkey(pubkey@) ==> r == Result::<(), WhitenoiseError>::Err(
                WhitenoiseError::InvalidPublicKey,
            ),
            valid_pubkey(pubkey@) && !old(self).account_exists(pubkey@) ==> r == Result::<
                (),
                WhitenoiseError,
            >::Err(WhitenoiseError::AccountNotFound),
            valid_pubkey(pubkey@) && old(self).account_exists(pubkey@) && !valid_relay_url(url@)
                ==> r == Result::<(), WhitenoiseError>::Err(WhitenoiseError::InvalidRelayUrl),
            r is Err ==> *final(self) == *old(self),
            r is Ok && relay_row_exists(
                relay_rows_view(old(self).relays@),
                pubkey@,
                relay_type,
                url@,
            ) ==> *final(self) == *old(self),
            r is Ok && !relay_row_exists(
                relay_rows_view(old(self).relays@),
                pubkey@,
                relay_type,
                url@,
            ) ==> {
                &&& relay_rows_view(final(self).relays@) == relay_rows_view(
                    old(self).relays@,
                ).push(
                    AccountRelayV {
                        owner: pubkey@,
                        relay_type: relay_type,
                        relay: RelayV { url: url@, created_at: now, updated_at: now },
                    },
                )
                &&& final(self).accounts == old(self).accounts
                &&& final(self).users == old(self).users
                &&& final(self).key_packages == old(self).key_packages
                &&& final(self).follows == old(self).follows
                &&& final(self).groups == old(self).groups
                &&& final(self).welcomes == old(self).welcomes
                &&& final(self).messages == old(self).messages
                &&& final(self).relay_statuses == old(self).relay_statuses
                &&& final(self).config == old(self).config
                &&& final(self).next_id == old(self).next_id
            },
    {
        if !check_pubkey(pubkey.as_str()) {
            return Err(WhitenoiseError::InvalidPublicKey);
        }
        if self.find_account(pubkey.as_str()).is_none() {
            return Err(WhitenoiseError::AccountNotFound);
        }
        if !check_relay_url(url.as_str()) {
            return Err(WhitenoiseError::InvalidRelayUrl);
        }
        if self.relay_row_present(pubkey.as_str(), relay_type, url.as_str()) {
            return Ok(());
        }
        let row = AccountRelay {
            owner: pubkey,
            relay_type,
            relay: Relay { url, created_at: now, updated_at: now },
        };
        let ghost rows0 = relay_rows_view(self.relays@);
        let ghost rv = row@;
        self.relays.push(row);
        proof {
            assert(relay_rows_view(self.relays@) =~= rows0.push(rv));
        }
        Ok(())
    }

    /// Removes a relay URL from an account's configuration for one purpose.
    /// Removing an absent URL is a no-op success.
    pub fn remove_account_relay(&mut self, pubkey: String, url: String, relay_type: RelayType) -> (r:
        Result<(), WhitenoiseError>)
        ensures
            r is Ok <==> valid_pubkey(pubkey@) && old(self).account_exists(pubkey@)
                && valid_relay_url(url@),
            !valid_pubkey(pubkey@) ==> r == Result::<(), WhitenoiseError>::Err(
                WhitenoiseError::InvalidPublicKey,
            ),
            valid_pubkey(pubkey@) && !old(self).account_exists(pubkey@) ==> r == Result::<
                (),
                WhitenoiseError,
            >::Err(WhitenoiseError::AccountNotFound),
            valid_pubkey(pubkey@) && old(self).account_exists(pubkey@) && !valid_relay_url(url@)
                ==> r == Result::<(), WhitenoiseError>::Err(WhitenoiseError::InvalidRelayUrl),
            r is Err ==> *final(self) == *old(self),
            r is Ok ==> {
                &&& relay_rows_view(final(self).relays@) == rows_without(
                    relay_rows_view(old(self).relays@),
                    pubkey@,
                    relay_type,
                    url@,
                )
                &&& final(self).accounts == old(self).accounts
                &&& final(self).users == old(self).users
                &&& final(self).key_packages == old(self).key_packages
                &&& final(self).follows == old(self).follows
                &&& final(self).groups == old(self).groups
                &&& final(self).welcomes == old(self).welcomes
                &&& final(self).messages == old(self).messages
                &&& final(self).relay_statuses == old(self).relay_statuses
                &&& final(self).config == old(self).config
                &&& final(self).next_id == old(self).next_id
            },
    {
        if !check_pubkey(pubkey.as_str()) {
            return Err(WhitenoiseError::InvalidPublicKey);
        }
        if self.find_account(pubkey.as_str()).is_none() {
            return Err(WhitenoiseError::AccountNotFound);
        }
        if !check_relay_url(url.as_str()) {
            return Err(WhitenoiseError::InvalidRelayUrl);
        }
        let ghost rows = relay_rows_view(self.relays@);
        let mut kept: Vec<AccountRelay> = Vec::new();
        let mut i: usize = 0;
        proof {
            reveal(Seq::filter);
            assert(rows.take(0) =~= Seq::<AccountRelayV>::empty());
            assert(relay_rows_view(kept@) =~= rows_without(
                rows.take(0),
                pubkey@,
                relay_type,
                url@,
            ));
        }
        while i < self.relays.len()
            invariant
                i <= self.relays@.len(),
                rows == relay_rows_view(self.relays@),
                relay_rows_view(kept@) == rows_without(
                    rows.take(i as int),
                    pubkey@,
                    relay_type,
                    url@,
                ),
            decreases self.relays@.len() - i,
        {
            let ghost k0 = kept@;
            let row = &self.relays[i];
            proof {
                assert(rows.take(i as int + 1) =~= rows.take(i as int).push(row@));
                lemma_rows_without_push(rows.take(i as int), pubkey@, relay_type, url@, row@);
            }
            let matches_row = str_eq(row.owner.as_str(), pubkey.as_str()) && row.relay_type
                == relay_type && str_eq(row.relay.url.as_str(), url.as_str());
            if !matches_row {
                kept.push(
                    AccountRelay {
                        owner: row.owner.clone(),
                        relay_type: row.relay_type,
                        relay: row.relay.clone(),
                    },
                );
                proof {
                    assert(relay_rows_view(kept@) =~= relay_rows_view(k0).push(row@));
                    assert(relay_rows_view(kept@) =~= rows_without(
                        rows.take(i as int + 1),
                        pubkey@,
                        relay_type,
                        url@,
                    ));
                }
            } else {
                proof {
                    assert(relay_rows_view(kept@) =~= rows_without(
                        rows.take(i as int + 1),
                        pubkey@,
                        relay_type,
                        url@,
                    ));
                }
            }
            i += 1;
        }
        proof {
            assert(rows.take(self.relays@.len() as int) =~= rows);
        }
        self.relays = kept;
        Ok(())
    }
}

/// What one account's subscription maintenance observed.
#[derive(Debug)]
pub enum SubscriptionOutcome {
    /// The account's subscriptions were refreshed at a time.
    Refreshed { at: u64 },
    /// A transient failure; logged and skipped.
    TransientFailure,
    /// A catastrophic local-storage failure; aborts the sweep.
    StorageFailure { message: String },
}

/// The mathematical shape of an outcome.
pub enum SubscriptionOutcomeV {
    Refreshed { at: u64 },
    TransientFailure,
    StorageFailure { message: Seq<char> },
}

impl View for SubscriptionOutcome {
    type V = SubscriptionOutcomeV;

    open spec fn view(&self) -> SubscriptionOutcomeV {
        match self {
            SubscriptionOutcome::Refreshed { at } => SubscriptionOutcomeV::Refreshed { at: *at },
            SubscriptionOutcome::TransientFailure => SubscriptionOutcomeV::TransientFailure,
            SubscriptionOutcome::StorageFailure { message } => SubscriptionOutcomeV::StorageFailure {
                message: message@,
            },
        }
    }
}

/// The views of a list of outcomes.
pub open spec fn outcomes_view(s: Seq<SubscriptionOutcome>) -> Seq<SubscriptionOutcomeV> {
    s.map_values(|o: SubscriptionOutcome| o@)
}

/// The position of the first storage failure, or the list's length.
pub open spec fn first_storage_failure(s: Seq<SubscriptionOutcomeV>) -> int
    decreases s.len(),
{
    if s.len() == 0 {
        0
    } else if s[0] is StorageFailure {
        0
    } else {
        1 + first_storage_failure(s.drop_first())
    }
}

/// `first_storage_failure` is the first such position.
pub proof fn lemma_first_storage_failure(s: Seq<SubscriptionOutcomeV>)
    ensures
        0 <= first_storage_failure(s) <= s.len(),
        forall|j: int| 0 <= j < first_storage_failure(s) ==> !((#[trigger] s[j]) is StorageFailure),
        first_storage_failure(s) < s.len() ==> s[first_storage_failure(s)] is StorageFailure,
    decreases s.len(),
{
    if s.len() > 0 && !(s[0] is StorageFailure) {
        lemma_first_storage_failure(s.drop_first());
        assert forall|j: int| 1 <= j < s.len() implies s.drop_first()[j - 1] == s[j] by {}
    }
}

impl Whitenoise {
    /// Reconciles all accounts' subscriptions from the observed outcomes,
    /// one per account in order. A transient failure is skipped; the first
    /// storage failure aborts the sweep, leaving later accounts untouched,
    /// and is propagated.
    pub fn ensure_all_subscriptions(&mut self, outcomes: &Vec<SubscriptionOutcome>) -> (r: Result<
        (),
        WhitenoiseError,
    >)
        requires
            outcomes@.len() == old(self).accounts@.len(),
        ensures
            ({
                let ov = outcomes_view(outcomes@);
                let cut = first_storage_failure(ov);
                &&& (r is Ok <==> cut == ov.len())
                &&& (r is Err ==> (r matches Result::Err(WhitenoiseError::Storage { message })
                    && message@ == ov[cut]->StorageFailure_message))
                &&& final(self).accounts@.len() == old(self).accounts@.len()
                &&& forall|i: int|
                    0 <= i < final(self).accounts@.len() ==> (
                    #[trigger] final(self).accounts@[i])@ == match ov[i] {
                        SubscriptionOutcomeV::Refreshed { at } => if i < cut {
                            crate::session::AccountV {
                                last_synced_at: Some(at),
                                ..old(self).accounts@[i]@
                            }
                        } else {
                            old(self).accounts@[i]@
                        },
                        _ => old(self).accounts@[i]@,
                    }
                &&& final(self).users == old(self).users
                &&& final(self).relays == old(self).relays
                &&& final(self).key_packages == old(self).key_packages
                &&& final(self).follows == old(self).follows
                &&& final(self).groups == old(self).groups
                &&& final(self).welcomes == old(self).welcomes
                &&& final(self).messages == old(self).messages
                &&& final(self).relay_statuses == old(self).relay_statuses
                &&& final(self).config == old(self).config
                &&& final(self).next_id == old(self).next_id
                &&& final(self).relay_statuses == old(self).relay_statuses
                &&& final(self).config == old(self).config
            }),
    {
        let ghost ov = outcomes_view(outcomes@);
        proof {
            lemma_first_storage_failure(ov);
        }
        let mut i: usize = 0;
        while i < outcomes.len()
            invariant
                outcomes@.len() == self.accounts@.len(),
                ov == outcomes_view(outcomes@),
                i <= outcomes@.len(),
                forall|j: int| 0 <= j < i ==> !((#[trigger] ov[j]) is StorageFailure),
                0 <= first_storage_failure(ov) <= ov.len(),
                forall|j: int|
                    0 <= j < first_storage_failure(ov) ==> !((#[trigger] ov[j]) is StorageFailure),
                first_storage_failure(ov) < ov.len() ==> ov[first_storage_failure(ov)]
                    is StorageFailure,
                self.accounts@.len() == old(self).accounts@.len(),
                forall|j: int|
                    0 <= j < self.accounts@.len() ==> (#[trigger] self.accounts@[j])@ == if j < i {
                        match ov[j] {
                            SubscriptionOutcomeV::Refreshed { at } => crate::session::AccountV {
                                last_synced_at: Some(at),
                                ..old(self).accounts@[j]@
                            },
                            _ => old(self).accounts@[j]@,
                        }
                    } else {
                        old(self).accounts@[j]@
                    },
                self.users == old(self).users,
                self.relays == old(self).relays,
                self.key_packages == old(self).key_packages,
                self.follows == old(self).follows,
                self.groups == old(self).groups,
                self.welcomes == old(self).welcomes,
                self.messages == old(self).messages,
                self.relay_statuses == old(self).relay_statuses,
                self.next_id == old(self).next_id,
                self.config == old(self).config,
            decreases outcomes@.len() - i,
        {
            let outcome = &outcomes[i];
            match outcome {
                SubscriptionOutcome::Refreshed { at } => {
                    let acct = &self.accounts[i];
                    let updated = crate::session::Account {
                        pubkey: acct.pubkey.clone(),
                        last_synced_at: Some(*at),
                        created_at: acct.created_at,
                        updated_at: acct.updated_at,
                    };
                    self.accounts.set(i, updated);
                },
                SubscriptionOutcome::TransientFailure => {},
                SubscriptionOutcome::StorageFailure { message } => {
                    proof {
                        assert(ov[i as int] is StorageFailure);
                        assert(first_storage_failure(ov) == i as int);
                    }
                    return Err(WhitenoiseError::Storage { message: message.clone() });
                },
            }
            i += 1;
        }
        proof {
            assert(first_storage_failure(ov) == ov.len());
        }
        Ok(())
    }

    /// The observed connectivity of every relay of one account.
    pub fn get_account_relay_statuses(&self, pubkey: String) -> (r: Result<
        Vec<RelayStatus>,
        WhitenoiseError,
    >)
        ensures
            r is Ok <==> valid_pubkey(pubkey@) && self.account_exists(pubkey@),
            !valid_pubkey(pubkey@) ==> r == Result::<Vec<RelayStatus>, WhitenoiseError>::Err(
                WhitenoiseError::InvalidPublicKey,
            ),
            valid_pubkey(pubkey@) && !self.account_exists(pubkey@) ==> r == Result::<
                Vec<RelayStatus>,
                WhitenoiseError,
            >::Err(WhitenoiseError::AccountNotFound),
            r is Ok ==> statuses_view(r.unwrap()@) == statuses_for(
                statuses_view(self.relay_statuses@),
                pubkey@,
            ),
    {
        if !check_pubkey(pubkey.as_str()) {
            return Err(WhitenoiseError::InvalidPublicKey);
        }
        if self.find_account(pubkey.as_str()).is_none() {
            return Err(WhitenoiseError::AccountNotFound);
        }
        let ghost rows = statuses_view(self.relay_statuses@);
        let mut out: Vec<RelayStatus> = Vec::new();
        let mut i: usize = 0;
        proof {
            reveal(Seq::filter);
            assert(rows.take(0) =~= Seq::<RelayStatusV>::empty());
            assert(statuses_view(out@) =~= statuses_for(rows.take(0), pubkey@));
        }
        while i < self.relay_statuses.len()
            invariant
                i <= self.relay_statuses@.len(),
                rows == statuses_view(self.relay_statuses@),
                statuses_view(out@) == statuses_for(rows.take(i as int), pubkey@),
            decreases self.relay_statuses@.len() - i,
        {
            let ghost o0 = out@;
            let row = &self.relay_statuses[i];
            proof {
                assert(rows.take(i as int + 1) =~= rows.take(i as int).push(row@));
                lemma_statuses_for_push(rows.take(i as int), pubkey@, row@);
            }
            if str_eq(row.account.as_str(), pubkey.as_str()) {
                out.push(
                    RelayStatus {
                        account: row.account.clone(),
                        url: row.url.clone(),
                        status: row.status.clone(),
                    },
                );
                proof {
                    assert(statuses_view(out@) =~= statuses_view(o0).push(row@));
                    assert(statuses_view(out@) =~= statuses_for(rows.take(i as int + 1), pubkey@));
                }
            } else {
                proof {
                    assert(statuses_view(out@) =~= statuses_for(rows.take(i as int + 1), pubkey@));
                }
            }
            i += 1;
        }
        proof {
            assert(rows.take(self.relay_statuses@.len() as int) =~= rows);
        }
        Ok(out)
    }

    /// Records the observed connectivity of one relay for one account.
    pub fn record_relay_status(&mut self, pubkey: String, url: String, status: String)
        ensures
            statuses_view(final(self).relay_statuses@) == statuses_view(
                old(self).relay_statuses@,
            ).push(RelayStatusV { account: pubkey@, url: url@, status: status@ }),
            final(self).accounts == old(self).accounts,
            final(self).users == old(self).users,
            final(self).relays == old(self).relays,
            final(self).key_packages == old(self).key_packages,
            final(self).follows == old(self).follows,
            final(self).groups == old(self).groups,
            final(self).welcomes == old(self).welcomes,
            final(self).messages == old(self).messages,
            final(self).next_id == old(self).next_id,
            final(self).config == old(self).config,
    {
        let ghost rows0 = statuses_view(self.relay_statuses@);
        let row = RelayStatus { account: pubkey, url, status };
        let ghost rv = row@;
        self.relay_statuses.push(row);
        proof {
            assert(statuses_view(self.relay_statuses@) =~= rows0.push(rv));
        }
    }
}

/// The status rows of one account, in recorded order.
pub open spec fn statuses_for(rows: Seq<RelayStatusV>, account: Seq<char>) -> Seq<RelayStatusV> {
    rows.filter(|r: RelayStatusV| r.account == account)
}

/// Extending the rows extends one account's statuses accordingly.
proof fn lemma_statuses_for_push(rows: Seq<RelayStatusV>, account: Seq<char>, x: RelayStatusV)
    ensures
        statuses_for(rows.push(x), account) == if x.account == account {
            statuses_for(rows, account).push(x)
        } else {
            statuses_for(rows, account)
        },
{
    reveal(Seq::filter);
    assert(rows.push(x).drop_last() =~= rows);
    if x.account == account {
        assert(statuses_for(rows.push(x), account) =~= statuses_for(rows, account).push(x));
    } else {
        assert(statuses_for(rows.push(x), account) =~= statuses_for(rows, account));
    }
}

} // verus!
