//! Local accounts, their profile metadata, key packages and follows.
//!
//! An account is registered under a public key the key-management layer
//! derived; the session never sees private keys. Key package publication
//! needs a key-package relay; deleting an absent package is a no-op, and
//! deletion reports how many packages left. Follows are idempotent edges.

use vstd::prelude::*;
use vstd::pervasive::VecAdditionalExecFns;
use crate::session::{
    Whitenoise, Account, AccountV, User, UserV, KeyPackage, KeyPackageV, Follow, FollowV,
    RelayType, AccountRelayV, accounts_view, user_list_view, key_packages_view, follows_view,
    relay_rows_view, user_index_in, fresh_user, str_eq,
};
use crate::encoding::{valid_pubkey, check_pubkey, hex_of, u64_be_bytes, local_id_string};
use crate::error::WhitenoiseError;
use crate::metadata::{FlutterMetadata, empty_flutter_metadata};

verus! {

/// The key packages one key has published, in publication order.
pub open spec fn key_packages_for(rows: Seq<KeyPackageV>, owner: Seq<char>) -> Seq<KeyPackageV> {
    rows.filter(|k: KeyPackageV| k.owner == owner)
}

/// The key package rows that stay after deleting one package.
pub open spec fn key_packages_without(
    rows: Seq<KeyPackageV>,
    owner: Seq<char>,
    id: Seq<char>,
) -> Seq<KeyPackageV> {
    rows.filter(|k: KeyPackageV| !(k.owner == owner && k.id == id))
}

/// The key package rows that stay after deleting every package of a key.
pub open spec fn key_packages_without_owner(
    rows: Seq<KeyPackageV>,
    owner: Seq<char>,
) -> Seq<KeyPackageV> {
    rows.filter(|k: KeyPackageV| k.owner != owner)
}

/// The first key package of one key, or -1.
pub open spec fn kp_index_in(rows: Seq<KeyPackageV>, owner: Seq<char>) -> int
    decreases rows.len(),
{
    if rows.len() == 0 {
        -1
    } else if rows[0].owner == owner {
        0
    } else {
        let r = kp_index_in(rows.drop_first(), owner);
        if r == -1 {
            -1
        } else {
            r + 1
        }
    }
}

/// `kp_index_in` returns the first matching index, or -1.
pub proof fn lemma_kp_index_in(rows: Seq<KeyPackageV>, owner: Seq<char>)
    ensures
        kp_index_in(rows, owner) == -1 ==> forall|j: int|
            0 <= j < rows.len() ==> (#[trigger] rows[j]).owner != owner,
        kp_index_in(rows, owner) != -1 ==> {
            let r = kp_index_in(rows, owner);
            &&& 0 <= r < rows.len()
            &&& rows[r].owner == owner
            &&& forall|j: int| 0 <= j < r ==> (#[trigger] rows[j]).owner != owner
        },
    decreases rows.len(),
{
    if rows.len() > 0 && rows[0].owner != owner {
        lemma_kp_index_in(rows.drop_first(), owner);
        assert forall|j: int| 1 <= j < rows.len() implies rows.drop_first()[j - 1] == rows[j] by {}
    }
}

/// Whether a follow edge exists.
pub open spec fn follow_exists(rows: Seq<FollowV>, account: Seq<char>, target: Seq<char>) -> bool {
    exists|i: int|
        0 <= i < rows.len() && (#[trigger] rows[i]).account == account && rows[i].target == target
}

/// The follow edges that stay after unfollowing one key.
pub open spec fn follows_without(
    rows: Seq<FollowV>,
    account: Seq<char>,
    target: Seq<char>,
) -> Seq<FollowV> {
    rows.filter(|f: FollowV| !(f.account == account && f.target == target))
}

/// Whether a key has a relay of one purpose configured.
pub open spec fn has_relay_of_type(
    rows: Seq<AccountRelayV>,
    owner: Seq<char>,
    rt: RelayType,
) -> bool {
    exists|i: int|
        0 <= i < rows.len() && (#[trigger] rows[i]).owner == owner && rows[i].relay_type == rt
}

/// The profile a key resolves to: the stored record, or a fresh empty one.
pub open spec fn user_or_fresh(users: Seq<UserV>, pk: Seq<char>) -> UserV {
    let i = user_index_in(users, pk);
    if i == -1 {
        fresh_user(pk, 0)
    } else {
        users[i]
    }
}

/// The profiles an account follows, in follow order.
pub open spec fn followed_users(
    rows: Seq<FollowV>,
    users: Seq<UserV>,
    account: Seq<char>,
) -> Seq<UserV> {
    rows.filter(|f: FollowV| f.account == account).map_values(
        |f: FollowV| user_or_fresh(users, f.target),
    )
}

/// Filtering key packages distributes over push.
proof fn lemma_kp_filter_push(rows: Seq<KeyPackageV>, pred: spec_fn(KeyPackageV) -> bool, x:
    KeyPackageV)
    ensures
        rows.push(x).filter(pred) == if pred(x) {
            rows.filter(pred).push(x)
        } else {
            rows.filter(pred)
        },
{
    reveal(Seq::filter);
    assert(rows.push(x).drop_last() =~= rows);
}

/// Extending the follow edges extends the followed profiles accordingly.
proof fn lemma_followed_users_push(
    rows: Seq<FollowV>,
    users: Seq<UserV>,
    account: Seq<char>,
    x: FollowV,
)
    ensures
        followed_users(rows.push(x), users, account) == if x.account == account {
            followed_users(rows, users, account).push(user_or_fresh(users, x.target))
        } else {
            followed_users(rows, users, account)
        },
{
    reveal(Seq::filter);
    assert(rows.push(x).drop_last() =~= rows);
    if x.account == account {
        assert(followed_users(rows.push(x), users, account) =~= followed_users(
            rows,
            users,
            account,
        ).push(user_or_fresh(users, x.target)));
    } else {
        assert(followed_users(rows.push(x), users, account) =~= followed_users(
            rows,
            users,
            account,
        ));
    }
}

/// Filtering follow edges distributes over push.
proof fn lemma_follows_without_push(
    rows: Seq<FollowV>,
    account: Seq<char>,
    target: Seq<char>,
    x: FollowV,
)
    ensures
        follows_without(rows.push(x), account, target) == if !(x.account == account && x.target
            == target) {
            follows_without(rows, account, target).push(x)
        } else {
            follows_without(rows, account, target)
        },
{
    reveal(Seq::filter);
    assert(rows.push(x).drop_last() =~= rows);
    if !(x.account == account && x.target == target) {
        assert(follows_without(rows.push(x), account, target) =~= follows_without(
            rows,
            account,
            target,
        ).push(x));
    } else {
        assert(follows_without(rows.push(x), account, target) =~= follows_without(
            rows,
            account,
            target,
        ));
    }
}

impl Whitenoise {
    /// Every locally held account, in registration order.
    pub fn get_accounts(&self) -> (r: Vec<Account>)
        ensures
            accounts_view(r@) == accounts_view(self.accounts@),
    {
        let mut r: Vec<Account> = Vec::new();
        let mut i: usize = 0;
        while i < self.accounts.len()
            invariant
                i <= self.accounts@.len(),
                r@.len() == i,
                forall|j: int| 0 <= j < i ==> #[trigger] r@[j]@ == self.accounts@[j]@,
            decreases self.accounts@.len() - i,
        {
            r.push(self.accounts[i].clone());
            i += 1;
        }
        proof {
            assert forall|j: int|
                0 <= j < self.accounts@.len() implies accounts_view(r@)[j] == accounts_view(
                self.accounts@,
            )[j] by {
                assert(accounts_view(r@)[j] == r@[j]@);
                assert(accounts_view(self.accounts@)[j] == self.accounts@[j]@);
            }
            assert(accounts_view(r@) =~= accounts_view(self.accounts@));
        }
        r
    }

    /// The account a public key belongs to.
    pub fn get_account(&self, pubkey: String) -> (r: Result<Account, WhitenoiseError>)
        ensures
            r is Ok <==> valid_pubkey(pubkey@) && self.account_exists(pubkey@),
            !valid_pubkey(pubkey@) ==> r == Result::<Account, WhitenoiseError>::Err(
                WhitenoiseError::InvalidPublicKey,
            ),
            valid_pubkey(pubkey@) && !self.account_exists(pubkey@) ==> r == Result::<
                Account,
                WhitenoiseError,
            >::Err(WhitenoiseError::AccountNotFound),
            r is Ok ==> r.unwrap()@ == accounts_view(self.accounts@)[self.account_index(pubkey@)],
    {
        if !check_pubkey(pubkey.as_str()) {
            return Err(WhitenoiseError::InvalidPublicKey);
        }
        match self.find_account(pubkey.as_str()) {
            None => Err(WhitenoiseError::AccountNotFound),
            Some(i) => {
                proof {
                    assert(accounts_view(self.accounts@)[i as int] == self.accounts@[i as int]@);
                }
                Ok(self.accounts[i].clone())
            },
        }
    }

    /// Registers a fresh identity under a public key the key-management
    /// layer derived. The key must not already carry an account.
    pub fn create_identity(&mut self, pubkey: String, now: u64) -> (r: Result<
        Account,
        WhitenoiseError,
    >)
        ensures
            r is Ok <==> valid_pubkey(pubkey@) && !old(self).account_exists(pubkey@),
            !valid_pubkey(pubkey@) ==> r == Result::<Account, WhitenoiseError>::Err(
                WhitenoiseError::InvalidPublicKey,
            ),
            valid_pubkey(pubkey@) && old(self).account_exists(pubkey@) ==> r matches Result::Err(
                WhitenoiseError::Other { .. },
            ),
            r is Err ==> *final(self) == *old(self),
            r is Ok ==> {
                &&& accounts_view(final(self).accounts@) == accounts_view(
                    old(self).accounts@,
                ).push(
                    AccountV {
                        pubkey: pubkey@,
                        last_synced_at: None,
                        created_at: now,
                        updated_at: now,
                    },
                )
                &&& r.unwrap()@ == (AccountV {
                    pubkey: pubkey@,
                    last_synced_at: None,
                    created_at: now,
                    updated_at: now,
                })
                &&& final(self).users == old(self).users
                &&& final(self).relays == old(self).relays
                &&& final(self).key_packages == old(self).key_packages
                &&& final(self).follows == old(self).follows
                &&& final(self).groups == old(self).groups
                &&& final(self).welcomes == old(self).welcomes
                &&& final(self).messages == old(self).messages
                &&& final(self).relay_statuses == old(self).relay_statuses
                &&& final(self).config == old(self).config
                &&& final(self).next_id == old(self).next_id
            },
    {
        if !check_pubkey(pubkey.as_str()) {
            return Err(WhitenoiseError::InvalidPublicKey);
        }
        if self.find_account(pubkey.as_str()).is_some() {
            return Err(
                WhitenoiseError::Other { message: "account already exists".to_owned() },
            );
        }
        let acct = Account {
            pubkey: pubkey.clone(),
            last_synced_at: None,
            created_at: now,
            updated_at: now,
        };
        let returned = acct.clone();
        let ghost a0 = accounts_view(self.accounts@);
        let ghost av = acct@;
        self.accounts.push(acct);
        proof {
            assert(accounts_view(self.accounts@) =~= a0.push(av));
        }
        Ok(returned)
    }

    /// Logs a key in: returns the existing account, or registers one if the
    /// key is new.
    pub fn login(&mut self, pubkey: String, now: u64) -> (r: Result<Account, WhitenoiseError>)
        ensures
            r is Ok <==> valid_pubkey(pubkey@),
            !valid_pubkey(pubkey@) ==> r == Result::<Account, WhitenoiseError>::Err(
                WhitenoiseError::InvalidPublicKey,
            ) && *final(self) == *old(self),
            r is Ok && old(self).account_exists(pubkey@) ==> *final(self) == *old(self)
                && r.unwrap()@ == accounts_view(old(self).accounts@)[old(self).account_index(
                pubkey@,
            )],
            r is Ok && !old(self).account_exists(pubkey@) ==> {
                &&& accounts_view(final(self).accounts@) == accounts_view(
                    old(self).accounts@,
                ).push(
                    AccountV {
                        pubkey: pubkey@,
                        last_synced_at: None,
                        created_at: now,
                        updated_at: now,
                    },
                )
                &&& r.unwrap()@ == (AccountV {
                    pubkey: pubkey@,
                    last_synced_at: None,
                    created_at: now,
                    updated_at: now,
                })
                &&& final(self).users == old(self).users
                &&& final(self).relays == old(self).relays
                &&& final(self).key_packages == old(self).key_packages
                &&& final(self).follows == old(self).follows
                &&& final(self).groups == old(self).groups
                &&& final(self).welcomes == old(self).welcomes
                &&& final(self).messages == old(self).messages
                &&& final(self).relay_statuses == old(self).relay_statuses
                &&& final(self).config == old(self).config
                &&& final(self).next_id == old(self).next_id
            },
    {
        if !check_pubkey(pubkey.as_str()) {
            return Err(WhitenoiseError::InvalidPublicKey);
        }
        match self.find_account(pubkey.as_str()) {
            Some(i) => {
                proof {
                    assert(accounts_view(self.accounts@)[i as int] == self.accounts@[i as int]@);
                }
                Ok(self.accounts[i].clone())
            },
            None => {
                let acct = Account {
                    pubkey: pubkey.clone(),
                    last_synced_at: None,
                    created_at: now,
                    updated_at: now,
                };
                let returned = acct.clone();
                let ghost a0 = accounts_view(self.accounts@);
                let ghost av = acct@;
                self.accounts.push(acct);
                proof {
                    assert(accounts_view(self.accounts@) =~= a0.push(av));
                }
                Ok(returned)
            },
        }
    }

    /// Removes an account. Its other records stay until overwritten.
    pub fn logout(&mut self, pubkey: String) -> (r: Result<(), WhitenoiseError>)
        ensures
            r is Ok <==> valid_pubkey(pubkey@) && old(self).account_exists(pubkey@),
            !valid_pubkey(pubkey@) ==> r == Result::<(), WhitenoiseError>::Err(
                WhitenoiseError::InvalidPublicKey,
            ),
            valid_pubkey(pubkey@) && !old(self).account_exists(pubkey@) ==> r == Result::<
                (),
                WhitenoiseError,
            >::Err(WhitenoiseError::AccountNotFound),
            r is Err ==> *final(self) == *old(self),
            r is Ok ==> {
                &&& accounts_view(final(self).accounts@) == accounts_view(
                    old(self).accounts@,
                ).remove(old(self).account_index(pubkey@))
                &&& final(self).users == old(self).users
                &&& final(self).relays == old(self).relays
                &&& final(self).key_packages == old(self).key_packages
                &&& final(self).follows == old(self).follows
                &&& final(self).groups == old(self).groups
                &&& final(self).welcomes == old(self).welcomes
                &&& final(self).messages == old(self).messages
                &&& final(self).relay_statuses == old(self).relay_statuses
                &&& final(self).config == old(self).config
                &&& final(self).next_id == old(self).next_id
            },
    {
        if !check_pubkey(pubkey.as_str()) {
            return Err(WhitenoiseError::InvalidPublicKey);
        }
        match self.find_account(pubkey.as_str()) {
            None => Err(WhitenoiseError::AccountNotFound),
            Some(i) => {
                let ghost a0 = accounts_view(self.accounts@);
                self.accounts.remove(i);
                proof {
                    assert(accounts_view(self.accounts@) =~= a0.remove(i as int));
                }
                Ok(())
            },
        }
    }

    /// The stored profile metadata of an account: its user record's
    /// metadata, or empty metadata when no profile was stored yet.
    pub fn account_metadata(&self, pubkey: String) -> (r: Result<
        FlutterMetadata,
        WhitenoiseError,
    >)
        ensures
            r is Ok <==> valid_pubkey(pubkey@) && self.account_exists(pubkey@),
            r is Ok ==> r.unwrap()@ == user_or_fresh(
                user_list_view(self.users@),
                pubkey@,
            ).metadata,
    {
        if !check_pubkey(pubkey.as_str()) {
            return Err(WhitenoiseError::InvalidPublicKey);
        }
        if self.find_account(pubkey.as_str()).is_none() {
            return Err(WhitenoiseError::AccountNotFound);
        }
        match self.find_user(pubkey.as_str()) {
            Some(ui) => {
                proof {
                    assert(user_list_view(self.users@)[ui as int] == self.users@[ui as int]@);
                }
                Ok(self.users[ui].metadata.clone())
            },
            None => {
                let m = empty_flutter_metadata();
                proof {
                    assert(m@.custom =~= fresh_user(pubkey@, 0).metadata.custom);
                }
                Ok(m)
            },
        }
    }

    /// Replaces the stored profile metadata of an account, creating its
    /// user record if none exists.
    pub fn update_account_metadata(&mut self, pubkey: String, metadata: &FlutterMetadata, now: u64)
        -> (r: Result<(), WhitenoiseError>)
        ensures
            r is Ok <==> valid_pubkey(pubkey@) && old(self).account_exists(pubkey@),
            r is Err ==> *final(self) == *old(self),
            r is Ok ==> {
                let users = user_list_view(old(self).users@);
                let ui = user_index_in(users, pubkey@);
                &&& (ui != -1 ==> user_list_view(final(self).users@) == users.update(
                    ui,
                    UserV { metadata: metadata@, updated_at: now, ..users[ui] },
                ))
                &&& (ui == -1 ==> user_list_view(final(self).users@) == users.push(
                    UserV {
                        pubkey: pubkey@,
                        metadata: metadata@,
                        created_at: now,
                        updated_at: now,
                    },
                ))
                &&& final(self).accounts == old(self).accounts
                &&& final(self).relays == old(self).relays
                &&& final(self).key_packages == old(self).key_packages
                &&& final(self).follows == old(self).follows
                &&& final(self).groups == old(self).groups
                &&& final(self).welcomes == old(self).welcomes
                &&& final(self).messages == old(self).messages
                &&& final(self).relay_statuses == old(self).relay_statuses
                &&& final(self).config == old(self).config
                &&& final(self).next_id == old(self).next_id
            },
    {
        if !check_pubkey(pubkey.as_str()) {
            return Err(WhitenoiseError::InvalidPublicKey);
        }
        if self.find_account(pubkey.as_str()).is_none() {
            return Err(WhitenoiseError::AccountNotFound);
        }
        let ghost users = user_list_view(self.users@);
        match self.find_user(pubkey.as_str()) {
            Some(ui) => {
                proof {
                    assert(users[ui as int] == self.users@[ui as int]@);
                }
                let u = &self.users[ui];
                let newu = User {
                    pubkey: u.pubkey.clone(),
                    metadata: metadata.clone(),
                    created_at: u.created_at,
                    updated_at: now,
                };
                proof {
                    assert(newu@ == (UserV {
                        metadata: metadata@,
                        updated_at: now,
                        ..users[ui as int]
                    }));
                }
                self.users.set(ui, newu);
                proof {
                    assert(user_list_view(self.users@) =~= users.update(
                        ui as int,
                        UserV { metadata: metadata@, updated_at: now, ..users[ui as int] },
                    ));
                }
            },
            None => {
                let newu = User {
                    pubkey: pubkey.clone(),
                    metadata: metadata.clone(),
                    created_at: now,
                    updated_at: now,
                };
                let ghost nv = newu@;
                self.users.push(newu);
                proof {
                    assert(user_list_view(self.users@) =~= users.push(nv));
                }
            },
        }
        Ok(())
    }

    /// Whether a key has a relay of one purpose configured.
    fn relay_of_type_present(&self, owner: &str, rt: RelayType) -> (r: bool)
        ensures
            r == has_relay_of_type(relay_rows_view(self.relays@), owner@, rt),
    {
        let ghost rows = relay_rows_view(self.relays@);
        let mut i: usize = 0;
        while i < self.relays.len()
            invariant
                i <= self.relays@.len(),
                rows == relay_rows_view(self.relays@),
                forall|j: int|
                    0 <= j < i ==> !((#[trigger] rows[j]).owner == owner@ && rows[j].relay_type
                        == rt),
            decreases self.relays@.len() - i,
        {
            let row = &self.relays[i];
            if str_eq(row.owner.as_str(), owner) && row.relay_type == rt {
                assert(rows[i as int].owner == owner@);
                return true;
            }
            i += 1;
        }
        false
    }

    /// Publishes a fresh key package for an account. Fails when the account
    /// has no key-package relay configured.
    pub fn publish_account_key_package(&mut self, account_pubkey: String, now: u64) -> (r: Result<
        (),
        WhitenoiseError,
    >)
        ensures
            r is Ok <==> valid_pubkey(account_pubkey@) && old(self).account_exists(
                account_pubkey@,
            ) && has_relay_of_type(
                relay_rows_view(old(self).relays@),
                account_pubkey@,
                RelayType::KeyPackage,
            ) && old(self).next_id < u64::MAX,
            valid_pubkey(account_pubkey@) && old(self).account_exists(account_pubkey@)
                && !has_relay_of_type(
                relay_rows_view(old(self).relays@),
                account_pubkey@,
                RelayType::KeyPackage,
            ) ==> r matches Result::Err(WhitenoiseError::Other { .. }),
            r is Err ==> *final(self) == *old(self),
            r is Ok ==> {
                &&& key_packages_view(final(self).key_packages@) == key_packages_view(
                    old(self).key_packages@,
                ).push(
                    KeyPackageV {
                        owner: account_pubkey@,
                        id: hex_of(u64_be_bytes(old(self).next_id)),
                        created_at: now,
                    },
                )
                &&& final(self).next_id == old(self).next_id + 1
                &&& final(self).accounts == old(self).accounts
                &&& final(self).users == old(self).users
                &&& final(self).relays == old(self).relays
                &&& final(self).follows == old(self).follows
                &&& final(self).groups == old(self).groups
                &&& final(self).welcomes == old(self).welcomes
                &&& final(self).messages == old(self).messages
                &&& final(self).relay_statuses == old(self).relay_statuses
                &&& final(self).config == old(self).config
            },
    {
        if !check_pubkey(account_pubkey.as_str()) {
            return Err(WhitenoiseError::InvalidPublicKey);
        }
        if self.find_account(account_pubkey.as_str()).is_none() {
            return Err(WhitenoiseError::AccountNotFound);
        }
        if !self.relay_of_type_present(account_pubkey.as_str(), RelayType::KeyPackage) {
            return Err(
                WhitenoiseError::Other { message: "no key package relay configured".to_owned() },
            );
        }
        if self.next_id == u64::MAX {
            return Err(
                WhitenoiseError::Other { message: "local identifier space exhausted".to_owned() },
            );
        }
        let id = local_id_string(self.next_id);
        let kp = KeyPackage { owner: account_pubkey, id, created_at: now };
        let ghost k0 = key_packages_view(self.key_packages@);
        let ghost kv = kp@;
        self.key_packages.push(kp);
        self.next_id = self.next_id + 1;
        proof {
            assert(key_packages_view(self.key_packages@) =~= k0.push(kv));
        }
        Ok(())
    }

    /// Every key package an account has published, in publication order.
    pub fn account_key_packages(&self, account_pubkey: String) -> (r: Result<
        Vec<KeyPackage>,
        WhitenoiseError,
    >)
        ensures
            r is Ok <==> valid_pubkey(account_pubkey@) && self.account_exists(account_pubkey@),
            r is Ok ==> key_packages_view(r.unwrap()@) == key_packages_for(
                key_packages_view(self.key_packages@),
                account_pubkey@,
            ),
    {
        if !check_pubkey(account_pubkey.as_str()) {
            return Err(WhitenoiseError::InvalidPublicKey);
        }
        if self.find_account(account_pubkey.as_str()).is_none() {
            return Err(WhitenoiseError::AccountNotFound);
        }
        let ghost rows = key_packages_view(self.key_packages@);
        let mut out: Vec<KeyPackage> = Vec::new();
        let mut i: usize = 0;
        proof {
            reveal(Seq::filter);
            assert(rows.take(0) =~= Seq::<KeyPackageV>::empty());
            assert(key_packages_view(out@) =~= key_packages_for(rows.take(0), account_pubkey@));
        }
        while i < self.key_packages.len()
            invariant
                i <= self.key_packages@.len(),
                rows == key_packages_view(self.key_packages@),
                key_packages_view(out@) == key_packages_for(rows.take(i as int), account_pubkey@),
            decreases self.key_packages@.len() - i,
        {
            let ghost o0 = out@;
            let row = &self.key_packages[i];
            proof {
                assert(rows.take(i as int + 1) =~= rows.take(i as int).push(row@));
                lemma_kp_filter_push(
                    rows.take(i as int),
                    |k: KeyPackageV| k.owner == account_pubkey@,
                    row@,
                );
            }
            if str_eq(row.owner.as_str(), account_pubkey.as_str()) {
                out.push(row.clone());
                proof {
                    assert(key_packages_view(out@) =~= key_packages_view(o0).push(row@));
                    assert(key_packages_view(out@) =~= key_packages_for(
                        rows.take(i as int + 1),
                        account_pubkey@,
                    ));
                }
            } else {
                proof {
                    assert(key_packages_view(out@) =~= key_packages_for(
                        rows.take(i as int + 1),
                        account_pubkey@,
                    ));
                }
            }
            i += 1;
        }
        proof {
            assert(rows.take(self.key_packages@.len() as int) =~= rows);
        }
        Ok(out)
    }

    /// The first-published key package of any key, if one is published.
    pub fn account_key_package(&self, pubkey: String) -> (r: Result<
        Option<KeyPackage>,
        WhitenoiseError,
    >)
        ensures
            r is Ok <==> valid_pubkey(pubkey@),
            r is Ok ==> match r.unwrap() {
                Some(kp) => kp_index_in(key_packages_view(self.key_packages@), pubkey@) != -1
                    && kp@ == key_packages_view(self.key_packages@)[kp_index_in(
                    key_packages_view(self.key_packages@),
                    pubkey@,
                )],
                None => kp_index_in(key_packages_view(self.key_packages@), pubkey@) == -1,
            },
    {
        if !check_pubkey(pubkey.as_str()) {
            return Err(WhitenoiseError::InvalidPublicKey);
        }
        let ghost rows = key_packages_view(self.key_packages@);
        let mut i: usize = 0;
        while i < self.key_packages.len()
            invariant
                valid_pubkey(pubkey@),
                i <= self.key_packages@.len(),
                rows == key_packages_view(self.key_packages@),
                forall|j: int| 0 <= j < i ==> (#[trigger] rows[j]).owner != pubkey@,
            decreases self.key_packages@.len() - i,
        {
            let row = &self.key_packages[i];
            if str_eq(row.owner.as_str(), pubkey.as_str()) {
                proof {
                    lemma_kp_index_in(rows, pubkey@);
                    let r = kp_index_in(rows, pubkey@);
                    assert(rows[i as int].owner == pubkey@);
                    if r == -1 {
                    } else if r < i as int {
                        assert(rows[r].owner != pubkey@);
                    } else if r > i as int {
                        assert(rows[i as int].owner != pubkey@);
                    }
                }
                return Ok(Some(row.clone()));
            }
            i += 1;
        }
        proof {
            lemma_kp_index_in(rows, pubkey@);
            let r = kp_index_in(rows, pubkey@);
            if r != -1 {
                assert(rows[r].owner == pubkey@);
            }
        }
        Ok(None)
    }

    /// Deletes one published key package. Deleting an absent identifier is
    /// a no-op success.
    pub fn delete_account_key_package(&mut self, account_pubkey: String, key_package_id: String)
        -> (r: Result<(), WhitenoiseError>)
        ensures
            r is Ok <==> valid_pubkey(account_pubkey@) && old(self).account_exists(
                account_pubkey@,
            ),
            r is Err ==> *final(self) == *old(self),
            r is Ok ==> {
                &&& key_packages_view(final(self).key_packages@) == key_packages_without(
                    key_packages_view(old(self).key_packages@),
                    account_pubkey@,
                    key_package_id@,
                )
                &&& final(self).accounts == old(self).accounts
                &&& final(self).users == old(self).users
                &&& final(self).relays == old(self).relays
                &&& final(self).follows == old(self).follows
                &&& final(self).groups == old(self).groups
                &&& final(self).welcomes == old(self).welcomes
                &&& final(self).messages == old(self).messages
                &&& final(self).relay_statuses == old(self).relay_statuses
                &&& final(self).config == old(self).config
                &&& final(self).next_id == old(self).next_id
            },
    {
        if !check_pubkey(account_pubkey.as_str()) {
            return Err(WhitenoiseError::InvalidPublicKey);
        }
        if self.find_account(account_pubkey.as_str()).is_none() {
            return Err(WhitenoiseError::AccountNotFound);
        }
        let ghost rows = key_packages_view(self.key_packages@);
        let mut kept: Vec<KeyPackage> = Vec::new();
        let mut i: usize = 0;
        proof {
            reveal(Seq::filter);
            assert(rows.take(0) =~= Seq::<KeyPackageV>::empty());
            assert(key_packages_view(kept@) =~= key_packages_without(
                rows.take(0),
                account_pubkey@,
                key_package_id@,
            ));
        }
        while i < self.key_packages.len()
            invariant
                i <= self.key_packages@.len(),
                rows == key_packages_view(self.key_packages@),
                key_packages_view(kept@) == key_packages_without(
                    rows.take(i as int),
                    account_pubkey@,
                    key_package_id@,
                ),
            decreases self.key_packages@.len() - i,
        {
            let ghost k0 = kept@;
            let row = &self.key_packages[i];
            proof {
                assert(rows.take(i as int + 1) =~= rows.take(i as int).push(row@));
                lemma_kp_filter_push(
                    rows.take(i as int),
                    |k: KeyPackageV| !(k.owner == account_pubkey@ && k.id == key_package_id@),
                    row@,
                );
            }
            let matches_row = str_eq(row.owner.as_str(), account_pubkey.as_str()) && str_eq(
                row.id.as_str(),
                key_package_id.as_str(),
            );
            if !matches_row {
                kept.push(row.clone());
                proof {
                    assert(key_packages_view(kept@) =~= key_packages_view(k0).push(row@));
                    assert(key_packages_view(kept@) =~= key_packages_without(
                        rows.take(i as int + 1),
                        account_pubkey@,
                        key_package_id@,
                    ));
                }
            } else {
                proof {
                    assert(key_packages_view(kept@) =~= key_packages_without(
                        rows.take(i as int + 1),
                        account_pubkey@,
                        key_package_id@,
                    ));
                }
            }
            i += 1;
        }
        proof {
            assert(rows.take(self.key_packages@.len() as int) =~= rows);
        }
        self.key_packages = kept;
        Ok(())
    }

    /// Deletes every key package of an account and reports how many left.
    pub fn delete_account_key_packages(&mut self, account_pubkey: String) -> (r: Result<
        usize,
        WhitenoiseError,
    >)
        ensures
            r is Ok <==> valid_pubkey(account_pubkey@) && old(self).account_exists(
                account_pubkey@,
            ),
            r is Err ==> *final(self) == *old(self),
            r is Ok ==> {
                &&& key_packages_view(final(self).key_packages@) == key_packages_without_owner(
                    key_packages_view(old(self).key_packages@),
                    account_pubkey@,
                )
                &&& r.unwrap() as int == key_packages_for(
                    key_packages_view(old(self).key_packages@),
                    account_pubkey@,
                ).len()
                &&& final(self).accounts == old(self).accounts
                &&& final(self).users == old(self).users
                &&& final(self).relays == old(self).relays
                &&& final(self).follows == old(self).follows
                &&& final(self).groups == old(self).groups
                &&& final(self).welcomes == old(self).welcomes
                &&& final(self).messages == old(self).messages
                &&& final(self).relay_statuses == old(self).relay_statuses
                &&& final(self).config == old(self).config
                &&& final(self).next_id == old(self).next_id
            },
    {
        if !check_pubkey(account_pubkey.as_str()) {
            return Err(WhitenoiseError::InvalidPublicKey);
        }
        if self.find_account(account_pubkey.as_str()).is_none() {
            return Err(WhitenoiseError::AccountNotFound);
        }
        let ghost rows = key_packages_view(self.key_packages@);
        let mut kept: Vec<KeyPackage> = Vec::new();
        let mut removed: usize = 0;
        let mut i: usize = 0;
        proof {
            reveal(Seq::filter);
            assert(rows.take(0) =~= Seq::<KeyPackageV>::empty());
            assert(key_packages_view(kept@) =~= key_packages_without_owner(
                rows.take(0),
                account_pubkey@,
            ));
            assert(key_packages_for(rows.take(0), account_pubkey@) =~= Seq::<
                KeyPackageV,
            >::empty());
        }
        while i < self.key_packages.len()
            invariant
                i <= self.key_packages@.len(),
                rows == key_packages_view(self.key_packages@),
                key_packages_view(kept@) == key_packages_without_owner(
                    rows.take(i as int),
                    account_pubkey@,
                ),
                removed as int == key_packages_for(rows.take(i as int), account_pubkey@).len(),
                removed <= i,
            decreases self.key_packages@.len() - i,
        {
            let ghost k0 = kept@;
            let row = &self.key_packages[i];
            proof {
                assert(rows.take(i as int + 1) =~= rows.take(i as int).push(row@));
                lemma_kp_filter_push(
                    rows.take(i as int),
                    |k: KeyPackageV| k.owner != account_pubkey@,
                    row@,
                );
                lemma_kp_filter_push(
                    rows.take(i as int),
                    |k: KeyPackageV| k.owner == account_pubkey@,
                    row@,
                );
            }
            if str_eq(row.owner.as_str(), account_pubkey.as_str()) {
                removed += 1;
            } else {
                kept.push(row.clone());
                proof {
                    assert(key_packages_view(kept@) =~= key_packages_view(k0).push(row@));
                }
            }
            proof {
                assert(key_packages_view(kept@) =~= key_packages_without_owner(
                    rows.take(i as int + 1),
                    account_pubkey@,
                ));
            }
            i += 1;
        }
        proof {
            assert(rows.take(self.key_packages@.len() as int) =~= rows);
        }
        self.key_packages = kept;
        Ok(removed)
    }

    /// Whether a follow edge is stored.
    fn follow_present(&self, account: &str, target: &str) -> (r: bool)
        ensures
            r == follow_exists(follows_view(self.follows@), account@, target@),
    {
        let ghost rows = follows_view(self.follows@);
        let mut i: usize = 0;
        while i < self.follows.len()
            invariant
                i <= self.follows@.len(),
                rows == follows_view(self.follows@),
                forall|j: int|
                    0 <= j < i ==> !((#[trigger] rows[j]).account == account@ && rows[j].target
                        == target@),
            decreases self.follows@.len() - i,
        {
            let row = &self.follows[i];
            if str_eq(row.account.as_str(), account) && str_eq(row.target.as_str(), target) {
                assert(rows[i as int].account == account@);
                return true;
            }
            i += 1;
        }
        false
    }

    /// The profiles an account follows, in follow order. A followed key
    /// with no stored profile resolves to a fresh empty one.
    pub fn account_follows(&self, pubkey: String) -> (r: Result<Vec<User>, WhitenoiseError>)
        ensures
            r is Ok <==> valid_pubkey(pubkey@) && self.account_exists(pubkey@),
            r is Ok ==> user_list_view(r.unwrap()@) == followed_users(
                follows_view(self.follows@),
                user_list_view(self.users@),
                pubkey@,
            ),
    {
        if !check_pubkey(pubkey.as_str()) {
            return Err(WhitenoiseError::InvalidPublicKey);
        }
        if self.find_account(pubkey.as_str()).is_none() {
            return Err(WhitenoiseError::AccountNotFound);
        }
        let ghost rows = follows_view(self.follows@);
        let ghost users = user_list_view(self.users@);
        let mut out: Vec<User> = Vec::new();
        let mut i: usize = 0;
        proof {
            reveal(Seq::filter);
            assert(rows.take(0) =~= Seq::<FollowV>::empty());
            assert(user_list_view(out@) =~= followed_users(rows.take(0), users, pubkey@));
        }
        while i < self.follows.len()
            invariant
                i <= self.follows@.len(),
                rows == follows_view(self.follows@),
                users == user_list_view(self.users@),
                user_list_view(out@) == followed_users(rows.take(i as int), users, pubkey@),
            decreases self.follows@.len() - i,
        {
            let ghost o0 = out@;
            let row = &self.follows[i];
            proof {
                assert(rows.take(i as int + 1) =~= rows.take(i as int).push(row@));
                lemma_followed_users_push(rows.take(i as int), users, pubkey@, row@);
            }
            if str_eq(row.account.as_str(), pubkey.as_str()) {
                let u = match self.find_user(row.target.as_str()) {
                    Some(ui) => {
                        proof {
                            assert(users[ui as int] == self.users@[ui as int]@);
                        }
                        self.users[ui].clone()
                    },
                    None => {
                        let m = empty_flutter_metadata();
                        let u = User {
                            pubkey: row.target.clone(),
                            metadata: m,
                            created_at: 0,
                            updated_at: 0,
                        };
                        proof {
                            assert(u@.metadata.custom =~= fresh_user(
                                row@.target,
                                0,
                            ).metadata.custom);
                            assert(u@ == fresh_user(row@.target, 0));
                        }
                        u
                    },
                };
                proof {
                    assert(u@ == user_or_fresh(users, row@.target));
                }
                out.push(u);
                proof {
                    assert(user_list_view(out@) =~= user_list_view(o0).push(
                        user_or_fresh(users, row@.target),
                    ));
                    assert(user_list_view(out@) =~= followed_users(
                        rows.take(i as int + 1),
                        users,
                        pubkey@,
                    ));
                }
            } else {
                proof {
                    assert(user_list_view(out@) =~= followed_users(
                        rows.take(i as int + 1),
                        users,
                        pubkey@,
                    ));
                }
            }
            i += 1;
        }
        proof {
            assert(rows.take(self.follows@.len() as int) =~= rows);
        }
        Ok(out)
    }

    /// Follows a key. Following an already-followed key is a no-op success.
    pub fn follow_user(&mut self, account_pubkey: String, user_to_follow_pubkey: String) -> (r:
        Result<(), WhitenoiseError>)
        ensures
            r is Ok <==> valid_pubkey(account_pubkey@) && valid_pubkey(user_to_follow_pubkey@)
                && old(self).account_exists(account_pubkey@),
            r is Err ==> *final(self) == *old(self),
            r is Ok && follow_exists(
                follows_view(old(self).follows@),
                account_pubkey@,
                user_to_follow_pubkey@,
            ) ==> *final(self) == *old(self),
            r is Ok && !follow_exists(
                follows_view(old(self).follows@),
                account_pubkey@,
                user_to_follow_pubkey@,
            ) ==> {
                &&& follows_view(final(self).follows@) == follows_view(old(self).follows@).push(
                    FollowV { account: account_pubkey@, target: user_to_follow_pubkey@ },
                )
                &&& final(self).accounts == old(self).accounts
                &&& final(self).users == old(self).users
                &&& final(self).relays == old(self).relays
                &&& final(self).key_packages == old(self).key_packages
                &&& final(self).groups == old(self).groups
                &&& final(self).welcomes == old(self).welcomes
                &&& final(self).messages == old(self).messages
                &&& final(self).relay_statuses == old(self).relay_statuses
                &&& final(self).config == old(self).config
                &&& final(self).next_id == old(self).next_id
            },
    {
        if !check_pubkey(account_pubkey.as_str()) {
            return Err(WhitenoiseError::InvalidPublicKey);
        }
        if !check_pubkey(user_to_follow_pubkey.as_str()) {
            return Err(WhitenoiseError::InvalidPublicKey);
        }
        if self.find_account(account_pubkey.as_str()).is_none() {
            return Err(WhitenoiseError::AccountNotFound);
        }
        if self.follow_present(account_pubkey.as_str(), user_to_follow_pubkey.as_str()) {
            return Ok(());
        }
        let edge = Follow { account: account_pubkey, target: user_to_follow_pubkey };
        let ghost f0 = follows_view(self.follows@);
        let ghost fv = edge@;
        self.follows.push(edge);
        proof {
            assert(follows_view(self.follows@) =~= f0.push(fv));
        }
        Ok(())
    }

    /// Unfollows a key. Unfollowing a key not followed is a no-op success.
    pub fn unfollow_user(&mut self, account_pubkey: String, user_to_unfollow_pubkey: String) -> (r:
        Result<(), WhitenoiseError>)
        ensures
            r is Ok <==> valid_pubkey(account_pubkey@) && valid_pubkey(user_to_unfollow_pubkey@)
                && old(self).account_exists(account_pubkey@),
            r is Err ==> *final(self) == *old(self),
            r is Ok ==> {
                &&& follows_view(final(self).follows@) == follows_without(
                    follows_view(old(self).follows@),
                    account_pubkey@,
                    user_to_unfollow_pubkey@,
                )
                &&& final(self).accounts == old(self).accounts
                &&& final(self).users == old(self).users
                &&& final(self).relays == old(self).relays
                &&& final(self).key_packages == old(self).key_packages
                &&& final(self).groups == old(self).groups
                &&& final(self).welcomes == old(self).welcomes
                &&& final(self).messages == old(self).messages
                &&& final(self).relay_statuses == old(self).relay_statuses
                &&& final(self).config == old(self).config
                &&& final(self).next_id == old(self).next_id
            },
    {
        if !check_pubkey(account_pubkey.as_str()) {
            return Err(WhitenoiseError::InvalidPublicKey);
        }
        if !check_pubkey(user_to_unfollow_pubkey.as_str()) {
            return Err(WhitenoiseError::InvalidPublicKey);
        }
        if self.find_account(account_pubkey.as_str()).is_none() {
            return Err(WhitenoiseError::AccountNotFound);
        }
        let ghost rows = follows_view(self.follows@);
        let mut kept: Vec<Follow> = Vec::new();
        let mut i: usize = 0;
        proof {
            reveal(Seq::filter);
            assert(rows.take(0) =~= Seq::<FollowV>::empty());
            assert(follows_view(kept@) =~= follows_without(
                rows.take(0),
                account_pubkey@,
                user_to_unfollow_pubkey@,
            ));
        }
        while i < self.follows.len()
            invariant
                i <= self.follows@.len(),
                rows == follows_view(self.follows@),
                follows_view(kept@) == follows_without(
                    rows.take(i as int),
                    account_pubkey@,
                    user_to_unfollow_pubkey@,
                ),
            decreases self.follows@.len() - i,
        {
            let ghost k0 = kept@;
            let row = &self.follows[i];
            proof {
                assert(rows.take(i as int + 1) =~= rows.take(i as int).push(row@));
                lemma_follows_without_push(
                    rows.take(i as int),
                    account_pubkey@,
                    user_to_unfollow_pubkey@,
                    row@,
                );
            }
            let matches_row = str_eq(row.account.as_str(), account_pubkey.as_str()) && str_eq(
                row.target.as_str(),
                user_to_unfollow_pubkey.as_str(),
            );
            if !matches_row {
                kept.push(Follow { account: row.account.clone(), target: row.target.clone() });
                proof {
                    assert(follows_view(kept@) =~= follows_view(k0).push(row@));
                    assert(follows_view(kept@) =~= follows_without(
                        rows.take(i as int + 1),
                        account_pubkey@,
                        user_to_unfollow_pubkey@,
                    ));
                }
            } else {
                proof {
                    assert(follows_view(kept@) =~= follows_without(
                        rows.take(i as int + 1),
                        account_pubkey@,
                        user_to_unfollow_pubkey@,
                    ));
                }
            }
            i += 1;
        }
        proof {
            assert(rows.take(self.follows@.len() as int) =~= rows);
        }
        self.follows = kept;
        Ok(())
    }
}

} // verus!
