//! Remote user profiles.
//!
//! A user record is the best-known profile of any public key and never
//! fails to resolve: an unknown key yields a fresh empty record, created on
//! first reference. The blocking flag mirrors the sync-mode choice of the
//! caller; the network refresh itself happens outside the session, which
//! only ever serves the cached state.

use vstd::prelude::*;
use crate::session::{
    Whitenoise, User, UserV, user_list_view, relay_rows_view, RelayType, Relay, fresh_user,
};
use crate::encoding::{valid_pubkey, check_pubkey};
use crate::error::WhitenoiseError;
use crate::metadata::{FlutterMetadata, empty_flutter_metadata};
use crate::relays::relay_list_view;

verus! {

impl Whitenoise {
    /// Resolves a public key to its profile, creating an empty record at
    /// `now` on first reference. Never fails on a well-formed key.
    pub fn get_user(&mut self, pubkey: String, blocking_data_sync: bool, now: u64) -> (r: Result<
        User,
        WhitenoiseError,
    >)
        ensures
            r is Ok <==> valid_pubkey(pubkey@),
            !valid_pubkey(pubkey@) ==> r == Result::<User, WhitenoiseError>::Err(
                WhitenoiseError::InvalidPublicKey,
            ) && *final(self) == *old(self),
            r is Ok && old(self).user_index(pubkey@) != -1 ==> *final(self) == *old(self)
                && r.unwrap()@ == user_list_view(old(self).users@)[old(self).user_index(pubkey@)],
            r is Ok && old(self).user_index(pubkey@) == -1 ==> {
                &&& user_list_view(final(self).users@) == user_list_view(old(self).users@).push(
                    fresh_user(pubkey@, now),
                )
                &&& r.unwrap()@ == fresh_user(pubkey@, now)
                &&& final(self).accounts == old(self).accounts
                &&& final(self).relays == old(self).relays
                &&& final(self).key_packages == old(self).key_packages
                &&& final(self).follows == old(self).follows
                &&& final(self).groups == old(self).groups
                &&& final(self).welcomes == old(self).welcomes
                &&& final(self).messages == old(self).messages
                &&& final(self).relay_statuses == old(self).relay_statuses
                &&& final(self).config == old(self).config
                &&& final(self).next_id == old(self).next_id
            },
    {
        let _ = blocking_data_sync;
        if !check_pubkey(pubkey.as_str()) {
            return Err(WhitenoiseError::InvalidPublicKey);
        }
        match self.find_user(pubkey.as_str()) {
            Some(ui) => {
                proof {
                    assert(user_list_view(self.users@)[ui as int] == self.users@[ui as int]@);
                }
                Ok(self.users[ui].clone())
            },
            None => {
                let m = empty_flutter_metadata();
                let u = User { pubkey, metadata: m, created_at: now, updated_at: now };
                proof {
                    assert(u@.metadata.custom =~= fresh_user(u.pubkey@, now).metadata.custom);
                    assert(u@ == fresh_user(u.pubkey@, now));
                }
                let returned = u.clone();
                let ghost u0 = user_list_view(self.users@);
                let ghost uv = u@;
                self.users.push(u);
                proof {
                    assert(user_list_view(self.users@) =~= u0.push(uv));
                }
                Ok(returned)
            },
        }
    }

    /// The best-known profile metadata of a public key, creating an empty
    /// record at `now` on first reference.
    pub fn user_metadata(&mut self, pubkey: String, blocking_data_sync: bool, now: u64) -> (r:
        Result<FlutterMetadata, WhitenoiseError>)
        ensures
            r is Ok <==> valid_pubkey(pubkey@),
            r is Ok && old(self).user_index(pubkey@) != -1 ==> *final(self) == *old(self)
                && r.unwrap()@ == user_list_view(old(self).users@)[old(self).user_index(
                pubkey@,
            )].metadata,
            r is Ok && old(self).user_index(pubkey@) == -1 ==> r.unwrap()@ == fresh_user(
                pubkey@,
                now,
            ).metadata && user_list_view(final(self).users@) == user_list_view(
                old(self).users@,
            ).push(fresh_user(pubkey@, now)),
            r is Err ==> *final(self) == *old(self),
    {
        match self.get_user(pubkey, blocking_data_sync, now) {
            Ok(u) => Ok(u.metadata),
            Err(e) => Err(e),
        }
    }

    /// The relays a public key has configured for one purpose.
    pub fn user_relays(&self, pubkey: String, relay_type: RelayType, blocking_data_sync: bool)
        -> (r: Result<Vec<Relay>, WhitenoiseError>)
        ensures
            r is Ok <==> valid_pubkey(pubkey@),
            r is Ok ==> relay_list_view(r.unwrap()@) == crate::relays::relays_for(
                relay_rows_view(self.relays@),
                pubkey@,
                relay_type,
            ),
    {
        let _ = blocking_data_sync;
        if !check_pubkey(pubkey.as_str()) {
            return Err(WhitenoiseError::InvalidPublicKey);
        }
        Ok(self.collect_relays(pubkey.as_str(), relay_type))
    }

    /// Whether a public key has a published key package, so it can be
    /// invited to a group.
    pub fn user_has_key_package(&self, pubkey: String, blocking_data_sync: bool) -> (r: Result<
        bool,
        WhitenoiseError,
    >)
        ensures
            r is Ok <==> valid_pubkey(pubkey@),
            r is Ok ==> r.unwrap() == self.has_key_package(pubkey@),
    {
        let _ = blocking_data_sync;
        if !check_pubkey(pubkey.as_str()) {
            return Err(WhitenoiseError::InvalidPublicKey);
        }
        Ok(self.key_package_exists(pubkey.as_str()))
    }
}

} // verus!
