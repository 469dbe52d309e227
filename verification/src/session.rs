//! The session context and its basic records.
//!
//! One `Whitenoise` value holds every account's state: profiles, relay
//! lists, published key packages, follows, groups, welcomes and raw group
//! events. It is constructed once at startup and passed explicitly to every
//! operation; the transport and storage layers around it hand plain values
//! in and out.

use vstd::prelude::*;
use crate::metadata::{FlutterMetadata, FlutterMetadataV};
use crate::groups::GroupRecord;
use crate::welcomes::WelcomeRecord;
use crate::messages::MessageRecord;

verus! {

/// Directory configuration of one session.
#[derive(Debug)]
pub struct WhitenoiseConfig {
    /// Where application data is stored.
    pub data_dir: String,
    /// Where log files are written.
    pub logs_dir: String,
}

impl Clone for WhitenoiseConfig {
    fn clone(&self) -> (r: Self)
        ensures
            r.data_dir@ == self.data_dir@,
            r.logs_dir@ == self.logs_dir@,
    {
        WhitenoiseConfig { data_dir: self.data_dir.clone(), logs_dir: self.logs_dir.clone() }
    }
}

/// Builds a session configuration from directory paths.
pub fn create_whitenoise_config(data_dir: String, logs_dir: String) -> (r: WhitenoiseConfig)
    ensures
        r.data_dir@ == data_dir@,
        r.logs_dir@ == logs_dir@,
{
    WhitenoiseConfig { data_dir, logs_dir }
}

/// The purpose a relay is configured for.
#[derive(Debug, Clone, Copy, PartialEq, Eq, Structural)]
pub enum RelayType {
    /// General-protocol relays.
    Nip65,
    /// Inbox relays.
    Inbox,
    /// Key-package publication relays.
    KeyPackage,
}

/// The general-protocol relay purpose.
pub fn relay_type_nip65() -> (r: RelayType)
    ensures
        r == RelayType::Nip65,
{
    RelayType::Nip65
}

/// The inbox relay purpose.
pub fn relay_type_inbox() -> (r: RelayType)
    ensures
        r == RelayType::Inbox,
{
    RelayType::Inbox
}

/// The key-package relay purpose.
pub fn relay_type_key_package() -> (r: RelayType)
    ensures
        r == RelayType::KeyPackage,
{
    RelayType::KeyPackage
}

/// One transport endpoint.
#[derive(Debug)]
pub struct Relay {
    pub url: String,
    pub created_at: u64,
    pub updated_at: u64,
}

/// The mathematical shape of a relay.
pub struct RelayV {
    pub url: Seq<char>,
    pub created_at: u64,
    pub updated_at: u64,
}

impl View for Relay {
    type V = RelayV;

    open spec fn view(&self) -> RelayV {
        RelayV { url: self.url@, created_at: self.created_at, updated_at: self.updated_at }
    }
}

impl Clone for Relay {
    fn clone(&self) -> (r: Self)
        ensures
            r@ == self@,
    {
        Relay {
            url: self.url.clone(),
            created_at: self.created_at,
            updated_at: self.updated_at,
        }
    }
}

/// One local identity.
#[derive(Debug)]
pub struct Account {
    pub pubkey: String,
    pub last_synced_at: Option<u64>,
    pub created_at: u64,
    pub updated_at: u64,
}

/// The mathematical shape of an account.
pub struct AccountV {
    pub pubkey: Seq<char>,
    pub last_synced_at: Option<u64>,
    pub created_at: u64,
    pub updated_at: u64,
}

impl View for Account {
    type V = AccountV;

    open spec fn view(&self) -> AccountV {
        AccountV {
            pubkey: self.pubkey@,
            last_synced_at: self.last_synced_at,
            created_at: self.created_at,
            updated_at: self.updated_at,
        }
    }
}

impl Clone for Account {
    fn clone(&self) -> (r: Self)
        ensures
            r@ == self@,
    {
        Account {
            pubkey: self.pubkey.clone(),
            last_synced_at: self.last_synced_at,
            created_at: self.created_at,
            updated_at: self.updated_at,
        }
    }
}

/// One remote profile, created lazily on first reference.
#[derive(Debug)]
pub struct User {
    pub pubkey: String,
    pub metadata: FlutterMetadata,
    pub created_at: u64,
    pub updated_at: u64,
}

/// The mathematical shape of a user.
pub struct UserV {
    pub pubkey: Seq<char>,
    pub metadata: FlutterMetadataV,
    pub created_at: u64,
    pub updated_at: u64,
}

impl View for User {
    type V = UserV;

    open spec fn view(&self) -> UserV {
        UserV {
            pubkey: self.pubkey@,
            metadata: self.metadata@,
            created_at: self.created_at,
            updated_at: self.updated_at,
        }
    }
}

impl Clone for User {
    fn clone(&self) -> (r: Self)
        ensures
            r@ == self@,
    {
        User {
            pubkey: self.pubkey.clone(),
            metadata: self.metadata.clone(),
            created_at: self.created_at,
            updated_at: self.updated_at,
        }
    }
}

/// One relay configured for one key, for one purpose.
#[derive(Debug)]
pub struct AccountRelay {
    pub owner: String,
    pub relay_type: RelayType,
    pub relay: Relay,
}

/// The mathematical shape of a relay row.
pub struct AccountRelayV {
    pub owner: Seq<char>,
    pub relay_type: RelayType,
    pub relay: RelayV,
}

impl View for AccountRelay {
    type V = AccountRelayV;

    open spec fn view(&self) -> AccountRelayV {
        AccountRelayV { owner: self.owner@, relay_type: self.relay_type, relay: self.relay@ }
    }
}

/// One published key package.
#[derive(Debug)]
pub struct KeyPackage {
    pub owner: String,
    pub id: String,
    pub created_at: u64,
}

/// The mathematical shape of a key package row.
pub struct KeyPackageV {
    pub owner: Seq<char>,
    pub id: Seq<char>,
    pub created_at: u64,
}

impl View for KeyPackage {
    type V = KeyPackageV;

    open spec fn view(&self) -> KeyPackageV {
        KeyPackageV { owner: self.owner@, id: self.id@, created_at: self.created_at }
    }
}

impl Clone for KeyPackage {
    fn clone(&self) -> (r: Self)
        ensures
            r@ == self@,
    {
        KeyPackage {
            owner: self.owner.clone(),
            id: self.id.clone(),
            created_at: self.created_at,
        }
    }
}

/// One follow edge from an account to a key.
#[derive(Debug)]
pub struct Follow {
    pub account: String,
    pub target: String,
}

/// The mathematical shape of a follow edge.
pub struct FollowV {
    pub account: Seq<char>,
    pub target: Seq<char>,
}

impl View for Follow {
    type V = FollowV;

    open spec fn view(&self) -> FollowV {
        FollowV { account: self.account@, target: self.target@ }
    }
}

/// The last observed connectivity of one relay, for one account.
#[derive(Debug)]
pub struct RelayStatus {
    pub account: String,
    pub url: String,
    pub status: String,
}

/// The mathematical shape of a relay status row.
pub struct RelayStatusV {
    pub account: Seq<char>,
    pub url: Seq<char>,
    pub status: Seq<char>,
}

impl View for RelayStatus {
    type V = RelayStatusV;

    open spec fn view(&self) -> RelayStatusV {
        RelayStatusV { account: self.account@, url: self.url@, status: self.status@ }
    }
}

/// The views of a list of strings.
pub open spec fn string_views(s: Seq<String>) -> Seq<Seq<char>> {
    s.map_values(|x: String| x@)
}

/// Compares two string slices character by character.
pub(crate) fn str_eq(a: &str, b: &str) -> (r: bool)
    ensures
        r == (a@ == b@),
{
    let an = a.unicode_len();
    let bn = b.unicode_len();
    if an != bn {
        proof {
            assert(a@ != b@) by {
                if a@ == b@ {
                    assert(a@.len() == b@.len());
                }
            }
        }
        return false;
    }
    let mut i: usize = 0;
    while i < an
        invariant
            an == a@.len(),
            an == b@.len(),
            i <= an,
            forall|j: int| 0 <= j < i ==> a@[j] == b@[j],
        decreases an - i,
    {
        if a.get_char(i) != b.get_char(i) {
            return false;
        }
        i += 1;
    }
    proof {
        assert(a@ =~= b@);
    }
    true
}

/// Copies a vector of strings.
pub(crate) fn clone_string_vec(v: &Vec<String>) -> (r: Vec<String>)
    ensures
        string_views(r@) == string_views(v@),
{
    let mut r: Vec<String> = Vec::new();
    let mut i: usize = 0;
    while i < v.len()
        invariant
            i <= v@.len(),
            r@.len() == i,
            forall|j: int| 0 <= j < i ==> #[trigger] r@[j]@ == v@[j]@,
        decreases v@.len() - i,
    {
        r.push(v[i].clone());
        i += 1;
    }
    proof {
        assert forall|j: int|
            0 <= j < v@.len() implies string_views(r@)[j] == string_views(v@)[j] by {
            assert(string_views(r@)[j] == r@[j]@);
            assert(string_views(v@)[j] == v@[j]@);
        }
        assert(string_views(r@) =~= string_views(v@));
    }
    r
}

/// Whether a list of strings holds one equal to a given string.
pub(crate) fn string_vec_contains(v: &Vec<String>, x: &str) -> (r: bool)
    ensures
        r == string_views(v@).contains(x@),
{
    let mut i: usize = 0;
    while i < v.len()
        invariant
            i <= v@.len(),
            forall|j: int| 0 <= j < i ==> #[trigger] string_views(v@)[j] != x@,
        decreases v@.len() - i,
    {
        if str_eq(v[i].as_str(), x) {
            assert(string_views(v@)[i as int] == x@);
            return true;
        }
        i += 1;
    }
    proof {
        if string_views(v@).contains(x@) {
            let j = choose|j: int|
                0 <= j < string_views(v@).len() && string_views(v@)[j] == x@;
            assert(string_views(v@)[j] != x@);
        }
    }
    false
}

/// The views of the account list.
pub open spec fn accounts_view(s: Seq<Account>) -> Seq<AccountV> {
    s.map_values(|a: Account| a@)
}

/// The views of the user list.
pub open spec fn user_list_view(s: Seq<User>) -> Seq<UserV> {
    s.map_values(|u: User| u@)
}

/// The views of the relay rows.
pub open spec fn relay_rows_view(s: Seq<AccountRelay>) -> Seq<AccountRelayV> {
    s.map_values(|r: AccountRelay| r@)
}

/// The views of the key package rows.
pub open spec fn key_packages_view(s: Seq<KeyPackage>) -> Seq<KeyPackageV> {
    s.map_values(|k: KeyPackage| k@)
}

/// The views of the follow edges.
pub open spec fn follows_view(s: Seq<Follow>) -> Seq<FollowV> {
    s.map_values(|f: Follow| f@)
}

/// The views of the relay status rows.
pub open spec fn statuses_view(s: Seq<RelayStatus>) -> Seq<RelayStatusV> {
    s.map_values(|r: RelayStatus| r@)
}

/// One session: every account's state, passed explicitly to every
/// operation.
#[derive(Debug)]
pub struct Whitenoise {
    pub config: WhitenoiseConfig,
    pub accounts: Vec<Account>,
    pub users: Vec<User>,
    pub relays: Vec<AccountRelay>,
    pub key_packages: Vec<KeyPackage>,
    pub follows: Vec<Follow>,
    pub groups: Vec<GroupRecord>,
    pub welcomes: Vec<WelcomeRecord>,
    pub messages: Vec<MessageRecord>,
    pub relay_statuses: Vec<RelayStatus>,
    /// Source of fresh local identifiers.
    pub next_id: u64,
}

impl Whitenoise {
    /// The first account with a public key, or -1.
    pub open spec fn account_index(self, pk: Seq<char>) -> int {
        account_index_in(accounts_view(self.accounts@), pk)
    }

    /// Whether an account with a public key exists.
    pub open spec fn account_exists(self, pk: Seq<char>) -> bool {
        self.account_index(pk) != -1
    }

    /// The first user with a public key, or -1.
    pub open spec fn user_index(self, pk: Seq<char>) -> int {
        user_index_in(user_list_view(self.users@), pk)
    }

    /// Whether some published key package belongs to a key.
    pub open spec fn has_key_package(self, pk: Seq<char>) -> bool {
        exists|i: int|
            0 <= i < self.key_packages@.len() && key_packages_view(self.key_packages@)[i].owner
                == pk
    }

    /// Opens an empty session over a configuration.
    pub fn new(config: WhitenoiseConfig) -> (r: Whitenoise)
        ensures
            r.config.data_dir@ == config.data_dir@,
            r.config.logs_dir@ == config.logs_dir@,
            r.accounts@.len() == 0,
            r.users@.len() == 0,
            r.relays@.len() == 0,
            r.key_packages@.len() == 0,
            r.follows@.len() == 0,
            r.groups@.len() == 0,
            r.welcomes@.len() == 0,
            r.messages@.len() == 0,
            r.relay_statuses@.len() == 0,
            r.next_id == 0,
    {
        Whitenoise {
            config,
            accounts: Vec::new(),
            users: Vec::new(),
            relays: Vec::new(),
            key_packages: Vec::new(),
            follows: Vec::new(),
            groups: Vec::new(),
            welcomes: Vec::new(),
            messages: Vec::new(),
            relay_statuses: Vec::new(),
            next_id: 0,
        }
    }
}

impl Whitenoise {
    /// Clears every account's state, keeping only the configuration.
    pub fn delete_all_data(&mut self)
        ensures
            final(self).accounts@.len() == 0,
            final(self).users@.len() == 0,
            final(self).relays@.len() == 0,
            final(self).key_packages@.len() == 0,
            final(self).follows@.len() == 0,
            final(self).groups@.len() == 0,
            final(self).welcomes@.len() == 0,
            final(self).messages@.len() == 0,
            final(self).relay_statuses@.len() == 0,
            final(self).next_id == 0,
            final(self).config == old(self).config,
    {
        self.accounts = Vec::new();
        self.users = Vec::new();
        self.relays = Vec::new();
        self.key_packages = Vec::new();
        self.follows = Vec::new();
        self.groups = Vec::new();
        self.welcomes = Vec::new();
        self.messages = Vec::new();
        self.relay_statuses = Vec::new();
        self.next_id = 0;
    }
}

/// The first account with a public key, or -1.
pub open spec fn account_index_in(s: Seq<AccountV>, pk: Seq<char>) -> int
    decreases s.len(),
{
    if s.len() == 0 {
        -1
    } else if s[0].pubkey == pk {
        0
    } else {
        let r = account_index_in(s.drop_first(), pk);
        if r == -1 {
            -1
        } else {
            r + 1
        }
    }
}

/// `account_index_in` returns the first matching index, or -1.
pub proof fn lemma_account_index_in(s: Seq<AccountV>, pk: Seq<char>)
    ensures
        account_index_in(s, pk) == -1 ==> forall|j: int|
            0 <= j < s.len() ==> (#[trigger] s[j]).pubkey != pk,
        account_index_in(s, pk) != -1 ==> {
            let r = account_index_in(s, pk);
            &&& 0 <= r < s.len()
            &&& s[r].pubkey == pk
            &&& forall|j: int| 0 <= j < r ==> (#[trigger] s[j]).pubkey != pk
        },
    decreases s.len(),
{
    if s.len() > 0 && s[0].pubkey != pk {
        lemma_account_index_in(s.drop_first(), pk);
        assert forall|j: int| 1 <= j < s.len() implies s.drop_first()[j - 1] == s[j] by {}
    }
}

/// The first user with a public key, or -1.
pub open spec fn user_index_in(s: Seq<UserV>, pk: Seq<char>) -> int
    decreases s.len(),
{
    if s.len() == 0 {
        -1
    } else if s[0].pubkey == pk {
        0
    } else {
        let r = user_index_in(s.drop_first(), pk);
        if r == -1 {
            -1
        } else {
            r + 1
        }
    }
}

/// `user_index_in` returns the first matching index, or -1.
pub proof fn lemma_user_index_in(s: Seq<UserV>, pk: Seq<char>)
    ensures
        user_index_in(s, pk) == -1 ==> forall|j: int|
            0 <= j < s.len() ==> (#[trigger] s[j]).pubkey != pk,
        user_index_in(s, pk) != -1 ==> {
            let r = user_index_in(s, pk);
            &&& 0 <= r < s.len()
            &&& s[r].pubkey == pk
            &&& forall|j: int| 0 <= j < r ==> (#[trigger] s[j]).pubkey != pk
        },
    decreases s.len(),
{
    if s.len() > 0 && s[0].pubkey != pk {
        lemma_user_index_in(s.drop_first(), pk);
        assert forall|j: int| 1 <= j < s.len() implies s.drop_first()[j - 1] == s[j] by {}
    }
}

/// A fresh user record: empty profile, both timestamps at `now`.
pub open spec fn fresh_user(pk: Seq<char>, now: u64) -> UserV {
    UserV {
        pubkey: pk,
        metadata: FlutterMetadataV {
            name: None,
            display_name: None,
            about: None,
            picture: None,
            banner: None,
            website: None,
            nip05: None,
            lud06: None,
            lud16: None,
            custom: Seq::empty(),
        },
        created_at: now,
        updated_at: now,
    }
}

impl Whitenoise {
    /// Finds the position of an account by key, scanning forward.
    pub(crate) fn find_account(&self, pubkey: &str) -> (r: Option<usize>)
        ensures
            match r {
                Some(i) => i < self.accounts@.len() && self.account_index(pubkey@) == i as int,
                None => self.account_index(pubkey@) == -1,
            },
    {
        let ghost s = accounts_view(self.accounts@);
        let mut i: usize = 0;
        while i < self.accounts.len()
            invariant
                i <= self.accounts@.len(),
                s == accounts_view(self.accounts@),
                forall|j: int| 0 <= j < i ==> (#[trigger] s[j]).pubkey != pubkey@,
            decreases self.accounts@.len() - i,
        {
            if str_eq(self.accounts[i].pubkey.as_str(), pubkey) {
                proof {
                    lemma_account_index_in(s, pubkey@);
                    let r = account_index_in(s, pubkey@);
                    assert(s[i as int].pubkey == pubkey@);
                    if r == -1 {
                    } else if r < i as int {
                        assert(s[r].pubkey != pubkey@);
                    } else if r > i as int {
                        assert(s[i as int].pubkey != pubkey@);
                    }
                }
                return Some(i);
            }
            i += 1;
        }
        proof {
            lemma_account_index_in(s, pubkey@);
            let r = account_index_in(s, pubkey@);
            if r != -1 {
                assert(s[r].pubkey == pubkey@);
            }
        }
        None
    }

    /// Finds the position of a user by key, scanning forward.
    pub(crate) fn find_user(&self, pubkey: &str) -> (r: Option<usize>)
        ensures
            match r {
                Some(i) => i < self.users@.len() && self.user_index(pubkey@) == i as int,
                None => self.user_index(pubkey@) == -1,
            },
    {
        let ghost s = user_list_view(self.users@);
        let mut i: usize = 0;
        while i < self.users.len()
            invariant
                i <= self.users@.len(),
                s == user_list_view(self.users@),
                forall|j: int| 0 <= j < i ==> (#[trigger] s[j]).pubkey != pubkey@,
            decreases self.users@.len() - i,
        {
            if str_eq(self.users[i].pubkey.as_str(), pubkey) {
                proof {
                    lemma_user_index_in(s, pubkey@);
                    let r = user_index_in(s, pubkey@);
                    assert(s[i as int].pubkey == pubkey@);
                    if r == -1 {
                    } else if r < i as int {
                        assert(s[r].pubkey != pubkey@);
                    } else if r > i as int {
                        assert(s[i as int].pubkey != pubkey@);
                    }
                }
                return Some(i);
            }
            i += 1;
        }
        proof {
            lemma_user_index_in(s, pubkey@);
            let r = user_index_in(s, pubkey@);
            if r != -1 {
                assert(s[r].pubkey == pubkey@);
            }
        }
        None
    }

    /// Checks whether some key package belongs to a key.
    pub(crate) fn key_package_exists(&self, pubkey: &str) -> (r: bool)
        ensures
            r == self.has_key_package(pubkey@),
    {
        let ghost s = key_packages_view(self.key_packages@);
        let mut i: usize = 0;
        while i < self.key_packages.len()
            invariant
                i <= self.key_packages@.len(),
                s == key_packages_view(self.key_packages@),
                forall|j: int| 0 <= j < i ==> (#[trigger] s[j]).owner != pubkey@,
            decreases self.key_packages@.len() - i,
        {
            if str_eq(self.key_packages[i].owner.as_str(), pubkey) {
                assert(s[i as int].owner == pubkey@);
                return true;
            }
            i += 1;
        }
        false
    }
}

} // verus!
