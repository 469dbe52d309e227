//! Group lifecycle engine.
//!
//! A group advances through `Pending -> Active -> Inactive`, never backwards.
//! Every accepted membership or configuration change advances the epoch by
//! exactly one; a rejected call leaves the session untouched. A
//! direct-message group holds exactly two members for its whole life, and no
//! membership operation may touch one.

use vstd::prelude::*;
use crate::session::{
    Whitenoise, RelayType, AccountRelayV, relay_rows_view, string_views, clone_string_vec,
    string_vec_contains, str_eq,
};
use crate::encoding::{
    valid_pubkey, check_pubkey, hex_of, hex_valid, u64_be_bytes, local_id_string, hex_decode,
};
use crate::error::WhitenoiseError;
use crate::metadata::opt_view;
use crate::relays::{valid_relay_url, check_relay_url};

verus! {

/// The lifecycle state of a group.
#[derive(Debug, Clone, Copy, PartialEq, Eq, Structural)]
pub enum GroupState {
    Active,
    Inactive,
    Pending,
}

/// The kind of a group.
#[derive(Debug, Clone, Copy, PartialEq, Eq, Structural)]
pub enum GroupType {
    /// Exactly two participants, reduced chrome.
    DirectMessage,
    /// Any other group.
    Group,
}

/// One unit of encrypted multi-party messaging.
#[derive(Debug)]
pub struct Group {
    /// Local group identifier, lowercase hexadecimal.
    pub mls_group_id: String,
    /// Protocol-level group identifier, lowercase hexadecimal.
    pub nostr_group_id: String,
    pub name: String,
    pub description: String,
    pub image_hash: Option<[u8; 32]>,
    pub image_key: Option<[u8; 32]>,
    pub admin_pubkeys: Vec<String>,
    pub last_message_id: Option<String>,
    pub last_message_at: Option<u64>,
    /// Cryptographic epoch; advanced by every membership or config change.
    pub epoch: u64,
    pub state: GroupState,
}

/// The mathematical shape of a group.
pub struct GroupV {
    pub mls_group_id: Seq<char>,
    pub nostr_group_id: Seq<char>,
    pub name: Seq<char>,
    pub description: Seq<char>,
    pub image_hash: Option<[u8; 32]>,
    pub image_key: Option<[u8; 32]>,
    pub admin_pubkeys: Seq<Seq<char>>,
    pub last_message_id: Option<Seq<char>>,
    pub last_message_at: Option<u64>,
    pub epoch: u64,
    pub state: GroupState,
}

impl View for Group {
    type V = GroupV;

    open spec fn view(&self) -> GroupV {
        GroupV {
            mls_group_id: self.mls_group_id@,
            nostr_group_id: self.nostr_group_id@,
            name: self.name@,
            description: self.description@,
            image_hash: self.image_hash,
            image_key: self.image_key,
            admin_pubkeys: string_views(self.admin_pubkeys@),
            last_message_id: opt_view(self.last_message_id),
            last_message_at: self.last_message_at,
            epoch: self.epoch,
            state: self.state,
        }
    }
}

impl Clone for Group {
    fn clone(&self) -> (r: Self)
        ensures
            r@ == self@,
    {
        Group {
            mls_group_id: self.mls_group_id.clone(),
            nostr_group_id: self.nostr_group_id.clone(),
            name: self.name.clone(),
            description: self.description.clone(),
            image_hash: self.image_hash,
            image_key: self.image_key,
            admin_pubkeys: clone_string_vec(&self.admin_pubkeys),
            last_message_id: crate::metadata::clone_opt_string(&self.last_message_id),
            last_message_at: self.last_message_at,
            epoch: self.epoch,
            state: self.state,
        }
    }
}

/// One group with its session-local bookkeeping.
#[derive(Debug)]
pub struct GroupRecord {
    pub group: Group,
    pub group_type: GroupType,
    /// Current members, as of the locally-known epoch.
    pub members: Vec<String>,
    /// The relays the group was configured with.
    pub relays: Vec<String>,
}

/// The mathematical shape of a group record.
pub struct GroupRecordV {
    pub group: GroupV,
    pub group_type: GroupType,
    pub members: Seq<Seq<char>>,
    pub relays: Seq<Seq<char>>,
}

impl View for GroupRecord {
    type V = GroupRecordV;

    open spec fn view(&self) -> GroupRecordV {
        GroupRecordV {
            group: self.group@,
            group_type: self.group_type,
            members: string_views(self.members@),
            relays: string_views(self.relays@),
        }
    }
}

/// The views of the group records.
pub open spec fn group_records_view(s: Seq<GroupRecord>) -> Seq<GroupRecordV> {
    s.map_values(|r: GroupRecord| r@)
}

/// Application-level information of one group.
#[derive(Debug, Clone, Copy, PartialEq, Eq, Structural)]
pub struct GroupInformation {
    pub group_type: GroupType,
}

/// A partial update of group data: a field left `None` is untouched, a field
/// set is replaced. Malformed relay URLs and malformed admin keys are
/// silently dropped from their new value.
#[derive(Debug)]
pub struct FlutterGroupDataUpdate {
    pub name: Option<String>,
    pub description: Option<String>,
    pub relays: Option<Vec<String>>,
    pub admins: Option<Vec<String>>,
    pub image_key: Option<[u8; 32]>,
    pub image_hash: Option<[u8; 32]>,
    pub image_nonce: Option<[u8; 12]>,
}

/// What an encrypted group image upload hands back.
#[derive(Debug)]
pub struct UploadGroupImageResult {
    pub encrypted_hash: [u8; 32],
    pub image_key: [u8; 32],
    pub image_nonce: [u8; 12],
}

/// The first group record with a local group identifier, or -1.
pub open spec fn group_index_in(s: Seq<GroupRecordV>, id: Seq<char>) -> int
    decreases s.len(),
{
    if s.len() == 0 {
        -1
    } else if s[0].group.mls_group_id == id {
        0
    } else {
        let r = group_index_in(s.drop_first(), id);
        if r == -1 {
            -1
        } else {
            r + 1
        }
    }
}

/// `group_index_in` returns the first matching index, or -1.
pub proof fn lemma_group_index_in(s: Seq<GroupRecordV>, id: Seq<char>)
    ensures
        group_index_in(s, id) == -1 ==> forall|j: int|
            0 <= j < s.len() ==> (#[trigger] s[j]).group.mls_group_id != id,
        group_index_in(s, id) != -1 ==> {
            let r = group_index_in(s, id);
            &&& 0 <= r < s.len()
            &&& s[r].group.mls_group_id == id
            &&& forall|j: int| 0 <= j < r ==> (#[trigger] s[j]).group.mls_group_id != id
        },
    decreases s.len(),
{
    if s.len() > 0 && s[0].group.mls_group_id != id {
        lemma_group_index_in(s.drop_first(), id);
        assert forall|j: int| 1 <= j < s.len() implies s.drop_first()[j - 1] == s[j] by {}
    }
}

/// Appends a key to a list unless the list already holds it.
pub open spec fn push_unique(s: Seq<Seq<char>>, x: Seq<char>) -> Seq<Seq<char>> {
    if s.contains(x) {
        s
    } else {
        s.push(x)
    }
}

/// Appends each key of a list in order, skipping ones already present.
pub open spec fn append_unique(s: Seq<Seq<char>>, xs: Seq<Seq<char>>) -> Seq<Seq<char>>
    decreases xs.len(),
{
    if xs.len() == 0 {
        s
    } else {
        push_unique(append_unique(s, xs.drop_last()), xs.last())
    }
}

/// The member list of a fresh group: the creator, then each listed member,
/// first occurrence only.
pub open spec fn initial_members(creator: Seq<char>, members: Seq<Seq<char>>) -> Seq<Seq<char>> {
    append_unique(seq![creator], members)
}

/// The keys that stay after removing a set of keys.
pub open spec fn remove_keys(s: Seq<Seq<char>>, gone: Seq<Seq<char>>) -> Seq<Seq<char>> {
    s.filter(|m: Seq<char>| !gone.contains(m))
}

/// The relay URLs an account has configured for one purpose, in stored
/// order.
pub open spec fn relay_urls_for(
    rows: Seq<AccountRelayV>,
    owner: Seq<char>,
    rt: RelayType,
) -> Seq<Seq<char>> {
    rows.filter(|r: AccountRelayV| r.owner == owner && r.relay_type == rt).map_values(
        |r: AccountRelayV| r.relay.url,
    )
}

/// Whether every key of a list is well-formed.
pub open spec fn all_valid_pubkeys(keys: Seq<Seq<char>>) -> bool {
    forall|i: int| 0 <= i < keys.len() ==> valid_pubkey(#[trigger] keys[i])
}

/// Whether a session holds a key package for every key of a list.
pub open spec fn all_have_key_packages(w: Whitenoise, keys: Seq<Seq<char>>) -> bool {
    forall|i: int| 0 <= i < keys.len() ==> w.has_key_package(#[trigger] keys[i])
}

/// The direct-message shape: exactly one listed member, distinct from the
/// creator, so the group holds exactly two participants.
pub open spec fn dm_shape_ok(
    group_type: GroupType,
    creator: Seq<char>,
    members: Seq<Seq<char>>,
) -> bool {
    group_type is DirectMessage ==> members.len() == 1 && members[0] != creator
}

/// Direct-message groups hold exactly two members.
pub open spec fn groups_wf(records: Seq<GroupRecordV>) -> bool {
    forall|i: int|
        0 <= i < records.len() ==> ((#[trigger] records[i]).group_type is DirectMessage
            ==> records[i].members.len() == 2)
}

/// The group record a successful creation appends.
pub open spec fn created_record(
    w: Whitenoise,
    creator: Seq<char>,
    members: Seq<Seq<char>>,
    admins: Seq<Seq<char>>,
    name: Seq<char>,
    description: Seq<char>,
    group_type: GroupType,
) -> GroupRecordV {
    GroupRecordV {
        group: GroupV {
            mls_group_id: hex_of(u64_be_bytes(w.next_id)),
            nostr_group_id: hex_of(u64_be_bytes((w.next_id + 1) as u64)),
            name: name,
            description: description,
            image_hash: None,
            image_key: None,
            admin_pubkeys: admins,
            last_message_id: None,
            last_message_at: None,
            epoch: 0,
            state: GroupState::Pending,
        },
        group_type: group_type,
        members: initial_members(creator, members),
        relays: relay_urls_for(relay_rows_view(w.relays@), creator, RelayType::Nip65),
    }
}

impl Whitenoise {
    /// The first group record with a local group identifier, or -1.
    pub open spec fn group_index(self, id: Seq<char>) -> int {
        group_index_in(group_records_view(self.groups@), id)
    }

    /// Finds the position of a group by its local identifier.
    pub(crate) fn find_group(&self, mls_group_id: &str) -> (r: Option<usize>)
        ensures
            match r {
                Some(i) => i < self.groups@.len() && self.group_index(mls_group_id@) == i as int,
                None => self.group_index(mls_group_id@) == -1,
            },
    {
        let ghost s = group_records_view(self.groups@);
        let mut i: usize = 0;
        while i < self.groups.len()
            invariant
                i <= self.groups@.len(),
                s == group_records_view(self.groups@),
                forall|j: int| 0 <= j < i ==> (#[trigger] s[j]).group.mls_group_id != mls_group_id@,
            decreases self.groups@.len() - i,
        {
            if str_eq(self.groups[i].group.mls_group_id.as_str(), mls_group_id) {
                proof {
                    lemma_group_index_in(s, mls_group_id@);
                    let r = group_index_in(s, mls_group_id@);
                    assert(s[i as int].group.mls_group_id == mls_group_id@);
                    if r == -1 {
                    } else if r < i as int {
                        assert(s[r].group.mls_group_id != mls_group_id@);
                    } else if r > i as int {
                        assert(s[i as int].group.mls_group_id != mls_group_id@);
                    }
                }
                return Some(i);
            }
            i += 1;
        }
        proof {
            lemma_group_index_in(s, mls_group_id@);
            let r = group_index_in(s, mls_group_id@);
            if r != -1 {
                assert(s[r].group.mls_group_id == mls_group_id@);
            }
        }
        None
    }
}

/// Checks that every string of a list is a well-formed public key.
fn check_all_pubkeys(keys: &Vec<String>) -> (r: bool)
    ensures
        r == all_valid_pubkeys(string_views(keys@)),
{
    let mut i: usize = 0;
    while i < keys.len()
        invariant
            i <= keys@.len(),
            forall|j: int| 0 <= j < i ==> valid_pubkey(#[trigger] string_views(keys@)[j]),
        decreases keys@.len() - i,
    {
        if !check_pubkey(keys[i].as_str()) {
            assert(string_views(keys@)[i as int] == keys@[i as int]@);
            return false;
        }
        assert(string_views(keys@)[i as int] == keys@[i as int]@);
        i += 1;
    }
    true
}

/// Extending the relay rows extends the collected URLs accordingly.
proof fn lemma_relay_urls_push(
    rows: Seq<AccountRelayV>,
    owner: Seq<char>,
    rt: RelayType,
    x: AccountRelayV,
)
    ensures
        relay_urls_for(rows.push(x), owner, rt) == if x.owner == owner && x.relay_type == rt {
            relay_urls_for(rows, owner, rt).push(x.relay.url)
        } else {
            relay_urls_for(rows, owner, rt)
        },
{
    reveal(Seq::filter);
    assert(rows.push(x).drop_last() =~= rows);
    if x.owner == owner && x.relay_type == rt {
        assert(relay_urls_for(rows.push(x), owner, rt) =~= relay_urls_for(rows, owner, rt).push(
            x.relay.url,
        ));
    } else {
        assert(relay_urls_for(rows.push(x), owner, rt) =~= relay_urls_for(rows, owner, rt));
    }
}

impl Whitenoise {
    /// Checks that every key of a list has a published key package.
    fn check_all_key_packages(&self, keys: &Vec<String>) -> (r: bool)
        ensures
            r == all_have_key_packages(*self, string_views(keys@)),
    {
        let mut i: usize = 0;
        while i < keys.len()
            invariant
                i <= keys@.len(),
                forall|j: int|
                    0 <= j < i ==> self.has_key_package(#[trigger] string_views(keys@)[j]),
            decreases keys@.len() - i,
        {
            if !self.key_package_exists(keys[i].as_str()) {
                assert(string_views(keys@)[i as int] == keys@[i as int]@);
                return false;
            }
            assert(string_views(keys@)[i as int] == keys@[i as int]@);
            i += 1;
        }
        true
    }

    /// Collects the relay URLs an account has configured for one purpose.
    fn collect_relay_urls(&self, owner: &str, rt: RelayType) -> (r: Vec<String>)
        ensures
            string_views(r@) == relay_urls_for(relay_rows_view(self.relays@), owner@, rt),
    {
        let ghost rows = relay_rows_view(self.relays@);
        let mut r: Vec<String> = Vec::new();
        let mut i: usize = 0;
        proof {
            reveal(Seq::filter);
            assert(rows.take(0) =~= Seq::<AccountRelayV>::empty());
            assert(string_views(r@) =~= relay_urls_for(rows.take(0), owner@, rt));
        }
        while i < self.relays.len()
            invariant
                i <= self.relays@.len(),
                rows == relay_rows_view(self.relays@),
                string_views(r@) == relay_urls_for(rows.take(i as int), owner@, rt),
            decreases self.relays@.len() - i,
        {
            let ghost r0 = r@;
            let row = &self.relays[i];
            proof {
                assert(rows.take(i as int + 1) =~= rows.take(i as int).push(row@));
                lemma_relay_urls_push(rows.take(i as int), owner@, rt, row@);
            }
            if str_eq(row.owner.as_str(), owner) && row.relay_type == rt {
                r.push(row.relay.url.clone());
                proof {
                    assert(string_views(r@) =~= string_views(r0).push(row@.relay.url));
                    assert(string_views(r@) =~= relay_urls_for(
                        rows.take(i as int + 1),
                        owner@,
                        rt,
                    ));
                }
            } else {
                proof {
                    assert(string_views(r@) =~= relay_urls_for(
                        rows.take(i as int + 1),
                        owner@,
                        rt,
                    ));
                }
            }
            i += 1;
        }
        proof {
            assert(rows.take(self.relays@.len() as int) =~= rows);
        }
        r
    }

    /// Builds the member list of a fresh group: creator first, then each
    /// listed member once.
    fn build_initial_members(&self, creator: &String, member_pubkeys: &Vec<String>) -> (r: Vec<
        String,
    >)
        ensures
            string_views(r@) == initial_members(creator@, string_views(member_pubkeys@)),
    {
        let ghost mvs = string_views(member_pubkeys@);
        let mut r: Vec<String> = Vec::new();
        r.push(creator.clone());
        proof {
            assert(string_views(r@) =~= seq![creator@]);
            assert(mvs.take(0) =~= Seq::<Seq<char>>::empty());
            assert(append_unique(seq![creator@], mvs.take(0)) == seq![creator@]);
        }
        let mut i: usize = 0;
        while i < member_pubkeys.len()
            invariant
                i <= member_pubkeys@.len(),
                mvs == string_views(member_pubkeys@),
                string_views(r@) == append_unique(seq![creator@], mvs.take(i as int)),
            decreases member_pubkeys@.len() - i,
        {
            let ghost r0 = r@;
            let m = &member_pubkeys[i];
            proof {
                assert(mvs.take(i as int + 1).drop_last() =~= mvs.take(i as int));
                assert(mvs.take(i as int + 1).last() == m@);
            }
            if !string_vec_contains(&r, m.as_str()) {
                r.push(m.clone());
                proof {
                    assert(string_views(r@) =~= string_views(r0).push(m@));
                }
            }
            i += 1;
        }
        proof {
            assert(mvs.take(member_pubkeys@.len() as int) =~= mvs);
        }
        r
    }

    /// Creates a group and issues its create commit. The creator becomes a
    /// member; a direct-message group takes exactly one other member. The
    /// group starts in `Pending` at epoch 0 and turns `Active` when the own
    /// commit is confirmed.
    pub fn create_group(
        &mut self,
        creator_pubkey: String,
        member_pubkeys: Vec<String>,
        admin_pubkeys: Vec<String>,
        group_name: String,
        group_description: String,
        group_type: GroupType,
    ) -> (r: Result<Group, WhitenoiseError>)
        ensures
            ({
                let c = creator_pubkey@;
                let mvs = string_views(member_pubkeys@);
                let avs = string_views(admin_pubkeys@);
                let ok = valid_pubkey(c) && old(self).account_exists(c) && all_valid_pubkeys(avs)
                    && all_valid_pubkeys(mvs) && dm_shape_ok(group_type, c, mvs)
                    && all_have_key_packages(*old(self), mvs) && old(self).next_id <= u64::MAX - 2;
                &&& (r is Ok <==> ok)
                &&& (!valid_pubkey(c) ==> r == Result::<Group, WhitenoiseError>::Err(
                    WhitenoiseError::InvalidPublicKey,
                ))
                &&& (valid_pubkey(c) && !old(self).account_exists(c) ==> r == Result::<
                    Group,
                    WhitenoiseError,
                >::Err(WhitenoiseError::AccountNotFound))
                &&& (valid_pubkey(c) && old(self).account_exists(c) && !(all_valid_pubkeys(avs)
                    && all_valid_pubkeys(mvs)) ==> r == Result::<Group, WhitenoiseError>::Err(
                    WhitenoiseError::InvalidPublicKey,
                ))
                &&& (valid_pubkey(c) && old(self).account_exists(c) && all_valid_pubkeys(avs)
                    && all_valid_pubkeys(mvs) && !dm_shape_ok(group_type, c, mvs) ==> r == Result::<
                    Group,
                    WhitenoiseError,
                >::Err(WhitenoiseError::InvalidGroupKind))
                &&& (valid_pubkey(c) && old(self).account_exists(c) && all_valid_pubkeys(avs)
                    && all_valid_pubkeys(mvs) && dm_shape_ok(group_type, c, mvs)
                    && !all_have_key_packages(*old(self), mvs) ==> r == Result::<
                    Group,
                    WhitenoiseError,
                >::Err(WhitenoiseError::MissingKeyPackage))
                &&& (r is Err ==> *final(self) == *old(self))
                &&& (r is Ok ==> {
                    let rec = created_record(
                        *old(self),
                        c,
                        mvs,
                        avs,
                        group_name@,
                        group_description@,
                        group_type,
                    );
                    &&& group_records_view(final(self).groups@) == group_records_view(
                        old(self).groups@,
                    ).push(rec)
                    &&& r.unwrap()@ == rec.group
                    &&& final(self).next_id == old(self).next_id + 2
                    &&& final(self).accounts == old(self).accounts
                    &&& final(self).users == old(self).users
                    &&& final(self).relays == old(self).relays
                    &&& final(self).key_packages == old(self).key_packages
                    &&& final(self).follows == old(self).follows
                    &&& final(self).welcomes == old(self).welcomes
                    &&& final(self).messages == old(self).messages
                &&& final(self).relay_statuses == old(self).relay_statuses
                &&& final(self).config == old(self).config
                    &&& final(self).relay_statuses == old(self).relay_statuses
                    &&& final(self).config == old(self).config
                })
            }),
            groups_wf(group_records_view(old(self).groups@)) ==> groups_wf(
                group_records_view(final(self).groups@),
            ),
    {
        if !check_pubkey(creator_pubkey.as_str()) {
            return Err(WhitenoiseError::InvalidPublicKey);
        }
        if self.find_account(creator_pubkey.as_str()).is_none() {
            return Err(WhitenoiseError::AccountNotFound);
        }
        if !check_all_pubkeys(&admin_pubkeys) {
            return Err(WhitenoiseError::InvalidPublicKey);
        }
        if !check_all_pubkeys(&member_pubkeys) {
            return Err(WhitenoiseError::InvalidPublicKey);
        }
        let is_dm = matches!(group_type, GroupType::DirectMessage);
        if is_dm {
            if member_pubkeys.len() != 1 {
                return Err(WhitenoiseError::InvalidGroupKind);
            }
            if str_eq(member_pubkeys[0].as_str(), creator_pubkey.as_str()) {
                return Err(WhitenoiseError::InvalidGroupKind);
            }
            proof {
                assert(string_views(member_pubkeys@)[0] == member_pubkeys@[0]@);
            }
        }
        if !self.check_all_key_packages(&member_pubkeys) {
            return Err(WhitenoiseError::MissingKeyPackage);
        }
        if self.next_id > u64::MAX - 2 {
            return Err(
                WhitenoiseError::Other { message: "local identifier space exhausted".to_owned() },
            );
        }
        let relays = self.collect_relay_urls(creator_pubkey.as_str(), RelayType::Nip65);
        let members = self.build_initial_members(&creator_pubkey, &member_pubkeys);
        let mls_group_id = local_id_string(self.next_id);
        let nostr_group_id = local_id_string(self.next_id + 1);
        let group = Group {
            mls_group_id,
            nostr_group_id,
            name: group_name,
            description: group_description,
            image_hash: None,
            image_key: None,
            admin_pubkeys: clone_string_vec(&admin_pubkeys),
            last_message_id: None,
            last_message_at: None,
            epoch: 0,
            state: GroupState::Pending,
        };
        let returned = group.clone();
        let record = GroupRecord { group, group_type, members, relays };
        let ghost rec_spec = created_record(
            *old(self),
            creator_pubkey@,
            string_views(member_pubkeys@),
            string_views(admin_pubkeys@),
            group_name@,
            group_description@,
            group_type,
        );
        proof {
            assert(record@ == rec_spec);
        }
        self.groups.push(record);
        self.next_id = self.next_id + 2;
        proof {
            assert(group_records_view(self.groups@) =~= group_records_view(
                old(self).groups@,
            ).push(rec_spec));
            if groups_wf(group_records_view(old(self).groups@)) {
                lemma_initial_members_dm(
                    creator_pubkey@,
                    string_views(member_pubkeys@),
                    group_type,
                );
                assert forall|i: int|
                    0 <= i < group_records_view(self.groups@).len() implies ((
                #[trigger] group_records_view(self.groups@)[i]).group_type is DirectMessage
                    ==> group_records_view(self.groups@)[i].members.len() == 2) by {
                    if i < group_records_view(old(self).groups@).len() {
                        assert(group_records_view(self.groups@)[i] == group_records_view(
                            old(self).groups@,
                        )[i]);
                    }
                }
            }
        }
        Ok(returned)
    }
}

/// The mathematical shape of a partial group-data update.
pub struct FlutterGroupDataUpdateV {
    pub name: Option<Seq<char>>,
    pub description: Option<Seq<char>>,
    pub relays: Option<Seq<Seq<char>>>,
    pub admins: Option<Seq<Seq<char>>>,
    pub image_key: Option<[u8; 32]>,
    pub image_hash: Option<[u8; 32]>,
    pub image_nonce: Option<[u8; 12]>,
}

impl View for FlutterGroupDataUpdate {
    type V = FlutterGroupDataUpdateV;

    open spec fn view(&self) -> FlutterGroupDataUpdateV {
        FlutterGroupDataUpdateV {
            name: opt_view(self.name),
            description: opt_view(self.description),
            relays: match self.relays {
                Some(v) => Some(string_views(v@)),
                None => None,
            },
            admins: match self.admins {
                Some(v) => Some(string_views(v@)),
                None => None,
            },
            image_key: self.image_key,
            image_hash: self.image_hash,
            image_nonce: self.image_nonce,
        }
    }
}

/// The well-formed keys of a list, in order; malformed ones are dropped.
pub open spec fn filter_valid_keys(s: Seq<Seq<char>>) -> Seq<Seq<char>> {
    s.filter(|k: Seq<char>| valid_pubkey(k))
}

/// The well-formed relay URLs of a list, in order; malformed ones are
/// dropped.
pub open spec fn filter_valid_urls(s: Seq<Seq<char>>) -> Seq<Seq<char>> {
    s.filter(|u: Seq<char>| valid_relay_url(u))
}

/// Whether every key of a list is a current member.
pub open spec fn all_members_present(members: Seq<Seq<char>>, keys: Seq<Seq<char>>) -> bool {
    forall|i: int| 0 <= i < keys.len() ==> members.contains(#[trigger] keys[i])
}

/// The structural check shared by the membership operations; `None` means
/// the operation is accepted.
pub open spec fn membership_op_check(
    w: Whitenoise,
    pk: Seq<char>,
    gid: Seq<char>,
    keys: Seq<Seq<char>>,
    adding: bool,
) -> Option<WhitenoiseError> {
    if !valid_pubkey(pk) {
        Some(WhitenoiseError::InvalidPublicKey)
    } else if !hex_valid(gid) {
        Some(WhitenoiseError::InvalidEncoding)
    } else if !w.account_exists(pk) {
        Some(WhitenoiseError::AccountNotFound)
    } else if !all_valid_pubkeys(keys) {
        Some(WhitenoiseError::InvalidPublicKey)
    } else if w.group_index(gid) == -1 {
        Some(WhitenoiseError::GroupNotFound)
    } else {
        let rec = group_records_view(w.groups@)[w.group_index(gid)];
        if rec.group_type is DirectMessage {
            Some(WhitenoiseError::InvalidGroupKind)
        } else if !(rec.group.state is Active) {
            Some(WhitenoiseError::GroupNotActive)
        } else if !rec.group.admin_pubkeys.contains(pk) {
            Some(WhitenoiseError::NotAdmin)
        } else if adding && !all_have_key_packages(w, keys) {
            Some(WhitenoiseError::MissingKeyPackage)
        } else if !adding && !all_members_present(rec.members, keys) {
            Some(WhitenoiseError::UnknownMember)
        } else {
            None
        }
    }
}

/// The record after an accepted member addition: one epoch advance covering
/// the whole batch, each new key appended once.
pub open spec fn added_members_record(rec: GroupRecordV, keys: Seq<Seq<char>>) -> GroupRecordV {
    GroupRecordV {
        group: GroupV { epoch: (rec.group.epoch + 1) as u64, ..rec.group },
        members: append_unique(rec.members, keys),
        ..rec
    }
}

/// The record after an accepted member removal: one epoch advance covering
/// the whole batch; the removed keys leave the members and the admin list,
/// and an emptied group turns inactive.
pub open spec fn removed_members_record(rec: GroupRecordV, keys: Seq<Seq<char>>) -> GroupRecordV {
    let members = remove_keys(rec.members, keys);
    GroupRecordV {
        group: GroupV {
            epoch: (rec.group.epoch + 1) as u64,
            admin_pubkeys: remove_keys(rec.group.admin_pubkeys, keys),
            state: if members.len() == 0 {
                GroupState::Inactive
            } else {
                rec.group.state
            },
            ..rec.group
        },
        members: members,
        ..rec
    }
}

/// The record after an accepted partial data update: set fields replace,
/// unset fields stay, malformed relay URLs and admin keys are dropped from
/// their new value, and the epoch advances by one.
pub open spec fn updated_record(rec: GroupRecordV, u: FlutterGroupDataUpdateV) -> GroupRecordV {
    GroupRecordV {
        group: GroupV {
            name: if u.name is Some {
                u.name.unwrap()
            } else {
                rec.group.name
            },
            description: if u.description is Some {
                u.description.unwrap()
            } else {
                rec.group.description
            },
            image_key: if u.image_key is Some {
                u.image_key
            } else {
                rec.group.image_key
            },
            image_hash: if u.image_hash is Some {
                u.image_hash
            } else {
                rec.group.image_hash
            },
            admin_pubkeys: if u.admins is Some {
                filter_valid_keys(u.admins.unwrap())
            } else {
                rec.group.admin_pubkeys
            },
            epoch: (rec.group.epoch + 1) as u64,
            ..rec.group
        },
        relays: if u.relays is Some {
            filter_valid_urls(u.relays.unwrap())
        } else {
            rec.relays
        },
        ..rec
    }
}

/// Keeping only non-removed keys distributes over push.
proof fn lemma_remove_keys_push(s: Seq<Seq<char>>, gone: Seq<Seq<char>>, x: Seq<char>)
    ensures
        remove_keys(s.push(x), gone) == if !gone.contains(x) {
            remove_keys(s, gone).push(x)
        } else {
            remove_keys(s, gone)
        },
{
    reveal(Seq::filter);
    assert(s.push(x).drop_last() =~= s);
    if !gone.contains(x) {
        assert(remove_keys(s.push(x), gone) =~= remove_keys(s, gone).push(x));
    } else {
        assert(remove_keys(s.push(x), gone) =~= remove_keys(s, gone));
    }
}

/// Keeping only well-formed keys distributes over push.
proof fn lemma_filter_valid_keys_push(s: Seq<Seq<char>>, x: Seq<char>)
    ensures
        filter_valid_keys(s.push(x)) == if valid_pubkey(x) {
            filter_valid_keys(s).push(x)
        } else {
            filter_valid_keys(s)
        },
{
    reveal(Seq::filter);
    assert(s.push(x).drop_last() =~= s);
    if valid_pubkey(x) {
        assert(filter_valid_keys(s.push(x)) =~= filter_valid_keys(s).push(x));
    } else {
        assert(filter_valid_keys(s.push(x)) =~= filter_valid_keys(s));
    }
}

/// Keeping only well-formed relay URLs distributes over push.
proof fn lemma_filter_valid_urls_push(s: Seq<Seq<char>>, x: Seq<char>)
    ensures
        filter_valid_urls(s.push(x)) == if valid_relay_url(x) {
            filter_valid_urls(s).push(x)
        } else {
            filter_valid_urls(s)
        },
{
    reveal(Seq::filter);
    assert(s.push(x).drop_last() =~= s);
    if valid_relay_url(x) {
        assert(filter_valid_urls(s.push(x)) =~= filter_valid_urls(s).push(x));
    } else {
        assert(filter_valid_urls(s.push(x)) =~= filter_valid_urls(s));
    }
}

impl Whitenoise {
    /// Checks that every key of a list is a member of a stored vector.
    fn check_all_members(&self, members: &Vec<String>, keys: &Vec<String>) -> (r: bool)
        ensures
            r == all_members_present(string_views(members@), string_views(keys@)),
    {
        let mut i: usize = 0;
        while i < keys.len()
            invariant
                i <= keys@.len(),
                forall|j: int|
                    0 <= j < i ==> string_views(members@).contains(
                        #[trigger] string_views(keys@)[j],
                    ),
            decreases keys@.len() - i,
        {
            if !string_vec_contains(members, keys[i].as_str()) {
                assert(string_views(keys@)[i as int] == keys@[i as int]@);
                return false;
            }
            assert(string_views(keys@)[i as int] == keys@[i as int]@);
            i += 1;
        }
        true
    }

    /// Appends each listed key to the stored members once.
    fn extend_members(&self, members: &Vec<String>, keys: &Vec<String>) -> (r: Vec<String>)
        ensures
            string_views(r@) == append_unique(string_views(members@), string_views(keys@)),
    {
        let ghost kvs = string_views(keys@);
        let mut r = clone_string_vec(members);
        proof {
            assert(kvs.take(0) =~= Seq::<Seq<char>>::empty());
        }
        let mut i: usize = 0;
        while i < keys.len()
            invariant
                i <= keys@.len(),
                kvs == string_views(keys@),
                string_views(r@) == append_unique(string_views(members@), kvs.take(i as int)),
            decreases keys@.len() - i,
        {
            let ghost r0 = r@;
            let m = &keys[i];
            proof {
                assert(kvs.take(i as int + 1).drop_last() =~= kvs.take(i as int));
                assert(kvs.take(i as int + 1).last() == m@);
            }
            if !string_vec_contains(&r, m.as_str()) {
                r.push(m.clone());
                proof {
                    assert(string_views(r@) =~= string_views(r0).push(m@));
                }
            }
            i += 1;
        }
        proof {
            assert(kvs.take(keys@.len() as int) =~= kvs);
        }
        r
    }

    /// Keeps the stored keys that are not among the removed ones.
    fn retain_members(&self, members: &Vec<String>, gone: &Vec<String>) -> (r: Vec<String>)
        ensures
            string_views(r@) == remove_keys(string_views(members@), string_views(gone@)),
    {
        let ghost mvs = string_views(members@);
        let mut r: Vec<String> = Vec::new();
        proof {
            reveal(Seq::filter);
            assert(mvs.take(0) =~= Seq::<Seq<char>>::empty());
            assert(string_views(r@) =~= remove_keys(mvs.take(0), string_views(gone@)));
        }
        let mut i: usize = 0;
        while i < members.len()
            invariant
                i <= members@.len(),
                mvs == string_views(members@),
                string_views(r@) == remove_keys(mvs.take(i as int), string_views(gone@)),
            decreases members@.len() - i,
        {
            let ghost r0 = r@;
            let m = &members[i];
            proof {
                assert(mvs.take(i as int + 1) =~= mvs.take(i as int).push(m@));
                lemma_remove_keys_push(mvs.take(i as int), string_views(gone@), m@);
            }
            if !string_vec_contains(gone, m.as_str()) {
                r.push(m.clone());
                proof {
                    assert(string_views(r@) =~= string_views(r0).push(m@));
                }
            }
            i += 1;
        }
        proof {
            assert(mvs.take(members@.len() as int) =~= mvs);
        }
        r
    }

    /// Keeps the well-formed keys of a list, in order.
    fn keep_valid_keys(&self, keys: &Vec<String>) -> (r: Vec<String>)
        ensures
            string_views(r@) == filter_valid_keys(string_views(keys@)),
    {
        let ghost kvs = string_views(keys@);
        let mut r: Vec<String> = Vec::new();
        proof {
            reveal(Seq::filter);
            assert(kvs.take(0) =~= Seq::<Seq<char>>::empty());
            assert(string_views(r@) =~= filter_valid_keys(kvs.take(0)));
        }
        let mut i: usize = 0;
        while i < keys.len()
            invariant
                i <= keys@.len(),
                kvs == string_views(keys@),
                string_views(r@) == filter_valid_keys(kvs.take(i as int)),
            decreases keys@.len() - i,
        {
            let ghost r0 = r@;
            let k = &keys[i];
            proof {
                assert(kvs.take(i as int + 1) =~= kvs.take(i as int).push(k@));
                lemma_filter_valid_keys_push(kvs.take(i as int), k@);
            }
            if check_pubkey(k.as_str()) {
                r.push(k.clone());
                proof {
                    assert(string_views(r@) =~= string_views(r0).push(k@));
                }
            }
            i += 1;
        }
        proof {
            assert(kvs.take(keys@.len() as int) =~= kvs);
        }
        r
    }

    /// Keeps the well-formed relay URLs of a list, in order.
    fn keep_valid_urls(&self, urls: &Vec<String>) -> (r: Vec<String>)
        ensures
            string_views(r@) == filter_valid_urls(string_views(urls@)),
    {
        let ghost uvs = string_views(urls@);
        let mut r: Vec<String> = Vec::new();
        proof {
            reveal(Seq::filter);
            assert(uvs.take(0) =~= Seq::<Seq<char>>::empty());
            assert(string_views(r@) =~= filter_valid_urls(uvs.take(0)));
        }
        let mut i: usize = 0;
        while i < urls.len()
            invariant
                i <= urls@.len(),
                uvs == string_views(urls@),
                string_views(r@) == filter_valid_urls(uvs.take(i as int)),
            decreases urls@.len() - i,
        {
            let ghost r0 = r@;
            let u = &urls[i];
            proof {
                assert(uvs.take(i as int + 1) =~= uvs.take(i as int).push(u@));
                lemma_filter_valid_urls_push(uvs.take(i as int), u@);
            }
            if check_relay_url(u.as_str()) {
                r.push(u.clone());
                proof {
                    assert(string_views(r@) =~= string_views(r0).push(u@));
                }
            }
            i += 1;
        }
        proof {
            assert(uvs.take(urls@.len() as int) =~= uvs);
        }
        r
    }

    /// Runs the shared structural checks of the membership operations.
    fn membership_op_gate(&self, pubkey: &String, group_id: &String, keys: &Vec<String>, adding:
        bool) -> (r: Option<WhitenoiseError>)
        ensures
            match r {
                Some(e) => membership_op_check(
                    *self,
                    pubkey@,
                    group_id@,
                    string_views(keys@),
                    adding,
                ) == Some(e),
                None => membership_op_check(
                    *self,
                    pubkey@,
                    group_id@,
                    string_views(keys@),
                    adding,
                ) is None,
            },
    {
        if !check_pubkey(pubkey.as_str()) {
            return Some(WhitenoiseError::InvalidPublicKey);
        }
        if hex_decode(group_id.as_str()).is_none() {
            return Some(WhitenoiseError::InvalidEncoding);
        }
        if self.find_account(pubkey.as_str()).is_none() {
            return Some(WhitenoiseError::AccountNotFound);
        }
        if !check_all_pubkeys(keys) {
            return Some(WhitenoiseError::InvalidPublicKey);
        }
        match self.find_group(group_id.as_str()) {
            None => Some(WhitenoiseError::GroupNotFound),
            Some(gi) => {
                let rec = &self.groups[gi];
                proof {
                    assert(group_records_view(self.groups@)[gi as int] == rec@);
                }
                if matches!(rec.group_type, GroupType::DirectMessage) {
                    Some(WhitenoiseError::InvalidGroupKind)
                } else if !matches!(rec.group.state, GroupState::Active) {
                    Some(WhitenoiseError::GroupNotActive)
                } else if !string_vec_contains(&rec.group.admin_pubkeys, pubkey.as_str()) {
                    Some(WhitenoiseError::NotAdmin)
                } else if adding && !self.check_all_key_packages(keys) {
                    Some(WhitenoiseError::MissingKeyPackage)
                } else if !adding && !self.check_all_members(&rec.members, keys) {
                    Some(WhitenoiseError::UnknownMember)
                } else {
                    None
                }
            },
        }
    }

    /// Adds the listed members to a group in one commit: the epoch advances
    /// by exactly one for the whole batch, and each key not yet a member is
    /// appended once. Requires an admin actor on an active, non-direct
    /// group whose every new member has a key package.
    pub fn add_members_to_group(
        &mut self,
        pubkey: String,
        group_id: String,
        member_pubkeys: Vec<String>,
    ) -> (r: Result<(), WhitenoiseError>)
        ensures
            ({
                let chk = membership_op_check(
                    *old(self),
                    pubkey@,
                    group_id@,
                    string_views(member_pubkeys@),
                    true,
                );
                let gi = old(self).group_index(group_id@);
                let recs = group_records_view(old(self).groups@);
                &&& (chk matches Some(e) ==> r == Result::<(), WhitenoiseError>::Err(e))
                &&& (chk is None && recs[gi].group.epoch == u64::MAX ==> r matches Result::Err(
                    WhitenoiseError::Other { .. },
                ))
                &&& (r is Ok <==> chk is None && recs[gi].group.epoch < u64::MAX)
                &&& (r is Err ==> *final(self) == *old(self))
                &&& (r is Ok ==> {
                    &&& group_records_view(final(self).groups@) == recs.update(
                        gi,
                        added_members_record(recs[gi], string_views(member_pubkeys@)),
                    )
                    &&& final(self).accounts == old(self).accounts
                    &&& final(self).users == old(self).users
                    &&& final(self).relays == old(self).relays
                    &&& final(self).key_packages == old(self).key_packages
                    &&& final(self).follows == old(self).follows
                    &&& final(self).welcomes == old(self).welcomes
                    &&& final(self).messages == old(self).messages
                &&& final(self).relay_statuses == old(self).relay_statuses
                &&& final(self).config == old(self).config
                    &&& final(self).relay_statuses == old(self).relay_statuses
                    &&& final(self).config == old(self).config
                    &&& final(self).next_id == old(self).next_id
                })
            }),
            groups_wf(group_records_view(old(self).groups@)) ==> groups_wf(
                group_records_view(final(self).groups@),
            ),
    {
        match self.membership_op_gate(&pubkey, &group_id, &member_pubkeys, true) {
            Some(e) => Err(e),
            None => {
                let gi = self.find_group(group_id.as_str()).unwrap();
                let ghost recs = group_records_view(self.groups@);
                let rec = &self.groups[gi];
                proof {
                    assert(recs[gi as int] == rec@);
                }
                if rec.group.epoch == u64::MAX {
                    return Err(
                        WhitenoiseError::Other { message: "epoch space exhausted".to_owned() },
                    );
                }
                let members = self.extend_members(&rec.members, &member_pubkeys);
                let group = Group {
                    mls_group_id: rec.group.mls_group_id.clone(),
                    nostr_group_id: rec.group.nostr_group_id.clone(),
                    name: rec.group.name.clone(),
                    description: rec.group.description.clone(),
                    image_hash: rec.group.image_hash,
                    image_key: rec.group.image_key,
                    admin_pubkeys: clone_string_vec(&rec.group.admin_pubkeys),
                    last_message_id: crate::metadata::clone_opt_string(&rec.group.last_message_id),
                    last_message_at: rec.group.last_message_at,
                    epoch: rec.group.epoch + 1,
                    state: rec.group.state,
                };
                let relays = clone_string_vec(&rec.relays);
                let group_type = rec.group_type;
                let newrec = GroupRecord { group, group_type, members, relays };
                proof {
                    assert(newrec@ == added_members_record(
                        recs[gi as int],
                        string_views(member_pubkeys@),
                    ));
                }
                self.groups.set(gi, newrec);
                proof {
                    assert(group_records_view(self.groups@) =~= recs.update(
                        gi as int,
                        added_members_record(recs[gi as int], string_views(member_pubkeys@)),
                    ));
                    if groups_wf(recs) {
                        assert forall|i: int|
                            0 <= i < group_records_view(self.groups@).len() implies ((
                        #[trigger] group_records_view(self.groups@)[i]).group_type
                            is DirectMessage ==> group_records_view(self.groups@)[i].members.len()
                            == 2) by {
                            if i != gi as int {
                                assert(group_records_view(self.groups@)[i] == recs[i]);
                            }
                        }
                    }
                }
                Ok(())
            },
        }
    }

    /// Removes the listed members from a group in one commit: the epoch
    /// advances by exactly one for the whole batch; the keys leave the
    /// member and admin lists, and an emptied group turns inactive.
    /// Requires an admin actor on an active, non-direct group, and every
    /// listed key to be a current member.
    pub fn remove_members_from_group(
        &mut self,
        pubkey: String,
        group_id: String,
        member_pubkeys: Vec<String>,
    ) -> (r: Result<(), WhitenoiseError>)
        ensures
            ({
                let chk = membership_op_check(
                    *old(self),
                    pubkey@,
                    group_id@,
                    string_views(member_pubkeys@),
                    false,
                );
                let gi = old(self).group_index(group_id@);
                let recs = group_records_view(old(self).groups@);
                &&& (chk matches Some(e) ==> r == Result::<(), WhitenoiseError>::Err(e))
                &&& (chk is None && recs[gi].group.epoch == u64::MAX ==> r matches Result::Err(
                    WhitenoiseError::Other { .. },
                ))
                &&& (r is Ok <==> chk is None && recs[gi].group.epoch < u64::MAX)
                &&& (r is Err ==> *final(self) == *old(self))
                &&& (r is Ok ==> {
                    &&& group_records_view(final(self).groups@) == recs.update(
                        gi,
                        removed_members_record(recs[gi], string_views(member_pubkeys@)),
                    )
                    &&& final(self).accounts == old(self).accounts
                    &&& final(self).users == old(self).users
                    &&& final(self).relays == old(self).relays
                    &&& final(self).key_packages == old(self).key_packages
                    &&& final(self).follows == old(self).follows
                    &&& final(self).welcomes == old(self).welcomes
                    &&& final(self).messages == old(self).messages
                &&& final(self).relay_statuses == old(self).relay_statuses
                &&& final(self).config == old(self).config
                    &&& final(self).relay_statuses == old(self).relay_statuses
                    &&& final(self).config == old(self).config
                    &&& final(self).next_id == old(self).next_id
                })
            }),
            groups_wf(group_records_view(old(self).groups@)) ==> groups_wf(
                group_records_view(final(self).groups@),
            ),
    {
        match self.membership_op_gate(&pubkey, &group_id, &member_pubkeys, false) {
            Some(e) => Err(e),
            None => {
                let gi = self.find_group(group_id.as_str()).unwrap();
                let ghost recs = group_records_view(self.groups@);
                let rec = &self.groups[gi];
                proof {
                    assert(recs[gi as int] == rec@);
                }
                if rec.group.epoch == u64::MAX {
                    return Err(
                        WhitenoiseError::Other { message: "epoch space exhausted".to_owned() },
                    );
                }
                let members = self.retain_members(&rec.members, &member_pubkeys);
                let admins = self.retain_members(&rec.group.admin_pubkeys, &member_pubkeys);
                let state = if members.len() == 0 {
                    GroupState::Inactive
                } else {
                    rec.group.state
                };
                let group = Group {
                    mls_group_id: rec.group.mls_group_id.clone(),
                    nostr_group_id: rec.group.nostr_group_id.clone(),
                    name: rec.group.name.clone(),
                    description: rec.group.description.clone(),
                    image_hash: rec.group.image_hash,
                    image_key: rec.group.image_key,
                    admin_pubkeys: admins,
                    last_message_id: crate::metadata::clone_opt_string(&rec.group.last_message_id),
                    last_message_at: rec.group.last_message_at,
                    epoch: rec.group.epoch + 1,
                    state,
                };
                let relays = clone_string_vec(&rec.relays);
                let group_type = rec.group_type;
                let newrec = GroupRecord { group, group_type, members, relays };
                proof {
                    assert(newrec@ == removed_members_record(
                        recs[gi as int],
                        string_views(member_pubkeys@),
                    ));
                }
                self.groups.set(gi, newrec);
                proof {
                    assert(group_records_view(self.groups@) =~= recs.update(
                        gi as int,
                        removed_members_record(recs[gi as int], string_views(member_pubkeys@)),
                    ));
                    if groups_wf(recs) {
                        assert forall|i: int|
                            0 <= i < group_records_view(self.groups@).len() implies ((
                        #[trigger] group_records_view(self.groups@)[i]).group_type
                            is DirectMessage ==> group_records_view(self.groups@)[i].members.len()
                            == 2) by {
                            if i != gi as int {
                                assert(group_records_view(self.groups@)[i] == recs[i]);
                            }
                        }
                    }
                }
                Ok(())
            },
        }
    }

    /// Applies the confirmation of a group's own create commit: a pending
    /// group turns active. A group in any other state rejects the
    /// confirmation; an inactive group never reactivates.
    pub fn confirm_group_commit(&mut self, group_id: String) -> (r: Result<(), WhitenoiseError>)
        ensures
            ({
                let recs = group_records_view(old(self).groups@);
                let gi = old(self).group_index(group_id@);
                &&& (r is Ok <==> hex_valid(group_id@) && gi != -1 && recs[gi].group.state
                    is Pending)
                &&& (!hex_valid(group_id@) ==> r == Result::<(), WhitenoiseError>::Err(
                    WhitenoiseError::InvalidEncoding,
                ))
                &&& (hex_valid(group_id@) && gi == -1 ==> r == Result::<(), WhitenoiseError>::Err(
                    WhitenoiseError::GroupNotFound,
                ))
                &&& (hex_valid(group_id@) && gi != -1 && !(recs[gi].group.state is Pending) ==> r
                    == Result::<(), WhitenoiseError>::Err(WhitenoiseError::GroupNotActive))
                &&& (r is Err ==> *final(self) == *old(self))
                &&& (r is Ok ==> {
                    &&& group_records_view(final(self).groups@) == recs.update(
                        gi,
                        GroupRecordV {
                            group: GroupV { state: GroupState::Active, ..recs[gi].group },
                            ..recs[gi]
                        },
                    )
                    &&& final(self).accounts == old(self).accounts
                    &&& final(self).users == old(self).users
                    &&& final(self).relays == old(self).relays
                    &&& final(self).key_packages == old(self).key_packages
                    &&& final(self).follows == old(self).follows
                    &&& final(self).welcomes == old(self).welcomes
                    &&& final(self).messages == old(self).messages
                    &&& final(self).relay_statuses == old(self).relay_statuses
                    &&& final(self).config == old(self).config
                    &&& final(self).next_id == old(self).next_id
                })
            }),
            groups_wf(group_records_view(old(self).groups@)) ==> groups_wf(
                group_records_view(final(self).groups@),
            ),
    {
        if hex_decode(group_id.as_str()).is_none() {
            return Err(WhitenoiseError::InvalidEncoding);
        }
        let gi = match self.find_group(group_id.as_str()) {
            None => {
                return Err(WhitenoiseError::GroupNotFound);
            },
            Some(gi) => gi,
        };
        let ghost recs = group_records_view(self.groups@);
        proof {
            assert(recs[gi as int] == self.groups@[gi as int]@);
        }
        if !matches!(self.groups[gi].group.state, GroupState::Pending) {
            return Err(WhitenoiseError::GroupNotActive);
        }
        let rec = &self.groups[gi];
        let group = Group {
            mls_group_id: rec.group.mls_group_id.clone(),
            nostr_group_id: rec.group.nostr_group_id.clone(),
            name: rec.group.name.clone(),
            description: rec.group.description.clone(),
            image_hash: rec.group.image_hash,
            image_key: rec.group.image_key,
            admin_pubkeys: clone_string_vec(&rec.group.admin_pubkeys),
            last_message_id: crate::metadata::clone_opt_string(&rec.group.last_message_id),
            last_message_at: rec.group.last_message_at,
            epoch: rec.group.epoch,
            state: GroupState::Active,
        };
        let group_type = rec.group_type;
        let members = clone_string_vec(&rec.members);
        let relays = clone_string_vec(&rec.relays);
        let newrec = GroupRecord { group, group_type, members, relays };
        proof {
            assert(newrec@ == (GroupRecordV {
                group: GroupV { state: GroupState::Active, ..recs[gi as int].group },
                ..recs[gi as int]
            }));
        }
        self.groups.set(gi, newrec);
        proof {
            assert(group_records_view(self.groups@) =~= recs.update(
                gi as int,
                GroupRecordV {
                    group: GroupV { state: GroupState::Active, ..recs[gi as int].group },
                    ..recs[gi as int]
                },
            ));
            if groups_wf(recs) {
                assert forall|i: int|
                    0 <= i < group_records_view(self.groups@).len() implies ((
                #[trigger] group_records_view(self.groups@)[i]).group_type is DirectMessage
                    ==> group_records_view(self.groups@)[i].members.len() == 2) by {
                    if i != gi as int {
                        assert(group_records_view(self.groups@)[i] == recs[i]);
                    }
                }
            }
        }
        Ok(())
    }

    /// Runs the structural checks of a read-only group query.
    fn group_query_gate(&self, pubkey: &String, group_id: &String) -> (r: Result<
        usize,
        WhitenoiseError,
    >)
        ensures
            ({
                let ok = valid_pubkey(pubkey@) && hex_valid(group_id@) && self.account_exists(
                    pubkey@,
                ) && self.group_index(group_id@) != -1;
                &&& (r is Ok <==> ok)
                &&& (r is Ok ==> r.unwrap() < self.groups@.len() && self.group_index(group_id@)
                    == r.unwrap() as int)
                &&& (!valid_pubkey(pubkey@) ==> r == Result::<usize, WhitenoiseError>::Err(
                    WhitenoiseError::InvalidPublicKey,
                ))
                &&& (valid_pubkey(pubkey@) && !hex_valid(group_id@) ==> r == Result::<
                    usize,
                    WhitenoiseError,
                >::Err(WhitenoiseError::InvalidEncoding))
                &&& (valid_pubkey(pubkey@) && hex_valid(group_id@) && !self.account_exists(pubkey@)
                    ==> r == Result::<usize, WhitenoiseError>::Err(
                    WhitenoiseError::AccountNotFound,
                ))
                &&& (valid_pubkey(pubkey@) && hex_valid(group_id@) && self.account_exists(pubkey@)
                    && self.group_index(group_id@) == -1 ==> r == Result::<
                    usize,
                    WhitenoiseError,
                >::Err(WhitenoiseError::GroupNotFound))
            }),
    {
        if !check_pubkey(pubkey.as_str()) {
            return Err(WhitenoiseError::InvalidPublicKey);
        }
        if hex_decode(group_id.as_str()).is_none() {
            return Err(WhitenoiseError::InvalidEncoding);
        }
        if self.find_account(pubkey.as_str()).is_none() {
            return Err(WhitenoiseError::AccountNotFound);
        }
        match self.find_group(group_id.as_str()) {
            None => Err(WhitenoiseError::GroupNotFound),
            Some(gi) => Ok(gi),
        }
    }

    /// The members of a group, as of the locally-known epoch.
    pub fn group_members(&self, pubkey: String, group_id: String) -> (r: Result<
        Vec<String>,
        WhitenoiseError,
    >)
        ensures
            r is Ok <==> valid_pubkey(pubkey@) && hex_valid(group_id@) && self.account_exists(
                pubkey@,
            ) && self.group_index(group_id@) != -1,
            r is Ok ==> string_views(r.unwrap()@) == group_records_view(
                self.groups@,
            )[self.group_index(group_id@)].members,
    {
        let gi = match self.group_query_gate(&pubkey, &group_id) {
            Ok(gi) => gi,
            Err(e) => {
                return Err(e);
            },
        };
        proof {
            assert(group_records_view(self.groups@)[gi as int] == self.groups@[gi as int]@);
        }
        Ok(clone_string_vec(&self.groups[gi].members))
    }

    /// The admins of a group, as of the locally-known epoch.
    pub fn group_admins(&self, pubkey: String, group_id: String) -> (r: Result<
        Vec<String>,
        WhitenoiseError,
    >)
        ensures
            r is Ok <==> valid_pubkey(pubkey@) && hex_valid(group_id@) && self.account_exists(
                pubkey@,
            ) && self.group_index(group_id@) != -1,
            r is Ok ==> string_views(r.unwrap()@) == group_records_view(
                self.groups@,
            )[self.group_index(group_id@)].group.admin_pubkeys,
    {
        let gi = match self.group_query_gate(&pubkey, &group_id) {
            Ok(gi) => gi,
            Err(e) => {
                return Err(e);
            },
        };
        proof {
            assert(group_records_view(self.groups@)[gi as int] == self.groups@[gi as int]@);
        }
        Ok(clone_string_vec(&self.groups[gi].group.admin_pubkeys))
    }

    /// The kind of a group.
    pub fn get_group_information(&self, account_pubkey: String, group_id: String) -> (r: Result<
        GroupInformation,
        WhitenoiseError,
    >)
        ensures
            r is Ok <==> valid_pubkey(account_pubkey@) && hex_valid(group_id@)
                && self.account_exists(account_pubkey@) && self.group_index(group_id@) != -1,
            r is Ok ==> r.unwrap().group_type == group_records_view(
                self.groups@,
            )[self.group_index(group_id@)].group_type,
    {
        let gi = match self.group_query_gate(&account_pubkey, &group_id) {
            Ok(gi) => gi,
            Err(e) => {
                return Err(e);
            },
        };
        proof {
            assert(group_records_view(self.groups@)[gi as int] == self.groups@[gi as int]@);
        }
        Ok(GroupInformation { group_type: self.groups[gi].group_type })
    }

    /// The kind of each listed group, in order.
    pub fn get_groups_informations(&self, account_pubkey: String, group_ids: Vec<String>) -> (r:
        Result<Vec<GroupInformation>, WhitenoiseError>)
        ensures
            r is Ok <==> valid_pubkey(account_pubkey@) && self.account_exists(account_pubkey@)
                && (forall|k: int|
                0 <= k < group_ids@.len() ==> hex_valid(#[trigger] string_views(group_ids@)[k])
                    && self.group_index(string_views(group_ids@)[k]) != -1),
            r is Ok ==> r.unwrap()@.len() == group_ids@.len() && forall|k: int|
                0 <= k < group_ids@.len() ==> (#[trigger] r.unwrap()@[k]).group_type
                    == group_records_view(self.groups@)[self.group_index(
                    string_views(group_ids@)[k],
                )].group_type,
    {
        if !check_pubkey(account_pubkey.as_str()) {
            return Err(WhitenoiseError::InvalidPublicKey);
        }
        if self.find_account(account_pubkey.as_str()).is_none() {
            return Err(WhitenoiseError::AccountNotFound);
        }
        let mut out: Vec<GroupInformation> = Vec::new();
        let mut k: usize = 0;
        while k < group_ids.len()
            invariant
                k <= group_ids@.len(),
                out@.len() == k,
                forall|j: int|
                    0 <= j < k ==> hex_valid(#[trigger] string_views(group_ids@)[j])
                        && self.group_index(string_views(group_ids@)[j]) != -1,
                forall|j: int|
                    0 <= j < k ==> (#[trigger] out@[j]).group_type == group_records_view(
                        self.groups@,
                    )[self.group_index(string_views(group_ids@)[j])].group_type,
            decreases group_ids@.len() - k,
        {
            let id = &group_ids[k];
            proof {
                assert(string_views(group_ids@)[k as int] == id@);
            }
            if hex_decode(id.as_str()).is_none() {
                return Err(WhitenoiseError::InvalidEncoding);
            }
            match self.find_group(id.as_str()) {
                None => {
                    return Err(WhitenoiseError::GroupNotFound);
                },
                Some(gi) => {
                    proof {
                        assert(group_records_view(self.groups@)[gi as int] == self.groups@[gi as int]@);
                    }
                    out.push(GroupInformation { group_type: self.groups[gi].group_type });
                },
            }
            k += 1;
        }
        Ok(out)
    }

    /// The groups an account is an active member of, in stored order.
    pub fn active_groups(&self, pubkey: String) -> (r: Result<Vec<Group>, WhitenoiseError>)
        ensures
            r is Ok <==> valid_pubkey(pubkey@) && self.account_exists(pubkey@),
            !valid_pubkey(pubkey@) ==> r == Result::<Vec<Group>, WhitenoiseError>::Err(
                WhitenoiseError::InvalidPublicKey,
            ),
            valid_pubkey(pubkey@) && !self.account_exists(pubkey@) ==> r == Result::<
                Vec<Group>,
                WhitenoiseError,
            >::Err(WhitenoiseError::AccountNotFound),
            r is Ok ==> group_views(r.unwrap()@) == active_groups_of(
                group_records_view(self.groups@),
                pubkey@,
            ),
    {
        if !check_pubkey(pubkey.as_str()) {
            return Err(WhitenoiseError::InvalidPublicKey);
        }
        if self.find_account(pubkey.as_str()).is_none() {
            return Err(WhitenoiseError::AccountNotFound);
        }
        let ghost recs = group_records_view(self.groups@);
        let mut out: Vec<Group> = Vec::new();
        let mut i: usize = 0;
        proof {
            reveal(Seq::filter);
            assert(recs.take(0) =~= Seq::<GroupRecordV>::empty());
            assert(group_views(out@) =~= active_groups_of(recs.take(0), pubkey@));
        }
        while i < self.groups.len()
            invariant
                i <= self.groups@.len(),
                recs == group_records_view(self.groups@),
                group_views(out@) == active_groups_of(recs.take(i as int), pubkey@),
            decreases self.groups@.len() - i,
        {
            let ghost o0 = out@;
            let rec = &self.groups[i];
            proof {
                assert(recs.take(i as int + 1) =~= recs.take(i as int).push(rec@));
                lemma_active_groups_push(recs.take(i as int), pubkey@, rec@);
            }
            if matches!(rec.group.state, GroupState::Active) && string_vec_contains(
                &rec.members,
                pubkey.as_str(),
            ) {
                out.push(rec.group.clone());
                proof {
                    assert(group_views(out@) =~= group_views(o0).push(rec@.group));
                    assert(group_views(out@) =~= active_groups_of(
                        recs.take(i as int + 1),
                        pubkey@,
                    ));
                }
            } else {
                proof {
                    assert(group_views(out@) =~= active_groups_of(
                        recs.take(i as int + 1),
                        pubkey@,
                    ));
                }
            }
            i += 1;
        }
        proof {
            assert(recs.take(self.groups@.len() as int) =~= recs);
        }
        Ok(out)
    }

    /// Applies a partial update to a group's data: set fields replace,
    /// unset fields stay, malformed relay URLs and admin keys are silently
    /// dropped from their new value, and the epoch advances by one.
    /// Requires an admin actor; an inactive group rejects the update.
    pub fn update_group_data(
        &mut self,
        account_pubkey: String,
        group_id: String,
        group_data: FlutterGroupDataUpdate,
    ) -> (r: Result<(), WhitenoiseError>)
        ensures
            ({
                let gi = old(self).group_index(group_id@);
                let recs = group_records_view(old(self).groups@);
                let structural_ok = valid_pubkey(account_pubkey@) && hex_valid(group_id@) && old(
                    self,
                ).account_exists(account_pubkey@) && gi != -1;
                let allowed = structural_ok && !(recs[gi].group.state is Inactive)
                    && recs[gi].group.admin_pubkeys.contains(account_pubkey@);
                &&& (r is Ok <==> allowed && recs[gi].group.epoch < u64::MAX)
                &&& (structural_ok && recs[gi].group.state is Inactive ==> r == Result::<
                    (),
                    WhitenoiseError,
                >::Err(WhitenoiseError::GroupNotActive))
                &&& (structural_ok && !(recs[gi].group.state is Inactive)
                    && !recs[gi].group.admin_pubkeys.contains(account_pubkey@) ==> r == Result::<
                    (),
                    WhitenoiseError,
                >::Err(WhitenoiseError::NotAdmin))
                &&& (r is Err ==> *final(self) == *old(self))
                &&& (r is Ok ==> {
                    &&& group_records_view(final(self).groups@) == recs.update(
                        gi,
                        updated_record(recs[gi], group_data@),
                    )
                    &&& final(self).accounts == old(self).accounts
                    &&& final(self).users == old(self).users
                    &&& final(self).relays == old(self).relays
                    &&& final(self).key_packages == old(self).key_packages
                    &&& final(self).follows == old(self).follows
                    &&& final(self).welcomes == old(self).welcomes
                    &&& final(self).messages == old(self).messages
                &&& final(self).relay_statuses == old(self).relay_statuses
                &&& final(self).config == old(self).config
                    &&& final(self).relay_statuses == old(self).relay_statuses
                    &&& final(self).config == old(self).config
                    &&& final(self).next_id == old(self).next_id
                })
            }),
            groups_wf(group_records_view(old(self).groups@)) ==> groups_wf(
                group_records_view(final(self).groups@),
            ),
    {
        let gi = match self.group_query_gate(&account_pubkey, &group_id) {
            Ok(gi) => gi,
            Err(e) => {
                return Err(e);
            },
        };
        let ghost recs = group_records_view(self.groups@);
        proof {
            assert(recs[gi as int] == self.groups@[gi as int]@);
        }
        if matches!(self.groups[gi].group.state, GroupState::Inactive) {
            return Err(WhitenoiseError::GroupNotActive);
        }
        if !string_vec_contains(&self.groups[gi].group.admin_pubkeys, account_pubkey.as_str()) {
            return Err(WhitenoiseError::NotAdmin);
        }
        if self.groups[gi].group.epoch == u64::MAX {
            return Err(WhitenoiseError::Other { message: "epoch space exhausted".to_owned() });
        }
        let rec = &self.groups[gi];
        let name = match &group_data.name {
            Some(n) => n.clone(),
            None => rec.group.name.clone(),
        };
        let description = match &group_data.description {
            Some(d) => d.clone(),
            None => rec.group.description.clone(),
        };
        let image_key = match group_data.image_key {
            Some(k) => Some(k),
            None => rec.group.image_key,
        };
        let image_hash = match group_data.image_hash {
            Some(h) => Some(h),
            None => rec.group.image_hash,
        };
        let admins = match &group_data.admins {
            Some(a) => self.keep_valid_keys(a),
            None => clone_string_vec(&rec.group.admin_pubkeys),
        };
        let relays = match &group_data.relays {
            Some(u) => self.keep_valid_urls(u),
            None => clone_string_vec(&rec.relays),
        };
        let group = Group {
            mls_group_id: rec.group.mls_group_id.clone(),
            nostr_group_id: rec.group.nostr_group_id.clone(),
            name,
            description,
            image_hash,
            image_key,
            admin_pubkeys: admins,
            last_message_id: crate::metadata::clone_opt_string(&rec.group.last_message_id),
            last_message_at: rec.group.last_message_at,
            epoch: rec.group.epoch + 1,
            state: rec.group.state,
        };
        let group_type = rec.group_type;
        let members = clone_string_vec(&rec.members);
        let newrec = GroupRecord { group, group_type, members, relays };
        proof {
            assert(newrec@ == updated_record(recs[gi as int], group_data@));
        }
        self.groups.set(gi, newrec);
        proof {
            assert(group_records_view(self.groups@) =~= recs.update(
                gi as int,
                updated_record(recs[gi as int], group_data@),
            ));
            if groups_wf(recs) {
                assert forall|i: int|
                    0 <= i < group_records_view(self.groups@).len() implies ((
                #[trigger] group_records_view(self.groups@)[i]).group_type is DirectMessage
                    ==> group_records_view(self.groups@)[i].members.len() == 2) by {
                    if i != gi as int {
                        assert(group_records_view(self.groups@)[i] == recs[i]);
                    }
                }
            }
        }
        Ok(())
    }
}

/// The views of a list of groups.
pub open spec fn group_views(s: Seq<Group>) -> Seq<GroupV> {
    s.map_values(|g: Group| g@)
}

/// The groups a key is an active member of, in stored order.
pub open spec fn active_groups_of(recs: Seq<GroupRecordV>, pk: Seq<char>) -> Seq<GroupV> {
    recs.filter(|rec: GroupRecordV| rec.group.state is Active && rec.members.contains(pk))
        .map_values(|rec: GroupRecordV| rec.group)
}

/// Extending the records extends one key's active groups accordingly.
proof fn lemma_active_groups_push(recs: Seq<GroupRecordV>, pk: Seq<char>, x: GroupRecordV)
    ensures
        active_groups_of(recs.push(x), pk) == if x.group.state is Active && x.members.contains(
            pk,
        ) {
            active_groups_of(recs, pk).push(x.group)
        } else {
            active_groups_of(recs, pk)
        },
{
    reveal(Seq::filter);
    assert(recs.push(x).drop_last() =~= recs);
    if x.group.state is Active && x.members.contains(pk) {
        assert(active_groups_of(recs.push(x), pk) =~= active_groups_of(recs, pk).push(x.group));
    } else {
        assert(active_groups_of(recs.push(x), pk) =~= active_groups_of(recs, pk));
    }
}

impl Group {
    /// The kind of this group, read from the session.
    pub fn group_type(&self, w: &Whitenoise, account_pubkey: String) -> (r: Result<
        GroupType,
        WhitenoiseError,
    >)
        ensures
            r is Ok <==> valid_pubkey(account_pubkey@) && hex_valid(self.mls_group_id@)
                && w.account_exists(account_pubkey@) && w.group_index(self.mls_group_id@) != -1,
            r is Ok ==> r.unwrap() == group_records_view(w.groups@)[w.group_index(
                self.mls_group_id@,
            )].group_type,
    {
        match w.get_group_information(account_pubkey, self.mls_group_id.clone()) {
            Ok(info) => Ok(info.group_type),
            Err(e) => Err(e),
        }
    }

    /// Whether this group is a direct-message group.
    pub fn is_direct_message_type(&self, w: &Whitenoise, account_pubkey: String) -> (r: Result<
        bool,
        WhitenoiseError,
    >)
        ensures
            r is Ok <==> valid_pubkey(account_pubkey@) && hex_valid(self.mls_group_id@)
                && w.account_exists(account_pubkey@) && w.group_index(self.mls_group_id@) != -1,
            r is Ok ==> r.unwrap() == (group_records_view(w.groups@)[w.group_index(
                self.mls_group_id@,
            )].group_type is DirectMessage),
    {
        match self.group_type(w, account_pubkey) {
            Ok(gt) => Ok(matches!(gt, GroupType::DirectMessage)),
            Err(e) => Err(e),
        }
    }

    /// Whether this group is an ordinary group.
    pub fn is_group_type(&self, w: &Whitenoise, account_pubkey: String) -> (r: Result<
        bool,
        WhitenoiseError,
    >)
        ensures
            r is Ok <==> valid_pubkey(account_pubkey@) && hex_valid(self.mls_group_id@)
                && w.account_exists(account_pubkey@) && w.group_index(self.mls_group_id@) != -1,
            r is Ok ==> r.unwrap() == (group_records_view(w.groups@)[w.group_index(
                self.mls_group_id@,
            )].group_type is Group),
    {
        match self.group_type(w, account_pubkey) {
            Ok(gt) => Ok(matches!(gt, GroupType::Group)),
            Err(e) => Err(e),
        }
    }
}

/// Epoch monotonicity: every accepted membership or configuration change
/// advances a group record's epoch by exactly one, so any sequence of
/// accepted operations yields a strictly increasing epoch sequence. Stated
/// here over the record transitions the operations are specified by; the
/// composition of two accepted batches advances the epoch by exactly two.
pub proof fn lemma_epoch_strictly_increasing(
    rec: GroupRecordV,
    keys1: Seq<Seq<char>>,
    keys2: Seq<Seq<char>>,
    u: FlutterGroupDataUpdateV,
)
    requires
        rec.group.epoch + 2 <= u64::MAX,
    ensures
        added_members_record(rec, keys1).group.epoch == rec.group.epoch + 1,
        removed_members_record(rec, keys1).group.epoch == rec.group.epoch + 1,
        updated_record(rec, u).group.epoch == rec.group.epoch + 1,
        removed_members_record(added_members_record(rec, keys1), keys2).group.epoch
            == rec.group.epoch + 2,
        added_members_record(added_members_record(rec, keys1), keys2).group.epoch
            == rec.group.epoch + 2,
{
}

/// A direct-message shape yields exactly two initial members.
proof fn lemma_initial_members_dm(creator: Seq<char>, members: Seq<Seq<char>>, gt: GroupType)
    requires
        dm_shape_ok(gt, creator, members),
    ensures
        gt is DirectMessage ==> initial_members(creator, members).len() == 2,
{
    if gt is DirectMessage {
        assert(members.drop_last() =~= Seq::<Seq<char>>::empty());
        assert(append_unique(seq![creator], Seq::<Seq<char>>::empty()) == seq![creator]);
        assert(members.last() == members[0]);
        assert(!seq![creator].contains(members[0])) by {
            if seq![creator].contains(members[0]) {
                let j = choose|j: int|
                    0 <= j < seq![creator].len() && seq![creator][j] == members[0];
                assert(seq![creator][0] == creator);
            }
        }
        assert(initial_members(creator, members) == seq![creator].push(members[0]));
    }
}

} // verus!
