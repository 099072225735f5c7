//! The user directory: local users and their linked provider
//! identities.
//!
//! One row per `(provider, provider_user_id)` pair is the core
//! invariant: a login for an already-linked identity updates the
//! existing rows and never creates new ones. The SQL statements that
//! persist the same transition are issued by the host program.

use crate::inat::InatUser;
use crate::inat::TokenWithExpiry;
use vstd::prelude::*;

verus! {

/// The single supported identity provider.
#[derive(Clone, Copy, Debug, PartialEq, Eq, Structural)]
pub enum Provider {
    Inat,
}

/// A local user row.
#[derive(Debug)]
pub struct UserRecord {
    pub id: i64,
    pub display_name: String,
    pub primary_email: Option<String>,
    pub created_at: i64,
    pub updated_at: i64,
    pub last_login_at: Option<i64>,
}

/// A linked provider identity row.
#[derive(Debug)]
pub struct IdentityRecord {
    pub user_id: i64,
    pub provider: Provider,
    pub provider_user_id: i64,
    pub access_token: String,
    pub refresh_token: Option<String>,
    pub token_expires_at: Option<i64>,
    pub last_used_at: Option<i64>,
}

/// Abstract content of a user row.
pub ghost struct UserModel {
    pub display_name: Seq<char>,
    pub primary_email: Option<Seq<char>>,
    pub created_at: i64,
    pub updated_at: i64,
    pub last_login_at: Option<i64>,
}

/// Abstract content of an identity row.
pub ghost struct IdentityModel {
    pub user_id: int,
    pub access_token: Seq<char>,
    pub refresh_token: Option<Seq<char>>,
    pub token_expires_at: Option<i64>,
    pub last_used_at: Option<i64>,
}

/// Abstract content of the directory: users keyed by id, identities
/// keyed by provider user id, and the next id the database would
/// assign.
#[verifier::ext_equal]
pub ghost struct DirectoryModel {
    pub users: Map<int, UserModel>,
    pub identities: Map<int, IdentityModel>,
    pub next_user_id: int,
}

pub open spec fn user_model_of(u: UserRecord) -> UserModel {
    UserModel {
        display_name: u.display_name@,
        primary_email: u.primary_email.deep_view(),
        created_at: u.created_at,
        updated_at: u.updated_at,
        last_login_at: u.last_login_at,
    }
}

pub open spec fn identity_model_of(r: IdentityRecord) -> IdentityModel {
    IdentityModel {
        user_id: r.user_id as int,
        access_token: r.access_token@,
        refresh_token: r.refresh_token.deep_view(),
        token_expires_at: r.token_expires_at,
        last_used_at: r.last_used_at,
    }
}

/// The map denoted by a sequence of user rows, keyed by id.
pub open spec fn users_map_of(s: Seq<UserRecord>) -> Map<int, UserModel>
    decreases s.len(),
{
    if s.len() == 0 {
        Map::empty()
    } else {
        users_map_of(s.drop_last()).insert(s.last().id as int, user_model_of(s.last()))
    }
}

/// The map denoted by a sequence of identity rows, keyed by provider
/// user id.
pub open spec fn identities_map_of(s: Seq<IdentityRecord>) -> Map<int, IdentityModel>
    decreases s.len(),
{
    if s.len() == 0 {
        Map::empty()
    } else {
        identities_map_of(s.drop_last()).insert(
            s.last().provider_user_id as int,
            identity_model_of(s.last()),
        )
    }
}

pub open spec fn user_ids_unique(s: Seq<UserRecord>) -> bool {
    forall|i: int, j: int| 0 <= i < j < s.len() ==> s[i].id != s[j].id
}

pub open spec fn identity_keys_unique(s: Seq<IdentityRecord>) -> bool {
    forall|i: int, j: int| 0 <= i < j < s.len() ==> s[i].provider_user_id != s[j].provider_user_id
}

proof fn lemma_users_map_contains(s: Seq<UserRecord>, k: int)
    ensures
        users_map_of(s).contains_key(k) <==> exists|i: int| 0 <= i < s.len() && s[i].id == k,
    decreases s.len(),
{
    if s.len() > 0 {
        lemma_users_map_contains(s.drop_last(), k);
        if users_map_of(s).contains_key(k) {
            if s.last().id == k {
                assert(s[s.len() - 1].id == k);
            } else {
                let i = choose|i: int| 0 <= i < s.drop_last().len() && s.drop_last()[i].id == k;
                assert(s[i].id == k);
            }
        }
        if exists|i: int| 0 <= i < s.len() && s[i].id == k {
            let i = choose|i: int| 0 <= i < s.len() && s[i].id == k;
            if i < s.len() - 1 {
                assert(s.drop_last()[i].id == k);
            }
        }
    }
}

proof fn lemma_users_map_index(s: Seq<UserRecord>, i: int)
    requires
        user_ids_unique(s),
        0 <= i < s.len(),
    ensures
        users_map_of(s).contains_key(s[i].id as int),
        users_map_of(s)[s[i].id as int] == user_model_of(s[i]),
    decreases s.len(),
{
    if i == s.len() - 1 {
    } else {
        lemma_users_map_index(s.drop_last(), i);
        assert(s.drop_last()[i] == s[i]);
        assert(s[i].id != s.last().id);
    }
}

proof fn lemma_users_map_update(s: Seq<UserRecord>, i: int, r: UserRecord)
    requires
        user_ids_unique(s),
        0 <= i < s.len(),
        r.id == s[i].id,
    ensures
        users_map_of(s.update(i, r)) =~= users_map_of(s).insert(r.id as int, user_model_of(r)),
        user_ids_unique(s.update(i, r)),
    decreases s.len(),
{
    assert(user_ids_unique(s.update(i, r)));
    if i == s.len() - 1 {
        assert(s.update(i, r).drop_last() =~= s.drop_last());
        assert(s.update(i, r).last() == r);
    } else {
        lemma_users_map_update(s.drop_last(), i, r);
        assert(s.update(i, r).drop_last() =~= s.drop_last().update(i, r));
        assert(s.update(i, r).last() == s.last());
        assert(s[i].id != s.last().id);
    }
}

proof fn lemma_identities_map_contains(s: Seq<IdentityRecord>, k: int)
    ensures
        identities_map_of(s).contains_key(k) <==> exists|i: int|
            0 <= i < s.len() && s[i].provider_user_id == k,
    decreases s.len(),
{
    if s.len() > 0 {
        lemma_identities_map_contains(s.drop_last(), k);
        if identities_map_of(s).contains_key(k) {
            if s.last().provider_user_id == k {
                assert(s[s.len() - 1].provider_user_id == k);
            } else {
                let i = choose|i: int|
                    0 <= i < s.drop_last().len() && s.drop_last()[i].provider_user_id == k;
                assert(s[i].provider_user_id == k);
            }
        }
        if exists|i: int| 0 <= i < s.len() && s[i].provider_user_id == k {
            let i = choose|i: int| 0 <= i < s.len() && s[i].provider_user_id == k;
            if i < s.len() - 1 {
                assert(s.drop_last()[i].provider_user_id == k);
            }
        }
    }
}

proof fn lemma_identities_map_index(s: Seq<IdentityRecord>, i: int)
    requires
        identity_keys_unique(s),
        0 <= i < s.len(),
    ensures
        identities_map_of(s).contains_key(s[i].provider_user_id as int),
        identities_map_of(s)[s[i].provider_user_id as int] == identity_model_of(s[i]),
    decreases s.len(),
{
    if i == s.len() - 1 {
    } else {
        lemma_identities_map_index(s.drop_last(), i);
        assert(s.drop_last()[i] == s[i]);
        assert(s[i].provider_user_id != s.last().provider_user_id);
    }
}

proof fn lemma_identities_map_update(s: Seq<IdentityRecord>, i: int, r: IdentityRecord)
    requires
        identity_keys_unique(s),
        0 <= i < s.len(),
        r.provider_user_id == s[i].provider_user_id,
    ensures
        identities_map_of(s.update(i, r)) =~= identities_map_of(s).insert(
            r.provider_user_id as int,
            identity_model_of(r),
        ),
        identity_keys_unique(s.update(i, r)),
    decreases s.len(),
{
    assert(identity_keys_unique(s.update(i, r)));
    if i == s.len() - 1 {
        assert(s.update(i, r).drop_last() =~= s.drop_last());
        assert(s.update(i, r).last() == r);
    } else {
        lemma_identities_map_update(s.drop_last(), i, r);
        assert(s.update(i, r).drop_last() =~= s.drop_last().update(i, r));
        assert(s.update(i, r).last() == s.last());
        assert(s[i].provider_user_id != s.last().provider_user_id);
    }
}

proof fn lemma_users_map_len(s: Seq<UserRecord>)
    requires
        user_ids_unique(s),
    ensures
        users_map_of(s).dom().finite(),
        users_map_of(s).dom().len() == s.len(),
    decreases s.len(),
{
    if s.len() > 0 {
        lemma_users_map_len(s.drop_last());
        lemma_users_map_contains(s.drop_last(), s.last().id as int);
        assert(forall|i: int|
            0 <= i < s.drop_last().len() ==> s.drop_last()[i].id != s.last().id);
    }
}

proof fn lemma_identities_map_len(s: Seq<IdentityRecord>)
    requires
        identity_keys_unique(s),
    ensures
        identities_map_of(s).dom().finite(),
        identities_map_of(s).dom().len() == s.len(),
    decreases s.len(),
{
    if s.len() > 0 {
        lemma_identities_map_len(s.drop_last());
        lemma_identities_map_contains(s.drop_last(), s.last().provider_user_id as int);
        assert(forall|i: int|
            0 <= i < s.drop_last().len() ==> s.drop_last()[i].provider_user_id
                != s.last().provider_user_id);
    }
}

/// The display name a profile denotes: the profile's name, falling back
/// to the login handle.
pub open spec fn spec_display_name(profile: InatUser) -> Seq<char> {
    match profile.name {
        Some(n) => n@,
        None => profile.login@,
    }
}

/// The directory after a login with `profile` and `token` at `now`, and
/// the id of the linked user.
///
/// An already-linked identity refreshes `last_used_at` and the user's
/// display name and login instants; an unknown one creates one user row
/// and one identity row linking to it.
pub open spec fn spec_upsert_inat_user(
    m: DirectoryModel,
    profile: InatUser,
    token: TokenWithExpiry,
    now: i64,
) -> (DirectoryModel, int) {
    let puid = profile.id as int;
    if m.identities.contains_key(puid) {
        let ident = m.identities[puid];
        let uid = ident.user_id;
        let user = m.users[uid];
        (
            DirectoryModel {
                users: m.users.insert(
                    uid,
                    UserModel {
                        display_name: spec_display_name(profile),
                        primary_email: user.primary_email,
                        created_at: user.created_at,
                        updated_at: now,
                        last_login_at: Some(now),
                    },
                ),
                identities: m.identities.insert(
                    puid,
                    IdentityModel {
                        user_id: ident.user_id,
                        access_token: ident.access_token,
                        refresh_token: ident.refresh_token,
                        token_expires_at: ident.token_expires_at,
                        last_used_at: Some(now),
                    },
                ),
                next_user_id: m.next_user_id,
            },
            uid,
        )
    } else {
        let uid = m.next_user_id;
        (
            DirectoryModel {
                users: m.users.insert(
                    uid,
                    UserModel {
                        display_name: spec_display_name(profile),
                        primary_email: None,
                        created_at: now,
                        updated_at: now,
                        last_login_at: None,
                    },
                ),
                identities: m.identities.insert(
                    puid,
                    IdentityModel {
                        user_id: uid,
                        access_token: token.access_token@,
                        refresh_token: token.refresh_token.deep_view(),
                        token_expires_at: token.expires_at,
                        last_used_at: None,
                    },
                ),
                next_user_id: uid + 1,
            },
            uid,
        )
    }
}

/// In-memory realization of the directory.
pub struct UserRepo {
    users: Vec<UserRecord>,
    identities: Vec<IdentityRecord>,
    next_user_id: i64,
}

impl View for UserRepo {
    type V = DirectoryModel;

    closed spec fn view(&self) -> DirectoryModel {
        DirectoryModel {
            users: users_map_of(self.users@),
            identities: identities_map_of(self.identities@),
            next_user_id: self.next_user_id as int,
        }
    }
}

impl UserRepo {
    /// Ids and identity keys are pairwise distinct, ids stay below the
    /// next id to be assigned, and every identity links to a user that
    /// exists.
    pub closed spec fn wf(&self) -> bool {
        &&& user_ids_unique(self.users@)
        &&& identity_keys_unique(self.identities@)
        &&& forall|i: int|
            0 <= i < self.users@.len() ==> (#[trigger] self.users@[i]).id < self.next_user_id
        &&& forall|i: int|
            0 <= i < self.identities@.len() ==> users_map_of(self.users@).contains_key(
                (#[trigger] self.identities@[i]).user_id as int,
            )
    }

    /// An empty directory; the database would assign 1 to the first
    /// user.
    pub fn new() -> (repo: Self)
        ensures
            repo.wf(),
            repo@.users == Map::<int, UserModel>::empty(),
            repo@.identities == Map::<int, IdentityModel>::empty(),
            repo@.next_user_id == 1,
    {
        UserRepo { users: Vec::new(), identities: Vec::new(), next_user_id: 1 }
    }

    /// The id the database would assign to the next new user.
    pub fn next_id_value(&self) -> (n: i64)
        ensures
            n as int == self@.next_user_id,
    {
        self.next_user_id
    }

    /// How many user rows exist.
    pub fn user_count(&self) -> (n: usize)
        requires
            self.wf(),
        ensures
            n == self@.users.dom().len(),
    {
        proof {
            lemma_users_map_len(self.users@);
        }
        self.users.len()
    }

    /// How many identity rows exist.
    pub fn identity_count(&self) -> (n: usize)
        requires
            self.wf(),
        ensures
            n == self@.identities.dom().len(),
    {
        proof {
            lemma_identities_map_len(self.identities@);
        }
        self.identities.len()
    }

    /// The user row with the given id, if any.
    pub fn find_user(&self, user_id: i64) -> (r: Option<UserRecord>)
        requires
            self.wf(),
        ensures
            match r {
                Some(u) => self@.users.contains_key(user_id as int) && u.id == user_id
                    && user_model_of(u) == self@.users[user_id as int],
                None => !self@.users.contains_key(user_id as int),
            },
    {
        let n = self.users.len();
        let mut i: usize = 0;
        while i < n
            invariant
                i <= n,
                n == self.users@.len(),
                self.wf(),
                forall|j: int| 0 <= j < i ==> self.users@[j].id != user_id,
            decreases n - i,
        {
            if self.users[i].id == user_id {
                proof {
                    lemma_users_map_index(self.users@, i as int);
                }
                let u = &self.users[i];
                return Some(
                    UserRecord {
                        id: u.id,
                        display_name: u.display_name.clone(),
                        primary_email: match &u.primary_email {
                            Some(e) => Some(e.clone()),
                            None => None,
                        },
                        created_at: u.created_at,
                        updated_at: u.updated_at,
                        last_login_at: u.last_login_at,
                    },
                );
            }
            i = i + 1;
        }
        proof {
            lemma_users_map_contains(self.users@, user_id as int);
        }
        None
    }

    /// The position of the identity row for `puid`, if one exists.
    fn find_identity_index(&self, puid: i64) -> (r: Option<usize>)
        ensures
            match r {
                Some(i) => i < self.identities@.len() && self.identities@[i as int].provider_user_id
                    == puid,
                None => forall|j: int|
                    0 <= j < self.identities@.len() ==> self.identities@[j].provider_user_id
                        != puid,
            },
    {
        let n = self.identities.len();
        let mut i: usize = 0;
        while i < n
            invariant
                i <= n,
                n == self.identities@.len(),
                forall|j: int| 0 <= j < i ==> self.identities@[j].provider_user_id != puid,
            decreases n - i,
        {
            if self.identities[i].provider_user_id == puid {
                return Some(i);
            }
            i = i + 1;
        }
        None
    }

    /// The position of the user row with id `uid`, if one exists.
    fn find_user_index(&self, uid: i64) -> (r: Option<usize>)
        ensures
            match r {
                Some(i) => i < self.users@.len() && self.users@[i as int].id == uid,
                None => forall|j: int| 0 <= j < self.users@.len() ==> self.users@[j].id != uid,
            },
    {
        let n = self.users.len();
        let mut i: usize = 0;
        while i < n
            invariant
                i <= n,
                n == self.users@.len(),
                forall|j: int| 0 <= j < i ==> self.users@[j].id != uid,
            decreases n - i,
        {
            if self.users[i].id == uid {
                return Some(i);
            }
            i = i + 1;
        }
        None
    }

    /// Link a provider login to a local user: refresh the existing
    /// rows when the identity is known, create one user row and one
    /// identity row when it is not, and hand back the user's id.
    pub fn upsert_inat_user(
        &mut self,
        inat_user: &InatUser,
        token: &TokenWithExpiry,
        now: i64,
    ) -> (user_id: i64)
        requires
            old(self).wf(),
            old(self)@.next_user_id < i64::MAX,
        ensures
            final(self).wf(),
            final(self)@ == spec_upsert_inat_user(old(self)@, *inat_user, *token, now).0,
            user_id as int == spec_upsert_inat_user(old(self)@, *inat_user, *token, now).1,
    {
        let display_name = match &inat_user.name {
            Some(n) => n.clone(),
            None => inat_user.login.clone(),
        };
        let puid = inat_user.id;
        let ghost users0 = self.users@;
        let ghost identities0 = self.identities@;
        match self.find_identity_index(puid) {
            Some(i) => {
                proof {
                    lemma_identities_map_index(identities0, i as int);
                }
                let uid = self.identities[i].user_id;
                let refreshed = IdentityRecord {
                    user_id: uid,
                    provider: self.identities[i].provider,
                    provider_user_id: puid,
                    access_token: self.identities[i].access_token.clone(),
                    refresh_token: match &self.identities[i].refresh_token {
                        Some(t) => Some(t.clone()),
                        None => None,
                    },
                    token_expires_at: self.identities[i].token_expires_at,
                    last_used_at: Some(now),
                };
                proof {
                    lemma_identities_map_update(identities0, i as int, refreshed);
                }
                self.identities[i] = refreshed;
                let j = match self.find_user_index(uid) {
                    Some(j) => j,
                    None => {
                        proof {
                            lemma_users_map_contains(users0, uid as int);
                            assert(false);
                        }
                        0
                    },
                };
                proof {
                    lemma_users_map_index(users0, j as int);
                }
                let updated = UserRecord {
                    id: uid,
                    display_name,
                    primary_email: match &self.users[j].primary_email {
                        Some(e) => Some(e.clone()),
                        None => None,
                    },
                    created_at: self.users[j].created_at,
                    updated_at: now,
                    last_login_at: Some(now),
                };
                proof {
                    lemma_users_map_update(users0, j as int, updated);
                }
                self.users[j] = updated;
                proof {
                    assert forall|k: int|
                        0 <= k < self.users@.len() implies (#[trigger] self.users@[k]).id
                        < self.next_user_id by {
                        if k != j {
                            assert(self.users@[k] == users0[k]);
                        }
                    }
                    assert forall|k: int|
                        0 <= k < self.identities@.len() implies users_map_of(
                        self.users@,
                    ).contains_key((#[trigger] self.identities@[k]).user_id as int) by {
                        if k != i {
                            assert(self.identities@[k] == identities0[k]);
                        }
                        assert(users_map_of(users0).contains_key(
                            self.identities@[k].user_id as int,
                        ));
                    }
                    assert(self@ =~= spec_upsert_inat_user(old(self)@, *inat_user, *token, now).0);
                }
                uid
            },
            None => {
                proof {
                    lemma_identities_map_contains(identities0, puid as int);
                }
                let uid = self.next_user_id;
                let new_user = UserRecord {
                    id: uid,
                    display_name,
                    primary_email: None,
                    created_at: now,
                    updated_at: now,
                    last_login_at: None,
                };
                let new_identity = IdentityRecord {
                    user_id: uid,
                    provider: Provider::Inat,
                    provider_user_id: puid,
                    access_token: token.access_token.clone(),
                    refresh_token: match &token.refresh_token {
                        Some(t) => Some(t.clone()),
                        None => None,
                    },
                    token_expires_at: token.expires_at,
                    last_used_at: None,
                };
                self.users.push(new_user);
                self.identities.push(new_identity);
                self.next_user_id = uid + 1;
                proof {
                    assert(self.users@.drop_last() =~= users0);
                    assert(self.identities@.drop_last() =~= identities0);
                    assert(user_ids_unique(self.users@)) by {
                        assert forall|x: int, y: int|
                            0 <= x < y < self.users@.len() implies self.users@[x].id
                            != self.users@[y].id by {
                            assert(self.users@[x] == users0[x]);
                            if y < self.users@.len() - 1 {
                                assert(self.users@[y] == users0[y]);
                            }
                        }
                    }
                    assert(identity_keys_unique(self.identities@)) by {
                        assert forall|x: int, y: int|
                            0 <= x < y < self.identities@.len() implies self.identities@[x].provider_user_id != self.identities@[y].provider_user_id by {
                            assert(self.identities@[x] == identities0[x]);
                            if y < self.identities@.len() - 1 {
                                assert(self.identities@[y] == identities0[y]);
                            }
                        }
                    }
                    assert forall|k: int|
                        0 <= k < self.identities@.len() implies users_map_of(
                        self.users@,
                    ).contains_key((#[trigger] self.identities@[k]).user_id as int) by {
                        if k < self.identities@.len() - 1 {
                            assert(self.identities@[k] == identities0[k]);
                            assert(users_map_of(users0).contains_key(
                                identities0[k].user_id as int,
                            ));
                        }
                    }
                    assert(self@ =~= spec_upsert_inat_user(old(self)@, *inat_user, *token, now).0);
                }
                uid
            },
        }
    }
}


/// After a login, the linked user exists: the returned id names a user
/// row, and the provider identity points at it.
pub proof fn lemma_upsert_user_exists(
    m: DirectoryModel,
    profile: InatUser,
    token: TokenWithExpiry,
    now: i64,
)
    ensures
        ({
            let r = spec_upsert_inat_user(m, profile, token, now);
            &&& r.0.users.contains_key(r.1)
            &&& r.0.identities.contains_key(profile.id as int)
            &&& r.0.identities[profile.id as int].user_id == r.1
        }),
{
}

/// Identity linking is idempotent: however often the same provider
/// identity logs in again, it resolves to the same user id and creates
/// no second user row and no second identity row.
pub proof fn lemma_repeated_login_links_once(
    m: DirectoryModel,
    profile: InatUser,
    token1: TokenWithExpiry,
    token2: TokenWithExpiry,
    now1: i64,
    now2: i64,
)
    ensures
        ({
            let r1 = spec_upsert_inat_user(m, profile, token1, now1);
            let r2 = spec_upsert_inat_user(r1.0, profile, token2, now2);
            &&& r2.1 == r1.1
            &&& r2.0.users.dom() =~= r1.0.users.dom()
            &&& r2.0.identities.dom() =~= r1.0.identities.dom()
            &&& r2.0.next_user_id == r1.0.next_user_id
        }),
{
    let r1 = spec_upsert_inat_user(m, profile, token1, now1);
    let r2 = spec_upsert_inat_user(r1.0, profile, token2, now2);
    lemma_upsert_user_exists(m, profile, token1, now1);
    assert(r1.0.identities.contains_key(profile.id as int));
    assert(r2.0.users.dom() =~= r1.0.users.dom());
    assert(r2.0.identities.dom() =~= r1.0.identities.dom());
}

} // verus!
