//! Registered authenticators and their public keys, by credential
//! identifier. Times are Unix times in microseconds.
use vstd::prelude::*;
use dashmap::DashMap;
use crate::ids::{UserId, DeviceId};
use crate::keyed::{pairs_map, keys_unique, lemma_pairs_map};
use crate::text::{hex_encode, hex_text, copy_strings};
use crate::webauthn::types::{AuthenticatorType, WebAuthnError};

verus! {

/// Metadata of a registered authenticator.
#[derive(Debug)]
pub struct CredentialMetadata {
    pub authenticator_type: AuthenticatorType,
    pub aaguid: [u8; 16],
    pub transports: Option<Vec<String>>,
    pub name: Option<String>,
    pub backup_eligible: bool,
    pub backup_state: bool,
}

impl CredentialMetadata {
    /// A copy.
    pub fn copy(&self) -> (m: CredentialMetadata)
        ensures
            m.authenticator_type == self.authenticator_type,
            m.aaguid@ == self.aaguid@,
            m.backup_eligible == self.backup_eligible,
            m.backup_state == self.backup_state,
    {
        CredentialMetadata {
            authenticator_type: self.authenticator_type,
            aaguid: self.aaguid,
            transports: match &self.transports {
                Some(t) => Some(copy_strings(t)),
                None => None,
            },
            name: match &self.name {
                Some(n) => Some(n.clone()),
                None => None,
            },
            backup_eligible: self.backup_eligible,
            backup_state: self.backup_state,
        }
    }
}

/// A registered authenticator.
#[derive(Debug)]
pub struct StoredCredential {
    pub credential_id: Vec<u8>,
    pub user_id: UserId,
    pub device_id: Option<DeviceId>,
    /// COSE-encoded public key.
    pub public_key: Vec<u8>,
    /// Signature counter last seen.
    pub sign_count: u32,
    pub metadata: CredentialMetadata,
    pub created_at: i64,
    pub last_used_at: Option<i64>,
}

/// A credential as plain values: identifier, user, device, public key,
/// signature counter, creation and last use.
pub type CredentialView = (Seq<u8>, u128, Option<u128>, Seq<u8>, u32, i64, Option<i64>);

/// The plain values of a credential.
pub open spec fn credential_view(c: StoredCredential) -> CredentialView {
    (c.credential_id@, c.user_id.0, match c.device_id { Some(d) => Some(d.0), None => None }, c.public_key@,
        c.sign_count, c.created_at, c.last_used_at)
}

impl StoredCredential {
    /// A copy.
    pub fn copy(&self) -> (c: StoredCredential)
        ensures
            c.credential_id@ == self.credential_id@,
            credential_view(c) == credential_view(*self),
    {
        StoredCredential {
            credential_id: self.credential_id.clone(),
            user_id: self.user_id,
            device_id: self.device_id,
            public_key: self.public_key.clone(),
            sign_count: self.sign_count,
            metadata: self.metadata.copy(),
            created_at: self.created_at,
            last_used_at: self.last_used_at,
        }
    }
}

/// A table of credentials.
pub type CredentialTable = DashMap<Vec<u8>, StoredCredential>;

/// What a table of credentials holds: each identifier with its credential
/// (the metadata is not part of this description).
pub uninterp spec fn credential_table(m: CredentialTable) -> Map<Seq<u8>, CredentialView>;

/// No credentials.
pub open spec fn no_credentials() -> Map<Seq<u8>, CredentialView> {
    Map::empty()
}

/// Calls `DashMap::default`: an empty table.
#[verifier::external_body]
fn table_new() -> (r: CredentialTable)
    ensures
        credential_table(r) == no_credentials(),
{
    DashMap::default()
}

/// Calls `DashMap::contains_key`.
#[verifier::external_body]
fn table_contains(m: &CredentialTable, k: &[u8]) -> (r: bool)
    ensures
        r == credential_table(*m).contains_key(k@),
{
    m.contains_key(k)
}

/// Calls `DashMap::insert`: `k` now holds `c`.
#[verifier::external_body]
fn table_insert(m: &mut CredentialTable, k: Vec<u8>, c: StoredCredential)
    ensures
        credential_table(*final(m)) == credential_table(*old(m)).insert(k@, credential_view(c)),
{
    m.insert(k, c);
}

/// Calls `DashMap::get` and copies the credential out with `StoredCredential::copy`.
#[verifier::external_body]
fn table_get(m: &CredentialTable, k: &[u8]) -> (r: Option<StoredCredential>)
    ensures
        match r {
            Some(c) => credential_table(*m).contains_key(k@) && credential_table(*m)[k@] == credential_view(c),
            None => !credential_table(*m).contains_key(k@),
        },
{
    m.get(k).map(|e| e.value().copy())
}

/// Calls `DashMap::remove`.
#[verifier::external_body]
fn table_remove(m: &mut CredentialTable, k: &[u8]) -> (r: bool)
    ensures
        credential_table(*final(m)) == credential_table(*old(m)).remove(k@),
        r == credential_table(*old(m)).contains_key(k@),
{
    m.remove(k).is_some()
}

/// The plain values of copied entries.
pub open spec fn entry_views(s: Seq<(Vec<u8>, StoredCredential)>) -> Seq<(Seq<u8>, CredentialView)> {
    s.map_values(|p: (Vec<u8>, StoredCredential)| (p.0@, credential_view(p.1)))
}

/// Calls `DashMap::iter` and copies each entry out (with
/// `StoredCredential::copy`), in the table's iteration order (which is left
/// unsaid): each identifier once, describing the table.
#[verifier::external_body]
fn table_entries(m: &CredentialTable) -> (r: Vec<(Vec<u8>, StoredCredential)>)
    ensures
        keys_unique(entry_views(r@)),
        pairs_map(entry_views(r@)) == credential_table(*m),
{
    m.iter().map(|e| (e.key().clone(), e.value().copy())).collect()
}

/// The credentials of `m` that belong to `user`.
pub open spec fn user_credentials(m: Map<Seq<u8>, CredentialView>, user: u128) -> Map<Seq<u8>, CredentialView> {
    m.restrict(m.dom().filter(|k: Seq<u8>| m[k].1 == user))
}

/// Credential store in memory.
pub struct InMemoryCredentialStore {
    credentials: CredentialTable,
}

impl InMemoryCredentialStore {
    #[verifier::type_invariant]
    spec fn keyed_by_id(&self) -> bool {
        forall|k: Seq<u8>| #[trigger] credential_table(self.credentials).contains_key(k) ==> credential_table(self.credentials)[k].0 == k
    }

    /// The credentials held, by identifier.
    pub closed spec fn held(&self) -> Map<Seq<u8>, CredentialView> {
        credential_table(self.credentials)
    }

    /// An empty store.
    pub fn new() -> (s: InMemoryCredentialStore)
        ensures
            s.held() == no_credentials(),
    {
        InMemoryCredentialStore { credentials: table_new() }
    }

    /// Registers `credential`; an identifier already registered gives
    /// `CredentialExists` (with the identifier in hexadecimal) and changes nothing.
    pub fn store(&mut self, credential: StoredCredential) -> (r: Result<(), WebAuthnError>)
        ensures
            old(self).held().contains_key(credential.credential_id@) ==> (r matches Err(WebAuthnError::CredentialExists(h))
                && h@ == hex_text(credential.credential_id@) && final(self).held() == old(self).held()),
            !old(self).held().contains_key(credential.credential_id@) ==> (r is Ok
                && final(self).held() == old(self).held().insert(credential.credential_id@, credential_view(credential))),
    {
        proof { use_type_invariant(&*self); }
        if table_contains(&self.credentials, credential.credential_id.as_slice()) {
            return Err(WebAuthnError::CredentialExists(hex_encode(credential.credential_id.as_slice())));
        }
        let key = credential.credential_id.clone();
        let mut t = table_new();
        std::mem::swap(&mut t, &mut self.credentials);
        table_insert(&mut t, key, credential);
        self.credentials = t;
        Ok(())
    }

    /// The credential `credential_id`, or `CredentialNotFound`.
    pub fn get(&self, credential_id: &[u8]) -> (r: Result<StoredCredential, WebAuthnError>)
        ensures
            self.held().contains_key(credential_id@) ==> (r matches Ok(c) && credential_view(c) == self.held()[credential_id@]
                && c.credential_id@ == credential_id@),
            !self.held().contains_key(credential_id@) ==> (r matches Err(WebAuthnError::CredentialNotFound(h))
                && h@ == hex_text(credential_id@)),
    {
        proof { use_type_invariant(self); }
        match table_get(&self.credentials, credential_id) {
            Some(c) => Ok(c),
            None => Err(WebAuthnError::CredentialNotFound(hex_encode(credential_id))),
        }
    }

    /// The credentials of `user_id` (in no particular order), each once.
    pub fn get_user_credentials(&self, user_id: &UserId) -> (r: Result<Vec<StoredCredential>, WebAuthnError>)
        ensures
            r matches Ok(v) && lists_user_credentials(v@, self.held(), user_id.0),
    {
        proof { use_type_invariant(self); }
        let all = table_entries(&self.credentials);
        let ghost ev = entry_views(all@);
        proof {
            lemma_pairs_map(ev);
            assert forall|j: int| 0 <= j < ev.len() implies #[trigger] ev[j].1.0 == ev[j].0 by {
                assert(self.held().contains_key(ev[j].0));
                assert(pairs_map(ev)[ev[j].0] == ev[j].1);
            }
        }
        let mut out: Vec<StoredCredential> = Vec::new();
        let mut i: usize = 0;
        assert(credential_entries(out@) =~= filter_user(ev.subrange(0, 0), user_id.0));
        while i < all.len()
            invariant
                i <= all@.len(),
                ev == entry_views(all@),
                forall|j: int| 0 <= j < ev.len() ==> #[trigger] ev[j].1.0 == ev[j].0,
                credential_entries(out@) == filter_user(ev.subrange(0, i as int), user_id.0),
            decreases all@.len() - i,
        {
            let ghost before = out@;
            proof {
                assert(ev.subrange(0, i + 1).drop_last() =~= ev.subrange(0, i as int));
                assert(ev[i as int] == (all@[i as int].0@, credential_view(all@[i as int].1)));
            }
            assert(ev[i as int].1.0 == ev[i as int].0);
            if all[i].1.user_id == *user_id {
                let c = all[i].1.copy();
                out.push(c);
                assert(credential_entries(out@) =~= credential_entries(before).push(ev[i as int]));
            }
            i += 1;
        }
        proof {
            assert(ev.subrange(0, ev.len() as int) =~= ev);
            lemma_filter_user(ev, user_id.0);
        }
        Ok(out)
    }

    /// Replaces the credential registered under the same identifier, or
    /// `CredentialNotFound` when there is none.
    pub fn update(&mut self, credential: StoredCredential) -> (r: Result<(), WebAuthnError>)
        ensures
            !old(self).held().contains_key(credential.credential_id@) ==> (r matches Err(WebAuthnError::CredentialNotFound(h))
                && h@ == hex_text(credential.credential_id@) && final(self).held() == old(self).held()),
            old(self).held().contains_key(credential.credential_id@) ==> (r is Ok
                && final(self).held() == old(self).held().insert(credential.credential_id@, credential_view(credential))),
    {
        proof { use_type_invariant(&*self); }
        if !table_contains(&self.credentials, credential.credential_id.as_slice()) {
            return Err(WebAuthnError::CredentialNotFound(hex_encode(credential.credential_id.as_slice())));
        }
        let key = credential.credential_id.clone();
        let mut t = table_new();
        std::mem::swap(&mut t, &mut self.credentials);
        table_insert(&mut t, key, credential);
        self.credentials = t;
        Ok(())
    }

    /// Removes the credential `credential_id`, or `CredentialNotFound`.
    pub fn delete(&mut self, credential_id: &[u8]) -> (r: Result<(), WebAuthnError>)
        ensures
            final(self).held() == old(self).held().remove(credential_id@),
            old(self).held().contains_key(credential_id@) ==> r is Ok,
            !old(self).held().contains_key(credential_id@) ==> (r matches Err(WebAuthnError::CredentialNotFound(h))
                && h@ == hex_text(credential_id@)),
    {
        proof { use_type_invariant(&*self); }
        let mut t = table_new();
        std::mem::swap(&mut t, &mut self.credentials);
        let removed = table_remove(&mut t, credential_id);
        self.credentials = t;
        if removed {
            Ok(())
        } else {
            Err(WebAuthnError::CredentialNotFound(hex_encode(credential_id)))
        }
    }

    /// Removes every credential of `user_id`; returns how many there were.
    pub fn delete_user_credentials(&mut self, user_id: &UserId) -> (r: Result<usize, WebAuthnError>)
        ensures
            final(self).held() == old(self).held().remove_keys(user_credentials(old(self).held(), user_id.0).dom()),
            r matches Ok(n) && n == user_credentials(old(self).held(), user_id.0).dom().len(),
    {
        let found = match self.get_user_credentials(user_id) {
            Ok(v) => v,
            Err(e) => {
                return Err(e);
            },
        };
        let ghost fe = credential_entries(found@);
        let ghost gone = user_credentials(old(self).held(), user_id.0).dom();
        proof {
            lemma_pairs_map(fe);
        }
        let count = found.len();
        proof { use_type_invariant(&*self); }
        let mut i: usize = 0;
        while i < found.len()
            invariant
                i <= found@.len(),
                fe == credential_entries(found@),
                keys_unique(fe),
                pairs_map(fe).dom() == gone,
                forall|k: Seq<u8>| #![auto] pairs_map(fe).contains_key(k) <==> exists|j: int| 0 <= j < fe.len() && fe[j].0 == k,
                self.held() == old(self).held().remove_keys(keys_of(fe.subrange(0, i as int))),
                forall|k: Seq<u8>| #[trigger] self.held().contains_key(k) ==> self.held()[k].0 == k,
            decreases found@.len() - i,
        {
            proof {
                assert(fe[i as int].0 == found@[i as int].credential_id@);
                assert(keys_of(fe.subrange(0, i + 1)) =~= keys_of(fe.subrange(0, i as int)).insert(fe[i as int].0)) by {
                    let t1 = fe.subrange(0, i + 1);
                    let t0 = fe.subrange(0, i as int);
                    assert forall|k: Seq<u8>| keys_of(t1).contains(k) <==> keys_of(t0).insert(fe[i as int].0).contains(k) by {
                        if keys_of(t1).contains(k) {
                            let j = choose|j: int| 0 <= j < t1.len() && t1[j].0 == k;
                            if j < i { assert(t0[j].0 == k); }
                        }
                        if keys_of(t0).contains(k) {
                            let j = choose|j: int| 0 <= j < t0.len() && t0[j].0 == k;
                            assert(t1[j].0 == k);
                        }
                        if k == fe[i as int].0 {
                            assert(t1[i as int].0 == k);
                        }
                    }
                }
            }
            let mut t = table_new();
            std::mem::swap(&mut t, &mut self.credentials);
            table_remove(&mut t, found[i].credential_id.as_slice());
            self.credentials = t;
            i += 1;
            proof {
                assert(self.held() =~= old(self).held().remove_keys(keys_of(fe.subrange(0, i as int))));
            }
        }
        proof {
            assert(fe.subrange(0, fe.len() as int) =~= fe);
            assert(keys_of(fe) =~= gone) by {
                assert forall|k: Seq<u8>| keys_of(fe).contains(k) <==> gone.contains(k) by {
                    if keys_of(fe).contains(k) {
                        let j = choose|j: int| 0 <= j < fe.len() && fe[j].0 == k;
                        assert(pairs_map(fe).contains_key(k));
                    }
                }
            }
            lemma_keys_len(fe);
        }
        Ok(count)
    }

    /// Whether a credential is registered under `credential_id`.
    pub fn credential_exists(&self, credential_id: &[u8]) -> (r: Result<bool, WebAuthnError>)
        ensures
            r matches Ok(b) && b == self.held().contains_key(credential_id@),
    {
        Ok(table_contains(&self.credentials, credential_id))
    }
}

/// The keys of a sequence of pairs.
pub open spec fn keys_of(s: Seq<(Seq<u8>, CredentialView)>) -> Set<Seq<u8>> {
    Set::new(|k: Seq<u8>| exists|j: int| 0 <= j < s.len() && s[j].0 == k)
}

proof fn lemma_keys_len(s: Seq<(Seq<u8>, CredentialView)>)
    requires
        keys_unique(s),
    ensures
        keys_of(s).finite(),
        keys_of(s).len() == s.len(),
    decreases s.len(),
{
    if s.len() == 0 {
        assert(keys_of(s) =~= Set::<Seq<u8>>::empty());
    } else {
        let d = s.drop_last();
        assert forall|i: int, j: int| 0 <= i < d.len() && 0 <= j < d.len() && i != j implies d[i].0 != d[j].0 by {
            assert(d[i] == s[i] && d[j] == s[j]);
        }
        lemma_keys_len(d);
        assert(keys_of(s) =~= keys_of(d).insert(s.last().0)) by {
            assert forall|k: Seq<u8>| keys_of(s).contains(k) <==> keys_of(d).insert(s.last().0).contains(k) by {
                if keys_of(s).contains(k) {
                    let j = choose|j: int| 0 <= j < s.len() && s[j].0 == k;
                    if j < d.len() { assert(d[j].0 == k); }
                }
                if keys_of(d).contains(k) {
                    let j = choose|j: int| 0 <= j < d.len() && d[j].0 == k;
                    assert(s[j].0 == k);
                }
                if k == s.last().0 {
                    assert(s[s.len() - 1].0 == k);
                }
            }
        }
        assert(!keys_of(d).contains(s.last().0)) by {
            if keys_of(d).contains(s.last().0) {
                let j = choose|j: int| 0 <= j < d.len() && d[j].0 == s.last().0;
                assert(s[j].0 == s[s.len() - 1].0);
            }
        }
    }
}

/// The entries of `s` that belong to `user`, in order.
pub open spec fn filter_user(s: Seq<(Seq<u8>, CredentialView)>, user: u128) -> Seq<(Seq<u8>, CredentialView)>
    decreases s.len(),
{
    if s.len() == 0 {
        s
    } else if s.last().1.1 == user {
        filter_user(s.drop_last(), user).push(s.last())
    } else {
        filter_user(s.drop_last(), user)
    }
}

proof fn lemma_filter_user(s: Seq<(Seq<u8>, CredentialView)>, user: u128)
    requires
        keys_unique(s),
    ensures
        keys_unique(filter_user(s, user)),
        pairs_map(filter_user(s, user)) == user_credentials(pairs_map(s), user),
    decreases s.len(),
{
    if s.len() == 0 {
        assert(user_credentials(pairs_map(s), user) =~= Map::<Seq<u8>, CredentialView>::empty());
    } else {
        let d = s.drop_last();
        let (k, v) = s.last();
        assert forall|i: int, j: int| 0 <= i < d.len() && 0 <= j < d.len() && i != j implies d[i].0 != d[j].0 by {
            assert(d[i] == s[i] && d[j] == s[j]);
        }
        lemma_filter_user(d, user);
        lemma_pairs_map(d);
        assert(!pairs_map(d).contains_key(k)) by {
            if pairs_map(d).contains_key(k) {
                let i = choose|i: int| 0 <= i < d.len() && d[i].0 == k;
                assert(s[i] == d[i]);
                assert(s[s.len() - 1].0 == k);
            }
        }
        let fd = filter_user(d, user);
        assert(!pairs_map(fd).contains_key(k));
        if v.1 == user {
            crate::keyed::lemma_pairs_map_push(fd, k, v);
            assert(user_credentials(pairs_map(s), user) =~= user_credentials(pairs_map(d), user).insert(k, v));
        } else {
            assert(user_credentials(pairs_map(s), user) =~= user_credentials(pairs_map(d), user));
        }
    }
}

/// The identifiers and plain values of credentials.
pub open spec fn credential_entries(s: Seq<StoredCredential>) -> Seq<(Seq<u8>, CredentialView)> {
    s.map_values(|c: StoredCredential| (c.credential_id@, credential_view(c)))
}

/// Whether `ex` lists the credentials of `user` held in `m`, each once.
pub open spec fn lists_user_credentials(ex: Seq<StoredCredential>, m: Map<Seq<u8>, CredentialView>, user: u128) -> bool {
    keys_unique(credential_entries(ex)) && pairs_map(credential_entries(ex)) == user_credentials(m, user)
}

} // verus!
