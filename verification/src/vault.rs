use crate::ident::{is_hyphenated_uuid, new_unique_id};
use crate::secret::{clone_secret, protect, secret_text, SecretString};
use crate::server::{clone_opt_string, opt_str, text_equals};
use vstd::prelude::*;

verus! {

/// The value of a credential.
pub struct CredentialView {
    pub id: Seq<char>,
    pub name: Seq<char>,
    pub username: Seq<char>,
    pub domain: Option<Seq<char>>,
    pub password: Seq<char>,
    pub description: Option<Seq<char>>,
}

/// One login credential.
#[derive(Debug, PartialEq, Eq)]
pub struct CredentialItem {
    pub id: String,
    /// Label such as "production domain admin".
    pub name: String,
    pub username: String,
    pub domain: Option<String>,
    /// The password, wiped from memory when dropped.
    pub password: SecretString,
    pub description: Option<String>,
}

impl View for CredentialItem {
    type V = CredentialView;

    open spec fn view(&self) -> CredentialView {
        CredentialView {
            id: self.id@,
            name: self.name@,
            username: self.username@,
            domain: opt_str(self.domain),
            password: secret_text(self.password),
            description: opt_str(self.description),
        }
    }
}

impl Clone for CredentialItem {
    fn clone(&self) -> (r: Self)
        ensures
            r@ == self@,
    {
        CredentialItem {
            id: self.id.clone(),
            name: self.name.clone(),
            username: self.username.clone(),
            domain: clone_opt_string(&self.domain),
            password: clone_secret(&self.password),
            description: clone_opt_string(&self.description),
        }
    }
}

impl CredentialItem {
    /// A credential with a fresh id and no domain or description.
    pub fn new(name: &str, username: &str, password: &str) -> (c: Self)
        ensures
            is_hyphenated_uuid(c.id@),
            c@.name == name@,
            c@.username == username@,
            c@.domain is None,
            c@.password == password@,
            c@.description is None,
    {
        CredentialItem {
            id: new_unique_id(),
            name: name.to_string(),
            username: username.to_string(),
            domain: None,
            password: protect(password.to_string()),
            description: None,
        }
    }
}

pub open spec fn credentials_view(s: Seq<CredentialItem>) -> Seq<CredentialView> {
    s.map_values(|c: CredentialItem| c@)
}

/// Index of the first credential with the given id.
pub open spec fn credential_index(s: Seq<CredentialView>, id: Seq<char>) -> Option<int>
    decreases s.len(),
{
    if s.len() == 0 {
        None
    } else {
        match credential_index(s.drop_last(), id) {
            Some(i) => Some(i),
            None => if s.last().id == id {
                Some(s.len() - 1)
            } else {
                None
            },
        }
    }
}

pub proof fn lemma_credential_index(s: Seq<CredentialView>, id: Seq<char>)
    ensures
        match credential_index(s, id) {
            Some(i) => 0 <= i < s.len() && s[i].id == id && forall|j: int|
                0 <= j < i ==> #[trigger] s[j].id != id,
            None => forall|j: int| 0 <= j < s.len() ==> #[trigger] s[j].id != id,
        },
    decreases s.len(),
{
    if s.len() > 0 {
        let t = s.drop_last();
        lemma_credential_index(t, id);
        assert forall|j: int| 0 <= j < t.len() implies #[trigger] s[j] == t[j] by {}
    }
}

/// The credentials keyed by id.
pub open spec fn credential_map(s: Seq<CredentialView>) -> Map<Seq<char>, CredentialView> {
    Map::new(
        |id: Seq<char>| credential_index(s, id) is Some,
        |id: Seq<char>| s[credential_index(s, id)->0],
    )
}

/// No two credentials share an id.
pub open spec fn ids_distinct(s: Seq<CredentialView>) -> bool {
    forall|i: int, j: int| 0 <= i < j < s.len() ==> #[trigger] s[i].id != #[trigger] s[j].id
}

/// The credential vault: credentials keyed by their id.
pub struct CredentialVault {
    credentials: Vec<CredentialItem>,
}

impl View for CredentialVault {
    type V = Map<Seq<char>, CredentialView>;

    closed spec fn view(&self) -> Map<Seq<char>, CredentialView> {
        credential_map(credentials_view(self.credentials@))
    }
}

impl CredentialVault {
    #[verifier::type_invariant]
    closed spec fn distinct_ids(&self) -> bool {
        ids_distinct(credentials_view(self.credentials@))
    }

    /// An empty vault.
    pub fn new() -> (v: Self)
        ensures
            v@ == Map::<Seq<char>, CredentialView>::empty(),
    {
        let v = CredentialVault { credentials: Vec::new() };
        assert(v@ =~= Map::<Seq<char>, CredentialView>::empty());
        v
    }

    /// Index of the credential with the given id.
    fn index_of(&self, id: &str) -> (r: Option<usize>)
        ensures
            match r {
                Some(i) => credential_index(credentials_view(self.credentials@), id@) == Some(
                    i as int,
                ),
                None => credential_index(credentials_view(self.credentials@), id@) is None,
            },
    {
        let ghost cv = credentials_view(self.credentials@);
        proof {
            lemma_credential_index(cv, id@);
        }
        let mut i: usize = 0;
        while i < self.credentials.len()
            invariant
                i <= self.credentials.len(),
                cv == credentials_view(self.credentials@),
                cv.len() == self.credentials@.len(),
                forall|j: int| 0 <= j < i ==> #[trigger] cv[j].id != id@,
                match credential_index(cv, id@) {
                    Some(k) => 0 <= k < cv.len() && cv[k].id == id@ && forall|j: int|
                        0 <= j < k ==> #[trigger] cv[j].id != id@,
                    None => forall|j: int| 0 <= j < cv.len() ==> #[trigger] cv[j].id != id@,
                },
            decreases self.credentials.len() - i,
        {
            assert(cv[i as int] == self.credentials@[i as int]@);
            if text_equals(self.credentials[i].id.as_str(), id) {
                assert(cv[i as int].id == id@);
                return Some(i);
            }
            i = i + 1;
        }
        None
    }

    /// Adds a credential, replacing the one with the same id if any.
    pub fn insert(&mut self, item: CredentialItem)
        ensures
            final(self)@ == old(self)@.insert(item@.id, item@),
    {
        proof {
            use_type_invariant(&*self);
        }
        let ghost cv = credentials_view(self.credentials@);
        let ghost iv = item@;
        proof {
            lemma_credential_index(cv, iv.id);
        }
        match self.index_of(item.id.as_str()) {
            Some(i) => {
                let mut list = Vec::new();
                std::mem::swap(&mut list, &mut self.credentials);
                list.set(i, item);
                proof {
                    let nv = credentials_view(list@);
                    assert(nv =~= cv.update(i as int, iv));
                    assert forall|a: int, b: int| 0 <= a < b < nv.len() implies #[trigger] nv[a].id
                        != #[trigger] nv[b].id by {
                        if a != i && b != i {
                            assert(nv[a] == cv[a] && nv[b] == cv[b]);
                        }
                    }
                    assert forall|j: int| 0 <= j < nv.len() implies #[trigger] nv[j].id == cv[j].id by {}
                    assert forall|k: Seq<char>| #[trigger] credential_index(nv, k) == credential_index(cv, k) by {
                        lemma_same_ids_same_index(nv, cv, k);
                    }
                    assert forall|k: Seq<char>| #[trigger] credential_map(nv).contains_key(k)
                        == credential_map(cv).insert(iv.id, iv).contains_key(k) && (credential_map(nv).contains_key(k) ==> credential_map(nv)[k] == credential_map(cv).insert(iv.id, iv)[k]) by {
                        lemma_credential_index(nv, k);
                        lemma_credential_index(cv, k);
                    }
                    assert(credential_map(nv) =~= credential_map(cv).insert(iv.id, iv));
                }
                self.credentials = list;
            },
            None => {
                let mut list = Vec::new();
                std::mem::swap(&mut list, &mut self.credentials);
                list.push(item);
                proof {
                    let nv = credentials_view(list@);
                    assert(nv =~= cv.push(iv));
                    assert forall|a: int, b: int| 0 <= a < b < nv.len() implies #[trigger] nv[a].id
                        != #[trigger] nv[b].id by {
                        if b < cv.len() {
                            assert(nv[a] == cv[a] && nv[b] == cv[b]);
                        }
                    }
                    assert forall|k: Seq<char>| k != iv.id implies #[trigger] credential_index(nv, k)
                        == credential_index(cv, k) by {
                        lemma_credential_index(nv, k);
                        lemma_credential_index(cv, k);
                        assert(nv.drop_last() =~= cv);
                    }
                    lemma_credential_index(nv, iv.id);
                    assert forall|k: Seq<char>| #[trigger] credential_map(nv).contains_key(k)
                        == credential_map(cv).insert(iv.id, iv).contains_key(k) && (credential_map(nv).contains_key(k) ==> credential_map(nv)[k] == credential_map(cv).insert(iv.id, iv)[k]) by {
                        lemma_credential_index(nv, k);
                        lemma_credential_index(cv, k);
                        if k != iv.id {
                            if let Some(m) = credential_index(cv, k) {
                                assert(nv[m] == cv[m]);
                            }
                        }
                    }
                    assert(credential_map(nv) =~= credential_map(cv).insert(iv.id, iv));
                }
                self.credentials = list;
            },
        }
    }

    /// The credential with the given id.
    pub fn get(&self, id: &str) -> (r: Option<&CredentialItem>)
        ensures
            match r {
                Some(c) => self@.contains_key(id@) && self@[id@] == c@,
                None => !self@.contains_key(id@),
            },
    {
        proof {
            lemma_credential_index(credentials_view(self.credentials@), id@);
        }
        match self.index_of(id) {
            Some(i) => {
                assert(credentials_view(self.credentials@)[i as int] == self.credentials@[i as int]@);
                Some(&self.credentials[i])
            },
            None => None,
        }
    }

    /// Removes and returns the credential with the given id.
    pub fn remove(&mut self, id: &str) -> (r: Option<CredentialItem>)
        ensures
            match r {
                Some(c) => old(self)@.contains_key(id@) && old(self)@[id@] == c@,
                None => !old(self)@.contains_key(id@),
            },
            final(self)@ == old(self)@.remove(id@),
    {
        proof {
            use_type_invariant(&*self);
        }
        let ghost cv = credentials_view(self.credentials@);
        proof {
            lemma_credential_index(cv, id@);
        }
        match self.index_of(id) {
            Some(i) => {
                let mut list = Vec::new();
                std::mem::swap(&mut list, &mut self.credentials);
                let removed = list.remove(i);
                proof {
                    let nv = credentials_view(list@);
                    assert(nv =~= cv.remove(i as int));
                    assert forall|a: int, b: int| 0 <= a < b < nv.len() implies #[trigger] nv[a].id
                        != #[trigger] nv[b].id by {
                        let a0 = if a < i { a } else { a + 1 };
                        let b0 = if b < i { b } else { b + 1 };
                        assert(nv[a] == cv[a0] && nv[b] == cv[b0]);
                    }
                    assert forall|k: Seq<char>| k != id@ implies #[trigger] credential_index(nv, k) is Some
                        == credential_index(cv, k) is Some && (credential_index(nv, k) is Some ==> nv[credential_index(nv, k)->0] == cv[credential_index(cv, k)->0]) by {
                        lemma_credential_index(nv, k);
                        lemma_credential_index(cv, k);
                        if let Some(j) = credential_index(cv, k) {
                            let j2 = if j < i { j } else { j - 1 };
                            assert(nv[j2] == cv[j]);
                            if let Some(m) = credential_index(nv, k) {
                                let m0 = if m < i { m } else { m + 1 };
                                assert(nv[m] == cv[m0]);
                                assert(m0 == j);
                            }
                        } else {
                            if let Some(m) = credential_index(nv, k) {
                                let m0 = if m < i { m } else { m + 1 };
                                assert(nv[m] == cv[m0]);
                            }
                        }
                    }
                    lemma_credential_index(nv, id@);
                    assert forall|j: int| 0 <= j < nv.len() implies #[trigger] nv[j].id != id@ by {
                        let j0 = if j < i { j } else { j + 1 };
                        assert(nv[j] == cv[j0]);
                    }
                    assert(credential_map(nv) =~= credential_map(cv).remove(id@));
                }
                self.credentials = list;
                Some(removed)
            },
            None => {
                assert(self@ =~= self@.remove(id@));
                None
            },
        }
    }

    /// All credentials, each once.
    pub fn list(&self) -> (r: Vec<&CredentialItem>)
        ensures
            r@.len() == self@.len(),
            forall|i: int| 0 <= i < r@.len() ==> #[trigger] self@.contains_key(r@[i]@.id) && self@[r@[i]@.id] == r@[i]@,
            forall|i: int, j: int| 0 <= i < j < r@.len() ==> #[trigger] r@[i]@.id != #[trigger] r@[j]@.id,
    {
        proof {
            use_type_invariant(self);
        }
        let ghost cv = credentials_view(self.credentials@);
        let mut r: Vec<&CredentialItem> = Vec::new();
        let mut i: usize = 0;
        while i < self.credentials.len()
            invariant
                i <= self.credentials.len(),
                cv == credentials_view(self.credentials@),
                ids_distinct(cv),
                r@.len() == i,
                forall|k: int| 0 <= k < i ==> #[trigger] r@[k]@ == cv[k],
            decreases self.credentials.len() - i,
        {
            r.push(&self.credentials[i]);
            i = i + 1;
        }
        proof {
            assert forall|k: int| 0 <= k < r@.len() implies #[trigger] self@.contains_key(r@[k]@.id) && self@[r@[k]@.id] == r@[k]@ by {
                lemma_credential_index(cv, cv[k].id);
            }
            lemma_map_len(cv);
        }
        r
    }
}

/// Reading a credential back after adding it gives what was added, and
/// after removing an id nothing is found under it; other ids are untouched.
pub proof fn lemma_vault_insert_remove(m: Map<Seq<char>, CredentialView>, c: CredentialView, other: Seq<char>)
    requires
        other != c.id,
    ensures
        m.insert(c.id, c).contains_key(c.id) && m.insert(c.id, c)[c.id] == c,
        !m.remove(c.id).contains_key(c.id),
        m.insert(c.id, c).contains_key(other) == m.contains_key(other),
        m.contains_key(other) ==> m.insert(c.id, c)[other] == m[other] && m.remove(c.id)[other] == m[other],
{
}

/// Lists with the same ids in the same places find an id at the same place.
proof fn lemma_same_ids_same_index(a: Seq<CredentialView>, b: Seq<CredentialView>, k: Seq<char>)
    requires
        a.len() == b.len(),
        forall|j: int| 0 <= j < a.len() ==> #[trigger] a[j].id == b[j].id,
    ensures
        credential_index(a, k) == credential_index(b, k),
    decreases a.len(),
{
    if a.len() > 0 {
        let (ta, tb) = (a.drop_last(), b.drop_last());
        assert forall|j: int| 0 <= j < ta.len() implies #[trigger] ta[j].id == tb[j].id by {
            assert(ta[j] == a[j] && tb[j] == b[j]);
        }
        lemma_same_ids_same_index(ta, tb, k);
    }
}

/// A vault map has one key per credential.
proof fn lemma_map_len(s: Seq<CredentialView>)
    requires
        ids_distinct(s),
    ensures
        credential_map(s).len() == s.len(),
        credential_map(s).dom().finite(),
    decreases s.len(),
{
    if s.len() == 0 {
        assert(credential_map(s).dom() =~= Set::<Seq<char>>::empty());
    } else {
        let t = s.drop_last();
        assert forall|a: int, b: int| 0 <= a < b < t.len() implies #[trigger] t[a].id != #[trigger] t[b].id by {
            assert(t[a] == s[a] && t[b] == s[b]);
        }
        lemma_map_len(t);
        assert forall|k: Seq<char>| #[trigger] credential_map(s).dom().contains(k) == (credential_map(t).dom().contains(k) || k == s.last().id) by {
            lemma_credential_index(s, k);
            lemma_credential_index(t, k);
            if credential_index(t, k) is Some {
                let m = credential_index(t, k)->0;
                assert(s[m] == t[m]);
            }
        }
        assert(credential_map(s).dom() =~= credential_map(t).dom().insert(s.last().id));
        lemma_credential_index(t, s.last().id);
        assert forall|j: int| 0 <= j < t.len() implies #[trigger] t[j].id != s.last().id by {
            assert(t[j] == s[j]);
        }
    }
}

} // verus!
