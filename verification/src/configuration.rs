//! The configuration that the client works from: where the daemon listens,
//! and the store of encrypted admin passwords.

use vstd::prelude::*;
use crate::text::str_eq;

verus! {

/// Where the daemon's management port is.
#[derive(Debug, PartialEq, Eq)]
pub struct Pgmoneta {
    pub host: String,
    pub port: i32,
}

/// One admin: the user name and the password as a stored secret.
#[derive(Debug, PartialEq, Eq)]
pub struct AdminEntry {
    pub username: String,
    pub secret: String,
}

/// The admins of the daemon, each user name once, with the password of
/// each as base64 text of nonce, salt and ciphertext.
#[derive(Debug, PartialEq, Eq)]
pub struct CredentialStore {
    entries: Vec<AdminEntry>,
}

/// The whole configuration.
#[derive(Debug, PartialEq, Eq)]
pub struct Configuration {
    pub pgmoneta: Pgmoneta,
    /// The port on which the bridge itself listens.
    pub port: i32,
    pub admins: CredentialStore,
}

/// The port of the bridge where the configuration names none.
pub fn default_port() -> (port: i32)
    ensures
        port == 8000,
{
    8000
}

/// Whether no user name occurs twice.
pub open spec fn usernames_distinct(entries: Seq<AdminEntry>) -> bool {
    forall|i: int, j: int|
        0 <= i < entries.len() && 0 <= j < entries.len() && #[trigger] entries[i].username@
            == #[trigger] entries[j].username@ ==> i == j
}

/// Whether some entry is for the user.
pub open spec fn has_user(entries: Seq<AdminEntry>, username: Seq<char>) -> bool {
    exists|i: int| 0 <= i < entries.len() && #[trigger] entries[i].username@ == username
}

/// The position of an entry for the user.
pub open spec fn position_of(entries: Seq<AdminEntry>, username: Seq<char>) -> int {
    choose|i: int| 0 <= i < entries.len() && #[trigger] entries[i].username@ == username
}

/// The secrets by user name.
pub open spec fn secrets_of(entries: Seq<AdminEntry>) -> Map<Seq<char>, Seq<char>> {
    Map::new(
        |username: Seq<char>| has_user(entries, username),
        |username: Seq<char>| entries[position_of(entries, username)].secret@,
    )
}

/// With distinct user names, each entry is what the map holds for its user.
pub proof fn lemma_secrets_of_entry(entries: Seq<AdminEntry>, i: int)
    requires
        usernames_distinct(entries),
        0 <= i < entries.len(),
    ensures
        secrets_of(entries).contains_key(entries[i].username@),
        secrets_of(entries)[entries[i].username@] == entries[i].secret@,
{
    let username = entries[i].username@;
    assert(has_user(entries, username));
    let j = position_of(entries, username);
    assert(0 <= j < entries.len() && entries[j].username@ == username);
}

/// Changing the secret of the entry at `i` changes what the map holds for
/// its user, and nothing else.
pub proof fn lemma_secrets_after_update(before: Seq<AdminEntry>, after: Seq<AdminEntry>, i: int)
    requires
        usernames_distinct(before),
        0 <= i < before.len(),
        after.len() == before.len(),
        after[i].username@ == before[i].username@,
        forall|j: int| 0 <= j < before.len() && j != i ==> after[j] == before[j],
    ensures
        usernames_distinct(after),
        secrets_of(after) == secrets_of(before).insert(after[i].username@, after[i].secret@),
{
    let key = after[i].username@;
    let value = after[i].secret@;
    assert forall|a: int| 0 <= a < after.len() implies #[trigger] after[a].username@
        == before[a].username@ by {}
    assert forall|name: Seq<char>| has_user(after, name) <==> has_user(before, name) by {
        if has_user(after, name) {
            let a = position_of(after, name);
            assert(before[a].username@ == name);
        }
        if has_user(before, name) {
            let b = position_of(before, name);
            assert(after[b].username@ == name);
        }
    }
    assert(has_user(before, key));
    assert forall|name: Seq<char>| has_user(after, name) implies secrets_of(after)[name]
        == secrets_of(before).insert(key, value)[name] by {
        let a = position_of(after, name);
        lemma_secrets_of_entry(after, a);
        if name != key {
            lemma_secrets_of_entry(before, a);
        }
    }
    assert(secrets_of(after) =~= secrets_of(before).insert(key, value));
}

/// An entry for a user that had none adds the user to the map, and changes
/// nothing else.
pub proof fn lemma_secrets_after_push(before: Seq<AdminEntry>, after: Seq<AdminEntry>)
    requires
        usernames_distinct(before),
        after.len() == before.len() + 1,
        forall|j: int| 0 <= j < before.len() ==> after[j] == before[j],
        !has_user(before, after.last().username@),
    ensures
        usernames_distinct(after),
        secrets_of(after) == secrets_of(before).insert(
            after.last().username@,
            after.last().secret@,
        ),
{
    let last = before.len() as int;
    let key = after[last].username@;
    let value = after[last].secret@;
    assert forall|a: int, b: int|
        0 <= a < after.len() && 0 <= b < after.len() && #[trigger] after[a].username@
            == #[trigger] after[b].username@ implies a == b by {
        if a < last {
            assert(before[a].username@ == after[a].username@);
        }
        if b < last {
            assert(before[b].username@ == after[b].username@);
        }
    }
    assert forall|name: Seq<char>| has_user(after, name) <==> has_user(before, name) || name
        == key by {
        if has_user(after, name) {
            let a = position_of(after, name);
            if a < last {
                assert(before[a].username@ == name);
            }
        }
        if has_user(before, name) {
            let b = position_of(before, name);
            assert(after[b].username@ == name);
        }
        if name == key {
            assert(after[last].username@ == name);
        }
    }
    assert forall|name: Seq<char>| has_user(after, name) implies secrets_of(after)[name]
        == secrets_of(before).insert(key, value)[name] by {
        let a = position_of(after, name);
        lemma_secrets_of_entry(after, a);
        if name != key {
            assert(a < last);
            assert(before[a].username@ == name);
            lemma_secrets_of_entry(before, a);
        }
    }
    assert(secrets_of(after) =~= secrets_of(before).insert(key, value));
}

impl CredentialStore {
    #[verifier::type_invariant]
    spec fn distinct(&self) -> bool {
        usernames_distinct(self.entries@)
    }

    /// The secrets by user name.
    pub closed spec fn view(&self) -> Map<Seq<char>, Seq<char>> {
        secrets_of(self.entries@)
    }

    /// The number of admins.
    pub closed spec fn count(&self) -> nat {
        self.entries@.len()
    }

    /// The user name of the entry at a position.
    pub closed spec fn username_at(&self, i: int) -> Seq<char> {
        self.entries@[i].username@
    }

    /// A store without admins.
    pub fn new() -> (store: Self)
        ensures
            store@ == Map::<Seq<char>, Seq<char>>::empty(),
            store.count() == 0,
    {
        let store = CredentialStore { entries: Vec::new() };
        assert(store@ =~= Map::<Seq<char>, Seq<char>>::empty());
        store
    }

    /// The number of admins.
    pub fn len(&self) -> (n: usize)
        ensures
            n == self.count(),
    {
        self.entries.len()
    }

    /// The entry at a position, for walking the store.
    pub fn entry(&self, i: usize) -> (entry: &AdminEntry)
        requires
            i < self.count(),
        ensures
            entry.username@ == self.username_at(i as int),
            self@.contains_key(entry.username@),
            self@[entry.username@] == entry.secret@,
    {
        proof {
            use_type_invariant(self);
            lemma_secrets_of_entry(self.entries@, i as int);
        }
        &self.entries[i]
    }

    fn find(&self, username: &str) -> (at: Option<usize>)
        ensures
            match at {
                Some(i) => i < self.entries@.len() && self.entries@[i as int].username@
                    == username@,
                None => !has_user(self.entries@, username@),
            },
    {
        let mut i: usize = 0;
        while i < self.entries.len()
            invariant
                i <= self.entries@.len(),
                forall|j: int| 0 <= j < i ==> self.entries@[j].username@ != username@,
            decreases self.entries@.len() - i,
        {
            if str_eq(self.entries[i].username.as_str(), username) {
                return Some(i);
            }
            i += 1;
        }
        None
    }

    /// Whether the store has the user.
    pub fn contains_key(&self, username: &str) -> (found: bool)
        ensures
            found == self@.contains_key(username@),
    {
        match self.find(username) {
            Some(i) => {
                proof {
                    use_type_invariant(self);
                    lemma_secrets_of_entry(self.entries@, i as int);
                }
                true
            },
            None => false,
        }
    }

    /// The stored secret of a user.
    pub fn get(&self, username: &str) -> (secret: Option<&String>)
        ensures
            match secret {
                Some(text) => self@.contains_key(username@) && self@[username@] == text@,
                None => !self@.contains_key(username@),
            },
    {
        match self.find(username) {
            Some(i) => {
                proof {
                    use_type_invariant(self);
                    lemma_secrets_of_entry(self.entries@, i as int);
                }
                Some(&self.entries[i].secret)
            },
            None => None,
        }
    }

    /// Stores the secret of a user, in place of the one that the user had.
    pub fn insert(&mut self, username: String, secret: String)
        ensures
            final(self)@ == old(self)@.insert(username@, secret@),
            final(self).count() == if old(self)@.contains_key(username@) {
                old(self).count()
            } else {
                old(self).count() + 1
            },
    {
        proof {
            use_type_invariant(&*self);
        }
        let ghost before = self.entries@;
        let found = self.find(username.as_str());
        let mut entries: Vec<AdminEntry> = Vec::new();
        core::mem::swap(&mut self.entries, &mut entries);
        match found {
            Some(i) => {
                entries.set(i, AdminEntry { username, secret });
                proof {
                    lemma_secrets_of_entry(before, i as int);
                    lemma_secrets_after_update(before, entries@, i as int);
                }
            },
            None => {
                entries.push(AdminEntry { username, secret });
                proof {
                    lemma_secrets_after_push(before, entries@);
                }
            },
        }
        core::mem::swap(&mut self.entries, &mut entries);
    }
}

} // verus!
