//! Client-side session and authentication lifecycle for a brokerage REST API.
//!
//! The crate covers OAuth1 request signing, the token lifecycle (request
//! token, interactive authorization, access token, renewal), and the request
//! dispatcher that classifies responses and retries once after an
//! authentication failure.  All network transfer and interactive input is
//! performed by the caller: the session emits the requests to perform and
//! consumes the responses, so every decision in the protocol is verified.

use vstd::prelude::*;

pub mod accounts;
pub mod alerts;
pub mod date;
pub mod options;
pub mod orders;
pub mod params;
pub mod percent;
pub mod session;
pub mod signer;
pub mod transactions;
pub mod util;

pub use session::Session;
pub use signer::Method;

verus! {

use crate::util::str_eq;

/// Operating mode of a session: the sandbox environment or the live API.
///
/// The mode selects both the base URL of the API and the namespace under
/// which credentials are stored, so sandbox and live credentials never
/// collide.
#[derive(Debug, Clone, Copy, PartialEq, Eq, Structural)]
pub enum Mode {
    Sandbox,
    Live,
}

/// The body value used for calls that carry no request payload.
pub fn empty_body() -> (r: Option<()>)
    ensures
        r is None,
{
    None
}


/// The messages attached to a response.
#[derive(Debug, Clone, Default)]
pub struct Messages {
    pub message: Vec<Message>,
}

impl Messages {
    /// Whether no message is attached.
    pub fn is_empty(&self) -> (r: bool)
        ensures
            r == (self.message@.len() == 0),
    {
        self.message.is_empty()
    }
}

/// One message attached to a response.
#[derive(Debug, Clone, Default)]
pub struct Message {
    pub description: String,
    pub code: i32,
    pub tpe: MessageType,
}

#[derive(Debug, Clone, Copy, PartialEq, Eq, Structural)]
pub enum MessageType {
    Warning,
    Info,
    InfoHold,
    Error,
}

#[derive(Debug, Clone, Copy, PartialEq, Eq, Structural)]
pub enum SecurityType {
    Eq,
    Optn,
    Mf,
    Mmf,
}

#[derive(Debug, Clone, Copy, PartialEq, Eq, Structural)]
pub enum MarketSession {
    Regular,
    Extended,
}

#[derive(Debug, Clone, Copy, PartialEq, Eq, Structural)]
pub enum OptionType {
    Call,
    Put,
}

#[derive(Debug, Clone, Copy, PartialEq, Eq, Structural)]
pub enum SortOrder {
    Asc,
    Desc,
}


impl Default for MessageType {
    /// An informational message.
    fn default() -> (r: MessageType)
        ensures
            r == MessageType::Info,
    {
        MessageType::Info
    }
}

/// A credential pair: an identifier and the secret that signs with it.
///
/// The same shape serves as consumer credentials, request token and access
/// token.
#[derive(Debug, Clone)]
pub struct Credentials {
    pub key: String,
    pub secret: String,
}

impl Credentials {
    pub fn new(key: String, secret: String) -> (r: Credentials)
        ensures
            r.key@ == key@,
            r.secret@ == secret@,
    {
        Credentials { key, secret }
    }
}

/// A failure reported by a credential store backend.
#[derive(Debug, Clone)]
pub struct StoreError {
    pub message: String,
}

/// A namespaced secret store, the only state the session keeps between runs.
///
/// Implementations are supplied by the host (an OS keychain, the in-memory
/// store below).  The contents are modeled as one map from (namespace, key)
/// to the stored value.
pub trait Store {
    /// The stored values, one map entry per (namespace, key) pair.
    spec fn contents(&self) -> Map<(Seq<char>, Seq<char>), Seq<char>>;

    /// Stores a value, overwriting any previous value under the same key.
    fn put(&mut self, namespace: &str, key: &str, value: &str) -> (r: Result<(), StoreError>)
        ensures
            r is Ok ==> final(self).contents() == old(self).contents().insert(
                (namespace@, key@),
                value@,
            ),
            r is Err ==> final(self).contents() == old(self).contents(),
    ;

    /// Removes a value.  Removing an absent key succeeds and changes
    /// nothing.
    fn del(&mut self, namespace: &str, key: &str) -> (r: Result<(), StoreError>)
        ensures
            r is Ok ==> final(self).contents() == old(self).contents().remove((namespace@, key@)),
            r is Err ==> final(self).contents() == old(self).contents(),
            !old(self).contents().dom().contains((namespace@, key@)) ==> r is Ok,
    ;

    /// Looks a value up.
    fn get(&self, namespace: &str, key: &str) -> (r: Result<Option<String>, StoreError>)
        ensures
            match r {
                Ok(Some(v)) => self.contents().dom().contains((namespace@, key@)) && v@
                    == self.contents()[(namespace@, key@)],
                Ok(None) => !self.contents().dom().contains((namespace@, key@)),
                Err(_) => true,
            },
    ;
}

/// One stored secret of the in-memory store.
struct MemEntry {
    namespace: String,
    key: String,
    value: String,
}

/// The (namespace, key) pair an entry is filed under.
spec fn entry_key(e: MemEntry) -> (Seq<char>, Seq<char>) {
    (e.namespace@, e.key@)
}

/// The entries as a map, later entries overriding earlier ones.
spec fn map_of(entries: Seq<MemEntry>) -> Map<(Seq<char>, Seq<char>), Seq<char>>
    decreases entries.len(),
{
    if entries.len() == 0 {
        Map::empty()
    } else {
        map_of(entries.drop_last()).insert(entry_key(entries.last()), entries.last().value@)
    }
}

/// No two entries share a (namespace, key) pair.
spec fn distinct_keys(entries: Seq<MemEntry>) -> bool {
    forall|i: int, j: int|
        0 <= i < j < entries.len() ==> entry_key(#[trigger] entries[i]) != entry_key(
            #[trigger] entries[j],
        )
}

proof fn lemma_map_of_dom(entries: Seq<MemEntry>, k: (Seq<char>, Seq<char>))
    ensures
        map_of(entries).dom().contains(k) <==> exists|i: int|
            0 <= i < entries.len() && entry_key(#[trigger] entries[i]) == k,
    decreases entries.len(),
{
    if entries.len() > 0 {
        lemma_map_of_dom(entries.drop_last(), k);
        let dl = entries.drop_last();
        if map_of(entries).dom().contains(k) {
            if k == entry_key(entries.last()) {
                assert(entry_key(entries[entries.len() - 1]) == k);
            } else {
                let i = choose|i: int| 0 <= i < dl.len() && entry_key(#[trigger] dl[i]) == k;
                assert(entry_key(entries[i]) == k);
            }
        }
        if exists|i: int| 0 <= i < entries.len() && entry_key(#[trigger] entries[i]) == k {
            let i = choose|i: int| 0 <= i < entries.len() && entry_key(#[trigger] entries[i]) == k;
            if i == entries.len() - 1 {
                assert(map_of(entries).dom().contains(k));
            } else {
                assert(entry_key(dl[i]) == k);
                assert(map_of(entries).dom().contains(k));
            }
        }
    }
}

proof fn lemma_map_of_get(entries: Seq<MemEntry>, i: int)
    requires
        distinct_keys(entries),
        0 <= i < entries.len(),
    ensures
        map_of(entries).dom().contains(entry_key(entries[i])),
        map_of(entries)[entry_key(entries[i])] == entries[i].value@,
    decreases entries.len(),
{
    let dl = entries.drop_last();
    if i == entries.len() - 1 {
    } else {
        assert(distinct_keys(dl)) by {
            assert(forall|m: int, n: int|
                0 <= m < n < dl.len() ==> entry_key(#[trigger] dl[m]) != entry_key(
                    #[trigger] dl[n],
                ));
        }
        lemma_map_of_get(dl, i);
        assert(entry_key(entries[i]) != entry_key(entries.last()));
    }
}

proof fn lemma_map_of_remove(entries: Seq<MemEntry>, i: int)
    requires
        distinct_keys(entries),
        0 <= i < entries.len(),
    ensures
        map_of(entries.remove(i)) == map_of(entries).remove(entry_key(entries[i])),
    decreases entries.len(),
{
    let dl = entries.drop_last();
    let k = entry_key(entries[i]);
    assert(distinct_keys(dl)) by {
        assert(forall|m: int, n: int|
            0 <= m < n < dl.len() ==> entry_key(#[trigger] dl[m]) != entry_key(#[trigger] dl[n]));
    }
    if i == entries.len() - 1 {
        assert(entries.remove(i) =~= dl);
        assert(!map_of(dl).dom().contains(k)) by {
            lemma_map_of_dom(dl, k);
            if exists|j: int| 0 <= j < dl.len() && entry_key(#[trigger] dl[j]) == k {
                let j = choose|j: int| 0 <= j < dl.len() && entry_key(#[trigger] dl[j]) == k;
                assert(entry_key(entries[j]) == entry_key(entries[i]));
            }
        }
        assert(map_of(entries).remove(k) =~= map_of(dl));
    } else {
        let r = entries.remove(i);
        assert(r.drop_last() =~= dl.remove(i));
        assert(r.last() == entries.last());
        lemma_map_of_remove(dl, i);
        assert(entry_key(dl[i]) == k);
        assert(k != entry_key(entries.last()));
        assert(map_of(r) == map_of(dl.remove(i)).insert(
            entry_key(entries.last()),
            entries.last().value@,
        ));
        assert(map_of(entries).remove(k) =~= map_of(dl).remove(k).insert(
            entry_key(entries.last()),
            entries.last().value@,
        ));
    }
}

/// An in-memory credential store, mainly for tests and throwaway sessions.
pub struct Memstore {
    entries: Vec<MemEntry>,
}

impl Memstore {
    #[verifier::type_invariant]
    spec fn wf(self) -> bool {
        distinct_keys(self.entries@)
    }

    /// Creates an empty store.
    pub fn new() -> (r: Memstore)
        ensures
            r.contents() == Map::<(Seq<char>, Seq<char>), Seq<char>>::empty(),
    {
        Memstore { entries: Vec::new() }
    }

    /// The index of the entry under the given pair, if any.
    fn find(entries: &Vec<MemEntry>, namespace: &str, key: &str) -> (r: Option<usize>)
        ensures
            match r {
                Some(i) => i < entries@.len() && entry_key(entries@[i as int]) == (
                    namespace@,
                    key@,
                ),
                None => forall|i: int|
                    0 <= i < entries@.len() ==> entry_key(#[trigger] entries@[i]) != (
                        namespace@,
                        key@,
                    ),
            },
    {
        let n = entries.len();
        let mut i: usize = 0;
        while i < n
            invariant
                n == entries@.len(),
                0 <= i <= n,
                forall|j: int|
                    0 <= j < i ==> entry_key(#[trigger] entries@[j]) != (namespace@, key@),
            decreases n - i,
        {
            if str_eq(entries[i].namespace.as_str(), namespace) && str_eq(
                entries[i].key.as_str(),
                key,
            ) {
                return Some(i);
            }
            i += 1;
        }
        None
    }
}

impl Store for Memstore {
    closed spec fn contents(&self) -> Map<(Seq<char>, Seq<char>), Seq<char>> {
        map_of(self.entries@)
    }

    fn put(&mut self, namespace: &str, key: &str, value: &str) -> (r: Result<(), StoreError>) {
        proof {
            use_type_invariant(&*self);
        }
        let mut entries: Vec<MemEntry> = Vec::new();
        core::mem::swap(&mut entries, &mut self.entries);
        let ghost before = entries@;
        match Memstore::find(&entries, namespace, key) {
            Some(i) => {
                entries.remove(i);
                proof {
                    lemma_map_of_remove(before, i as int);
                    assert(forall|m: int|
                        0 <= m < entries@.len() ==> #[trigger] entries@[m] == if m < i {
                            before[m]
                        } else {
                            before[m + 1]
                        });
                    assert(distinct_keys(entries@));
                    assert(forall|j: int|
                        0 <= j < entries@.len() ==> entry_key(#[trigger] entries@[j]) != (
                            namespace@,
                            key@,
                        ));
                }
            },
            None => {},
        }
        let ghost mid = entries@;
        let entry = MemEntry {
            namespace: namespace.to_owned(),
            key: key.to_owned(),
            value: value.to_owned(),
        };
        entries.push(entry);
        proof {
            assert(entries@.drop_last() =~= mid);
            assert(map_of(entries@) =~= map_of(before).insert((namespace@, key@), value@));
        }
        self.entries = entries;
        Ok(())
    }

    fn del(&mut self, namespace: &str, key: &str) -> (r: Result<(), StoreError>) {
        proof {
            use_type_invariant(&*self);
        }
        let mut entries: Vec<MemEntry> = Vec::new();
        core::mem::swap(&mut entries, &mut self.entries);
        let ghost before = entries@;
        match Memstore::find(&entries, namespace, key) {
            Some(i) => {
                entries.remove(i);
                proof {
                    lemma_map_of_remove(before, i as int);
                    assert(forall|m: int|
                        0 <= m < entries@.len() ==> #[trigger] entries@[m] == if m < i {
                            before[m]
                        } else {
                            before[m + 1]
                        });
                    assert(distinct_keys(entries@));
                }
            },
            None => {
                proof {
                    lemma_map_of_dom(before, (namespace@, key@));
                    assert(map_of(before).remove((namespace@, key@)) =~= map_of(before));
                }
            },
        }
        self.entries = entries;
        Ok(())
    }

    fn get(&self, namespace: &str, key: &str) -> (r: Result<Option<String>, StoreError>) {
        proof {
            use_type_invariant(&*self);
        }
        match Memstore::find(&self.entries, namespace, key) {
            Some(i) => {
                proof {
                    lemma_map_of_get(self.entries@, i as int);
                }
                Ok(Some(self.entries[i].value.clone()))
            },
            None => {
                proof {
                    lemma_map_of_dom(self.entries@, (namespace@, key@));
                }
                Ok(None)
            },
        }
    }
}

} // verus!
