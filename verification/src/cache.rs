//! Reuse of HTTP clients across requests: one client per endpoint and
//! connection timeout, at most twelve kept at a time.
use vstd::prelude::*;
use crate::diagnostic::Diagnostic;
use crate::provider::{invalid_timeout, timeouts_valid, validate_config, ProviderConfig};
use crate::text::{chars_of, lower_seq, string_of, to_lower, trim, trim_vec, vec_eq};

verus! {

/// What tells two connections apart for reuse: the endpoint, trimmed and in
/// ASCII lower case, and the connection timeout.
#[derive(Clone, Debug)]
pub struct ClientKey {
    pub endpoint: String,
    pub connect_timeout_secs: u64,
}

pub open spec fn key_view(k: ClientKey) -> (Seq<char>, u64) {
    (k.endpoint@, k.connect_timeout_secs)
}

/// The key of a connection's client.
pub fn client_key(config: &ProviderConfig) -> (r: ClientKey)
    ensures
        key_view(r) == (lower_seq(trim(config.endpoint@)), config.connect_timeout_secs),
{
    let endpoint = to_lower(&trim_vec(&chars_of(config.endpoint.as_str())));
    ClientKey { endpoint: string_of(&endpoint), connect_timeout_secs: config.connect_timeout_secs }
}

/// The most clients kept at once.
pub const CACHE_LIMIT: usize = 12;

/// Clients by key. Each key occurs once; at most `CACHE_LIMIT` are kept.
pub struct ClientCache<T> {
    entries: Vec<(ClientKey, T)>,
}

impl<T> ClientCache<T> {
    /// The cached entries, in the order they were added since the last
    /// clearing.
    pub closed spec fn entries(&self) -> Seq<((Seq<char>, u64), T)> {
        self.entries@.map_values(|e: (ClientKey, T)| (key_view(e.0), e.1))
    }

    pub open spec fn keys_distinct(&self) -> bool {
        forall|i: int, j: int|
            0 <= i < j < self.entries().len() ==> (#[trigger] self.entries()[i]).0 != (
            #[trigger] self.entries()[j]).0
    }

    pub open spec fn wf(&self) -> bool {
        &&& self.keys_distinct()
        &&& self.entries().len() <= CACHE_LIMIT
    }

    /// The client kept under `key`, if any.
    pub open spec fn cached(&self, key: (Seq<char>, u64)) -> Option<T> {
        if exists|i: int| 0 <= i < self.entries().len() && (#[trigger] self.entries()[i]).0 == key {
            let i = choose|i: int| 0 <= i < self.entries().len() && (#[trigger] self.entries()[i]).0 == key;
            Some(self.entries()[i].1)
        } else {
            None
        }
    }

    pub fn new() -> (r: Self)
        ensures
            r.wf(),
            r.entries().len() == 0,
    {
        let r = ClientCache { entries: Vec::new() };
        assert(r.entries() =~= Seq::empty());
        r
    }

    /// The client kept under `key`, if any.
    pub fn lookup(&self, key: &ClientKey) -> (r: Option<&T>)
        requires
            self.wf(),
        ensures
            match self.cached(key_view(*key)) {
                Some(v) => r matches Some(x) && *x == v,
                None => r is None,
            },
    {
        let mut i: usize = 0;
        while i < self.entries.len()
            invariant
                i <= self.entries.len(),
                self.wf(),
                forall|k: int| 0 <= k < i ==> (#[trigger] self.entries()[k]).0 != key_view(*key),
            decreases self.entries.len() - i,
        {
            let e = &self.entries[i];
            assert(self.entries()[i as int] == (key_view(e.0), e.1));
            if e.0.connect_timeout_secs == key.connect_timeout_secs && vec_eq(
                &chars_of(e.0.endpoint.as_str()),
                &chars_of(key.endpoint.as_str()),
            ) {
                proof {
                    let w = choose|w: int|
                        0 <= w < self.entries().len() && (#[trigger] self.entries()[w]).0
                            == key_view(*key);
                    if w != i {
                        if w < i {
                            assert(self.entries()[w].0 != self.entries()[i as int].0);
                        } else {
                            assert(self.entries()[i as int].0 != self.entries()[w].0);
                        }
                    }
                }
                return Some(&e.1);
            }
            i += 1;
        }
        None
    }

    /// Keeps `value` under a key not yet cached; a full cache is emptied
    /// first.
    pub fn remember(&mut self, key: ClientKey, value: T)
        requires
            old(self).wf(),
            old(self).cached(key_view(key)) is None,
        ensures
            final(self).wf(),
            old(self).entries().len() >= CACHE_LIMIT ==> final(self).entries() == seq![
                (key_view(key), value),
            ],
            old(self).entries().len() < CACHE_LIMIT ==> final(self).entries() == old(
                self,
            ).entries().push((key_view(key), value)),
    {
        let ghost k = key_view(key);
        if self.entries.len() >= CACHE_LIMIT {
            self.entries = Vec::new();
        }
        let ghost before = self.entries();
        proof {
            assert forall|i: int| 0 <= i < before.len() implies (#[trigger] before[i]).0 != k by {
                if before[i].0 == k {
                    assert(old(self).entries() == before);
                }
            }
        }
        self.entries.push((key, value));
        assert(self.entries() =~= before.push((k, value)));
    }
}

/// The cache key of a connection, as `client_key` computes it.
pub open spec fn connection_key(c: ProviderConfig) -> (Seq<char>, u64) {
    (lower_seq(trim(c.endpoint@)), c.connect_timeout_secs)
}

/// The cached client for a connection, once its limits are checked: an
/// invalid connection is refused before the cache is read; a valid one gets
/// its key and the client kept under it, if any.
pub fn client_lookup<'a, T>(cache: &'a ClientCache<T>, config: &ProviderConfig) -> (r: Result<
    (ClientKey, Option<&'a T>),
    Diagnostic,
>)
    requires
        cache.wf(),
    ensures
        !timeouts_valid(*config) ==> (r matches Err(d) && d@ == invalid_timeout()),
        timeouts_valid(*config) ==> (r matches Ok((k, found)) && key_view(k) == connection_key(*config)
            && match cache.cached(connection_key(*config)) {
            Some(v) => found matches Some(x) && *x == v,
            None => found is None,
        }),
{
    match validate_config(config) {
        Err(d) => Err(d),
        Ok(()) => {
            let key = client_key(config);
            let found = cache.lookup(&key);
            Ok((key, found))
        },
    }
}

/// The entries after remembering `value` under `key` (see `remember`).
pub open spec fn remembered<T>(before: Seq<((Seq<char>, u64), T)>, key: (Seq<char>, u64), value: T) -> Seq<((Seq<char>, u64), T)> {
    if before.len() >= CACHE_LIMIT {
        seq![(key, value)]
    } else {
        before.push((key, value))
    }
}

impl<T: Clone> ClientCache<T> {
    /// The client for a connection: its limits are checked before the cache
    /// is read; a cached client is handed back (as a clone) and the cache left
    /// as it was; otherwise `make` builds one, which is remembered under the
    /// connection's key unless building it failed.
    pub fn client_for<F: FnOnce() -> Result<T, Diagnostic>>(&mut self, config: &ProviderConfig, make: F) -> (r: Result<T, Diagnostic>)
        requires
            old(self).wf(),
            call_requires(make, ()),
        ensures
            final(self).wf(),
            !timeouts_valid(*config) ==> (r matches Err(d) && d@ == invalid_timeout()),
            !timeouts_valid(*config) ==> final(self).entries() == old(self).entries(),
            timeouts_valid(*config) && old(self).cached(connection_key(*config)) is Some ==> r is Ok
                && final(self).entries() == old(self).entries(),
            timeouts_valid(*config) && old(self).cached(connection_key(*config)) is None ==> (match r {
                Ok(_) => exists|v: T|
                    call_ensures(make, (), Ok::<T, Diagnostic>(v)) && final(self).entries()
                        == #[trigger] remembered(old(self).entries(), connection_key(*config), v),
                Err(d) => call_ensures(make, (), Err::<T, Diagnostic>(d)) && final(self).entries()
                    == old(self).entries(),
            }),
    {
        let key = match client_lookup(self, config) {
            Err(d) => return Err(d),
            Ok((key, found)) => {
                match found {
                    Some(client) => return Ok(client.clone()),
                    None => key,
                }
            },
        };
        match make() {
            Err(d) => Err(d),
            Ok(client) => {
                let ghost k = key_view(key);
                let handed = client.clone();
                proof {
                    assert(k == connection_key(*config));
                }
                let ghost v = client;
                self.remember(key, client);
                assert(self.entries() == remembered(old(self).entries(), connection_key(*config), v));
                Ok(handed)
            },
        }
    }
}

/// A client kept under a key is the one handed back for that key, until the
/// cache is next emptied; this holds whether or not remembering it emptied
/// a full cache first.
pub proof fn lemma_remembered_is_found<T>(cache: ClientCache<T>, after: ClientCache<T>, key: (Seq<char>, u64), value: T)
    requires
        cache.wf(),
        after.entries() == remembered(cache.entries(), key, value),
        after.wf(),
    ensures
        after.cached(key) == Some(value),
{
    let n = after.entries().len() - 1;
    assert(after.entries()[n].0 == key);
    let w = choose|w: int| 0 <= w < after.entries().len() && (#[trigger] after.entries()[w]).0 == key;
    if w != n {
        assert(after.entries()[w].0 != after.entries()[n].0);
    }
}

/// Two connections share one cache entry when their endpoints agree once
/// trimmed and in ASCII lower case and their connection timeouts are equal:
/// once a client is remembered under the key of one, the lookup for the other
/// finds that client.
pub proof fn lemma_equivalent_connections_share_client<T>(
    a: ProviderConfig,
    b: ProviderConfig,
    cache: ClientCache<T>,
    after: ClientCache<T>,
    value: T,
)
    requires
        lower_seq(trim(a.endpoint@)) == lower_seq(trim(b.endpoint@)),
        a.connect_timeout_secs == b.connect_timeout_secs,
        cache.wf(),
        after.entries() == remembered(cache.entries(), connection_key(a), value),
        after.wf(),
    ensures
        connection_key(a) == connection_key(b),
        after.cached(connection_key(b)) == Some(value),
{
    lemma_remembered_is_found(cache, after, connection_key(a), value);
}

/// The cache never holds more than `CACHE_LIMIT` clients: remembering keeps
/// it within the limit, and a lookup changes nothing.
pub proof fn lemma_cache_bounded<T>(cache: ClientCache<T>, after: ClientCache<T>, key: (Seq<char>, u64), value: T)
    requires
        cache.wf(),
        after.entries() == remembered(cache.entries(), key, value),
    ensures
        after.entries().len() <= CACHE_LIMIT,
{
}

} // verus!
