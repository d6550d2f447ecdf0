//! An expiring key-value cache with explicit time.
//!
//! The cache maps a string key to a string value together with the absolute
//! instant (milliseconds) at which the entry stops being visible. Every
//! operation takes the current instant as an argument, so the behaviour of
//! the cache is a pure function of its state and the clock its caller reads.
//! A background sweeper may call [`Cache::sweep`] periodically; it is a
//! best-effort cleanup, not the source of truth: readers re-check expiry on
//! every lookup.

use vstd::prelude::*;
use vstd::hash_map::StringHashMap;

verus! {

/// One cache slot: the stored value and the absolute instant (milliseconds)
/// past which the entry is no longer visible to readers.
pub struct CacheEntry {
    pub value: String,
    pub expires_at: u64,
}

/// The mathematical content of the cache: key to (value, expiry instant).
pub type CacheModel = Map<Seq<char>, (Seq<char>, u64)>;

/// Whether `m` has an entry for `k` that is still visible at instant `now`.
pub open spec fn live(m: CacheModel, k: Seq<char>, now: u64) -> bool {
    m.contains_key(k) && m[k].1 > now
}

/// The cache contents after a `put` of `(k, v)` expiring at `e`.
pub open spec fn spec_put(m: CacheModel, k: Seq<char>, v: Seq<char>, e: u64) -> CacheModel {
    m.insert(k, (v, e))
}

/// What a `get` of `k` at instant `now` returns.
pub open spec fn spec_get_result(m: CacheModel, k: Seq<char>, now: u64) -> Option<Seq<char>> {
    if live(m, k, now) {
        Some(m[k].0)
    } else {
        None
    }
}

/// The cache contents after a `get` of `k` at instant `now`: a live entry is
/// refreshed to expire at `e` when `refresh` is set, an expired entry is
/// eagerly removed, and an absent key changes nothing.
pub open spec fn spec_get_after(
    m: CacheModel,
    k: Seq<char>,
    refresh: bool,
    now: u64,
    e: u64,
) -> CacheModel {
    if live(m, k, now) {
        if refresh {
            m.insert(k, (m[k].0, e))
        } else {
            m
        }
    } else if m.contains_key(k) {
        m.remove(k)
    } else {
        m
    }
}

/// The cache contents after a sweep at instant `now`: exactly the entries
/// still visible at `now` survive.
pub open spec fn spec_swept(m: CacheModel, now: u64) -> CacheModel {
    Map::new(|k: Seq<char>| m.contains_key(k) && m[k].1 > now, |k: Seq<char>| m[k])
}

/// An expiring mapping from string key to string value, with a fixed
/// time-to-live and a `running` flag read by the external sweeper loop.
pub struct Cache {
    map: StringHashMap<CacheEntry>,
    keys: Vec<String>,
    expiration_time_ms: u64,
    running: bool,
}

impl View for Cache {
    type V = CacheModel;

    closed spec fn view(&self) -> CacheModel {
        Map::new(
            |k: Seq<char>| self.map@.contains_key(k),
            |k: Seq<char>| (self.map@[k].value@, self.map@[k].expires_at),
        )
    }
}

impl Cache {
    /// The key list mirrors the mapping exactly: no key twice, every listed
    /// key present, every present key listed.
    pub closed spec fn wf(&self) -> bool {
        &&& (forall|i: int, j: int|
            0 <= i < j < self.keys@.len() ==> (#[trigger] self.keys@[i]@) != (#[trigger] self.keys@[j]@))
        &&& (forall|i: int|
            0 <= i < self.keys@.len() ==> self.map@.contains_key(#[trigger] self.keys@[i]@))
        &&& (forall|k: Seq<char>|
            #[trigger] self.map@.contains_key(k) ==> exists|i: int|
                0 <= i < self.keys@.len() && self.keys@[i]@ == k)
    }

    /// The fixed time-to-live, in milliseconds.
    pub closed spec fn spec_ttl_ms(&self) -> u64 {
        self.expiration_time_ms
    }

    /// Whether the sweeper is still asked to run.
    pub closed spec fn spec_running(&self) -> bool {
        self.running
    }

    /// Creates an empty cache whose entries live for the given number of
    /// seconds, with the sweeper flag set.
    pub fn new(expiration_time_seconds: u64) -> (r: Cache)
        requires
            expiration_time_seconds <= u64::MAX / 1000,
        ensures
            r.wf(),
            r@ == Map::<Seq<char>, (Seq<char>, u64)>::empty(),
            r.spec_ttl_ms() == expiration_time_seconds * 1000,
            r.spec_running(),
    {
        let r = Cache {
            map: StringHashMap::new(),
            keys: Vec::new(),
            expiration_time_ms: expiration_time_seconds * 1000,
            running: true,
        };
        proof {
            assert(r@ =~= Map::<Seq<char>, (Seq<char>, u64)>::empty());
        }
        r
    }

    /// Inserts or overwrites the entry for `key`, expiring `ttl` past `now_ms`.
    pub fn put(&mut self, key: String, value: String, now_ms: u64)
        requires
            old(self).wf(),
            now_ms + old(self).spec_ttl_ms() <= u64::MAX,
        ensures
            final(self).wf(),
            final(self)@ == spec_put(
                old(self)@,
                key@,
                value@,
                (now_ms + old(self).spec_ttl_ms()) as u64,
            ),
            final(self).spec_ttl_ms() == old(self).spec_ttl_ms(),
            final(self).spec_running() == old(self).spec_running(),
    {
        let expire_time = now_ms + self.expiration_time_ms;
        let ghost keys0 = self.keys@;
        let ghost m0 = self.map@;
        if !self.map.contains_key(key.as_str()) {
            self.keys.push(key.clone());
        }
        self.map.insert(key, CacheEntry { value, expires_at: expire_time });
        proof {
            if !m0.contains_key(key@) {
                assert forall|i: int|
                    0 <= i < self.keys@.len() implies self.map@.contains_key(
                    #[trigger] self.keys@[i]@,
                ) by {
                    if i < keys0.len() {
                        assert(self.keys@[i] == keys0[i]);
                    } else {
                        assert(self.keys@[i]@ == key@);
                    }
                }
                assert forall|a: int, b: int|
                    0 <= a < b < self.keys@.len() implies (#[trigger] self.keys@[a]@)
                    != (#[trigger] self.keys@[b]@) by {
                    assert(self.keys@[a] == keys0[a]);
                    if b == keys0.len() {
                        assert(self.keys@[b]@ == key@);
                        assert(m0.contains_key(keys0[a]@));
                    } else {
                        assert(self.keys@[b] == keys0[b]);
                    }
                }
                assert forall|k: Seq<char>|
                    #[trigger] self.map@.contains_key(k) implies exists|i: int|
                    0 <= i < self.keys@.len() && self.keys@[i]@ == k by {
                    if k == key@ {
                        assert(self.keys@[keys0.len() as int]@ == key@);
                    } else {
                        let i0 = choose|i: int| 0 <= i < keys0.len() && keys0[i]@ == k;
                        assert(self.keys@[i0] == keys0[i0]);
                    }
                }
            } else {
                assert forall|k: Seq<char>|
                    #[trigger] self.map@.contains_key(k) implies exists|i: int|
                    0 <= i < self.keys@.len() && self.keys@[i]@ == k by {
                    assert(m0.contains_key(k));
                }
            }
            assert(self@ =~= spec_put(old(self)@, key@, value@, expire_time));
        }
    }

    /// Looks `key` up at instant `now_ms`. A live entry yields its value and,
    /// when `refresh` is set, has its expiry advanced to `now_ms` plus the
    /// time-to-live; an expired entry is eagerly removed and `None` returned.
    pub fn get(&mut self, key: &str, refresh: bool, now_ms: u64) -> (r: Option<String>)
        requires
            old(self).wf(),
            now_ms + old(self).spec_ttl_ms() <= u64::MAX,
        ensures
            final(self).wf(),
            r is Some <==> live(old(self)@, key@, now_ms),
            (r matches Some(v) ==> Some(v@) == spec_get_result(old(self)@, key@, now_ms)),
            final(self)@ == spec_get_after(
                old(self)@,
                key@,
                refresh,
                now_ms,
                (now_ms + old(self).spec_ttl_ms()) as u64,
            ),
            final(self).spec_ttl_ms() == old(self).spec_ttl_ms(),
            final(self).spec_running() == old(self).spec_running(),
    {
        let ttl = self.expiration_time_ms;
        let found = match self.map.get(key) {
            Some(entry) => {
                if entry.expires_at > now_ms {
                    Some(entry.value.clone())
                } else {
                    None
                }
            },
            None => None,
        };
        if self.map.contains_key(key) {
            match &found {
                Some(val) => {
                    if refresh {
                        self.map.insert(
                            key.to_owned(),
                            CacheEntry { value: val.clone(), expires_at: now_ms + ttl },
                        );
                        proof {
                            assert forall|k: Seq<char>|
                                #[trigger] self.map@.contains_key(k) implies exists|i: int|
                                0 <= i < self.keys@.len() && self.keys@[i]@ == k by {
                                assert(old(self).map@.contains_key(k));
                                let i0 = choose|i: int|
                                    0 <= i < old(self).keys@.len() && old(self).keys@[i]@ == k;
                                assert(self.keys@[i0]@ == k);
                            }
                            assert(self@ =~= spec_get_after(
                                old(self)@,
                                key@,
                                refresh,
                                now_ms,
                                (now_ms + ttl) as u64,
                            ));
                        }
                    }
                },
                None => {
                    // Expired: remove the entry and its key-list mirror.
                    proof {
                        assert(old(self).map@.contains_key(key@));
                        assert(exists|i: int|
                            0 <= i < self.keys@.len() && (#[trigger] self.keys@[i]@) == key@);
                    }
                    self.map.remove(key);
                    self.remove_key_entry(key);
                    proof {
                        let keys0 = old(self).keys@;
                        let j = choose|j: int|
                            0 <= j < keys0.len() && (#[trigger] keys0[j]@) == key@ && self.keys@
                                == keys0.remove(j);
                        keys0.remove_ensures(j);
                        assert forall|a: int, b: int|
                            0 <= a < b < self.keys@.len() implies (#[trigger] self.keys@[a]@)
                            != (#[trigger] self.keys@[b]@) by {
                            let oa = if a < j {
                                a
                            } else {
                                a + 1
                            };
                            let ob = if b < j {
                                b
                            } else {
                                b + 1
                            };
                            assert(self.keys@[a] == keys0[oa]);
                            assert(self.keys@[b] == keys0[ob]);
                        }
                        assert forall|i: int|
                            0 <= i < self.keys@.len() implies self.map@.contains_key(
                            #[trigger] self.keys@[i]@,
                        ) by {
                            let oi = if i < j {
                                i
                            } else {
                                i + 1
                            };
                            assert(self.keys@[i] == keys0[oi]);
                            if oi < j {
                                assert(keys0[oi]@ != keys0[j]@);
                            } else {
                                assert(keys0[j]@ != keys0[oi]@);
                            }
                            assert(old(self).map@.contains_key(keys0[oi]@));
                        }
                        assert forall|k: Seq<char>|
                            #[trigger] self.map@.contains_key(k) implies exists|i: int|
                            0 <= i < self.keys@.len() && self.keys@[i]@ == k by {
                            assert(old(self).map@.contains_key(k));
                            assert(k != key@);
                            let i0 = choose|i: int| 0 <= i < keys0.len() && keys0[i]@ == k;
                            let ni = if i0 < j {
                                i0
                            } else {
                                i0 - 1
                            };
                            assert(self.keys@[ni] == keys0[i0]);
                        }
                        assert(self@ =~= spec_get_after(
                            old(self)@,
                            key@,
                            refresh,
                            now_ms,
                            (now_ms + ttl) as u64,
                        ));
                    }
                },
            }
        }
        found
    }

    /// Removes `key` from the key list; the mapping itself no longer holds it.
    fn remove_key_entry(&mut self, key: &str)
        requires
            exists|i: int|
                0 <= i < old(self).keys@.len() && (#[trigger] old(self).keys@[i]@) == key@,
        ensures
            final(self).map == old(self).map,
            final(self).expiration_time_ms == old(self).expiration_time_ms,
            final(self).running == old(self).running,
            exists|j: int|
                0 <= j < old(self).keys@.len() && (#[trigger] old(self).keys@[j]@) == key@
                    && final(self).keys@ == old(self).keys@.remove(j),
    {
        let mut i: usize = 0;
        while i < self.keys.len()
            invariant
                i <= self.keys@.len(),
                self == old(self),
                forall|j: int| 0 <= j < i ==> (#[trigger] self.keys@[j]@) != key@,
                exists|j: int|
                    0 <= j < self.keys@.len() && (#[trigger] self.keys@[j]@) == key@,
            decreases self.keys@.len() - i,
        {
            if self.keys[i].as_str().eq(key) {
                let ghost j = i as int;
                self.keys.remove(i);
                proof {
                    assert(0 <= j < old(self).keys@.len() && old(self).keys@[j]@ == key@
                        && self.keys@ == old(self).keys@.remove(j));
                }
                return ;
            }
            i += 1;
        }
        proof {
            let j = choose|j: int| 0 <= j < self.keys@.len() && (#[trigger] self.keys@[j]@) == key@;
            assert(self.keys@[j]@ != key@);
            assert(false);
        }
    }

    /// Whether the sweeper is still asked to run.
    pub fn is_running(&self) -> (r: bool)
        ensures
            r == self.spec_running(),
    {
        self.running
    }

    /// Signals the external sweeper loop to stop on its next wake-up. This is
    /// fire-and-forget: it does not wait for the sweeper.
    pub fn shut_down(&mut self)
        ensures
            old(self).wf() ==> final(self).wf(),
            final(self)@ == old(self)@,
            final(self).spec_ttl_ms() == old(self).spec_ttl_ms(),
            !final(self).spec_running(),
    {
        self.running = false;
        proof {
            assert(self@ =~= old(self)@);
            if old(self).wf() {
                assert forall|i: int, j: int|
                    0 <= i < j < self.keys@.len() implies (#[trigger] self.keys@[i]@)
                    != (#[trigger] self.keys@[j]@) by {
                    assert(self.keys@[i] == old(self).keys@[i]);
                    assert(self.keys@[j] == old(self).keys@[j]);
                }
                assert forall|i: int|
                    0 <= i < self.keys@.len() implies self.map@.contains_key(
                    #[trigger] self.keys@[i]@,
                ) by {
                    assert(self.keys@[i] == old(self).keys@[i]);
                    assert(old(self).map@.contains_key(old(self).keys@[i]@));
                }
                assert forall|k: Seq<char>|
                    #[trigger] self.map@.contains_key(k) implies exists|i: int|
                    0 <= i < self.keys@.len() && self.keys@[i]@ == k by {
                    assert(old(self).map@.contains_key(k));
                    let i0 = choose|i: int|
                        0 <= i < old(self).keys@.len() && old(self).keys@[i]@ == k;
                    assert(self.keys@[i0]@ == k);
                }
            }
        }
    }

    /// The fixed time-to-live, in milliseconds.
    pub fn get_expiration_time(&self) -> (r: u64)
        ensures
            r == self.spec_ttl_ms(),
    {
        self.expiration_time_ms
    }

    /// The number of entries currently stored, counting entries that are
    /// already expired but not yet swept or eagerly removed.
    pub fn get_record_num(&self) -> (r: usize)
        requires
            self.wf(),
        ensures
            r == self@.len(),
    {
        proof {
            assert(self@.dom() =~= self.map@.dom());
        }
        self.map.len()
    }

    /// Removes every entry that is no longer visible at instant `now_ms`.
    pub fn sweep(&mut self, now_ms: u64)
        requires
            old(self).wf(),
        ensures
            final(self).wf(),
            final(self)@ == spec_swept(old(self)@, now_ms),
            final(self).spec_ttl_ms() == old(self).spec_ttl_ms(),
            final(self).spec_running() == old(self).spec_running(),
    {
        let ghost m0 = self.map@;
        let ghost keys0 = self.keys@;
        let mut retained: Vec<String> = Vec::new();
        let mut i: usize = 0;
        while i < self.keys.len()
            invariant
                i <= self.keys@.len(),
                self.keys@ == keys0,
                self.expiration_time_ms == old(self).expiration_time_ms,
                self.running == old(self).running,
                // The pre-loop well-formedness facts, over the frozen key list.
                forall|a: int, b: int|
                    0 <= a < b < keys0.len() ==> (#[trigger] keys0[a]@) != (#[trigger] keys0[b]@),
                forall|a: int| 0 <= a < keys0.len() ==> m0.contains_key(#[trigger] keys0[a]@),
                forall|k: Seq<char>|
                    #[trigger] m0.contains_key(k) ==> exists|a: int|
                        0 <= a < keys0.len() && keys0[a]@ == k,
                // The mapping so far: dead keys among the first i are gone.
                forall|k: Seq<char>|
                    #[trigger] self.map@.contains_key(k) <==> (m0.contains_key(k) && (m0[k].expires_at
                        > now_ms || !(exists|a: int| 0 <= a < i && keys0[a]@ == k))),
                forall|k: Seq<char>|
                    #[trigger] self.map@.contains_key(k) ==> self.map@[k] == m0[k],
                // The retained list collects exactly the live keys among the first i.
                forall|a: int|
                    0 <= a < retained@.len() ==> m0.contains_key(#[trigger] retained@[a]@)
                        && m0[retained@[a]@].expires_at > now_ms,
                forall|a: int|
                    0 <= a < retained@.len() ==> exists|b: int|
                        0 <= b < i && keys0[b]@ == (#[trigger] retained@[a]@),
                forall|b: int|
                    0 <= b < i && m0.contains_key(#[trigger] keys0[b]@) && m0[keys0[b]@].expires_at
                        > now_ms ==> exists|a: int|
                        0 <= a < retained@.len() && retained@[a]@ == keys0[b]@,
                forall|a: int, b: int|
                    0 <= a < b < retained@.len() ==> (#[trigger] retained@[a]@)
                        != (#[trigger] retained@[b]@),
            decreases self.keys@.len() - i,
        {
            let ghost retained0 = retained@;
            let dead = match self.map.get(self.keys[i].as_str()) {
                Some(entry) => entry.expires_at <= now_ms,
                None => false,
            };
            if dead {
                self.map.remove(self.keys[i].as_str());
            } else {
                retained.push(self.keys[i].clone());
            }
            proof {
                let ki = keys0[i as int]@;
                // The key under scrutiny is not among the first `i` keys.
                assert forall|a: int| 0 <= a < i implies (#[trigger] keys0[a]@) != ki by {}
                if dead {
                    assert forall|k: Seq<char>|
                        #[trigger] self.map@.contains_key(k) <==> (m0.contains_key(k) && (
                        m0[k].expires_at > now_ms || !(exists|a: int|
                            0 <= a < i + 1 && keys0[a]@ == k))) by {
                        if k != ki {
                            assert((exists|a: int| 0 <= a < i + 1 && keys0[a]@ == k) <==> (
                            exists|a: int| 0 <= a < i && keys0[a]@ == k));
                        }
                    }
                } else {
                    assert(retained@ == retained0.push(self.keys@[i as int]));
                    assert(retained@[retained0.len() as int]@ == ki);
                    assert forall|a: int|
                        0 <= a < retained0.len() implies (#[trigger] retained@[a]@) != ki by {
                        assert(retained@[a] == retained0[a]);
                        let b = choose|b: int| 0 <= b < i && keys0[b]@ == retained0[a]@;
                        assert(keys0[b]@ != ki);
                    }
                    assert forall|k: Seq<char>|
                        #[trigger] self.map@.contains_key(k) <==> (m0.contains_key(k) && (
                        m0[k].expires_at > now_ms || !(exists|a: int|
                            0 <= a < i + 1 && keys0[a]@ == k))) by {
                        if k == ki {
                            assert(m0.contains_key(ki));
                            assert(m0[ki].expires_at > now_ms);
                        } else {
                            assert((exists|a: int| 0 <= a < i + 1 && keys0[a]@ == k) <==> (
                            exists|a: int| 0 <= a < i && keys0[a]@ == k));
                        }
                    }
                    assert forall|b: int|
                        0 <= b < i + 1 && m0.contains_key(#[trigger] keys0[b]@)
                            && m0[keys0[b]@].expires_at > now_ms implies exists|a: int|
                        0 <= a < retained@.len() && retained@[a]@ == keys0[b]@ by {
                        if b == i {
                            assert(retained@[retained0.len() as int]@ == keys0[b]@);
                        } else {
                            let a0 = choose|a: int|
                                0 <= a < retained0.len() && retained0[a]@ == keys0[b]@;
                            assert(retained@[a0]@ == keys0[b]@);
                        }
                    }
                }
            }
            i += 1;
        }
        self.keys = retained;
        proof {
            assert(self@ =~= spec_swept(old(self)@, now_ms));
        }
    }
}

/// A freshly written entry is returned unchanged by a lookup before its
/// expiry instant, and is invisible from that instant on.
pub proof fn lemma_ttl_expiry(m: CacheModel, k: Seq<char>, v: Seq<char>, e: u64, t: u64)
    ensures
        t < e ==> spec_get_result(spec_put(m, k, v, e), k, t) == Some(v),
        t >= e ==> spec_get_result(spec_put(m, k, v, e), k, t) == None::<Seq<char>>,
{
}

/// Sliding expiration: a lookup with `refresh` set at `t1` moves the entry's
/// expiry to `t1 + ttl`, so the entry is still visible at any `t2` before
/// that, even past the original expiry; without `refresh` the original
/// expiry `t0 + ttl` stands and the entry is gone from then on.
pub proof fn lemma_sliding_refresh(
    m: CacheModel,
    k: Seq<char>,
    v: Seq<char>,
    ttl: u64,
    t0: u64,
    t1: u64,
    t2: u64,
)
    requires
        t0 + ttl <= u64::MAX,
        t1 + ttl <= u64::MAX,
        t1 < t0 + ttl,
    ensures
        spec_get_result(spec_put(m, k, v, (t0 + ttl) as u64), k, t1) == Some(v),
        t2 < t1 + ttl ==> spec_get_result(
            spec_get_after(
                spec_put(m, k, v, (t0 + ttl) as u64),
                k,
                true,
                t1,
                (t1 + ttl) as u64,
            ),
            k,
            t2,
        ) == Some(v),
        t2 >= t0 + ttl ==> spec_get_result(
            spec_get_after(
                spec_put(m, k, v, (t0 + ttl) as u64),
                k,
                false,
                t1,
                (t1 + ttl) as u64,
            ),
            k,
            t2,
        ) == None::<Seq<char>>,
{
}

/// Operations on one key do not affect lookups of any other key: a `put` of
/// `k1` and the state change of a `get` of `k1` (refresh or eager removal)
/// both leave every lookup of a distinct `k2` as it was.
pub proof fn lemma_distinct_keys_independent(
    m: CacheModel,
    k1: Seq<char>,
    k2: Seq<char>,
    v1: Seq<char>,
    e1: u64,
    refresh: bool,
    tg: u64,
    eg: u64,
    t: u64,
)
    requires
        k1 != k2,
    ensures
        spec_get_result(spec_put(m, k1, v1, e1), k2, t) == spec_get_result(m, k2, t),
        spec_get_result(spec_get_after(m, k1, refresh, tg, eg), k2, t) == spec_get_result(
            m,
            k2,
            t,
        ),
{
}

/// The sweeper is not the source of truth: a sweep at `tn` never changes
/// what a lookup at any instant `t` at or after `tn` returns.
pub proof fn lemma_sweep_transparent(m: CacheModel, k: Seq<char>, tn: u64, t: u64)
    requires
        tn <= t,
    ensures
        spec_get_result(spec_swept(m, tn), k, t) == spec_get_result(m, k, t),
{
}

} // verus!
