//! The caching column: a time-bounded-fresh local view of one remote table.
//!
//! Each column keeps a map from primary-key string to the last value it saw
//! for that key, stamped with the wall-clock time it was fetched or written,
//! plus one timestamp for the last complete scan. An entry within the TTL
//! window is served without a remote call; everything else goes through the
//! store client. Reads of the clock are the caller's: every operation takes
//! `now`, so freshness is exactly what the contracts say it is.
//!
//! Writes go through unconditionally — the store offers no conditional put —
//! so two callers that mutate snapshots of the same key race, and the later
//! write wins. `diff_update` documents that limitation rather than hiding it.
use vstd::prelude::*;

use vstd::hash_map::StringHashMap;

use crate::assoc::{remove_key, upsert};
use crate::codec::{decode_seq, views_of, Record};
use crate::column::DynamoDBColumn;
use crate::store::{item_of, table_of, values_of, Database, TableModel};

verus! {

/// How long a cached entry or a full scan stays fresh, in milliseconds:
/// thirty minutes.
pub const CACHE_TTL_MILLIS: i64 = 1_800_000;

/// One cached record, stamped with the time it was fetched or written.
pub struct CachedValue<T> {
    pub value: T,
    pub cached_at: i64,
}

/// A per-record-type caching column over one table of the store.
#[verifier::reject_recursive_types(T)]
pub struct CachingDynamoDBColumn<T: Record> {
    internal: DynamoDBColumn,
    cached: StringHashMap<CachedValue<T>>,
    got_values: Option<i64>,
    expiration_time: i64,
}

impl<T: Record> CachingDynamoDBColumn<T> {
    /// The name of the table this column caches.
    pub closed spec fn table(&self) -> Seq<char> {
        self.internal.table_name@
    }

    /// The cached entries: for each key, the value last seen and when.
    pub closed spec fn entries(&self) -> Map<Seq<char>, (T::V, i64)> {
        Map::new(
            |k: Seq<char>| self.cached@.dom().contains(k),
            |k: Seq<char>| (self.cached@[k].value@, self.cached@[k].cached_at),
        )
    }

    /// When the last complete scan finished, if one has.
    pub closed spec fn full_scan_at(&self) -> Option<i64> {
        self.got_values
    }

    /// The freshness window.
    pub closed spec fn ttl(&self) -> i64 {
        self.expiration_time
    }

    /// Well-formedness: the window is the fixed TTL, and no timestamp lies
    /// before the epoch, so freshness arithmetic cannot overflow.
    pub open spec fn wf(&self) -> bool {
        &&& self.ttl() == CACHE_TTL_MILLIS
        &&& (forall|k: Seq<char>| #[trigger]
            self.entries().dom().contains(k) ==> self.entries()[k].1 >= 0)
        &&& (match self.full_scan_at() {
            Some(t) => t >= 0,
            None => true,
        })
    }

    /// Whether the entry under `k` is present and within the TTL window.
    pub open spec fn is_fresh(&self, k: Seq<char>, now: i64) -> bool {
        &&& self.entries().dom().contains(k)
        &&& now - self.entries()[k].1 < self.ttl()
    }

    /// Whether the last complete scan is within the TTL window.
    pub open spec fn scan_fresh(&self, now: i64) -> bool {
        match self.full_scan_at() {
            Some(t) => now - t < self.ttl(),
            None => false,
        }
    }

    /// An empty cache over the given column.
    pub fn from(internal: DynamoDBColumn) -> (r: Self)
        ensures
            r.wf(),
            r.table() == internal.table_name@,
            r.entries() == Map::<Seq<char>, (T::V, i64)>::empty(),
            r.full_scan_at() is None,
    {
        let r = CachingDynamoDBColumn {
            internal,
            cached: StringHashMap::new(),
            got_values: None,
            expiration_time: CACHE_TTL_MILLIS,
        };
        proof {
            assert(r.entries() =~= Map::<Seq<char>, (T::V, i64)>::empty());
        }
        r
    }

    /// Serve the record under `k` from the cache if its entry is fresh;
    /// otherwise ask the store, and on a hit refresh the entry. Absence is
    /// not an error and does not create an entry; a failed remote read
    /// leaves the cache untouched.
    pub fn get<D: Database>(&mut self, db: &mut D, k: &str, now: i64) -> (r: Result<
        Option<T>,
        String,
    >)
        requires
            old(self).wf(),
            now >= 0,
        ensures
            final(self).wf(),
            final(self).table() == old(self).table(),
            final(self).ttl() == old(self).ttl(),
            final(self).full_scan_at() == old(self).full_scan_at(),
            old(self).is_fresh(k@, now) ==> {
                &&& *final(db) == *old(db)
                &&& *final(self) == *old(self)
                &&& (r matches Ok(o) && o matches Some(v) && v@ == old(self).entries()[k@].0)
            },
            !old(self).is_fresh(k@, now) ==> {
                &&& final(db).tables() == old(db).tables()
                &&& final(db).may_fail() == old(db).may_fail()
                &&& final(db).calls() == old(db).calls() + 1
                &&& (match r {
                    Ok(Some(v)) => (item_of(old(db).tables(), old(self).table(), k@) matches Some(
                        iv,
                    ) && T::spec_decode(iv) == Some(v@)) && final(self).entries() == old(
                        self,
                    ).entries().insert(k@, (v@, now)),
                    Ok(None) => table_of(old(db).tables(), old(self).table()) is Some && item_of(
                        old(db).tables(),
                        old(self).table(),
                        k@,
                    ) is None && final(self).entries() == old(self).entries(),
                    Err(_) => final(self).entries() == old(self).entries(),
                })
                &&& ((!old(db).may_fail() && table_of(old(db).tables(), old(self).table()) is Some
                    && (match item_of(old(db).tables(), old(self).table(), k@) {
                    None => true,
                    Some(iv) => T::spec_decode(iv) is Some,
                })) ==> r is Ok)
            },
    {
        let cached_hit: Option<T> = match self.cached.get(k) {
            Some(cv) => {
                proof {
                    assert(self.entries().dom().contains(k@));
                    assert(self.entries()[k@].1 == cv.cached_at);
                }
                if now - cv.cached_at < self.expiration_time {
                    Some(cv.value.clone_rec())
                } else {
                    None
                }
            },
            None => None,
        };
        if let Some(v) = cached_hit {
            return Ok(Some(v));
        }
        let result: Result<Option<T>, String> = self.internal.get(db, k);
        match result {
            Ok(Some(v)) => {
                let cv = CachedValue { value: v.clone_rec(), cached_at: now };
                self.cached.insert(k.to_owned(), cv);
                proof {
                    assert(self.entries() =~= old(self).entries().insert(k@, (v@, now)));
                }
                Ok(Some(v))
            },
            Ok(None) => {
                proof {
                    assert(self.entries() =~= old(self).entries());
                }
                Ok(None)
            },
            Err(e) => Err(e),
        }
    }

    /// Fetch the full listing. The scan is always issued to the store: the
    /// freshness marker governs only whether the cache is refreshed by the
    /// result, not whether the scan happens. While the last complete scan is
    /// within the TTL window the result is returned with the cache left as
    /// it was; otherwise, on success, every returned record overwrites its
    /// entry (later duplicates winning) and the marker moves to `now`.
    pub fn get_values<D: Database>(&mut self, db: &mut D, now: i64) -> (r: Result<Vec<T>, String>)
        requires
            old(self).wf(),
            now >= 0,
        ensures
            final(self).wf(),
            final(self).table() == old(self).table(),
            final(self).ttl() == old(self).ttl(),
            final(db).tables() == old(db).tables(),
            final(db).may_fail() == old(db).may_fail(),
            final(db).calls() > old(db).calls(),
            r matches Ok(vs) ==> (table_of(old(db).tables(), old(self).table()) matches Some(tm)
                && decode_seq::<T>(values_of(tm.items)) == Some(views_of(vs@))),
            !old(db).may_fail() && (table_of(old(db).tables(), old(self).table()) matches Some(tm)
                && decode_seq::<T>(values_of(tm.items)) is Some) ==> r is Ok,
            old(self).scan_fresh(now) ==> *final(self) == *old(self),
            !old(self).scan_fresh(now) ==> (match r {
                Ok(vs) => final(self).full_scan_at() == Some(now) && final(self).entries()
                    == extend_entries::<T>(old(self).entries(), views_of(vs@), now),
                Err(_) => *final(self) == *old(self),
            }),
    {
        let result: Result<Vec<T>, String> = self.internal.get_values(db);
        let fresh: bool = match self.got_values {
            Some(t) => {
                proof {
                    assert(self.wf());
                }
                now - t < self.expiration_time
            },
            None => false,
        };
        if fresh {
            return result;
        }
        match result {
            Ok(vs) => {
                self.got_values = Some(now);
                let ghost entries0 = old(self).entries();
                proof {
                    assert(self.entries() =~= entries0);
                }
                let mut i: usize = 0;
                while i < vs.len()
                    invariant
                        old(self).wf(),
                        now >= 0,
                        i <= vs.len(),
                        self.internal == old(self).internal,
                        self.expiration_time == old(self).expiration_time,
                        self.got_values == Some(now),
                        entries0 == old(self).entries(),
                        self.entries() == extend_entries::<T>(
                            entries0,
                            views_of(vs@).subrange(0, i as int),
                            now,
                        ),
                        forall|k: Seq<char>| #[trigger]
                            self.entries().dom().contains(k) ==> self.entries()[k].1 >= 0,
                    decreases vs.len() - i,
                {
                    let key = vs[i].get_primary_key_value();
                    let cv = CachedValue { value: vs[i].clone_rec(), cached_at: now };
                    let ghost before = self.entries();
                    self.cached.insert(key, cv);
                    proof {
                        assert(self.entries() =~= before.insert(
                            T::primary_key_of(vs@[i as int]@),
                            (vs@[i as int]@, now),
                        ));
                        let pre = views_of(vs@).subrange(0, i as int);
                        let cur = views_of(vs@).subrange(0, i + 1);
                        assert(cur =~= pre.push(vs@[i as int]@));
                        assert(cur.drop_last() =~= pre);
                        assert(cur.last() == vs@[i as int]@);
                        assert(extend_entries::<T>(entries0, cur, now) == extend_entries::<T>(
                            entries0,
                            pre,
                            now,
                        ).insert(T::primary_key_of(vs@[i as int]@), (vs@[i as int]@, now)));
                    }
                    i = i + 1;
                }
                proof {
                    assert(views_of(vs@).subrange(0, vs@.len() as int) =~= views_of(vs@));
                }
                Ok(vs)
            },
            Err(e) => Err(e),
        }
    }

    /// Write `v` through to the store under `k`, and on success refresh the
    /// cache entry unconditionally. On failure the entry is left as it was
    /// and the error propagates.
    pub fn put<D: Database>(&mut self, db: &mut D, k: &str, v: T, now: i64) -> (r: Result<
        (),
        String,
    >)
        requires
            old(self).wf(),
            now >= 0,
        ensures
            final(self).wf(),
            final(self).table() == old(self).table(),
            final(self).ttl() == old(self).ttl(),
            final(self).full_scan_at() == old(self).full_scan_at(),
            final(db).may_fail() == old(db).may_fail(),
            final(db).calls() == old(db).calls() + 1,
            r is Ok ==> (table_of(old(db).tables(), old(self).table()) matches Some(tm)
                && final(db).tables() == upsert(
                old(db).tables(),
                old(self).table(),
                (TableModel { items: upsert(tm.items, k@, T::spec_encode(v@)), ..tm }),
            ) && final(self).entries() == old(self).entries().insert(k@, (v@, now))),
            r is Err ==> final(db).tables() == old(db).tables() && final(self).entries() == old(
                self,
            ).entries(),
            !old(db).may_fail() && table_of(old(db).tables(), old(self).table()) is Some ==> r
                is Ok,
    {
        let ghost vv = v@;
        let result = self.internal.put(db, k, &v);
        match result {
            Ok(()) => {
                let cv = CachedValue { value: v, cached_at: now };
                self.cached.insert(k.to_owned(), cv);
                proof {
                    assert(self.entries() =~= old(self).entries().insert(k@, (vv, now)));
                }
                Ok(())
            },
            Err(e) => Err(e),
        }
    }

    /// The conservative mutation path: fetch the current value via `get`
    /// (served from the cache when fresh), apply `f` to it, and write the
    /// result back via `put`. When the record is absent this is a silent
    /// no-op: no error and no write.
    pub fn get_update<D: Database, F: Fn(T) -> T>(
        &mut self,
        db: &mut D,
        k: &str,
        f: F,
        now: i64,
    ) -> (r: Result<(), String>)
        requires
            old(self).wf(),
            now >= 0,
            forall|x: T| call_requires(f, (x,)),
        ensures
            final(self).wf(),
            final(self).table() == old(self).table(),
            final(self).ttl() == old(self).ttl(),
            final(self).full_scan_at() == old(self).full_scan_at(),
            final(db).may_fail() == old(db).may_fail(),
            old(db).calls() < final(db).calls() <= old(db).calls() + 2,
            r is Ok ==> ((final(db).tables() == old(db).tables() && final(self).entries() == old(
                self,
            ).entries() && !old(self).is_fresh(k@, now) && item_of(
                old(db).tables(),
                old(self).table(),
                k@,
            ) is None) || exists|x: T, mv: T|
                {
                    &&& #[trigger] call_ensures(f, (x,), mv)
                    &&& (old(self).is_fresh(k@, now) ==> x@ == old(self).entries()[k@].0)
                    &&& (!old(self).is_fresh(k@, now) ==> (item_of(
                        old(db).tables(),
                        old(self).table(),
                        k@,
                    ) matches Some(iv) && T::spec_decode(iv) == Some(x@)))
                    &&& (table_of(old(db).tables(), old(self).table()) matches Some(tm)
                        && final(db).tables() == upsert(
                        old(db).tables(),
                        old(self).table(),
                        (TableModel { items: upsert(tm.items, k@, T::spec_encode(mv@)), ..tm }),
                    ))
                    &&& final(self).entries() == old(self).entries().insert(k@, (mv@, now))
                }),
            r is Err ==> (final(db).tables() == old(db).tables() && (final(self).entries() == old(
                self,
            ).entries() || (!old(self).is_fresh(k@, now) && exists|xv: <T as View>::V|
                (item_of(old(db).tables(), old(self).table(), k@) matches Some(iv)
                    && T::spec_decode(iv) == Some(xv) && final(self).entries() == #[trigger] old(
                    self,
                ).entries().insert(k@, (xv, now)))))),
            (!old(db).may_fail() && table_of(old(db).tables(), old(self).table()) is Some && (old(
                self,
            ).is_fresh(k@, now) || (match item_of(old(db).tables(), old(self).table(), k@) {
                None => true,
                Some(iv) => T::spec_decode(iv) is Some,
            }))) ==> r is Ok,
    {
        match self.get(db, k, now) {
            Err(e) => Err(e),
            Ok(None) => Ok(()),
            Ok(Some(base)) => {
                let ghost base0 = base;
                let ghost entries_mid = self.entries();
                let mv = f(base);
                let ghost mv0 = mv;
                let r2 = self.put(db, k, mv, now);
                proof {
                    assert(call_ensures(f, (base0,), mv0));
                    if r2 is Ok {
                        assert(entries_mid.insert(k@, (mv0@, now)) =~= old(self).entries().insert(
                            k@,
                            (mv0@, now),
                        ));
                    }
                }
                r2
            },
        }
    }

    /// The trusting mutation path: clone the caller's snapshot `v`, apply
    /// `f`, and write the result through under `k` — without re-fetching and
    /// without any check against the store's current value. Two concurrent
    /// callers holding snapshots of the same key race, and the later write
    /// silently wins; callers that cannot accept lost updates must serialize
    /// externally. That is this operation's documented contract, kept so a
    /// future conditional-write strategy could replace it behind the same
    /// interface.
    pub fn diff_update<D: Database, F: Fn(T) -> T>(
        &mut self,
        db: &mut D,
        k: &str,
        v: &T,
        f: F,
        now: i64,
    ) -> (r: Result<(), String>)
        requires
            old(self).wf(),
            now >= 0,
            forall|x: T| call_requires(f, (x,)),
        ensures
            final(self).wf(),
            final(self).table() == old(self).table(),
            final(self).ttl() == old(self).ttl(),
            final(self).full_scan_at() == old(self).full_scan_at(),
            final(db).may_fail() == old(db).may_fail(),
            final(db).calls() == old(db).calls() + 1,
            exists|x: T, mv: T|
                {
                    &&& x@ == v@
                    &&& #[trigger] call_ensures(f, (x,), mv)
                    &&& (r is Ok ==> (table_of(old(db).tables(), old(self).table()) matches Some(
                        tm,
                    ) && final(db).tables() == upsert(
                        old(db).tables(),
                        old(self).table(),
                        (TableModel { items: upsert(tm.items, k@, T::spec_encode(mv@)), ..tm }),
                    ) && final(self).entries() == old(self).entries().insert(k@, (mv@, now))))
                },
            r is Err ==> final(db).tables() == old(db).tables() && final(self).entries() == old(
                self,
            ).entries(),
            !old(db).may_fail() && table_of(old(db).tables(), old(self).table()) is Some ==> r
                is Ok,
    {
        let x = v.clone_rec();
        let ghost x0 = x;
        let mv = f(x);
        let ghost mv0 = mv;
        let r = self.put(db, k, mv, now);
        proof {
            assert(call_ensures(f, (x0,), mv0));
        }
        r
    }

    /// Remove `k` from the store, and on success evict its cache entry.
    /// Deleting an absent key is not an error. On failure the entry stays
    /// and the error propagates.
    pub fn delete<D: Database>(&mut self, db: &mut D, k: &str) -> (r: Result<(), String>)
        requires
            old(self).wf(),
        ensures
            final(self).wf(),
            final(self).table() == old(self).table(),
            final(self).ttl() == old(self).ttl(),
            final(self).full_scan_at() == old(self).full_scan_at(),
            final(db).may_fail() == old(db).may_fail(),
            final(db).calls() == old(db).calls() + 1,
            r is Ok ==> (table_of(old(db).tables(), old(self).table()) matches Some(tm)
                && final(db).tables() == upsert(
                old(db).tables(),
                old(self).table(),
                (TableModel { items: remove_key(tm.items, k@), ..tm }),
            ) && final(self).entries() == old(self).entries().remove(k@)),
            r is Err ==> final(db).tables() == old(db).tables() && final(self).entries() == old(
                self,
            ).entries(),
            !old(db).may_fail() && table_of(old(db).tables(), old(self).table()) is Some ==> r
                is Ok,
    {
        let result = self.internal.delete::<T, D>(db, k);
        match result {
            Ok(()) => {
                self.cached.remove(k);
                proof {
                    assert(self.entries() =~= old(self).entries().remove(k@));
                }
                Ok(())
            },
            Err(e) => Err(e),
        }
    }
}

/// The cache after a successful full scan: every scanned record overwrites
/// its entry under its own primary key, in scan order, stamped `now`.
pub open spec fn extend_entries<T: Record>(
    m: Map<Seq<char>, (T::V, i64)>,
    vs: Seq<T::V>,
    now: i64,
) -> Map<Seq<char>, (T::V, i64)>
    decreases vs.len(),
{
    if vs.len() == 0 {
        m
    } else {
        extend_entries::<T>(m, vs.drop_last(), now).insert(
            T::primary_key_of(vs.last()),
            (vs.last(), now),
        )
    }
}

/// Round trip: a successful `put(k, v)` leaves the cache entry for `k`
/// holding exactly `v`'s value, so a `get(k)` inside the TTL window returns
/// a value deep-equal to `v`; and it leaves the store holding `v`'s
/// encoding under `k`, which decodes back to `v`, so a `get(k)` past the
/// window returns the same value from the store. This holds for every
/// record type, by each type's round-trip obligation.
pub proof fn lemma_put_then_get_roundtrip<T: Record>(
    entries: Map<Seq<char>, (<T as View>::V, i64)>,
    items: Seq<(Seq<char>, crate::codec::ItemView)>,
    k: Seq<char>,
    v: <T as View>::V,
    now: i64,
)
    ensures
        entries.insert(k, (v, now))[k].0 == v,
        crate::assoc::lookup(upsert(items, k, T::spec_encode(v)), k) == Some(T::spec_encode(v)),
        T::spec_decode(T::spec_encode(v)) == Some(v),
{
    crate::assoc::lemma_lookup_upsert_same(items, k, T::spec_encode(v));
    T::encode_decode_roundtrip(v);
}

/// A key that was just evicted can never be served fresh: a later read must
/// go to the store.
pub proof fn lemma_deleted_key_not_fresh<T: Record>(
    c: CachingDynamoDBColumn<T>,
    k: Seq<char>,
    now: i64,
)
    requires
        !c.entries().dom().contains(k),
    ensures
        !c.is_fresh(k, now),
{
}

} // verus!
