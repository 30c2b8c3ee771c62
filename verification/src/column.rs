//! The store client for one table: typed operations over the wire protocol.
//!
//! A column translates typed records to and from the store's flat attribute
//! items, drives the paginated scan to completion, and provisions its table
//! idempotently. It holds no cache; the caching layer sits on top of it.
use vstd::prelude::*;

use crate::assoc::{remove_key, upsert};
use crate::codec::{decode_seq, lemma_decode_seq_none, lemma_decode_seq_push, lemma_views_of_push,
    views_of, PrimaryKeyName, Record};
use crate::store::{
    item_of, scan_page_post, scan_window, start_pos, table_of, values_of, views_of_items, Database,
    TableModel,
};

verus! {

/// A handle on one logical table of the store.
pub struct DynamoDBColumn {
    pub table_name: String,
}

impl DynamoDBColumn {
    /// A handle on the table of the given name.
    pub fn new(table_name: &str) -> (r: Self)
        ensures
            r.table_name@ == table_name@,
    {
        DynamoDBColumn { table_name: table_name.to_owned() }
    }

    /// Ensure this column's table exists: probe for it, and create it with
    /// the record type's key attribute and fixed baseline capacity (10 read
    /// units, 5 write units) if the probe does not find it. Creation is
    /// best-effort: a failure to probe or create is swallowed, and later
    /// operations against a truly missing table fail on their own.
    pub fn provision_table<T: PrimaryKeyName, D: Database>(&self, db: &mut D)
        ensures
            final(db).may_fail() == old(db).may_fail(),
            old(db).calls() < final(db).calls() <= old(db).calls() + 2,
            final(db).tables() == old(db).tables() || (table_of(
                old(db).tables(),
                self.table_name@,
            ) is None && final(db).tables() == old(db).tables().push(
                (
                    self.table_name@,
                    (TableModel {
                        key_name: T::spec_primary_key_name(),
                        read_capacity: 10,
                        write_capacity: 5,
                        items: Seq::empty(),
                    }),
                ),
            )),
            !old(db).may_fail() ==> table_of(final(db).tables(), self.table_name@) is Some,
    {
        let ghost tables0 = db.tables();
        match db.table_exists(self.table_name.as_str()) {
            Ok(true) => {},
            Ok(false) | Err(_) => {
                let r = db.create_table(
                    self.table_name.as_str(),
                    T::get_primary_key_name(),
                    10,
                    5,
                );
                proof {
                    if r is Ok {
                        crate::assoc::lemma_key_index(tables0, self.table_name@);
                        let tm = TableModel {
                            key_name: T::spec_primary_key_name(),
                            read_capacity: 10,
                            write_capacity: 5,
                            items: Seq::empty(),
                        };
                        crate::assoc::lemma_lookup_upsert_same(tables0, self.table_name@, tm);
                        assert(upsert(tables0, self.table_name@, tm) == tables0.push(
                            (self.table_name@, tm),
                        ));
                    }
                }
            },
        }
    }

    /// Fetch and decode every item of the table, following continuation
    /// tokens until the scan is complete. The result holds the whole table
    /// in scan order; a page that fails, or an item that does not decode,
    /// fails the call without a partial result.
    pub fn get_values<T: Record, D: Database>(&self, db: &mut D) -> (r: Result<Vec<T>, String>)
        ensures
            final(db).tables() == old(db).tables(),
            final(db).may_fail() == old(db).may_fail(),
            final(db).calls() > old(db).calls(),
            r matches Ok(vs) ==> (table_of(old(db).tables(), self.table_name@) matches Some(tm)
                && decode_seq::<T>(values_of(tm.items)) == Some(views_of(vs@))),
            !old(db).may_fail() && (table_of(old(db).tables(), self.table_name@) matches Some(tm)
                && decode_seq::<T>(values_of(tm.items)) is Some) ==> r is Ok,
    {
        let ghost tables0 = db.tables();
        let ghost mayfail0 = db.may_fail();
        let ghost calls0 = db.calls();
        let mut results: Vec<T> = Vec::new();
        let mut token: Option<u64> = None;
        let ghost mut pos: int = 0;
        loop
            invariant_except_break
                table_of(tables0, self.table_name@) matches Some(tm) ==> (match token {
                    Some(t) => t as int == pos && pos < tm.items.len(),
                    None => pos == 0,
                }),
                token is Some ==> table_of(tables0, self.table_name@) is Some,
            invariant
                tables0 == old(db).tables(),
                mayfail0 == old(db).may_fail(),
                calls0 == old(db).calls(),
                db.tables() == tables0,
                db.may_fail() == mayfail0,
                db.calls() >= calls0,
                table_of(tables0, self.table_name@) matches Some(tm) ==> {
                    &&& 0 <= pos <= tm.items.len()
                    &&& decode_seq::<T>(values_of(tm.items.subrange(0, pos))) == Some(
                        views_of(results@),
                    )
                },
            ensures
                db.tables() == tables0,
                db.may_fail() == mayfail0,
                db.calls() > calls0,
                table_of(tables0, self.table_name@) matches Some(tm) && decode_seq::<T>(
                    values_of(tm.items),
                ) == Some(views_of(results@)),
            decreases (match table_of(tables0, self.table_name@) {
                Some(tm) => tm.items.len() - pos + 1,
                None => 1,
            }),
        {
            let page = match db.scan_page(self.table_name.as_str(), token) {
                Ok(p) => p,
                Err(e) => {
                    return Err(e);
                },
            };
            let (items, next) = page;
            proof {
                assert(scan_page_post(tables0, self.table_name@, start_pos(token), items@, next));
                assert(start_pos(token) == pos);
            }
            let ghost tm = table_of(tables0, self.table_name@)->Some_0;
            proof {
                assert(exists|e2: int|
                    #[trigger] scan_window(tm, pos, e2, views_of_items(items@), next)) by {
                    let w = choose|e: int|
                        #[trigger] scan_window(
                            tm,
                            start_pos(token),
                            e,
                            views_of_items(items@),
                            next,
                        );
                    assert(scan_window(tm, pos, w, views_of_items(items@), next));
                }
            }
            let ghost e2 = choose|e2: int|
                #[trigger] scan_window(tm, pos, e2, views_of_items(items@), next);
            proof {
                assert(scan_window(tm, pos, e2, views_of_items(items@), next));
                assert(views_of_items(items@).len() == items@.len());
                assert(values_of(tm.items.subrange(pos, e2)).len() == e2 - pos);
            }
            let mut i: usize = 0;
            while i < items.len()
                invariant
                    tables0 == old(db).tables(),
                    mayfail0 == old(db).may_fail(),
                    calls0 == old(db).calls(),
                    db.tables() == tables0,
                    db.may_fail() == mayfail0,
                    db.calls() > calls0,
                    scan_window(tm, pos, e2, views_of_items(items@), next),
                    table_of(tables0, self.table_name@) == Some(tm),
                    i <= items.len(),
                    items@.len() == e2 - pos,
                    decode_seq::<T>(values_of(tm.items.subrange(0, pos + i))) == Some(
                        views_of(results@),
                    ),
                    0 <= pos <= e2 <= tm.items.len(),
                decreases items.len() - i,
            {
                let v: T = match T::decode(&items[i]) {
                    Some(v) => v,
                    None => {
                        proof {
                            assert(views_of_items(items@)[i as int] == items@[i as int]@);
                            assert(values_of(tm.items.subrange(pos, e2))[i as int]
                                == tm.items[pos + i].1);
                            assert(values_of(tm.items)[pos + i] == tm.items[pos + i].1);
                            lemma_decode_seq_none::<T>(values_of(tm.items), pos + i);
                        }
                        return Err("item does not decode to the expected record".to_owned());
                    },
                };
                let ghost results0 = results@;
                results.push(v);
                proof {
                    lemma_views_of_push(results0, results@.last());
                    assert(views_of_items(items@)[i as int] == items@[i as int]@);
                    assert(values_of(tm.items.subrange(pos, e2))[i as int] == tm.items[pos
                        + i].1);
                    assert(tm.items.subrange(0, pos + i + 1) =~= tm.items.subrange(
                        0,
                        pos + i,
                    ).push(tm.items[pos + i]));
                    assert(values_of(tm.items.subrange(0, pos + i).push(tm.items[pos + i]))
                        =~= values_of(tm.items.subrange(0, pos + i)).push(tm.items[pos + i].1));
                    lemma_decode_seq_push::<T>(
                        values_of(tm.items.subrange(0, pos + i)),
                        tm.items[pos + i].1,
                    );
                    assert(T::spec_decode(tm.items[pos + i].1) == Some(results@.last()@));
                    assert(decode_seq::<T>(values_of(tm.items.subrange(0, pos + i + 1))) == Some(
                        views_of(results@),
                    ));
                }
                i = i + 1;
            }
            proof {
                pos = e2;
            }
            token = next;
            if token.is_none() {
                proof {
                    assert(pos == tm.items.len());
                    assert(tm.items.subrange(0, pos) =~= tm.items);
                }
                break;
            }
        }
        Ok(results)
    }

    /// Fetch the record under `k`, or report that none is there. An item
    /// that does not decode to `T` is an encoding failure, not absence.
    pub fn get<T: Record, D: Database>(&self, db: &mut D, k: &str) -> (r: Result<Option<T>, String>)
        ensures
            final(db).tables() == old(db).tables(),
            final(db).may_fail() == old(db).may_fail(),
            final(db).calls() == old(db).calls() + 1,
            r matches Ok(Some(v)) ==> (item_of(old(db).tables(), self.table_name@, k@) matches Some(
                iv,
            ) && T::spec_decode(iv) == Some(v@)),
            r matches Ok(None) ==> table_of(old(db).tables(), self.table_name@) is Some && item_of(
                old(db).tables(),
                self.table_name@,
                k@,
            ) is None,
            !old(db).may_fail() && table_of(old(db).tables(), self.table_name@) is Some && (match
                item_of(old(db).tables(), self.table_name@, k@) {
                None => true,
                Some(iv) => T::spec_decode(iv) is Some,
            }) ==> r is Ok,
    {
        match db.get_item(self.table_name.as_str(), k) {
            Ok(Some(item)) => match T::decode(&item) {
                Some(v) => Ok(Some(v)),
                None => Err("item does not decode to the expected record".to_owned()),
            },
            Ok(None) => Ok(None),
            Err(e) => Err(e),
        }
    }

    /// Encode `v` and store it under `k`: a full replace, not conditioned
    /// on what the store currently holds there.
    pub fn put<T: Record, D: Database>(&self, db: &mut D, k: &str, v: &T) -> (r: Result<
        (),
        String,
    >)
        ensures
            final(db).may_fail() == old(db).may_fail(),
            final(db).calls() == old(db).calls() + 1,
            r is Ok ==> (table_of(old(db).tables(), self.table_name@) matches Some(tm)
                && final(db).tables() == upsert(
                old(db).tables(),
                self.table_name@,
                (TableModel { items: upsert(tm.items, k@, T::spec_encode(v@)), ..tm }),
            )),
            r is Err ==> final(db).tables() == old(db).tables(),
            !old(db).may_fail() && table_of(old(db).tables(), self.table_name@) is Some ==> r
                is Ok,
    {
        let item = v.encode();
        db.put_item(self.table_name.as_str(), k, item)
    }

    /// Remove the record under `k`; removing an absent key is not an error.
    pub fn delete<T: PrimaryKeyName, D: Database>(&self, db: &mut D, k: &str) -> (r: Result<
        (),
        String,
    >)
        ensures
            final(db).may_fail() == old(db).may_fail(),
            final(db).calls() == old(db).calls() + 1,
            r is Ok ==> (table_of(old(db).tables(), self.table_name@) matches Some(tm)
                && final(db).tables() == upsert(
                old(db).tables(),
                self.table_name@,
                (TableModel { items: remove_key(tm.items, k@), ..tm }),
            )),
            r is Err ==> final(db).tables() == old(db).tables(),
            !old(db).may_fail() && table_of(old(db).tables(), self.table_name@) is Some ==> r
                is Ok,
    {
        db.delete_item(self.table_name.as_str(), k)
    }
}

} // verus!
