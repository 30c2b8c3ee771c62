//! An in-memory store that obeys the remote store's protocol exactly.
//!
//! It keeps each table's items in scan (insertion) order, serves scans in
//! pages of a configurable size, counts every wire call it serves, and can be
//! told to refuse requests, so that callers' behaviour under transport
//! failure can be exercised. It is the substitute store that the tests drive;
//! the verified client and cache layers are generic over [`Database`] and
//! treat it exactly as they would a remote one.
use vstd::prelude::*;

use crate::assoc::{remove_key, upsert};
use crate::codec::{Item, ItemView};
use crate::store::{
    lemma_found_key, lemma_no_key, lemma_pairs_view_insert, lemma_pairs_view_push,
    lemma_pairs_view_remove, lemma_remove_insert, pairs_view, table_of, Database, TableModel,
};

verus! {

/// One table: its hash-key attribute, capacity, and items in scan order.
pub struct Table {
    pub key_name: String,
    pub read_capacity: u64,
    pub write_capacity: u64,
    pub items: Vec<(String, Item)>,
}

impl View for Table {
    type V = TableModel;

    open spec fn view(&self) -> TableModel {
        TableModel {
            key_name: self.key_name@,
            read_capacity: self.read_capacity,
            write_capacity: self.write_capacity,
            items: pairs_view(self.items@),
        }
    }
}

/// The in-memory store.
pub struct DynamoDB {
    tables: Vec<(String, Table)>,
    page_size: usize,
    fail_requests: bool,
    served: u64,
    count: Ghost<nat>,
}

/// The first position in `v` whose key equals `k`, if any.
fn find_key_string<V>(v: &Vec<(String, V)>, k: &str) -> (r: Option<usize>)
    ensures
        match r {
            Some(i) => i < v.len() && v@[i as int].0@ == k@ && (forall|j: int|
                0 <= j < i ==> v@[j].0@ != k@),
            None => forall|j: int| 0 <= j < v@.len() ==> v@[j].0@ != k@,
        },
{
    let key: String = k.to_owned();
    let mut i: usize = 0;
    while i < v.len()
        invariant
            i <= v.len(),
            key@ == k@,
            forall|j: int| 0 <= j < i ==> v@[j].0@ != k@,
        decreases v.len() - i,
    {
        if v[i].0 == key {
            return Some(i);
        }
        i = i + 1;
    }
    None
}

impl DynamoDB {
    /// An empty store that serves scans in pages of `page_size` items
    /// (a page size of zero is served as one).
    pub fn new(page_size: usize) -> (r: Self)
        ensures
            r.tables() == Seq::<(Seq<char>, TableModel)>::empty(),
            r.calls() == 0,
            !r.may_fail(),
    {
        let r = DynamoDB {
            tables: Vec::new(),
            page_size,
            fail_requests: false,
            served: 0,
            count: Ghost(0),
        };
        proof {
            assert(pairs_view(r.tables@) =~= Seq::<(Seq<char>, TableModel)>::empty());
        }
        r
    }

    /// Tell the store to refuse every request (or to serve again).
    pub fn set_fail(&mut self, fail: bool)
        ensures
            final(self).tables() == old(self).tables(),
            final(self).calls() == old(self).calls(),
            final(self).may_fail() == fail,
    {
        self.fail_requests = fail;
    }

    /// How many wire calls this store has served, saturating at the
    /// largest machine count. The ghost `calls()` model is authoritative;
    /// this mirror of it is what a test reads at run time.
    pub fn call_count(&self) -> (r: u64) {
        self.served
    }

    /// Record one served wire call.
    fn bump(&mut self)
        ensures
            final(self).tables == old(self).tables,
            final(self).page_size == old(self).page_size,
            final(self).fail_requests == old(self).fail_requests,
            final(self).count@ == old(self).count@ + 1,
    {
        if self.served < u64::MAX {
            self.served = self.served + 1;
        }
        proof {
            self.count@ = self.count@ + 1;
        }
    }
}

impl Database for DynamoDB {
    closed spec fn tables(&self) -> Seq<(Seq<char>, TableModel)> {
        pairs_view(self.tables@)
    }

    closed spec fn calls(&self) -> nat {
        self.count@
    }

    closed spec fn may_fail(&self) -> bool {
        self.fail_requests
    }

    fn table_exists(&mut self, table: &str) -> (r: Result<bool, String>) {
        self.bump();
        if self.fail_requests {
            return Err("transport failure: request refused".to_owned());
        }
        match find_key_string(&self.tables, table) {
            Some(i) => {
                proof {
                    lemma_found_key(self.tables@, table@, i as int);
                }
                Ok(true)
            },
            None => {
                proof {
                    lemma_no_key(self.tables@, table@);
                }
                Ok(false)
            },
        }
    }

    fn create_table(
        &mut self,
        table: &str,
        key_name: &str,
        read_capacity: u64,
        write_capacity: u64,
    ) -> (r: Result<(), String>) {
        self.bump();
        if self.fail_requests {
            return Err("transport failure: request refused".to_owned());
        }
        match find_key_string(&self.tables, table) {
            Some(i) => {
                proof {
                    lemma_found_key(self.tables@, table@, i as int);
                }
                Err("table already exists".to_owned())
            },
            None => {
                proof {
                    lemma_no_key(self.tables@, table@);
                }
                let ghost tables0 = self.tables@;
                let t = Table {
                    key_name: key_name.to_owned(),
                    read_capacity,
                    write_capacity,
                    items: Vec::new(),
                };
                proof {
                    assert(pairs_view(t.items@) =~= Seq::<(Seq<char>, ItemView)>::empty());
                }
                self.tables.push((table.to_owned(), t));
                proof {
                    lemma_pairs_view_push(tables0, self.tables@[tables0.len() as int]);
                }
                Ok(())
            },
        }
    }

    fn get_item(&mut self, table: &str, key: &str) -> (r: Result<Option<Item>, String>) {
        self.bump();
        if self.fail_requests {
            return Err("transport failure: request refused".to_owned());
        }
        let ti = match find_key_string(&self.tables, table) {
            Some(i) => i,
            None => {
                proof {
                    lemma_no_key(self.tables@, table@);
                }
                return Err("no such table".to_owned());
            },
        };
        proof {
            lemma_found_key(self.tables@, table@, ti as int);
        }
        let t = &self.tables[ti].1;
        match find_key_string(&t.items, key) {
            Some(ii) => {
                proof {
                    lemma_found_key(t.items@, key@, ii as int);
                }
                Ok(Some(t.items[ii].1.duplicate()))
            },
            None => {
                proof {
                    lemma_no_key(t.items@, key@);
                }
                Ok(None)
            },
        }
    }

    fn put_item(&mut self, table: &str, key: &str, item: Item) -> (r: Result<(), String>) {
        self.bump();
        if self.fail_requests {
            return Err("transport failure: request refused".to_owned());
        }
        let ti = match find_key_string(&self.tables, table) {
            Some(i) => i,
            None => {
                proof {
                    lemma_no_key(self.tables@, table@);
                }
                return Err("no such table".to_owned());
            },
        };
        proof {
            lemma_found_key(self.tables@, table@, ti as int);
        }
        let ghost tables0 = self.tables@;
        let ghost tm0 = self.tables@[ti as int].1@;
        let ghost iv = item@;
        let (tname, mut t) = self.tables.remove(ti);
        let ghost items0 = t.items@;
        match find_key_string(&t.items, key) {
            Some(ii) => {
                proof {
                    lemma_found_key(items0, key@, ii as int);
                }
                t.items.remove(ii);
                t.items.insert(ii, (key.to_owned(), item));
                proof {
                    lemma_pairs_view_remove(items0, ii as int);
                    lemma_pairs_view_insert(
                        items0.remove(ii as int),
                        ii as int,
                        t.items@[ii as int],
                    );
                    lemma_remove_insert(pairs_view(items0), ii as int, (key@, iv));
                    assert(pairs_view(t.items@) == upsert(pairs_view(items0), key@, iv));
                }
            },
            None => {
                proof {
                    lemma_no_key(items0, key@);
                }
                t.items.push((key.to_owned(), item));
                proof {
                    lemma_pairs_view_push(items0, t.items@[items0.len() as int]);
                    assert(pairs_view(t.items@) == upsert(pairs_view(items0), key@, iv));
                }
            },
        }
        proof {
            assert(t@ == (TableModel { items: upsert(tm0.items, key@, iv), ..tm0 }));
        }
        let ghost t1 = t@;
        self.tables.insert(ti, (tname, t));
        proof {
            lemma_pairs_view_remove(tables0, ti as int);
            lemma_pairs_view_insert(tables0.remove(ti as int), ti as int, self.tables@[ti as int]);
            lemma_remove_insert(pairs_view(tables0), ti as int, (table@, t1));
            assert(pairs_view(self.tables@) == upsert(pairs_view(tables0), table@, t1));
        }
        Ok(())
    }

    fn delete_item(&mut self, table: &str, key: &str) -> (r: Result<(), String>) {
        self.bump();
        if self.fail_requests {
            return Err("transport failure: request refused".to_owned());
        }
        let ti = match find_key_string(&self.tables, table) {
            Some(i) => i,
            None => {
                proof {
                    lemma_no_key(self.tables@, table@);
                }
                return Err("no such table".to_owned());
            },
        };
        proof {
            lemma_found_key(self.tables@, table@, ti as int);
        }
        let ghost tables0 = self.tables@;
        let ghost tm0 = self.tables@[ti as int].1@;
        let (tname, mut t) = self.tables.remove(ti);
        let ghost items0 = t.items@;
        match find_key_string(&t.items, key) {
            Some(ii) => {
                proof {
                    lemma_found_key(items0, key@, ii as int);
                }
                t.items.remove(ii);
                proof {
                    lemma_pairs_view_remove(items0, ii as int);
                    assert(pairs_view(t.items@) == remove_key(pairs_view(items0), key@));
                }
            },
            None => {
                proof {
                    lemma_no_key(items0, key@);
                    assert(pairs_view(t.items@) == remove_key(pairs_view(items0), key@));
                }
            },
        }
        proof {
            assert(t@ == (TableModel { items: remove_key(tm0.items, key@), ..tm0 }));
        }
        let ghost t1 = t@;
        self.tables.insert(ti, (tname, t));
        proof {
            lemma_pairs_view_remove(tables0, ti as int);
            lemma_pairs_view_insert(tables0.remove(ti as int), ti as int, self.tables@[ti as int]);
            lemma_remove_insert(pairs_view(tables0), ti as int, (table@, t1));
            assert(pairs_view(self.tables@) == upsert(pairs_view(tables0), table@, t1));
        }
        Ok(())
    }

    #[verifier::rlimit(60)]
    fn scan_page(&mut self, table: &str, start: Option<u64>) -> (r: Result<
        (Vec<Item>, Option<u64>),
        String,
    >) {
        self.bump();
        if self.fail_requests {
            return Err("transport failure: request refused".to_owned());
        }
        let ti = match find_key_string(&self.tables, table) {
            Some(i) => i,
            None => {
                proof {
                    lemma_no_key(self.tables@, table@);
                }
                return Err("no such table".to_owned());
            },
        };
        proof {
            lemma_found_key(self.tables@, table@, ti as int);
        }
        let page_size = self.page_size;
        let t = &self.tables[ti].1;
        let len = t.items.len();
        let s_idx: usize = match start {
            None => 0,
            Some(tok) => {
                if tok > len as u64 {
                    return Err("invalid continuation token".to_owned());
                }
                tok as usize
            },
        };
        let ps: usize = if page_size == 0 {
            1
        } else {
            page_size
        };
        let e: usize = if len - s_idx < ps {
            len
        } else {
            s_idx + ps
        };
        let ghost model = pairs_view(t.items@);
        let mut out: Vec<Item> = Vec::new();
        let mut j: usize = s_idx;
        while j < e
            invariant
                s_idx <= j <= e <= t.items.len(),
                t.items@.len() == model.len(),
                forall|x: int| 0 <= x < model.len() ==> model[x] == (t.items@[x].0@, t.items@[x].1@),
                crate::store::views_of_items(out@) == crate::store::values_of(
                    model.subrange(s_idx as int, j as int),
                ),
            decreases e - j,
        {
            let ghost out0 = out@;
            out.push(t.items[j].1.duplicate());
            proof {
                crate::store::lemma_views_of_items_push(out0, out@[out0.len() as int]);
                assert(model.subrange(s_idx as int, j + 1) =~= model.subrange(
                    s_idx as int,
                    j as int,
                ).push(model[j as int]));
                assert(crate::store::values_of(model.subrange(s_idx as int, j as int).push(
                    model[j as int],
                )) =~= crate::store::values_of(model.subrange(s_idx as int, j as int)).push(
                    model[j as int].1,
                ));
                assert(crate::store::views_of_items(out@) == crate::store::values_of(
                    model.subrange(s_idx as int, j + 1),
                ));
            }
            j = j + 1;
        }
        let next: Option<u64> = if e < len {
            Some(e as u64)
        } else {
            None
        };
        let r = Ok((out, next));
        proof {
            let st: int = match start {
                Some(tk) => tk as int,
                None => 0,
            };
            assert(st == s_idx as int);
            let ee = e as int;
            assert(table_of(self.tables(), table@) matches Some(tm2) && tm2.items == model);
            let tm2 = table_of(self.tables(), table@)->Some_0;
            let outv = crate::store::views_of_items(out@);
            assert(crate::store::scan_window(tm2, st, ee, outv, next));
            assert(exists|e2: int| #[trigger] crate::store::scan_window(tm2, st, e2, outv, next))
                by {
                assert(crate::store::scan_window(tm2, st, ee, outv, next));
            }
            assert(st == crate::store::start_pos(start));
            assert(crate::store::scan_page_post(self.tables(), table@, st, out@, next));
        }
        r
    }
}

} // verus!
