//! The remote store's protocol, as the contract every backing store obeys.
//!
//! A store holds tables; a table has a single hash-key attribute, fixed
//! provisioned capacity, and items addressed by key. The store exposes only
//! primitive operations: existence probe, table creation, single-item
//! get/put/delete, and a paginated scan driven by a continuation token.
//!
//! Every operation counts as one wire call, and any operation may fail for
//! transport reasons; `may_fail` says whether the store reserves that right.
//! A store that does not (`may_fail()` is false, as for the in-memory store
//! once its failure hook is off) owes success whenever the contract below
//! promises it.
use vstd::prelude::*;

use crate::assoc::{lookup, remove_key, upsert};
use crate::codec::{Item, ItemView};

verus! {

/// The logical contents of one table.
pub struct TableModel {
    /// The name of the table's single hash-key attribute.
    pub key_name: Seq<char>,
    /// Provisioned read capacity units.
    pub read_capacity: u64,
    /// Provisioned write capacity units.
    pub write_capacity: u64,
    /// The stored items in scan order, each under its key.
    pub items: Seq<(Seq<char>, ItemView)>,
}

/// The table stored under `name`, if any.
pub open spec fn table_of(
    tables: Seq<(Seq<char>, TableModel)>,
    name: Seq<char>,
) -> Option<TableModel> {
    lookup(tables, name)
}

/// The item stored under key `k` of table `name`, if any.
pub open spec fn item_of(
    tables: Seq<(Seq<char>, TableModel)>,
    name: Seq<char>,
    k: Seq<char>,
) -> Option<ItemView> {
    match table_of(tables, name) {
        Some(tm) => lookup(tm.items, k),
        None => None,
    }
}

/// The values of an item sequence, in scan order.
pub open spec fn values_of(items: Seq<(Seq<char>, ItemView)>) -> Seq<ItemView> {
    items.map_values(|p: (Seq<char>, ItemView)| p.1)
}

/// The values of a sequence of exec items.
pub open spec fn views_of_items(s: Seq<Item>) -> Seq<ItemView> {
    s.map_values(|it: Item| it@)
}

/// Appending an item appends its value.
pub proof fn lemma_views_of_items_push(s: Seq<Item>, x: Item)
    ensures
        views_of_items(s.push(x)) == views_of_items(s).push(x@),
{
    assert(views_of_items(s.push(x)) =~= views_of_items(s).push(x@));
}

/// One served scan page: the window `[s, e)` of the table's items, with the
/// continuation token that goes with it. A window is non-empty unless the
/// scan is already past the end, and the token is the position to resume
/// from, or nothing when the scan is complete.
pub open spec fn scan_window(
    tm: TableModel,
    s: int,
    e: int,
    items: Seq<ItemView>,
    next: Option<u64>,
) -> bool {
    &&& s <= e <= tm.items.len()
    &&& e <= u64::MAX
    &&& (s < tm.items.len() ==> e > s)
    &&& items == values_of(tm.items.subrange(s, e))
    &&& next == (if e < tm.items.len() {
        Some(e as u64)
    } else {
        None::<u64>
    })
}

/// The position a continuation token resumes from.
pub open spec fn start_pos(start: Option<u64>) -> int {
    match start {
        Some(t) => t as int,
        None => 0,
    }
}

/// What a successful scan page means: the table exists, the start position
/// `s` (the token's, or the beginning) is in range, and the page is some
/// window of the table from that position.
pub open spec fn scan_page_post(
    tables: Seq<(Seq<char>, TableModel)>,
    table: Seq<char>,
    s: int,
    page_items: Seq<Item>,
    next: Option<u64>,
) -> bool {
    match table_of(tables, table) {
        Some(tm) => {
            &&& 0 <= s <= tm.items.len()
            &&& exists|e: int| #[trigger] scan_window(tm, s, e, views_of_items(page_items), next)
        },
        None => false,
    }
}

/// The model of a key/value pair sequence whose exec keys are `String`s.
pub open spec fn pairs_view<V: View>(s: Seq<(String, V)>) -> Seq<(Seq<char>, V::V)> {
    s.map_values(|p: (String, V)| (p.0@, p.1@))
}

/// A position holding key `k` with no earlier match is what `key_index`
/// finds in the sequence's model.
pub proof fn lemma_found_key<V: View>(s: Seq<(String, V)>, k: Seq<char>, i: int)
    requires
        0 <= i < s.len(),
        s[i].0@ == k,
        forall|j: int| 0 <= j < i ==> s[j].0@ != k,
    ensures
        crate::assoc::key_index(pairs_view(s), k) == i,
{
    assert(forall|j: int| 0 <= j < s.len() ==> pairs_view(s)[j].0 == s[j].0@);
    crate::assoc::lemma_key_index_at(pairs_view(s), k, i);
}

/// When no pair holds key `k`, neither does the sequence's model.
pub proof fn lemma_no_key<V: View>(s: Seq<(String, V)>, k: Seq<char>)
    requires
        forall|j: int| 0 <= j < s.len() ==> s[j].0@ != k,
    ensures
        crate::assoc::key_index(pairs_view(s), k) == -1,
{
    assert(forall|j: int| 0 <= j < s.len() ==> pairs_view(s)[j].0 == s[j].0@);
    crate::assoc::lemma_key_index_none(pairs_view(s), k);
}

/// Updating one pair updates the model pointwise.
pub proof fn lemma_pairs_view_update<V: View>(s: Seq<(String, V)>, i: int, p: (String, V))
    requires
        0 <= i < s.len(),
    ensures
        pairs_view(s.update(i, p)) == pairs_view(s).update(i, (p.0@, p.1@)),
{
    assert(pairs_view(s.update(i, p)) =~= pairs_view(s).update(i, (p.0@, p.1@)));
}

/// Appending a pair appends to the model.
pub proof fn lemma_pairs_view_push<V: View>(s: Seq<(String, V)>, p: (String, V))
    ensures
        pairs_view(s.push(p)) == pairs_view(s).push((p.0@, p.1@)),
{
    assert(pairs_view(s.push(p)) =~= pairs_view(s).push((p.0@, p.1@)));
}

/// Removing a pair removes from the model.
pub proof fn lemma_pairs_view_remove<V: View>(s: Seq<(String, V)>, i: int)
    requires
        0 <= i < s.len(),
    ensures
        pairs_view(s.remove(i)) == pairs_view(s).remove(i),
{
    assert(pairs_view(s.remove(i)) =~= pairs_view(s).remove(i));
}

/// Inserting a pair inserts into the model.
pub proof fn lemma_pairs_view_insert<V: View>(s: Seq<(String, V)>, i: int, p: (String, V))
    requires
        0 <= i <= s.len(),
    ensures
        pairs_view(s.insert(i, p)) == pairs_view(s).insert(i, (p.0@, p.1@)),
{
    assert(pairs_view(s.insert(i, p)) =~= pairs_view(s).insert(i, (p.0@, p.1@)));
}

/// Removing then re-inserting at the same position is an in-place update.
pub proof fn lemma_remove_insert<A>(s: Seq<A>, i: int, x: A)
    requires
        0 <= i < s.len(),
    ensures
        s.remove(i).insert(i, x) == s.update(i, x),
{
    assert(s.remove(i).insert(i, x) =~= s.update(i, x));
}

/// A remote key-value store.
///
/// The model is `tables()`: each table's contents in scan order. `calls()`
/// counts wire calls served, so a contract can say that an operation did, or
/// did not, reach the store. `may_fail()` is stable across operations; while
/// it is false, the operations below may not report transport failure where
/// their contract owes success.
pub trait Database: Sized {
    /// The store's logical contents.
    spec fn tables(&self) -> Seq<(Seq<char>, TableModel)>;

    /// How many wire calls the store has served.
    spec fn calls(&self) -> nat;

    /// Whether a request may fail for transport reasons.
    spec fn may_fail(&self) -> bool;

    /// Probe whether a table exists. Never alters contents.
    fn table_exists(&mut self, table: &str) -> (r: Result<bool, String>)
        ensures
            final(self).tables() == old(self).tables(),
            final(self).may_fail() == old(self).may_fail(),
            final(self).calls() == old(self).calls() + 1,
            r matches Ok(b) ==> (b <==> table_of(old(self).tables(), table@) is Some),
            !old(self).may_fail() ==> r is Ok,
    ;

    /// Create a table with the given hash-key attribute and capacity.
    /// Creating a table that already exists is a store-level error.
    fn create_table(
        &mut self,
        table: &str,
        key_name: &str,
        read_capacity: u64,
        write_capacity: u64,
    ) -> (r: Result<(), String>)
        ensures
            final(self).may_fail() == old(self).may_fail(),
            final(self).calls() == old(self).calls() + 1,
            r is Ok ==> table_of(old(self).tables(), table@) is None && final(self).tables()
                == old(self).tables().push(
                (
                    table@,
                    (TableModel {
                        key_name: key_name@,
                        read_capacity,
                        write_capacity,
                        items: Seq::empty(),
                    }),
                ),
            ),
            r is Err ==> final(self).tables() == old(self).tables(),
            !old(self).may_fail() && table_of(old(self).tables(), table@) is None ==> r is Ok,
    ;

    /// Fetch the item under `key`, or report that none is there.
    fn get_item(&mut self, table: &str, key: &str) -> (r: Result<Option<Item>, String>)
        ensures
            final(self).tables() == old(self).tables(),
            final(self).may_fail() == old(self).may_fail(),
            final(self).calls() == old(self).calls() + 1,
            r matches Ok(o) ==> table_of(old(self).tables(), table@) is Some && (match o {
                Some(i) => item_of(old(self).tables(), table@, key@) == Some(i@),
                None => item_of(old(self).tables(), table@, key@) is None,
            }),
            !old(self).may_fail() && table_of(old(self).tables(), table@) is Some ==> r is Ok,
    ;

    /// Store `item` under `key`: a full replace of whatever was there.
    fn put_item(&mut self, table: &str, key: &str, item: Item) -> (r: Result<(), String>)
        ensures
            final(self).may_fail() == old(self).may_fail(),
            final(self).calls() == old(self).calls() + 1,
            r is Ok ==> (table_of(old(self).tables(), table@) matches Some(tm)
                && final(self).tables() == upsert(
                old(self).tables(),
                table@,
                (TableModel { items: upsert(tm.items, key@, item@), ..tm }),
            )),
            r is Err ==> final(self).tables() == old(self).tables(),
            !old(self).may_fail() && table_of(old(self).tables(), table@) is Some ==> r is Ok,
    ;

    /// Remove the item under `key`; removing an absent key is not an error.
    fn delete_item(&mut self, table: &str, key: &str) -> (r: Result<(), String>)
        ensures
            final(self).may_fail() == old(self).may_fail(),
            final(self).calls() == old(self).calls() + 1,
            r is Ok ==> (table_of(old(self).tables(), table@) matches Some(tm)
                && final(self).tables() == upsert(
                old(self).tables(),
                table@,
                (TableModel { items: remove_key(tm.items, key@), ..tm }),
            )),
            r is Err ==> final(self).tables() == old(self).tables(),
            !old(self).may_fail() && table_of(old(self).tables(), table@) is Some ==> r is Ok,
    ;

    /// Serve one scan page, starting at the given continuation token (or at
    /// the beginning). A successful page is a non-empty contiguous run of the
    /// table's items unless the scan is already past the end; the returned
    /// token is the position to resume from, or nothing when the scan is
    /// complete.
    fn scan_page(&mut self, table: &str, start: Option<u64>) -> (r: Result<
        (Vec<Item>, Option<u64>),
        String,
    >)
        ensures
            final(self).tables() == old(self).tables(),
            final(self).may_fail() == old(self).may_fail(),
            final(self).calls() == old(self).calls() + 1,
            r matches Ok(page) ==> scan_page_post(
                old(self).tables(),
                table@,
                start_pos(start),
                page.0@,
                page.1,
            ),
            !old(self).may_fail() && (table_of(old(self).tables(), table@) matches Some(tm)
                && (match start {
                Some(t) => t as int <= tm.items.len(),
                None => true,
            })) ==> r is Ok,
    ;
}

} // verus!
