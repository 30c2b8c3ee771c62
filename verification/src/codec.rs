//! The store's flat attribute representation, and the encoding contract that
//! every cacheable record type satisfies.
//!
//! The remote store addresses items as flat attribute maps whose values are
//! strings, numbers, booleans, lists and maps. Typed records are encoded into
//! that shape before a write and decoded from it after a read; each record
//! type proves that decoding inverts encoding.
use vstd::prelude::*;

verus! {

/// A scalar attribute value: string, number, boolean, or explicit null.
///
/// Numbers travel as one wide signed integer, which covers every integer
/// field a record holds. Fields that the records mark optional are encoded
/// with `Null` when absent rather than being left out, so an item's shape
/// does not depend on which options are set.
pub enum Scalar {
    S(String),
    N(i128),
    B(bool),
    Null,
}

/// The mathematical value of a `Scalar`.
pub enum ScalarView {
    S(Seq<char>),
    N(i128),
    B(bool),
    Null,
}

impl View for Scalar {
    type V = ScalarView;

    open spec fn view(&self) -> ScalarView {
        match self {
            Scalar::S(s) => ScalarView::S(s@),
            Scalar::N(n) => ScalarView::N(*n),
            Scalar::B(b) => ScalarView::B(*b),
            Scalar::Null => ScalarView::Null,
        }
    }
}

/// A named collection of scalar attributes: the shape of one nested record.
pub type FlatPairs = Vec<(String, Scalar)>;

/// The mathematical value of `FlatPairs`.
pub type FlatPairsView = Seq<(Seq<char>, ScalarView)>;

/// The mathematical value of a flat attribute list.
pub open spec fn flat_view(m: Seq<(String, Scalar)>) -> FlatPairsView {
    m.map_values(|p: (String, Scalar)| (p.0@, p.1@))
}

/// The mathematical value of a list of scalars.
pub open spec fn scalars_view(l: Seq<Scalar>) -> Seq<ScalarView> {
    l.map_values(|s: Scalar| s@)
}

/// The mathematical value of a list of nested maps.
pub open spec fn flats_view(l: Seq<FlatPairs>) -> Seq<FlatPairsView> {
    l.map_values(|m: FlatPairs| flat_view(m@))
}

/// An attribute value as the store holds it: a scalar, a list of scalars,
/// a nested map of scalars, or a list of such maps.
pub enum AttrValue {
    Scalar(Scalar),
    ScalarList(Vec<Scalar>),
    Nested(FlatPairs),
    NestedList(Vec<FlatPairs>),
}

/// The mathematical value of an `AttrValue`.
pub enum AttrView {
    Scalar(ScalarView),
    ScalarList(Seq<ScalarView>),
    Nested(FlatPairsView),
    NestedList(Seq<FlatPairsView>),
}

impl View for AttrValue {
    type V = AttrView;

    open spec fn view(&self) -> AttrView {
        match self {
            AttrValue::Scalar(s) => AttrView::Scalar(s@),
            AttrValue::ScalarList(l) => AttrView::ScalarList(scalars_view(l@)),
            AttrValue::Nested(m) => AttrView::Nested(flat_view(m@)),
            AttrValue::NestedList(l) => AttrView::NestedList(flats_view(l@)),
        }
    }
}

/// One stored item: the flat attribute map for a single record.
pub struct Item {
    pub attrs: Vec<(String, AttrValue)>,
}

/// The mathematical value of an `Item`.
pub type ItemView = Seq<(Seq<char>, AttrView)>;

impl View for Item {
    type V = ItemView;

    open spec fn view(&self) -> ItemView {
        self.attrs@.map_values(|p: (String, AttrValue)| (p.0@, p.1@))
    }
}

// ---------------------------------------------------------------------------
// Reading one attribute value back into a typed field. Each spec function
// says exactly which shapes are accepted; the exec function mirrors it.
// ---------------------------------------------------------------------------

/// A string field from an attribute value.
pub open spec fn sv_string(a: AttrView) -> Option<Seq<char>> {
    match a {
        AttrView::Scalar(ScalarView::S(s)) => Some(s),
        _ => None,
    }
}

/// A `u32` field from an attribute value; out-of-range numbers are rejected.
pub open spec fn sv_u32(a: AttrView) -> Option<u32> {
    match a {
        AttrView::Scalar(ScalarView::N(n)) => if 0 <= n <= u32::MAX as i128 {
            Some(n as u32)
        } else {
            None
        },
        _ => None,
    }
}

/// A `u64` field from an attribute value; out-of-range numbers are rejected.
pub open spec fn sv_u64(a: AttrView) -> Option<u64> {
    match a {
        AttrView::Scalar(ScalarView::N(n)) => if 0 <= n <= u64::MAX as i128 {
            Some(n as u64)
        } else {
            None
        },
        _ => None,
    }
}

/// An `i64` field from an attribute value; out-of-range numbers are rejected.
pub open spec fn sv_i64(a: AttrView) -> Option<i64> {
    match a {
        AttrView::Scalar(ScalarView::N(n)) => if i64::MIN as i128 <= n <= i64::MAX as i128 {
            Some(n as i64)
        } else {
            None
        },
        _ => None,
    }
}

/// An optional string field: `Null` stands for an absent value.
pub open spec fn sv_opt_string(a: AttrView) -> Option<Option<Seq<char>>> {
    match a {
        AttrView::Scalar(ScalarView::S(s)) => Some(Some(s)),
        AttrView::Scalar(ScalarView::Null) => Some(None),
        _ => None,
    }
}

/// An optional `i64` field: `Null` stands for an absent value.
pub open spec fn sv_opt_i64(a: AttrView) -> Option<Option<i64>> {
    match a {
        AttrView::Scalar(ScalarView::N(n)) => if i64::MIN as i128 <= n <= i64::MAX as i128 {
            Some(Some(n as i64))
        } else {
            None
        },
        AttrView::Scalar(ScalarView::Null) => Some(None),
        _ => None,
    }
}

/// Read a string field.
pub fn take_string(a: &AttrValue) -> (r: Option<String>)
    ensures
        match r {
            Some(s) => sv_string(a@) == Some(s@),
            None => sv_string(a@) is None,
        },
{
    match a {
        AttrValue::Scalar(Scalar::S(s)) => Some(s.clone()),
        _ => None,
    }
}

/// Read a `u32` field.
pub fn take_u32(a: &AttrValue) -> (r: Option<u32>)
    ensures
        r == sv_u32(a@),
{
    match a {
        AttrValue::Scalar(Scalar::N(n)) => if 0 <= *n && *n <= u32::MAX as i128 {
            Some(*n as u32)
        } else {
            None
        },
        _ => None,
    }
}

/// Read a `u64` field.
pub fn take_u64(a: &AttrValue) -> (r: Option<u64>)
    ensures
        r == sv_u64(a@),
{
    match a {
        AttrValue::Scalar(Scalar::N(n)) => if 0 <= *n && *n <= u64::MAX as i128 {
            Some(*n as u64)
        } else {
            None
        },
        _ => None,
    }
}

/// Read an `i64` field.
pub fn take_i64(a: &AttrValue) -> (r: Option<i64>)
    ensures
        r == sv_i64(a@),
{
    match a {
        AttrValue::Scalar(Scalar::N(n)) => if i64::MIN as i128 <= *n && *n <= i64::MAX as i128 {
            Some(*n as i64)
        } else {
            None
        },
        _ => None,
    }
}

/// Read an optional string field.
pub fn take_opt_string(a: &AttrValue) -> (r: Option<Option<String>>)
    ensures
        match r {
            Some(Some(s)) => sv_opt_string(a@) == Some(Some(s@)),
            Some(None) => sv_opt_string(a@) == Some(None::<Seq<char>>),
            None => sv_opt_string(a@) is None,
        },
{
    match a {
        AttrValue::Scalar(Scalar::S(s)) => Some(Some(s.clone())),
        AttrValue::Scalar(Scalar::Null) => Some(None),
        _ => None,
    }
}

/// Read an optional `i64` field.
pub fn take_opt_i64(a: &AttrValue) -> (r: Option<Option<i64>>)
    ensures
        r == sv_opt_i64(a@),
{
    match a {
        AttrValue::Scalar(Scalar::N(n)) => if i64::MIN as i128 <= *n && *n <= i64::MAX as i128 {
            Some(Some(*n as i64))
        } else {
            None
        },
        AttrValue::Scalar(Scalar::Null) => Some(None),
        _ => None,
    }
}

/// A string field from a nested scalar.
pub open spec fn fv_string(s: ScalarView) -> Option<Seq<char>> {
    match s {
        ScalarView::S(x) => Some(x),
        _ => None,
    }
}

/// A `u32` field from a nested scalar; out-of-range numbers are rejected.
pub open spec fn fv_u32(s: ScalarView) -> Option<u32> {
    match s {
        ScalarView::N(n) => if 0 <= n <= u32::MAX as i128 {
            Some(n as u32)
        } else {
            None
        },
        _ => None,
    }
}

/// A `u64` field from a nested scalar; out-of-range numbers are rejected.
pub open spec fn fv_u64(s: ScalarView) -> Option<u64> {
    match s {
        ScalarView::N(n) => if 0 <= n <= u64::MAX as i128 {
            Some(n as u64)
        } else {
            None
        },
        _ => None,
    }
}

/// Read a string field of a nested map.
pub fn take_fv_string(s: &Scalar) -> (r: Option<String>)
    ensures
        match r {
            Some(x) => fv_string(s@) == Some(x@),
            None => fv_string(s@) is None,
        },
{
    match s {
        Scalar::S(x) => Some(x.clone()),
        _ => None,
    }
}

/// Read a `u32` field of a nested map.
pub fn take_fv_u32(s: &Scalar) -> (r: Option<u32>)
    ensures
        r == fv_u32(s@),
{
    match s {
        Scalar::N(n) => if 0 <= *n && *n <= u32::MAX as i128 {
            Some(*n as u32)
        } else {
            None
        },
        _ => None,
    }
}

/// Read a `u64` field of a nested map.
pub fn take_fv_u64(s: &Scalar) -> (r: Option<u64>)
    ensures
        r == fv_u64(s@),
{
    match s {
        Scalar::N(n) => if 0 <= *n && *n <= u64::MAX as i128 {
            Some(*n as u64)
        } else {
            None
        },
        _ => None,
    }
}

/// Build a string field of a nested map.
pub fn flat_s(name: &str, v: &String) -> (r: (String, Scalar))
    ensures
        r.0@ == name@,
        r.1@ == ScalarView::S(v@),
{
    (name.to_owned(), Scalar::S(v.clone()))
}

/// Build a number field of a nested map.
pub fn flat_n(name: &str, v: i128) -> (r: (String, Scalar))
    ensures
        r.0@ == name@,
        r.1@ == ScalarView::N(v),
{
    (name.to_owned(), Scalar::N(v))
}

/// Whether an attribute's name equals the expected one.
pub fn name_is(actual: &String, expected: &str) -> (r: bool)
    ensures
        r == (actual@ == expected@),
{
    *actual == expected.to_owned()
}

/// Build a string attribute.
pub fn attr_s(name: &str, v: &String) -> (r: (String, AttrValue))
    ensures
        r.0@ == name@,
        r.1@ == AttrView::Scalar(ScalarView::S(v@)),
{
    (name.to_owned(), AttrValue::Scalar(Scalar::S(v.clone())))
}

/// Build a number attribute.
pub fn attr_n(name: &str, v: i128) -> (r: (String, AttrValue))
    ensures
        r.0@ == name@,
        r.1@ == AttrView::Scalar(ScalarView::N(v)),
{
    (name.to_owned(), AttrValue::Scalar(Scalar::N(v)))
}

/// Build an optional string attribute; an absent value travels as `Null`.
pub fn attr_opt_s(name: &str, v: &Option<String>) -> (r: (String, AttrValue))
    ensures
        r.0@ == name@,
        r.1@ == match v {
            Some(s) => AttrView::Scalar(ScalarView::S(s@)),
            None => AttrView::Scalar(ScalarView::Null),
        },
{
    match v {
        Some(s) => (name.to_owned(), AttrValue::Scalar(Scalar::S(s.clone()))),
        None => (name.to_owned(), AttrValue::Scalar(Scalar::Null)),
    }
}

/// Build an optional number attribute; an absent value travels as `Null`.
pub fn attr_opt_n(name: &str, v: &Option<i64>) -> (r: (String, AttrValue))
    ensures
        r.0@ == name@,
        r.1@ == match v {
            Some(n) => AttrView::Scalar(ScalarView::N(*n as i128)),
            None => AttrView::Scalar(ScalarView::Null),
        },
{
    match v {
        Some(n) => (name.to_owned(), AttrValue::Scalar(Scalar::N(*n as i128))),
        None => (name.to_owned(), AttrValue::Scalar(Scalar::Null)),
    }
}

/// Mapping over a sequence commutes with appending.
pub proof fn lemma_map_values_push<A, B>(s: Seq<A>, f: spec_fn(A) -> B, x: A)
    ensures
        s.push(x).map_values(f) == s.map_values(f).push(f(x)),
{
    assert(s.push(x).map_values(f) =~= s.map_values(f).push(f(x)));
}

/// Extending a prefix by one element appends that element.
pub proof fn lemma_subrange_push<A>(s: Seq<A>, i: int)
    requires
        0 <= i < s.len(),
    ensures
        s.subrange(0, i + 1) == s.subrange(0, i).push(s[i]),
{
    assert(s.subrange(0, i + 1) =~= s.subrange(0, i).push(s[i]));
}

/// A copy of a scalar with the same value.
pub fn clone_scalar(s: &Scalar) -> (r: Scalar)
    ensures
        r@ == s@,
{
    match s {
        Scalar::S(x) => Scalar::S(x.clone()),
        Scalar::N(n) => Scalar::N(*n),
        Scalar::B(b) => Scalar::B(*b),
        Scalar::Null => Scalar::Null,
    }
}

/// A copy of a flat attribute list with the same value.
pub fn clone_flat(m: &FlatPairs) -> (r: FlatPairs)
    ensures
        flat_view(r@) == flat_view(m@),
{
    let mut out: FlatPairs = Vec::new();
    let mut i: usize = 0;
    while i < m.len()
        invariant
            i <= m.len(),
            flat_view(out@) =~= flat_view(m@).subrange(0, i as int),
        decreases m.len() - i,
    {
        let ghost out0 = out@;
        out.push((m[i].0.clone(), clone_scalar(&m[i].1)));
        proof {
            lemma_map_values_push(out0, |p: (String, Scalar)| (p.0@, p.1@), out@[i as int]);
            lemma_subrange_push(flat_view(m@), i as int);
            assert(flat_view(m@)[i as int] == (m@[i as int].0@, m@[i as int].1@));
            assert(flat_view(out@) == flat_view(m@).subrange(0, i + 1));
        }
        i = i + 1;
    }
    proof {
        assert(flat_view(m@).subrange(0, m@.len() as int) =~= flat_view(m@));
    }
    out
}

/// A copy of an attribute value with the same value.
pub fn clone_attr(a: &AttrValue) -> (r: AttrValue)
    ensures
        r@ == a@,
{
    match a {
        AttrValue::Scalar(s) => AttrValue::Scalar(clone_scalar(s)),
        AttrValue::ScalarList(l) => {
            let mut out: Vec<Scalar> = Vec::new();
            let mut i: usize = 0;
            while i < l.len()
                invariant
                    i <= l.len(),
                    scalars_view(out@) =~= scalars_view(l@).subrange(0, i as int),
                decreases l.len() - i,
            {
                let ghost out0 = out@;
                out.push(clone_scalar(&l[i]));
                proof {
                    assert(scalars_view(out@) =~= scalars_view(out0).push(out@[i as int]@));
                    lemma_subrange_push(scalars_view(l@), i as int);
                    assert(scalars_view(l@)[i as int] == l@[i as int]@);
                    assert(scalars_view(out@) == scalars_view(l@).subrange(0, i + 1));
                }
                i = i + 1;
            }
            proof {
                assert(scalars_view(l@).subrange(0, l@.len() as int) =~= scalars_view(l@));
            }
            AttrValue::ScalarList(out)
        },
        AttrValue::Nested(m) => AttrValue::Nested(clone_flat(m)),
        AttrValue::NestedList(l) => {
            let mut out: Vec<FlatPairs> = Vec::new();
            let mut i: usize = 0;
            while i < l.len()
                invariant
                    i <= l.len(),
                    flats_view(out@) =~= flats_view(l@).subrange(0, i as int),
                decreases l.len() - i,
            {
                let ghost out0 = out@;
                out.push(clone_flat(&l[i]));
                proof {
                    assert(flats_view(out@) =~= flats_view(out0).push(flat_view(
                        out@[i as int]@,
                    )));
                    lemma_subrange_push(flats_view(l@), i as int);
                    assert(flats_view(l@)[i as int] == flat_view(l@[i as int]@));
                    assert(flats_view(out@) == flats_view(l@).subrange(0, i + 1));
                }
                i = i + 1;
            }
            proof {
                assert(flats_view(l@).subrange(0, l@.len() as int) =~= flats_view(l@));
            }
            AttrValue::NestedList(out)
        },
    }
}

impl Item {
    /// A copy of this item with the same value.
    pub fn duplicate(&self) -> (r: Item)
        ensures
            r@ == self@,
    {
        let mut attrs: Vec<(String, AttrValue)> = Vec::new();
        let mut i: usize = 0;
        while i < self.attrs.len()
            invariant
                i <= self.attrs.len(),
                attrs@.map_values(|p: (String, AttrValue)| (p.0@, p.1@)) =~= self@.subrange(
                    0,
                    i as int,
                ),
            decreases self.attrs.len() - i,
        {
            let ghost attrs0 = attrs@;
            attrs.push((self.attrs[i].0.clone(), clone_attr(&self.attrs[i].1)));
            proof {
                lemma_map_values_push(
                    attrs0,
                    |p: (String, AttrValue)| (p.0@, p.1@),
                    attrs@[i as int],
                );
                lemma_subrange_push(self@, i as int);
                assert(self@[i as int] == (self.attrs@[i as int].0@, self.attrs@[i as int].1@));
                assert(attrs@.map_values(|p: (String, AttrValue)| (p.0@, p.1@)) == self@.subrange(
                    0,
                    i + 1,
                ));
            }
            i = i + 1;
        }
        proof {
            assert(self@.subrange(0, self@.len() as int) =~= self@);
        }
        Item { attrs }
    }
}

/// The fixed attribute name under which a record type keys its table.
///
/// The name is fixed per type and never changes after table creation.
pub trait PrimaryKeyName {
    /// The key attribute's name, as a mathematical value.
    spec fn spec_primary_key_name() -> Seq<char>;

    /// The key attribute's name.
    fn get_primary_key_name() -> (r: &'static str)
        ensures
            r@ == Self::spec_primary_key_name(),
    ;
}

/// Per-instance extraction of the primary-key string from a live record.
pub trait PrimaryKeyValue: View {
    /// The record's primary-key string, as a function of its value.
    spec fn primary_key_of(v: Self::V) -> Seq<char>;

    /// The record's primary-key string.
    fn get_primary_key_value(&self) -> (r: String)
        ensures
            r@ == Self::primary_key_of(self@),
    ;
}

/// A cacheable record: it names its key, yields its key value, clones, and
/// converts to and from the store's flat attribute representation.
///
/// Every implementation proves `encode_decode_roundtrip`: decoding an encoded
/// record gives back the same value. Together with the store and cache
/// contracts, that is what makes a `put` followed by a `get` return a value
/// deep-equal to the one written, for every record type.
pub trait Record: View + PrimaryKeyName + PrimaryKeyValue + Sized {
    /// The item that encodes a record value.
    spec fn spec_encode(v: Self::V) -> ItemView;

    /// The record value an item decodes to, if it has the expected shape.
    spec fn spec_decode(i: ItemView) -> Option<Self::V>;

    /// Decoding inverts encoding, for every record value.
    proof fn encode_decode_roundtrip(v: Self::V)
        ensures
            Self::spec_decode(Self::spec_encode(v)) == Some(v),
    ;

    /// Encode this record as a stored item.
    fn encode(&self) -> (r: Item)
        ensures
            r@ == Self::spec_encode(self@),
    ;

    /// Decode a stored item, or report a shape mismatch with `None`.
    fn decode(i: &Item) -> (r: Option<Self>)
        ensures
            match r {
                Some(v) => Self::spec_decode(i@) == Some(v@),
                None => Self::spec_decode(i@) is None,
            },
    ;

    /// A copy of this record with the same value.
    fn clone_rec(&self) -> (r: Self)
        ensures
            r@ == self@,
    ;
}

/// The values of a sequence of viewable things.
pub open spec fn views_of<T: View>(s: Seq<T>) -> Seq<T::V> {
    s.map_values(|t: T| t@)
}

/// Appending appends the value.
pub proof fn lemma_views_of_push<T: View>(s: Seq<T>, x: T)
    ensures
        views_of(s.push(x)) == views_of(s).push(x@),
{
    assert(views_of(s.push(x)) =~= views_of(s).push(x@));
}

/// Decode a whole sequence of items: all of them, or nothing if any one
/// fails to decode.
pub open spec fn decode_seq<T: Record>(items: Seq<ItemView>) -> Option<Seq<T::V>>
    decreases items.len(),
{
    if items.len() == 0 {
        Some(Seq::empty())
    } else {
        match (decode_seq::<T>(items.drop_last()), T::spec_decode(items.last())) {
            (Some(rest), Some(v)) => Some(rest.push(v)),
            _ => None,
        }
    }
}

/// Decoding one more item extends a decoded sequence, or poisons it.
pub proof fn lemma_decode_seq_push<T: Record>(s: Seq<ItemView>, x: ItemView)
    ensures
        decode_seq::<T>(s.push(x)) == (match (decode_seq::<T>(s), T::spec_decode(x)) {
            (Some(rest), Some(v)) => Some(rest.push(v)),
            _ => None,
        }),
{
    assert(s.push(x).drop_last() =~= s);
    assert(s.push(x).last() == x);
}

/// One undecodable item poisons the whole sequence.
pub proof fn lemma_decode_seq_none<T: Record>(s: Seq<ItemView>, j: int)
    requires
        0 <= j < s.len(),
        T::spec_decode(s[j]) is None,
    ensures
        decode_seq::<T>(s) is None,
    decreases s.len(),
{
    if j < s.len() - 1 {
        assert(s.drop_last()[j] == s[j]);
        lemma_decode_seq_none::<T>(s.drop_last(), j);
    }
}

} // verus!
