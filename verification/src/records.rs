//! The application's record types, their mathematical values, and their
//! primary-key and encoding contracts.
//!
//! Every serializable entity with a primary key is a [`Record`]: it can be
//! cached, scanned, written and read back. The nested [`Note`] type is not an
//! entity of its own; it lives inside a [`Student`].
use vstd::prelude::*;

use crate::codec::{
    attr_n, attr_opt_n, attr_opt_s, attr_s, flat_n, flat_s, flat_view, flats_view, fv_string,
    fv_u32, fv_u64, name_is, scalars_view, sv_i64, sv_opt_i64, sv_opt_string, sv_string, sv_u32,
    sv_u64, take_fv_string, take_fv_u32, take_fv_u64, take_i64, take_opt_i64, take_opt_string,
    take_string, take_u32, take_u64, views_of, AttrValue, AttrView, FlatPairs, FlatPairsView, Item,
    ItemView, PrimaryKeyName, PrimaryKeyValue, Record, Scalar, ScalarView,
};
use crate::counter::Counter;

verus! {

/// The role a user account holds.
#[derive(Clone, Copy, PartialEq, Eq, Structural, Debug)]
pub enum UserRole {
    Standard,
    Admin,
}

/// A user account. Its table keys off the `primary_key` attribute, which by
/// convention holds the lowercased account name.
pub struct User {
    pub name: String,
    pub primary_key: String,
    pub hash: u64,
    pub role: UserRole,
}

/// The mathematical value of a `User`.
pub struct UserView {
    pub name: Seq<char>,
    pub primary_key: Seq<char>,
    pub hash: u64,
    pub role: UserRole,
}

impl View for User {
    type V = UserView;

    open spec fn view(&self) -> UserView {
        UserView {
            name: self.name@,
            primary_key: self.primary_key@,
            hash: self.hash,
            role: self.role,
        }
    }
}

/// The scalar that encodes a role.
pub open spec fn role_sv(r: UserRole) -> ScalarView {
    match r {
        UserRole::Standard => ScalarView::S("Standard"@),
        UserRole::Admin => ScalarView::S("Admin"@),
    }
}

/// The role a scalar decodes to, if any.
pub open spec fn sv_role(a: AttrView) -> Option<UserRole> {
    match a {
        AttrView::Scalar(ScalarView::S(s)) => if s == "Standard"@ {
            Some(UserRole::Standard)
        } else if s == "Admin"@ {
            Some(UserRole::Admin)
        } else {
            None
        },
        _ => None,
    }
}

/// Decoding a role inverts encoding it.
pub proof fn role_roundtrip(r: UserRole)
    ensures
        sv_role(AttrView::Scalar(role_sv(r))) == Some(r),
{
    reveal_strlit("Standard");
    reveal_strlit("Admin");
    assert("Standard"@.len() == 8);
    assert("Admin"@.len() == 5);
}

/// Build a role attribute.
pub fn attr_role(name: &str, r: &UserRole) -> (out: (String, AttrValue))
    ensures
        out.0@ == name@,
        out.1@ == AttrView::Scalar(role_sv(*r)),
{
    match r {
        UserRole::Standard => attr_s(name, &("Standard".to_owned())),
        UserRole::Admin => attr_s(name, &("Admin".to_owned())),
    }
}

/// Read a role field.
pub fn take_role(a: &AttrValue) -> (r: Option<UserRole>)
    ensures
        r == sv_role(a@),
{
    match a {
        AttrValue::Scalar(Scalar::S(s)) => if name_is(s, "Standard") {
            Some(UserRole::Standard)
        } else if name_is(s, "Admin") {
            Some(UserRole::Admin)
        } else {
            None
        },
        _ => None,
    }
}

impl PrimaryKeyName for User {
    open spec fn spec_primary_key_name() -> Seq<char> {
        "primary_key"@
    }

    fn get_primary_key_name() -> (r: &'static str) {
        "primary_key"
    }
}

impl PrimaryKeyValue for User {
    open spec fn primary_key_of(v: UserView) -> Seq<char> {
        v.primary_key
    }

    fn get_primary_key_value(&self) -> (r: String) {
        self.primary_key.clone()
    }
}

impl Record for User {
    open spec fn spec_encode(v: UserView) -> ItemView {
        seq![
            ("name"@, AttrView::Scalar(ScalarView::S(v.name))),
            ("primary_key"@, AttrView::Scalar(ScalarView::S(v.primary_key))),
            ("hash"@, AttrView::Scalar(ScalarView::N(v.hash as i128))),
            ("role"@, AttrView::Scalar(role_sv(v.role))),
        ]
    }

    open spec fn spec_decode(i: ItemView) -> Option<UserView> {
        if i.len() != 4 {
            None
        } else if i[0].0 != "name"@ || i[1].0 != "primary_key"@ || i[2].0 != "hash"@ || i[3].0
            != "role"@ {
            None
        } else {
            match (sv_string(i[0].1), sv_string(i[1].1), sv_u64(i[2].1), sv_role(i[3].1)) {
                (Some(name), Some(primary_key), Some(hash), Some(role)) => Some(
                    UserView { name, primary_key, hash, role },
                ),
                _ => None,
            }
        }
    }

    proof fn encode_decode_roundtrip(v: UserView) {
        role_roundtrip(v.role);
    }

    fn encode(&self) -> (r: Item) {
        let mut attrs: Vec<(String, AttrValue)> = Vec::new();
        attrs.push(attr_s("name", &self.name));
        attrs.push(attr_s("primary_key", &self.primary_key));
        attrs.push(attr_n("hash", self.hash as i128));
        attrs.push(attr_role("role", &self.role));
        let r = Item { attrs };
        proof {
            assert(r@ =~= Self::spec_encode(self@));
        }
        r
    }

    fn decode(i: &Item) -> (r: Option<Self>) {
        if i.attrs.len() != 4 {
            return None;
        }
        if !name_is(&i.attrs[0].0, "name") || !name_is(&i.attrs[1].0, "primary_key") || !name_is(
            &i.attrs[2].0,
            "hash",
        ) || !name_is(&i.attrs[3].0, "role") {
            return None;
        }
        let name = match take_string(&i.attrs[0].1) {
            Some(s) => s,
            None => { return None },
        };
        let primary_key = match take_string(&i.attrs[1].1) {
            Some(s) => s,
            None => { return None },
        };
        let hash = match take_u64(&i.attrs[2].1) {
            Some(n) => n,
            None => { return None },
        };
        let role = match take_role(&i.attrs[3].1) {
            Some(x) => x,
            None => { return None },
        };
        Some(User { name, primary_key, hash, role })
    }

    fn clone_rec(&self) -> (r: Self) {
        User {
            name: self.name.clone(),
            primary_key: self.primary_key.clone(),
            hash: self.hash,
            role: self.role,
        }
    }
}

// ---------------------------------------------------------------------------
// Notes: the nested record inside a student's lists. Not an entity of its
// own; it travels as a nested map of scalars.
// ---------------------------------------------------------------------------

/// One dated, attributed note inside a student record.
pub struct Note {
    pub id: u32,
    pub date: String,
    pub user: String,
    pub content: String,
}

/// The mathematical value of a `Note`.
pub struct NoteView {
    pub id: u32,
    pub date: Seq<char>,
    pub user: Seq<char>,
    pub content: Seq<char>,
}

impl View for Note {
    type V = NoteView;

    open spec fn view(&self) -> NoteView {
        NoteView { id: self.id, date: self.date@, user: self.user@, content: self.content@ }
    }
}

/// The nested map that encodes a note.
pub open spec fn note_flat(n: NoteView) -> FlatPairsView {
    seq![
        ("id"@, ScalarView::N(n.id as i128)),
        ("date"@, ScalarView::S(n.date)),
        ("user"@, ScalarView::S(n.user)),
        ("content"@, ScalarView::S(n.content)),
    ]
}

/// The note a nested map decodes to, if it has the expected shape.
pub open spec fn fv_note(m: FlatPairsView) -> Option<NoteView> {
    if m.len() != 4 {
        None
    } else if m[0].0 != "id"@ || m[1].0 != "date"@ || m[2].0 != "user"@ || m[3].0 != "content"@ {
        None
    } else {
        match (fv_u32(m[0].1), fv_string(m[1].1), fv_string(m[2].1), fv_string(m[3].1)) {
            (Some(id), Some(date), Some(user), Some(content)) => Some(
                NoteView { id, date, user, content },
            ),
            _ => None,
        }
    }
}

/// Decoding a note's nested map inverts encoding it.
pub proof fn note_flat_roundtrip(n: NoteView)
    ensures
        fv_note(note_flat(n)) == Some(n),
{
}

/// Encode one note as a nested map.
pub fn note_to_flat(n: &Note) -> (r: FlatPairs)
    ensures
        flat_view(r@) == note_flat(n@),
{
    let mut m: FlatPairs = Vec::new();
    m.push(flat_n("id", n.id as i128));
    m.push(flat_s("date", &n.date));
    m.push(flat_s("user", &n.user));
    m.push(flat_s("content", &n.content));
    proof {
        assert(flat_view(m@) =~= note_flat(n@));
    }
    m
}

/// Decode one note from a nested map.
pub fn note_from_flat(m: &FlatPairs) -> (r: Option<Note>)
    ensures
        match r {
            Some(n) => fv_note(flat_view(m@)) == Some(n@),
            None => fv_note(flat_view(m@)) is None,
        },
{
    if m.len() != 4 {
        return None;
    }
    if !name_is(&m[0].0, "id") || !name_is(&m[1].0, "date") || !name_is(&m[2].0, "user")
        || !name_is(&m[3].0, "content") {
        return None;
    }
    let id = match take_fv_u32(&m[0].1) {
        Some(x) => x,
        None => { return None },
    };
    let date = match take_fv_string(&m[1].1) {
        Some(x) => x,
        None => { return None },
    };
    let user = match take_fv_string(&m[2].1) {
        Some(x) => x,
        None => { return None },
    };
    let content = match take_fv_string(&m[3].1) {
        Some(x) => x,
        None => { return None },
    };
    Some(Note { id, date, user, content })
}

/// A copy of a note with the same value.
pub fn clone_note(n: &Note) -> (r: Note)
    ensures
        r@ == n@,
{
    Note {
        id: n.id,
        date: n.date.clone(),
        user: n.user.clone(),
        content: n.content.clone(),
    }
}

// ---------------------------------------------------------------------------
// Sessions: a token, an expiry, and the user it authenticates.
// ---------------------------------------------------------------------------

/// A login session. Its table keys off the `token` attribute.
pub struct Session {
    pub token: String,
    pub expires: i64,
    pub user: User,
}

/// The mathematical value of a `Session`.
pub struct SessionView {
    pub token: Seq<char>,
    pub expires: i64,
    pub user: UserView,
}

impl View for Session {
    type V = SessionView;

    open spec fn view(&self) -> SessionView {
        SessionView { token: self.token@, expires: self.expires, user: self.user@ }
    }
}

/// The nested map that encodes a user.
pub open spec fn user_flat(u: UserView) -> FlatPairsView {
    seq![
        ("name"@, ScalarView::S(u.name)),
        ("primary_key"@, ScalarView::S(u.primary_key)),
        ("hash"@, ScalarView::N(u.hash as i128)),
        ("role"@, role_sv(u.role)),
    ]
}

/// The user a nested map decodes to, if it has the expected shape.
pub open spec fn fv_user(m: FlatPairsView) -> Option<UserView> {
    if m.len() != 4 {
        None
    } else if m[0].0 != "name"@ || m[1].0 != "primary_key"@ || m[2].0 != "hash"@ || m[3].0
        != "role"@ {
        None
    } else {
        match (fv_string(m[0].1), fv_string(m[1].1), fv_u64(m[2].1), fv_role(m[3].1)) {
            (Some(name), Some(primary_key), Some(hash), Some(role)) => Some(
                UserView { name, primary_key, hash, role },
            ),
            _ => None,
        }
    }
}

/// The role a nested scalar decodes to, if any.
pub open spec fn fv_role(s: ScalarView) -> Option<UserRole> {
    match s {
        ScalarView::S(x) => if x == "Standard"@ {
            Some(UserRole::Standard)
        } else if x == "Admin"@ {
            Some(UserRole::Admin)
        } else {
            None
        },
        _ => None,
    }
}

/// Decoding a nested role inverts encoding it.
pub proof fn fv_role_roundtrip(r: UserRole)
    ensures
        fv_role(role_sv(r)) == Some(r),
{
    reveal_strlit("Standard");
    reveal_strlit("Admin");
    assert("Standard"@.len() == 8);
    assert("Admin"@.len() == 5);
}

/// Decoding a user's nested map inverts encoding it.
pub proof fn user_flat_roundtrip(u: UserView)
    ensures
        fv_user(user_flat(u)) == Some(u),
{
    fv_role_roundtrip(u.role);
}

/// Read a role field of a nested map.
pub fn take_fv_role(s: &Scalar) -> (r: Option<UserRole>)
    ensures
        r == fv_role(s@),
{
    match s {
        Scalar::S(x) => if name_is(x, "Standard") {
            Some(UserRole::Standard)
        } else if name_is(x, "Admin") {
            Some(UserRole::Admin)
        } else {
            None
        },
        _ => None,
    }
}

/// Encode one user as a nested map.
pub fn user_to_flat(u: &User) -> (r: FlatPairs)
    ensures
        flat_view(r@) == user_flat(u@),
{
    let mut m: FlatPairs = Vec::new();
    m.push(flat_s("name", &u.name));
    m.push(flat_s("primary_key", &u.primary_key));
    m.push(flat_n("hash", u.hash as i128));
    match &u.role {
        UserRole::Standard => m.push(flat_s("role", &("Standard".to_owned()))),
        UserRole::Admin => m.push(flat_s("role", &("Admin".to_owned()))),
    }
    proof {
        assert(flat_view(m@) =~= user_flat(u@));
    }
    m
}

/// Decode one user from a nested map.
pub fn user_from_flat(m: &FlatPairs) -> (r: Option<User>)
    ensures
        match r {
            Some(u) => fv_user(flat_view(m@)) == Some(u@),
            None => fv_user(flat_view(m@)) is None,
        },
{
    if m.len() != 4 {
        return None;
    }
    if !name_is(&m[0].0, "name") || !name_is(&m[1].0, "primary_key") || !name_is(&m[2].0, "hash")
        || !name_is(&m[3].0, "role") {
        return None;
    }
    let name = match take_fv_string(&m[0].1) {
        Some(x) => x,
        None => { return None },
    };
    let primary_key = match take_fv_string(&m[1].1) {
        Some(x) => x,
        None => { return None },
    };
    let hash = match take_fv_u64(&m[2].1) {
        Some(x) => x,
        None => { return None },
    };
    let role = match take_fv_role(&m[3].1) {
        Some(x) => x,
        None => { return None },
    };
    Some(User { name, primary_key, hash, role })
}

impl Session {
    /// Whether this session is still valid at time `now` (seconds since the
    /// epoch, as its `expires` field is): a session is valid until its
    /// expiry passes.
    pub fn is_valid_at(&self, now: i64) -> (r: bool)
        ensures
            r == (self.expires >= now),
    {
        self.expires >= now
    }
}

impl PrimaryKeyName for Session {
    open spec fn spec_primary_key_name() -> Seq<char> {
        "token"@
    }

    fn get_primary_key_name() -> (r: &'static str) {
        "token"
    }
}

impl PrimaryKeyValue for Session {
    open spec fn primary_key_of(v: SessionView) -> Seq<char> {
        v.token
    }

    fn get_primary_key_value(&self) -> (r: String) {
        self.token.clone()
    }
}

impl Record for Session {
    open spec fn spec_encode(v: SessionView) -> ItemView {
        seq![
            ("token"@, AttrView::Scalar(ScalarView::S(v.token))),
            ("expires"@, AttrView::Scalar(ScalarView::N(v.expires as i128))),
            ("user"@, AttrView::Nested(user_flat(v.user))),
        ]
    }

    open spec fn spec_decode(i: ItemView) -> Option<SessionView> {
        if i.len() != 3 {
            None
        } else if i[0].0 != "token"@ || i[1].0 != "expires"@ || i[2].0 != "user"@ {
            None
        } else {
            match (sv_string(i[0].1), sv_i64(i[1].1)) {
                (Some(token), Some(expires)) => match i[2].1 {
                    AttrView::Nested(m) => match fv_user(m) {
                        Some(user) => Some(SessionView { token, expires, user }),
                        None => None,
                    },
                    _ => None,
                },
                _ => None,
            }
        }
    }

    proof fn encode_decode_roundtrip(v: SessionView) {
        user_flat_roundtrip(v.user);
    }

    fn encode(&self) -> (r: Item) {
        let mut attrs: Vec<(String, AttrValue)> = Vec::new();
        attrs.push(attr_s("token", &self.token));
        attrs.push(attr_n("expires", self.expires as i128));
        attrs.push(("user".to_owned(), AttrValue::Nested(user_to_flat(&self.user))));
        let r = Item { attrs };
        proof {
            assert(r@ =~= Self::spec_encode(self@));
        }
        r
    }

    fn decode(i: &Item) -> (r: Option<Self>) {
        if i.attrs.len() != 3 {
            return None;
        }
        if !name_is(&i.attrs[0].0, "token") || !name_is(&i.attrs[1].0, "expires") || !name_is(
            &i.attrs[2].0,
            "user",
        ) {
            return None;
        }
        let token = match take_string(&i.attrs[0].1) {
            Some(s) => s,
            None => { return None },
        };
        let expires = match take_i64(&i.attrs[1].1) {
            Some(n) => n,
            None => { return None },
        };
        let user = match &i.attrs[2].1 {
            AttrValue::Nested(m) => match user_from_flat(m) {
                Some(u) => u,
                None => { return None },
            },
            _ => { return None },
        };
        Some(Session { token, expires, user })
    }

    fn clone_rec(&self) -> (r: Self) {
        Session {
            token: self.token.clone(),
            expires: self.expires,
            user: self.user.clone_rec(),
        }
    }
}

// ---------------------------------------------------------------------------
// Imported student information: raw note texts from an outside roster,
// keyed by student name until they are merged into a student record.
// ---------------------------------------------------------------------------

/// Imported information about one student. Its table keys off the `name`
/// attribute.
pub struct StudentImportedInfo {
    pub name: String,
    pub belt: String,
    pub logins: Vec<String>,
    pub notes: Vec<String>,
    pub behaviours: Vec<String>,
}

/// The mathematical value of a `StudentImportedInfo`.
pub struct StudentImportedInfoView {
    pub name: Seq<char>,
    pub belt: Seq<char>,
    pub logins: Seq<Seq<char>>,
    pub notes: Seq<Seq<char>>,
    pub behaviours: Seq<Seq<char>>,
}

impl View for StudentImportedInfo {
    type V = StudentImportedInfoView;

    open spec fn view(&self) -> StudentImportedInfoView {
        StudentImportedInfoView {
            name: self.name@,
            belt: self.belt@,
            logins: views_of(self.logins@),
            notes: views_of(self.notes@),
            behaviours: views_of(self.behaviours@),
        }
    }
}

/// The scalar list that encodes a list of strings.
pub open spec fn strs_enc(ss: Seq<Seq<char>>) -> Seq<ScalarView> {
    ss.map_values(|s: Seq<char>| ScalarView::S(s))
}

/// The strings a scalar list decodes to: all of them, or nothing if any
/// element is not a string.
pub open spec fn strs_dec(l: Seq<ScalarView>) -> Option<Seq<Seq<char>>>
    decreases l.len(),
{
    if l.len() == 0 {
        Some(Seq::empty())
    } else {
        match (strs_dec(l.drop_last()), fv_string(l.last())) {
            (Some(rest), Some(s)) => Some(rest.push(s)),
            _ => None,
        }
    }
}

/// Decoding a string list inverts encoding it.
pub proof fn strs_roundtrip(ss: Seq<Seq<char>>)
    ensures
        strs_dec(strs_enc(ss)) == Some(ss),
    decreases ss.len(),
{
    if ss.len() == 0 {
        assert(strs_enc(ss) =~= Seq::<ScalarView>::empty());
    } else {
        strs_roundtrip(ss.drop_last());
        assert(strs_enc(ss).drop_last() =~= strs_enc(ss.drop_last()));
        assert(strs_enc(ss).last() == ScalarView::S(ss.last()));
        assert(ss.drop_last().push(ss.last()) =~= ss);
    }
}

/// Encode a list of strings as a scalar-list attribute value.
pub fn strs_to_attr(v: &Vec<String>) -> (r: AttrValue)
    ensures
        r@ == AttrView::ScalarList(strs_enc(views_of(v@))),
{
    let mut out: Vec<Scalar> = Vec::new();
    let mut i: usize = 0;
    while i < v.len()
        invariant
            i <= v.len(),
            out@.len() == i,
            forall|j: int| 0 <= j < i ==> out@[j]@ == ScalarView::S(v@[j]@),
        decreases v.len() - i,
    {
        out.push(Scalar::S(v[i].clone()));
        i = i + 1;
    }
    let r = AttrValue::ScalarList(out);
    proof {
        assert(scalars_view(out@) =~= strs_enc(views_of(v@)));
    }
    r
}

/// One non-string element poisons a decoded string list.
pub proof fn strs_dec_none(l: Seq<ScalarView>, j: int)
    requires
        0 <= j < l.len(),
        fv_string(l[j]) is None,
    ensures
        strs_dec(l) is None,
    decreases l.len(),
{
    if j < l.len() - 1 {
        assert(l.drop_last()[j] == l[j]);
        strs_dec_none(l.drop_last(), j);
    }
}

/// Decode a scalar-list attribute value back to a list of strings.
pub fn strs_from_attr(a: &AttrValue) -> (r: Option<Vec<String>>)
    ensures
        match r {
            Some(v) => (a@ matches AttrView::ScalarList(l) && strs_dec(l) == Some(
                views_of(v@),
            )),
            None => (match a@ {
                AttrView::ScalarList(l) => strs_dec(l) is None,
                _ => true,
            }),
        },
{
    let l = match a {
        AttrValue::ScalarList(l) => l,
        _ => { return None },
    };
    proof {
        assert(a@ == AttrView::ScalarList(scalars_view(l@)));
    }
    let ghost lv = scalars_view(l@);
    let mut out: Vec<String> = Vec::new();
    let mut i: usize = 0;
    while i < l.len()
        invariant
            a@ == AttrView::ScalarList(scalars_view(l@)),
            i <= l.len(),
            lv == scalars_view(l@),
            lv.len() == l@.len(),
            strs_dec(lv.subrange(0, i as int)) == Some(views_of(out@)),
        decreases l.len() - i,
    {
        let s = match take_fv_string(&l[i]) {
            Some(s) => s,
            None => {
                proof {
                    assert(lv[i as int] == l@[i as int]@);
                    strs_dec_none(lv, i as int);
                }
                return None;
            },
        };
        let ghost out0 = out@;
        out.push(s);
        proof {
            crate::codec::lemma_views_of_push(out0, out@.last());
            assert(lv.subrange(0, i + 1).drop_last() =~= lv.subrange(0, i as int));
            assert(lv.subrange(0, i + 1).last() == lv[i as int]);
            assert(lv[i as int] == l@[i as int]@);
            assert(strs_dec(lv.subrange(0, i + 1)) == Some(views_of(out@)));
        }
        i = i + 1;
    }
    proof {
        assert(lv.subrange(0, lv.len() as int) =~= lv);
    }
    Some(out)
}

/// A copy of a string list with the same value.
pub fn clone_strings(v: &Vec<String>) -> (r: Vec<String>)
    ensures
        views_of(r@) == views_of(v@),
{
    let mut out: Vec<String> = Vec::new();
    let mut i: usize = 0;
    while i < v.len()
        invariant
            i <= v.len(),
            out@.len() == i,
            forall|j: int| 0 <= j < i ==> out@[j]@ == v@[j]@,
        decreases v.len() - i,
    {
        out.push(v[i].clone());
        i = i + 1;
    }
    proof {
        assert(views_of(out@) =~= views_of(v@));
    }
    out
}

impl PrimaryKeyName for StudentImportedInfo {
    open spec fn spec_primary_key_name() -> Seq<char> {
        "name"@
    }

    fn get_primary_key_name() -> (r: &'static str) {
        "name"
    }
}

impl PrimaryKeyValue for StudentImportedInfo {
    open spec fn primary_key_of(v: StudentImportedInfoView) -> Seq<char> {
        v.name
    }

    fn get_primary_key_value(&self) -> (r: String) {
        self.name.clone()
    }
}

impl Record for StudentImportedInfo {
    open spec fn spec_encode(v: StudentImportedInfoView) -> ItemView {
        seq![
            ("name"@, AttrView::Scalar(ScalarView::S(v.name))),
            ("belt"@, AttrView::Scalar(ScalarView::S(v.belt))),
            ("logins"@, AttrView::ScalarList(strs_enc(v.logins))),
            ("notes"@, AttrView::ScalarList(strs_enc(v.notes))),
            ("behaviours"@, AttrView::ScalarList(strs_enc(v.behaviours))),
        ]
    }

    open spec fn spec_decode(i: ItemView) -> Option<StudentImportedInfoView> {
        if i.len() != 5 {
            None
        } else if i[0].0 != "name"@ || i[1].0 != "belt"@ || i[2].0 != "logins"@ || i[3].0
            != "notes"@ || i[4].0 != "behaviours"@ {
            None
        } else {
            match (sv_string(i[0].1), sv_string(i[1].1)) {
                (Some(name), Some(belt)) => match (i[2].1, i[3].1, i[4].1) {
                    (
                        AttrView::ScalarList(l0),
                        AttrView::ScalarList(l1),
                        AttrView::ScalarList(l2),
                    ) => match (strs_dec(l0), strs_dec(l1), strs_dec(l2)) {
                        (Some(logins), Some(notes), Some(behaviours)) => Some(
                            StudentImportedInfoView { name, belt, logins, notes, behaviours },
                        ),
                        _ => None,
                    },
                    _ => None,
                },
                _ => None,
            }
        }
    }

    proof fn encode_decode_roundtrip(v: StudentImportedInfoView) {
        strs_roundtrip(v.logins);
        strs_roundtrip(v.notes);
        strs_roundtrip(v.behaviours);
    }

    fn encode(&self) -> (r: Item) {
        let mut attrs: Vec<(String, AttrValue)> = Vec::new();
        attrs.push(attr_s("name", &self.name));
        attrs.push(attr_s("belt", &self.belt));
        attrs.push(("logins".to_owned(), strs_to_attr(&self.logins)));
        attrs.push(("notes".to_owned(), strs_to_attr(&self.notes)));
        attrs.push(("behaviours".to_owned(), strs_to_attr(&self.behaviours)));
        let r = Item { attrs };
        proof {
            assert(r@ =~= Self::spec_encode(self@));
        }
        r
    }

    fn decode(i: &Item) -> (r: Option<Self>) {
        if i.attrs.len() != 5 {
            return None;
        }
        if !name_is(&i.attrs[0].0, "name") || !name_is(&i.attrs[1].0, "belt") || !name_is(
            &i.attrs[2].0,
            "logins",
        ) || !name_is(&i.attrs[3].0, "notes") || !name_is(&i.attrs[4].0, "behaviours") {
            return None;
        }
        let name = match take_string(&i.attrs[0].1) {
            Some(s) => s,
            None => { return None },
        };
        let belt = match take_string(&i.attrs[1].1) {
            Some(s) => s,
            None => { return None },
        };
        let logins = match strs_from_attr(&i.attrs[2].1) {
            Some(v) => v,
            None => { return None },
        };
        let notes = match strs_from_attr(&i.attrs[3].1) {
            Some(v) => v,
            None => { return None },
        };
        let behaviours = match strs_from_attr(&i.attrs[4].1) {
            Some(v) => v,
            None => { return None },
        };
        Some(StudentImportedInfo { name, belt, logins, notes, behaviours })
    }

    fn clone_rec(&self) -> (r: Self) {
        StudentImportedInfo {
            name: self.name.clone(),
            belt: self.belt.clone(),
            logins: clone_strings(&self.logins),
            notes: clone_strings(&self.notes),
            behaviours: clone_strings(&self.behaviours),
        }
    }
}

// ---------------------------------------------------------------------------
// Students: the richest record, with three nested note lists and an
// embedded note counter.
// ---------------------------------------------------------------------------

/// A student record. Its table keys off the `id` attribute, a generated
/// identifier. The optional `date` is the last attendance time in
/// milliseconds since the Unix epoch; it is an opaque timestamp to the
/// store, carried as a plain number.
pub struct Student {
    pub first_name: String,
    pub last_name: String,
    pub id: String,
    pub name: String,
    pub date: Option<i64>,
    pub time: Option<String>,
    pub belt: String,
    pub logins: Vec<Note>,
    pub notes: Vec<Note>,
    pub behaviours: Vec<Note>,
    pub assigned: Option<String>,
    pub note_counter: Counter,
}

/// The mathematical value of a `Student`.
pub struct StudentView {
    pub first_name: Seq<char>,
    pub last_name: Seq<char>,
    pub id: Seq<char>,
    pub name: Seq<char>,
    pub date: Option<i64>,
    pub time: Option<Seq<char>>,
    pub belt: Seq<char>,
    pub logins: Seq<NoteView>,
    pub notes: Seq<NoteView>,
    pub behaviours: Seq<NoteView>,
    pub assigned: Option<Seq<char>>,
    pub note_counter: u32,
}

impl View for Student {
    type V = StudentView;

    open spec fn view(&self) -> StudentView {
        StudentView {
            first_name: self.first_name@,
            last_name: self.last_name@,
            id: self.id@,
            name: self.name@,
            date: self.date,
            time: (match self.time {
                Some(t) => Some(t@),
                None => None,
            }),
            belt: self.belt@,
            logins: views_of(self.logins@),
            notes: views_of(self.notes@),
            behaviours: views_of(self.behaviours@),
            assigned: (match self.assigned {
                Some(a) => Some(a@),
                None => None,
            }),
            note_counter: self.note_counter@,
        }
    }
}

/// The nested-map list that encodes a list of notes.
pub open spec fn notes_enc(ns: Seq<NoteView>) -> Seq<FlatPairsView> {
    ns.map_values(|n: NoteView| note_flat(n))
}

/// The notes a nested-map list decodes to: all of them, or nothing if any
/// element has the wrong shape.
pub open spec fn notes_dec(ms: Seq<FlatPairsView>) -> Option<Seq<NoteView>>
    decreases ms.len(),
{
    if ms.len() == 0 {
        Some(Seq::empty())
    } else {
        match (notes_dec(ms.drop_last()), fv_note(ms.last())) {
            (Some(rest), Some(n)) => Some(rest.push(n)),
            _ => None,
        }
    }
}

/// Decoding a note list inverts encoding it.
pub proof fn notes_roundtrip(ns: Seq<NoteView>)
    ensures
        notes_dec(notes_enc(ns)) == Some(ns),
    decreases ns.len(),
{
    if ns.len() == 0 {
        assert(notes_enc(ns) =~= Seq::<FlatPairsView>::empty());
    } else {
        notes_roundtrip(ns.drop_last());
        note_flat_roundtrip(ns.last());
        assert(notes_enc(ns).drop_last() =~= notes_enc(ns.drop_last()));
        assert(notes_enc(ns).last() == note_flat(ns.last()));
        assert(ns.drop_last().push(ns.last()) =~= ns);
    }
}

/// One malformed element poisons a decoded note list.
pub proof fn notes_dec_none(ms: Seq<FlatPairsView>, j: int)
    requires
        0 <= j < ms.len(),
        fv_note(ms[j]) is None,
    ensures
        notes_dec(ms) is None,
    decreases ms.len(),
{
    if j < ms.len() - 1 {
        assert(ms.drop_last()[j] == ms[j]);
        notes_dec_none(ms.drop_last(), j);
    }
}

/// Encode a list of notes as a nested-map-list attribute value.
pub fn notes_to_attr(v: &Vec<Note>) -> (r: AttrValue)
    ensures
        r@ == AttrView::NestedList(notes_enc(views_of(v@))),
{
    let mut out: Vec<FlatPairs> = Vec::new();
    let mut i: usize = 0;
    while i < v.len()
        invariant
            i <= v.len(),
            out@.len() == i,
            forall|j: int| 0 <= j < i ==> flat_view(#[trigger] out@[j]@) == note_flat(v@[j]@),
        decreases v.len() - i,
    {
        out.push(note_to_flat(&v[i]));
        i = i + 1;
    }
    let r = AttrValue::NestedList(out);
    proof {
        assert(flats_view(out@) =~= notes_enc(views_of(v@)));
    }
    r
}

/// Decode a nested-map-list attribute value back to a list of notes.
pub fn notes_from_attr(a: &AttrValue) -> (r: Option<Vec<Note>>)
    ensures
        match r {
            Some(v) => (a@ matches AttrView::NestedList(ms) && notes_dec(ms) == Some(
                views_of(v@),
            )),
            None => (match a@ {
                AttrView::NestedList(ms) => notes_dec(ms) is None,
                _ => true,
            }),
        },
{
    let l = match a {
        AttrValue::NestedList(l) => l,
        _ => { return None },
    };
    proof {
        assert(a@ == AttrView::NestedList(flats_view(l@)));
    }
    let ghost lv = flats_view(l@);
    let mut out: Vec<Note> = Vec::new();
    let mut i: usize = 0;
    while i < l.len()
        invariant
            a@ == AttrView::NestedList(flats_view(l@)),
            i <= l.len(),
            lv == flats_view(l@),
            lv.len() == l@.len(),
            notes_dec(lv.subrange(0, i as int)) == Some(views_of(out@)),
        decreases l.len() - i,
    {
        let n = match note_from_flat(&l[i]) {
            Some(n) => n,
            None => {
                proof {
                    assert(lv[i as int] == flat_view(l@[i as int]@));
                    notes_dec_none(lv, i as int);
                }
                return None;
            },
        };
        let ghost out0 = out@;
        out.push(n);
        proof {
            crate::codec::lemma_views_of_push(out0, out@.last());
            assert(lv.subrange(0, i + 1).drop_last() =~= lv.subrange(0, i as int));
            assert(lv.subrange(0, i + 1).last() == lv[i as int]);
            assert(lv[i as int] == flat_view(l@[i as int]@));
            assert(notes_dec(lv.subrange(0, i + 1)) == Some(views_of(out@)));
        }
        i = i + 1;
    }
    proof {
        assert(lv.subrange(0, lv.len() as int) =~= lv);
    }
    Some(out)
}

/// A copy of a note list with the same value.
pub fn clone_notes(v: &Vec<Note>) -> (r: Vec<Note>)
    ensures
        views_of(r@) == views_of(v@),
{
    let mut out: Vec<Note> = Vec::new();
    let mut i: usize = 0;
    while i < v.len()
        invariant
            i <= v.len(),
            out@.len() == i,
            forall|j: int| 0 <= j < i ==> (#[trigger] out@[j])@ == v@[j]@,
        decreases v.len() - i,
    {
        out.push(clone_note(&v[i]));
        i = i + 1;
    }
    proof {
        assert(views_of(out@) =~= views_of(v@));
    }
    out
}

/// A copy of an optional string with the same value.
pub fn clone_opt_string(o: &Option<String>) -> (r: Option<String>)
    ensures
        (match (r, o) {
            (Some(a), Some(b)) => a@ == b@,
            (None, None) => true,
            _ => false,
        }),
{
    match o {
        Some(s) => Some(s.clone()),
        None => None,
    }
}

impl PrimaryKeyName for Student {
    open spec fn spec_primary_key_name() -> Seq<char> {
        "id"@
    }

    fn get_primary_key_name() -> (r: &'static str) {
        "id"
    }
}

impl PrimaryKeyValue for Student {
    open spec fn primary_key_of(v: StudentView) -> Seq<char> {
        v.id
    }

    fn get_primary_key_value(&self) -> (r: String) {
        self.id.clone()
    }
}

impl Record for Student {
    open spec fn spec_encode(v: StudentView) -> ItemView {
        seq![
            ("first_name"@, AttrView::Scalar(ScalarView::S(v.first_name))),
            ("last_name"@, AttrView::Scalar(ScalarView::S(v.last_name))),
            ("id"@, AttrView::Scalar(ScalarView::S(v.id))),
            ("name"@, AttrView::Scalar(ScalarView::S(v.name))),
            (
                "date"@,
                AttrView::Scalar(
                    match v.date {
                        Some(d) => ScalarView::N(d as i128),
                        None => ScalarView::Null,
                    },
                ),
            ),
            (
                "time"@,
                AttrView::Scalar(
                    match v.time {
                        Some(t) => ScalarView::S(t),
                        None => ScalarView::Null,
                    },
                ),
            ),
            ("belt"@, AttrView::Scalar(ScalarView::S(v.belt))),
            ("logins"@, AttrView::NestedList(notes_enc(v.logins))),
            ("notes"@, AttrView::NestedList(notes_enc(v.notes))),
            ("behaviours"@, AttrView::NestedList(notes_enc(v.behaviours))),
            (
                "assigned"@,
                AttrView::Scalar(
                    match v.assigned {
                        Some(s) => ScalarView::S(s),
                        None => ScalarView::Null,
                    },
                ),
            ),
            ("note_counter"@, AttrView::Scalar(ScalarView::N(v.note_counter as i128))),
        ]
    }

    open spec fn spec_decode(i: ItemView) -> Option<StudentView> {
        if i.len() != 12 {
            None
        } else if i[0].0 != "first_name"@ || i[1].0 != "last_name"@ || i[2].0 != "id"@ || i[3].0
            != "name"@ || i[4].0 != "date"@ || i[5].0 != "time"@ || i[6].0 != "belt"@ || i[7].0
            != "logins"@ || i[8].0 != "notes"@ || i[9].0 != "behaviours"@ || i[10].0
            != "assigned"@ || i[11].0 != "note_counter"@ {
            None
        } else {
            match (
                sv_string(i[0].1),
                sv_string(i[1].1),
                sv_string(i[2].1),
                sv_string(i[3].1),
                sv_opt_i64(i[4].1),
                sv_opt_string(i[5].1),
                sv_string(i[6].1),
                sv_opt_string(i[10].1),
                sv_u32(i[11].1),
            ) {
                (
                    Some(first_name),
                    Some(last_name),
                    Some(id),
                    Some(name),
                    Some(date),
                    Some(time),
                    Some(belt),
                    Some(assigned),
                    Some(note_counter),
                ) => match (i[7].1, i[8].1, i[9].1) {
                    (
                        AttrView::NestedList(l0),
                        AttrView::NestedList(l1),
                        AttrView::NestedList(l2),
                    ) => match (notes_dec(l0), notes_dec(l1), notes_dec(l2)) {
                        (Some(logins), Some(notes), Some(behaviours)) => Some(
                            StudentView {
                                first_name,
                                last_name,
                                id,
                                name,
                                date,
                                time,
                                belt,
                                logins,
                                notes,
                                behaviours,
                                assigned,
                                note_counter,
                            },
                        ),
                        _ => None,
                    },
                    _ => None,
                },
                _ => None,
            }
        }
    }

    proof fn encode_decode_roundtrip(v: StudentView) {
        notes_roundtrip(v.logins);
        notes_roundtrip(v.notes);
        notes_roundtrip(v.behaviours);
    }

    fn encode(&self) -> (r: Item) {
        let mut attrs: Vec<(String, AttrValue)> = Vec::new();
        attrs.push(attr_s("first_name", &self.first_name));
        attrs.push(attr_s("last_name", &self.last_name));
        attrs.push(attr_s("id", &self.id));
        attrs.push(attr_s("name", &self.name));
        attrs.push(attr_opt_n("date", &self.date));
        attrs.push(attr_opt_s("time", &self.time));
        attrs.push(attr_s("belt", &self.belt));
        attrs.push(("logins".to_owned(), notes_to_attr(&self.logins)));
        attrs.push(("notes".to_owned(), notes_to_attr(&self.notes)));
        attrs.push(("behaviours".to_owned(), notes_to_attr(&self.behaviours)));
        attrs.push(attr_opt_s("assigned", &self.assigned));
        attrs.push(attr_n("note_counter", self.note_counter.get() as i128));
        let r = Item { attrs };
        proof {
            assert(r@ =~= Self::spec_encode(self@));
        }
        r
    }

    fn decode(i: &Item) -> (r: Option<Self>) {
        if i.attrs.len() != 12 {
            return None;
        }
        if !name_is(&i.attrs[0].0, "first_name") || !name_is(&i.attrs[1].0, "last_name")
            || !name_is(&i.attrs[2].0, "id") || !name_is(&i.attrs[3].0, "name") || !name_is(
            &i.attrs[4].0,
            "date",
        ) || !name_is(&i.attrs[5].0, "time") || !name_is(&i.attrs[6].0, "belt") || !name_is(
            &i.attrs[7].0,
            "logins",
        ) || !name_is(&i.attrs[8].0, "notes") || !name_is(&i.attrs[9].0, "behaviours") || !name_is(
            &i.attrs[10].0,
            "assigned",
        ) || !name_is(&i.attrs[11].0, "note_counter") {
            return None;
        }
        let first_name = match take_string(&i.attrs[0].1) {
            Some(s) => s,
            None => { return None },
        };
        let last_name = match take_string(&i.attrs[1].1) {
            Some(s) => s,
            None => { return None },
        };
        let id = match take_string(&i.attrs[2].1) {
            Some(s) => s,
            None => { return None },
        };
        let name = match take_string(&i.attrs[3].1) {
            Some(s) => s,
            None => { return None },
        };
        let date = match take_opt_i64(&i.attrs[4].1) {
            Some(d) => d,
            None => { return None },
        };
        let time = match take_opt_string(&i.attrs[5].1) {
            Some(t) => t,
            None => { return None },
        };
        let belt = match take_string(&i.attrs[6].1) {
            Some(s) => s,
            None => { return None },
        };
        let logins = match notes_from_attr(&i.attrs[7].1) {
            Some(v) => v,
            None => { return None },
        };
        let notes = match notes_from_attr(&i.attrs[8].1) {
            Some(v) => v,
            None => { return None },
        };
        let behaviours = match notes_from_attr(&i.attrs[9].1) {
            Some(v) => v,
            None => { return None },
        };
        let assigned = match take_opt_string(&i.attrs[10].1) {
            Some(a) => a,
            None => { return None },
        };
        let note_counter = match take_u32(&i.attrs[11].1) {
            Some(n) => n,
            None => { return None },
        };
        Some(
            Student {
                first_name,
                last_name,
                id,
                name,
                date,
                time,
                belt,
                logins,
                notes,
                behaviours,
                assigned,
                note_counter: Counter::from(note_counter),
            },
        )
    }

    fn clone_rec(&self) -> (r: Self) {
        Student {
            first_name: self.first_name.clone(),
            last_name: self.last_name.clone(),
            id: self.id.clone(),
            name: self.name.clone(),
            date: self.date,
            time: clone_opt_string(&self.time),
            belt: self.belt.clone(),
            logins: clone_notes(&self.logins),
            notes: clone_notes(&self.notes),
            behaviours: clone_notes(&self.behaviours),
            assigned: clone_opt_string(&self.assigned),
            note_counter: self.note_counter,
        }
    }
}

} // verus!
