use vstd::prelude::*;
use crate::term::{
    atom_name, binary_text, collect_entries, decode, decoded, get_atom_string, get_binary_string,
    get_map, is_text, lemma_collect_all_ok, lemma_collect_error, lemma_collect_ok,
    lemma_collect_step, map_entries, text_term, Error, ErrorView, Field, Value,
};

verus! {

/// A user: id, token, and the times of creation and last change, all text.
#[derive(Debug, Clone)]
pub struct User {
    pub id: String,
    pub token: String,
    pub created: String,
    pub modified: String,
}

/// The text of the four fields of a `User`.
pub struct UserView {
    pub id: Seq<char>,
    pub token: Seq<char>,
    pub created: Seq<char>,
    pub modified: Seq<char>,
}

impl View for User {
    type V = UserView;

    open spec fn view(&self) -> UserView {
        UserView { id: self.id@, token: self.token@, created: self.created@, modified: self.modified@ }
    }
}

/// The atom that names a field in a user map.
pub open spec fn field_name(f: Field) -> Seq<char> {
    match f {
        Field::Id => "id"@,
        Field::Token => "token"@,
        Field::Created => "created"@,
        Field::Modified => "modified"@,
    }
}

/// The name of one of the four fields.
pub open spec fn is_field_name(k: Seq<char>) -> bool {
    k == field_name(Field::Id) || k == field_name(Field::Token) || k == field_name(Field::Created)
        || k == field_name(Field::Modified)
}

/// The atom name and the text of one entry of a user map.
pub open spec fn field_pair(key: Value, value: Value) -> Result<(Seq<char>, Seq<char>), ErrorView> {
    match atom_name(key) {
        Err(e) => Err(e),
        Ok(k) => match binary_text(value) {
            Err(e) => Err(e),
            Ok(v) => Ok((k, v)),
        },
    }
}

/// `field_pair` as a function value, for reading a whole map.
pub open spec fn field_step() -> spec_fn(Value, Value) -> Result<(Seq<char>, Seq<char>), ErrorView> {
    |k: Value, v: Value| field_pair(k, v)
}

/// The pairs of atom name and text that a user map holds, in order.
pub open spec fn field_pairs(t: Value) -> Result<Seq<(Seq<char>, Seq<char>)>, ErrorView> {
    match map_entries(t) {
        Err(e) => Err(e),
        Ok(es) => collect_entries(es, field_step()),
    }
}

/// The text under key `k`; where the key comes more than once, the last one
/// counts.
pub open spec fn lookup(ps: Seq<(Seq<char>, Seq<char>)>, k: Seq<char>) -> Option<Seq<char>>
    decreases ps.len(),
{
    if ps.len() == 0 {
        None
    } else if ps.last().0 == k {
        Some(ps.last().1)
    } else {
        lookup(ps.drop_last(), k)
    }
}

/// The first key from the `j`-th pair on that is none of the four fields.
pub open spec fn unknown_key(ps: Seq<(Seq<char>, Seq<char>)>, j: int) -> Option<Seq<char>>
    decreases ps.len() - j,
{
    if j < 0 || j >= ps.len() {
        None
    } else if !is_field_name(ps[j].0) {
        Some(ps[j].0)
    } else {
        unknown_key(ps, j + 1)
    }
}

/// The user that a lookup of exactly the four fields makes. A missing field
/// is reported first, in the order id, token, created, modified; then a key
/// that is no field.
pub open spec fn user_fields(ps: Seq<(Seq<char>, Seq<char>)>) -> Result<UserView, ErrorView> {
    match lookup(ps, field_name(Field::Id)) {
        None => Err(ErrorView::MissingField(Field::Id)),
        Some(id) => match lookup(ps, field_name(Field::Token)) {
            None => Err(ErrorView::MissingField(Field::Token)),
            Some(token) => match lookup(ps, field_name(Field::Created)) {
                None => Err(ErrorView::MissingField(Field::Created)),
                Some(created) => match lookup(ps, field_name(Field::Modified)) {
                    None => Err(ErrorView::MissingField(Field::Modified)),
                    Some(modified) => match unknown_key(ps, 0) {
                        Some(k) => Err(ErrorView::UnexpectedField(k)),
                        None => Ok(UserView { id, token, created, modified }),
                    },
                },
            },
        },
    }
}

/// The outer key and the user that one entry of a users map gives.
pub open spec fn user_entry(key: Value, value: Value) -> Result<(Seq<char>, UserView), ErrorView> {
    match binary_text(key) {
        Err(e) => Err(e),
        Ok(id) => match field_pairs(value) {
            Err(e) => Err(e),
            Ok(ps) => match user_fields(ps) {
                Err(e) => Err(e),
                Ok(u) => Ok((id, u)),
            },
        },
    }
}

/// `user_entry` as a function value, for reading a whole map.
pub open spec fn user_step() -> spec_fn(Value, Value) -> Result<(Seq<char>, UserView), ErrorView> {
    |k: Value, v: Value| user_entry(k, v)
}

/// The users that a users term holds, one per map entry, in order, each
/// under the entry's own key.
pub open spec fn users(t: Value) -> Result<Seq<(Seq<char>, UserView)>, ErrorView> {
    match map_entries(t) {
        Err(e) => Err(e),
        Ok(es) => collect_entries(es, user_step()),
    }
}

/// The text of each pair.
pub open spec fn pairs_view(v: Seq<(String, String)>) -> Seq<(Seq<char>, Seq<char>)> {
    v.map_values(|p: (String, String)| (p.0@, p.1@))
}

/// The key's text and the user's view, for each user.
pub open spec fn users_view(v: Seq<(String, User)>) -> Seq<(Seq<char>, UserView)> {
    v.map_values(|p: (String, User)| (p.0@, p.1@))
}

/// Reads a user map into pairs of atom name and text, in order.
pub fn get_hashmap(term: &Value) -> (r: Result<Vec<(String, String)>, Error>)
    ensures
        match r {
            Ok(v) => field_pairs(*term) == Ok::<_, ErrorView>(pairs_view(v@)),
            Err(e) => field_pairs(*term) == Err::<Seq<(Seq<char>, Seq<char>)>, _>(e@),
        },
{
    let ghost f = field_step();
    let es = match get_map(term) {
        Ok(es) => es,
        Err(e) => return Err(e),
    };
    let mut out: Vec<(String, String)> = Vec::new();
    let mut i: usize = 0;
    assert(es@.take(0) =~= Seq::<(Value, Value)>::empty());
    assert(pairs_view(out@) =~= Seq::empty());
    while i < es.len()
        invariant
            i <= es.len(),
            map_entries(*term) == Ok::<_, ErrorView>(es@),
            f == field_step(),
            collect_entries(es@.take(i as int), f) == Ok::<_, ErrorView>(pairs_view(out@)),
        decreases es.len() - i,
    {
        proof {
            lemma_collect_step(es@, f, i as int);
        }
        let entry = &es[i];
        let k = match get_atom_string(&entry.0) {
            Ok(s) => s,
            Err(e) => {
                proof {
                    lemma_collect_error(es@, f, i as int, e@);
                }
                return Err(e);
            },
        };
        let v = match get_binary_string(&entry.1) {
            Ok(s) => s,
            Err(e) => {
                proof {
                    lemma_collect_error(es@, f, i as int, e@);
                }
                return Err(e);
            },
        };
        let ghost prev = out@;
        let ghost item = (k@, v@);
        out.push((k, v));
        assert(pairs_view(out@) =~= pairs_view(prev).push(item));
        i = i + 1;
    }
    assert(es@.take(es.len() as int) =~= es@);
    Ok(out)
}

/// The atom that names the field.
fn field_key(f: Field) -> (r: String)
    ensures
        r@ == field_name(f),
{
    match f {
        Field::Id => "id".to_owned(),
        Field::Token => "token".to_owned(),
        Field::Created => "created".to_owned(),
        Field::Modified => "modified".to_owned(),
    }
}

/// The text of the field; the last pair for it counts.
fn lookup_field(data: &Vec<(String, String)>, f: Field) -> (r: Result<String, Error>)
    ensures
        match r {
            Ok(s) => lookup(pairs_view(data@), field_name(f)) == Some(s@),
            Err(e) => lookup(pairs_view(data@), field_name(f)) is None
                && e@ == ErrorView::MissingField(f),
        },
{
    let key = field_key(f);
    let mut j: usize = data.len();
    assert(pairs_view(data@).take(j as int) =~= pairs_view(data@));
    while j > 0
        invariant
            j <= data.len(),
            key@ == field_name(f),
            lookup(pairs_view(data@), key@) == lookup(pairs_view(data@).take(j as int), key@),
        decreases j,
    {
        let ghost ps = pairs_view(data@).take(j as int);
        assert(ps.drop_last() =~= pairs_view(data@).take(j - 1));
        if data[j - 1].0 == key {
            return Ok(data[j - 1].1.clone());
        }
        j = j - 1;
    }
    Err(Error::MissingField(f))
}

/// Builds a user from the pairs of a user map: it needs the four fields and
/// no other key.
pub fn to_user(data: &Vec<(String, String)>) -> (r: Result<User, Error>)
    ensures
        match r {
            Ok(u) => user_fields(pairs_view(data@)) == Ok::<_, ErrorView>(u@),
            Err(e) => user_fields(pairs_view(data@)) == Err::<UserView, _>(e@),
        },
{
    let id = match lookup_field(data, Field::Id) {
        Ok(s) => s,
        Err(e) => return Err(e),
    };
    let token = match lookup_field(data, Field::Token) {
        Ok(s) => s,
        Err(e) => return Err(e),
    };
    let created = match lookup_field(data, Field::Created) {
        Ok(s) => s,
        Err(e) => return Err(e),
    };
    let modified = match lookup_field(data, Field::Modified) {
        Ok(s) => s,
        Err(e) => return Err(e),
    };
    let id_key = field_key(Field::Id);
    let token_key = field_key(Field::Token);
    let created_key = field_key(Field::Created);
    let modified_key = field_key(Field::Modified);
    let mut j: usize = 0;
    while j < data.len()
        invariant
            j <= data.len(),
            id_key@ == field_name(Field::Id),
            token_key@ == field_name(Field::Token),
            created_key@ == field_name(Field::Created),
            modified_key@ == field_name(Field::Modified),
            lookup(pairs_view(data@), field_name(Field::Id)) == Some(id@),
            lookup(pairs_view(data@), field_name(Field::Token)) == Some(token@),
            lookup(pairs_view(data@), field_name(Field::Created)) == Some(created@),
            lookup(pairs_view(data@), field_name(Field::Modified)) == Some(modified@),
            unknown_key(pairs_view(data@), 0) == unknown_key(pairs_view(data@), j as int),
        decreases data.len() - j,
    {
        let k = &data[j].0;
        if !(*k == id_key || *k == token_key || *k == created_key || *k == modified_key) {
            return Err(Error::UnexpectedField(k.clone()));
        }
        j = j + 1;
    }
    Ok(User { id, token, created, modified })
}

/// Reads every entry of a users map: a binary key mapped to a map from the
/// four field atoms to binaries. The key is kept as it is, whatever the id
/// field says. Fails on the first entry that has another shape.
pub fn decode_users(term: &Value) -> (r: Result<Vec<(String, User)>, Error>)
    ensures
        match r {
            Ok(v) => users(*term) == Ok::<_, ErrorView>(users_view(v@)),
            Err(e) => users(*term) == Err::<Seq<(Seq<char>, UserView)>, _>(e@),
        },
{
    let ghost f = user_step();
    let es = match get_map(term) {
        Ok(es) => es,
        Err(e) => return Err(e),
    };
    let mut out: Vec<(String, User)> = Vec::new();
    let mut i: usize = 0;
    assert(es@.take(0) =~= Seq::<(Value, Value)>::empty());
    assert(users_view(out@) =~= Seq::empty());
    while i < es.len()
        invariant
            i <= es.len(),
            map_entries(*term) == Ok::<_, ErrorView>(es@),
            f == user_step(),
            collect_entries(es@.take(i as int), f) == Ok::<_, ErrorView>(users_view(out@)),
        decreases es.len() - i,
    {
        proof {
            lemma_collect_step(es@, f, i as int);
        }
        let entry = &es[i];
        let id = match get_binary_string(&entry.0) {
            Ok(s) => s,
            Err(e) => {
                proof {
                    lemma_collect_error(es@, f, i as int, e@);
                }
                return Err(e);
            },
        };
        let data = match get_hashmap(&entry.1) {
            Ok(d) => d,
            Err(e) => {
                proof {
                    lemma_collect_error(es@, f, i as int, e@);
                }
                return Err(e);
            },
        };
        let user = match to_user(&data) {
            Ok(u) => u,
            Err(e) => {
                proof {
                    lemma_collect_error(es@, f, i as int, e@);
                }
                return Err(e);
            },
        };
        let ghost prev = out@;
        let ghost item = (id@, user@);
        out.push((id, user));
        assert(users_view(out@) =~= users_view(prev).push(item));
        i = i + 1;
    }
    assert(es@.take(es.len() as int) =~= es@);
    Ok(out)
}

/// The users that the bytes of a users file hold.
pub open spec fn users_in(bytes: Seq<u8>) -> Result<Seq<(Seq<char>, UserView)>, ErrorView> {
    match decoded(bytes) {
        Err(e) => Err(e),
        Ok(t) => users(t),
    }
}

/// Decodes a users file and reads its users.
pub fn read_users(bytes: &[u8]) -> (r: Result<Vec<(String, User)>, Error>)
    ensures
        match r {
            Ok(v) => users_in(bytes@) == Ok::<_, ErrorView>(users_view(v@)),
            Err(e) => users_in(bytes@) == Err::<Seq<(Seq<char>, UserView)>, _>(e@),
        },
{
    match decode(bytes) {
        Ok(t) => decode_users(&t),
        Err(e) => Err(e),
    }
}

/// `r` is the key's text and the user whose four fields are the texts under
/// the four field atoms of the entry's own map.
pub open spec fn read_from_entry(r: (Seq<char>, UserView), entry: (Value, Value)) -> bool {
    let ps = field_pairs(entry.1)->Ok_0;
    &&& binary_text(entry.0) is Ok
    &&& field_pairs(entry.1) is Ok
    &&& r.0 == binary_text(entry.0)->Ok_0
    &&& Some(r.1.id) == lookup(ps, field_name(Field::Id))
    &&& Some(r.1.token) == lookup(ps, field_name(Field::Token))
    &&& Some(r.1.created) == lookup(ps, field_name(Field::Created))
    &&& Some(r.1.modified) == lookup(ps, field_name(Field::Modified))
}

/// A read users map gives one user per entry, in the entry's place, under
/// the text of the entry's key; the four fields of the user are the texts
/// under the four field atoms of the entry's own map. The key and the id
/// field are taken apart: nothing ties one to the other.
pub proof fn lemma_users_entries(t: Value)
    requires
        users(t) is Ok,
    ensures
        t is Dict,
        users(t)->Ok_0.len() == t->Dict_0@.len(),
        forall|i: int|
            0 <= i < t->Dict_0@.len() ==> read_from_entry(#[trigger] users(t)->Ok_0[i], t->Dict_0@[i]),
{
    let es = t->Dict_0@;
    lemma_collect_ok(es, user_step());
    assert forall|i: int| 0 <= i < es.len() implies read_from_entry(#[trigger] users(t)->Ok_0[i], es[i]) by {
        assert((user_step())(es[i].0, es[i].1) is Ok);
    }
}

/// A user map that lacks the token fails naming the token, once the entries
/// before it have been read: no empty text stands in for it.
pub proof fn lemma_missing_token(t: Value, i: int)
    requires
        t is Dict,
        0 <= i < t->Dict_0@.len(),
        collect_entries(t->Dict_0@.take(i), user_step()) is Ok,
        binary_text(t->Dict_0@[i].0) is Ok,
        field_pairs(t->Dict_0@[i].1) is Ok,
        lookup(field_pairs(t->Dict_0@[i].1)->Ok_0, field_name(Field::Id)) is Some,
        lookup(field_pairs(t->Dict_0@[i].1)->Ok_0, field_name(Field::Token)) is None,
    ensures
        users(t) == Err::<Seq<(Seq<char>, UserView)>, _>(ErrorView::MissingField(Field::Token)),
{
    let es = t->Dict_0@;
    lemma_collect_step(es, user_step(), i);
    lemma_collect_error(es, user_step(), i, ErrorView::MissingField(Field::Token));
}

/// The entry of a user map that holds field `f` with text `s`.
pub open spec fn encodes_field(entry: (Value, Value), f: Field, s: Seq<char>) -> bool {
    &&& entry.0 is Atom
    &&& entry.0->Atom_0@ == field_name(f)
    &&& is_text(entry.1, s)
}

/// `t` is a users map that holds the users `us`, in order: each under a
/// binary of its key, as a map from the four field atoms, in the order id,
/// token, created, modified, to binaries of the fields.
pub open spec fn encodes_users(t: Value, us: Seq<(Seq<char>, UserView)>) -> bool {
    &&& t is Dict
    &&& t->Dict_0@.len() == us.len()
    &&& forall|i: int| 0 <= i < us.len() ==> #[trigger] encodes_user(t->Dict_0@[i], us[i])
}

/// The entry of a users map that holds user `u.1` under key `u.0`.
pub open spec fn encodes_user(entry: (Value, Value), u: (Seq<char>, UserView)) -> bool {
    &&& is_text(entry.0, u.0)
    &&& entry.1 is Dict
    &&& entry.1->Dict_0@.len() == 4
    &&& encodes_field(entry.1->Dict_0@[0], Field::Id, u.1.id)
    &&& encodes_field(entry.1->Dict_0@[1], Field::Token, u.1.token)
    &&& encodes_field(entry.1->Dict_0@[2], Field::Created, u.1.created)
    &&& encodes_field(entry.1->Dict_0@[3], Field::Modified, u.1.modified)
}


/// The entry of a user map for field `f` with text `s`.
fn field_entry(f: Field, s: &String) -> (r: (Value, Value))
    ensures
        encodes_field(r, f, s@),
{
    (Value::Atom(field_key(f)), text_term(s))
}

/// Writes users as a users map, each under its key.
pub fn user_term(records: &Vec<(String, User)>) -> (r: Value)
    ensures
        encodes_users(r, users_view(records@)),
{
    let ghost us = users_view(records@);
    let mut es: Vec<(Value, Value)> = Vec::new();
    let mut i: usize = 0;
    while i < records.len()
        invariant
            i <= records.len(),
            us == users_view(records@),
            es@.len() == i,
            forall|j: int| 0 <= j < i ==> #[trigger] encodes_user(es@[j], us[j]),
        decreases records.len() - i,
    {
        let (key, u) = &records[i];
        let mut fields: Vec<(Value, Value)> = Vec::new();
        fields.push(field_entry(Field::Id, &u.id));
        fields.push(field_entry(Field::Token, &u.token));
        fields.push(field_entry(Field::Created, &u.created));
        fields.push(field_entry(Field::Modified, &u.modified));
        es.push((text_term(key), Value::Dict(fields)));
        i = i + 1;
    }
    Value::Dict(es)
}

/// The four field names differ from one another.
proof fn lemma_field_names_differ()
    ensures
        field_name(Field::Id) != field_name(Field::Token),
        field_name(Field::Id) != field_name(Field::Created),
        field_name(Field::Id) != field_name(Field::Modified),
        field_name(Field::Token) != field_name(Field::Created),
        field_name(Field::Token) != field_name(Field::Modified),
        field_name(Field::Created) != field_name(Field::Modified),
{
    reveal_strlit("id");
    reveal_strlit("token");
    reveal_strlit("created");
    reveal_strlit("modified");
    assert(field_name(Field::Id).len() != field_name(Field::Token).len());
    assert(field_name(Field::Id).len() != field_name(Field::Created).len());
    assert(field_name(Field::Id).len() != field_name(Field::Modified).len());
    assert(field_name(Field::Token).len() != field_name(Field::Created).len());
    assert(field_name(Field::Token).len() != field_name(Field::Modified).len());
    assert(field_name(Field::Created)[0] != field_name(Field::Modified)[0]);
}

/// The user map that `encodes_user` describes reads back as that user.
proof fn lemma_user_round_trip(entry: (Value, Value), u: (Seq<char>, UserView))
    requires
        encodes_user(entry, u),
    ensures
        user_entry(entry.0, entry.1) == Ok::<_, ErrorView>(u),
{
    let fs = entry.1->Dict_0@;
    let f = field_step();
    assert forall|j: int| 0 <= j < fs.len() implies (#[trigger] f(fs[j].0, fs[j].1)) is Ok by {}
    lemma_collect_all_ok(fs, f);
    let ps = field_pairs(entry.1)->Ok_0;
    let want = seq![
        (field_name(Field::Id), u.1.id),
        (field_name(Field::Token), u.1.token),
        (field_name(Field::Created), u.1.created),
        (field_name(Field::Modified), u.1.modified),
    ];
    assert(ps[0] == want[0]);
    assert(ps[1] == want[1]);
    assert(ps[2] == want[2]);
    assert(ps[3] == want[3]);
    assert(ps =~= want);
    lemma_field_names_differ();
    assert(ps.drop_last().drop_last().drop_last().drop_last() =~= Seq::<(Seq<char>, Seq<char>)>::empty());
    reveal_with_fuel(lookup, 5);
    assert(lookup(ps, field_name(Field::Id)) == Some(u.1.id));
    assert(lookup(ps, field_name(Field::Token)) == Some(u.1.token));
    assert(lookup(ps, field_name(Field::Created)) == Some(u.1.created));
    assert(lookup(ps, field_name(Field::Modified)) == Some(u.1.modified));
    reveal_with_fuel(unknown_key, 5);
    assert(unknown_key(ps, 0) is None);
}

/// Writing users as a users map and reading the map back gives the same
/// users, field for field, each under its key.
pub proof fn lemma_users_round_trip(t: Value, us: Seq<(Seq<char>, UserView)>)
    requires
        encodes_users(t, us),
    ensures
        users(t) == Ok::<_, ErrorView>(us),
{
    let es = t->Dict_0@;
    let f = user_step();
    assert forall|i: int| 0 <= i < es.len() implies (#[trigger] f(es[i].0, es[i].1)) is Ok
        && f(es[i].0, es[i].1)->Ok_0 == us[i] by {
        assert(encodes_user(es[i], us[i]));
        lemma_user_round_trip(es[i], us[i]);
    }
    lemma_collect_all_ok(es, f);
    assert(users(t)->Ok_0 =~= us);
}

} // verus!
