use vstd::prelude::*;
use crate::term::{
    binary_text, collect_entries, decode, decoded, get_binary_string, get_map, get_tuple, is_text,
    lemma_collect_all_ok, lemma_collect_error, lemma_collect_step, map_entries, text_term,
    tuple_elements, Error, ErrorView, Value,
};

verus! {

/// A language image: its id, name, version and image, all text.
#[derive(Debug, Clone)]
pub struct Language {
    pub id: String,
    pub name: String,
    pub version: String,
    pub image: String,
}

/// The text of the four fields of a `Language`.
pub struct LanguageView {
    pub id: Seq<char>,
    pub name: Seq<char>,
    pub version: Seq<char>,
    pub image: Seq<char>,
}

impl View for Language {
    type V = LanguageView;

    open spec fn view(&self) -> LanguageView {
        LanguageView { id: self.id@, name: self.name@, version: self.version@, image: self.image@ }
    }
}

/// The record with this id that a tuple of name, version and image makes.
pub open spec fn language_fields(id: Seq<char>, els: Seq<Value>) -> Result<LanguageView, ErrorView> {
    if els.len() != 3 {
        Err(ErrorView::TupleArity(els.len() as usize))
    } else {
        match binary_text(els[0]) {
            Err(e) => Err(e),
            Ok(name) => match binary_text(els[1]) {
                Err(e) => Err(e),
                Ok(version) => match binary_text(els[2]) {
                    Err(e) => Err(e),
                    Ok(image) => Ok(LanguageView { id, name, version, image }),
                },
            },
        }
    }
}

/// The id and the record that one entry of a languages map gives.
pub open spec fn language_entry(key: Value, value: Value) -> Result<(Seq<char>, LanguageView), ErrorView> {
    match binary_text(key) {
        Err(e) => Err(e),
        Ok(id) => match tuple_elements(value) {
            Err(e) => Err(e),
            Ok(els) => match language_fields(id, els) {
                Err(e) => Err(e),
                Ok(l) => Ok((id, l)),
            },
        },
    }
}

/// `language_entry` as a function value, for reading a whole map.
pub open spec fn language_step() -> spec_fn(Value, Value) -> Result<(Seq<char>, LanguageView), ErrorView> {
    |k: Value, v: Value| language_entry(k, v)
}

/// The records that a languages term holds, one per map entry, in order.
pub open spec fn languages(t: Value) -> Result<Seq<(Seq<char>, LanguageView)>, ErrorView> {
    match map_entries(t) {
        Err(e) => Err(e),
        Ok(es) => collect_entries(es, language_step()),
    }
}

/// The id's text and the record's view, for each record.
pub open spec fn languages_view(v: Seq<(String, Language)>) -> Seq<(Seq<char>, LanguageView)> {
    v.map_values(|p: (String, Language)| (p.0@, p.1@))
}

/// Builds the record with this id from a tuple of name, version and image.
pub fn to_language(id: &String, tuple: &Vec<Value>) -> (r: Result<Language, Error>)
    ensures
        match r {
            Ok(l) => language_fields(id@, tuple@) == Ok::<_, ErrorView>(l@),
            Err(e) => language_fields(id@, tuple@) == Err::<LanguageView, _>(e@),
        },
{
    if tuple.len() != 3 {
        return Err(Error::TupleArity(tuple.len()));
    }
    let name = match get_binary_string(&tuple[0]) {
        Ok(s) => s,
        Err(e) => return Err(e),
    };
    let version = match get_binary_string(&tuple[1]) {
        Ok(s) => s,
        Err(e) => return Err(e),
    };
    let image = match get_binary_string(&tuple[2]) {
        Ok(s) => s,
        Err(e) => return Err(e),
    };
    Ok(Language { id: id.clone(), name, version, image })
}

/// Reads every entry of a languages map: a binary id mapped to a tuple of
/// three binaries. Fails on the first entry that has another shape.
pub fn decode_languages(term: &Value) -> (r: Result<Vec<(String, Language)>, Error>)
    ensures
        match r {
            Ok(v) => languages(*term) == Ok::<_, ErrorView>(languages_view(v@)),
            Err(e) => languages(*term) == Err::<Seq<(Seq<char>, LanguageView)>, _>(e@),
        },
{
    let ghost f = language_step();
    let es = match get_map(term) {
        Ok(es) => es,
        Err(e) => return Err(e),
    };
    let mut out: Vec<(String, Language)> = Vec::new();
    let mut i: usize = 0;
    assert(es@.take(0) =~= Seq::<(Value, Value)>::empty());
    assert(languages_view(out@) =~= Seq::empty());
    while i < es.len()
        invariant
            i <= es.len(),
            map_entries(*term) == Ok::<_, ErrorView>(es@),
            f == language_step(),
            collect_entries(es@.take(i as int), f) == Ok::<_, ErrorView>(languages_view(out@)),
        decreases es.len() - i,
    {
        proof {
            lemma_collect_step(es@, f, i as int);
        }
        let entry = &es[i];
        let id = match get_binary_string(&entry.0) {
            Ok(s) => s,
            Err(e) => {
                proof {
                    lemma_collect_error(es@, f, i as int, e@);
                }
                return Err(e);
            },
        };
        let tuple = match get_tuple(&entry.1) {
            Ok(t) => t,
            Err(e) => {
                proof {
                    lemma_collect_error(es@, f, i as int, e@);
                }
                return Err(e);
            },
        };
        let language = match to_language(&id, tuple) {
            Ok(l) => l,
            Err(e) => {
                proof {
                    lemma_collect_error(es@, f, i as int, e@);
                }
                return Err(e);
            },
        };
        let ghost prev = out@;
        let ghost item = (id@, language@);
        out.push((id, language));
        assert(languages_view(out@) =~= languages_view(prev).push(item));
        i = i + 1;
    }
    assert(es@.take(es.len() as int) =~= es@);
    Ok(out)
}

/// The records that the bytes of a languages file hold.
pub open spec fn languages_in(bytes: Seq<u8>) -> Result<Seq<(Seq<char>, LanguageView)>, ErrorView> {
    match decoded(bytes) {
        Err(e) => Err(e),
        Ok(t) => languages(t),
    }
}

/// Decodes a languages file and reads its records.
pub fn read_languages(bytes: &[u8]) -> (r: Result<Vec<(String, Language)>, Error>)
    ensures
        match r {
            Ok(v) => languages_in(bytes@) == Ok::<_, ErrorView>(languages_view(v@)),
            Err(e) => languages_in(bytes@) == Err::<Seq<(Seq<char>, LanguageView)>, _>(e@),
        },
{
    match decode(bytes) {
        Ok(t) => decode_languages(&t),
        Err(e) => Err(e),
    }
}

/// `t` is a languages map that holds the records `ls`, in order: each under a
/// binary of its id, as a tuple of binaries of its name, version and image.
pub open spec fn encodes_languages(t: Value, ls: Seq<LanguageView>) -> bool {
    &&& t is Dict
    &&& t->Dict_0@.len() == ls.len()
    &&& forall|i: int| 0 <= i < ls.len() ==> #[trigger] encodes_language(t->Dict_0@[i], ls[i])
}

/// The entry of a languages map that holds record `l`.
pub open spec fn encodes_language(entry: (Value, Value), l: LanguageView) -> bool {
    &&& is_text(entry.0, l.id)
    &&& entry.1 is Tuple
    &&& entry.1->Tuple_0@.len() == 3
    &&& is_text(entry.1->Tuple_0@[0], l.name)
    &&& is_text(entry.1->Tuple_0@[1], l.version)
    &&& is_text(entry.1->Tuple_0@[2], l.image)
}

/// Writes records as a languages map, each under its id.
pub fn language_term(records: &Vec<Language>) -> (r: Value)
    ensures
        encodes_languages(r, records@.map_values(|l: Language| l@)),
{
    let ghost ls = records@.map_values(|l: Language| l@);
    let mut es: Vec<(Value, Value)> = Vec::new();
    let mut i: usize = 0;
    while i < records.len()
        invariant
            i <= records.len(),
            ls == records@.map_values(|l: Language| l@),
            es@.len() == i,
            forall|j: int| 0 <= j < i ==> #[trigger] encodes_language(es@[j], ls[j]),
        decreases records.len() - i,
    {
        let l = &records[i];
        let mut els: Vec<Value> = Vec::new();
        els.push(text_term(&l.name));
        els.push(text_term(&l.version));
        els.push(text_term(&l.image));
        es.push((text_term(&l.id), Value::Tuple(els)));
        i = i + 1;
    }
    Value::Dict(es)
}

/// The text of a binary term that holds UTF-8.
pub open spec fn text(t: Value) -> Seq<char> {
    binary_text(t)->Ok_0
}

/// An entry with a binary key and a tuple of three binaries, all UTF-8.
pub open spec fn well_formed_language(entry: (Value, Value)) -> bool {
    &&& binary_text(entry.0) is Ok
    &&& entry.1 is Tuple
    &&& entry.1->Tuple_0@.len() == 3
    &&& binary_text(entry.1->Tuple_0@[0]) is Ok
    &&& binary_text(entry.1->Tuple_0@[1]) is Ok
    &&& binary_text(entry.1->Tuple_0@[2]) is Ok
}

/// A map of which every entry is well formed.
pub open spec fn well_formed_languages(t: Value) -> bool {
    &&& t is Dict
    &&& forall|i: int| 0 <= i < t->Dict_0@.len() ==> #[trigger] well_formed_language(t->Dict_0@[i])
}

/// The record that a well-formed entry stands for.
pub open spec fn language_of_entry(entry: (Value, Value)) -> LanguageView {
    LanguageView {
        id: text(entry.0),
        name: text(entry.1->Tuple_0@[0]),
        version: text(entry.1->Tuple_0@[1]),
        image: text(entry.1->Tuple_0@[2]),
    }
}

/// Each well-formed entry of a languages map gives exactly one record, in
/// the entry's place: its id is the key's text, and its name, version and
/// image are the texts of the tuple, in order.
pub proof fn lemma_languages_entries(t: Value)
    requires
        well_formed_languages(t),
    ensures
        languages(t) is Ok,
        languages(t)->Ok_0.len() == t->Dict_0@.len(),
        forall|i: int|
            0 <= i < t->Dict_0@.len() ==> #[trigger] languages(t)->Ok_0[i] == (
                text(t->Dict_0@[i].0),
                language_of_entry(t->Dict_0@[i]),
            ),
{
    let es = t->Dict_0@;
    let f = language_step();
    assert forall|i: int| 0 <= i < es.len() implies (#[trigger] f(es[i].0, es[i].1)) is Ok
        && f(es[i].0, es[i].1)->Ok_0 == (text(es[i].0), language_of_entry(es[i])) by {
        assert(well_formed_language(es[i]));
    }
    lemma_collect_all_ok(es, f);
}

/// Writing records as a languages map and reading the map back gives the
/// same records, field for field, each under its id.
pub proof fn lemma_languages_round_trip(t: Value, ls: Seq<LanguageView>)
    requires
        encodes_languages(t, ls),
    ensures
        languages(t) == Ok::<_, ErrorView>(ls.map_values(|l: LanguageView| (l.id, l))),
{
    let es = t->Dict_0@;
    assert forall|i: int| 0 <= i < es.len() implies #[trigger] well_formed_language(es[i])
        && language_of_entry(es[i]) == ls[i] by {
        assert(encodes_language(es[i], ls[i]));
    }
    lemma_languages_entries(t);
    let r = languages(t)->Ok_0;
    let m = ls.map_values(|l: LanguageView| (l.id, l));
    assert forall|i: int| 0 <= i < r.len() implies r[i] == m[i] by {
        assert(encodes_language(es[i], ls[i]));
        assert(well_formed_language(es[i]) && language_of_entry(es[i]) == ls[i]);
        assert(r[i] == (text(es[i].0), language_of_entry(es[i])));
    }
    assert(r =~= m);
}

/// A record tuple of any length but three fails with that length, once the
/// entries before it have been read: extra or missing elements are never
/// dropped or made up.
pub proof fn lemma_tuple_arity(t: Value, i: int)
    requires
        t is Dict,
        0 <= i < t->Dict_0@.len(),
        collect_entries(t->Dict_0@.take(i), language_step()) is Ok,
        binary_text(t->Dict_0@[i].0) is Ok,
        t->Dict_0@[i].1 is Tuple,
        t->Dict_0@[i].1->Tuple_0@.len() != 3,
    ensures
        languages(t) == Err::<Seq<(Seq<char>, LanguageView)>, _>(
            ErrorView::TupleArity(t->Dict_0@[i].1->Tuple_0@.len() as usize),
        ),
{
    let es = t->Dict_0@;
    lemma_collect_step(es, language_step(), i);
    lemma_collect_error(es, language_step(), i, ErrorView::TupleArity(es[i].1->Tuple_0@.len() as usize));
}

} // verus!
