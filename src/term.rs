use vstd::prelude::*;
use vstd::slice::slice_to_vec;
use vstd::utf8::{
    decode_utf8, decode_utf8_encode_utf8, encode_utf8, encode_utf8_decode_utf8, encode_utf8_valid_utf8,
    valid_utf8,
};
use crate::skeleton::{is_readable_term, readable_term};

verus! {

/// A decoded value of the binary term format, reduced to what the record
/// schemas read. Every other kind of term (numbers, lists, pids, ...) is `Other`.
#[derive(Debug)]
pub enum Value {
    Atom(String),
    Binary(Vec<u8>),
    Tuple(Vec<Value>),
    Dict(Vec<(Value, Value)>),
    Other,
}

/// One of the four fields of a user record.
#[derive(Clone, Copy, Debug, PartialEq, Eq, Structural)]
pub enum Field {
    Id,
    Token,
    Created,
    Modified,
}

/// The kind of a term, as named when a term of another kind was expected.
#[derive(Clone, Copy, Debug, PartialEq, Eq, Structural)]
pub enum Kind {
    Atom,
    Binary,
    Tuple,
    Dict,
    Other,
}

/// Why input could not be read as records. Every error is final. Where a
/// term of one kind was expected, the error names the kind that was found.
#[derive(Clone, Debug, PartialEq, Eq)]
pub enum Error {
    /// The bytes are not a well-formed term of maps, tuples, atoms and binaries.
    Decode,
    ExpectedMap(Kind),
    ExpectedTuple(Kind),
    ExpectedAtom(Kind),
    ExpectedBinary(Kind),
    /// A record tuple whose number of elements is not three.
    TupleArity(usize),
    /// A binary whose bytes are not UTF-8 text.
    InvalidUtf8,
    /// A user map lacks the field.
    MissingField(Field),
    /// A user map holds this key, which is none of the four fields.
    UnexpectedField(String),
}

/// An `Error` with its text as a sequence of characters.
pub enum ErrorView {
    Decode,
    ExpectedMap(Kind),
    ExpectedTuple(Kind),
    ExpectedAtom(Kind),
    ExpectedBinary(Kind),
    TupleArity(usize),
    InvalidUtf8,
    MissingField(Field),
    UnexpectedField(Seq<char>),
}

impl View for Error {
    type V = ErrorView;

    open spec fn view(&self) -> ErrorView {
        match self {
            Error::Decode => ErrorView::Decode,
            Error::ExpectedMap(k) => ErrorView::ExpectedMap(*k),
            Error::ExpectedTuple(k) => ErrorView::ExpectedTuple(*k),
            Error::ExpectedAtom(k) => ErrorView::ExpectedAtom(*k),
            Error::ExpectedBinary(k) => ErrorView::ExpectedBinary(*k),
            Error::TupleArity(n) => ErrorView::TupleArity(*n),
            Error::InvalidUtf8 => ErrorView::InvalidUtf8,
            Error::MissingField(f) => ErrorView::MissingField(*f),
            Error::UnexpectedField(s) => ErrorView::UnexpectedField(s@),
        }
    }
}

/// The kind of the term.
pub open spec fn kind_of(t: Value) -> Kind {
    match t {
        Value::Atom(_) => Kind::Atom,
        Value::Binary(_) => Kind::Binary,
        Value::Tuple(_) => Kind::Tuple,
        Value::Dict(_) => Kind::Dict,
        Value::Other => Kind::Other,
    }
}

/// The kind of the term.
pub fn kind(t: &Value) -> (r: Kind)
    ensures
        r == kind_of(*t),
{
    match t {
        Value::Atom(_) => Kind::Atom,
        Value::Binary(_) => Kind::Binary,
        Value::Tuple(_) => Kind::Tuple,
        Value::Dict(_) => Kind::Dict,
        Value::Other => Kind::Other,
    }
}

/// The text that UTF-8 bytes encode, or `None` where they are not UTF-8.
pub open spec fn utf8_text(bytes: Seq<u8>) -> Option<Seq<char>> {
    if valid_utf8(bytes) {
        Some(decode_utf8(bytes))
    } else {
        None
    }
}

/// The term that the binary term format encodes in these bytes, or `None`
/// where they encode none.
pub uninterp spec fn term_of(bytes: Seq<u8>) -> Option<Value>;

/// Relies on `String::from_utf8`: it succeeds exactly on valid UTF-8, with
/// the text that the bytes encode.
#[verifier::external_body]
fn text_from_utf8(bytes: &Vec<u8>) -> (r: Option<String>)
    ensures
        match r {
            Some(s) => utf8_text(bytes@) == Some(s@),
            None => utf8_text(bytes@) is None,
        },
{
    String::from_utf8(bytes.clone()).ok()
}

/// The UTF-8 bytes of the text.
fn utf8_bytes(s: &String) -> (r: Vec<u8>)
    ensures
        r@ == encode_utf8(s@),
        utf8_text(r@) == Some(s@),
{
    let r = slice_to_vec(s.as_str().as_bytes());
    proof {
        encode_utf8_valid_utf8(s@);
        encode_utf8_decode_utf8(s@);
    }
    r
}

/// eetf's term, carried through as it is.
#[verifier::external_type_specification]
#[verifier::external_body]
pub struct ExOutsideTerm(eetf::Term);

/// eetf's decoding error, carried through as it is.
#[verifier::external_type_specification]
#[verifier::external_body]
pub struct ExOutsideDecodeError(eetf::DecodeError);

/// Carries a term of eetf over into `Value`, variant by variant.
#[verifier::external_body]
fn lift(t: eetf::Term) -> Value {
    match t {
        eetf::Term::Atom(a) => Value::Atom(a.name),
        eetf::Term::Binary(b) => Value::Binary(b.bytes),
        eetf::Term::Tuple(t) => Value::Tuple(t.elements.into_iter().map(lift).collect()),
        eetf::Term::Map(m) => Value::Dict(m.entries.into_iter().map(|(k, v)| (lift(k), lift(v))).collect()),
        _ => Value::Other,
    }
}

/// Relies on `eetf::Term::decode`: the term depends on the bytes alone, and
/// bytes that encode none give an error. eetf panics on some tags (atom cache
/// references, distribution headers, odd bit binaries) and recurses once per
/// level of nesting, so the caller hands it only a skeleton of maps, tuples,
/// atoms and binaries of bounded depth, all of whose lengths fit the bytes.
#[verifier::external_body]
fn decode_outside(bytes: &[u8]) -> (r: Result<Value, eetf::DecodeError>)
    requires
        readable_term(bytes@),
    ensures
        match r {
            Ok(t) => term_of(bytes@) == Some(t),
            Err(_) => term_of(bytes@) is None,
        },
{
    eetf::Term::decode(bytes).map(lift)
}

/// A binary term whose bytes are UTF-8 for `s`.
pub open spec fn is_text(t: Value, s: Seq<char>) -> bool {
    &&& t is Binary
    &&& utf8_text(t->Binary_0@) == Some(s)
}

/// The binary term of the text.
pub(crate) fn text_term(s: &String) -> (r: Value)
    ensures
        is_text(r, s@),
{
    Value::Binary(utf8_bytes(s))
}

/// What `decode` makes of these bytes.
pub open spec fn decoded(bytes: Seq<u8>) -> Result<Value, ErrorView> {
    if !readable_term(bytes) {
        Err(ErrorView::Decode)
    } else {
        match term_of(bytes) {
            Some(t) => Ok(t),
            None => Err(ErrorView::Decode),
        }
    }
}

/// Decodes the single term that the bytes hold. Bytes that hold anything but
/// a skeleton of maps, tuples, atoms and binaries (see `readable_term`) are
/// refused with `Decode` before they reach the decoder.
pub fn decode(bytes: &[u8]) -> (r: Result<Value, Error>)
    ensures
        match r {
            Ok(t) => decoded(bytes@) == Ok::<_, ErrorView>(t),
            Err(e) => decoded(bytes@) == Err::<Value, _>(e@),
        },
{
    if !is_readable_term(bytes) {
        return Err(Error::Decode);
    }
    match decode_outside(bytes) {
        Ok(t) => Ok(t),
        Err(_) => Err(Error::Decode),
    }
}

/// The entries of a map term.
pub open spec fn map_entries(t: Value) -> Result<Seq<(Value, Value)>, ErrorView> {
    match t {
        Value::Dict(es) => Ok(es@),
        _ => Err(ErrorView::ExpectedMap(kind_of(t))),
    }
}

/// The elements of a tuple term.
pub open spec fn tuple_elements(t: Value) -> Result<Seq<Value>, ErrorView> {
    match t {
        Value::Tuple(els) => Ok(els@),
        _ => Err(ErrorView::ExpectedTuple(kind_of(t))),
    }
}

/// The name of an atom term.
pub open spec fn atom_name(t: Value) -> Result<Seq<char>, ErrorView> {
    match t {
        Value::Atom(s) => Ok(s@),
        _ => Err(ErrorView::ExpectedAtom(kind_of(t))),
    }
}

/// The text of a binary term.
pub open spec fn binary_text(t: Value) -> Result<Seq<char>, ErrorView> {
    match t {
        Value::Binary(b) => match utf8_text(b@) {
            Some(s) => Ok(s),
            None => Err(ErrorView::InvalidUtf8),
        },
        _ => Err(ErrorView::ExpectedBinary(kind_of(t))),
    }
}

/// The entries of a map term, or `ExpectedMap`.
pub fn get_map(term: &Value) -> (r: Result<&Vec<(Value, Value)>, Error>)
    ensures
        match r {
            Ok(es) => map_entries(*term) == Ok::<_, ErrorView>(es@),
            Err(e) => map_entries(*term) == Err::<Seq<(Value, Value)>, _>(e@),
        },
{
    match term {
        Value::Dict(es) => Ok(es),
        _ => Err(Error::ExpectedMap(kind(term))),
    }
}

/// The elements of a tuple term, or `ExpectedTuple`.
pub fn get_tuple(term: &Value) -> (r: Result<&Vec<Value>, Error>)
    ensures
        match r {
            Ok(els) => tuple_elements(*term) == Ok::<_, ErrorView>(els@),
            Err(e) => tuple_elements(*term) == Err::<Seq<Value>, _>(e@),
        },
{
    match term {
        Value::Tuple(els) => Ok(els),
        _ => Err(Error::ExpectedTuple(kind(term))),
    }
}

/// The name of an atom term, or `ExpectedAtom`.
pub fn get_atom_string(term: &Value) -> (r: Result<String, Error>)
    ensures
        match r {
            Ok(s) => atom_name(*term) == Ok::<_, ErrorView>(s@),
            Err(e) => atom_name(*term) == Err::<Seq<char>, _>(e@),
        },
{
    match term {
        Value::Atom(s) => Ok(s.clone()),
        _ => Err(Error::ExpectedAtom(kind(term))),
    }
}

/// The text of a binary term: `ExpectedBinary` for another term,
/// `InvalidUtf8` for bytes that are not UTF-8.
pub fn get_binary_string(term: &Value) -> (r: Result<String, Error>)
    ensures
        match r {
            Ok(s) => binary_text(*term) == Ok::<_, ErrorView>(s@) && *term is Binary
                && encode_utf8(s@) == term->Binary_0@,
            Err(e) => binary_text(*term) == Err::<Seq<char>, _>(e@),
        },
{
    match term {
        Value::Binary(b) => match text_from_utf8(b) {
            Some(s) => {
                proof {
                    decode_utf8_encode_utf8(b@);
                }
                Ok(s)
            },
            None => Err(Error::InvalidUtf8),
        },
        _ => Err(Error::ExpectedBinary(kind(term))),
    }
}

/// Reads the entries of a map one after another, in order, with `f`, and
/// stops at the first entry that `f` refuses.
pub open spec fn collect_entries<T>(
    es: Seq<(Value, Value)>,
    f: spec_fn(Value, Value) -> Result<T, ErrorView>,
) -> Result<Seq<T>, ErrorView>
    decreases es.len(),
{
    if es.len() == 0 {
        Ok(Seq::empty())
    } else {
        match collect_entries(es.drop_last(), f) {
            Err(e) => Err(e),
            Ok(p) => match f(es.last().0, es.last().1) {
                Ok(x) => Ok(p.push(x)),
                Err(e) => Err(e),
            },
        }
    }
}

/// One more entry read after the first `i`.
pub proof fn lemma_collect_step<T>(
    es: Seq<(Value, Value)>,
    f: spec_fn(Value, Value) -> Result<T, ErrorView>,
    i: int,
)
    requires
        0 <= i < es.len(),
    ensures
        collect_entries(es.take(i + 1), f) == match collect_entries(es.take(i), f) {
            Err(e) => Err(e),
            Ok(p) => match f(es[i].0, es[i].1) {
                Ok(x) => Ok(p.push(x)),
                Err(e) => Err::<Seq<T>, ErrorView>(e),
            },
        },
{
    assert(es.take(i + 1).drop_last() =~= es.take(i));
}

/// Once an entry is refused, the whole map is refused with that error.
pub proof fn lemma_collect_error<T>(
    es: Seq<(Value, Value)>,
    f: spec_fn(Value, Value) -> Result<T, ErrorView>,
    i: int,
    e: ErrorView,
)
    requires
        0 <= i < es.len(),
        collect_entries(es.take(i + 1), f) == Err::<Seq<T>, ErrorView>(e),
    ensures
        collect_entries(es, f) == Err::<Seq<T>, ErrorView>(e),
    decreases es.len() - i,
{
    if i + 1 == es.len() {
        assert(es.take(i + 1) =~= es);
    } else {
        lemma_collect_step(es, f, i + 1);
        lemma_collect_error(es, f, i + 1, e);
    }
}

/// Where `f` accepts every entry, the map is read whole, one result per entry.
pub proof fn lemma_collect_all_ok<T>(
    es: Seq<(Value, Value)>,
    f: spec_fn(Value, Value) -> Result<T, ErrorView>,
)
    requires
        forall|i: int| 0 <= i < es.len() ==> (#[trigger] f(es[i].0, es[i].1)) is Ok,
    ensures
        collect_entries(es, f) is Ok,
        collect_entries(es, f)->Ok_0.len() == es.len(),
        forall|i: int|
            0 <= i < es.len() ==> #[trigger] collect_entries(es, f)->Ok_0[i] == f(es[i].0, es[i].1)->Ok_0,
    decreases es.len(),
{
    if es.len() > 0 {
        let p = es.drop_last();
        assert forall|i: int| 0 <= i < p.len() implies (#[trigger] f(p[i].0, p[i].1)) is Ok by {
            assert(p[i] == es[i]);
        }
        lemma_collect_all_ok(p, f);
        assert forall|i: int| 0 <= i < es.len() implies #[trigger] collect_entries(es, f)->Ok_0[i]
            == f(es[i].0, es[i].1)->Ok_0 by {
            if i < es.len() - 1 {
                assert(p[i] == es[i]);
            }
        }
    }
}

/// A map that is read whole has every entry accepted, one result per entry.
pub proof fn lemma_collect_ok<T>(es: Seq<(Value, Value)>, f: spec_fn(Value, Value) -> Result<T, ErrorView>)
    requires
        collect_entries(es, f) is Ok,
    ensures
        collect_entries(es, f)->Ok_0.len() == es.len(),
        forall|i: int|
            0 <= i < es.len() ==> (#[trigger] f(es[i].0, es[i].1)) is Ok
                && collect_entries(es, f)->Ok_0[i] == f(es[i].0, es[i].1)->Ok_0,
    decreases es.len(),
{
    if es.len() > 0 {
        let p = es.drop_last();
        lemma_collect_ok(p, f);
        assert forall|i: int| 0 <= i < es.len() implies (#[trigger] f(es[i].0, es[i].1)) is Ok
            && collect_entries(es, f)->Ok_0[i] == f(es[i].0, es[i].1)->Ok_0 by {
            if i < es.len() - 1 {
                assert(p[i] == es[i]);
                assert(f(p[i].0, p[i].1) is Ok);
            }
        }
    }
}

} // verus!
