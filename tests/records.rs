use term_records::{
    decode, decode_languages, decode_users, get_binary_string, get_map, is_readable_term, kind,
    language_term, read_languages, read_users, to_user, user_term, Error, Field, Kind, Language,
    User, Value,
};

fn bin(s: &str) -> eetf::Term {
    eetf::Term::from(eetf::Binary::from(s.as_bytes()))
}

fn atom(s: &str) -> eetf::Term {
    eetf::Term::from(eetf::Atom::from(s))
}

fn tuple(els: Vec<eetf::Term>) -> eetf::Term {
    eetf::Term::from(eetf::Tuple::from(els))
}

fn map(entries: Vec<(eetf::Term, eetf::Term)>) -> eetf::Term {
    eetf::Term::from(eetf::Map::from(entries))
}

fn encode(t: &eetf::Term) -> Vec<u8> {
    let mut buf = Vec::new();
    t.encode(&mut buf).unwrap();
    buf
}

fn user_map(fields: &[(&str, &str)]) -> eetf::Term {
    map(fields.iter().map(|(k, v)| (atom(k), bin(v))).collect())
}

#[test]
fn python_language_scenario() {
    let t = map(vec![(bin("py"), tuple(vec![bin("Python"), bin("3.11"), bin("python:3.11")]))]);
    let out = read_languages(&encode(&t)).unwrap();
    assert_eq!(out.len(), 1);
    assert_eq!(out[0].0, "py");
    let l = &out[0].1;
    assert_eq!(l.id, "py");
    assert_eq!(l.name, "Python");
    assert_eq!(l.version, "3.11");
    assert_eq!(l.image, "python:3.11");
}

#[test]
fn single_user_scenario() {
    let t = map(vec![(
        bin("u1"),
        user_map(&[("id", "u1"), ("token", "abc"), ("created", "2023-01-01"), ("modified", "2023-01-02")]),
    )]);
    let out = read_users(&encode(&t)).unwrap();
    assert_eq!(out.len(), 1);
    assert_eq!(out[0].0, "u1");
    let u = &out[0].1;
    assert_eq!(u.id, "u1");
    assert_eq!(u.token, "abc");
    assert_eq!(u.created, "2023-01-01");
    assert_eq!(u.modified, "2023-01-02");
}

#[test]
fn every_language_entry_gives_one_record() {
    let t = map(vec![
        (bin("py"), tuple(vec![bin("Python"), bin("3.11"), bin("python:3.11")])),
        (bin("rs"), tuple(vec![bin("Rust"), bin("1.75"), bin("rust:1.75")])),
    ]);
    let out = read_languages(&encode(&t)).unwrap();
    assert_eq!(out.len(), 2);
    let rs = out.iter().find(|(k, _)| k == "rs").unwrap();
    assert_eq!(rs.1.id, "rs");
    assert_eq!(rs.1.name, "Rust");
    assert_eq!(rs.1.version, "1.75");
    assert_eq!(rs.1.image, "rust:1.75");
    let py = out.iter().find(|(k, _)| k == "py").unwrap();
    assert_eq!(py.1.name, "Python");
}

#[test]
fn outer_key_need_not_match_inner_id() {
    let t = map(vec![(
        bin("outer"),
        user_map(&[("id", "inner"), ("token", "t"), ("created", "c"), ("modified", "m")]),
    )]);
    let out = read_users(&encode(&t)).unwrap();
    assert_eq!(out[0].0, "outer");
    assert_eq!(out[0].1.id, "inner");
    assert_eq!(out[0].1.token, "t");
    assert_eq!(out[0].1.created, "c");
    assert_eq!(out[0].1.modified, "m");
}

#[test]
fn user_fields_in_any_order() {
    let t = map(vec![(
        bin("u2"),
        user_map(&[("modified", "m"), ("created", "c"), ("token", "t"), ("id", "u2")]),
    )]);
    let out = read_users(&encode(&t)).unwrap();
    assert_eq!(out[0].1.id, "u2");
    assert_eq!(out[0].1.token, "t");
    assert_eq!(out[0].1.created, "c");
    assert_eq!(out[0].1.modified, "m");
}

#[test]
fn reading_twice_gives_the_same_records() {
    let t = map(vec![
        (bin("a"), tuple(vec![bin("A"), bin("1"), bin("a:1")])),
        (bin("b"), tuple(vec![bin("B"), bin("2"), bin("b:2")])),
    ]);
    let bytes = encode(&t);
    let first = read_languages(&bytes).unwrap();
    let second = read_languages(&bytes).unwrap();
    assert_eq!(first.len(), second.len());
    for ((k1, l1), (k2, l2)) in first.iter().zip(second.iter()) {
        assert_eq!(k1, k2);
        assert_eq!((&l1.id, &l1.name, &l1.version, &l1.image), (&l2.id, &l2.name, &l2.version, &l2.image));
    }
}

#[test]
fn languages_round_trip_through_bytes() {
    let records = vec![
        Language { id: "ex".to_string(), name: "Elixir ✓".to_string(), version: "1.16".to_string(), image: "elixir:1.16".to_string() },
        Language { id: "é".to_string(), name: "".to_string(), version: "0".to_string(), image: "i".to_string() },
    ];
    let t = map(
        records
            .iter()
            .map(|l| (bin(&l.id), tuple(vec![bin(&l.name), bin(&l.version), bin(&l.image)])))
            .collect(),
    );
    let out = read_languages(&encode(&t)).unwrap();
    assert_eq!(out.len(), records.len());
    for (r, (k, l)) in records.iter().zip(out.iter()) {
        assert_eq!(&r.id, k);
        assert_eq!((&r.id, &r.name, &r.version, &r.image), (&l.id, &l.name, &l.version, &l.image));
    }
}

#[test]
fn languages_round_trip_through_terms() {
    let records = vec![
        Language { id: "go".to_string(), name: "Go".to_string(), version: "1.22".to_string(), image: "golang:1.22".to_string() },
    ];
    let out = decode_languages(&language_term(&records)).unwrap();
    assert_eq!(out.len(), 1);
    assert_eq!(out[0].0, "go");
    assert_eq!(out[0].1.name, "Go");
    assert_eq!(out[0].1.version, "1.22");
    assert_eq!(out[0].1.image, "golang:1.22");
    match language_term(&records) {
        Value::Dict(es) => match &es[0].0 {
            Value::Binary(b) => assert_eq!(b, &b"go".to_vec()),
            _ => panic!("key is not a binary"),
        },
        _ => panic!("not a map"),
    }
}

#[test]
fn users_round_trip_through_terms() {
    let records = vec![(
        "k".to_string(),
        User { id: "u9".to_string(), token: "tök".to_string(), created: "2024-05-01".to_string(), modified: "2024-05-02".to_string() },
    )];
    let out = decode_users(&user_term(&records)).unwrap();
    assert_eq!(out.len(), 1);
    assert_eq!(out[0].0, "k");
    assert_eq!(out[0].1.id, "u9");
    assert_eq!(out[0].1.token, "tök");
    assert_eq!(out[0].1.created, "2024-05-01");
    assert_eq!(out[0].1.modified, "2024-05-02");
}

#[test]
fn users_round_trip_through_bytes() {
    let t = map(vec![
        (bin("x"), user_map(&[("id", "x"), ("token", "ÿ€"), ("created", "1"), ("modified", "2")])),
        (bin("y"), user_map(&[("id", "y"), ("token", "t"), ("created", "3"), ("modified", "4")])),
    ]);
    let out = read_users(&encode(&t)).unwrap();
    assert_eq!(out.len(), 2);
    let x = out.iter().find(|(k, _)| k == "x").unwrap();
    assert_eq!(x.1.token, "ÿ€");
    let y = out.iter().find(|(k, _)| k == "y").unwrap();
    assert_eq!(y.1.modified, "4");
}

#[test]
fn two_element_tuple_is_an_arity_error() {
    let t = map(vec![(bin("py"), tuple(vec![bin("Python"), bin("3.11")]))]);
    assert_eq!(read_languages(&encode(&t)).unwrap_err(), Error::TupleArity(2));
}

#[test]
fn four_element_tuple_is_an_arity_error() {
    let t = map(vec![(bin("py"), tuple(vec![bin("Python"), bin("3.11"), bin("img"), bin("extra")]))]);
    assert_eq!(read_languages(&encode(&t)).unwrap_err(), Error::TupleArity(4));
}

#[test]
fn missing_token_is_named() {
    let t = map(vec![(bin("u1"), user_map(&[("id", "u1"), ("created", "c"), ("modified", "m")]))]);
    assert_eq!(read_users(&encode(&t)).unwrap_err(), Error::MissingField(Field::Token));
}

#[test]
fn missing_fields_in_order() {
    let only_token = vec![("token".to_string(), "t".to_string())];
    assert_eq!(to_user(&only_token).unwrap_err(), Error::MissingField(Field::Id));
    let no_modified = vec![
        ("id".to_string(), "i".to_string()),
        ("token".to_string(), "t".to_string()),
        ("created".to_string(), "c".to_string()),
    ];
    assert_eq!(to_user(&no_modified).unwrap_err(), Error::MissingField(Field::Modified));
    let no_created = vec![("id".to_string(), "i".to_string()), ("token".to_string(), "t".to_string())];
    assert_eq!(to_user(&no_created).unwrap_err(), Error::MissingField(Field::Created));
}

#[test]
fn extra_user_field_is_refused() {
    let t = map(vec![(
        bin("u1"),
        user_map(&[("id", "u1"), ("token", "t"), ("created", "c"), ("modified", "m"), ("role", "admin")]),
    )]);
    assert_eq!(read_users(&encode(&t)).unwrap_err(), Error::UnexpectedField("role".to_string()));
}

#[test]
fn repeated_user_field_keeps_the_last() {
    let data = vec![
        ("id".to_string(), "first".to_string()),
        ("token".to_string(), "t".to_string()),
        ("created".to_string(), "c".to_string()),
        ("modified".to_string(), "m".to_string()),
        ("id".to_string(), "last".to_string()),
    ];
    assert_eq!(to_user(&data).unwrap().id, "last");
}

#[test]
fn empty_map_gives_no_records() {
    let bytes = encode(&map(vec![]));
    assert_eq!(read_languages(&bytes).unwrap().len(), 0);
    assert_eq!(read_users(&bytes).unwrap().len(), 0);
}

#[test]
fn top_level_not_a_map() {
    let bytes = encode(&atom("nope"));
    assert_eq!(read_languages(&bytes).unwrap_err(), Error::ExpectedMap(Kind::Atom));
    assert_eq!(read_users(&bytes).unwrap_err(), Error::ExpectedMap(Kind::Atom));
}

#[test]
fn language_value_not_a_tuple() {
    let t = map(vec![(bin("py"), bin("Python"))]);
    assert_eq!(read_languages(&encode(&t)).unwrap_err(), Error::ExpectedTuple(Kind::Binary));
}

#[test]
fn key_not_a_binary() {
    let t = map(vec![(atom("py"), tuple(vec![bin("Python"), bin("3.11"), bin("img")]))]);
    assert_eq!(read_languages(&encode(&t)).unwrap_err(), Error::ExpectedBinary(Kind::Atom));
}

#[test]
fn tuple_element_not_a_binary() {
    let t = map(vec![(bin("py"), tuple(vec![bin("Python"), atom("v"), bin("img")]))]);
    assert_eq!(read_languages(&encode(&t)).unwrap_err(), Error::ExpectedBinary(Kind::Atom));
}

#[test]
fn user_field_key_not_an_atom() {
    let t = map(vec![(bin("u1"), map(vec![(bin("id"), bin("u1"))]))]);
    assert_eq!(read_users(&encode(&t)).unwrap_err(), Error::ExpectedAtom(Kind::Binary));
}

#[test]
fn user_value_not_a_map() {
    let t = map(vec![(bin("u1"), tuple(vec![]))]);
    assert_eq!(read_users(&encode(&t)).unwrap_err(), Error::ExpectedMap(Kind::Tuple));
}

#[test]
fn binary_that_is_not_utf8() {
    let t = map(vec![(
        eetf::Term::from(eetf::Binary::from(vec![0xffu8, 0xfe])),
        tuple(vec![bin("a"), bin("b"), bin("c")]),
    )]);
    assert_eq!(read_languages(&encode(&t)).unwrap_err(), Error::InvalidUtf8);
}

#[test]
fn binary_text_is_read() {
    assert_eq!(get_binary_string(&Value::Binary(b"h\xc3\xa9".to_vec())).unwrap(), "hé");
    assert_eq!(get_binary_string(&Value::Atom("a".to_string())).unwrap_err(), Error::ExpectedBinary(Kind::Atom));
}

#[test]
fn malformed_bytes_are_a_decode_error() {
    assert_eq!(read_languages(&[]).unwrap_err(), Error::Decode);
    assert_eq!(read_languages(&[1, 2, 3]).unwrap_err(), Error::Decode);
    let mut truncated = encode(&map(vec![(bin("py"), tuple(vec![bin("P"), bin("1"), bin("i")]))]));
    truncated.truncate(truncated.len() - 2);
    assert_eq!(read_users(&truncated).unwrap_err(), Error::Decode);
}

#[test]
fn unread_leading_tags_are_a_decode_error() {
    assert_eq!(read_languages(&[131, 68, 0]).unwrap_err(), Error::Decode);
    assert_eq!(read_users(&[131, 82, 0]).unwrap_err(), Error::Decode);
}

#[test]
fn other_kinds_of_terms_are_refused() {
    let bytes = encode(&eetf::Term::from(eetf::FixInteger::from(7i32)));
    assert!(!is_readable_term(&bytes));
    assert_eq!(decode(&bytes).unwrap_err(), Error::Decode);
    let t = map(vec![(bin("py"), eetf::Term::from(eetf::FixInteger::from(1i32)))]);
    assert_eq!(read_languages(&encode(&t)).unwrap_err(), Error::Decode);
    assert_eq!(get_map(&Value::Other).unwrap_err(), Error::ExpectedMap(Kind::Other));
    assert_eq!(kind(&Value::Tuple(vec![])), Kind::Tuple);
}

#[test]
fn nested_atom_cache_reference_is_a_decode_error() {
    assert!(!is_readable_term(&[131, 104, 1, 82, 0]));
    assert_eq!(read_languages(&[131, 104, 1, 82, 0]).unwrap_err(), Error::Decode);
}

#[test]
fn bit_binary_is_a_decode_error() {
    let bytes = [131u8, 116, 0, 0, 0, 1, 109, 0, 0, 0, 0, 77, 0, 0, 0, 1, 0, 5];
    assert_eq!(read_users(&bytes).unwrap_err(), Error::Decode);
}

#[test]
fn compressed_term_is_a_decode_error() {
    assert_eq!(read_users(&[131, 80, 0, 0, 0, 1, 120, 156]).unwrap_err(), Error::Decode);
}

#[test]
fn nesting_depth_is_bounded() {
    let mut shallow = bin("x");
    for _ in 0..31 {
        shallow = tuple(vec![shallow]);
    }
    assert!(is_readable_term(&encode(&shallow)));
    let mut deep = bin("x");
    for _ in 0..33 {
        deep = tuple(vec![deep]);
    }
    assert!(!is_readable_term(&encode(&deep)));
    assert_eq!(decode(&encode(&deep)).unwrap_err(), Error::Decode);
}

#[test]
fn lengths_past_the_end_are_a_decode_error() {
    assert_eq!(read_languages(&[131, 116, 255, 255, 255, 255]).unwrap_err(), Error::Decode);
    assert_eq!(read_languages(&[131, 109, 0, 0, 0, 9, 1]).unwrap_err(), Error::Decode);
}

#[test]
fn schema_terms_are_readable() {
    let t = map(vec![(bin("u1"), user_map(&[("id", "u1")]))]);
    assert!(is_readable_term(&encode(&t)));
}
