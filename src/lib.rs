//! Reads two fixed record schemas, languages and users, out of terms in the
//! external binary term format, and checks their shape as it goes.
mod language;
mod skeleton;
mod term;
mod user;

pub use language::{
    decode_languages, language_term, languages, languages_in, lemma_languages_entries,
    lemma_languages_round_trip, lemma_tuple_arity, read_languages, to_language, Language,
    LanguageView,
};
pub use skeleton::is_readable_term;
pub use term::{
    decode, get_atom_string, get_binary_string, get_map, get_tuple, kind, Error, ErrorView, Field, Kind,
    Value,
};
pub use user::{
    decode_users, get_hashmap, lemma_missing_token, lemma_users_entries, lemma_users_round_trip,
    read_users, to_user, user_term, users, users_in, User, UserView,
};

use vstd::prelude::*;

verus! {

/// Reading the same bytes twice gives the same records, field for field.
pub proof fn lemma_reading_is_deterministic(a: Seq<u8>, b: Seq<u8>)
    requires
        a == b,
    ensures
        languages_in(a) == languages_in(b),
        users_in(a) == users_in(b),
{
}

} // verus!
