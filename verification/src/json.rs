use vstd::prelude::*;

use crate::errors::FieldError;
use crate::numeric::{dec_val, parse_u64_from_text, valid_dec, U256};
use crate::text::str_eq;

verus! {

/// One JSON value of a response document. Objects keep their entries in
/// document order, duplicates included.
#[derive(Debug)]
pub enum JsonValue {
    Null,
    Bool(bool),
    /// A number token, kept as its raw text. The explorer encodes its
    /// numbers as strings, so these never feed the typed fields.
    Number(String),
    Text(String),
    Array(Vec<JsonValue>),
    Object(Vec<(String, JsonValue)>),
}

/// Does a key answer to one of the candidate spellings?
pub open spec fn key_matches(k: Seq<char>, names: Seq<Seq<char>>) -> bool {
    exists|i: int| 0 <= i < names.len() && names[i] == k
}

/// How many entries of an object answer to one of the candidate spellings.
pub open spec fn count_matches(entries: Seq<(String, JsonValue)>, names: Seq<Seq<char>>) -> nat
    decreases entries.len(),
{
    if entries.len() == 0 {
        0
    } else {
        (if key_matches(entries.first().0@, names) {
            1nat
        } else {
            0nat
        }) + count_matches(entries.drop_first(), names)
    }
}

/// The value of the first entry whose key answers to one of the candidate
/// spellings; `Null` when there is none.
pub open spec fn first_match(entries: Seq<(String, JsonValue)>, names: Seq<Seq<char>>) -> JsonValue
    decreases entries.len(),
{
    if entries.len() == 0 {
        JsonValue::Null
    } else if key_matches(entries.first().0@, names) {
        entries.first().1
    } else {
        first_match(entries.drop_first(), names)
    }
}

/// The candidate spellings of a field: the wire name, then an optional
/// second spelling.
pub open spec fn spellings(n1: &str, n2: Option<&str>) -> Seq<Seq<char>> {
    match n2 {
        Some(n) => seq![n1@, n@],
        None => seq![n1@],
    }
}

/// Looks a field up under its candidate key spellings, tried in order.
/// Exactly one entry must answer to one of them, or the field counts as
/// missing.
pub fn lookup_field<'a>(entries: &'a Vec<(String, JsonValue)>, n1: &str, n2: Option<&str>) -> (r:
    Option<&'a JsonValue>)
    ensures
        match r {
            Some(v) => count_matches(entries@, spellings(n1, n2)) == 1 && *v == first_match(
                entries@,
                spellings(n1, n2),
            ),
            None => count_matches(entries@, spellings(n1, n2)) != 1,
        },
{
    let ghost names = spellings(n1, n2);
    let mut cnt: usize = 0;
    let mut found: Option<&'a JsonValue> = None;
    let mut i: usize = 0;
    proof {
        assert(entries@.skip(0) =~= entries@);
    }
    while i < entries.len()
        invariant
            i <= entries@.len(),
            cnt <= i,
            names == spellings(n1, n2),
            count_matches(entries@, names) == cnt + count_matches(
                entries@.skip(i as int),
                names,
            ),
            match found {
                Some(v) => cnt >= 1 && *v == first_match(entries@, names),
                None => cnt == 0 && first_match(entries@, names) == first_match(
                    entries@.skip(i as int),
                    names,
                ),
            },
        decreases entries@.len() - i,
    {
        proof {
            assert(entries@.skip(i as int).first() == entries@[i as int]);
            assert(entries@.skip(i as int).drop_first() =~= entries@.skip(i + 1));
        }
        let pair = &entries[i];
        let m1 = str_eq(pair.0.as_str(), n1);
        let m = if m1 {
            true
        } else {
            match n2 {
                Some(n) => str_eq(pair.0.as_str(), n),
                None => false,
            }
        };
        proof {
            if m {
                assert(key_matches(entries@[i as int].0@, names)) by {
                    if m1 {
                        assert(names[0] == entries@[i as int].0@);
                    } else {
                        assert(names[1] == entries@[i as int].0@);
                    }
                }
            } else {
                assert(!key_matches(entries@[i as int].0@, names)) by {
                    assert forall|j: int|
                        0 <= j < names.len() implies names[j] != entries@[i as int].0@ by {
                        match n2 {
                            Some(n) => {
                                assert(names[0] == n1@ && names[1] == n@);
                            },
                            None => {
                                assert(names[0] == n1@);
                            },
                        }
                    }
                }
            }
        }
        if m {
            if cnt == 0 {
                found = Some(&pair.1);
            }
            cnt = cnt + 1;
        }
        i = i + 1;
    }
    proof {
        assert(entries@.skip(entries@.len() as int) =~= Seq::<(String, JsonValue)>::empty());
    }
    if cnt == 1 {
        found
    } else {
        None
    }
}

/// What a field that holds a string-encoded 64-bit integer must parse to.
pub open spec fn spec_u64_field(entries: Seq<(String, JsonValue)>, names: Seq<Seq<char>>) -> Result<
    u64,
    FieldError,
> {
    if count_matches(entries, names) != 1 {
        Err(FieldError::MissingField)
    } else {
        match first_match(entries, names) {
            JsonValue::Text(s) => if valid_dec(s@, u64::MAX as nat) {
                Ok(dec_val(s@) as u64)
            } else {
                Err(FieldError::MalformedNumber)
            },
            _ => Err(FieldError::MalformedNumber),
        }
    }
}

/// What a field that holds a string-encoded 256-bit integer must parse to.
pub open spec fn spec_u256_field(
    entries: Seq<(String, JsonValue)>,
    names: Seq<Seq<char>>,
) -> Result<nat, FieldError> {
    if count_matches(entries, names) != 1 {
        Err(FieldError::MissingField)
    } else {
        match first_match(entries, names) {
            JsonValue::Text(s) => if valid_dec(s@, crate::numeric::u256_max()) {
                Ok(dec_val(s@))
            } else {
                Err(FieldError::MalformedNumber)
            },
            _ => Err(FieldError::MalformedNumber),
        }
    }
}

/// What a field that passes its text through verbatim must yield.
pub open spec fn spec_text_field(
    entries: Seq<(String, JsonValue)>,
    names: Seq<Seq<char>>,
) -> Result<Seq<char>, FieldError> {
    if count_matches(entries, names) != 1 {
        Err(FieldError::MissingField)
    } else {
        match first_match(entries, names) {
            JsonValue::Text(s) => Ok(s@),
            _ => Err(FieldError::UnexpectedType),
        }
    }
}

/// What a field that holds a list must yield.
pub open spec fn spec_array_field(
    entries: Seq<(String, JsonValue)>,
    names: Seq<Seq<char>>,
) -> Result<Seq<JsonValue>, FieldError> {
    if count_matches(entries, names) != 1 {
        Err(FieldError::MissingField)
    } else {
        match first_match(entries, names) {
            JsonValue::Array(v) => Ok(v@),
            _ => Err(FieldError::UnexpectedType),
        }
    }
}

pub fn get_u64_field(entries: &Vec<(String, JsonValue)>, n1: &str, n2: Option<&str>) -> (r: Result<
    u64,
    FieldError,
>)
    ensures
        r == spec_u64_field(entries@, spellings(n1, n2)),
{
    match lookup_field(entries, n1, n2) {
        None => Err(FieldError::MissingField),
        Some(v) => match v {
            JsonValue::Text(s) => parse_u64_from_text(s.as_str()),
            _ => Err(FieldError::MalformedNumber),
        },
    }
}

pub fn get_u256_field(entries: &Vec<(String, JsonValue)>, n1: &str, n2: Option<&str>) -> (r:
    Result<U256, FieldError>)
    ensures
        match r {
            Ok(v) => spec_u256_field(entries@, spellings(n1, n2)) == Ok::<nat, FieldError>(
                v.val(),
            ),
            Err(e) => spec_u256_field(entries@, spellings(n1, n2)) == Err::<nat, FieldError>(e),
        },
{
    match lookup_field(entries, n1, n2) {
        None => Err(FieldError::MissingField),
        Some(v) => match v {
            JsonValue::Text(s) => U256::from_dec_str(s.as_str()),
            _ => Err(FieldError::MalformedNumber),
        },
    }
}

pub fn get_text_field(entries: &Vec<(String, JsonValue)>, n1: &str, n2: Option<&str>) -> (r:
    Result<String, FieldError>)
    ensures
        match r {
            Ok(s) => spec_text_field(entries@, spellings(n1, n2)) == Ok::<Seq<char>, FieldError>(
                s@,
            ),
            Err(e) => spec_text_field(entries@, spellings(n1, n2)) == Err::<Seq<char>, FieldError>(
                e,
            ),
        },
{
    match lookup_field(entries, n1, n2) {
        None => Err(FieldError::MissingField),
        Some(v) => match v {
            JsonValue::Text(s) => Ok(s.clone()),
            _ => Err(FieldError::UnexpectedType),
        },
    }
}

} // verus!
