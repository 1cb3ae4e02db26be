//! Naming of entries through the hash table, a JSON object from keys to paths.
use vstd::prelude::*;
use crate::error::ExtractError;
use crate::names::{decimal, fallback_name, hash_key, key_of, lemma_decimal_injective};

verus! {

#[verifier::external_type_specification]
#[verifier::external_body]
pub struct ExValue(serde_json::Value);

/// The members of a JSON object by key: the text of each string member, and
/// `None` for a member of any other kind. A value that is no object has none.
pub uninterp spec fn json_members(table: serde_json::Value) -> Map<Seq<char>, Option<Seq<char>>>;

/// The text that an optional string holds.
pub open spec fn text_view(t: Option<String>) -> Option<Seq<char>> {
    match t {
        Some(s) => Some(s@),
        None => None,
    }
}

/// What a lookup found: nothing, or the member, as text where it is a string.
pub open spec fn found_view(found: Option<Option<String>>) -> Option<Option<Seq<char>>> {
    match found {
        Some(t) => Some(text_view(t)),
        None => None,
    }
}

/// Relies on serde_json::Value::get with a string key, which gives the object's
/// member under that key, and None for a missing key or a value that is no
/// object; and on Value::as_str, which gives the text of a string and None for
/// any other value.
#[verifier::external_body]
fn lookup_member(table: &serde_json::Value, key: &str) -> (r: Option<Option<String>>)
    ensures
        match r {
            None => !json_members(*table).contains_key(key@),
            Some(t) => json_members(*table).contains_key(key@)
                && json_members(*table)[key@] == text_view(t),
        },
{
    match table.get(key) {
        None => None,
        Some(v) => Some(v.as_str().map(|t| t.to_string())),
    }
}

/// The name of the entry at `index` with hash `path_hash`, from what the table
/// holds under its key: the text verbatim, the decimal index where the key is
/// missing, and an error where the member is no string.
pub open spec fn name_from(found: Option<Option<Seq<char>>>, path_hash: u32, index: nat) -> Result<
    Seq<char>,
    ExtractError,
> {
    match found {
        None => Ok(decimal(index)),
        Some(Some(t)) => Ok(t),
        Some(None) => Err(ExtractError::MalformedName { path_hash }),
    }
}

/// The name that a table with `members` gives the entry at `index`.
pub open spec fn table_name(
    members: Map<Seq<char>, Option<Seq<char>>>,
    path_hash: u32,
    index: nat,
) -> Result<Seq<char>, ExtractError> {
    let key = key_of(path_hash);
    if members.contains_key(key) {
        name_from(Some(members[key]), path_hash, index)
    } else {
        name_from(None, path_hash, index)
    }
}

/// A hash whose key the table maps to a string is named by that string
/// verbatim; one whose key is missing is named by the entry's decimal index;
/// and two entries at different indices, both missing, never share a name.
pub proof fn lemma_name_policy(
    members: Map<Seq<char>, Option<Seq<char>>>,
    path_hash: u32,
    index: nat,
    other_hash: u32,
    other_index: nat,
)
    ensures
        members.contains_key(key_of(path_hash)) && members[key_of(path_hash)] is Some
            ==> table_name(members, path_hash, index) == Ok::<Seq<char>, ExtractError>(
            members[key_of(path_hash)]->Some_0,
        ),
        !members.contains_key(key_of(path_hash)) ==> table_name(members, path_hash, index)
            == Ok::<Seq<char>, ExtractError>(decimal(index)),
        !members.contains_key(key_of(path_hash)) && !members.contains_key(key_of(other_hash))
            && index != other_index ==> table_name(members, path_hash, index) != table_name(
            members,
            other_hash,
            other_index,
        ),
{
    if !members.contains_key(key_of(path_hash)) && !members.contains_key(key_of(other_hash))
        && index != other_index {
        if decimal(index) == decimal(other_index) {
            lemma_decimal_injective(index, other_index);
        }
    }
}

/// Picks the name of the entry at `index` from the result of its table lookup.
pub fn choose_name(found: Option<Option<String>>, path_hash: u32, index: u32) -> (r: Result<
    String,
    ExtractError,
>)
    ensures
        match r {
            Ok(n) => name_from(found_view(found), path_hash, index as nat) == Ok::<
                Seq<char>,
                ExtractError,
            >(n@),
            Err(e) => name_from(found_view(found), path_hash, index as nat) == Err::<
                Seq<char>,
                ExtractError,
            >(e),
        },
{
    match found {
        None => Ok(fallback_name(index)),
        Some(Some(t)) => Ok(t),
        Some(None) => Err(ExtractError::MalformedName { path_hash }),
    }
}

/// Looks the entry's hash up in `table` and names the entry at `index`.
pub fn resolve_name(table: &serde_json::Value, path_hash: u32, index: u32) -> (r: Result<
    String,
    ExtractError,
>)
    ensures
        match r {
            Ok(n) => table_name(json_members(*table), path_hash, index as nat) == Ok::<
                Seq<char>,
                ExtractError,
            >(n@),
            Err(e) => table_name(json_members(*table), path_hash, index as nat) == Err::<
                Seq<char>,
                ExtractError,
            >(e),
        },
{
    let key = hash_key(path_hash);
    let found = lookup_member(table, key.as_str());
    choose_name(found, path_hash, index)
}

} // verus!
