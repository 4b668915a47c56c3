//! What the library has from elsewhere: the JSON parser and the standard
//! library's lossy decoding.

use std::collections::BTreeMap;
use vstd::prelude::*;
use vstd::utf8::{decode_utf8, valid_utf8};

verus! {

/// The error of the JSON parser.
#[verifier::external_type_specification]
#[verifier::external_body]
pub struct ExJsonError(serde_json::Error);

/// The text in an optional string.
pub open spec fn option_text(value: Option<String>) -> Option<Seq<char>> {
    match value {
        Some(text) => Some(text@),
        None => None,
    }
}

/// The map that a list of keys and optional texts describes; a later pair
/// replaces an earlier one with the same key.
pub open spec fn pairs_map(pairs: Seq<(String, Option<String>)>) -> Map<
    Seq<char>,
    Option<Seq<char>>,
>
    decreases pairs.len(),
{
    if pairs.len() == 0 {
        Map::empty()
    } else {
        pairs_map(pairs.drop_last()).insert(pairs.last().0@, option_text(pairs.last().1))
    }
}

/// The JSON object of optional strings that a text holds: `None` where the
/// text is anything else than one such object.
pub uninterp spec fn json_optional_strings(text: Seq<char>) -> Option<
    Map<Seq<char>, Option<Seq<char>>>,
>;

/// Calls `serde_json::from_str` for a map from strings to optional strings.
/// The claim is that the outcome depends on the text alone: whether it parses,
/// and which keys it then has with which strings or nulls.
#[verifier::external_body]
pub(crate) fn parse_optional_strings(text: &str) -> (parsed: Result<
    Vec<(String, Option<String>)>,
    serde_json::Error,
>)
    ensures
        match parsed {
            Ok(pairs) => json_optional_strings(text@) == Some(pairs_map(pairs@)),
            Err(_) => json_optional_strings(text@).is_none(),
        },
{
    let map: BTreeMap<String, Option<String>> = serde_json::from_str(text)?;
    Ok(map.into_iter().collect())
}

/// The text that bytes are read as when what is not UTF-8 in them is replaced.
pub uninterp spec fn lossy_utf8(bytes: Seq<u8>) -> Seq<char>;

/// Calls `String::from_utf8_lossy`. The claim is that the text depends on the
/// bytes alone, and that bytes which are UTF-8 give the text they encode.
#[verifier::external_body]
pub(crate) fn read_lossily(bytes: &Vec<u8>) -> (text: String)
    ensures
        text@ == lossy_utf8(bytes@),
        valid_utf8(bytes@) ==> text@ == decode_utf8(bytes@),
{
    String::from_utf8_lossy(bytes).into_owned()
}

/// A key is in the map of a list of pairs when and only when a pair has it, and
/// the last pair that has it gives the value.
pub proof fn law_the_last_pair_of_a_key_counts(pairs: Seq<(String, Option<String>)>, index: int)
    requires
        0 <= index < pairs.len(),
        forall|later: int| index < later < pairs.len() ==> (#[trigger] pairs[later]).0@
            != pairs[index].0@,
    ensures
        pairs_map(pairs).contains_key(pairs[index].0@),
        pairs[index].1 matches Some(text) ==> pairs_map(pairs)[pairs[index].0@] == Some(text@),
        pairs[index].1.is_none() ==> pairs_map(pairs)[pairs[index].0@].is_none(),
        forall|key: Seq<char>| #[trigger]
            pairs_map(pairs).contains_key(key) ==> exists|i: int|
                0 <= i < pairs.len() && (#[trigger] pairs[i]).0@ == key,
    decreases pairs.len(),
{
    lemma_keys_come_from_pairs(pairs);
    if index < pairs.len() - 1 {
        let rest = pairs.drop_last();
        assert forall|later: int| index < later < rest.len() implies (#[trigger] rest[later]).0@
            != rest[index].0@ by {
            assert(pairs[later].0@ != pairs[index].0@);
        }
        law_the_last_pair_of_a_key_counts(rest, index);
        assert(pairs[pairs.len() - 1].0@ != pairs[index].0@);
    }
}

proof fn lemma_keys_come_from_pairs(pairs: Seq<(String, Option<String>)>)
    ensures
        forall|key: Seq<char>| #[trigger]
            pairs_map(pairs).contains_key(key) ==> exists|i: int|
                0 <= i < pairs.len() && (#[trigger] pairs[i]).0@ == key,
    decreases pairs.len(),
{
    if pairs.len() > 0 {
        let rest = pairs.drop_last();
        lemma_keys_come_from_pairs(rest);
        assert forall|key: Seq<char>| #[trigger] pairs_map(pairs).contains_key(key) implies exists|
            i: int,
        |
            0 <= i < pairs.len() && (#[trigger] pairs[i]).0@ == key by {
            if key == pairs.last().0@ {
                assert(pairs[pairs.len() - 1].0@ == key);
            } else {
                assert(pairs_map(rest).contains_key(key));
                let i = choose|i: int| 0 <= i < rest.len() && (#[trigger] rest[i]).0@ == key;
                assert(pairs[i].0@ == key);
            }
        }
    }
}

} // verus!
