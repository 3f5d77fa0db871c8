//! Recognition of the event topics that confirm a stake.

use crate::text::{contains_text, occurs_in};
use base64::engine::general_purpose::STANDARD;
use base64::Engine;
use vstd::prelude::*;
use vstd::string::*;
use vstd::utf8::*;

verus! {

/// Topic symbols by which the staking contract says that a stake is confirmed.
pub const STAKE_TOPIC_SYMBOLS: [&'static str; 2] = ["staked", "stake_confirmed"];

/// `base64::DecodeError`, the reason why a text is not base64.
#[verifier::external_type_specification]
#[verifier::external_body]
pub struct ExDecodeError(base64::DecodeError);

/// The bytes that a text in standard base64 stands for; `None` where the text is
/// not valid base64.
pub uninterp spec fn base64_bytes(text: Seq<char>) -> Option<Seq<u8>>;

/// The characters that bytes stand for in UTF-8, with U+FFFD in place of what is
/// not valid UTF-8.
pub uninterp spec fn utf8_lossy(bytes: Seq<u8>) -> Seq<char>;

/// Decodes a text with the `STANDARD` engine of `base64`.
///
/// Trusted: whether the text decodes, and to which bytes, depends on the text
/// alone; `base64_bytes` names it.
#[verifier::external_body]
fn decode_base64(text: &str) -> (decoded: Result<Vec<u8>, base64::DecodeError>)
    ensures
        match decoded {
            Ok(bytes) => base64_bytes(text@) == Some(bytes@),
            Err(_) => base64_bytes(text@) is None,
        },
{
    STANDARD.decode(text)
}

/// Reads bytes as text with `String::from_utf8_lossy`.
///
/// Trusted: the text depends on the bytes alone; `utf8_lossy` names it. Bytes
/// that are valid UTF-8 are read as the characters that they encode. Only sequences
/// that are not valid UTF-8 are replaced, by U+FFFD; so bytes of ASCII are read as
/// they are, wherever they stand, and nothing else is read as ASCII: a text of ASCII
/// occurs in the result exactly where its bytes occur.
#[verifier::external_body]
fn read_utf8_lossy(bytes: &[u8]) -> (text: String)
    ensures
        text@ == utf8_lossy(bytes@),
        valid_utf8(bytes@) ==> text@ == decode_utf8(bytes@),
        forall|needle: Seq<char>| #[trigger]
            is_ascii_chars(needle) ==> occurs_in(needle, text@) == occurs_in(
                encode_utf8(needle),
                bytes@,
            ),
{
    String::from_utf8_lossy(bytes).into_owned()
}

/// The text holds one of the symbols that confirm a stake.
pub open spec fn names_stake(text: Seq<char>) -> bool {
    exists|k: int|
        0 <= k < STAKE_TOPIC_SYMBOLS@.len() && occurs_in(#[trigger] STAKE_TOPIC_SYMBOLS@[k]@, text)
}

/// Tells whether the text holds one of `STAKE_TOPIC_SYMBOLS`.
pub fn text_names_stake(text: &str) -> (found: bool)
    ensures
        found == names_stake(text@),
{
    let mut k: usize = 0;
    while k < STAKE_TOPIC_SYMBOLS.len()
        invariant
            k <= STAKE_TOPIC_SYMBOLS@.len(),
            forall|j: int|
                0 <= j < k ==> !occurs_in(#[trigger] STAKE_TOPIC_SYMBOLS@[j]@, text@),
        decreases STAKE_TOPIC_SYMBOLS@.len() - k,
    {
        if contains_text(text, STAKE_TOPIC_SYMBOLS[k]) {
            return true;
        }
        k = k + 1;
    }
    false
}

/// The bytes of a decoded topic hold those of a symbol that confirms a stake.
pub open spec fn bytes_confirm_stake(bytes: Seq<u8>) -> bool {
    exists|k: int|
        0 <= k < STAKE_TOPIC_SYMBOLS@.len() && occurs_in(
            encode_utf8(#[trigger] STAKE_TOPIC_SYMBOLS@[k]@),
            bytes,
        )
}

/// The symbols are plain ASCII.
proof fn lemma_symbols_ascii(k: int)
    requires
        0 <= k < STAKE_TOPIC_SYMBOLS@.len(),
    ensures
        is_ascii_chars(STAKE_TOPIC_SYMBOLS@[k]@),
{
    reveal_strlit("staked");
    reveal_strlit("stake_confirmed");
    assert(STAKE_TOPIC_SYMBOLS@[0]@ == "staked"@);
    assert(STAKE_TOPIC_SYMBOLS@[1]@ == "stake_confirmed"@);
}

/// The topic, in base64, holds a symbol that confirms a stake. A topic that is
/// not base64 confirms nothing.
pub open spec fn topic_confirms_stake(topic: Seq<char>) -> bool {
    match base64_bytes(topic) {
        Some(bytes) => bytes_confirm_stake(bytes),
        None => false,
    }
}

/// Tells whether the bytes of a decoded topic confirm a stake.
pub fn decoded_topic_is_stake(bytes: &[u8]) -> (found: bool)
    ensures
        found == bytes_confirm_stake(bytes@),
        found == names_stake(utf8_lossy(bytes@)),
        forall|text: Seq<char>|
            bytes@ == #[trigger] encode_utf8(text) ==> found == names_stake(text),
{
    let text: String = read_utf8_lossy(bytes);
    proof {
        assert forall|encoded: Seq<char>| bytes@ == #[trigger] encode_utf8(encoded) implies text@
            == encoded by {
            encode_utf8_valid_utf8(encoded);
            encode_utf8_decode_utf8(encoded);
        }
        assert forall|k: int| 0 <= k < STAKE_TOPIC_SYMBOLS@.len() implies occurs_in(
            #[trigger] STAKE_TOPIC_SYMBOLS@[k]@,
            text@,
        ) == occurs_in(encode_utf8(STAKE_TOPIC_SYMBOLS@[k]@), bytes@) by {
            lemma_symbols_ascii(k);
        }
    }
    text_names_stake(text.as_str())
}

/// Tells whether a topic, as the event carries it, confirms a stake.
pub fn topic_is_stake(topic: &str) -> (found: bool)
    ensures
        found == topic_confirms_stake(topic@),
{
    match decode_base64(topic) {
        Ok(bytes) => decoded_topic_is_stake(bytes.as_slice()),
        Err(_) => false,
    }
}

} // verus!
