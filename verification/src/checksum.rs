//! Checksums of release archives.

use crate::failure::{plain, seen, Failure, Messages};
use crate::outside::{
    hex_digit, hex_of, hex_text, lower_case_of, sha256, sha256_of, text_from_utf8, utf8_error_of,
};
use crate::text::{
    ascii_lower, ascii_lower_char, first_word, first_word_of, is_white_space, lemma_leading_word,
    trim_start,
};
use vstd::prelude::*;
use vstd::string::*;
use vstd::utf8::*;

verus! {

/// What is said of an archive whose digest is `digest`, in hexadecimal, by its checksum file: that
/// it is the one that the first word of the file names, in whatever case, or why it is not.
pub open spec fn judgement(
    digest: Seq<char>,
    checksum_text: Seq<char>,
    asset: Seq<char>,
) -> Result<(), Messages> {
    match first_word_of(checksum_text) {
        None => Err(plain("checksum file for "@ + asset + " was empty"@)),
        Some(word) => {
            let expected = lower_case_of(word);
            if expected == digest {
                Ok(())
            } else {
                Err(
                    plain(
                        "checksum mismatch for "@ + asset + ": expected "@ + expected + ", got "@
                            + digest,
                    ),
                )
            }
        },
    }
}

/// The digest of an archive, in hexadecimal.
pub open spec fn digest_of(bytes: Seq<u8>) -> Seq<char> {
    hex_of(sha256_of(bytes))
}

/// Whether the checksum file names `digest`, in hexadecimal, as that of the archive `asset_name`.
pub fn check_digest(digest: &str, checksum_text: &str, asset_name: &str) -> (r: Result<(), Failure>)
    ensures
        seen(r) == judgement(digest@, checksum_text@, asset_name@),
        first_word_of(checksum_text@) matches Some(word) ==> (is_ascii_chars(word) ==> (
        r is Ok <==> ascii_lower(word) == digest@)),
{
    match first_word(checksum_text) {
        None => Err(
            Failure::new(
                "checksum file for ".to_owned().concat(asset_name).concat(" was empty"),
            ),
        ),
        Some(word) => {
            let expected: String = word.as_str().to_lowercase();
            if expected == digest.to_owned() {
                Ok(())
            } else {
                Err(
                    Failure::new(
                        "checksum mismatch for ".to_owned().concat(asset_name).concat(
                            ": expected ",
                        ).concat(expected.as_str()).concat(", got ").concat(digest),
                    ),
                )
            }
        },
    }
}

/// Hexadecimal is ASCII in lower case.
proof fn lemma_hex_is_lower_case(bytes: Seq<u8>)
    ensures
        is_ascii_chars(hex_of(bytes)),
        ascii_lower(hex_of(bytes)) == hex_of(bytes),
{
    let text = hex_of(bytes);
    assert forall|i: int| 0 <= i < text.len() implies ascii_lower_char(#[trigger] text[i])
        == text[i] && 0 <= text[i] as nat <= 0x7f by {
        let byte = bytes[i / 2] as int;
        assert(text[i] == hex_digit(
            if i % 2 == 0 {
                byte / 16
            } else {
                byte % 16
            },
        ));
    }
    assert(ascii_lower(text) =~= text);
}

/// Whether the checksum file names the SHA-256 digest of `bytes` as that of the archive
/// `asset_name`.
pub fn verify_sha256(bytes: &[u8], checksum_text: &str, asset_name: &str) -> (r: Result<
    (),
    Failure,
>)
    ensures
        seen(r) == judgement(digest_of(bytes@), checksum_text@, asset_name@),
        first_word_of(checksum_text@) matches Some(word) ==> (is_ascii_chars(word) ==> (
        r is Ok <==> ascii_lower(word) == digest_of(bytes@))),
        first_word_of(checksum_text@) == Some(digest_of(bytes@)) ==> r is Ok,
{
    let digest: Vec<u8> = sha256(bytes);
    let text: String = hex_text(digest.as_slice());
    proof {
        lemma_hex_is_lower_case(digest@);
    }
    check_digest(text.as_str(), checksum_text, asset_name)
}

/// The text of a checksum file, if it is UTF-8.
pub open spec fn checksum_in(body: Seq<u8>) -> Result<Seq<char>, Messages> {
    if valid_utf8(body) {
        Ok(decode_utf8(body))
    } else {
        Err(plain("checksum was not UTF-8: "@ + utf8_error_of(body)))
    }
}

/// The text of a checksum file, if it is UTF-8.
pub fn checksum_text(body: Vec<u8>) -> (r: Result<String, Failure>)
    ensures
        seen(r) == checksum_in(body@),
{
    match text_from_utf8(body) {
        Ok(text) => Ok(text),
        Err(error) => Err(
            Failure::new("checksum was not UTF-8: ".to_owned().concat(error.as_str())),
        ),
    }
}

/// Whether `checksum` is a checksum file for `archive`: a text whose first word is, in lower case,
/// the digest of it.
pub open spec fn vouches_for(checksum: Seq<u8>, archive: Seq<u8>) -> bool {
    &&& valid_utf8(checksum)
    &&& first_word_of(decode_utf8(checksum)) matches Some(word)
    &&& lower_case_of(word) == digest_of(archive)
}

/// An archive is accepted exactly where the first word of its checksum file is, in lower case, its
/// digest.
pub proof fn law_accepted_by_first_word(
    bytes: Seq<u8>,
    checksum_text: Seq<char>,
    asset: Seq<char>,
)
    ensures
        judgement(digest_of(bytes), checksum_text, asset) is Ok <==> (first_word_of(
            checksum_text,
        ) matches Some(word) && lower_case_of(word) == digest_of(bytes)),
{
}

/// What white space surrounds the first word of a checksum file with, and what comes after it, as
/// `sha256sum` writes the name of the file, make no difference.
pub proof fn law_only_the_first_word_counts(
    digest: Seq<char>,
    before: Seq<char>,
    word: Seq<char>,
    after: Seq<char>,
    asset: Seq<char>,
)
    requires
        forall|i: int| 0 <= i < before.len() ==> is_white_space(#[trigger] before[i]),
        word.len() > 0,
        forall|i: int| 0 <= i < word.len() ==> !is_white_space(#[trigger] word[i]),
        after.len() > 0 ==> is_white_space(after[0]),
    ensures
        judgement(digest, before + word + after, asset) == judgement(digest, word, asset),
{
    lemma_trim_start(before, word + after);
    lemma_trim_start(seq![], word);
    assert(before + word + after == before + (word + after));
    assert(seq![] + word == word);
    let rest = word + after;
    assert forall|i: int| 0 <= i < word.len() implies !is_white_space(#[trigger] rest[i]) by {
        assert(rest[i] == word[i]);
    }
    lemma_leading_word(rest, word.len() as int);
    lemma_leading_word(word, word.len() as int);
    assert(rest.take(word.len() as int) == word);
    assert(word.take(word.len() as int) == word);
}

/// White space before a text is trimmed away.
proof fn lemma_trim_start(before: Seq<char>, text: Seq<char>)
    requires
        forall|i: int| 0 <= i < before.len() ==> is_white_space(#[trigger] before[i]),
        text.len() > 0,
        !is_white_space(text[0]),
    ensures
        trim_start(before + text) == text,
    decreases before.len(),
{
    if before.len() == 0 {
        assert(before + text == text);
    } else {
        assert((before + text).drop_first() == before.drop_first() + text);
        assert((before + text)[0] == before[0]);
        lemma_trim_start(before.drop_first(), text);
    }
}

} // verus!
