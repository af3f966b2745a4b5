//! Laws of failures and of checksums.

use crate::checksum::{checksum_in, digest_of, judgement, vouches_for};
use crate::failure::{in_context, one_line, plain, Messages};
use crate::laws::texts::law_joined;
use crate::outside::{lower_case_of, sha256_of, utf8_error_of};
use crate::text::first_word_of;
use vstd::prelude::*;
use vstd::string::*;
use vstd::utf8::*;

verus! {

/// A plain failure has one message. One seen in a context has that before all the others.
pub proof fn law_messages(context: Seq<char>, cause: Messages, reason: Seq<char>)
    ensures
        plain(reason).len() == 1,
        plain(reason)[0] == reason,
        in_context(context, cause).len() == cause.len() + 1,
        in_context(context, cause)[0] == context,
        in_context(context, cause).drop_first() == cause,
{
    assert(in_context(context, cause).drop_first() == cause);
}

/// A failure of one message is that message on one line. A context goes before the line of its
/// cause, with a colon between.
pub proof fn law_one_line(context: Seq<char>, cause: Messages, reason: Seq<char>)
    ensures
        one_line(plain(reason)) == reason,
        cause.len() > 0 ==> one_line(in_context(context, cause)) == context + ": "@ + one_line(
            cause,
        ),
{
    law_joined(seq![context], cause, reason, ": "@);
    law_joined(seq![context], cause, context, ": "@);
}

/// An archive is accepted exactly if the checksum file has a first word and that is the digest, in
/// lower case. Else one message names the archive, and says that the file was empty, or first what
/// the file says and then what the digest is.
pub proof fn law_judgement(digest: Seq<char>, checksum: Seq<char>, asset: Seq<char>)
    ensures
        match (first_word_of(checksum), judgement(digest, checksum, asset)) {
            (None, Err(why)) => why == seq!["checksum file for "@ + asset + " was empty"@],
            (Some(word), Ok(_)) => lower_case_of(word) == digest,
            (Some(word), Err(why)) => lower_case_of(word) != digest && why == seq![
                "checksum mismatch for "@ + asset + ": expected "@ + lower_case_of(word) + ", got "@
                    + digest,
            ],
            _ => false,
        },
{
}

/// The number that a hexadecimal digit in lower case stands for.
pub open spec fn hex_value(digit: char) -> int {
    if '0' <= digit <= '9' {
        digit as int - '0' as int
    } else if 'a' <= digit <= 'f' {
        digit as int - 'a' as int + 10
    } else {
        -1
    }
}

/// The digest is two hexadecimal digits in lower case for each byte of the SHA-256 of the archive.
pub proof fn law_digest(archive: Seq<u8>, i: int)
    requires
        0 <= i < sha256_of(archive).len(),
    ensures
        ({
            let text = digest_of(archive);
            let high = hex_value(text[2 * i]);
            let low = hex_value(text[2 * i + 1]);
            &&& text.len() == 2 * sha256_of(archive).len()
            &&& 0 <= high < 16
            &&& 0 <= low < 16
            &&& 16 * high + low == sha256_of(archive)[i]
        }),
{
    let byte = sha256_of(archive)[i] as int;
    assert((2 * i) / 2 == i && (2 * i) % 2 == 0);
    assert((2 * i + 1) / 2 == i && (2 * i + 1) % 2 == 1);
}

/// A checksum file is read as the text that it encodes. One that is not UTF-8 fails with what is
/// wrong with it.
pub proof fn law_checksum_text(body: Seq<u8>)
    ensures
        match checksum_in(body) {
            Ok(text) => valid_utf8(body) && text == decode_utf8(body),
            Err(why) => !valid_utf8(body) && why == seq![
                "checksum was not UTF-8: "@ + utf8_error_of(body),
            ],
        },
{
}

/// A checksum file vouches for an archive exactly if it is text and the archive is accepted by it,
/// whatever the archive is called.
pub proof fn law_vouches(checksum: Seq<u8>, archive: Seq<u8>, asset: Seq<char>)
    ensures
        vouches_for(checksum, archive) <==> valid_utf8(checksum) && judgement(
            digest_of(archive),
            decode_utf8(checksum),
            asset,
        ) is Ok,
{
}

} // verus!
