//! What the library takes on trust: the functions and types of other crates, and of `std`, that
//! it calls, each with what is claimed of it.

use crate::json::Json;
use crate::text::ascii_lower;
use crate::version::{precedence_of, Precedence, VersionCore, VersionKey};
use vstd::prelude::*;
use vstd::utf8::*;

verus! {

/// A path of the host. The library carries paths and does not look inside.
#[verifier::external_type_specification]
#[verifier::external_body]
pub struct ExPathBuf(std::path::PathBuf);

/// `PathBuf::clone`: the clone is the same path.
pub assume_specification[ <std::path::PathBuf as Clone>::clone ](
    path: &std::path::PathBuf,
) -> (r: std::path::PathBuf)
    ensures
        r == *path,
;

/// The length of time that `Duration::from_secs` gives for a number of whole seconds.
pub uninterp spec fn whole_seconds(seconds: u64) -> std::time::Duration;

/// `Duration::from_secs`: a length of time that depends on the number of seconds alone.
pub assume_specification[ std::time::Duration::from_secs ](
    seconds: u64,
) -> (r: std::time::Duration)
    ensures
        r == whole_seconds(seconds),
;

/// `str::to_ascii_lowercase`: each ASCII letter in lower case, all else unchanged.
pub assume_specification[ str::to_ascii_lowercase ](text: &str) -> (r: String)
    ensures
        r@ == ascii_lower(text@),
;

/// What `str::to_lowercase` makes of a text.
pub uninterp spec fn lower_case_of(text: Seq<char>) -> Seq<char>;

/// `str::to_lowercase`: the lower case equivalent by Unicode's rules, which on ASCII text is what
/// `str::to_ascii_lowercase` gives.
pub assume_specification[ str::to_lowercase ](text: &str) -> (r: String)
    ensures
        r@ == lower_case_of(text@),
        is_ascii_chars(text@) ==> r@ == ascii_lower(text@),
;

/// How `String::from_utf8` describes what is wrong with bytes that are not UTF-8.
pub uninterp spec fn utf8_error_of(bytes: Seq<u8>) -> Seq<char>;

/// `String::from_utf8`: the text that the bytes encode, if they are UTF-8, else a description of
/// the first byte that is at fault.
#[verifier::external_body]
pub(crate) fn text_from_utf8(bytes: Vec<u8>) -> (r: Result<String, String>)
    ensures
        match r {
            Ok(text) => valid_utf8(bytes@) && text@ == decode_utf8(bytes@),
            Err(error) => !valid_utf8(bytes@) && error@ == utf8_error_of(bytes@),
        },
{
    String::from_utf8(bytes).map_err(|error| error.to_string())
}

/// How `Debug` shows a text: quoted and escaped.
pub uninterp spec fn debug_text_of(text: Seq<char>) -> Seq<char>;

/// `Debug` for a text: a function of the text.
#[verifier::external_body]
pub(crate) fn debug_text(text: &str) -> (r: String)
    ensures
        r@ == debug_text_of(text@),
{
    format!("{text:?}")
}

/// How `Debug` shows a path: quoted and escaped.
pub uninterp spec fn debug_path_of(path: std::path::PathBuf) -> Seq<char>;

/// `Debug` for a path: a function of the path.
#[verifier::external_body]
pub(crate) fn debug_path(path: &std::path::PathBuf) -> (r: String)
    ensures
        r@ == debug_path_of(*path),
{
    format!("{path:?}")
}

/// How `Debug` shows a list of texts: in brackets, each one quoted and escaped.
pub uninterp spec fn debug_list_of(texts: Seq<Seq<char>>) -> Seq<char>;

/// `Debug` for a list of texts: a function of the texts.
#[verifier::external_body]
pub(crate) fn debug_list(texts: &Vec<String>) -> (r: String)
    ensures
        r@ == debug_list_of(texts.deep_view()),
{
    format!("{texts:?}")
}

/// The SHA-256 digest of some bytes.
pub uninterp spec fn sha256_of(bytes: Seq<u8>) -> Seq<u8>;

/// `sha2::Sha256`, fed with all of `bytes`: the digest, which is 32 bytes long.
#[verifier::external_body]
pub(crate) fn sha256(bytes: &[u8]) -> (r: Vec<u8>)
    ensures
        r@ == sha256_of(bytes@),
        r@.len() == 32,
{
    <sha2::Sha256 as sha2::Digest>::digest(bytes).to_vec()
}

/// The hexadecimal digit of a number below 16, in lower case.
pub open spec fn hex_digit(n: int) -> char {
    if n < 10 {
        (('0' as int) + n) as char
    } else {
        (('a' as int) + n - 10) as char
    }
}

/// `bytes` in hexadecimal: two digits for each byte, the high one first.
pub open spec fn hex_of(bytes: Seq<u8>) -> Seq<char> {
    Seq::new(
        2 * bytes.len(),
        |i: int| hex_digit(if i % 2 == 0 { bytes[i / 2] as int / 16 } else { bytes[i / 2] as int % 16 }),
    )
}

/// `hex::encode`: two digits in lower case for each byte, the high one first.
#[verifier::external_body]
pub(crate) fn hex_text(bytes: &[u8]) -> (r: String)
    ensures
        r@ == hex_of(bytes@),
{
    hex::encode(bytes)
}

/// The precedence key of the semantic version that a text is, if it is one.
///
/// `semver::Version` compares by major, minor and patch number; then a version with a pre-release
/// part is lower than one without; then the pre-release and the build identifiers decide, one
/// after the other, each of them by numbers and ASCII codes, so that a sequence of integers
/// compared number by number can stand for them. Which integers those are is left open.
pub uninterp spec fn semver_key(text: Seq<char>) -> Option<VersionKey>;

/// `semver::Version::parse`: the numbers of the semantic version that `text` is, or `None`.
#[verifier::external_body]
pub(crate) fn read_version(text: &str) -> (r: Option<VersionCore>)
    ensures
        match r {
            Some(core) => semver_key(text@) matches Some(key) && key.major == core.major
                && key.minor == core.minor && key.patch == core.patch && key.stable
                == core.stable,
            None => semver_key(text@) is None,
        },
{
    match semver::Version::parse(text) {
        Ok(v) => Some(
            VersionCore {
                major: v.major,
                minor: v.minor,
                patch: v.patch,
                stable: v.pre.is_empty(),
            },
        ),
        Err(_) => None,
    }
}

/// `Ord` for `Option<semver::Version>`, on what `semver::Version::parse` makes of two texts:
/// semantic versions by precedence, and a text that is none below all that are.
#[verifier::external_body]
pub(crate) fn compare_versions(a: &str, b: &str) -> (r: Precedence)
    ensures
        r == precedence_of(semver_key(a@), semver_key(b@)),
{
    match semver::Version::parse(a).ok().cmp(&semver::Version::parse(b).ok()) {
        std::cmp::Ordering::Less => Precedence::Lower,
        std::cmp::Ordering::Equal => Precedence::Same,
        std::cmp::Ordering::Greater => Precedence::Higher,
    }
}

/// A JSON value of `serde_json`.
#[verifier::external_type_specification]
#[verifier::external_body]
pub struct ExValue(serde_json::Value);

/// The tree that a `serde_json::Value` holds.
pub uninterp spec fn json_of(value: serde_json::Value) -> Json;

/// What `serde_json` reads from a JSON document: its tree, or a description of what is wrong.
pub uninterp spec fn json_document(body: Seq<u8>) -> Result<Json, Seq<char>>;

/// `serde_json::from_reader`, on bytes: the value that the document holds, or a description of
/// what is wrong with it. Both depend on the bytes alone.
#[verifier::external_body]
pub(crate) fn read_json(body: &[u8]) -> (r: Result<serde_json::Value, String>)
    ensures
        match r {
            Ok(value) => json_document(body@) == Ok::<Json, Seq<char>>(json_of(value)),
            Err(error) => json_document(body@) == Err::<Json, Seq<char>>(error@),
        },
{
    serde_json::from_reader(body).map_err(|error| error.to_string())
}

/// `serde_json::Value::get`, with a text as the index: the member of that name, if the value is
/// an object that has one.
#[verifier::external_body]
pub(crate) fn json_member<'a>(value: &'a serde_json::Value, key: &str) -> (r: Option<
    &'a serde_json::Value,
>)
    ensures
        match r {
            Some(member) => json_of(*value).member(key@) == Some(json_of(*member)),
            None => json_of(*value).member(key@) is None,
        },
{
    value.get(key)
}

/// `serde_json::Value::as_str`: the text, if the value is one.
pub assume_specification[ serde_json::Value::as_str ](value: &serde_json::Value) -> (r: Option<
    &str,
>)
    ensures
        r.deep_view() == json_of(*value).text(),
;

/// `serde_json::Value::as_bool`: the truth value, if the value is one.
pub assume_specification[ serde_json::Value::as_bool ](value: &serde_json::Value) -> (r: Option<
    bool,
>)
    ensures
        r == json_of(*value).truth(),
;

/// `serde_json::Value::as_u64`: the number, if the value is an integer that is not negative and
/// that 64 bits hold.
pub assume_specification[ serde_json::Value::as_u64 ](value: &serde_json::Value) -> (r: Option<
    u64,
>)
    ensures
        r == json_of(*value).unsigned(),
;

/// `serde_json::Value::as_array`: the items, if the value is an array.
pub assume_specification[ serde_json::Value::as_array ](value: &serde_json::Value) -> (r: Option<
    &Vec<serde_json::Value>,
>)
    ensures
        match r {
            Some(items) => json_of(*value).items() == Some(
                items@.map_values(|item: serde_json::Value| json_of(item)),
            ),
            None => json_of(*value).items() is None,
        },
;

} // verus!
