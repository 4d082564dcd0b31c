//! The secret key of a node: where it comes from, and the text in which it is
//! kept.

use crate::text::{chars_of, space, string_of, trim, trim_takes_spaces, trimmed};
use vstd::prelude::*;

verus! {

/// The lower case hexadecimal digit of a number below sixteen.
pub open spec fn hex_digit(n: nat) -> char {
    if n < 10 {
        ('0' as u32 + n) as char
    } else {
        ('a' as u32 + n - 10) as char
    }
}

/// Two lower case hexadecimal digits for each byte.
pub open spec fn hex_lower(b: Seq<u8>) -> Seq<char> {
    Seq::new(
        2 * b.len(),
        |i: int|
            hex_digit(
                (if i % 2 == 0 {
                    b[i / 2] / 16
                } else {
                    b[i / 2] % 16
                }) as nat,
            ),
    )
}

/// The secret key that a text denotes, as bytes.
pub uninterp spec fn secret_of(text: Seq<char>) -> Option<Seq<u8>>;

/// The error of parsing a key.
#[verifier::external_type_specification]
#[verifier::external_body]
pub struct ExKeyParsingError(iroh::KeyParsingError);

/// Calls `iroh::SecretKey::from_str`. Claims that whether it succeeds, and with
/// which key, depends on the text alone, and that the 64 lower case hexadecimal
/// digits of 32 bytes denote the key with these bytes.
#[verifier::external_body]
fn parse_secret(text: &str) -> (r: Result<[u8; 32], iroh::KeyParsingError>)
    ensures
        match r {
            Ok(key) => secret_of(text@) == Some(key@),
            Err(_) => secret_of(text@) is None,
        },
        forall|key: Seq<u8>|
            key.len() == 32 && text@ == #[trigger] hex_lower(key) ==> r is Ok && r->Ok_0@ == key,
{
    match text.parse::<iroh::SecretKey>() {
        Ok(key) => Ok(key.to_bytes()),
        Err(e) => Err(e),
    }
}

/// Calls `iroh::SecretKey::generate`. Which key comes is left to chance, so
/// nothing is claimed of it.
#[verifier::external_body]
fn generate_secret() -> (r: [u8; 32]) {
    iroh::SecretKey::generate().to_bytes()
}

/// Calls `encode` of `data_encoding::HEXLOWER`. Claims that it gives two lower
/// case hexadecimal digits for each byte.
#[verifier::external_body]
fn encode_hex(bytes: &[u8]) -> (r: String)
    ensures
        r@ == hex_lower(bytes@),
{
    data_encoding::HEXLOWER.encode(bytes)
}

/// What to do about the secret key.
#[derive(Debug)]
pub enum SecretAction {
    /// Use this key.
    Use([u8; 32]),
    /// Give up: the environment holds something else than a key.
    Fail(iroh::KeyParsingError),
    /// Look into the file.
    ReadFile,
    /// Use this new key, and keep its text in the file.
    Save { key: [u8; 32], hex: String },
}

/// Text without white space is its own trimmed form.
proof fn trim_without_space(s: Seq<char>)
    requires
        forall|i: int| 0 <= i < s.len() ==> !space(#[trigger] s[i]),
    ensures
        trim(s) == s,
{
    if s.len() > 0 {
        assert(!space(s[0]));
        assert(!space(s[s.len() - 1]));
    }
}

/// The hexadecimal text of a key is its own trimmed form.
pub proof fn hex_trims_to_itself(key: Seq<u8>)
    ensures
        trim(hex_lower(key)) == hex_lower(key),
{
    let s = hex_lower(key);
    assert forall|i: int| 0 <= i < s.len() implies !space(#[trigger] s[i]) by {
        let n = (if i % 2 == 0 {
            key[i / 2] / 16
        } else {
            key[i / 2] % 16
        }) as nat;
        assert(s[i] == hex_digit(n) && n < 16);
    }
    trim_without_space(s);
}

/// What to do about the value that the environment holds for the key, once it
/// was parsed.
pub fn use_environment(parsed: Option<Result<[u8; 32], iroh::KeyParsingError>>) -> (r: SecretAction)
    ensures
        match parsed {
            Some(Ok(key)) => r == SecretAction::Use(key),
            Some(Err(e)) => r == SecretAction::Fail(e),
            None => r is ReadFile,
        },
{
    match parsed {
        Some(Ok(key)) => SecretAction::Use(key),
        Some(Err(e)) => SecretAction::Fail(e),
        None => SecretAction::ReadFile,
    }
}

/// What to do about the value that the environment holds for the key: it comes
/// first, and must be a key where it is there.
pub fn secret_from_environment(value: Option<&str>) -> (r: SecretAction)
    ensures
        match value {
            Some(text) => match secret_of(text@) {
                Some(bytes) => r matches SecretAction::Use(key) && key@ == bytes,
                None => r is Fail,
            },
            None => r is ReadFile,
        },
        forall|key: Seq<u8>|
            #![trigger hex_lower(key)]
            value is Some && key.len() == 32 && value->0@ == hex_lower(key) ==> (r matches
                SecretAction::Use(k) && k@ == key),
{
    match value {
        Some(text) => use_environment(Some(parse_secret(text))),
        None => use_environment(None),
    }
}

/// What to do with a new key: its text is its hexadecimal digits.
pub fn keep_secret(fresh: [u8; 32]) -> (r: SecretAction)
    ensures
        r matches SecretAction::Save { key, hex } && key == fresh && hex@ == hex_lower(fresh@),
{
    let hex = encode_hex(fresh.as_slice());
    SecretAction::Save { key: fresh, hex }
}

/// What to do about the contents of the file: the key that stands there, with
/// white space around it or not, is used, and otherwise a new one is made. The
/// text that was kept for a key gives that key back.
pub fn secret_from_file(contents: Option<&str>) -> (r: SecretAction)
    ensures
        match contents {
            Some(text) => match secret_of(trim(text@)) {
                Some(bytes) => r matches SecretAction::Use(key) && key@ == bytes,
                None => r matches SecretAction::Save { key, hex } && hex@ == hex_lower(key@),
            },
            None => r matches SecretAction::Save { key, hex } && hex@ == hex_lower(key@),
        },
        forall|key: Seq<u8>|
            #![trigger hex_lower(key)]
            contents is Some && key.len() == 32 && trim(contents->0@) == hex_lower(key)
                ==> (r matches SecretAction::Use(k) && k@ == key),
        forall|key: Seq<u8>|
            #![trigger hex_lower(key)]
            contents is Some && key.len() == 32 && contents->0@ == hex_lower(key)
                ==> (r matches SecretAction::Use(k) && k@ == key),
{
    proof {
        assert forall|key: Seq<u8>|
            contents is Some && contents->0@ == #[trigger] hex_lower(key) implies trim(
            contents->0@,
        ) == hex_lower(key) by {
            hex_trims_to_itself(key);
        }
    }
    let parsed = match contents {
        Some(text) => {
            let chars = chars_of(text);
            let inner = string_of(trimmed(&chars));
            Some(parse_secret(inner.as_str()))
        },
        None => None,
    };
    match parsed {
        Some(Ok(key)) => SecretAction::Use(key),
        _ => keep_secret(generate_secret()),
    }
}

/// The number of a lower case hexadecimal digit.
pub open spec fn hex_value(c: char) -> int {
    if '0' as u32 <= c as u32 <= '9' as u32 {
        c as u32 - '0' as u32
    } else if 'a' as u32 <= c as u32 <= 'f' as u32 {
        c as u32 - 'a' as u32 + 10
    } else {
        -1
    }
}

/// Each byte is two digits, the first worth sixteen.
pub proof fn hex_digits_of_bytes(bytes: Seq<u8>, i: int)
    requires
        0 <= i < bytes.len(),
    ensures
        hex_lower(bytes).len() == 2 * bytes.len(),
        0 <= hex_value(hex_lower(bytes)[2 * i]) < 16,
        0 <= hex_value(hex_lower(bytes)[2 * i + 1]) < 16,
        hex_value(hex_lower(bytes)[2 * i]) * 16 + hex_value(hex_lower(bytes)[2 * i + 1])
            == bytes[i],
{
    let s = hex_lower(bytes);
    assert(s[2 * i] == hex_digit((bytes[i] / 16) as nat));
    assert((2 * i + 1) / 2 == i && (2 * i + 1) % 2 == 1);
    assert(s[2 * i + 1] == hex_digit((bytes[i] % 16) as nat));
}

/// What is kept for a new key is that key and its hexadecimal digits.
pub proof fn key_is_kept_in_digits(fresh: [u8; 32], r: SecretAction, i: int)
    requires
        call_ensures(keep_secret, (fresh,), r),
        0 <= i < 32,
    ensures
        r matches SecretAction::Save { key, hex } && key == fresh && hex@.len() == 64 && hex_value(
            hex@[2 * i],
        ) * 16 + hex_value(hex@[2 * i + 1]) == fresh@[i],
{
    hex_digits_of_bytes(fresh@, i);
}

/// The text that was kept for a key gives the same key back, with white space around
/// it or not, and the environment takes it too.
pub proof fn kept_key_is_found_again(
    fresh: [u8; 32],
    kept: SecretAction,
    hex: Seq<char>,
    before: Seq<char>,
    after: Seq<char>,
    contents: &str,
    found: SecretAction,
    value: &str,
    used: SecretAction,
)
    requires
        call_ensures(keep_secret, (fresh,), kept),
        kept matches SecretAction::Save { key, hex: text } && text@ == hex,
        forall|i: int| 0 <= i < before.len() ==> space(#[trigger] before[i]),
        forall|i: int| 0 <= i < after.len() ==> space(#[trigger] after[i]),
        contents@ == before + hex + after,
        value@ == hex,
        call_ensures(secret_from_file, (Some(contents),), found),
        call_ensures(secret_from_environment, (Some(value),), used),
    ensures
        found matches SecretAction::Use(key) && key@ == fresh@,
        used matches SecretAction::Use(key) && key@ == fresh@,
{
    assert(hex == hex_lower(fresh@));
    hex_is_no_space(fresh@);
    assert(!space(hex[0]) && !space(hex[63]));
    trim_takes_spaces(before, hex, after);
    assert(trim(contents@) == hex_lower(fresh@));
}

/// Hexadecimal digits are no white space.
proof fn hex_is_no_space(key: Seq<u8>)
    ensures
        forall|i: int| 0 <= i < hex_lower(key).len() ==> !space(#[trigger] hex_lower(key)[i]),
{
    let s = hex_lower(key);
    assert forall|i: int| 0 <= i < s.len() implies !space(#[trigger] s[i]) by {
        let n = (if i % 2 == 0 {
            key[i / 2] / 16
        } else {
            key[i / 2] % 16
        }) as nat;
        assert(s[i] == hex_digit(n) && n < 16);
    }
}

/// What the environment holds decides, and the file is looked into exactly where it
/// holds nothing. The file never ends the search: it gives its key, or a new one is
/// made and kept.
pub proof fn environment_comes_before_the_file(
    value: Option<&str>,
    first: SecretAction,
    contents: Option<&str>,
    second: SecretAction,
)
    requires
        call_ensures(secret_from_environment, (value,), first),
        call_ensures(secret_from_file, (contents,), second),
    ensures
        first is ReadFile <==> value is None,
        first is Use <==> value is Some && secret_of(value->0@) is Some,
        first is Use ==> first->Use_0@ == secret_of(value->0@)->0,
        first is Fail <==> value is Some && secret_of(value->0@) is None,
        second is Use <==> contents is Some && secret_of(trim(contents->0@)) is Some,
        second is Use ==> second->Use_0@ == secret_of(trim(contents->0@))->0,
        second is Use || second is Save,
        second matches SecretAction::Save { key, hex } ==> hex@ == hex_lower(key@),
{
}

/// A key that was parsed is used as it is, and an error is handed on as it is.
pub proof fn parsed_environment_is_used(
    parsed: Option<Result<[u8; 32], iroh::KeyParsingError>>,
    r: SecretAction,
)
    requires
        call_ensures(use_environment, (parsed,), r),
    ensures
        parsed is None <==> r is ReadFile,
        parsed matches Some(Ok(key)) ==> r == SecretAction::Use(key),
        parsed matches Some(Err(e)) ==> r == SecretAction::Fail(e),
{
}

} // verus!
