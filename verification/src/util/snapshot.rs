//! The fields that binary snapshots are made of. Every field is written and
//! read by `bincode`, in its fixed-width little-endian form; this module says
//! what each call gives and lines the fields up one behind the other.

use vstd::bytes::{
    spec_u32_from_le_bytes, spec_u32_to_le_bytes, spec_u64_from_le_bytes, spec_u64_to_le_bytes,
};
use vstd::prelude::*;
use vstd::slice::slice_subrange;
use vstd::utf8::{decode_utf8, encode_utf8, valid_utf8};

verus! {

/// The error type of `bincode`. Nothing is read from it.
#[verifier::external_type_specification]
#[verifier::external_body]
pub struct ExErrorKind(bincode::ErrorKind);

/// Why a snapshot could not be read.
#[derive(Clone, Copy, Debug, PartialEq, Eq, Structural)]
pub enum SnapshotError {
    /// The bytes do not hold the record they should.
    Decode,
    /// The snapshot is empty: nothing was ever stored in it.
    Missing,
}

/// The bytes of a single byte: itself.
pub open spec fn byte_image(value: u8) -> Seq<u8> {
    seq![value]
}

/// The bytes of a 32-bit word: four, least significant first.
pub open spec fn word_image(value: u32) -> Seq<u8> {
    spec_u32_to_le_bytes(value)
}

/// The bytes of a 64-bit word: eight, least significant first.
pub open spec fn long_image(value: u64) -> Seq<u8> {
    spec_u64_to_le_bytes(value)
}

/// The bytes of a text: the length of its UTF-8 form as a 64-bit word, then
/// that form.
pub open spec fn text_image(text: Seq<char>) -> Seq<u8> {
    long_image(encode_utf8(text).len() as u64) + encode_utf8(text)
}

/// The byte at the front of `bytes` and what follows it.
pub open spec fn byte_at_front(bytes: Seq<u8>) -> Option<(u8, Seq<u8>)> {
    if bytes.len() >= 1 {
        Some((bytes[0], bytes.skip(1)))
    } else {
        None
    }
}

/// The 32-bit word at the front of `bytes` and what follows it.
pub open spec fn word_at_front(bytes: Seq<u8>) -> Option<(u32, Seq<u8>)> {
    if bytes.len() >= 4 {
        Some((spec_u32_from_le_bytes(bytes.subrange(0, 4)), bytes.skip(4)))
    } else {
        None
    }
}

/// The 64-bit word at the front of `bytes` and what follows it.
pub open spec fn long_at_front(bytes: Seq<u8>) -> Option<(u64, Seq<u8>)> {
    if bytes.len() >= 8 {
        Some((spec_u64_from_le_bytes(bytes.subrange(0, 8)), bytes.skip(8)))
    } else {
        None
    }
}

/// The text at the front of `bytes` and what follows it: a length, then as
/// many bytes of well-formed UTF-8.
pub open spec fn text_at_front(bytes: Seq<u8>) -> Option<(Seq<char>, Seq<u8>)> {
    match long_at_front(bytes) {
        Some((length, rest)) => if length <= rest.len() && valid_utf8(
            rest.subrange(0, length as int),
        ) {
            Some((decode_utf8(rest.subrange(0, length as int)), rest.skip(length as int)))
        } else {
            None
        },
        None => None,
    }
}

/// `bincode::serialize` on a `u8`: the byte itself. With no size limit set
/// and a `Vec` to write to, no step of the call can fail.
#[verifier::external_body]
fn encode_byte(value: u8) -> (bytes: Result<Vec<u8>, Box<bincode::ErrorKind>>)
    ensures
        bytes is Ok,
        bytes->Ok_0@ == byte_image(value),
{
    bincode::serialize(&value)
}

/// `bincode::serialize` on a `u32`: its four bytes, least significant first.
/// With no size limit set and a `Vec` to write to, no step of the call can
/// fail.
#[verifier::external_body]
fn encode_word(value: u32) -> (bytes: Result<Vec<u8>, Box<bincode::ErrorKind>>)
    ensures
        bytes is Ok,
        bytes->Ok_0@ == word_image(value),
{
    bincode::serialize(&value)
}

/// `bincode::serialize` on a `u64`: its eight bytes, least significant
/// first. With no size limit set and a `Vec` to write to, no step of the call
/// can fail.
#[verifier::external_body]
fn encode_long(value: u64) -> (bytes: Result<Vec<u8>, Box<bincode::ErrorKind>>)
    ensures
        bytes is Ok,
        bytes->Ok_0@ == long_image(value),
{
    bincode::serialize(&value)
}

/// `bincode::serialize` on a `str`: the length of the text in bytes as a
/// `u64`, then the bytes of the text. With no size limit set and a `Vec` to
/// write to, no step of the call can fail.
#[verifier::external_body]
fn encode_text(text: &str) -> (bytes: Result<Vec<u8>, Box<bincode::ErrorKind>>)
    ensures
        bytes is Ok,
        bytes->Ok_0@ == text_image(text@),
{
    bincode::serialize(text)
}

/// `bincode::deserialize` to a `u8`: the first byte; it fails on no bytes,
/// and what follows the first byte is not looked at.
#[verifier::external_body]
fn decode_byte(bytes: &[u8]) -> (value: Result<u8, Box<bincode::ErrorKind>>)
    ensures
        match value {
            Ok(v) => byte_at_front(bytes@) matches Some((front, _)) && v == front,
            Err(_) => byte_at_front(bytes@) is None,
        },
{
    bincode::deserialize::<u8>(bytes)
}

/// `bincode::deserialize` to a `u32`: the word that the first four bytes
/// write, least significant first; it fails on fewer bytes, and what follows
/// them is not looked at.
#[verifier::external_body]
fn decode_word(bytes: &[u8]) -> (value: Result<u32, Box<bincode::ErrorKind>>)
    ensures
        match value {
            Ok(v) => word_at_front(bytes@) matches Some((front, _)) && v == front,
            Err(_) => word_at_front(bytes@) is None,
        },
{
    bincode::deserialize::<u32>(bytes)
}

/// `bincode::deserialize` to a `u64`: the word that the first eight bytes
/// write, least significant first; it fails on fewer bytes, and what follows
/// them is not looked at.
#[verifier::external_body]
fn decode_long(bytes: &[u8]) -> (value: Result<u64, Box<bincode::ErrorKind>>)
    ensures
        match value {
            Ok(v) => long_at_front(bytes@) matches Some((front, _)) && v == front,
            Err(_) => long_at_front(bytes@) is None,
        },
{
    bincode::deserialize::<u64>(bytes)
}

/// `bincode::deserialize` to a `String`: a length is read as a `u64`, then
/// as many bytes, which must be there and be well-formed UTF-8; they are the
/// text. What follows them is not looked at.
#[verifier::external_body]
fn decode_text(bytes: &[u8]) -> (text: Result<String, Box<bincode::ErrorKind>>)
    ensures
        match text {
            Ok(t) => text_at_front(bytes@) matches Some((front, _)) && t@ == front,
            Err(_) => text_at_front(bytes@) is None,
        },
{
    bincode::deserialize::<String>(bytes)
}

/// Appends what `encoded` holds to `out`.
fn put(out: &mut Vec<u8>, encoded: Result<Vec<u8>, Box<bincode::ErrorKind>>)
    requires
        encoded is Ok,
    ensures
        final(out)@ == old(out)@ + encoded->Ok_0@,
{
    match encoded {
        Ok(mut bytes) => out.append(&mut bytes),
        Err(_) => {},
    }
}

/// Appends a byte to `out`.
pub fn put_byte(out: &mut Vec<u8>, value: u8)
    ensures
        final(out)@ == old(out)@ + byte_image(value),
{
    put(out, encode_byte(value))
}

/// Appends a 32-bit word to `out`.
pub fn put_word(out: &mut Vec<u8>, value: u32)
    ensures
        final(out)@ == old(out)@ + word_image(value),
{
    put(out, encode_word(value))
}

/// Appends a 64-bit word to `out`.
pub fn put_long(out: &mut Vec<u8>, value: u64)
    ensures
        final(out)@ == old(out)@ + long_image(value),
{
    put(out, encode_long(value))
}

/// Appends a text to `out`.
pub fn put_text(out: &mut Vec<u8>, text: &str)
    ensures
        final(out)@ == old(out)@ + text_image(text@),
{
    put(out, encode_text(text))
}

/// Reads the byte that stands at place `at` of `bytes`.
pub fn take_byte(bytes: &[u8], at: usize) -> (taken: Result<(u8, usize), SnapshotError>)
    requires
        at <= bytes@.len(),
    ensures
        match taken {
            Ok((value, next)) => at <= next <= bytes@.len() && byte_at_front(bytes@.skip(at as int))
                == Some((value, bytes@.skip(next as int))),
            Err(e) => e == SnapshotError::Decode && byte_at_front(bytes@.skip(at as int)) is None,
        },
{
    let rest = slice_subrange(bytes, at, bytes.len());
    assert(rest@ =~= bytes@.skip(at as int));
    match decode_byte(rest) {
        Ok(value) => {
            assert(bytes@.skip(at as int).skip(1) =~= bytes@.skip(at + 1));
            Ok((value, at + 1))
        },
        Err(_) => Err(SnapshotError::Decode),
    }
}

/// Reads the 32-bit word that starts at place `at` of `bytes`.
pub fn take_word(bytes: &[u8], at: usize) -> (taken: Result<(u32, usize), SnapshotError>)
    requires
        at <= bytes@.len(),
    ensures
        match taken {
            Ok((value, next)) => at <= next <= bytes@.len() && word_at_front(bytes@.skip(at as int))
                == Some((value, bytes@.skip(next as int))),
            Err(e) => e == SnapshotError::Decode && word_at_front(bytes@.skip(at as int)) is None,
        },
{
    let rest = slice_subrange(bytes, at, bytes.len());
    assert(rest@ =~= bytes@.skip(at as int));
    match decode_word(rest) {
        Ok(value) => {
            assert(bytes@.skip(at as int).skip(4) =~= bytes@.skip(at + 4));
            Ok((value, at + 4))
        },
        Err(_) => Err(SnapshotError::Decode),
    }
}

/// Reads the 64-bit word that starts at place `at` of `bytes`.
pub fn take_long(bytes: &[u8], at: usize) -> (taken: Result<(u64, usize), SnapshotError>)
    requires
        at <= bytes@.len(),
    ensures
        match taken {
            Ok((value, next)) => at <= next <= bytes@.len() && long_at_front(bytes@.skip(at as int))
                == Some((value, bytes@.skip(next as int))),
            Err(e) => e == SnapshotError::Decode && long_at_front(bytes@.skip(at as int)) is None,
        },
{
    let rest = slice_subrange(bytes, at, bytes.len());
    assert(rest@ =~= bytes@.skip(at as int));
    match decode_long(rest) {
        Ok(value) => {
            assert(bytes@.skip(at as int).skip(8) =~= bytes@.skip(at + 8));
            Ok((value, at + 8))
        },
        Err(_) => Err(SnapshotError::Decode),
    }
}

/// Reads the text that starts at place `at` of `bytes`.
pub fn take_text(bytes: &[u8], at: usize) -> (taken: Result<(String, usize), SnapshotError>)
    requires
        at <= bytes@.len(),
    ensures
        match taken {
            Ok((text, next)) => at <= next <= bytes@.len() && text_at_front(bytes@.skip(at as int))
                == Some((text@, bytes@.skip(next as int))),
            Err(e) => e == SnapshotError::Decode && text_at_front(bytes@.skip(at as int)) is None,
        },
{
    let rest = slice_subrange(bytes, at, bytes.len());
    assert(rest@ =~= bytes@.skip(at as int));
    match decode_text(rest) {
        Ok(text) => {
            let length = text.as_str().len();
            proof {
                let stored = long_at_front(rest@)->Some_0.0;
                let body = rest@.skip(8).subrange(0, stored as int);
                vstd::utf8::decode_utf8_encode_utf8(body);
                assert(text@ == decode_utf8(body));
                assert(length == stored);
                assert(bytes@.skip(at as int).skip(8).skip(stored as int) =~= bytes@.skip(
                    at + 8 + length,
                ));
            }
            Ok((text, at + 8 + length))
        },
        Err(_) => Err(SnapshotError::Decode),
    }
}

/// A byte is read back as it was written.
pub proof fn lemma_byte_round_trip(value: u8, rest: Seq<u8>)
    ensures
        byte_at_front(byte_image(value) + rest) == Some((value, rest)),
        byte_image(value).len() == 1,
{
    assert((byte_image(value) + rest).skip(1) =~= rest);
}

/// A 32-bit word is read back as it was written.
pub proof fn lemma_word_round_trip(value: u32, rest: Seq<u8>)
    ensures
        word_at_front(word_image(value) + rest) == Some((value, rest)),
        word_image(value).len() == 4,
{
    vstd::bytes::lemma_auto_spec_u32_to_from_le_bytes();
    assert((word_image(value) + rest).skip(4) =~= rest);
    assert((word_image(value) + rest).subrange(0, 4) =~= word_image(value));
}

/// A 64-bit word is read back as it was written.
pub proof fn lemma_long_round_trip(value: u64, rest: Seq<u8>)
    ensures
        long_at_front(long_image(value) + rest) == Some((value, rest)),
        long_image(value).len() == 8,
{
    vstd::bytes::lemma_auto_spec_u64_to_from_le_bytes();
    assert((long_image(value) + rest).skip(8) =~= rest);
    assert((long_image(value) + rest).subrange(0, 8) =~= long_image(value));
}

/// A text whose UTF-8 form has a length that fits a 64-bit word is read back
/// as it was written.
pub proof fn lemma_text_round_trip(text: Seq<char>, rest: Seq<u8>)
    requires
        encode_utf8(text).len() <= u64::MAX,
    ensures
        text_at_front(text_image(text) + rest) == Some((text, rest)),
        text_image(text).len() >= 8,
{
    let body = encode_utf8(text);
    let length = body.len() as u64;
    lemma_long_round_trip(length, body + rest);
    assert(text_image(text) + rest =~= long_image(length) + (body + rest));
    assert((body + rest).subrange(0, length as int) =~= body);
    assert((body + rest).skip(length as int) =~= rest);
    vstd::utf8::encode_utf8_valid_utf8(text);
    vstd::utf8::encode_utf8_decode_utf8(text);
}

} // verus!
