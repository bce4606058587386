//! The calls that the parsers make into `nom` and into `std`.

use vstd::prelude::*;
use vstd::utf8::valid_utf8;
use vstd::string::StringSliceAdditionalSpecFns;

verus! {

/// The error wrapper that every `nom` parser returns.
#[verifier::external_type_specification]
#[verifier::external_body]
#[verifier::reject_recursive_types(E)]
pub struct ExNomErr<E>(nom::Err<E>);

/// `nom`'s default error: the input where the failing parser began and an error code.
#[verifier::external_type_specification]
#[verifier::external_body]
#[verifier::reject_recursive_types(I)]
pub struct ExNomError<I>(nom::error::Error<I>);

/// The two's complement reading of the unsigned 16-bit word `u`.
pub open spec fn signed16(u: int) -> int {
    if u >= 0x8000 { u - 0x1_0000 } else { u }
}

/// The two's complement reading of the unsigned 32-bit word `u`.
pub open spec fn signed32(u: int) -> int {
    if u >= 0x8000_0000 { u - 0x1_0000_0000 } else { u }
}

/// Unsigned little-endian value of the first two bytes.
pub open spec fn le2(b: Seq<u8>) -> int {
    b[0] + 0x100 * b[1]
}

/// Unsigned little-endian value of the first four bytes.
pub open spec fn le4(b: Seq<u8>) -> int {
    b[0] + 0x100 * b[1] + 0x1_0000 * b[2] + 0x100_0000 * b[3]
}

/// `nom::number::complete::le_u16`: succeeds exactly when two bytes are left,
/// reads them as a little-endian `u16` and hands back the input after them.
/// What its error holds is not stated.
#[verifier::external_body]
pub fn nom_le_u16<'a>(i: &'a [u8]) -> (res: Result<(&'a [u8], u16), nom::Err<nom::error::Error<&'a [u8]>>>)
    ensures
        res is Ok <==> i@.len() >= 2,
        res matches Ok((rest, v)) ==> rest@ == i@.skip(2) && v as int == le2(i@),
{
    nom::number::complete::le_u16(i)
}

/// `nom::number::complete::le_i16`: as `le_u16`, the word read as two's complement.
/// What its error holds is not stated.
#[verifier::external_body]
pub fn nom_le_i16<'a>(i: &'a [u8]) -> (res: Result<(&'a [u8], i16), nom::Err<nom::error::Error<&'a [u8]>>>)
    ensures
        res is Ok <==> i@.len() >= 2,
        res matches Ok((rest, v)) ==> rest@ == i@.skip(2) && v as int == signed16(le2(i@)),
{
    nom::number::complete::le_i16(i)
}

/// `nom::number::complete::le_u32`: succeeds exactly when four bytes are left,
/// reads them as a little-endian `u32` and hands back the input after them.
/// What its error holds is not stated.
#[verifier::external_body]
pub fn nom_le_u32<'a>(i: &'a [u8]) -> (res: Result<(&'a [u8], u32), nom::Err<nom::error::Error<&'a [u8]>>>)
    ensures
        res is Ok <==> i@.len() >= 4,
        res matches Ok((rest, v)) ==> rest@ == i@.skip(4) && v as int == le4(i@),
{
    nom::number::complete::le_u32(i)
}

/// `nom::number::complete::le_i32`: as `le_u32`, the word read as two's complement.
/// What its error holds is not stated.
#[verifier::external_body]
pub fn nom_le_i32<'a>(i: &'a [u8]) -> (res: Result<(&'a [u8], i32), nom::Err<nom::error::Error<&'a [u8]>>>)
    ensures
        res is Ok <==> i@.len() >= 4,
        res matches Ok((rest, v)) ==> rest@ == i@.skip(4) && v as int == signed32(le4(i@)),
{
    nom::number::complete::le_i32(i)
}

/// `nom::bytes::complete::tag`: succeeds exactly when the input starts with the
/// bytes of `pattern`; hands back the input after them and the matched bytes.
/// What its error holds is not stated.
#[verifier::external_body]
pub fn nom_tag<'a>(pattern: &str, i: &'a [u8]) -> (res: Result<(&'a [u8], &'a [u8]), nom::Err<nom::error::Error<&'a [u8]>>>)
    ensures
        res is Ok <==> (pattern.spec_bytes().len() <= i@.len()
            && i@.take(pattern.spec_bytes().len() as int) == pattern.spec_bytes()),
        res matches Ok((rest, matched)) ==> rest@ == i@.skip(pattern.spec_bytes().len() as int)
            && matched@ == i@.take(pattern.spec_bytes().len() as int),
{
    nom::bytes::complete::tag(pattern)(i)
}

/// `nom::bytes::complete::take`: succeeds exactly when `count` bytes are left;
/// hands back the input after them and those bytes.
/// What its error holds is not stated.
#[verifier::external_body]
pub fn nom_take<'a>(count: usize, i: &'a [u8]) -> (res: Result<(&'a [u8], &'a [u8]), nom::Err<nom::error::Error<&'a [u8]>>>)
    ensures
        res is Ok <==> count <= i@.len(),
        res matches Ok((rest, taken)) ==> rest@ == i@.skip(count as int) && taken@ == i@.take(count as int),
{
    nom::bytes::complete::take(count)(i)
}

/// `nom::bytes::complete::take_until` with a one-byte pattern (which `nom` looks up with
/// `memchr`): succeeds exactly when that byte occurs in the input; hands back the bytes
/// before its first occurrence and the input from that occurrence on.
/// What its error holds is not stated.
#[verifier::external_body]
pub fn nom_take_until<'a>(pattern: &str, i: &'a [u8]) -> (res: Result<(&'a [u8], &'a [u8]), nom::Err<nom::error::Error<&'a [u8]>>>)
    requires
        pattern.spec_bytes().len() == 1,
    ensures
        res is Ok <==> i@.contains(pattern.spec_bytes()[0]),
        res matches Ok((rest, taken)) ==> {
            &&& taken@.len() < i@.len()
            &&& i@[taken@.len() as int] == pattern.spec_bytes()[0]
            &&& forall|j: int| 0 <= j < taken@.len() ==> i@[j] != pattern.spec_bytes()[0]
            &&& taken@ == i@.take(taken@.len() as int)
            &&& rest@ == i@.skip(taken@.len() as int)
        },
{
    nom::bytes::complete::take_until(pattern)(i)
}

/// `std::str::from_utf8`: the bytes come back as a string slice exactly when they are
/// well-formed UTF-8, and the slice then holds those very bytes.
#[verifier::external_body]
pub fn str_from_utf8<'a>(bytes: &'a [u8]) -> (res: Option<&'a str>)
    ensures
        res is Some <==> valid_utf8(bytes@),
        res matches Some(s) ==> s.spec_bytes() == bytes@,
{
    match std::str::from_utf8(bytes) {
        Ok(s) => Some(s),
        Err(_) => None,
    }
}

} // verus!
