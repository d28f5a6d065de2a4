use vstd::prelude::*;

use crate::error::AppError;
use vstd::utf8::decode_utf8;
use vstd::utf8::valid_utf8;

verus! {

/// Relies on std::io::Read::read_to_end: it reads the stream to its end,
/// appending every byte to the buffer, retrying interrupted reads and
/// reporting any other transport failure. What arrives depends on the
/// stream, so nothing more is promised of the bytes.
#[verifier::external_body]
fn read_all<R: std::io::Read>(reader: &mut R) -> (r: Result<Vec<u8>, AppError>)
    ensures
        r matches Err(e) ==> e is IOError,
{
    let mut buf = Vec::new();
    match reader.read_to_end(&mut buf) {
        Ok(_) => Ok(buf),
        Err(e) => Err(AppError::IOError(format!("{}", e))),
    }
}

/// Relies on String::from_utf8: it succeeds exactly on a well-formed UTF-8
/// byte sequence and returns that sequence's characters.
#[verifier::external_body]
fn utf8_string(bytes: Vec<u8>) -> (r: Result<String, AppError>)
    ensures
        r is Ok <==> valid_utf8(bytes@),
        r matches Ok(s) ==> s@ == decode_utf8(bytes@),
        r matches Err(e) ==> e is IOError,
{
    match String::from_utf8(bytes) {
        Ok(s) => Ok(s),
        Err(e) => Err(AppError::IOError(format!("{}", e))),
    }
}

/// Decode an accumulated byte response as text: exactly the characters the
/// bytes encode when they are well-formed UTF-8, and the I/O error variant
/// when they are not — malformed text in a stream is reported like any
/// other transport fault.
pub fn bytes_to_string(bytes: Vec<u8>) -> (r: Result<String, AppError>)
    ensures
        r is Ok <==> valid_utf8(bytes@),
        r matches Ok(s) ==> s@ == decode_utf8(bytes@),
        r matches Err(e) ==> e is IOError,
{
    utf8_string(bytes)
}

/// Drain a reader to its end and return the accumulated text. The bytes that
/// arrive depend on the stream, so the result's content cannot be promised
/// here; what is promised is the failure shape: whatever goes wrong — a
/// transport fault or text that is not well-formed UTF-8 — comes back as the
/// I/O error variant, never another. The decoding itself is
/// [`bytes_to_string`], whose contract is exact.
pub fn reader_to_string<R: std::io::Read>(mut reader: R) -> (r: Result<String, AppError>)
    ensures
        r matches Err(e) ==> e is IOError,
{
    let bytes = match read_all(&mut reader) {
        Ok(bytes) => bytes,
        Err(e) => {
            return Err(e);
        },
    };
    bytes_to_string(bytes)
}

} // verus!
