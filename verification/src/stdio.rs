//! The parts of `std::io` and `std::string` that the library touches:
//! declarations of the error types and wrappers of the calls that produce
//! them.
use vstd::prelude::*;
use vstd::utf8::{decode_utf8, valid_utf8};

verus! {

#[verifier::external_type_specification]
#[verifier::external_body]
pub struct ExIoError(std::io::Error);

#[verifier::external_type_specification]
#[verifier::external_body]
pub struct ExFromUtf8Error(std::string::FromUtf8Error);

/// `String::from_utf8`: succeeds exactly on valid UTF-8, and then holds the
/// decoded characters.
#[verifier::external_body]
pub(crate) fn string_from_utf8(bytes: Vec<u8>) -> (res: Result<String, std::string::FromUtf8Error>)
    ensures
        res is Ok <==> valid_utf8(bytes@),
        res matches Ok(s) ==> s@ == decode_utf8(bytes@),
{
    String::from_utf8(bytes)
}

/// `std::io::Error::new` with `ErrorKind::InvalidData`, wrapping a UTF-8
/// decoding error.
#[verifier::external_body]
pub(crate) fn invalid_data_error(e: std::string::FromUtf8Error) -> (res: std::io::Error) {
    std::io::Error::new(std::io::ErrorKind::InvalidData, e)
}

/// The `Display` text of an I/O error (`io::Error::to_string`). Nothing is
/// stated of it: it depends on the operating system's error messages.
#[verifier::external_body]
pub(crate) fn io_error_text(e: &std::io::Error) -> (res: String) {
    e.to_string()
}

/// Append `src` to `dst`.
pub fn append_bytes(dst: &mut Vec<u8>, src: &[u8])
    ensures
        final(dst)@ == old(dst)@ + src@,
{
    let mut i: usize = 0;
    while i < src.len()
        invariant
            i <= src@.len(),
            dst@ == old(dst)@ + src@.subrange(0, i as int),
        decreases src@.len() - i,
    {
        dst.push(src[i]);
        assert(src@.subrange(0, i + 1) == src@.subrange(0, i as int).push(src@[i as int]));
        i += 1;
    }
    assert(src@.subrange(0, src@.len() as int) == src@);
}

} // verus!
