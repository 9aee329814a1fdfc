//! The outside items that the library calls: the byte buffers of the
//! `bytes` crate and the std conversions that vstd does not specify.
//! Each contract here is believed, not proved; each doc comment says what it
//! claims of the outside function.

use vstd::prelude::*;
use vstd::utf8::*;

verus! {

/// `bytes::Bytes`, an immutable shared byte buffer.
#[verifier::external_type_specification]
#[verifier::external_body]
pub struct ExBytes(bytes::Bytes);

/// `bytes::BytesMut`, a growable byte buffer.
#[verifier::external_type_specification]
#[verifier::external_body]
pub struct ExBytesMut(bytes::BytesMut);

/// `std::string::FromUtf8Error`, the error of a failed UTF-8 conversion.
#[verifier::external_type_specification]
#[verifier::external_body]
pub struct ExFromUtf8Error(std::string::FromUtf8Error);

/// `std::time::Instant`, a point in monotonic time, carried opaquely.
#[verifier::external_type_specification]
#[verifier::external_body]
pub struct ExInstant(std::time::Instant);

/// `<Instant as Clone>::clone`: `Instant` is `Copy`, and its clone is the
/// same point in time.
pub assume_specification[ <std::time::Instant as Clone>::clone ](i: &std::time::Instant) -> (c: std::time::Instant)
    ensures
        c == *i,
;

/// The bytes that a `bytes::Bytes` holds, in order.
pub uninterp spec fn bytes_view(b: bytes::Bytes) -> Seq<u8>;

/// The bytes that a `bytes::BytesMut` holds, in order.
pub uninterp spec fn bytes_mut_view(b: bytes::BytesMut) -> Seq<u8>;

/// `Bytes::from(Vec<u8>)`: the new buffer holds exactly the vector's bytes.
#[verifier::external_body]
pub fn bytes_from_vec(v: Vec<u8>) -> (b: bytes::Bytes)
    ensures
        bytes_view(b) == v@,
{
    bytes::Bytes::from(v)
}

/// `<Bytes as Deref>::deref`: the slice shows exactly the buffer's bytes.
#[verifier::external_body]
pub fn bytes_slice(b: &bytes::Bytes) -> (s: &[u8])
    ensures
        s@ == bytes_view(*b),
{
    &b[..]
}

/// `<Bytes as Clone>::clone`: the clone holds the same bytes.
pub assume_specification[ <bytes::Bytes as Clone>::clone ](b: &bytes::Bytes) -> (c: bytes::Bytes)
    ensures
        bytes_view(c) == bytes_view(*b),
;

/// `BytesMut::with_capacity`: the new buffer is empty (its length is 0,
/// whatever the capacity).
#[verifier::external_body]
pub fn bytes_mut_with_capacity(capacity: usize) -> (b: bytes::BytesMut)
    ensures
        bytes_mut_view(b) == Seq::<u8>::empty(),
{
    bytes::BytesMut::with_capacity(capacity)
}

/// `BytesMut::extend_from_slice`: appends the slice's bytes at the end.
#[verifier::external_body]
pub fn bytes_mut_extend(b: &mut bytes::BytesMut, data: &[u8])
    ensures
        bytes_mut_view(*final(b)) == bytes_mut_view(*old(b)) + data@,
{
    b.extend_from_slice(data)
}

/// `<BytesMut as Deref>::deref`: the slice shows exactly the buffer's bytes.
#[verifier::external_body]
pub fn bytes_mut_slice(b: &bytes::BytesMut) -> (s: &[u8])
    ensures
        s@ == bytes_mut_view(*b),
{
    &b[..]
}

/// `<BytesMut as Buf>::advance`: drops the first `n` bytes; it panics when
/// `n` exceeds the length, which `requires` rules out.
#[verifier::external_body]
pub fn bytes_mut_advance(b: &mut bytes::BytesMut, n: usize)
    requires
        n <= bytes_mut_view(*old(b)).len(),
    ensures
        bytes_mut_view(*final(b)) == bytes_mut_view(*old(b)).subrange(
            n as int,
            bytes_mut_view(*old(b)).len() as int,
        ),
{
    bytes::Buf::advance(b, n)
}

/// `BytesMut::split_to`: returns the first `at` bytes and keeps the rest; it
/// panics when `at` exceeds the length, which `requires` rules out.
#[verifier::external_body]
pub fn bytes_mut_split_to(b: &mut bytes::BytesMut, at: usize) -> (front: bytes::BytesMut)
    requires
        at <= bytes_mut_view(*old(b)).len(),
    ensures
        bytes_mut_view(front) == bytes_mut_view(*old(b)).subrange(0, at as int),
        bytes_mut_view(*final(b)) == bytes_mut_view(*old(b)).subrange(
            at as int,
            bytes_mut_view(*old(b)).len() as int,
        ),
{
    b.split_to(at)
}

/// `BytesMut::clear`: the buffer becomes empty.
#[verifier::external_body]
pub fn bytes_mut_clear(b: &mut bytes::BytesMut)
    ensures
        bytes_mut_view(*final(b)) == Seq::<u8>::empty(),
{
    b.clear()
}

/// The bytes that a `FromUtf8Error` holds: those that failed to convert
/// (what its `as_bytes` and `into_bytes` give back).
pub uninterp spec fn utf8_error_bytes(e: std::string::FromUtf8Error) -> Seq<u8>;

/// The message of the `FromUtf8Error` for bytes `b`. It is fixed by the bytes
/// alone (where the first invalid sequence starts and how long it is).
pub uninterp spec fn utf8_error_message(b: Seq<u8>) -> Seq<char>;

/// `String::from_utf8`: succeeds exactly on valid UTF-8, and then the string
/// holds the characters that the bytes encode; the error holds the bytes.
#[verifier::external_body]
pub fn string_from_utf8(v: Vec<u8>) -> (r: Result<String, std::string::FromUtf8Error>)
    ensures
        r is Ok <==> valid_utf8(v@),
        r matches Ok(s) ==> s@ == decode_utf8(v@),
        r matches Err(e) ==> utf8_error_bytes(e) == v@,
{
    String::from_utf8(v)
}

/// `<FromUtf8Error as ToString>::to_string`: the error's message, named as a
/// function of the bytes the error holds.
#[verifier::external_body]
pub fn utf8_error_text(e: &std::string::FromUtf8Error) -> (t: String)
    ensures
        t@ == utf8_error_message(utf8_error_bytes(*e)),
{
    e.to_string()
}

/// `<std::io::Error as ToString>::to_string`: the error's message, which
/// comes from the operating system. Nothing is stated of its text.
#[verifier::external_body]
pub fn io_error_text(e: &std::io::Error) -> String {
    e.to_string()
}

} // verus!
